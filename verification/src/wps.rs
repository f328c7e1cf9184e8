//! Push-button setup of the wireless network: from the press on the router's button to a
//! connection with the credentials that it sends.

use crate::text;
use crate::text::{lossy_text, push_dec, push_hex};
use crate::wifi;
use crate::wifi::{client_configuration, WifiError, WPS_CONNECT_SECONDS};
use vstd::prelude::*;
use vstd::string::*;

verus! {

/// Seconds that push-button setup waits for the router.
pub const WPS_SECONDS: u32 = 120;

/// The bytes before the first zero.
pub open spec fn until_zero(b: Seq<u8>) -> Seq<u8>
    decreases b.len(),
{
    if b.len() == 0 || b[0] == 0 {
        Seq::empty()
    } else {
        seq![b[0]] + until_zero(b.skip(1))
    }
}

/// The bytes before the first zero.
pub fn cut_at_zero(b: &[u8]) -> (r: Vec<u8>)
    ensures
        r@ == until_zero(b@),
{
    let mut out: Vec<u8> = Vec::new();
    let mut i: usize = 0;
    proof {
        assert(b@.skip(0) =~= b@);
        assert(out@ + until_zero(b@) =~= until_zero(b@));
    }
    while i < b.len() && b[i] != 0
        invariant
            i <= b@.len(),
            out@ + until_zero(b@.skip(i as int)) == until_zero(b@),
        decreases b@.len() - i,
    {
        let ghost rest = b@.skip(i as int);
        let ghost before = out@;
        out.push(b[i]);
        proof {
            assert(rest.skip(1) =~= b@.skip(i + 1));
            assert(out@ + until_zero(b@.skip(i + 1)) =~= before + until_zero(rest));
        }
        i = i + 1;
    }
    proof {
        let rest = b@.skip(i as int);
        assert(until_zero(rest) =~= Seq::<u8>::empty());
        assert(out@ =~= out@ + until_zero(rest));
    }
    out
}

/// An event of push-button setup.
pub enum WpsEvent {
    /// The router sent name and passphrase, each in a field that zeros fill up.
    Success { ssid: Vec<u8>, passphrase: Vec<u8> },
    Failed,
    TimedOut,
    /// Anything else.
    Other,
}

/// What the router has sent.
pub struct WpsState {
    pub credentials: Option<(String, String)>,
    pub failed: bool,
}

/// Name and passphrase as plain values.
pub open spec fn pair_view(c: Option<(String, String)>) -> Option<(Seq<char>, Seq<char>)> {
    match c {
        Some((a, b)) => Some((a@, b@)),
        None => None,
    }
}

/// What an event changes: credentials are kept, and a failure is noted.
pub open spec fn event_taken(before: WpsState, after: WpsState, event: WpsEvent) -> bool {
    match event {
        WpsEvent::Success { ssid, passphrase } => {
            &&& pair_view(after.credentials) == Some(
                (text::lossy(until_zero(ssid@)), text::lossy(until_zero(passphrase@))),
            )
            &&& after.failed == before.failed
        },
        WpsEvent::Failed | WpsEvent::TimedOut => {
            &&& after.credentials == before.credentials
            &&& after.failed
        },
        WpsEvent::Other => after == before,
    }
}

impl WpsState {
    /// Nothing happened yet.
    pub fn new() -> (s: WpsState)
        ensures
            s.credentials is None,
            !s.failed,
    {
        WpsState { credentials: None, failed: false }
    }

    /// Keeps credentials that were read.
    pub fn accept(&mut self, ssid: String, passphrase: String)
        ensures
            pair_view(final(self).credentials) == Some((ssid@, passphrase@)),
            final(self).failed == old(self).failed,
    {
        self.credentials = Some((ssid, passphrase));
    }

    /// Takes an event.
    pub fn wps_event_handler(&mut self, event: WpsEvent)
        ensures
            event_taken(*old(self), *final(self), event),
    {
        match event {
            WpsEvent::Success { ssid, passphrase } => {
                let s = cut_at_zero(ssid.as_slice());
                let p = cut_at_zero(passphrase.as_slice());
                let name = lossy_text(s.as_slice());
                let pass = lossy_text(p.as_slice());
                self.accept(name, pass);
            },
            WpsEvent::Failed | WpsEvent::TimedOut => {
                self.failed = true;
            },
            WpsEvent::Other => {},
        }
    }
}

/// One thing to do.
pub enum WpsCommand {
    /// Show a message on the display.
    Show { title: &'static str, body: String },
    /// Take the message away.
    Clear,
    /// Listen to events of the radio.
    Register,
    Unregister,
    /// End push-button mode.
    Disable,
    /// Hand credentials to the radio.
    Configure { ssid: String, password: String },
    Pause { seconds: u64 },
    /// Keep the radio awake.
    PowerSaveOff,
}

/// The same as plain values.
pub enum Command {
    Show { title: Seq<char>, body: Seq<char> },
    Clear,
    Register,
    Unregister,
    Disable,
    Configure { ssid: Seq<char>, password: Seq<char> },
    Pause { seconds: u64 },
    PowerSaveOff,
}

impl View for WpsCommand {
    type V = Command;

    open spec fn view(&self) -> Command {
        match *self {
            WpsCommand::Show { title, body } => Command::Show { title: title@, body: body@ },
            WpsCommand::Clear => Command::Clear,
            WpsCommand::Register => Command::Register,
            WpsCommand::Unregister => Command::Unregister,
            WpsCommand::Disable => Command::Disable,
            WpsCommand::Configure { ssid, password } => Command::Configure {
                ssid: ssid@,
                password: password@,
            },
            WpsCommand::Pause { seconds } => Command::Pause { seconds },
            WpsCommand::PowerSaveOff => Command::PowerSaveOff,
        }
    }
}

/// Commands as plain values.
pub open spec fn commands(v: Seq<WpsCommand>) -> Seq<Command> {
    v.map_values(|c: WpsCommand| c@)
}

/// What is asked next.
pub enum WpsAsk {
    /// Enter push-button mode; the answer is a code.
    Enable,
    /// Begin the handshake; the answer is a code.
    Start,
    /// Wait a second.
    Second,
    /// Begin to connect; the answer is a code.
    Connect,
    /// Whether there is a connection.
    IsConnected,
    /// It is over: the router's credentials, which the radio connects with. The connection may
    /// still be under way.
    Done { ssid: String, password: String },
    /// It is over without a connection; the reason in words.
    Failed { message: String },
    /// It is over: connecting gave this code.
    ConnectFailed { code: i32 },
}

/// The same as plain values.
pub enum Ask {
    Enable,
    Start,
    Second,
    Connect,
    IsConnected,
    Done { ssid: Seq<char>, password: Seq<char> },
    Failed { message: Seq<char> },
    ConnectFailed { code: i32 },
}

impl View for WpsAsk {
    type V = Ask;

    open spec fn view(&self) -> Ask {
        match *self {
            WpsAsk::Enable => Ask::Enable,
            WpsAsk::Start => Ask::Start,
            WpsAsk::Second => Ask::Second,
            WpsAsk::Connect => Ask::Connect,
            WpsAsk::IsConnected => Ask::IsConnected,
            WpsAsk::Done { ssid, password } => Ask::Done { ssid: ssid@, password: password@ },
            WpsAsk::Failed { message } => Ask::Failed { message: message@ },
            WpsAsk::ConnectFailed { code } => Ask::ConnectFailed { code },
        }
    }
}

/// What the next answer is about.
#[derive(Copy, Clone, Debug, PartialEq, Eq, Structural)]
pub enum Stage {
    Enabling,
    Starting,
    /// Waiting for the router, for this many seconds so far.
    Polling(u32),
    Connecting,
    /// Waiting for the connection, for this many seconds so far.
    Linking(u32),
    Over,
}

/// How far push-button setup is, as the web interface shows it.
#[derive(Copy, Clone, Debug, PartialEq, Eq, Structural)]
pub enum WpsStatus {
    /// None was asked for.
    Idle,
    /// One was asked for.
    Requested,
    /// The router is waited for, for this many more seconds.
    Waiting(u32),
    /// The router sent credentials, which the radio connects with.
    Connecting,
    Succeeded,
    Failed,
}

/// How far a setup is that asks this next.
pub open spec fn status_of(stage: Stage, ask: Ask) -> WpsStatus {
    match ask {
        Ask::Enable | Ask::Start => WpsStatus::Waiting(WPS_SECONDS),
        Ask::Second => match stage {
            Stage::Polling(n) if n <= WPS_SECONDS => WpsStatus::Waiting((WPS_SECONDS - n) as u32),
            _ => WpsStatus::Waiting(WPS_SECONDS),
        },
        Ask::Connect | Ask::IsConnected => WpsStatus::Connecting,
        Ask::Done { .. } => WpsStatus::Succeeded,
        Ask::Failed { .. } | Ask::ConnectFailed { .. } => WpsStatus::Failed,
    }
}

/// A setup under way.
pub struct WpsSession {
    stage: Stage,
    ssid: String,
    password: String,
}

/// The same as plain values.
pub struct Session {
    pub stage: Stage,
    pub ssid: Seq<char>,
    pub password: Seq<char>,
}

impl View for WpsSession {
    type V = Session;

    closed spec fn view(&self) -> Session {
        Session { stage: self.stage, ssid: self.ssid@, password: self.password@ }
    }
}

impl Session {
    /// The seconds are within their limits.
    pub open spec fn wf(self) -> bool {
        &&& self.stage matches Stage::Polling(n) ==> n < WPS_SECONDS
        &&& self.stage matches Stage::Linking(n) ==> n < WPS_CONNECT_SECONDS
    }
}

/// State, commands and question after an answer.
pub struct Next {
    pub session: Session,
    pub commands: Seq<Command>,
    pub ask: Ask,
}

/// A code of the radio in words.
pub open spec fn code_text(head: Seq<char>, code: i32) -> Seq<char> {
    head + text::hex((code as int % 0x1_0000_0000) as nat)
}

/// The message while waiting, after `elapsed` seconds; it is renewed every ten seconds.
pub open spec fn countdown(elapsed: u32) -> Seq<Command> {
    if elapsed % 10 == 0 && elapsed > 0 {
        seq![
            Command::Show {
                title: "WPS MODE"@,
                body: "Press WPS button\non your router\n"@ + text::dec(
                    (WPS_SECONDS - elapsed) as nat,
                ) + " seconds remaining"@,
            },
        ]
    } else {
        Seq::empty()
    }
}

/// How push-button mode is left.
pub open spec fn leave() -> Seq<Command> {
    seq![Command::Disable, Command::Unregister]
}

/// The end without a connection.
pub open spec fn fails(s: Session, commands: Seq<Command>, message: Seq<char>) -> Next {
    Next { session: Session { stage: Stage::Over, ..s }, commands, ask: Ask::Failed { message } }
}

/// What a second of waiting for the router leads to: a refusal counts before credentials.
pub open spec fn polled(
    s: Session,
    elapsed: u32,
    failed: bool,
    credentials: Option<(Seq<char>, Seq<char>)>,
) -> Next {
    let shown = countdown(elapsed);
    if failed {
        fails(
            s,
            shown + leave() + seq![Command::Clear],
            "[WPS] WPS failed or timed out by AP at "@ + text::dec(elapsed as nat) + "s"@,
        )
    } else if let Some((ssid, pass)) = credentials {
        received(s, shown, ssid, pass)
    } else if elapsed + 1 < WPS_SECONDS {
        Next {
            session: Session { stage: Stage::Polling((elapsed + 1) as u32), ..s },
            commands: shown,
            ask: Ask::Second,
        }
    } else {
        fails(
            s,
            shown + leave() + seq![Command::Clear],
            "[WPS] WPS timed out after 120 s"@,
        )
    }
}

/// What credentials lead to: a connection, if they fit.
pub open spec fn received(
    s: Session,
    shown: Seq<Command>,
    ssid: Seq<char>,
    pass: Seq<char>,
) -> Next {
    let told = shown + leave() + seq![
        Command::Show {
            title: "WPS SUCCESS"@,
            body: "Connecting to\n"@ + ssid + "\nPlease wait..."@,
        },
    ];
    match wifi::length_error(ssid, pass) {
        Some(e) => fails(
            s,
            told,
            if e == WifiError::SsidTooLong {
                "WPS SSID too long"@
            } else {
                "WPS passphrase too long"@
            },
        ),
        None => Next {
            session: Session { stage: Stage::Connecting, ssid, password: pass },
            commands: told.push(Command::Configure { ssid, password: pass }),
            ask: Ask::Connect,
        },
    }
}

/// The end with the router's credentials, whether the connection came or took too long.
pub open spec fn done(s: Session, commands: Seq<Command>) -> Next {
    Next {
        session: Session { stage: Stage::Over, ..s },
        commands,
        ask: Ask::Done { ssid: s.ssid, password: s.password },
    }
}

/// What an answer leads to; once it is over, no answer is expected. `code` is that of the radio, 0 for success; `connected` whether there
/// is a connection; the rest is what the router sent.
pub open spec fn answered(
    s: Session,
    code: i32,
    connected: bool,
    failed: bool,
    credentials: Option<(Seq<char>, Seq<char>)>,
) -> Next {
    match s.stage {
        Stage::Enabling => if code == 0 {
            Next {
                session: Session { stage: Stage::Starting, ..s },
                commands: Seq::empty(),
                ask: Ask::Start,
            }
        } else {
            fails(
                s,
                seq![Command::Unregister],
                code_text("[WPS] esp_wifi_wps_enable failed: 0x"@, code),
            )
        },
        Stage::Starting => if code == 0 {
            Next {
                session: Session { stage: Stage::Polling(0), ..s },
                commands: Seq::empty(),
                ask: Ask::Second,
            }
        } else {
            fails(s, leave(), code_text("[WPS] esp_wifi_wps_start failed: 0x"@, code))
        },
        Stage::Polling(elapsed) => polled(s, elapsed, failed, credentials),
        Stage::Connecting => if code == 0 {
            Next {
                session: Session { stage: Stage::Linking(0), ..s },
                commands: Seq::empty(),
                ask: Ask::IsConnected,
            }
        } else {
            Next {
                session: Session { stage: Stage::Over, ..s },
                commands: Seq::empty(),
                ask: Ask::ConnectFailed { code },
            }
        },
        Stage::Linking(waited) => if connected {
            done(
                s,
                seq![
                    Command::Show {
                        title: "CONNECTED"@,
                        body: s.ssid + "\nConnection successful!"@,
                    },
                    Command::Pause { seconds: 3 },
                    Command::PowerSaveOff,
                    Command::Clear,
                ],
            )
        } else if waited + 1 < WPS_CONNECT_SECONDS {
            Next {
                session: Session { stage: Stage::Linking((waited + 1) as u32), ..s },
                commands: seq![Command::Pause { seconds: 1 }],
                ask: Ask::IsConnected,
            }
        } else {
            done(s, seq![Command::Pause { seconds: 1 }])
        },
        Stage::Over => fails(s, Seq::empty(), Seq::empty()),
    }
}

fn push_command(v: &mut Vec<WpsCommand>, c: WpsCommand)
    ensures
        commands(final(v)@) == commands(old(v)@).push(c@),
{
    v.push(c);
    proof {
        assert(commands(v@) =~= commands(old(v)@).push(c@));
    }
}

fn code_message(head: &str, code: i32) -> (m: String)
    ensures
        m@ == code_text(head@, code),
{
    let mut out = head.to_owned();
    let bits: u32 = if code >= 0 {
        code as u32
    } else {
        (code as i64 + 0x1_0000_0000) as u32
    };
    push_hex(&mut out, bits);
    out
}

impl WpsSession {
    /// Begins: the message, the events, push-button mode.
    pub fn begin() -> (r: (WpsSession, Vec<WpsCommand>, WpsAsk))
        ensures
            r.0@ == (Session {
                stage: Stage::Enabling,
                ssid: Seq::empty(),
                password: Seq::empty(),
            }),
            commands(r.1@) == seq![
                Command::Show {
                    title: "WPS MODE"@,
                    body: "Press WPS button\non your router\nwithin 120 seconds"@,
                },
                Command::Register,
            ],
            (r.2)@ == Ask::Enable,
    {
        let mut v: Vec<WpsCommand> = Vec::new();
        push_command(
            &mut v,
            WpsCommand::Show {
                title: "WPS MODE",
                body: "Press WPS button\non your router\nwithin 120 seconds".to_owned(),
            },
        );
        push_command(&mut v, WpsCommand::Register);
        proof {
            assert(commands(v@) =~= seq![
                Command::Show {
                    title: "WPS MODE"@,
                    body: "Press WPS button\non your router\nwithin 120 seconds"@,
                },
                Command::Register,
            ]);
        }
        (
            WpsSession { stage: Stage::Enabling, ssid: String::new(), password: String::new() },
            v,
            WpsAsk::Enable,
        )
    }

    /// How far the setup is when it asks this next.
    pub fn status(&self, ask: &WpsAsk) -> (s: WpsStatus)
        ensures
            s == status_of(self@.stage, ask@),
    {
        match ask {
            WpsAsk::Enable | WpsAsk::Start => WpsStatus::Waiting(WPS_SECONDS),
            WpsAsk::Second => match self.stage {
                Stage::Polling(n) if n <= WPS_SECONDS => WpsStatus::Waiting(WPS_SECONDS - n),
                _ => WpsStatus::Waiting(WPS_SECONDS),
            },
            WpsAsk::Connect | WpsAsk::IsConnected => WpsStatus::Connecting,
            WpsAsk::Done { .. } => WpsStatus::Succeeded,
            WpsAsk::Failed { .. } | WpsAsk::ConnectFailed { .. } => WpsStatus::Failed,
        }
    }

    /// A second of waiting for the router.
    fn poll(&mut self, elapsed: u32, state: &WpsState) -> (r: (Vec<WpsCommand>, WpsAsk))
        requires
            elapsed < WPS_SECONDS,
        ensures
            ({
                let n = polled(
                    old(self)@,
                    elapsed,
                    state.failed,
                    pair_view(state.credentials),
                );
                &&& final(self)@ == n.session
                &&& commands(r.0@) == n.commands
                &&& (r.1)@ == n.ask
            }),
    {
        let mut v: Vec<WpsCommand> = Vec::new();
        if elapsed % 10 == 0 && elapsed > 0 {
            let mut body = "Press WPS button\non your router\n".to_owned();
            push_dec(&mut body, (WPS_SECONDS - elapsed) as u64);
            body.append(" seconds remaining");
            push_command(&mut v, WpsCommand::Show { title: "WPS MODE", body });
        }
        proof {
            assert(commands(v@) =~= countdown(elapsed));
        }
        let ghost shown = countdown(elapsed);
        if state.failed {
            push_command(&mut v, WpsCommand::Disable);
            push_command(&mut v, WpsCommand::Unregister);
            push_command(&mut v, WpsCommand::Clear);
            proof {
                assert(commands(v@) =~= shown + leave() + seq![Command::Clear]);
            }
            let mut message = "[WPS] WPS failed or timed out by AP at ".to_owned();
            push_dec(&mut message, elapsed as u64);
            message.append("s");
            self.stage = Stage::Over;
            return (v, WpsAsk::Failed { message });
        }
        if let Some((ssid, pass)) = &state.credentials {
            push_command(&mut v, WpsCommand::Disable);
            push_command(&mut v, WpsCommand::Unregister);
            let mut body = "Connecting to\n".to_owned();
            body.append(ssid.as_str());
            body.append("\nPlease wait...");
            push_command(&mut v, WpsCommand::Show { title: "WPS SUCCESS", body });
            proof {
                assert(commands(v@) =~= shown + leave() + seq![
                    Command::Show {
                        title: "WPS SUCCESS"@,
                        body: "Connecting to\n"@ + ssid@ + "\nPlease wait..."@,
                    },
                ]);
            }
            match client_configuration(ssid.as_str(), pass.as_str()) {
                Err(e) => {
                    self.stage = Stage::Over;
                    return (v, WpsAsk::Failed { message: e.message().to_owned() });
                },
                Ok(c) => {
                    self.stage = Stage::Connecting;
                    self.ssid = ssid.clone();
                    self.password = pass.clone();
                    push_command(
                        &mut v,
                        WpsCommand::Configure { ssid: c.ssid, password: c.password },
                    );
                    return (v, WpsAsk::Connect);
                },
            }
        }
        if elapsed + 1 < WPS_SECONDS {
            self.stage = Stage::Polling(elapsed + 1);
            return (v, WpsAsk::Second);
        }
        push_command(&mut v, WpsCommand::Disable);
        push_command(&mut v, WpsCommand::Unregister);
        push_command(&mut v, WpsCommand::Clear);
        proof {
            assert(commands(v@) =~= shown + leave() + seq![Command::Clear]);
        }
        self.stage = Stage::Over;
        (v, WpsAsk::Failed { message: "[WPS] WPS timed out after 120 s".to_owned() })
    }

    /// Waiting for the connection.
    fn link(&mut self, waited: u32, connected: bool) -> (r: (Vec<WpsCommand>, WpsAsk))
        requires
            old(self)@.stage == Stage::Linking(waited),
            waited < WPS_CONNECT_SECONDS,
        ensures
            forall|code: i32, failed: bool, cred: Option<(Seq<char>, Seq<char>)>|
                #![trigger answered(old(self)@, code, connected, failed, cred)]
                {
                    let n = answered(old(self)@, code, connected, failed, cred);
                    &&& final(self)@ == n.session
                    &&& commands(r.0@) == n.commands
                    &&& (r.1)@ == n.ask
                },
    {
        let mut v: Vec<WpsCommand> = Vec::new();
        if connected {
            let mut body = self.ssid.clone();
            body.append("\nConnection successful!");
            push_command(&mut v, WpsCommand::Show { title: "CONNECTED", body });
            push_command(&mut v, WpsCommand::Pause { seconds: 3 });
            push_command(&mut v, WpsCommand::PowerSaveOff);
            push_command(&mut v, WpsCommand::Clear);
            proof {
                assert(commands(v@) =~= seq![
                    Command::Show {
                        title: "CONNECTED"@,
                        body: self@.ssid + "\nConnection successful!"@,
                    },
                    Command::Pause { seconds: 3 },
                    Command::PowerSaveOff,
                    Command::Clear,
                ]);
            }
        } else {
            push_command(&mut v, WpsCommand::Pause { seconds: 1 });
            proof {
                assert(commands(v@) =~= seq![Command::Pause { seconds: 1 }]);
            }
            if waited + 1 < WPS_CONNECT_SECONDS {
                self.stage = Stage::Linking(waited + 1);
                return (v, WpsAsk::IsConnected);
            }
        }
        self.stage = Stage::Over;
        (v, WpsAsk::Done { ssid: self.ssid.clone(), password: self.password.clone() })
    }

    /// Takes the answer to the last question and gives commands and the next question.
    pub fn wifi_connect_wps(&mut self, code: i32, connected: bool, state: &WpsState) -> (r: (
        Vec<WpsCommand>,
        WpsAsk,
    ))
        requires
            old(self)@.wf(),
            old(self)@.stage != Stage::Over,
        ensures
            ({
                let n = answered(
                    old(self)@,
                    code,
                    connected,
                    state.failed,
                    pair_view(state.credentials),
                );
                &&& final(self)@ == n.session
                &&& commands(r.0@) == n.commands
                &&& (r.1)@ == n.ask
            }),
            final(self)@.wf(),
    {
        let mut v: Vec<WpsCommand> = Vec::new();
        proof {
            assert(commands(v@) =~= Seq::<Command>::empty());
        }
        match self.stage {
            Stage::Enabling => {
                if code == 0 {
                    self.stage = Stage::Starting;
                    return (v, WpsAsk::Start);
                }
                push_command(&mut v, WpsCommand::Unregister);
                proof {
                    assert(commands(v@) =~= seq![Command::Unregister]);
                }
                self.stage = Stage::Over;
                let message = code_message("[WPS] esp_wifi_wps_enable failed: 0x", code);
                (v, WpsAsk::Failed { message })
            },
            Stage::Starting => {
                if code == 0 {
                    self.stage = Stage::Polling(0);
                    return (v, WpsAsk::Second);
                }
                push_command(&mut v, WpsCommand::Disable);
                push_command(&mut v, WpsCommand::Unregister);
                proof {
                    assert(commands(v@) =~= leave());
                }
                self.stage = Stage::Over;
                let message = code_message("[WPS] esp_wifi_wps_start failed: 0x", code);
                (v, WpsAsk::Failed { message })
            },
            Stage::Polling(elapsed) => self.poll(elapsed, state),
            Stage::Connecting => {
                if code == 0 {
                    self.stage = Stage::Linking(0);
                    return (v, WpsAsk::IsConnected);
                }
                self.stage = Stage::Over;
                (v, WpsAsk::ConnectFailed { code })
            },
            Stage::Linking(waited) => self.link(waited, connected),
            Stage::Over => (v, WpsAsk::Failed { message: String::new() }),
        }
    }
}

/// Push-button mode is left and the events are no longer listened to whenever the wait for the
/// router ends, however it ends.
pub proof fn law_mode_is_left(
    s: Session,
    elapsed: u32,
    failed: bool,
    credentials: Option<(Seq<char>, Seq<char>)>,
)
    ensures
        ({
            let n = polled(s, elapsed, failed, credentials);
            n.ask != Ask::Second ==> n.commands.contains(Command::Disable) && n.commands.contains(
                Command::Unregister,
            )
        }),
{
    let n = polled(s, elapsed, failed, credentials);
    let k = countdown(elapsed).len() as int;
    if n.ask != Ask::Second {
        assert(n.commands[k] == Command::Disable);
        assert(n.commands[k + 1] == Command::Unregister);
    }
}

/// The wait for the router ends after 120 seconds at the latest.
pub proof fn law_wait_is_bounded(
    s: Session,
    failed: bool,
    credentials: Option<(Seq<char>, Seq<char>)>,
)
    ensures
        polled(s, (WPS_SECONDS - 1) as u32, failed, credentials).ask != Ask::Second,
{
}

/// A setup is over exactly when it succeeded or failed, and then it asks nothing more.
pub proof fn law_over_is_told(
    s: Session,
    code: i32,
    connected: bool,
    failed: bool,
    credentials: Option<(Seq<char>, Seq<char>)>,
)
    requires
        s.stage != Stage::Over,
    ensures
        ({
            let n = answered(s, code, connected, failed, credentials);
            let status = status_of(n.session.stage, n.ask);
            n.session.stage == Stage::Over <==> status == WpsStatus::Succeeded || status
                == WpsStatus::Failed
        }),
{
}

/// A setup succeeds only with credentials that the router sent: what it ends with is what it
/// received and configured the radio with.
pub proof fn law_done_with_received(
    s: Session,
    elapsed: u32,
    ssid: Seq<char>,
    pass: Seq<char>,
    code: i32,
    connected: bool,
)
    requires
        s.stage == Stage::Polling(elapsed),
        wifi::length_error(ssid, pass) is None,
    ensures
        ({
            let got = answered(s, 0, false, false, Some((ssid, pass)));
            let linking = answered(got.session, 0, false, false, Some((ssid, pass)));
            let end = answered(linking.session, code, connected, false, Some((ssid, pass)));
            &&& got.commands.last() == (Command::Configure { ssid, password: pass })
            &&& got.ask == Ask::Connect
            &&& linking.ask == Ask::IsConnected
            &&& connected ==> end.ask == (Ask::Done { ssid, password: pass })
            &&& end.ask matches Ask::Done { ssid: a, password: b } ==> a == ssid && b == pass
        }),
{
}

/// The message counts down: it is renewed every ten seconds.
pub proof fn law_countdown(elapsed: u32)
    requires
        elapsed < WPS_SECONDS,
    ensures
        countdown(elapsed).len() == if elapsed % 10 == 0 && elapsed > 0 {
            1nat
        } else {
            0nat
        },
{
}

/// What a field holds ends at its first zero.
pub proof fn law_cut_at_zero(a: Seq<u8>, b: Seq<u8>)
    requires
        !a.contains(0u8),
    ensures
        until_zero(a) == a,
        until_zero(a + seq![0u8] + b) == a,
    decreases a.len(),
{
    if a.len() > 0 {
        let rest = a.skip(1);
        assert(a.contains(a[0]));
        assert(!rest.contains(0u8)) by {
            if rest.contains(0u8) {
                let k = choose|k: int| 0 <= k < rest.len() && rest[k] == 0;
                assert(a[k + 1] == 0);
            }
        }
        law_cut_at_zero(rest, b);
        assert((a + seq![0u8] + b).skip(1) =~= rest + seq![0u8] + b);
        assert(seq![a[0]] + rest =~= a);
    } else {
        assert(until_zero(a) =~= a);
        assert((a + seq![0u8] + b)[0] == 0);
        assert(until_zero(a + seq![0u8] + b) =~= a);
    }
}

/// A code is told in hexadecimal, a negative one as its 32 bits.
pub proof fn law_code_in_words(head: Seq<char>, code: i32)
    ensures
        ({
            let t = code_text(head, code);
            let n = text::written_number(t.skip(head.len() as int), 16);
            &&& t.take(head.len() as int) == head
            &&& code >= 0 ==> n == code
            &&& code < 0 ==> n == code + 0x1_0000_0000
        }),
{
    let k = (code as int % 0x1_0000_0000) as nat;
    text::law_hexadecimal_is_written(k);
    let t = code_text(head, code);
    assert(t.take(head.len() as int) =~= head);
    assert(t.skip(head.len() as int) =~= text::hex(k));
}

/// Entering push-button mode and beginning the handshake: each answer 0 leads on, any other one
/// ends the setup with its code, and what was begun is taken back.
pub proof fn law_setup_begins(
    s: Session,
    code: i32,
    connected: bool,
    failed: bool,
    credentials: Option<(Seq<char>, Seq<char>)>,
)
    ensures
        ({
            let n = answered(s, code, connected, failed, credentials);
            &&& s.stage == Stage::Enabling && code == 0 ==> {
                &&& n.ask == Ask::Start && n.session.stage == Stage::Starting
                &&& n.commands.len() == 0
            }
            &&& s.stage == Stage::Enabling && code != 0 ==> {
                &&& n.ask == (Ask::Failed {
                    message: "[WPS] esp_wifi_wps_enable failed: 0x"@ + text::hex(
                        (code as int % 0x1_0000_0000) as nat,
                    ),
                })
                &&& n.session.stage == Stage::Over
                &&& n.commands.len() == 1 && n.commands[0] == Command::Unregister
            }
            &&& s.stage == Stage::Starting && code == 0 ==> {
                &&& n.ask == Ask::Second && n.session.stage == Stage::Polling(0)
                &&& n.commands.len() == 0
            }
            &&& s.stage == Stage::Starting && code != 0 ==> {
                &&& n.ask == (Ask::Failed {
                    message: "[WPS] esp_wifi_wps_start failed: 0x"@ + text::hex(
                        (code as int % 0x1_0000_0000) as nat,
                    ),
                })
                &&& n.session.stage == Stage::Over
                &&& n.commands.len() == 2 && n.commands[0] == Command::Disable && n.commands[1]
                    == Command::Unregister
            }
        }),
{
}

/// A second of waiting for the router: where nothing came, the next one follows, up to 120; a
/// failure ends the setup even where credentials came; and credentials that fit are connected with.
pub proof fn law_second_of_waiting(
    s: Session,
    n: u32,
    code: i32,
    connected: bool,
    failed: bool,
    credentials: Option<(Seq<char>, Seq<char>)>,
)
    requires
        s.stage == Stage::Polling(n),
        n < 120,
    ensures
        ({
            let r = answered(s, code, connected, failed, credentials);
            &&& failed ==> r.session.stage == Stage::Over && r.ask == (Ask::Failed {
                message: "[WPS] WPS failed or timed out by AP at "@ + text::dec(n as nat) + "s"@,
            })
            &&& failed || (credentials is None && n == 119) ==> r.commands.last() == Command::Clear
            &&& !failed && credentials is None && n < 119 ==> r.ask == Ask::Second
                && r.session.stage == Stage::Polling((n + 1) as u32) && r.session.ssid == s.ssid
                && r.session.password == s.password
            &&& !failed && credentials is None && n == 119 ==> r.session.stage == Stage::Over
                && r.ask == (Ask::Failed { message: "[WPS] WPS timed out after 120 s"@ })
            &&& !failed ==> (credentials matches Some(c) ==> {
                let fits = wifi::length_error(c.0, c.1) is None;
                &&& fits ==> {
                    &&& r.ask == Ask::Connect && r.session.stage == Stage::Connecting
                    &&& r.session.ssid == c.0 && r.session.password == c.1
                    &&& r.commands.last() == (Command::Configure { ssid: c.0, password: c.1 })
                    &&& r.commands[r.commands.len() - 2] == (Command::Show {
                        title: "WPS SUCCESS"@,
                        body: "Connecting to\n"@ + c.0 + "\nPlease wait..."@,
                    })
                }
                &&& wifi::length_error(c.0, c.1) == Some(WifiError::SsidTooLong) ==> r.ask == (
                Ask::Failed { message: "WPS SSID too long"@ })
                &&& wifi::length_error(c.0, c.1) == Some(WifiError::PassTooLong) ==> r.ask == (
                Ask::Failed { message: "WPS passphrase too long"@ })
            })
        }),
{
}

/// Connecting: the answer 0 leads to the wait for the connection, of 15 seconds at most; either way
/// it ends with the name and the passphrase that the radio was configured with. Any other answer
/// ends it with its code.
pub proof fn law_connecting(
    s: Session,
    n: u32,
    code: i32,
    connected: bool,
    failed: bool,
    credentials: Option<(Seq<char>, Seq<char>)>,
)
    ensures
        ({
            let r = answered(s, code, connected, failed, credentials);
            &&& s.stage == Stage::Connecting && code == 0 ==> r.ask == Ask::IsConnected
                && r.session.stage == Stage::Linking(0) && r.session.ssid == s.ssid
                && r.session.password == s.password && r.commands.len() == 0
            &&& s.stage == Stage::Connecting && code != 0 ==> r.ask == (Ask::ConnectFailed { code })
                && r.session.stage == Stage::Over
            &&& s.stage == Stage::Linking(n) && connected ==> {
                &&& r.ask == (Ask::Done { ssid: s.ssid, password: s.password })
                &&& r.session.stage == Stage::Over
                &&& r.commands.len() == 4
                &&& r.commands[0] == (Command::Show {
                    title: "CONNECTED"@,
                    body: s.ssid + "\nConnection successful!"@,
                })
                &&& r.commands[1] == (Command::Pause { seconds: 3 })
                &&& r.commands[2] == Command::PowerSaveOff
                &&& r.commands[3] == Command::Clear
            }
            &&& s.stage == Stage::Linking(n) && !connected && n < 14 ==> {
                &&& r.ask == Ask::IsConnected
                &&& r.session.stage == Stage::Linking((n + 1) as u32)
                &&& r.session.ssid == s.ssid && r.session.password == s.password
                &&& r.commands.len() == 1 && r.commands[0] == (Command::Pause { seconds: 1 })
            }
            &&& s.stage == Stage::Linking(14) && !connected ==> {
                &&& r.ask == (Ask::Done { ssid: s.ssid, password: s.password })
                &&& r.session.stage == Stage::Over
                &&& r.commands.len() == 1 && r.commands[0] == (Command::Pause { seconds: 1 })
            }
        }),
{
}

/// Every ten seconds of the wait the display tells how many of the 120 are left.
pub proof fn law_countdown_in_words(n: u32)
    requires
        n < 120,
    ensures
        n > 0 && n % 10 == 0 ==> countdown(n).len() == 1 && countdown(n)[0] == (Command::Show {
            title: "WPS MODE"@,
            body: "Press WPS button\non your router\n"@ + text::dec((120 - n) as nat)
                + " seconds remaining"@,
        }),
        n == 0 || n % 10 != 0 ==> countdown(n).len() == 0,
{
}

/// How far a setup is, by what it asks next.
pub proof fn law_status_by_question(stage: Stage, n: u32, a: Seq<char>, b: Seq<char>, code: i32)
    requires
        n <= 120,
    ensures
        status_of(stage, Ask::Enable) == WpsStatus::Waiting(120),
        status_of(stage, Ask::Start) == WpsStatus::Waiting(120),
        status_of(Stage::Polling(n), Ask::Second) == WpsStatus::Waiting((120 - n) as u32),
        status_of(stage, Ask::Connect) == WpsStatus::Connecting,
        status_of(stage, Ask::IsConnected) == WpsStatus::Connecting,
        status_of(stage, Ask::Done { ssid: a, password: b }) == WpsStatus::Succeeded,
        status_of(stage, Ask::Failed { message: a }) == WpsStatus::Failed,
        status_of(stage, Ask::ConnectFailed { code }) == WpsStatus::Failed,
{
}

/// The name is read from the field of the name and the passphrase from its own, each up to the first
/// zero; a failure and a time-out are noted and leave the credentials alone.
pub proof fn law_events(before: WpsState, after: WpsState, ssid: Vec<u8>, passphrase: Vec<u8>)
    ensures
        event_taken(before, after, WpsEvent::Success { ssid, passphrase }) ==> {
            &&& after.credentials matches Some(c) && c.0@ == text::lossy(until_zero(ssid@)) && c.1@
                == text::lossy(until_zero(passphrase@))
            &&& after.failed == before.failed
        },
        event_taken(before, after, WpsEvent::Failed) ==> after.failed && after.credentials
            == before.credentials,
        event_taken(before, after, WpsEvent::TimedOut) ==> after.failed && after.credentials
            == before.credentials,
        event_taken(before, after, WpsEvent::Other) ==> after.failed == before.failed
            && after.credentials == before.credentials,
{
}

/// The plain values of commands and questions are what they hold, each under its own name.
pub proof fn law_command_views(
    title: &'static str,
    body: String,
    ssid: String,
    password: String,
    message: String,
    seconds: u64,
    code: i32,
)
    ensures
        (WpsCommand::Show { title, body })@ == (Command::Show { title: title@, body: body@ }),
        WpsCommand::Clear@ == Command::Clear,
        WpsCommand::Register@ == Command::Register,
        WpsCommand::Unregister@ == Command::Unregister,
        WpsCommand::Disable@ == Command::Disable,
        (WpsCommand::Configure { ssid, password })@ == (Command::Configure {
            ssid: ssid@,
            password: password@,
        }),
        (WpsCommand::Pause { seconds })@ == (Command::Pause { seconds }),
        WpsCommand::PowerSaveOff@ == Command::PowerSaveOff,
        WpsAsk::Enable@ == Ask::Enable,
        WpsAsk::Start@ == Ask::Start,
        WpsAsk::Second@ == Ask::Second,
        WpsAsk::Connect@ == Ask::Connect,
        WpsAsk::IsConnected@ == Ask::IsConnected,
        (WpsAsk::Done { ssid, password })@ == (Ask::Done { ssid: ssid@, password: password@ }),
        (WpsAsk::Failed { message })@ == (Ask::Failed { message: message@ }),
        (WpsAsk::ConnectFailed { code })@ == (Ask::ConnectFailed { code }),
{
}

} // verus!
