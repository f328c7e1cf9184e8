//! The web interface: which request gets which answer, and what it changes.

use crate::forms;
use crate::forms::{esc, generate_token, is_auth, parse_form, parse_ws_port};
use crate::gpio_ctrl::GpioPwmState;
use crate::nvs_config;
use crate::nvs_config::{nvs_write_all, NvsConfig, WritePlan};
use crate::pages;
use crate::pages::{
    build_config_html,
    build_gpio_html,
    build_terminal_html,
    APP_VERSION,
    LOGIN_HTML,
    TERMINAL_HTML,
};
use crate::serial_display::DisplayState;
use crate::status::{Status, StatusInfo};
use crate::syslogger::{update_logger_config, LoggerSettings, SysLogger};
use crate::text;
use crate::text::{lines_of, lossy_text, parse_number, push_dec, push_hex4, push_int, same};
use crate::text_map;
use crate::text_map::TextMap;
use crate::usb_host;
use crate::usb_host::Bridge;
use crate::ws;
use crate::wps::{WpsStatus, WPS_SECONDS};
use crate::ws::{Listeners, Rings};
use vstd::prelude::*;
use vstd::string::*;

verus! {

/// An answer to a request.
pub struct Response {
    pub status: u16,
    pub reason: Option<&'static str>,
    pub headers: Vec<(&'static str, String)>,
    pub body: String,
}

/// An answer as plain values.
pub struct Answer {
    pub status: u16,
    pub reason: Option<Seq<char>>,
    pub headers: Seq<(Seq<char>, Seq<char>)>,
    pub body: Seq<char>,
}

/// Header fields as plain values.
pub open spec fn fields(h: Seq<(&'static str, String)>) -> Seq<(Seq<char>, Seq<char>)> {
    h.map_values(|p: (&'static str, String)| (p.0@, p.1@))
}

/// The view of a reason phrase.
pub open spec fn reason_view(r: Option<&'static str>) -> Option<Seq<char>> {
    match r {
        Some(s) => Some(s@),
        None => None,
    }
}

impl View for Response {
    type V = Answer;

    open spec fn view(&self) -> Answer {
        Answer {
            status: self.status,
            reason: reason_view(self.reason),
            headers: fields(self.headers@),
            body: self.body@,
        }
    }
}

/// Success, with the type of what is sent.
pub open spec fn ok_answer(kind: Seq<char>, body: Seq<char>) -> Answer {
    Answer { status: 200, reason: Some("OK"@), headers: seq![("Content-Type"@, kind)], body }
}

/// Success without header fields.
pub open spec fn bare_ok(body: Seq<char>) -> Answer {
    Answer { status: 200, reason: Some("OK"@), headers: Seq::empty(), body }
}

/// Go to another page.
pub open spec fn redirect(location: Seq<char>) -> Answer {
    Answer {
        status: 302,
        reason: Some("Found"@),
        headers: seq![("Location"@, location)],
        body: Seq::empty(),
    }
}

/// Go to another page with a new cookie.
pub open spec fn redirect_with_cookie(cookie: Seq<char>, location: Seq<char>) -> Answer {
    Answer {
        status: 302,
        reason: Some("Found"@),
        headers: seq![("Set-Cookie"@, cookie), ("Location"@, location)],
        body: Seq::empty(),
    }
}

/// A bare status.
pub open spec fn status_answer(status: u16, body: Seq<char>) -> Answer {
    Answer { status, reason: None, headers: Seq::empty(), body }
}

/// Refused for want of a session.
pub open spec fn unauthorized() -> Answer {
    status_answer(401, "Unauthorized"@)
}

fn ok_response(kind: &str, body: String) -> (r: Response)
    ensures
        r@ == ok_answer(kind@, body@),
{
    let headers: Vec<(&'static str, String)> = vec![("Content-Type", kind.to_owned())];
    proof {
        assert(fields(headers@) =~= seq![("Content-Type"@, kind@)]);
    }
    Response { status: 200, reason: Some("OK"), headers, body }
}

fn bare_ok_response(body: &str) -> (r: Response)
    ensures
        r@ == bare_ok(body@),
{
    let headers: Vec<(&'static str, String)> = Vec::new();
    proof {
        assert(fields(headers@) =~= Seq::<(Seq<char>, Seq<char>)>::empty());
    }
    Response { status: 200, reason: Some("OK"), headers, body: body.to_owned() }
}

fn redirect_response(location: &str) -> (r: Response)
    ensures
        r@ == redirect(location@),
{
    let headers: Vec<(&'static str, String)> = vec![("Location", location.to_owned())];
    proof {
        assert(fields(headers@) =~= seq![("Location"@, location@)]);
    }
    Response { status: 302, reason: Some("Found"), headers, body: String::new() }
}

fn cookie_response(cookie: String, location: &str) -> (r: Response)
    ensures
        r@ == redirect_with_cookie(cookie@, location@),
{
    let headers: Vec<(&'static str, String)> = vec![
        ("Set-Cookie", cookie),
        ("Location", location.to_owned()),
    ];
    proof {
        assert(fields(headers@) =~= seq![("Set-Cookie"@, cookie@), ("Location"@, location@)]);
    }
    Response { status: 302, reason: Some("Found"), headers, body: String::new() }
}

fn status_response(status: u16, body: &str) -> (r: Response)
    ensures
        r@ == status_answer(status, body@),
{
    let headers: Vec<(&'static str, String)> = Vec::new();
    proof {
        assert(fields(headers@) =~= Seq::<(Seq<char>, Seq<char>)>::empty());
    }
    Response { status, reason: None, headers, body: body.to_owned() }
}

/// What can be asked for.
#[derive(Copy, Clone, Debug, PartialEq, Eq, Structural)]
pub enum Endpoint {
    LoginPage,
    Login,
    Logout,
    ConfigPage,
    SaveConfig,
    Status,
    Reset,
    Reboot,
    GpioPage,
    GpioState,
    SetGpio,
    SetPwm,
    TerminalPage,
    TerminalScript,
    TerminalStyle,
    TerminalFit,
    BootLog,
    StartWps,
    WpsStatus,
}

/// What a method and a path ask for.
pub open spec fn route(post: bool, path: Seq<char>) -> Option<Endpoint> {
    if post {
        if path == "/login"@ {
            Some(Endpoint::Login)
        } else if path == "/api/config"@ {
            Some(Endpoint::SaveConfig)
        } else if path == "/api/reset"@ {
            Some(Endpoint::Reset)
        } else if path == "/api/reboot"@ {
            Some(Endpoint::Reboot)
        } else if path == "/api/gpio"@ {
            Some(Endpoint::SetGpio)
        } else if path == "/api/pwm"@ {
            Some(Endpoint::SetPwm)
        } else if path == "/api/wps"@ {
            Some(Endpoint::StartWps)
        } else {
            None
        }
    } else {
        if path == "/login"@ {
            Some(Endpoint::LoginPage)
        } else if path == "/logout"@ {
            Some(Endpoint::Logout)
        } else if path == "/"@ {
            Some(Endpoint::ConfigPage)
        } else if path == "/api/status"@ {
            Some(Endpoint::Status)
        } else if path == "/gpio"@ {
            Some(Endpoint::GpioPage)
        } else if path == "/api/gpio_state"@ {
            Some(Endpoint::GpioState)
        } else if path == "/terminal"@ {
            Some(Endpoint::TerminalPage)
        } else if path == "/static/xterm.js"@ {
            Some(Endpoint::TerminalScript)
        } else if path == "/static/xterm.css"@ {
            Some(Endpoint::TerminalStyle)
        } else if path == "/static/xterm-addon-fit.js"@ {
            Some(Endpoint::TerminalFit)
        } else if path == "/api/boot_log"@ {
            Some(Endpoint::BootLog)
        } else if path == "/api/wps"@ {
            Some(Endpoint::WpsStatus)
        } else {
            None
        }
    }
}

/// What a method and a path ask for.
pub fn endpoint(post: bool, path: &str) -> (e: Option<Endpoint>)
    ensures
        e == route(post, path@),
{
    if post {
        if same(path, "/login") {
            Some(Endpoint::Login)
        } else if same(path, "/api/config") {
            Some(Endpoint::SaveConfig)
        } else if same(path, "/api/reset") {
            Some(Endpoint::Reset)
        } else if same(path, "/api/reboot") {
            Some(Endpoint::Reboot)
        } else if same(path, "/api/gpio") {
            Some(Endpoint::SetGpio)
        } else if same(path, "/api/pwm") {
            Some(Endpoint::SetPwm)
        } else if same(path, "/api/wps") {
            Some(Endpoint::StartWps)
        } else {
            None
        }
    } else {
        if same(path, "/login") {
            Some(Endpoint::LoginPage)
        } else if same(path, "/logout") {
            Some(Endpoint::Logout)
        } else if same(path, "/") {
            Some(Endpoint::ConfigPage)
        } else if same(path, "/api/status") {
            Some(Endpoint::Status)
        } else if same(path, "/gpio") {
            Some(Endpoint::GpioPage)
        } else if same(path, "/api/gpio_state") {
            Some(Endpoint::GpioState)
        } else if same(path, "/terminal") {
            Some(Endpoint::TerminalPage)
        } else if same(path, "/static/xterm.js") {
            Some(Endpoint::TerminalScript)
        } else if same(path, "/static/xterm.css") {
            Some(Endpoint::TerminalStyle)
        } else if same(path, "/static/xterm-addon-fit.js") {
            Some(Endpoint::TerminalFit)
        } else if same(path, "/api/boot_log") {
            Some(Endpoint::BootLog)
        } else if same(path, "/api/wps") {
            Some(Endpoint::WpsStatus)
        } else {
            None
        }
    }
}

/// How many bytes of a request body are read.
pub open spec fn body_limit(e: Endpoint, announced: u64) -> u64 {
    let most = match e {
        Endpoint::Login => 512u64,
        Endpoint::SaveConfig => 4096,
        Endpoint::SetGpio => 64,
        Endpoint::SetPwm => 64,
        _ => 0,
    };
    if announced <= most {
        announced
    } else {
        most
    }
}

/// How many bytes of a request body are read.
pub fn body_length(e: Endpoint, announced: u64) -> (n: u64)
    ensures
        n == body_limit(e, announced),
{
    let most: u64 = match e {
        Endpoint::Login => 512,
        Endpoint::SaveConfig => 4096,
        Endpoint::SetGpio => 64,
        Endpoint::SetPwm => 64,
        _ => 0,
    };
    if announced <= most {
        announced
    } else {
        most
    }
}

/// The type of an embedded file.
pub fn asset_type(e: Endpoint) -> (kind: &'static str)
    ensures
        kind@ == if e == Endpoint::TerminalStyle {
            "text/css"@
        } else {
            "application/javascript"@
        },
{
    match e {
        Endpoint::TerminalStyle => "text/css",
        _ => "application/javascript",
    }
}

/// How long browsers may keep an embedded file.
pub const ASSET_CACHE: &'static str = "public, max-age=86400";

/// What requests read and change.
pub struct ConfigState {
    pub config: NvsConfig,
    pub defaults: NvsConfig,
    pub status: StatusInfo,
    pub gpio_pwm: GpioPwmState,
    /// How far push-button setup is.
    pub wps: WpsStatus,
    session: Option<String>,
}

/// The same as plain values.
#[verifier::ext_equal]
pub struct Site {
    pub config: NvsConfig,
    pub defaults: Seq<Seq<char>>,
    pub status: Status,
    pub gpio: Seq<bool>,
    pub pwm: Seq<u8>,
    pub wps: WpsStatus,
    pub session: Option<Seq<char>>,
}

impl Site {
    /// Seven outputs, two duties of at most 100 percent.
    pub open spec fn wf(self) -> bool {
        &&& self.gpio.len() == 7
        &&& self.pwm.len() == 2
        &&& self.pwm[0] <= 100
        &&& self.pwm[1] <= 100
    }
}

impl View for ConfigState {
    type V = Site;

    closed spec fn view(&self) -> Site {
        Site {
            config: self.config,
            defaults: self.defaults@,
            status: self.status@,
            gpio: self.gpio_pwm.gpio(),
            pwm: self.gpio_pwm.pwm(),
            wps: self.wps,
            session: text_map::text_view(self.session),
        }
    }
}

/// A bit as a digit.
pub open spec fn bit(on: bool) -> Seq<char> {
    if on {
        "1"@
    } else {
        "0"@
    }
}

/// The first `n` outputs as digits with commas between them.
pub open spec fn bits(gpio: Seq<bool>, n: nat) -> Seq<char>
    decreases n,
{
    if n == 0 {
        Seq::empty()
    } else if n == 1 {
        bit(gpio[0])
    } else {
        bits(gpio, (n - 1) as nat) + ","@ + bit(gpio[n - 1])
    }
}

/// The outputs as JSON.
pub open spec fn outputs_json(gpio: Seq<bool>, pwm: Seq<u8>, n: nat) -> Seq<char> {
    "{\"gpio\":["@ + bits(gpio, n) + "],\"pwm\":["@ + text::dec(pwm[0] as nat) + ","@ + text::dec(
        pwm[1] as nat,
    ) + "]}"@
}

fn outputs_text(gpio: &GpioPwmState, n: usize) -> (r: String)
    requires
        gpio.wf(),
        1 <= n <= 7,
    ensures
        r@ == outputs_json(gpio.gpio(), gpio.pwm(), n as nat),
{
    let g = gpio.get_gpio();
    let p = gpio.get_pwm();
    let mut list = String::new();
    let mut i: usize = 0;
    while i < n
        invariant
            i <= n <= 7,
            g@.len() == 7,
            list@ == bits(g@, i as nat),
        decreases n - i,
    {
        if i > 0 {
            list.append(",");
        }
        if g[i] {
            list.append("1");
        } else {
            list.append("0");
        }
        proof {
            assert(list@ =~= bits(g@, (i + 1) as nat));
        }
        i = i + 1;
    }
    let mut out = "{\"gpio\":[".to_owned();
    out.append(list.as_str());
    out.append("],\"pwm\":[");
    push_dec(&mut out, p[0] as u64);
    out.append(",");
    push_dec(&mut out, p[1] as u64);
    out.append("]}");
    out
}

/// `true` or `false`.
pub open spec fn truth(b: bool) -> Seq<char> {
    if b {
        "true"@
    } else {
        "false"@
    }
}

fn push_truth(out: &mut String, b: bool)
    ensures
        final(out)@ == old(out)@ + truth(b),
{
    if b {
        out.append("true");
    } else {
        out.append("false");
    }
}

/// The status as JSON.
pub open spec fn status_json(s: Status, b: Bridge) -> Seq<char> {
    "{\"ip\":\""@ + forms::escaped(s.ip_address) + "\",\"ssid\":\""@ + forms::escaped(s.ssid)
        + "\",\"rssi\":"@ + text::dec_int(s.rssi as int) + ",\"dc_in_voltage\":"@
        + s.dc_in_voltage + ",\"dc_out_voltage\":"@ + s.dc_out_voltage + ",\"chip_temp\":"@
        + s.chip_temp + ",\"cdc_enabled\":"@ + truth(b.cdc_enabled) + ",\"usb_connected\":"@
        + truth(b.cdc_connected) + ",\"usb_vid\":\"0x"@ + text::hex4(b.cdc_vid)
        + "\",\"usb_pid\":\"0x"@ + text::hex4(b.cdc_pid) + "\",\"usb_device\":\""@
        + usb_host::chip_label(b.cdc_vid, b.cdc_pid) + "\",\"usb_ports\":"@ + text::dec(
        b.cdc_port_count as nat,
    ) + ",\"active_device\":\""@ + usb_host::device_label(b.active_device)
        + "\",\"display_port\":\""@ + usb_host::device_label(b.display_port) + "\",\"version\":\""@
        + APP_VERSION@ + "\"}"@
}

fn status_text(s: &StatusInfo, b: &Bridge) -> (r: String)
    ensures
        r@ == status_json(s@, *b),
{
    let mut out = "{\"ip\":\"".to_owned();
    out.append(esc(s.ip_address.as_str()).as_str());
    out.append("\",\"ssid\":\"");
    out.append(esc(s.ssid.as_str()).as_str());
    out.append("\",\"rssi\":");
    push_int(&mut out, s.rssi);
    out.append(",\"dc_in_voltage\":");
    out.append(s.dc_in_voltage.as_str());
    out.append(",\"dc_out_voltage\":");
    out.append(s.dc_out_voltage.as_str());
    out.append(",\"chip_temp\":");
    out.append(s.chip_temp.as_str());
    out.append(",\"cdc_enabled\":");
    push_truth(&mut out, b.cdc_enabled);
    out.append(",\"usb_connected\":");
    push_truth(&mut out, b.cdc_connected);
    out.append(",\"usb_vid\":\"0x");
    push_hex4(&mut out, b.cdc_vid);
    out.append("\",\"usb_pid\":\"0x");
    push_hex4(&mut out, b.cdc_pid);
    out.append("\",\"usb_device\":\"");
    out.append(b.cdc_device_chip_name());
    out.append("\",\"usb_ports\":");
    push_dec(&mut out, b.cdc_port_count as u64);
    out.append(",\"active_device\":\"");
    out.append(b.active_device_name());
    out.append("\",\"display_port\":\"");
    out.append(b.display_port_name());
    out.append("\",\"version\":\"");
    out.append(APP_VERSION);
    out.append("\"}");
    out
}

/// Text with a backslash before every quotation mark.
pub open spec fn quote_escaped(s: Seq<char>) -> Seq<char>
    decreases s.len(),
{
    if s.len() == 0 {
        Seq::empty()
    } else if s.last() == '"' {
        quote_escaped(s.drop_last()).push('\\').push('"')
    } else {
        quote_escaped(s.drop_last()).push(s.last())
    }
}

/// The first `n` entries of the boot log as JSON strings with commas between them.
pub open spec fn entries_json(entries: Seq<Seq<char>>, n: nat) -> Seq<char>
    decreases n,
{
    if n == 0 {
        Seq::empty()
    } else {
        let before = entries_json(entries, (n - 1) as nat);
        let this = "\""@ + quote_escaped(entries[n - 1]) + "\""@;
        if n == 1 {
            this
        } else {
            before + ","@ + this
        }
    }
}

/// The boot log as JSON.
pub open spec fn boot_log_json(log: Seq<char>) -> Seq<char> {
    let entries = text::lines(log);
    "{\"entries\":["@ + entries_json(entries, entries.len()) + "]}"@
}

fn quote_text(s: &str) -> (r: String)
    ensures
        r@ == quote_escaped(s@),
{
    let mut out = String::new();
    for c in it: s.chars()
        invariant
            it.seq() == s@,
            out@ == quote_escaped(s@.take(it.index() as int)),
    {
        let ghost i = it.index() as int;
        proof {
            assert(s@.take(i + 1).drop_last() =~= s@.take(i));
        }
        if c == '"' {
            out.push('\\');
        }
        out.push(c);
    }
    proof {
        assert(s@.take(s@.len() as int) =~= s@);
    }
    out
}

fn boot_log_text(log: &str) -> (r: String)
    ensures
        r@ == boot_log_json(log@),
{
    let entries = lines_of(log);
    let ghost all = text::lines(log@);
    let mut list = String::new();
    let mut i: usize = 0;
    while i < entries.len()
        invariant
            i <= entries@.len(),
            all == text::views(entries@),
            list@ == entries_json(all, i as nat),
        decreases entries@.len() - i,
    {
        if i > 0 {
            list.append(",");
        }
        list.append("\"");
        list.append(quote_text(entries[i].as_str()).as_str());
        list.append("\"");
        proof {
            assert(all[i as int] == entries@[i as int]@);
            assert(list@ =~= entries_json(all, (i + 1) as nat));
        }
        i = i + 1;
    }
    proof {
        assert(all.len() == entries@.len());
    }
    let mut out = "{\"entries\":[".to_owned();
    out.append(list.as_str());
    out.append("]}");
    out
}

/// The setting after a form was read: what the form gives, if it gives anything.
pub open spec fn updated(form: Map<Seq<char>, Seq<char>>, key: Seq<char>, before: Seq<char>) -> Seq<
    char,
> {
    match text_map::lookup(form, key) {
        Some(v) => v,
        None => before,
    }
}

/// Whether setting `i` can be changed by a form: those that are saved, but for the one that
/// enables the display.
pub open spec fn in_form(i: int) -> bool {
    i < nvs_config::saved_count() && i != 21
}

/// The settings after a form was read.
pub open spec fn updated_settings(form: Map<Seq<char>, Seq<char>>, c: Seq<Seq<char>>) -> Seq<
    Seq<char>,
> {
    Seq::new(
        nvs_config::setting_count(),
        |i: int|
            if in_form(i) {
                updated(form, nvs_config::key(i), c[i])
            } else {
                c[i]
            },
    )
}

fn update(form: &TextMap, key: &str, field: &mut String)
    ensures
        final(field)@ == updated(form@, key@, old(field)@),
{
    if let Some(v) = form.get(key) {
        *field = v;
    }
}

/// Takes over the settings that a form gives.
pub fn apply_form(form: &TextMap, c: &mut NvsConfig)
    ensures
        final(c)@ == updated_settings(form@, old(c)@),
{
    update(form, "wifi_ssid", &mut c.wifi_ssid);
    update(form, "wifi_psk", &mut c.wifi_psk);
    update(form, "ip_mode", &mut c.ip_mode);
    update(form, "ip_address", &mut c.ip_address);
    update(form, "subnet_mask", &mut c.subnet_mask);
    update(form, "gateway", &mut c.gateway);
    update(form, "dns", &mut c.dns);
    update(form, "syslog_server", &mut c.syslog_server);
    update(form, "syslog_enable", &mut c.syslog_enable);
    update(form, "syslog_hostname", &mut c.syslog_host_name);
    update(form, "syslog_app_name", &mut c.syslog_app_name);
    update(form, "ssh_user", &mut c.ssh_user);
    update(form, "ssh_password", &mut c.ssh_password);
    update(form, "com1_tx_pin", &mut c.com1_tx_pin);
    update(form, "com1_rx_pin", &mut c.com1_rx_pin);
    update(form, "com1_baud", &mut c.com1_baud);
    update(form, "com2_tx_pin", &mut c.com2_tx_pin);
    update(form, "com2_rx_pin", &mut c.com2_rx_pin);
    update(form, "com2_baud", &mut c.com2_baud);
    update(form, "cdc_enable", &mut c.cdc_enable);
    update(form, "cdc_baud", &mut c.cdc_baud);
    update(form, "display_port", &mut c.display_port);
    update(form, "wps_enable", &mut c.wps_enable);
    update(form, "pwm_enable", &mut c.pwm_enable);
    update(form, "ntp_server1", &mut c.ntp_server1);
    update(form, "ntp_server2", &mut c.ntp_server2);
    update(form, "ntp_server3", &mut c.ntp_server3);
    update(form, "ntp_server4", &mut c.ntp_server4);
    proof {
        assert(c@ =~= updated_settings(form@, old(c)@));
    }
}

/// The cookie that a login sets.
pub open spec fn login_cookie(token: Seq<char>) -> Seq<char> {
    "session="@ + token + "; Path=/; HttpOnly; SameSite=Strict"@
}

/// Whether a login form holds the right name and password.
pub open spec fn login_valid(s: Site, form: Map<Seq<char>, Seq<char>>) -> bool {
    &&& text_map::lookup(form, "username"@) == Some(s.config.ssh_user@)
    &&& text_map::lookup(form, "password"@) == Some(s.config.ssh_password@)
}

/// A login: the right form begins a session with a new token, any other one changes nothing.
pub open spec fn logged_in(
    before: Site,
    after: Site,
    r: Answer,
    form: Map<Seq<char>, Seq<char>>,
    token: Seq<char>,
) -> bool {
    if login_valid(before, form) {
        &&& after == (Site { session: Some(token), ..before })
        &&& r == redirect_with_cookie(login_cookie(token), "/"@)
    } else {
        &&& after == before
        &&& r == redirect("/login?error=1"@)
    }
}

/// Whether a request with this cookie header belongs to the session of the site.
pub open spec fn allowed(s: Site, cookie: Option<&str>) -> bool {
    forms::authorized(forms::header_view(cookie), s.session)
}

/// The outputs after a form that sets a digital output.
pub open spec fn gpio_set(gpio: Seq<bool>, form: Map<Seq<char>, Seq<char>>) -> Seq<bool> {
    match (text_map::lookup(form, "index"@), text_map::lookup(form, "value"@)) {
        (Some(i), Some(v)) => match text::parse_dec(i, usize::MAX as nat) {
            Some(n) => if n < 7 {
                gpio.update(n as int, v == "1"@ || v == "true"@)
            } else {
                gpio
            },
            None => gpio,
        },
        _ => gpio,
    }
}

/// The duties after a form that sets one.
pub open spec fn pwm_set(pwm: Seq<u8>, form: Map<Seq<char>, Seq<char>>) -> Seq<u8> {
    match (text_map::lookup(form, "index"@), text_map::lookup(form, "duty"@)) {
        (Some(i), Some(d)) => match (
            text::parse_dec(i, usize::MAX as nat),
            text::parse_dec(d, 255),
        ) {
            (Some(n), Some(duty)) => if n < 2 {
                pwm.update(
                    n as int,
                    if duty <= 100 {
                        duty as u8
                    } else {
                        100
                    },
                )
            } else {
                pwm
            },
            _ => pwm,
        },
        _ => pwm,
    }
}

/// A request that sets a digital output.
pub open spec fn gpio_requested(
    before: Site,
    after: Site,
    r: Answer,
    cookie: Option<&str>,
    form: Map<Seq<char>, Seq<char>>,
) -> bool {
    if allowed(before, cookie) {
        &&& after == (Site { gpio: gpio_set(before.gpio, form), ..before })
        &&& r == ok_answer("application/json"@, outputs_json(after.gpio, after.pwm, 7))
    } else {
        after == before && r == unauthorized()
    }
}

/// A request that sets a duty; its answer lists the outputs without the DC output.
pub open spec fn pwm_requested(
    before: Site,
    after: Site,
    r: Answer,
    cookie: Option<&str>,
    form: Map<Seq<char>, Seq<char>>,
) -> bool {
    if allowed(before, cookie) {
        &&& after == (Site { pwm: pwm_set(before.pwm, form), ..before })
        &&& r == ok_answer("application/json"@, outputs_json(after.gpio, after.pwm, 6))
    } else {
        after == before && r == unauthorized()
    }
}

/// Whether push-button setup is asked for or under way.
pub open spec fn wps_running(s: WpsStatus) -> bool {
    s is Requested || s is Waiting || s is Connecting
}

/// A request to start push-button setup; one that is under way goes on.
pub open spec fn wps_requested(before: Site, after: Site, r: Answer, cookie: Option<&str>) -> bool {
    if !allowed(before, cookie) {
        after == before && r == unauthorized()
    } else if wps_running(before.wps) {
        &&& after == before
        &&& r == ok_answer("text/plain; charset=UTF-8"@, "WPS is already running."@)
    } else {
        &&& after == (Site { wps: WpsStatus::Requested, ..before })
        &&& r == ok_answer(
            "text/plain; charset=UTF-8"@,
            "WPS started. Press the WPS button on your router within 120 seconds."@,
        )
    }
}

/// The name of a state of push-button setup.
pub open spec fn wps_name(s: WpsStatus) -> Seq<char> {
    match s {
        WpsStatus::Idle => "idle"@,
        WpsStatus::Requested => "requested"@,
        WpsStatus::Waiting(_) => "waiting"@,
        WpsStatus::Connecting => "connecting"@,
        WpsStatus::Succeeded => "succeeded"@,
        WpsStatus::Failed => "failed"@,
    }
}

/// How far push-button setup is, as JSON: its state, and for how many more seconds it waits.
pub open spec fn wps_json(s: WpsStatus) -> Seq<char> {
    let seconds = match s {
        WpsStatus::Waiting(n) => n,
        _ => 0,
    };
    "{\"wps\":\""@ + wps_name(s) + "\",\"seconds\":"@ + text::dec(seconds as nat) + "}"@
}

fn wps_text(s: WpsStatus) -> (r: String)
    ensures
        r@ == wps_json(s),
{
    let (name, seconds): (&'static str, u32) = match s {
        WpsStatus::Idle => ("idle", 0),
        WpsStatus::Requested => ("requested", 0),
        WpsStatus::Waiting(n) => ("waiting", n),
        WpsStatus::Connecting => ("connecting", 0),
        WpsStatus::Succeeded => ("succeeded", 0),
        WpsStatus::Failed => ("failed", 0),
    };
    let mut out = "{\"wps\":\"".to_owned();
    out.append(name);
    out.append("\",\"seconds\":");
    push_dec(&mut out, seconds as u64);
    out.append("}");
    out
}

/// What else knows of settings that take effect at once.
pub struct Live {
    pub bridge: Bridge,
    pub display: DisplayState,
    pub logger: Option<SysLogger>,
}

/// The display port and the names in the log follow the settings.
pub open spec fn follows(before: Live, after: Live, c: NvsConfig, logger_locked: bool) -> bool {
    &&& after.display.wf()
    &&& after.display.aux() == before.display.aux()
    &&& after.display.message() == before.display.message()
    &&& match usb_host::display_choice(c.display_port@) {
        Some((id, page)) => {
            &&& after.bridge == (Bridge { display_port: id, ..before.bridge })
            &&& after.display.page() == page
        },
        None => {
            &&& after.bridge == before.bridge
            &&& after.display.page() == before.display.page()
        },
    }
    &&& after.logger is Some <==> before.logger is Some
    &&& logger_locked ==> ((before.logger, after.logger) matches (Some(a), Some(b)) ==> b@ == (
    LoggerSettings { host_name: c.syslog_host_name@, app_name: c.syslog_app_name@, ..a@ }))
    &&& !logger_locked ==> after.logger == before.logger
}

/// A request to save settings: the form is taken over and what follows from it takes effect; what
/// remains is to write the settings.
pub open spec fn save_requested(
    before: (Site, Live),
    after: (Site, Live),
    r: Result<WritePlan, Response>,
    cookie: Option<&str>,
    form: Map<Seq<char>, Seq<char>>,
    logger_locked: bool,
) -> bool {
    if allowed(before.0, cookie) {
        &&& r matches Ok(plan)
        &&& plan.is_for(nvs_config::saved_pairs(after.0.config@))
        &&& after.0 == (Site { config: after.0.config, ..before.0 })
        &&& after.0.config@ == updated_settings(form, before.0.config@)
        &&& follows(before.1, after.1, after.0.config, logger_locked)
    } else {
        &&& r matches Err(e)
        &&& e@ == unauthorized()
        &&& after == before
    }
}

/// The login page.
pub fn login_page() -> (r: Response)
    ensures
        r@ == bare_ok(LOGIN_HTML@),
{
    bare_ok_response(LOGIN_HTML)
}

/// The answer to a request to save settings, once they were written or could not be.
pub fn saved_reply(ok: bool) -> (r: Response)
    ensures
        r@ == saved_answer(ok),
{
    if ok {
        ok_response(
            "text/plain; charset=UTF-8",
            "Settings saved. Reboot to apply.".to_owned(),
        )
    } else {
        status_response(500, "NVS write error")
    }
}

/// Whether a field of a form holds a text.
fn field_is(form: &TextMap, key: &str, value: &str) -> (r: bool)
    ensures
        r == (text_map::lookup(form@, key@) == Some(value@)),
{
    match form.get(key) {
        Some(v) => same(v.as_str(), value),
        None => false,
    }
}

/// The configuration page, for whoever is logged in.
pub open spec fn config_answer(s: Site, cookie: Option<&str>) -> Answer {
    if allowed(s, cookie) {
        ok_answer(
            "text/html; charset=UTF-8"@,
            pages::filled(pages::config_pieces(), pages::config_values(s.config)),
        )
    } else {
        redirect("/login"@)
    }
}

/// The status of the device, for whoever is logged in.
pub open spec fn device_answer(s: Site, cookie: Option<&str>, b: Bridge) -> Answer {
    if allowed(s, cookie) {
        ok_answer("application/json"@, status_json(s.status, b))
    } else {
        unauthorized()
    }
}

/// The page of the outputs, for whoever is logged in.
pub open spec fn outputs_page_answer(s: Site, cookie: Option<&str>) -> Answer {
    if allowed(s, cookie) {
        ok_answer("text/html; charset=UTF-8"@, pages::gpio_page(s.gpio, s.pwm))
    } else {
        redirect("/login"@)
    }
}

/// The outputs, for whoever is logged in.
pub open spec fn outputs_answer(s: Site, cookie: Option<&str>) -> Answer {
    if allowed(s, cookie) {
        ok_answer("application/json"@, outputs_json(s.gpio, s.pwm, 7))
    } else {
        unauthorized()
    }
}

/// The terminal page, for whoever is logged in.
pub open spec fn terminal_answer(s: Site, cookie: Option<&str>) -> Answer {
    if allowed(s, cookie) {
        ok_answer("text/html; charset=utf-8"@, TERMINAL_HTML@)
    } else {
        redirect("/login"@)
    }
}

/// How far push-button setup is, for whoever is logged in.
pub open spec fn wps_answer(s: Site, cookie: Option<&str>) -> Answer {
    if allowed(s, cookie) {
        ok_answer("application/json"@, wps_json(s.wps))
    } else {
        unauthorized()
    }
}

/// The boot log, for whoever is logged in.
pub open spec fn boot_log_answer(s: Site, cookie: Option<&str>, log: Seq<char>) -> Answer {
    if allowed(s, cookie) {
        ok_answer("application/json"@, boot_log_json(log))
    } else {
        unauthorized()
    }
}

/// A request to go back to the default settings; `erase` says whether storage is to be erased.
pub open spec fn reset_requested(
    before: Site,
    after: Site,
    r: Answer,
    erase: bool,
    cookie: Option<&str>,
) -> bool {
    &&& erase == allowed(before, cookie)
    &&& after == (Site { config: after.config, ..before })
    &&& if erase {
        &&& after.config@ == before.defaults
        &&& r == ok_answer("text/plain; charset=UTF-8"@, "Reset to defaults. NVS erased."@)
    } else {
        &&& after.config == before.config
        &&& r == unauthorized()
    }
}

/// A request for a restart; `restart` says whether there is to be one.
pub open spec fn reboot_requested(
    before: Site,
    after: Site,
    r: Answer,
    restart: bool,
    cookie: Option<&str>,
) -> bool {
    &&& restart == allowed(before, cookie)
    &&& if restart {
        &&& after == (Site { session: None, ..before })
        &&& r == bare_ok("Rebooting..."@)
    } else {
        &&& after == before
        &&& r == unauthorized()
    }
}

/// The site after its session ended.
pub open spec fn logged_out(s: Site) -> Site {
    Site { session: None, ..s }
}

/// The answer to a logout: the cookie ends at once, and the login page follows.
pub open spec fn logout_answer() -> Answer {
    redirect_with_cookie("session=; Path=/; Max-Age=0"@, "/login"@)
}

/// The answer to a request to save settings.
pub open spec fn saved_answer(ok: bool) -> Answer {
    if ok {
        ok_answer("text/plain; charset=UTF-8"@, "Settings saved. Reboot to apply."@)
    } else {
        status_answer(500, "NVS write error"@)
    }
}

/// The site after a request for push-button setup was taken up, if there was one.
pub open spec fn wps_taken_up(s: Site) -> Site {
    if s.wps == WpsStatus::Requested {
        Site { wps: WpsStatus::Waiting(WPS_SECONDS), ..s }
    } else {
        s
    }
}

impl ConfigState {
    /// The state with nobody logged in.
    pub fn new(
        config: NvsConfig,
        defaults: NvsConfig,
        status: StatusInfo,
        gpio_pwm: GpioPwmState,
    ) -> (s: ConfigState)
        requires
            gpio_pwm.wf(),
        ensures
            s@.wf(),
            s@ == (Site {
                config,
                defaults: defaults@,
                status: status@,
                gpio: gpio_pwm.gpio(),
                pwm: gpio_pwm.pwm(),
                wps: WpsStatus::Idle,
                session: None,
            }),
    {
        ConfigState { config, defaults, status, gpio_pwm, wps: WpsStatus::Idle, session: None }
    }

    /// Whether a request with this cookie header belongs to the session.
    pub fn is_allowed(&self, cookie: Option<&str>) -> (r: bool)
        ensures
            r == allowed(self@, cookie),
    {
        is_auth(cookie, &self.session)
    }

    /// A login with a form; four random numbers make the token.
    pub fn login_with(&mut self, body: &str, random: [u32; 4]) -> (r: Response)
        ensures
            logged_in(old(self)@, final(self)@, r@, forms::form(body@), forms::token(random@)),
    {
        let form = parse_form(body);
        if field_is(&form, "username", self.config.ssh_user.as_str()) && field_is(
            &form,
            "password",
            self.config.ssh_password.as_str(),
        ) {
            let token = generate_token(random);
            let mut cookie = "session=".to_owned();
            cookie.append(token.as_str());
            cookie.append("; Path=/; HttpOnly; SameSite=Strict");
            self.session = Some(token);
            cookie_response(cookie, "/")
        } else {
            redirect_response("/login?error=1")
        }
    }

    /// A login with the body of a request.
    pub fn login(&mut self, body: &[u8], random: [u32; 4]) -> (r: Response)
        ensures
            logged_in(
                old(self)@,
                final(self)@,
                r@,
                forms::form(text::lossy(body@)),
                forms::token(random@),
            ),
    {
        let body = lossy_text(body);
        self.login_with(body.as_str(), random)
    }

    /// Ends the session.
    pub fn logout(&mut self) -> (r: Response)
        ensures
            final(self)@ == logged_out(old(self)@),
            r@ == logout_answer(),
    {
        self.session = None;
        cookie_response("session=; Path=/; Max-Age=0".to_owned(), "/login")
    }

    /// The configuration page.
    pub fn config_page(&self, cookie: Option<&str>) -> (r: Response)
        ensures
            r@ == config_answer(self@, cookie),
    {
        if !self.is_allowed(cookie) {
            return redirect_response("/login");
        }
        ok_response("text/html; charset=UTF-8", build_config_html(&self.config))
    }

    /// A request to save settings with a form.
    pub fn save_config_with(
        &mut self,
        cookie: Option<&str>,
        body: &str,
        live: &mut Live,
        logger_locked: bool,
    ) -> (r: Result<WritePlan, Response>)
        requires
            old(live).display.wf(),
        ensures
            save_requested(
                (old(self)@, *old(live)),
                (final(self)@, *final(live)),
                r,
                cookie,
                forms::form(body@),
                logger_locked,
            ),
            final(live).display.wf(),
    {
        if !self.is_allowed(cookie) {
            return Err(status_response(401, "Unauthorized"));
        }
        let form = parse_form(body);
        apply_form(&form, &mut self.config);
        live.bridge.set_display_port(self.config.display_port.as_str(), &mut live.display);
        let _ = update_logger_config(
            &mut live.logger,
            logger_locked,
            self.config.syslog_host_name.as_str(),
            self.config.syslog_app_name.as_str(),
        );
        Ok(nvs_write_all(&self.config))
    }

    /// A request to save settings with the body of a request.
    pub fn save_config(
        &mut self,
        cookie: Option<&str>,
        body: &[u8],
        live: &mut Live,
        logger_locked: bool,
    ) -> (r: Result<WritePlan, Response>)
        requires
            old(live).display.wf(),
        ensures
            save_requested(
                (old(self)@, *old(live)),
                (final(self)@, *final(live)),
                r,
                cookie,
                forms::form(text::lossy(body@)),
                logger_locked,
            ),
            final(live).display.wf(),
    {
        let body = lossy_text(body);
        self.save_config_with(cookie, body.as_str(), live, logger_locked)
    }

    /// The status of the device.
    pub fn status_reply(&self, cookie: Option<&str>, bridge: &Bridge) -> (r: Response)
        ensures
            r@ == device_answer(self@, cookie, *bridge),
    {
        if !self.is_allowed(cookie) {
            return status_response(401, "Unauthorized");
        }
        ok_response("application/json", status_text(&self.status, bridge))
    }

    /// Goes back to the default settings; tells whether storage is to be erased.
    pub fn reset(&mut self, cookie: Option<&str>) -> (r: (Response, bool))
        ensures
            reset_requested(old(self)@, final(self)@, (r.0)@, r.1, cookie),
    {
        if !self.is_allowed(cookie) {
            return (status_response(401, "Unauthorized"), false);
        }
        self.config = self.defaults.clone();
        (
            ok_response("text/plain; charset=UTF-8", "Reset to defaults. NVS erased.".to_owned()),
            true,
        )
    }

    /// Ends the session for a restart; tells whether there is to be one.
    pub fn reboot(&mut self, cookie: Option<&str>) -> (r: (Response, bool))
        ensures
            reboot_requested(old(self)@, final(self)@, (r.0)@, r.1, cookie),
    {
        if !self.is_allowed(cookie) {
            return (status_response(401, "Unauthorized"), false);
        }
        self.session = None;
        (bare_ok_response("Rebooting..."), true)
    }

    /// The page of the outputs.
    pub fn gpio_page(&self, cookie: Option<&str>) -> (r: Response)
        ensures
            r@ == outputs_page_answer(self@, cookie),
    {
        if !self.is_allowed(cookie) {
            return redirect_response("/login");
        }
        let g = self.gpio_pwm.get_gpio();
        let p = self.gpio_pwm.get_pwm();
        ok_response("text/html; charset=UTF-8", build_gpio_html(g, p))
    }

    /// The outputs.
    pub fn gpio_state(&self, cookie: Option<&str>) -> (r: Response)
        requires
            self@.wf(),
        ensures
            r@ == outputs_answer(self@, cookie),
    {
        if !self.is_allowed(cookie) {
            return status_response(401, "Unauthorized");
        }
        ok_response("application/json", outputs_text(&self.gpio_pwm, 7))
    }

    /// Sets a digital output with a form.
    pub fn set_gpio_with(&mut self, cookie: Option<&str>, body: &str) -> (r: Response)
        requires
            old(self)@.wf(),
        ensures
            final(self)@.wf(),
            gpio_requested(old(self)@, final(self)@, r@, cookie, forms::form(body@)),
    {
        if !self.is_allowed(cookie) {
            return status_response(401, "Unauthorized");
        }
        let form = parse_form(body);
        if let (Some(i), Some(v)) = (form.get("index"), form.get("value")) {
            if let Some(n) = parse_number(i.as_str(), usize::MAX as u64) {
                let on = same(v.as_str(), "1") || same(v.as_str(), "true");
                self.gpio_pwm.set_gpio(n as usize, on);
            }
        }
        ok_response("application/json", outputs_text(&self.gpio_pwm, 7))
    }

    /// Sets a digital output with the body of a request.
    pub fn set_gpio(&mut self, cookie: Option<&str>, body: &[u8]) -> (r: Response)
        requires
            old(self)@.wf(),
        ensures
            final(self)@.wf(),
            gpio_requested(
                old(self)@,
                final(self)@,
                r@,
                cookie,
                forms::form(text::lossy(body@)),
            ),
    {
        let body = lossy_text(body);
        self.set_gpio_with(cookie, body.as_str())
    }

    /// Sets a duty with a form.
    pub fn set_pwm_with(&mut self, cookie: Option<&str>, body: &str) -> (r: Response)
        requires
            old(self)@.wf(),
        ensures
            final(self)@.wf(),
            pwm_requested(old(self)@, final(self)@, r@, cookie, forms::form(body@)),
    {
        if !self.is_allowed(cookie) {
            return status_response(401, "Unauthorized");
        }
        let form = parse_form(body);
        if let (Some(i), Some(d)) = (form.get("index"), form.get("duty")) {
            if let (Some(n), Some(duty)) = (
                parse_number(i.as_str(), usize::MAX as u64),
                parse_number(d.as_str(), 255),
            ) {
                self.gpio_pwm.set_pwm(n as usize, duty as u8);
            }
        }
        ok_response("application/json", outputs_text(&self.gpio_pwm, 6))
    }

    /// Sets a duty with the body of a request.
    pub fn set_pwm(&mut self, cookie: Option<&str>, body: &[u8]) -> (r: Response)
        requires
            old(self)@.wf(),
        ensures
            final(self)@.wf(),
            pwm_requested(
                old(self)@,
                final(self)@,
                r@,
                cookie,
                forms::form(text::lossy(body@)),
            ),
    {
        let body = lossy_text(body);
        self.set_pwm_with(cookie, body.as_str())
    }

    /// The terminal page.
    pub fn terminal_page(&self, cookie: Option<&str>) -> (r: Response)
        ensures
            r@ == terminal_answer(self@, cookie),
    {
        if !self.is_allowed(cookie) {
            return redirect_response("/login");
        }
        ok_response("text/html; charset=utf-8", build_terminal_html())
    }

    /// Asks for push-button setup.
    pub fn start_wps(&mut self, cookie: Option<&str>) -> (r: Response)
        ensures
            wps_requested(old(self)@, final(self)@, r@, cookie),
    {
        if !self.is_allowed(cookie) {
            return status_response(401, "Unauthorized");
        }
        match self.wps {
            WpsStatus::Requested | WpsStatus::Waiting(_) | WpsStatus::Connecting => ok_response(
                "text/plain; charset=UTF-8",
                "WPS is already running.".to_owned(),
            ),
            WpsStatus::Idle | WpsStatus::Succeeded | WpsStatus::Failed => {
                self.wps = WpsStatus::Requested;
                ok_response(
                    "text/plain; charset=UTF-8",
                    "WPS started. Press the WPS button on your router within 120 seconds.".to_owned(),
                )
            },
        }
    }

    /// Takes up a request for push-button setup; tells whether there was one.
    pub fn take_wps_request(&mut self) -> (r: bool)
        ensures
            r == (old(self)@.wps == WpsStatus::Requested),
            final(self)@ == wps_taken_up(old(self)@),
    {
        if self.wps == WpsStatus::Requested {
            self.wps = WpsStatus::Waiting(WPS_SECONDS);
            true
        } else {
            false
        }
    }

    /// How far push-button setup is.
    pub fn wps_reply(&self, cookie: Option<&str>) -> (r: Response)
        ensures
            r@ == wps_answer(self@, cookie),
    {
        if !self.is_allowed(cookie) {
            return status_response(401, "Unauthorized");
        }
        ok_response("application/json", wps_text(self.wps))
    }

    /// Whether a browser terminal that comes with this cookie is admitted.
    pub fn ws_open(&self, cookie: Option<&str>) -> (r: bool)
        ensures
            r == allowed(self@, cookie),
    {
        self.is_allowed(cookie)
    }

    /// The boot log; `log` is what storage holds of it.
    pub fn boot_log_reply(&self, cookie: Option<&str>, log: &str) -> (r: Response)
        ensures
            r@ == boot_log_answer(self@, cookie, log@),
    {
        if !self.is_allowed(cookie) {
            return status_response(401, "Unauthorized");
        }
        ok_response("application/json", boot_log_text(log))
    }
}

/// A message of a browser terminal.
#[derive(Copy, Clone, Debug, PartialEq, Eq, Structural)]
pub enum Frame {
    /// A command.
    Text,
    /// Bytes for the serial port.
    Binary,
    Other,
}

/// Session `fd` of a terminal opens, admitted or not.
pub open spec fn terminal_opened(
    s: Site,
    before: ws::Listening,
    after: ws::Listening,
    fd: i32,
    cookie: Option<&str>,
    admitted: bool,
) -> bool {
    &&& admitted == allowed(s, cookie)
    &&& after == ws::opened(before, fd, admitted)
}

/// A terminal opens session `fd`: it is admitted if its cookie belongs to whoever is logged in.
/// Tells whether it is.
pub fn ws_connect(
    site: &ConfigState,
    listeners: &mut Listeners,
    fd: i32,
    cookie: Option<&str>,
) -> (admitted: bool)
    ensures
        terminal_opened(site@, old(listeners)@, final(listeners)@, fd, cookie, admitted),
{
    let admitted = site.ws_open(cookie);
    listeners.open_session(fd, admitted);
    admitted
}

/// The listeners after a command of session `fd`, which must be admitted.
pub open spec fn commanded(l: ws::Listening, fd: i32, msg: Seq<char>) -> ws::Listening {
    match forms::ws_port(msg) {
        Some(port) if l.admitted.contains(fd) => ws::joined(
            ws::left_all(l, fd),
            ws::port_device(port),
            fd,
        ),
        _ => l,
    }
}

/// Carries out a command of a terminal, if it is admitted; tells whether it now listens to a port.
pub fn ws_command(listeners: &mut Listeners, fd: i32, msg: &str) -> (joined: bool)
    ensures
        joined == (old(listeners)@.admitted.contains(fd) && forms::ws_port(msg@) is Some),
        final(listeners)@ == commanded(old(listeners)@, fd, msg@),
{
    if !listeners.is_admitted(fd) {
        return false;
    }
    match parse_ws_port(msg) {
        Some(port) => {
            listeners.leave_ports(fd);
            listeners.ws_register_sender(port.as_str(), fd);
            true
        },
        None => false,
    }
}

/// The queues after a terminal of session `fd`, which must be admitted, sent bytes.
pub open spec fn typed(q: ws::Queued, l: ws::Listening, fd: i32, data: Seq<u8>) -> ws::Queued {
    match ws::tx_device(ws::session_port(l, fd)) {
        Some(d) if l.admitted.contains(fd) => ws::with_queue(
            q,
            d,
            ws::newest(ws::queue_of(q, d) + data, ws::WS_RING_CAP as nat),
        ),
        _ => q,
    }
}

/// A message of a terminal: a command, or bytes for the port that it listens to; an empty one is
/// neither.
pub open spec fn framed(
    before: (ws::Listening, ws::Queued),
    after: (ws::Listening, ws::Queued),
    fd: i32,
    frame: Frame,
    data: Seq<u8>,
    joined: bool,
) -> bool {
    match frame {
        Frame::Text if data.len() > 0 => {
            &&& joined == (before.0.admitted.contains(fd) && forms::ws_port(
                text::lossy(data),
            ) is Some)
            &&& after.0 == commanded(before.0, fd, text::lossy(data))
            &&& after.1 == before.1
        },
        Frame::Binary if data.len() > 0 => {
            &&& !joined
            &&& after.0 == before.0
            &&& after.1 == typed(before.1, before.0, fd, data)
        },
        _ => !joined && after == before,
    }
}

/// Takes a message of a terminal: a command, or bytes for the port that it listens to. One that is
/// not admitted is not listened to. Tells whether it now listens to another port.
pub fn ws_frame(
    listeners: &mut Listeners,
    queues: &mut Rings,
    fd: i32,
    frame: Frame,
    data: &[u8],
) -> (joined: bool)
    requires
        old(queues).wf(),
    ensures
        final(queues).wf(),
        framed(
            (old(listeners)@, old(queues)@),
            (final(listeners)@, final(queues)@),
            fd,
            frame,
            data@,
            joined,
        ),
{
    if data.len() == 0 || !listeners.is_admitted(fd) {
        return false;
    }
    match frame {
        Frame::Text => {
            let msg = lossy_text(data);
            ws_command(listeners, fd, msg.as_str())
        },
        Frame::Binary => {
            let port = listeners.ws_port_for_fd(fd);
            queues.serial_write(port, data);
            false
        },
        Frame::Other => false,
    }
}

/// A terminal that was opened without the session is cut off: it listens to no port, and neither
/// its commands nor its bytes change anything.
pub proof fn law_refused_terminal(
    l: ws::Listening,
    q: ws::Queued,
    fd: i32,
    msg: Seq<char>,
    data: Seq<u8>,
)
    ensures
        ({
            let m = ws::opened(l, fd, false);
            &&& !m.com1.contains(fd)
            &&& !m.com2.contains(fd)
            &&& !m.usb.contains(fd)
            &&& commanded(m, fd, msg) == m
            &&& typed(q, m, fd, data) == q
        }),
{
    ws::law_left_is_gone(l, fd);
}

/// A session that is not admitted stays so, whatever anybody sends, until it is opened again.
pub proof fn law_commands_admit_nobody(l: ws::Listening, fd: i32, msg: Seq<char>)
    ensures
        commanded(l, fd, msg).admitted == l.admitted,
        ws::only_admitted(l) ==> ws::only_admitted(commanded(l, fd, msg)),
{
    if ws::only_admitted(l) && l.admitted.contains(fd) {
        ws::law_only_admitted_listen(l, fd, true);
        let m = ws::opened(l, fd, true);
        assert(m.admitted =~= l.admitted);
        if let Some(port) = forms::ws_port(msg) {
            let d = ws::port_device(port);
            let j = ws::joined(ws::left_all(l, fd), d, fd);
            let s = ws::sessions_of(ws::left_all(l, fd), d).push(fd);
            assert(m == (ws::Listening { admitted: m.admitted, ..ws::left_all(l, fd) }));
            assert forall|i: int| 0 <= i < s.len() implies l.admitted.contains(
                #[trigger] s[i],
            ) by {
                if i < s.len() - 1 {
                    assert(s[i] == ws::sessions_of(m, d)[i]);
                }
            }
        }
    }
}

/// After a login with the right form, the cookie that it set opens every page.
pub proof fn law_login_opens(before: Site, after: Site, r: Answer, form: Map<Seq<char>, Seq<char>>, random: Seq<u32>)
    requires
        random.len() == 4,
        login_valid(before, form),
        logged_in(before, after, r, form, forms::token(random)),
    ensures
        forms::authorized(Some("session="@ + forms::token(random)), after.session),
{
    forms::law_cookie_reads_back(random, Seq::empty());
}

/// A login with a wrong form gives no access: whoever was allowed before is allowed after, and
/// nobody else.
pub proof fn law_wrong_login_changes_nothing(
    before: Site,
    after: Site,
    r: Answer,
    form: Map<Seq<char>, Seq<char>>,
    token: Seq<char>,
    cookie: Option<&str>,
)
    requires
        !login_valid(before, form),
        logged_in(before, after, r, form, token),
    ensures
        allowed(after, cookie) == allowed(before, cookie),
{
}

/// After a logout or a restart nobody is allowed, whatever cookie comes along.
pub proof fn law_logout_closes(s: Site, cookie: Option<&str>)
    ensures
        !allowed(Site { session: None, ..s }, cookie),
{
}

/// A new login ends the session before it: its cookie is refused.
pub proof fn law_login_replaces_session(
    before: Site,
    after: Site,
    r: Answer,
    form: Map<Seq<char>, Seq<char>>,
    old_random: Seq<u32>,
    random: Seq<u32>,
)
    requires
        old_random.len() == 4,
        random.len() == 4,
        forms::token(old_random) != forms::token(random),
        login_valid(before, form),
        logged_in(before, after, r, form, forms::token(random)),
    ensures
        !forms::authorized(Some("session="@ + forms::token(old_random)), after.session),
{
    forms::law_cookie_reads_back(old_random, forms::token(random));
}

/// A request to set an output without the session changes nothing and is refused.
pub proof fn law_refused_changes_nothing(
    before: Site,
    after: Site,
    r: Answer,
    cookie: Option<&str>,
    form: Map<Seq<char>, Seq<char>>,
)
    requires
        !allowed(before, cookie),
        gpio_requested(before, after, r, cookie, form) || pwm_requested(
            before,
            after,
            r,
            cookie,
            form,
        ),
    ensures
        after == before,
        r == unauthorized(),
{
}

/// Push-button setup starts only for whoever is logged in, and a request while it runs starts
/// nothing: the second of two in a row changes nothing.
pub proof fn law_wps_starts_once(
    before: Site,
    between: Site,
    after: Site,
    first: Answer,
    second: Answer,
    cookie: Option<&str>,
)
    requires
        wps_requested(before, between, first, cookie),
        wps_requested(between, after, second, cookie),
    ensures
        after == between,
        !allowed(before, cookie) ==> between == before,
        allowed(before, cookie) ==> wps_running(between.wps),
{
}

/// A request to save settings without the session changes nothing and is refused.
pub proof fn law_refused_save_changes_nothing(
    before: (Site, Live),
    after: (Site, Live),
    r: Result<WritePlan, Response>,
    cookie: Option<&str>,
    form: Map<Seq<char>, Seq<char>>,
    logger_locked: bool,
)
    requires
        !allowed(before.0, cookie),
        save_requested(before, after, r, cookie, form, logger_locked),
    ensures
        after == before,
        r matches Err(e) && e@ == unauthorized(),
{
}

/// Settings that were saved from a form are there after a restart, as far as they are not empty.
pub proof fn law_saved_form_is_loaded(
    storage: Map<Seq<char>, Seq<char>>,
    form: Map<Seq<char>, Seq<char>>,
    c: Seq<Seq<char>>,
    defaults: Seq<Seq<char>>,
    i: int,
    value: Seq<char>,
)
    requires
        c.len() == nvs_config::setting_count(),
        defaults.len() == nvs_config::setting_count(),
        0 <= i < nvs_config::setting_count(),
        in_form(i),
        text_map::lookup(form, nvs_config::key(i)) == Some(value),
        value.len() > 0,
    ensures
        nvs_config::loaded(
            text_map::inserted(
                storage,
                nvs_config::saved_pairs(updated_settings(form, c)),
            ),
            defaults,
        )[i] == value,
{
    nvs_config::law_load_after_save(storage, updated_settings(form, c), defaults);
}


/// Whether a setting is what a form gives under a name, if it gives anything, and else what it was.
pub open spec fn given(
    after: Seq<char>,
    form: Map<Seq<char>, Seq<char>>,
    name: Seq<char>,
    before: Seq<char>,
) -> bool {
    if form.dom().contains(name) {
        after == form[name]
    } else {
        after == before
    }
}

/// Each setting of the configuration form is taken over from the field of its own name; the other
/// settings stay.
pub proof fn law_form_by_name(
    form: Map<Seq<char>, Seq<char>>,
    before: NvsConfig,
    after: NvsConfig,
)
    requires
        after@ == updated_settings(form, before@),
    ensures
        given(after.wifi_ssid@, form, "wifi_ssid"@, before.wifi_ssid@),
        given(after.wifi_psk@, form, "wifi_psk"@, before.wifi_psk@),
        given(after.ip_mode@, form, "ip_mode"@, before.ip_mode@),
        given(after.ip_address@, form, "ip_address"@, before.ip_address@),
        given(after.subnet_mask@, form, "subnet_mask"@, before.subnet_mask@),
        given(after.gateway@, form, "gateway"@, before.gateway@),
        given(after.dns@, form, "dns"@, before.dns@),
        given(after.syslog_server@, form, "syslog_server"@, before.syslog_server@),
        given(after.syslog_enable@, form, "syslog_enable"@, before.syslog_enable@),
        given(after.syslog_host_name@, form, "syslog_hostname"@, before.syslog_host_name@),
        given(after.syslog_app_name@, form, "syslog_app_name"@, before.syslog_app_name@),
        given(after.ssh_user@, form, "ssh_user"@, before.ssh_user@),
        given(after.ssh_password@, form, "ssh_password"@, before.ssh_password@),
        given(after.com1_tx_pin@, form, "com1_tx_pin"@, before.com1_tx_pin@),
        given(after.com1_rx_pin@, form, "com1_rx_pin"@, before.com1_rx_pin@),
        given(after.com1_baud@, form, "com1_baud"@, before.com1_baud@),
        given(after.com2_tx_pin@, form, "com2_tx_pin"@, before.com2_tx_pin@),
        given(after.com2_rx_pin@, form, "com2_rx_pin"@, before.com2_rx_pin@),
        given(after.com2_baud@, form, "com2_baud"@, before.com2_baud@),
        given(after.cdc_enable@, form, "cdc_enable"@, before.cdc_enable@),
        given(after.cdc_baud@, form, "cdc_baud"@, before.cdc_baud@),
        given(after.display_port@, form, "display_port"@, before.display_port@),
        given(after.wps_enable@, form, "wps_enable"@, before.wps_enable@),
        given(after.pwm_enable@, form, "pwm_enable"@, before.pwm_enable@),
        given(after.ntp_server1@, form, "ntp_server1"@, before.ntp_server1@),
        given(after.ntp_server2@, form, "ntp_server2"@, before.ntp_server2@),
        given(after.ntp_server3@, form, "ntp_server3"@, before.ntp_server3@),
        given(after.ntp_server4@, form, "ntp_server4"@, before.ntp_server4@),
        after.display_enable@ == before.display_enable@,
        after.cdc_retry_enable@ == before.cdc_retry_enable@,
        after.cdc_retry_interval@ == before.cdc_retry_interval@,
        after.mini_display_enable@ == before.mini_display_enable@,
{
    let got = updated_settings(form, before@);
    assert(after@[0] == got[0]);
    assert(after@[1] == got[1]);
    assert(after@[2] == got[2]);
    assert(after@[3] == got[3]);
    assert(after@[4] == got[4]);
    assert(after@[5] == got[5]);
    assert(after@[6] == got[6]);
    assert(after@[7] == got[7]);
    assert(after@[8] == got[8]);
    assert(after@[9] == got[9]);
    assert(after@[10] == got[10]);
    assert(after@[11] == got[11]);
    assert(after@[12] == got[12]);
    assert(after@[13] == got[13]);
    assert(after@[14] == got[14]);
    assert(after@[15] == got[15]);
    assert(after@[16] == got[16]);
    assert(after@[17] == got[17]);
    assert(after@[18] == got[18]);
    assert(after@[19] == got[19]);
    assert(after@[20] == got[20]);
    assert(after@[21] == got[21]);
    assert(after@[22] == got[22]);
    assert(after@[23] == got[23]);
    assert(after@[24] == got[24]);
    assert(after@[25] == got[25]);
    assert(after@[26] == got[26]);
    assert(after@[27] == got[27]);
    assert(after@[28] == got[28]);
    assert(after@[29] == got[29]);
    assert(after@[30] == got[30]);
    assert(after@[31] == got[31]);
}

/// A form that is saved by whoever is logged in ends up in the settings and in storage: each field
/// under its own name.
pub proof fn law_saved_form_is_written(
    before: (Site, Live),
    after: (Site, Live),
    r: Result<WritePlan, Response>,
    cookie: Option<&str>,
    form: Map<Seq<char>, Seq<char>>,
    logger_locked: bool,
)
    requires
        save_requested(before, after, r, cookie, form, logger_locked),
        forms::session_cookie(forms::header_view(cookie)) == before.0.session,
        before.0.session is Some,
    ensures
        r is Ok,
        given(after.0.config.wifi_ssid@, form, "wifi_ssid"@, before.0.config.wifi_ssid@),
        nvs_config::has_zero(after.0.config.wifi_ssid@) || nvs_config::writes(
            r->Ok_0,
            "wifi_ssid"@,
            after.0.config.wifi_ssid@,
        ),
        given(after.0.config.wifi_psk@, form, "wifi_psk"@, before.0.config.wifi_psk@),
        nvs_config::has_zero(after.0.config.wifi_psk@) || nvs_config::writes(
            r->Ok_0,
            "wifi_psk"@,
            after.0.config.wifi_psk@,
        ),
        given(after.0.config.ip_mode@, form, "ip_mode"@, before.0.config.ip_mode@),
        nvs_config::has_zero(after.0.config.ip_mode@) || nvs_config::writes(
            r->Ok_0,
            "ip_mode"@,
            after.0.config.ip_mode@,
        ),
        given(after.0.config.ip_address@, form, "ip_address"@, before.0.config.ip_address@),
        nvs_config::has_zero(after.0.config.ip_address@) || nvs_config::writes(
            r->Ok_0,
            "ip_address"@,
            after.0.config.ip_address@,
        ),
        given(after.0.config.subnet_mask@, form, "subnet_mask"@, before.0.config.subnet_mask@),
        nvs_config::has_zero(after.0.config.subnet_mask@) || nvs_config::writes(
            r->Ok_0,
            "subnet_mask"@,
            after.0.config.subnet_mask@,
        ),
        given(after.0.config.gateway@, form, "gateway"@, before.0.config.gateway@),
        nvs_config::has_zero(after.0.config.gateway@) || nvs_config::writes(
            r->Ok_0,
            "gateway"@,
            after.0.config.gateway@,
        ),
        given(after.0.config.dns@, form, "dns"@, before.0.config.dns@),
        nvs_config::has_zero(after.0.config.dns@) || nvs_config::writes(
            r->Ok_0,
            "dns"@,
            after.0.config.dns@,
        ),
        given(after.0.config.syslog_server@, form, "syslog_server"@, before.0.config.syslog_server@),
        nvs_config::has_zero(after.0.config.syslog_server@) || nvs_config::writes(
            r->Ok_0,
            "syslog_server"@,
            after.0.config.syslog_server@,
        ),
        given(after.0.config.syslog_enable@, form, "syslog_enable"@, before.0.config.syslog_enable@),
        nvs_config::has_zero(after.0.config.syslog_enable@) || nvs_config::writes(
            r->Ok_0,
            "syslog_enable"@,
            after.0.config.syslog_enable@,
        ),
        given(after.0.config.syslog_host_name@, form, "syslog_hostname"@, before.0.config.syslog_host_name@),
        nvs_config::has_zero(after.0.config.syslog_host_name@) || nvs_config::writes(
            r->Ok_0,
            "syslog_hostname"@,
            after.0.config.syslog_host_name@,
        ),
        given(after.0.config.syslog_app_name@, form, "syslog_app_name"@, before.0.config.syslog_app_name@),
        nvs_config::has_zero(after.0.config.syslog_app_name@) || nvs_config::writes(
            r->Ok_0,
            "syslog_app_name"@,
            after.0.config.syslog_app_name@,
        ),
        given(after.0.config.ssh_user@, form, "ssh_user"@, before.0.config.ssh_user@),
        nvs_config::has_zero(after.0.config.ssh_user@) || nvs_config::writes(
            r->Ok_0,
            "ssh_user"@,
            after.0.config.ssh_user@,
        ),
        given(after.0.config.ssh_password@, form, "ssh_password"@, before.0.config.ssh_password@),
        nvs_config::has_zero(after.0.config.ssh_password@) || nvs_config::writes(
            r->Ok_0,
            "ssh_password"@,
            after.0.config.ssh_password@,
        ),
        given(after.0.config.com1_tx_pin@, form, "com1_tx_pin"@, before.0.config.com1_tx_pin@),
        nvs_config::has_zero(after.0.config.com1_tx_pin@) || nvs_config::writes(
            r->Ok_0,
            "com1_tx_pin"@,
            after.0.config.com1_tx_pin@,
        ),
        given(after.0.config.com1_rx_pin@, form, "com1_rx_pin"@, before.0.config.com1_rx_pin@),
        nvs_config::has_zero(after.0.config.com1_rx_pin@) || nvs_config::writes(
            r->Ok_0,
            "com1_rx_pin"@,
            after.0.config.com1_rx_pin@,
        ),
        given(after.0.config.com1_baud@, form, "com1_baud"@, before.0.config.com1_baud@),
        nvs_config::has_zero(after.0.config.com1_baud@) || nvs_config::writes(
            r->Ok_0,
            "com1_baud"@,
            after.0.config.com1_baud@,
        ),
        given(after.0.config.com2_tx_pin@, form, "com2_tx_pin"@, before.0.config.com2_tx_pin@),
        nvs_config::has_zero(after.0.config.com2_tx_pin@) || nvs_config::writes(
            r->Ok_0,
            "com2_tx_pin"@,
            after.0.config.com2_tx_pin@,
        ),
        given(after.0.config.com2_rx_pin@, form, "com2_rx_pin"@, before.0.config.com2_rx_pin@),
        nvs_config::has_zero(after.0.config.com2_rx_pin@) || nvs_config::writes(
            r->Ok_0,
            "com2_rx_pin"@,
            after.0.config.com2_rx_pin@,
        ),
        given(after.0.config.com2_baud@, form, "com2_baud"@, before.0.config.com2_baud@),
        nvs_config::has_zero(after.0.config.com2_baud@) || nvs_config::writes(
            r->Ok_0,
            "com2_baud"@,
            after.0.config.com2_baud@,
        ),
        given(after.0.config.cdc_enable@, form, "cdc_enable"@, before.0.config.cdc_enable@),
        nvs_config::has_zero(after.0.config.cdc_enable@) || nvs_config::writes(
            r->Ok_0,
            "cdc_enable"@,
            after.0.config.cdc_enable@,
        ),
        given(after.0.config.cdc_baud@, form, "cdc_baud"@, before.0.config.cdc_baud@),
        nvs_config::has_zero(after.0.config.cdc_baud@) || nvs_config::writes(
            r->Ok_0,
            "cdc_baud"@,
            after.0.config.cdc_baud@,
        ),
        given(after.0.config.display_port@, form, "display_port"@, before.0.config.display_port@),
        nvs_config::has_zero(after.0.config.display_port@) || nvs_config::writes(
            r->Ok_0,
            "display_port"@,
            after.0.config.display_port@,
        ),
        given(after.0.config.wps_enable@, form, "wps_enable"@, before.0.config.wps_enable@),
        nvs_config::has_zero(after.0.config.wps_enable@) || nvs_config::writes(
            r->Ok_0,
            "wps_enable"@,
            after.0.config.wps_enable@,
        ),
        given(after.0.config.pwm_enable@, form, "pwm_enable"@, before.0.config.pwm_enable@),
        nvs_config::has_zero(after.0.config.pwm_enable@) || nvs_config::writes(
            r->Ok_0,
            "pwm_enable"@,
            after.0.config.pwm_enable@,
        ),
        given(after.0.config.ntp_server1@, form, "ntp_server1"@, before.0.config.ntp_server1@),
        nvs_config::has_zero(after.0.config.ntp_server1@) || nvs_config::writes(
            r->Ok_0,
            "ntp_server1"@,
            after.0.config.ntp_server1@,
        ),
        given(after.0.config.ntp_server2@, form, "ntp_server2"@, before.0.config.ntp_server2@),
        nvs_config::has_zero(after.0.config.ntp_server2@) || nvs_config::writes(
            r->Ok_0,
            "ntp_server2"@,
            after.0.config.ntp_server2@,
        ),
        given(after.0.config.ntp_server3@, form, "ntp_server3"@, before.0.config.ntp_server3@),
        nvs_config::has_zero(after.0.config.ntp_server3@) || nvs_config::writes(
            r->Ok_0,
            "ntp_server3"@,
            after.0.config.ntp_server3@,
        ),
        given(after.0.config.ntp_server4@, form, "ntp_server4"@, before.0.config.ntp_server4@),
        nvs_config::has_zero(after.0.config.ntp_server4@) || nvs_config::writes(
            r->Ok_0,
            "ntp_server4"@,
            after.0.config.ntp_server4@,
        ),
{
    law_form_by_name(form, before.0.config, after.0.config);
    nvs_config::law_saved_by_name(after.0.config, r->Ok_0);
}

/// Every path by its name, for both methods; any other path is unknown.
pub proof fn law_routes_by_path(path: Seq<char>)
    ensures
        route(true, "/login"@) == Some(Endpoint::Login),
        route(true, "/api/config"@) == Some(Endpoint::SaveConfig),
        route(true, "/api/reset"@) == Some(Endpoint::Reset),
        route(true, "/api/reboot"@) == Some(Endpoint::Reboot),
        route(true, "/api/gpio"@) == Some(Endpoint::SetGpio),
        route(true, "/api/pwm"@) == Some(Endpoint::SetPwm),
        route(true, "/api/wps"@) == Some(Endpoint::StartWps),
        route(false, "/login"@) == Some(Endpoint::LoginPage),
        route(false, "/logout"@) == Some(Endpoint::Logout),
        route(false, "/"@) == Some(Endpoint::ConfigPage),
        route(false, "/api/status"@) == Some(Endpoint::Status),
        route(false, "/gpio"@) == Some(Endpoint::GpioPage),
        route(false, "/api/gpio_state"@) == Some(Endpoint::GpioState),
        route(false, "/terminal"@) == Some(Endpoint::TerminalPage),
        route(false, "/static/xterm.js"@) == Some(Endpoint::TerminalScript),
        route(false, "/static/xterm.css"@) == Some(Endpoint::TerminalStyle),
        route(false, "/static/xterm-addon-fit.js"@) == Some(Endpoint::TerminalFit),
        route(false, "/api/boot_log"@) == Some(Endpoint::BootLog),
        route(false, "/api/wps"@) == Some(Endpoint::WpsStatus),
        path != "/login"@ && path != "/api/config"@ && path != "/api/reset"@ && path != "/api/reboot"@ && path != "/api/gpio"@ && path != "/api/pwm"@ && path != "/api/wps"@ ==> route(
            true,
            path,
        ) is None,
        path != "/login"@ && path != "/logout"@ && path != "/"@ && path != "/api/status"@ && path != "/gpio"@ && path != "/api/gpio_state"@ && path != "/terminal"@ && path != "/static/xterm.js"@ && path != "/static/xterm.css"@ && path != "/static/xterm-addon-fit.js"@ && path != "/api/boot_log"@ && path != "/api/wps"@ ==> route(
            false,
            path,
        ) is None,
{
    reveal_strlit("/login");
    reveal_strlit("/api/config");
    reveal_strlit("/api/reset");
    reveal_strlit("/api/reboot");
    reveal_strlit("/api/gpio");
    reveal_strlit("/api/pwm");
    reveal_strlit("/api/wps");
    reveal_strlit("/logout");
    reveal_strlit("/");
    reveal_strlit("/api/status");
    reveal_strlit("/gpio");
    reveal_strlit("/api/gpio_state");
    reveal_strlit("/terminal");
    reveal_strlit("/static/xterm.js");
    reveal_strlit("/static/xterm.css");
    reveal_strlit("/static/xterm-addon-fit.js");
    reveal_strlit("/api/boot_log");
    assert("/login"@.len() != "/api/config"@.len());
    assert("/login"@.len() != "/api/reset"@.len());
    assert("/login"@.len() != "/api/reboot"@.len());
    assert("/login"@.len() != "/api/gpio"@.len());
    assert("/login"@.len() != "/api/pwm"@.len());
    assert("/login"@.len() != "/api/wps"@.len());
    assert("/login"@.len() != "/logout"@.len());
    assert("/login"@.len() != "/"@.len());
    assert("/login"@.len() != "/api/status"@.len());
    assert("/login"@.len() != "/gpio"@.len());
    assert("/login"@.len() != "/api/gpio_state"@.len());
    assert("/login"@.len() != "/terminal"@.len());
    assert("/login"@.len() != "/static/xterm.js"@.len());
    assert("/login"@.len() != "/static/xterm.css"@.len());
    assert("/login"@.len() != "/static/xterm-addon-fit.js"@.len());
    assert("/login"@.len() != "/api/boot_log"@.len());
    assert("/api/config"@.len() != "/api/reset"@.len());
    assert("/api/config"@[5] != "/api/reboot"@[5]);
    assert("/api/config"@.len() != "/api/gpio"@.len());
    assert("/api/config"@.len() != "/api/pwm"@.len());
    assert("/api/config"@.len() != "/api/wps"@.len());
    assert("/api/config"@.len() != "/logout"@.len());
    assert("/api/config"@.len() != "/"@.len());
    assert("/api/config"@[5] != "/api/status"@[5]);
    assert("/api/config"@.len() != "/gpio"@.len());
    assert("/api/config"@.len() != "/api/gpio_state"@.len());
    assert("/api/config"@.len() != "/terminal"@.len());
    assert("/api/config"@.len() != "/static/xterm.js"@.len());
    assert("/api/config"@.len() != "/static/xterm.css"@.len());
    assert("/api/config"@.len() != "/static/xterm-addon-fit.js"@.len());
    assert("/api/config"@.len() != "/api/boot_log"@.len());
    assert("/api/reset"@.len() != "/api/reboot"@.len());
    assert("/api/reset"@.len() != "/api/gpio"@.len());
    assert("/api/reset"@.len() != "/api/pwm"@.len());
    assert("/api/reset"@.len() != "/api/wps"@.len());
    assert("/api/reset"@.len() != "/logout"@.len());
    assert("/api/reset"@.len() != "/"@.len());
    assert("/api/reset"@.len() != "/api/status"@.len());
    assert("/api/reset"@.len() != "/gpio"@.len());
    assert("/api/reset"@.len() != "/api/gpio_state"@.len());
    assert("/api/reset"@.len() != "/terminal"@.len());
    assert("/api/reset"@.len() != "/static/xterm.js"@.len());
    assert("/api/reset"@.len() != "/static/xterm.css"@.len());
    assert("/api/reset"@.len() != "/static/xterm-addon-fit.js"@.len());
    assert("/api/reset"@.len() != "/api/boot_log"@.len());
    assert("/api/reboot"@.len() != "/api/gpio"@.len());
    assert("/api/reboot"@.len() != "/api/pwm"@.len());
    assert("/api/reboot"@.len() != "/api/wps"@.len());
    assert("/api/reboot"@.len() != "/logout"@.len());
    assert("/api/reboot"@.len() != "/"@.len());
    assert("/api/reboot"@[5] != "/api/status"@[5]);
    assert("/api/reboot"@.len() != "/gpio"@.len());
    assert("/api/reboot"@.len() != "/api/gpio_state"@.len());
    assert("/api/reboot"@.len() != "/terminal"@.len());
    assert("/api/reboot"@.len() != "/static/xterm.js"@.len());
    assert("/api/reboot"@.len() != "/static/xterm.css"@.len());
    assert("/api/reboot"@.len() != "/static/xterm-addon-fit.js"@.len());
    assert("/api/reboot"@.len() != "/api/boot_log"@.len());
    assert("/api/gpio"@.len() != "/api/pwm"@.len());
    assert("/api/gpio"@.len() != "/api/wps"@.len());
    assert("/api/gpio"@.len() != "/logout"@.len());
    assert("/api/gpio"@.len() != "/"@.len());
    assert("/api/gpio"@.len() != "/api/status"@.len());
    assert("/api/gpio"@.len() != "/gpio"@.len());
    assert("/api/gpio"@.len() != "/api/gpio_state"@.len());
    assert("/api/gpio"@[1] != "/terminal"@[1]);
    assert("/api/gpio"@.len() != "/static/xterm.js"@.len());
    assert("/api/gpio"@.len() != "/static/xterm.css"@.len());
    assert("/api/gpio"@.len() != "/static/xterm-addon-fit.js"@.len());
    assert("/api/gpio"@.len() != "/api/boot_log"@.len());
    assert("/api/pwm"@[5] != "/api/wps"@[5]);
    assert("/api/pwm"@.len() != "/logout"@.len());
    assert("/api/pwm"@.len() != "/"@.len());
    assert("/api/pwm"@.len() != "/api/status"@.len());
    assert("/api/pwm"@.len() != "/gpio"@.len());
    assert("/api/pwm"@.len() != "/api/gpio_state"@.len());
    assert("/api/pwm"@.len() != "/terminal"@.len());
    assert("/api/pwm"@.len() != "/static/xterm.js"@.len());
    assert("/api/pwm"@.len() != "/static/xterm.css"@.len());
    assert("/api/pwm"@.len() != "/static/xterm-addon-fit.js"@.len());
    assert("/api/pwm"@.len() != "/api/boot_log"@.len());
    assert("/api/wps"@.len() != "/logout"@.len());
    assert("/api/wps"@.len() != "/"@.len());
    assert("/api/wps"@.len() != "/api/status"@.len());
    assert("/api/wps"@.len() != "/gpio"@.len());
    assert("/api/wps"@.len() != "/api/gpio_state"@.len());
    assert("/api/wps"@.len() != "/terminal"@.len());
    assert("/api/wps"@.len() != "/static/xterm.js"@.len());
    assert("/api/wps"@.len() != "/static/xterm.css"@.len());
    assert("/api/wps"@.len() != "/static/xterm-addon-fit.js"@.len());
    assert("/api/wps"@.len() != "/api/boot_log"@.len());
    assert("/logout"@.len() != "/"@.len());
    assert("/logout"@.len() != "/api/status"@.len());
    assert("/logout"@.len() != "/gpio"@.len());
    assert("/logout"@.len() != "/api/gpio_state"@.len());
    assert("/logout"@.len() != "/terminal"@.len());
    assert("/logout"@.len() != "/static/xterm.js"@.len());
    assert("/logout"@.len() != "/static/xterm.css"@.len());
    assert("/logout"@.len() != "/static/xterm-addon-fit.js"@.len());
    assert("/logout"@.len() != "/api/boot_log"@.len());
    assert("/"@.len() != "/api/status"@.len());
    assert("/"@.len() != "/gpio"@.len());
    assert("/"@.len() != "/api/gpio_state"@.len());
    assert("/"@.len() != "/terminal"@.len());
    assert("/"@.len() != "/static/xterm.js"@.len());
    assert("/"@.len() != "/static/xterm.css"@.len());
    assert("/"@.len() != "/static/xterm-addon-fit.js"@.len());
    assert("/"@.len() != "/api/boot_log"@.len());
    assert("/api/status"@.len() != "/gpio"@.len());
    assert("/api/status"@.len() != "/api/gpio_state"@.len());
    assert("/api/status"@.len() != "/terminal"@.len());
    assert("/api/status"@.len() != "/static/xterm.js"@.len());
    assert("/api/status"@.len() != "/static/xterm.css"@.len());
    assert("/api/status"@.len() != "/static/xterm-addon-fit.js"@.len());
    assert("/api/status"@.len() != "/api/boot_log"@.len());
    assert("/gpio"@.len() != "/api/gpio_state"@.len());
    assert("/gpio"@.len() != "/terminal"@.len());
    assert("/gpio"@.len() != "/static/xterm.js"@.len());
    assert("/gpio"@.len() != "/static/xterm.css"@.len());
    assert("/gpio"@.len() != "/static/xterm-addon-fit.js"@.len());
    assert("/gpio"@.len() != "/api/boot_log"@.len());
    assert("/api/gpio_state"@.len() != "/terminal"@.len());
    assert("/api/gpio_state"@.len() != "/static/xterm.js"@.len());
    assert("/api/gpio_state"@.len() != "/static/xterm.css"@.len());
    assert("/api/gpio_state"@.len() != "/static/xterm-addon-fit.js"@.len());
    assert("/api/gpio_state"@.len() != "/api/boot_log"@.len());
    assert("/terminal"@.len() != "/static/xterm.js"@.len());
    assert("/terminal"@.len() != "/static/xterm.css"@.len());
    assert("/terminal"@.len() != "/static/xterm-addon-fit.js"@.len());
    assert("/terminal"@.len() != "/api/boot_log"@.len());
    assert("/static/xterm.js"@.len() != "/static/xterm.css"@.len());
    assert("/static/xterm.js"@.len() != "/static/xterm-addon-fit.js"@.len());
    assert("/static/xterm.js"@.len() != "/api/boot_log"@.len());
    assert("/static/xterm.css"@.len() != "/static/xterm-addon-fit.js"@.len());
    assert("/static/xterm.css"@.len() != "/api/boot_log"@.len());
    assert("/static/xterm-addon-fit.js"@.len() != "/api/boot_log"@.len());
}

/// How much of a body is read: 512 bytes of a login, 4096 of settings, 64 of an output, and nothing
/// of any other request; no more than was announced.
pub proof fn law_body_limits(e: Endpoint, announced: u64)
    ensures
        ({
            let n = body_limit(e, announced);
            &&& n <= announced
            &&& e == Endpoint::Login ==> n <= 512 && (n < 512 ==> n == announced)
            &&& e == Endpoint::SaveConfig ==> n <= 4096 && (n < 4096 ==> n == announced)
            &&& e == Endpoint::SetGpio || e == Endpoint::SetPwm ==> n <= 64 && (n < 64 ==> n
                == announced)
            &&& e != Endpoint::Login && e != Endpoint::SaveConfig && e != Endpoint::SetGpio && e
                != Endpoint::SetPwm ==> n == 0
        }),
{
}

/// What the kinds of answers are made of.
pub proof fn law_answers(kind: Seq<char>, body: Seq<char>, status: u16)
    ensures
        ({
            let a = ok_answer(kind, body);
            a.status == 200 && a.body == body && a.headers.len() == 1 && a.headers[0] == (
                "Content-Type"@,
                kind,
            )
        }),
        bare_ok(body).status == 200 && bare_ok(body).body == body && bare_ok(body).headers.len()
            == 0,
        redirect(kind).status == 302 && redirect(kind).headers.len() == 1 && redirect(
            kind,
        ).headers[0] == ("Location"@, kind),
        ({
            let a = redirect_with_cookie(kind, body);
            a.status == 302 && a.headers.len() == 2 && a.headers[0] == ("Set-Cookie"@, kind)
                && a.headers[1] == ("Location"@, body)
        }),
        status_answer(status, body).status == status && status_answer(status, body).body == body
            && status_answer(status, body).headers.len() == 0,
        unauthorized().status == 401 && unauthorized().body == "Unauthorized"@,
        ok_answer(kind, body).reason == Some("OK"@) && bare_ok(body).reason == Some("OK"@),
        redirect(kind).reason == Some("Found"@),
        redirect_with_cookie(kind, body).reason == Some("Found"@),
        status_answer(status, body).reason is None && unauthorized().reason is None,
        redirect(kind).body.len() == 0 && redirect_with_cookie(kind, body).body.len() == 0,
{
}

/// A login succeeds exactly if the field `username` is the SSH user and the field `password` is the
/// SSH password. Then the token is the session and goes out in a cookie, and the configuration page
/// follows; else nothing changes and the login page follows. Nothing else ever changes.
pub proof fn law_login_by_fields(
    before: Site,
    after: Site,
    r: Answer,
    form: Map<Seq<char>, Seq<char>>,
    token: Seq<char>,
)
    requires
        logged_in(before, after, r, form, token),
    ensures
        ({
            let right = form.dom().contains("username"@) && form["username"@]
                == before.config.ssh_user@ && form.dom().contains("password"@) && form["password"@]
                == before.config.ssh_password@;
            &&& r.status == 302
            &&& right ==> {
                &&& after.session == Some(token)
                &&& r.headers.len() == 2
                &&& r.headers[0] == (
                    "Set-Cookie"@,
                    "session="@ + token + "; Path=/; HttpOnly; SameSite=Strict"@,
                )
                &&& r.headers[1] == ("Location"@, "/"@)
            }
            &&& !right ==> {
                &&& after.session == before.session
                &&& r.headers.len() == 1
                &&& r.headers[0] == ("Location"@, "/login?error=1"@)
            }
            &&& after.config == before.config && after.defaults == before.defaults
            &&& after.status == before.status && after.gpio == before.gpio
            &&& after.pwm == before.pwm && after.wps == before.wps
        }),
{
}

proof fn lemma_stands_last(front: Seq<char>, label: Seq<char>, value: Seq<char>)
    ensures
        text::stands_in(front + label + value, label + value),
{
    let none = Seq::<char>::empty();
    assert(front + label + value =~= front + (label + value) + none);
}

proof fn lemma_stands_on(front: Seq<char>, more: Seq<char>, part: Seq<char>)
    requires
        text::stands_in(front, part),
    ensures
        text::stands_in(front + more, part),
{
    let (a, b) = choose|a: Seq<char>, b: Seq<char>| front == #[trigger] (a + part + b);
    assert(front + more =~= a + part + (b + more));
}

/// Whatever stands in a text stands in it when it is continued twice.
proof fn lemma_stands_further(front: Seq<char>, label: Seq<char>, value: Seq<char>)
    ensures
        forall|part: Seq<char>|
            text::stands_in(front, part) ==> #[trigger] text::stands_in(front + label + value, part),
        text::stands_in(front + label + value, label + value),
{
    lemma_stands_last(front, label, value);
    assert forall|part: Seq<char>| text::stands_in(front, part) implies #[trigger] text::stands_in(
        front + label + value,
        part,
    ) by {
        lemma_stands_on(front, label, part);
        lemma_stands_on(front + label, value, part);
    }
}

/// In the status each value stands behind the label of its own name.
pub proof fn law_status_by_label(s: Status, b: Bridge)
    ensures
        ({
            let json = status_json(s, b);
            &&& text::stands_in(json, "{\"ip\":\""@ + forms::escaped(s.ip_address))
            &&& text::stands_in(json, "\",\"ssid\":\""@ + forms::escaped(s.ssid))
            &&& text::stands_in(json, "\",\"rssi\":"@ + text::dec_int(s.rssi as int))
            &&& text::stands_in(json, ",\"dc_in_voltage\":"@ + s.dc_in_voltage)
            &&& text::stands_in(json, ",\"dc_out_voltage\":"@ + s.dc_out_voltage)
            &&& text::stands_in(json, ",\"chip_temp\":"@ + s.chip_temp)
            &&& b.cdc_enabled ==> text::stands_in(json, ",\"cdc_enabled\":"@ + "true"@)
            &&& !b.cdc_enabled ==> text::stands_in(json, ",\"cdc_enabled\":"@ + "false"@)
            &&& b.cdc_connected ==> text::stands_in(json, ",\"usb_connected\":"@ + "true"@)
            &&& !b.cdc_connected ==> text::stands_in(json, ",\"usb_connected\":"@ + "false"@)
            &&& text::stands_in(json, ",\"usb_vid\":\"0x"@ + text::hex4(b.cdc_vid))
            &&& text::stands_in(json, "\",\"usb_pid\":\"0x"@ + text::hex4(b.cdc_pid))
            &&& text::stands_in(json, "\",\"usb_device\":\""@ + usb_host::chip_label(b.cdc_vid, b.cdc_pid))
            &&& text::stands_in(json, "\",\"usb_ports\":"@ + text::dec(b.cdc_port_count as nat))
            &&& text::stands_in(json, ",\"active_device\":\""@ + usb_host::device_label(b.active_device))
            &&& text::stands_in(json, "\",\"display_port\":\""@ + usb_host::device_label(b.display_port))
            &&& text::stands_in(json, "\",\"version\":\""@ + APP_VERSION@)
        }),
{
    let none = Seq::<char>::empty();
    let t0 = none + "{\"ip\":\""@ + forms::escaped(s.ip_address);
    lemma_stands_further(none, "{\"ip\":\""@, forms::escaped(s.ip_address));
    let t1 = t0 + "\",\"ssid\":\""@ + forms::escaped(s.ssid);
    lemma_stands_further(t0, "\",\"ssid\":\""@, forms::escaped(s.ssid));
    let t2 = t1 + "\",\"rssi\":"@ + text::dec_int(s.rssi as int);
    lemma_stands_further(t1, "\",\"rssi\":"@, text::dec_int(s.rssi as int));
    let t3 = t2 + ",\"dc_in_voltage\":"@ + s.dc_in_voltage;
    lemma_stands_further(t2, ",\"dc_in_voltage\":"@, s.dc_in_voltage);
    let t4 = t3 + ",\"dc_out_voltage\":"@ + s.dc_out_voltage;
    lemma_stands_further(t3, ",\"dc_out_voltage\":"@, s.dc_out_voltage);
    let t5 = t4 + ",\"chip_temp\":"@ + s.chip_temp;
    lemma_stands_further(t4, ",\"chip_temp\":"@, s.chip_temp);
    let t6 = t5 + ",\"cdc_enabled\":"@ + truth(b.cdc_enabled);
    lemma_stands_further(t5, ",\"cdc_enabled\":"@, truth(b.cdc_enabled));
    let t7 = t6 + ",\"usb_connected\":"@ + truth(b.cdc_connected);
    lemma_stands_further(t6, ",\"usb_connected\":"@, truth(b.cdc_connected));
    let t8 = t7 + ",\"usb_vid\":\"0x"@ + text::hex4(b.cdc_vid);
    lemma_stands_further(t7, ",\"usb_vid\":\"0x"@, text::hex4(b.cdc_vid));
    let t9 = t8 + "\",\"usb_pid\":\"0x"@ + text::hex4(b.cdc_pid);
    lemma_stands_further(t8, "\",\"usb_pid\":\"0x"@, text::hex4(b.cdc_pid));
    let t10 = t9 + "\",\"usb_device\":\""@ + usb_host::chip_label(b.cdc_vid, b.cdc_pid);
    lemma_stands_further(t9, "\",\"usb_device\":\""@, usb_host::chip_label(b.cdc_vid, b.cdc_pid));
    let t11 = t10 + "\",\"usb_ports\":"@ + text::dec(b.cdc_port_count as nat);
    lemma_stands_further(t10, "\",\"usb_ports\":"@, text::dec(b.cdc_port_count as nat));
    let t12 = t11 + ",\"active_device\":\""@ + usb_host::device_label(b.active_device);
    lemma_stands_further(t11, ",\"active_device\":\""@, usb_host::device_label(b.active_device));
    let t13 = t12 + "\",\"display_port\":\""@ + usb_host::device_label(b.display_port);
    lemma_stands_further(t12, "\",\"display_port\":\""@, usb_host::device_label(b.display_port));
    let t14 = t13 + "\",\"version\":\""@ + APP_VERSION@;
    lemma_stands_further(t13, "\",\"version\":\""@, APP_VERSION@);
    let end = t14 + "\"}"@ + none;
    lemma_stands_further(t14, "\"}"@, none);
    assert(none + "{\"ip\":\""@ =~= "{\"ip\":\""@);
    assert(end =~= status_json(s, b));
    assert(text::stands_in(t5, "{\"ip\":\""@ + forms::escaped(s.ip_address)));
    assert(text::stands_in(t10, "{\"ip\":\""@ + forms::escaped(s.ip_address)));
    assert(text::stands_in(t14, "{\"ip\":\""@ + forms::escaped(s.ip_address)));
    assert(text::stands_in(end, "{\"ip\":\""@ + forms::escaped(s.ip_address)));
    assert(text::stands_in(t5, "\",\"ssid\":\""@ + forms::escaped(s.ssid)));
    assert(text::stands_in(t10, "\",\"ssid\":\""@ + forms::escaped(s.ssid)));
    assert(text::stands_in(t14, "\",\"ssid\":\""@ + forms::escaped(s.ssid)));
    assert(text::stands_in(end, "\",\"ssid\":\""@ + forms::escaped(s.ssid)));
    assert(text::stands_in(t5, "\",\"rssi\":"@ + text::dec_int(s.rssi as int)));
    assert(text::stands_in(t10, "\",\"rssi\":"@ + text::dec_int(s.rssi as int)));
    assert(text::stands_in(t14, "\",\"rssi\":"@ + text::dec_int(s.rssi as int)));
    assert(text::stands_in(end, "\",\"rssi\":"@ + text::dec_int(s.rssi as int)));
    assert(text::stands_in(t5, ",\"dc_in_voltage\":"@ + s.dc_in_voltage));
    assert(text::stands_in(t10, ",\"dc_in_voltage\":"@ + s.dc_in_voltage));
    assert(text::stands_in(t14, ",\"dc_in_voltage\":"@ + s.dc_in_voltage));
    assert(text::stands_in(end, ",\"dc_in_voltage\":"@ + s.dc_in_voltage));
    assert(text::stands_in(t5, ",\"dc_out_voltage\":"@ + s.dc_out_voltage));
    assert(text::stands_in(t10, ",\"dc_out_voltage\":"@ + s.dc_out_voltage));
    assert(text::stands_in(t14, ",\"dc_out_voltage\":"@ + s.dc_out_voltage));
    assert(text::stands_in(end, ",\"dc_out_voltage\":"@ + s.dc_out_voltage));
    assert(text::stands_in(t10, ",\"chip_temp\":"@ + s.chip_temp));
    assert(text::stands_in(t14, ",\"chip_temp\":"@ + s.chip_temp));
    assert(text::stands_in(end, ",\"chip_temp\":"@ + s.chip_temp));
    assert(text::stands_in(t10, ",\"cdc_enabled\":"@ + truth(b.cdc_enabled)));
    assert(text::stands_in(t14, ",\"cdc_enabled\":"@ + truth(b.cdc_enabled)));
    assert(text::stands_in(end, ",\"cdc_enabled\":"@ + truth(b.cdc_enabled)));
    assert(text::stands_in(t10, ",\"usb_connected\":"@ + truth(b.cdc_connected)));
    assert(text::stands_in(t14, ",\"usb_connected\":"@ + truth(b.cdc_connected)));
    assert(text::stands_in(end, ",\"usb_connected\":"@ + truth(b.cdc_connected)));
    assert(text::stands_in(t10, ",\"usb_vid\":\"0x"@ + text::hex4(b.cdc_vid)));
    assert(text::stands_in(t14, ",\"usb_vid\":\"0x"@ + text::hex4(b.cdc_vid)));
    assert(text::stands_in(end, ",\"usb_vid\":\"0x"@ + text::hex4(b.cdc_vid)));
    assert(text::stands_in(t10, "\",\"usb_pid\":\"0x"@ + text::hex4(b.cdc_pid)));
    assert(text::stands_in(t14, "\",\"usb_pid\":\"0x"@ + text::hex4(b.cdc_pid)));
    assert(text::stands_in(end, "\",\"usb_pid\":\"0x"@ + text::hex4(b.cdc_pid)));
    assert(text::stands_in(t14, "\",\"usb_device\":\""@ + usb_host::chip_label(b.cdc_vid, b.cdc_pid)));
    assert(text::stands_in(end, "\",\"usb_device\":\""@ + usb_host::chip_label(b.cdc_vid, b.cdc_pid)));
    assert(text::stands_in(t14, "\",\"usb_ports\":"@ + text::dec(b.cdc_port_count as nat)));
    assert(text::stands_in(end, "\",\"usb_ports\":"@ + text::dec(b.cdc_port_count as nat)));
    assert(text::stands_in(t14, ",\"active_device\":\""@ + usb_host::device_label(b.active_device)));
    assert(text::stands_in(end, ",\"active_device\":\""@ + usb_host::device_label(b.active_device)));
    assert(text::stands_in(t14, "\",\"display_port\":\""@ + usb_host::device_label(b.display_port)));
    assert(text::stands_in(end, "\",\"display_port\":\""@ + usb_host::device_label(b.display_port)));
    assert(text::stands_in(end, "\",\"version\":\""@ + APP_VERSION@));
}

/// One digit for an output.
pub open spec fn one_if(on: bool) -> Seq<char> {
    if on {
        "1"@
    } else {
        "0"@
    }
}

/// The outputs are listed in order, as ones and zeros: all seven, or the first six; then the two
/// duties.
pub proof fn law_outputs_in_order(g: Seq<bool>, p: Seq<u8>)
    requires
        g.len() == 7,
        p.len() == 2,
    ensures
        ({
            let six = "{\"gpio\":["@ + (one_if(g[0]) + ","@ + one_if(g[1]) + ","@ + one_if(g[2]) + ","@
                + one_if(g[3]) + ","@ + one_if(g[4]) + ","@ + one_if(g[5]));
            let rest = "],\"pwm\":["@ + text::dec(p[0] as nat) + ","@ + text::dec(p[1] as nat)
                + "]}"@;
            &&& outputs_json(g, p, 6) == six + rest
            &&& outputs_json(g, p, 7) == six + (","@ + one_if(g[6])) + rest
        }),
{
    reveal_with_fuel(bits, 8);
    let five = one_if(g[0]) + ","@ + one_if(g[1]) + ","@ + one_if(g[2]) + ","@ + one_if(g[3])
        + ","@ + one_if(g[4]) + ","@ + one_if(g[5]);
    assert(bits(g, 6) =~= five);
    assert(bits(g, 7) =~= five + (","@ + one_if(g[6])));
    let rest = "],\"pwm\":["@ + text::dec(p[0] as nat) + ","@ + text::dec(p[1] as nat) + "]}"@;
    assert(outputs_json(g, p, 6) =~= "{\"gpio\":["@ + five + rest);
    assert(outputs_json(g, p, 7) =~= "{\"gpio\":["@ + five + (","@ + one_if(g[6])) + rest);
}

/// The number that a field of a form writes, up to a limit.
pub open spec fn number_in(form: Map<Seq<char>, Seq<char>>, name: Seq<char>, n: int) -> bool {
    &&& form.dom().contains(name)
    &&& form[name].len() > 0
    &&& text::only_decimal(form[name])
    &&& text::written_number(form[name], 10) == n
}

/// A form sets the output whose number is in the field `index`: on for `1` and `true` in the field
/// `value`, off for anything else. The other outputs stay; without such a number nothing changes.
pub proof fn law_output_set_by_form(g: Seq<bool>, form: Map<Seq<char>, Seq<char>>, n: int, i: int)
    requires
        g.len() == 7,
        0 <= i < 7,
    ensures
        ({
            let after = gpio_set(g, form);
            let on = form["value"@] == "1"@ || form["value"@] == "true"@;
            &&& after.len() == 7
            &&& number_in(form, "index"@, n) && n < 7 && form.dom().contains("value"@) ==> {
                &&& after[n] == on
                &&& i != n ==> after[i] == g[i]
            }
            &&& number_in(form, "index"@, n) && n >= 7 ==> after == g
            &&& !form.dom().contains("index"@) || !form.dom().contains("value"@) ==> after == g
            &&& form.dom().contains("index"@) && form["index"@].len() == 0 ==> after == g
        }),
{
    if form.dom().contains("index"@) {
        text::law_number_is_read(form["index"@], usize::MAX as nat);
        if number_in(form, "index"@, n) {
            lemma_written_not_negative(form["index"@]);
        }
    }
}

proof fn lemma_written_not_negative(s: Seq<char>)
    requires
        text::only_decimal(s),
    ensures
        text::written_number(s, 10) >= 0,
    decreases s.len(),
{
    if s.len() > 0 {
        assert forall|i: int| 0 <= i < s.drop_last().len() implies '0' <= #[trigger] s.drop_last()[i]
            <= '9' by {
            assert('0' <= s[i] <= '9');
        }
        lemma_written_not_negative(s.drop_last());
        assert('0' <= s[s.len() - 1] <= '9');
    }
}

/// A form sets the duty whose number is in the field `index` to the number in the field `duty`, at
/// most 100. The other duty stays; without two such numbers nothing changes.
pub proof fn law_duty_set_by_form(
    p: Seq<u8>,
    form: Map<Seq<char>, Seq<char>>,
    n: int,
    d: int,
    i: int,
)
    requires
        p.len() == 2,
        0 <= i < 2,
    ensures
        ({
            let after = pwm_set(p, form);
            &&& after.len() == 2
            &&& number_in(form, "index"@, n) && n < 2 && number_in(form, "duty"@, d) && d <= 255
                ==> {
                &&& d <= 100 ==> after[n] == d
                &&& d > 100 ==> after[n] == 100
                &&& i != n ==> after[i] == p[i]
            }
            &&& number_in(form, "index"@, n) && n >= 2 ==> after == p
            &&& number_in(form, "duty"@, d) && d > 255 ==> after == p
            &&& !form.dom().contains("index"@) || !form.dom().contains("duty"@) ==> after == p
        }),
{
    if form.dom().contains("index"@) {
        text::law_number_is_read(form["index"@], usize::MAX as nat);
        if number_in(form, "index"@, n) {
            lemma_written_not_negative(form["index"@]);
        }
    }
    if form.dom().contains("duty"@) {
        text::law_number_is_read(form["duty"@], 255);
        if number_in(form, "duty"@, d) {
            lemma_written_not_negative(form["duty"@]);
        }
    }
}

/// A request of whoever is logged in to set an output changes the outputs of its kind only, and is
/// answered with all outputs as they then are.
pub proof fn law_output_requests(
    before: Site,
    after: Site,
    r: Answer,
    cookie: Option<&str>,
    form: Map<Seq<char>, Seq<char>>,
)
    requires
        before.session is Some,
        forms::session_cookie(forms::header_view(cookie)) == before.session,
    ensures
        gpio_requested(before, after, r, cookie, form) ==> {
            &&& after.gpio == gpio_set(before.gpio, form) && after.pwm == before.pwm
            &&& after.config == before.config && after.session == before.session
            &&& after.wps == before.wps && after.status == before.status
            &&& r.status == 200 && r.headers[0] == ("Content-Type"@, "application/json"@)
            &&& r.body == outputs_json(after.gpio, after.pwm, 7)
        },
        pwm_requested(before, after, r, cookie, form) ==> {
            &&& after.pwm == pwm_set(before.pwm, form) && after.gpio == before.gpio
            &&& after.config == before.config && after.session == before.session
            &&& after.wps == before.wps && after.status == before.status
            &&& r.status == 200 && r.headers[0] == ("Content-Type"@, "application/json"@)
            &&& r.body == outputs_json(after.gpio, after.pwm, 6)
        },
{
}

/// A quotation mark gets a backslash in front; everything else stays.
pub proof fn law_quotes_are_escaped(a: Seq<char>, c: char)
    ensures
        quote_escaped(Seq::empty()) == Seq::<char>::empty(),
        quote_escaped(a + seq!['"']) == quote_escaped(a) + seq!['\\', '"'],
        c != '"' ==> quote_escaped(a + seq![c]) == quote_escaped(a) + seq![c],
{
    assert((a + seq!['"']).drop_last() =~= a);
    assert((a + seq![c]).drop_last() =~= a);
    assert(quote_escaped(a + seq!['"']) =~= quote_escaped(a) + seq!['\\', '"']);
    assert(c != '"' ==> quote_escaped(a + seq![c]) =~= quote_escaped(a) + seq![c]);
}

/// Entries in quotation marks.
pub open spec fn quoted(entries: Seq<Seq<char>>) -> Seq<Seq<char>> {
    entries.map_values(|e: Seq<char>| seq!['"'] + quote_escaped(e) + seq!['"'])
}

proof fn lemma_entries_joined(entries: Seq<Seq<char>>, n: nat)
    requires
        n <= entries.len(),
    ensures
        entries_json(entries, n) == text::join(quoted(entries).take(n as int), seq![',']),
    decreases n,
{
    reveal_strlit("\"");
    reveal_strlit(",");
    assert("\""@ =~= seq!['"']);
    assert(","@ =~= seq![',']);
    let q = quoted(entries).take(n as int);
    if n > 0 {
        lemma_entries_joined(entries, (n - 1) as nat);
        assert(q.drop_last() =~= quoted(entries).take(n - 1));
        assert(q.last() == seq!['"'] + quote_escaped(entries[n - 1]) + seq!['"']);
    }
}

/// The boot log as JSON lists its lines, in order, in quotation marks and with commas between.
pub proof fn law_boot_log_lists_lines(entries: Seq<Seq<char>>)
    requires
        forall|i: int| 0 <= i < entries.len() ==> text::is_line(#[trigger] entries[i]),
    ensures
        boot_log_json(text::join(entries, seq!['\n'])) == "{\"entries\":["@ + text::join(
            quoted(entries),
            seq![','],
        ) + "]}"@,
{
    text::lemma_lines_join(entries);
    lemma_entries_joined(entries, entries.len());
    assert(quoted(entries).take(entries.len() as int) =~= quoted(entries));
}

/// Every state of push-button setup as JSON.
pub proof fn law_wps_as_json(n: u32)
    ensures
        wps_json(WpsStatus::Waiting(n)) == "{\"wps\":\""@ + "waiting"@ + "\",\"seconds\":"@
            + text::dec(n as nat) + "}"@,
        wps_json(WpsStatus::Idle) == "{\"wps\":\""@ + "idle"@ + "\",\"seconds\":"@ + text::dec(0)
            + "}"@,
        wps_json(WpsStatus::Requested) == "{\"wps\":\""@ + "requested"@ + "\",\"seconds\":"@
            + text::dec(0) + "}"@,
        wps_json(WpsStatus::Connecting) == "{\"wps\":\""@ + "connecting"@ + "\",\"seconds\":"@
            + text::dec(0) + "}"@,
        wps_json(WpsStatus::Succeeded) == "{\"wps\":\""@ + "succeeded"@ + "\",\"seconds\":"@
            + text::dec(0) + "}"@,
        wps_json(WpsStatus::Failed) == "{\"wps\":\""@ + "failed"@ + "\",\"seconds\":"@ + text::dec(
            0,
        ) + "}"@,
{
}

/// A request for push-button setup of whoever is logged in is taken up where none is under way, and
/// changes nothing else; one that is under way is not begun anew.
pub proof fn law_wps_request_by_state(before: Site, after: Site, r: Answer, cookie: Option<&str>)
    requires
        wps_requested(before, after, r, cookie),
        before.session is Some,
        forms::session_cookie(forms::header_view(cookie)) == before.session,
    ensures
        ({
            let s = before.wps;
            &&& s == WpsStatus::Idle || s == WpsStatus::Succeeded || s == WpsStatus::Failed ==> {
                &&& after.wps == WpsStatus::Requested
                &&& r.body
                    == "WPS started. Press the WPS button on your router within 120 seconds."@
            }
            &&& s == WpsStatus::Requested || s is Waiting || s == WpsStatus::Connecting ==> {
                &&& after.wps == s
                &&& r.body == "WPS is already running."@
            }
            &&& r.status == 200
            &&& after.session == before.session && after.config == before.config
            &&& after.gpio == before.gpio && after.pwm == before.pwm
        }),
{
}

/// A command of an admitted terminal makes it listen to the port that it names, and to that one
/// only; one that names no port changes nothing.
pub proof fn law_command_by_port(l: ws::Listening, fd: i32, msg: Seq<char>)
    requires
        l.admitted.contains(fd),
    ensures
        ({
            let m = commanded(l, fd, msg);
            let port = forms::ws_port(msg);
            &&& port is None ==> m == l
            &&& port == Some("com1"@) ==> m.com1.contains(fd) && !m.com2.contains(fd)
                && !m.usb.contains(fd) && m.ports.dom().contains(fd) && m.ports[fd] == 2
            &&& port == Some("com2"@) ==> !m.com1.contains(fd) && m.com2.contains(fd)
                && !m.usb.contains(fd) && m.ports.dom().contains(fd) && m.ports[fd] == 3
            &&& port is Some && port->0 != "com1"@ && port->0 != "com2"@ ==> !m.com1.contains(fd)
                && !m.com2.contains(fd) && m.usb.contains(fd) && m.ports.dom().contains(fd)
                && m.ports[fd] == 1
        }),
{
    if let Some(port) = forms::ws_port(msg) {
        let d = ws::port_device(port);
        ws::law_ports_by_name(port);
        ws::law_one_port_per_session(l, fd, d);
        let m = commanded(l, fd, msg);
        let s = ws::sessions_of(m, d);
        assert(s[s.len() - 1] == fd);
        assert(s.contains(fd));
    }
}

/// What an admitted terminal types goes to the queue of the port that it listens to, behind what is
/// there, and to no other one.
pub proof fn law_typed_by_port(q: ws::Queued, l: ws::Listening, fd: i32, data: Seq<u8>)
    requires
        l.admitted.contains(fd),
    ensures
        ({
            let t = typed(q, l, fd, data);
            let on = l.ports.dom().contains(fd);
            &&& on && l.ports[fd] == 2 ==> t.com1 == ws::newest(q.com1 + data, 4096) && t.com2
                == q.com2 && t.usb == q.usb
            &&& on && l.ports[fd] == 3 ==> t.com1 == q.com1 && t.com2 == ws::newest(
                q.com2 + data,
                4096,
            ) && t.usb == q.usb
            &&& on && l.ports[fd] == 1 ==> t.com1 == q.com1 && t.com2 == q.com2 && t.usb
                == ws::newest(q.usb + data, 4096)
            &&& !on || l.ports[fd] == 0 ==> t == q
        }),
{
    ws::law_ports_by_name(""@);
    reveal_strlit("");
    reveal_strlit("com1");
    reveal_strlit("com2");
    reveal_strlit("usb");
    reveal_strlit("usb0");
    assert(""@.len() == 0);
}

/// Settings that were saved take effect at once: the display turns to the port that they name, and
/// the log goes out under the names that they give.
pub proof fn law_saved_takes_effect(
    before: (Site, Live),
    after: (Site, Live),
    r: Result<WritePlan, Response>,
    cookie: Option<&str>,
    form: Map<Seq<char>, Seq<char>>,
)
    requires
        save_requested(before, after, r, cookie, form, true),
        before.0.session is Some,
        forms::session_cookie(forms::header_view(cookie)) == before.0.session,
    ensures
        ({
            let c = after.0.config;
            let d = after.1.bridge.display_port;
            let page = after.1.display.page();
            &&& c.display_port@ == "com1"@ ==> d == 2 && page == 1
            &&& c.display_port@ == "com2"@ ==> d == 3 && page == 2
            &&& c.display_port@ == "usb0"@ ==> d == 1 && page == 3
            &&& c.display_port@ == "usb1"@ ==> d == 4 && page == 3
            &&& c.display_port@ == "usb2"@ ==> d == 5 && page == 3
            &&& c.display_port@ == "usb3"@ ==> d == 6 && page == 3
            &&& after.1.bridge.active_device == before.1.bridge.active_device
            &&& after.1.bridge.cdc_baud == before.1.bridge.cdc_baud
            &&& after.1.logger is Some <==> before.1.logger is Some
            &&& (before.1.logger, after.1.logger) matches (Some(a), Some(b)) ==> {
                &&& b.host_name@ == c.syslog_host_name@
                &&& b.app_name@ == c.syslog_app_name@
                &&& b.server_addr@ == a.server_addr@
                &&& b.level_filter == a.level_filter
            }
            &&& after.0.session == before.0.session && after.0.gpio == before.0.gpio
            &&& after.0.pwm == before.0.pwm && after.0.defaults == before.0.defaults
        }),
{
    usb_host::law_display_by_name(after.0.config.display_port@);
}

/// What whoever is logged in gets: each page and each reading what it is named after.
pub proof fn law_answers_with_session(s: Site, cookie: Option<&str>, b: Bridge, log: Seq<char>)
    requires
        s.session is Some,
        forms::session_cookie(forms::header_view(cookie)) == s.session,
    ensures
        config_answer(s, cookie).status == 200,
        config_answer(s, cookie).body == pages::filled(
            pages::config_pieces(),
            pages::config_values(s.config),
        ),
        device_answer(s, cookie, b).status == 200,
        device_answer(s, cookie, b).body == status_json(s.status, b),
        outputs_page_answer(s, cookie).status == 200,
        outputs_page_answer(s, cookie).body == pages::gpio_page(s.gpio, s.pwm),
        outputs_answer(s, cookie).status == 200,
        outputs_answer(s, cookie).body == outputs_json(s.gpio, s.pwm, 7),
        terminal_answer(s, cookie).status == 200,
        terminal_answer(s, cookie).body == TERMINAL_HTML@,
        wps_answer(s, cookie).status == 200,
        wps_answer(s, cookie).body == wps_json(s.wps),
        boot_log_answer(s, cookie, log).status == 200,
        boot_log_answer(s, cookie, log).body == boot_log_json(log),
{
}

/// What everybody else gets: the pages lead to the login page, and everything else is refused.
pub proof fn law_answers_without_session(s: Site, cookie: Option<&str>, b: Bridge, log: Seq<char>)
    requires
        s.session is None || forms::session_cookie(forms::header_view(cookie)) != s.session,
    ensures
        config_answer(s, cookie) == redirect("/login"@),
        outputs_page_answer(s, cookie) == redirect("/login"@),
        terminal_answer(s, cookie) == redirect("/login"@),
        device_answer(s, cookie, b).status == 401,
        outputs_answer(s, cookie).status == 401,
        wps_answer(s, cookie).status == 401,
        boot_log_answer(s, cookie, log).status == 401,
        device_answer(s, cookie, b).body == "Unauthorized"@,
        outputs_answer(s, cookie).body == "Unauthorized"@,
        wps_answer(s, cookie).body == "Unauthorized"@,
        boot_log_answer(s, cookie, log).body == "Unauthorized"@,
{
}

/// A reset brings back every default setting and keeps the session; a restart ends the session and
/// keeps the settings. Without the session neither does anything.
pub proof fn law_reset_and_reboot(
    before: Site,
    after: Site,
    r: Answer,
    done: bool,
    cookie: Option<&str>,
)
    ensures
        ({
            let mine = before.session is Some && forms::session_cookie(forms::header_view(cookie))
                == before.session;
            &&& reset_requested(before, after, r, done, cookie) ==> {
                &&& done == mine
                &&& mine ==> after.config@ == before.defaults && r.status == 200 && r.body
                    == "Reset to defaults. NVS erased."@
                &&& !mine ==> after == before && r.status == 401
                &&& after.session == before.session && after.gpio == before.gpio
                &&& after.pwm == before.pwm && after.wps == before.wps
            }
            &&& reboot_requested(before, after, r, done, cookie) ==> {
                &&& done == mine
                &&& mine ==> after.session is None && r.status == 200 && r.body == "Rebooting..."@
                &&& !mine ==> after == before && r.status == 401
                &&& after.config == before.config && after.gpio == before.gpio
                &&& after.pwm == before.pwm && after.wps == before.wps
            }
        }),
{
}

/// A logout ends the session and its cookie, and nothing else.
pub proof fn law_logout(s: Site)
    ensures
        logged_out(s).session is None,
        logged_out(s).config == s.config && logged_out(s).gpio == s.gpio && logged_out(s).pwm
            == s.pwm && logged_out(s).wps == s.wps,
        logout_answer().status == 302,
        logout_answer().headers[0] == ("Set-Cookie"@, "session=; Path=/; Max-Age=0"@),
        logout_answer().headers[1] == ("Location"@, "/login"@),
{
}

/// What is said of saved settings, and of settings that could not be saved.
pub proof fn law_saved_answers()
    ensures
        saved_answer(true).status == 200,
        saved_answer(true).body == "Settings saved. Reboot to apply."@,
        saved_answer(false).status == 500,
        saved_answer(false).body == "NVS write error"@,
{
}

/// A request for push-button setup is taken up once: from then on 120 seconds are waited.
pub proof fn law_wps_taken_up(s: Site)
    ensures
        s.wps == WpsStatus::Requested ==> wps_taken_up(s).wps == WpsStatus::Waiting(120),
        s.wps != WpsStatus::Requested ==> wps_taken_up(s) == s,
        wps_taken_up(s).session == s.session && wps_taken_up(s).config == s.config,
{
}

/// A text message is a command and leaves the queues alone, a binary one is typed and leaves the
/// listeners alone; an empty one, and any other one, does nothing.
pub proof fn law_frames_by_kind(
    before: (ws::Listening, ws::Queued),
    after: (ws::Listening, ws::Queued),
    fd: i32,
    data: Seq<u8>,
    joined: bool,
)
    ensures
        framed(before, after, fd, Frame::Text, data, joined) && data.len() > 0 ==> {
            &&& after.1 == before.1
            &&& after.0 == commanded(before.0, fd, text::lossy(data))
            &&& joined ==> before.0.admitted.contains(fd)
        },
        framed(before, after, fd, Frame::Binary, data, joined) && data.len() > 0 ==> {
            &&& after.0 == before.0
            &&& after.1 == typed(before.1, before.0, fd, data)
            &&& !joined
        },
        framed(before, after, fd, Frame::Other, data, joined) ==> after == before && !joined,
        framed(before, after, fd, Frame::Text, Seq::empty(), joined) ==> after == before && !joined,
        framed(before, after, fd, Frame::Binary, Seq::empty(), joined) ==> after == before
            && !joined,
{
}

/// The plain values of an answer are the answer, each under its own name.
pub proof fn law_response_view(r: Response, i: int)
    requires
        0 <= i < r.headers@.len(),
    ensures
        r@.status == r.status,
        r@.body == r.body@,
        r@.headers.len() == r.headers@.len(),
        r@.headers[i] == (r.headers@[i].0@, r.headers@[i].1@),
        r.reason is None <==> r@.reason is None,
        r.reason matches Some(t) ==> r@.reason == Some(t@),
{
}

/// A terminal is admitted exactly if its cookie holds the token of the session; it listens to no
/// port yet, and every other terminal stays as it was.
pub proof fn law_terminal_opened(
    s: Site,
    before: ws::Listening,
    after: ws::Listening,
    fd: i32,
    cookie: Option<&str>,
    admitted: bool,
    other: i32,
)
    requires
        terminal_opened(s, before, after, fd, cookie, admitted),
        other != fd,
    ensures
        ({
            let mine = s.session is Some && forms::session_cookie(forms::header_view(cookie))
                == s.session;
            &&& admitted == mine
            &&& after.admitted.contains(fd) == mine
            &&& !after.com1.contains(fd) && !after.com2.contains(fd) && !after.usb.contains(fd)
            &&& after.admitted.contains(other) == before.admitted.contains(other)
        }),
{
    ws::law_opened(before, fd, admitted, other);
}

} // verus!
