//! Log records as syslog messages.

use crate::text;
use crate::text::{push_dec, same};
use crate::text_map;
use vstd::prelude::*;
use vstd::string::*;

verus! {

/// Errors of sockets.
#[verifier::external_type_specification]
#[verifier::external_body]
pub struct ExIoError(std::io::Error);

/// The error of a logger that is registered twice.
#[verifier::external_type_specification]
#[verifier::external_body]
pub struct ExSetLoggerError(log::SetLoggerError);

/// Where a message comes from.
#[derive(Copy, Clone, Debug, PartialEq, Eq, Structural)]
pub enum Facility {
    Kernel,
    User,
    Mail,
    Daemon,
    Auth,
    Syslog,
    Lpr,
    News,
    Uucp,
    Cron,
    AuthPriv,
    Ftp,
    Ntp,
    LogAudit,
    LogAlert,
    Clock,
    Local0,
    Local1,
    Local2,
    Local3,
    Local4,
    Local5,
    Local6,
    Local7,
}

/// How serious a message is.
#[derive(Copy, Clone, Debug, PartialEq, Eq, Structural)]
pub enum Severity {
    Emergency,
    Alert,
    Critical,
    Error,
    Warning,
    Notice,
    Informational,
    Debug,
}

/// The number of a facility.
pub open spec fn facility_code(f: Facility) -> int {
    match f {
        Facility::Kernel => 0,
        Facility::User => 1,
        Facility::Mail => 2,
        Facility::Daemon => 3,
        Facility::Auth => 4,
        Facility::Syslog => 5,
        Facility::Lpr => 6,
        Facility::News => 7,
        Facility::Uucp => 8,
        Facility::Cron => 9,
        Facility::AuthPriv => 10,
        Facility::Ftp => 11,
        Facility::Ntp => 12,
        Facility::LogAudit => 13,
        Facility::LogAlert => 14,
        Facility::Clock => 15,
        Facility::Local0 => 16,
        Facility::Local1 => 17,
        Facility::Local2 => 18,
        Facility::Local3 => 19,
        Facility::Local4 => 20,
        Facility::Local5 => 21,
        Facility::Local6 => 22,
        Facility::Local7 => 23,
    }
}

/// The number of a severity.
pub open spec fn severity_code(s: Severity) -> int {
    match s {
        Severity::Emergency => 0,
        Severity::Alert => 1,
        Severity::Critical => 2,
        Severity::Error => 3,
        Severity::Warning => 4,
        Severity::Notice => 5,
        Severity::Informational => 6,
        Severity::Debug => 7,
    }
}

/// Facility and severity in one number.
pub open spec fn priority(f: Facility, s: Severity) -> int {
    facility_code(f) * 8 + severity_code(s)
}

fn facility_number(f: Facility) -> (n: u64)
    ensures
        n == facility_code(f),
        n < 24,
{
    match f {
        Facility::Kernel => 0,
        Facility::User => 1,
        Facility::Mail => 2,
        Facility::Daemon => 3,
        Facility::Auth => 4,
        Facility::Syslog => 5,
        Facility::Lpr => 6,
        Facility::News => 7,
        Facility::Uucp => 8,
        Facility::Cron => 9,
        Facility::AuthPriv => 10,
        Facility::Ftp => 11,
        Facility::Ntp => 12,
        Facility::LogAudit => 13,
        Facility::LogAlert => 14,
        Facility::Clock => 15,
        Facility::Local0 => 16,
        Facility::Local1 => 17,
        Facility::Local2 => 18,
        Facility::Local3 => 19,
        Facility::Local4 => 20,
        Facility::Local5 => 21,
        Facility::Local6 => 22,
        Facility::Local7 => 23,
    }
}

fn severity_number(s: Severity) -> (n: u64)
    ensures
        n == severity_code(s),
        n < 8,
{
    match s {
        Severity::Emergency => 0,
        Severity::Alert => 1,
        Severity::Critical => 2,
        Severity::Error => 3,
        Severity::Warning => 4,
        Severity::Notice => 5,
        Severity::Informational => 6,
        Severity::Debug => 7,
    }
}

/// How verbose a log record is.
#[derive(Copy, Clone, Debug, PartialEq, Eq, Structural)]
pub enum Level {
    Error,
    Warn,
    Info,
    Debug,
    Trace,
}

/// How verbose log records may be.
#[derive(Copy, Clone, Debug, PartialEq, Eq, Structural)]
pub enum LevelFilter {
    Off,
    Error,
    Warn,
    Info,
    Debug,
    Trace,
}

/// Levels from the least verbose on.
pub open spec fn level_rank(l: Level) -> int {
    match l {
        Level::Error => 1,
        Level::Warn => 2,
        Level::Info => 3,
        Level::Debug => 4,
        Level::Trace => 5,
    }
}

/// The most verbose level that a filter lets through.
pub open spec fn filter_rank(f: LevelFilter) -> int {
    match f {
        LevelFilter::Off => 0,
        LevelFilter::Error => 1,
        LevelFilter::Warn => 2,
        LevelFilter::Info => 3,
        LevelFilter::Debug => 4,
        LevelFilter::Trace => 5,
    }
}

fn level_number(l: Level) -> (n: u8)
    ensures
        n == level_rank(l),
{
    match l {
        Level::Error => 1,
        Level::Warn => 2,
        Level::Info => 3,
        Level::Debug => 4,
        Level::Trace => 5,
    }
}

fn filter_number(f: LevelFilter) -> (n: u8)
    ensures
        n == filter_rank(f),
{
    match f {
        LevelFilter::Off => 0,
        LevelFilter::Error => 1,
        LevelFilter::Warn => 2,
        LevelFilter::Info => 3,
        LevelFilter::Debug => 4,
        LevelFilter::Trace => 5,
    }
}

/// The severity of a log level.
pub open spec fn level_severity(l: Level) -> Severity {
    match l {
        Level::Error => Severity::Error,
        Level::Warn => Severity::Warning,
        Level::Info => Severity::Informational,
        Level::Debug => Severity::Debug,
        Level::Trace => Severity::Debug,
    }
}

/// The time format of syslog messages.
pub const SYSLOG_TIME: &'static str = "%Y-%m-%dT%H:%M:%S%.3fZ";

/// The time format of plain log lines.
pub const PLAIN_TIME: &'static str = "%Y-%m-%d %H:%M:%S";

/// What `chrono` writes for an instant, given in seconds and nanoseconds since the epoch, in a
/// format; none for an instant that it cannot represent.
pub uninterp spec fn utc(secs: i64, nanos: u32, format: Seq<char>) -> Option<Seq<char>>;

/// An instant in the years 1970 to 9999.
pub open spec fn dated(secs: i64, nanos: u32) -> bool {
    0 <= secs < 253_402_300_800 && nanos < 1_000_000_000
}

/// `chrono::DateTime::<Utc>::from_timestamp` and `DateTime::format` on its result: the instant in
/// UTC as text. Every instant in the years 1970 to 9999 has one; what the text is, and which other
/// instants have one, is left to the named result.
#[verifier::external_body]
pub(crate) fn utc_text(secs: i64, nanos: u32, format: &str) -> (t: Option<String>)
    requires
        format@ == SYSLOG_TIME@ || format@ == PLAIN_TIME@,
    ensures
        text_map::text_view(t) == utc(secs, nanos, format@),
        dated(secs, nanos) ==> t is Some,
{
    let at = chrono::DateTime::<chrono::Utc>::from_timestamp(secs, nanos)?;
    Some(at.format(format).to_string())
}

/// The instant as it stands in a log line; none for one that has no date.
pub fn plain_time(secs: i64, nanos: u32) -> (t: Option<String>)
    ensures
        text_map::text_view(t) == utc(secs, nanos, PLAIN_TIME@),
        dated(secs, nanos) ==> t is Some,
{
    utc_text(secs, nanos, PLAIN_TIME)
}

/// A syslog message as RFC 5424 lays it out: priority and version, time, host, application, then
/// process, message identifier and structured data, which are nil, and the text.
pub open spec fn syslog_message(
    f: Facility,
    s: Severity,
    time: Seq<char>,
    host: Seq<char>,
    app: Seq<char>,
    message: Seq<char>,
) -> Seq<char> {
    "<"@ + text::dec(priority(f, s) as nat) + ">1 "@ + time + " "@ + host + " "@ + app
        + " - - - "@ + message
}

/// Forwards log records to a syslog server.
pub struct SysLogger {
    pub level_filter: LevelFilter,
    pub server_addr: String,
    pub host_name: String,
    pub app_name: String,
}

/// The settings of a logger as plain values.
pub struct LoggerSettings {
    pub level_filter: LevelFilter,
    pub server_addr: Seq<char>,
    pub host_name: Seq<char>,
    pub app_name: Seq<char>,
}

impl View for SysLogger {
    type V = LoggerSettings;

    open spec fn view(&self) -> LoggerSettings {
        LoggerSettings {
            level_filter: self.level_filter,
            server_addr: self.server_addr@,
            host_name: self.host_name@,
            app_name: self.app_name@,
        }
    }
}

/// A syslog message as text; `time` is the formatted instant.
pub fn format_syslog_message(
    facility: Facility,
    severity: Severity,
    time: &str,
    hostname: &str,
    app_name: &str,
    message: &str,
) -> (r: String)
    ensures
        r@ == syslog_message(facility, severity, time@, hostname@, app_name@, message@),
{
    let mut out = "<".to_owned();
    push_dec(&mut out, facility_number(facility) * 8 + severity_number(severity));
    out.append(">1 ");
    out.append(time);
    out.append(" ");
    out.append(hostname);
    out.append(" ");
    out.append(app_name);
    out.append(" - - - ");
    out.append(message);
    out
}

/// The text of a log record: its target in brackets, then its message.
pub open spec fn record_text(target: Seq<char>, args: Seq<char>) -> Seq<char> {
    "["@ + target + "] "@ + args
}

/// The datagram for a message at an instant, if that has a date.
pub open spec fn datagram(
    l: LoggerSettings,
    level: Severity,
    time: Option<Seq<char>>,
    message: Seq<char>,
) -> Option<Seq<char>> {
    match time {
        Some(t) => Some(
            syslog_message(Facility::User, level, t, l.host_name, l.app_name, message),
        ),
        None => None,
    }
}

/// Whether a filter lets a level through.
pub open spec fn lets_through(f: LevelFilter, l: Level) -> bool {
    level_rank(l) <= filter_rank(f)
}

/// Severity and text of a record, if the filter lets it through.
pub open spec fn forwarded(
    f: LevelFilter,
    level: Level,
    target: Seq<char>,
    args: Seq<char>,
) -> Option<(Severity, Seq<char>)> {
    if lets_through(f, level) {
        Some((level_severity(level), record_text(target, args)))
    } else {
        None
    }
}

/// The view of severity and text.
pub open spec fn record_view(m: Option<(Severity, String)>) -> Option<(Severity, Seq<char>)> {
    match m {
        Some((s, t)) => Some((s, t@)),
        None => None,
    }
}

/// What preparing the logger comes to.
pub open spec fn prepared(
    r: Result<InitStep, LoggerError>,
    server: Seq<char>,
    enable: Seq<char>,
    host_name: Seq<char>,
    app_name: Seq<char>,
    socket: Result<(), std::io::Error>,
) -> bool {
    &&& enable != "true"@ ==> r == Ok::<InitStep, LoggerError>(InitStep::Disabled)
    &&& enable == "true"@ ==> match socket {
        Err(e) => r == Err::<InitStep, LoggerError>(LoggerError::SocketError(e)),
        Ok(_) => {
            &&& r matches Ok(InitStep::Prepared(l, m))
            &&& l@ == (LoggerSettings {
                level_filter: LevelFilter::Info,
                server_addr: server,
                host_name,
                app_name,
            })
            &&& m@ == "Syslog logger initialized for "@ + app_name
        },
    }
}

/// The logger with other names.
pub open spec fn renamed(l: LoggerSettings, host_name: Seq<char>, app_name: Seq<char>) -> LoggerSettings {
    LoggerSettings { host_name, app_name, ..l }
}

impl SysLogger {
    /// The datagram for a message at an instant; none for an instant that has no date.
    pub fn send_message(&self, level: Severity, secs: i64, nanos: u32, message: &str) -> (d: Option<
        String,
    >)
        ensures
            text_map::text_view(d) == datagram(
                self@,
                level,
                utc(secs, nanos, SYSLOG_TIME@),
                message@,
            ),
            dated(secs, nanos) ==> d is Some,
    {
        match utc_text(secs, nanos, SYSLOG_TIME) {
            Some(time) => Some(
                format_syslog_message(
                    Facility::User,
                    level,
                    time.as_str(),
                    self.host_name.as_str(),
                    self.app_name.as_str(),
                    message,
                ),
            ),
            None => None,
        }
    }

    /// Whether records of a level are forwarded.
    pub fn enabled(&self, level: Level) -> (r: bool)
        ensures
            r == lets_through(self@.level_filter, level),
    {
        level_number(level) <= filter_number(self.level_filter)
    }

    /// Severity and text of a record that is forwarded; none for one that is not.
    pub fn log(&self, level: Level, target: &str, args: &str) -> (m: Option<(Severity, String)>)
        ensures
            record_view(m) == forwarded(self@.level_filter, level, target@, args@),
    {
        if !self.enabled(level) {
            return None;
        }
        let severity = match level {
            Level::Error => Severity::Error,
            Level::Warn => Severity::Warning,
            Level::Info => Severity::Informational,
            Level::Debug => Severity::Debug,
            Level::Trace => Severity::Debug,
        };
        let mut out = "[".to_owned();
        out.append(target);
        out.append("] ");
        out.append(args);
        Some((severity, out))
    }
}

/// The logger that stands for whichever one is configured.
#[derive(Copy, Clone, Debug)]
pub struct StaticLoggerWrapper;

impl StaticLoggerWrapper {
    /// Whether records of a level are forwarded; without a configured logger none are.
    pub fn enabled(&self, logger: &Option<SysLogger>, level: Level) -> (r: bool)
        ensures
            r == match *logger {
                Some(l) => lets_through(l@.level_filter, level),
                None => false,
            },
    {
        match logger {
            Some(l) => l.enabled(level),
            None => false,
        }
    }

    /// Severity and text of a record that is forwarded.
    pub fn log(&self, logger: &Option<SysLogger>, level: Level, target: &str, args: &str) -> (m:
        Option<(Severity, String)>)
        ensures
            record_view(m) == match *logger {
                Some(l) => forwarded(l@.level_filter, level, target@, args@),
                None => None,
            },
    {
        match logger {
            Some(l) => l.log(level, target, args),
            None => None,
        }
    }
}

/// Why the logger could not be set up.
#[derive(Debug)]
pub enum LoggerError {
    SocketError(std::io::Error),
    LockError,
    SetLoggerError(log::SetLoggerError),
}

impl From<std::io::Error> for LoggerError {
    fn from(error: std::io::Error) -> (e: LoggerError) {
        LoggerError::SocketError(error)
    }
}

impl vstd::std_specs::convert::FromSpecImpl<std::io::Error> for LoggerError {
    open spec fn obeys_from_spec() -> bool {
        true
    }

    open spec fn from_spec(error: std::io::Error) -> LoggerError {
        LoggerError::SocketError(error)
    }
}

impl From<log::SetLoggerError> for LoggerError {
    fn from(error: log::SetLoggerError) -> (e: LoggerError) {
        LoggerError::SetLoggerError(error)
    }
}

impl vstd::std_specs::convert::FromSpecImpl<log::SetLoggerError> for LoggerError {
    open spec fn obeys_from_spec() -> bool {
        true
    }

    open spec fn from_spec(error: log::SetLoggerError) -> LoggerError {
        LoggerError::SetLoggerError(error)
    }
}

/// `std::io::Error` as text, in the words of the operating system: nothing is claimed of them.
#[verifier::external_body]
fn io_error_text(e: &std::io::Error) -> (t: String) {
    e.to_string()
}

impl LoggerError {
    /// The error in words. Those of the operating system follow a socket error.
    pub fn message(&self) -> (t: String)
        ensures
            self is LockError ==> t@ == "Failed to acquire lock on logger"@,
            self is SetLoggerError ==> t@ == "Failed to set global logger"@,
            self is SocketError ==> t@.len() >= "Socket error: "@.len() && t@.take(
                "Socket error: "@.len() as int,
            ) == "Socket error: "@,
    {
        match self {
            LoggerError::SocketError(e) => {
                let mut out = "Socket error: ".to_owned();
                let rest = io_error_text(e);
                out.append(rest.as_str());
                proof {
                    assert(out@.take("Socket error: "@.len() as int) =~= "Socket error: "@);
                }
                out
            },
            LoggerError::LockError => "Failed to acquire lock on logger".to_owned(),
            LoggerError::SetLoggerError(_) => "Failed to set global logger".to_owned(),
        }
    }
}

/// Changes host and application name of the configured logger, if there is one. `locked` says
/// whether the logger could be locked.
pub fn update_logger_config(
    logger: &mut Option<SysLogger>,
    locked: bool,
    host_name: &str,
    app_name: &str,
) -> (r: Result<(), LoggerError>)
    ensures
        r is Ok <==> locked,
        r matches Err(e) ==> e is LockError,
        *final(logger) is Some <==> *old(logger) is Some,
        !locked ==> *final(logger) == *old(logger),
        locked ==> ((*old(logger), *final(logger)) matches (Some(a), Some(b)) ==> b@ == renamed(
            a@,
            host_name@,
            app_name@,
        )),
{
    if !locked {
        return Err(LoggerError::LockError);
    }
    if let Some(l) = logger {
        l.host_name = host_name.to_owned();
        l.app_name = app_name.to_owned();
    }
    Ok(())
}

/// What preparing the logger came to.
pub enum InitStep {
    /// Syslog is disabled.
    Disabled,
    /// The logger; it sends the message, then it is installed.
    Prepared(SysLogger, String),
}

/// Prepares the logger. `socket` is what came of opening the socket.
pub fn init_logger(
    syslog_server: &str,
    syslog_enable: &str,
    host_name: &str,
    app_name: &str,
    socket: Result<(), std::io::Error>,
) -> (r: Result<InitStep, LoggerError>)
    ensures
        prepared(r, syslog_server@, syslog_enable@, host_name@, app_name@, socket),
{
    if !same(syslog_enable, "true") {
        return Ok(InitStep::Disabled);
    }
    match socket {
        Err(e) => {
            return Err(LoggerError::from(e));
        },
        Ok(_) => {},
    }
    let mut first = "Syslog logger initialized for ".to_owned();
    first.append(app_name);
    let logger = SysLogger {
        level_filter: LevelFilter::Info,
        server_addr: syslog_server.to_owned(),
        host_name: host_name.to_owned(),
        app_name: app_name.to_owned(),
    };
    Ok(InitStep::Prepared(logger, first))
}

/// Installs a prepared logger. `locked` says whether the place for it could be locked.
pub fn install_logger(slot: &mut Option<SysLogger>, logger: SysLogger, locked: bool) -> (r: Result<
    (),
    LoggerError,
>)
    ensures
        locked ==> r is Ok && *final(slot) == Some(logger),
        !locked ==> r == Err::<(), LoggerError>(LoggerError::LockError) && *final(slot) == *old(
            slot,
        ),
{
    if !locked {
        return Err(LoggerError::LockError);
    }
    *slot = Some(logger);
    Ok(())
}

/// What registering the logger came to.
pub fn registered(set: Result<(), log::SetLoggerError>) -> (r: Result<(), LoggerError>)
    ensures
        r == match set {
            Ok(_) => Ok(()),
            Err(e) => Err(LoggerError::SetLoggerError(e)),
        },
{
    match set {
        Ok(_) => Ok(()),
        Err(e) => Err(LoggerError::from(e)),
    }
}

/// Facility and severity can be read off the priority.
pub proof fn law_priority_is_unique(f: Facility, s: Severity, g: Facility, t: Severity)
    requires
        priority(f, s) == priority(g, t),
    ensures
        f == g,
        s == t,
{
}

/// A more serious record is forwarded wherever a less serious one is.
pub proof fn law_filter_is_monotone(a: Level, b: Level, f: LevelFilter)
    requires
        level_rank(a) <= level_rank(b),
        level_rank(b) <= filter_rank(f),
    ensures
        level_rank(a) <= filter_rank(f),
        severity_code(level_severity(a)) <= severity_code(level_severity(b)),
{
}

/// The number of every facility and every severity.
pub proof fn law_codes()
    ensures
        facility_code(Facility::Kernel) == 0,
        facility_code(Facility::User) == 1,
        facility_code(Facility::Mail) == 2,
        facility_code(Facility::Daemon) == 3,
        facility_code(Facility::Auth) == 4,
        facility_code(Facility::Syslog) == 5,
        facility_code(Facility::Lpr) == 6,
        facility_code(Facility::News) == 7,
        facility_code(Facility::Uucp) == 8,
        facility_code(Facility::Cron) == 9,
        facility_code(Facility::AuthPriv) == 10,
        facility_code(Facility::Ftp) == 11,
        facility_code(Facility::Ntp) == 12,
        facility_code(Facility::LogAudit) == 13,
        facility_code(Facility::LogAlert) == 14,
        facility_code(Facility::Clock) == 15,
        facility_code(Facility::Local0) == 16,
        facility_code(Facility::Local1) == 17,
        facility_code(Facility::Local2) == 18,
        facility_code(Facility::Local3) == 19,
        facility_code(Facility::Local4) == 20,
        facility_code(Facility::Local5) == 21,
        facility_code(Facility::Local6) == 22,
        facility_code(Facility::Local7) == 23,
        severity_code(Severity::Emergency) == 0,
        severity_code(Severity::Alert) == 1,
        severity_code(Severity::Critical) == 2,
        severity_code(Severity::Error) == 3,
        severity_code(Severity::Warning) == 4,
        severity_code(Severity::Notice) == 5,
        severity_code(Severity::Informational) == 6,
        severity_code(Severity::Debug) == 7,
{
}

/// A message in syslog format: eight times the facility and the severity in angle brackets, the
/// version, then time, host and application, in this order, three nil fields and the text.
pub proof fn law_message_layout(
    s: Severity,
    time: Seq<char>,
    host: Seq<char>,
    app: Seq<char>,
    message: Seq<char>,
    n: int,
)
    requires
        n == severity_code(s),
    ensures
        syslog_message(Facility::User, s, time, host, app, message) == seq!['<'] + text::dec(
            (8 + n) as nat,
        ) + seq!['>', '1', ' '] + time + seq![' '] + host + seq![' '] + app + seq![
            ' ',
            '-',
            ' ',
            '-',
            ' ',
            '-',
            ' ',
        ] + message,
        syslog_message(Facility::Local7, s, time, host, app, message) == seq!['<'] + text::dec(
            (184 + n) as nat,
        ) + seq!['>', '1', ' '] + time + seq![' '] + host + seq![' '] + app + seq![
            ' ',
            '-',
            ' ',
            '-',
            ' ',
            '-',
            ' ',
        ] + message,
{
    reveal_strlit("<");
    reveal_strlit(">1 ");
    reveal_strlit(" ");
    reveal_strlit(" - - - ");
    assert("<"@ =~= seq!['<']);
    assert(">1 "@ =~= seq!['>', '1', ' ']);
    assert(" "@ =~= seq![' ']);
    assert(" - - - "@ =~= seq![' ', '-', ' ', '-', ' ', '-', ' ']);
}

/// Which records a filter lets through: each filter its own level and the less verbose ones.
pub proof fn law_levels(l: Level)
    ensures
        level_rank(l) > filter_rank(LevelFilter::Off),
        level_rank(l) <= filter_rank(LevelFilter::Error) <==> l == Level::Error,
        level_rank(l) <= filter_rank(LevelFilter::Warn) <==> l == Level::Error || l == Level::Warn,
        level_rank(l) <= filter_rank(LevelFilter::Info) <==> l != Level::Debug && l != Level::Trace,
        level_rank(l) <= filter_rank(LevelFilter::Debug) <==> l != Level::Trace,
        level_rank(l) <= filter_rank(LevelFilter::Trace),
{
}

/// The severity of every level.
pub proof fn law_severities()
    ensures
        level_severity(Level::Error) == Severity::Error,
        level_severity(Level::Warn) == Severity::Warning,
        level_severity(Level::Info) == Severity::Informational,
        level_severity(Level::Debug) == Severity::Debug,
        level_severity(Level::Trace) == Severity::Debug,
{
}

/// A record reads as its target in brackets, a space and its message.
pub proof fn law_record_layout(target: Seq<char>, args: Seq<char>)
    ensures
        record_text(target, args) == seq!['['] + target + seq![']', ' '] + args,
{
    reveal_strlit("[");
    reveal_strlit("] ");
    assert("["@ =~= seq!['[']);
    assert("] "@ =~= seq![']', ' ']);
}

/// A datagram has the logger's host and application name in their places, and the text of the
/// message at its end.
pub proof fn law_datagram(l: LoggerSettings, s: Severity, t: Seq<char>, message: Seq<char>)
    ensures
        datagram(l, s, None, message) is None,
        datagram(l, s, Some(t), message) == Some(
            syslog_message(Facility::User, s, t, l.host_name, l.app_name, message),
        ),
{
}

/// Which records are forwarded, and as what: errors, warnings and information by default, each with
/// its own severity and its own text.
pub proof fn law_forwarded(target: Seq<char>, args: Seq<char>)
    ensures
        ({
            let text = seq!['['] + target + seq![']', ' '] + args;
            let f = LevelFilter::Info;
            &&& forwarded(f, Level::Error, target, args) == Some((Severity::Error, text))
            &&& forwarded(f, Level::Warn, target, args) == Some((Severity::Warning, text))
            &&& forwarded(f, Level::Info, target, args) == Some((Severity::Informational, text))
            &&& forwarded(f, Level::Debug, target, args) is None
            &&& forwarded(f, Level::Trace, target, args) is None
            &&& forwarded(LevelFilter::Trace, Level::Trace, target, args) == Some(
                (Severity::Debug, text),
            )
            &&& forwarded(LevelFilter::Debug, Level::Debug, target, args) == Some(
                (Severity::Debug, text),
            )
        }),
{
    law_record_layout(target, args);
}

/// A logger that is prepared has each of its settings from the argument of its own name.
pub proof fn law_prepared_by_setting(
    r: Result<InitStep, LoggerError>,
    server: Seq<char>,
    enable: Seq<char>,
    host_name: Seq<char>,
    app_name: Seq<char>,
    socket: Result<(), std::io::Error>,
)
    requires
        prepared(r, server, enable, host_name, app_name, socket),
    ensures
        enable != "true"@ ==> (r matches Ok(InitStep::Disabled)),
        enable == "true"@ && socket is Err ==> (r matches Err(LoggerError::SocketError(_))),
        enable == "true"@ && socket is Ok ==> (r matches Ok(InitStep::Prepared(l, m))
            && l.server_addr@ == server && l.host_name@ == host_name && l.app_name@ == app_name
            && l.level_filter == LevelFilter::Info && m@ == "Syslog logger initialized for "@
            + app_name),
{
}

/// Other names replace the names of a logger; server and filter stay.
pub proof fn law_renamed(l: LoggerSettings, host_name: Seq<char>, app_name: Seq<char>)
    ensures
        renamed(l, host_name, app_name).host_name == host_name,
        renamed(l, host_name, app_name).app_name == app_name,
        renamed(l, host_name, app_name).server_addr == l.server_addr,
        renamed(l, host_name, app_name).level_filter == l.level_filter,
{
}

} // verus!
