use ssh_serial_bridge::nvs_config::{load_config, NvsConfig};
use ssh_serial_bridge::supervisor::{
    after_wps, main_tick, ntp_servers, ntp_step, raw_duty, startup, AfterWps, NtpStep, Tick, UartSettings,
};
use ssh_serial_bridge::syslogger::{
    format_syslog_message, init_logger, install_logger, plain_time, registered, update_logger_config, Facility, InitStep, Level,
    LevelFilter, LoggerError, Severity, StaticLoggerWrapper, SysLogger,
};
use ssh_serial_bridge::text_map::TextMap;
use ssh_serial_bridge::wifi::{
    client_configuration, configure_static_ip, connect_step, parse_ipv4, wifi_connect, ConnectStep, StaticIpError,
    WifiError, CONNECT_SECONDS, WPS_CONNECT_SECONDS,
};
use ssh_serial_bridge::wps::{cut_at_zero, WpsAsk, WpsCommand, WpsEvent, WpsSession, WpsState, WpsStatus};

fn settings(pairs: &[(&str, &str)]) -> NvsConfig {
    let e = || String::new();
    let none = NvsConfig {
        wifi_ssid: e(),
        wifi_psk: e(),
        ip_mode: e(),
        ip_address: e(),
        subnet_mask: e(),
        gateway: e(),
        dns: e(),
        syslog_server: e(),
        syslog_enable: e(),
        syslog_host_name: e(),
        syslog_app_name: e(),
        ssh_user: e(),
        ssh_password: e(),
        com1_tx_pin: e(),
        com1_rx_pin: e(),
        com1_baud: e(),
        com2_tx_pin: e(),
        com2_rx_pin: e(),
        com2_baud: e(),
        cdc_enable: e(),
        cdc_baud: e(),
        cdc_retry_enable: e(),
        cdc_retry_interval: e(),
        display_enable: e(),
        display_port: e(),
        mini_display_enable: e(),
        wps_enable: e(),
        pwm_enable: e(),
        ntp_server1: e(),
        ntp_server2: e(),
        ntp_server3: e(),
        ntp_server4: e(),
    };
    let mut m = TextMap::new();
    for (k, v) in pairs {
        m.insert(k.to_string(), v.to_string());
    }
    load_config(&none, &m)
}

fn logger() -> SysLogger {
    SysLogger {
        level_filter: LevelFilter::Info,
        server_addr: "10.0.0.1:514".to_string(),
        host_name: "esp32".to_string(),
        app_name: "app".to_string(),
    }
}

#[test]
fn syslog_messages() {
    assert_eq!(
        format_syslog_message(Facility::User, Severity::Informational, "2024-01-01T00:00:00.000Z", "h", "a", "hi"),
        "<14>1 2024-01-01T00:00:00.000Z h a - - - hi"
    );
    assert_eq!(
        format_syslog_message(Facility::Local7, Severity::Debug, "t", "h", "a", ""),
        "<191>1 t h a - - - "
    );
    assert_eq!(
        logger().send_message(Severity::Warning, 0, 0, "hi"),
        Some("<12>1 1970-01-01T00:00:00.000Z esp32 app - - - hi".to_string())
    );
    assert_eq!(format_syslog_message(Facility::Kernel, Severity::Emergency, "t", "h", "a", "m"), "<0>1 t h a - - - m");
}

#[test]
fn messages_carry_the_time() {
    let l = logger();
    assert_eq!(
        l.send_message(Severity::Error, 1_431_648_000, 123_456_789, "disk full"),
        Some("<11>1 2015-05-15T00:00:00.123Z esp32 app - - - disk full".to_string())
    );
    assert_eq!(l.send_message(Severity::Error, i64::MAX, 0, "x"), None);
    assert_eq!(plain_time(0, 0), Some("1970-01-01 00:00:00".to_string()));
    assert_eq!(plain_time(253_402_300_799, 999_999_999), Some("9999-12-31 23:59:59".to_string()));
    assert_eq!(plain_time(i64::MIN, 0), None);
}

#[test]
fn records_are_filtered() {
    let l = logger();
    assert!(l.enabled(Level::Error) && l.enabled(Level::Warn) && l.enabled(Level::Info));
    assert!(!l.enabled(Level::Debug) && !l.enabled(Level::Trace));
    assert_eq!(l.log(Level::Warn, "wifi", "lost"), Some((Severity::Warning, "[wifi] lost".to_string())));
    assert_eq!(l.log(Level::Debug, "wifi", "lost"), None);
    let all = SysLogger { level_filter: LevelFilter::Trace, ..logger() };
    assert_eq!(all.log(Level::Trace, "t", "m").unwrap().0, Severity::Debug);
    assert_eq!(all.log(Level::Error, "t", "m").unwrap().0, Severity::Error);
    let off = SysLogger { level_filter: LevelFilter::Off, ..logger() };
    assert!(!off.enabled(Level::Error));
    let w = StaticLoggerWrapper;
    assert!(w.enabled(&Some(logger()), Level::Info));
    assert!(!w.enabled(&None, Level::Error));
    assert_eq!(w.log(&None, Level::Error, "t", "m"), None);
    assert_eq!(w.log(&Some(logger()), Level::Info, "t", "m"), Some((Severity::Informational, "[t] m".to_string())));
}

#[test]
fn setting_up_the_logger() {
    let r = init_logger("10.0.0.1:514", "false", "h", "a", Ok(()));
    assert!(matches!(r, Ok(InitStep::Disabled)));
    let broken = std::io::Error::new(std::io::ErrorKind::Other, "no socket");
    let r = init_logger("10.0.0.1:514", "true", "h", "a", Err(broken));
    let e = r.err().unwrap();
    assert!(matches!(e, LoggerError::SocketError(_)));
    assert_eq!(e.message(), "Socket error: no socket");
    let Ok(InitStep::Prepared(prepared, first)) = init_logger("10.0.0.1:514", "true", "h", "a", Ok(())) else {
        panic!("not prepared");
    };
    assert_eq!(first, "Syslog logger initialized for a");
    assert_eq!(
        prepared.send_message(Severity::Informational, 0, 0, &first),
        Some("<14>1 1970-01-01T00:00:00.000Z h a - - - Syslog logger initialized for a".to_string())
    );
    let mut l = None;
    let r = install_logger(&mut l, logger(), false);
    assert_eq!(r.err().unwrap().message(), "Failed to acquire lock on logger");
    assert!(l.is_none());
    assert!(install_logger(&mut l, prepared, true).is_ok());
    assert_eq!(l.as_ref().unwrap().server_addr, "10.0.0.1:514");
    assert_eq!(l.as_ref().unwrap().level_filter, LevelFilter::Info);
    assert!(update_logger_config(&mut l, true, "h2", "a2").is_ok());
    assert_eq!(l.as_ref().unwrap().host_name, "h2");
    assert!(matches!(update_logger_config(&mut l, false, "h3", "a3"), Err(LoggerError::LockError)));
    assert_eq!(l.as_ref().unwrap().app_name, "a2");
    assert!(update_logger_config(&mut None, true, "h", "a").is_ok());
}

struct Quiet;

impl log::Log for Quiet {
    fn enabled(&self, _: &log::Metadata) -> bool {
        false
    }
    fn log(&self, _: &log::Record) {}
    fn flush(&self) {}
}

#[test]
fn registering_twice() {
    assert!(registered(log::set_boxed_logger(Box::new(Quiet))).is_ok());
    let e = registered(log::set_boxed_logger(Box::new(Quiet))).err().unwrap();
    assert!(matches!(e, LoggerError::SetLoggerError(_)));
    assert_eq!(e.message(), "Failed to set global logger");
}

#[test]
fn credentials_must_fit() {
    let c = client_configuration(&"s".repeat(32), &"p".repeat(64)).ok().unwrap();
    assert_eq!((c.ssid.len(), c.password.len()), (32, 64));
    assert_eq!(client_configuration(&"s".repeat(33), "p").err(), Some(WifiError::SsidTooLong));
    assert_eq!(client_configuration("s", &"p".repeat(65)).err(), Some(WifiError::PassTooLong));
    // Bytes count, not characters.
    assert_eq!(client_configuration(&"\u{e9}".repeat(17), "p").err(), Some(WifiError::SsidTooLong));
    assert_eq!(wifi_connect("", "p").err(), Some(WifiError::Empty));
    assert_eq!(wifi_connect("s", "").err(), Some(WifiError::Empty));
    assert_eq!(wifi_connect("", &"p".repeat(65)).err(), Some(WifiError::Empty));
    assert_eq!(wifi_connect(&"s".repeat(33), "").err(), Some(WifiError::Empty));
    let c = wifi_connect("net", "pass").ok().unwrap();
    assert_eq!((c.ssid.as_str(), c.password.as_str()), ("net", "pass"));
    assert_eq!(WifiError::Empty.message(), "SSID or password is empty");
    assert_eq!(WifiError::SsidTooLong.message(), "WPS SSID too long");
    assert_eq!(WifiError::PassTooLong.message(), "WPS passphrase too long");
}

#[test]
fn waiting_for_a_connection() {
    assert_eq!(connect_step(true, 99, CONNECT_SECONDS), ConnectStep::Connected);
    let mut waited = 0;
    while connect_step(false, waited, CONNECT_SECONDS) == ConnectStep::Retry {
        waited += 1;
    }
    assert_eq!(waited, 10);
    assert_eq!(connect_step(false, 10, CONNECT_SECONDS), ConnectStep::GiveUp);
    assert_eq!(connect_step(false, 13, WPS_CONNECT_SECONDS), ConnectStep::Retry);
    assert_eq!(connect_step(false, 14, WPS_CONNECT_SECONDS), ConnectStep::GiveUp);
    assert_eq!(connect_step(false, 0, 0), ConnectStep::GiveUp);
}

#[test]
fn addresses() {
    assert_eq!(parse_ipv4("192.168.2.200"), Some([192, 168, 2, 200]));
    assert_eq!(parse_ipv4("0.0.0.0"), Some([0; 4]));
    for bad in ["", "1.2.3", "1.2.3.4.5", "256.1.1.1", "01.2.3.4", "1.2.3.+4", "1..2.3", " 1.2.3.4", "1.2.3.0400"] {
        assert_eq!(parse_ipv4(bad), None);
    }
    for a in [[255, 255, 255, 255], [10, 0, 0, 1], [9, 99, 100, 1]] {
        assert_eq!(parse_ipv4(&format!("{}.{}.{}.{}", a[0], a[1], a[2], a[3])), Some(a));
    }
}

#[test]
fn fixed_addresses() {
    let c = configure_static_ip("192.168.2.200", "255.255.255.0", "192.168.2.1", "1.1.1.1").ok().unwrap();
    assert_eq!((c.ip, c.mask, c.gateway), ([192, 168, 2, 200], [255, 255, 255, 0], [192, 168, 2, 1]));
    assert_eq!(c.dns, Some([1, 1, 1, 1]));
    let c = configure_static_ip("192.168.2.200", "255.255.255.0", "192.168.2.1", "x").ok().unwrap();
    assert_eq!(c.dns, None);
    let err = |a, b, c| configure_static_ip(a, b, c, "").err().unwrap();
    assert_eq!(err("", "x", "x"), StaticIpError::NotConfigured);
    assert_eq!(err("x", "x", "x"), StaticIpError::InvalidAddress);
    assert_eq!(err("1.1.1.1", "x", "x"), StaticIpError::InvalidMask);
    assert_eq!(err("1.1.1.1", "1.1.1.1", "x"), StaticIpError::InvalidGateway);
    assert_eq!(StaticIpError::NotConfigured.message(""), "Static IP address is not configured");
    assert_eq!(StaticIpError::InvalidAddress.message("x"), "Invalid IP address 'x': invalid IPv4 address syntax");
    assert_eq!(StaticIpError::InvalidMask.message("x"), "Invalid subnet mask 'x': invalid IPv4 address syntax");
    assert_eq!(StaticIpError::InvalidGateway.message("x"), "Invalid gateway 'x': invalid IPv4 address syntax");
}

fn told(v: &[WpsCommand]) -> Vec<String> {
    v.iter()
        .map(|c| match c {
            WpsCommand::Show { title, body } => format!("show {}|{}", title, body),
            WpsCommand::Clear => "clear".to_string(),
            WpsCommand::Register => "register".to_string(),
            WpsCommand::Unregister => "unregister".to_string(),
            WpsCommand::Disable => "disable".to_string(),
            WpsCommand::Configure { ssid, password } => format!("configure {} {}", ssid, password),
            WpsCommand::Pause { seconds } => format!("pause {}", seconds),
            WpsCommand::PowerSaveOff => "awake".to_string(),
        })
        .collect()
}

fn event(ssid: &[u8], pass: &[u8]) -> WpsEvent {
    let mut s = ssid.to_vec();
    s.resize(33, 0);
    let mut p = pass.to_vec();
    p.resize(65, 0);
    WpsEvent::Success { ssid: s, passphrase: p }
}

#[test]
fn events_of_the_router() {
    assert_eq!(cut_at_zero(b"ab\0cd"), b"ab");
    assert_eq!(cut_at_zero(b"ab"), b"ab");
    let mut s = WpsState::new();
    s.wps_event_handler(WpsEvent::Other);
    assert!(s.credentials.is_none() && !s.failed);
    s.wps_event_handler(event("caf\u{e9}".as_bytes(), b"p\xffq"));
    assert_eq!(s.credentials, Some(("caf\u{e9}".to_string(), "p\u{fffd}q".to_string())));
    s.wps_event_handler(WpsEvent::TimedOut);
    assert!(s.failed && s.credentials.is_some());
    let mut s = WpsState::new();
    s.wps_event_handler(WpsEvent::Failed);
    assert!(s.failed);
}

#[test]
fn push_button_setup_succeeds() {
    let mut state = WpsState::new();
    let (mut s, v, ask) = WpsSession::begin();
    assert_eq!(told(&v), vec![
        "show WPS MODE|Press WPS button\non your router\nwithin 120 seconds", "register"
    ]);
    assert!(matches!(ask, WpsAsk::Enable));
    assert_eq!(s.status(&ask), WpsStatus::Waiting(120));
    let (v, ask) = s.wifi_connect_wps(0, false, &state);
    assert!(v.is_empty() && matches!(ask, WpsAsk::Start));
    let (v, ask) = s.wifi_connect_wps(0, false, &state);
    assert!(v.is_empty() && matches!(ask, WpsAsk::Second));
    for i in 0..11 {
        let (v, ask) = s.wifi_connect_wps(0, false, &state);
        assert!(matches!(ask, WpsAsk::Second));
        assert_eq!(s.status(&ask), WpsStatus::Waiting(119 - i));
        if i == 10 {
            assert_eq!(told(&v), vec!["show WPS MODE|Press WPS button\non your router\n110 seconds remaining"]);
        } else {
            assert!(v.is_empty());
        }
    }
    state.wps_event_handler(event(b"net", b"pass"));
    let (v, ask) = s.wifi_connect_wps(0, false, &state);
    assert_eq!(told(&v), vec![
        "disable", "unregister", "show WPS SUCCESS|Connecting to\nnet\nPlease wait...", "configure net pass"
    ]);
    assert!(matches!(ask, WpsAsk::Connect));
    assert_eq!(s.status(&ask), WpsStatus::Connecting);
    let (_, ask) = s.wifi_connect_wps(0, false, &state);
    assert!(matches!(ask, WpsAsk::IsConnected));
    let (v, ask) = s.wifi_connect_wps(0, false, &state);
    assert_eq!(told(&v), vec!["pause 1"]);
    assert!(matches!(ask, WpsAsk::IsConnected));
    let (v, ask) = s.wifi_connect_wps(0, true, &state);
    assert_eq!(told(&v), vec!["show CONNECTED|net\nConnection successful!", "pause 3", "awake", "clear"]);
    assert_eq!(s.status(&ask), WpsStatus::Succeeded);
    assert!(matches!(ask, WpsAsk::Done { ssid, password } if ssid == "net" && password == "pass"));
}

fn failure(ask: WpsAsk) -> String {
    match ask {
        WpsAsk::Failed { message } => message,
        _ => panic!("not over"),
    }
}

#[test]
fn push_button_setup_fails() {
    let quiet = WpsState::new();
    let (mut s, _, _) = WpsSession::begin();
    let (v, ask) = s.wifi_connect_wps(-1, false, &quiet);
    assert_eq!(told(&v), vec!["unregister"]);
    assert_eq!(s.status(&ask), WpsStatus::Failed);
    assert_eq!(failure(ask), "[WPS] esp_wifi_wps_enable failed: 0xffffffff");
    let (mut s, _, _) = WpsSession::begin();
    s.wifi_connect_wps(0, false, &quiet);
    let (v, ask) = s.wifi_connect_wps(0x3001, false, &quiet);
    assert_eq!(told(&v), vec!["disable", "unregister"]);
    assert_eq!(failure(ask), "[WPS] esp_wifi_wps_start failed: 0x3001");
}

fn polling() -> WpsSession {
    let quiet = WpsState::new();
    let (mut s, _, _) = WpsSession::begin();
    s.wifi_connect_wps(0, false, &quiet);
    s.wifi_connect_wps(0, false, &quiet);
    s
}

#[test]
fn the_router_refuses_or_keeps_silent() {
    let mut refused = WpsState::new();
    refused.wps_event_handler(event(b"net", b"pass"));
    refused.wps_event_handler(WpsEvent::Failed);
    let (v, ask) = polling().wifi_connect_wps(0, false, &refused);
    assert_eq!(told(&v), vec!["disable", "unregister", "clear"]);
    assert_eq!(failure(ask), "[WPS] WPS failed or timed out by AP at 0s");
    let quiet = WpsState::new();
    let mut s = polling();
    let mut shown = 0;
    for _ in 0..119 {
        let (v, ask) = s.wifi_connect_wps(0, false, &quiet);
        assert!(matches!(ask, WpsAsk::Second));
        shown += v.len();
    }
    assert_eq!(shown, 11);
    let (v, ask) = s.wifi_connect_wps(0, false, &quiet);
    assert_eq!(told(&v), vec!["disable", "unregister", "clear"]);
    assert_eq!(failure(ask), "[WPS] WPS timed out after 120 s");
}

#[test]
fn credentials_of_the_router_do_not_work() {
    let mut long = WpsState::new();
    long.accept("s".repeat(33), "p".to_string());
    assert_eq!(failure(polling().wifi_connect_wps(0, false, &long).1), "WPS SSID too long");
    let mut long = WpsState::new();
    long.accept("s".to_string(), "p".repeat(65));
    assert_eq!(failure(polling().wifi_connect_wps(0, false, &long).1), "WPS passphrase too long");
    let mut state = WpsState::new();
    state.accept("net".to_string(), "pass".to_string());
    let mut s = polling();
    s.wifi_connect_wps(0, false, &state);
    assert!(matches!(s.wifi_connect_wps(0x102, false, &state).1, WpsAsk::ConnectFailed { code: 0x102 }));
    // A connection that takes too long ends the setup all the same.
    let mut s = polling();
    s.wifi_connect_wps(0, false, &state);
    s.wifi_connect_wps(0, false, &state);
    for _ in 0..14 {
        assert!(matches!(s.wifi_connect_wps(0, false, &state).1, WpsAsk::IsConnected));
    }
    let (v, ask) = s.wifi_connect_wps(0, false, &state);
    assert_eq!(told(&v), vec!["pause 1"]);
    assert!(matches!(ask, WpsAsk::Done { .. }));
}

#[test]
fn what_settings_ask_for() {
    let s = startup(&settings(&[
        ("display_enable", "true"),
        ("wps_enable", "true"),
        ("ip_mode", "static"),
        ("com1_tx_pin", "43"),
        ("com1_baud", "9600"),
        ("com2_rx_pin", "-1"),
        ("com2_baud", "fast"),
        ("cdc_baud", "4294967296"),
        ("cdc_retry_enable", "true"),
    ]));
    assert!(s.display && s.wps && s.static_ip);
    assert!(!s.mini_display && !s.syslog && !s.pwm && !s.cdc);
    assert_eq!(s.com1, UartSettings { tx_pin: 43, rx_pin: 18, baud: 9600 });
    assert_eq!(s.com2, UartSettings { tx_pin: 19, rx_pin: -1, baud: 115200 });
    assert_eq!(s.cdc_baud, 115200);
    assert_eq!(s.cdc_retry, Some(5));
    let s = startup(&settings(&[
        ("wps_enable", "true"),
        ("wifi_ssid", "net"),
        ("cdc_retry_enable", "true"),
        ("cdc_retry_interval", "7"),
    ]));
    assert!(!s.wps);
    assert_eq!(s.cdc_retry, Some(7));
    assert_eq!(startup(&settings(&[("cdc_retry_interval", "7")])).cdc_retry, None);
}

#[test]
fn after_push_button_setup() {
    match after_wps(Some(("net".to_string(), "pass".to_string()))) {
        AfterWps::SaveAndRestart(plan) => {
            assert!(plan.complete);
            assert_eq!(plan.writes[0], ("wifi_ssid".to_string(), "net".to_string()));
            assert_eq!(plan.writes[1], ("wifi_psk".to_string(), "pass".to_string()));
        }
        AfterWps::UseStored => panic!("credentials were lost"),
    }
    assert!(matches!(after_wps(None), AfterWps::UseStored));
}

#[test]
fn setting_the_clock() {
    let v = ntp_servers(&settings(&[("ntp_server1", "a"), ("ntp_server4", "d")]));
    assert_eq!(v, ["a", "", "", "d"]);
    assert_eq!(ntp_step(true, 2000), NtpStep::Synced);
    assert_eq!(ntp_step(false, 999), NtpStep::Wait);
    assert_eq!(ntp_step(false, 1000), NtpStep::GiveUp);
}

#[test]
fn turns_of_the_main_loop() {
    assert_eq!(
        main_tick(0, false),
        Tick { measure: true, reconnect: true, read_rssi: false, read_ip: false, next: 1 }
    );
    assert_eq!(
        main_tick(50, true),
        Tick { measure: true, reconnect: false, read_rssi: true, read_ip: false, next: 51 }
    );
    assert_eq!(
        main_tick(60, true),
        Tick { measure: false, reconnect: false, read_rssi: true, read_ip: true, next: 61 }
    );
    assert_eq!(main_tick(u32::MAX, true).next, 0);
}

#[test]
fn duties_in_timer_values() {
    assert_eq!(raw_duty(0, 16383), 0);
    assert_eq!(raw_duty(50, 16383), 8191);
    assert_eq!(raw_duty(100, 16383), 16383);
}
