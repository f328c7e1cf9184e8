use ssh_serial_bridge::forms::{
    chk, esc, generate_token, get_session_from_cookie_header, is_auth, parse_form, parse_ws_port, sel, url_decode,
};
use ssh_serial_bridge::gpio_ctrl::GpioPwmState;
use ssh_serial_bridge::httpserver::{
    apply_form, asset_type, body_length, endpoint, login_page, saved_reply, ws_command, ws_connect, ws_frame,
    ConfigState, Endpoint, Frame, Live, Response, ASSET_CACHE,
};
use ssh_serial_bridge::nvs_config::{
    config_keys, load_config, nvs_write_all, nvs_write_wifi_creds, read_stored, saved, NvsConfig, NVS_NS,
};
use ssh_serial_bridge::pages::{build_config_html, build_gpio_html, build_terminal_html, APP_VERSION, LOGIN_HTML};
use ssh_serial_bridge::serial_display::{DisplayState, PAGE_COM1, PAGE_COM2};
use ssh_serial_bridge::status::{Heat, StatusInfo};
use ssh_serial_bridge::syslogger::{LevelFilter, SysLogger};
use ssh_serial_bridge::text_map::TextMap;
use ssh_serial_bridge::usb_host::{Bridge, DEVICE_COM1, DEVICE_COM2, DEVICE_USB0};
use ssh_serial_bridge::wps::WpsStatus;
use ssh_serial_bridge::ws::{Listeners, Rings};

fn defaults() -> NvsConfig {
    let s = |t: &str| t.to_string();
    NvsConfig {
        wifi_ssid: s("home"),
        wifi_psk: s("secret"),
        ip_mode: s("dhcp"),
        ip_address: s(""),
        subnet_mask: s("255.255.255.0"),
        gateway: s(""),
        dns: s(""),
        syslog_server: s(""),
        syslog_enable: s("false"),
        syslog_host_name: s("esp32"),
        syslog_app_name: s("app"),
        ssh_user: s("admin"),
        ssh_password: s("esp32"),
        com1_tx_pin: s("17"),
        com1_rx_pin: s("18"),
        com1_baud: s("115200"),
        com2_tx_pin: s("19"),
        com2_rx_pin: s("20"),
        com2_baud: s("115200"),
        cdc_enable: s("true"),
        cdc_baud: s("115200"),
        cdc_retry_enable: s("true"),
        cdc_retry_interval: s("5"),
        display_enable: s("true"),
        display_port: s("com1"),
        mini_display_enable: s("false"),
        wps_enable: s("false"),
        pwm_enable: s("true"),
        ntp_server1: s("time.aws.com"),
        ntp_server2: s("time.google.com"),
        ntp_server3: s("time.cloudflare.com"),
        ntp_server4: s("ntp.nict.jp"),
    }
}

fn stored(pairs: &[(&str, &str)]) -> TextMap {
    let mut m = TextMap::new();
    for (k, v) in pairs {
        m.insert(k.to_string(), v.to_string());
    }
    m
}

fn site() -> ConfigState {
    ConfigState::new(defaults(), defaults(), StatusInfo::new(), GpioPwmState::new())
}

fn live() -> Live {
    Live { bridge: Bridge::new(), display: DisplayState::new(), logger: None }
}

const COOKIE: &str = "session=00000001000000020000000300000004";

fn open_site() -> ConfigState {
    let mut s = site();
    s.login_with("username=admin&password=esp32", [1, 2, 3, 4]);
    s
}

fn header<'a>(r: &'a Response, name: &str) -> Option<&'a str> {
    r.headers.iter().find(|h| h.0 == name).map(|h| h.1.as_str())
}

#[test]
fn percent_decoding() {
    assert_eq!(url_decode("a+b%20c%2Bd"), "a b c+d");
    assert_eq!(url_decode("100%"), "100%");
    assert_eq!(url_decode("%4"), "%4");
    assert_eq!(url_decode("%zz1"), "%zz1");
    assert_eq!(url_decode("%c3%A9"), "\u{c3}\u{a9}");
    assert_eq!(url_decode("\u{e9}"), "\u{c3}\u{a9}");
    // A plus sign passes for the first digit of a number.
    assert_eq!(url_decode("%+A"), "\n");
    assert_eq!(url_decode("%-A"), "%-A");
    // An escape needs both of its digits.
    assert_eq!(url_decode("%41"), "A");
    assert_eq!(url_decode(""), "");
}

#[test]
fn every_byte_decodes_from_its_escape() {
    for b in 0..=255u8 {
        assert_eq!(url_decode(&format!("%{:02X}", b)), (b as char).to_string());
        assert_eq!(url_decode(&format!("%{:02x}", b)), (b as char).to_string());
    }
}

#[test]
fn form_bodies() {
    let m = parse_form("a=1&b=x%3Dy=z&c&=e&a=2");
    assert_eq!(m.get("a"), Some("2".to_string()));
    assert_eq!(m.get("b"), Some("x=y=z".to_string()));
    assert_eq!(m.get("c"), None);
    assert_eq!(m.get(""), Some("e".to_string()));
    assert_eq!(parse_form("").get(""), None);
}

#[test]
fn session_cookies() {
    let get = |h: &str| get_session_from_cookie_header(Some(h));
    assert_eq!(get("session=abc"), Some("abc".to_string()));
    assert_eq!(get("theme=dark; session=abc; x=y"), Some("abc".to_string()));
    assert_eq!(get("xsession=abc"), None);
    assert_eq!(get("session=a; session=b"), Some("a".to_string()));
    assert_eq!(get_session_from_cookie_header(None), None);
    assert!(is_auth(Some("session=abc"), &Some("abc".to_string())));
    assert!(!is_auth(Some("session=abd"), &Some("abc".to_string())));
    assert!(!is_auth(None, &Some("abc".to_string())));
    assert!(!is_auth(Some("session=abc"), &None));
}

#[test]
fn tokens_are_hexadecimal() {
    assert_eq!(generate_token([0xdeadbeef, 1, 0, u32::MAX]), "deadbeef0000000100000000ffffffff");
}

#[test]
fn text_in_pages() {
    assert_eq!(esc("a&b<\"c\">"), "a&amp;b&lt;&quot;c&quot;&gt;");
    assert_eq!(esc("&amp;"), "&amp;amp;");
    assert_eq!(sel("com1", "com1"), "selected");
    assert_eq!(sel("com1", "com2"), "");
    assert_eq!(chk("true", "true"), "checked");
    assert_eq!(chk("true", "false"), "");
}

#[test]
fn terminal_commands() {
    let port = |m: &str| parse_ws_port(m);
    assert_eq!(port(r#"{"cmd":"init","port":"com1"}"#), Some("com1".to_string()));
    assert_eq!(port(r#"{"port" : "usb"}"#), Some("usb0".to_string()));
    assert_eq!(port(r#"{"port":"usb3"}"#), Some("usb3".to_string()));
    assert_eq!(port(r#"{"port":"usb4"}"#), None);
    assert_eq!(port(r#"{"port":"com1"#), None);
    assert_eq!(port(r#"{"port":"#), None);
    assert_eq!(port("hello"), None);
}

#[test]
fn settings_come_from_storage_first() {
    let m = stored(&[("wifi_ssid", "office"), ("dns", ""), ("syslog_hostname", "box"), ("other", "x")]);
    let c = load_config(&defaults(), &m);
    assert_eq!(c.wifi_ssid, "office");
    assert_eq!(c.dns, "");
    assert_eq!(c.syslog_host_name, "box");
    assert_eq!(c.com1_baud, "115200");
    assert_eq!(NVS_NS, "usbotg_cfg");
    assert_eq!(config_keys().len(), 32);
}

#[test]
fn what_is_saved_is_loaded() {
    let mut c = defaults();
    c.wifi_ssid = "office".to_string();
    c.ntp_server4 = "pool.ntp.org".to_string();
    c.gateway = String::new();
    c.mini_display_enable = "true".to_string();
    let plan = nvs_write_all(&c);
    assert!(plan.complete);
    assert_eq!(plan.writes.len(), 29);
    assert_eq!(plan.writes[0], ("wifi_ssid".to_string(), "office".to_string()));
    assert_eq!(plan.writes[9].0, "syslog_hostname");
    let raw = plan.writes.iter().map(|(k, v)| (k.clone(), [v.as_bytes(), b"\0"].concat())).collect();
    let mut d = defaults();
    d.gateway = "10.0.0.1".to_string();
    let back = load_config(&d, &read_stored(raw));
    assert_eq!(back.wifi_ssid, "office");
    assert_eq!(back.ntp_server4, "pool.ntp.org");
    // An empty setting falls back to its default, and this one is not saved.
    assert_eq!(back.gateway, "10.0.0.1");
    assert_eq!(back.mini_display_enable, "false");
    // Erased storage gives the defaults.
    assert_eq!(load_config(&d, &TextMap::new()).gateway, "10.0.0.1");
}

#[test]
fn unreadable_entries_do_not_count() {
    let m = read_stored(vec![
        ("wifi_ssid".to_string(), vec![0xff, 0]),
        ("dns".to_string(), b"1.1.1.1\0".to_vec()),
    ]);
    let c = load_config(&defaults(), &m);
    assert_eq!(c.wifi_ssid, "home");
    assert_eq!(c.dns, "1.1.1.1");
}

#[test]
fn values_with_nul_are_not_written() {
    let p = nvs_write_wifi_creds("a\0b", "pass");
    assert!(!p.complete);
    assert_eq!(p.writes, vec![("wifi_psk".to_string(), "pass".to_string())]);
    let p = nvs_write_wifi_creds("net", "pass");
    assert!(p.complete);
    assert_eq!(p.writes.len(), 2);
}

#[test]
fn configuration_page_is_filled() {
    let mut c = defaults();
    c.wifi_ssid = "\"x\"<y>".to_string();
    c.display_port = "com2".to_string();
    let html = build_config_html(&c);
    assert!(html.starts_with("<!DOCTYPE html><html lang=\"ja\"><head>\n<meta charset=\"UTF-8\">"));
    assert!(html.ends_with("</script>\n</body></html>"));
    assert!(html.contains("name=\"wifi_ssid\" value=\"&quot;x&quot;&lt;y&gt;\" maxlength=\"32\""));
    assert!(html.contains("<option value=\"com1\" >COM1</option>"));
    assert!(html.contains("<option value=\"com2\" selected>COM2</option>"));
    assert!(html.contains("name=\"ip_mode\" value=\"dhcp\" checked onchange"));
    assert!(html.contains("name=\"pwm_enable\" value=\"true\" checked>"));
    assert!(html.contains("name=\"pwm_enable\" value=\"false\" >"));
    assert!(html.contains("name=\"ntp_server4\" value=\"ntp.nict.jp\""));
    assert!(html.contains("<span style=\"font-size:.6em;color:#94a3b8\">v0.1.1</span>"));
    assert!(html.contains("*{box-sizing:border-box;margin:0;padding:0}\n"));
    assert!(!html.contains("{{"));
    assert!(!html.contains("{wifi_psk}"));
    assert_eq!(APP_VERSION, "0.1.1");
}

#[test]
fn output_page_is_filled() {
    let html = build_gpio_html([true, false, false, false, false, false, true], [0, 42]);
    assert!(html.contains(
        "<tr><td class=\"pin-label\">GPIO 4</td><td><label class=\"sw\"><input type=\"checkbox\" id=\"g0\" checked \
         onchange=\"setGpio(0,this.checked)\"><span class=\"slider\"></span></label></td><td><span id=\"gs0\" \
         class=\"badge badge-ok\">ON</span></td></tr><tr><td class=\"pin-label\">GPIO 5</td>"
    ));
    assert!(html.contains("id=\"g1\"  onchange=\"setGpio(1,this.checked)\""));
    assert!(html.contains("<span id=\"gs1\" class=\"badge badge-err\">OFF</span>"));
    assert!(html.contains("<td class=\"pin-label\">DCPOWER</td>"));
    assert!(html.contains("<span id=\"gs6\" class=\"badge badge-ok\">ON</span>"));
    assert!(html.contains(
        "<td class=\"pin-label\">GPIO 11</td><td><input type=\"range\" min=\"0\" max=\"100\" value=\"42\" \
         class=\"range-input\"id=\"p1\" oninput=\"updatePwmLabel(1,this.value)\" \
         onchange=\"setPwm(1,this.value)\"></td><td><span id=\"pl1\" class=\"duty-label\">42%</span></td></tr></table>"
    ));
    assert!(html.starts_with("<!DOCTYPE html><html lang=\"ja\"><head>\n"));
    assert!(html.ends_with("setInterval(refreshState,2000);\n</script>\n</body></html>"));
    assert!(!html.contains("{{"));
}

#[test]
fn fixed_pages() {
    assert!(LOGIN_HTML.contains("<form method=\"POST\" action=\"/login\"><label>Username</label>"));
    assert!(build_terminal_html().contains("ws.send(JSON.stringify({cmd: 'init', port: port}));"));
    let r = login_page();
    assert_eq!((r.status, r.reason, r.body.as_str()), (200, Some("OK"), LOGIN_HTML));
    assert!(r.headers.is_empty());
}

#[test]
fn routes() {
    assert_eq!(endpoint(false, "/login"), Some(Endpoint::LoginPage));
    assert_eq!(endpoint(true, "/login"), Some(Endpoint::Login));
    assert_eq!(endpoint(false, "/logout"), Some(Endpoint::Logout));
    assert_eq!(endpoint(false, "/"), Some(Endpoint::ConfigPage));
    assert_eq!(endpoint(true, "/"), None);
    assert_eq!(endpoint(true, "/api/config"), Some(Endpoint::SaveConfig));
    assert_eq!(endpoint(false, "/api/config"), None);
    assert_eq!(endpoint(false, "/api/status"), Some(Endpoint::Status));
    assert_eq!(endpoint(true, "/api/reset"), Some(Endpoint::Reset));
    assert_eq!(endpoint(true, "/api/reboot"), Some(Endpoint::Reboot));
    assert_eq!(endpoint(false, "/gpio"), Some(Endpoint::GpioPage));
    assert_eq!(endpoint(false, "/api/gpio_state"), Some(Endpoint::GpioState));
    assert_eq!(endpoint(true, "/api/gpio"), Some(Endpoint::SetGpio));
    assert_eq!(endpoint(true, "/api/pwm"), Some(Endpoint::SetPwm));
    assert_eq!(endpoint(false, "/terminal"), Some(Endpoint::TerminalPage));
    assert_eq!(endpoint(false, "/static/xterm.js"), Some(Endpoint::TerminalScript));
    assert_eq!(endpoint(false, "/static/xterm.css"), Some(Endpoint::TerminalStyle));
    assert_eq!(endpoint(false, "/static/xterm-addon-fit.js"), Some(Endpoint::TerminalFit));
    assert_eq!(endpoint(false, "/api/boot_log"), Some(Endpoint::BootLog));
    assert_eq!(asset_type(Endpoint::TerminalStyle), "text/css");
    assert_eq!(asset_type(Endpoint::TerminalFit), "application/javascript");
    assert_eq!(ASSET_CACHE, "public, max-age=86400");
}

#[test]
fn bodies_are_cut() {
    assert_eq!(body_length(Endpoint::Login, 600), 512);
    assert_eq!(body_length(Endpoint::Login, 10), 10);
    assert_eq!(body_length(Endpoint::SaveConfig, u64::MAX), 4096);
    assert_eq!(body_length(Endpoint::SetGpio, 65), 64);
    assert_eq!(body_length(Endpoint::SetPwm, 64), 64);
    assert_eq!(body_length(Endpoint::Reboot, 9), 0);
}

#[test]
fn login_and_logout() {
    let mut s = site();
    assert!(!s.is_allowed(Some(COOKIE)));
    let r = s.login(b"username=admin&password=wrong", [1, 2, 3, 4]);
    assert_eq!((r.status, header(&r, "Location")), (302, Some("/login?error=1")));
    assert_eq!(header(&r, "Set-Cookie"), None);
    assert!(!s.is_allowed(Some(COOKIE)));
    let r = s.login(b"username=adm%69n&password=esp32", [1, 2, 3, 4]);
    assert_eq!((r.status, r.reason, header(&r, "Location")), (302, Some("Found"), Some("/")));
    assert_eq!(
        header(&r, "Set-Cookie"),
        Some("session=00000001000000020000000300000004; Path=/; HttpOnly; SameSite=Strict")
    );
    assert!(s.is_allowed(Some(COOKIE)));
    // A new login ends the session before it.
    s.login(b"username=admin&password=esp32", [5, 6, 7, 8]);
    assert!(!s.is_allowed(Some(COOKIE)));
    assert!(s.is_allowed(Some("session=00000005000000060000000700000008")));
    let r = s.logout();
    assert_eq!(header(&r, "Set-Cookie"), Some("session=; Path=/; Max-Age=0"));
    assert_eq!(header(&r, "Location"), Some("/login"));
    assert!(!s.is_allowed(Some("session=00000005000000060000000700000008")));
}

#[test]
fn undecodable_bytes_in_a_body() {
    let mut s = site();
    s.config.ssh_user = "\u{ef}\u{bf}\u{bd}".to_string();
    // A byte that is no UTF-8 is replaced before the form is read.
    let r = s.login(b"username=\xff&password=esp32", [1, 2, 3, 4]);
    assert_eq!(header(&r, "Location"), Some("/"));
}

#[test]
fn pages_need_the_session() {
    let s = open_site();
    for r in [s.config_page(None), s.gpio_page(None), s.terminal_page(None)] {
        assert_eq!((r.status, header(&r, "Location")), (302, Some("/login")));
        assert_eq!(r.body, "");
    }
    let r = s.config_page(Some(COOKIE));
    assert_eq!((r.status, header(&r, "Content-Type")), (200, Some("text/html; charset=UTF-8")));
    assert_eq!(r.body, build_config_html(&defaults()));
    assert_eq!(s.gpio_page(Some(COOKIE)).body, build_gpio_html([false; 7], [0, 0]));
    let r = s.terminal_page(Some(COOKIE));
    assert_eq!(header(&r, "Content-Type"), Some("text/html; charset=utf-8"));
    assert_eq!(r.body, build_terminal_html());
}

#[test]
fn data_needs_the_session() {
    let mut s = open_site();
    let mut l = live();
    let b = Bridge::new();
    let mut refused = vec![
        s.status_reply(None, &b),
        s.gpio_state(None),
        s.boot_log_reply(None, "#1 PowerOn"),
        s.set_gpio(None, b"index=0&value=1"),
        s.set_pwm(None, b"index=0&duty=9"),
    ];
    let (r, erase) = s.reset(None);
    assert!(!erase);
    refused.push(r);
    let (r, restart) = s.reboot(None);
    assert!(!restart);
    refused.push(r);
    refused.push(s.save_config(None, b"wifi_ssid=x", &mut l, true).err().unwrap());
    for r in refused {
        assert_eq!((r.status, r.reason, r.body.as_str()), (401, None, "Unauthorized"));
    }
    assert_eq!(s.config.wifi_ssid, "home");
    assert_eq!(s.gpio_pwm.get_gpio(), [false; 7]);
    assert_eq!(s.gpio_pwm.get_pwm(), [0, 0]);
    assert!(s.is_allowed(Some(COOKIE)));
}

#[test]
fn status_as_json() {
    let mut s = open_site();
    s.status.set_wifi("192.168.2.200", "my \"net\"", -61);
    s.status.set_voltages("12.30", "5.00");
    s.status.set_chip_temp("41.2", Heat::Normal);
    let mut b = Bridge::new();
    b.cdc_enabled = true;
    b.cdc_connected = true;
    b.cdc_vid = 0x10c4;
    b.cdc_pid = 0xea60;
    b.cdc_port_count = 1;
    b.active_device = DEVICE_USB0;
    let r = s.status_reply(Some(COOKIE), &b);
    assert_eq!(header(&r, "Content-Type"), Some("application/json"));
    assert_eq!(
        r.body,
        r#"{"ip":"192.168.2.200","ssid":"my &quot;net&quot;","rssi":-61,"dc_in_voltage":12.30,"dc_out_voltage":5.00,"chip_temp":41.2,"cdc_enabled":true,"usb_connected":true,"usb_vid":"0x10C4","usb_pid":"0xEA60","usb_device":"CP210x","usb_ports":1,"active_device":"usb0","display_port":"com1","version":"0.1.1"}"#
    );
}

#[test]
fn outputs_over_the_web() {
    let mut s = open_site();
    let r = s.set_gpio(Some(COOKIE), b"index=6&value=1");
    assert_eq!(r.body, r#"{"gpio":[0,0,0,0,0,0,1],"pwm":[0,0]}"#);
    s.set_gpio(Some(COOKIE), b"index=0&value=true");
    s.set_gpio(Some(COOKIE), b"index=7&value=1");
    s.set_gpio(Some(COOKIE), b"index=-1&value=1");
    s.set_gpio(Some(COOKIE), b"index=1&value=on");
    // The answer to a duty lists six outputs.
    let r = s.set_pwm(Some(COOKIE), b"index=1&duty=55");
    assert_eq!(r.body, r#"{"gpio":[1,0,0,0,0,0],"pwm":[0,55]}"#);
    s.set_pwm(Some(COOKIE), b"index=0&duty=200");
    s.set_pwm(Some(COOKIE), b"index=0&duty=256");
    s.set_pwm(Some(COOKIE), b"index=2&duty=1");
    s.set_pwm(Some(COOKIE), b"duty=1");
    assert_eq!(s.gpio_state(Some(COOKIE)).body, r#"{"gpio":[1,0,0,0,0,0,1],"pwm":[100,55]}"#);
}

#[test]
fn saving_settings() {
    let mut s = open_site();
    let mut l = live();
    l.logger = Some(SysLogger {
        level_filter: LevelFilter::Info,
        server_addr: "10.0.0.1:514".to_string(),
        host_name: "esp32".to_string(),
        app_name: "app".to_string(),
    });
    let body = b"wifi_ssid=my+net&display_port=com2&syslog_hostname=box&syslog_app_name=bridge&display_enable=false";
    let plan = s.save_config(Some(COOKIE), body, &mut l, true).ok().unwrap();
    assert!(plan.complete);
    assert!(plan.writes.contains(&("wifi_ssid".to_string(), "my net".to_string())));
    assert!(plan.writes.contains(&("display_enable".to_string(), "true".to_string())));
    assert_eq!(s.config.wifi_ssid, "my net");
    assert_eq!(s.config.wifi_psk, "secret");
    assert_eq!(l.bridge.display_port, DEVICE_COM2);
    assert_eq!(l.display.current_page(), PAGE_COM2);
    let log = l.logger.as_ref().unwrap();
    assert_eq!((log.host_name.as_str(), log.app_name.as_str()), ("box", "bridge"));
    assert_eq!(log.server_addr, "10.0.0.1:514");
    // With the logger not to be locked, the names in the log stay.
    s.save_config_with(Some(COOKIE), "syslog_hostname=other", &mut l, false).ok().unwrap();
    assert_eq!(l.logger.as_ref().unwrap().host_name, "box");
    assert_eq!(s.config.syslog_host_name, "other");
    let r = saved_reply(true);
    assert_eq!((r.status, r.body.as_str()), (200, "Settings saved. Reboot to apply."));
    let r = saved_reply(false);
    assert_eq!((r.status, r.reason, r.body.as_str()), (500, None, "NVS write error"));
}

#[test]
fn a_form_changes_what_it_names() {
    let mut c = defaults();
    apply_form(&parse_form("ntp_server2=a&cdc_retry_enable=false&mini_display_enable=true&dns="), &mut c);
    assert_eq!(c.ntp_server2, "a");
    assert_eq!(c.dns, "");
    assert_eq!(c.cdc_retry_enable, "true");
    assert_eq!(c.mini_display_enable, "false");
}

#[test]
fn reset_and_reboot() {
    let mut s = open_site();
    s.config.wifi_ssid = "elsewhere".to_string();
    let (r, erase) = s.reset(Some(COOKIE));
    assert!(erase);
    assert_eq!(r.body, "Reset to defaults. NVS erased.");
    assert_eq!(s.config.wifi_ssid, "home");
    let (r, restart) = s.reboot(Some(COOKIE));
    assert!(restart);
    assert_eq!(r.body, "Rebooting...");
    assert!(!s.is_allowed(Some(COOKIE)));
}

#[test]
fn boot_log_as_json() {
    let s = open_site();
    let log = |t: &str| s.boot_log_reply(Some(COOKIE), t).body;
    assert_eq!(log(""), r#"{"entries":[]}"#);
    assert_eq!(log("#2 Software\n#1 PowerOn"), r##"{"entries":["#2 Software","#1 PowerOn"]}"##);
    assert_eq!(log("a\"b"), r#"{"entries":["a\"b"]}"#);
}

#[test]
fn terminals_choose_their_port() {
    let mut listeners = Listeners::new();
    let mut queues = Rings::new();
    listeners.open_session(7, true);
    listeners.open_session(8, true);
    assert!(ws_command(&mut listeners, 7, r#"{"cmd":"init","port":"com1"}"#));
    assert!(!ws_command(&mut listeners, 7, "nonsense"));
    assert_eq!(listeners.sessions(DEVICE_COM1), vec![7]);
    assert!(!ws_frame(&mut listeners, &mut queues, 7, Frame::Binary, b"ls\n"));
    assert_eq!(queues.drain(DEVICE_COM1), b"ls\n");
    // Another port replaces the first one.
    assert!(ws_frame(&mut listeners, &mut queues, 7, Frame::Text, br#"{"port":"usb2"}"#));
    assert!(listeners.sessions(DEVICE_COM1).is_empty());
    assert_eq!(listeners.sessions(DEVICE_USB0), vec![7]);
    ws_frame(&mut listeners, &mut queues, 7, Frame::Binary, b"x");
    assert_eq!(queues.drain(DEVICE_USB0), b"x");
    // Nothing from a session without a port, an empty message or another kind of frame.
    ws_frame(&mut listeners, &mut queues, 8, Frame::Binary, b"y");
    assert!(!ws_frame(&mut listeners, &mut queues, 7, Frame::Text, b""));
    assert!(!ws_frame(&mut listeners, &mut queues, 7, Frame::Other, br#"{"port":"com2"}"#));
    assert!(queues.drain(DEVICE_COM1).is_empty());
    assert_eq!(listeners.ws_port_for_fd(7), "usb");
}

#[test]
fn terminals_need_the_session() {
    let s = open_site();
    assert!(s.ws_open(Some(COOKIE)));
    assert!(!s.ws_open(None) && !s.ws_open(Some("session=1")));
    let mut listeners = Listeners::new();
    let mut queues = Rings::new();
    let init = br#"{"cmd":"init","port":"com1"}"#;
    // Without the session: no port and no bytes.
    assert!(!ws_connect(&s, &mut listeners, 7, None));
    assert!(!ws_frame(&mut listeners, &mut queues, 7, Frame::Text, init));
    assert!(!ws_frame(&mut listeners, &mut queues, 7, Frame::Binary, b"rm\n"));
    assert!(listeners.sessions(DEVICE_COM1).is_empty());
    assert!(queues.drain(DEVICE_COM1).is_empty());
    // With it: both, also after others were refused.
    assert!(ws_connect(&s, &mut listeners, 8, Some(COOKIE)));
    assert!(ws_frame(&mut listeners, &mut queues, 8, Frame::Text, init));
    ws_frame(&mut listeners, &mut queues, 8, Frame::Binary, b"ls\n");
    assert_eq!(queues.drain(DEVICE_COM1), b"ls\n");
    // A descriptor that is used again starts anew.
    assert!(!ws_connect(&s, &mut listeners, 8, Some("session=1")));
    assert!(!listeners.is_admitted(8));
    assert!(listeners.sessions(DEVICE_COM1).is_empty());
    assert!(!ws_frame(&mut listeners, &mut queues, 8, Frame::Text, init));
    // Who went away is admitted no longer.
    assert!(ws_connect(&s, &mut listeners, 9, Some(COOKIE)));
    listeners.leave_all(9);
    assert!(!ws_command(&mut listeners, 9, r#"{"port":"com2"}"#));
}

#[test]
fn push_button_setup_from_the_browser() {
    assert_eq!(endpoint(true, "/api/wps"), Some(Endpoint::StartWps));
    assert_eq!(endpoint(false, "/api/wps"), Some(Endpoint::WpsStatus));
    let mut s = open_site();
    assert_eq!(s.start_wps(None).status, 401);
    assert_eq!(s.wps_reply(None).status, 401);
    assert!(!s.take_wps_request());
    assert_eq!(s.wps_reply(Some(COOKIE)).body, r#"{"wps":"idle","seconds":0}"#);
    let r = s.start_wps(Some(COOKIE));
    assert_eq!(r.body, "WPS started. Press the WPS button on your router within 120 seconds.");
    assert_eq!(s.wps_reply(Some(COOKIE)).body, r#"{"wps":"requested","seconds":0}"#);
    assert_eq!(s.start_wps(Some(COOKIE)).body, "WPS is already running.");
    // One request starts it once.
    assert!(s.take_wps_request());
    assert!(!s.take_wps_request());
    assert_eq!(s.wps_reply(Some(COOKIE)).body, r#"{"wps":"waiting","seconds":120}"#);
    assert_eq!(s.start_wps(Some(COOKIE)).body, "WPS is already running.");
    s.wps = WpsStatus::Connecting;
    assert_eq!(s.wps_reply(Some(COOKIE)).body, r#"{"wps":"connecting","seconds":0}"#);
    s.wps = WpsStatus::Succeeded;
    assert_eq!(s.wps_reply(Some(COOKIE)).body, r#"{"wps":"succeeded","seconds":0}"#);
    s.wps = WpsStatus::Failed;
    assert_eq!(s.wps_reply(Some(COOKIE)).body, r#"{"wps":"failed","seconds":0}"#);
    s.start_wps(Some(COOKIE));
    assert_eq!(s.wps, WpsStatus::Requested);
    let page = build_config_html(&defaults());
    assert!(page.contains("Start WPS") && page.contains("fetch('/api/wps', {method: 'POST'})"));
}

#[test]
fn saved_means_everything() {
    let plan = nvs_write_wifi_creds("net", "pass");
    assert!(saved(&plan, Some(&[true, true])));
    assert!(!saved(&plan, Some(&[true, false])));
    assert!(!saved(&plan, Some(&[false, true])));
    assert!(!saved(&plan, Some(&[true])));
    assert!(!saved(&plan, None));
    let plan = nvs_write_wifi_creds("a\0b", "pass");
    assert!(!saved(&plan, Some(&[true])));
}

#[test]
fn escaping_can_be_undone() {
    assert_eq!(esc("&lt;"), "&amp;lt;");
    assert_eq!(esc("<\"&>"), "&lt;&quot;&amp;&gt;");
    let back = |t: &str| t.replace("&quot;", "\"").replace("&lt;", "<").replace("&gt;", ">").replace("&amp;", "&");
    for t in ["&lt;", "a&amp;b", "<a href=\"x\">", "&&", ""] {
        assert_eq!(back(&esc(t)), t);
    }
}

#[test]
fn display_page_survives_an_unknown_port() {
    let mut s = open_site();
    let mut l = live();
    s.save_config(Some(COOKIE), b"display_port=usb9", &mut l, true).ok().unwrap();
    assert_eq!(l.bridge.display_port, DEVICE_COM1);
    assert_eq!(l.display.current_page(), PAGE_COM1);
}
