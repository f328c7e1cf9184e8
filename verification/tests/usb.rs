use ssh_serial_bridge::gpio_ctrl::GpioPwmState;
use ssh_serial_bridge::serial_display::{DisplayState, SerialRxBuffer, PAGE_USB};
use ssh_serial_bridge::usb_device::{Action, DeviceSetup, Reply};
use ssh_serial_bridge::usb_host::{
    chip_name, device_name, ftdi_port_count, ssh_gpio_set, ssh_pwm_set, usb_port_device_id, Bridge, ClientEvent,
    WriteTarget, DEVICE_COM1, DEVICE_COM2, DEVICE_NONE, DEVICE_USB0, DEVICE_USB1, DEVICE_USB2, DEVICE_USB3,
};
use ssh_serial_bridge::usb_setup::{
    cdc_acm_init, cp210x_init, ctrl_result, ctrl_step, find_all_bulk_eps, ftdi_baud_to_divisor, ftdi_init,
    init_requests, line_coding, pl2303_init, pl2303_vendor_read, BulkEndpoints, ControlRequest, CtrlStep,
};
use ssh_serial_bridge::ws::{device_for_port, Listeners, Ring, Rings, WS_RING_CAP};

fn interface(n: u8) -> Vec<u8> {
    vec![9, 4, n, 0, 2, 0xff, 0, 0, 0]
}

fn endpoint(addr: u8, attr: u8, mps: u16) -> Vec<u8> {
    vec![7, 5, addr, attr, (mps & 0xff) as u8, (mps >> 8) as u8, 0]
}

fn config(ports: u8) -> Vec<u8> {
    let mut d = vec![9, 2, 0, 0, ports, 1, 0, 0x80, 50];
    for i in 0..ports {
        d.extend(interface(i));
        d.extend(endpoint(0x81 + i, 2, 64));
        d.extend(endpoint(0x02 + i, 2, 64));
    }
    d
}

#[test]
fn queues_keep_the_newest_bytes() {
    let mut r = Ring::new();
    let data: Vec<u8> = (0..5000u32).map(|i| i as u8).collect();
    r.push(&data[..3000]);
    r.push(&data[3000..]);
    assert_eq!(r.take_all(), data[5000 - WS_RING_CAP..]);
    assert!(r.take_all().is_empty());
}

#[test]
fn one_queue_per_kind_of_port() {
    let mut q = Rings::new();
    q.ws_enqueue(DEVICE_COM1, b"a");
    q.ws_enqueue(DEVICE_COM2, b"b");
    q.ws_enqueue(DEVICE_USB0, b"c");
    q.ws_enqueue(DEVICE_USB3, b"d");
    assert_eq!(q.drain(DEVICE_COM1), b"a");
    assert_eq!(q.drain(DEVICE_COM2), b"b");
    assert_eq!(q.drain(DEVICE_USB1), b"cd");
    q.serial_write("com1", b"1");
    q.serial_write("com2", b"2");
    q.serial_write("usb", b"3");
    q.serial_write("usb0", b"4");
    q.serial_write("usb1", b"5");
    q.serial_write("", b"6");
    assert_eq!(q.drain(DEVICE_COM1), b"1");
    assert_eq!(q.drain(DEVICE_COM2), b"2");
    assert_eq!(q.drain(DEVICE_USB0), b"34");
}

#[test]
fn listeners_come_and_go() {
    let mut l = Listeners::new();
    l.ws_register_sender("com1", 3);
    l.ws_register_sender("com1", 4);
    l.ws_register_sender("com2", 5);
    l.ws_register_sender("usb1", 6);
    assert_eq!(l.sessions(DEVICE_COM1), vec![3, 4]);
    assert_eq!(l.ws_port_for_fd(5), "com2");
    assert_eq!(l.ws_port_for_fd(6), "usb");
    assert_eq!(l.ws_port_for_fd(9), "");
    l.ws_remove_sender("com1", 3);
    assert_eq!(l.sessions(DEVICE_COM1), vec![4]);
    assert_eq!(l.ws_port_for_fd(3), "");
    l.prune(DEVICE_COM1, &vec![4, 8]);
    assert!(l.sessions(DEVICE_COM1).is_empty());
    l.leave_all(6);
    assert!(l.sessions(DEVICE_USB0).is_empty());
    assert_eq!(l.ws_port_for_fd(6), "");
    assert_eq!(device_for_port("usb3"), DEVICE_USB0);
}

#[test]
fn numbers_and_names() {
    assert_eq!([0, 1, 2, 3, 4].map(usb_port_device_id), [1, 4, 5, 6, 0]);
    assert_eq!([0x6001, 0x6010, 0x6011, 0x6014].map(ftdi_port_count), [1, 2, 4, 1]);
    assert_eq!([1, 4, 5, 6, 2, 3, 0, 9].map(device_name), [
        "usb0", "usb1", "usb2", "usb3", "com1", "com2", "none", "none"
    ]);
    assert_eq!(chip_name(0x067b, 0x23a3), "PL2303");
    assert_eq!(chip_name(0x067b, 0x1234), "Unknown");
    assert_eq!(chip_name(0x10c4, 0xea70), "CP210x");
    assert_eq!(chip_name(0x0403, 0x6001), "FT232R");
    assert_eq!(chip_name(0x0403, 0x6010), "FT2232");
    assert_eq!(chip_name(0x0403, 0x6011), "FT4232");
    assert_eq!(chip_name(0x0403, 0x6014), "FT232H");
    assert_eq!(chip_name(0x1a86, 0x7522), "CH340");
    assert_eq!(chip_name(0x1a86, 0x55d3), "CH343");
    assert_eq!(chip_name(0x1a86, 0x5523), "CH341");
    assert_eq!(chip_name(0x0483, 0x5740), "STM32 VCP");
    assert_eq!(chip_name(0x0525, 0xa4a7), "Netchip CDC-ACM");
    assert_eq!(chip_name(0x2341, 1), "Arduino");
    assert_eq!(chip_name(0x239a, 2), "Adafruit");
    assert_eq!(chip_name(0x303a, 3), "Espressif");
}

#[test]
fn selecting_a_device() {
    let mut b = Bridge::new();
    assert_eq!(b.ssh_device_error(), "Unknown device");
    assert_eq!(b.ssh_select_device("usb0"), None);
    assert_eq!(b.ssh_device_error(), "USB CDC host is disabled (cdc_enable=false)");
    b.cdc_enabled = true;
    assert_eq!(b.ssh_select_device("usb"), None);
    assert_eq!(b.ssh_device_error(), "No USB device connected");
    b.cdc_connected = true;
    b.cdc_port_count = 2;
    assert_eq!(b.ssh_select_device("usb2"), None);
    assert_eq!(b.ssh_device_error(), "Port not available on connected device");
    assert_eq!(b.ssh_select_device("usb1"), Some(WriteTarget::Usb(1)));
    assert_eq!(b.active_device_name(), "usb1");
    assert_eq!(b.ssh_select_device("com1"), None);
    assert_eq!(b.ssh_device_error(), "com1 (UART1) not initialised");
    // The session stays where it was.
    assert_eq!(b.active_device, DEVICE_USB1);
    assert_eq!(b.ssh_select_device("com2"), None);
    assert_eq!(b.ssh_device_error(), "com2 (UART2) not initialised");
    assert_eq!(b.ssh_select_device("lpt1"), None);
    assert_eq!(b.ssh_device_error(), "Unknown device. Available: usb0-usb3, com1, com2");
    b.uart1_ready = true;
    b.uart2_ready = true;
    assert_eq!(b.ssh_select_device("com1"), Some(WriteTarget::Com1));
    assert_eq!(b.ssh_select_device("com2"), Some(WriteTarget::Com2));
    assert_eq!(b.ssh_select_device("usb"), Some(WriteTarget::Usb(0)));
    b.ssh_release_device();
    assert_eq!(b.active_device, DEVICE_NONE);
}

#[test]
fn display_port_by_name() {
    let mut b = Bridge::new();
    let mut d = DisplayState::new();
    for name in ["com1", "com2", "usb0", "usb1", "usb2", "usb3"] {
        b.set_display_port(name, &mut d);
        assert_eq!(b.display_port_name(), name);
    }
    assert_eq!(d.current_page(), PAGE_USB);
    b.set_display_port("usb", &mut d);
    assert_eq!(b.display_port, DEVICE_USB3);
}

#[test]
fn outputs_over_ssh() {
    let mut g = Some(GpioPwmState::new());
    assert_eq!(ssh_gpio_set(&mut g, 6, 1), 0);
    assert_eq!(ssh_gpio_set(&mut g, 7, 1), -1);
    assert_eq!(ssh_gpio_set(&mut g, -1, 1), -1);
    assert_eq!(ssh_pwm_set(&mut g, 1, 100), 0);
    assert_eq!(ssh_pwm_set(&mut g, 0, 101), -1);
    assert_eq!(ssh_pwm_set(&mut g, 0, -1), -1);
    assert_eq!(ssh_pwm_set(&mut g, 2, 5), -1);
    let s = g.unwrap();
    assert_eq!(s.get_gpio(), [false, false, false, false, false, false, true]);
    assert_eq!(s.get_pwm(), [0, 100]);
    let mut none = None;
    assert_eq!(ssh_gpio_set(&mut none, 0, 1), -1);
    assert_eq!(ssh_pwm_set(&mut none, 0, 1), -1);
}

#[test]
fn one_write_at_a_time() {
    let mut b = Bridge::new();
    assert_eq!(b.usb_cdc_write_port(0, b"abc", 64), None);
    b.cdc_connected = true;
    assert_eq!(b.usb_cdc_write_port(0, b"abc", 64), None);
    b.port_out_ready[0] = true;
    b.port_ep_out[0] = 2;
    assert_eq!(b.usb_cdc_write_port(0, b"", 64), None);
    assert_eq!(b.usb_cdc_write_port(4, b"abc", 64), None);
    assert_eq!(b.usb_cdc_write_port(0, b"abcd", 3), Some((2, b"abc".to_vec())));
    assert_eq!(b.usb_cdc_write_port(0, b"abc", 64), None);
    b.bulk_out_done(0);
    b.bulk_out_done(9);
    assert_eq!(b.usb_cdc_write_port(0, b"abc", 64), Some((2, b"abc".to_vec())));
}

#[test]
fn packets_from_usb() {
    let mut b = Bridge::new();
    let mut display = Some(SerialRxBuffer::new());
    let mut rings = Rings::new();
    b.active_device = DEVICE_USB1;
    let r = b.bulk_in(1, true, b"hey", &mut display, &mut rings);
    assert_eq!((r.data.as_slice(), r.to_ssh, r.resubmit), (&b"hey"[..], true, true));
    assert_eq!(display.as_ref().unwrap().cell(0, 2).ch, 'y');
    assert_eq!(rings.drain(DEVICE_USB0), b"hey");
    let r = b.bulk_in(0, true, b"x", &mut display, &mut rings);
    assert!(!r.to_ssh);
    let r = b.bulk_in(1, false, b"lost", &mut display, &mut rings);
    assert!(r.data.is_empty() && !r.to_ssh);
    b.is_ftdi = true;
    b.dev_gone = true;
    let r = b.bulk_in(1, true, &[1, 0x60, b'z'], &mut None, &mut rings);
    assert_eq!((r.data.as_slice(), r.to_ssh, r.resubmit), (&b"z"[..], true, false));
    let r = b.bulk_in(1, true, &[1, 0x60], &mut None, &mut rings);
    assert!(r.data.is_empty() && !r.to_ssh);
    assert_eq!(rings.drain(DEVICE_USB0), b"xz");
}

#[test]
fn bytes_from_uarts_and_terminals() {
    let mut b = Bridge::new();
    let mut display = Some(SerialRxBuffer::new());
    let mut rings = Rings::new();
    b.active_device = DEVICE_COM1;
    assert!(b.uart_received(DEVICE_COM1, b"ok", &mut display, &mut rings));
    assert!(!b.uart_received(DEVICE_COM2, b"no", &mut None, &mut rings));
    assert_eq!(display.unwrap().cell(0, 1).ch, 'k');
    assert_eq!(rings.drain(DEVICE_COM1), b"ok");
    let mut tx = Rings::new();
    tx.serial_write("com1", b"ls");
    // Bytes for a port that is not ready are lost.
    assert_eq!(b.ws_drain_tx(&mut tx, DEVICE_COM1), None);
    b.uart1_ready = true;
    assert_eq!(b.ws_drain_tx(&mut tx, DEVICE_COM1), None);
    tx.serial_write("com1", b"ls");
    tx.serial_write("usb", b"pwd");
    assert_eq!(b.ws_drain_tx(&mut tx, DEVICE_COM1), Some(b"ls".to_vec()));
    b.cdc_enabled = true;
    b.cdc_connected = true;
    assert_eq!(b.ws_drain_tx(&mut tx, DEVICE_USB0), Some(b"pwd".to_vec()));
    assert_eq!(b.ws_drain_tx(&mut tx, DEVICE_COM2), None);
}

#[test]
fn host_events() {
    let mut b = Bridge::new();
    assert_eq!(b.take_new_device(), None);
    b.found_at_start(&[]);
    assert_eq!(b.take_new_device(), None);
    b.found_at_start(&[4, 5]);
    assert_eq!(b.take_new_device(), Some(4));
    b.client_event_cb(ClientEvent::NewDevice(7));
    b.client_event_cb(ClientEvent::Other);
    assert_eq!(b.take_new_device(), Some(7));
    assert_eq!(b.take_new_device(), None);
    assert!(!b.dev_gone && !b.gone_since_open);
    b.client_event_cb(ClientEvent::DeviceGone);
    assert!(b.dev_gone && b.gone_since_open);
}

#[test]
fn starting_the_bridge() {
    let mut b = Bridge::new();
    let p = b.start("user\0", "pass", true, false, true, 9600);
    assert_eq!(p.ssh, Some(("admin".to_string(), "pass".to_string())));
    assert!(p.usb && b.cdc_is_enabled() && b.uart1_ready && !b.uart2_ready);
    assert_eq!(b.cdc_baud, 9600);
    let p = b.start_ssh_only("u", "p\0", false, true);
    assert!(p.ssh.is_none() && !p.usb && b.uart2_ready);
    let mut b = Bridge::new();
    assert_eq!(b.start_ssh_only("u", "p\0", false, false).ssh, Some(("u".to_string(), "esp32".to_string())));
    assert!(!b.cdc_is_enabled());
    assert_eq!(b.cdc_device_info(), (false, 0, 0));
    assert_eq!(b.cdc_device_chip_name(), "Unknown");
    assert_eq!(b.cdc_port_count(), 0);
    assert_eq!(b.summary().active, "none");
}

#[test]
fn transfers_as_bytes() {
    let r = ControlRequest {
        request_type: 0x21,
        request: 0x20,
        value: 0x1234,
        index: 0x0506,
        length: 2,
        data: vec![7, 8, 9],
    };
    assert_eq!(r.to_bytes(), vec![0x21, 0x20, 0x34, 0x12, 6, 5, 2, 0, 7, 8]);
    assert_eq!(r.num_bytes(), 10);
    let r = ControlRequest { request_type: 0xa1, ..r };
    assert_eq!(r.to_bytes(), vec![0xa1, 0x20, 0x34, 0x12, 6, 5, 2, 0]);
}

#[test]
fn transfers_end() {
    assert_eq!(ctrl_step(true, 5000), CtrlStep::Ended);
    assert_eq!(ctrl_step(false, 2000), CtrlStep::Pump);
    assert_eq!(ctrl_step(false, 2001), CtrlStep::TimedOut);
    let buf = [0, 0, 0, 0, 0, 0, 0, 0, 42, 43];
    assert_eq!(ctrl_result(0xc0, true, &buf, 7), Some(vec![42, 43]));
    assert_eq!(ctrl_result(0xc0, true, &buf, 1), Some(vec![42]));
    assert_eq!(ctrl_result(0xc0, true, &buf[..8], 7), Some(vec![]));
    assert_eq!(ctrl_result(0x40, true, &buf, 7), Some(vec![]));
    assert_eq!(ctrl_result(0xc0, false, &buf, 7), None);
    assert_eq!(pl2303_vendor_read(&Some(vec![42])), 42);
    assert_eq!(pl2303_vendor_read(&Some(vec![])), 0);
    assert_eq!(pl2303_vendor_read(&None), 0);
    assert_eq!(line_coding(&[0x00, 0xc2, 0x01, 0, 0, 0, 8]), Some((115200, 0, 0, 8)));
    assert_eq!(line_coding(&[0; 6]), None);
}

fn short(v: &[ControlRequest]) -> Vec<(u8, u8, u16, u16)> {
    v.iter().map(|r| (r.request_type, r.request, r.value, r.index)).collect()
}

#[test]
fn chips_are_configured() {
    let v = pl2303_init(115200);
    assert_eq!(v.len(), 19);
    assert_eq!(short(&v[..3]), vec![(0xc0, 1, 0x8484, 0), (0x40, 1, 0x0404, 0), (0xc0, 1, 0x8484, 0)]);
    assert_eq!(v[11].data, vec![0, 0xc2, 1, 0, 0, 0, 8]);
    assert_eq!(short(&v[17..]), vec![(0x21, 0x22, 3, 0), (0xa1, 0x21, 0, 0)]);
    let v = cp210x_init(1, 9600);
    assert_eq!(short(&v), vec![
        (0x41, 0, 1, 1),
        (0x41, 0x1e, 0, 1),
        (0x41, 3, 0x0800, 1),
        (0x41, 7, 0x0303, 1),
        (0x41, 0x12, 0x000f, 1),
    ]);
    assert_eq!(v[1].data, vec![0x80, 0x25, 0, 0]);
    let v = ftdi_init(2, 115200);
    assert_eq!(short(&v), vec![
        (0x40, 0, 0, 3),
        (0x40, 3, 26, 3),
        (0x40, 4, 8, 3),
        (0x40, 2, 0, 3),
        (0x40, 1, 0x0303, 3),
        (0x40, 9, 16, 3),
        (0x40, 0, 1, 3),
        (0x40, 0, 2, 3),
    ]);
    let v = cdc_acm_init(4, 115200);
    assert_eq!(short(&v), vec![(0x21, 0x20, 0, 4), (0x21, 0x22, 3, 4)]);
    assert_eq!(init_requests(0x067b, 0, 0, 9600).len(), 19);
    assert_eq!(init_requests(0x10c4, 0, 0, 9600).len(), 5);
    assert_eq!(init_requests(0x0403, 0, 0, 9600).len(), 8);
    assert_eq!(init_requests(0x0525, 1, 0, 9600).len(), 2);
}

#[test]
fn divisors() {
    assert_eq!(ftdi_baud_to_divisor(3_000_000), 0);
    assert_eq!(ftdi_baud_to_divisor(2_999_999), 1);
    assert_eq!(ftdi_baud_to_divisor(1_999_999), 2);
    assert_eq!(ftdi_baud_to_divisor(9600), 313);
    assert_eq!(ftdi_baud_to_divisor(300), 10000);
    // Below 46 baud the divisor no longer fits 16 bits.
    assert_eq!(ftdi_baud_to_divisor(45), 1131);
}

#[test]
fn endpoints_in_a_descriptor() {
    let pair = |intf_num, ep_in, ep_out| BulkEndpoints { intf_num, ep_in, ep_out, mps: 64 };
    assert_eq!(find_all_bulk_eps(&config(2)), vec![pair(0, 0x81, 0x02), pair(1, 0x82, 0x03)]);
    assert!(find_all_bulk_eps(&[]).is_empty());
    // An interrupt endpoint, an interface with one direction, and a second pair in one interface.
    let mut d = interface(0);
    d.extend(endpoint(0x83, 3, 8));
    d.extend(interface(1));
    d.extend(endpoint(0x81, 2, 64));
    d.extend(interface(2));
    d.extend(endpoint(0x84, 2, 64));
    d.extend(endpoint(0x85, 2, 512));
    d.extend(endpoint(0x05, 2, 32));
    d.extend(endpoint(0x06, 2, 32));
    assert_eq!(find_all_bulk_eps(&d), vec![pair(2, 0x84, 0x05)]);
    // A descriptor of length zero ends the walk; a short one is skipped.
    let mut e = config(1);
    e.extend([0, 4]);
    e.extend(config(1));
    assert_eq!(find_all_bulk_eps(&e).len(), 1);
    assert!(find_all_bulk_eps(&config(1)[..30]).is_empty());
}

fn reply(ok: bool) -> Reply {
    Reply { ok, ids: None, config: None }
}

fn name(a: &Action) -> String {
    match a {
        Action::Open { addr } => format!("open {}", addr),
        Action::ReadIds => "ids".to_string(),
        Action::ReadConfig => "config".to_string(),
        Action::Claim { intf } => format!("claim {}", intf),
        Action::Control { request } => format!("control {:02x} {:02x}", request.request_type, request.request),
        Action::Wait { seconds } => format!("wait {}", seconds),
        Action::AllocIn { port, endpoint, size } => format!("in {} {:02x} {}", port, endpoint, size),
        Action::AllocOut { port, size } => format!("out {} {}", port, size),
        Action::SubmitIn { port } => format!("submit {}", port),
        Action::Pump => "pump".to_string(),
        Action::FreeOut { port } => format!("free out {}", port),
        Action::FreeIn { port } => format!("free in {}", port),
        Action::Release { intf } => format!("release {}", intf),
        Action::Close => "close".to_string(),
        Action::Finished => "finished".to_string(),
    }
}

/// Answers every action with success until the device runs, and lists the actions.
fn plug_in(b: &mut Bridge, vid: u16, pid: u16, desc: &[u8], fail: &dyn Fn(&str, usize) -> bool) -> (DeviceSetup, Vec<String>) {
    let (mut s, mut a) = DeviceSetup::start(1, Some(5));
    let mut seen = Vec::new();
    loop {
        let n = name(&a);
        seen.push(n.clone());
        if n == "pump" || n == "finished" || seen.len() > 200 {
            return (s, seen);
        }
        let r = match a {
            Action::ReadIds => Reply { ok: true, ids: Some((vid, pid)), config: None },
            Action::ReadConfig => Reply { ok: true, ids: None, config: Some(desc.to_vec()) },
            _ => reply(!fail(&n, seen.len())),
        };
        a = s.handle_new_device(b, r);
    }
}

#[test]
fn a_chip_with_two_ports() {
    let mut b = Bridge::new();
    b.cdc_enabled = true;
    let (mut s, seen) = plug_in(&mut b, 0x0403, 0x6010, &config(2), &|_, _| false);
    let mut want = vec!["open 1", "ids", "config", "claim 0"];
    want.extend(["control 40 00", "control 40 03", "control 40 04", "control 40 02", "control 40 01"]);
    want.extend(["control 40 09", "control 40 00", "control 40 00", "in 0 81 64", "out 0 64", "claim 1"]);
    want.extend(["control 40 00", "control 40 03", "control 40 04", "control 40 02", "control 40 01"]);
    want.extend(["control 40 09", "control 40 00", "control 40 00", "in 1 82 64", "out 1 64"]);
    want.extend(["submit 0", "submit 1", "pump"]);
    assert_eq!(seen, want);
    assert!(b.cdc_connected && b.is_ftdi && !b.dev_gone);
    assert_eq!(b.cdc_port_count(), 2);
    assert_eq!(b.port_ep_out, [2, 3, 0, 0]);
    assert_eq!(b.port_out_ready, [true, true, false, false]);
    assert_eq!(b.cdc_device_chip_name(), "FT2232");
    assert_eq!(b.ssh_select_device("usb1"), Some(WriteTarget::Usb(1)));
    b.port_out_busy[0] = true;
    assert_eq!(name(&s.handle_new_device(&mut b, reply(true))), "pump");
    // Removed: everything is given back.
    let mut seen = Vec::new();
    let mut a = s.handle_new_device(&mut b, reply(false));
    while !matches!(a, Action::Finished) {
        seen.push(name(&a));
        a = s.handle_new_device(&mut b, reply(true));
    }
    assert_eq!(seen, vec![
        "free out 0", "free in 0", "release 0", "free out 1", "free in 1", "release 1", "close"
    ]);
    assert!(!b.cdc_connected && !b.is_ftdi);
    assert_eq!(b.cdc_device_info(), (false, 0, 0));
    assert_eq!((b.port_ep_out, b.port_out_ready, b.port_out_busy), ([0; 4], [false; 4], [false; 4]));
    assert_eq!(b.ssh_select_device("usb0"), None);
    assert_eq!(name(&s.handle_new_device(&mut b, reply(true))), "finished");
}

#[test]
fn a_device_of_the_standard_class() {
    let mut d = interface(0);
    d.extend(endpoint(0x83, 3, 8));
    d.extend(interface(1));
    d.extend(endpoint(0x81, 2, 64));
    d.extend(endpoint(0x02, 2, 64));
    let mut b = Bridge::new();
    // The first transfer fails once and is tried again after a pause.
    let (mut s, seen) = plug_in(&mut b, 0x0525, 0xa4a7, &d, &|_, n| n == 6);
    assert_eq!(seen, vec![
        "open 1", "ids", "config", "claim 1", "claim 0", "control 21 20", "wait 5", "control 21 20", "control 21 22",
        "in 0 81 64", "out 0 64", "submit 0", "pump"
    ]);
    assert_eq!(b.cdc_port_count(), 1);
    assert!(!b.is_ftdi);
    let mut seen = Vec::new();
    let mut a = s.handle_new_device(&mut b, reply(false));
    while !matches!(a, Action::Finished) {
        seen.push(name(&a));
        a = s.handle_new_device(&mut b, reply(true));
    }
    assert_eq!(seen, vec!["free out 0", "free in 0", "release 1", "release 0", "close"]);
}

#[test]
fn a_device_removed_while_it_is_tried_again() {
    let mut b = Bridge::new();
    let (_, seen) = plug_in(&mut b, 0x0525, 0xa4a7, &config(1), &|n, _| n == "control 21 20" || n == "wait 5");
    assert_eq!(seen[4..], ["control 21 20", "wait 5", "release 0", "close", "finished"]);
    assert!(!b.cdc_connected);
    assert_eq!(b.cdc_device_info(), (false, 0, 0));
}

#[test]
fn a_removal_is_forgotten_when_the_next_device_is_made_known() {
    let mut b = Bridge::new();
    b.client_event_cb(ClientEvent::DeviceGone);
    let (mut s, _) = DeviceSetup::start(1, None);
    s.handle_new_device(&mut b, reply(true));
    assert!(b.dev_gone && !b.gone_since_open);
    // A device that comes to nothing leaves it as it was.
    plug_in(&mut b, 0x10c4, 0xea60, &[], &|_, _| false);
    assert!(b.dev_gone);
    plug_in(&mut b, 0x10c4, 0xea60, &config(1), &|_, _| false);
    assert!(b.cdc_connected && !b.dev_gone);
}

#[test]
fn devices_that_cannot_be_used() {
    let mut b = Bridge::new();
    let (_, seen) = plug_in(&mut b, 0x10c4, 0xea60, &config(1), &|n, _| n == "open 1");
    assert_eq!(seen, vec!["open 1", "finished"]);
    let (_, seen) = plug_in(&mut b, 0x10c4, 0xea60, &[], &|_, _| false);
    assert_eq!(seen, vec!["open 1", "ids", "config", "close", "finished"]);
    let (_, seen) = plug_in(&mut b, 0x10c4, 0xea60, &config(1), &|n, _| n == "claim 0");
    assert_eq!(seen, vec!["open 1", "ids", "config", "claim 0", "close", "finished"]);
    let (_, seen) = plug_in(&mut b, 0x10c4, 0xea60, &config(1), &|n, _| n == "in 0 81 64");
    assert_eq!(seen.last().unwrap(), "finished");
    assert!(!b.cdc_connected);
    // Without a transfer to write with, the port can still be read from.
    let (_, seen) = plug_in(&mut b, 0x10c4, 0xea60, &config(1), &|n, _| n == "out 0 64");
    assert_eq!(seen.last().unwrap(), "pump");
    assert!(b.cdc_connected);
    assert_eq!(b.port_out_ready, [false; 4]);
    assert_eq!(DEVICE_USB2, 5);
}
