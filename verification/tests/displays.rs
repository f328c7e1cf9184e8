use ssh_serial_bridge::color::{ansi_color, Rgb565};
use ssh_serial_bridge::draw::{DrawOp, Font, Ink};
use ssh_serial_bridge::gpio_ctrl::GpioPwmState;
use ssh_serial_bridge::mini_display::{DisplayInfo, MiniDisplay};
use ssh_serial_bridge::serial_display::{
    draw_header, draw_info_page, draw_terminal_page, info_rows, DisplayAux, DisplayState, DisplayTask, Seg,
    SerialRxBuffer, Style, UsbSummary, PAGE_COM1, PAGE_COM2, PAGE_COUNT, PAGE_INFO, PAGE_USB,
};
use ssh_serial_bridge::status::{Heat, StatusInfo};
use ssh_serial_bridge::terminal::blank_screen;

fn show(op: &DrawOp) -> String {
    match op {
        DrawOp::Clear { ink } => format!("clear {:?}", ink),
        DrawOp::Fill { x, y, w, h, ink } => format!("fill {} {} {} {} {:?}", x, y, w, h, ink),
        DrawOp::Text { text, x, y, font, ink } => format!("text {:?} {} {} {:?} {:?}", text, x, y, font, ink),
        DrawOp::Line { x1, x2, y, ink } => format!("line {} {} {} {:?}", x1, x2, y, ink),
    }
}

fn shown(ops: &[DrawOp]) -> Vec<String> {
    ops.iter().map(show).collect()
}

fn texts(ops: &[DrawOp]) -> Vec<String> {
    ops.iter()
        .filter_map(|op| match op {
            DrawOp::Text { text, .. } => Some(text.clone()),
            _ => None,
        })
        .collect()
}

fn line(row: &[Seg]) -> String {
    row.iter().map(|s| s.text.as_str()).collect()
}

fn no_usb() -> UsbSummary {
    UsbSummary {
        active: "none".to_string(),
        cdc_enabled: false,
        cdc_connected: false,
        vid: 0,
        pid: 0,
        chip: "Unknown".to_string(),
        ports: 0,
    }
}

fn aux() -> DisplayAux {
    let mut status = StatusInfo::new();
    status.set_wifi("192.168.2.200", "home", -75);
    status.set_voltages("12.30", "5.01");
    status.set_chip_temp("86.5", Heat::Hot);
    let mut gpio_state = GpioPwmState::new();
    gpio_state.set_gpio(1, true);
    gpio_state.set_pwm(0, 7);
    gpio_state.set_pwm(1, 100);
    DisplayAux {
        status,
        gpio_state,
        com1_baud: "115200".to_string(),
        com1_tx: "17".to_string(),
        com1_rx: "18".to_string(),
        com2_baud: "9600".to_string(),
        com2_tx: "41".to_string(),
        com2_rx: "42".to_string(),
        cdc_baud: "57600".to_string(),
    }
}

#[test]
fn header_of_each_page() {
    for (page, title) in [
        (PAGE_INFO, "SYSTEM INFO   1/4"),
        (PAGE_COM1, "SERIAL [COM1] 2/4"),
        (PAGE_COM2, "SERIAL [COM2] 3/4"),
        (PAGE_USB, "SERIAL [USB]  4/4"),
        (9, "UNKNOWN       10/4"),
        (255, "UNKNOWN       0/4"),
    ] {
        let mut out = Vec::new();
        draw_header(page, &mut out);
        assert_eq!(
            shown(&out),
            vec![
                "fill 0 0 320 20 Black".to_string(),
                format!("text {:?} 4 16 Size10x20 LightGreen", title),
                "fill 0 20 320 1 DarkGreen".to_string(),
            ]
        );
    }
}

#[test]
fn information_page_without_data() {
    let rows = info_rows(&None, &no_usb());
    let lines: Vec<String> = rows.iter().map(|r| line(r)).collect();
    assert_eq!(
        lines,
        vec![
            "-- Network --",
            "IP: --",
            "WiFi: --  RSSI: 0dBm",
            "DC In: 0.00V  DC Out: 0.00V",
            "ChipTemp: 0.0C",
            "-- Device --",
            "Active: none",
            "CDC: Disabled",
            "-- Serial --",
            "COM1 --bps TX:-- RX:--",
            "COM2 --bps TX:-- RX:--",
            "USB  --bps",
            "-- GPIO --",
            "4:OFF 5:OFF 6:OFF 7:OFF 8:OFF 9:OFF ",
            "PWM10:  0% B0",
            "PWM11:  0% B0",
        ]
    );
}

#[test]
fn information_page_with_data() {
    let usb = UsbSummary {
        active: "com2".to_string(),
        cdc_enabled: true,
        cdc_connected: true,
        vid: 0x403,
        pid: 0x6010,
        chip: "FT2232".to_string(),
        ports: 2,
    };
    let rows = info_rows(&Some(aux()), &usb);
    assert_eq!(line(&rows[1]), "IP: 192.168.2.200");
    assert_eq!(line(&rows[2]), "WiFi: home  RSSI: -75dBm");
    assert_eq!(rows[2][3].style, Style::Yellow);
    assert_eq!(rows[4][1].style, Style::Off);
    assert_eq!(line(&rows[7]), "CDC: FT2232 0403:6010 Ports:2");
    assert_eq!(line(&rows[9]), "COM1 115200bps TX:17 RX:18");
    assert_eq!(line(&rows[13]), "4:OFF 5: ON 6:OFF 7:OFF 8:OFF 9:OFF ");
    assert_eq!(rows[13][3].style, Style::BadgeOn);
    assert_eq!(line(&rows[14]), "PWM10:  7% B7");
    assert_eq!(line(&rows[15]), "PWM11:100% B100");
    assert_eq!(rows[15][2].style, Style::Bar(100));
    let absent = UsbSummary { cdc_connected: false, ..usb };
    assert_eq!(line(&info_rows(&None, &absent)[7]), "CDC: No device");
}

#[test]
fn signal_and_heat_have_colours() {
    let mut a = aux();
    for (rssi, style) in
        [(-59, Style::On), (-60, Style::Yellow), (-79, Style::Yellow), (-80, Style::Off), (i32::MIN, Style::Off)]
    {
        a.status.set_rssi(rssi);
        let some = Some(a);
        assert_eq!(info_rows(&some, &no_usb())[2][3].style, style);
        a = some.unwrap();
    }
    for (heat, style) in [(Heat::Normal, Style::On), (Heat::Warm, Style::Yellow), (Heat::Hot, Style::Off)] {
        a.status.set_chip_temp("1.0", heat);
        let some = Some(a);
        assert_eq!(info_rows(&some, &no_usb())[4][1].style, style);
        a = some.unwrap();
    }
}

#[test]
fn lines_are_drawn_where_they_changed() {
    let mut prev: Vec<String> = Vec::new();
    let rows = info_rows(&None, &no_usb());
    let first = draw_info_page(&rows, true, &mut prev);
    assert_eq!(prev.len(), 16);
    assert_eq!(
        shown(&first[..3]),
        vec![
            "fill 0 21 320 12 Black".to_string(),
            format!("fill 0 21 320 1 {:?}", Ink::Rgb(Rgb565 { r: 0, g: 15, b: 0 })),
            "text \"-- Network --\" 2 31 Size6x12 LightGreen".to_string(),
        ]
    );
    assert!(draw_info_page(&rows, false, &mut prev).is_empty());
    let usb = UsbSummary { active: "com1".to_string(), ..no_usb() };
    let changed = draw_info_page(&info_rows(&None, &usb), false, &mut prev);
    assert_eq!(
        shown(&changed),
        vec![
            "fill 0 93 320 12 Black".to_string(),
            format!("text \"Active: \" 2 103 Size6x12 {:?}", Ink::Rgb(Rgb565 { r: 0, g: 50, b: 31 })),
            "text \"com1\" 50 103 Size6x12 Yellow".to_string(),
        ]
    );
}

#[test]
fn bars_and_badges() {
    let bar = |duty: u8| vec![vec![Seg { text: format!("B{}", duty), style: Style::Bar(duty) }]];
    let mut prev = Vec::new();
    let track = format!("fill 2 23 200 8 {:?}", Ink::Rgb(Rgb565 { r: 4, g: 8, b: 4 }));
    assert_eq!(shown(&draw_info_page(&bar(0), true, &mut prev)[1..]), vec![track.clone()]);
    assert_eq!(
        shown(&draw_info_page(&bar(29), true, &mut prev)[1..]),
        vec![track.clone(), "fill 2 23 58 8 Green".to_string()]
    );
    assert_eq!(
        shown(&draw_info_page(&bar(30), true, &mut prev)[1..]),
        vec![track.clone(), "fill 2 23 60 8 Yellow".to_string()]
    );
    assert_eq!(
        shown(&draw_info_page(&bar(70), true, &mut prev)[1..]),
        vec![track, format!("fill 2 23 140 8 {:?}", Ink::Rgb(Rgb565 { r: 31, g: 10, b: 0 }))]
    );
    let badges = vec![vec![
        Seg { text: " ON ".to_string(), style: Style::BadgeOn },
        Seg { text: "OFF ".to_string(), style: Style::BadgeOff },
    ]];
    assert_eq!(
        shown(&draw_info_page(&badges, true, &mut prev)[1..]),
        vec![
            "fill 2 21 24 12 Green".to_string(),
            "text \" ON \" 2 31 Size6x12 Black".to_string(),
            format!("fill 26 21 24 12 {:?}", Ink::Rgb(Rgb565 { r: 10, g: 0, b: 0 })),
            "text \"OFF \" 26 31 Size6x12 White".to_string(),
        ]
    );
}

#[test]
fn lines_past_the_display_are_not_drawn() {
    let rows: Vec<Vec<Seg>> =
        (0..20).map(|i| vec![Seg { text: format!("{}", i), style: Style::Value }]).collect();
    let mut prev = Vec::new();
    let out = draw_info_page(&rows, true, &mut prev);
    assert_eq!(texts(&out).len(), 18);
    assert_eq!(prev.len(), 20);
}

#[test]
fn changed_cells_are_drawn() {
    let mut buf = SerialRxBuffer::new();
    let mut prev = blank_screen();
    assert_eq!(draw_terminal_page(&mut buf, &mut prev, true).len(), 18 * 53);
    buf.push_data(b"\x1b[2;3Hx");
    assert_eq!(buf.cell(1, 2).ch, 'x');
    assert_eq!(
        shown(&draw_terminal_page(&mut buf, &mut prev, false)),
        vec![
            format!("fill 12 33 6 12 {:?}", Ink::Rgb(ansi_color(0))),
            format!("text \"x\" 12 43 Size6x12 {:?}", Ink::Rgb(ansi_color(7))),
        ]
    );
    assert_eq!(prev[1][2].ch, 'x');
    assert!(draw_terminal_page(&mut buf, &mut prev, false).is_empty());
}

#[test]
fn pages_go_round() {
    let mut s = DisplayState::new();
    assert_eq!(s.current_page(), PAGE_COM1);
    let mut seen = Vec::new();
    for _ in 0..PAGE_COUNT {
        s.next_page();
        seen.push(s.current_page());
    }
    assert_eq!(seen, vec![PAGE_COM2, PAGE_USB, PAGE_INFO, PAGE_COM1]);
    s.set_page(PAGE_USB);
    s.set_page(4);
    assert_eq!(s.current_page(), PAGE_USB);
}

#[test]
fn frames_of_the_display() {
    let mut state = DisplayState::new();
    let (mut com1, mut com2, mut usb) = (SerialRxBuffer::new(), SerialRxBuffer::new(), SerialRxBuffer::new());
    let (mut task, first) = DisplayTask::start(state.current_page());
    assert_eq!(texts(&first), vec!["SERIAL [COM1] 2/4"]);
    let out = task.frame(&state, &no_usb(), &mut com1, &mut com2, &mut usb);
    assert_eq!(out.len(), 4 + 18 * 53);
    // Nothing new: nothing to draw.
    assert!(task.frame(&state, &no_usb(), &mut com1, &mut com2, &mut usb).is_empty());
    com1.push_data(b"hi");
    com2.push_data(b"other");
    let out = task.frame(&state, &no_usb(), &mut com1, &mut com2, &mut usb);
    assert_eq!(texts(&out), vec!["h", "i"]);
    // A message hides the page and is drawn once.
    state.show_system_message("WPS MODE", "Press\nnow");
    let out = task.frame(&state, &no_usb(), &mut com1, &mut com2, &mut usb);
    assert_eq!(texts(&out), vec!["WPS MODE", "Press", "now"]);
    assert!(matches!(out[5], DrawOp::Text { x: 2, y: 43, font: Font::Size6x12, ink: Ink::White, .. }));
    com1.push_data(b"!");
    assert!(task.frame(&state, &no_usb(), &mut com1, &mut com2, &mut usb).is_empty());
    // Without it the page comes back whole.
    state.clear_system_message();
    let out = task.frame(&state, &no_usb(), &mut com1, &mut com2, &mut usb);
    assert_eq!(texts(&out), vec!["SERIAL [COM1] 2/4", "h", "i", "!"]);
    state.next_page();
    let out = task.frame(&state, &no_usb(), &mut com1, &mut com2, &mut usb);
    assert_eq!(texts(&out), vec!["SERIAL [COM2] 3/4", "o", "t", "h", "e", "r"]);
    state.set_page(PAGE_INFO);
    state.set_display_aux(aux());
    let out = task.frame(&state, &no_usb(), &mut com1, &mut com2, &mut usb);
    assert_eq!(texts(&out)[..4], ["SYSTEM INFO   1/4", "-- Network --", "IP: ", "192.168.2.200"]);
    assert!(task.frame(&state, &no_usb(), &mut com1, &mut com2, &mut usb).is_empty());
}

#[test]
fn readings_start_empty() {
    let d = DisplayInfo::default();
    assert_eq!(d.ip_address, "---");
    assert_eq!(d.dc_in_voltage, "0.00");
    assert!(!d.wifi_connected);
    assert_eq!(StatusInfo::new().snapshot().ip_address, "--");
}

#[test]
fn mini_display_shows_readings() {
    let mut m = MiniDisplay::new();
    let out = m.refresh(true).unwrap();
    assert_eq!(texts(&out), vec!["WiFi: --", "IP:", "DC_IN:0.00V", "COM1:---"]);
    assert!(m.refresh(true).is_none());
    m.update_display_info(true, "10.0.0.2", -61, "12.00", 9600);
    let out = m.refresh(false).unwrap();
    assert_eq!(
        shown(&out),
        vec![
            "clear Black",
            "line 0 127 12 White",
            "text \"WiFi:-61dBm\" 2 8 Size5x8 White",
            "text \"IP:10.0.0.2\" 2 24 Size6x10 White",
            "text \"DC_IN:12.00V\" 2 40 Size6x10 White",
            "text \"COM1:9600bps\" 2 56 Size6x10 White",
        ]
    );
    // A voltage within a hundredth counts as unchanged.
    m.update_display_info(true, "10.0.0.2", -61, "12.01", 9600);
    assert!(m.refresh(true).is_none());
    assert!(m.refresh(false).is_some());
}

#[test]
fn mini_display_shows_messages() {
    let mut m = MiniDisplay::new();
    m.refresh(true);
    m.show_message("WPS SUCCESS", "Connecting to\nhome");
    let out = m.refresh(true).unwrap();
    assert_eq!(
        shown(&out),
        vec![
            "clear Black",
            "text \"WPS SUCCESS\" 2 10 Size6x10 White",
            "line 0 127 14 White",
            "text \"Connecting to\" 2 28 Size5x8 White",
            "text \"home\" 2 40 Size5x8 White",
        ]
    );
    assert!(m.refresh(true).is_none());
    m.clear_message();
    assert_eq!(texts(&m.refresh(true).unwrap())[0], "WiFi: --");
}
