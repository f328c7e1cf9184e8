//! The pages of the 320x240 display: system information and one terminal per serial port.

use crate::color;
use crate::color::rgb565_new;
use crate::draw;
use crate::draw::{add_all, add_fill, add_op, add_text, DrawOp, Font, Ink, Op};
use crate::gpio_ctrl::GpioPwmState;
use crate::status;
use crate::status::{Heat, Status, StatusInfo};
use crate::terminal;
use crate::terminal::{blank_screen, AnsiTerminal, Cell, Screen, TERM_COLS, TERM_ROWS};
use crate::text;
use crate::text::{push_dec, push_hex4, push_int, same, split_text};
use vstd::prelude::*;
use vstd::string::*;

verus! {

/// Width of a character of the small font.
pub const CHAR_W: i32 = 6;

/// Height of a character of the small font.
pub const CHAR_H: i32 = 12;

/// Header height in pixels.
pub const HEADER_H: i32 = 20;

pub const PAGE_INFO: u8 = 0;

pub const PAGE_COM1: u8 = 1;

pub const PAGE_COM2: u8 = 2;

pub const PAGE_USB: u8 = 3;

/// Number of pages.
pub const PAGE_COUNT: u8 = 4;

/// A terminal that a serial port feeds.
pub struct SerialRxBuffer {
    inner: AnsiTerminal,
}

impl View for SerialRxBuffer {
    type V = Screen;

    closed spec fn view(&self) -> Screen {
        self.inner@
    }
}

impl SerialRxBuffer {
    /// A blank terminal.
    pub fn new() -> (b: SerialRxBuffer)
        ensures
            b@ == terminal::fresh(),
            b@.wf(),
    {
        SerialRxBuffer { inner: AnsiTerminal::new() }
    }

    /// Pushes raw bytes from a serial port into the terminal.
    pub fn push_data(&mut self, data: &[u8])
        requires
            old(self)@.wf(),
        ensures
            final(self)@ == terminal::fed(old(self)@, data@),
            final(self)@.wf(),
    {
        self.inner.feed(data);
    }

    /// The cell in row `row` and column `col`.
    pub fn cell(&self, row: usize, col: usize) -> (c: Cell)
        requires
            row < TERM_ROWS,
            col < TERM_COLS,
        ensures
            c == self@.cells[row as int][col as int],
    {
        self.inner.cell(row, col)
    }
}

/// What the information page shows besides the USB port.
pub struct DisplayAux {
    pub status: StatusInfo,
    pub gpio_state: GpioPwmState,
    pub com1_baud: String,
    pub com1_tx: String,
    pub com1_rx: String,
    pub com2_baud: String,
    pub com2_tx: String,
    pub com2_rx: String,
    pub cdc_baud: String,
}

/// What the information page shows of the USB port and the active device.
pub struct UsbSummary {
    /// The serial port that a session is connected to.
    pub active: String,
    pub cdc_enabled: bool,
    pub cdc_connected: bool,
    pub vid: u16,
    pub pid: u16,
    pub chip: String,
    pub ports: u8,
}

/// The same as plain values.
pub struct Usb {
    pub active: Seq<char>,
    pub cdc_enabled: bool,
    pub cdc_connected: bool,
    pub vid: u16,
    pub pid: u16,
    pub chip: Seq<char>,
    pub ports: u8,
}

impl View for UsbSummary {
    type V = Usb;

    open spec fn view(&self) -> Usb {
        Usb {
            active: self.active@,
            cdc_enabled: self.cdc_enabled,
            cdc_connected: self.cdc_connected,
            vid: self.vid,
            pid: self.pid,
            chip: self.chip@,
            ports: self.ports,
        }
    }
}

/// Everything that the information page shows, as plain values.
pub struct Info {
    pub status: Status,
    pub gpio: Seq<bool>,
    pub pwm: Seq<u8>,
    pub com1: (Seq<char>, Seq<char>, Seq<char>),
    pub com2: (Seq<char>, Seq<char>, Seq<char>),
    pub cdc_baud: Seq<char>,
    pub usb: Usb,
}

/// What the page shows; dashes, zeros and OFF where nothing was provided.
pub open spec fn info(aux: Option<DisplayAux>, usb: Usb) -> Info {
    match aux {
        Some(a) => Info {
            status: a.status@,
            gpio: a.gpio_state.gpio(),
            pwm: a.gpio_state.pwm(),
            com1: (a.com1_baud@, a.com1_tx@, a.com1_rx@),
            com2: (a.com2_baud@, a.com2_tx@, a.com2_rx@),
            cdc_baud: a.cdc_baud@,
            usb,
        },
        None => Info {
            status: status::unread(),
            gpio: seq![false, false, false, false, false, false, false],
            pwm: seq![0u8, 0u8],
            com1: ("--"@, "--"@, "--"@),
            com2: ("--"@, "--"@, "--"@),
            cdc_baud: "--"@,
            usb,
        },
    }
}

/// How a piece of text on the information page is drawn.
#[derive(Copy, Clone, Debug, PartialEq, Eq, Structural)]
pub enum Style {
    Section,
    Label,
    Value,
    Yellow,
    On,
    Off,
    Disabled,
    /// A bar for a percentage.
    Bar(u8),
    BadgeOn,
    BadgeOff,
}

/// A piece of text on the information page.
pub struct Seg {
    pub text: String,
    pub style: Style,
}

/// The pieces of a line as plain values.
pub open spec fn segs(row: Seq<Seg>) -> Seq<(Seq<char>, Style)> {
    row.map_values(|s: Seg| (s.text@, s.style))
}

/// The lines of the page as plain values.
pub open spec fn lines(rows: Seq<Vec<Seg>>) -> Seq<Seq<(Seq<char>, Style)>> {
    rows.map_values(|r: Vec<Seg>| segs(r@))
}

/// How a signal strength is coloured.
pub open spec fn rssi_style(rssi: i32) -> Style {
    if rssi > -60 {
        Style::On
    } else if rssi > -80 {
        Style::Yellow
    } else {
        Style::Off
    }
}

/// How a temperature is coloured.
pub open spec fn heat_style(heat: Heat) -> Style {
    match heat {
        Heat::Normal => Style::On,
        Heat::Warm => Style::Yellow,
        Heat::Hot => Style::Off,
    }
}

/// A number in decimal, at least three characters wide.
pub open spec fn pad3(n: nat) -> Seq<char> {
    let d = text::dec(n);
    if d.len() == 1 {
        seq![' ', ' '] + d
    } else if d.len() == 2 {
        seq![' '] + d
    } else {
        d
    }
}

/// The line about the USB port.
pub open spec fn cdc_line(v: Usb) -> Seq<(Seq<char>, Style)> {
    if !v.cdc_enabled {
        seq![("CDC: "@, Style::Label), ("Disabled"@, Style::Disabled)]
    } else if !v.cdc_connected {
        seq![("CDC: "@, Style::Label), ("No device"@, Style::Disabled)]
    } else {
        seq![
            ("CDC: "@, Style::Label),
            (v.chip, Style::Yellow),
            (seq![' '] + text::hex4(v.vid) + seq![':'] + text::hex4(v.pid), Style::Value),
            (" Ports:"@ + text::dec(v.ports as nat), Style::Value),
        ]
    }
}

/// The line about a UART.
pub open spec fn com_line(name: Seq<char>, com: (Seq<char>, Seq<char>, Seq<char>)) -> Seq<
    (Seq<char>, Style),
> {
    seq![
        (name, Style::Label),
        (com.0 + "bps"@, Style::Value),
        (" TX:"@, Style::Label),
        (com.1, Style::Yellow),
        (" RX:"@, Style::Label),
        (com.2, Style::Yellow),
    ]
}

/// The first `n` outputs, each as its pin and a badge.
pub open spec fn gpio_line(gpio: Seq<bool>, n: nat) -> Seq<(Seq<char>, Style)>
    decreases n,
{
    if n == 0 {
        Seq::empty()
    } else {
        let i = (n - 1) as nat;
        gpio_line(gpio, i).push((text::dec(i + 4) + seq![':'], Style::Label)).push(
            if gpio[i as int] {
                (" ON "@, Style::BadgeOn)
            } else {
                ("OFF "@, Style::BadgeOff)
            },
        )
    }
}

/// The line about a PWM output.
pub open spec fn pwm_line(name: Seq<char>, duty: u8) -> Seq<(Seq<char>, Style)> {
    seq![
        (name, Style::Label),
        (pad3(duty as nat) + "% "@, Style::Yellow),
        (seq!['B'] + text::dec(duty as nat), Style::Bar(duty)),
    ]
}

/// The lines of the information page.
pub open spec fn info_lines(v: Info) -> Seq<Seq<(Seq<char>, Style)>> {
    seq![
        seq![("-- Network --"@, Style::Section)],
        seq![("IP: "@, Style::Label), (v.status.ip_address, Style::Yellow)],
        seq![
            ("WiFi: "@, Style::Label),
            (v.status.ssid, Style::Value),
            ("  RSSI: "@, Style::Label),
            (text::dec_int(v.status.rssi as int) + "dBm"@, rssi_style(v.status.rssi)),
        ],
        seq![
            ("DC In: "@, Style::Label),
            (v.status.dc_in_voltage + "V"@, Style::Yellow),
            ("  DC Out: "@, Style::Label),
            (v.status.dc_out_voltage + "V"@, Style::Yellow),
        ],
        seq![
            ("ChipTemp: "@, Style::Label),
            (v.status.chip_temp + "C"@, heat_style(v.status.heat)),
        ],
        seq![("-- Device --"@, Style::Section)],
        seq![("Active: "@, Style::Label), (v.usb.active, Style::Yellow)],
        cdc_line(v.usb),
        seq![("-- Serial --"@, Style::Section)],
        com_line("COM1 "@, v.com1),
        com_line("COM2 "@, v.com2),
        seq![("USB  "@, Style::Label), (v.cdc_baud + "bps"@, Style::Value)],
        seq![("-- GPIO --"@, Style::Section)],
        gpio_line(v.gpio, 6),
        pwm_line("PWM10:"@, v.pwm[0]),
        pwm_line("PWM11:"@, v.pwm[1]),
    ]
}

/// Adds a piece to a line.
fn add_seg(row: &mut Vec<Seg>, text: &str, style: Style)
    ensures
        segs(final(row)@) == segs(old(row)@).push((text@, style)),
{
    row.push(Seg { text: text.to_owned(), style });
    proof {
        assert(segs(row@) =~= segs(old(row)@).push((text@, style)));
    }
}

/// Adds a line to a page.
fn add_row(rows: &mut Vec<Vec<Seg>>, row: Vec<Seg>)
    ensures
        lines(final(rows)@) == lines(old(rows)@).push(segs(row@)),
{
    rows.push(row);
    proof {
        assert(lines(rows@) =~= lines(old(rows)@).push(segs(row@)));
    }
}

/// A line of one piece.
fn row1(a: &str, sa: Style) -> (row: Vec<Seg>)
    ensures
        segs(row@) == seq![(a@, sa)],
{
    let mut row: Vec<Seg> = Vec::new();
    add_seg(&mut row, a, sa);
    proof {
        assert(segs(row@) =~= seq![(a@, sa)]);
    }
    row
}

/// A line of a label and a value.
fn row2(a: &str, sa: Style, b: &str, sb: Style) -> (row: Vec<Seg>)
    ensures
        segs(row@) == seq![(a@, sa), (b@, sb)],
{
    let mut row = row1(a, sa);
    add_seg(&mut row, b, sb);
    proof {
        assert(segs(row@) =~= seq![(a@, sa), (b@, sb)]);
    }
    row
}

/// `a` with `b` behind it.
fn concat(a: &str, b: &str) -> (r: String)
    ensures
        r@ == a@ + b@,
{
    let mut out = a.to_owned();
    out.append(b);
    out
}

/// The line about a UART.
fn com_row(name: &str, baud: &str, tx: &str, rx: &str) -> (row: Vec<Seg>)
    ensures
        segs(row@) == com_line(name@, (baud@, tx@, rx@)),
{
    let rate = concat(baud, "bps");
    let mut row = row2(name, Style::Label, rate.as_str(), Style::Value);
    add_seg(&mut row, " TX:", Style::Label);
    add_seg(&mut row, tx, Style::Yellow);
    add_seg(&mut row, " RX:", Style::Label);
    add_seg(&mut row, rx, Style::Yellow);
    proof {
        assert(segs(row@) =~= com_line(name@, (baud@, tx@, rx@)));
    }
    row
}

/// The line about a PWM output.
fn pwm_row(name: &str, duty: u8) -> (row: Vec<Seg>)
    ensures
        segs(row@) == pwm_line(name@, duty),
{
    let digits = text::dec_text(duty as u64);
    let mut percent = String::new();
    proof {
        lemma_dec_len(duty);
    }
    if duty < 10 {
        percent.push(' ');
        percent.push(' ');
    } else if duty < 100 {
        percent.push(' ');
    }
    percent.append(digits.as_str());
    proof {
        assert(percent@ =~= pad3(duty as nat));
    }
    percent.append("% ");
    let mut bar = String::new();
    bar.push('B');
    bar.append(digits.as_str());
    proof {
        assert(bar@ =~= seq!['B'] + text::dec(duty as nat));
    }
    let mut row = row2(name, Style::Label, percent.as_str(), Style::Yellow);
    add_seg(&mut row, bar.as_str(), Style::Bar(duty));
    proof {
        assert(segs(row@) =~= pwm_line(name@, duty));
    }
    row
}

proof fn lemma_dec_len(n: u8)
    ensures
        text::dec(n as nat).len() == if n < 10 {
            1nat
        } else if n < 100 {
            2nat
        } else {
            3nat
        },
{
    reveal_with_fuel(text::dec, 4);
}

/// The line about the digital outputs.
fn gpio_row(gpio: &[bool; 7]) -> (row: Vec<Seg>)
    ensures
        segs(row@) == gpio_line(gpio@, 6),
{
    let mut row: Vec<Seg> = Vec::new();
    let mut i: usize = 0;
    proof {
        assert(segs(row@) =~= gpio_line(gpio@, 0));
    }
    while i < 6
        invariant
            i <= 6,
            gpio@.len() == 7,
            segs(row@) == gpio_line(gpio@, i as nat),
        decreases 6 - i,
    {
        let mut pin = text::dec_text(i as u64 + 4);
        pin.push(':');
        proof {
            assert(pin@ =~= text::dec((i + 4) as nat) + seq![':']);
        }
        add_seg(&mut row, pin.as_str(), Style::Label);
        if gpio[i] {
            add_seg(&mut row, " ON ", Style::BadgeOn);
        } else {
            add_seg(&mut row, "OFF ", Style::BadgeOff);
        }
        i = i + 1;
    }
    row
}

/// The line about the USB port.
fn cdc_row(usb: &UsbSummary) -> (row: Vec<Seg>)
    ensures
        segs(row@) == cdc_line(usb@),
{
    if !usb.cdc_enabled {
        return row2("CDC: ", Style::Label, "Disabled", Style::Disabled);
    }
    if !usb.cdc_connected {
        return row2("CDC: ", Style::Label, "No device", Style::Disabled);
    }
    let mut row = row2("CDC: ", Style::Label, usb.chip.as_str(), Style::Yellow);
    let mut ids = String::new();
    ids.push(' ');
    push_hex4(&mut ids, usb.vid);
    ids.push(':');
    push_hex4(&mut ids, usb.pid);
    proof {
        assert(ids@ =~= seq![' '] + text::hex4(usb.vid) + seq![':'] + text::hex4(usb.pid));
    }
    add_seg(&mut row, ids.as_str(), Style::Value);
    let mut ports = " Ports:".to_owned();
    push_dec(&mut ports, usb.ports as u64);
    add_seg(&mut row, ports.as_str(), Style::Value);
    proof {
        assert(segs(row@) =~= cdc_line(usb@));
    }
    row
}

/// The lines about network and sensors.
fn network_rows(st: &StatusInfo, rows: &mut Vec<Vec<Seg>>)
    requires
        old(rows)@.len() == 0,
    ensures
        forall|v: Info|
            v.status == st@ ==> lines(final(rows)@) == #[trigger] info_lines(v).take(5),
{
    add_row(rows, row1("-- Network --", Style::Section));
    add_row(rows, row2("IP: ", Style::Label, st.ip_address.as_str(), Style::Yellow));
    let mut row = row2("WiFi: ", Style::Label, st.ssid.as_str(), Style::Value);
    add_seg(&mut row, "  RSSI: ", Style::Label);
    let mut level = String::new();
    push_int(&mut level, st.rssi);
    level.append("dBm");
    proof {
        assert(level@ =~= text::dec_int(st.rssi as int) + "dBm"@);
    }
    let style = if st.rssi > -60 {
        Style::On
    } else if st.rssi > -80 {
        Style::Yellow
    } else {
        Style::Off
    };
    add_seg(&mut row, level.as_str(), style);
    let ghost third = segs(row@);
    add_row(rows, row);
    let dc_in = concat(st.dc_in_voltage.as_str(), "V");
    let dc_out = concat(st.dc_out_voltage.as_str(), "V");
    let mut row = row2("DC In: ", Style::Label, dc_in.as_str(), Style::Yellow);
    add_seg(&mut row, "  DC Out: ", Style::Label);
    add_seg(&mut row, dc_out.as_str(), Style::Yellow);
    let ghost fourth = segs(row@);
    add_row(rows, row);
    let temp = concat(st.chip_temp.as_str(), "C");
    let style = match st.heat {
        Heat::Normal => Style::On,
        Heat::Warm => Style::Yellow,
        Heat::Hot => Style::Off,
    };
    add_row(rows, row2("ChipTemp: ", Style::Label, temp.as_str(), style));
    proof {
        assert forall|v: Info| v.status == st@ implies lines(rows@) == #[trigger] info_lines(
            v,
        ).take(5) by {
            let want = info_lines(v);
            assert(third =~= want[2]);
            assert(fourth =~= want[3]);
            assert(lines(rows@) =~= want.take(5));
        }
    }
}

/// The lines of the information page.
pub fn info_rows(aux: &Option<DisplayAux>, usb: &UsbSummary) -> (rows: Vec<Vec<Seg>>)
    requires
        aux matches Some(a) ==> a.gpio_state.wf(),
    ensures
        lines(rows@) == info_lines(info(*aux, usb@)),
{
    let unread = StatusInfo::new();
    let off = GpioPwmState::new();
    let mut rows: Vec<Vec<Seg>> = Vec::new();
    let ghost v = info(*aux, usb@);
    let (st, gpio): (&StatusInfo, &GpioPwmState) = match aux {
        Some(a) => (&a.status, &a.gpio_state),
        None => (&unread, &off),
    };
    network_rows(st, &mut rows);
    proof {
        assert(lines(rows@) == info_lines(v).take(5));
    }
    add_row(&mut rows, row1("-- Device --", Style::Section));
    add_row(&mut rows, row2("Active: ", Style::Label, usb.active.as_str(), Style::Yellow));
    add_row(&mut rows, cdc_row(usb));
    add_row(&mut rows, row1("-- Serial --", Style::Section));
    match aux {
        Some(a) => {
            add_row(
                &mut rows,
                com_row("COM1 ", a.com1_baud.as_str(), a.com1_tx.as_str(), a.com1_rx.as_str()),
            );
            add_row(
                &mut rows,
                com_row("COM2 ", a.com2_baud.as_str(), a.com2_tx.as_str(), a.com2_rx.as_str()),
            );
            let rate = concat(a.cdc_baud.as_str(), "bps");
            add_row(&mut rows, row2("USB  ", Style::Label, rate.as_str(), Style::Value));
        },
        None => {
            add_row(&mut rows, com_row("COM1 ", "--", "--", "--"));
            add_row(&mut rows, com_row("COM2 ", "--", "--", "--"));
            let rate = concat("--", "bps");
            add_row(&mut rows, row2("USB  ", Style::Label, rate.as_str(), Style::Value));
        },
    }
    add_row(&mut rows, row1("-- GPIO --", Style::Section));
    let states = gpio.get_gpio();
    let duties = gpio.get_pwm();
    add_row(&mut rows, gpio_row(&states));
    add_row(&mut rows, pwm_row("PWM10:", duties[0]));
    add_row(&mut rows, pwm_row("PWM11:", duties[1]));
    proof {
        assert(states@ =~= v.gpio);
        assert(lines(rows@) =~= info_lines(v));
    }
    rows
}

/// The text of a line.
pub open spec fn flat(row: Seq<(Seq<char>, Style)>) -> Seq<char>
    decreases row.len(),
{
    if row.len() == 0 {
        Seq::empty()
    } else {
        flat(row.drop_last()) + row.last().0
    }
}

/// The text of a line.
fn flat_text(row: &Vec<Seg>) -> (r: String)
    ensures
        r@ == flat(segs(row@)),
{
    let mut out = String::new();
    let mut i: usize = 0;
    while i < row.len()
        invariant
            i <= row@.len(),
            out@ == flat(segs(row@).take(i as int)),
        decreases row@.len() - i,
    {
        proof {
            assert(segs(row@).take(i + 1).drop_last() =~= segs(row@).take(i as int));
            assert(segs(row@)[i as int].0 == row@[i as int].text@);
        }
        out.append(row[i].text.as_str());
        i = i + 1;
    }
    proof {
        assert(segs(row@).take(row@.len() as int) =~= segs(row@));
    }
    out
}

/// The text of each line.
pub open spec fn flats(rows: Seq<Seq<(Seq<char>, Style)>>) -> Seq<Seq<char>> {
    rows.map_values(|r: Seq<(Seq<char>, Style)>| flat(r))
}

/// A number reduced to the range of 32-bit signed numbers.
pub open spec fn wrap32(n: int) -> int {
    (n + 0x8000_0000) % 0x1_0000_0000 - 0x8000_0000
}

/// Length of a text in bytes.
pub open spec fn byte_len(t: Seq<char>) -> nat {
    vstd::utf8::encode_utf8(t).len()
}

/// The position behind a text of `len` bytes that begins at `x`.
pub open spec fn advanced(x: int, len: nat) -> int {
    wrap32(x + len * 6)
}

/// The position behind a text of `len` bytes that begins at `x`.
fn advance(x: i32, len: usize) -> (r: i32)
    ensures
        r == advanced(x as int, len as nat),
{
    let low: u64 = len as u64 % 0x1_0000_0000;
    let sum: u64 = (low * 6 + (x as i64 + 0x8000_0000) as u64) % 0x1_0000_0000;
    proof {
        let k = len as int / 0x1_0000_0000;
        assert(len == k * 0x1_0000_0000 + low);
        assert(len * 6 + x + 0x8000_0000 == (k * 6) * 0x1_0000_0000 + (low * 6 + x + 0x8000_0000));
        vstd::arithmetic::div_mod::lemma_mod_multiples_vanish(
            k * 6,
            low * 6 + x + 0x8000_0000,
            0x1_0000_0000,
        );
    }
    (sum as i64 - 0x8000_0000) as i32
}

/// The colour of plain text.
pub open spec fn text_ink(style: Style) -> Ink {
    match style {
        Style::Section => Ink::LightGreen,
        Style::Label => Ink::Rgb(color::rgb(0, 50, 31)),
        Style::Yellow => Ink::Yellow,
        Style::On => Ink::Green,
        Style::Off => Ink::Rgb(color::rgb(21, 0, 0)),
        Style::Disabled => Ink::Rgb(color::rgb(10, 21, 10)),
        _ => Ink::White,
    }
}

/// The colour of a bar.
pub open spec fn bar_ink(duty: u8) -> Ink {
    if duty < 30 {
        Ink::Green
    } else if duty < 70 {
        Ink::Yellow
    } else {
        Ink::Rgb(color::rgb(31, 10, 0))
    }
}

/// The width of the filled part of a bar.
pub open spec fn bar_width(duty: u8) -> u32 {
    (duty * 200 / 100) as u32
}

/// The steps that draw a piece at `x` in the line that begins at `y`.
pub open spec fn seg_ops(seg: (Seq<char>, Style), x: int, y: int) -> Seq<Op> {
    match seg.1 {
        Style::Bar(duty) => {
            let track = Op::Fill {
                x: x as i32,
                y: (y + 2) as i32,
                w: 200,
                h: 8,
                ink: Ink::Rgb(color::rgb(4, 8, 4)),
            };
            if bar_width(duty) > 0 {
                seq![
                    track,
                    Op::Fill {
                        x: x as i32,
                        y: (y + 2) as i32,
                        w: bar_width(duty),
                        h: 8,
                        ink: bar_ink(duty),
                    },
                ]
            } else {
                seq![track]
            }
        },
        Style::BadgeOn | Style::BadgeOff => {
            let on = seg.1 == Style::BadgeOn;
            seq![
                Op::Fill {
                    x: x as i32,
                    y: y as i32,
                    w: (byte_len(seg.0) * 6 % 0x1_0000_0000) as u32,
                    h: 12,
                    ink: if on {
                        Ink::Green
                    } else {
                        Ink::Rgb(color::rgb(10, 0, 0))
                    },
                },
                Op::Text {
                    text: seg.0,
                    x: x as i32,
                    y: (y + 10) as i32,
                    font: Font::Size6x12,
                    ink: if on {
                        Ink::Black
                    } else {
                        Ink::White
                    },
                },
            ]
        },
        style => seq![
            Op::Text {
                text: seg.0,
                x: x as i32,
                y: (y + 10) as i32,
                font: Font::Size6x12,
                ink: text_ink(style),
            },
        ],
    }
}

/// Where the piece behind one that begins at `x` begins.
pub open spec fn seg_end(seg: (Seq<char>, Style), x: int) -> int {
    match seg.1 {
        Style::Bar(_) => wrap32(x + 202),
        _ => advanced(x, byte_len(seg.0)),
    }
}

/// Where the pieces of a line end.
pub open spec fn row_end(row: Seq<(Seq<char>, Style)>) -> int
    decreases row.len(),
{
    if row.len() == 0 {
        2
    } else {
        seg_end(row.last(), row_end(row.drop_last()))
    }
}

/// The steps that draw the pieces of a line.
pub open spec fn row_ops(row: Seq<(Seq<char>, Style)>, y: int) -> Seq<Op>
    decreases row.len(),
{
    if row.len() == 0 {
        Seq::empty()
    } else {
        row_ops(row.drop_last(), y) + seg_ops(row.last(), row_end(row.drop_last()), y)
    }
}

/// Top of text line `i`.
pub open spec fn line_y(i: int) -> int {
    HEADER_H + 1 + i * CHAR_H
}

/// The steps that draw line `i`: a black background, a separator over a section title, the text.
pub open spec fn line_ops(row: Seq<(Seq<char>, Style)>, i: int) -> Seq<Op> {
    let y = line_y(i);
    let cleared = seq![Op::Fill { x: 0, y: y as i32, w: 320, h: 12, ink: Ink::Black }];
    let separator = if row.len() == 1 && row[0].1 == Style::Section {
        seq![
            Op::Fill { x: 0, y: y as i32, w: 320, h: 1, ink: Ink::Rgb(color::rgb(0, 15, 0)) },
        ]
    } else {
        Seq::empty()
    };
    cleared + separator + row_ops(row, y)
}

/// Whether line `i` has to be drawn.
pub open spec fn line_changed(
    rows: Seq<Seq<(Seq<char>, Style)>>,
    force: bool,
    prev: Seq<Seq<char>>,
    i: int,
) -> bool {
    force || i >= prev.len() || prev[i] != flat(rows[i])
}

/// The steps that draw the first `n` lines where they changed.
pub open spec fn info_ops(
    rows: Seq<Seq<(Seq<char>, Style)>>,
    force: bool,
    prev: Seq<Seq<char>>,
    n: nat,
) -> Seq<Op>
    decreases n,
{
    if n == 0 {
        Seq::empty()
    } else {
        let i = (n - 1) as nat;
        let before = info_ops(rows, force, prev, i);
        if line_changed(rows, force, prev, i as int) {
            before + line_ops(rows[i as int], i as int)
        } else {
            before
        }
    }
}

/// How many of `len` lines fit the display.
pub open spec fn visible(len: nat) -> nat {
    if len <= TERM_ROWS {
        len
    } else {
        TERM_ROWS as nat
    }
}

/// Draws a piece at `x` in the line that begins at `y` and gives the position behind it.
fn draw_seg(seg: &Seg, x: i32, y: i32, out: &mut Vec<DrawOp>) -> (end: i32)
    requires
        0 <= y <= 1000,
    ensures
        draw::ops(final(out)@) == draw::ops(old(out)@) + seg_ops(
            (seg.text@, seg.style),
            x as int,
            y as int,
        ),
        end == seg_end((seg.text@, seg.style), x as int),
{
    let ghost before = draw::ops(out@);
    let end: i32 = match seg.style {
        Style::Bar(duty) => {
            add_fill(out, x, y + 2, 200, 8, Ink::Rgb(rgb565_new(4, 8, 4)));
            let fill_w: u32 = duty as u32 * 200 / 100;
            if fill_w > 0 {
                let ink = if duty < 30 {
                    Ink::Green
                } else if duty < 70 {
                    Ink::Yellow
                } else {
                    Ink::Rgb(rgb565_new(31, 10, 0))
                };
                add_fill(out, x, y + 2, fill_w, 8, ink);
            }
            ((x as i64 + 202 + 0x8000_0000) % 0x1_0000_0000 - 0x8000_0000) as i32
        },
        Style::BadgeOn | Style::BadgeOff => {
            let on = seg.style == Style::BadgeOn;
            let len: usize = seg.text.as_str().as_bytes().len();
            let low: u64 = len as u64 % 0x1_0000_0000;
            let w: u32 = (low * 6 % 0x1_0000_0000) as u32;
            proof {
                let k = len as int / 0x1_0000_0000;
                assert(len * 6 == (k * 6) * 0x1_0000_0000 + low * 6);
                vstd::arithmetic::div_mod::lemma_mod_multiples_vanish(
                    k * 6,
                    low * 6,
                    0x1_0000_0000,
                );
            }
            let (bg, fg): (Ink, Ink) = if on {
                (Ink::Green, Ink::Black)
            } else {
                (Ink::Rgb(rgb565_new(10, 0, 0)), Ink::White)
            };
            add_fill(out, x, y, w, 12, bg);
            add_text(out, seg.text.as_str(), x, y + 10, Font::Size6x12, fg);
            advance(x, len)
        },
        style => {
            let ink = match style {
                Style::Section => Ink::LightGreen,
                Style::Label => Ink::Rgb(rgb565_new(0, 50, 31)),
                Style::Yellow => Ink::Yellow,
                Style::On => Ink::Green,
                Style::Off => Ink::Rgb(rgb565_new(21, 0, 0)),
                Style::Disabled => Ink::Rgb(rgb565_new(10, 21, 10)),
                _ => Ink::White,
            };
            add_text(out, seg.text.as_str(), x, y + 10, Font::Size6x12, ink);
            advance(x, seg.text.as_str().as_bytes().len())
        },
    };
    proof {
        assert(draw::ops(out@) =~= before + seg_ops((seg.text@, seg.style), x as int, y as int));
    }
    end
}

/// Draws line `i`.
fn draw_line(row: &Vec<Seg>, i: usize, out: &mut Vec<DrawOp>)
    requires
        i < TERM_ROWS,
    ensures
        draw::ops(final(out)@) == draw::ops(old(out)@) + line_ops(segs(row@), i as int),
{
    let y: i32 = HEADER_H + 1 + i as i32 * CHAR_H;
    let ghost all = segs(row@);
    let ghost base = draw::ops(out@);
    add_fill(out, 0, y, 320, 12, Ink::Black);
    let ghost plain = row@.len() == 1 && all[0].1 == Style::Section;
    if row.len() == 1 && row[0].style == Style::Section {
        add_fill(out, 0, y, 320, 1, Ink::Rgb(rgb565_new(0, 15, 0)));
    }
    let ghost start = draw::ops(out@);
    let mut x: i32 = 2;
    let mut k: usize = 0;
    proof {
        assert(start =~= start + row_ops(all.take(0), y as int));
    }
    while k < row.len()
        invariant
            k <= row@.len(),
            0 <= y <= 1000,
            all == segs(row@),
            x == row_end(all.take(k as int)),
            draw::ops(out@) == start + row_ops(all.take(k as int), y as int),
        decreases row@.len() - k,
    {
        proof {
            assert(all.take(k + 1).drop_last() =~= all.take(k as int));
        }
        let ghost before = draw::ops(out@);
        x = draw_seg(&row[k], x, y, out);
        proof {
            assert(draw::ops(out@) =~= start + row_ops(all.take(k + 1), y as int));
        }
        k = k + 1;
    }
    proof {
        assert(all.take(all.len() as int) =~= all);
        assert(draw::ops(out@) =~= base + line_ops(all, i as int));
    }
}

/// Draws the lines of the information page that changed since `prev_lines`, all of them where
/// `force` says so, and remembers their texts.
pub fn draw_info_page(rows: &Vec<Vec<Seg>>, force: bool, prev_lines: &mut Vec<String>) -> (out: Vec<
    DrawOp,
>)
    ensures
        draw::ops(out@) == info_ops(
            lines(rows@),
            force,
            text::views(old(prev_lines)@),
            visible(rows@.len()),
        ),
        text::views(final(prev_lines)@) == flats(lines(rows@)),
{
    let mut out: Vec<DrawOp> = Vec::new();
    let mut texts: Vec<String> = Vec::new();
    let ghost all = lines(rows@);
    let ghost prev = text::views(prev_lines@);
    proof {
        assert(draw::ops(out@) =~= Seq::<Op>::empty());
    }
    let mut i: usize = 0;
    while i < rows.len()
        invariant
            i <= rows@.len(),
            all == lines(rows@),
            prev == text::views(prev_lines@),
            prev_lines == old(prev_lines),
            text::views(texts@) == flats(all).take(i as int),
            draw::ops(out@) == info_ops(all, force, prev, visible(i as nat)),
        decreases rows@.len() - i,
    {
        let t = flat_text(&rows[i]);
        proof {
            assert(all[i as int] == segs(rows@[i as int]@));
        }
        if i < TERM_ROWS {
            let changed = force || i >= prev_lines.len() || !same(
                prev_lines[i].as_str(),
                t.as_str(),
            );
            proof {
                if i < prev_lines@.len() {
                    assert(prev[i as int] == prev_lines@[i as int]@);
                }
                assert(changed == line_changed(all, force, prev, i as int));
            }
            if changed {
                draw_line(&rows[i], i, &mut out);
            }
        }
        let ghost done = text::views(texts@);
        texts.push(t);
        proof {
            assert(text::views(texts@) =~= done.push(t@));
            assert(flats(all).take(i + 1) =~= done.push(t@));
        }
        i = i + 1;
    }
    proof {
        assert(flats(all).take(all.len() as int) =~= flats(all));
    }
    *prev_lines = texts;
    out
}

/// The title of a page.
pub open spec fn page_title(page: u8) -> Seq<char> {
    let name = if page == PAGE_INFO {
        "SYSTEM INFO   "@
    } else if page == PAGE_COM1 {
        "SERIAL [COM1] "@
    } else if page == PAGE_COM2 {
        "SERIAL [COM2] "@
    } else if page == PAGE_USB {
        "SERIAL [USB]  "@
    } else {
        "UNKNOWN       "@
    };
    name + text::dec(((page + 1) % 256) as nat) + "/"@ + text::dec(PAGE_COUNT as nat)
}

/// The steps that draw a header with a title.
pub open spec fn header_ops(title: Seq<char>) -> Seq<Op> {
    seq![
        Op::Fill { x: 0, y: 0, w: 320, h: 20, ink: Ink::Black },
        Op::Text { text: title, x: 4, y: 16, font: Font::Size10x20, ink: Ink::LightGreen },
        Op::Fill { x: 0, y: 20, w: 320, h: 1, ink: Ink::DarkGreen },
    ]
}

/// Draws a header with a title.
fn draw_title(title: &str, out: &mut Vec<DrawOp>)
    ensures
        draw::ops(final(out)@) == draw::ops(old(out)@) + header_ops(title@),
{
    let ghost before = draw::ops(out@);
    add_fill(out, 0, 0, 320, HEADER_H as u32, Ink::Black);
    add_text(out, title, 4, 16, Font::Size10x20, Ink::LightGreen);
    add_fill(out, 0, HEADER_H, 320, 1, Ink::DarkGreen);
    proof {
        assert(draw::ops(out@) =~= before + header_ops(title@));
    }
}

/// Draws the header of a page.
pub fn draw_header(page: u8, out: &mut Vec<DrawOp>)
    ensures
        draw::ops(final(out)@) == draw::ops(old(out)@) + header_ops(page_title(page)),
{
    let name = match page {
        PAGE_INFO => "SYSTEM INFO   ",
        PAGE_COM1 => "SERIAL [COM1] ",
        PAGE_COM2 => "SERIAL [COM2] ",
        PAGE_USB => "SERIAL [USB]  ",
        _ => "UNKNOWN       ",
    };
    let mut title = name.to_owned();
    let number: u64 = (page as u64 + 1) % 256;
    push_dec(&mut title, number);
    title.append("/");
    push_dec(&mut title, PAGE_COUNT as u64);
    draw_title(title.as_str(), out);
}

/// The steps that draw one cell.
pub open spec fn cell_ops(cell: Cell, row: int, col: int) -> Seq<Op> {
    let x = (col * CHAR_W) as i32;
    let back = Op::Fill { x, y: line_y(row) as i32, w: 6, h: 12, ink: Ink::Rgb(cell.bg) };
    if cell.ch == ' ' {
        seq![back]
    } else {
        seq![
            back,
            Op::Text {
                text: seq![cell.ch],
                x,
                y: (line_y(row) + 10) as i32,
                font: Font::Size6x12,
                ink: Ink::Rgb(cell.fg),
            },
        ]
    }
}

/// The steps that draw the first `n` cells, row by row, where they differ from `prev`; all of
/// them where `force` says so.
pub open spec fn cells_ops(
    cells: Seq<Seq<Cell>>,
    prev: Seq<Seq<Cell>>,
    force: bool,
    n: nat,
) -> Seq<Op>
    decreases n,
{
    if n == 0 {
        Seq::empty()
    } else {
        let i = (n - 1) as nat;
        let row = i as int / TERM_COLS as int;
        let col = i as int % TERM_COLS as int;
        let before = cells_ops(cells, prev, force, i);
        if force || cells[row][col] != prev[row][col] {
            before + cell_ops(cells[row][col], row, col)
        } else {
            before
        }
    }
}

/// The number of cells.
pub open spec fn cell_count() -> nat {
    (TERM_ROWS * TERM_COLS) as nat
}

/// The steps that bring a terminal onto the display that shows `prev`.
pub open spec fn terminal_ops(t: Screen, prev: Seq<Seq<Cell>>, force: bool) -> Seq<Op> {
    if t.dirty || force {
        cells_ops(t.cells, prev, force, cell_count())
    } else {
        Seq::empty()
    }
}

/// What the display shows after these steps.
pub open spec fn terminal_shown(t: Screen, prev: Seq<Seq<Cell>>, force: bool) -> Seq<Seq<Cell>> {
    if t.dirty || force {
        t.cells
    } else {
        prev
    }
}

/// Draws the cells of a terminal that differ from what the display shows.
pub fn draw_terminal_page(
    rx_buf: &mut SerialRxBuffer,
    prev_cells: &mut [[Cell; TERM_COLS]; TERM_ROWS],
    force: bool,
) -> (out: Vec<DrawOp>)
    ensures
        final(rx_buf)@ == (Screen { dirty: false, ..old(rx_buf)@ }),
        draw::ops(out@) == terminal_ops(old(rx_buf)@, terminal::grid(*old(prev_cells)), force),
        terminal::grid(*final(prev_cells)) == terminal_shown(
            old(rx_buf)@,
            terminal::grid(*old(prev_cells)),
            force,
        ),
{
    let mut out: Vec<DrawOp> = Vec::new();
    let dirty = rx_buf.inner.take_dirty();
    proof {
        assert(draw::ops(out@) =~= Seq::<Op>::empty());
    }
    if !dirty && !force {
        return out;
    }
    let cells = rx_buf.inner.cells();
    let ghost now = terminal::grid(cells);
    let ghost prev = terminal::grid(*prev_cells);
    let mut row: usize = 0;
    while row < TERM_ROWS
        invariant
            row <= TERM_ROWS,
            now == terminal::grid(cells),
            prev == terminal::grid(*old(prev_cells)),
            draw::ops(out@) == cells_ops(now, prev, force, (row * TERM_COLS) as nat),
            forall|r: int|
                0 <= r < TERM_ROWS ==> #[trigger] prev_cells@[r] == if r < row {
                    cells@[r]
                } else {
                    old(prev_cells)@[r]
                },
        decreases TERM_ROWS - row,
    {
        let mut col: usize = 0;
        while col < TERM_COLS
            invariant
                row < TERM_ROWS,
                col <= TERM_COLS,
                now == terminal::grid(cells),
                prev == terminal::grid(*old(prev_cells)),
                draw::ops(out@) == cells_ops(now, prev, force, (row * TERM_COLS + col) as nat),
                forall|r: int|
                    0 <= r < TERM_ROWS && r != row ==> #[trigger] prev_cells@[r] == if r < row {
                        cells@[r]
                    } else {
                        old(prev_cells)@[r]
                    },
                forall|c: int|
                    0 <= c < TERM_COLS ==> #[trigger] prev_cells@[row as int]@[c] == if c < col {
                        cells@[row as int]@[c]
                    } else {
                        old(prev_cells)@[row as int]@[c]
                    },
            decreases TERM_COLS - col,
        {
            let cell = cells[row][col];
            let shown = prev_cells[row][col];
            proof {
                let i = row * TERM_COLS + col;
                assert(i / TERM_COLS as int == row && i % TERM_COLS as int == col);
                assert(now[row as int][col as int] == cell);
                assert(prev[row as int][col as int] == shown);
            }
            if force || cell != shown {
                let px: i32 = col as i32 * CHAR_W;
                let py: i32 = HEADER_H + 1 + row as i32 * CHAR_H;
                let ghost before = draw::ops(out@);
                add_fill(&mut out, px, py, CHAR_W as u32, CHAR_H as u32, Ink::Rgb(cell.bg));
                if cell.ch != ' ' {
                    let mut s = String::new();
                    s.push(cell.ch);
                    proof {
                        assert(s@ =~= seq![cell.ch]);
                    }
                    add_text(
                        &mut out,
                        s.as_str(),
                        px,
                        py + 10,
                        Font::Size6x12,
                        Ink::Rgb(cell.fg),
                    );
                }
                proof {
                    assert(draw::ops(out@) =~= before + cell_ops(cell, row as int, col as int));
                }
                prev_cells[row][col] = cell;
            }
            col = col + 1;
        }
        proof {
            assert(prev_cells@[row as int]@ =~= cells@[row as int]@);
            assert(prev_cells@[row as int] == cells@[row as int]);
        }
        row = row + 1;
    }
    proof {
        assert(terminal::grid(*prev_cells) =~= now);
    }
    out
}

/// A message as plain values: title and text.
pub open spec fn message_view(m: Option<(String, String)>) -> Option<(Seq<char>, Seq<char>)> {
    match m {
        Some((title, body)) => Some((title@, body@)),
        None => None,
    }
}

/// The page behind a page; the first one behind the last.
pub open spec fn following(page: int) -> int {
    (page + 1) % (PAGE_COUNT as int)
}

/// What the rest of the firmware asks of the display.
pub struct DisplayState {
    page: u8,
    aux: Option<DisplayAux>,
    message: Option<(String, String)>,
}

/// A message with a title and a text.
pub open spec fn message_of(title: Seq<char>, body: Seq<char>) -> Option<(Seq<char>, Seq<char>)> {
    Some((title, body))
}

/// A page, or another one where it does not exist.
pub open spec fn page_or(page: u8, before: u8) -> u8 {
    if page < PAGE_COUNT {
        page
    } else {
        before
    }
}

impl DisplayState {
    /// The page to show.
    pub closed spec fn page(self) -> u8 {
        self.page
    }

    /// The data of the information page.
    pub closed spec fn aux(self) -> Option<DisplayAux> {
        self.aux
    }

    /// The message over the page.
    pub closed spec fn message(self) -> Option<(Seq<char>, Seq<char>)> {
        message_view(self.message)
    }

    /// The page exists, and the outputs are well-formed.
    pub open spec fn wf(self) -> bool {
        &&& self.page() < PAGE_COUNT
        &&& self.aux() matches Some(a) ==> a.gpio_state.wf()
    }

    /// The first serial port, no data, no message.
    pub fn new() -> (s: DisplayState)
        ensures
            s.wf(),
            s.page() == PAGE_COM1,
            s.aux() is None,
            s.message() is None,
    {
        DisplayState { page: PAGE_COM1, aux: None, message: None }
    }

    /// Goes to the next page, from the last one to the first.
    pub fn next_page(&mut self)
        requires
            old(self).wf(),
        ensures
            final(self).wf(),
            final(self).page() == following(old(self).page() as int),
            final(self).aux() == old(self).aux(),
            final(self).message() == old(self).message(),
    {
        self.page = (self.page + 1) % PAGE_COUNT;
    }

    /// Goes to a page; one that does not exist changes nothing.
    pub fn set_page(&mut self, page: u8)
        requires
            old(self).wf(),
        ensures
            final(self).wf(),
            final(self).page() == page_or(page, old(self).page()),
            final(self).aux() == old(self).aux(),
            final(self).message() == old(self).message(),
    {
        if page < PAGE_COUNT {
            self.page = page;
        }
    }

    /// The page to show.
    pub fn current_page(&self) -> (page: u8)
        ensures
            page == self.page(),
    {
        self.page
    }

    /// Provides the data of the information page.
    pub fn set_display_aux(&mut self, aux: DisplayAux)
        requires
            old(self).wf(),
            aux.gpio_state.wf(),
        ensures
            final(self).wf(),
            final(self).aux() == Some(aux),
            final(self).page() == old(self).page(),
            final(self).message() == old(self).message(),
    {
        self.aux = Some(aux);
    }

    /// Shows a message over the page.
    pub fn show_system_message(&mut self, title: &str, body: &str)
        requires
            old(self).wf(),
        ensures
            final(self).wf(),
            final(self).message() == message_of(title@, body@),
            final(self).page() == old(self).page(),
            final(self).aux() == old(self).aux(),
    {
        self.message = Some((title.to_owned(), body.to_owned()));
    }

    /// Takes the message away.
    pub fn clear_system_message(&mut self)
        requires
            old(self).wf(),
        ensures
            final(self).wf(),
            final(self).message() is None,
            final(self).page() == old(self).page(),
            final(self).aux() == old(self).aux(),
    {
        self.message = None;
    }
}

/// What the display shows.
pub struct Shown {
    /// The cells of the terminal page.
    pub cells: Seq<Seq<Cell>>,
    /// Whether everything has to be drawn anew.
    pub force: bool,
    pub page: u8,
    /// The texts of the information page.
    pub lines: Seq<Seq<char>>,
    pub message: Option<(Seq<char>, Seq<char>)>,
}

/// The steps that draw the first `n` lines of a message.
pub open spec fn body_ops(body: Seq<Seq<char>>, n: nat) -> Seq<Op>
    decreases n,
{
    if n == 0 {
        Seq::empty()
    } else {
        let i = (n - 1) as nat;
        body_ops(body, i).push(
            Op::Text {
                text: body[i as int],
                x: 2,
                y: (line_y(i as int) + 10) as i32,
                font: Font::Size6x12,
                ink: Ink::White,
            },
        )
    }
}

/// The steps that draw a message.
pub open spec fn message_ops(title: Seq<char>, body: Seq<char>) -> Seq<Op> {
    let parts = text::split_on(body, '\n');
    seq![Op::Clear { ink: Ink::Black }] + header_ops(title) + body_ops(parts, visible(parts.len()))
}

/// The steps of a frame with a message: none where it is on the display already.
pub open spec fn message_frame(s: Shown, title: Seq<char>, body: Seq<char>) -> Seq<Op> {
    if s.message == Some((title, body)) {
        Seq::empty()
    } else {
        message_ops(title, body)
    }
}

/// What is on the display after a frame with a message; the page behind it is drawn anew later.
pub open spec fn message_shown(s: Shown, title: Seq<char>, body: Seq<char>) -> Shown {
    Shown { message: Some((title, body)), force: true, ..s }
}

/// What is to be shown when a page is drawn: the one before, or a blank page where it changed.
pub open spec fn turned(s: Shown, page: u8) -> Shown {
    let t = if page != s.page {
        Shown { page, force: true, cells: terminal::blank_grid(), ..s }
    } else {
        s
    };
    if t.force {
        Shown { lines: Seq::empty(), message: None, ..t }
    } else {
        Shown { message: None, ..t }
    }
}

/// The steps that clear the display for a page, where they are needed.
pub open spec fn turn_ops(s: Shown, page: u8) -> Seq<Op> {
    if turned(s, page).force {
        seq![Op::Clear { ink: Ink::Black }] + header_ops(page_title(page))
    } else {
        Seq::empty()
    }
}

/// The terminal behind a page.
pub open spec fn page_terminal(page: u8, com1: Screen, com2: Screen, usb: Screen) -> Option<Screen> {
    if page == PAGE_COM1 {
        Some(com1)
    } else if page == PAGE_COM2 {
        Some(com2)
    } else if page == PAGE_USB {
        Some(usb)
    } else {
        None
    }
}

/// The steps of one frame without a message.
pub open spec fn page_ops(s: Shown, page: u8, terminal: Option<Screen>, v: Info) -> Seq<Op> {
    let t = turned(s, page);
    turn_ops(s, page) + match terminal {
        Some(term) => terminal_ops(term, t.cells, t.force),
        None => if page == PAGE_INFO {
            info_ops(info_lines(v), t.force, t.lines, visible(info_lines(v).len()))
        } else {
            Seq::empty()
        },
    }
}

/// What the display shows after a frame without a message.
pub open spec fn page_shown(s: Shown, page: u8, terminal: Option<Screen>, v: Info) -> Shown {
    let t = turned(s, page);
    match terminal {
        Some(term) => Shown {
            cells: terminal_shown(term, t.cells, t.force),
            force: false,
            ..t
        },
        None => if page == PAGE_INFO {
            Shown { lines: flats(info_lines(v)), force: false, ..t }
        } else {
            Shown { force: false, ..t }
        },
    }
}

/// A terminal after a frame: drawing it takes the mark of change away.
pub open spec fn drawn(t: Screen, is_page: bool) -> Screen {
    if is_page {
        Screen { dirty: false, ..t }
    } else {
        t
    }
}

/// A frame with a page: what is drawn, what is on the display then, and the terminals of COM1, COM2
/// and USB, of which the one that was drawn has no mark any more.
pub open spec fn page_framed(
    before: Shown,
    after: Shown,
    ops: Seq<Op>,
    page: u8,
    was: (Screen, Screen, Screen),
    now: (Screen, Screen, Screen),
    v: Info,
) -> bool {
    let term = page_terminal(page, was.0, was.1, was.2);
    &&& ops == page_ops(before, page, term, v)
    &&& after == page_shown(before, page, term, v)
    &&& now.0 == drawn(was.0, page == PAGE_COM1)
    &&& now.1 == drawn(was.1, page == PAGE_COM2)
    &&& now.2 == drawn(was.2, page == PAGE_USB)
}

/// The task that keeps the display up to date.
pub struct DisplayTask {
    prev_cells: [[Cell; TERM_COLS]; TERM_ROWS],
    force_full_redraw: bool,
    last_page: u8,
    prev_info_lines: Vec<String>,
    message: Option<(String, String)>,
}

impl View for DisplayTask {
    type V = Shown;

    closed spec fn view(&self) -> Shown {
        Shown {
            cells: terminal::grid(self.prev_cells),
            force: self.force_full_redraw,
            page: self.last_page,
            lines: text::views(self.prev_info_lines@),
            message: message_view(self.message),
        }
    }
}

/// Draws a message.
fn draw_message(title: &str, body: &str) -> (out: Vec<DrawOp>)
    ensures
        draw::ops(out@) == message_ops(title@, body@),
{
    let mut out: Vec<DrawOp> = Vec::new();
    add_op(&mut out, DrawOp::Clear { ink: Ink::Black });
    draw_title(title, &mut out);
    let parts = split_text(body, '\n');
    let ghost all = text::split_on(body@, '\n');
    let ghost start = draw::ops(out@);
    proof {
        assert(start =~= seq![Op::Clear { ink: Ink::Black }] + header_ops(title@));
        assert(start =~= start + body_ops(all, 0));
    }
    let mut i: usize = 0;
    while i < parts.len() && i < TERM_ROWS
        invariant
            i <= parts@.len(),
            i <= TERM_ROWS,
            text::views(parts@) == all,
            draw::ops(out@) == start + body_ops(all, i as nat),
        decreases parts@.len() - i,
    {
        let y: i32 = HEADER_H + 1 + i as i32 * CHAR_H;
        proof {
            assert(all[i as int] == parts@[i as int]@);
        }
        add_text(&mut out, parts[i].as_str(), 2, y + 10, Font::Size6x12, Ink::White);
        proof {
            assert(draw::ops(out@) =~= start + body_ops(all, (i + 1) as nat));
        }
        i = i + 1;
    }
    proof {
        assert(all.len() == parts@.len());
    }
    out
}

/// Whether two messages are the same.
fn same_message(a: &Option<(String, String)>, title: &str, body: &str) -> (r: bool)
    ensures
        r == (message_view(*a) == Some((title@, body@))),
{
    match a {
        Some((t, b)) => same(t.as_str(), title) && same(b.as_str(), body),
        None => false,
    }
}

impl DisplayTask {
    /// A cleared display with the header of a page; what follows draws the whole page.
    pub fn start(page: u8) -> (r: (DisplayTask, Vec<DrawOp>))
        ensures
            r.0@ == (Shown {
                cells: terminal::blank_grid(),
                force: true,
                page,
                lines: Seq::empty(),
                message: None,
            }),
            draw::ops(r.1@) == seq![Op::Clear { ink: Ink::Black }] + header_ops(page_title(page)),
    {
        let mut out: Vec<DrawOp> = Vec::new();
        add_op(&mut out, DrawOp::Clear { ink: Ink::Black });
        draw_header(page, &mut out);
        let task = DisplayTask {
            prev_cells: blank_screen(),
            force_full_redraw: true,
            last_page: page,
            prev_info_lines: Vec::new(),
            message: None,
        };
        proof {
            assert(draw::ops(out@) =~= seq![Op::Clear { ink: Ink::Black }] + header_ops(
                page_title(page),
            ));
            assert(task@.lines =~= Seq::<Seq<char>>::empty());
        }
        (task, out)
    }

    /// Draws what changed since the last frame: the message if there is one, else the page.
    pub fn frame(
        &mut self,
        state: &DisplayState,
        usb_summary: &UsbSummary,
        com1: &mut SerialRxBuffer,
        com2: &mut SerialRxBuffer,
        usb: &mut SerialRxBuffer,
    ) -> (out: Vec<DrawOp>)
        requires
            state.wf(),
        ensures
            state.message() matches Some((title, body)) ==> {
                &&& draw::ops(out@) == message_frame(old(self)@, title, body)
                &&& final(self)@ == message_shown(old(self)@, title, body)
                &&& final(com1)@ == old(com1)@
                &&& final(com2)@ == old(com2)@
                &&& final(usb)@ == old(usb)@
            },
            state.message() is None ==> {
                &&& page_framed(
                    old(self)@,
                    final(self)@,
                    draw::ops(out@),
                    state.page(),
                    (old(com1)@, old(com2)@, old(usb)@),
                    (final(com1)@, final(com2)@, final(usb)@),
                    info(state.aux(), usb_summary@),
                )
            },
    {
        let mut out: Vec<DrawOp> = Vec::new();
        proof {
            assert(draw::ops(out@) =~= Seq::<Op>::empty());
        }
        if let Some((title, body)) = &state.message {
            if !same_message(&self.message, title.as_str(), body.as_str()) {
                out = draw_message(title.as_str(), body.as_str());
                self.message = Some((title.clone(), body.clone()));
            }
            self.force_full_redraw = true;
            return out;
        }
        self.message = None;
        let page = state.page;
        if page != self.last_page {
            self.last_page = page;
            self.force_full_redraw = true;
            self.prev_cells = blank_screen();
        }
        let force = self.force_full_redraw;
        if force {
            add_op(&mut out, DrawOp::Clear { ink: Ink::Black });
            draw_header(page, &mut out);
            self.prev_info_lines = Vec::new();
        }
        proof {
            assert(draw::ops(out@) =~= turn_ops(old(self)@, page));
            assert(self@ =~= turned(old(self)@, page)) by {
                assert(self@.lines =~= turned(old(self)@, page).lines);
            }
        }
        let ghost t = self@;
        let more = match page {
            PAGE_INFO => {
                let rows = info_rows(&state.aux, usb_summary);
                draw_info_page(&rows, force, &mut self.prev_info_lines)
            },
            PAGE_COM1 => draw_terminal_page(com1, &mut self.prev_cells, force),
            PAGE_COM2 => draw_terminal_page(com2, &mut self.prev_cells, force),
            _ => draw_terminal_page(usb, &mut self.prev_cells, force),
        };
        add_all(&mut out, more);
        self.force_full_redraw = false;
        out
    }
}

/// Whether a terminal page is on the display, or will be drawn by the next frame.
pub open spec fn in_sync(s: Shown, t: Screen) -> bool {
    s.force || t.dirty || s.cells == t.cells
}

/// Received data never makes the display miss a change.
pub proof fn law_feed_keeps_sync(s: Shown, t: Screen, data: Seq<u8>)
    requires
        t.wf(),
        in_sync(s, t),
    ensures
        in_sync(s, terminal::fed(t, data)),
{
    terminal::law_change_is_marked(t, data);
}

/// A frame brings the terminal of its page onto the display.
pub proof fn law_frame_shows_terminal(s: Shown, page: u8, t: Screen, v: Info)
    requires
        page == s.page ==> in_sync(s, t),
    ensures
        page_shown(s, page, Some(t), v).cells == t.cells,
        in_sync(page_shown(s, page, Some(t), v), drawn(t, true)),
{
}

/// A second frame with nothing new draws nothing.
pub proof fn law_quiet_frame(s: Shown, page: u8, t: Screen, v: Info)
    ensures
        page_ops(page_shown(s, page, Some(t), v), page, Some(drawn(t, true)), v) == Seq::<
            Op,
        >::empty(),
        page_ops(page_shown(s, PAGE_INFO, None, v), PAGE_INFO, None, v) == Seq::<Op>::empty(),
{
    let rows = info_lines(v);
    lemma_unchanged_lines(rows, flats(rows), visible(rows.len()));
    let a = page_ops(page_shown(s, page, Some(t), v), page, Some(drawn(t, true)), v);
    let b = page_ops(page_shown(s, PAGE_INFO, None, v), PAGE_INFO, None, v);
    assert(a =~= Seq::<Op>::empty());
    assert(b =~= Seq::<Op>::empty());
}

proof fn lemma_unchanged_lines(rows: Seq<Seq<(Seq<char>, Style)>>, prev: Seq<Seq<char>>, n: nat)
    requires
        prev == flats(rows),
        n <= rows.len(),
    ensures
        info_ops(rows, false, prev, n) == Seq::<Op>::empty(),
    decreases n,
{
    if n > 0 {
        lemma_unchanged_lines(rows, prev, (n - 1) as nat);
        assert(prev[n - 1] == flat(rows[n - 1]));
    }
}

/// Four times the next page is the same page.
pub proof fn law_pages_cycle(page: int)
    requires
        0 <= page < PAGE_COUNT,
    ensures
        following(following(following(following(page)))) == page,
{
}

/// Whether a line begins with a label and goes on with these texts.
pub open spec fn reads(line: Seq<(Seq<char>, Style)>, texts: Seq<Seq<char>>) -> bool {
    &&& line.len() == texts.len()
    &&& forall|k: int| 0 <= k < texts.len() ==> (#[trigger] line[k]).0 == texts[k]
}

/// Each labelled line of the information page shows the reading that its label names, whatever the
/// other readings are.
pub proof fn law_info_lines_by_label(a: DisplayAux, usb: Usb)
    requires
        a.gpio_state.wf(),
    ensures
        ({
            let p = info_lines(info(Some(a), usb));
            &&& p.len() == 16
            &&& reads(p[1], seq!["IP: "@, a.status.ip_address@])
            &&& reads(
                p[2],
                seq![
                    "WiFi: "@,
                    a.status.ssid@,
                    "  RSSI: "@,
                    text::dec_int(a.status.rssi as int) + "dBm"@,
                ],
            )
            &&& reads(
                p[3],
                seq![
                    "DC In: "@,
                    a.status.dc_in_voltage@ + "V"@,
                    "  DC Out: "@,
                    a.status.dc_out_voltage@ + "V"@,
                ],
            )
            &&& reads(p[4], seq!["ChipTemp: "@, a.status.chip_temp@ + "C"@])
            &&& reads(p[6], seq!["Active: "@, usb.active])
            &&& p[7][0].0 == "CDC: "@
            &&& reads(
                p[9],
                seq![
                    "COM1 "@,
                    a.com1_baud@ + "bps"@,
                    " TX:"@,
                    a.com1_tx@,
                    " RX:"@,
                    a.com1_rx@,
                ],
            )
            &&& reads(
                p[10],
                seq![
                    "COM2 "@,
                    a.com2_baud@ + "bps"@,
                    " TX:"@,
                    a.com2_tx@,
                    " RX:"@,
                    a.com2_rx@,
                ],
            )
            &&& reads(p[11], seq!["USB  "@, a.cdc_baud@ + "bps"@])
            &&& p[14][0].0 == "PWM10:"@ && p[14][2].1 == Style::Bar(a.gpio_state.pwm()[0])
            &&& p[15][0].0 == "PWM11:"@ && p[15][2].1 == Style::Bar(a.gpio_state.pwm()[1])
        }),
{
}

/// The line about the USB port tells whether it is disabled, without a device, or which chip with
/// which numbers and how many ports is there.
pub proof fn law_cdc_line(aux: Option<DisplayAux>, usb: Usb)
    ensures
        ({
            let line = info_lines(info(aux, usb))[7];
            &&& !usb.cdc_enabled ==> reads(line, seq!["CDC: "@, "Disabled"@])
            &&& usb.cdc_enabled && !usb.cdc_connected ==> reads(
                line,
                seq!["CDC: "@, "No device"@],
            )
            &&& usb.cdc_enabled && usb.cdc_connected ==> reads(
                line,
                seq![
                    "CDC: "@,
                    usb.chip,
                    seq![' '] + text::hex4(usb.vid) + seq![':'] + text::hex4(usb.pid),
                    " Ports:"@ + text::dec(usb.ports as nat),
                ],
            )
        }),
{
}

/// The line about the outputs shows GPIO4 to GPIO9 in order, each with its own state.
pub proof fn law_gpio_line(a: DisplayAux, usb: Usb, i: int)
    requires
        a.gpio_state.wf(),
        0 <= i < 6,
    ensures
        ({
            let line = info_lines(info(Some(a), usb))[13];
            &&& line.len() == 12
            &&& line[2 * i].0 == seq![(52 + i) as char, ':']
            &&& a.gpio_state.gpio()[i] ==> line[2 * i + 1] == (" ON "@, Style::BadgeOn)
            &&& !a.gpio_state.gpio()[i] ==> line[2 * i + 1] == ("OFF "@, Style::BadgeOff)
        }),
{
    reveal_with_fuel(gpio_line, 7);
    reveal_with_fuel(text::dec, 2);
    let line = info_lines(info(Some(a), usb))[13];
    assert(line[2 * i].0 =~= seq![(52 + i) as char, ':']);
}

/// The percentage of a PWM line: the duty, padded to three characters.
pub proof fn law_pwm_line(a: DisplayAux, usb: Usb, k: int)
    requires
        a.gpio_state.wf(),
        0 <= k < 2,
    ensures
        ({
            let line = info_lines(info(Some(a), usb))[14 + k];
            let duty = a.gpio_state.pwm()[k];
            let shown = line[1].0;
            &&& line.len() == 3
            &&& shown.len() == 5
            &&& shown.skip(3) == "% "@
            &&& duty < 10 ==> shown.take(3) == seq![' ', ' ', (48 + duty) as char]
            &&& 10 <= duty < 100 ==> shown.take(3) == seq![
                ' ',
                (48 + duty / 10) as char,
                (48 + duty % 10) as char,
            ]
            &&& duty == 100 ==> shown.take(3) == seq!['1', '0', '0']
        }),
{
    let duty = a.gpio_state.pwm()[k];
    let line = info_lines(info(Some(a), usb))[14 + k];
    let shown = line[1].0;
    reveal_with_fuel(text::dec, 4);
    reveal_strlit("% ");
    lemma_dec_len(duty);
    assert(shown.skip(3) =~= "% "@);
    if duty < 10 {
        assert(shown.take(3) =~= seq![' ', ' ', (48 + duty) as char]);
    } else if duty < 100 {
        assert(shown.take(3) =~= seq![' ', (48 + duty / 10) as char, (48 + duty % 10) as char]);
    } else {
        assert(shown.take(3) =~= seq!['1', '0', '0']);
    }
}

/// Signal strength is green above -60 dBm, yellow above -80 and red below; the chip's temperature
/// is green, yellow or red as it is normal, warm or hot.
pub proof fn law_reading_colours(aux: Option<DisplayAux>, usb: Usb)
    ensures
        ({
            let v = info(aux, usb);
            let rssi = text_ink(info_lines(v)[2][3].1);
            let heat = text_ink(info_lines(v)[4][1].1);
            let red = Ink::Rgb(color::rgb(21, 0, 0));
            &&& v.status.rssi > -60 ==> rssi == Ink::Green
            &&& -80 < v.status.rssi <= -60 ==> rssi == Ink::Yellow
            &&& v.status.rssi <= -80 ==> rssi == red
            &&& v.status.heat == Heat::Normal ==> heat == Ink::Green
            &&& v.status.heat == Heat::Warm ==> heat == Ink::Yellow
            &&& v.status.heat == Heat::Hot ==> heat == red
        }),
{
}

/// Whether a step is among the steps.
pub open spec fn drawn_by(ops: Seq<Op>, op: Op) -> bool {
    exists|k: int| 0 <= k < ops.len() && #[trigger] ops[k] == op
}

proof fn lemma_drawn_left(a: Seq<Op>, b: Seq<Op>, op: Op)
    requires
        drawn_by(a, op),
    ensures
        drawn_by(a + b, op),
{
    let k = choose|k: int| 0 <= k < a.len() && #[trigger] a[k] == op;
    assert((a + b)[k] == op);
}

proof fn lemma_drawn_right(a: Seq<Op>, b: Seq<Op>, op: Op)
    requires
        drawn_by(b, op),
    ensures
        drawn_by(a + b, op),
{
    let k = choose|k: int| 0 <= k < b.len() && #[trigger] b[k] == op;
    assert((a + b)[a.len() + k] == op);
}

proof fn lemma_line_drawn(
    rows: Seq<Seq<(Seq<char>, Style)>>,
    force: bool,
    prev: Seq<Seq<char>>,
    n: nat,
    i: int,
    op: Op,
)
    requires
        0 <= i < n,
        force || i >= prev.len() || prev[i] != flat(rows[i]),
        drawn_by(line_ops(rows[i], i), op),
    ensures
        drawn_by(info_ops(rows, force, prev, n), op),
    decreases n,
{
    let before = info_ops(rows, force, prev, (n - 1) as nat);
    if i == n - 1 {
        lemma_drawn_right(before, line_ops(rows[i], i), op);
    } else {
        lemma_line_drawn(rows, force, prev, (n - 1) as nat, i, op);
        lemma_drawn_left(before, line_ops(rows[n - 1], n - 1), op);
    }
}

proof fn lemma_seg_drawn(row: Seq<(Seq<char>, Style)>, y: int, k: int, op: Op)
    requires
        0 <= k < row.len(),
        drawn_by(seg_ops(row[k], row_end(row.take(k)), y), op),
    ensures
        drawn_by(row_ops(row, y), op),
    decreases row.len(),
{
    let head = row.drop_last();
    let last = seg_ops(row.last(), row_end(head), y);
    if k == row.len() - 1 {
        assert(row.take(k) =~= head);
        lemma_drawn_right(row_ops(head, y), last, op);
    } else {
        assert(head.take(k) =~= row.take(k));
        lemma_seg_drawn(head, y, k, op);
        lemma_drawn_left(row_ops(head, y), last, op);
    }
}

/// When the information page is drawn anew, each text of each line comes onto the display, on the
/// row of its line: 12 pixels below the one before, behind 2 pixels at the left.
pub proof fn law_info_text_is_drawn(s: Shown, v: Info, i: int, k: int)
    requires
        0 <= i < info_lines(v).len() <= 16,
        0 <= k < info_lines(v)[i].len(),
        !(info_lines(v)[i][k].1 is Bar),
        s.force || s.page != 0,
    ensures
        exists|op: Op| #[trigger]
            drawn_by(page_ops(s, 0, None, v), op) && (op matches Op::Text { text, x, y, .. } && text
                == info_lines(v)[i][k].0 && y == 31 + 12 * i && (k == 0 ==> x == 2)),
{
    let rows = info_lines(v);
    let row = rows[i];
    let t = turned(s, 0);
    let y = line_y(i);
    let x = row_end(row.take(k));
    let so = seg_ops(row[k], x, y);
    let op = so[so.len() - 1];
    assert(k == 0 ==> x == 2);
    assert(op matches Op::Text { text, x: at, y, .. } && text == row[k].0 && y == 31 + 12 * i && at
        == x as i32);
    assert(drawn_by(so, op));
    lemma_seg_drawn(row, y, k, op);
    let lo = line_ops(row, i);
    let front = lo.take(lo.len() - row_ops(row, y).len());
    assert(lo =~= front + row_ops(row, y));
    lemma_drawn_right(front, row_ops(row, y), op);
    lemma_line_drawn(rows, t.force, t.lines, visible(rows.len()), i, op);
    lemma_drawn_right(
        turn_ops(s, 0),
        info_ops(rows, t.force, t.lines, visible(rows.len())),
        op,
    );
    assert(drawn_by(page_ops(s, 0, None, v), op));
}

/// The bar of a PWM line is two pixels wide for each percent, in a track of 200 pixels; none is
/// drawn for a duty of 0.
pub proof fn law_bar(label: Seq<char>, duty: u8, x: int, y: int)
    requires
        duty <= 100,
        0 <= x <= 1000,
        0 <= y <= 1000,
    ensures
        ({
            let ops = seg_ops((label, Style::Bar(duty)), x, y);
            let track = Op::Fill {
                x: x as i32,
                y: (y + 2) as i32,
                w: 200,
                h: 8,
                ink: Ink::Rgb(color::rgb(4, 8, 4)),
            };
            &&& ops[0] == track
            &&& duty == 0 ==> ops.len() == 1
            &&& duty > 0 ==> ops.len() == 2 && (ops[1] matches Op::Fill { x: bx, w, .. } && bx == x
                && w == 2 * duty)
        }),
{
}

/// A cell that has to be drawn is drawn where it stands: its background, and its character in its
/// colour.
proof fn lemma_cell_drawn(
    cells: Seq<Seq<Cell>>,
    prev: Seq<Seq<Cell>>,
    force: bool,
    n: nat,
    i: int,
    op: Op,
)
    requires
        0 <= i < n,
        ({
            let cell = cells[i / 53][i % 53];
            &&& force || cell != prev[i / 53][i % 53]
            &&& drawn_by(cell_ops(cell, i / 53, i % 53), op)
        }),
    ensures
        drawn_by(cells_ops(cells, prev, force, n), op),
    decreases n,
{
    let j = n - 1;
    let before = cells_ops(cells, prev, force, (n - 1) as nat);
    let this = cell_ops(cells[j / 53][j % 53], j / 53, j % 53);
    if i == j {
        lemma_drawn_right(before, this, op);
    } else {
        lemma_cell_drawn(cells, prev, force, (n - 1) as nat, i, op);
        lemma_drawn_left(before, this, op);
    }
}

/// Each cell of the terminal of the page that changed, or each cell where the page is drawn anew,
/// comes onto the display: row `r`, column `c` at pixel column `6 c` and row `21 + 12 r`, in its
/// own colours.
pub proof fn law_cell_is_drawn(s: Shown, page: u8, t: Screen, v: Info, r: int, c: int)
    requires
        t.wf(),
        0 <= r < 18,
        0 <= c < 53,
        s.force || s.page != page || (t.dirty && t.cells[r][c] != s.cells[r][c]),
    ensures
        ({
            let ops = page_ops(s, page, Some(t), v);
            let cell = t.cells[r][c];
            &&& drawn_by(
                ops,
                Op::Fill {
                    x: (6 * c) as i32,
                    y: (21 + 12 * r) as i32,
                    w: 6,
                    h: 12,
                    ink: Ink::Rgb(cell.bg),
                },
            )
            &&& cell.ch != ' ' ==> drawn_by(
                ops,
                Op::Text {
                    text: seq![cell.ch],
                    x: (6 * c) as i32,
                    y: (31 + 12 * r) as i32,
                    font: Font::Size6x12,
                    ink: Ink::Rgb(cell.fg),
                },
            )
        }),
{
    let u = turned(s, page);
    let cell = t.cells[r][c];
    let i = r * 53 + c;
    let own = cell_ops(cell, r, c);
    let all = cells_ops(t.cells, u.cells, u.force, cell_count());
    assert(i / 53 == r && i % 53 == c);
    assert(cell_count() == 954);
    let back = own[0];
    assert(drawn_by(own, back));
    lemma_cell_drawn(t.cells, u.cells, u.force, cell_count(), i, back);
    lemma_drawn_right(turn_ops(s, page), all, back);
    if cell.ch != ' ' {
        let ch = own[1];
        assert(drawn_by(own, ch));
        lemma_cell_drawn(t.cells, u.cells, u.force, cell_count(), i, ch);
        lemma_drawn_right(turn_ops(s, page), all, ch);
    }
}

/// Each page shows what it is named after: page 0 the information, pages 1, 2 and 3 the terminals
/// of COM1, COM2 and USB. The header says which page of four it is.
pub proof fn law_pages(com1: Screen, com2: Screen, usb: Screen)
    ensures
        page_terminal(0, com1, com2, usb) is None,
        page_terminal(1, com1, com2, usb) == Some(com1),
        page_terminal(2, com1, com2, usb) == Some(com2),
        page_terminal(3, com1, com2, usb) == Some(usb),
        page_title(0) == "SYSTEM INFO   "@ + seq!['1'] + "/"@ + seq!['4'],
        page_title(1) == "SERIAL [COM1] "@ + seq!['2'] + "/"@ + seq!['4'],
        page_title(2) == "SERIAL [COM2] "@ + seq!['3'] + "/"@ + seq!['4'],
        page_title(3) == "SERIAL [USB]  "@ + seq!['4'] + "/"@ + seq!['4'],
        following(0) == 1,
        following(1) == 2,
        following(2) == 3,
        following(3) == 0,
{
}

/// Turning to another page clears the display and puts the title of that page into the header.
pub proof fn law_turning_clears(s: Shown, page: u8, t: Option<Screen>, v: Info)
    requires
        s.page != page || s.force,
    ensures
        ({
            let ops = page_ops(s, page, t, v);
            &&& ops[0] == (Op::Clear { ink: Ink::Black })
            &&& drawn_by(
                ops,
                Op::Text {
                    text: page_title(page),
                    x: 4,
                    y: 16,
                    font: Font::Size10x20,
                    ink: Ink::LightGreen,
                },
            )
        }),
{
    let ops = page_ops(s, page, t, v);
    assert(turn_ops(s, page)[2] == header_ops(page_title(page))[1]);
    assert(ops[2] == turn_ops(s, page)[2]);
}

proof fn lemma_body_drawn(body: Seq<Seq<char>>, n: nat, i: int)
    requires
        0 <= i < n,
    ensures
        body_ops(body, n).len() == n,
        body_ops(body, n)[i] == (Op::Text {
            text: body[i],
            x: 2,
            y: (31 + 12 * i) as i32,
            font: Font::Size6x12,
            ink: Ink::White,
        }),
    decreases n,
{
    let before = body_ops(body, (n - 1) as nat);
    if i < n - 1 {
        lemma_body_drawn(body, (n - 1) as nat, i);
    } else if n > 1 {
        lemma_body_drawn(body, (n - 1) as nat, 0);
    } else {
        assert(before.len() == 0);
    }
    assert(line_y(n - 1) + 10 == 31 + 12 * (n - 1));
    assert(body_ops(body, n).drop_last() =~= before);
}

/// A message clears the display and shows its title in the header and each of its lines below.
pub proof fn law_message_is_drawn(title: Seq<char>, lines: Seq<Seq<char>>, i: int)
    requires
        0 <= i < lines.len() <= 18,
        forall|k: int| 0 <= k < lines.len() ==> !(#[trigger] lines[k]).contains('\n'),
    ensures
        ({
            let ops = message_ops(title, text::join(lines, seq!['\n']));
            &&& ops[0] == (Op::Clear { ink: Ink::Black })
            &&& ops[2] == (Op::Text {
                text: title,
                x: 4,
                y: 16,
                font: Font::Size10x20,
                ink: Ink::LightGreen,
            })
            &&& ops[4 + i] == (Op::Text {
                text: lines[i],
                x: 2,
                y: (31 + 12 * i) as i32,
                font: Font::Size6x12,
                ink: Ink::White,
            })
        }),
{
    text::lemma_split_join(lines, '\n');
    lemma_body_drawn(lines, lines.len(), i);
    let ops = message_ops(title, text::join(lines, seq!['\n']));
    assert(ops[2] == header_ops(title)[1]);
    assert(ops[4 + i] == body_ops(lines, lines.len())[i]);
}

/// Where nothing was provided, the page shows dashes, zeros and OFF.
pub proof fn law_info_without_data(usb: Usb)
    ensures
        ({
            let p = info_lines(info(None, usb));
            &&& reads(p[1], seq!["IP: "@, "--"@])
            &&& p[2][1].0 == "--"@
            &&& reads(p[9], seq!["COM1 "@, "--"@ + "bps"@, " TX:"@, "--"@, " RX:"@, "--"@])
            &&& reads(p[10], seq!["COM2 "@, "--"@ + "bps"@, " TX:"@, "--"@, " RX:"@, "--"@])
            &&& reads(p[11], seq!["USB  "@, "--"@ + "bps"@])
            &&& p[13].len() == 12
            &&& p[13][1].0 == "OFF "@ && p[13][11].0 == "OFF "@
            &&& p[14][2].1 == Style::Bar(0) && p[15][2].1 == Style::Bar(0)
        }),
{
    reveal_with_fuel(gpio_line, 7);
}

/// A message is drawn once, over whatever page there is, and the page is drawn as a whole when it is
/// gone.
pub proof fn law_message_frames(s: Shown, title: Seq<char>, body: Seq<char>)
    ensures
        s.message != Some((title, body)) ==> message_frame(s, title, body) == message_ops(
            title,
            body,
        ),
        message_frame(message_shown(s, title, body), title, body).len() == 0,
        message_shown(s, title, body).force,
        message_shown(s, title, body).page == s.page,
        message_shown(s, title, body).cells == s.cells,
{
}

/// There are four pages; a page that does not exist is not turned to.
pub proof fn law_four_pages(page: u8, before: u8)
    ensures
        page < 4 ==> page_or(page, before) == page,
        page >= 4 ==> page_or(page, before) == before,
{
}

/// Drawing a terminal takes the mark of change away and nothing else; the other terminals keep
/// theirs.
pub proof fn law_drawn_marks(t: Screen)
    ensures
        !drawn(t, true).dirty,
        drawn(t, true).cells == t.cells && drawn(t, true).row == t.row && drawn(t, true).col
            == t.col,
        drawn(t, true).state == t.state && drawn(t, true).params == t.params,
        drawn(t, true).fg == t.fg && drawn(t, true).bg == t.bg && drawn(t, true).bold == t.bold,
        drawn(t, false) == t,
{
}

/// The plain values of the summary are the summary, each under its own name.
pub proof fn law_usb_summary_view(u: UsbSummary)
    ensures
        u@.active == u.active@,
        u@.cdc_enabled == u.cdc_enabled,
        u@.cdc_connected == u.cdc_connected,
        u@.vid == u.vid,
        u@.pid == u.pid,
        u@.chip == u.chip@,
        u@.ports == u.ports,
{
}

/// Page 1 shows the terminal of COM1, page 2 that of COM2 and page 3 that of USB, and drawing one
/// leaves the others alone; page 0 shows none of them.
pub proof fn law_frame_by_page(
    before: Shown,
    after: Shown,
    ops: Seq<Op>,
    page: u8,
    was: (Screen, Screen, Screen),
    now: (Screen, Screen, Screen),
    v: Info,
)
    requires
        page_framed(before, after, ops, page, was, now, v),
        page < 4,
    ensures
        page == 0 ==> ops == page_ops(before, 0, None, v) && now == was,
        page == 1 ==> ops == page_ops(before, 1, Some(was.0), v) && !now.0.dirty && now.1 == was.1
            && now.2 == was.2,
        page == 2 ==> ops == page_ops(before, 2, Some(was.1), v) && now.0 == was.0 && !now.1.dirty
            && now.2 == was.2,
        page == 3 ==> ops == page_ops(before, 3, Some(was.2), v) && now.0 == was.0 && now.1 == was.1
            && !now.2.dirty,
        now.0.cells == was.0.cells && now.1.cells == was.1.cells && now.2.cells == was.2.cells,
        after.page == page,
{
}

/// A message has its title in front of its text.
pub proof fn law_message_of(title: Seq<char>, body: Seq<char>)
    ensures
        message_of(title, body) is Some,
        (message_of(title, body)->0).0 == title,
        (message_of(title, body)->0).1 == body,
{
}

/// The header is the title on a black strip of 20 pixels with a line below it.
pub proof fn law_header(title: Seq<char>)
    ensures
        header_ops(title).len() == 3,
        header_ops(title)[0] == (Op::Fill { x: 0, y: 0, w: 320, h: 20, ink: Ink::Black }),
        header_ops(title)[1] == (Op::Text {
            text: title,
            x: 4,
            y: 16,
            font: Font::Size10x20,
            ink: Ink::LightGreen,
        }),
        header_ops(title)[2] == (Op::Fill { x: 0, y: 20, w: 320, h: 1, ink: Ink::DarkGreen }),
{
}

/// The colours of texts and bars.
pub proof fn law_inks(duty: u8)
    ensures
        text_ink(Style::Section) == Ink::LightGreen,
        text_ink(Style::Label) == Ink::Rgb(color::Rgb565 { r: 0, g: 50, b: 31 }),
        text_ink(Style::Value) == Ink::White,
        text_ink(Style::Yellow) == Ink::Yellow,
        text_ink(Style::On) == Ink::Green,
        text_ink(Style::Off) == Ink::Rgb(color::Rgb565 { r: 21, g: 0, b: 0 }),
        text_ink(Style::Disabled) == Ink::Rgb(color::Rgb565 { r: 10, g: 21, b: 10 }),
        duty < 30 ==> bar_ink(duty) == Ink::Green,
        30 <= duty < 70 ==> bar_ink(duty) == Ink::Yellow,
        duty >= 70 ==> bar_ink(duty) == Ink::Rgb(color::Rgb565 { r: 31, g: 10, b: 0 }),
        bar_width(duty) == 2 * duty,
{
}

/// A text is drawn ten pixels below the top of its line, in the colour of its style, and a badge on
/// a field of its own length; the next one begins six pixels further for each byte, and 202 pixels
/// further behind a bar.
pub proof fn law_segments(text: Seq<char>, style: Style, x: int, y: int, duty: u8)
    requires
        0 <= x <= 10000,
        0 <= y <= 10000,
        byte_len(text) <= 10000,
        !(style is Bar),
    ensures
        ({
            let o = seg_ops((text, style), x, y);
            let last = o[o.len() - 1];
            &&& last matches Op::Text { text: t, x: a, y: b, font, .. } && t == text && a == x && b
                == y + 10 && font == Font::Size6x12
            &&& style != Style::BadgeOn && style != Style::BadgeOff ==> o.len() == 1 && (
            last matches Op::Text { ink, .. } && ink == text_ink(style))
            &&& style == Style::BadgeOn ==> o.len() == 2 && o[0] == (Op::Fill {
                x: x as i32,
                y: y as i32,
                w: (6 * byte_len(text)) as u32,
                h: 12,
                ink: Ink::Green,
            }) && (last matches Op::Text { ink, .. } && ink == Ink::Black)
            &&& style == Style::BadgeOff ==> o.len() == 2 && o[0] == (Op::Fill {
                x: x as i32,
                y: y as i32,
                w: (6 * byte_len(text)) as u32,
                h: 12,
                ink: Ink::Rgb(color::Rgb565 { r: 10, g: 0, b: 0 }),
            }) && (last matches Op::Text { ink, .. } && ink == Ink::White)
            &&& seg_end((text, style), x) == x + 6 * byte_len(text)
            &&& seg_end((text, Style::Bar(duty)), x) == x + 202
        }),
{
}

/// A line is cleared over the whole width before it is drawn, and begins two pixels from the left;
/// each of its texts begins where the one before ended.
pub proof fn law_line_is_cleared(row: Seq<(Seq<char>, Style)>, seg: (Seq<char>, Style), i: int)
    requires
        0 <= i < 18,
    ensures
        line_ops(row, i)[0] == (Op::Fill {
            x: 0,
            y: (21 + 12 * i) as i32,
            w: 320,
            h: 12,
            ink: Ink::Black,
        }),
        row.len() == 1 && row[0].1 == Style::Section ==> line_ops(row, i)[1] == (Op::Fill {
            x: 0,
            y: (21 + 12 * i) as i32,
            w: 320,
            h: 1,
            ink: Ink::Rgb(color::Rgb565 { r: 0, g: 15, b: 0 }),
        }),
        row_end(Seq::empty()) == 2,
        row_end(row.push(seg)) == seg_end(seg, row_end(row)),
        row_ops(Seq::empty(), 21 + 12 * i).len() == 0,
        row_ops(row.push(seg), 21 + 12 * i) == row_ops(row, 21 + 12 * i) + seg_ops(
            seg,
            row_end(row),
            21 + 12 * i,
        ),
{
    assert(row.push(seg).drop_last() =~= row);
}

/// After a frame the display knows what it shows: the page, the cells that were drawn or the lines
/// of the information page, and that nothing has to be drawn anew.
pub proof fn law_frame_remembers(s: Shown, page: u8, t: Screen, v: Info)
    ensures
        ({
            let n = page_shown(s, page, Some(t), v);
            &&& n.page == page && !n.force && n.message is None
            &&& t.dirty || s.force || s.page != page ==> n.cells == t.cells
            &&& !t.dirty && !s.force && s.page == page ==> n.cells == s.cells
        }),
        ({
            let n = page_shown(s, 0, None, v);
            &&& n.page == 0 && !n.force && n.message is None
            &&& n.lines == flats(info_lines(v))
        }),
{
}

/// The texts of a line one after another.
pub proof fn law_flat(row: Seq<(Seq<char>, Style)>, seg: (Seq<char>, Style))
    ensures
        flat(Seq::empty()) == Seq::<char>::empty(),
        flat(row.push(seg)) == flat(row) + seg.0,
{
    assert(row.push(seg).drop_last() =~= row);
}

} // verus!
