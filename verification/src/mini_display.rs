//! The 128x64 display: network, supply voltage and baud rate, or a message over them.

use crate::draw;
use crate::draw::{add_op, add_text, DrawOp, Font, Ink, Op};
use crate::serial_display;
use crate::text;
use crate::text::{push_dec, push_int, same, split_text};
use vstd::prelude::*;
use vstd::string::*;

verus! {

/// What the display shows. The voltage is written with two decimals.
pub struct DisplayInfo {
    pub wifi_connected: bool,
    pub ip_address: String,
    pub rssi: i8,
    pub dc_in_voltage: String,
    pub com1_baud: u32,
}

/// The same as plain values.
pub struct Readings {
    pub wifi_connected: bool,
    pub ip_address: Seq<char>,
    pub rssi: i8,
    pub dc_in_voltage: Seq<char>,
    pub com1_baud: u32,
}

impl View for DisplayInfo {
    type V = Readings;

    open spec fn view(&self) -> Readings {
        Readings {
            wifi_connected: self.wifi_connected,
            ip_address: self.ip_address@,
            rssi: self.rssi,
            dc_in_voltage: self.dc_in_voltage@,
            com1_baud: self.com1_baud,
        }
    }
}

impl Default for DisplayInfo {
    /// Not connected, nothing read.
    fn default() -> (d: DisplayInfo)
        ensures
            d@ == (Readings {
                wifi_connected: false,
                ip_address: "---"@,
                rssi: 0,
                dc_in_voltage: "0.00"@,
                com1_baud: 0,
            }),
    {
        DisplayInfo {
            wifi_connected: false,
            ip_address: "---".to_owned(),
            rssi: 0,
            dc_in_voltage: "0.00".to_owned(),
            com1_baud: 0,
        }
    }
}

/// Whether two readings count as the same. `close` says whether their voltages differ by less
/// than a hundredth.
pub open spec fn same_readings(a: Readings, b: Readings, close: bool) -> bool {
    &&& a.wifi_connected == b.wifi_connected
    &&& a.ip_address == b.ip_address
    &&& a.rssi == b.rssi
    &&& close
    &&& a.com1_baud == b.com1_baud
}

/// The steps that draw the first `n` lines of a message.
pub open spec fn body_ops(body: Seq<Seq<char>>, n: nat) -> Seq<Op>
    decreases n,
{
    if n == 0 {
        Seq::empty()
    } else {
        let i = (n - 1) as nat;
        body_ops(body, i).push(
            Op::Text {
                text: body[i as int],
                x: 2,
                y: serial_display::wrap32(28 + 12 * i as int) as i32,
                font: Font::Size5x8,
                ink: Ink::White,
            },
        )
    }
}

/// The steps that draw a message.
pub open spec fn message_ops(title: Seq<char>, body: Seq<char>) -> Seq<Op> {
    let parts = text::split_on(body, '\n');
    seq![
        Op::Clear { ink: Ink::Black },
        Op::Text { text: title, x: 2, y: 10, font: Font::Size6x10, ink: Ink::White },
        Op::Line { x1: 0, x2: 127, y: 14, ink: Ink::White },
    ] + body_ops(parts, parts.len())
}

/// The line about the network.
pub open spec fn wifi_text(v: Readings) -> Seq<char> {
    if v.wifi_connected {
        "WiFi:"@ + text::dec_int(v.rssi as int) + "dBm"@
    } else {
        "WiFi: --"@
    }
}

/// The line about the first serial port.
pub open spec fn baud_text(v: Readings) -> Seq<char> {
    if v.com1_baud > 0 {
        "COM1:"@ + text::dec(v.com1_baud as nat) + "bps"@
    } else {
        "COM1:---"@
    }
}

/// The steps that draw the readings.
pub open spec fn readings_ops(v: Readings) -> Seq<Op> {
    seq![
        Op::Clear { ink: Ink::Black },
        Op::Line { x1: 0, x2: 127, y: 12, ink: Ink::White },
        Op::Text { text: wifi_text(v), x: 2, y: 8, font: Font::Size5x8, ink: Ink::White },
        Op::Text {
            text: "IP:"@ + v.ip_address,
            x: 2,
            y: 24,
            font: Font::Size6x10,
            ink: Ink::White,
        },
        Op::Text {
            text: "DC_IN:"@ + v.dc_in_voltage + "V"@,
            x: 2,
            y: 40,
            font: Font::Size6x10,
            ink: Ink::White,
        },
        Op::Text { text: baud_text(v), x: 2, y: 56, font: Font::Size6x10, ink: Ink::White },
    ]
}

/// The steps that draw a message or, without one, the readings.
pub open spec fn screen_ops(v: Readings, message: Option<(Seq<char>, Seq<char>)>) -> Seq<Op> {
    match message {
        Some((title, body)) => message_ops(title, body),
        None => readings_ops(v),
    }
}

/// Draws a message.
fn draw_message(title: &str, body: &str) -> (out: Vec<DrawOp>)
    ensures
        draw::ops(out@) == message_ops(title@, body@),
{
    let mut out: Vec<DrawOp> = Vec::new();
    add_op(&mut out, DrawOp::Clear { ink: Ink::Black });
    add_text(&mut out, title, 2, 10, Font::Size6x10, Ink::White);
    add_op(&mut out, DrawOp::Line { x1: 0, x2: 127, y: 14, ink: Ink::White });
    let parts = split_text(body, '\n');
    let ghost all = text::split_on(body@, '\n');
    let ghost start = draw::ops(out@);
    proof {
        assert(start =~= start + body_ops(all, 0));
    }
    let mut y: i32 = 28;
    let mut i: usize = 0;
    while i < parts.len()
        invariant
            i <= parts@.len(),
            text::views(parts@) == all,
            y == serial_display::wrap32(28 + 12 * i),
            draw::ops(out@) == start + body_ops(all, i as nat),
        decreases parts@.len() - i,
    {
        proof {
            assert(all[i as int] == parts@[i as int]@);
        }
        add_text(&mut out, parts[i].as_str(), 2, y, Font::Size5x8, Ink::White);
        proof {
            assert(draw::ops(out@) =~= start + body_ops(all, (i + 1) as nat));
        }
        y = ((y as i64 + 12 + 0x8000_0000) % 0x1_0000_0000 - 0x8000_0000) as i32;
        i = i + 1;
    }
    proof {
        assert(all.len() == parts@.len());
        assert(draw::ops(out@) =~= message_ops(title@, body@));
    }
    out
}

/// Draws the readings.
fn draw_readings(v: &DisplayInfo) -> (out: Vec<DrawOp>)
    ensures
        draw::ops(out@) == readings_ops(v@),
{
    let mut out: Vec<DrawOp> = Vec::new();
    add_op(&mut out, DrawOp::Clear { ink: Ink::Black });
    add_op(&mut out, DrawOp::Line { x1: 0, x2: 127, y: 12, ink: Ink::White });
    let mut wifi = String::new();
    if v.wifi_connected {
        wifi.append("WiFi:");
        push_int(&mut wifi, v.rssi as i32);
        wifi.append("dBm");
    } else {
        wifi.append("WiFi: --");
    }
    proof {
        assert(wifi@ =~= wifi_text(v@));
    }
    add_text(&mut out, wifi.as_str(), 2, 8, Font::Size5x8, Ink::White);
    let mut ip = "IP:".to_owned();
    ip.append(v.ip_address.as_str());
    add_text(&mut out, ip.as_str(), 2, 24, Font::Size6x10, Ink::White);
    let mut dc = "DC_IN:".to_owned();
    dc.append(v.dc_in_voltage.as_str());
    dc.append("V");
    add_text(&mut out, dc.as_str(), 2, 40, Font::Size6x10, Ink::White);
    let mut baud = String::new();
    if v.com1_baud > 0 {
        baud.append("COM1:");
        push_dec(&mut baud, v.com1_baud as u64);
        baud.append("bps");
    } else {
        baud.append("COM1:---");
    }
    proof {
        assert(baud@ =~= baud_text(v@));
    }
    add_text(&mut out, baud.as_str(), 2, 56, Font::Size6x10, Ink::White);
    proof {
        assert(draw::ops(out@) =~= readings_ops(v@));
    }
    out
}

/// What the rest of the firmware asks of the display, and what was drawn last.
pub struct MiniDisplay {
    info: DisplayInfo,
    message: Option<(String, String)>,
    last_info: Option<DisplayInfo>,
    last_message: Option<(String, String)>,
}

/// The view of readings that may be missing.
pub open spec fn readings_view(r: Option<DisplayInfo>) -> Option<Readings> {
    match r {
        Some(v) => Some(v@),
        None => None,
    }
}

/// The display as plain values.
pub struct Mini {
    pub info: Readings,
    pub message: Option<(Seq<char>, Seq<char>)>,
    pub last_info: Option<Readings>,
    pub last_message: Option<(Seq<char>, Seq<char>)>,
}

impl View for MiniDisplay {
    type V = Mini;

    closed spec fn view(&self) -> Mini {
        Mini {
            info: self.info@,
            message: serial_display::message_view(self.message),
            last_info: readings_view(self.last_info),
            last_message: serial_display::message_view(self.last_message),
        }
    }
}

/// The display with new readings.
pub open spec fn with_readings(
    m: Mini,
    wifi_connected: bool,
    ip_address: Seq<char>,
    rssi: i8,
    dc_in_voltage: Seq<char>,
    com1_baud: u32,
) -> Mini {
    Mini {
        info: Readings { wifi_connected, ip_address, rssi, dc_in_voltage, com1_baud },
        ..m
    }
}

/// The display after it was refreshed, if it had to be.
pub open spec fn refreshed(m: Mini, close: bool) -> Mini {
    if stale(m, close) {
        Mini { last_info: Some(m.info), last_message: m.message, ..m }
    } else {
        m
    }
}

/// Whether the display has to be drawn anew.
pub open spec fn stale(m: Mini, close: bool) -> bool {
    ||| m.last_info is None
    ||| !same_readings(m.last_info->0, m.info, close)
    ||| m.last_message != m.message
}

/// Whether two texts of messages are the same.
fn same_message(a: &Option<(String, String)>, b: &Option<(String, String)>) -> (r: bool)
    ensures
        r == (serial_display::message_view(*a) == serial_display::message_view(*b)),
{
    match (a, b) {
        (Some((t, x)), Some((u, y))) => same(t.as_str(), u.as_str()) && same(
            x.as_str(),
            y.as_str(),
        ),
        (None, None) => true,
        _ => false,
    }
}

/// A copy of a message.
fn copy_message(a: &Option<(String, String)>) -> (r: Option<(String, String)>)
    ensures
        serial_display::message_view(r) == serial_display::message_view(*a),
{
    match a {
        Some((t, b)) => Some((t.clone(), b.clone())),
        None => None,
    }
}

impl MiniDisplay {
    /// Nothing to show yet.
    pub fn new() -> (m: MiniDisplay)
        ensures
            m@ == (Mini {
                info: Readings {
                    wifi_connected: false,
                    ip_address: Seq::empty(),
                    rssi: 0,
                    dc_in_voltage: "0.00"@,
                    com1_baud: 0,
                },
                message: None,
                last_info: None,
                last_message: None,
            }),
    {
        MiniDisplay {
            info: DisplayInfo {
                wifi_connected: false,
                ip_address: String::new(),
                rssi: 0,
                dc_in_voltage: "0.00".to_owned(),
                com1_baud: 0,
            },
            message: None,
            last_info: None,
            last_message: None,
        }
    }

    /// Shows a message over the readings.
    pub fn show_message(&mut self, title: &str, body: &str)
        ensures
            final(self)@ == (Mini {
                message: serial_display::message_of(title@, body@),
                ..old(self)@
            }),
    {
        self.message = Some((title.to_owned(), body.to_owned()));
    }

    /// Goes back to the readings.
    pub fn clear_message(&mut self)
        ensures
            final(self)@ == (Mini { message: None, ..old(self)@ }),
    {
        self.message = None;
    }

    /// Takes new readings.
    pub fn update_display_info(
        &mut self,
        wifi_connected: bool,
        ip: &str,
        rssi: i8,
        dc_in_voltage: &str,
        com1_baud: u32,
    )
        ensures
            final(self)@ == with_readings(
                old(self)@,
                wifi_connected,
                ip@,
                rssi,
                dc_in_voltage@,
                com1_baud,
            ),
    {
        self.info = DisplayInfo {
            wifi_connected,
            ip_address: ip.to_owned(),
            rssi,
            dc_in_voltage: dc_in_voltage.to_owned(),
            com1_baud,
        };
    }

    /// The steps of the next refresh, none where nothing changed. `close` says whether the voltage
    /// is within a hundredth of the one drawn last.
    pub fn refresh(&mut self, close: bool) -> (out: Option<Vec<DrawOp>>)
        ensures
            out is Some <==> stale(old(self)@, close),
            out matches Some(v) ==> draw::ops(v@) == screen_ops(
                old(self)@.info,
                old(self)@.message,
            ),
            final(self)@ == refreshed(old(self)@, close),
    {
        let fresh = match &self.last_info {
            Some(last) => last.wifi_connected == self.info.wifi_connected && same(
                last.ip_address.as_str(),
                self.info.ip_address.as_str(),
            ) && last.rssi == self.info.rssi && close && last.com1_baud == self.info.com1_baud,
            None => false,
        };
        if fresh && same_message(&self.last_message, &self.message) {
            return None;
        }
        let out = match &self.message {
            Some((title, body)) => draw_message(title.as_str(), body.as_str()),
            None => draw_readings(&self.info),
        };
        self.last_info = Some(
            DisplayInfo {
                wifi_connected: self.info.wifi_connected,
                ip_address: self.info.ip_address.clone(),
                rssi: self.info.rssi,
                dc_in_voltage: self.info.dc_in_voltage.clone(),
                com1_baud: self.info.com1_baud,
            },
        );
        self.last_message = copy_message(&self.message);
        Some(out)
    }
}

/// Right after a refresh nothing is left to draw.
pub proof fn law_refreshed(m: Mini)
    ensures
        !stale(Mini { last_info: Some(m.info), last_message: m.message, ..m }, true),
{
}

/// Each reading is drawn behind the label of its own name, at a place of its own.
pub proof fn law_readings_by_label(v: Readings)
    ensures
        ({
            let o = screen_ops(v, None);
            &&& o.len() == 6
            &&& o[0] == (Op::Clear { ink: Ink::Black })
            &&& o[1] == (Op::Line { x1: 0, x2: 127, y: 12, ink: Ink::White })
            &&& o[2] == (Op::Text {
                text: if v.wifi_connected {
                    "WiFi:"@ + text::dec_int(v.rssi as int) + "dBm"@
                } else {
                    "WiFi: --"@
                },
                x: 2,
                y: 8,
                font: Font::Size5x8,
                ink: Ink::White,
            })
            &&& o[3] == (Op::Text {
                text: "IP:"@ + v.ip_address,
                x: 2,
                y: 24,
                font: Font::Size6x10,
                ink: Ink::White,
            })
            &&& o[4] == (Op::Text {
                text: "DC_IN:"@ + v.dc_in_voltage + "V"@,
                x: 2,
                y: 40,
                font: Font::Size6x10,
                ink: Ink::White,
            })
            &&& o[5] == (Op::Text {
                text: if v.com1_baud > 0 {
                    "COM1:"@ + text::dec(v.com1_baud as nat) + "bps"@
                } else {
                    "COM1:---"@
                },
                x: 2,
                y: 56,
                font: Font::Size6x10,
                ink: Ink::White,
            })
        }),
{
}

proof fn lemma_body_drawn(body: Seq<Seq<char>>, n: nat, i: int)
    requires
        0 <= i < n <= 1000,
    ensures
        body_ops(body, n).len() == n,
        body_ops(body, n)[i] == (Op::Text {
            text: body[i],
            x: 2,
            y: (28 + 12 * i) as i32,
            font: Font::Size5x8,
            ink: Ink::White,
        }),
    decreases n,
{
    let before = body_ops(body, (n - 1) as nat);
    if i < n - 1 {
        lemma_body_drawn(body, (n - 1) as nat, i);
    } else if n > 1 {
        lemma_body_drawn(body, (n - 1) as nat, 0);
    } else {
        assert(before.len() == 0);
    }
    assert(serial_display::wrap32(28 + 12 * (n - 1)) == 28 + 12 * (n - 1));
    assert(body_ops(body, n).drop_last() =~= before);
}

/// A message is drawn over the readings: its title on top, and below it its lines, twelve pixels
/// apart.
pub proof fn law_message_is_drawn(v: Readings, title: Seq<char>, lines: Seq<Seq<char>>, i: int)
    requires
        0 <= i < lines.len() <= 1000,
        forall|k: int| 0 <= k < lines.len() ==> !(#[trigger] lines[k]).contains('\n'),
    ensures
        ({
            let o = screen_ops(v, Some((title, text::join(lines, seq!['\n']))));
            &&& o.len() == 3 + lines.len()
            &&& o[0] == (Op::Clear { ink: Ink::Black })
            &&& o[1] == (Op::Text {
                text: title,
                x: 2,
                y: 10,
                font: Font::Size6x10,
                ink: Ink::White,
            })
            &&& o[2] == (Op::Line { x1: 0, x2: 127, y: 14, ink: Ink::White })
            &&& o[3 + i] == (Op::Text {
                text: lines[i],
                x: 2,
                y: (28 + 12 * i) as i32,
                font: Font::Size5x8,
                ink: Ink::White,
            })
        }),
{
    text::lemma_split_join(lines, '\n');
    lemma_body_drawn(lines, lines.len(), i);
}

/// The display is drawn anew exactly if nothing was drawn yet, or the message, the connection, the
/// address, the signal strength or the rate changed, or the voltage did by a hundredth.
pub proof fn law_drawn_on_change(m: Mini, close: bool)
    ensures
        m.last_info is None ==> stale(m, close),
        !close ==> stale(m, close),
        m.last_message != m.message ==> stale(m, close),
        m.last_info matches Some(a) ==> {
            &&& a.wifi_connected != m.info.wifi_connected ==> stale(m, close)
            &&& a.ip_address != m.info.ip_address ==> stale(m, close)
            &&& a.rssi != m.info.rssi ==> stale(m, close)
            &&& a.com1_baud != m.info.com1_baud ==> stale(m, close)
            &&& close && m.last_message == m.message && a.wifi_connected == m.info.wifi_connected
                && a.ip_address == m.info.ip_address && a.rssi == m.info.rssi && a.com1_baud
                == m.info.com1_baud ==> !stale(m, close)
        },
{
}

/// New readings take their own places; the message and what was drawn stay.
pub proof fn law_new_readings(m: Mini, on: bool, ip: Seq<char>, rssi: i8, dc: Seq<char>, baud: u32)
    ensures
        ({
            let n = with_readings(m, on, ip, rssi, dc, baud);
            &&& n.info.wifi_connected == on
            &&& n.info.ip_address == ip
            &&& n.info.rssi == rssi
            &&& n.info.dc_in_voltage == dc
            &&& n.info.com1_baud == baud
            &&& n.message == m.message
            &&& n.last_info == m.last_info && n.last_message == m.last_message
        }),
{
}

/// A refresh remembers what it drew, and changes neither the readings nor the message.
pub proof fn law_refresh_remembers(m: Mini, close: bool)
    ensures
        refreshed(m, close).info == m.info && refreshed(m, close).message == m.message,
        stale(m, close) ==> refreshed(m, close).last_info == Some(m.info) && refreshed(
            m,
            close,
        ).last_message == m.message,
        !stale(m, close) ==> refreshed(m, close) == m,
{
}

/// The plain values of what is shown are what is shown, each under its own name.
pub proof fn law_readings_view(d: DisplayInfo)
    ensures
        d@.wifi_connected == d.wifi_connected,
        d@.ip_address == d.ip_address@,
        d@.rssi == d.rssi,
        d@.dc_in_voltage == d.dc_in_voltage@,
        d@.com1_baud == d.com1_baud,
{
}

} // verus!
