//! How a USB serial adapter is found, configured and released.

use crate::usb_host::{VID_CP210X, VID_FTDI, VID_PL2303};
use vstd::prelude::*;

verus! {

pub const USB_DESC_TYPE_INTERFACE: u8 = 4;

pub const USB_DESC_TYPE_ENDPOINT: u8 = 5;

/// Size of the packet that begins a control transfer.
pub const USB_SETUP_PKT_SIZE: usize = 8;

/// Milliseconds after which a control transfer is given up.
pub const CTRL_TIMEOUT_MS: u32 = 2000;

/// A control transfer.
pub struct ControlRequest {
    pub request_type: u8,
    pub request: u8,
    pub value: u16,
    pub index: u16,
    pub length: u16,
    /// What is sent along.
    pub data: Vec<u8>,
}

/// A control transfer as plain values.
pub struct Request {
    pub request_type: u8,
    pub request: u8,
    pub value: u16,
    pub index: u16,
    pub length: u16,
    pub data: Seq<u8>,
}

impl View for ControlRequest {
    type V = Request;

    open spec fn view(&self) -> Request {
        Request {
            request_type: self.request_type,
            request: self.request,
            value: self.value,
            index: self.index,
            length: self.length,
            data: self.data@,
        }
    }
}

/// A list of control transfers as plain values.
pub open spec fn requests(v: Seq<ControlRequest>) -> Seq<Request> {
    v.map_values(|r: ControlRequest| r@)
}

/// Whether a control transfer reads from the device.
pub open spec fn is_in(request_type: u8) -> bool {
    request_type >= 0x80
}

/// A 16-bit number as two bytes, low byte first.
pub open spec fn le2(n: u16) -> Seq<u8> {
    seq![(n as int % 256) as u8, (n as int / 256) as u8]
}

/// A 32-bit number as four bytes, low byte first.
pub open spec fn le4(n: u32) -> Seq<u8> {
    seq![
        (n as int % 256) as u8,
        (n as int / 256 % 256) as u8,
        (n as int / 0x1_0000 % 256) as u8,
        (n as int / 0x100_0000) as u8,
    ]
}

/// What stands in the buffer of a control transfer: the setup packet and, for one that writes,
/// as much of the data as it announces.
pub open spec fn packet(r: Request) -> Seq<u8> {
    let setup = seq![r.request_type, r.request] + le2(r.value) + le2(r.index) + le2(r.length);
    if is_in(r.request_type) {
        setup
    } else if r.data.len() <= r.length {
        setup + r.data
    } else {
        setup + r.data.take(r.length as int)
    }
}

fn push_le2(out: &mut Vec<u8>, n: u16)
    ensures
        final(out)@ == old(out)@ + le2(n),
{
    out.push((n % 256) as u8);
    out.push((n / 256) as u8);
    proof {
        assert(out@ =~= old(out)@ + le2(n));
    }
}

fn push_le4(out: &mut Vec<u8>, n: u32)
    ensures
        final(out)@ == old(out)@ + le4(n),
{
    out.push((n % 256) as u8);
    out.push((n / 256 % 256) as u8);
    out.push((n / 0x1_0000 % 256) as u8);
    out.push((n / 0x100_0000) as u8);
    proof {
        assert(out@ =~= old(out)@ + le4(n));
    }
}

impl ControlRequest {
    /// A transfer that sends nothing along.
    fn plain(request_type: u8, request: u8, value: u16, index: u16, length: u16) -> (r:
        ControlRequest)
        ensures
            r@ == (Request {
                request_type,
                request,
                value,
                index,
                length,
                data: Seq::empty(),
            }),
    {
        ControlRequest { request_type, request, value, index, length, data: Vec::new() }
    }

    /// The bytes to put into the buffer of the transfer.
    pub fn to_bytes(&self) -> (out: Vec<u8>)
        ensures
            out@ == packet(self@),
    {
        let mut out: Vec<u8> = Vec::new();
        out.push(self.request_type);
        out.push(self.request);
        push_le2(&mut out, self.value);
        push_le2(&mut out, self.index);
        push_le2(&mut out, self.length);
        let ghost setup = seq![self.request_type, self.request] + le2(self.value) + le2(self.index)
            + le2(self.length);
        proof {
            assert(out@ =~= setup);
        }
        if self.request_type < 0x80 {
            let mut i: usize = 0;
            proof {
                assert(setup + self.data@.take(0) =~= setup);
            }
            while i < self.data.len() && i < self.length as usize
                invariant
                    i <= self.data@.len(),
                    i <= self.length,
                    out@ == setup + self.data@.take(i as int),
                decreases self.data@.len() - i,
            {
                out.push(self.data[i]);
                proof {
                    assert(out@ =~= setup + self.data@.take(i + 1));
                }
                i = i + 1;
            }
            proof {
                if self.data@.len() <= self.length {
                    assert(self.data@.take(i as int) =~= self.data@);
                }
            }
        }
        out
    }

    /// The number of bytes that the transfer moves: setup packet and announced data.
    pub fn num_bytes(&self) -> (n: i32)
        ensures
            n == moved_bytes(self@),
    {
        8 + self.length as i32
    }
}

/// The number of bytes that a transfer moves: setup packet and announced data.
pub open spec fn moved_bytes(r: Request) -> int {
    USB_SETUP_PKT_SIZE + r.length
}

/// What to do while a control transfer is under way.
#[derive(Copy, Clone, Debug, PartialEq, Eq, Structural)]
pub enum CtrlStep {
    /// Handle events and look again.
    Pump,
    /// Give up.
    TimedOut,
    /// The transfer ended.
    Ended,
}

/// What to do `elapsed_ms` after a control transfer was submitted.
pub open spec fn transfer_step(done: bool, elapsed_ms: u32) -> CtrlStep {
    if done {
        CtrlStep::Ended
    } else if elapsed_ms > CTRL_TIMEOUT_MS {
        CtrlStep::TimedOut
    } else {
        CtrlStep::Pump
    }
}

/// What to do `elapsed_ms` after a control transfer was submitted.
pub fn ctrl_step(done: bool, elapsed_ms: u32) -> (s: CtrlStep)
    ensures
        s == transfer_step(done, elapsed_ms),
{
    if done {
        CtrlStep::Ended
    } else if elapsed_ms > CTRL_TIMEOUT_MS {
        CtrlStep::TimedOut
    } else {
        CtrlStep::Pump
    }
}

/// What an ended control transfer brought: nothing for one that failed or wrote; for one that
/// read, what stands behind the setup packet, at most `want` bytes.
pub open spec fn ctrl_reply(
    request_type: u8,
    completed: bool,
    buffer: Seq<u8>,
    want: nat,
) -> Option<Seq<u8>> {
    if !completed {
        None
    } else if is_in(request_type) && buffer.len() > USB_SETUP_PKT_SIZE {
        let data = buffer.skip(USB_SETUP_PKT_SIZE as int);
        Some(
            if data.len() <= want {
                data
            } else {
                data.take(want as int)
            },
        )
    } else {
        Some(Seq::empty())
    }
}

/// The view of bytes that may be missing.
pub open spec fn bytes_view(b: Option<Vec<u8>>) -> Option<Seq<u8>> {
    match b {
        Some(v) => Some(v@),
        None => None,
    }
}

/// What an ended control transfer brought; `buffer` holds the bytes that were moved.
pub fn ctrl_result(request_type: u8, completed: bool, buffer: &[u8], want: usize) -> (r: Option<
    Vec<u8>,
>)
    ensures
        bytes_view(r) == ctrl_reply(request_type, completed, buffer@, want as nat),
{
    if !completed {
        return None;
    }
    let mut out: Vec<u8> = Vec::new();
    if request_type >= 0x80 && buffer.len() > USB_SETUP_PKT_SIZE {
        let ghost data = buffer@.skip(USB_SETUP_PKT_SIZE as int);
        let mut i: usize = USB_SETUP_PKT_SIZE;
        while i < buffer.len() && i - USB_SETUP_PKT_SIZE < want
            invariant
                USB_SETUP_PKT_SIZE <= i <= buffer@.len(),
                i - USB_SETUP_PKT_SIZE <= want,
                data == buffer@.skip(USB_SETUP_PKT_SIZE as int),
                out@ == data.take(i - USB_SETUP_PKT_SIZE),
            decreases buffer@.len() - i,
        {
            out.push(buffer[i]);
            proof {
                assert(out@ =~= data.take(i + 1 - USB_SETUP_PKT_SIZE));
            }
            i = i + 1;
        }
        proof {
            if data.len() <= want {
                assert(data.take(data.len() as int) =~= data);
            }
        }
    }
    Some(out)
}

/// The first byte, 0 where there is none.
pub open spec fn first_byte(reply: Option<Seq<u8>>) -> u8 {
    match reply {
        Some(v) => if v.len() > 0 {
            v[0]
        } else {
            0
        },
        None => 0,
    }
}

/// The byte that a vendor read brought, 0 where it brought none.
pub fn pl2303_vendor_read(reply: &Option<Vec<u8>>) -> (b: u8)
    ensures
        b == first_byte(bytes_view(*reply)),
{
    match reply {
        Some(v) => if v.len() > 0 {
            v[0]
        } else {
            0
        },
        None => 0,
    }
}

/// Baud rate, stop bits, parity and data bits of a line coding.
pub open spec fn coding(b: Seq<u8>) -> Option<(int, u8, u8, u8)> {
    if b.len() >= 7 {
        Some((b[0] + b[1] * 256 + b[2] * 0x1_0000 + b[3] * 0x100_0000, b[4], b[5], b[6]))
    } else {
        None
    }
}

/// Baud rate, stop bits, parity and data bits that an adapter reports.
pub fn line_coding(reply: &[u8]) -> (c: Option<(u32, u8, u8, u8)>)
    ensures
        c is Some <==> coding(reply@) is Some,
        c matches Some((baud, stop, parity, bits)) ==> coding(reply@) == Some(
            (baud as int, stop, parity, bits),
        ),
{
    if reply.len() >= 7 {
        let baud: u32 = reply[0] as u32 + reply[1] as u32 * 256 + reply[2] as u32 * 0x1_0000
            + reply[3] as u32 * 0x100_0000;
        Some((baud, reply[4], reply[5], reply[6]))
    } else {
        None
    }
}

/// A transfer that sends nothing along.
pub open spec fn plain(request_type: u8, request: u8, value: u16, index: u16, length: u16) -> Request {
    Request { request_type, request, value, index, length, data: Seq::empty() }
}

/// A PL2303 vendor read.
pub open spec fn vendor_read(value: u16) -> Request {
    plain(0xC0, 0x01, value, 0, 1)
}

/// A PL2303 vendor write.
pub open spec fn vendor_write(value: u16, index: u16) -> Request {
    plain(0x40, 0x01, value, index, 0)
}

/// The line coding 8N1 at a baud rate.
pub open spec fn coding_8n1(baud: u32) -> Seq<u8> {
    le4(baud) + seq![0u8, 0u8, 8u8]
}

/// SetLineCoding 8N1.
pub open spec fn set_line_coding(baud: u32, index: u16) -> Request {
    Request {
        request_type: 0x21,
        request: 0x20,
        value: 0,
        index,
        length: 7,
        data: coding_8n1(baud),
    }
}

/// How a PL2303 is configured.
pub open spec fn pl2303_sequence(baud: u32) -> Seq<Request> {
    seq![
        vendor_read(0x8484),
        vendor_write(0x0404, 0),
        vendor_read(0x8484),
        vendor_read(0x8383),
        vendor_read(0x8484),
        vendor_write(0x0404, 1),
        vendor_read(0x8484),
        vendor_read(0x8383),
        vendor_write(0x0000, 1),
        vendor_write(0x0001, 0),
        vendor_write(0x0002, 0x44),
        set_line_coding(baud, 0),
        vendor_write(0x0000, 0x01),
        vendor_write(0x0001, 0x00),
        vendor_write(0x0002, 0x44),
        vendor_write(0x0008, 0),
        vendor_write(0x0009, 0),
        plain(0x21, 0x22, 0x0003, 0, 0),
        plain(0xA1, 0x21, 0, 0, 7),
    ]
}

/// How a CP210x is configured.
pub open spec fn cp210x_sequence(intf: u8, baud: u32) -> Seq<Request> {
    seq![
        plain(0x41, 0x00, 0x0001, intf as u16, 0),
        Request {
            request_type: 0x41,
            request: 0x1E,
            value: 0,
            index: intf as u16,
            length: 4,
            data: le4(baud),
        },
        plain(0x41, 0x03, 0x0800, intf as u16, 0),
        plain(0x41, 0x07, 0x0303, intf as u16, 0),
        plain(0x41, 0x12, 0x000F, intf as u16, 0),
    ]
}

/// The divisor of the 3 MHz clock for a baud rate, rounded to the nearest; 0 and 1 stand for the
/// two highest rates.
pub open spec fn divisor(baud: int) -> u16 {
    if baud >= 3_000_000 {
        0
    } else if baud >= 2_000_000 {
        1
    } else {
        ((3_000_000 + baud / 2) / baud % 0x1_0000) as u16
    }
}

/// How a port of an FTDI chip is configured.
pub open spec fn ftdi_sequence(intf: u8, baud: u32) -> Seq<Request> {
    let idx = (intf + 1) as u16;
    seq![
        plain(0x40, 0x00, 0, idx, 0),
        plain(0x40, 0x03, divisor(baud as int), idx, 0),
        plain(0x40, 0x04, 0x0008, idx, 0),
        plain(0x40, 0x02, 0, idx, 0),
        plain(0x40, 0x01, 0x0303, idx, 0),
        plain(0x40, 0x09, 16, idx, 0),
        plain(0x40, 0x00, 1, idx, 0),
        plain(0x40, 0x00, 2, idx, 0),
    ]
}

/// How a device of the standard class is configured.
pub open spec fn cdc_acm_sequence(comm_intf: u8, baud: u32) -> Seq<Request> {
    seq![set_line_coding(baud, comm_intf as u16), plain(0x21, 0x22, 0x0003, comm_intf as u16, 0)]
}

/// How a port is configured, by the vendor of the chip.
pub open spec fn init_sequence(vid: u16, intf: u8, comm_intf: u8, baud: u32) -> Seq<Request> {
    if vid == VID_PL2303 {
        pl2303_sequence(baud)
    } else if vid == VID_CP210X {
        cp210x_sequence(intf, baud)
    } else if vid == VID_FTDI {
        ftdi_sequence(intf, baud)
    } else {
        cdc_acm_sequence(comm_intf, baud)
    }
}

fn line_coding_request(baud: u32, index: u16) -> (r: ControlRequest)
    ensures
        r@ == set_line_coding(baud, index),
{
    let mut data: Vec<u8> = Vec::new();
    push_le4(&mut data, baud);
    data.push(0);
    data.push(0);
    data.push(8);
    proof {
        assert(data@ =~= coding_8n1(baud));
    }
    ControlRequest { request_type: 0x21, request: 0x20, value: 0, index, length: 7, data }
}

fn read_request(value: u16) -> (r: ControlRequest)
    ensures
        r@ == vendor_read(value),
{
    ControlRequest::plain(0xC0, 0x01, value, 0, 1)
}

fn write_request(value: u16, index: u16) -> (r: ControlRequest)
    ensures
        r@ == vendor_write(value, index),
{
    ControlRequest::plain(0x40, 0x01, value, index, 0)
}

/// The transfers that configure a PL2303.
pub fn pl2303_init(baud_rate: u32) -> (v: Vec<ControlRequest>)
    ensures
        requests(v@) == pl2303_sequence(baud_rate),
{
    let v: Vec<ControlRequest> = vec![
        read_request(0x8484),
        write_request(0x0404, 0),
        read_request(0x8484),
        read_request(0x8383),
        read_request(0x8484),
        write_request(0x0404, 1),
        read_request(0x8484),
        read_request(0x8383),
        write_request(0x0000, 1),
        write_request(0x0001, 0),
        write_request(0x0002, 0x44),
        line_coding_request(baud_rate, 0),
        write_request(0x0000, 0x01),
        write_request(0x0001, 0x00),
        write_request(0x0002, 0x44),
        write_request(0x0008, 0),
        write_request(0x0009, 0),
        ControlRequest::plain(0x21, 0x22, 0x0003, 0, 0),
        ControlRequest::plain(0xA1, 0x21, 0, 0, 7),
    ];
    proof {
        assert(requests(v@) =~= pl2303_sequence(baud_rate));
    }
    v
}

/// The transfers that configure a CP210x.
pub fn cp210x_init(intf: u8, baud_rate: u32) -> (v: Vec<ControlRequest>)
    ensures
        requests(v@) == cp210x_sequence(intf, baud_rate),
{
    let idx: u16 = intf as u16;
    let mut data: Vec<u8> = Vec::new();
    push_le4(&mut data, baud_rate);
    proof {
        assert(data@ =~= le4(baud_rate));
    }
    let v: Vec<ControlRequest> = vec![
        ControlRequest::plain(0x41, 0x00, 0x0001, idx, 0),
        ControlRequest { request_type: 0x41, request: 0x1E, value: 0, index: idx, length: 4, data },
        ControlRequest::plain(0x41, 0x03, 0x0800, idx, 0),
        ControlRequest::plain(0x41, 0x07, 0x0303, idx, 0),
        ControlRequest::plain(0x41, 0x12, 0x000F, idx, 0),
    ];
    proof {
        assert(requests(v@) =~= cp210x_sequence(intf, baud_rate));
    }
    v
}

/// The divisor of the 3 MHz clock for a baud rate.
pub fn ftdi_baud_to_divisor(baud: u32) -> (d: u16)
    requires
        baud > 0,
    ensures
        d == divisor(baud as int),
{
    if baud >= 3_000_000 {
        return 0;
    }
    if baud >= 2_000_000 {
        return 1;
    }
    let q: u32 = (3_000_000 + baud / 2) / baud;
    (q % 0x1_0000) as u16
}

/// The transfers that configure a port of an FTDI chip.
pub fn ftdi_init(intf: u8, baud_rate: u32) -> (v: Vec<ControlRequest>)
    requires
        baud_rate > 0,
    ensures
        requests(v@) == ftdi_sequence(intf, baud_rate),
{
    let idx: u16 = intf as u16 + 1;
    let v: Vec<ControlRequest> = vec![
        ControlRequest::plain(0x40, 0x00, 0, idx, 0),
        ControlRequest::plain(0x40, 0x03, ftdi_baud_to_divisor(baud_rate), idx, 0),
        ControlRequest::plain(0x40, 0x04, 0x0008, idx, 0),
        ControlRequest::plain(0x40, 0x02, 0, idx, 0),
        ControlRequest::plain(0x40, 0x01, 0x0303, idx, 0),
        ControlRequest::plain(0x40, 0x09, 16, idx, 0),
        ControlRequest::plain(0x40, 0x00, 1, idx, 0),
        ControlRequest::plain(0x40, 0x00, 2, idx, 0),
    ];
    proof {
        assert(requests(v@) =~= ftdi_sequence(intf, baud_rate));
    }
    v
}

/// The transfers that configure a device of the standard class.
pub fn cdc_acm_init(comm_intf: u8, baud_rate: u32) -> (v: Vec<ControlRequest>)
    ensures
        requests(v@) == cdc_acm_sequence(comm_intf, baud_rate),
{
    let v: Vec<ControlRequest> = vec![
        line_coding_request(baud_rate, comm_intf as u16),
        ControlRequest::plain(0x21, 0x22, 0x0003, comm_intf as u16, 0),
    ];
    proof {
        assert(requests(v@) =~= cdc_acm_sequence(comm_intf, baud_rate));
    }
    v
}

/// The transfers that configure a port.
pub fn init_requests(vid: u16, intf: u8, comm_intf: u8, baud_rate: u32) -> (v: Vec<ControlRequest>)
    requires
        vid == VID_FTDI ==> baud_rate > 0,
    ensures
        requests(v@) == init_sequence(vid, intf, comm_intf, baud_rate),
{
    match vid {
        VID_PL2303 => pl2303_init(baud_rate),
        VID_CP210X => cp210x_init(intf, baud_rate),
        VID_FTDI => ftdi_init(intf, baud_rate),
        _ => cdc_acm_init(comm_intf, baud_rate),
    }
}

/// The two endpoints of a serial port.
#[derive(Copy, Clone, Debug, PartialEq, Eq, Structural)]
pub struct BulkEndpoints {
    pub intf_num: u8,
    pub ep_in: u8,
    pub ep_out: u8,
    /// Largest packet of the endpoint that is read.
    pub mps: u16,
}

/// What is known when a part of a configuration descriptor has been read.
#[verifier::ext_equal]
pub struct Walk {
    pub found: Seq<BulkEndpoints>,
    pub intf: u8,
    pub ep_in: Option<(u8, u16)>,
    pub ep_out: Option<u8>,
    /// Whether an interface has begun.
    pub seen: bool,
}

/// Nothing read yet.
pub open spec fn walk_start() -> Walk {
    Walk { found: Seq::empty(), intf: 0, ep_in: None, ep_out: None, seen: false }
}

/// The endpoints found, with those of the current interface if it has both.
pub open spec fn flushed(w: Walk) -> Seq<BulkEndpoints> {
    match (w.ep_in, w.ep_out) {
        (Some((ep_in, mps)), Some(ep_out)) => w.found.push(
            BulkEndpoints { intf_num: w.intf, ep_in, ep_out, mps },
        ),
        _ => w.found,
    }
}

/// An interface begins.
pub open spec fn interface_begins(w: Walk, intf: u8) -> Walk {
    Walk {
        found: if w.seen {
            flushed(w)
        } else {
            w.found
        },
        intf,
        ep_in: None,
        ep_out: None,
        seen: true,
    }
}

/// An endpoint: the first bulk endpoint of each direction counts.
pub open spec fn endpoint_seen(w: Walk, addr: u8, attr: u8, mps: u16) -> Walk {
    if attr % 4 != 2 {
        w
    } else if addr >= 0x80 {
        if w.ep_in is None {
            Walk { ep_in: Some((addr, mps)), ..w }
        } else {
            w
        }
    } else if w.ep_out is None {
        Walk { ep_out: Some(addr), ..w }
    } else {
        w
    }
}

/// What the descriptor at `at` adds.
pub open spec fn descriptor_read(w: Walk, d: Seq<u8>, at: int) -> Walk {
    if d[at + 1] == USB_DESC_TYPE_INTERFACE && at + 9 <= d.len() {
        interface_begins(w, d[at + 2])
    } else if d[at + 1] == USB_DESC_TYPE_ENDPOINT && at + 7 <= d.len() {
        endpoint_seen(w, d[at + 2], d[at + 3], (d[at + 4] + d[at + 5] * 256) as u16)
    } else {
        w
    }
}

/// What the descriptors from `at` on add: each begins with its length and its type.
pub open spec fn walked(w: Walk, d: Seq<u8>, at: int) -> Walk
    decreases d.len() + 256 - at,
{
    if at < 0 || at + 2 > d.len() || d[at] == 0 {
        w
    } else {
        walked(descriptor_read(w, d, at), d, at + d[at])
    }
}

/// The pairs of bulk endpoints in a configuration descriptor, one for each interface that has
/// both.
pub open spec fn bulk_pairs(d: Seq<u8>) -> Seq<BulkEndpoints> {
    flushed(walked(walk_start(), d, 0))
}

/// Finds the pairs of bulk endpoints in a configuration descriptor.
pub fn find_all_bulk_eps(config_desc: &[u8]) -> (eps: Vec<BulkEndpoints>)
    ensures
        eps@ == bulk_pairs(config_desc@),
{
    let d = config_desc;
    let n: usize = d.len();
    let mut offset: usize = 0;
    let mut results: Vec<BulkEndpoints> = Vec::new();
    let mut intf: u8 = 0;
    let mut ep_in: Option<(u8, u16)> = None;
    let mut ep_out: Option<u8> = None;
    let mut seen = false;
    while offset < n && n - offset >= 2 && d[offset] != 0
        invariant
            n == d@.len(),
            d == config_desc,
            offset <= n,
            walked(walk_start(), d@, 0) == walked(
                Walk { found: results@, intf, ep_in, ep_out, seen },
                d@,
                offset as int,
            ),
        decreases n - offset,
    {
        let len: usize = d[offset] as usize;
        let kind: u8 = d[offset + 1];
        if kind == USB_DESC_TYPE_INTERFACE && n - offset >= 9 {
            if seen {
                if let (Some((i, mps)), Some(o)) = (ep_in, ep_out) {
                    results.push(BulkEndpoints { intf_num: intf, ep_in: i, ep_out: o, mps });
                }
            }
            intf = d[offset + 2];
            ep_in = None;
            ep_out = None;
            seen = true;
        } else if kind == USB_DESC_TYPE_ENDPOINT && n - offset >= 7 {
            let addr: u8 = d[offset + 2];
            let attr: u8 = d[offset + 3];
            let mps: u16 = d[offset + 4] as u16 + d[offset + 5] as u16 * 256;
            if attr % 4 == 2 {
                if addr >= 0x80 && ep_in.is_none() {
                    ep_in = Some((addr, mps));
                } else if addr < 0x80 && ep_out.is_none() {
                    ep_out = Some(addr);
                }
            }
        }
        if len >= n - offset {
            proof {
                let w = Walk { found: results@, intf, ep_in, ep_out, seen };
                assert(walked(w, d@, offset + len) == w);
                assert(walked(w, d@, n as int) == w);
            }
            offset = n;
        } else {
            offset = offset + len;
        }
    }
    if let (Some((i, mps)), Some(o)) = (ep_in, ep_out) {
        results.push(BulkEndpoints { intf_num: intf, ep_in: i, ep_out: o, mps });
    }
    results
}

/// Every pair reads from an input endpoint and writes to an output endpoint.
pub proof fn law_pair_directions(d: Seq<u8>)
    ensures
        forall|i: int|
            0 <= i < bulk_pairs(d).len() ==> (#[trigger] bulk_pairs(d)[i]).ep_in >= 0x80
                && bulk_pairs(d)[i].ep_out < 0x80,
{
    lemma_walk_directions(walk_start(), d, 0);
}

spec fn directed(w: Walk) -> bool {
    &&& forall|i: int|
        0 <= i < w.found.len() ==> (#[trigger] w.found[i]).ep_in >= 0x80 && w.found[i].ep_out < 0x80
    &&& w.ep_in matches Some((addr, mps)) ==> addr >= 0x80
    &&& w.ep_out matches Some(addr) ==> addr < 0x80
}

proof fn lemma_walk_directions(w: Walk, d: Seq<u8>, at: int)
    requires
        directed(w),
    ensures
        directed(walked(w, d, at)),
    decreases d.len() + 256 - at,
{
    if !(at < 0 || at + 2 > d.len() || d[at] == 0) {
        lemma_walk_directions(descriptor_read(w, d, at), d, at + d[at]);
    }
}

/// An adapter that reports the line coding it was given reports 8N1 at the baud rate.
pub proof fn law_line_coding_reads_back(baud: u32)
    ensures
        coding(coding_8n1(baud)) == Some((baud as int, 0u8, 0u8, 8u8)),
{
}

/// The bytes of a transfer: eight for the setup packet, and the data of one that writes.
pub proof fn law_packet_length(r: Request)
    ensures
        packet(r).len() == USB_SETUP_PKT_SIZE + if is_in(r.request_type) {
            0
        } else if r.data.len() <= r.length {
            r.data.len() as int
        } else {
            r.length as int
        },
{
}

/// The bytes of a transfer on the wire: type, request, then value, index and length with the low
/// byte first, then the data of one that writes.
pub proof fn law_setup_packet(r: Request, i: int)
    requires
        0 <= i < r.data.len() <= r.length,
        r.request_type < 0x80,
    ensures
        ({
            let p = packet(r);
            &&& p[0] == r.request_type
            &&& p[1] == r.request
            &&& p[2] + 256 * p[3] == r.value
            &&& p[4] + 256 * p[5] == r.index
            &&& p[6] + 256 * p[7] == r.length
            &&& p[8 + i] == r.data[i]
            &&& p.len() == 8 + r.data.len()
        }),
{
}

/// A transfer that reads, or has no data, is its setup packet alone.
pub proof fn law_setup_packet_alone(r: Request)
    requires
        r.request_type >= 0x80 || r.data.len() == 0,
    ensures
        ({
            let p = packet(r);
            &&& p.len() == 8
            &&& p[0] == r.request_type
            &&& p[1] == r.request
            &&& p[2] + 256 * p[3] == r.value
            &&& p[4] + 256 * p[5] == r.index
            &&& p[6] + 256 * p[7] == r.length
        }),
{
}

/// Whether four bytes, low byte first, write a number.
pub open spec fn writes_low_first(b: Seq<u8>, n: int) -> bool {
    b.len() >= 4 && b[0] + 256 * b[1] + 65536 * b[2] + 16777216 * b[3] == n
}

/// Whether a request has no data and these values.
pub open spec fn bare(r: Request, request_type: int, request: int, value: int, index: int, length: int) -> bool {
    &&& r.request_type == request_type
    &&& r.request == request
    &&& r.value == value
    &&& r.index == index
    &&& r.length == length
    &&& r.data.len() == 0
}

/// Whether a request sets a line to a baud rate, eight data bits, no parity and one stop bit.
pub open spec fn sets_line(r: Request, baud: int, index: int) -> bool {
    &&& r.request_type == 0x21
    &&& r.request == 0x20
    &&& r.value == 0
    &&& r.index == index
    &&& r.length == 7
    &&& r.data.len() == 7
    &&& writes_low_first(r.data, baud)
    &&& r.data[4] == 0
    &&& r.data[5] == 0
    &&& r.data[6] == 8
}

/// A CP210x (vendor 10C4) is enabled, set to the baud rate and 8N1, its DTR and RTS are raised, and
/// its buffers are purged, all on the interface.
pub proof fn law_cp210x(intf: u8, comm: u8, baud: u32)
    ensures
        ({
            let q = init_sequence(0x10C4, intf, comm, baud);
            &&& q.len() == 5
            &&& bare(q[0], 0x41, 0x00, 0x0001, intf as int, 0)
            &&& q[1].request_type == 0x41 && q[1].request == 0x1E && q[1].value == 0 && q[1].index
                == intf && q[1].length == 4 && q[1].data.len() == 4
            &&& writes_low_first(q[1].data, baud as int)
            &&& bare(q[2], 0x41, 0x03, 0x0800, intf as int, 0)
            &&& bare(q[3], 0x41, 0x07, 0x0303, intf as int, 0)
            &&& bare(q[4], 0x41, 0x12, 0x000F, intf as int, 0)
        }),
{
}

/// A PL2303 (vendor 067B) goes through its startup, is set to the baud rate and 8N1, its buffers
/// are flushed, DTR and RTS are raised, and its line coding is read back.
pub proof fn law_pl2303(intf: u8, comm: u8, baud: u32)
    ensures
        ({
            let q = init_sequence(0x067B, intf, comm, baud);
            &&& q.len() == 19
            &&& bare(q[0], 0xC0, 0x1, 0x8484, 0x0, 1)
            &&& bare(q[1], 0x40, 0x1, 0x404, 0x0, 0)
            &&& bare(q[2], 0xC0, 0x1, 0x8484, 0x0, 1)
            &&& bare(q[3], 0xC0, 0x1, 0x8383, 0x0, 1)
            &&& bare(q[4], 0xC0, 0x1, 0x8484, 0x0, 1)
            &&& bare(q[5], 0x40, 0x1, 0x404, 0x1, 0)
            &&& bare(q[6], 0xC0, 0x1, 0x8484, 0x0, 1)
            &&& bare(q[7], 0xC0, 0x1, 0x8383, 0x0, 1)
            &&& bare(q[8], 0x40, 0x1, 0x0, 0x1, 0)
            &&& bare(q[9], 0x40, 0x1, 0x1, 0x0, 0)
            &&& bare(q[10], 0x40, 0x1, 0x2, 0x44, 0)
            &&& sets_line(q[11], baud as int, 0)
            &&& bare(q[12], 0x40, 0x1, 0x0, 0x1, 0)
            &&& bare(q[13], 0x40, 0x1, 0x1, 0x0, 0)
            &&& bare(q[14], 0x40, 0x1, 0x2, 0x44, 0)
            &&& bare(q[15], 0x40, 0x1, 0x8, 0x0, 0)
            &&& bare(q[16], 0x40, 0x1, 0x9, 0x0, 0)
            &&& bare(q[17], 0x21, 0x22, 0x3, 0x0, 0)
            &&& bare(q[18], 0xA1, 0x21, 0x0, 0x0, 7)
        }),
{
}

/// A port of an FTDI chip (vendor 0403) is reset, set to the baud rate and 8N1 without flow
/// control, its DTR and RTS are raised, its latency is 16 ms, and its buffers are purged. Its index
/// counts from 1.
pub proof fn law_ftdi(intf: u8, comm: u8, baud: u32)
    ensures
        ({
            let q = init_sequence(0x0403, intf, comm, baud);
            let i = intf + 1;
            &&& q.len() == 8
            &&& bare(q[0], 0x40, 0x00, 0, i, 0)
            &&& bare(q[1], 0x40, 0x03, divisor(baud as int) as int, i, 0)
            &&& bare(q[2], 0x40, 0x04, 0x0008, i, 0)
            &&& bare(q[3], 0x40, 0x02, 0, i, 0)
            &&& bare(q[4], 0x40, 0x01, 0x0303, i, 0)
            &&& bare(q[5], 0x40, 0x09, 16, i, 0)
            &&& bare(q[6], 0x40, 0x00, 1, i, 0)
            &&& bare(q[7], 0x40, 0x00, 2, i, 0)
        }),
{
}

/// The divisor brings the 3 MHz clock as near to the baud rate as a whole number can: it misses by
/// half a baud rate at most. The two highest rates have numbers of their own.
pub proof fn law_divisor(baud: u32)
    ensures
        baud >= 3_000_000 ==> divisor(baud as int) == 0,
        2_000_000 <= baud < 3_000_000 ==> divisor(baud as int) == 1,
        46 <= baud < 2_000_000 ==> {
            let d = divisor(baud as int) as int;
            -(baud as int) <= 2 * (d * baud - 3_000_000) <= baud
        },
{
    if 46 <= baud < 2_000_000 {
        let b = baud as int;
        let top = 3_000_000 + b / 2;
        let q = top / b;
        assert(b * q <= top < b * q + b) by (nonlinear_arith)
            requires
                b > 0,
                q == top / b,
        ;
        assert(0 <= q < 65536) by (nonlinear_arith)
            requires
                b >= 46,
                0 <= top <= 3_000_000 + b / 2,
                b * q <= top,
                top < b * q + b,
                b < 2_000_000,
        ;
        assert(q * b == b * q) by (nonlinear_arith);
    }
}

/// Any other device is set to the baud rate and 8N1, and its DTR and RTS are raised, on the
/// interface for line settings.
pub proof fn law_cdc_acm(vid: u16, intf: u8, comm: u8, baud: u32)
    requires
        vid != 0x067B,
        vid != 0x10C4,
        vid != 0x0403,
    ensures
        ({
            let q = init_sequence(vid, intf, comm, baud);
            &&& q.len() == 2
            &&& sets_line(q[0], baud as int, comm as int)
            &&& bare(q[1], 0x21, 0x22, 0x0003, comm as int, 0)
        }),
{
}

/// A transfer that reads brings what stands behind the eight bytes of its setup packet, as far as
/// it was asked for; one that failed brings nothing.
pub proof fn law_ctrl_reply(request_type: u8, buffer: Seq<u8>, want: nat, i: int)
    requires
        request_type >= 0x80,
        buffer.len() > 8,
    ensures
        ctrl_reply(request_type, false, buffer, want) is None,
        ({
            let r = ctrl_reply(request_type, true, buffer, want)->0;
            &&& ctrl_reply(request_type, true, buffer, want) is Some
            &&& r.len() == if buffer.len() - 8 <= want {
                buffer.len() - 8
            } else {
                want as int
            }
            &&& 0 <= i < r.len() ==> r[i] == buffer[8 + i]
        }),
        ctrl_reply((request_type - 0x80) as u8, true, buffer, want) == Some(Seq::<u8>::empty()),
{
}

/// A port as a configuration descriptor describes it.
pub struct PortDescription {
    /// An interface in front that has an interrupt endpoint only.
    pub comm: Option<(u8, u8)>,
    pub intf: u8,
    pub ep_in: u8,
    pub ep_out: u8,
    pub mps: u16,
    /// Whether the endpoint to write to stands first.
    pub out_first: bool,
}

/// An interface descriptor.
pub open spec fn interface_bytes(intf: u8) -> Seq<u8> {
    seq![9u8, 4u8, intf, 0u8, 2u8, 0xFFu8, 0u8, 0u8, 0u8]
}

/// An endpoint descriptor.
pub open spec fn endpoint_bytes(addr: u8, attr: u8, mps: u16) -> Seq<u8> {
    seq![7u8, 5u8, addr, attr, (mps % 256) as u8, (mps / 256) as u8, 0u8]
}

/// The descriptors of a port, one after another.
pub open spec fn port_bytes(p: PortDescription) -> Seq<Seq<u8>> {
    let comm = match p.comm {
        Some((intf, ep)) => seq![interface_bytes(intf), endpoint_bytes(ep, 3, 8)],
        None => Seq::empty(),
    };
    let i = endpoint_bytes(p.ep_in, 2, p.mps);
    let o = endpoint_bytes(p.ep_out, 2, p.mps);
    comm + if p.out_first {
        seq![interface_bytes(p.intf), o, i]
    } else {
        seq![interface_bytes(p.intf), i, o]
    }
}

/// Descriptors one after another.
pub open spec fn glued(parts: Seq<Seq<u8>>) -> Seq<u8>
    decreases parts.len(),
{
    if parts.len() == 0 {
        Seq::empty()
    } else {
        glued(parts.drop_last()) + parts.last()
    }
}

/// The descriptors of ports, one after another.
pub open spec fn all_ports(ps: Seq<PortDescription>) -> Seq<Seq<u8>>
    decreases ps.len(),
{
    if ps.len() == 0 {
        Seq::empty()
    } else {
        all_ports(ps.drop_last()) + port_bytes(ps.last())
    }
}

/// Whether a descriptor begins with its own length.
spec fn sized(x: Seq<u8>) -> bool {
    x.len() >= 2 && x[0] == x.len()
}

/// What one descriptor adds, whatever stands around it.
spec fn read_one(w: Walk, x: Seq<u8>) -> Walk {
    descriptor_read(w, x, 0)
}

/// What descriptors add, one after another.
spec fn read_all(w: Walk, parts: Seq<Seq<u8>>) -> Walk
    decreases parts.len(),
{
    if parts.len() == 0 {
        w
    } else {
        read_one(read_all(w, parts.drop_last()), parts.last())
    }
}

/// Whether what a descriptor adds can be told from its own bytes.
spec fn whole(x: Seq<u8>) -> bool {
    &&& sized(x)
    &&& x[1] == 4 ==> x.len() >= 9
    &&& x[1] == 5 ==> x.len() >= 7
}

proof fn lemma_walk_glued(w: Walk, parts: Seq<Seq<u8>>, k: int)
    requires
        0 <= k <= parts.len(),
        forall|i: int| 0 <= i < parts.len() ==> whole(#[trigger] parts[i]),
    ensures
        glued(parts.take(k)).len() <= glued(parts).len(),
        walked(w, glued(parts), 0) == walked(
            read_all(w, parts.take(k)),
            glued(parts),
            glued(parts.take(k)).len() as int,
        ),
    decreases k,
{
    let d = glued(parts);
    if k == 0 {
        assert(parts.take(0).len() == 0);
    } else {
        lemma_walk_glued(w, parts, k - 1);
        let a = glued(parts.take(k - 1));
        let x = parts[k - 1];
        assert(whole(x));
        assert(parts.take(k).drop_last() =~= parts.take(k - 1));
        assert(parts.take(k).last() == x);
        lemma_glued_prefix(parts, k);
        let at = a.len() as int;
        let b = glued(parts.take(k));
        assert(d.take(b.len() as int) == b && b == a + x);
        assert forall|j: int| 0 <= j < x.len() implies #[trigger] d[at + j] == x[j] by {
            assert(d.take(b.len() as int)[at + j] == x[j]);
        }
        assert(d[at + 0] == x[0] && d[at + 1] == x[1]);
        let v = read_all(w, parts.take(k - 1));
        if x[1] == 4 {
            assert(d[at + 2] == x[2]);
        }
        if x[1] == 5 {
            assert(d[at + 2] == x[2] && d[at + 3] == x[3] && d[at + 4] == x[4] && d[at + 5] == x[5]);
        }
        assert(descriptor_read(v, d, at) == read_one(v, x));
    }
}

proof fn lemma_glued_prefix(parts: Seq<Seq<u8>>, k: int)
    requires
        0 <= k <= parts.len(),
    ensures
        glued(parts.take(k)).len() <= glued(parts).len(),
        glued(parts).take(glued(parts.take(k)).len() as int) == glued(parts.take(k)),
    decreases parts.len(),
{
    let d = glued(parts);
    if k == parts.len() {
        assert(parts.take(k) =~= parts);
        assert(d.take(d.len() as int) =~= d);
    } else {
        let head = parts.drop_last();
        lemma_glued_prefix(head, k);
        assert(head.take(k) =~= parts.take(k));
        let n = glued(parts.take(k)).len() as int;
        assert(d.take(n) =~= glued(head).take(n));
    }
}

proof fn lemma_read_all_split(w: Walk, a: Seq<Seq<u8>>, b: Seq<Seq<u8>>)
    ensures
        read_all(w, a + b) == read_all(read_all(w, a), b),
    decreases b.len(),
{
    if b.len() == 0 {
        assert(a + b =~= a);
    } else {
        lemma_read_all_split(w, a, b.drop_last());
        assert((a + b).drop_last() =~= a + b.drop_last());
        assert((a + b).last() == b.last());
    }
}

/// What reading the descriptors of one port adds.
proof fn lemma_read_port(w: Walk, p: PortDescription)
    requires
        p.ep_in >= 0x80,
        p.ep_out < 0x80,
        w.seen || flushed(w) == w.found,
    ensures
        ({
            let v = read_all(w, port_bytes(p));
            &&& v.found == flushed(w)
            &&& v.seen
            &&& flushed(v) == v.found.push(
                BulkEndpoints { intf_num: p.intf, ep_in: p.ep_in, ep_out: p.ep_out, mps: p.mps },
            )
        }),
{
    let i = endpoint_bytes(p.ep_in, 2, p.mps);
    let o = endpoint_bytes(p.ep_out, 2, p.mps);
    let own = if p.out_first {
        seq![interface_bytes(p.intf), o, i]
    } else {
        seq![interface_bytes(p.intf), i, o]
    };
    let comm = match p.comm {
        Some((intf, ep)) => seq![interface_bytes(intf), endpoint_bytes(ep, 3, 8)],
        None => Seq::empty(),
    };
    lemma_read_all_split(w, comm, own);
    reveal_with_fuel(read_all, 4);
    assert(own.drop_last().drop_last().drop_last() =~= Seq::<Seq<u8>>::empty());
    let u = read_all(w, comm);
    if p.comm is Some {
        assert(comm.drop_last().drop_last() =~= Seq::<Seq<u8>>::empty());
        assert(u.found == flushed(w) && u.ep_in is None && u.ep_out is None && u.seen);
        assert(flushed(u) == flushed(w));
    } else {
        assert(u == w);
    }
    assert(i[4] + i[5] * 256 == p.mps && o[4] + o[5] * 256 == p.mps);
    let b = interface_begins(u, p.intf);
    assert(read_one(u, own[0]) == b);
    assert(own.drop_last().drop_last().last() == own[0]);
    assert(own.drop_last().last() == own[1]);
    assert(own.last() == own[2]);
    assert(b.found == flushed(w));
}

proof fn lemma_read_ports(ps: Seq<PortDescription>)
    requires
        forall|k: int|
            0 <= k < ps.len() ==> (#[trigger] ps[k]).ep_in >= 0x80 && ps[k].ep_out < 0x80,
    ensures
        ({
            let v = read_all(walk_start(), all_ports(ps));
            &&& flushed(v).len() == ps.len()
            &&& forall|k: int|
                0 <= k < ps.len() ==> #[trigger] flushed(v)[k] == (BulkEndpoints {
                    intf_num: ps[k].intf,
                    ep_in: ps[k].ep_in,
                    ep_out: ps[k].ep_out,
                    mps: ps[k].mps,
                })
            &&& v.seen || flushed(v) == v.found
        }),
    decreases ps.len(),
{
    if ps.len() > 0 {
        let head = ps.drop_last();
        assert forall|k: int| 0 <= k < head.len() implies (#[trigger] head[k]).ep_in >= 0x80
            && head[k].ep_out < 0x80 by {
            assert(ps[k].ep_in >= 0x80);
        }
        lemma_read_ports(head);
        let u = read_all(walk_start(), all_ports(head));
        lemma_read_all_split(walk_start(), all_ports(head), port_bytes(ps.last()));
        assert(ps[ps.len() - 1].ep_in >= 0x80);
        lemma_read_port(u, ps.last());
        let v = read_all(walk_start(), all_ports(ps));
        assert forall|k: int| 0 <= k < ps.len() implies #[trigger] flushed(v)[k] == (
        BulkEndpoints {
            intf_num: ps[k].intf,
            ep_in: ps[k].ep_in,
            ep_out: ps[k].ep_out,
            mps: ps[k].mps,
        }) by {
            if k < head.len() {
                assert(flushed(v)[k] == flushed(u)[k]);
                assert(head[k] == ps[k]);
            }
        }
    }
}

proof fn lemma_ports_whole(ps: Seq<PortDescription>)
    ensures
        forall|i: int| 0 <= i < all_ports(ps).len() ==> whole(#[trigger] all_ports(ps)[i]),
    decreases ps.len(),
{
    if ps.len() > 0 {
        lemma_ports_whole(ps.drop_last());
        let a = all_ports(ps.drop_last());
        let b = port_bytes(ps.last());
        assert forall|i: int| 0 <= i < (a + b).len() implies whole(#[trigger] (a + b)[i]) by {
            if i < a.len() {
                assert(whole(a[i]));
            } else {
                assert(whole(b[i - a.len()]));
            }
        }
    }
}

/// A configuration descriptor that describes ports is read as these ports, in order: interface,
/// endpoints and packet size of each, in whichever order its endpoints stand. Interfaces with an
/// interrupt endpoint only are no ports.
pub proof fn law_described_ports_are_found(ps: Seq<PortDescription>)
    requires
        forall|k: int|
            0 <= k < ps.len() ==> (#[trigger] ps[k]).ep_in >= 0x80 && ps[k].ep_out < 0x80,
    ensures
        ({
            let found = bulk_pairs(glued(all_ports(ps)));
            &&& found.len() == ps.len()
            &&& forall|k: int|
                0 <= k < ps.len() ==> {
                    &&& (#[trigger] found[k]).intf_num == ps[k].intf
                    &&& found[k].ep_in == ps[k].ep_in
                    &&& found[k].ep_out == ps[k].ep_out
                    &&& found[k].mps == ps[k].mps
                }
        }),
{
    let parts = all_ports(ps);
    lemma_ports_whole(ps);
    lemma_walk_glued(walk_start(), parts, parts.len() as int);
    assert(parts.take(parts.len() as int) =~= parts);
    lemma_read_ports(ps);
    let d = glued(parts);
    let v = read_all(walk_start(), parts);
    assert(walked(v, d, d.len() as int) == v);
}

/// A control transfer has 2000 milliseconds; one that ended is over, however long it took.
pub proof fn law_transfer_steps(ms: u32)
    ensures
        transfer_step(true, ms) == CtrlStep::Ended,
        ms <= 2000 ==> transfer_step(false, ms) == CtrlStep::Pump,
        ms > 2000 ==> transfer_step(false, ms) == CtrlStep::TimedOut,
{
}

/// A vendor read brings its first byte; a line coding is the rate, low byte first, then stop bits,
/// parity and data bits.
pub proof fn law_replies(b: Seq<u8>)
    ensures
        b.len() > 0 ==> first_byte(Some(b)) == b[0],
        b.len() == 0 ==> first_byte(Some(b)) == 0,
        first_byte(None) == 0,
        b.len() < 7 ==> coding(b) is None,
        b.len() >= 7 ==> {
            &&& coding(b) is Some
            &&& writes_low_first(b, (coding(b)->0).0)
            &&& (coding(b)->0).1 == b[4] && (coding(b)->0).2 == b[5] && (coding(b)->0).3 == b[6]
        },
{
}

/// The plain values of a request are the request, each under its own name.
pub proof fn law_request_view(r: ControlRequest)
    ensures
        r@.request_type == r.request_type,
        r@.request == r.request,
        r@.value == r.value,
        r@.index == r.index,
        r@.length == r.length,
        r@.data == r.data@,
{
}

/// A transfer moves eight bytes and the announced data.
pub proof fn law_moved_bytes(r: Request)
    ensures
        moved_bytes(r) == 8 + r.length,
        r.request_type < 0x80 && r.data.len() == r.length ==> moved_bytes(r) == packet(r).len(),
{
}

} // verus!
