//! Serial devices: their numbers and names, what is connected, and where bytes go.

use crate::gpio_ctrl::GpioPwmState;
use crate::serial_display;
use crate::serial_display::{
    DisplayState,
    SerialRxBuffer,
    UsbSummary,
    PAGE_COM1,
    PAGE_COM2,
    PAGE_USB,
};
use crate::terminal;
use crate::text::{has_nul, same};
use crate::ws;
use crate::ws::Rings;
use vstd::prelude::*;
use vstd::string::*;

verus! {

pub const DEVICE_NONE: u8 = 0;

pub const DEVICE_USB0: u8 = 1;

pub const DEVICE_COM1: u8 = 2;

pub const DEVICE_COM2: u8 = 3;

pub const DEVICE_USB1: u8 = 4;

pub const DEVICE_USB2: u8 = 5;

pub const DEVICE_USB3: u8 = 6;

/// How many ports of a USB device are used.
pub const MAX_USB_PORTS: usize = 4;

/// Vendor number of FTDI.
pub const VID_FTDI: u16 = 0x0403;

/// Vendor number of Prolific.
pub const VID_PL2303: u16 = 0x067B;

/// Vendor number of Silicon Labs.
pub const VID_CP210X: u16 = 0x10C4;

/// The device number of a USB port.
pub open spec fn usb_device(port: int) -> u8 {
    if port == 0 {
        DEVICE_USB0
    } else if port == 1 {
        DEVICE_USB1
    } else if port == 2 {
        DEVICE_USB2
    } else if port == 3 {
        DEVICE_USB3
    } else {
        DEVICE_NONE
    }
}

/// The device number of a USB port.
pub fn usb_port_device_id(port: usize) -> (d: u8)
    ensures
        d == usb_device(port as int),
{
    match port {
        0 => DEVICE_USB0,
        1 => DEVICE_USB1,
        2 => DEVICE_USB2,
        3 => DEVICE_USB3,
        _ => DEVICE_NONE,
    }
}

/// The number of serial ports of an FTDI chip.
pub open spec fn ftdi_ports(pid: u16) -> nat {
    if pid == 0x6011 {
        4
    } else if pid == 0x6010 {
        2
    } else {
        1
    }
}

/// The number of serial ports of an FTDI chip.
pub fn ftdi_port_count(pid: u16) -> (n: usize)
    ensures
        n == ftdi_ports(pid),
{
    match pid {
        0x6011 => 4,
        0x6010 => 2,
        _ => 1,
    }
}

/// The name of a device.
pub open spec fn device_label(id: u8) -> Seq<char> {
    if id == DEVICE_USB0 {
        "usb0"@
    } else if id == DEVICE_USB1 {
        "usb1"@
    } else if id == DEVICE_USB2 {
        "usb2"@
    } else if id == DEVICE_USB3 {
        "usb3"@
    } else if id == DEVICE_COM1 {
        "com1"@
    } else if id == DEVICE_COM2 {
        "com2"@
    } else {
        "none"@
    }
}

/// The name of a device.
pub fn device_name(id: u8) -> (name: &'static str)
    ensures
        name@ == device_label(id),
{
    match id {
        DEVICE_USB0 => "usb0",
        DEVICE_USB1 => "usb1",
        DEVICE_USB2 => "usb2",
        DEVICE_USB3 => "usb3",
        DEVICE_COM1 => "com1",
        DEVICE_COM2 => "com2",
        _ => "none",
    }
}

/// The name of the chip with these vendor and product numbers.
pub open spec fn chip_label(vid: u16, pid: u16) -> Seq<char> {
    if vid == 0x067B && (pid == 0x2303 || pid == 0x23A3 || pid == 0x2304) {
        "PL2303"@
    } else if vid == 0x10C4 && (pid == 0xEA60 || pid == 0xEA61 || pid == 0xEA70) {
        "CP210x"@
    } else if vid == 0x0403 && pid == 0x6001 {
        "FT232R"@
    } else if vid == 0x0403 && pid == 0x6010 {
        "FT2232"@
    } else if vid == 0x0403 && pid == 0x6011 {
        "FT4232"@
    } else if vid == 0x0403 && pid == 0x6014 {
        "FT232H"@
    } else if vid == 0x1A86 && (pid == 0x7523 || pid == 0x7522) {
        "CH340"@
    } else if vid == 0x1A86 && (pid == 0x55D4 || pid == 0x55D3) {
        "CH343"@
    } else if vid == 0x1A86 && pid == 0x5523 {
        "CH341"@
    } else if vid == 0x0483 && pid == 0x5740 {
        "STM32 VCP"@
    } else if vid == 0x0525 && pid == 0xA4A7 {
        "Netchip CDC-ACM"@
    } else if vid == 0x2341 {
        "Arduino"@
    } else if vid == 0x239A {
        "Adafruit"@
    } else if vid == 0x303A {
        "Espressif"@
    } else {
        "Unknown"@
    }
}

/// The name of the chip with these vendor and product numbers.
pub fn chip_name(vid: u16, pid: u16) -> (name: &'static str)
    ensures
        name@ == chip_label(vid, pid),
{
    match (vid, pid) {
        (0x067B, 0x2303) | (0x067B, 0x23A3) | (0x067B, 0x2304) => "PL2303",
        (0x10C4, 0xEA60) | (0x10C4, 0xEA61) | (0x10C4, 0xEA70) => "CP210x",
        (0x0403, 0x6001) => "FT232R",
        (0x0403, 0x6010) => "FT2232",
        (0x0403, 0x6011) => "FT4232",
        (0x0403, 0x6014) => "FT232H",
        (0x1A86, 0x7523) | (0x1A86, 0x7522) => "CH340",
        (0x1A86, 0x55D4) | (0x1A86, 0x55D3) => "CH343",
        (0x1A86, 0x5523) => "CH341",
        (0x0483, 0x5740) => "STM32 VCP",
        (0x0525, 0xA4A7) => "Netchip CDC-ACM",
        (0x2341, _) => "Arduino",
        (0x239A, _) => "Adafruit",
        (0x303A, _) => "Espressif",
        _ => "Unknown",
    }
}

/// Where the bytes of an SSH session go.
#[derive(Copy, Clone, Debug, PartialEq, Eq, Structural)]
pub enum WriteTarget {
    Usb(usize),
    Com1,
    Com2,
}

/// The serial devices of the bridge.
pub struct Bridge {
    /// Whether the USB host is enabled.
    pub cdc_enabled: bool,
    /// Whether a USB device is ready.
    pub cdc_connected: bool,
    pub cdc_vid: u16,
    pub cdc_pid: u16,
    pub cdc_baud: u32,
    /// Number of ports of the USB device that are ready.
    pub cdc_port_count: u8,
    /// FTDI chips put two status bytes in front of every packet.
    pub is_ftdi: bool,
    /// Endpoint to write to, per USB port.
    pub port_ep_out: [u8; 4],
    /// Whether there is a transfer to write with, per USB port.
    pub port_out_ready: [bool; 4],
    /// Whether a write is under way, per USB port.
    pub port_out_busy: [bool; 4],
    /// Address of a device that waits to be opened, 0 for none.
    pub new_dev_addr: u8,
    /// Whether a USB device was removed since one was last made known.
    pub dev_gone: bool,
    /// Whether a USB device was removed since one was last opened.
    pub gone_since_open: bool,
    pub uart1_ready: bool,
    pub uart2_ready: bool,
    /// The device that the SSH session is connected to.
    pub active_device: u8,
    /// Why the last selection failed.
    pub last_select_err: &'static str,
    /// The device that the display was set to.
    pub display_port: u8,
    pub ssh_started: bool,
}

/// The reason why a device cannot be selected now.
pub open spec fn select_error(b: Bridge, name: Seq<char>) -> Option<Seq<char>> {
    match usb_port_of(name) {
        Some(port) => if !b.cdc_enabled {
            Some("USB CDC host is disabled (cdc_enable=false)"@)
        } else if !b.cdc_connected {
            Some("No USB device connected"@)
        } else if port >= b.cdc_port_count {
            Some("Port not available on connected device"@)
        } else {
            None
        },
        None => if name == "com1"@ {
            if b.uart1_ready {
                None
            } else {
                Some("com1 (UART1) not initialised"@)
            }
        } else if name == "com2"@ {
            if b.uart2_ready {
                None
            } else {
                Some("com2 (UART2) not initialised"@)
            }
        } else {
            Some("Unknown device. Available: usb0-usb3, com1, com2"@)
        },
    }
}

/// The USB port that a name stands for.
pub open spec fn usb_port_of(name: Seq<char>) -> Option<int> {
    if name == "usb0"@ || name == "usb"@ {
        Some(0)
    } else if name == "usb1"@ {
        Some(1)
    } else if name == "usb2"@ {
        Some(2)
    } else if name == "usb3"@ {
        Some(3)
    } else {
        None
    }
}

/// Where the bytes of a session on a selected device go.
pub open spec fn target_of(name: Seq<char>) -> WriteTarget {
    match usb_port_of(name) {
        Some(port) => WriteTarget::Usb(port as usize),
        None => if name == "com1"@ {
            WriteTarget::Com1
        } else {
            WriteTarget::Com2
        },
    }
}

/// The device number of a target.
pub open spec fn target_device(t: WriteTarget) -> u8 {
    match t {
        WriteTarget::Usb(port) => usb_device(port as int),
        WriteTarget::Com1 => DEVICE_COM1,
        WriteTarget::Com2 => DEVICE_COM2,
    }
}

/// Device and page of a display port name.
pub open spec fn display_choice(name: Seq<char>) -> Option<(u8, u8)> {
    if name == "com1"@ {
        Some((DEVICE_COM1, PAGE_COM1))
    } else if name == "com2"@ {
        Some((DEVICE_COM2, PAGE_COM2))
    } else if name == "usb0"@ {
        Some((DEVICE_USB0, PAGE_USB))
    } else if name == "usb1"@ {
        Some((DEVICE_USB1, PAGE_USB))
    } else if name == "usb2"@ {
        Some((DEVICE_USB2, PAGE_USB))
    } else if name == "usb3"@ {
        Some((DEVICE_USB3, PAGE_USB))
    } else {
        None
    }
}

/// A selected device, or why it could not be selected.
pub open spec fn selected(b: Bridge, name: Seq<char>) -> Option<WriteTarget> {
    if select_error(b, name) is None {
        Some(target_of(name))
    } else {
        None
    }
}

/// Whether a device can take bytes from terminals.
pub open spec fn writable(b: Bridge, device_id: u8) -> bool {
    if device_id == DEVICE_COM1 {
        b.uart1_ready
    } else if device_id == DEVICE_COM2 {
        b.uart2_ready
    } else {
        b.cdc_enabled && b.cdc_connected
    }
}

/// What of a received packet is data.
pub open spec fn payload(ftdi: bool, packet: Seq<u8>) -> Seq<u8> {
    if !ftdi {
        packet
    } else if packet.len() <= 2 {
        Seq::empty()
    } else {
        packet.skip(2)
    }
}

/// What the firmware does after a packet came in.
pub struct Received {
    /// The data in the packet.
    pub data: Vec<u8>,
    /// Whether the SSH session gets it.
    pub to_ssh: bool,
    /// Whether the transfer is submitted again.
    pub resubmit: bool,
}

/// A terminal buffer after it was fed, where there is one.
pub open spec fn mirrored(before: Option<SerialRxBuffer>, after: Option<SerialRxBuffer>, data: Seq<u8>) -> bool {
    match (before, after) {
        (Some(x), Some(y)) => y@ == terminal::fed(x@, data) && y@.wf(),
        (None, None) => true,
        _ => false,
    }
}

/// Whether a terminal buffer, where there is one, is well-formed.
pub open spec fn buffer_wf(b: Option<SerialRxBuffer>) -> bool {
    b matches Some(x) ==> x@.wf()
}

/// Feeds a terminal buffer, where there is one.
fn mirror(buf: &mut Option<SerialRxBuffer>, data: &[u8])
    requires
        buffer_wf(*old(buf)),
    ensures
        mirrored(*old(buf), *final(buf), data@),
{
    if let Some(b) = buf {
        b.push_data(data);
    }
}

/// What the SSH server is started with.
pub open spec fn c_text_or(s: Seq<char>, fallback: Seq<char>) -> Seq<char> {
    if s.contains('\0') {
        fallback
    } else {
        s
    }
}

/// An event of the USB host.
#[derive(Copy, Clone, Debug, PartialEq, Eq, Structural)]
pub enum ClientEvent {
    /// A device was found at an address.
    NewDevice(u8),
    /// The open device was removed.
    DeviceGone,
    Other,
}

/// What starting the bridge asks for.
pub struct StartPlan {
    /// User name and password to start the SSH server with; none where it runs already.
    pub ssh: Option<(String, String)>,
    /// Whether to start the USB host.
    pub usb: bool,
}

impl StartPlan {
    /// The SSH server is started once, with name and password where they can be C strings, and the
    /// USB host if it is enabled.
    pub open spec fn is_for(
        self,
        b: Bridge,
        username: Seq<char>,
        password: Seq<char>,
        cdc_enable: bool,
    ) -> bool {
        &&& self.usb == cdc_enable
        &&& self.ssh is Some <==> !b.ssh_started
        &&& self.ssh matches Some((u, w)) ==> {
            &&& u@ == c_text_or(username, "admin"@)
            &&& w@ == c_text_or(password, "esp32"@)
        }
    }
}

/// The bridge once it was started.
pub open spec fn running(
    b: Bridge,
    uart1_ok: bool,
    uart2_ok: bool,
    cdc_enable: bool,
    cdc_baud: u32,
) -> Bridge {
    Bridge {
        uart1_ready: b.uart1_ready || uart1_ok,
        uart2_ready: b.uart2_ready || uart2_ok,
        ssh_started: true,
        cdc_enabled: b.cdc_enabled || cdc_enable,
        cdc_baud: if cdc_enable {
            cdc_baud
        } else {
            b.cdc_baud
        },
        ..b
    }
}

/// A write to a USB port that begins, or does not.
pub open spec fn write_begun(
    before: Bridge,
    after: Bridge,
    port: int,
    data: Seq<u8>,
    size: int,
    w: Option<(u8, Vec<u8>)>,
) -> bool {
    &&& w is Some <==> before.can_write(port, data.len())
    &&& w matches Some((ep, bytes)) ==> {
        &&& ep == before.port_ep_out@[port]
        &&& bytes@ == if data.len() <= size {
            data
        } else {
            data.take(size)
        }
        &&& after.port_out_busy@ == before.port_out_busy@.update(port, true)
    }
    &&& w is None ==> after.port_out_busy@ == before.port_out_busy@
    &&& after == (Bridge { port_out_busy: after.port_out_busy, ..before })
}

/// A write to a USB port that ended.
pub open spec fn write_ended(before: Bridge, after: Bridge, port: int) -> bool {
    &&& after.port_out_busy@ == if port < MAX_USB_PORTS {
        before.port_out_busy@.update(port, false)
    } else {
        before.port_out_busy@
    }
    &&& after == (Bridge { port_out_busy: after.port_out_busy, ..before })
}

/// The queues with bytes of a device behind what is there.
pub open spec fn queued(q: ws::Queued, device_id: u8, data: Seq<u8>) -> ws::Queued {
    ws::with_queue(
        q,
        device_id,
        ws::newest(ws::queue_of(q, device_id) + data, ws::WS_RING_CAP as nat),
    )
}

/// What a packet from a USB port leads to.
pub open spec fn packet_taken(b: Bridge, port: int, completed: bool, packet: Seq<u8>, r: Received) -> bool {
    &&& r.data@ == if completed {
        payload(b.is_ftdi, packet)
    } else {
        Seq::empty()
    }
    &&& r.to_ssh == (r.data@.len() > 0 && b.active_device == usb_device(port))
    &&& r.resubmit == !b.dev_gone
}

/// Whether bytes of a device are for the SSH session.
pub open spec fn for_ssh(b: Bridge, device_id: u8, data: Seq<u8>) -> bool {
    data.len() > 0 && b.active_device == device_id
}

/// What is taken out of the queue of a device, to be written to it.
pub open spec fn drained(b: Bridge, q: ws::Queued, device_id: u8, w: Option<Vec<u8>>) -> bool {
    &&& w is Some <==> writable(b, device_id) && ws::queue_of(q, device_id).len() > 0
    &&& w matches Some(v) ==> v@ == ws::queue_of(q, device_id)
}

/// The bridge after an event of the USB host.
pub open spec fn after_event(b: Bridge, event: ClientEvent) -> Bridge {
    match event {
        ClientEvent::NewDevice(addr) => Bridge { new_dev_addr: addr, ..b },
        ClientEvent::DeviceGone => Bridge { dev_gone: true, gone_since_open: true, ..b },
        ClientEvent::Other => b,
    }
}

/// The bridge after it learnt which devices are there.
pub open spec fn after_finding(b: Bridge, addrs: Seq<u8>) -> Bridge {
    if addrs.len() > 0 {
        Bridge { new_dev_addr: addrs[0], ..b }
    } else {
        b
    }
}

/// The address of a device that waits to be opened.
pub open spec fn waiting_device(b: Bridge) -> Option<u8> {
    if b.new_dev_addr == 0 {
        None
    } else {
        Some(b.new_dev_addr)
    }
}

/// What the information page shows of the USB port and the active device.
pub open spec fn usb_view(b: Bridge) -> serial_display::Usb {
    serial_display::Usb {
        active: device_label(b.active_device),
        cdc_enabled: b.cdc_enabled,
        cdc_connected: b.cdc_connected,
        vid: b.cdc_vid,
        pid: b.cdc_pid,
        chip: chip_label(b.cdc_vid, b.cdc_pid),
        ports: b.cdc_port_count,
    }
}

/// The bridge after a device was selected, or could not be.
pub open spec fn after_selecting(before: Bridge, after: Bridge, name: Seq<char>) -> bool {
    &&& after == (Bridge {
        active_device: match selected(before, name) {
            Some(target) => target_device(target),
            None => before.active_device,
        },
        last_select_err: after.last_select_err,
        ..before
    })
    &&& match select_error(before, name) {
        Some(e) => after.last_select_err@ == e,
        None => after.last_select_err == before.last_select_err,
    }
}

/// Whether the display was set to a port by its name.
pub open spec fn display_set(
    before: Bridge,
    after: Bridge,
    page_before: u8,
    page_after: u8,
    name: Seq<char>,
) -> bool {
    match display_choice(name) {
        Some((id, page)) => after == (Bridge { display_port: id, ..before }) && page_after == page,
        None => after == before && page_after == page_before,
    }
}

/// A digital output set by an SSH command, or not.
pub open spec fn gpio_commanded(
    before: Option<GpioPwmState>,
    after: Option<GpioPwmState>,
    idx: int,
    on_off: int,
    rc: int,
) -> bool {
    &&& after is Some <==> before is Some
    &&& rc == if 0 <= idx <= 6 && before is Some {
        0int
    } else {
        -1
    }
    &&& (before, after) matches (Some(a), Some(b)) ==> {
        &&& b.pwm() == a.pwm()
        &&& b.gpio() == if 0 <= idx <= 6 {
            a.gpio().update(idx, on_off != 0)
        } else {
            a.gpio()
        }
    }
}

/// A PWM duty set by an SSH command, or not.
pub open spec fn pwm_commanded(
    before: Option<GpioPwmState>,
    after: Option<GpioPwmState>,
    ch: int,
    duty: int,
    rc: int,
) -> bool {
    &&& after is Some <==> before is Some
    &&& rc == if 0 <= ch <= 1 && 0 <= duty <= 100 && before is Some {
        0int
    } else {
        -1
    }
    &&& (before, after) matches (Some(a), Some(b)) ==> {
        &&& b.gpio() == a.gpio()
        &&& b.pwm() == if 0 <= ch <= 1 && 0 <= duty <= 100 {
            a.pwm().update(ch, duty as u8)
        } else {
            a.pwm()
        }
    }
}

impl Bridge {
    /// No device is ready.
    pub fn new() -> (b: Bridge)
        ensures
            !b.cdc_enabled && !b.cdc_connected && !b.is_ftdi && !b.dev_gone
                && !b.gone_since_open,
            !b.uart1_ready && !b.uart2_ready && !b.ssh_started,
            b.cdc_vid == 0 && b.cdc_pid == 0 && b.cdc_port_count == 0 && b.new_dev_addr == 0,
            b.cdc_baud == 115200,
            b.active_device == DEVICE_NONE,
            b.display_port == DEVICE_COM1,
            b.last_select_err@ == "Unknown device"@,
            b.port_ep_out@ == seq![0u8, 0u8, 0u8, 0u8],
            b.port_out_ready@ == seq![false, false, false, false],
            b.port_out_busy@ == seq![false, false, false, false],
    {
        let b = Bridge {
            cdc_enabled: false,
            cdc_connected: false,
            cdc_vid: 0,
            cdc_pid: 0,
            cdc_baud: 115200,
            cdc_port_count: 0,
            is_ftdi: false,
            port_ep_out: [0u8;4],
            port_out_ready: [false;4],
            port_out_busy: [false;4],
            new_dev_addr: 0,
            dev_gone: false,
            gone_since_open: false,
            uart1_ready: false,
            uart2_ready: false,
            active_device: DEVICE_NONE,
            last_select_err: "Unknown device",
            display_port: DEVICE_COM1,
            ssh_started: false,
        };
        proof {
            assert(b.port_ep_out@ =~= seq![0u8, 0u8, 0u8, 0u8]);
            assert(b.port_out_ready@ =~= seq![false, false, false, false]);
            assert(b.port_out_busy@ =~= seq![false, false, false, false]);
        }
        b
    }

    /// Whether a USB device is ready, with its vendor and product numbers.
    pub fn cdc_device_info(&self) -> (r: (bool, u16, u16))
        ensures
            r == (self.cdc_connected, self.cdc_vid, self.cdc_pid),
    {
        (self.cdc_connected, self.cdc_vid, self.cdc_pid)
    }

    /// The name of the connected chip.
    pub fn cdc_device_chip_name(&self) -> (name: &'static str)
        ensures
            name@ == chip_label(self.cdc_vid, self.cdc_pid),
    {
        chip_name(self.cdc_vid, self.cdc_pid)
    }

    /// Whether the USB host is enabled.
    pub fn cdc_is_enabled(&self) -> (r: bool)
        ensures
            r == self.cdc_enabled,
    {
        self.cdc_enabled
    }

    /// Number of USB ports that are ready.
    pub fn cdc_port_count(&self) -> (n: u8)
        ensures
            n == self.cdc_port_count,
    {
        self.cdc_port_count
    }

    /// The name of the device that the SSH session is connected to.
    pub fn active_device_name(&self) -> (name: &'static str)
        ensures
            name@ == device_label(self.active_device),
    {
        device_name(self.active_device)
    }

    /// The name of the device that the display was set to.
    pub fn display_port_name(&self) -> (name: &'static str)
        ensures
            name@ == device_label(self.display_port),
    {
        device_name(self.display_port)
    }

    /// What the information page shows of the USB port and the active device.
    pub fn summary(&self) -> (s: UsbSummary)
        ensures
            s@ == usb_view(*self),
    {
        UsbSummary {
            active: self.active_device_name().to_owned(),
            cdc_enabled: self.cdc_enabled,
            cdc_connected: self.cdc_connected,
            vid: self.cdc_vid,
            pid: self.cdc_pid,
            chip: self.cdc_device_chip_name().to_owned(),
            ports: self.cdc_port_count,
        }
    }

    /// Sets the port that the display shows and turns to its page; an unknown name changes
    /// nothing.
    pub fn set_display_port(&mut self, name: &str, display: &mut DisplayState)
        requires
            old(display).wf(),
        ensures
            final(display).wf(),
            final(display).aux() == old(display).aux(),
            final(display).message() == old(display).message(),
            display_set(
                *old(self),
                *final(self),
                old(display).page(),
                final(display).page(),
                name@,
            ),
    {
        let (id, page): (u8, u8) = if same(name, "com1") {
            (DEVICE_COM1, PAGE_COM1)
        } else if same(name, "com2") {
            (DEVICE_COM2, PAGE_COM2)
        } else if same(name, "usb0") {
            (DEVICE_USB0, PAGE_USB)
        } else if same(name, "usb1") {
            (DEVICE_USB1, PAGE_USB)
        } else if same(name, "usb2") {
            (DEVICE_USB2, PAGE_USB)
        } else if same(name, "usb3") {
            (DEVICE_USB3, PAGE_USB)
        } else {
            return ;
        };
        self.display_port = id;
        display.set_page(page);
    }

    /// Connects the SSH session to a USB port, or says why that is not possible.
    fn try_select_usb_port(&mut self, port: usize) -> (t: Option<WriteTarget>)
        requires
            port < MAX_USB_PORTS,
        ensures
            ({
                let o = *old(self);
                let ok = o.cdc_enabled && o.cdc_connected && port < o.cdc_port_count;
                &&& t == if ok {
                    Some(WriteTarget::Usb(port))
                } else {
                    None
                }
                &&& *final(self) == (Bridge {
                    active_device: if ok {
                        usb_device(port as int)
                    } else {
                        o.active_device
                    },
                    last_select_err: final(self).last_select_err,
                    ..o
                })
                &&& ok ==> final(self).last_select_err == o.last_select_err
                &&& !o.cdc_enabled ==> final(self).last_select_err@
                    == "USB CDC host is disabled (cdc_enable=false)"@
                &&& o.cdc_enabled && !o.cdc_connected ==> final(self).last_select_err@
                    == "No USB device connected"@
                &&& o.cdc_enabled && o.cdc_connected && port >= o.cdc_port_count
                    ==> final(self).last_select_err@ == "Port not available on connected device"@
            }),
    {
        if !self.cdc_enabled {
            self.last_select_err = "USB CDC host is disabled (cdc_enable=false)";
            return None;
        }
        if !self.cdc_connected {
            self.last_select_err = "No USB device connected";
            return None;
        }
        if port >= self.cdc_port_count as usize {
            self.last_select_err = "Port not available on connected device";
            return None;
        }
        self.active_device = usb_port_device_id(port);
        Some(WriteTarget::Usb(port))
    }

    /// Connects the SSH session to the named device. Where that is not possible, the reason is
    /// kept and the session stays connected as it was.
    pub fn ssh_select_device(&mut self, name: &str) -> (t: Option<WriteTarget>)
        ensures
            t == selected(*old(self), name@),
            after_selecting(*old(self), *final(self), name@),
    {
        if same(name, "usb0") || same(name, "usb") {
            return self.try_select_usb_port(0);
        }
        if same(name, "usb1") {
            return self.try_select_usb_port(1);
        }
        if same(name, "usb2") {
            return self.try_select_usb_port(2);
        }
        if same(name, "usb3") {
            return self.try_select_usb_port(3);
        }
        if same(name, "com1") {
            if self.uart1_ready {
                self.active_device = DEVICE_COM1;
                return Some(WriteTarget::Com1);
            }
            self.last_select_err = "com1 (UART1) not initialised";
            return None;
        }
        if same(name, "com2") {
            if self.uart2_ready {
                self.active_device = DEVICE_COM2;
                return Some(WriteTarget::Com2);
            }
            self.last_select_err = "com2 (UART2) not initialised";
            return None;
        }
        self.last_select_err = "Unknown device. Available: usb0-usb3, com1, com2";
        None
    }

    /// Disconnects the SSH session from its device.
    pub fn ssh_release_device(&mut self)
        ensures
            *final(self) == (Bridge { active_device: DEVICE_NONE, ..*old(self) }),
    {
        self.active_device = DEVICE_NONE;
    }

    /// Why the last selection failed.
    pub fn ssh_device_error(&self) -> (e: &'static str)
        ensures
            e == self.last_select_err,
    {
        self.last_select_err
    }

    /// Whether a write of `len` bytes to a USB port can begin.
    pub open spec fn can_write(self, port: int, len: nat) -> bool {
        &&& 0 <= port < MAX_USB_PORTS
        &&& self.cdc_connected
        &&& len > 0
        &&& !self.port_out_busy@[port]
        &&& self.port_out_ready@[port]
    }

    /// Begins a write to a USB port whose transfer takes `size` bytes: the endpoint and the bytes
    /// to send, and the port is busy until the write ends. Nothing happens where the port cannot
    /// take a write now.
    pub fn usb_cdc_write_port(&mut self, port: usize, data: &[u8], size: usize) -> (w: Option<
        (u8, Vec<u8>),
    >)
        ensures
            write_begun(*old(self), *final(self), port as int, data@, size as int, w),
    {
        if port >= MAX_USB_PORTS || !self.cdc_connected || data.len() == 0 {
            return None;
        }
        if self.port_out_busy[port] || !self.port_out_ready[port] {
            return None;
        }
        self.port_out_busy[port] = true;
        let n: usize = if data.len() <= size {
            data.len()
        } else {
            size
        };
        let mut bytes: Vec<u8> = Vec::new();
        let mut i: usize = 0;
        while i < n
            invariant
                i <= n <= data@.len(),
                bytes@ == data@.take(i as int),
            decreases n - i,
        {
            bytes.push(data[i]);
            i = i + 1;
        }
        proof {
            if n == data@.len() {
                assert(data@.take(n as int) =~= data@);
            }
        }
        Some((self.port_ep_out[port], bytes))
    }

    /// A write to a USB port ended or could not be submitted.
    pub fn bulk_out_done(&mut self, port: usize)
        ensures
            write_ended(*old(self), *final(self), port as int),
    {
        if port < MAX_USB_PORTS {
            self.port_out_busy[port] = false;
        }
    }

    /// A packet from a USB port came in, or the transfer failed: its data goes to the SSH session
    /// connected to that port, to the display and to the terminals.
    pub fn bulk_in(
        &self,
        port: usize,
        completed: bool,
        packet: &[u8],
        display: &mut Option<SerialRxBuffer>,
        rings: &mut Rings,
    ) -> (r: Received)
        requires
            buffer_wf(*old(display)),
            old(rings).wf(),
        ensures
            final(rings).wf(),
            packet_taken(*self, port as int, completed, packet@, r),
            mirrored(*old(display), *final(display), r.data@),
            final(rings)@ == queued(old(rings)@, usb_device(port as int), r.data@),
    {
        let device_id = usb_port_device_id(port);
        let skip: usize = if !completed {
            packet.len()
        } else if !self.is_ftdi {
            0
        } else if packet.len() <= 2 {
            packet.len()
        } else {
            2
        };
        let mut data: Vec<u8> = Vec::new();
        let mut i: usize = skip;
        while i < packet.len()
            invariant
                skip <= i <= packet@.len(),
                data@ == packet@.subrange(skip as int, i as int),
            decreases packet@.len() - i,
        {
            data.push(packet[i]);
            i = i + 1;
        }
        proof {
            assert(data@ =~= if completed {
                payload(self.is_ftdi, packet@)
            } else {
                Seq::empty()
            });
        }
        let to_ssh = data.len() > 0 && self.active_device == device_id;
        mirror(display, data.as_slice());
        rings.ws_enqueue(device_id, data.as_slice());
        Received { data, to_ssh, resubmit: !self.dev_gone }
    }

    /// Bytes from a UART came in: they go to the display and to the terminals. Tells whether the
    /// SSH session gets them too.
    pub fn uart_received(
        &self,
        device_id: u8,
        data: &[u8],
        display: &mut Option<SerialRxBuffer>,
        rings: &mut Rings,
    ) -> (to_ssh: bool)
        requires
            buffer_wf(*old(display)),
            old(rings).wf(),
        ensures
            final(rings).wf(),
            to_ssh == for_ssh(*self, device_id, data@),
            mirrored(*old(display), *final(display), data@),
            final(rings)@ == queued(old(rings)@, device_id, data@),
    {
        mirror(display, data);
        rings.ws_enqueue(device_id, data);
        data.len() > 0 && self.active_device == device_id
    }

    /// Takes out what terminals sent to a device: the bytes to write to it, none where there are
    /// none or the device cannot take them; then they are lost.
    pub fn ws_drain_tx(&self, queues: &mut Rings, device_id: u8) -> (w: Option<Vec<u8>>)
        requires
            old(queues).wf(),
        ensures
            final(queues).wf(),
            final(queues)@ == ws::with_queue(old(queues)@, device_id, Seq::empty()),
            drained(*self, old(queues)@, device_id, w),
    {
        let data = queues.drain(device_id);
        let ready = match device_id {
            DEVICE_COM1 => self.uart1_ready,
            DEVICE_COM2 => self.uart2_ready,
            _ => self.cdc_enabled && self.cdc_connected,
        };
        if ready && data.len() > 0 {
            Some(data)
        } else {
            None
        }
    }

    /// Takes an event of the USB host.
    pub fn client_event_cb(&mut self, event: ClientEvent)
        ensures
            *final(self) == after_event(*old(self), event),
    {
        match event {
            ClientEvent::NewDevice(addr) => {
                self.new_dev_addr = addr;
            },
            ClientEvent::DeviceGone => {
                self.dev_gone = true;
                self.gone_since_open = true;
            },
            ClientEvent::Other => {},
        }
    }

    /// Takes the addresses of devices that were there before the host began to listen; the first
    /// one is opened.
    pub fn found_at_start(&mut self, addrs: &[u8])
        ensures
            *final(self) == after_finding(*old(self), addrs@),
    {
        if addrs.len() > 0 {
            self.new_dev_addr = addrs[0];
        }
    }

    /// The address of a device that waits to be opened, if there is one; it no longer waits.
    pub fn take_new_device(&mut self) -> (addr: Option<u8>)
        ensures
            addr == waiting_device(*old(self)),
            *final(self) == (Bridge { new_dev_addr: 0, ..*old(self) }),
    {
        let addr = self.new_dev_addr;
        self.new_dev_addr = 0;
        if addr == 0 {
            None
        } else {
            Some(addr)
        }
    }

    /// Starts the bridge: which UARTs are ready, whether the SSH server is started and with what,
    /// and whether the USB host runs.
    pub fn start(
        &mut self,
        username: &str,
        password: &str,
        uart1_ok: bool,
        uart2_ok: bool,
        cdc_enable: bool,
        cdc_baud: u32,
    ) -> (p: StartPlan)
        ensures
            *final(self) == running(*old(self), uart1_ok, uart2_ok, cdc_enable, cdc_baud),
            p.is_for(*old(self), username@, password@, cdc_enable),
    {
        if uart1_ok {
            self.uart1_ready = true;
        }
        if uart2_ok {
            self.uart2_ready = true;
        }
        let ssh = if self.ssh_started {
            None
        } else {
            let user = if has_nul(username) {
                "admin".to_owned()
            } else {
                username.to_owned()
            };
            let pass = if has_nul(password) {
                "esp32".to_owned()
            } else {
                password.to_owned()
            };
            Some((user, pass))
        };
        self.ssh_started = true;
        if cdc_enable {
            self.cdc_enabled = true;
            self.cdc_baud = cdc_baud;
        }
        StartPlan { ssh, usb: cdc_enable }
    }

    /// Starts the bridge without the USB host.
    pub fn start_ssh_only(
        &mut self,
        username: &str,
        password: &str,
        uart1_ok: bool,
        uart2_ok: bool,
    ) -> (p: StartPlan)
        ensures
            *final(self) == running(*old(self), uart1_ok, uart2_ok, false, 0),
            p.is_for(*old(self), username@, password@, false),
    {
        self.start(username, password, uart1_ok, uart2_ok, false, 115200)
    }
}

/// Sets a digital output for an SSH command: 0 on success, -1 for an unknown output or where
/// there is no state.
pub fn ssh_gpio_set(gpio: &mut Option<GpioPwmState>, idx: i32, on_off: i32) -> (rc: i32)
    requires
        *old(gpio) matches Some(g) ==> g.wf(),
    ensures
        *final(gpio) matches Some(g) ==> g.wf(),
        gpio_commanded(*old(gpio), *final(gpio), idx as int, on_off as int, rc as int),
{
    if idx < 0 || idx > 6 {
        return -1;
    }
    match gpio {
        Some(state) => {
            state.set_gpio(idx as usize, on_off != 0);
            0
        },
        None => -1,
    }
}

/// Sets a PWM duty for an SSH command: 0 on success, -1 for an unknown channel, a duty that is no
/// percentage, or where there is no state.
pub fn ssh_pwm_set(gpio: &mut Option<GpioPwmState>, ch: i32, duty: i32) -> (rc: i32)
    requires
        *old(gpio) matches Some(g) ==> g.wf(),
    ensures
        *final(gpio) matches Some(g) ==> g.wf(),
        pwm_commanded(*old(gpio), *final(gpio), ch as int, duty as int, rc as int),
{
    if ch < 0 || ch > 1 {
        return -1;
    }
    if duty < 0 || duty > 100 {
        return -1;
    }
    match gpio {
        Some(state) => {
            state.set_pwm(ch as usize, duty as u8);
            0
        },
        None => -1,
    }
}

/// While a write to a port is under way, no other one begins on it; when it ended, the next one
/// can begin.
pub proof fn law_one_write_at_a_time(idle: Bridge, busy: Bridge, port: int, len: nat)
    requires
        idle.can_write(port, len),
        busy == (Bridge { port_out_busy: busy.port_out_busy, ..idle }),
        busy.port_out_busy@ == idle.port_out_busy@.update(port, true),
    ensures
        forall|n: nat| !busy.can_write(port, n),
        forall|done: Bridge|
            done == (Bridge { port_out_busy: done.port_out_busy, ..busy })
                && done.port_out_busy@ == busy.port_out_busy@.update(port, false)
                ==> #[trigger] done.can_write(port, len),
{
}

/// A selection that is refused always comes with a reason, and one that is not never does.
pub proof fn law_refusal_has_reason(b: Bridge, name: Seq<char>)
    ensures
        selected(b, name) is None <==> select_error(b, name) is Some,
{
}

/// The display port reads back under the name that it was set by.
pub proof fn law_display_port_name(name: Seq<char>)
    ensures
        display_choice(name) matches Some((id, page)) ==> device_label(id) == name,
{
}

/// Data of a USB packet is what the chip received: FTDI packets lose their two status bytes,
/// others are left as they are.
pub proof fn law_payload(status: Seq<u8>, data: Seq<u8>)
    requires
        status.len() == 2,
    ensures
        payload(true, status + data) == data,
        payload(false, data) == data,
{
    assert(payload(true, status + data) =~= data);
}

/// The numbers of devices and what they are called: 1 and 4 to 6 are the USB ports, 2 and 3 the
/// UARTs.
pub proof fn law_devices_by_number(id: u8)
    ensures
        usb_device(0) == 1 && usb_device(1) == 4 && usb_device(2) == 5 && usb_device(3) == 6,
        usb_device(4) == 0,
        device_label(1) == "usb0"@,
        device_label(4) == "usb1"@,
        device_label(5) == "usb2"@,
        device_label(6) == "usb3"@,
        device_label(2) == "com1"@,
        device_label(3) == "com2"@,
        id == 0 || id > 6 ==> device_label(id) == "none"@,
        target_device(WriteTarget::Com1) == 2,
        target_device(WriteTarget::Com2) == 3,
        target_device(WriteTarget::Usb(0)) == 1,
        target_device(WriteTarget::Usb(1)) == 4,
        target_device(WriteTarget::Usb(2)) == 5,
        target_device(WriteTarget::Usb(3)) == 6,
{
}

/// Which chip has which numbers.
pub proof fn law_chips_by_number(vid: u16, pid: u16)
    ensures
        chip_label(0x067B, 0x2303) == "PL2303"@,
        chip_label(0x067B, 0x23A3) == "PL2303"@,
        chip_label(0x067B, 0x2304) == "PL2303"@,
        chip_label(0x10C4, 0xEA60) == "CP210x"@,
        chip_label(0x10C4, 0xEA61) == "CP210x"@,
        chip_label(0x10C4, 0xEA70) == "CP210x"@,
        chip_label(0x0403, 0x6001) == "FT232R"@,
        chip_label(0x0403, 0x6010) == "FT2232"@,
        chip_label(0x0403, 0x6011) == "FT4232"@,
        chip_label(0x0403, 0x6014) == "FT232H"@,
        chip_label(0x1A86, 0x7523) == "CH340"@,
        chip_label(0x1A86, 0x7522) == "CH340"@,
        chip_label(0x1A86, 0x55D4) == "CH343"@,
        chip_label(0x1A86, 0x55D3) == "CH343"@,
        chip_label(0x1A86, 0x5523) == "CH341"@,
        chip_label(0x0483, 0x5740) == "STM32 VCP"@,
        chip_label(0x0525, 0xA4A7) == "Netchip CDC-ACM"@,
        chip_label(0x2341, pid) == "Arduino"@,
        chip_label(0x239A, pid) == "Adafruit"@,
        chip_label(0x303A, pid) == "Espressif"@,
        vid != 0x067B && vid != 0x10C4 && vid != 0x0403 && vid != 0x1A86 && vid != 0x0483 && vid
            != 0x0525 && vid != 0x2341 && vid != 0x239A && vid != 0x303A ==> chip_label(vid, pid)
            == "Unknown"@,
        pid != 0x2303 && pid != 0x23A3 && pid != 0x2304 ==> chip_label(0x067B, pid)
            == "Unknown"@,
        pid != 0xEA60 && pid != 0xEA61 && pid != 0xEA70 ==> chip_label(0x10C4, pid)
            == "Unknown"@,
        pid != 0x6001 && pid != 0x6010 && pid != 0x6011 && pid != 0x6014 ==> chip_label(0x0403, pid)
            == "Unknown"@,
        pid != 0x7523 && pid != 0x7522 && pid != 0x55D4 && pid != 0x55D3 && pid != 0x5523 ==> chip_label(0x1A86, pid)
            == "Unknown"@,
        pid != 0x5740 ==> chip_label(0x0483, pid)
            == "Unknown"@,
        pid != 0xA4A7 ==> chip_label(0x0525, pid)
            == "Unknown"@,
{
}

/// How many ports an FTDI chip has: an FT4232 four, an FT2232 two, and any other one.
pub proof fn law_ftdi_ports(pid: u16)
    ensures
        ftdi_ports(0x6011) == 4,
        ftdi_ports(0x6010) == 2,
        pid != 0x6011 && pid != 0x6010 ==> ftdi_ports(pid) == 1,
{
}

proof fn lemma_device_names()
    ensures
        "usb"@ != "usb0"@ && "usb"@ != "usb1"@ && "usb"@ != "usb2"@ && "usb"@ != "usb3"@ && "usb"@
            != "com1"@ && "usb"@ != "com2"@,
        "usb0"@ != "usb1"@ && "usb0"@ != "usb2"@ && "usb0"@ != "usb3"@ && "usb0"@ != "com1"@
            && "usb0"@ != "com2"@,
        "usb1"@ != "usb2"@ && "usb1"@ != "usb3"@ && "usb1"@ != "com1"@ && "usb1"@ != "com2"@,
        "usb2"@ != "usb3"@ && "usb2"@ != "com1"@ && "usb2"@ != "com2"@,
        "usb3"@ != "com1"@ && "usb3"@ != "com2"@,
        "com1"@ != "com2"@,
{
    reveal_strlit("usb");
    reveal_strlit("usb0");
    reveal_strlit("usb1");
    reveal_strlit("usb2");
    reveal_strlit("usb3");
    reveal_strlit("com1");
    reveal_strlit("com2");
    assert("usb"@.len() == 3);
    assert("usb0"@[3] == '0' && "usb1"@[3] == '1' && "usb2"@[3] == '2' && "usb3"@[3] == '3');
    assert("com1"@[3] == '1' && "com2"@[3] == '2' && "com1"@[0] == 'c' && "com2"@[0] == 'c');
    assert("usb0"@[0] == 'u' && "usb1"@[0] == 'u' && "usb2"@[0] == 'u' && "usb3"@[0] == 'u');
}

/// Whether a USB port can be selected.
pub open spec fn usb_port_ready(b: Bridge, port: int) -> bool {
    b.cdc_enabled && b.cdc_connected && port < b.cdc_port_count
}

/// A name selects the device that it names, if that is ready: `usb0` to `usb3` the USB ports, `usb`
/// the first of them, `com1` and `com2` the UARTs. No other name selects one.
pub proof fn law_selected_by_name(b: Bridge, name: Seq<char>)
    ensures
        selected(b, "usb0"@) is Some <==> usb_port_ready(b, 0),
        selected(b, "usb"@) is Some <==> usb_port_ready(b, 0),
        selected(b, "usb1"@) is Some <==> usb_port_ready(b, 1),
        selected(b, "usb2"@) is Some <==> usb_port_ready(b, 2),
        selected(b, "usb3"@) is Some <==> usb_port_ready(b, 3),
        selected(b, "com1"@) is Some <==> b.uart1_ready,
        selected(b, "com2"@) is Some <==> b.uart2_ready,
        usb_port_ready(b, 0) ==> selected(b, "usb0"@) == Some(WriteTarget::Usb(0)) && selected(
            b,
            "usb"@,
        ) == Some(WriteTarget::Usb(0)),
        usb_port_ready(b, 1) ==> selected(b, "usb1"@) == Some(WriteTarget::Usb(1)),
        usb_port_ready(b, 2) ==> selected(b, "usb2"@) == Some(WriteTarget::Usb(2)),
        usb_port_ready(b, 3) ==> selected(b, "usb3"@) == Some(WriteTarget::Usb(3)),
        b.uart1_ready ==> selected(b, "com1"@) == Some(WriteTarget::Com1),
        b.uart2_ready ==> selected(b, "com2"@) == Some(WriteTarget::Com2),
        name != "usb0"@ && name != "usb"@ && name != "usb1"@ && name != "usb2"@ && name != "usb3"@
            && name != "com1"@ && name != "com2"@ ==> selected(b, name) is None,
{
    lemma_device_names();
}

/// Why a device cannot be selected: the first of these that holds. For a USB port the host is
/// disabled, or there is no device, or it has no such port; a UART is not initialised; or there is
/// no such device.
pub proof fn law_refused_by_name(b: Bridge, port: int, name: Seq<char>)
    requires
        0 <= port < 4,
    ensures
        ({
            let usb = if port == 0 {
                "usb0"@
            } else if port == 1 {
                "usb1"@
            } else if port == 2 {
                "usb2"@
            } else {
                "usb3"@
            };
            &&& !b.cdc_enabled ==> select_error(b, usb) == Some(
                "USB CDC host is disabled (cdc_enable=false)"@,
            )
            &&& b.cdc_enabled && !b.cdc_connected ==> select_error(b, usb) == Some(
                "No USB device connected"@,
            )
            &&& b.cdc_enabled && b.cdc_connected && b.cdc_port_count <= port ==> select_error(
                b,
                usb,
            ) == Some("Port not available on connected device"@)
        }),
        !b.uart1_ready ==> select_error(b, "com1"@) == Some("com1 (UART1) not initialised"@),
        !b.uart2_ready ==> select_error(b, "com2"@) == Some("com2 (UART2) not initialised"@),
        name != "usb0"@ && name != "usb"@ && name != "usb1"@ && name != "usb2"@ && name != "usb3"@
            && name != "com1"@ && name != "com2"@ ==> select_error(b, name) == Some(
            "Unknown device. Available: usb0-usb3, com1, com2"@,
        ),
{
    lemma_device_names();
}

/// Which device and which page the display is set to by a name: the UARTs have a page each, and the
/// USB ports share the last one. Other names mean nothing.
pub proof fn law_display_by_name(name: Seq<char>)
    ensures
        display_choice("com1"@) == Some((2u8, 1u8)),
        display_choice("com2"@) == Some((3u8, 2u8)),
        display_choice("usb0"@) == Some((1u8, 3u8)),
        display_choice("usb1"@) == Some((4u8, 3u8)),
        display_choice("usb2"@) == Some((5u8, 3u8)),
        display_choice("usb3"@) == Some((6u8, 3u8)),
        name != "com1"@ && name != "com2"@ && name != "usb0"@ && name != "usb1"@ && name != "usb2"@
            && name != "usb3"@ ==> display_choice(name) is None,
{
    lemma_device_names();
}

/// A device takes bytes from terminals when it is ready: a UART, number 2 or 3, when it is
/// initialised, and any other one when a USB device is there.
pub proof fn law_writable_by_number(b: Bridge, id: u8)
    ensures
        writable(b, 2) == b.uart1_ready,
        writable(b, 3) == b.uart2_ready,
        id != 2 && id != 3 ==> writable(b, id) == (b.cdc_enabled && b.cdc_connected),
{
}

/// Too short an FTDI packet holds no data.
pub proof fn law_short_packet(packet: Seq<u8>)
    requires
        packet.len() <= 2,
    ensures
        payload(true, packet).len() == 0,
        payload(false, packet) == packet,
{
}

/// Text for the SSH server that cannot be a C string is replaced; any other one is not.
pub proof fn law_c_text(s: Seq<char>, fallback: Seq<char>)
    ensures
        s.contains('\0') ==> c_text_or(s, fallback) == fallback,
        !s.contains('\0') ==> c_text_or(s, fallback) == s,
{
}

/// Starting makes ready what came up and keeps what was ready, enables the USB host at the given
/// rate if it is asked for, and leaves everything else alone. The SSH server is started once, with
/// the given name and password.
pub proof fn law_started_as_asked(
    b: Bridge,
    uart1_ok: bool,
    uart2_ok: bool,
    cdc_enable: bool,
    cdc_baud: u32,
    username: Seq<char>,
    password: Seq<char>,
    p: StartPlan,
)
    requires
        p.is_for(b, username, password, cdc_enable),
        !username.contains('\0'),
        !password.contains('\0'),
    ensures
        ({
            let r = running(b, uart1_ok, uart2_ok, cdc_enable, cdc_baud);
            &&& r.uart1_ready <==> b.uart1_ready || uart1_ok
            &&& r.uart2_ready <==> b.uart2_ready || uart2_ok
            &&& r.cdc_enabled <==> b.cdc_enabled || cdc_enable
            &&& cdc_enable ==> r.cdc_baud == cdc_baud
            &&& !cdc_enable ==> r.cdc_baud == b.cdc_baud
            &&& r.ssh_started
            &&& r.active_device == b.active_device && r.display_port == b.display_port
            &&& r.cdc_connected == b.cdc_connected && r.cdc_vid == b.cdc_vid && r.cdc_pid
                == b.cdc_pid && r.cdc_port_count == b.cdc_port_count && r.is_ftdi == b.is_ftdi
            &&& r.port_ep_out == b.port_ep_out && r.port_out_ready == b.port_out_ready
                && r.port_out_busy == b.port_out_busy
            &&& r.new_dev_addr == b.new_dev_addr && r.dev_gone == b.dev_gone && r.gone_since_open
                == b.gone_since_open && r.last_select_err == b.last_select_err
        }),
        p.usb <==> cdc_enable,
        b.ssh_started ==> p.ssh is None,
        !b.ssh_started ==> p.ssh is Some && (p.ssh->0).0@ == username && (p.ssh->0).1@ == password,
{
}

/// A name or a password that cannot be a C string is replaced by the one of a new device.
pub proof fn law_started_with_fallback(b: Bridge, username: Seq<char>, password: Seq<char>, p: StartPlan)
    requires
        p.is_for(b, username, password, p.usb),
        !b.ssh_started,
    ensures
        username.contains('\0') ==> (p.ssh->0).0@ == "admin"@,
        password.contains('\0') ==> (p.ssh->0).1@ == "esp32"@,
{
}

/// A write goes to the endpoint of its own port, with as many bytes from the front as fit, and makes
/// that port busy and no other; it begins exactly if a device is there, there are bytes, and the
/// port exists, has a transfer and is not busy.
pub proof fn law_write_begun(
    before: Bridge,
    after: Bridge,
    port: int,
    data: Seq<u8>,
    size: int,
    w: Option<(u8, Vec<u8>)>,
    i: int,
    other: int,
)
    requires
        write_begun(before, after, port, data, size, w),
        0 <= port,
        0 <= size,
        0 <= other < 4,
    ensures
        w is Some <==> port < 4 && before.cdc_connected && data.len() > 0
            && !before.port_out_busy@[port] && before.port_out_ready@[port],
        w matches Some((ep, bytes)) ==> {
            &&& ep == before.port_ep_out@[port]
            &&& data.len() <= size ==> bytes@.len() == data.len()
            &&& data.len() > size ==> bytes@.len() == size
            &&& 0 <= i < bytes@.len() ==> bytes@[i] == data[i]
            &&& after.port_out_busy@[port]
        },
        w is None || other != port ==> after.port_out_busy@[other] == before.port_out_busy@[other],
        after.port_ep_out == before.port_ep_out && after.port_out_ready == before.port_out_ready,
        after.cdc_connected == before.cdc_connected && after.active_device == before.active_device,
{
}

/// When a write ended its port is no longer busy; the other ports stay as they are.
pub proof fn law_write_ended(before: Bridge, after: Bridge, port: int, other: int)
    requires
        write_ended(before, after, port),
        0 <= port,
        0 <= other < 4,
    ensures
        port < 4 ==> !after.port_out_busy@[port],
        other != port ==> after.port_out_busy@[other] == before.port_out_busy@[other],
        after.port_out_ready == before.port_out_ready && after.port_ep_out == before.port_ep_out,
{
}

/// What a USB port received goes to the SSH session exactly if it is connected to that port, and to
/// the queue for terminals that all USB ports share; the transfer is submitted again while the
/// device is there.
pub proof fn law_packet_taken(
    b: Bridge,
    port: int,
    completed: bool,
    packet: Seq<u8>,
    r: Received,
    q: ws::Queued,
)
    requires
        packet_taken(b, port, completed, packet, r),
        0 <= port < 4,
    ensures
        !completed ==> r.data@.len() == 0,
        completed && !b.is_ftdi ==> r.data@ == packet,
        completed && b.is_ftdi && packet.len() > 2 ==> r.data@ == packet.subrange(
            2,
            packet.len() as int,
        ),
        r.data@.len() == 0 ==> !r.to_ssh,
        r.data@.len() > 0 && port == 0 ==> (r.to_ssh <==> b.active_device == 1),
        r.data@.len() > 0 && port == 1 ==> (r.to_ssh <==> b.active_device == 4),
        r.data@.len() > 0 && port == 2 ==> (r.to_ssh <==> b.active_device == 5),
        r.data@.len() > 0 && port == 3 ==> (r.to_ssh <==> b.active_device == 6),
        r.resubmit <==> !b.dev_gone,
        queued(q, usb_device(port), r.data@).com1 == q.com1,
        queued(q, usb_device(port), r.data@).com2 == q.com2,
        queued(q, usb_device(port), r.data@).usb == ws::newest(q.usb + r.data@, 4096),
{
}

/// What a UART received goes to its own queue for terminals, and to the SSH session exactly if that
/// is connected to it.
pub proof fn law_uart_received(b: Bridge, data: Seq<u8>, q: ws::Queued)
    ensures
        for_ssh(b, 2, data) <==> data.len() > 0 && b.active_device == 2,
        for_ssh(b, 3, data) <==> data.len() > 0 && b.active_device == 3,
        queued(q, 2, data).com1 == ws::newest(q.com1 + data, 4096),
        queued(q, 2, data).com2 == q.com2 && queued(q, 2, data).usb == q.usb,
        queued(q, 3, data).com2 == ws::newest(q.com2 + data, 4096),
        queued(q, 3, data).com1 == q.com1 && queued(q, 3, data).usb == q.usb,
{
}

/// What terminals typed is written to the device whose queue it stood in, if that is ready.
pub proof fn law_drained(b: Bridge, q: ws::Queued, w: Option<Vec<u8>>)
    ensures
        drained(b, q, 2, w) ==> (w is Some <==> b.uart1_ready && q.com1.len() > 0) && (w matches Some(
            v,
        ) ==> v@ == q.com1),
        drained(b, q, 3, w) ==> (w is Some <==> b.uart2_ready && q.com2.len() > 0) && (w matches Some(
            v,
        ) ==> v@ == q.com2),
        drained(b, q, 1, w) ==> (w is Some <==> b.cdc_enabled && b.cdc_connected && q.usb.len() > 0)
            && (w matches Some(v) ==> v@ == q.usb),
{
}

/// A device that was found waits under its address; one that was removed is known as removed in both
/// ways; anything else changes nothing. The device that waits is taken once.
pub proof fn law_host_events(b: Bridge, addr: u8, addrs: Seq<u8>)
    ensures
        after_event(b, ClientEvent::NewDevice(addr)) == (Bridge { new_dev_addr: addr, ..b }),
        ({
            let gone = after_event(b, ClientEvent::DeviceGone);
            &&& gone.dev_gone && gone.gone_since_open
            &&& gone.cdc_connected == b.cdc_connected && gone.new_dev_addr == b.new_dev_addr
            &&& gone.cdc_port_count == b.cdc_port_count && gone.active_device == b.active_device
        }),
        after_event(b, ClientEvent::Other) == b,
        addrs.len() > 0 ==> after_finding(b, addrs).new_dev_addr == addrs[0],
        addrs.len() == 0 ==> after_finding(b, addrs) == b,
        after_finding(b, addrs).cdc_connected == b.cdc_connected,
        b.new_dev_addr > 0 ==> waiting_device(b) == Some(b.new_dev_addr),
        b.new_dev_addr == 0 ==> waiting_device(b) is None,
{
}

/// What the information page shows of the bridge, item by item.
pub proof fn law_usb_view(b: Bridge)
    ensures
        usb_view(b).active == device_label(b.active_device),
        usb_view(b).cdc_enabled == b.cdc_enabled,
        usb_view(b).cdc_connected == b.cdc_connected,
        usb_view(b).vid == b.cdc_vid,
        usb_view(b).pid == b.cdc_pid,
        usb_view(b).chip == chip_label(b.cdc_vid, b.cdc_pid),
        usb_view(b).ports == b.cdc_port_count,
{
}

/// Selecting a device connects the session to it under its number; where it is refused, the session
/// stays connected as it was and the reason is kept. Nothing else changes.
pub proof fn law_after_selecting(before: Bridge, after: Bridge, name: Seq<char>)
    requires
        after_selecting(before, after, name),
    ensures
        selected(before, name) == Some(WriteTarget::Usb(0)) ==> after.active_device == 1,
        selected(before, name) == Some(WriteTarget::Usb(1)) ==> after.active_device == 4,
        selected(before, name) == Some(WriteTarget::Usb(2)) ==> after.active_device == 5,
        selected(before, name) == Some(WriteTarget::Usb(3)) ==> after.active_device == 6,
        selected(before, name) == Some(WriteTarget::Com1) ==> after.active_device == 2,
        selected(before, name) == Some(WriteTarget::Com2) ==> after.active_device == 3,
        selected(before, name) is None ==> after.active_device == before.active_device
            && select_error(before, name) == Some(after.last_select_err@),
        selected(before, name) is Some ==> after.last_select_err == before.last_select_err,
        after.display_port == before.display_port && after.cdc_connected == before.cdc_connected,
        after.uart1_ready == before.uart1_ready && after.uart2_ready == before.uart2_ready,
{
}

/// The display turns to the port that is named; an unknown name changes nothing.
pub proof fn law_display_set(before: Bridge, after: Bridge, a: u8, b: u8, name: Seq<char>)
    requires
        display_set(before, after, a, b, name),
    ensures
        name == "com1"@ ==> after.display_port == 2 && b == 1,
        name == "com2"@ ==> after.display_port == 3 && b == 2,
        name == "usb0"@ ==> after.display_port == 1 && b == 3,
        name == "usb1"@ ==> after.display_port == 4 && b == 3,
        name == "usb2"@ ==> after.display_port == 5 && b == 3,
        name == "usb3"@ ==> after.display_port == 6 && b == 3,
        name != "com1"@ && name != "com2"@ && name != "usb0"@ && name != "usb1"@ && name != "usb2"@
            && name != "usb3"@ ==> after == before && b == a,
        after.active_device == before.active_device,
{
    law_display_by_name(name);
}

/// An SSH command sets the output of the given number, 0 to 6, on for any number but 0; the other
/// outputs and the duties stay. Without outputs, and for any other number, it fails.
pub proof fn law_gpio_commanded(
    before: Option<GpioPwmState>,
    after: Option<GpioPwmState>,
    idx: int,
    on_off: int,
    rc: int,
    i: int,
)
    requires
        gpio_commanded(before, after, idx, on_off, rc),
        before matches Some(g) ==> g.wf(),
        0 <= i < 7,
    ensures
        before is None || idx < 0 || idx > 6 ==> rc == -1,
        before is Some && 0 <= idx <= 6 ==> {
            &&& rc == 0
            &&& (after->0).gpio()[idx] == (on_off != 0)
            &&& i != idx ==> (after->0).gpio()[i] == (before->0).gpio()[i]
            &&& (after->0).pwm() == (before->0).pwm()
        },
        before is Some && (idx < 0 || idx > 6) ==> (after->0).gpio() == (before->0).gpio(),
{
}

/// An SSH command sets the duty of the given channel, 0 or 1, to a percentage; the other duty and
/// the outputs stay. Without outputs, for any other channel and for what is no percentage it fails.
pub proof fn law_pwm_commanded(
    before: Option<GpioPwmState>,
    after: Option<GpioPwmState>,
    ch: int,
    duty: int,
    rc: int,
    i: int,
)
    requires
        pwm_commanded(before, after, ch, duty, rc),
        before matches Some(g) ==> g.wf(),
        0 <= i < 2,
    ensures
        before is None || ch < 0 || ch > 1 || duty < 0 || duty > 100 ==> rc == -1,
        before is Some && 0 <= ch <= 1 && 0 <= duty <= 100 ==> {
            &&& rc == 0
            &&& (after->0).pwm()[ch] == duty
            &&& i != ch ==> (after->0).pwm()[i] == (before->0).pwm()[i]
            &&& (after->0).gpio() == (before->0).gpio()
        },
        before is Some && (ch < 0 || ch > 1 || duty < 0 || duty > 100) ==> (after->0).pwm()
            == (before->0).pwm(),
{
}

} // verus!
