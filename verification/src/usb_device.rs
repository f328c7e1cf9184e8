//! The life of a USB serial adapter: opened, configured port by port, read from until it is
//! removed, then released.

use crate::usb_host::{ftdi_port_count, Bridge, MAX_USB_PORTS, VID_CP210X, VID_FTDI, VID_PL2303};
use crate::usb_host;
use crate::usb_setup;
use crate::usb_setup::{
    find_all_bulk_eps,
    init_requests,
    BulkEndpoints,
    ControlRequest,
    Request,
};
use vstd::prelude::*;

verus! {

/// What the USB host is asked to do next.
pub enum Action {
    Open { addr: u8 },
    /// Read vendor and product number.
    ReadIds,
    /// Read the configuration descriptor.
    ReadConfig,
    Claim { intf: u8 },
    Control { request: ControlRequest },
    Wait { seconds: u64 },
    /// Allocate the transfer that reads from a port.
    AllocIn { port: usize, endpoint: u8, size: usize },
    /// Allocate the transfer that writes to a port.
    AllocOut { port: usize, size: usize },
    /// Submit the transfer that reads from a port.
    SubmitIn { port: usize },
    /// Handle events and see whether the device is still there.
    Pump,
    FreeOut { port: usize },
    FreeIn { port: usize },
    Release { intf: u8 },
    Close,
    Finished,
}

/// The same as plain values.
pub enum Act {
    Open { addr: u8 },
    ReadIds,
    ReadConfig,
    Claim { intf: u8 },
    Control { request: Request },
    Wait { seconds: u64 },
    AllocIn { port: usize, endpoint: u8, size: usize },
    AllocOut { port: usize, size: usize },
    SubmitIn { port: usize },
    Pump,
    FreeOut { port: usize },
    FreeIn { port: usize },
    Release { intf: u8 },
    Close,
    Finished,
}

impl View for Action {
    type V = Act;

    open spec fn view(&self) -> Act {
        match *self {
            Action::Open { addr } => Act::Open { addr },
            Action::ReadIds => Act::ReadIds,
            Action::ReadConfig => Act::ReadConfig,
            Action::Claim { intf } => Act::Claim { intf },
            Action::Control { request } => Act::Control { request: request@ },
            Action::Wait { seconds } => Act::Wait { seconds },
            Action::AllocIn { port, endpoint, size } => Act::AllocIn { port, endpoint, size },
            Action::AllocOut { port, size } => Act::AllocOut { port, size },
            Action::SubmitIn { port } => Act::SubmitIn { port },
            Action::Pump => Act::Pump,
            Action::FreeOut { port } => Act::FreeOut { port },
            Action::FreeIn { port } => Act::FreeIn { port },
            Action::Release { intf } => Act::Release { intf },
            Action::Close => Act::Close,
            Action::Finished => Act::Finished,
        }
    }
}

/// What came of an action.
pub struct Reply {
    /// Whether it succeeded; for a pump, whether the device was not removed since it was made
    /// known; for a wait, whether it was not removed since it was opened.
    pub ok: bool,
    /// Vendor and product number, where they were read.
    pub ids: Option<(u16, u16)>,
    /// The configuration descriptor, where it was read.
    pub config: Option<Vec<u8>>,
}

/// The same as plain values.
pub struct Answer {
    pub ok: bool,
    pub ids: Option<(u16, u16)>,
    pub config: Option<Seq<u8>>,
}

impl View for Reply {
    type V = Answer;

    open spec fn view(&self) -> Answer {
        Answer { ok: self.ok, ids: self.ids, config: usb_setup::bytes_view(self.config) }
    }
}

/// What the next reply answers.
#[derive(Copy, Clone, Debug, PartialEq, Eq, Structural)]
pub enum Phase {
    Opening,
    Identifying,
    Reading,
    Claiming,
    ClaimingComm,
    Configuring,
    Waiting,
    AllocatingIn,
    AllocatingOut,
    Submitting,
    Running,
    Cleaning,
    Closing,
    Ended,
}

/// What is held for one port.
#[derive(Copy, Clone, Debug, PartialEq, Eq, Structural)]
pub struct Slot {
    /// The interface that was claimed.
    pub claimed: Option<u8>,
    /// The interface for line settings that was claimed as well.
    pub comm: Option<u8>,
    pub has_in: bool,
    pub has_out: bool,
}

/// A device as it is being set up and used.
pub struct DeviceSetup {
    phase: Phase,
    addr: u8,
    vid: u16,
    baud: u32,
    /// Seconds between attempts to configure a device of the standard class.
    retry: Option<u64>,
    eps: Vec<BulkEndpoints>,
    port: usize,
    comm: u8,
    step: usize,
    slots: [Slot; 4],
    active: usize,
}

/// The same as plain values.
#[verifier::ext_equal]
pub struct Setup {
    pub phase: Phase,
    pub addr: u8,
    pub vid: u16,
    pub baud: u32,
    pub retry: Option<u64>,
    pub eps: Seq<BulkEndpoints>,
    pub port: int,
    pub comm: u8,
    pub step: int,
    pub slots: Seq<Slot>,
    pub active: int,
}

impl View for DeviceSetup {
    type V = Setup;

    closed spec fn view(&self) -> Setup {
        Setup {
            phase: self.phase,
            addr: self.addr,
            vid: self.vid,
            baud: self.baud,
            retry: self.retry,
            eps: self.eps@,
            port: self.port as int,
            comm: self.comm,
            step: self.step as int,
            slots: self.slots@,
            active: self.active as int,
        }
    }
}

/// What the rest of the bridge knows of the device.
#[verifier::ext_equal]
pub struct Link {
    pub connected: bool,
    pub vid: u16,
    pub pid: u16,
    pub port_count: u8,
    pub is_ftdi: bool,
    pub gone: bool,
    pub gone_since_open: bool,
    pub ep_out: Seq<u8>,
    pub out_ready: Seq<bool>,
    pub out_busy: Seq<bool>,
}

/// What a bridge knows of its USB device.
pub open spec fn link(b: Bridge) -> Link {
    Link {
        connected: b.cdc_connected,
        vid: b.cdc_vid,
        pid: b.cdc_pid,
        port_count: b.cdc_port_count,
        is_ftdi: b.is_ftdi,
        gone: b.dev_gone,
        gone_since_open: b.gone_since_open,
        ep_out: b.port_ep_out@,
        out_ready: b.port_out_ready@,
        out_busy: b.port_out_busy@,
    }
}

/// Whether two bridges differ in what they know of the USB device only.
pub open spec fn same_but_link(a: Bridge, b: Bridge) -> bool {
    b == (Bridge {
        cdc_connected: b.cdc_connected,
        cdc_vid: b.cdc_vid,
        cdc_pid: b.cdc_pid,
        cdc_port_count: b.cdc_port_count,
        is_ftdi: b.is_ftdi,
        dev_gone: b.dev_gone,
        gone_since_open: b.gone_since_open,
        port_ep_out: b.port_ep_out,
        port_out_ready: b.port_out_ready,
        port_out_busy: b.port_out_busy,
        ..a
    })
}

/// Nothing held.
pub open spec fn empty_slot() -> Slot {
    Slot { claimed: None, comm: None, has_in: false, has_out: false }
}

/// Where everything begins.
pub open spec fn started(addr: u8, retry: Option<u64>) -> Setup {
    Setup {
        phase: Phase::Opening,
        addr,
        vid: 0,
        baud: 0,
        retry,
        eps: Seq::empty(),
        port: 0,
        comm: 0,
        step: 0,
        slots: seq![empty_slot(), empty_slot(), empty_slot(), empty_slot()],
        active: 0,
    }
}

/// How many ports of a device are used, of `n` that it has: all that an FTDI chip is known for,
/// one of any other device.
pub open spec fn ports_used(vid: u16, pid: u16, n: nat) -> nat {
    if vid != VID_FTDI {
        1
    } else {
        let known = usb_host::ftdi_ports(pid);
        if n < known {
            n
        } else {
            known
        }
    }
}

/// Whether a device of this vendor is of the standard class.
pub open spec fn is_standard(vid: u16) -> bool {
    vid != VID_FTDI && vid != VID_PL2303 && vid != VID_CP210X
}

/// The transfers that configure the current port.
pub open spec fn port_sequence(s: Setup) -> Seq<Request> {
    usb_setup::init_sequence(s.vid, s.eps[s.port].intf_num, s.comm, s.baud)
}

/// Whether a port is being set up.
pub open spec fn in_port(p: Phase) -> bool {
    p == Phase::Claiming || p == Phase::ClaimingComm || p == Phase::Configuring || p
        == Phase::Waiting || p == Phase::AllocatingIn || p == Phase::AllocatingOut
}

impl Setup {
    /// There is room for every port, the current one exists, and what has been set up is no more
    /// than the ports so far.
    pub open spec fn wf(self) -> bool {
        &&& self.slots.len() == 4
        &&& 0 <= self.active <= 4
        &&& 0 <= self.step
        &&& self.phase == Phase::Opening || self.phase == Phase::Identifying || self.phase
            == Phase::Reading ==> self.active == 0
        &&& in_port(self.phase) ==> {
            &&& 0 <= self.port < self.eps.len() <= 4
            &&& self.active <= self.port
            &&& self.phase != Phase::Claiming && self.vid == VID_FTDI ==> self.baud > 0
        }
        &&& self.phase == Phase::ClaimingComm ==> self.eps[self.port].intf_num > 0
        &&& self.phase == Phase::Configuring ==> self.step < port_sequence(self).len()
        &&& self.phase == Phase::Waiting ==> self.step == 0
        &&& self.phase == Phase::Submitting ==> self.step <= 4
        &&& self.phase == Phase::Cleaning ==> self.step < cleanup(self.slots, self.active).len()
    }
}

/// The next port from `i` on that can be read from.
pub open spec fn next_in(slots: Seq<Slot>, active: int, i: int) -> Option<int>
    decreases active - i,
{
    if i < 0 || i >= active {
        None
    } else if slots[i].has_in {
        Some(i)
    } else {
        next_in(slots, active, i + 1)
    }
}

/// How what is held for port `i` is given back.
pub open spec fn slot_cleanup(slot: Slot, i: int) -> Seq<Act> {
    let a = if slot.has_out {
        seq![Act::FreeOut { port: i as usize }]
    } else {
        Seq::empty()
    };
    let b = if slot.has_in {
        seq![Act::FreeIn { port: i as usize }]
    } else {
        Seq::empty()
    };
    a + b + released(slot.claimed) + released(slot.comm)
}

/// How a claimed interface is given back; numbers above 127 are not.
pub open spec fn released(intf: Option<u8>) -> Seq<Act> {
    match intf {
        Some(n) => if n < 128 {
            seq![Act::Release { intf: n }]
        } else {
            Seq::empty()
        },
        None => Seq::empty(),
    }
}

/// How what is held for the first `n` ports is given back.
pub open spec fn slots_cleanup(slots: Seq<Slot>, n: int) -> Seq<Act>
    decreases n,
{
    if n <= 0 {
        Seq::empty()
    } else {
        slots_cleanup(slots, n - 1) + slot_cleanup(slots[n - 1], n - 1)
    }
}

/// Everything that is left to do when a device was removed.
pub open spec fn cleanup(slots: Seq<Slot>, active: int) -> Seq<Act> {
    slots_cleanup(slots, active).push(Act::Close)
}

/// Setup, link and action after a step.
pub struct Next {
    pub setup: Setup,
    pub link: Link,
    pub act: Act,
}

/// The device is closed.
pub open spec fn closing(s: Setup, l: Link) -> Next {
    Next { setup: Setup { phase: Phase::Closing, ..s }, link: l, act: Act::Close }
}

/// The transfers that read are submitted from port `i` on; then the device runs.
pub open spec fn submitting(s: Setup, l: Link, i: int) -> Next {
    match next_in(s.slots, s.active, i) {
        Some(j) => Next {
            setup: Setup { phase: Phase::Submitting, step: j + 1, ..s },
            link: l,
            act: Act::SubmitIn { port: j as usize },
        },
        None => Next {
            setup: Setup { phase: Phase::Running, ..s },
            link: l,
            act: Act::Pump,
        },
    }
}

/// The current port begins.
pub open spec fn claiming(s: Setup, l: Link) -> Next {
    Next {
        setup: Setup { phase: Phase::Claiming, ..s },
        link: l,
        act: Act::Claim { intf: s.eps[s.port].intf_num },
    }
}

/// What follows a port: the next one, or the device is made known.
pub open spec fn port_done(s: Setup, l: Link) -> Next {
    if s.port + 1 < s.eps.len() {
        claiming(Setup { port: s.port + 1, ..s }, l)
    } else if s.active == 0 {
        closing(s, l)
    } else {
        submitting(
            s,
            Link { port_count: s.active as u8, connected: true, gone: false, ..l },
            0,
        )
    }
}

/// Transfer `step` of the configuration is sent.
pub open spec fn configuring(s: Setup, l: Link, step: int) -> Next {
    Next {
        setup: Setup { phase: Phase::Configuring, step, ..s },
        link: l,
        act: Act::Control { request: port_sequence(s)[step] },
    }
}

/// The link after a device was removed.
pub open spec fn unlinked(l: Link) -> Link {
    Link {
        connected: false,
        vid: 0,
        pid: 0,
        is_ftdi: false,
        port_count: 0,
        ep_out: seq![0u8, 0u8, 0u8, 0u8],
        out_ready: seq![false, false, false, false],
        out_busy: seq![false, false, false, false],
        ..l
    }
}

/// Step `i` of giving everything back.
pub open spec fn cleaning(s: Setup, l: Link, i: int) -> Next {
    let acts = cleanup(s.slots, s.active);
    if i + 1 < acts.len() {
        Next {
            setup: Setup { phase: Phase::Cleaning, step: i + 1, ..s },
            link: l,
            act: acts[i],
        }
    } else {
        closing(s, l)
    }
}

/// What follows once the configuration descriptor was read.
pub open spec fn described(s: Setup, l: Link, baud: u32, config: Option<Seq<u8>>) -> Next {
    match config {
        None => closing(s, l),
        Some(d) => {
            let all = usb_setup::bulk_pairs(d);
            if all.len() == 0 {
                closing(s, l)
            } else {
                let eps = all.take(ports_used(l.vid, l.pid, all.len()) as int);
                claiming(
                    Setup { vid: l.vid, baud, eps, port: 0, ..s },
                    Link { is_ftdi: l.vid == VID_FTDI, ..l },
                )
            }
        },
    }
}

/// What a reply leads to.
pub open spec fn advanced(s: Setup, l: Link, baud: u32, r: Answer) -> Next {
    let here = s.slots[s.port];
    match s.phase {
        Phase::Opening => if r.ok {
            Next {
                setup: Setup { phase: Phase::Identifying, ..s },
                link: Link { gone_since_open: false, ..l },
                act: Act::ReadIds,
            }
        } else {
            Next { setup: Setup { phase: Phase::Ended, ..s }, link: l, act: Act::Finished }
        },
        Phase::Identifying => Next {
            setup: Setup { phase: Phase::Reading, ..s },
            link: match r.ids {
                Some((vid, pid)) => Link { vid, pid, ..l },
                None => l,
            },
            act: Act::ReadConfig,
        },
        Phase::Reading => described(s, l, baud, r.config),
        Phase::Claiming => if !r.ok {
            port_done(s, l)
        } else {
            let intf = s.eps[s.port].intf_num;
            let t = Setup {
                slots: s.slots.update(s.port, Slot { claimed: Some(intf), ..here }),
                comm: 0,
                ..s
            };
            if intf > 0 && is_standard(s.vid) {
                Next {
                    setup: Setup { phase: Phase::ClaimingComm, ..t },
                    link: l,
                    act: Act::Claim { intf: (intf - 1) as u8 },
                }
            } else {
                configuring(t, l, 0)
            }
        },
        Phase::ClaimingComm => if r.ok {
            let ci = (s.eps[s.port].intf_num - 1) as u8;
            configuring(
                Setup {
                    slots: s.slots.update(s.port, Slot { comm: Some(ci), ..here }),
                    comm: ci,
                    ..s
                },
                l,
                0,
            )
        } else {
            configuring(s, l, 0)
        },
        Phase::Configuring => if !r.ok && s.step == 0 && is_standard(s.vid) && s.retry is Some {
            Next {
                setup: Setup { phase: Phase::Waiting, ..s },
                link: l,
                act: Act::Wait { seconds: s.retry->0 },
            }
        } else {
            configured(s, l)
        },
        Phase::Waiting => if r.ok {
            configuring(s, l, 0)
        } else {
            cleaning(Setup { active: s.port + 1, ..s }, unlinked(l), 0)
        },
        Phase::AllocatingIn => if r.ok {
            Next {
                setup: Setup {
                    phase: Phase::AllocatingOut,
                    slots: s.slots.update(s.port, Slot { has_in: true, ..here }),
                    ..s
                },
                link: l,
                act: Act::AllocOut { port: s.port as usize, size: s.eps[s.port].mps as usize },
            }
        } else {
            port_done(s, l)
        },
        Phase::AllocatingOut => {
            let t = Setup {
                slots: s.slots.update(s.port, Slot { has_out: r.ok || here.has_out, ..here }),
                active: s.active + 1,
                ..s
            };
            let m = Link {
                ep_out: l.ep_out.update(s.port, s.eps[s.port].ep_out),
                out_ready: l.out_ready.update(s.port, r.ok || l.out_ready[s.port]),
                ..l
            };
            port_done(t, m)
        },
        Phase::Submitting => submitting(s, l, s.step),
        Phase::Running => if r.ok {
            Next { setup: s, link: l, act: Act::Pump }
        } else {
            cleaning(s, unlinked(l), 0)
        },
        Phase::Cleaning => cleaning(s, l, s.step),
        Phase::Closing => Next {
            setup: Setup { phase: Phase::Ended, ..s },
            link: l,
            act: Act::Finished,
        },
        Phase::Ended => Next { setup: s, link: l, act: Act::Finished },
    }
}

/// A step of the setup with the bridge that it serves.
pub open spec fn stepped(
    before: (Setup, Bridge),
    after: (Setup, Bridge),
    r: Answer,
    act: Act,
) -> bool {
    let n = advanced(before.0, link(before.1), before.1.cdc_baud, r);
    &&& after.0 == n.setup
    &&& link(after.1) == n.link
    &&& act == n.act
    &&& same_but_link(before.1, after.1)
}

/// What follows a transfer of the configuration: the next one, or the transfer that reads.
pub open spec fn configured(s: Setup, l: Link) -> Next {
    if s.step + 1 < port_sequence(s).len() {
        configuring(s, l, s.step + 1)
    } else {
        Next {
            setup: Setup { phase: Phase::AllocatingIn, ..s },
            link: l,
            act: Act::AllocIn {
                port: s.port as usize,
                endpoint: s.eps[s.port].ep_in,
                size: s.eps[s.port].mps as usize,
            },
        }
    }
}

/// The actions of a list as plain values.
pub open spec fn acts(v: Seq<Action>) -> Seq<Act> {
    v.map_values(|a: Action| a@)
}

fn push_act(v: &mut Vec<Action>, a: Action)
    ensures
        acts(final(v)@) == acts(old(v)@).push(a@),
{
    v.push(a);
    proof {
        assert(acts(v@) =~= acts(old(v)@).push(a@));
    }
}

fn push_release(v: &mut Vec<Action>, intf: Option<u8>)
    ensures
        acts(final(v)@) == acts(old(v)@) + released(intf),
{
    if let Some(n) = intf {
        if n < 128 {
            push_act(v, Action::Release { intf: n });
        }
    }
    proof {
        assert(acts(v@) =~= acts(old(v)@) + released(intf));
    }
}

/// Everything that is left to do when a device was removed.
fn cleanup_actions(slots: &[Slot; 4], active: usize) -> (v: Vec<Action>)
    requires
        active <= 4,
    ensures
        acts(v@) == cleanup(slots@, active as int),
{
    let mut v: Vec<Action> = Vec::new();
    let mut i: usize = 0;
    proof {
        assert(acts(v@) =~= slots_cleanup(slots@, 0));
    }
    while i < active
        invariant
            i <= active <= 4,
            slots@.len() == 4,
            acts(v@) == slots_cleanup(slots@, i as int),
        decreases active - i,
    {
        let slot = slots[i];
        let ghost before = acts(v@);
        if slot.has_out {
            push_act(&mut v, Action::FreeOut { port: i });
        }
        if slot.has_in {
            push_act(&mut v, Action::FreeIn { port: i });
        }
        push_release(&mut v, slot.claimed);
        push_release(&mut v, slot.comm);
        proof {
            assert(acts(v@) =~= before + slot_cleanup(slot, i as int));
        }
        i = i + 1;
    }
    push_act(&mut v, Action::Close);
    v
}

impl DeviceSetup {
    /// Begins with a device at an address; `retry` is how many seconds to wait between attempts
    /// to configure a device of the standard class, if there is to be more than one.
    pub fn start(addr: u8, retry: Option<u64>) -> (r: (DeviceSetup, Action))
        ensures
            r.0@ == started(addr, retry),
            r.0@.wf(),
            r.1@ == (Act::Open { addr }),
    {
        let none = Slot { claimed: None, comm: None, has_in: false, has_out: false };
        let s = DeviceSetup {
            phase: Phase::Opening,
            addr,
            vid: 0,
            baud: 0,
            retry,
            eps: Vec::new(),
            port: 0,
            comm: 0,
            step: 0,
            slots: [none;4],
            active: 0,
        };
        proof {
            assert(s@.slots =~= started(addr, retry).slots);
        }
        (s, Action::Open { addr })
    }

    fn close(&mut self) -> (a: Action)
        requires
            old(self)@.wf(),
        ensures
            forall|l: Link| #[trigger]
                closing(old(self)@, l) == (Next { setup: final(self)@, link: l, act: a@ }),
            final(self)@.wf(),
    {
        self.phase = Phase::Closing;
        Action::Close
    }

    fn submit_from(&mut self, i: usize) -> (a: Action)
        requires
            old(self)@.slots.len() == 4,
            0 <= old(self)@.active <= 4,
            0 <= old(self)@.step,
        ensures
            forall|l: Link| #[trigger]
                submitting(old(self)@, l, i as int) == (Next {
                    setup: final(self)@,
                    link: l,
                    act: a@,
                }),
            final(self)@.wf(),
    {
        let mut j: usize = i;
        while j < self.active
            invariant
                *self == *old(self),
                self@.slots.len() == 4,
                0 <= self@.active <= 4,
                0 <= self@.step,
                i <= j,
                next_in(self@.slots, self@.active, i as int) == next_in(
                    self@.slots,
                    self@.active,
                    j as int,
                ),
            decreases self.active - j,
        {
            if self.slots[j].has_in {
                self.phase = Phase::Submitting;
                self.step = j + 1;
                return Action::SubmitIn { port: j };
            }
            j = j + 1;
        }
        self.phase = Phase::Running;
        Action::Pump
    }

    /// What follows a port.
    fn finish_port(&mut self, bridge: &mut Bridge) -> (a: Action)
        requires
            old(self)@.slots.len() == 4,
            0 <= old(self)@.active <= 4,
            0 <= old(self)@.step,
            0 <= old(self)@.port < old(self)@.eps.len() <= 4,
            old(self)@.active <= old(self)@.port + 1,
        ensures
            ({
                let n = port_done(old(self)@, link(*old(bridge)));
                &&& final(self)@ == n.setup
                &&& link(*final(bridge)) == n.link
                &&& a@ == n.act
            }),
            same_but_link(*old(bridge), *final(bridge)),
            final(self)@.wf(),
    {
        if self.port + 1 < self.eps.len() {
            self.port = self.port + 1;
            self.phase = Phase::Claiming;
            return Action::Claim { intf: self.eps[self.port].intf_num };
        }
        if self.active == 0 {
            self.phase = Phase::Closing;
            return Action::Close;
        }
        bridge.cdc_port_count = self.active as u8;
        bridge.cdc_connected = true;
        bridge.dev_gone = false;
        self.submit_from(0)
    }

    /// Sends transfer `step` of the configuration.
    fn configure(&mut self, step: usize) -> (a: Action)
        requires
            old(self)@.slots.len() == 4,
            0 <= old(self)@.port < old(self)@.eps.len() <= 4,
            0 <= old(self)@.active <= old(self)@.port,
            old(self)@.vid == VID_FTDI ==> old(self)@.baud > 0,
            step < port_sequence(old(self)@).len(),
        ensures
            forall|l: Link| #[trigger]
                configuring(old(self)@, l, step as int) == (Next {
                    setup: final(self)@,
                    link: l,
                    act: a@,
                }),
            final(self)@.wf(),
    {
        let ep = self.eps[self.port];
        let mut all = init_requests(self.vid, ep.intf_num, self.comm, self.baud);
        proof {
            assert(usb_setup::requests(all@)[step as int] == all@[step as int]@);
        }
        let request = all.swap_remove(step);
        self.phase = Phase::Configuring;
        self.step = step;
        Action::Control { request }
    }

    /// What follows a transfer of the configuration.
    fn after_transfer(&mut self) -> (a: Action)
        requires
            old(self)@.slots.len() == 4,
            0 <= old(self)@.port < old(self)@.eps.len() <= 4,
            0 <= old(self)@.active <= old(self)@.port,
            old(self)@.vid == VID_FTDI ==> old(self)@.baud > 0,
            0 <= old(self)@.step < 100,
        ensures
            forall|l: Link| #[trigger]
                configured(old(self)@, l) == (Next { setup: final(self)@, link: l, act: a@ }),
            final(self)@.wf(),
    {
        let ep = self.eps[self.port];
        let all = init_requests(self.vid, ep.intf_num, self.comm, self.baud);
        proof {
            assert(usb_setup::requests(all@).len() == all@.len());
        }
        if self.step + 1 < all.len() {
            return self.configure(self.step + 1);
        }
        self.phase = Phase::AllocatingIn;
        Action::AllocIn { port: self.port, endpoint: ep.ep_in, size: ep.mps as usize }
    }

    /// Step `i` of giving everything back.
    fn clean(&mut self, i: usize) -> (a: Action)
        requires
            old(self)@.slots.len() == 4,
            0 <= old(self)@.active <= 4,
            i < cleanup(old(self)@.slots, old(self)@.active).len(),
        ensures
            forall|l: Link| #[trigger]
                cleaning(old(self)@, l, i as int) == (Next {
                    setup: final(self)@,
                    link: l,
                    act: a@,
                }),
            final(self)@.wf(),
    {
        let mut all = cleanup_actions(&self.slots, self.active);
        proof {
            assert(acts(all@)[i as int] == all@[i as int]@);
            assert(acts(all@).len() == all@.len());
        }
        let n: usize = all.len();
        if n - i > 1 {
            self.phase = Phase::Cleaning;
            self.step = i + 1;
            return all.swap_remove(i);
        }
        self.phase = Phase::Closing;
        Action::Close
    }

    /// What follows once the configuration descriptor was read.
    fn describe(&mut self, bridge: &mut Bridge, config: Option<Vec<u8>>) -> (a: Action)
        requires
            old(self)@.wf(),
            old(self)@.active == 0,
        ensures
            ({
                let n = described(
                    old(self)@,
                    link(*old(bridge)),
                    old(bridge).cdc_baud,
                    usb_setup::bytes_view(config),
                );
                &&& final(self)@ == n.setup
                &&& link(*final(bridge)) == n.link
                &&& a@ == n.act
            }),
            same_but_link(*old(bridge), *final(bridge)),
            final(self)@.wf(),
    {
        let desc = match config {
            Some(d) => d,
            None => {
                return self.close();
            },
        };
        let all = find_all_bulk_eps(desc.as_slice());
        if all.len() == 0 {
            return self.close();
        }
        bridge.is_ftdi = bridge.cdc_vid == VID_FTDI;
        let count: usize = if bridge.cdc_vid == VID_FTDI {
            let known = ftdi_port_count(bridge.cdc_pid);
            if all.len() < known {
                all.len()
            } else {
                known
            }
        } else {
            1
        };
        let mut eps: Vec<BulkEndpoints> = Vec::new();
        let mut i: usize = 0;
        while i < count
            invariant
                i <= count <= all@.len(),
                eps@ == all@.take(i as int),
            decreases count - i,
        {
            eps.push(all[i]);
            i = i + 1;
        }
        self.vid = bridge.cdc_vid;
        self.baud = bridge.cdc_baud;
        self.eps = eps;
        self.port = 0;
        self.phase = Phase::Claiming;
        Action::Claim { intf: self.eps[0].intf_num }
    }

    /// An interface was claimed, or could not be.
    fn claimed(&mut self, bridge: &mut Bridge, reply: &Reply) -> (a: Action)
        requires
            old(self)@.wf(),
            old(self)@.phase == Phase::Claiming,
            reply.ok && old(self)@.vid == VID_FTDI ==> old(self)@.baud > 0,
        ensures
            ({
                let n = advanced(old(self)@, link(*old(bridge)), old(bridge).cdc_baud, reply@);
                &&& final(self)@ == n.setup
                &&& link(*final(bridge)) == n.link
                &&& a@ == n.act
            }),
            same_but_link(*old(bridge), *final(bridge)),
            final(self)@.wf(),
    {
        if !reply.ok {
            return self.finish_port(bridge);
        }
        let intf = self.eps[self.port].intf_num;
        let here = self.slots[self.port];
        self.slots[self.port] = Slot { claimed: Some(intf), ..here };
        self.comm = 0;
        if intf > 0 && self.vid != VID_FTDI && self.vid != VID_PL2303 && self.vid != VID_CP210X {
            self.phase = Phase::ClaimingComm;
            Action::Claim { intf: intf - 1 }
        } else {
            self.configure(0)
        }
    }

    /// The interface for line settings was claimed, or could not be.
    fn claimed_comm(&mut self, reply: &Reply) -> (a: Action)
        requires
            old(self)@.wf(),
            old(self)@.phase == Phase::ClaimingComm,
        ensures
            forall|l: Link, baud: u32| #[trigger]
                advanced(old(self)@, l, baud, reply@) == (Next {
                    setup: final(self)@,
                    link: l,
                    act: a@,
                }),
            final(self)@.wf(),
    {
        if reply.ok {
            let ci: u8 = self.eps[self.port].intf_num - 1;
            let here = self.slots[self.port];
            self.slots[self.port] = Slot { comm: Some(ci), ..here };
            self.comm = ci;
        }
        self.configure(0)
    }

    /// The transfer that writes was allocated, or could not be; the port is set up.
    fn allocated_out(&mut self, bridge: &mut Bridge, reply: &Reply) -> (a: Action)
        requires
            old(self)@.wf(),
            old(self)@.phase == Phase::AllocatingOut,
        ensures
            ({
                let n = advanced(old(self)@, link(*old(bridge)), old(bridge).cdc_baud, reply@);
                &&& final(self)@ == n.setup
                &&& link(*final(bridge)) == n.link
                &&& a@ == n.act
            }),
            same_but_link(*old(bridge), *final(bridge)),
            final(self)@.wf(),
    {
        let p: usize = self.port;
        let ep = self.eps[p];
        let here = self.slots[p];
        if reply.ok {
            self.slots[p] = Slot { has_out: true, ..here };
            bridge.port_out_ready[p] = true;
        }
        bridge.port_ep_out[p] = ep.ep_out;
        self.active = self.active + 1;
        proof {
            let o = old(self)@;
            let l = link(*old(bridge));
            assert(self@.slots =~= o.slots.update(
                o.port,
                Slot { has_out: reply.ok || here.has_out, ..here },
            ));
            assert(bridge.port_out_ready@ =~= l.out_ready.update(
                o.port,
                reply.ok || l.out_ready[o.port],
            ));
        }
        self.finish_port(bridge)
    }

    /// The device was removed: the bridge forgets it, and what is held for it is given back.
    fn removed(&mut self, bridge: &mut Bridge) -> (a: Action)
        requires
            old(self)@.slots.len() == 4,
            0 <= old(self)@.active <= 4,
        ensures
            ({
                let n = cleaning(old(self)@, unlinked(link(*old(bridge))), 0);
                &&& final(self)@ == n.setup
                &&& link(*final(bridge)) == n.link
                &&& a@ == n.act
            }),
            same_but_link(*old(bridge), *final(bridge)),
            final(self)@.wf(),
    {
        bridge.cdc_connected = false;
        bridge.cdc_vid = 0;
        bridge.cdc_pid = 0;
        bridge.is_ftdi = false;
        bridge.cdc_port_count = 0;
        bridge.port_ep_out = [0u8;4];
        bridge.port_out_ready = [false;4];
        bridge.port_out_busy = [false;4];
        proof {
            assert(link(*bridge) =~= unlinked(link(*old(bridge))));
        }
        self.clean(0)
    }

    /// The device runs on, or was removed.
    fn pumped(&mut self, bridge: &mut Bridge, reply: &Reply) -> (a: Action)
        requires
            old(self)@.wf(),
            old(self)@.phase == Phase::Running,
        ensures
            ({
                let n = advanced(old(self)@, link(*old(bridge)), old(bridge).cdc_baud, reply@);
                &&& final(self)@ == n.setup
                &&& link(*final(bridge)) == n.link
                &&& a@ == n.act
            }),
            same_but_link(*old(bridge), *final(bridge)),
            final(self)@.wf(),
    {
        if reply.ok {
            return Action::Pump;
        }
        self.removed(bridge)
    }

    /// Takes the reply to the last action and gives the next one.
    #[verifier::rlimit(30)]
    pub fn handle_new_device(&mut self, bridge: &mut Bridge, reply: Reply) -> (a: Action)
        requires
            old(self)@.wf(),
            old(self)@.phase == Phase::Claiming && reply.ok && old(self)@.vid == VID_FTDI ==> old(
                self,
            )@.baud > 0,
        ensures
            stepped((old(self)@, *old(bridge)), (final(self)@, *final(bridge)), reply@, a@),
            final(self)@.wf(),
    {
        match self.phase {
            Phase::Opening => {
                if reply.ok {
                    bridge.gone_since_open = false;
                    self.phase = Phase::Identifying;
                    Action::ReadIds
                } else {
                    self.phase = Phase::Ended;
                    Action::Finished
                }
            },
            Phase::Identifying => {
                if let Some((vid, pid)) = reply.ids {
                    bridge.cdc_vid = vid;
                    bridge.cdc_pid = pid;
                }
                self.phase = Phase::Reading;
                Action::ReadConfig
            },
            Phase::Reading => self.describe(bridge, reply.config),
            Phase::Claiming => self.claimed(bridge, &reply),
            Phase::ClaimingComm => self.claimed_comm(&reply),
            Phase::Configuring => {
                if !reply.ok && self.step == 0 && self.vid != VID_FTDI && self.vid != VID_PL2303
                    && self.vid != VID_CP210X {
                    if let Some(seconds) = self.retry {
                        self.phase = Phase::Waiting;
                        return Action::Wait { seconds };
                    }
                }
                self.after_transfer()
            },
            Phase::Waiting => {
                if reply.ok {
                    self.configure(0)
                } else {
                    self.active = self.port + 1;
                    self.removed(bridge)
                }
            },
            Phase::AllocatingIn => {
                if !reply.ok {
                    return self.finish_port(bridge);
                }
                let ep = self.eps[self.port];
                let here = self.slots[self.port];
                self.slots[self.port] = Slot { has_in: true, ..here };
                self.phase = Phase::AllocatingOut;
                Action::AllocOut { port: self.port, size: ep.mps as usize }
            },
            Phase::AllocatingOut => self.allocated_out(bridge, &reply),
            Phase::Submitting => self.submit_from(self.step),
            Phase::Running => self.pumped(bridge, &reply),
            Phase::Cleaning => self.clean(self.step),
            Phase::Closing => {
                self.phase = Phase::Ended;
                Action::Finished
            },
            Phase::Ended => Action::Finished,
        }
    }
}

/// What is held for a port that is in use is given back when the device was removed: both
/// transfers and both interfaces.
pub proof fn law_cleanup_is_complete(slots: Seq<Slot>, active: int, i: int)
    requires
        0 <= i < active <= slots.len(),
    ensures
        slots[i].has_out ==> cleanup(slots, active).contains(Act::FreeOut { port: i as usize }),
        slots[i].has_in ==> cleanup(slots, active).contains(Act::FreeIn { port: i as usize }),
        slots[i].claimed matches Some(n) ==> (n < 128 ==> cleanup(slots, active).contains(
            Act::Release { intf: n },
        )),
        slots[i].comm matches Some(n) ==> (n < 128 ==> cleanup(slots, active).contains(
            Act::Release { intf: n },
        )),
        cleanup(slots, active).last() == Act::Close,
{
    let mine = slot_cleanup(slots[i], i);
    assert forall|a: Act| mine.contains(a) implies #[trigger] cleanup(slots, active).contains(a) by {
        lemma_cleanup_contains(slots, active, i, a);
        let all = slots_cleanup(slots, active);
        let k = choose|k: int| 0 <= k < all.len() && all[k] == a;
        assert(all.push(Act::Close)[k] == a);
    }
    let s = slots[i];
    let a = if s.has_out {
        seq![Act::FreeOut { port: i as usize }]
    } else {
        Seq::empty()
    };
    let b = if s.has_in {
        seq![Act::FreeIn { port: i as usize }]
    } else {
        Seq::empty()
    };
    if s.has_out {
        assert(mine[0] == Act::FreeOut { port: i as usize });
    }
    if s.has_in {
        assert(mine[a.len() as int] == Act::FreeIn { port: i as usize });
    }
    if let Some(n) = s.claimed {
        if n < 128 {
            assert(mine[(a + b).len() as int] == Act::Release { intf: n });
        }
    }
    if let Some(n) = s.comm {
        if n < 128 {
            assert(mine[(a + b + released(s.claimed)).len() as int] == Act::Release { intf: n });
        }
    }
}

proof fn lemma_cleanup_contains(slots: Seq<Slot>, n: int, i: int, a: Act)
    requires
        0 <= i < n <= slots.len(),
        slot_cleanup(slots[i], i).contains(a),
    ensures
        slots_cleanup(slots, n).contains(a),
    decreases n,
{
    let head = slots_cleanup(slots, n - 1);
    let tail = slot_cleanup(slots[n - 1], n - 1);
    if i < n - 1 {
        lemma_cleanup_contains(slots, n - 1, i, a);
        let k = choose|k: int| 0 <= k < head.len() && head[k] == a;
        assert((head + tail)[k] == a);
    } else {
        let k = choose|k: int| 0 <= k < tail.len() && tail[k] == a;
        assert((head + tail)[head.len() + k] == a);
    }
}

/// A device that has ports uses at least one and no more than it has or than fit.
pub proof fn law_ports_used(vid: u16, pid: u16, n: nat)
    requires
        n > 0,
    ensures
        1 <= ports_used(vid, pid, n) <= n,
        ports_used(vid, pid, n) <= MAX_USB_PORTS,
{
}

/// Once a device was removed, no session can be connected to a USB port until the next one is
/// ready.
pub proof fn law_removed_is_unselectable(b: Bridge, l: Link, name: Seq<char>)
    requires
        link(b) == unlinked(l),
        usb_host::usb_port_of(name) is Some,
    ensures
        usb_host::selected(b, name) is None,
{
}

/// A device is made known with as many ports as were set up, and only with one at least.
pub proof fn law_known_ports(s: Setup, l: Link)
    requires
        s.wf(),
        in_port(s.phase),
        !l.connected,
    ensures
        port_done(s, l).link.connected ==> {
            &&& port_done(s, l).link.port_count == s.active
            &&& s.active > 0
        },
{
}

/// A device begins with nothing held and nothing known, and is opened first.
pub proof fn law_started(addr: u8, retry: Option<u64>, i: int)
    requires
        0 <= i < 4,
    ensures
        ({
            let s = started(addr, retry);
            &&& s.phase == Phase::Opening && s.addr == addr && s.retry == retry && s.active == 0
            &&& s.slots[i].claimed is None && s.slots[i].comm is None
            &&& !s.slots[i].has_in && !s.slots[i].has_out
        }),
{
}

/// A device that was opened is asked for its numbers, which the bridge then knows, and for its
/// descriptor; one that was not opened is left alone.
pub proof fn law_opened_and_identified(s: Setup, l: Link, baud: u32, r: Answer)
    ensures
        ({
            let n = advanced(s, l, baud, r);
            &&& s.phase == Phase::Opening && r.ok ==> {
                &&& n.act == Act::ReadIds && n.setup.phase == Phase::Identifying
                &&& n.link == (Link { gone_since_open: false, ..l })
            }
            &&& s.phase == Phase::Opening && !r.ok ==> {
                &&& n.act == Act::Finished && n.setup.phase == Phase::Ended
                &&& n.link == l
            }
            &&& s.phase == Phase::Identifying ==> {
                &&& n.act == Act::ReadConfig && n.setup.phase == Phase::Reading
                &&& r.ids matches Some(ids) ==> n.link == (Link { vid: ids.0, pid: ids.1, ..l })
                &&& r.ids is None ==> n.link == l
            }
        }),
{
}

/// Once the descriptor was read, the device is configured at the rate that the bridge is set to,
/// whatever it is: rate, vendor and ports are taken over, and the interface of the first port is
/// claimed. An FT4232 uses up to four ports, an FT2232 up to two, and every other device one.
pub proof fn law_described_at_the_bridges_rate(s: Setup, l: Link, baud: u32, r: Answer, i: int)
    requires
        s.phase == Phase::Reading,
        r.config is Some,
        usb_setup::bulk_pairs(r.config->0).len() > 0,
    ensures
        ({
            let n = advanced(s, l, baud, r);
            let pairs = usb_setup::bulk_pairs(r.config->0);
            let most: int = if l.vid == 0x0403 && l.pid == 0x6011 {
                4
            } else if l.vid == 0x0403 && l.pid == 0x6010 {
                2
            } else {
                1
            };
            &&& n.setup.baud == baud
            &&& n.setup.vid == l.vid
            &&& n.setup.phase == Phase::Claiming
            &&& n.setup.port == 0
            &&& n.setup.eps.len() == if pairs.len() < most {
                pairs.len() as int
            } else {
                most
            }
            &&& 0 <= i < n.setup.eps.len() ==> n.setup.eps[i] == pairs[i]
            &&& n.act == (Act::Claim { intf: pairs[0].intf_num })
            &&& n.link == (Link { is_ftdi: l.vid == 0x0403, ..l })
            &&& n.setup.slots == s.slots && n.setup.active == s.active && n.setup.retry == s.retry
        }),
{
}

/// A device without a descriptor, or without a port in it, is closed and leaves the bridge as it
/// was.
pub proof fn law_nothing_to_set_up(s: Setup, l: Link, baud: u32, r: Answer)
    requires
        s.phase == Phase::Reading,
        r.config is None || usb_setup::bulk_pairs(r.config->0).len() == 0,
    ensures
        advanced(s, l, baud, r).act == Act::Close,
        advanced(s, l, baud, r).link == l,
        advanced(s, l, baud, r).setup == (Setup { phase: Phase::Closing, ..s }),
{
}

/// What is known of a device from its descriptor never changes afterwards: rate, vendor and ports.
pub proof fn law_rate_stays(s: Setup, l: Link, baud: u32, r: Answer)
    requires
        s.phase != Phase::Reading,
    ensures
        ({
            let n = advanced(s, l, baud, r).setup;
            &&& n.baud == s.baud && n.vid == s.vid && n.eps == s.eps && n.retry == s.retry
            &&& n.phase == Phase::Reading ==> s.phase == Phase::Identifying
            &&& n.phase == Phase::Identifying ==> s.phase == Phase::Opening
            &&& n.phase != Phase::Opening || s.phase == Phase::Opening
        }),
{
    lemma_advanced_keeps(s, l, baud, r);
}

proof fn lemma_submitting_keeps(s: Setup, l: Link, i: int)
    ensures
        ({
            let n = submitting(s, l, i).setup;
            &&& n.baud == s.baud && n.vid == s.vid && n.eps == s.eps && n.retry == s.retry
            &&& n.phase == Phase::Submitting || n.phase == Phase::Running
        }),
{
}

proof fn lemma_advanced_keeps(s: Setup, l: Link, baud: u32, r: Answer)
    requires
        s.phase != Phase::Reading,
    ensures
        ({
            let n = advanced(s, l, baud, r).setup;
            &&& n.baud == s.baud && n.vid == s.vid && n.eps == s.eps && n.retry == s.retry
            &&& n.phase == Phase::Reading ==> s.phase == Phase::Identifying
            &&& n.phase == Phase::Identifying ==> s.phase == Phase::Opening
            &&& n.phase != Phase::Opening || s.phase == Phase::Opening
        }),
{
    lemma_submitting_keeps(s, l, s.step);
}

/// Every transfer that is sent is one of those that configure the current port at the rate that
/// was taken over.
pub proof fn law_transfer_is_of_the_sequence(s: Setup, l: Link, baud: u32, r: Answer)
    requires
        s.wf(),
        s.phase != Phase::Cleaning,
    ensures
        ({
            let n = advanced(s, l, baud, r);
            n.act matches Act::Control { request } ==> {
                &&& n.setup.phase == Phase::Configuring
                &&& n.setup.port == s.port
                &&& request == usb_setup::init_sequence(
                    n.setup.vid,
                    n.setup.eps[n.setup.port].intf_num,
                    n.setup.comm,
                    n.setup.baud,
                )[n.setup.step]
                &&& 0 <= n.setup.step < usb_setup::init_sequence(
                    n.setup.vid,
                    n.setup.eps[n.setup.port].intf_num,
                    n.setup.comm,
                    n.setup.baud,
                ).len()
            }
        }),
{
    if s.phase == Phase::Running || s.phase == Phase::Waiting {
        lemma_cleanup_no_transfer(s.slots, s.active, 0);
        lemma_cleanup_no_transfer(s.slots, s.port + 1, 0);
    }
}

/// Giving back sends no transfer.
proof fn lemma_cleanup_no_transfer(slots: Seq<Slot>, active: int, i: int)
    requires
        0 <= i < cleanup(slots, active).len(),
    ensures
        !(cleanup(slots, active)[i] is Control),
{
    if i < slots_cleanup(slots, active).len() {
        lemma_slots_no_transfer(slots, active, i);
    }
}

proof fn lemma_slots_no_transfer(slots: Seq<Slot>, n: int, i: int)
    requires
        0 <= i < slots_cleanup(slots, n).len(),
    ensures
        !(slots_cleanup(slots, n)[i] is Control),
    decreases n,
{
    let head = slots_cleanup(slots, n - 1);
    if i < head.len() {
        lemma_slots_no_transfer(slots, n - 1, i);
    }
}

/// What replies lead to, one after another; each comes with the rate that the bridge is set to
/// when it arrives.
pub open spec fn after_replies(n: Next, rs: Seq<(u32, Answer)>) -> Next
    decreases rs.len(),
{
    if rs.len() == 0 {
        n
    } else {
        let m = after_replies(n, rs.drop_last());
        advanced(m.setup, m.link, rs.last().0, rs.last().1)
    }
}

proof fn lemma_rate_after(n: Next, rs: Seq<(u32, Answer)>)
    requires
        n.setup.phase == Phase::Claiming,
    ensures
        ({
            let m = after_replies(n, rs).setup;
            &&& m.baud == n.setup.baud
            &&& m.vid == n.setup.vid
            &&& m.phase != Phase::Opening
            &&& m.phase != Phase::Identifying
            &&& m.phase != Phase::Reading
        }),
    decreases rs.len(),
{
    if rs.len() > 0 {
        lemma_rate_after(n, rs.drop_last());
        let m = after_replies(n, rs.drop_last());
        lemma_advanced_keeps(m.setup, m.link, rs.last().0, rs.last().1);
    }
}

/// A transfer of the configuration of some port at a rate.
pub open spec fn configures_at(request: Request, vid: u16, baud: u32) -> bool {
    exists|intf: u8, comm: u8, k: int|
        0 <= k < usb_setup::init_sequence(vid, intf, comm, baud).len() && request
            == #[trigger] usb_setup::init_sequence(vid, intf, comm, baud)[k]
}

/// From the descriptor on, whatever the device replies and however the bridge is set meanwhile,
/// every transfer configures at the rate that the bridge was set to when the descriptor was read.
pub proof fn law_all_transfers_at_one_rate(
    s: Setup,
    l: Link,
    baud: u32,
    r: Answer,
    rs: Seq<(u32, Answer)>,
    later: u32,
    last: Answer,
)
    requires
        s.phase == Phase::Reading,
        advanced(s, l, baud, r).act is Claim,
        after_replies(advanced(s, l, baud, r), rs).setup.wf(),
        after_replies(advanced(s, l, baud, r), rs).setup.phase != Phase::Cleaning,
    ensures
        ({
            let m = after_replies(advanced(s, l, baud, r), rs);
            let n = advanced(m.setup, m.link, later, last);
            n.act matches Act::Control { request } ==> configures_at(request, l.vid, baud)
        }),
{
    let n0 = advanced(s, l, baud, r);
    lemma_rate_after(n0, rs);
    let m = after_replies(n0, rs);
    let n = advanced(m.setup, m.link, later, last);
    lemma_advanced_keeps(m.setup, m.link, later, last);
    law_transfer_is_of_the_sequence(m.setup, m.link, later, last);
    if let Act::Control { request } = n.act {
        let q = usb_setup::init_sequence(
            n.setup.vid,
            n.setup.eps[n.setup.port].intf_num,
            n.setup.comm,
            n.setup.baud,
        );
        assert(request == q[n.setup.step]);
    }
}

/// A claimed interface is remembered; a device of no known vendor whose port is not interface 0 has
/// the interface before it claimed too, and every other one is configured from the first transfer
/// on.
pub proof fn law_claimed(s: Setup, l: Link, baud: u32, r: Answer)
    requires
        s.wf(),
        s.phase == Phase::Claiming,
        r.ok,
    ensures
        ({
            let n = advanced(s, l, baud, r);
            let intf = s.eps[s.port].intf_num;
            let known = s.vid == 0x0403 || s.vid == 0x067B || s.vid == 0x10C4;
            &&& n.link == l
            &&& n.setup.port == s.port && n.setup.active == s.active
            &&& n.setup.slots == s.slots.update(
                s.port,
                Slot { claimed: Some(intf), ..s.slots[s.port] },
            )
            &&& intf > 0 && !known ==> n.act == (Act::Claim { intf: (intf - 1) as u8 })
                && n.setup.phase == Phase::ClaimingComm
            &&& intf == 0 || known ==> {
                &&& n.setup.phase == Phase::Configuring && n.setup.step == 0
                &&& n.act == (Act::Control {
                    request: usb_setup::init_sequence(s.vid, intf, 0, s.baud)[0],
                })
            }
        }),
{
}

/// The interface before a port that was claimed is remembered, and the line is set up on it; where
/// it was not claimed, on interface 0.
pub proof fn law_claimed_comm(s: Setup, l: Link, baud: u32, r: Answer)
    requires
        s.wf(),
        s.phase == Phase::ClaimingComm,
    ensures
        ({
            let n = advanced(s, l, baud, r);
            let intf = s.eps[s.port].intf_num;
            &&& n.link == l
            &&& n.setup.phase == Phase::Configuring && n.setup.step == 0
            &&& n.setup.port == s.port && n.setup.active == s.active
            &&& r.ok ==> {
                &&& n.setup.comm == intf - 1
                &&& n.setup.slots == s.slots.update(
                    s.port,
                    Slot { comm: Some((intf - 1) as u8), ..s.slots[s.port] },
                )
                &&& n.act == (Act::Control {
                    request: usb_setup::init_sequence(s.vid, intf, (intf - 1) as u8, s.baud)[0],
                })
            }
            &&& !r.ok ==> {
                &&& n.setup.comm == s.comm
                &&& n.setup.slots == s.slots
                &&& n.act == (Act::Control {
                    request: usb_setup::init_sequence(s.vid, intf, s.comm, s.baud)[0],
                })
            }
        }),
{
}

/// The transfers of a port are sent in order, also past one that failed. Only a device of no known
/// vendor whose first transfer failed is waited for and tried again, if the firmware retries at
/// all. Behind the last one comes the transfer that reads from the port's own endpoint.
pub proof fn law_transfers_in_order(s: Setup, l: Link, baud: u32, r: Answer)
    requires
        s.wf(),
        s.phase == Phase::Configuring,
    ensures
        ({
            let n = advanced(s, l, baud, r);
            let ep = s.eps[s.port];
            let known = s.vid == 0x0403 || s.vid == 0x067B || s.vid == 0x10C4;
            let again = !r.ok && s.step == 0 && !known && s.retry is Some;
            let q = usb_setup::init_sequence(s.vid, ep.intf_num, s.comm, s.baud);
            &&& n.link == l
            &&& n.setup.port == s.port && n.setup.active == s.active && n.setup.slots == s.slots
            &&& again ==> n.act == (Act::Wait { seconds: s.retry->0 }) && n.setup.phase
                == Phase::Waiting
            &&& !again && s.step + 1 < q.len() ==> {
                &&& n.act == (Act::Control { request: q[s.step + 1] })
                &&& n.setup.phase == Phase::Configuring && n.setup.step == s.step + 1
            }
            &&& !again && s.step + 1 == q.len() ==> {
                &&& n.act == (Act::AllocIn {
                    port: s.port as usize,
                    endpoint: ep.ep_in,
                    size: ep.mps as usize,
                })
                &&& n.setup.phase == Phase::AllocatingIn
            }
        }),
{
}

/// After the wait the first transfer is sent again; where the device was removed meanwhile, the
/// bridge forgets it and everything that is held for it, up to this port, is given back.
pub proof fn law_tried_again(s: Setup, l: Link, baud: u32, r: Answer)
    requires
        s.wf(),
        s.phase == Phase::Waiting,
    ensures
        ({
            let n = advanced(s, l, baud, r);
            &&& r.ok ==> {
                &&& n.link == l
                &&& n.setup == (Setup { phase: Phase::Configuring, step: 0, ..s })
                &&& n.act == (Act::Control {
                    request: usb_setup::init_sequence(
                        s.vid,
                        s.eps[s.port].intf_num,
                        s.comm,
                        s.baud,
                    )[0],
                })
            }
            &&& !r.ok ==> {
                &&& !n.link.connected && n.link.port_count == 0 && n.link.vid == 0
                &&& n.setup.active == s.port + 1 && n.setup.slots == s.slots
                &&& n.setup.phase == Phase::Cleaning || n.setup.phase == Phase::Closing
            }
        }),
{
}

/// Both transfers of a port are allocated with its packet size, and remembered; then the endpoint
/// to write to is known under the port's number, and the port can be written to if its transfer was
/// allocated. Other ports keep what is known of them.
pub proof fn law_allocated(s: Setup, l: Link, baud: u32, r: Answer, i: int)
    requires
        s.wf(),
        l.ep_out.len() == 4,
        l.out_ready.len() == 4,
        0 <= i < 4,
    ensures
        ({
            let n = advanced(s, l, baud, r);
            let ep = s.eps[s.port];
            &&& s.phase == Phase::AllocatingIn && r.ok ==> {
                &&& n.act == (Act::AllocOut { port: s.port as usize, size: ep.mps as usize })
                &&& n.setup.phase == Phase::AllocatingOut
                &&& n.setup.slots[s.port].has_in
                &&& n.link == l
            }
            &&& s.phase == Phase::AllocatingOut ==> {
                &&& n.setup.active == s.active + 1
                &&& n.setup.slots[s.port].has_out == (r.ok || s.slots[s.port].has_out)
                &&& n.setup.slots[s.port].has_in == s.slots[s.port].has_in
                &&& n.setup.slots[s.port].claimed == s.slots[s.port].claimed
                &&& i != s.port ==> n.setup.slots[i] == s.slots[i]
                &&& n.link.ep_out[s.port] == ep.ep_out
                &&& i != s.port ==> n.link.ep_out[i] == l.ep_out[i]
                &&& n.link.out_ready[s.port] == (r.ok || l.out_ready[s.port])
                &&& i != s.port ==> n.link.out_ready[i] == l.out_ready[i]
                &&& n.link.vid == l.vid && n.link.pid == l.pid && n.link.is_ftdi == l.is_ftdi
                &&& n.link.out_busy == l.out_busy
            }
        }),
{
}

/// Behind a port comes the next one. Behind the last one the device is made known with as many
/// ports as were set up, and the first that can be read from is; with none it is closed and stays
/// unknown.
pub proof fn law_after_a_port(s: Setup, l: Link)
    requires
        0 <= s.port < s.eps.len(),
        0 <= s.active <= 4,
    ensures
        ({
            let n = port_done(s, l);
            &&& s.port + 1 < s.eps.len() ==> {
                &&& n.act == (Act::Claim { intf: s.eps[s.port + 1].intf_num })
                &&& n.setup == (Setup { phase: Phase::Claiming, port: s.port + 1, ..s })
                &&& n.link == l
            }
            &&& s.port + 1 == s.eps.len() && s.active == 0 ==> n.act == Act::Close && n.link == l
            &&& s.port + 1 == s.eps.len() && s.active > 0 ==> {
                &&& n.link.connected && n.link.port_count == s.active && !n.link.gone
                &&& n.link.vid == l.vid && n.link.pid == l.pid && n.link.is_ftdi == l.is_ftdi
                &&& n.link.ep_out == l.ep_out && n.link.out_ready == l.out_ready
                &&& n.act is SubmitIn || n.act == Act::Pump
            }
        }),
{
}

/// What is submitted next is the first port from `i` on that can be read from; where there is none,
/// the device runs.
pub proof fn law_submitted_in_order(s: Setup, l: Link, i: int, j: int)
    requires
        0 <= i <= j < s.active <= 4,
        s.slots.len() == 4,
    ensures
        ({
            let n = submitting(s, l, i);
            &&& n.link == l
            &&& s.slots[j].has_in && (forall|k: int| i <= k < j ==> !(#[trigger] s.slots[k]).has_in)
                ==> n.act == (Act::SubmitIn { port: j as usize }) && n.setup.phase
                == Phase::Submitting && n.setup.step == j + 1
            &&& (forall|k: int| i <= k < s.active ==> !(#[trigger] s.slots[k]).has_in) ==> n.act
                == Act::Pump && n.setup.phase == Phase::Running
        }),
{
    lemma_next_in(s.slots, s.active, i);
    if s.slots[j].has_in && (forall|k: int| i <= k < j ==> !(#[trigger] s.slots[k]).has_in) {
        let m = next_in(s.slots, s.active, i);
        assert(m is Some && m->0 == j);
    }
}

proof fn lemma_next_in(slots: Seq<Slot>, active: int, i: int)
    requires
        0 <= i,
    ensures
        match next_in(slots, active, i) {
            Some(j) => i <= j < active && slots[j].has_in && forall|k: int|
                i <= k < j ==> !(#[trigger] slots[k]).has_in,
            None => forall|k: int| i <= k < active ==> !(#[trigger] slots[k]).has_in,
        },
    decreases active - i,
{
    if i < active && !slots[i].has_in {
        lemma_next_in(slots, active, i + 1);
    }
}

/// While a device is there it is pumped and nothing changes; when it was removed, the bridge knows
/// nothing of it any more.
pub proof fn law_running(s: Setup, l: Link, baud: u32, r: Answer, i: int)
    requires
        s.phase == Phase::Running,
        0 <= i < 4,
    ensures
        ({
            let n = advanced(s, l, baud, r);
            &&& r.ok ==> n.act == Act::Pump && n.setup == s && n.link == l
            &&& !r.ok ==> {
                &&& !n.link.connected && n.link.vid == 0 && n.link.pid == 0
                &&& !n.link.is_ftdi && n.link.port_count == 0
                &&& n.link.ep_out[i] == 0 && !n.link.out_ready[i] && !n.link.out_busy[i]
                &&& n.link.gone == l.gone && n.link.gone_since_open == l.gone_since_open
                &&& n.setup.slots == s.slots && n.setup.active == s.active
            }
        }),
{
}

/// What is held is given back one by one, in order, and the device is closed at the end; then
/// everything is over.
pub proof fn law_given_back_in_order(s: Setup, l: Link, baud: u32, r: Answer)
    requires
        s.wf(),
    ensures
        ({
            let n = advanced(s, l, baud, r);
            let all = cleanup(s.slots, s.active);
            &&& s.phase == Phase::Running && !r.ok ==> n.act == all[0]
            &&& s.phase == Phase::Cleaning ==> n.act == all[s.step] && n.link == l
            &&& s.phase == Phase::Cleaning && s.step + 1 < all.len() ==> n.setup.phase
                == Phase::Cleaning && n.setup.step == s.step + 1 && n.setup.slots == s.slots
                && n.setup.active == s.active
            &&& s.phase == Phase::Cleaning && s.step + 1 == all.len() ==> n.setup.phase
                == Phase::Closing && n.act == Act::Close
            &&& s.phase == Phase::Closing || s.phase == Phase::Ended ==> n.act == Act::Finished
                && n.setup.phase == Phase::Ended && n.link == l
        }),
{
    assert(cleanup(s.slots, s.active).last() == Act::Close);
}

/// A port that could not be claimed or read from is passed over: nothing that is held or known
/// changes, and what follows is what follows any port.
pub proof fn law_failed_port(s: Setup, l: Link, baud: u32, r: Answer)
    requires
        s.wf(),
        s.phase == Phase::Claiming || s.phase == Phase::AllocatingIn,
        !r.ok,
    ensures
        ({
            let n = advanced(s, l, baud, r);
            &&& n.setup.slots == s.slots && n.setup.active == s.active
            &&& s.port + 1 < s.eps.len() ==> n.act == (Act::Claim {
                intf: s.eps[s.port + 1].intf_num,
            }) && n.setup.port == s.port + 1 && n.link == l
            &&& s.port + 1 == s.eps.len() && s.active == 0 ==> n.act == Act::Close && n.link == l
            &&& s.port + 1 == s.eps.len() && s.active > 0 ==> n.link.connected && n.link.port_count
                == s.active
        }),
{
}

/// Whether a device holds what an action gives back.
pub open spec fn is_held(slots: Seq<Slot>, active: int, a: Act) -> bool {
    match a {
        Act::FreeOut { port } => port < active && slots[port as int].has_out,
        Act::FreeIn { port } => port < active && slots[port as int].has_in,
        Act::Release { intf } => exists|i: int|
            0 <= i < active && ((#[trigger] slots[i]).claimed == Some(intf) || slots[i].comm == Some(
                intf,
            )),
        _ => false,
    }
}

/// Nothing is given back that is not held, and the device is closed last, once.
pub proof fn law_only_what_is_held(slots: Seq<Slot>, active: int, k: int)
    requires
        active <= slots.len() <= 4,
        0 <= k < cleanup(slots, active).len(),
    ensures
        k < cleanup(slots, active).len() - 1 ==> is_held(slots, active, cleanup(slots, active)[k]),
        k == cleanup(slots, active).len() - 1 ==> cleanup(slots, active)[k] == Act::Close,
{
    if k < cleanup(slots, active).len() - 1 {
        lemma_only_held(slots, active, k);
    }
}

proof fn lemma_only_held(slots: Seq<Slot>, n: int, k: int)
    requires
        n <= slots.len() <= 4,
        0 <= k < slots_cleanup(slots, n).len(),
    ensures
        is_held(slots, n, slots_cleanup(slots, n)[k]),
    decreases n,
{
    let head = slots_cleanup(slots, n - 1);
    if k < head.len() {
        lemma_only_held(slots, n - 1, k);
        let a = head[k];
        if let Act::Release { intf } = a {
            let i = choose|i: int|
                0 <= i < n - 1 && ((#[trigger] slots[i]).claimed == Some(intf) || slots[i].comm
                    == Some(intf));
            assert(0 <= i < n);
        }
    } else {
        let mine = slot_cleanup(slots[n - 1], n - 1);
        let a = mine[k - head.len()];
        assert(slots_cleanup(slots, n)[k] == a);
        if let Act::Release { intf } = a {
            assert(slots[n - 1].claimed == Some(intf) || slots[n - 1].comm == Some(intf));
        }
    }
}

/// The plain values of actions and replies are what they hold, each under its own name.
pub proof fn law_action_views(
    addr: u8,
    intf: u8,
    request: ControlRequest,
    seconds: u64,
    port: usize,
    endpoint: u8,
    size: usize,
    r: Reply,
)
    ensures
        (Action::Open { addr })@ == (Act::Open { addr }),
        Action::ReadIds@ == Act::ReadIds,
        Action::ReadConfig@ == Act::ReadConfig,
        (Action::Claim { intf })@ == (Act::Claim { intf }),
        (Action::Control { request })@ == (Act::Control { request: request@ }),
        (Action::Wait { seconds })@ == (Act::Wait { seconds }),
        (Action::AllocIn { port, endpoint, size })@ == (Act::AllocIn { port, endpoint, size }),
        (Action::AllocOut { port, size })@ == (Act::AllocOut { port, size }),
        (Action::SubmitIn { port })@ == (Act::SubmitIn { port }),
        Action::Pump@ == Act::Pump,
        (Action::FreeOut { port })@ == (Act::FreeOut { port }),
        (Action::FreeIn { port })@ == (Act::FreeIn { port }),
        (Action::Release { intf })@ == (Act::Release { intf }),
        Action::Close@ == Act::Close,
        Action::Finished@ == Act::Finished,
        r@.ok == r.ok,
        r@.ids == r.ids,
        r.config is None <==> r@.config is None,
        r.config matches Some(d) ==> r@.config == Some(d@),
{
}

/// What the setup knows of the device is what the bridge knows of it, each under its own name, and
/// the rate is that of the bridge.
pub proof fn law_link_view(b: Bridge)
    ensures
        link(b).connected == b.cdc_connected,
        link(b).vid == b.cdc_vid,
        link(b).pid == b.cdc_pid,
        link(b).port_count == b.cdc_port_count,
        link(b).is_ftdi == b.is_ftdi,
        link(b).gone == b.dev_gone,
        link(b).gone_since_open == b.gone_since_open,
        link(b).ep_out == b.port_ep_out@,
        link(b).out_ready == b.port_out_ready@,
        link(b).out_busy == b.port_out_busy@,
{
}

/// A step changes of the bridge only what concerns its USB device.
pub proof fn law_rest_of_the_bridge_stays(a: Bridge, b: Bridge)
    requires
        same_but_link(a, b),
    ensures
        b.cdc_enabled == a.cdc_enabled,
        b.cdc_baud == a.cdc_baud,
        b.new_dev_addr == a.new_dev_addr,
        b.uart1_ready == a.uart1_ready,
        b.uart2_ready == a.uart2_ready,
        b.active_device == a.active_device,
        b.last_select_err == a.last_select_err,
        b.display_port == a.display_port,
        b.ssh_started == a.ssh_started,
{
}

/// A device whose descriptor was read is set up at the rate that the bridge is set to then, whatever
/// it is, for the vendor that the bridge knows; the bridge's own rate stays.
pub proof fn law_set_up_at_the_bridges_rate(
    before: (Setup, Bridge),
    after: (Setup, Bridge),
    r: Answer,
    act: Act,
)
    requires
        stepped(before, after, r, act),
        before.0.phase == Phase::Reading,
        act is Claim,
    ensures
        after.0.baud == before.1.cdc_baud,
        after.0.vid == before.1.cdc_vid,
        after.1.cdc_baud == before.1.cdc_baud,
        after.1.is_ftdi == (before.1.cdc_vid == 0x0403),
        after.1.cdc_vid == before.1.cdc_vid && after.1.cdc_pid == before.1.cdc_pid,
        after.1.active_device == before.1.active_device,
{
}

/// Every transfer that is sent configures the current port at the rate that the setup has, and any
/// step but the one that reads the descriptor keeps that rate.
pub proof fn law_transfers_at_the_setups_rate(
    before: (Setup, Bridge),
    after: (Setup, Bridge),
    r: Answer,
    act: Act,
)
    requires
        stepped(before, after, r, act),
        before.0.wf(),
        before.0.phase != Phase::Reading,
        before.0.phase != Phase::Cleaning,
    ensures
        after.0.baud == before.0.baud,
        act matches Act::Control { request } ==> configures_at(
            request,
            before.0.vid,
            before.0.baud,
        ),
{
    lemma_advanced_keeps(before.0, link(before.1), before.1.cdc_baud, r);
    law_transfer_is_of_the_sequence(before.0, link(before.1), before.1.cdc_baud, r);
    if let Act::Control { request } = act {
        let n = after.0;
        let q = usb_setup::init_sequence(n.vid, n.eps[n.port].intf_num, n.comm, n.baud);
        assert(request == q[n.step]);
    }
}

} // verus!
