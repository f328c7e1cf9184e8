//! Queues between serial ports and browser terminals, and which terminal listens to which port.

use crate::text::same;
use crate::usb_host::{DEVICE_COM1, DEVICE_COM2, DEVICE_NONE, DEVICE_USB0};
use std::collections::{HashMap, HashSet, VecDeque};
use vstd::prelude::*;
use vstd::string::*;

verus! {

broadcast use vstd::std_specs::hash::group_hash_axioms;

/// How many bytes a queue holds.
pub const WS_RING_CAP: usize = 4096;

/// The newest `n` items.
pub open spec fn newest(s: Seq<u8>, n: nat) -> Seq<u8> {
    if s.len() <= n {
        s
    } else {
        s.skip(s.len() - n)
    }
}

/// A queue of bytes that drops the oldest ones when it is full.
pub struct Ring {
    data: VecDeque<u8>,
}

impl View for Ring {
    type V = Seq<u8>;

    closed spec fn view(&self) -> Seq<u8> {
        self.data@
    }
}

impl Ring {
    /// No more bytes than the queue holds.
    pub open spec fn wf(self) -> bool {
        self@.len() <= WS_RING_CAP
    }

    /// An empty queue.
    pub fn new() -> (r: Ring)
        ensures
            r@ == Seq::<u8>::empty(),
            r.wf(),
    {
        Ring { data: VecDeque::new() }
    }

    /// Appends bytes; where they do not fit, the oldest ones go.
    pub fn push(&mut self, bytes: &[u8])
        requires
            old(self).wf(),
        ensures
            final(self)@ == newest(old(self)@ + bytes@, WS_RING_CAP as nat),
            final(self).wf(),
    {
        let mut i: usize = 0;
        proof {
            assert(self@ + bytes@.take(0) =~= self@);
        }
        while i < bytes.len()
            invariant
                i <= bytes@.len(),
                self@ == newest(old(self)@ + bytes@.take(i as int), WS_RING_CAP as nat),
                self.wf(),
            decreases bytes@.len() - i,
        {
            let ghost before = old(self)@ + bytes@.take(i as int);
            if self.data.len() >= WS_RING_CAP {
                let _ = self.data.pop_front();
            }
            self.data.push_back(bytes[i]);
            proof {
                assert(old(self)@ + bytes@.take(i + 1) =~= before.push(bytes@[i as int]));
                assert(self@ =~= newest(before.push(bytes@[i as int]), WS_RING_CAP as nat));
            }
            i = i + 1;
        }
        proof {
            assert(bytes@.take(bytes@.len() as int) =~= bytes@);
        }
    }

    /// Takes everything out, oldest byte first.
    pub fn take_all(&mut self) -> (out: Vec<u8>)
        requires
            old(self).wf(),
        ensures
            out@ == old(self)@,
            final(self)@ == Seq::<u8>::empty(),
            final(self).wf(),
    {
        let mut out: Vec<u8> = Vec::new();
        proof {
            assert(out@ + self@ =~= self@);
        }
        loop
            invariant_except_break
                self.wf(),
                out@ + self@ == old(self)@,
            ensures
                self@ == Seq::<u8>::empty(),
                out@ == old(self)@,
            decreases self@.len(),
        {
            let ghost before = self@;
            match self.data.pop_front() {
                Some(b) => {
                    out.push(b);
                    proof {
                        assert(out@ + self@ =~= old(self)@);
                    }
                },
                None => {
                    proof {
                        assert(self@ =~= Seq::<u8>::empty());
                        assert(out@ =~= out@ + self@);
                    }
                    break;
                },
            }
        }
        out
    }
}

/// Bytes may come in pieces: a queue ends up with the newest bytes of all that came.
pub proof fn law_newest_in_pieces(a: Seq<u8>, b: Seq<u8>, n: nat)
    ensures
        newest(newest(a, n) + b, n) == newest(a + b, n),
{
    assert(newest(newest(a, n) + b, n) =~= newest(a + b, n));
}

/// One queue per kind of port: the two UARTs and USB.
pub struct Rings {
    pub com1: Ring,
    pub com2: Ring,
    pub usb: Ring,
}

/// The contents of the three queues.
#[verifier::ext_equal]
pub struct Queued {
    pub com1: Seq<u8>,
    pub com2: Seq<u8>,
    pub usb: Seq<u8>,
}

impl View for Rings {
    type V = Queued;

    open spec fn view(&self) -> Queued {
        Queued { com1: self.com1@, com2: self.com2@, usb: self.usb@ }
    }
}

/// The queue of a device; every USB port shares one.
pub open spec fn queue_of(q: Queued, device_id: u8) -> Seq<u8> {
    if device_id == DEVICE_COM1 {
        q.com1
    } else if device_id == DEVICE_COM2 {
        q.com2
    } else {
        q.usb
    }
}

/// The queues with that of a device replaced.
pub open spec fn with_queue(q: Queued, device_id: u8, s: Seq<u8>) -> Queued {
    if device_id == DEVICE_COM1 {
        Queued { com1: s, ..q }
    } else if device_id == DEVICE_COM2 {
        Queued { com2: s, ..q }
    } else {
        Queued { usb: s, ..q }
    }
}

/// The device behind a port name of a terminal command; every USB port counts as the first one.
pub open spec fn port_device(name: Seq<char>) -> u8 {
    if name == "com1"@ {
        DEVICE_COM1
    } else if name == "com2"@ {
        DEVICE_COM2
    } else {
        DEVICE_USB0
    }
}

/// The queue that bytes for a port go to, if there is one.
pub open spec fn tx_device(name: Seq<char>) -> Option<u8> {
    if name == "com1"@ {
        Some(DEVICE_COM1)
    } else if name == "com2"@ {
        Some(DEVICE_COM2)
    } else if name == "usb"@ || name == "usb0"@ {
        Some(DEVICE_USB0)
    } else {
        None
    }
}

impl Rings {
    /// No queue holds more than it can.
    pub open spec fn wf(self) -> bool {
        self.com1.wf() && self.com2.wf() && self.usb.wf()
    }

    /// Three empty queues.
    pub fn new() -> (r: Rings)
        ensures
            r.wf(),
            r@ == (Queued { com1: Seq::empty(), com2: Seq::empty(), usb: Seq::empty() }),
    {
        Rings { com1: Ring::new(), com2: Ring::new(), usb: Ring::new() }
    }

    /// Queues bytes that a device received, for the terminals that listen to it.
    pub fn ws_enqueue(&mut self, device_id: u8, data: &[u8])
        requires
            old(self).wf(),
        ensures
            final(self).wf(),
            final(self)@ == with_queue(
                old(self)@,
                device_id,
                newest(queue_of(old(self)@, device_id) + data@, WS_RING_CAP as nat),
            ),
    {
        match device_id {
            DEVICE_COM1 => self.com1.push(data),
            DEVICE_COM2 => self.com2.push(data),
            _ => self.usb.push(data),
        }
    }

    /// Takes out what is queued for a device.
    pub fn drain(&mut self, device_id: u8) -> (out: Vec<u8>)
        requires
            old(self).wf(),
        ensures
            final(self).wf(),
            out@ == queue_of(old(self)@, device_id),
            final(self)@ == with_queue(old(self)@, device_id, Seq::empty()),
    {
        match device_id {
            DEVICE_COM1 => self.com1.take_all(),
            DEVICE_COM2 => self.com2.take_all(),
            _ => self.usb.take_all(),
        }
    }

    /// Queues bytes that a terminal sent to a port; for an unknown port nothing happens.
    pub fn serial_write(&mut self, port_name: &str, data: &[u8])
        requires
            old(self).wf(),
        ensures
            final(self).wf(),
            final(self)@ == match tx_device(port_name@) {
                Some(d) => with_queue(
                    old(self)@,
                    d,
                    newest(queue_of(old(self)@, d) + data@, WS_RING_CAP as nat),
                ),
                None => old(self)@,
            },
    {
        if same(port_name, "com1") {
            self.com1.push(data);
        } else if same(port_name, "com2") {
            self.com2.push(data);
        } else if same(port_name, "usb") || same(port_name, "usb0") {
            self.usb.push(data);
        }
    }
}

/// Which terminal sessions are admitted and which of them listens to which port. Sessions are known
/// by their descriptor.
pub struct Listeners {
    com1: Vec<i32>,
    com2: Vec<i32>,
    usb: Vec<i32>,
    ports: HashMap<i32, u8>,
    admitted: HashSet<i32>,
}

/// The listeners as plain values: sessions per port, the device of each session, and the sessions
/// that are admitted.
#[verifier::ext_equal]
pub struct Listening {
    pub com1: Seq<i32>,
    pub com2: Seq<i32>,
    pub usb: Seq<i32>,
    pub ports: Map<i32, u8>,
    pub admitted: Set<i32>,
}

impl View for Listeners {
    type V = Listening;

    closed spec fn view(&self) -> Listening {
        Listening {
            com1: self.com1@,
            com2: self.com2@,
            usb: self.usb@,
            ports: self.ports@,
            admitted: self.admitted@,
        }
    }
}

/// The sessions that listen to a device.
pub open spec fn sessions_of(l: Listening, device_id: u8) -> Seq<i32> {
    if device_id == DEVICE_COM1 {
        l.com1
    } else if device_id == DEVICE_COM2 {
        l.com2
    } else {
        l.usb
    }
}

/// The listeners with the sessions of a device replaced.
pub open spec fn with_sessions(l: Listening, device_id: u8, s: Seq<i32>) -> Listening {
    if device_id == DEVICE_COM1 {
        Listening { com1: s, ..l }
    } else if device_id == DEVICE_COM2 {
        Listening { com2: s, ..l }
    } else {
        Listening { usb: s, ..l }
    }
}

/// `s` without the sessions in `gone`, in order.
pub open spec fn without(s: Seq<i32>, gone: Seq<i32>) -> Seq<i32>
    decreases s.len(),
{
    if s.len() == 0 {
        s
    } else if gone.contains(s.last()) {
        without(s.drop_last(), gone)
    } else {
        without(s.drop_last(), gone).push(s.last())
    }
}

/// The listeners after session `fd` left a device.
pub open spec fn left(l: Listening, device_id: u8, fd: i32) -> Listening {
    let m = with_sessions(l, device_id, without(sessions_of(l, device_id), seq![fd]));
    Listening { ports: l.ports.remove(fd), ..m }
}

/// The listeners after session `fd` left every port.
pub open spec fn left_all(l: Listening, fd: i32) -> Listening {
    left(left(left(l, DEVICE_COM1, fd), DEVICE_COM2, fd), DEVICE_USB0, fd)
}

/// The listeners after session `fd` went away.
pub open spec fn closed(l: Listening, fd: i32) -> Listening {
    Listening { admitted: l.admitted.remove(fd), ..left_all(l, fd) }
}

/// The listeners after session `fd` was opened: nothing is left of one that had the same
/// descriptor, and the new one is admitted or not.
pub open spec fn opened(l: Listening, fd: i32, welcome: bool) -> Listening {
    let m = closed(l, fd);
    if welcome {
        Listening { admitted: m.admitted.insert(fd), ..m }
    } else {
        m
    }
}

/// Whether only admitted sessions listen.
pub open spec fn only_admitted(l: Listening) -> bool {
    &&& forall|i: int| 0 <= i < l.com1.len() ==> l.admitted.contains(#[trigger] l.com1[i])
    &&& forall|i: int| 0 <= i < l.com2.len() ==> l.admitted.contains(#[trigger] l.com2[i])
    &&& forall|i: int| 0 <= i < l.usb.len() ==> l.admitted.contains(#[trigger] l.usb[i])
    &&& forall|fd: i32| #[trigger] l.ports.dom().contains(fd) ==> l.admitted.contains(fd)
}

/// The listeners after session `fd` joined a device.
pub open spec fn joined(l: Listening, device_id: u8, fd: i32) -> Listening {
    let m = with_sessions(l, device_id, sessions_of(l, device_id).push(fd));
    Listening { ports: l.ports.insert(fd, device_id), ..m }
}

/// The name of the port that a session listens to.
pub open spec fn session_port(l: Listening, fd: i32) -> Seq<char> {
    if l.ports.dom().contains(fd) && l.ports[fd] == DEVICE_COM1 {
        "com1"@
    } else if l.ports.dom().contains(fd) && l.ports[fd] == DEVICE_COM2 {
        "com2"@
    } else if l.ports.dom().contains(fd) && l.ports[fd] != DEVICE_NONE {
        "usb"@
    } else {
        ""@
    }
}

/// `s` without the sessions in `gone`.
fn keep_without(s: &Vec<i32>, gone: &Vec<i32>) -> (r: Vec<i32>)
    ensures
        r@ == without(s@, gone@),
{
    let mut out: Vec<i32> = Vec::new();
    let mut i: usize = 0;
    while i < s.len()
        invariant
            i <= s@.len(),
            out@ == without(s@.take(i as int), gone@),
        decreases s@.len() - i,
    {
        proof {
            assert(s@.take(i + 1).drop_last() =~= s@.take(i as int));
        }
        let mut found = false;
        let mut k: usize = 0;
        while k < gone.len()
            invariant
                k <= gone@.len(),
                i < s@.len(),
                found == exists|j: int| 0 <= j < k && gone@[j] == s@[i as int],
            decreases gone@.len() - k,
        {
            if gone[k] == s[i] {
                found = true;
            }
            k = k + 1;
        }
        proof {
            assert(found == gone@.contains(s@[i as int]));
        }
        if !found {
            out.push(s[i]);
        }
        i = i + 1;
    }
    proof {
        assert(s@.take(s@.len() as int) =~= s@);
    }
    out
}

/// The device behind a port name of a terminal command.
pub fn device_for_port(name: &str) -> (d: u8)
    ensures
        d == port_device(name@),
{
    if same(name, "com1") {
        DEVICE_COM1
    } else if same(name, "com2") {
        DEVICE_COM2
    } else {
        DEVICE_USB0
    }
}

impl Listeners {
    /// Nobody listens.
    pub fn new() -> (l: Listeners)
        ensures
            l@ == (Listening {
                com1: Seq::empty(),
                com2: Seq::empty(),
                usb: Seq::empty(),
                ports: Map::empty(),
                admitted: Set::empty(),
            }),
    {
        Listeners {
            com1: Vec::new(),
            com2: Vec::new(),
            usb: Vec::new(),
            ports: HashMap::new(),
            admitted: HashSet::new(),
        }
    }

    /// A session is opened; `welcome` says whether it belongs to somebody who is logged in.
    pub fn open_session(&mut self, fd: i32, welcome: bool)
        ensures
            final(self)@ == opened(old(self)@, fd, welcome),
    {
        self.leave_all(fd);
        if welcome {
            self.admitted.insert(fd);
        }
    }

    /// Whether a session is admitted.
    pub fn is_admitted(&self, fd: i32) -> (r: bool)
        ensures
            r == self@.admitted.contains(fd),
    {
        self.admitted.contains(&fd)
    }

    /// A session begins to listen to a port.
    pub fn ws_register_sender(&mut self, port_name: &str, fd: i32)
        ensures
            final(self)@ == joined(old(self)@, port_device(port_name@), fd),
    {
        let d = device_for_port(port_name);
        match d {
            DEVICE_COM1 => self.com1.push(fd),
            DEVICE_COM2 => self.com2.push(fd),
            _ => self.usb.push(fd),
        }
        self.ports.insert(fd, d);
    }

    /// A session no longer listens to a port.
    pub fn ws_remove_sender(&mut self, port_name: &str, fd: i32)
        ensures
            final(self)@ == left(old(self)@, port_device(port_name@), fd),
    {
        let d = device_for_port(port_name);
        let gone: Vec<i32> = vec![fd];
        proof {
            assert(gone@ =~= seq![fd]);
        }
        match d {
            DEVICE_COM1 => {
                self.com1 = keep_without(&self.com1, &gone);
            },
            DEVICE_COM2 => {
                self.com2 = keep_without(&self.com2, &gone);
            },
            _ => {
                self.usb = keep_without(&self.usb, &gone);
            },
        }
        self.ports.remove(&fd);
    }

    /// A session leaves every port; it stays admitted.
    pub fn leave_ports(&mut self, fd: i32)
        ensures
            final(self)@ == left_all(old(self)@, fd),
    {
        proof {
            reveal_strlit("com1");
            reveal_strlit("com2");
            reveal_strlit("usb0");
            assert("com1"@[3] != "com2"@[3]);
            assert("usb0"@[0] != "com1"@[0]);
            assert("usb0"@[0] != "com2"@[0]);
        }
        self.ws_remove_sender("com1", fd);
        self.ws_remove_sender("com2", fd);
        self.ws_remove_sender("usb0", fd);
    }

    /// A session goes away: it leaves every port and is no longer admitted.
    pub fn leave_all(&mut self, fd: i32)
        ensures
            final(self)@ == closed(old(self)@, fd),
    {
        self.leave_ports(fd);
        self.admitted.remove(&fd);
    }

    /// The name of the port that a session listens to, empty where it listens to none.
    pub fn ws_port_for_fd(&self, fd: i32) -> (name: &'static str)
        ensures
            name@ == session_port(self@, fd),
    {
        match self.ports.get(&fd) {
            Some(d) => match *d {
                DEVICE_COM1 => "com1",
                DEVICE_COM2 => "com2",
                DEVICE_NONE => "",
                _ => "usb",
            },
            None => "",
        }
    }

    /// The sessions that listen to a device.
    pub fn sessions(&self, device_id: u8) -> (s: Vec<i32>)
        ensures
            s@ == sessions_of(self@, device_id),
    {
        let none: Vec<i32> = Vec::new();
        let s = match device_id {
            DEVICE_COM1 => keep_without(&self.com1, &none),
            DEVICE_COM2 => keep_without(&self.com2, &none),
            _ => keep_without(&self.usb, &none),
        };
        proof {
            lemma_without_nobody(sessions_of(self@, device_id), none@);
        }
        s
    }

    /// Sessions that could not be sent to no longer listen to a device.
    pub fn prune(&mut self, device_id: u8, gone: &Vec<i32>)
        ensures
            final(self)@ == with_sessions(
                old(self)@,
                device_id,
                without(sessions_of(old(self)@, device_id), gone@),
            ),
    {
        match device_id {
            DEVICE_COM1 => {
                self.com1 = keep_without(&self.com1, gone);
            },
            DEVICE_COM2 => {
                self.com2 = keep_without(&self.com2, gone);
            },
            _ => {
                self.usb = keep_without(&self.usb, gone);
            },
        }
    }
}

proof fn lemma_without_nobody(s: Seq<i32>, gone: Seq<i32>)
    requires
        gone.len() == 0,
    ensures
        without(s, gone) == s,
    decreases s.len(),
{
    if s.len() > 0 {
        lemma_without_nobody(s.drop_last(), gone);
        assert(s.drop_last().push(s.last()) =~= s);
    }
}

proof fn lemma_without(s: Seq<i32>, fd: i32)
    ensures
        !without(s, seq![fd]).contains(fd),
    decreases s.len(),
{
    if s.len() > 0 {
        lemma_without(s.drop_last(), fd);
        let r = without(s.drop_last(), seq![fd]);
        if s.last() != fd {
            assert(!seq![fd].contains(s.last()));
            assert forall|i: int| 0 <= i < r.push(s.last()).len() implies r.push(s.last())[i]
                != fd by {
                if i < r.len() {
                    assert(r.contains(r[i]));
                }
            }
        } else {
            assert(seq![fd][0] == s.last());
            assert(seq![fd].contains(s.last()));
        }
    }
}

/// After a session left every port and joined one, it listens to that port alone, once, and is
/// found there.
pub proof fn law_one_port_per_session(l: Listening, fd: i32, device_id: u8)
    requires
        device_id == DEVICE_COM1 || device_id == DEVICE_COM2 || device_id == DEVICE_USB0,
    ensures
        ({
            let m = joined(left_all(l, fd), device_id, fd);
            &&& sessions_of(m, device_id).last() == fd
            &&& !sessions_of(m, device_id).drop_last().contains(fd)
            &&& (device_id != DEVICE_COM1 ==> !m.com1.contains(fd))
            &&& (device_id != DEVICE_COM2 ==> !m.com2.contains(fd))
            &&& (device_id != DEVICE_USB0 ==> !m.usb.contains(fd))
            &&& m.ports.dom().contains(fd)
            &&& m.ports[fd] == device_id
        }),
{
    lemma_without(l.com1, fd);
    lemma_without(l.com2, fd);
    lemma_without(l.usb, fd);
    let m = joined(left_all(l, fd), device_id, fd);
    assert(sessions_of(m, device_id).drop_last() =~= sessions_of(left_all(l, fd), device_id));
}

/// After a session went away, no port knows it and it is not admitted.
pub proof fn law_left_is_gone(l: Listening, fd: i32)
    ensures
        ({
            let m = closed(l, fd);
            &&& !m.com1.contains(fd)
            &&& !m.com2.contains(fd)
            &&& !m.usb.contains(fd)
            &&& session_port(m, fd) == ""@
            &&& !m.admitted.contains(fd)
        }),
{
    lemma_without(l.com1, fd);
    lemma_without(l.com2, fd);
    lemma_without(l.usb, fd);
}

/// What remains of a list of admitted sessions without session `fd` is admitted without it.
proof fn lemma_without_admitted(s: Seq<i32>, fd: i32, admitted: Set<i32>)
    requires
        forall|i: int| 0 <= i < s.len() ==> admitted.contains(#[trigger] s[i]),
    ensures
        forall|i: int|
            0 <= i < without(s, seq![fd]).len() ==> admitted.remove(fd).contains(
                #[trigger] without(s, seq![fd])[i],
            ),
    decreases s.len(),
{
    if s.len() > 0 {
        let head = s.drop_last();
        assert forall|i: int| 0 <= i < head.len() implies admitted.contains(#[trigger] head[i]) by {
            assert(admitted.contains(s[i]));
        }
        lemma_without_admitted(head, fd, admitted);
        assert(admitted.contains(s[s.len() - 1]));
        assert(seq![fd][0] == fd);
        assert(seq![fd].contains(s.last()) == (s.last() == fd));
        let r = without(s, seq![fd]);
        let before = without(head, seq![fd]);
        assert forall|i: int| 0 <= i < r.len() implies admitted.remove(fd).contains(
            #[trigger] r[i],
        ) by {
            if i < before.len() {
                assert(r[i] == before[i]);
            }
        }
    }
}

/// Sessions that come and go keep it so that only admitted ones listen.
pub proof fn law_only_admitted_listen(l: Listening, fd: i32, welcome: bool)
    requires
        only_admitted(l),
    ensures
        only_admitted(closed(l, fd)),
        only_admitted(opened(l, fd, welcome)),
{
    lemma_without_admitted(l.com1, fd, l.admitted);
    lemma_without_admitted(l.com2, fd, l.admitted);
    lemma_without_admitted(l.usb, fd, l.admitted);
}

/// What is kept is the end of what came, as much as fits.
pub proof fn law_newest_is_the_end(s: Seq<u8>, n: nat, i: int)
    ensures
        newest(s, n).len() == if s.len() < n {
            s.len()
        } else {
            n
        },
        0 <= i < newest(s, n).len() ==> newest(s, n)[newest(s, n).len() - 1 - i] == s[s.len() - 1
            - i],
{
}

/// Each of the two UARTs, devices 2 and 3, has a queue of its own, and every other device shares
/// the third one; what happens to one leaves the others alone.
pub proof fn law_queues_are_apart(q: Queued, d: u8, s: Seq<u8>)
    ensures
        queue_of(q, 2) == q.com1,
        queue_of(q, 3) == q.com2,
        d != 2 && d != 3 ==> queue_of(q, d) == q.usb,
        with_queue(q, 2, s).com1 == s && with_queue(q, 2, s).com2 == q.com2 && with_queue(
            q,
            2,
            s,
        ).usb == q.usb,
        with_queue(q, 3, s).com1 == q.com1 && with_queue(q, 3, s).com2 == s && with_queue(
            q,
            3,
            s,
        ).usb == q.usb,
        d != 2 && d != 3 ==> with_queue(q, d, s).com1 == q.com1 && with_queue(q, d, s).com2
            == q.com2 && with_queue(q, d, s).usb == s,
{
}

/// The devices behind the port names of terminals: 2 for the first UART, 3 for the second, and 1
/// for any other name when listening; when writing, for `usb` and `usb0` only.
pub proof fn law_ports_by_name(name: Seq<char>)
    ensures
        port_device("com1"@) == 2,
        port_device("com2"@) == 3,
        name != "com1"@ && name != "com2"@ ==> port_device(name) == 1,
        tx_device("com1"@) == Some(2u8),
        tx_device("com2"@) == Some(3u8),
        tx_device("usb"@) == Some(1u8),
        tx_device("usb0"@) == Some(1u8),
        name != "com1"@ && name != "com2"@ && name != "usb"@ && name != "usb0"@ ==> tx_device(
            name,
        ) is None,
{
    reveal_strlit("com1");
    reveal_strlit("com2");
    reveal_strlit("usb");
    reveal_strlit("usb0");
    assert("com1"@[3] != "com2"@[3]);
    assert("usb0"@[0] != "com1"@[0]);
    assert("usb0"@[0] != "com2"@[0]);
    assert("usb"@.len() != "com1"@.len());
    assert("usb"@.len() != "com2"@.len());
}

proof fn lemma_without_keeps(s: Seq<i32>, gone: Seq<i32>, x: i32)
    ensures
        without(s, gone).contains(x) == (s.contains(x) && !gone.contains(x)),
    decreases s.len(),
{
    if s.len() > 0 {
        let head = s.drop_last();
        lemma_without_keeps(head, gone, x);
        let r = without(head, gone);
        let last = s.last();
        assert(s =~= head.push(last));
        assert(s.contains(x) == (head.contains(x) || x == last)) by {
            if s.contains(x) {
                let k = choose|k: int| 0 <= k < s.len() && s[k] == x;
                if k < head.len() {
                    assert(head[k] == x);
                }
            }
            if head.contains(x) {
                let k = choose|k: int| 0 <= k < head.len() && head[k] == x;
                assert(s[k] == x);
            }
            if x == last {
                assert(s[s.len() - 1] == x);
            }
        }
        assert(r.push(last).contains(x) == (r.contains(x) || x == last)) by {
            let p = r.push(last);
            if p.contains(x) {
                let k = choose|k: int| 0 <= k < p.len() && p[k] == x;
                if k < r.len() {
                    assert(r[k] == x);
                }
            }
            if r.contains(x) {
                let k = choose|k: int| 0 <= k < r.len() && r[k] == x;
                assert(p[k] == x);
            }
            if x == last {
                assert(p[r.len() as int] == x);
            }
        }
    }
}

/// Who remains of a list is everybody but those who are gone.
pub proof fn law_who_remains(s: Seq<i32>, gone: Seq<i32>, x: i32)
    ensures
        without(s, gone).contains(x) <==> s.contains(x) && !gone.contains(x),
{
    lemma_without_keeps(s, gone, x);
}

/// A session that joins a UART, device 2 or 3, or another device, listens there and is known to;
/// everybody else stays as they were, and nobody is admitted by it.
pub proof fn law_joined(l: Listening, d: u8, fd: i32, other: i32)
    requires
        other != fd,
    ensures
        ({
            let m = joined(l, d, fd);
            &&& d == 2 ==> m.com1 == l.com1.push(fd) && m.com2 == l.com2 && m.usb == l.usb
            &&& d == 3 ==> m.com1 == l.com1 && m.com2 == l.com2.push(fd) && m.usb == l.usb
            &&& d != 2 && d != 3 ==> m.com1 == l.com1 && m.com2 == l.com2 && m.usb == l.usb.push(fd)
            &&& m.ports.dom().contains(fd) && m.ports[fd] == d
            &&& m.ports.dom().contains(other) == l.ports.dom().contains(other)
            &&& l.ports.dom().contains(other) ==> m.ports[other] == l.ports[other]
            &&& m.admitted == l.admitted
        }),
{
}

/// A session that leaves one device stays on the lists of the others; those who did not leave stay
/// everywhere.
pub proof fn law_left_one(l: Listening, d: u8, fd: i32, other: i32)
    requires
        other != fd,
    ensures
        ({
            let m = left(l, d, fd);
            &&& sessions_of(m, d).contains(other) == sessions_of(l, d).contains(other)
            &&& !sessions_of(m, d).contains(fd)
            &&& d != 2 ==> m.com1 == l.com1
            &&& d != 3 ==> m.com2 == l.com2
            &&& d == 2 || d == 3 ==> m.usb == l.usb
            &&& !m.ports.dom().contains(fd)
            &&& m.ports.dom().contains(other) == l.ports.dom().contains(other)
            &&& l.ports.dom().contains(other) ==> m.ports[other] == l.ports[other]
            &&& m.admitted == l.admitted
        }),
{
    lemma_without_keeps(sessions_of(l, d), seq![fd], other);
    lemma_without_keeps(sessions_of(l, d), seq![fd], fd);
    assert(!seq![fd].contains(other));
    assert(seq![fd][0] == fd);
}

/// A session that is opened is admitted exactly if it is welcome, and listens to nothing yet; every
/// other session stays as it was.
pub proof fn law_opened(l: Listening, fd: i32, welcome: bool, other: i32)
    requires
        other != fd,
    ensures
        ({
            let m = opened(l, fd, welcome);
            &&& m.admitted.contains(fd) == welcome
            &&& m.admitted.contains(other) == l.admitted.contains(other)
            &&& !m.com1.contains(fd) && !m.com2.contains(fd) && !m.usb.contains(fd)
            &&& !m.ports.dom().contains(fd)
            &&& m.com1.contains(other) == l.com1.contains(other)
            &&& m.com2.contains(other) == l.com2.contains(other)
            &&& m.usb.contains(other) == l.usb.contains(other)
            &&& m.ports.dom().contains(other) == l.ports.dom().contains(other)
            &&& l.ports.dom().contains(other) ==> m.ports[other] == l.ports[other]
        }),
{
    lemma_without_keeps(l.com1, seq![fd], other);
    lemma_without_keeps(l.com2, seq![fd], other);
    lemma_without_keeps(l.usb, seq![fd], other);
    lemma_without_keeps(l.com1, seq![fd], fd);
    lemma_without_keeps(l.com2, seq![fd], fd);
    lemma_without_keeps(l.usb, seq![fd], fd);
    assert(!seq![fd].contains(other));
    assert(seq![fd][0] == fd);
}

/// The port that a session listens to is named after the device that it joined: 2 is `com1`, 3 is
/// `com2`, and any other one but 0 is `usb`.
pub proof fn law_session_port_by_device(l: Listening, fd: i32)
    ensures
        !l.ports.dom().contains(fd) ==> session_port(l, fd) == ""@,
        l.ports.dom().contains(fd) && l.ports[fd] == 2 ==> session_port(l, fd) == "com1"@,
        l.ports.dom().contains(fd) && l.ports[fd] == 3 ==> session_port(l, fd) == "com2"@,
        l.ports.dom().contains(fd) && l.ports[fd] == 0 ==> session_port(l, fd) == ""@,
        l.ports.dom().contains(fd) && (l.ports[fd] == 1 || l.ports[fd] > 3) ==> session_port(l, fd)
            == "usb"@,
        sessions_of(l, 2) == l.com1,
        sessions_of(l, 3) == l.com2,
        sessions_of(l, 1) == l.usb,
{
}

} // verus!
