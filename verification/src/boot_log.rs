//! The boot counter and the rolling log of reset reasons.

use crate::text;
use crate::text::{has_nul, join_text, lines_of, push_dec, stored_text};
use vstd::prelude::*;
use vstd::string::*;

verus! {

/// The storage namespace of counter and log.
pub const NVS_NS: &'static str = "boot_log";

/// How many boots the log keeps.
pub const MAX_ENTRIES: usize = 10;

/// Why the chip was reset.
#[derive(Copy, Clone, Debug, PartialEq, Eq, Structural)]
pub enum ResetReason {
    PowerOn,
    External,
    Software,
    Panic,
    InterruptWatchdog,
    TaskWatchdog,
    Watchdog,
    DeepSleep,
    Brownout,
    Sdio,
    Other,
}

/// The label of a reset reason.
pub open spec fn label(reason: ResetReason) -> Seq<char> {
    match reason {
        ResetReason::PowerOn => "PowerOn"@,
        ResetReason::External => "ExtReset"@,
        ResetReason::Software => "Software"@,
        ResetReason::Panic => "Panic/Crash"@,
        ResetReason::InterruptWatchdog => "IntWatchdog"@,
        ResetReason::TaskWatchdog => "TaskWatchdog"@,
        ResetReason::Watchdog => "Watchdog"@,
        ResetReason::DeepSleep => "DeepSleep"@,
        ResetReason::Brownout => "Brownout"@,
        ResetReason::Sdio => "SDIO"@,
        ResetReason::Other => "Unknown"@,
    }
}

/// The label of a reset reason.
pub fn reset_reason_str(reason: ResetReason) -> (s: &'static str)
    ensures
        s@ == label(reason),
{
    match reason {
        ResetReason::PowerOn => "PowerOn",
        ResetReason::External => "ExtReset",
        ResetReason::Software => "Software",
        ResetReason::Panic => "Panic/Crash",
        ResetReason::InterruptWatchdog => "IntWatchdog",
        ResetReason::TaskWatchdog => "TaskWatchdog",
        ResetReason::Watchdog => "Watchdog",
        ResetReason::DeepSleep => "DeepSleep",
        ResetReason::Brownout => "Brownout",
        ResetReason::Sdio => "SDIO",
        ResetReason::Other => "Unknown",
    }
}

/// The entries of the log after `new` came in front: at most the last ten boots.
pub open spec fn rolled(new: Seq<char>, entries: Seq<Seq<char>>) -> Seq<Seq<char>> {
    let all = seq![new] + entries;
    if all.len() > MAX_ENTRIES {
        all.take(MAX_ENTRIES as int)
    } else {
        all
    }
}

/// The log text after `new` came in front of `existing`.
pub open spec fn prepended(new: Seq<char>, existing: Seq<char>) -> Seq<char> {
    text::join(rolled(new, text::lines(existing)), seq!['\n'])
}

/// Puts `new` in front of a log and drops what is too old.
pub fn prepend_entry(new: &str, existing: &str) -> (r: String)
    ensures
        r@ == prepended(new@, existing@),
{
    let old_entries = lines_of(existing);
    let mut entries: Vec<String> = Vec::new();
    entries.push(new.to_owned());
    let ghost all = seq![new@] + text::lines(existing@);
    let mut i: usize = 0;
    while i < old_entries.len() && entries.len() < MAX_ENTRIES
        invariant
            i <= old_entries@.len(),
            entries@.len() == i + 1 <= MAX_ENTRIES,
            all == seq![new@] + text::views(old_entries@),
            text::views(entries@) == all.take(i + 1),
        decreases old_entries@.len() - i,
    {
        let ghost before = text::views(entries@);
        entries.push(old_entries[i].clone());
        proof {
            assert(text::views(entries@) =~= before.push(old_entries@[i as int]@));
            assert(all.take(i + 2) =~= before.push(old_entries@[i as int]@));
        }
        i = i + 1;
    }
    proof {
        assert(text::views(entries@) =~= rolled(new@, text::lines(existing@)));
        reveal_strlit("\n");
        assert("\n"@ =~= seq!['\n']);
    }
    join_text(&entries, "\n")
}

/// The log entry of boot number `count`.
pub open spec fn entry(count: u32, reason: ResetReason) -> Seq<char> {
    seq!['#'] + text::dec(count as nat) + seq![' '] + label(reason)
}

/// The counter after one more boot.
pub open spec fn next_count(count: u32) -> u32 {
    if count < u32::MAX {
        (count + 1) as u32
    } else {
        u32::MAX
    }
}

/// What a boot changes in storage.
pub struct BootRecord {
    /// The number of this boot, 0 where there is no storage.
    pub count: u32,
    /// Why the chip was reset.
    pub reason: &'static str,
    /// The counter to store.
    pub write_count: Option<u32>,
    /// The log to store; none where it holds a NUL, which storage cannot take.
    pub write_log: Option<String>,
}

/// The log in storage: empty where there is none or it is no text.
pub open spec fn stored_log(raw: Option<Seq<u8>>) -> Seq<char> {
    match raw {
        Some(b) => match text::stored(b) {
            Some(t) => t,
            None => Seq::empty(),
        },
        None => Seq::empty(),
    }
}

/// The view of optional bytes.
pub open spec fn bytes_view(raw: Option<Vec<u8>>) -> Option<Seq<u8>> {
    match raw {
        Some(b) => Some(b@),
        None => None,
    }
}

/// The log text in storage; `raw` is what storage gave back, if it could be read.
pub fn read_log(raw: Option<Vec<u8>>) -> (s: String)
    ensures
        s@ == stored_log(bytes_view(raw)),
{
    match raw {
        Some(b) => match stored_text(b.as_slice()) {
            Some(t) => t,
            None => String::new(),
        },
        None => String::new(),
    }
}

/// What storage holds of the boots: the counter, and the log as storage gives it back.
pub struct Boots {
    pub count: u32,
    pub log: Option<Seq<u8>>,
}

/// Storage after one more boot; a log that holds a NUL cannot be written, so the old one stays.
pub open spec fn booted(s: Boots, reason: ResetReason) -> Boots {
    let n = next_count(s.count);
    let log = prepended(entry(n, reason), stored_log(s.log));
    Boots {
        count: n,
        log: if log.contains('\0') {
            s.log
        } else {
            Some(text::written(log))
        },
    }
}

/// Storage after what a boot changes was written.
pub open spec fn stored_after(s: Boots, r: BootRecord) -> Boots {
    Boots {
        count: match r.write_count {
            Some(n) => n,
            None => s.count,
        },
        log: match r.write_log {
            Some(t) => Some(text::written(t@)),
            None => s.log,
        },
    }
}

impl BootRecord {
    /// What a boot for a reason changes, of what storage holds, if it can be opened.
    pub open spec fn is_for(self, reason: ResetReason, nvs: Option<(u32, Option<Vec<u8>>)>) -> bool {
        &&& self.reason@ == label(reason)
        &&& nvs is None ==> self.count == 0 && self.write_count is None && self.write_log is None
        &&& nvs matches Some((count, raw)) ==> {
            let n = next_count(count);
            let log = prepended(entry(n, reason), stored_log(bytes_view(raw)));
            &&& self.count == n
            &&& self.write_count == Some(n)
            &&& self.write_log is Some <==> !log.contains('\0')
            &&& self.write_log matches Some(t) ==> t@ == log
            &&& stored_after(Boots { count, log: bytes_view(raw) }, self) == booted(
                Boots { count, log: bytes_view(raw) },
                reason,
            )
        }
    }
}

/// Counts a boot and logs its reset reason. `nvs` holds the stored counter and log, or nothing
/// where storage cannot be opened.
pub fn record_boot(reason: ResetReason, nvs: Option<(u32, Option<Vec<u8>>)>) -> (r: BootRecord)
    ensures
        r.is_for(reason, nvs),
{
    let reason_str = reset_reason_str(reason);
    match nvs {
        None => BootRecord { count: 0, reason: reason_str, write_count: None, write_log: None },
        Some((stored, raw)) => {
            let count: u32 = stored.saturating_add(1);
            let existing = read_log(raw);
            let mut new_entry = String::new();
            new_entry.push('#');
            push_dec(&mut new_entry, count as u64);
            new_entry.push(' ');
            new_entry.append(reason_str);
            proof {
                assert(new_entry@ =~= entry(count, reason));
            }
            let updated = prepend_entry(new_entry.as_str(), existing.as_str());
            let write_log = if has_nul(updated.as_str()) {
                None
            } else {
                Some(updated)
            };
            BootRecord { count, reason: reason_str, write_count: Some(count), write_log }
        },
    }
}

/// A decimal number is a run of digits.
proof fn lemma_dec_digits(n: nat)
    ensures
        text::dec(n).len() > 0,
        text::all_digits(text::dec(n)),
    decreases n,
{
    if n >= 10 {
        lemma_dec_digits(n / 10);
    }
}

/// Every entry stands on a line of its own and holds no NUL.
pub proof fn law_entry_is_line(count: u32, reason: ResetReason)
    ensures
        text::is_line(entry(count, reason)),
        !entry(count, reason).contains('\0'),
{
    lemma_dec_digits(count as nat);
    let d = text::dec(count as nat);
    reveal_strlit("PowerOn");
    reveal_strlit("ExtReset");
    reveal_strlit("Software");
    reveal_strlit("Panic/Crash");
    reveal_strlit("IntWatchdog");
    reveal_strlit("TaskWatchdog");
    reveal_strlit("Watchdog");
    reveal_strlit("DeepSleep");
    reveal_strlit("Brownout");
    reveal_strlit("SDIO");
    reveal_strlit("Unknown");
    let e = entry(count, reason);
    assert forall|i: int| 0 <= i < e.len() implies e[i] != '\n' && e[i] != '\r' && e[i] != '\0' by {
        if 1 <= i < 1 + d.len() {
            assert(text::is_digit(d[i - 1]));
            assert(e[i] == d[i - 1]);
        } else if i > 1 + d.len() {
            assert(e[i] == label(reason)[i - 2 - d.len()]);
        }
    }
}

/// The log is a list of lines: recording a boot puts its entry in front and keeps the nine
/// newest others, and what is stored can be read again as that list.
pub proof fn law_log_rolls(entries: Seq<Seq<char>>, count: u32, reason: ResetReason)
    requires
        forall|i: int| 0 <= i < entries.len() ==> text::is_line(#[trigger] entries[i]),
    ensures
        ({
            let new = entry(count, reason);
            let log = prepended(new, text::join(entries, seq!['\n']));
            &&& text::lines(log) == rolled(new, entries)
            &&& log == text::join(rolled(new, entries), seq!['\n'])
            &&& forall|i: int|
                0 <= i < rolled(new, entries).len() ==> text::is_line(
                    #[trigger] rolled(new, entries)[i],
                )
        }),
{
    let new = entry(count, reason);
    text::lemma_lines_join(entries);
    law_entry_is_line(count, reason);
    let r = rolled(new, entries);
    assert forall|i: int| 0 <= i < r.len() implies text::is_line(#[trigger] r[i]) by {
        if i > 0 {
            assert(r[i] == entries[i - 1]);
        }
    }
    text::lemma_lines_join(r);
}

/// Storage after any number of boots, one after another.
pub open spec fn booted_all(s: Boots, reasons: Seq<ResetReason>) -> Boots
    decreases reasons.len(),
{
    if reasons.len() == 0 {
        s
    } else {
        booted(booted_all(s, reasons.drop_last()), reasons.last())
    }
}

/// The number of the boot that comes `k` boots after boot number `count`: the counter stays at its
/// largest value.
pub open spec fn boot_number(count: u32, k: nat) -> u32 {
    if count + k <= u32::MAX {
        (count + k) as u32
    } else {
        u32::MAX
    }
}

/// The entries of boots that came after boot number `count`, newest first.
pub open spec fn entries_of(count: u32, reasons: Seq<ResetReason>) -> Seq<Seq<char>> {
    let n = reasons.len();
    Seq::new(n, |i: int| entry(boot_number(count, (n - i) as nat), reasons[n - 1 - i]))
}

/// The first ten entries of a list, or all where there are fewer.
pub open spec fn first_ten(entries: Seq<Seq<char>>) -> Seq<Seq<char>> {
    if entries.len() > MAX_ENTRIES {
        entries.take(MAX_ENTRIES as int)
    } else {
        entries
    }
}

/// Whether the log in storage is a list of entries, one on each line.
pub open spec fn holds(log: Option<Seq<u8>>, entries: Seq<Seq<char>>) -> bool {
    &&& entries.len() <= MAX_ENTRIES
    &&& stored_log(log) == text::join(entries, seq!['\n'])
    &&& forall|i: int|
        0 <= i < entries.len() ==> text::is_line(#[trigger] entries[i]) && !entries[i].contains(
            '\0',
        )
}

/// Lines without a NUL make up a text without one.
proof fn lemma_join_no_nul(entries: Seq<Seq<char>>)
    requires
        forall|i: int| 0 <= i < entries.len() ==> !(#[trigger] entries[i]).contains('\0'),
    ensures
        !text::join(entries, seq!['\n']).contains('\0'),
    decreases entries.len(),
{
    let t = text::join(entries, seq!['\n']);
    if entries.len() > 0 {
        let head = entries.drop_last();
        assert forall|i: int| 0 <= i < head.len() implies !(#[trigger] head[i]).contains('\0') by {
            assert(!entries[i].contains('\0'));
        }
        lemma_join_no_nul(head);
        let h = text::join(head, seq!['\n']);
        let last = entries[entries.len() - 1];
        assert(!last.contains('\0'));
        assert forall|i: int| 0 <= i < t.len() implies t[i] != '\0' by {
            if entries.len() == 1 {
                assert(last.contains(last[i]));
            } else if i < h.len() {
                assert(h.contains(h[i]));
            } else if i > h.len() {
                assert(last.contains(last[i - h.len() - 1]));
            }
        }
    }
}

/// One more boot puts its entry in front of the log in storage.
proof fn lemma_one_boot(s: Boots, entries: Seq<Seq<char>>, reason: ResetReason)
    requires
        holds(s.log, entries),
    ensures
        booted(s, reason).count == next_count(s.count),
        holds(booted(s, reason).log, rolled(entry(next_count(s.count), reason), entries)),
{
    let n = next_count(s.count);
    let new = entry(n, reason);
    let r = rolled(new, entries);
    law_log_rolls(entries, n, reason);
    law_entry_is_line(n, reason);
    assert forall|i: int| 0 <= i < r.len() implies text::is_line(#[trigger] r[i])
        && !r[i].contains('\0') by {
        if i > 0 {
            assert(r[i] == entries[i - 1]);
        }
    }
    lemma_join_no_nul(r);
    text::law_stored_reads_back(text::join(r, seq!['\n']));
}

/// Over any number of boots the log in storage holds at most ten lines, newest first: those of the
/// newest boots, and behind them what it held before. Their numbers count up by one from boot to
/// boot, until the counter is at its largest value, where it stays.
pub proof fn law_log_over_boots(
    s: Boots,
    entries: Seq<Seq<char>>,
    reasons: Seq<ResetReason>,
)
    requires
        holds(s.log, entries),
    ensures
        ({
            let t = booted_all(s, reasons);
            let all = first_ten(entries_of(s.count, reasons) + entries);
            &&& t.count == boot_number(s.count, reasons.len())
            &&& holds(t.log, all)
            &&& text::lines(stored_log(t.log)) == all
            &&& all.len() <= MAX_ENTRIES
        }),
    decreases reasons.len(),
{
    let all = first_ten(entries_of(s.count, reasons) + entries);
    if reasons.len() == 0 {
        assert(entries_of(s.count, reasons) + entries =~= entries);
    } else {
        let head = reasons.drop_last();
        let before = first_ten(entries_of(s.count, head) + entries);
        law_log_over_boots(s, entries, head);
        let m = booted_all(s, head);
        lemma_one_boot(m, before, reasons.last());
        let new = entry(next_count(m.count), reasons.last());
        assert(next_count(m.count) == boot_number(s.count, reasons.len()));
        let es = entries_of(s.count, reasons);
        assert(es =~= seq![new] + entries_of(s.count, head));
        assert(rolled(new, before) =~= all);
    }
    text::lemma_lines_join(all);
}

/// From the first boot on, the log holds the newest boots, at most ten, and boot number `k` has
/// number `k`.
pub proof fn law_log_from_first_boot(reasons: Seq<ResetReason>, i: int)
    requires
        reasons.len() <= u32::MAX,
        0 <= i < reasons.len(),
        i < MAX_ENTRIES,
    ensures
        ({
            let t = booted_all(Boots { count: 0, log: None }, reasons);
            let lines = text::lines(stored_log(t.log));
            &&& t.count == reasons.len()
            &&& lines.len() == if reasons.len() <= MAX_ENTRIES {
                reasons.len()
            } else {
                MAX_ENTRIES as nat
            }
            &&& lines[i] == entry((reasons.len() - i) as u32, reasons[reasons.len() - 1 - i])
        }),
{
    let none = Seq::<Seq<char>>::empty();
    assert(stored_log(None) =~= text::join(none, seq!['\n']));
    law_log_over_boots(Boots { count: 0, log: None }, none, reasons);
    let es = entries_of(0, reasons);
    assert(es + none =~= es);
}

/// The log never holds more than ten entries, newest first.
pub proof fn law_log_is_bounded(new: Seq<char>, existing: Seq<char>)
    ensures
        1 <= rolled(new, text::lines(existing)).len() <= MAX_ENTRIES,
        rolled(new, text::lines(existing))[0] == new,
{
}

/// The label of every reset reason.
pub proof fn law_labels()
    ensures
        label(ResetReason::PowerOn) == "PowerOn"@,
        label(ResetReason::External) == "ExtReset"@,
        label(ResetReason::Software) == "Software"@,
        label(ResetReason::Panic) == "Panic/Crash"@,
        label(ResetReason::InterruptWatchdog) == "IntWatchdog"@,
        label(ResetReason::TaskWatchdog) == "TaskWatchdog"@,
        label(ResetReason::Watchdog) == "Watchdog"@,
        label(ResetReason::DeepSleep) == "DeepSleep"@,
        label(ResetReason::Brownout) == "Brownout"@,
        label(ResetReason::Sdio) == "SDIO"@,
        label(ResetReason::Other) == "Unknown"@,
{
}

/// An entry is a number sign, the number of the boot in decimal, a space and the label of the
/// reason.
pub proof fn law_entry_reads(count: u32, reason: ResetReason)
    ensures
        ({
            let e = entry(count, reason);
            let n = e.len() - 2 - label(reason).len();
            &&& e[0] == '#'
            &&& n >= 1
            &&& text::only_decimal(e.subrange(1, 1 + n))
            &&& text::written_number(e.subrange(1, 1 + n), 10) == count
            &&& e[1 + n] == ' '
            &&& e.skip(2 + n) == label(reason)
        }),
{
    let e = entry(count, reason);
    let d = text::dec(count as nat);
    text::law_decimal_is_written(count as nat);
    assert(e.subrange(1, 1 + d.len() as int) =~= d);
    assert(e.skip(2 + d.len() as int) =~= label(reason));
}

/// The counter goes up by one with each boot and stays at its largest value; the new entry is the
/// first line of the log, and of the others the nine newest follow in order.
pub proof fn law_rolled(new: Seq<char>, entries: Seq<Seq<char>>, i: int, count: u32)
    requires
        0 <= i < entries.len(),
    ensures
        rolled(new, entries)[0] == new,
        i < 9 ==> rolled(new, entries)[1 + i] == entries[i],
        entries.len() <= 9 ==> rolled(new, entries).len() == 1 + entries.len(),
        entries.len() > 9 ==> rolled(new, entries).len() == 10,
        count < 0xffff_ffff ==> next_count(count) == count + 1,
        count == 0xffff_ffff ==> next_count(count) == count,
{
}

/// A log that was never stored, or is no text, is empty; any other is read as it was written.
pub proof fn law_stored_log(t: Seq<char>)
    requires
        !t.contains('\0'),
    ensures
        stored_log(None).len() == 0,
        stored_log(Some(text::written(t))) == t,
{
    text::law_stored_reads_back(t);
}

/// A boot is counted one up, reported and stored under that number with the label of its reason;
/// where storage cannot be opened, it has number 0 and nothing is stored.
pub proof fn law_boot_is_counted(r: BootRecord, reason: ResetReason, count: u32, raw: Option<Vec<u8>>)
    ensures
        r.is_for(reason, None) ==> r.count == 0 && r.write_count is None && r.write_log is None
            && r.reason@ == label(reason),
        r.is_for(reason, Some((count, raw))) && count < 0xffff_ffff ==> r.count == count + 1
            && r.write_count == Some((count + 1) as u32) && r.reason@ == label(reason),
        r.is_for(reason, Some((0xffff_ffff, raw))) ==> r.count == 0xffff_ffff && r.write_count == Some(
            0xffff_ffffu32,
        ),
        r.is_for(reason, Some((count, None))) && count < 0xffff_ffff ==> r.write_log is Some
            && (r.write_log->0)@ == entry((count + 1) as u32, reason),
{
    if r.is_for(reason, Some((count, None))) && count < 0xffff_ffff {
        let new = entry((count + 1) as u32, reason);
        law_entry_is_line((count + 1) as u32, reason);
        let none = Seq::<Seq<char>>::empty();
        text::lemma_lines_join(none);
        assert(text::join(none, seq!['\n']) =~= Seq::<char>::empty());
        assert(rolled(new, none) =~= seq![new]);
        assert(prepended(new, Seq::empty()) == new);
    }
}

} // verus!
