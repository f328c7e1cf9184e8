//! Text and number helpers shared by the other modules.

use vstd::prelude::*;
use vstd::string::*;
use vstd::utf8::*;

verus! {

/// `String::push` appends one character to the end of the text.
pub assume_specification[ String::push ](s: &mut String, c: char)
    ensures
        final(s)@ == old(s)@.push(c),
;

/// What `String::from_utf8_lossy` makes of `bytes`.
pub uninterp spec fn lossy(bytes: Seq<u8>) -> Seq<char>;

/// `String::from_utf8_lossy`: valid UTF-8 is decoded as it stands. What stands in for invalid
/// parts is left to the named result.
#[verifier::external_body]
pub(crate) fn lossy_text(bytes: &[u8]) -> (s: String)
    ensures
        s@ == lossy(bytes@),
        valid_utf8(bytes@) ==> s@ == decode_utf8(bytes@),
{
    String::from_utf8_lossy(bytes).into_owned()
}

/// `String::from_utf8`: a text if and only if the bytes are valid UTF-8, and then the decoded
/// characters.
#[verifier::external_body]
pub(crate) fn utf8_text(bytes: Vec<u8>) -> (s: Option<String>)
    ensures
        s is Some <==> valid_utf8(bytes@),
        s matches Some(t) ==> t@ == decode_utf8(bytes@),
{
    String::from_utf8(bytes).ok()
}

/// The texts of a list, each as its characters.
pub open spec fn views(v: Seq<String>) -> Seq<Seq<char>> {
    v.map_values(|s: String| s@)
}

/// The pieces of `s` between occurrences of `sep`; always at least one piece.
pub open spec fn split_on<T>(s: Seq<T>, sep: T) -> Seq<Seq<T>>
    decreases s.len(),
{
    if s.len() == 0 {
        seq![Seq::<T>::empty()]
    } else {
        let head = split_on(s.drop_last(), sep);
        if s.last() == sep {
            head.push(Seq::<T>::empty())
        } else {
            head.drop_last().push(head.last().push(s.last()))
        }
    }
}

/// `parts` written one after another with `sep` between neighbours.
pub open spec fn join(parts: Seq<Seq<char>>, sep: Seq<char>) -> Seq<char>
    decreases parts.len(),
{
    if parts.len() == 0 {
        Seq::empty()
    } else if parts.len() == 1 {
        parts[0]
    } else {
        join(parts.drop_last(), sep) + sep + parts.last()
    }
}

/// One decimal digit.
pub open spec fn digit(d: int) -> char {
    (48 + d) as char
}

/// The decimal digits of `n`, without leading zeros.
pub open spec fn dec(n: nat) -> Seq<char>
    decreases n,
{
    if n < 10 {
        seq![digit(n as int)]
    } else {
        dec(n / 10).push(digit((n % 10) as int))
    }
}

/// The decimal digits of `n`, with a leading minus sign where it is negative.
pub open spec fn dec_int(n: int) -> Seq<char> {
    if n < 0 {
        seq!['-'] + dec((-n) as nat)
    } else {
        dec(n as nat)
    }
}

/// One hexadecimal digit, `0`-`9` then `a`-`f`.
pub open spec fn hex_lower(d: int) -> char {
    if d < 10 {
        (48 + d) as char
    } else {
        (87 + d) as char
    }
}

/// One hexadecimal digit, `0`-`9` then `A`-`F`.
pub open spec fn hex_upper(d: int) -> char {
    if d < 10 {
        (48 + d) as char
    } else {
        (55 + d) as char
    }
}

/// The lower-case hexadecimal digits of `n`, without leading zeros.
pub open spec fn hex(n: nat) -> Seq<char>
    decreases n,
{
    if n < 16 {
        seq![hex_lower(n as int)]
    } else {
        hex(n / 16).push(hex_lower((n % 16) as int))
    }
}

/// The four upper-case hexadecimal digits of a 16-bit number.
pub open spec fn hex4(n: u16) -> Seq<char> {
    seq![
        hex_upper(n as int / 4096),
        hex_upper(n as int / 256 % 16),
        hex_upper(n as int / 16 % 16),
        hex_upper(n as int % 16),
    ]
}

/// The eight lower-case hexadecimal digits of a 32-bit number.
pub open spec fn hex8(n: u32) -> Seq<char> {
    seq![
        hex_lower(n as int / 0x1000_0000),
        hex_lower(n as int / 0x100_0000 % 16),
        hex_lower(n as int / 0x10_0000 % 16),
        hex_lower(n as int / 0x1_0000 % 16),
        hex_lower(n as int / 4096 % 16),
        hex_lower(n as int / 256 % 16),
        hex_lower(n as int / 16 % 16),
        hex_lower(n as int % 16),
    ]
}

/// Whether `c` is one of `0`-`9`.
pub open spec fn is_digit(c: char) -> bool {
    '0' <= c <= '9'
}

/// Whether every character is a decimal digit.
pub open spec fn all_digits(s: Seq<char>) -> bool {
    forall|i: int| 0 <= i < s.len() ==> is_digit(#[trigger] s[i])
}

/// The number that the decimal digits of `s` write.
pub open spec fn dec_value(s: Seq<char>) -> nat
    decreases s.len(),
{
    if s.len() == 0 {
        0
    } else {
        dec_value(s.drop_last()) * 10 + (s.last() as nat - 48) as nat
    }
}

/// The number up to `max` that `s` writes in decimal: one digit or more behind an optional `+`.
pub open spec fn parse_dec(s: Seq<char>, max: nat) -> Option<nat> {
    let digits = if s.len() > 1 && s[0] == '+' {
        s.drop_first()
    } else {
        s
    };
    if digits.len() > 0 && all_digits(digits) && dec_value(digits) <= max {
        Some(dec_value(digits))
    } else {
        None
    }
}

/// The 32-bit signed number that `s` writes in decimal, behind an optional sign.
pub open spec fn parse_dec_i32(s: Seq<char>) -> Option<int> {
    if s.len() > 1 && s[0] == '-' {
        let digits = s.drop_first();
        if all_digits(digits) && dec_value(digits) <= 0x8000_0000 {
            Some(-(dec_value(digits) as int))
        } else {
            None
        }
    } else {
        match parse_dec(s, 0x7fff_ffff) {
            Some(n) => Some(n as int),
            None => None,
        }
    }
}

/// The first position at or after `from` that holds `c`.
pub open spec fn find_from(s: Seq<char>, c: char, from: int) -> Option<int>
    decreases s.len() - from,
{
    if from < 0 || from >= s.len() {
        None
    } else if s[from] == c {
        Some(from)
    } else {
        find_from(s, c, from + 1)
    }
}

/// Whether `pat` stands in `s` at position `at`.
pub open spec fn stands_at(s: Seq<char>, pat: Seq<char>, at: int) -> bool {
    0 <= at && at + pat.len() <= s.len() && s.subrange(at, at + pat.len()) == pat
}

/// The first position at or after `from` at which `pat` stands in `s`.
pub open spec fn find_text_from(s: Seq<char>, pat: Seq<char>, from: int) -> Option<int>
    decreases s.len() - from + 1,
{
    if from < 0 || from > s.len() {
        None
    } else if stands_at(s, pat, from) {
        Some(from)
    } else {
        find_text_from(s, pat, from + 1)
    }
}

/// Whether `c` has the Unicode property White_Space.
pub open spec fn white_space(c: char) -> bool {
    ||| '\u{9}' <= c <= '\u{d}'
    ||| c == '\u{20}'
    ||| c == '\u{85}'
    ||| c == '\u{a0}'
    ||| c == '\u{1680}'
    ||| '\u{2000}' <= c <= '\u{200a}'
    ||| c == '\u{2028}'
    ||| c == '\u{2029}'
    ||| c == '\u{202f}'
    ||| c == '\u{205f}'
    ||| c == '\u{3000}'
}

/// `s` without leading white space.
pub open spec fn trim_start(s: Seq<char>) -> Seq<char>
    decreases s.len(),
{
    if s.len() > 0 && white_space(s[0]) {
        trim_start(s.drop_first())
    } else {
        s
    }
}

/// `s` without trailing white space.
pub open spec fn trim_end(s: Seq<char>) -> Seq<char>
    decreases s.len(),
{
    if s.len() > 0 && white_space(s.last()) {
        trim_end(s.drop_last())
    } else {
        s
    }
}

/// The lines of `s`: what stands between line feeds, without the carriage return before a line
/// feed; an empty rest behind the last line feed is no line.
pub open spec fn lines(s: Seq<char>) -> Seq<Seq<char>> {
    let parts = split_on(s, '\n');
    let ended = parts.drop_last().map_values(|p: Seq<char>| chomp(p));
    if parts.last().len() == 0 {
        ended
    } else {
        ended.push(parts.last())
    }
}

/// `p` without one carriage return at its end.
pub open spec fn chomp(p: Seq<char>) -> Seq<char> {
    if p.len() > 0 && p.last() == '\r' {
        p.drop_last()
    } else {
        p
    }
}

/// The characters of `s`, in order.
pub fn chars_of(s: &str) -> (r: Vec<char>)
    ensures
        r@ == s@,
{
    let mut out: Vec<char> = Vec::new();
    for c in it: s.chars()
        invariant
            out@ == it.seq().take(it.index() as int),
            it.seq() == s@,
    {
        out.push(c);
    }
    out
}

/// The text made of the characters `cs[from..to]`.
pub fn text_of(cs: &[char], from: usize, to: usize) -> (r: String)
    requires
        from <= to <= cs@.len(),
    ensures
        r@ == cs@.subrange(from as int, to as int),
{
    let mut out = String::new();
    let mut i: usize = from;
    while i < to
        invariant
            from <= i <= to <= cs@.len(),
            out@ == cs@.subrange(from as int, i as int),
        decreases to - i,
    {
        out.push(cs[i]);
        i = i + 1;
    }
    out
}

/// Whether two texts are the same.
pub fn same(a: &str, b: &str) -> (r: bool)
    ensures
        r == (a@ == b@),
{
    a.to_owned() == b.to_owned()
}

/// The pieces of `s` between occurrences of `sep`.
pub fn split_text(s: &str, sep: char) -> (r: Vec<String>)
    ensures
        views(r@) == split_on(s@, sep),
        r@.len() >= 1,
{
    let mut out: Vec<String> = Vec::new();
    let mut cur = String::new();
    proof {
        assert(views(out@).push(cur@) =~= split_on(s@.take(0), sep));
    }
    for c in it: s.chars()
        invariant
            views(out@).push(cur@) == split_on(s@.take(it.index() as int), sep),
            it.seq() == s@,
    {
        let ghost i = it.index() as int;
        let ghost before = views(out@).push(cur@);
        proof {
            assert(s@.take(i + 1).drop_last() =~= s@.take(i));
            assert(before.drop_last() =~= views(out@));
        }
        if c == sep {
            out.push(cur);
            cur = String::new();
            proof {
                assert(views(out@) =~= before);
            }
        } else {
            cur.push(c);
        }
    }
    out.push(cur);
    proof {
        assert(s@.take(s@.len() as int) =~= s@);
        assert(views(out@) =~= split_on(s@, sep));
    }
    out
}

/// `p` without one carriage return at its end.
fn chomp_text(p: &str) -> (r: String)
    ensures
        r@ == chomp(p@),
{
    let cs = chars_of(p);
    let n: usize = cs.len();
    if n > 0 && cs[n - 1] == '\r' {
        let r = text_of(cs.as_slice(), 0, n - 1);
        proof {
            assert(r@ =~= p@.drop_last());
        }
        r
    } else {
        p.to_owned()
    }
}

/// The lines of `s`.
pub fn lines_of(s: &str) -> (r: Vec<String>)
    ensures
        views(r@) == lines(s@),
{
    let parts = split_text(s, '\n');
    let n: usize = parts.len();
    let mut out: Vec<String> = Vec::new();
    let mut i: usize = 0;
    let ghost all = split_on(s@, '\n');
    while i < n - 1
        invariant
            1 <= n == parts@.len(),
            i <= n - 1,
            views(parts@) == all,
            all == split_on(s@, '\n'),
            views(out@) == all.take(i as int).map_values(|p: Seq<char>| chomp(p)),
        decreases n - i,
    {
        let p = chomp_text(parts[i].as_str());
        let ghost before = views(out@);
        out.push(p);
        proof {
            assert(views(parts@)[i as int] == parts@[i as int]@);
            assert(views(out@) =~= before.push(p@));
            assert(all.take(i + 1).map_values(|p: Seq<char>| chomp(p)) =~= before.push(p@));
        }
        i = i + 1;
    }
    proof {
        assert(all.drop_last() =~= all.take(n - 1));
        assert(views(parts@)[n - 1] == parts@[n - 1]@);
    }
    if !parts[n - 1].as_str().is_empty() {
        let ghost before = views(out@);
        out.push(parts[n - 1].clone());
        proof {
            assert(views(out@) =~= before.push(all.last()));
        }
    }
    out
}

/// The texts of `parts` with `sep` between neighbours.
pub fn join_text(parts: &Vec<String>, sep: &str) -> (r: String)
    ensures
        r@ == join(views(parts@), sep@),
{
    let mut out = String::new();
    let mut i: usize = 0;
    while i < parts.len()
        invariant
            i <= parts@.len(),
            out@ == join(views(parts@).take(i as int), sep@),
        decreases parts@.len() - i,
    {
        proof {
            assert(views(parts@).take(i + 1).drop_last() =~= views(parts@).take(i as int));
            assert(views(parts@)[i as int] == parts@[i as int]@);
        }
        if i > 0 {
            out.append(sep);
        }
        out.append(parts[i].as_str());
        proof {
            assert(out@ =~= join(views(parts@).take(i + 1), sep@));
        }
        i = i + 1;
    }
    proof {
        assert(views(parts@).take(parts@.len() as int) =~= views(parts@));
    }
    out
}

/// Appends the decimal digits of `n`.
pub fn push_dec(out: &mut String, n: u64)
    ensures
        final(out)@ == old(out)@ + dec(n as nat),
    decreases n,
{
    if n < 10 {
        out.push((48u8 + n as u8) as char);
        proof {
            assert(out@ =~= old(out)@ + dec(n as nat));
        }
    } else {
        push_dec(out, n / 10);
        out.push((48u8 + (n % 10) as u8) as char);
        proof {
            assert(out@ =~= old(out)@ + dec(n as nat));
        }
    }
}

/// Appends `n` in decimal, with a minus sign where it is negative.
pub fn push_int(out: &mut String, n: i32)
    ensures
        final(out)@ == old(out)@ + dec_int(n as int),
{
    if n < 0 {
        out.push('-');
        push_dec(out, (-(n as i64)) as u64);
        proof {
            assert(out@ =~= old(out)@ + dec_int(n as int));
        }
    } else {
        push_dec(out, n as u64);
    }
}

/// `n` in decimal.
pub fn dec_text(n: u64) -> (r: String)
    ensures
        r@ == dec(n as nat),
{
    let mut out = String::new();
    push_dec(&mut out, n);
    proof {
        assert(out@ =~= dec(n as nat));
    }
    out
}

fn upper_digit(d: u8) -> (c: char)
    requires
        d < 16,
    ensures
        c == hex_upper(d as int),
{
    if d < 10 {
        (48u8 + d) as char
    } else {
        (55u8 + d) as char
    }
}

fn lower_digit(d: u8) -> (c: char)
    requires
        d < 16,
    ensures
        c == hex_lower(d as int),
{
    if d < 10 {
        (48u8 + d) as char
    } else {
        (87u8 + d) as char
    }
}

/// Appends the lower-case hexadecimal digits of `n`.
pub fn push_hex(out: &mut String, n: u32)
    ensures
        final(out)@ == old(out)@ + hex(n as nat),
    decreases n,
{
    if n >= 16 {
        push_hex(out, n / 16);
    }
    out.push(lower_digit((n % 16) as u8));
    proof {
        assert(out@ =~= old(out)@ + hex(n as nat));
    }
}

/// Appends the four upper-case hexadecimal digits of `n`.
pub fn push_hex4(out: &mut String, n: u16)
    ensures
        final(out)@ == old(out)@ + hex4(n),
{
    out.push(upper_digit((n / 4096) as u8));
    out.push(upper_digit((n / 256 % 16) as u8));
    out.push(upper_digit((n / 16 % 16) as u8));
    out.push(upper_digit((n % 16) as u8));
    proof {
        assert(out@ =~= old(out)@ + hex4(n));
    }
}

/// Appends the eight lower-case hexadecimal digits of `n`.
pub fn push_hex8(out: &mut String, n: u32)
    ensures
        final(out)@ == old(out)@ + hex8(n),
{
    out.push(lower_digit((n / 0x1000_0000) as u8));
    out.push(lower_digit((n / 0x100_0000 % 16) as u8));
    out.push(lower_digit((n / 0x10_0000 % 16) as u8));
    out.push(lower_digit((n / 0x1_0000 % 16) as u8));
    out.push(lower_digit((n / 4096 % 16) as u8));
    out.push(lower_digit((n / 256 % 16) as u8));
    out.push(lower_digit((n / 16 % 16) as u8));
    out.push(lower_digit((n % 16) as u8));
    proof {
        assert(out@ =~= old(out)@ + hex8(n));
    }
}

/// A longer run of digits writes no smaller number.
proof fn lemma_dec_value_grows(s: Seq<char>, k: int)
    requires
        0 <= k <= s.len(),
        all_digits(s),
    ensures
        dec_value(s.take(k)) <= dec_value(s),
    decreases s.len() - k,
{
    if k < s.len() {
        assert(s.take(k + 1).drop_last() =~= s.take(k));
        assert(is_digit(s[k]));
        lemma_dec_value_grows(s, k + 1);
    } else {
        assert(s.take(k) =~= s);
    }
}

/// The number up to `max` that the digits `cs[from..]` write; none where one of them is no digit.
fn digits_value(cs: &[char], from: usize, max: u64) -> (r: Option<u64>)
    requires
        from <= cs@.len(),
    ensures
        ({
            let d = cs@.skip(from as int);
            r == if all_digits(d) && dec_value(d) <= max {
                Some(dec_value(d) as u64)
            } else {
                None
            }
        }),
{
    let ghost d = cs@.skip(from as int);
    let mut v: u64 = 0;
    let mut i: usize = from;
    while i < cs.len()
        invariant
            from <= i <= cs@.len(),
            d == cs@.skip(from as int),
            all_digits(d.take(i - from)),
            v == dec_value(d.take(i - from)),
            v <= max,
        decreases cs@.len() - i,
    {
        let c = cs[i];
        proof {
            assert(d[i - from] == c);
            assert(d.take(i - from + 1).drop_last() =~= d.take(i - from));
        }
        if !(c >= '0' && c <= '9') {
            return None;
        }
        let x: u64 = c as u64 - 48;
        if max < x || v > max / 10 || v * 10 > max - x {
            proof {
                if all_digits(d) {
                    lemma_dec_value_grows(d, i - from + 1);
                }
            }
            return None;
        }
        v = v * 10 + x;
        proof {
            assert forall|k: int| 0 <= k < i - from + 1 implies is_digit(
                #[trigger] d.take(i - from + 1)[k],
            ) by {
                if k < i - from {
                    assert(is_digit(d.take(i - from)[k]));
                }
            }
        }
        i = i + 1;
    }
    proof {
        assert(d.take(i - from) =~= d);
    }
    Some(v)
}

/// The number up to `max` that `s` writes in decimal behind an optional `+`.
pub fn parse_number(s: &str, max: u64) -> (r: Option<u64>)
    ensures
        r is Some <==> parse_dec(s@, max as nat) is Some,
        r matches Some(n) ==> parse_dec(s@, max as nat) == Some(n as nat),
{
    let cs = chars_of(s);
    if cs.len() > 1 && cs[0] == '+' {
        proof {
            assert(s@.skip(1) =~= s@.drop_first());
        }
        digits_value(cs.as_slice(), 1, max)
    } else if cs.len() > 0 {
        proof {
            assert(s@.skip(0) =~= s@);
        }
        digits_value(cs.as_slice(), 0, max)
    } else {
        None
    }
}

/// The 32-bit signed number that `s` writes in decimal behind an optional sign.
pub fn parse_i32(s: &str) -> (r: Option<i32>)
    ensures
        r is Some <==> parse_dec_i32(s@) is Some,
        r matches Some(n) ==> parse_dec_i32(s@) == Some(n as int),
{
    let cs = chars_of(s);
    if cs.len() > 1 && cs[0] == '-' {
        proof {
            assert(s@.skip(1) =~= s@.drop_first());
        }
        match digits_value(cs.as_slice(), 1, 0x8000_0000) {
            Some(n) => Some((-(n as i64)) as i32),
            None => None,
        }
    } else {
        match parse_number(s, 0x7fff_ffff) {
            Some(n) => Some(n as i32),
            None => None,
        }
    }
}

/// Facts about where `find_from` stops.
pub proof fn lemma_find_from(s: Seq<char>, c: char, from: int)
    requires
        0 <= from <= s.len(),
    ensures
        match find_from(s, c, from) {
            Some(i) => from <= i < s.len() && s[i] == c && forall|k: int|
                from <= k < i ==> s[k] != c,
            None => forall|k: int| from <= k < s.len() ==> s[k] != c,
        },
    decreases s.len() - from,
{
    if from < s.len() && s[from] != c {
        lemma_find_from(s, c, from + 1);
    }
}

/// The first position at or after `from` that holds `c`.
pub fn find_char(cs: &[char], c: char, from: usize) -> (r: Option<usize>)
    requires
        from <= cs@.len(),
    ensures
        r is Some <==> find_from(cs@, c, from as int) is Some,
        r matches Some(i) ==> find_from(cs@, c, from as int) == Some(i as int) && from <= i
            < cs@.len(),
{
    let mut i: usize = from;
    while i < cs.len()
        invariant
            from <= i <= cs@.len(),
            find_from(cs@, c, from as int) == find_from(cs@, c, i as int),
        decreases cs@.len() - i,
    {
        if cs[i] == c {
            return Some(i);
        }
        i = i + 1;
    }
    None
}

/// Whether `pat` stands in `cs` at position `at`.
pub fn text_stands_at(cs: &[char], pat: &[char], at: usize) -> (r: bool)
    requires
        at <= cs@.len(),
    ensures
        r == stands_at(cs@, pat@, at as int),
{
    let n: usize = cs.len();
    if n - at < pat.len() {
        return false;
    }
    let mut i: usize = 0;
    while i < pat.len()
        invariant
            i <= pat@.len(),
            at + pat@.len() <= cs@.len() == n,
            cs@.subrange(at as int, at + i) == pat@.take(i as int),
        decreases pat@.len() - i,
    {
        if cs[at + i] != pat[i] {
            proof {
                let whole = cs@.subrange(at as int, at + pat@.len());
                assert(whole[i as int] != pat@[i as int]);
            }
            return false;
        }
        proof {
            assert(cs@.subrange(at as int, at + i + 1) =~= pat@.take(i + 1));
        }
        i = i + 1;
    }
    proof {
        assert(pat@.take(pat@.len() as int) =~= pat@);
    }
    true
}

/// The first position at or after `from` at which `pat` stands in `cs`.
pub fn find_text(cs: &[char], pat: &[char], from: usize) -> (r: Option<usize>)
    requires
        from <= cs@.len(),
    ensures
        r is Some <==> find_text_from(cs@, pat@, from as int) is Some,
        r matches Some(i) ==> find_text_from(cs@, pat@, from as int) == Some(i as int) && i
            + pat@.len() <= cs@.len(),
{
    let mut i: usize = from;
    loop
        invariant
            from <= i <= cs@.len(),
            find_text_from(cs@, pat@, from as int) == find_text_from(cs@, pat@, i as int),
        decreases cs@.len() - i,
    {
        if text_stands_at(cs, pat, i) {
            return Some(i);
        }
        if i == cs.len() {
            proof {
                assert(find_text_from(cs@, pat@, i + 1) is None);
            }
            return None;
        }
        i = i + 1;
    }
}

/// Whether `c` has the Unicode property White_Space.
pub fn is_white_space(c: char) -> (r: bool)
    ensures
        r == white_space(c),
{
    (c >= '\u{9}' && c <= '\u{d}') || c == '\u{20}' || c == '\u{85}' || c == '\u{a0}' || c
        == '\u{1680}' || (c >= '\u{2000}' && c <= '\u{200a}') || c == '\u{2028}' || c == '\u{2029}'
        || c == '\u{202f}' || c == '\u{205f}' || c == '\u{3000}'
}

/// `s` without leading and trailing white space.
pub fn trim_text(s: &str) -> (r: String)
    ensures
        r@ == trim_end(trim_start(s@)),
{
    let cs = chars_of(s);
    let mut a: usize = 0;
    let n: usize = cs.len();
    proof {
        assert(s@.skip(0) =~= s@);
    }
    while a < n && is_white_space(cs[a])
        invariant
            a <= n == cs@.len(),
            cs@ == s@,
            trim_start(s@) == trim_start(s@.skip(a as int)),
        decreases n - a,
    {
        proof {
            assert(s@.skip(a as int).drop_first() =~= s@.skip(a + 1));
        }
        a = a + 1;
    }
    let ghost t = s@.skip(a as int);
    let mut b: usize = n;
    proof {
        assert(t =~= s@.subrange(a as int, b as int));
    }
    while b > a && is_white_space(cs[b - 1])
        invariant
            a <= b <= n == cs@.len(),
            cs@ == s@,
            trim_end(t) == trim_end(s@.subrange(a as int, b as int)),
        decreases b,
    {
        proof {
            assert(s@.subrange(a as int, b as int).drop_last() =~= s@.subrange(a as int, b - 1));
        }
        b = b - 1;
    }
    text_of(cs.as_slice(), a, b)
}

/// Whether `s` holds a NUL character, which a C string cannot.
pub fn has_nul(s: &str) -> (r: bool)
    ensures
        r == s@.contains('\0'),
{
    for c in it: s.chars()
        invariant
            it.seq() == s@,
            forall|i: int| 0 <= i < it.index() ==> s@[i] != '\0',
    {
        if c == '\0' {
            proof {
                assert(s@[it.index() as int] == c);
            }
            return true;
        }
    }
    false
}

/// Bytes without the zero bytes at their end.
pub open spec fn strip_zeros(b: Seq<u8>) -> Seq<u8>
    decreases b.len(),
{
    if b.len() > 0 && b.last() == 0 {
        strip_zeros(b.drop_last())
    } else {
        b
    }
}

/// The text that bytes from storage hold: UTF-8 behind which zero bytes may stand.
pub open spec fn stored(b: Seq<u8>) -> Option<Seq<char>> {
    if valid_utf8(strip_zeros(b)) {
        Some(decode_utf8(strip_zeros(b)))
    } else {
        None
    }
}

/// What storage gives back of a text that was written to it: its UTF-8, with a zero byte behind.
pub open spec fn written(t: Seq<char>) -> Seq<u8> {
    encode_utf8(t).push(0)
}

/// The last byte of an encoded text is zero only if its last character is.
proof fn lemma_encoded_last(t: Seq<char>)
    requires
        t.len() > 0,
        t.last() != '\0',
    ensures
        encode_utf8(t).len() > 0,
        encode_utf8(t).last() != 0,
    decreases t.len(),
{
    let c = t[0] as u32;
    let e = encode_scalar(c);
    let rest = encode_utf8(t.drop_first());
    assert(e.len() > 0);
    if t.len() == 1 {
        assert(t.drop_first() =~= Seq::<char>::empty());
        assert(rest =~= Seq::<u8>::empty());
        assert(e + rest =~= e);
        assert(t[0] != '\0');
        char_is_scalar(t[0]);
        char_u32_cast(t[0], c);
        assert(c != 0);
        assert(c <= 0x7f && c != 0 ==> (c & 0x7F) as u8 != 0) by (bit_vector);
        let low = (c & 0x3F) as u8;
        assert(0x80 | low != 0) by (bit_vector);
    } else {
        assert(t.drop_first().last() == t.last());
        lemma_encoded_last(t.drop_first());
        assert((e + rest).last() == rest.last());
    }
}

/// A text without a NUL is read back from storage as it was written.
pub proof fn law_stored_reads_back(t: Seq<char>)
    requires
        !t.contains('\0'),
    ensures
        stored(written(t)) == Some(t),
{
    let b = encode_utf8(t);
    assert(written(t).drop_last() =~= b);
    reveal_with_fuel(strip_zeros, 2);
    if t.len() > 0 {
        assert(t.contains(t[t.len() - 1]));
        lemma_encoded_last(t);
    } else {
        assert(b =~= Seq::<u8>::empty());
    }
    assert(strip_zeros(written(t)) == b);
    encode_utf8_valid_utf8(t);
    encode_utf8_decode_utf8(t);
}

/// The text that bytes from storage hold.
pub fn stored_text(bytes: &[u8]) -> (r: Option<String>)
    ensures
        r is Some <==> stored(bytes@) is Some,
        r matches Some(t) ==> stored(bytes@) == Some(t@),
{
    let mut n: usize = bytes.len();
    proof {
        assert(bytes@.take(n as int) =~= bytes@);
    }
    while n > 0 && bytes[n - 1] == 0
        invariant
            n <= bytes@.len(),
            strip_zeros(bytes@) == strip_zeros(bytes@.take(n as int)),
        decreases n,
    {
        proof {
            assert(bytes@.take(n as int).drop_last() =~= bytes@.take(n - 1));
        }
        n = n - 1;
    }
    let mut kept: Vec<u8> = Vec::new();
    let mut i: usize = 0;
    while i < n
        invariant
            i <= n <= bytes@.len(),
            kept@ == bytes@.take(i as int),
        decreases n - i,
    {
        kept.push(bytes[i]);
        i = i + 1;
    }
    utf8_text(kept)
}

/// Splitting always gives a piece.
pub proof fn lemma_split_nonempty<T>(s: Seq<T>, sep: T)
    ensures
        split_on(s, sep).len() > 0,
    decreases s.len(),
{
    if s.len() > 0 {
        lemma_split_nonempty(s.drop_last(), sep);
    }
}

/// Text without a separator extends the last piece.
pub proof fn lemma_split_extend<T>(s: Seq<T>, t: Seq<T>, sep: T)
    requires
        !t.contains(sep),
    ensures
        split_on(s + t, sep) == split_on(s, sep).drop_last().push(split_on(s, sep).last() + t),
    decreases t.len(),
{
    lemma_split_nonempty(s, sep);
    let old_parts = split_on(s, sep);
    if t.len() == 0 {
        assert(s + t =~= s);
        assert(old_parts.last() + t =~= old_parts.last());
        assert(old_parts.drop_last().push(old_parts.last()) =~= old_parts);
    } else {
        let u = t.drop_last();
        assert(!u.contains(sep)) by {
            if u.contains(sep) {
                let k = choose|k: int| 0 <= k < u.len() && u[k] == sep;
                assert(t[k] == sep);
            }
        }
        lemma_split_extend(s, u, sep);
        assert((s + t).drop_last() =~= s + u);
        assert(t.last() != sep) by {
            if t.last() == sep {
                assert(t[t.len() - 1] == sep);
            }
        }
        let mid = split_on(s + u, sep);
        assert(mid.drop_last() =~= old_parts.drop_last());
        assert((old_parts.last() + u).push(t.last()) =~= old_parts.last() + t);
    }
}

/// Splitting at a separator undoes joining with it, for parts that do not hold it.
pub proof fn lemma_split_join(parts: Seq<Seq<char>>, sep: char)
    requires
        parts.len() > 0,
        forall|i: int| 0 <= i < parts.len() ==> !(#[trigger] parts[i]).contains(sep),
    ensures
        split_on(join(parts, seq![sep]), sep) == parts,
    decreases parts.len(),
{
    let empty = Seq::<char>::empty();
    if parts.len() == 1 {
        lemma_split_extend(empty, parts[0], sep);
        assert(empty + parts[0] =~= parts[0]);
        assert(split_on(empty, sep).drop_last().push(parts[0]) =~= parts);
    } else {
        let head = parts.drop_last();
        lemma_split_join(head, sep);
        let s = join(head, seq![sep]);
        let t = s + seq![sep];
        assert(t.drop_last() =~= s);
        assert(split_on(t, sep) == head.push(empty));
        lemma_split_extend(t, parts.last(), sep);
        assert(empty + parts.last() =~= parts.last());
        assert(head.push(empty).drop_last() =~= head);
        assert(head.push(parts.last()) =~= parts);
    }
}

/// Whether `s` can stand on a line of its own: not empty, no line feed or carriage return in it.
pub open spec fn is_line(s: Seq<char>) -> bool {
    s.len() > 0 && !s.contains('\n') && !s.contains('\r')
}

/// The lines of joined lines are these lines.
pub proof fn lemma_lines_join(parts: Seq<Seq<char>>)
    requires
        forall|i: int| 0 <= i < parts.len() ==> is_line(#[trigger] parts[i]),
    ensures
        lines(join(parts, seq!['\n'])) == parts,
{
    if parts.len() == 0 {
        assert(lines(Seq::<char>::empty()) =~= parts);
    } else {
        lemma_split_join(parts, '\n');
        assert(is_line(parts[parts.len() - 1]));
        let ended = parts.drop_last().map_values(|p: Seq<char>| chomp(p));
        assert forall|i: int| 0 <= i < ended.len() implies ended[i] == parts[i] by {
            assert(is_line(parts[i]));
            if parts[i].last() == '\r' {
                assert(parts[i].contains('\r'));
            }
        }
        assert(ended.push(parts.last()) =~= parts);
    }
}

/// The value of a digit in a base of up to sixteen; -1 for any other character.
pub open spec fn digit_value(c: char) -> int {
    if '0' <= c <= '9' {
        c as int - '0' as int
    } else if 'a' <= c <= 'f' {
        c as int - 'a' as int + 10
    } else if 'A' <= c <= 'F' {
        c as int - 'A' as int + 10
    } else {
        -1
    }
}

/// The number that digits write in a base, the highest first.
pub open spec fn written_number(s: Seq<char>, base: int) -> int
    decreases s.len(),
{
    if s.len() == 0 {
        0
    } else {
        written_number(s.drop_last(), base) * base + digit_value(s.last())
    }
}

/// Whether there are decimal digits only.
pub open spec fn only_decimal(s: Seq<char>) -> bool {
    forall|i: int| 0 <= i < s.len() ==> '0' <= #[trigger] s[i] <= '9'
}

/// A number in decimal is written with decimal digits that write it, and begins with a zero only if
/// it is zero.
pub proof fn law_decimal_is_written(n: nat)
    ensures
        dec(n).len() > 0,
        only_decimal(dec(n)),
        written_number(dec(n), 10) == n,
        dec(n)[0] == '0' ==> n == 0 && dec(n).len() == 1,
    decreases n,
{
    reveal_with_fuel(written_number, 2);
    let d = dec(n);
    if n >= 10 {
        law_decimal_is_written(n / 10);
        assert(d.drop_last() =~= dec(n / 10));
        assert(d[0] == dec(n / 10)[0]);
    } else {
        assert(d.drop_last() =~= Seq::<char>::empty());
    }
}

/// A negative number has a minus sign in front, and no other one has.
pub proof fn law_signed_is_written(n: int)
    ensures
        n < 0 ==> {
            &&& dec_int(n).len() > 1
            &&& dec_int(n)[0] == '-'
            &&& only_decimal(dec_int(n).skip(1))
            &&& written_number(dec_int(n).skip(1), 10) == -n
        },
        n >= 0 ==> only_decimal(dec_int(n)) && written_number(dec_int(n), 10) == n,
{
    if n < 0 {
        law_decimal_is_written((-n) as nat);
        assert(dec_int(n).skip(1) =~= dec((-n) as nat));
    } else {
        law_decimal_is_written(n as nat);
    }
}

/// A number in hexadecimal is written with lower-case digits that write it, and begins with a zero
/// only if it is zero.
pub proof fn law_hexadecimal_is_written(n: nat)
    ensures
        hex(n).len() > 0,
        forall|i: int|
            0 <= i < hex(n).len() ==> '0' <= #[trigger] hex(n)[i] <= '9' || 'a' <= hex(n)[i] <= 'f',
        written_number(hex(n), 16) == n,
        hex(n)[0] == '0' ==> n == 0 && hex(n).len() == 1,
    decreases n,
{
    reveal_with_fuel(written_number, 2);
    let d = hex(n);
    if n >= 16 {
        let e = hex(n / 16);
        law_hexadecimal_is_written(n / 16);
        assert(d.drop_last() =~= e);
        assert forall|i: int| 0 <= i < d.len() implies '0' <= #[trigger] d[i] <= '9' || 'a' <= d[i]
            <= 'f' by {
            if i < e.len() {
                assert(d[i] == e[i]);
            }
        }
        assert(d[0] == e[0]);
    } else {
        assert(d.drop_last() =~= Seq::<char>::empty());
    }
}

/// Four hexadecimal digits in upper case write a 16-bit number, zeros in front.
pub proof fn law_four_digits_are_written(n: u16, i: int)
    requires
        0 <= i < 4,
    ensures
        hex4(n).len() == 4,
        written_number(hex4(n), 16) == n,
        '0' <= hex4(n)[i] <= '9' || 'A' <= hex4(n)[i] <= 'F',
{
    let s = hex4(n);
    reveal_with_fuel(written_number, 5);
    let a = s.drop_last();
    let b = a.drop_last();
    let c = b.drop_last();
    assert(c.drop_last() =~= Seq::<char>::empty());
    assert(s.last() == s[3] && a.last() == s[2] && b.last() == s[1] && c.last() == s[0]);
}

proof fn lemma_lower_digit(d: int)
    requires
        0 <= d < 16,
    ensures
        digit_value(hex_lower(d)) == d,
        '0' <= hex_lower(d) <= '9' || 'a' <= hex_lower(d) <= 'f',
{
}

/// The digit at one place, from what stands above the place and what stands from it on.
proof fn lemma_place(k: int, m: int)
    requires
        0 <= k,
        0 < m,
    ensures
        k / m == (k / (16 * m)) * 16 + k / m % 16,
{
    vstd::arithmetic::div_mod::lemma_div_denominator(k, m, 16);
    assert(m * 16 == 16 * m);
}

/// The number that the first digits write, from the one before.
proof fn lemma_digits_so_far(s: Seq<char>, k: int, m: int, i: int)
    requires
        0 <= i < s.len(),
        0 <= k,
        0 < m,
        s[i] == hex_lower(k / m % 16),
        written_number(s.take(i), 16) == k / (16 * m),
    ensures
        written_number(s.take(i + 1), 16) == k / m,
{
    lemma_one_more_digit(s, i);
    lemma_lower_digit(k / m % 16);
    lemma_place(k, m);
}

/// Eight hexadecimal digits in lower case write a 32-bit number, zeros in front.
pub proof fn law_eight_digits_are_written(n: u32, i: int)
    requires
        0 <= i < 8,
    ensures
        hex8(n).len() == 8,
        written_number(hex8(n), 16) == n,
        '0' <= hex8(n)[i] <= '9' || 'a' <= hex8(n)[i] <= 'f',
{
    let s = hex8(n);
    let k = n as int;
    assert(k / 0x1_0000_0000 == 0 && k / 0x1000_0000 < 16);
    assert(k / 0x1000_0000 % 16 == k / 0x1000_0000);
    assert(written_number(s.take(0), 16) == 0);
    lemma_digits_so_far(s, k, 0x1000_0000, 0);
    lemma_digits_so_far(s, k, 0x100_0000, 1);
    lemma_digits_so_far(s, k, 0x10_0000, 2);
    lemma_digits_so_far(s, k, 0x1_0000, 3);
    lemma_digits_so_far(s, k, 4096, 4);
    lemma_digits_so_far(s, k, 256, 5);
    lemma_digits_so_far(s, k, 16, 6);
    lemma_digits_so_far(s, k, 1, 7);
    assert(s.take(8) =~= s);
    let d = if i == 0 {
        k / 0x1000_0000
    } else if i == 1 {
        k / 0x100_0000 % 16
    } else if i == 2 {
        k / 0x10_0000 % 16
    } else if i == 3 {
        k / 0x1_0000 % 16
    } else if i == 4 {
        k / 4096 % 16
    } else if i == 5 {
        k / 256 % 16
    } else if i == 6 {
        k / 16 % 16
    } else {
        k % 16
    };
    lemma_lower_digit(d);
}

proof fn lemma_one_more_digit(s: Seq<char>, i: int)
    requires
        0 <= i < s.len(),
    ensures
        written_number(s.take(i + 1), 16) == written_number(s.take(i), 16) * 16 + digit_value(s[i]),
{
    assert(s.take(i + 1).drop_last() =~= s.take(i));
    assert(s.take(i + 1).last() == s[i]);
}

/// Decimal digits write the same number however it is added up.
pub proof fn lemma_same_value(s: Seq<char>)
    requires
        only_decimal(s),
    ensures
        all_digits(s),
        dec_value(s) == written_number(s, 10),
    decreases s.len(),
{
    if s.len() > 0 {
        assert forall|i: int| 0 <= i < s.drop_last().len() implies '0' <= #[trigger] s.drop_last()[i]
            <= '9' by {
            assert('0' <= s[i] <= '9');
        }
        lemma_same_value(s.drop_last());
        assert('0' <= s[s.len() - 1] <= '9');
    }
}

/// A number is read from digits that write one up to the limit, with or without a plus sign in
/// front, and from nothing else.
pub proof fn law_number_is_read(s: Seq<char>, max: nat)
    ensures
        s.len() > 0 && only_decimal(s) && written_number(s, 10) <= max ==> {
            &&& parse_dec(s, max) == Some(written_number(s, 10) as nat)
            &&& parse_dec(seq!['+'] + s, max) == Some(written_number(s, 10) as nat)
        },
        only_decimal(s) && written_number(s, 10) > max ==> {
            &&& parse_dec(s, max) is None
            &&& parse_dec(seq!['+'] + s, max) is None
        },
        !only_decimal(s) && (s.len() == 1 || s[0] != '+') ==> parse_dec(s, max) is None,
        !only_decimal(s) ==> parse_dec(seq!['+'] + s, max) is None,
        s.len() == 0 ==> parse_dec(s, max) is None && parse_dec(seq!['+'] + s, max) is None,
{
    assert((seq!['+'] + s).drop_first() =~= s);
    if only_decimal(s) {
        lemma_same_value(s);
    } else {
        let i = choose|i: int| 0 <= i < s.len() && !('0' <= #[trigger] s[i] <= '9');
        assert(!is_digit(s[i]));
    }
    if s.len() == 0 {
        assert(!is_digit((seq!['+'] + s)[0]));
    }
}

/// A signed 32-bit number is read from digits, with or without a sign in front, and from nothing
/// else.
pub proof fn law_signed_is_read(s: Seq<char>)
    requires
        s.len() > 0,
    ensures
        only_decimal(s) && written_number(s, 10) <= 2_147_483_647 ==> parse_dec_i32(s) == Some(
            written_number(s, 10),
        ),
        only_decimal(s) && written_number(s, 10) > 2_147_483_647 ==> parse_dec_i32(s) is None,
        only_decimal(s) && written_number(s, 10) <= 2_147_483_648 ==> parse_dec_i32(
            seq!['-'] + s,
        ) == Some(-written_number(s, 10)),
        only_decimal(s) && written_number(s, 10) > 2_147_483_648 ==> parse_dec_i32(
            seq!['-'] + s,
        ) is None,
        !only_decimal(s) ==> parse_dec_i32(seq!['-'] + s) is None,
        !only_decimal(s) && s[0] != '+' && s[0] != '-' ==> parse_dec_i32(s) is None,
{
    assert((seq!['-'] + s).drop_first() =~= s);
    law_number_is_read(s, 0x7fff_ffff);
    if only_decimal(s) {
        lemma_same_value(s);
        assert('0' <= s[0] <= '9');
    } else {
        let i = choose|i: int| 0 <= i < s.len() && !('0' <= #[trigger] s[i] <= '9');
        assert(!is_digit(s[i]));
    }
}

/// What is found of a text is its first occurrence from a position on.
pub proof fn law_first_occurrence(s: Seq<char>, pat: Seq<char>, from: int)
    requires
        0 <= from <= s.len(),
    ensures
        match find_text_from(s, pat, from) {
            Some(i) => {
                &&& from <= i && i + pat.len() <= s.len()
                &&& s.subrange(i, i + pat.len()) == pat
                &&& forall|k: int| from <= k < i ==> !#[trigger] stands_at(s, pat, k)
            },
            None => forall|k: int| from <= k <= s.len() ==> !#[trigger] stands_at(s, pat, k),
        },
    decreases s.len() - from,
{
    if !stands_at(s, pat, from) {
        if from < s.len() {
            law_first_occurrence(s, pat, from + 1);
        } else {
            assert(find_text_from(s, pat, from + 1) is None);
        }
    }
}

/// Which characters are white space, by their numbers.
pub proof fn law_white_space(c: char)
    ensures
        white_space(c) <==> {
            let n = c as int;
            9 <= n <= 13 || n == 32 || n == 133 || n == 160 || n == 5760 || 8192 <= n <= 8202 || n
                == 8232 || n == 8233 || n == 8239 || n == 8287 || n == 12288
        },
{
}

proof fn lemma_trim_start(a: Seq<char>, r: Seq<char>)
    requires
        forall|i: int| 0 <= i < a.len() ==> white_space(#[trigger] a[i]),
    ensures
        trim_start(a + r) == trim_start(r),
    decreases a.len(),
{
    if a.len() == 0 {
        assert(a + r =~= r);
    } else {
        assert(white_space(a[0]));
        assert forall|i: int| 0 <= i < a.drop_first().len() implies white_space(
            #[trigger] a.drop_first()[i],
        ) by {
            assert(white_space(a[i + 1]));
        }
        lemma_trim_start(a.drop_first(), r);
        assert((a + r).drop_first() =~= a.drop_first() + r);
    }
}

proof fn lemma_trim_end(r: Seq<char>, b: Seq<char>)
    requires
        forall|i: int| 0 <= i < b.len() ==> white_space(#[trigger] b[i]),
    ensures
        trim_end(r + b) == trim_end(r),
    decreases b.len(),
{
    if b.len() == 0 {
        assert(r + b =~= r);
    } else {
        assert(white_space(b[b.len() - 1]));
        lemma_trim_end(r, b.drop_last());
        assert((r + b).drop_last() =~= r + b.drop_last());
    }
}

/// Trimming takes away white space at both ends and nothing else.
pub proof fn law_trimmed(a: Seq<char>, t: Seq<char>, b: Seq<char>)
    requires
        forall|i: int| 0 <= i < a.len() ==> white_space(#[trigger] a[i]),
        forall|i: int| 0 <= i < b.len() ==> white_space(#[trigger] b[i]),
        t.len() > 0 ==> !white_space(t[0]) && !white_space(t.last()),
    ensures
        trim_end(trim_start(a + t + b)) == t,
{
    assert(a + t + b =~= a + (t + b));
    lemma_trim_start(a, t + b);
    if t.len() > 0 {
        assert((t + b)[0] == t[0]);
        assert(trim_start(t + b) == t + b);
        lemma_trim_end(t, b);
    } else {
        let none = Seq::<char>::empty();
        assert(t + b =~= b + none);
        lemma_trim_start(b, none);
        assert(t =~= none);
    }
}

/// Joining goes piece by piece, with one separator between neighbours.
pub proof fn law_joined(x: Seq<Seq<char>>, y: Seq<Seq<char>>, sep: Seq<char>)
    requires
        x.len() > 0,
        y.len() > 0,
    ensures
        join(x + y, sep) == join(x, sep) + sep + join(y, sep),
        join(seq![x[0]], sep) == x[0],
        join(Seq::empty(), sep) == Seq::<char>::empty(),
    decreases y.len(),
{
    let all = x + y;
    if y.len() == 1 {
        assert(all.drop_last() =~= x);
        assert(all.last() == y[0]);
    } else {
        law_joined(x, y.drop_last(), sep);
        assert(all.drop_last() =~= x + y.drop_last());
        assert(all.last() == y.last());
        assert(join(all, sep) =~= join(x, sep) + sep + join(y, sep));
    }
}

/// A line ends with a line feed, or with a carriage return and a line feed, which are no part of
/// it.
pub proof fn law_line_ends(p: Seq<char>)
    requires
        is_line(p),
    ensures
        lines(p) == seq![p],
        lines(p + seq!['\n']) == seq![p],
        lines(p + seq!['\r', '\n']) == seq![p],
{
    let none = Seq::<char>::empty();
    lemma_split_extend(none, p, '\n');
    assert(none + p =~= p);
    assert(split_on(p, '\n') =~= seq![p]);
    assert(seq![p].drop_last().map_values(|p: Seq<char>| chomp(p)) =~= Seq::<Seq<char>>::empty());
    assert(lines(p) =~= seq![p]);
    let q = p + seq!['\n'];
    assert(q.drop_last() =~= p);
    assert(split_on(q, '\n') =~= seq![p, none]);
    assert(p.contains(p[p.len() - 1]));
    assert(chomp(p) == p);
    assert(lines(q) =~= seq![p]);
    let r = p + seq!['\r'];
    let s = p + seq!['\r', '\n'];
    assert(!r.contains('\n')) by {
        if r.contains('\n') {
            let k = choose|k: int| 0 <= k < r.len() && r[k] == '\n';
            assert(k < p.len());
            assert(p[k] == '\n');
        }
    }
    lemma_split_extend(none, r, '\n');
    assert(none + r =~= r);
    assert(split_on(r, '\n') =~= seq![r]);
    assert(s.drop_last() =~= r);
    assert(split_on(s, '\n') =~= seq![r, none]);
    assert(chomp(r) =~= p);
    assert(lines(s) =~= seq![p]);
}

/// Whether a part stands somewhere in a text.
pub open spec fn stands_in(whole: Seq<char>, part: Seq<char>) -> bool {
    exists|a: Seq<char>, b: Seq<char>| whole == #[trigger] (a + part + b)
}

} // verus!
