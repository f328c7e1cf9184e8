//! What browsers send: form bodies, cookies and terminal commands; and how text goes into pages.

use crate::text;
use crate::text::{
    chars_of,
    find_char,
    find_text,
    push_hex8,
    same,
    split_text,
    text_of,
    trim_text,
};
use crate::text_map;
use crate::text_map::TextMap;
use vstd::prelude::*;
use vstd::string::*;
use vstd::utf8::*;

verus! {

/// The value of a hexadecimal digit.
pub open spec fn hex_value(b: u8) -> Option<u8> {
    if 0x30 <= b <= 0x39 {
        Some((b - 0x30) as u8)
    } else if 0x41 <= b <= 0x46 {
        Some((b - 0x41 + 10) as u8)
    } else if 0x61 <= b <= 0x66 {
        Some((b - 0x61 + 10) as u8)
    } else {
        None
    }
}

/// The byte that two hexadecimal digits write; a plus sign may stand for the first one.
pub open spec fn hex_pair(a: u8, b: u8) -> Option<u8> {
    match hex_value(b) {
        None => None,
        Some(low) => if a as char == '+' {
            Some(low)
        } else {
            match hex_value(a) {
                None => None,
                Some(high) => Some((high * 16 + low) as u8),
            }
        },
    }
}

/// Whether bytes begin with `%` and two hexadecimal digits.
pub open spec fn is_escape(b: Seq<u8>) -> bool {
    b.len() > 2 && b[0] as char == '%' && hex_pair(b[1], b[2]) is Some
}

/// The text behind percent-encoding: plus signs are spaces, an escape is the character with that
/// number, and every other byte is the character with its number.
pub open spec fn decoded(b: Seq<u8>) -> Seq<char>
    decreases b.len(),
{
    if b.len() == 0 {
        Seq::empty()
    } else if is_escape(b) {
        seq![hex_pair(b[1], b[2])->0 as char] + decoded(b.skip(3))
    } else if b[0] as char == '+' {
        seq![' '] + decoded(b.skip(1))
    } else {
        seq![b[0] as char] + decoded(b.skip(1))
    }
}

/// The text behind percent-encoded text.
pub open spec fn url_decoded(s: Seq<char>) -> Seq<char> {
    decoded(encode_utf8(s))
}

fn hex_digit(b: u8) -> (v: Option<u8>)
    ensures
        v == hex_value(b),
        v matches Some(n) ==> n < 16,
{
    if b >= 0x30 && b <= 0x39 {
        Some(b - 0x30)
    } else if b >= 0x41 && b <= 0x46 {
        Some(b - 0x41 + 10)
    } else if b >= 0x61 && b <= 0x66 {
        Some(b - 0x61 + 10)
    } else {
        None
    }
}

fn hex_byte(a: u8, b: u8) -> (v: Option<u8>)
    ensures
        v == hex_pair(a, b),
{
    match hex_digit(b) {
        None => None,
        Some(low) => if a as char == '+' {
            Some(low)
        } else {
            match hex_digit(a) {
                None => None,
                Some(high) => Some(high * 16 + low),
            }
        },
    }
}

/// Undoes percent-encoding.
pub fn url_decode(s: &str) -> (r: String)
    ensures
        r@ == url_decoded(s@),
{
    let b = s.as_bytes();
    let n: usize = b.len();
    let mut out = String::new();
    let mut i: usize = 0;
    proof {
        assert(b@.skip(0) =~= b@);
        assert(out@ + decoded(b@) =~= decoded(b@));
    }
    while i < n
        invariant
            i <= n == b@.len(),
            out@ + decoded(b@.skip(i as int)) == decoded(b@),
        decreases n - i,
    {
        let ghost rest = b@.skip(i as int);
        let ghost before = out@;
        let c: u8 = b[i];
        let mut width: usize = 1;
        let mut ch: char = c as char;
        proof {
            assert(rest.skip(1) =~= b@.skip(i + 1));
        }
        if c as char == '+' {
            ch = ' ';
        } else if c as char == '%' && n - i > 2 {
            proof {
                assert(rest[1] == b@[i + 1] && rest[2] == b@[i + 2]);
                assert(rest.skip(3) =~= b@.skip(i + 3));
            }
            if let Some(v) = hex_byte(b[i + 1], b[i + 2]) {
                ch = v as char;
                width = 3;
            }
        }
        out.push(ch);
        proof {
            assert(decoded(rest) == seq![ch] + decoded(b@.skip(i + width)));
            assert(out@ + decoded(b@.skip(i + width)) =~= before + decoded(rest));
        }
        i = i + width;
    }
    proof {
        assert(b@.skip(n as int) =~= Seq::<u8>::empty());
        assert(out@ =~= out@ + decoded(b@.skip(n as int)));
    }
    out
}

/// The fields of the first `n` pairs of a form: what stands before and behind the first equals
/// sign, decoded. A pair without one is no field; the last value of a field counts.
pub open spec fn form_fields(parts: Seq<Seq<char>>, n: nat) -> Map<Seq<char>, Seq<char>>
    decreases n,
{
    if n == 0 {
        Map::empty()
    } else {
        let p = parts[n - 1];
        let m = form_fields(parts, (n - 1) as nat);
        match text::find_from(p, '=', 0) {
            Some(eq) => m.insert(url_decoded(p.take(eq)), url_decoded(p.skip(eq + 1))),
            None => m,
        }
    }
}

/// The fields of a form body.
pub open spec fn form(body: Seq<char>) -> Map<Seq<char>, Seq<char>> {
    let parts = text::split_on(body, '&');
    form_fields(parts, parts.len())
}

/// Reads the fields of a form body.
pub fn parse_form(body: &str) -> (m: TextMap)
    ensures
        m@ == form(body@),
{
    let mut m = TextMap::new();
    let parts = split_text(body, '&');
    let ghost all = text::split_on(body@, '&');
    let mut i: usize = 0;
    while i < parts.len()
        invariant
            i <= parts@.len(),
            all == text::views(parts@),
            m@ == form_fields(all, i as nat),
        decreases parts@.len() - i,
    {
        let cs = chars_of(parts[i].as_str());
        let n: usize = cs.len();
        proof {
            assert(all[i as int] == cs@);
        }
        if let Some(eq) = find_char(cs.as_slice(), '=', 0) {
            let key = text_of(cs.as_slice(), 0, eq);
            let value = text_of(cs.as_slice(), eq + 1, n);
            proof {
                assert(key@ =~= cs@.take(eq as int));
                assert(value@ =~= cs@.skip(eq + 1));
            }
            m.insert(url_decode(key.as_str()), url_decode(value.as_str()));
        }
        i = i + 1;
    }
    m
}

/// Whether `s` begins with `prefix`.
pub open spec fn begins_with(s: Seq<char>, prefix: Seq<char>) -> bool {
    text::stands_at(s, prefix, 0)
}

/// The session cookie among parts `i..` of a cookie header.
pub open spec fn session_part(parts: Seq<Seq<char>>, i: int) -> Option<Seq<char>>
    decreases parts.len() - i,
{
    if i < 0 || i >= parts.len() {
        None
    } else {
        let p = text::trim_end(text::trim_start(parts[i]));
        if begins_with(p, "session="@) {
            Some(p.skip("session="@.len() as int))
        } else {
            session_part(parts, i + 1)
        }
    }
}

/// The session token in a cookie header: the value of the first cookie named `session`.
pub open spec fn session_cookie(header: Option<Seq<char>>) -> Option<Seq<char>> {
    match header {
        Some(h) => session_part(text::split_on(h, ';'), 0),
        None => None,
    }
}

/// The view of a header that may be missing.
pub open spec fn header_view(h: Option<&str>) -> Option<Seq<char>> {
    match h {
        Some(s) => Some(s@),
        None => None,
    }
}

/// The session token in a cookie header.
pub fn get_session_from_cookie_header(cookie_header: Option<&str>) -> (t: Option<String>)
    ensures
        text_map::text_view(t) == session_cookie(header_view(cookie_header)),
{
    let h = match cookie_header {
        Some(h) => h,
        None => {
            return None;
        },
    };
    let parts = split_text(h, ';');
    let name = chars_of("session=");
    let ghost all = text::split_on(h@, ';');
    let mut i: usize = 0;
    while i < parts.len()
        invariant
            i <= parts@.len(),
            all == text::views(parts@),
            all == text::split_on(h@, ';'),
            cookie_header == Some(h),
            name@ == "session="@,
            session_part(all, 0) == session_part(all, i as int),
        decreases parts@.len() - i,
    {
        let p = chars_of(trim_text(parts[i].as_str()).as_str());
        proof {
            assert(all[i as int] == parts@[i as int]@);
        }
        if text::text_stands_at(p.as_slice(), name.as_slice(), 0) {
            let v = text_of(p.as_slice(), name.len(), p.len());
            proof {
                assert(v@ =~= p@.skip("session="@.len() as int));
            }
            return Some(v);
        }
        i = i + 1;
    }
    None
}

/// Whether a request with this cookie header belongs to the session.
pub open spec fn authorized(header: Option<Seq<char>>, session: Option<Seq<char>>) -> bool {
    session is Some && session_cookie(header) == session
}

/// Whether a request with this cookie header belongs to the session.
pub fn is_auth(cookie_header: Option<&str>, session: &Option<String>) -> (r: bool)
    ensures
        r == authorized(header_view(cookie_header), text_map::text_view(*session)),
{
    match session {
        Some(token) => match get_session_from_cookie_header(cookie_header) {
            Some(t) => same(t.as_str(), token.as_str()),
            None => false,
        },
        None => false,
    }
}

/// The session token made of four random numbers.
pub open spec fn token(r: Seq<u32>) -> Seq<char> {
    text::hex8(r[0]) + text::hex8(r[1]) + text::hex8(r[2]) + text::hex8(r[3])
}

/// Writes four random numbers as a session token.
pub fn generate_token(random: [u32; 4]) -> (t: String)
    ensures
        t@ == token(random@),
{
    let mut out = String::new();
    push_hex8(&mut out, random[0]);
    push_hex8(&mut out, random[1]);
    push_hex8(&mut out, random[2]);
    push_hex8(&mut out, random[3]);
    proof {
        assert(out@ =~= token(random@));
    }
    out
}

/// How one character goes into a page.
pub open spec fn escaped_char(c: char) -> Seq<char> {
    if c == '&' {
        "&amp;"@
    } else if c == '"' {
        "&quot;"@
    } else if c == '<' {
        "&lt;"@
    } else if c == '>' {
        "&gt;"@
    } else {
        seq![c]
    }
}

/// How text goes into a page.
pub open spec fn escaped(s: Seq<char>) -> Seq<char>
    decreases s.len(),
{
    if s.len() == 0 {
        Seq::empty()
    } else {
        escaped(s.drop_last()) + escaped_char(s.last())
    }
}

/// Makes text safe to stand in a page.
pub fn esc(s: &str) -> (r: String)
    ensures
        r@ == escaped(s@),
{
    let mut out = String::new();
    for c in it: s.chars()
        invariant
            it.seq() == s@,
            out@ == escaped(s@.take(it.index() as int)),
    {
        let ghost i = it.index() as int;
        let ghost before = out@;
        proof {
            assert(s@.take(i + 1).drop_last() =~= s@.take(i));
        }
        if c == '&' {
            out.append("&amp;");
        } else if c == '"' {
            out.append("&quot;");
        } else if c == '<' {
            out.append("&lt;");
        } else if c == '>' {
            out.append("&gt;");
        } else {
            out.push(c);
        }
        proof {
            assert(out@ =~= before + escaped_char(c));
        }
    }
    proof {
        assert(s@.take(s@.len() as int) =~= s@);
    }
    out
}

/// `mark` if `current` is `value`, else nothing.
pub open spec fn marked(current: Seq<char>, value: Seq<char>, mark: Seq<char>) -> Seq<char> {
    if current == value {
        mark
    } else {
        Seq::empty()
    }
}

/// The attribute of an option that is selected if `current` is `value`.
pub fn sel(current: &str, value: &str) -> (r: &'static str)
    ensures
        r@ == marked(current@, value@, "selected"@),
{
    if same(current, value) {
        "selected"
    } else {
        proof {
            reveal_strlit("");
            assert(""@ =~= Seq::<char>::empty());
        }
        ""
    }
}

/// The attribute of a button that is checked if `current` is `value`.
pub fn chk(current: &str, value: &str) -> (r: &'static str)
    ensures
        r@ == marked(current@, value@, "checked"@),
{
    if same(current, value) {
        "checked"
    } else {
        proof {
            reveal_strlit("");
            assert(""@ =~= Seq::<char>::empty());
        }
        ""
    }
}

/// The text between the first two quotation marks at or behind `from`.
pub open spec fn quoted_from(s: Seq<char>, from: int) -> Option<Seq<char>> {
    match text::find_from(s, '"', from) {
        Some(a) => match text::find_from(s, '"', a + 1) {
            Some(b) => Some(s.subrange(a + 1, b)),
            None => None,
        },
        None => None,
    }
}

/// The port that a name stands for; `usb` is the first USB port.
pub open spec fn port_alias(name: Seq<char>) -> Option<Seq<char>> {
    if name == "com1"@ || name == "com2"@ || name == "usb0"@ || name == "usb1"@ || name == "usb2"@
        || name == "usb3"@ {
        Some(name)
    } else if name == "usb"@ {
        Some("usb0"@)
    } else {
        None
    }
}

/// The port that a terminal command such as `{"cmd":"init","port":"com1"}` asks for.
pub open spec fn ws_port(msg: Seq<char>) -> Option<Seq<char>> {
    match text::find_text_from(msg, "\"port\""@, 0) {
        Some(i) => match quoted_from(msg, i + "\"port\""@.len()) {
            Some(name) => port_alias(name),
            None => None,
        },
        None => None,
    }
}

/// The port that a terminal command asks for.
pub fn parse_ws_port(msg: &str) -> (port: Option<String>)
    ensures
        text_map::text_view(port) == ws_port(msg@),
{
    let cs = chars_of(msg);
    let n: usize = cs.len();
    let key = chars_of("\"port\"");
    let at: usize = match find_text(cs.as_slice(), key.as_slice(), 0) {
        Some(i) => i + key.len(),
        None => {
            return None;
        },
    };
    let a: usize = match find_char(cs.as_slice(), '"', at) {
        Some(a) => a,
        None => {
            return None;
        },
    };
    let b: usize = match find_char(cs.as_slice(), '"', a + 1) {
        Some(b) => b,
        None => {
            return None;
        },
    };
    let name = text_of(cs.as_slice(), a + 1, b);
    let n = name.as_str();
    if same(n, "com1") || same(n, "com2") || same(n, "usb0") || same(n, "usb1") || same(n, "usb2")
        || same(n, "usb3") {
        Some(name)
    } else if same(n, "usb") {
        Some("usb0".to_owned())
    } else {
        None
    }
}

/// Bytes in percent-encoding, each as an escape with upper-case digits.
pub open spec fn percent_encoded(b: Seq<u8>) -> Seq<u8>
    decreases b.len(),
{
    if b.len() == 0 {
        Seq::empty()
    } else {
        seq![
            '%' as u8,
            text::hex_upper(b[0] as int / 16) as u8,
            text::hex_upper(b[0] as int % 16) as u8,
        ] + percent_encoded(b.skip(1))
    }
}

/// Decoding undoes percent-encoding.
pub proof fn law_decode_encoded(b: Seq<u8>)
    ensures
        decoded(percent_encoded(b)) == Seq::new(b.len(), |i: int| b[i] as char),
    decreases b.len(),
{
    let want = Seq::new(b.len(), |i: int| b[i] as char);
    let e = percent_encoded(b);
    if b.len() == 0 {
        assert(decoded(e) =~= want);
    } else {
        let rest = b.skip(1);
        law_decode_encoded(rest);
        assert(e.skip(3) =~= percent_encoded(rest));
        assert(hex_pair(e[1], e[2]) == Some(b[0])) by {
            let hi = b[0] as int / 16;
            let lo = b[0] as int % 16;
            assert(hex_value(text::hex_upper(hi) as u8) == Some(hi as u8));
            assert(hex_value(text::hex_upper(lo) as u8) == Some(lo as u8));
        }
        assert(seq![b[0] as char] + Seq::new(rest.len(), |i: int| rest[i] as char) =~= want);
    }
}

/// Without plus and percent signs, each byte decodes to the character with its number.
pub proof fn law_decode_plain(b: Seq<u8>)
    requires
        !b.contains('+' as u8),
        !b.contains('%' as u8),
    ensures
        decoded(b) == Seq::new(b.len(), |i: int| b[i] as char),
    decreases b.len(),
{
    let want = Seq::new(b.len(), |i: int| b[i] as char);
    if b.len() == 0 {
        assert(decoded(b) =~= want);
    } else {
        let rest = b.skip(1);
        assert(b.contains(b[0]));
        assert forall|c: u8| !b.contains(c) implies !rest.contains(c) by {
            if rest.contains(c) {
                let k = choose|k: int| 0 <= k < rest.len() && rest[k] == c;
                assert(b[k + 1] == c);
            }
        }
        law_decode_plain(rest);
        assert(seq![b[0] as char] + Seq::new(rest.len(), |i: int| rest[i] as char) =~= want);
    }
}

/// Escaped text holds no quotation mark and no angle bracket, so it cannot leave the attribute
/// that it stands in.
pub proof fn law_escaped_is_inert(s: Seq<char>)
    ensures
        !escaped(s).contains('"'),
        !escaped(s).contains('<'),
        !escaped(s).contains('>'),
    decreases s.len(),
{
    if s.len() > 0 {
        law_escaped_is_inert(s.drop_last());
        reveal_strlit("&amp;");
        reveal_strlit("&quot;");
        reveal_strlit("&lt;");
        reveal_strlit("&gt;");
        let a = escaped(s.drop_last());
        let b = escaped_char(s.last());
        assert forall|i: int| 0 <= i < (a + b).len() implies {
            let c = #[trigger] (a + b)[i];
            c != '"' && c != '<' && c != '>'
        } by {
            if i < a.len() {
                assert(a.contains(a[i]));
            } else {
                assert((a + b)[i] == b[i - a.len()]);
            }
        }
    }
}

/// Whether `t` begins with `p`.
pub open spec fn starts(t: Seq<char>, p: Seq<char>) -> bool {
    p.len() <= t.len() && t.take(p.len() as int) == p
}

/// The character that the entity at the beginning of `t` stands for, and how long the entity is.
pub open spec fn entity(t: Seq<char>) -> Option<(char, int)> {
    if starts(t, "&amp;"@) {
        Some(('&', 5))
    } else if starts(t, "&quot;"@) {
        Some(('"', 6))
    } else if starts(t, "&lt;"@) {
        Some(('<', 4))
    } else if starts(t, "&gt;"@) {
        Some(('>', 4))
    } else {
        None
    }
}

/// The text with each of the four entities replaced by its character, once.
pub open spec fn unescaped(t: Seq<char>) -> Seq<char>
    decreases t.len(),
{
    if t.len() == 0 {
        Seq::empty()
    } else {
        match entity(t) {
            Some((c, n)) => if 0 < n <= t.len() {
                seq![c] + unescaped(t.skip(n))
            } else {
                Seq::empty()
            },
            None => seq![t[0]] + unescaped(t.skip(1)),
        }
    }
}

proof fn lemma_reveal_entities()
    ensures
        "&amp;"@ == seq!['&', 'a', 'm', 'p', ';'],
        "&quot;"@ == seq!['&', 'q', 'u', 'o', 't', ';'],
        "&lt;"@ == seq!['&', 'l', 't', ';'],
        "&gt;"@ == seq!['&', 'g', 't', ';'],
{
    reveal_strlit("&amp;");
    reveal_strlit("&quot;");
    reveal_strlit("&lt;");
    reveal_strlit("&gt;");
    assert("&amp;"@ =~= seq!['&', 'a', 'm', 'p', ';']);
    assert("&quot;"@ =~= seq!['&', 'q', 'u', 'o', 't', ';']);
    assert("&lt;"@ =~= seq!['&', 'l', 't', ';']);
    assert("&gt;"@ =~= seq!['&', 'g', 't', ';']);
}

/// What an escaped character stands for is read off its beginning, whatever follows.
proof fn lemma_entity_of_escaped(c: char, rest: Seq<char>)
    ensures
        ({
            let e = escaped_char(c);
            let t = e + rest;
            &&& e.len() > 0
            &&& t.skip(e.len() as int) == rest
            &&& if c == '&' || c == '"' || c == '<' || c == '>' {
                entity(t) == Some((c, e.len() as int))
            } else {
                entity(t) is None && e == seq![c]
            }
        }),
{
    lemma_reveal_entities();
    let e = escaped_char(c);
    let t = e + rest;
    assert(t.skip(e.len() as int) =~= rest);
    assert(t.take(e.len() as int) =~= e);
    assert(t[0] == e[0]);
    if c == '&' || c == '"' || c == '<' || c == '>' {
        assert(t[1] == e[1]);
    }
    if starts(t, "&amp;"@) {
        assert(t.take(5)[0] == '&' && t.take(5)[1] == 'a');
    }
    if starts(t, "&quot;"@) {
        assert(t.take(6)[0] == '&' && t.take(6)[1] == 'q');
    }
    if starts(t, "&lt;"@) {
        assert(t.take(4)[0] == '&' && t.take(4)[1] == 'l');
    }
    if starts(t, "&gt;"@) {
        assert(t.take(4)[0] == '&' && t.take(4)[1] == 'g');
    }
}

/// Escaping goes character by character, also from the front.
proof fn lemma_escaped_front(s: Seq<char>)
    requires
        s.len() > 0,
    ensures
        escaped(s) == escaped_char(s[0]) + escaped(s.skip(1)),
    decreases s.len(),
{
    if s.len() == 1 {
        assert(s.drop_last() =~= Seq::<char>::empty());
        assert(s.skip(1) =~= Seq::<char>::empty());
        assert(escaped(s) =~= escaped_char(s[0]) + escaped(s.skip(1)));
    } else {
        lemma_escaped_front(s.drop_last());
        assert(s.drop_last().skip(1) =~= s.skip(1).drop_last());
        assert(s.drop_last()[0] == s[0]);
        assert(s.skip(1).last() == s.last());
        assert(escaped(s) =~= escaped_char(s[0]) + escaped(s.skip(1)));
    }
}

/// Escaping can be undone: replacing each entity once by its character gives the text back.
pub proof fn law_unescape_escaped(s: Seq<char>)
    ensures
        unescaped(escaped(s)) == s,
    decreases s.len(),
{
    if s.len() > 0 {
        let rest = s.skip(1);
        lemma_escaped_front(s);
        lemma_entity_of_escaped(s[0], escaped(rest));
        law_unescape_escaped(rest);
        assert(seq![s[0]] + rest =~= s);
        assert(escaped(s)[0] == escaped_char(s[0])[0]);
    }
}

/// Different texts stay different when they are escaped.
pub proof fn law_escape_keeps_apart(a: Seq<char>, b: Seq<char>)
    requires
        escaped(a) == escaped(b),
    ensures
        a == b,
{
    law_unescape_escaped(a);
    law_unescape_escaped(b);
}

/// Every ampersand of escaped text begins one of the four entities.
pub proof fn law_ampersand_begins_entity(s: Seq<char>, i: int)
    requires
        0 <= i < escaped(s).len(),
        escaped(s)[i] == '&',
    ensures
        entity(escaped(s).skip(i)) is Some,
    decreases s.len(),
{
    let first = escaped_char(s[0]);
    let rest = escaped(s.skip(1));
    lemma_escaped_front(s);
    lemma_entity_of_escaped(s[0], rest);
    lemma_reveal_entities();
    if i == 0 {
        assert(escaped(s).skip(0) =~= escaped(s));
        assert(escaped(s)[0] == first[0]);
    } else if i < first.len() {
        assert(escaped(s)[i] == first[i]);
        assert(false);
    } else {
        law_ampersand_begins_entity(s.skip(1), i - first.len());
        assert(escaped(s).skip(i) =~= rest.skip(i - first.len()));
    }
}

/// Whether `c` is a lower-case hexadecimal digit.
pub open spec fn is_hex_digit(c: char) -> bool {
    '0' <= c <= '9' || 'a' <= c <= 'f'
}

proof fn lemma_hex8_digits(n: u32, i: int)
    requires
        0 <= i < 8,
    ensures
        text::hex8(n).len() == 8,
        is_hex_digit(text::hex8(n)[i]),
{
}

/// A session token is 32 lower-case hexadecimal digits.
pub proof fn law_token_shape(r: Seq<u32>)
    requires
        r.len() == 4,
    ensures
        token(r).len() == 32,
        forall|i: int| 0 <= i < 32 ==> is_hex_digit(#[trigger] token(r)[i]),
{
    let (a, b, c, d) = (text::hex8(r[0]), text::hex8(r[1]), text::hex8(r[2]), text::hex8(r[3]));
    lemma_hex8_digits(r[0], 0);
    lemma_hex8_digits(r[1], 0);
    lemma_hex8_digits(r[2], 0);
    lemma_hex8_digits(r[3], 0);
    assert forall|i: int| 0 <= i < 32 implies is_hex_digit(#[trigger] token(r)[i]) by {
        if i < 8 {
            lemma_hex8_digits(r[0], i);
            assert(token(r)[i] == a[i]);
        } else if i < 16 {
            lemma_hex8_digits(r[1], i - 8);
            assert(token(r)[i] == b[i - 8]);
        } else if i < 24 {
            lemma_hex8_digits(r[2], i - 16);
            assert(token(r)[i] == c[i - 16]);
        } else {
            lemma_hex8_digits(r[3], i - 24);
            assert(token(r)[i] == d[i - 24]);
        }
    }
}

/// Without a session no request is authorized, whatever cookie it brings.
pub proof fn law_no_session_no_access(header: Option<Seq<char>>)
    ensures
        !authorized(header, None),
{
}

/// A form made of fields `name=value` with `&` between them has exactly these fields, decoded; of
/// two fields with one name the last one counts.
pub proof fn law_form_fields(fields: Seq<(Seq<char>, Seq<char>)>)
    requires
        fields.len() > 0,
        forall|i: int|
            0 <= i < fields.len() ==> {
                &&& !(#[trigger] fields[i]).0.contains('&')
                &&& !fields[i].0.contains('=')
                &&& !fields[i].1.contains('&')
            },
    ensures
        form(text::join(written(fields), seq!['&'])) == text_map::inserted(
            Map::empty(),
            decoded_fields(fields),
        ),
{
    let parts = written(fields);
    assert forall|i: int| 0 <= i < parts.len() implies !(#[trigger] parts[i]).contains('&') by {
        let f = fields[i];
        if parts[i].contains('&') {
            let k = choose|k: int| 0 <= k < parts[i].len() && parts[i][k] == '&';
            if k < f.0.len() {
                assert(f.0[k] == '&');
            } else if k > f.0.len() {
                assert(f.1[k - f.0.len() - 1] == '&');
            }
        }
    }
    text::lemma_split_join(parts, '&');
    lemma_form_fields(fields, fields.len());
    assert(decoded_fields(fields).take(fields.len() as int) =~= decoded_fields(fields));
}

/// Fields as they stand in a form.
pub open spec fn written(fields: Seq<(Seq<char>, Seq<char>)>) -> Seq<Seq<char>> {
    fields.map_values(|f: (Seq<char>, Seq<char>)| f.0 + seq!['='] + f.1)
}

/// Fields as they are read.
pub open spec fn decoded_fields(fields: Seq<(Seq<char>, Seq<char>)>) -> Seq<
    (Seq<char>, Seq<char>),
> {
    fields.map_values(|f: (Seq<char>, Seq<char>)| (url_decoded(f.0), url_decoded(f.1)))
}

proof fn lemma_form_fields(fields: Seq<(Seq<char>, Seq<char>)>, n: nat)
    requires
        n <= fields.len(),
        forall|i: int| 0 <= i < fields.len() ==> !(#[trigger] fields[i]).0.contains('='),
    ensures
        form_fields(written(fields), n) == text_map::inserted(
            Map::empty(),
            decoded_fields(fields).take(n as int),
        ),
    decreases n,
{
    let ds = decoded_fields(fields).take(n as int);
    if n > 0 {
        lemma_form_fields(fields, (n - 1) as nat);
        let f = fields[n - 1];
        let p = written(fields)[n - 1];
        assert(p == f.0 + seq!['='] + f.1);
        text::lemma_find_from(p, '=', 0);
        assert(p[f.0.len() as int] == '=');
        assert forall|k: int| 0 <= k < f.0.len() implies p[k] != '=' by {
            if p[k] == '=' {
                assert(f.0[k] == '=');
            }
        }
        assert(text::find_from(p, '=', 0) == Some(f.0.len() as int));
        assert(p.take(f.0.len() as int) =~= f.0);
        assert(p.skip(f.0.len() as int + 1) =~= f.1);
        assert(ds.drop_last() =~= decoded_fields(fields).take(n - 1));
        assert(ds.last() == (url_decoded(f.0), url_decoded(f.1)));
    }
}

/// The cookie of a session, sent back as it was set, belongs to that session and to no other one.
pub proof fn law_cookie_reads_back(r: Seq<u32>, other: Seq<char>)
    requires
        r.len() == 4,
    ensures
        session_cookie(Some("session="@ + token(r))) == Some(token(r)),
        authorized(Some("session="@ + token(r)), Some(token(r))),
        other != token(r) ==> !authorized(Some("session="@ + token(r)), Some(other)),
{
    let t = token(r);
    let h = "session="@ + t;
    law_token_shape(r);
    reveal_strlit("session=");
    assert(!h.contains(';')) by {
        if h.contains(';') {
            let k = choose|k: int| 0 <= k < h.len() && h[k] == ';';
            if k >= 8 {
                assert(is_hex_digit(t[k - 8]));
            }
        }
    }
    text::lemma_split_extend(Seq::<char>::empty(), h, ';');
    assert(Seq::<char>::empty() + h =~= h);
    let parts = text::split_on(h, ';');
    assert(parts =~= seq![h]);
    assert(text::trim_start(h) == h);
    assert(is_hex_digit(t[31]));
    assert(h.last() == t[31]);
    assert(text::trim_end(h) == h);
    assert(h.subrange(0, 8) =~= "session="@);
    assert(h.skip(8) =~= t);
    assert(session_part(parts, 0) == Some(t));
}

/// What one byte of percent-encoded text stands for: a plus sign for a space; a percent sign with
/// two hexadecimal digits for the character with that number, where a plus sign may stand for the
/// first of them; and anything else for itself.
pub proof fn law_decoded_byte_by_byte(b: u8, hi: u8, lo: u8, rest: Seq<u8>)
    ensures
        decoded(Seq::empty()) == Seq::<char>::empty(),
        decoded(seq![0x2Bu8] + rest) == seq![' '] + decoded(rest),
        b != 0x2B && b != 0x25 ==> decoded(seq![b] + rest) == seq![b as char] + decoded(rest),
        ({
            let (h, l) = (text::digit_value(hi as char), text::digit_value(lo as char));
            &&& h >= 0 && l >= 0 ==> decoded(seq![0x25u8, hi, lo] + rest) == seq![
                (16 * h + l) as char,
            ] + decoded(rest)
            &&& hi == 0x2B && l >= 0 ==> decoded(seq![0x25u8, hi, lo] + rest) == seq![l as char]
                + decoded(rest)
            &&& l < 0 || (h < 0 && hi != 0x2B) ==> decoded(seq![0x25u8, hi, lo] + rest) == seq!['%']
                + decoded(seq![hi, lo] + rest)
        }),
        decoded(seq![0x25u8]) == seq!['%'],
        decoded(seq![0x25u8, 0x34u8]) == seq!['%', '4'],
{
    reveal_with_fuel(decoded, 3);
    assert((seq![0x2Bu8] + rest).skip(1) =~= rest);
    assert((seq![b] + rest).skip(1) =~= rest);
    let e = seq![0x25u8, hi, lo] + rest;
    assert(e[1] == hi && e[2] == lo);
    assert(e.skip(3) =~= rest);
    assert(e.skip(1) =~= seq![hi, lo] + rest);
    let p = seq![0x25u8];
    assert(p.skip(1) =~= Seq::<u8>::empty());
    assert(decoded(p) =~= seq!['%']);
    let q = seq![0x25u8, 0x34u8];
    assert(q.skip(1) =~= seq![0x34u8]);
    assert(seq![0x34u8].skip(1) =~= Seq::<u8>::empty());
    assert(decoded(seq![0x34u8]) =~= seq!['4']);
    assert(decoded(q) =~= seq!['%', '4']);
}

/// A token writes its four random numbers one after another.
pub proof fn law_token_writes_its_numbers(r: Seq<u32>)
    requires
        r.len() == 4,
    ensures
        text::written_number(token(r).subrange(0, 8), 16) == r[0],
        text::written_number(token(r).subrange(8, 16), 16) == r[1],
        text::written_number(token(r).subrange(16, 24), 16) == r[2],
        text::written_number(token(r).subrange(24, 32), 16) == r[3],
{
    text::law_eight_digits_are_written(r[0], 0);
    text::law_eight_digits_are_written(r[1], 0);
    text::law_eight_digits_are_written(r[2], 0);
    text::law_eight_digits_are_written(r[3], 0);
    assert(token(r).subrange(0, 8) =~= text::hex8(r[0]));
    assert(token(r).subrange(8, 16) =~= text::hex8(r[1]));
    assert(token(r).subrange(16, 24) =~= text::hex8(r[2]));
    assert(token(r).subrange(24, 32) =~= text::hex8(r[3]));
}

/// Whether a text begins with `session=`.
pub open spec fn names_session(c: Seq<char>) -> bool {
    &&& c.len() >= 8
    &&& c[0] == 's' && c[1] == 'e' && c[2] == 's' && c[3] == 's'
    &&& c[4] == 'i' && c[5] == 'o' && c[6] == 'n' && c[7] == '='
}

proof fn lemma_names_session(c: Seq<char>)
    ensures
        begins_with(c, "session="@) == names_session(c),
        "session="@.len() == 8,
{
    reveal_strlit("session=");
    let n = "session="@;
    if names_session(c) {
        assert(c.subrange(0, 8) =~= n);
    }
    if begins_with(c, n) {
        let p = c.subrange(0, 8);
        assert(p[0] == c[0] && p[1] == c[1] && p[2] == c[2] && p[3] == c[3]);
        assert(p[4] == c[4] && p[5] == c[5] && p[6] == c[6] && p[7] == c[7]);
    }
}

proof fn lemma_session_part(parts: Seq<Seq<char>>, from: int, at: int)
    requires
        0 <= from <= at < parts.len(),
        forall|i: int|
            from <= i < at ==> !names_session(
                text::trim_end(text::trim_start(#[trigger] parts[i])),
            ),
        names_session(text::trim_end(text::trim_start(parts[at]))),
    ensures
        session_part(parts, from) == Some(text::trim_end(text::trim_start(parts[at])).skip(8)),
    decreases at - from,
{
    lemma_names_session(text::trim_end(text::trim_start(parts[from])));
    if from < at {
        assert(!names_session(text::trim_end(text::trim_start(parts[from]))));
        lemma_session_part(parts, from + 1, at);
    }
}

/// Among several cookies the token is found in the first one that is named `session`, whatever the
/// others hold and whether a space follows the semicolons.
pub proof fn law_cookie_among_others(
    before: Seq<Seq<char>>,
    space: bool,
    t: Seq<char>,
    after: Seq<Seq<char>>,
)
    requires
        forall|i: int|
            0 <= i < before.len() ==> {
                &&& !(#[trigger] before[i]).contains(';')
                &&& !names_session(text::trim_end(text::trim_start(before[i])))
            },
        forall|i: int| 0 <= i < after.len() ==> !(#[trigger] after[i]).contains(';'),
        !t.contains(';'),
        t.len() > 0,
        !text::white_space(t.last()),
    ensures
        ({
            let mine = (if space {
                seq![' ']
            } else {
                Seq::empty()
            }) + "session="@ + t;
            session_cookie(Some(text::join(before + seq![mine] + after, seq![';']))) == Some(t)
        }),
{
    reveal_strlit("session=");
    let pad = if space {
        seq![' ']
    } else {
        Seq::empty()
    };
    let named = "session="@ + t;
    let mine = pad + "session="@ + t;
    let none = Seq::<char>::empty();
    assert(mine =~= pad + named + none);
    text::law_trimmed(pad, named, none);
    lemma_names_session(named);
    assert(names_session(named));
    assert(named.skip(8) =~= t);
    let parts = before + seq![mine] + after;
    assert forall|i: int| 0 <= i < parts.len() implies !(#[trigger] parts[i]).contains(';') by {
        if i < before.len() {
            assert(!before[i].contains(';'));
        } else if i > before.len() {
            assert(!after[i - before.len() - 1].contains(';'));
        } else if mine.contains(';') {
            let k = choose|k: int| 0 <= k < mine.len() && mine[k] == ';';
            if k >= pad.len() + 8 {
                assert(t[k - pad.len() - 8] == ';');
            }
        }
    }
    text::lemma_split_join(parts, ';');
    assert forall|i: int| 0 <= i < before.len() implies !names_session(
        text::trim_end(text::trim_start(#[trigger] parts[i])),
    ) by {
        assert(parts[i] == before[i]);
    }
    assert(parts[before.len() as int] == mine);
    lemma_session_part(parts, 0, before.len() as int);
}

/// A request whose cookies name no session belongs to none.
pub proof fn law_without_cookie(parts: Seq<Seq<char>>, from: int)
    requires
        0 <= from <= parts.len(),
        forall|i: int|
            from <= i < parts.len() ==> !names_session(
                text::trim_end(text::trim_start(#[trigger] parts[i])),
            ),
    ensures
        session_part(parts, from) is None,
        session_cookie(None) is None,
    decreases parts.len() - from,
{
    if from < parts.len() {
        lemma_names_session(text::trim_end(text::trim_start(parts[from])));
        assert(!names_session(text::trim_end(text::trim_start(parts[from]))));
        law_without_cookie(parts, from + 1);
    }
}

/// A terminal command: what stands before `"port"`, between it and the next quotation mark, between
/// that one and the one behind it, and the rest.
pub open spec fn command(a: Seq<char>, b: Seq<char>, name: Seq<char>, c: Seq<char>) -> Seq<char> {
    a + "\"port\""@ + b + seq!['"'] + name + seq!['"'] + c
}

proof fn lemma_command_parts(a: Seq<char>, b: Seq<char>, name: Seq<char>, c: Seq<char>)
    requires
        !b.contains('"'),
        !name.contains('"'),
    ensures
        ({
            let m = command(a, b, name, c);
            let start = a.len() as int + "\"port\""@.len();
            let q1 = start + b.len();
            let q2 = q1 + 1 + name.len();
            &&& q2 < m.len()
            &&& text::stands_at(m, "\"port\""@, a.len() as int)
            &&& m[q1] == '"' && m[q2] == '"'
            &&& m.subrange(q1 + 1, q2) == name
            &&& forall|k: int| start <= k < q1 ==> m[k] != '"'
            &&& forall|k: int| q1 + 1 <= k < q2 ==> m[k] != '"'
        }),
{
    let key = "\"port\""@;
    let m = command(a, b, name, c);
    let start = a.len() as int + key.len();
    let q1 = start + b.len();
    let q2 = q1 + 1 + name.len();
    assert(m.subrange(a.len() as int, start) =~= key);
    assert(m.subrange(q1 + 1, q2) =~= name);
    assert forall|k: int| start <= k < q1 implies m[k] != '"' by {
        assert(m[k] == b[k - start]);
    }
    assert forall|k: int| q1 + 1 <= k < q2 implies m[k] != '"' by {
        assert(m[k] == name[k - q1 - 1]);
    }
}

proof fn lemma_command_read(m: Seq<char>, at: int, q1: int, q2: int)
    requires
        0 <= at,
        at + "\"port\""@.len() <= q1 < q2 < m.len(),
        text::stands_at(m, "\"port\""@, at),
        forall|k: int| 0 <= k < at ==> !#[trigger] text::stands_at(m, "\"port\""@, k),
        m[q1] == '"',
        m[q2] == '"',
        forall|k: int| at + "\"port\""@.len() <= k < q1 ==> m[k] != '"',
        forall|k: int| q1 + 1 <= k < q2 ==> m[k] != '"',
    ensures
        ws_port(m) == port_alias(m.subrange(q1 + 1, q2)),
{
    let key = "\"port\""@;
    text::law_first_occurrence(m, key, 0);
    if let Some(i) = text::find_text_from(m, key, 0) {
        assert(text::stands_at(m, key, i));
    }
    assert(text::find_text_from(m, key, 0) == Some(at));
    text::lemma_find_from(m, '"', at + key.len());
    assert(text::find_from(m, '"', at + key.len()) == Some(q1));
    text::lemma_find_from(m, '"', q1 + 1);
    assert(text::find_from(m, '"', q1 + 1) == Some(q2));
}

/// The port of a terminal command is what stands in quotation marks behind the first `"port"`, if it
/// is one of the ports; `usb` means the first USB port.
pub proof fn law_port_of_command(a: Seq<char>, b: Seq<char>, name: Seq<char>, c: Seq<char>)
    requires
        !b.contains('"'),
        !name.contains('"'),
        forall|k: int|
            0 <= k < a.len() ==> !#[trigger] text::stands_at(
                command(a, b, name, c),
                "\"port\""@,
                k,
            ),
    ensures
        ({
            let port = ws_port(command(a, b, name, c));
            &&& name == "com1"@ ==> port == Some("com1"@)
            &&& name == "com2"@ ==> port == Some("com2"@)
            &&& name == "usb0"@ ==> port == Some("usb0"@)
            &&& name == "usb1"@ ==> port == Some("usb1"@)
            &&& name == "usb2"@ ==> port == Some("usb2"@)
            &&& name == "usb3"@ ==> port == Some("usb3"@)
            &&& name == "usb"@ ==> port == Some("usb0"@)
            &&& name != "com1"@ && name != "com2"@ && name != "usb0"@ && name != "usb1"@ && name
                != "usb2"@ && name != "usb3"@ && name != "usb"@ ==> port is None
        }),
{
    lemma_command_parts(a, b, name, c);
    let q1 = a.len() as int + "\"port\""@.len() + b.len();
    lemma_command_read(
        command(a, b, name, c),
        a.len() as int,
        q1,
        q1 + 1 + name.len(),
    );
    lemma_port_names();
}

proof fn lemma_port_names()
    ensures
        "usb"@.len() == 3,
        "usb0"@.len() == 4,
        "usb1"@.len() == 4,
        "usb2"@.len() == 4,
        "usb3"@.len() == 4,
        "com1"@.len() == 4,
        "com2"@.len() == 4,
{
    reveal_strlit("usb");
    reveal_strlit("usb0");
    reveal_strlit("usb1");
    reveal_strlit("usb2");
    reveal_strlit("usb3");
    reveal_strlit("com1");
    reveal_strlit("com2");
}

/// A mark stands exactly where two texts are the same.
pub proof fn law_marked(current: Seq<char>, value: Seq<char>, mark: Seq<char>)
    ensures
        current == value ==> marked(current, value, mark) == mark,
        current != value ==> marked(current, value, mark).len() == 0,
{
}

} // verus!
