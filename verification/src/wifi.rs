//! Joining a wireless network: credentials and fixed addresses.

use crate::text;
use crate::text::{parse_number, split_text};
use core::str::FromStr;
use vstd::prelude::*;
use vstd::string::*;
use vstd::utf8::*;

verus! {

/// Bytes that a network name can have.
pub const SSID_MAX: usize = 32;

/// Bytes that a passphrase can have.
pub const PASS_MAX: usize = 64;

/// Length of a text in bytes.
pub open spec fn byte_len(t: Seq<char>) -> nat {
    encode_utf8(t).len()
}

/// `heapless::String::<N>::from_str`: the text if it has at most `N` bytes.
#[verifier::external_body]
fn heapless_text<const N: usize>(s: &str) -> (r: Option<String>)
    ensures
        r is Some <==> byte_len(s@) <= N,
        r matches Some(t) ==> t@ == s@,
{
    let t = heapless::String::<N>::from_str(s).ok()?;
    Some(t.as_str().to_owned())
}

/// Why a network cannot be joined.
#[derive(Copy, Clone, Debug, PartialEq, Eq, Structural)]
pub enum WifiError {
    /// Name or passphrase is empty.
    Empty,
    SsidTooLong,
    PassTooLong,
}

impl WifiError {
    /// The error in words.
    pub fn message(&self) -> (m: &'static str)
        ensures
            m@ == match *self {
                WifiError::Empty => "SSID or password is empty"@,
                WifiError::SsidTooLong => "WPS SSID too long"@,
                WifiError::PassTooLong => "WPS passphrase too long"@,
            },
    {
        match *self {
            WifiError::Empty => "SSID or password is empty",
            WifiError::SsidTooLong => "WPS SSID too long",
            WifiError::PassTooLong => "WPS passphrase too long",
        }
    }
}

/// What the radio is configured with.
pub struct Credentials {
    pub ssid: String,
    pub password: String,
}

/// Which error credentials of these lengths give, if any: the name is looked at first.
pub open spec fn length_error(ssid: Seq<char>, pass: Seq<char>) -> Option<WifiError> {
    if byte_len(ssid) > SSID_MAX {
        Some(WifiError::SsidTooLong)
    } else if byte_len(pass) > PASS_MAX {
        Some(WifiError::PassTooLong)
    } else {
        None
    }
}

/// What credentials are configured as: themselves, if they fit.
pub open spec fn configured(
    r: Result<Credentials, WifiError>,
    ssid: Seq<char>,
    pass: Seq<char>,
) -> bool {
    match length_error(ssid, pass) {
        Some(e) => r == Err::<Credentials, WifiError>(e),
        None => r matches Ok(c) && c.ssid@ == ssid && c.password@ == pass,
    }
}

/// Credentials in the form that the radio takes.
pub fn client_configuration(ssid: &str, pass: &str) -> (r: Result<Credentials, WifiError>)
    ensures
        configured(r, ssid@, pass@),
{
    match heapless_text::<32>(ssid) {
        None => Err(WifiError::SsidTooLong),
        Some(s) => match heapless_text::<64>(pass) {
            None => Err(WifiError::PassTooLong),
            Some(p) => Ok(Credentials { ssid: s, password: p }),
        },
    }
}

/// What stored credentials are joined with: themselves, unless one is empty.
pub open spec fn joins(r: Result<Credentials, WifiError>, ssid: Seq<char>, pass: Seq<char>) -> bool {
    &&& r is Err <==> ssid.len() == 0 || pass.len() == 0
    &&& r matches Err(e) ==> e == WifiError::Empty
    &&& r matches Ok(c) ==> c.ssid@ == ssid && c.password@ == pass
}

/// The configuration for stored credentials; empty ones are refused, others must fit.
pub fn wifi_connect(ssid: &str, pass: &str) -> (r: Result<Credentials, WifiError>)
    requires
        ssid@.len() > 0 && pass@.len() > 0 ==> length_error(ssid@, pass@) is None,
    ensures
        joins(r, ssid@, pass@),
{
    if ssid.is_empty() || pass.is_empty() {
        return Err(WifiError::Empty);
    }
    client_configuration(ssid, pass)
}

/// What to do while a connection is being made.
#[derive(Copy, Clone, Debug, PartialEq, Eq, Structural)]
pub enum ConnectStep {
    Connected,
    /// Wait a second and look again.
    Retry,
    /// Wait a second and go on without a connection.
    GiveUp,
}

/// What to do after `waited` seconds, of `limit` at most.
pub open spec fn connecting(connected: bool, waited: int, limit: int) -> ConnectStep {
    if connected {
        ConnectStep::Connected
    } else if waited + 1 >= limit {
        ConnectStep::GiveUp
    } else {
        ConnectStep::Retry
    }
}

/// What to do after `waited` seconds, of `limit` at most.
pub fn connect_step(connected: bool, waited: u32, limit: u32) -> (s: ConnectStep)
    ensures
        s == connecting(connected, waited as int, limit as int),
{
    if connected {
        ConnectStep::Connected
    } else if limit == 0 || waited >= limit - 1 {
        ConnectStep::GiveUp
    } else {
        ConnectStep::Retry
    }
}

/// Seconds that a connection with stored credentials may take.
pub const CONNECT_SECONDS: u32 = 11;

/// Seconds that a connection with fresh credentials may take.
pub const WPS_CONNECT_SECONDS: u32 = 15;

/// One number of an address: one to three digits, no leading zero, at most 255.
pub open spec fn octet(s: Seq<char>) -> Option<u8> {
    if 1 <= s.len() <= 3 && text::all_digits(s) && (s.len() == 1 || s[0] != '0')
        && text::dec_value(s) <= 255 {
        Some(text::dec_value(s) as u8)
    } else {
        None
    }
}

/// The address that four numbers between dots write.
pub open spec fn ipv4(s: Seq<char>) -> Option<Seq<u8>> {
    let p = text::split_on(s, '.');
    if p.len() == 4 && octet(p[0]) is Some && octet(p[1]) is Some && octet(p[2]) is Some && octet(
        p[3],
    ) is Some {
        Some(seq![octet(p[0])->0, octet(p[1])->0, octet(p[2])->0, octet(p[3])->0])
    } else {
        None
    }
}

fn parse_octet(s: &str) -> (r: Option<u8>)
    ensures
        r == octet(s@),
{
    let cs = text::chars_of(s);
    let n: usize = cs.len();
    if n < 1 || n > 3 || (n > 1 && cs[0] == '0') {
        return None;
    }
    if cs[0] == '+' {
        proof {
            assert(!text::is_digit(s@[0]));
        }
        return None;
    }
    match parse_number(s, 255) {
        Some(v) => Some(v as u8),
        None => None,
    }
}

/// The view of an address that may be missing.
pub open spec fn address_view(a: Option<[u8; 4]>) -> Option<Seq<u8>> {
    match a {
        Some(v) => Some(v@),
        None => None,
    }
}

/// The address that a text writes.
pub fn parse_ipv4(s: &str) -> (r: Option<[u8; 4]>)
    ensures
        address_view(r) == ipv4(s@),
{
    let parts = split_text(s, '.');
    let ghost p = text::split_on(s@, '.');
    proof {
        assert(p.len() == parts@.len());
        assert forall|i: int| 0 <= i < p.len() implies #[trigger] p[i] == parts@[i]@ by {}
    }
    if parts.len() != 4 {
        return None;
    }
    let a = parse_octet(parts[0].as_str());
    let b = parse_octet(parts[1].as_str());
    let c = parse_octet(parts[2].as_str());
    let d = parse_octet(parts[3].as_str());
    match (a, b, c, d) {
        (Some(a), Some(b), Some(c), Some(d)) => {
            let r = [a, b, c, d];
            proof {
                assert(r@ =~= seq![a, b, c, d]);
            }
            Some(r)
        },
        _ => None,
    }
}

/// A fixed address.
pub struct StaticIp {
    pub ip: [u8; 4],
    pub mask: [u8; 4],
    pub gateway: [u8; 4],
    /// The name server, where a valid one is given.
    pub dns: Option<[u8; 4]>,
}

/// Why a fixed address cannot be used.
#[derive(Copy, Clone, Debug, PartialEq, Eq, Structural)]
pub enum StaticIpError {
    NotConfigured,
    InvalidAddress,
    InvalidMask,
    InvalidGateway,
}

/// Which error these settings give, if any.
pub open spec fn static_ip_error(ip: Seq<char>, mask: Seq<char>, gateway: Seq<char>) -> Option<
    StaticIpError,
> {
    if ip.len() == 0 {
        Some(StaticIpError::NotConfigured)
    } else if ipv4(ip) is None {
        Some(StaticIpError::InvalidAddress)
    } else if ipv4(mask) is None {
        Some(StaticIpError::InvalidMask)
    } else if ipv4(gateway) is None {
        Some(StaticIpError::InvalidGateway)
    } else {
        None
    }
}

/// What the settings of a fixed address are read as.
pub open spec fn static_ip(
    r: Result<StaticIp, StaticIpError>,
    ip: Seq<char>,
    mask: Seq<char>,
    gateway: Seq<char>,
    dns: Seq<char>,
) -> bool {
    match static_ip_error(ip, mask, gateway) {
        Some(e) => r == Err::<StaticIp, StaticIpError>(e),
        None => {
            &&& r matches Ok(c)
            &&& Some(c.ip@) == ipv4(ip)
            &&& Some(c.mask@) == ipv4(mask)
            &&& Some(c.gateway@) == ipv4(gateway)
            &&& address_view(c.dns) == ipv4(dns)
        },
    }
}

/// Reads the settings of a fixed address.
pub fn configure_static_ip(ip_addr: &str, subnet_mask: &str, gateway: &str, dns: &str) -> (r: Result<
    StaticIp,
    StaticIpError,
>)
    ensures
        static_ip(r, ip_addr@, subnet_mask@, gateway@, dns@),
{
    if ip_addr.is_empty() {
        return Err(StaticIpError::NotConfigured);
    }
    let ip = match parse_ipv4(ip_addr) {
        Some(a) => a,
        None => {
            return Err(StaticIpError::InvalidAddress);
        },
    };
    let mask = match parse_ipv4(subnet_mask) {
        Some(a) => a,
        None => {
            return Err(StaticIpError::InvalidMask);
        },
    };
    let gw = match parse_ipv4(gateway) {
        Some(a) => a,
        None => {
            return Err(StaticIpError::InvalidGateway);
        },
    };
    Ok(StaticIp { ip, mask, gateway: gw, dns: parse_ipv4(dns) })
}

/// The error in words; `value` is the text that was refused.
pub open spec fn static_ip_message(e: StaticIpError, value: Seq<char>) -> Seq<char> {
    match e {
        StaticIpError::NotConfigured => "Static IP address is not configured"@,
        StaticIpError::InvalidAddress => "Invalid IP address '"@ + value
            + "': invalid IPv4 address syntax"@,
        StaticIpError::InvalidMask => "Invalid subnet mask '"@ + value
            + "': invalid IPv4 address syntax"@,
        StaticIpError::InvalidGateway => "Invalid gateway '"@ + value
            + "': invalid IPv4 address syntax"@,
    }
}

impl StaticIpError {
    /// The error in words; `value` is the text that was refused.
    pub fn message(&self, value: &str) -> (m: String)
        ensures
            m@ == static_ip_message(*self, value@),
    {
        let head = match *self {
            StaticIpError::NotConfigured => {
                return "Static IP address is not configured".to_owned();
            },
            StaticIpError::InvalidAddress => "Invalid IP address '",
            StaticIpError::InvalidMask => "Invalid subnet mask '",
            StaticIpError::InvalidGateway => "Invalid gateway '",
        };
        let mut out = head.to_owned();
        out.append(value);
        out.append("': invalid IPv4 address syntax");
        out
    }
}

/// An address reads back from the way it is usually written.
pub proof fn law_ipv4_reads_back(a: u8, b: u8, c: u8, d: u8)
    ensures
        ipv4(
            text::join(
                seq![
                    text::dec(a as nat),
                    text::dec(b as nat),
                    text::dec(c as nat),
                    text::dec(d as nat),
                ],
                seq!['.'],
            ),
        ) == Some(seq![a, b, c, d]),
{
    lemma_octet_reads_back(a);
    lemma_octet_reads_back(b);
    lemma_octet_reads_back(c);
    lemma_octet_reads_back(d);
    let parts = seq![
        text::dec(a as nat),
        text::dec(b as nat),
        text::dec(c as nat),
        text::dec(d as nat),
    ];
    assert forall|i: int| 0 <= i < parts.len() implies !(#[trigger] parts[i]).contains('.') by {
        let n = if i == 0 {
            a
        } else if i == 1 {
            b
        } else if i == 2 {
            c
        } else {
            d
        };
        lemma_octet_reads_back(n);
        assert(parts[i] == text::dec(n as nat));
        if parts[i].contains('.') {
            let k = choose|k: int| 0 <= k < parts[i].len() && parts[i][k] == '.';
            assert(text::is_digit(parts[i][k]));
        }
    }
    text::lemma_split_join(parts, '.');
}

proof fn lemma_octet_reads_back(n: u8)
    ensures
        octet(text::dec(n as nat)) == Some(n),
        text::all_digits(text::dec(n as nat)),
{
    reveal_with_fuel(text::dec, 4);
    reveal_with_fuel(text::dec_value, 4);
    let d = text::dec(n as nat);
    if n >= 100 {
        let e = d.drop_last();
        assert(e =~= text::dec((n / 10) as nat));
        assert(e.drop_last() =~= text::dec((n / 100) as nat));
    } else if n >= 10 {
        assert(d.drop_last() =~= text::dec((n / 10) as nat));
    }
}

/// A number of an address is one to three decimal digits that write a number up to 255, without a
/// leading zero; nothing else is one.
pub proof fn law_octet(s: Seq<char>)
    ensures
        1 <= s.len() <= 3 && text::only_decimal(s) && text::written_number(s, 10) <= 255 && (s.len()
            == 1 || s[0] != '0') ==> octet(s) == Some(text::written_number(s, 10) as u8),
        octet(s) is Some ==> {
            &&& 1 <= s.len() <= 3
            &&& text::only_decimal(s)
            &&& s.len() > 1 ==> s[0] != '0'
            &&& octet(s)->0 == text::written_number(s, 10)
        },
{
    if octet(s) is Some {
        assert forall|i: int| 0 <= i < s.len() implies '0' <= #[trigger] s[i] <= '9' by {
            assert(text::is_digit(s[i]));
        }
    }
    if text::only_decimal(s) {
        text::lemma_same_value(s);
    }
}

/// An address is four such numbers between dots, in this order; three or five are none.
pub proof fn law_ipv4_by_parts(parts: Seq<Seq<char>>)
    requires
        parts.len() > 0,
        forall|i: int| 0 <= i < parts.len() ==> !(#[trigger] parts[i]).contains('.'),
    ensures
        ({
            let a = ipv4(text::join(parts, seq!['.']));
            &&& parts.len() != 4 ==> a is None
            &&& parts.len() == 4 ==> {
                let all = octet(parts[0]) is Some && octet(parts[1]) is Some && octet(
                    parts[2],
                ) is Some && octet(parts[3]) is Some;
                &&& a is Some <==> all
                &&& all ==> a->0 == seq![
                    octet(parts[0])->0,
                    octet(parts[1])->0,
                    octet(parts[2])->0,
                    octet(parts[3])->0,
                ]
            }
        }),
{
    text::lemma_split_join(parts, '.');
}

/// A name of more than 32 bytes is refused before a passphrase of more than 64.
pub proof fn law_lengths(ssid: Seq<char>, pass: Seq<char>)
    ensures
        encode_utf8(ssid).len() > 32 ==> length_error(ssid, pass) == Some(WifiError::SsidTooLong),
        encode_utf8(ssid).len() <= 32 && encode_utf8(pass).len() > 64 ==> length_error(ssid, pass)
            == Some(WifiError::PassTooLong),
        encode_utf8(ssid).len() <= 32 && encode_utf8(pass).len() <= 64 ==> length_error(
            ssid,
            pass,
        ) is None,
{
}

/// The first setting of a fixed address that cannot be used is the reason: address, mask, gateway.
pub proof fn law_static_ip_refusals(ip: Seq<char>, mask: Seq<char>, gateway: Seq<char>)
    ensures
        ip.len() == 0 ==> static_ip_error(ip, mask, gateway) == Some(StaticIpError::NotConfigured),
        ip.len() > 0 && ipv4(ip) is None ==> static_ip_error(ip, mask, gateway) == Some(
            StaticIpError::InvalidAddress,
        ),
        ip.len() > 0 && ipv4(ip) is Some && ipv4(mask) is None ==> static_ip_error(
            ip,
            mask,
            gateway,
        ) == Some(StaticIpError::InvalidMask),
        ip.len() > 0 && ipv4(ip) is Some && ipv4(mask) is Some && ipv4(gateway) is None
            ==> static_ip_error(ip, mask, gateway) == Some(StaticIpError::InvalidGateway),
        ip.len() > 0 && ipv4(ip) is Some && ipv4(mask) is Some && ipv4(gateway) is Some
            ==> static_ip_error(ip, mask, gateway) is None,
{
}

/// What is said of a refused setting names the setting and quotes what was refused.
pub proof fn law_static_ip_words(value: Seq<char>)
    ensures
        static_ip_message(StaticIpError::NotConfigured, value)
            == "Static IP address is not configured"@,
        static_ip_message(StaticIpError::InvalidAddress, value) == "Invalid IP address '"@ + value
            + "': invalid IPv4 address syntax"@,
        static_ip_message(StaticIpError::InvalidMask, value) == "Invalid subnet mask '"@ + value
            + "': invalid IPv4 address syntax"@,
        static_ip_message(StaticIpError::InvalidGateway, value) == "Invalid gateway '"@ + value
            + "': invalid IPv4 address syntax"@,
{
}

/// A connection is looked for once a second, as often as the limit says: 11 times with stored
/// credentials, 15 times with fresh ones.
pub proof fn law_connection_limits(waited: int)
    requires
        0 <= waited,
    ensures
        connecting(true, waited, 11) == ConnectStep::Connected,
        waited < 10 ==> connecting(false, waited, CONNECT_SECONDS as int) == ConnectStep::Retry,
        waited >= 10 ==> connecting(false, waited, CONNECT_SECONDS as int) == ConnectStep::GiveUp,
        waited < 14 ==> connecting(false, waited, WPS_CONNECT_SECONDS as int) == ConnectStep::Retry,
        waited >= 14 ==> connecting(false, waited, WPS_CONNECT_SECONDS as int)
            == ConnectStep::GiveUp,
{
}

/// The network is joined with the name as its name and the passphrase as its passphrase.
pub proof fn law_credentials_in_place(
    r: Result<Credentials, WifiError>,
    ssid: Seq<char>,
    pass: Seq<char>,
)
    ensures
        joins(r, ssid, pass) && ssid.len() > 0 && pass.len() > 0 ==> (r matches Ok(c) && c.ssid@
            == ssid && c.password@ == pass),
        joins(r, ssid, pass) && (ssid.len() == 0 || pass.len() == 0) ==> r
            == Err::<Credentials, WifiError>(WifiError::Empty),
        configured(r, ssid, pass) && encode_utf8(ssid).len() <= 32 && encode_utf8(pass).len() <= 64
            ==> (r matches Ok(c) && c.ssid@ == ssid && c.password@ == pass),
        configured(r, ssid, pass) && encode_utf8(ssid).len() > 32 ==> r
            == Err::<Credentials, WifiError>(WifiError::SsidTooLong),
        configured(r, ssid, pass) && encode_utf8(ssid).len() <= 32 && encode_utf8(pass).len() > 64
            ==> r == Err::<Credentials, WifiError>(WifiError::PassTooLong),
{
}

/// Each part of a fixed address is read from its own setting; a name server that is no address is
/// left out.
pub proof fn law_static_ip_by_setting(
    r: Result<StaticIp, StaticIpError>,
    ip: Seq<char>,
    mask: Seq<char>,
    gateway: Seq<char>,
    dns: Seq<char>,
)
    requires
        static_ip(r, ip, mask, gateway, dns),
        ip.len() > 0,
        ipv4(ip) is Some,
        ipv4(mask) is Some,
        ipv4(gateway) is Some,
    ensures
        r matches Ok(c) && c.ip@ == ipv4(ip)->0 && c.mask@ == ipv4(mask)->0 && c.gateway@ == ipv4(
            gateway,
        )->0 && (c.dns is Some <==> ipv4(dns) is Some) && (c.dns matches Some(d) ==> d@ == ipv4(
            dns,
        )->0),
{
}

} // verus!
