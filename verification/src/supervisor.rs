//! What the firmware starts with, and what its main loop does.

use crate::nvs_config::{nvs_write_wifi_creds, NvsConfig, WritePlan};
use crate::text;
use crate::text::{parse_i32, parse_number, same};
use vstd::prelude::*;
use vstd::string::*;

verus! {

/// A UART.
#[derive(Copy, Clone, Debug, PartialEq, Eq, Structural)]
pub struct UartSettings {
    pub tx_pin: i32,
    pub rx_pin: i32,
    pub baud: u32,
}

/// A signed number, or a fallback where the text is none.
pub open spec fn signed_or(s: Seq<char>, fallback: int) -> int {
    match text::parse_dec_i32(s) {
        Some(n) => n,
        None => fallback,
    }
}

/// A 32-bit number, or a fallback where the text is none.
pub open spec fn number_or(s: Seq<char>, fallback: nat) -> nat {
    match text::parse_dec(s, 0xffff_ffff) {
        Some(n) => n,
        None => fallback,
    }
}

fn parse_signed_or(s: &str, fallback: i32) -> (n: i32)
    ensures
        n == signed_or(s@, fallback as int),
{
    match parse_i32(s) {
        Some(n) => n,
        None => fallback,
    }
}

fn parse_number_or(s: &str, fallback: u32) -> (n: u32)
    ensures
        n == number_or(s@, fallback as nat),
{
    match parse_number(s, 0xffff_ffff) {
        Some(n) => n as u32,
        None => fallback,
    }
}

/// What the settings ask for at startup.
pub struct Startup {
    pub display: bool,
    pub mini_display: bool,
    /// Push-button setup, since no network is known.
    pub wps: bool,
    pub static_ip: bool,
    pub syslog: bool,
    pub pwm: bool,
    pub cdc: bool,
    pub com1: UartSettings,
    pub com2: UartSettings,
    pub cdc_baud: u32,
    /// Seconds between attempts to configure a USB device, if it is attempted more than once.
    pub cdc_retry: Option<u64>,
}

/// Whether a setting is switched on.
pub open spec fn is_on(s: Seq<char>) -> bool {
    s == "true"@
}

/// The pause between attempts to configure a USB device.
pub open spec fn retry_pause(enable: Seq<char>, interval: Seq<char>) -> Option<u64> {
    if is_on(enable) {
        match text::parse_dec(interval, u64::MAX as nat) {
            Some(n) => Some(n as u64),
            None => Some(5),
        }
    } else {
        None
    }
}

impl Startup {
    /// What the given settings ask for.
    pub open spec fn is_for(self, c: NvsConfig) -> bool {
        &&& self.display == is_on(c.display_enable@)
        &&& self.mini_display == is_on(c.mini_display_enable@)
        &&& self.wps == (is_on(c.wps_enable@) && c.wifi_ssid@.len() == 0)
        &&& self.static_ip == (c.ip_mode@ == "static"@)
        &&& self.syslog == is_on(c.syslog_enable@)
        &&& self.pwm == is_on(c.pwm_enable@)
        &&& self.cdc == is_on(c.cdc_enable@)
        &&& self.com1.tx_pin == signed_or(c.com1_tx_pin@, 17)
        &&& self.com1.rx_pin == signed_or(c.com1_rx_pin@, 18)
        &&& self.com1.baud == number_or(c.com1_baud@, 115200)
        &&& self.com2.tx_pin == signed_or(c.com2_tx_pin@, 19)
        &&& self.com2.rx_pin == signed_or(c.com2_rx_pin@, 20)
        &&& self.com2.baud == number_or(c.com2_baud@, 115200)
        &&& self.cdc_baud == number_or(c.cdc_baud@, 115200)
        &&& self.cdc_retry == retry_pause(c.cdc_retry_enable@, c.cdc_retry_interval@)
    }
}

/// Reads what the settings ask for.
pub fn startup(c: &NvsConfig) -> (s: Startup)
    ensures
        s.is_for(*c),
{
    let cdc_retry = if same(c.cdc_retry_enable.as_str(), "true") {
        match parse_number(c.cdc_retry_interval.as_str(), u64::MAX) {
            Some(n) => Some(n),
            None => Some(5),
        }
    } else {
        None
    };
    Startup {
        display: same(c.display_enable.as_str(), "true"),
        mini_display: same(c.mini_display_enable.as_str(), "true"),
        wps: same(c.wps_enable.as_str(), "true") && c.wifi_ssid.as_str().is_empty(),
        static_ip: same(c.ip_mode.as_str(), "static"),
        syslog: same(c.syslog_enable.as_str(), "true"),
        pwm: same(c.pwm_enable.as_str(), "true"),
        cdc: same(c.cdc_enable.as_str(), "true"),
        com1: UartSettings {
            tx_pin: parse_signed_or(c.com1_tx_pin.as_str(), 17),
            rx_pin: parse_signed_or(c.com1_rx_pin.as_str(), 18),
            baud: parse_number_or(c.com1_baud.as_str(), 115200),
        },
        com2: UartSettings {
            tx_pin: parse_signed_or(c.com2_tx_pin.as_str(), 19),
            rx_pin: parse_signed_or(c.com2_rx_pin.as_str(), 20),
            baud: parse_number_or(c.com2_baud.as_str(), 115200),
        },
        cdc_baud: parse_number_or(c.cdc_baud.as_str(), 115200),
        cdc_retry,
    }
}

/// What follows push-button setup.
pub enum AfterWps {
    /// Write the credentials and restart.
    SaveAndRestart(WritePlan),
    /// Connect with the stored credentials.
    UseStored,
}

impl AfterWps {
    /// Credentials are written under their keys; without them the stored ones are used.
    pub open spec fn is_for(self, got: Option<(String, String)>) -> bool {
        match got {
            Some((ssid, pass)) => self matches AfterWps::SaveAndRestart(plan) && plan.is_for(
                seq![("wifi_ssid"@, ssid@), ("wifi_psk"@, pass@)],
            ),
            None => self is UseStored,
        }
    }
}

/// What follows push-button setup: credentials that the router sent are kept; without them the
/// stored ones are used.
pub fn after_wps(got: Option<(String, String)>) -> (a: AfterWps)
    ensures
        a.is_for(got),
{
    match got {
        Some((ssid, pass)) => AfterWps::SaveAndRestart(
            nvs_write_wifi_creds(ssid.as_str(), pass.as_str()),
        ),
        None => AfterWps::UseStored,
    }
}

/// Whether these are the time servers in order of priority.
pub open spec fn in_priority(v: Seq<String>, c: NvsConfig) -> bool {
    &&& v.len() == 4
    &&& v[0]@ == c.ntp_server1@
    &&& v[1]@ == c.ntp_server2@
    &&& v[2]@ == c.ntp_server3@
    &&& v[3]@ == c.ntp_server4@
}

/// The time servers in order of priority.
pub fn ntp_servers(c: &NvsConfig) -> (v: [String; 4])
    ensures
        in_priority(v@, *c),
{
    [c.ntp_server1.clone(), c.ntp_server2.clone(), c.ntp_server3.clone(), c.ntp_server4.clone()]
}

/// What to do while the clock is being set.
#[derive(Copy, Clone, Debug, PartialEq, Eq, Structural)]
pub enum NtpStep {
    /// The clock is set.
    Synced,
    /// Look again in ten milliseconds.
    Wait,
    /// Go on without the time.
    GiveUp,
}

/// What to do when the clock was looked at `waits` times in vain.
pub open spec fn clock_step(completed: bool, waits: u32) -> NtpStep {
    if completed {
        NtpStep::Synced
    } else if waits >= 1000 {
        NtpStep::GiveUp
    } else {
        NtpStep::Wait
    }
}

/// What to do when the clock was looked at `waits` times in vain.
pub fn ntp_step(completed: bool, waits: u32) -> (s: NtpStep)
    ensures
        s == clock_step(completed, waits),
{
    if completed {
        NtpStep::Synced
    } else if waits >= 1000 {
        NtpStep::GiveUp
    } else {
        NtpStep::Wait
    }
}

/// What one turn of the main loop does besides driving the outputs.
#[derive(Copy, Clone, Debug, PartialEq, Eq, Structural)]
pub struct Tick {
    /// Read voltages and temperature.
    pub measure: bool,
    /// Ask for a new connection.
    pub reconnect: bool,
    /// Read the signal strength, which only a connection has.
    pub read_rssi: bool,
    /// Read the address.
    pub read_ip: bool,
    /// The count of the next turn.
    pub next: u32,
}

/// What turn number `count` does: sensors every 50 turns; every 30 turns the address, or a new
/// connection where there is none.
pub open spec fn turn(count: u32, connected: bool) -> Tick {
    Tick {
        measure: count % 50 == 0,
        reconnect: !connected && count % 30 == 0,
        read_rssi: connected,
        read_ip: connected && count % 30 == 0,
        next: if count < u32::MAX {
            (count + 1) as u32
        } else {
            0
        },
    }
}

/// What turn number `count` of the main loop does.
pub fn main_tick(count: u32, connected: bool) -> (t: Tick)
    ensures
        t == turn(count, connected),
{
    Tick {
        measure: count % 50 == 0,
        reconnect: !connected && count % 30 == 0,
        read_rssi: connected,
        read_ip: connected && count % 30 == 0,
        next: if count < u32::MAX {
            count + 1
        } else {
            0
        },
    }
}

/// The timer value for a duty in percent of the largest value.
pub open spec fn scaled(duty: int, max_duty: int) -> int {
    duty * max_duty / 100
}

/// The timer value for a duty in percent of the largest value.
pub fn raw_duty(duty: u8, max_duty: u32) -> (raw: u32)
    requires
        duty * max_duty <= u32::MAX,
    ensures
        raw == scaled(duty as int, max_duty as int),
{
    duty as u32 * max_duty / 100
}

/// A duty of 0 switches the output off, one of 100 fully on, and no duty exceeds the largest value.
pub proof fn law_raw_duty(duty: int, max_duty: int)
    requires
        0 <= duty <= 100,
        0 <= max_duty,
    ensures
        0 <= scaled(duty, max_duty) <= max_duty,
        scaled(0, max_duty) == 0,
        scaled(100, max_duty) == max_duty,
{
    assert(0 <= duty * max_duty <= 100 * max_duty) by (nonlinear_arith)
        requires
            0 <= duty <= 100,
            0 <= max_duty,
    ;
}

/// The signal strength is read only while connected, and a new connection is asked for only
/// while not.
pub proof fn law_turn_is_safe(count: u32)
    ensures
        !turn(count, false).read_rssi && !turn(count, false).read_ip,
        !turn(count, true).reconnect,
{
}

/// Whether a signed number is what a setting writes, or the fallback where it writes none.
pub open spec fn signed_setting(n: int, s: Seq<char>, fallback: int) -> bool {
    &&& s.len() == 0 ==> n == fallback
    &&& s.len() > 0 && text::only_decimal(s) && text::written_number(s, 10) <= 2_147_483_647 ==> n
        == text::written_number(s, 10)
    &&& s.len() > 0 && text::only_decimal(s) && text::written_number(s, 10) > 2_147_483_647 ==> n
        == fallback
    &&& s.len() > 0 && !text::only_decimal(s) && s[0] != '+' && s[0] != '-' ==> n == fallback
}

/// Whether a number is what a setting writes, or the fallback where it writes none.
pub open spec fn number_setting(n: int, s: Seq<char>, fallback: int) -> bool {
    &&& s.len() == 0 ==> n == fallback
    &&& s.len() > 0 && text::only_decimal(s) && text::written_number(s, 10) <= 4_294_967_295 ==> n
        == text::written_number(s, 10)
    &&& s.len() > 0 && text::only_decimal(s) && text::written_number(s, 10) > 4_294_967_295 ==> n
        == fallback
    &&& s.len() > 0 && !text::only_decimal(s) && s[0] != '+' ==> n == fallback
}

proof fn lemma_signed_setting(s: Seq<char>, fallback: int)
    ensures
        signed_setting(signed_or(s, fallback), s, fallback),
{
    if s.len() > 0 {
        text::law_signed_is_read(s);
    }
}

proof fn lemma_number_setting(s: Seq<char>, fallback: nat)
    ensures
        number_setting(number_or(s, fallback) as int, s, fallback as int),
{
    text::law_number_is_read(s, 0xffff_ffff);
    if text::only_decimal(s) {
        text::lemma_same_value(s);
    }
}

/// What is started follows from the setting of its own name: a switch is on exactly if its setting
/// is `true`; pins and rates are what their settings write, with a fallback each.
pub proof fn law_startup_by_setting(s: Startup, c: NvsConfig)
    requires
        s.is_for(c),
    ensures
        s.display <==> c.display_enable@ == "true"@,
        s.mini_display <==> c.mini_display_enable@ == "true"@,
        s.wps <==> c.wps_enable@ == "true"@ && c.wifi_ssid@.len() == 0,
        s.static_ip <==> c.ip_mode@ == "static"@,
        s.syslog <==> c.syslog_enable@ == "true"@,
        s.pwm <==> c.pwm_enable@ == "true"@,
        s.cdc <==> c.cdc_enable@ == "true"@,
        signed_setting(s.com1.tx_pin as int, c.com1_tx_pin@, 17),
        signed_setting(s.com1.rx_pin as int, c.com1_rx_pin@, 18),
        number_setting(s.com1.baud as int, c.com1_baud@, 115200),
        signed_setting(s.com2.tx_pin as int, c.com2_tx_pin@, 19),
        signed_setting(s.com2.rx_pin as int, c.com2_rx_pin@, 20),
        number_setting(s.com2.baud as int, c.com2_baud@, 115200),
        number_setting(s.cdc_baud as int, c.cdc_baud@, 115200),
        s.cdc_retry is Some <==> c.cdc_retry_enable@ == "true"@,
        c.cdc_retry_enable@ == "true"@ && c.cdc_retry_interval@.len() == 0 ==> s.cdc_retry == Some(
            5u64,
        ),
        c.cdc_retry_enable@ == "true"@ && c.cdc_retry_interval@.len() > 0 && text::only_decimal(
            c.cdc_retry_interval@,
        ) && text::written_number(c.cdc_retry_interval@, 10) <= u64::MAX ==> s.cdc_retry->0
            == text::written_number(c.cdc_retry_interval@, 10),
{
    lemma_signed_setting(c.com1_tx_pin@, 17);
    lemma_signed_setting(c.com1_rx_pin@, 18);
    lemma_number_setting(c.com1_baud@, 115200);
    lemma_signed_setting(c.com2_tx_pin@, 19);
    lemma_signed_setting(c.com2_rx_pin@, 20);
    lemma_number_setting(c.com2_baud@, 115200);
    lemma_number_setting(c.cdc_baud@, 115200);
    text::law_number_is_read(c.cdc_retry_interval@, u64::MAX as nat);
    if text::only_decimal(c.cdc_retry_interval@) {
        text::lemma_same_value(c.cdc_retry_interval@);
    }
}

/// Sensors are read in every fiftieth turn, whether connected or not; in every thirtieth the
/// address is read or a new connection asked for; the signal strength is read in every turn while
/// connected. The count goes up by one and begins anew behind its largest value.
pub proof fn law_turns(k: int, r: int, connected: bool)
    requires
        0 <= k,
        0 <= r < 50,
        50 * k + r <= 0xffff_ffff,
    ensures
        turn((50 * k + r) as u32, connected).measure <==> r == 0,
        50 * k + r < 0xffff_ffff ==> turn((50 * k + r) as u32, connected).next == 50 * k + r + 1,
        turn(0xffff_ffff, connected).next == 0,
{
}

/// The same of the turns that concern the connection.
pub proof fn law_connection_turns(k: int, r: int)
    requires
        0 <= k,
        0 <= r < 30,
        30 * k + r <= 0xffff_ffff,
    ensures
        turn((30 * k + r) as u32, true).read_ip <==> r == 0,
        turn((30 * k + r) as u32, false).reconnect <==> r == 0,
        turn((30 * k + r) as u32, true).read_rssi,
        !turn((30 * k + r) as u32, false).read_rssi,
{
}

/// The timer value is the duty's share of the largest value, rounded down.
pub proof fn law_duty_share(duty: int, max_duty: int)
    requires
        0 <= duty <= 100,
        0 <= max_duty,
    ensures
        100 * scaled(duty, max_duty) <= duty * max_duty < 100 * (scaled(duty, max_duty) + 1),
{
}

/// The first time server is asked first, the fourth last.
pub proof fn law_time_servers(v: Seq<String>, c: NvsConfig)
    requires
        in_priority(v, c),
    ensures
        v.len() == 4,
        v[0]@ == c.ntp_server1@,
        v[1]@ == c.ntp_server2@,
        v[2]@ == c.ntp_server3@,
        v[3]@ == c.ntp_server4@,
{
}

/// The clock is waited for a thousand times at most, and no longer than it takes.
pub proof fn law_clock_steps(waits: u32)
    ensures
        clock_step(true, waits) == NtpStep::Synced,
        waits < 1000 ==> clock_step(false, waits) == NtpStep::Wait,
        waits >= 1000 ==> clock_step(false, waits) == NtpStep::GiveUp,
{
}

/// Credentials of push-button setup are stored under the keys of the wireless network: the name
/// under its own and the passphrase under its own.
pub proof fn law_credentials_are_kept(a: AfterWps, ssid: String, pass: String)
    requires
        a.is_for(Some((ssid, pass))),
    ensures
        a is SaveAndRestart,
        crate::nvs_config::has_zero(ssid@) || crate::nvs_config::writes(
            a->SaveAndRestart_0,
            "wifi_ssid"@,
            ssid@,
        ),
        crate::nvs_config::has_zero(pass@) || crate::nvs_config::writes(
            a->SaveAndRestart_0,
            "wifi_psk"@,
            pass@,
        ),
{
    crate::nvs_config::law_credentials_by_name(ssid@, pass@, a->SaveAndRestart_0);
}

/// Without credentials the stored ones are used.
pub proof fn law_stored_are_used(a: AfterWps)
    requires
        a.is_for(None),
    ensures
        a is UseStored,
{
}

} // verus!
