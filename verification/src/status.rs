//! What the device reports about itself.

use vstd::prelude::*;
use vstd::string::*;

verus! {

/// How warm the chip is: below 70, below 85, or 85 degrees and more.
#[derive(Copy, Clone, Debug, PartialEq, Eq, Structural)]
pub enum Heat {
    Normal,
    Warm,
    Hot,
}

/// Network and sensor readings. Voltages are written with two decimals, the temperature with one.
pub struct StatusInfo {
    pub ip_address: String,
    pub ssid: String,
    pub rssi: i32,
    pub dc_in_voltage: String,
    pub dc_out_voltage: String,
    pub chip_temp: String,
    pub heat: Heat,
}

/// The readings as plain values.
pub struct Status {
    pub ip_address: Seq<char>,
    pub ssid: Seq<char>,
    pub rssi: i32,
    pub dc_in_voltage: Seq<char>,
    pub dc_out_voltage: Seq<char>,
    pub chip_temp: Seq<char>,
    pub heat: Heat,
}

impl View for StatusInfo {
    type V = Status;

    open spec fn view(&self) -> Status {
        Status {
            ip_address: self.ip_address@,
            ssid: self.ssid@,
            rssi: self.rssi,
            dc_in_voltage: self.dc_in_voltage@,
            dc_out_voltage: self.dc_out_voltage@,
            chip_temp: self.chip_temp@,
            heat: self.heat,
        }
    }
}

/// The readings before anything was read.
pub open spec fn unread() -> Status {
    Status {
        ip_address: "--"@,
        ssid: "--"@,
        rssi: 0,
        dc_in_voltage: "0.00"@,
        dc_out_voltage: "0.00"@,
        chip_temp: "0.0"@,
        heat: Heat::Normal,
    }
}

/// The readings with others of the network.
pub open spec fn with_wifi(s: Status, ip: Seq<char>, ssid: Seq<char>, rssi: i32) -> Status {
    Status { ip_address: ip, ssid, rssi, ..s }
}

/// The readings with other voltages.
pub open spec fn with_voltages(s: Status, dc_in: Seq<char>, dc_out: Seq<char>) -> Status {
    Status { dc_in_voltage: dc_in, dc_out_voltage: dc_out, ..s }
}

/// The readings with another temperature.
pub open spec fn with_temp(s: Status, temp: Seq<char>, heat: Heat) -> Status {
    Status { chip_temp: temp, heat, ..s }
}

impl StatusInfo {
    /// No reading yet.
    pub fn new() -> (s: StatusInfo)
        ensures
            s@ == unread(),
    {
        StatusInfo {
            ip_address: "--".to_owned(),
            ssid: "--".to_owned(),
            rssi: 0,
            dc_in_voltage: "0.00".to_owned(),
            dc_out_voltage: "0.00".to_owned(),
            chip_temp: "0.0".to_owned(),
            heat: Heat::Normal,
        }
    }

    /// A copy of the readings.
    pub fn snapshot(&self) -> (s: StatusInfo)
        ensures
            s@ == self@,
    {
        StatusInfo {
            ip_address: self.ip_address.clone(),
            ssid: self.ssid.clone(),
            rssi: self.rssi,
            dc_in_voltage: self.dc_in_voltage.clone(),
            dc_out_voltage: self.dc_out_voltage.clone(),
            chip_temp: self.chip_temp.clone(),
            heat: self.heat,
        }
    }

    /// Sets address, network name and signal strength.
    pub fn set_wifi(&mut self, ip: &str, ssid: &str, rssi: i32)
        ensures
            final(self)@ == with_wifi(old(self)@, ip@, ssid@, rssi),
    {
        self.ip_address = ip.to_owned();
        self.ssid = ssid.to_owned();
        self.rssi = rssi;
    }

    /// Sets the signal strength.
    pub fn set_rssi(&mut self, rssi: i32)
        ensures
            final(self)@ == (Status { rssi, ..old(self)@ }),
    {
        self.rssi = rssi;
    }

    /// Sets the two voltages.
    pub fn set_voltages(&mut self, dc_in: &str, dc_out: &str)
        ensures
            final(self)@ == with_voltages(old(self)@, dc_in@, dc_out@),
    {
        self.dc_in_voltage = dc_in.to_owned();
        self.dc_out_voltage = dc_out.to_owned();
    }

    /// Sets the chip temperature.
    pub fn set_chip_temp(&mut self, temp: &str, heat: Heat)
        ensures
            final(self)@ == with_temp(old(self)@, temp@, heat),
    {
        self.chip_temp = temp.to_owned();
        self.heat = heat;
    }
}

/// Before anything was read, the texts say so and the numbers are zero.
pub proof fn law_unread()
    ensures
        unread().ip_address == "--"@,
        unread().ssid == "--"@,
        unread().rssi == 0,
        unread().dc_in_voltage == "0.00"@,
        unread().dc_out_voltage == "0.00"@,
        unread().chip_temp == "0.0"@,
        unread().heat == Heat::Normal,
{
}

/// What is read of the network, the voltages and the temperature replaces its own readings and no
/// others.
pub proof fn law_readings_replace_their_own(
    s: Status,
    a: Seq<char>,
    b: Seq<char>,
    rssi: i32,
    heat: Heat,
)
    ensures
        ({
            let w = with_wifi(s, a, b, rssi);
            &&& w.ip_address == a && w.ssid == b && w.rssi == rssi
            &&& w.dc_in_voltage == s.dc_in_voltage && w.dc_out_voltage == s.dc_out_voltage
            &&& w.chip_temp == s.chip_temp && w.heat == s.heat
        }),
        ({
            let v = with_voltages(s, a, b);
            &&& v.dc_in_voltage == a && v.dc_out_voltage == b
            &&& v.ip_address == s.ip_address && v.ssid == s.ssid && v.rssi == s.rssi
            &&& v.chip_temp == s.chip_temp && v.heat == s.heat
        }),
        ({
            let t = with_temp(s, a, heat);
            &&& t.chip_temp == a && t.heat == heat
            &&& t.ip_address == s.ip_address && t.ssid == s.ssid && t.rssi == s.rssi
            &&& t.dc_in_voltage == s.dc_in_voltage && t.dc_out_voltage == s.dc_out_voltage
        }),
{
}

/// The plain values of the readings are the readings, each under its own name.
pub proof fn law_status_view(s: StatusInfo)
    ensures
        s@.ip_address == s.ip_address@,
        s@.ssid == s.ssid@,
        s@.rssi == s.rssi,
        s@.dc_in_voltage == s.dc_in_voltage@,
        s@.dc_out_voltage == s.dc_out_voltage@,
        s@.chip_temp == s.chip_temp@,
        s@.heat == s.heat,
{
}

} // verus!
