//! The settings of the device, and how they are kept in flash storage.

use crate::text::{has_nul, stored_text};
use crate::text;
use crate::text_map;
use crate::text_map::TextMap;
use vstd::prelude::*;
use vstd::string::*;

verus! {

/// The storage namespace of the settings.
pub const NVS_NS: &'static str = "usbotg_cfg";

/// All settings, each as text.
pub struct NvsConfig {
    pub wifi_ssid: String,
    pub wifi_psk: String,
    pub ip_mode: String,
    pub ip_address: String,
    pub subnet_mask: String,
    pub gateway: String,
    pub dns: String,
    pub syslog_server: String,
    pub syslog_enable: String,
    pub syslog_host_name: String,
    pub syslog_app_name: String,
    pub ssh_user: String,
    pub ssh_password: String,
    pub com1_tx_pin: String,
    pub com1_rx_pin: String,
    pub com1_baud: String,
    pub com2_tx_pin: String,
    pub com2_rx_pin: String,
    pub com2_baud: String,
    pub cdc_enable: String,
    pub cdc_baud: String,
    pub cdc_retry_enable: String,
    pub cdc_retry_interval: String,
    pub display_enable: String,
    pub display_port: String,
    pub mini_display_enable: String,
    pub wps_enable: String,
    pub pwm_enable: String,
    pub ntp_server1: String,
    pub ntp_server2: String,
    pub ntp_server3: String,
    pub ntp_server4: String,
}

/// Number of settings.
pub open spec fn setting_count() -> nat {
    32
}

/// Number of settings that saving writes; they come first.
pub open spec fn saved_count() -> nat {
    29
}

/// The storage key of setting `i`.
pub open spec fn key(i: int) -> Seq<char> {
    if i == 0 {
        "wifi_ssid"@
    } else if i == 1 {
        "wifi_psk"@
    } else if i == 2 {
        "ip_mode"@
    } else if i == 3 {
        "ip_address"@
    } else if i == 4 {
        "subnet_mask"@
    } else if i == 5 {
        "gateway"@
    } else if i == 6 {
        "dns"@
    } else if i == 7 {
        "syslog_server"@
    } else if i == 8 {
        "syslog_enable"@
    } else if i == 9 {
        "syslog_hostname"@
    } else if i == 10 {
        "syslog_app_name"@
    } else if i == 11 {
        "ssh_user"@
    } else if i == 12 {
        "ssh_password"@
    } else if i == 13 {
        "com1_tx_pin"@
    } else if i == 14 {
        "com1_rx_pin"@
    } else if i == 15 {
        "com1_baud"@
    } else if i == 16 {
        "com2_tx_pin"@
    } else if i == 17 {
        "com2_rx_pin"@
    } else if i == 18 {
        "com2_baud"@
    } else if i == 19 {
        "cdc_enable"@
    } else if i == 20 {
        "cdc_baud"@
    } else if i == 21 {
        "display_enable"@
    } else if i == 22 {
        "display_port"@
    } else if i == 23 {
        "wps_enable"@
    } else if i == 24 {
        "pwm_enable"@
    } else if i == 25 {
        "ntp_server1"@
    } else if i == 26 {
        "ntp_server2"@
    } else if i == 27 {
        "ntp_server3"@
    } else if i == 28 {
        "ntp_server4"@
    } else if i == 29 {
        "cdc_retry_enable"@
    } else if i == 30 {
        "cdc_retry_interval"@
    } else {
        "mini_display_enable"@
    }
}

impl View for NvsConfig {
    type V = Seq<Seq<char>>;

    /// The settings in the order of their keys.
    open spec fn view(&self) -> Seq<Seq<char>> {
        seq![
            self.wifi_ssid@,
            self.wifi_psk@,
            self.ip_mode@,
            self.ip_address@,
            self.subnet_mask@,
            self.gateway@,
            self.dns@,
            self.syslog_server@,
            self.syslog_enable@,
            self.syslog_host_name@,
            self.syslog_app_name@,
            self.ssh_user@,
            self.ssh_password@,
            self.com1_tx_pin@,
            self.com1_rx_pin@,
            self.com1_baud@,
            self.com2_tx_pin@,
            self.com2_rx_pin@,
            self.com2_baud@,
            self.cdc_enable@,
            self.cdc_baud@,
            self.display_enable@,
            self.display_port@,
            self.wps_enable@,
            self.pwm_enable@,
            self.ntp_server1@,
            self.ntp_server2@,
            self.ntp_server3@,
            self.ntp_server4@,
            self.cdc_retry_enable@,
            self.cdc_retry_interval@,
            self.mini_display_enable@,
        ]
    }
}

impl Clone for NvsConfig {
    fn clone(&self) -> (c: NvsConfig)
        ensures
            c@ == self@,
    {
        let c = NvsConfig {
            wifi_ssid: self.wifi_ssid.clone(),
            wifi_psk: self.wifi_psk.clone(),
            ip_mode: self.ip_mode.clone(),
            ip_address: self.ip_address.clone(),
            subnet_mask: self.subnet_mask.clone(),
            gateway: self.gateway.clone(),
            dns: self.dns.clone(),
            syslog_server: self.syslog_server.clone(),
            syslog_enable: self.syslog_enable.clone(),
            syslog_host_name: self.syslog_host_name.clone(),
            syslog_app_name: self.syslog_app_name.clone(),
            ssh_user: self.ssh_user.clone(),
            ssh_password: self.ssh_password.clone(),
            com1_tx_pin: self.com1_tx_pin.clone(),
            com1_rx_pin: self.com1_rx_pin.clone(),
            com1_baud: self.com1_baud.clone(),
            com2_tx_pin: self.com2_tx_pin.clone(),
            com2_rx_pin: self.com2_rx_pin.clone(),
            com2_baud: self.com2_baud.clone(),
            cdc_enable: self.cdc_enable.clone(),
            cdc_baud: self.cdc_baud.clone(),
            cdc_retry_enable: self.cdc_retry_enable.clone(),
            cdc_retry_interval: self.cdc_retry_interval.clone(),
            display_enable: self.display_enable.clone(),
            display_port: self.display_port.clone(),
            mini_display_enable: self.mini_display_enable.clone(),
            wps_enable: self.wps_enable.clone(),
            pwm_enable: self.pwm_enable.clone(),
            ntp_server1: self.ntp_server1.clone(),
            ntp_server2: self.ntp_server2.clone(),
            ntp_server3: self.ntp_server3.clone(),
            ntp_server4: self.ntp_server4.clone(),
        };
        proof {
            assert(c@ =~= self@);
        }
        c
    }
}

/// The value of a setting: what is stored if that is not empty, else the default.
pub open spec fn setting(stored: Option<Seq<char>>, default: Seq<char>) -> Seq<char> {
    match stored {
        Some(s) => if s.len() > 0 {
            s
        } else {
            default
        },
        None => default,
    }
}

/// The settings that storage `m` holds, with defaults for those that it does not hold.
pub open spec fn loaded(m: Map<Seq<char>, Seq<char>>, defaults: Seq<Seq<char>>) -> Seq<Seq<char>> {
    Seq::new(setting_count(), |i: int| setting(text_map::lookup(m, key(i)), defaults[i]))
}

/// A stored value or, where there is none or it is empty, the default.
fn or_default(stored: Option<String>, default: &String) -> (s: String)
    ensures
        s@ == setting(text_map::text_view(stored), default@),
{
    match stored {
        Some(s) => if s.as_str().is_empty() {
            default.clone()
        } else {
            s
        },
        None => default.clone(),
    }
}

/// Loads the settings from storage, falling back to the defaults.
pub fn load_config(defaults: &NvsConfig, stored: &TextMap) -> (c: NvsConfig)
    ensures
        c@ == loaded(stored@, defaults@),
{
    let c = NvsConfig {
        wifi_ssid: or_default(stored.get("wifi_ssid"), &defaults.wifi_ssid),
        wifi_psk: or_default(stored.get("wifi_psk"), &defaults.wifi_psk),
        ip_mode: or_default(stored.get("ip_mode"), &defaults.ip_mode),
        ip_address: or_default(stored.get("ip_address"), &defaults.ip_address),
        subnet_mask: or_default(stored.get("subnet_mask"), &defaults.subnet_mask),
        gateway: or_default(stored.get("gateway"), &defaults.gateway),
        dns: or_default(stored.get("dns"), &defaults.dns),
        syslog_server: or_default(stored.get("syslog_server"), &defaults.syslog_server),
        syslog_enable: or_default(stored.get("syslog_enable"), &defaults.syslog_enable),
        syslog_host_name: or_default(stored.get("syslog_hostname"), &defaults.syslog_host_name),
        syslog_app_name: or_default(stored.get("syslog_app_name"), &defaults.syslog_app_name),
        ssh_user: or_default(stored.get("ssh_user"), &defaults.ssh_user),
        ssh_password: or_default(stored.get("ssh_password"), &defaults.ssh_password),
        com1_tx_pin: or_default(stored.get("com1_tx_pin"), &defaults.com1_tx_pin),
        com1_rx_pin: or_default(stored.get("com1_rx_pin"), &defaults.com1_rx_pin),
        com1_baud: or_default(stored.get("com1_baud"), &defaults.com1_baud),
        com2_tx_pin: or_default(stored.get("com2_tx_pin"), &defaults.com2_tx_pin),
        com2_rx_pin: or_default(stored.get("com2_rx_pin"), &defaults.com2_rx_pin),
        com2_baud: or_default(stored.get("com2_baud"), &defaults.com2_baud),
        cdc_enable: or_default(stored.get("cdc_enable"), &defaults.cdc_enable),
        cdc_baud: or_default(stored.get("cdc_baud"), &defaults.cdc_baud),
        cdc_retry_enable: or_default(stored.get("cdc_retry_enable"), &defaults.cdc_retry_enable),
        cdc_retry_interval: or_default(stored.get("cdc_retry_interval"), &defaults.cdc_retry_interval),
        display_enable: or_default(stored.get("display_enable"), &defaults.display_enable),
        display_port: or_default(stored.get("display_port"), &defaults.display_port),
        mini_display_enable: or_default(stored.get("mini_display_enable"), &defaults.mini_display_enable),
        wps_enable: or_default(stored.get("wps_enable"), &defaults.wps_enable),
        pwm_enable: or_default(stored.get("pwm_enable"), &defaults.pwm_enable),
        ntp_server1: or_default(stored.get("ntp_server1"), &defaults.ntp_server1),
        ntp_server2: or_default(stored.get("ntp_server2"), &defaults.ntp_server2),
        ntp_server3: or_default(stored.get("ntp_server3"), &defaults.ntp_server3),
        ntp_server4: or_default(stored.get("ntp_server4"), &defaults.ntp_server4),
    };
    proof {
        assert(c@ =~= loaded(stored@, defaults@));
    }
    c
}

/// The keys to read from storage.
pub fn config_keys() -> (ks: Vec<&'static str>)
    ensures
        ks@.len() == setting_count(),
        forall|i: int| 0 <= i < setting_count() ==> (#[trigger] ks@[i])@ == key(i),
{
    vec![
        "wifi_ssid",
        "wifi_psk",
        "ip_mode",
        "ip_address",
        "subnet_mask",
        "gateway",
        "dns",
        "syslog_server",
        "syslog_enable",
        "syslog_hostname",
        "syslog_app_name",
        "ssh_user",
        "ssh_password",
        "com1_tx_pin",
        "com1_rx_pin",
        "com1_baud",
        "com2_tx_pin",
        "com2_rx_pin",
        "com2_baud",
        "cdc_enable",
        "cdc_baud",
        "display_enable",
        "display_port",
        "wps_enable",
        "pwm_enable",
        "ntp_server1",
        "ntp_server2",
        "ntp_server3",
        "ntp_server4",
        "cdc_retry_enable",
        "cdc_retry_interval",
        "mini_display_enable",
    ]
}

/// The settings to save, with their keys.
pub open spec fn saved_pairs(c: Seq<Seq<char>>) -> Seq<(Seq<char>, Seq<char>)> {
    Seq::new(saved_count(), |i: int| (key(i), c[i]))
}

/// What storage is asked to write.
pub struct WritePlan {
    /// Keys and values, in order.
    pub writes: Vec<(String, String)>,
    /// Whether every value can be written; one with a NUL in it cannot.
    pub complete: bool,
}

/// Whether a value can be written to storage.
pub open spec fn writable(p: (Seq<char>, Seq<char>)) -> bool {
    !p.1.contains('\0')
}

/// The part of `ps` that can be written.
pub open spec fn writable_part(ps: Seq<(Seq<char>, Seq<char>)>) -> Seq<(Seq<char>, Seq<char>)>
    decreases ps.len(),
{
    if ps.len() == 0 {
        ps
    } else if writable(ps.last()) {
        writable_part(ps.drop_last()).push(ps.last())
    } else {
        writable_part(ps.drop_last())
    }
}

impl WritePlan {
    /// Writes what can be written of `ps`, and says whether that is everything.
    pub open spec fn is_for(self, ps: Seq<(Seq<char>, Seq<char>)>) -> bool {
        &&& text_map::pairs(self.writes@) == writable_part(ps)
        &&& self.complete <==> forall|i: int| 0 <= i < ps.len() ==> writable(#[trigger] ps[i])
    }
}

/// Plans to write `all`.
fn plan(all: Vec<(String, String)>) -> (p: WritePlan)
    ensures
        p.is_for(text_map::pairs(all@)),
{
    let mut writes: Vec<(String, String)> = Vec::new();
    let mut complete = true;
    let ghost ps = text_map::pairs(all@);
    proof {
        assert(text_map::pairs(writes@) =~= writable_part(ps.take(0)));
    }
    let mut i: usize = 0;
    while i < all.len()
        invariant
            i <= all@.len(),
            ps == text_map::pairs(all@),
            text_map::pairs(writes@) == writable_part(ps.take(i as int)),
            complete <==> forall|k: int| 0 <= k < i ==> writable(#[trigger] ps[k]),
        decreases all@.len() - i,
    {
        proof {
            assert(ps.take(i + 1).drop_last() =~= ps.take(i as int));
            assert(ps[i as int] == (all@[i as int].0@, all@[i as int].1@));
        }
        if has_nul(all[i].1.as_str()) {
            proof {
                assert(!writable(ps[i as int]));
            }
            complete = false;
        } else {
            let ghost before = text_map::pairs(writes@);
            writes.push((all[i].0.clone(), all[i].1.clone()));
            proof {
                assert(writable(ps[i as int]));
                assert(text_map::pairs(writes@) =~= before.push(ps[i as int]));
            }
        }
        i = i + 1;
    }
    proof {
        assert(ps.take(ps.len() as int) =~= ps);
    }
    WritePlan { writes, complete }
}

/// Whether everything of a plan was saved; `wrote` tells of each write whether it succeeded.
pub open spec fn all_saved(plan: WritePlan, wrote: Option<&[bool]>) -> bool {
    match wrote {
        Some(w) => {
            &&& plan.complete
            &&& w@.len() == plan.writes@.len()
            &&& forall|i: int| 0 <= i < w@.len() ==> #[trigger] w@[i]
        },
        None => false,
    }
}

/// Whether everything was saved: storage could be opened, every value can be stored, and each
/// write of the plan succeeded. `wrote` tells of each write whether it did; it is none where storage
/// could not be opened.
pub fn saved(plan: &WritePlan, wrote: Option<&[bool]>) -> (ok: bool)
    ensures
        ok == all_saved(*plan, wrote),
{
    match wrote {
        None => false,
        Some(w) => {
            let mut ok = plan.complete && w.len() == plan.writes.len();
            let ghost begun = ok;
            let mut i: usize = 0;
            while i < w.len()
                invariant
                    i <= w@.len(),
                    ok == (begun && forall|k: int| 0 <= k < i ==> #[trigger] w@[k]),
                decreases w@.len() - i,
            {
                if !w[i] {
                    ok = false;
                }
                i = i + 1;
            }
            ok
        },
    }
}

/// A complete plan writes everything that was to be saved, in order.
pub proof fn law_complete_plan_writes_all(plan: WritePlan, ps: Seq<(Seq<char>, Seq<char>)>)
    requires
        plan.is_for(ps),
        plan.complete,
    ensures
        text_map::pairs(plan.writes@) == ps,
{
    lemma_all_writable(ps);
}

proof fn lemma_all_writable(ps: Seq<(Seq<char>, Seq<char>)>)
    requires
        forall|i: int| 0 <= i < ps.len() ==> writable(#[trigger] ps[i]),
    ensures
        writable_part(ps) == ps,
    decreases ps.len(),
{
    if ps.len() > 0 {
        let head = ps.drop_last();
        assert forall|i: int| 0 <= i < head.len() implies writable(#[trigger] head[i]) by {
            assert(writable(ps[i]));
        }
        lemma_all_writable(head);
        assert(writable(ps[ps.len() - 1]));
        assert(head.push(ps.last()) =~= ps);
    }
}

/// What saving the settings writes.
pub fn nvs_write_all(cfg: &NvsConfig) -> (p: WritePlan)
    ensures
        p.is_for(saved_pairs(cfg@)),
{
    let all: Vec<(String, String)> = vec![
        ("wifi_ssid".to_owned(), cfg.wifi_ssid.clone()),
        ("wifi_psk".to_owned(), cfg.wifi_psk.clone()),
        ("ip_mode".to_owned(), cfg.ip_mode.clone()),
        ("ip_address".to_owned(), cfg.ip_address.clone()),
        ("subnet_mask".to_owned(), cfg.subnet_mask.clone()),
        ("gateway".to_owned(), cfg.gateway.clone()),
        ("dns".to_owned(), cfg.dns.clone()),
        ("syslog_server".to_owned(), cfg.syslog_server.clone()),
        ("syslog_enable".to_owned(), cfg.syslog_enable.clone()),
        ("syslog_hostname".to_owned(), cfg.syslog_host_name.clone()),
        ("syslog_app_name".to_owned(), cfg.syslog_app_name.clone()),
        ("ssh_user".to_owned(), cfg.ssh_user.clone()),
        ("ssh_password".to_owned(), cfg.ssh_password.clone()),
        ("com1_tx_pin".to_owned(), cfg.com1_tx_pin.clone()),
        ("com1_rx_pin".to_owned(), cfg.com1_rx_pin.clone()),
        ("com1_baud".to_owned(), cfg.com1_baud.clone()),
        ("com2_tx_pin".to_owned(), cfg.com2_tx_pin.clone()),
        ("com2_rx_pin".to_owned(), cfg.com2_rx_pin.clone()),
        ("com2_baud".to_owned(), cfg.com2_baud.clone()),
        ("cdc_enable".to_owned(), cfg.cdc_enable.clone()),
        ("cdc_baud".to_owned(), cfg.cdc_baud.clone()),
        ("display_enable".to_owned(), cfg.display_enable.clone()),
        ("display_port".to_owned(), cfg.display_port.clone()),
        ("wps_enable".to_owned(), cfg.wps_enable.clone()),
        ("pwm_enable".to_owned(), cfg.pwm_enable.clone()),
        ("ntp_server1".to_owned(), cfg.ntp_server1.clone()),
        ("ntp_server2".to_owned(), cfg.ntp_server2.clone()),
        ("ntp_server3".to_owned(), cfg.ntp_server3.clone()),
        ("ntp_server4".to_owned(), cfg.ntp_server4.clone()),
    ];
    proof {
        assert(text_map::pairs(all@) =~= saved_pairs(cfg@));
    }
    plan(all)
}

/// What saving network name and passphrase alone writes.
pub fn nvs_write_wifi_creds(ssid: &str, psk: &str) -> (p: WritePlan)
    ensures
        p.is_for(seq![("wifi_ssid"@, ssid@), ("wifi_psk"@, psk@)]),
{
    let all: Vec<(String, String)> = vec![
        ("wifi_ssid".to_owned(), ssid.to_owned()),
        ("wifi_psk".to_owned(), psk.to_owned()),
    ];
    proof {
        assert(text_map::pairs(all@) =~= seq![("wifi_ssid"@, ssid@), ("wifi_psk"@, psk@)]);
    }
    plan(all)
}

/// The map that raw entries of storage make up: those that hold text.
pub open spec fn stored_map(raw: Seq<(String, Vec<u8>)>) -> Map<Seq<char>, Seq<char>>
    decreases raw.len(),
{
    if raw.len() == 0 {
        Map::empty()
    } else {
        let m = stored_map(raw.drop_last());
        match text::stored(raw.last().1@) {
            Some(t) => m.insert(raw.last().0@, t),
            None => m,
        }
    }
}

/// Collects what was read from storage.
pub fn read_stored(raw: Vec<(String, Vec<u8>)>) -> (m: TextMap)
    ensures
        m@ == stored_map(raw@),
{
    let mut m = TextMap::new();
    let mut i: usize = 0;
    while i < raw.len()
        invariant
            i <= raw@.len(),
            m@ == stored_map(raw@.take(i as int)),
        decreases raw@.len() - i,
    {
        proof {
            assert(raw@.take(i + 1).drop_last() =~= raw@.take(i as int));
        }
        if let Some(t) = stored_text(raw[i].1.as_slice()) {
            m.insert(raw[i].0.clone(), t);
        }
        i = i + 1;
    }
    proof {
        assert(raw@.take(raw@.len() as int) =~= raw@);
    }
    m
}

/// Character `k` of `s` as a number, 0 behind its end.
spec fn char_at(s: Seq<char>, k: int) -> int {
    if k < s.len() {
        s[k] as int
    } else {
        0
    }
}

/// A number that tells the keys apart.
spec fn fingerprint(s: Seq<char>) -> int {
    s.len() + 32 * (char_at(s, 2) + 128 * (char_at(s, 3) + 128 * (char_at(s, 5) + 128 * char_at(
        s,
        10,
    ))))
}

/// The fingerprint of each key.
spec fn key_mark(i: int) -> int {
    if i == 0 {
        60726473
    } else if i == 1 {
        59153608
    } else if i == 2 {
        52878311
    } else if i == 3 {
        52829162
    } else if i == 4 {
        7241919563
    } else if i == 5 {
        51273351
    } else if i == 6 {
        3683
    } else if i == 7 {
        7973293677
    } else if i == 8 {
        6631116397
    } else if i == 9 {
        7839075951
    } else if i == 10 {
        6429789807
    } else if i == 11 {
        60685576
    } else if i == 12 {
        7701658892
    } else if i == 13 {
        7442996651
    } else if i == 14 {
        7441948075
    } else if i == 15 {
        51584425
    } else if i == 16 {
        7443000747
    } else if i == 17 {
        7441952171
    } else if i == 18 {
        51588521
    } else if i == 19 {
        58063978
    } else if i == 20 {
        51248232
    } else if i == 21 {
        6560878190
    } else if i == 22 {
        7701728876
    } else if i == 23 {
        58064490
    } else if i == 24 {
        58064298
    } else if i == 25 {
        3341680139
    } else if i == 26 {
        3408789003
    } else if i == 27 {
        3475897867
    } else if i == 28 {
        3543006731
    } else if i == 29 {
        6831340656
    } else if i == 30 {
        7099776114
    } else {
        6562422227
    }
}

proof fn lemma_key_mark(i: int)
    requires
        0 <= i < setting_count(),
    ensures
        fingerprint(key(i)) == key_mark(i),
{
    reveal_strlit("wifi_ssid");
    reveal_strlit("wifi_psk");
    reveal_strlit("ip_mode");
    reveal_strlit("ip_address");
    reveal_strlit("subnet_mask");
    reveal_strlit("gateway");
    reveal_strlit("dns");
    reveal_strlit("syslog_server");
    reveal_strlit("syslog_enable");
    reveal_strlit("syslog_hostname");
    reveal_strlit("syslog_app_name");
    reveal_strlit("ssh_user");
    reveal_strlit("ssh_password");
    reveal_strlit("com1_tx_pin");
    reveal_strlit("com1_rx_pin");
    reveal_strlit("com1_baud");
    reveal_strlit("com2_tx_pin");
    reveal_strlit("com2_rx_pin");
    reveal_strlit("com2_baud");
    reveal_strlit("cdc_enable");
    reveal_strlit("cdc_baud");
    reveal_strlit("display_enable");
    reveal_strlit("display_port");
    reveal_strlit("wps_enable");
    reveal_strlit("pwm_enable");
    reveal_strlit("ntp_server1");
    reveal_strlit("ntp_server2");
    reveal_strlit("ntp_server3");
    reveal_strlit("ntp_server4");
    reveal_strlit("cdc_retry_enable");
    reveal_strlit("cdc_retry_interval");
    reveal_strlit("mini_display_enable");
}

/// No two settings share a key.
pub proof fn law_keys_distinct(i: int, j: int)
    requires
        0 <= i < setting_count(),
        0 <= j < setting_count(),
        key(i) == key(j),
    ensures
        i == j,
{
    lemma_key_mark(i);
    lemma_key_mark(j);
}

/// Writing settings under distinct keys makes each of them readable and leaves other keys alone.
proof fn lemma_inserted(m: Map<Seq<char>, Seq<char>>, c: Seq<Seq<char>>, n: nat, i: int)
    requires
        n <= saved_count(),
        0 <= i < setting_count(),
    ensures
        ({
            let after = text_map::inserted(m, saved_pairs(c).take(n as int));
            text_map::lookup(after, key(i)) == if i < n {
                Some(c[i])
            } else {
                text_map::lookup(m, key(i))
            }
        }),
    decreases n,
{
    let ps = saved_pairs(c).take(n as int);
    if n > 0 {
        lemma_inserted(m, c, (n - 1) as nat, i);
        assert(ps.drop_last() =~= saved_pairs(c).take(n - 1));
        assert(ps.last() == (key(n - 1), c[n - 1]));
        if key(i) == key(n - 1) {
            law_keys_distinct(i, n - 1);
        }
    }
}

/// Loading gives back what was saved: each saved setting that is not empty, and the default for
/// each one that is. Settings that saving leaves alone are loaded as before.
pub proof fn law_load_after_save(
    m: Map<Seq<char>, Seq<char>>,
    c: Seq<Seq<char>>,
    defaults: Seq<Seq<char>>,
)
    requires
        c.len() == setting_count(),
        defaults.len() == setting_count(),
    ensures
        loaded(text_map::inserted(m, saved_pairs(c)), defaults) == Seq::new(
            setting_count(),
            |i: int|
                if i < saved_count() {
                    setting(Some(c[i]), defaults[i])
                } else {
                    loaded(m, defaults)[i]
                },
        ),
{
    let after = text_map::inserted(m, saved_pairs(c));
    let got = loaded(after, defaults);
    assert(saved_pairs(c).take(saved_count() as int) =~= saved_pairs(c));
    assert forall|i: int| 0 <= i < setting_count() implies #[trigger] got[i] == if i
        < saved_count() {
        setting(Some(c[i]), defaults[i])
    } else {
        loaded(m, defaults)[i]
    } by {
        lemma_inserted(m, c, saved_count(), i);
    }
    assert(got =~= Seq::new(
        setting_count(),
        |i: int|
            if i < saved_count() {
                setting(Some(c[i]), defaults[i])
            } else {
                loaded(m, defaults)[i]
            },
    ));
}

/// Loading from erased storage gives the defaults.
pub proof fn law_load_after_erase(defaults: Seq<Seq<char>>)
    requires
        defaults.len() == setting_count(),
    ensures
        loaded(Map::empty(), defaults) == defaults,
{
    assert(loaded(Map::empty(), defaults) =~= defaults);
}

/// After network name and passphrase were saved, they are loaded if they are not empty, and
/// every other setting is loaded as before.
pub proof fn law_load_after_wifi_creds(
    m: Map<Seq<char>, Seq<char>>,
    ssid: Seq<char>,
    psk: Seq<char>,
    defaults: Seq<Seq<char>>,
)
    requires
        defaults.len() == setting_count(),
    ensures
        loaded(
            text_map::inserted(m, seq![("wifi_ssid"@, ssid), ("wifi_psk"@, psk)]),
            defaults,
        ) == loaded(m, defaults).update(0, setting(Some(ssid), defaults[0])).update(
            1,
            setting(Some(psk), defaults[1]),
        ),
{
    let ps = seq![("wifi_ssid"@, ssid), ("wifi_psk"@, psk)];
    let after = text_map::inserted(m, ps);
    reveal_with_fuel(text_map::inserted, 3);
    assert(ps.drop_last() =~= seq![("wifi_ssid"@, ssid)]);
    assert(ps.drop_last().drop_last() =~= Seq::empty());
    assert(after == m.insert(key(0), ssid).insert(key(1), psk));
    let got = loaded(after, defaults);
    let want = loaded(m, defaults).update(0, setting(Some(ssid), defaults[0])).update(
        1,
        setting(Some(psk), defaults[1]),
    );
    assert forall|i: int| 0 <= i < setting_count() implies #[trigger] got[i] == want[i] by {
        if key(i) == key(0) {
            law_keys_distinct(i, 0);
        }
        if key(i) == key(1) {
            law_keys_distinct(i, 1);
        }
    }
    assert(got =~= want);
}


/// Whether a value is what storage holds under a name, if that is not empty, and else another one.
pub open spec fn taken_from(
    value: Seq<char>,
    m: Map<Seq<char>, Seq<char>>,
    name: Seq<char>,
    otherwise: Seq<char>,
) -> bool {
    if m.dom().contains(name) && m[name].len() > 0 {
        value == m[name]
    } else {
        value == otherwise
    }
}

/// Each setting is loaded from storage under its own name, and falls back to its own default.
pub proof fn law_loaded_by_name(
    m: Map<Seq<char>, Seq<char>>,
    defaults: NvsConfig,
    c: NvsConfig,
)
    requires
        c@ == loaded(m, defaults@),
    ensures
        taken_from(c.wifi_ssid@, m, "wifi_ssid"@, defaults.wifi_ssid@),
        taken_from(c.wifi_psk@, m, "wifi_psk"@, defaults.wifi_psk@),
        taken_from(c.ip_mode@, m, "ip_mode"@, defaults.ip_mode@),
        taken_from(c.ip_address@, m, "ip_address"@, defaults.ip_address@),
        taken_from(c.subnet_mask@, m, "subnet_mask"@, defaults.subnet_mask@),
        taken_from(c.gateway@, m, "gateway"@, defaults.gateway@),
        taken_from(c.dns@, m, "dns"@, defaults.dns@),
        taken_from(c.syslog_server@, m, "syslog_server"@, defaults.syslog_server@),
        taken_from(c.syslog_enable@, m, "syslog_enable"@, defaults.syslog_enable@),
        taken_from(c.syslog_host_name@, m, "syslog_hostname"@, defaults.syslog_host_name@),
        taken_from(c.syslog_app_name@, m, "syslog_app_name"@, defaults.syslog_app_name@),
        taken_from(c.ssh_user@, m, "ssh_user"@, defaults.ssh_user@),
        taken_from(c.ssh_password@, m, "ssh_password"@, defaults.ssh_password@),
        taken_from(c.com1_tx_pin@, m, "com1_tx_pin"@, defaults.com1_tx_pin@),
        taken_from(c.com1_rx_pin@, m, "com1_rx_pin"@, defaults.com1_rx_pin@),
        taken_from(c.com1_baud@, m, "com1_baud"@, defaults.com1_baud@),
        taken_from(c.com2_tx_pin@, m, "com2_tx_pin"@, defaults.com2_tx_pin@),
        taken_from(c.com2_rx_pin@, m, "com2_rx_pin"@, defaults.com2_rx_pin@),
        taken_from(c.com2_baud@, m, "com2_baud"@, defaults.com2_baud@),
        taken_from(c.cdc_enable@, m, "cdc_enable"@, defaults.cdc_enable@),
        taken_from(c.cdc_baud@, m, "cdc_baud"@, defaults.cdc_baud@),
        taken_from(c.display_enable@, m, "display_enable"@, defaults.display_enable@),
        taken_from(c.display_port@, m, "display_port"@, defaults.display_port@),
        taken_from(c.wps_enable@, m, "wps_enable"@, defaults.wps_enable@),
        taken_from(c.pwm_enable@, m, "pwm_enable"@, defaults.pwm_enable@),
        taken_from(c.ntp_server1@, m, "ntp_server1"@, defaults.ntp_server1@),
        taken_from(c.ntp_server2@, m, "ntp_server2"@, defaults.ntp_server2@),
        taken_from(c.ntp_server3@, m, "ntp_server3"@, defaults.ntp_server3@),
        taken_from(c.ntp_server4@, m, "ntp_server4"@, defaults.ntp_server4@),
        taken_from(c.cdc_retry_enable@, m, "cdc_retry_enable"@, defaults.cdc_retry_enable@),
        taken_from(c.cdc_retry_interval@, m, "cdc_retry_interval"@, defaults.cdc_retry_interval@),
        taken_from(c.mini_display_enable@, m, "mini_display_enable"@, defaults.mini_display_enable@),
{
    let got = loaded(m, defaults@);
    assert(c@[0] == got[0]);
    assert(c@[1] == got[1]);
    assert(c@[2] == got[2]);
    assert(c@[3] == got[3]);
    assert(c@[4] == got[4]);
    assert(c@[5] == got[5]);
    assert(c@[6] == got[6]);
    assert(c@[7] == got[7]);
    assert(c@[8] == got[8]);
    assert(c@[9] == got[9]);
    assert(c@[10] == got[10]);
    assert(c@[11] == got[11]);
    assert(c@[12] == got[12]);
    assert(c@[13] == got[13]);
    assert(c@[14] == got[14]);
    assert(c@[15] == got[15]);
    assert(c@[16] == got[16]);
    assert(c@[17] == got[17]);
    assert(c@[18] == got[18]);
    assert(c@[19] == got[19]);
    assert(c@[20] == got[20]);
    assert(c@[21] == got[21]);
    assert(c@[22] == got[22]);
    assert(c@[23] == got[23]);
    assert(c@[24] == got[24]);
    assert(c@[25] == got[25]);
    assert(c@[26] == got[26]);
    assert(c@[27] == got[27]);
    assert(c@[28] == got[28]);
    assert(c@[29] == got[29]);
    assert(c@[30] == got[30]);
    assert(c@[31] == got[31]);
}

/// Whether a plan writes a value under a name.
pub open spec fn writes(plan: WritePlan, name: Seq<char>, value: Seq<char>) -> bool {
    exists|k: int|
        0 <= k < plan.writes@.len() && #[trigger] plan.writes@[k].0@ == name
            && plan.writes@[k].1@ == value
}

/// Whether a value has a NUL in it, which storage cannot take.
pub open spec fn has_zero(value: Seq<char>) -> bool {
    exists|k: int| 0 <= k < value.len() && #[trigger] value[k] == '\0'
}

/// What can be written of `ps` is written, nothing else is, and the plan says whether it is all.
proof fn lemma_plan(plan: WritePlan, ps: Seq<(Seq<char>, Seq<char>)>, i: int)
    requires
        plan.is_for(ps),
        0 <= i < ps.len(),
    ensures
        !has_zero(ps[i].1) ==> writes(plan, ps[i].0, ps[i].1),
        plan.complete ==> !has_zero(ps[i].1),
{
    lemma_writable_part(ps, i);
    if !has_zero(ps[i].1) {
        assert(writable(ps[i])) by {
            if ps[i].1.contains('\0') {
                let k = choose|k: int| 0 <= k < ps[i].1.len() && ps[i].1[k] == '\0';
                assert(ps[i].1[k] == '\0');
            }
        }
        let w = writable_part(ps);
        let k = choose|k: int| 0 <= k < w.len() && w[k] == ps[i];
        assert(text_map::pairs(plan.writes@)[k] == ps[i]);
        assert(plan.writes@[k].0@ == ps[i].0);
    }
    if plan.complete {
        assert(writable(ps[i]));
        if has_zero(ps[i].1) {
            let k = choose|k: int| 0 <= k < ps[i].1.len() && ps[i].1[k] == '\0';
            assert(ps[i].1.contains(ps[i].1[k]));
        }
    }
}

proof fn lemma_writable_part(ps: Seq<(Seq<char>, Seq<char>)>, i: int)
    requires
        0 <= i < ps.len(),
    ensures
        writable(ps[i]) ==> writable_part(ps).contains(ps[i]),
    decreases ps.len(),
{
    let w = writable_part(ps);
    if i == ps.len() - 1 {
        if writable(ps[i]) {
            assert(w.last() == ps[i]);
            assert(w[w.len() - 1] == ps[i]);
        }
    } else {
        let head = ps.drop_last();
        lemma_writable_part(head, i);
        assert(head[i] == ps[i]);
        if writable(ps[i]) {
            let v = writable_part(head);
            let k = choose|k: int| 0 <= k < v.len() && v[k] == ps[i];
            assert(w[k] == ps[i]);
        }
    }
}

/// Saving writes each setting that a form can change, and the one that enables the display, under
/// its own name, unless it has a NUL in it.
pub proof fn law_saved_by_name(c: NvsConfig, plan: WritePlan)
    requires
        plan.is_for(saved_pairs(c@)),
    ensures
        has_zero(c.wifi_ssid@) || writes(plan, "wifi_ssid"@, c.wifi_ssid@),
        has_zero(c.wifi_psk@) || writes(plan, "wifi_psk"@, c.wifi_psk@),
        has_zero(c.ip_mode@) || writes(plan, "ip_mode"@, c.ip_mode@),
        has_zero(c.ip_address@) || writes(plan, "ip_address"@, c.ip_address@),
        has_zero(c.subnet_mask@) || writes(plan, "subnet_mask"@, c.subnet_mask@),
        has_zero(c.gateway@) || writes(plan, "gateway"@, c.gateway@),
        has_zero(c.dns@) || writes(plan, "dns"@, c.dns@),
        has_zero(c.syslog_server@) || writes(plan, "syslog_server"@, c.syslog_server@),
        has_zero(c.syslog_enable@) || writes(plan, "syslog_enable"@, c.syslog_enable@),
        has_zero(c.syslog_host_name@) || writes(plan, "syslog_hostname"@, c.syslog_host_name@),
        has_zero(c.syslog_app_name@) || writes(plan, "syslog_app_name"@, c.syslog_app_name@),
        has_zero(c.ssh_user@) || writes(plan, "ssh_user"@, c.ssh_user@),
        has_zero(c.ssh_password@) || writes(plan, "ssh_password"@, c.ssh_password@),
        has_zero(c.com1_tx_pin@) || writes(plan, "com1_tx_pin"@, c.com1_tx_pin@),
        has_zero(c.com1_rx_pin@) || writes(plan, "com1_rx_pin"@, c.com1_rx_pin@),
        has_zero(c.com1_baud@) || writes(plan, "com1_baud"@, c.com1_baud@),
        has_zero(c.com2_tx_pin@) || writes(plan, "com2_tx_pin"@, c.com2_tx_pin@),
        has_zero(c.com2_rx_pin@) || writes(plan, "com2_rx_pin"@, c.com2_rx_pin@),
        has_zero(c.com2_baud@) || writes(plan, "com2_baud"@, c.com2_baud@),
        has_zero(c.cdc_enable@) || writes(plan, "cdc_enable"@, c.cdc_enable@),
        has_zero(c.cdc_baud@) || writes(plan, "cdc_baud"@, c.cdc_baud@),
        has_zero(c.display_enable@) || writes(plan, "display_enable"@, c.display_enable@),
        has_zero(c.display_port@) || writes(plan, "display_port"@, c.display_port@),
        has_zero(c.wps_enable@) || writes(plan, "wps_enable"@, c.wps_enable@),
        has_zero(c.pwm_enable@) || writes(plan, "pwm_enable"@, c.pwm_enable@),
        has_zero(c.ntp_server1@) || writes(plan, "ntp_server1"@, c.ntp_server1@),
        has_zero(c.ntp_server2@) || writes(plan, "ntp_server2"@, c.ntp_server2@),
        has_zero(c.ntp_server3@) || writes(plan, "ntp_server3"@, c.ntp_server3@),
        has_zero(c.ntp_server4@) || writes(plan, "ntp_server4"@, c.ntp_server4@),
        plan.complete ==> !has_zero(c.wifi_ssid@),
        plan.complete ==> !has_zero(c.wifi_psk@),
        plan.complete ==> !has_zero(c.ip_mode@),
        plan.complete ==> !has_zero(c.ip_address@),
        plan.complete ==> !has_zero(c.subnet_mask@),
        plan.complete ==> !has_zero(c.gateway@),
        plan.complete ==> !has_zero(c.dns@),
        plan.complete ==> !has_zero(c.syslog_server@),
        plan.complete ==> !has_zero(c.syslog_enable@),
        plan.complete ==> !has_zero(c.syslog_host_name@),
        plan.complete ==> !has_zero(c.syslog_app_name@),
        plan.complete ==> !has_zero(c.ssh_user@),
        plan.complete ==> !has_zero(c.ssh_password@),
        plan.complete ==> !has_zero(c.com1_tx_pin@),
        plan.complete ==> !has_zero(c.com1_rx_pin@),
        plan.complete ==> !has_zero(c.com1_baud@),
        plan.complete ==> !has_zero(c.com2_tx_pin@),
        plan.complete ==> !has_zero(c.com2_rx_pin@),
        plan.complete ==> !has_zero(c.com2_baud@),
        plan.complete ==> !has_zero(c.cdc_enable@),
        plan.complete ==> !has_zero(c.cdc_baud@),
        plan.complete ==> !has_zero(c.display_enable@),
        plan.complete ==> !has_zero(c.display_port@),
        plan.complete ==> !has_zero(c.wps_enable@),
        plan.complete ==> !has_zero(c.pwm_enable@),
        plan.complete ==> !has_zero(c.ntp_server1@),
        plan.complete ==> !has_zero(c.ntp_server2@),
        plan.complete ==> !has_zero(c.ntp_server3@),
        plan.complete ==> !has_zero(c.ntp_server4@),
{
    let ps = saved_pairs(c@);
    lemma_plan(plan, ps, 0);
    assert(ps[0] == ("wifi_ssid"@, c.wifi_ssid@));
    lemma_plan(plan, ps, 1);
    assert(ps[1] == ("wifi_psk"@, c.wifi_psk@));
    lemma_plan(plan, ps, 2);
    assert(ps[2] == ("ip_mode"@, c.ip_mode@));
    lemma_plan(plan, ps, 3);
    assert(ps[3] == ("ip_address"@, c.ip_address@));
    lemma_plan(plan, ps, 4);
    assert(ps[4] == ("subnet_mask"@, c.subnet_mask@));
    lemma_plan(plan, ps, 5);
    assert(ps[5] == ("gateway"@, c.gateway@));
    lemma_plan(plan, ps, 6);
    assert(ps[6] == ("dns"@, c.dns@));
    lemma_plan(plan, ps, 7);
    assert(ps[7] == ("syslog_server"@, c.syslog_server@));
    lemma_plan(plan, ps, 8);
    assert(ps[8] == ("syslog_enable"@, c.syslog_enable@));
    lemma_plan(plan, ps, 9);
    assert(ps[9] == ("syslog_hostname"@, c.syslog_host_name@));
    lemma_plan(plan, ps, 10);
    assert(ps[10] == ("syslog_app_name"@, c.syslog_app_name@));
    lemma_plan(plan, ps, 11);
    assert(ps[11] == ("ssh_user"@, c.ssh_user@));
    lemma_plan(plan, ps, 12);
    assert(ps[12] == ("ssh_password"@, c.ssh_password@));
    lemma_plan(plan, ps, 13);
    assert(ps[13] == ("com1_tx_pin"@, c.com1_tx_pin@));
    lemma_plan(plan, ps, 14);
    assert(ps[14] == ("com1_rx_pin"@, c.com1_rx_pin@));
    lemma_plan(plan, ps, 15);
    assert(ps[15] == ("com1_baud"@, c.com1_baud@));
    lemma_plan(plan, ps, 16);
    assert(ps[16] == ("com2_tx_pin"@, c.com2_tx_pin@));
    lemma_plan(plan, ps, 17);
    assert(ps[17] == ("com2_rx_pin"@, c.com2_rx_pin@));
    lemma_plan(plan, ps, 18);
    assert(ps[18] == ("com2_baud"@, c.com2_baud@));
    lemma_plan(plan, ps, 19);
    assert(ps[19] == ("cdc_enable"@, c.cdc_enable@));
    lemma_plan(plan, ps, 20);
    assert(ps[20] == ("cdc_baud"@, c.cdc_baud@));
    lemma_plan(plan, ps, 21);
    assert(ps[21] == ("display_enable"@, c.display_enable@));
    lemma_plan(plan, ps, 22);
    assert(ps[22] == ("display_port"@, c.display_port@));
    lemma_plan(plan, ps, 23);
    assert(ps[23] == ("wps_enable"@, c.wps_enable@));
    lemma_plan(plan, ps, 24);
    assert(ps[24] == ("pwm_enable"@, c.pwm_enable@));
    lemma_plan(plan, ps, 25);
    assert(ps[25] == ("ntp_server1"@, c.ntp_server1@));
    lemma_plan(plan, ps, 26);
    assert(ps[26] == ("ntp_server2"@, c.ntp_server2@));
    lemma_plan(plan, ps, 27);
    assert(ps[27] == ("ntp_server3"@, c.ntp_server3@));
    lemma_plan(plan, ps, 28);
    assert(ps[28] == ("ntp_server4"@, c.ntp_server4@));
}

/// Saving credentials writes the name as the network name and the passphrase as the passphrase.
pub proof fn law_credentials_by_name(ssid: Seq<char>, psk: Seq<char>, plan: WritePlan)
    requires
        plan.is_for(seq![("wifi_ssid"@, ssid), ("wifi_psk"@, psk)]),
    ensures
        has_zero(ssid) || writes(plan, "wifi_ssid"@, ssid),
        has_zero(psk) || writes(plan, "wifi_psk"@, psk),
        plan.complete ==> !has_zero(ssid) && !has_zero(psk),
{
    let ps = seq![("wifi_ssid"@, ssid), ("wifi_psk"@, psk)];
    lemma_plan(plan, ps, 0);
    lemma_plan(plan, ps, 1);
}

/// Whatever a plan writes was to be saved.
pub proof fn law_plan_writes_nothing_else(
    plan: WritePlan,
    ps: Seq<(Seq<char>, Seq<char>)>,
    k: int,
)
    requires
        plan.is_for(ps),
        0 <= k < plan.writes@.len(),
    ensures
        exists|i: int| 0 <= i < ps.len() && #[trigger] ps[i] == (plan.writes@[k].0@, plan.writes@[k].1@),
        !has_zero(plan.writes@[k].1@),
{
    lemma_part_of(ps, k);
    let w = writable_part(ps);
    assert(text_map::pairs(plan.writes@)[k] == (plan.writes@[k].0@, plan.writes@[k].1@));
    if has_zero(w[k].1) {
        let z = choose|z: int| 0 <= z < w[k].1.len() && w[k].1[z] == '\0';
        assert(w[k].1.contains(w[k].1[z]));
    }
}

proof fn lemma_part_of(ps: Seq<(Seq<char>, Seq<char>)>, k: int)
    requires
        0 <= k < writable_part(ps).len(),
    ensures
        exists|i: int| 0 <= i < ps.len() && #[trigger] ps[i] == writable_part(ps)[k],
        writable(writable_part(ps)[k]),
    decreases ps.len(),
{
    if ps.len() > 0 {
        let head = ps.drop_last();
        let w = writable_part(ps);
        if writable(ps.last()) && k == w.len() - 1 {
            assert(ps[ps.len() - 1] == w[k]);
        } else {
            lemma_part_of(head, k);
            let i = choose|i: int| 0 <= i < head.len() && #[trigger] head[i] == writable_part(head)[k];
            assert(ps[i] == w[k]);
        }
    }
}

/// What was read from storage is found under its key: the text of the last entry that has one.
pub proof fn law_read_by_key(raw: Seq<(String, Vec<u8>)>, i: int, t: Seq<char>)
    requires
        0 <= i < raw.len(),
        raw[i].1@ == text::written(t),
        !t.contains('\0'),
        forall|j: int| i < j < raw.len() ==> (#[trigger] raw[j]).0@ != raw[i].0@,
    ensures
        stored_map(raw).dom().contains(raw[i].0@),
        stored_map(raw)[raw[i].0@] == t,
    decreases raw.len(),
{
    let head = raw.drop_last();
    if i == raw.len() - 1 {
        text::law_stored_reads_back(t);
    } else {
        assert(raw[raw.len() - 1].0@ != raw[i].0@);
        assert(head[i] == raw[i]);
        assert forall|j: int| i < j < head.len() implies (#[trigger] head[j]).0@ != head[i].0@ by {
            assert(raw[j].0@ != raw[i].0@);
        }
        law_read_by_key(head, i, t);
    }
}

/// One write that failed, one that was left out or one that is missing means that not everything was
/// saved; so does storage that could not be opened.
pub proof fn law_all_or_not_saved(plan: WritePlan, w: &[bool], i: int)
    ensures
        !all_saved(plan, None),
        !plan.complete ==> !all_saved(plan, Some(w)),
        w@.len() != plan.writes@.len() ==> !all_saved(plan, Some(w)),
        0 <= i < w@.len() && !w@[i] ==> !all_saved(plan, Some(w)),
        plan.complete && w@.len() == plan.writes@.len() && !w@.contains(false) ==> all_saved(
            plan,
            Some(w),
        ),
{
    if !w@.contains(false) {
        assert forall|k: int| 0 <= k < w@.len() implies #[trigger] w@[k] by {
            assert(w@.contains(w@[k]));
        }
    }
}

/// A plan is complete exactly if none of the values holds a NUL.
pub proof fn law_complete_without_zero(plan: WritePlan, ps: Seq<(Seq<char>, Seq<char>)>, i: int)
    requires
        plan.is_for(ps),
        0 <= i < ps.len(),
    ensures
        has_zero(ps[i].1) ==> !plan.complete,
        (forall|k: int| 0 <= k < ps.len() ==> !has_zero((#[trigger] ps[k]).1)) ==> plan.complete,
{
    if has_zero(ps[i].1) {
        let k = choose|k: int| 0 <= k < ps[i].1.len() && #[trigger] ps[i].1[k] == '\0';
        assert(ps[i].1.contains('\0'));
        assert(!writable(ps[i]));
    }
    if forall|k: int| 0 <= k < ps.len() ==> !has_zero((#[trigger] ps[k]).1) {
        assert forall|k: int| 0 <= k < ps.len() implies writable(#[trigger] ps[k]) by {
            assert(!has_zero(ps[k].1));
            if ps[k].1.contains('\0') {
                let j = choose|j: int| 0 <= j < ps[k].1.len() && ps[k].1[j] == '\0';
                assert(ps[k].1[j] == '\0');
            }
        }
    }
}

} // verus!
