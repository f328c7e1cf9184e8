//! The pages of the web interface.

use crate::forms;
use crate::forms::{chk, esc, sel};
use crate::nvs_config::NvsConfig;
use crate::text;
use crate::text::dec_text;
use vstd::prelude::*;
use vstd::string::*;

verus! {

/// The version that pages and status show.
pub const APP_VERSION: &'static str = "0.1.1";

/// The first `n` values between the pieces of a template.
pub open spec fn filled_to(pieces: Seq<Seq<char>>, values: Seq<Seq<char>>, n: nat) -> Seq<char>
    decreases n,
{
    if n == 0 {
        pieces[0]
    } else {
        filled_to(pieces, values, (n - 1) as nat) + values[n - 1] + pieces[n as int]
    }
}

/// A template with its gaps filled: between two pieces stands one value.
pub open spec fn filled(pieces: Seq<Seq<char>>, values: Seq<Seq<char>>) -> Seq<char> {
    filled_to(pieces, values, values.len())
}

/// The pieces of a template as plain values.
pub open spec fn piece_views(v: Seq<&'static str>) -> Seq<Seq<char>> {
    v.map_values(|s: &'static str| s@)
}

/// Fills the gaps of a template.
fn fill(pieces: Vec<&'static str>, values: Vec<String>) -> (r: String)
    requires
        pieces@.len() == values@.len() + 1,
    ensures
        r@ == filled(piece_views(pieces@), text::views(values@)),
{
    let mut out = pieces[0].to_owned();
    let ghost ps = piece_views(pieces@);
    let ghost vs = text::views(values@);
    let mut i: usize = 0;
    while i < values.len()
        invariant
            i <= values@.len(),
            pieces@.len() == values@.len() + 1,
            ps == piece_views(pieces@),
            vs == text::views(values@),
            out@ == filled_to(ps, vs, i as nat),
        decreases values@.len() - i,
    {
        out.append(values[i].as_str());
        out.append(pieces[i + 1]);
        proof {
            assert(out@ =~= filled_to(ps, vs, (i + 1) as nat));
        }
        i = i + 1;
    }
    out
}

/// The login page.
pub const LOGIN_HTML: &'static str = r#"<!DOCTYPE html><html lang="ja"><head><meta charset="UTF-8"><meta name="viewport" content="width=device-width,initial-scale=1"><title>SSH-Serial-Bridge Login</title><style>*{box-sizing:border-box}body{font-family:Arial,sans-serif;background:#1a1a2e;display:flex;justify-content:center;align-items:center;height:100vh;margin:0}.box{background:#16213e;padding:40px;border-radius:12px;box-shadow:0 4px 20px rgba(0,0,0,.5);width:320px}h1{color:#e94560;text-align:center;margin:0 0 24px;font-size:1.4em}label{color:#a8b2d8;font-size:.9em;display:block;margin:12px 0 4px}input{width:100%;padding:10px;border:1px solid #304070;border-radius:6px;background:#0f3460;color:#e2e8f0;font-size:1em}input:focus{outline:none;border-color:#e94560}button{width:100%;margin-top:20px;padding:12px;background:#e94560;color:#fff;border:none;border-radius:6px;font-size:1em;font-weight:bold;cursor:pointer}button:hover{background:#c73652}#err{color:#f87171;text-align:center;margin-top:12px;font-size:.9em;display:none}</style></head><body><div class="box"><h1>SSH-Serial-Bridge Config</h1><form method="POST" action="/login"><label>Username</label><input type="text" name="username" autocomplete="username" required><label>Password</label><input type="password" name="password" autocomplete="current-password" required><button type="submit">Login</button></form><div id="err">Username or password is incorrect</div></div><script>if(location.search.includes('error=1'))document.getElementById('err').style.display='block';</script></body></html>"#;

/// The configuration page up to its first gap.
pub const CONFIG_TO_VERSION: &'static str = r#"<!DOCTYPE html><html lang="ja"><head>
<meta charset="UTF-8"><meta name="viewport" content="width=device-width,initial-scale=1">
<title>SSH-Serial-Bridge Config</title>
<style>
*{box-sizing:border-box;margin:0;padding:0}
body{font-family:'Segoe UI',Arial,sans-serif;background:#111827;color:#e2e8f0;min-height:100vh}
.page{max-width:780px;margin:0 auto;padding:16px}
h1{color:#f87171;text-align:center;font-size:1.4em;padding:18px 0 14px;letter-spacing:.05em}
/* Section headers with icon strip */
.section-title{display:flex;align-items:center;gap:8px;color:#93c5fd;font-size:.82em;
  font-weight:700;text-transform:uppercase;letter-spacing:.08em;
  margin:0 0 12px;padding-bottom:6px;border-bottom:1px solid #1e3a5f}
/* Cards */
.card{background:#1e2d45;border-radius:10px;padding:16px 18px;margin-bottom:10px;
  border:1px solid #243b55;box-shadow:0 2px 8px rgba(0,0,0,.35)}
/* Grid: 2-col on wide, 1-col on narrow */
.grid{display:grid;grid-template-columns:repeat(auto-fill,minmax(200px,1fr));gap:10px 14px;margin-bottom:4px}
.grid-3{display:grid;grid-template-columns:repeat(3,1fr);gap:10px 14px}
@media(max-width:520px){.grid-3{grid-template-columns:1fr 1fr}}
/* Field */
.field label{font-size:.76em;font-weight:600;color:#94a3b8;display:block;
  margin-bottom:4px;letter-spacing:.03em}
.field input,.field select{
  width:100%;padding:8px 10px;background:#0f172a;border:1px solid #2d4a6a;
  border-radius:6px;color:#e2e8f0;font-size:.9em;transition:border-color .2s}
.field input:focus,.field select:focus{outline:none;border-color:#60a5fa;
  box-shadow:0 0 0 2px rgba(96,165,250,.15)}
/* Radio toggle group */
.toggle-group{display:inline-flex;background:#0f172a;border:1px solid #2d4a6a;
  border-radius:8px;overflow:hidden;margin-bottom:10px}
.toggle-group label{padding:7px 18px;font-size:.85em;font-weight:600;cursor:pointer;
  color:#94a3b8;transition:background .2s,color .2s;user-select:none}
.toggle-group input[type=radio]{display:none}
.toggle-group input[type=radio]:checked+span{background:#1d4ed8;color:#fff;
  border-radius:7px;display:block;padding:7px 18px;margin:-7px -18px}
/* Indent block shown/hidden based on IP mode */
.indent{padding-left:4px;border-left:2px solid #1d4ed8;margin-top:6px}
/* Status rows */
.stat-grid{display:grid;grid-template-columns:auto 1fr;gap:6px 16px;align-items:center}
.stat-key{font-size:.78em;font-weight:600;color:#64748b;text-transform:uppercase;
  letter-spacing:.06em;white-space:nowrap}
.stat-val{font-size:.9em;color:#7dd3fc;font-weight:600}
.badge{display:inline-block;padding:2px 9px;border-radius:20px;font-size:.8em;font-weight:700}
.badge-ok{background:#14532d;color:#4ade80;border:1px solid #166534}
.badge-warn{background:#451a03;color:#fb923c;border:1px solid #7c2d12}
.badge-err{background:#4c0519;color:#fb7185;border:1px solid #881337}
/* Message bar */
#msg{padding:10px 14px;border-radius:7px;margin-bottom:10px;font-size:.88em;display:none;
  border-left:4px solid transparent}
#msg.ok{background:#052e16;border-color:#16a34a;color:#4ade80}
#msg.err{background:#350005;border-color:#dc2626;color:#fca5a5}
/* Action buttons */
.actions{display:flex;flex-wrap:wrap;gap:8px}
.btn{flex:1;min-width:110px;padding:11px 8px;border:none;border-radius:7px;
  font-size:.9em;font-weight:700;cursor:pointer;letter-spacing:.02em;transition:filter .2s}
.btn:hover{filter:brightness(1.15)}
.btn-save{background:#1d4ed8;color:#fff}
.btn-reset{background:#b45309;color:#fff}
.btn-reboot{background:#be123c;color:#fff}
.btn-gpio{background:#0f766e;color:#fff;text-decoration:none;
  display:flex;align-items:center;justify-content:center;border-radius:7px;
  font-weight:700;font-size:.9em;flex:1;min-width:110px;border:none;cursor:pointer;letter-spacing:.02em}
.btn-gpio:hover{filter:brightness(1.15)}
.btn-logout{background:#374151;color:#e2e8f0;text-decoration:none;
  display:flex;align-items:center;justify-content:center;border-radius:7px;
  font-weight:700;font-size:.9em;flex:1;min-width:110px}
/* Divider */
hr{border:none;border-top:1px solid #1e3a5f;margin:10px 0}
</style></head><body>
<div class="page">
<h1>&#x1F5A7; SSH-Serial-Bridge Config <span style="font-size:.6em;color:#94a3b8">v"#;

/// The next piece of the configuration page.
pub const CONFIG_TO_WIFI_SSID: &'static str = r#"</span></h1>
<div id="msg"></div>

<!-- Status -->
<div class="card">
  <div class="section-title">&#x1F4F6; Device Status</div>
  <div id="status-card" class="stat-grid">
    <span class="stat-key">Loading</span><span class="stat-val">...</span>
  </div>
</div>

<form id="cfg">

<!-- Actions -->
<div class="card">
  <div class="actions">
    <button type="button" class="btn btn-save" onclick="saveConfig()">&#x1F4BE; Save to NVS</button>
    <button type="button" class="btn btn-reset" onclick="resetDefaults()">&#x21BA; Reset Defaults</button>
    <button type="button" class="btn btn-reboot" onclick="reboot()">&#x1F501; Reboot</button>
    <a href="/gpio" class="btn-gpio">&#x26A1; GPIO/PWM</a>
    <a href="/terminal" class="btn-gpio" style="background:#7c3aed">&#x1F4BB; Terminal</a>
    <a href="/logout" class="btn-logout">&#x1F6AA; Logout</a>
    <button type="button" class="btn" style="background:#0e7490" onclick="showBootLog()">&#x1F4DC; Boot Log</button>
  </div>
</div>

<!-- Boot Log Modal -->
<div id="boot-log-overlay" style="display:none;position:fixed;inset:0;background:rgba(0,0,0,.7);z-index:100;align-items:center;justify-content:center">
  <div style="background:#1e2d45;border:1px solid #243b55;border-radius:12px;padding:20px 24px;max-width:480px;width:90%;max-height:80vh;overflow-y:auto;box-shadow:0 8px 32px rgba(0,0,0,.6)">
    <div style="display:flex;justify-content:space-between;align-items:center;margin-bottom:14px">
      <span style="color:#93c5fd;font-weight:700;font-size:.95em;text-transform:uppercase;letter-spacing:.08em">&#x1F4DC; Boot Log</span>
      <button onclick="closeBootLog()" style="background:none;border:none;color:#94a3b8;font-size:1.4em;cursor:pointer;line-height:1">&times;</button>
    </div>
    <div id="boot-log-body" style="font-size:.88em;color:#e2e8f0;line-height:1.7">
      <span style="color:#64748b">Loading...</span>
    </div>
  </div>
</div>

<!-- WiFi -->
<div class="card">
  <div class="section-title">&#x1F4F6; WiFi</div>
  <div class="grid">
    <div class="field"><label>SSID</label>
      <input type="text" name="wifi_ssid" value=""#;

/// The next piece of the configuration page.
pub const CONFIG_TO_WIFI_PSK: &'static str = r#"" maxlength="32" autocomplete="off"></div>
    <div class="field"><label>Password</label>
      <input type="password" name="wifi_psk" value=""#;

/// The next piece of the configuration page.
pub const CONFIG_TO_WPS_TRUE: &'static str = r#"" maxlength="64" autocomplete="off"></div>
  </div>
  <hr>
  <div style="font-size:.8em;color:#64748b;margin-bottom:6px">WPS (PBC)</div>
  <div class="toggle-group">
    <label><input type="radio" name="wps_enable" value="true" "#;

/// The next piece of the configuration page.
pub const CONFIG_TO_WPS_FALSE: &'static str = r#"><span>Enable</span></label>
    <label><input type="radio" name="wps_enable" value="false" "#;

/// The next piece of the configuration page.
pub const CONFIG_TO_DHCP_CHK: &'static str = r#"><span>Disable</span></label>
  </div>
  <p style="font-size:.78em;color:#aaa;margin:.25em 0 0;">When WPS is enabled and SSID is empty, WPS PBC is triggered on next boot.</p>
  <div class="actions" style="margin-top:10px;align-items:center">
    <button type="button" class="btn btn-save" onclick="startWps()">&#x1F4F6; Start WPS</button>
    <span id="wps-status" class="stat-val"></span>
  </div>
</div>

<!-- Network -->
<div class="card">
  <div class="section-title">&#x1F310; Network</div>
  <div class="toggle-group">
    <label><input type="radio" name="ip_mode" value="dhcp" "#;

/// The next piece of the configuration page.
pub const CONFIG_TO_STATIC_CHK: &'static str = r#" onchange="ipModeChange()"><span>DHCP</span></label>
    <label><input type="radio" name="ip_mode" value="static" "#;

/// The next piece of the configuration page.
pub const CONFIG_TO_IP_ADDRESS: &'static str = r#" onchange="ipModeChange()"><span>Static IP</span></label>
  </div>
  <div class="indent" id="static-fields">
    <div class="grid">
      <div class="field"><label>IP Address</label>
        <input type="text" name="ip_address" value=""#;

/// The next piece of the configuration page.
pub const CONFIG_TO_SUBNET_MASK: &'static str = r#"" placeholder="192.168.1.100"></div>
      <div class="field"><label>Subnet Mask</label>
        <input type="text" name="subnet_mask" value=""#;

/// The next piece of the configuration page.
pub const CONFIG_TO_GATEWAY: &'static str = r#"" placeholder="255.255.255.0"></div>
      <div class="field"><label>Gateway</label>
        <input type="text" name="gateway" value=""#;

/// The next piece of the configuration page.
pub const CONFIG_TO_DNS: &'static str = r#"" placeholder="192.168.1.1"></div>
      <div class="field"><label>DNS Server</label>
        <input type="text" name="dns" value=""#;

/// The next piece of the configuration page.
pub const CONFIG_TO_SYSLOG_SERVER: &'static str = r#"" placeholder="192.168.1.1"></div>
    </div>
  </div>
</div>

<!-- Syslog -->
<div class="card">
  <div class="section-title">&#x1F4CB; Syslog</div>
  <div class="grid">
    <div class="field" style="grid-column:1/-1"><label>Server (host:port)</label>
      <input type="text" name="syslog_server" value=""#;

/// The next piece of the configuration page.
pub const CONFIG_TO_SYSLOG_HOST_NAME: &'static str = r#"" placeholder="192.168.1.1:514"></div>
    <div class="field"><label>Host Name</label>
      <input type="text" name="syslog_hostname" value=""#;

/// The next piece of the configuration page.
pub const CONFIG_TO_SYSLOG_APP_NAME: &'static str = r#"" placeholder="esp32"></div>
    <div class="field"><label>App Name</label>
      <input type="text" name="syslog_app_name" value=""#;

/// The next piece of the configuration page.
pub const CONFIG_TO_SYSLOG_TRUE: &'static str = r#"" placeholder="app"></div>
  </div>
  <hr>
  <div style="font-size:.8em;color:#64748b;margin-bottom:6px">Enable Syslog</div>
  <div class="toggle-group">
    <label><input type="radio" name="syslog_enable" value="true" "#;

/// The next piece of the configuration page.
pub const CONFIG_TO_SYSLOG_FALSE: &'static str = r#"><span>Enabled</span></label>
    <label><input type="radio" name="syslog_enable" value="false" "#;

/// The next piece of the configuration page.
pub const CONFIG_TO_SSH_USER: &'static str = r#"><span>Disabled</span></label>
  </div>
</div>

<!-- Auth -->
<div class="card">
  <div class="section-title">&#x1F510; Authentication (SSH &amp; Web)</div>
  <div class="grid">
    <div class="field"><label>Username</label>
      <input type="text" name="ssh_user" value=""#;

/// The next piece of the configuration page.
pub const CONFIG_TO_SSH_PASSWORD: &'static str = r#"" maxlength="64" autocomplete="username"></div>
    <div class="field"><label>Password</label>
      <input type="password" name="ssh_password" value=""#;

/// The next piece of the configuration page.
pub const CONFIG_TO_COM1_TX_PIN: &'static str = r#"" maxlength="64" autocomplete="new-password"></div>
  </div>
</div>

<!-- Serial Ports -->
<div class="card">
  <div class="section-title">&#x1F50C; Serial Ports (UART)</div>
  <div style="font-size:.78em;font-weight:600;color:#475569;text-transform:uppercase;
    letter-spacing:.06em;margin-bottom:6px">COM1 / UART1</div>
  <div class="grid-3">
    <div class="field"><label>TX Pin</label>
      <input type="number" name="com1_tx_pin" value=""#;

/// The next piece of the configuration page.
pub const CONFIG_TO_COM1_RX_PIN: &'static str = r#"" min="0" max="48"></div>
    <div class="field"><label>RX Pin</label>
      <input type="number" name="com1_rx_pin" value=""#;

/// The next piece of the configuration page.
pub const CONFIG_TO_COM1_BAUD: &'static str = r#"" min="0" max="48"></div>
    <div class="field"><label>Baud Rate</label>
      <input type="number" name="com1_baud" value=""#;

/// The next piece of the configuration page.
pub const CONFIG_TO_COM2_TX_PIN: &'static str = r#"" min="300" max="921600"></div>
  </div>
  <hr>
  <div style="font-size:.78em;font-weight:600;color:#475569;text-transform:uppercase;
    letter-spacing:.06em;margin:8px 0 6px">COM2 / UART2</div>
  <div class="grid-3">
    <div class="field"><label>TX Pin</label>
      <input type="number" name="com2_tx_pin" value=""#;

/// The next piece of the configuration page.
pub const CONFIG_TO_COM2_RX_PIN: &'static str = r#"" min="0" max="48"></div>
    <div class="field"><label>RX Pin</label>
      <input type="number" name="com2_rx_pin" value=""#;

/// The next piece of the configuration page.
pub const CONFIG_TO_COM2_BAUD: &'static str = r#"" min="0" max="48"></div>
    <div class="field"><label>Baud Rate</label>
      <input type="number" name="com2_baud" value=""#;

/// The next piece of the configuration page.
pub const CONFIG_TO_CDC_TRUE: &'static str = r#"" min="300" max="921600"></div>
  </div>
</div>

<!-- USB CDC -->
<div class="card">
  <div class="section-title">&#x1F4BB; USB CDC Host</div>
  <div class="toggle-group">
    <label><input type="radio" name="cdc_enable" value="true" "#;

/// The next piece of the configuration page.
pub const CONFIG_TO_CDC_FALSE: &'static str = r#"><span>Enabled</span></label>
    <label><input type="radio" name="cdc_enable" value="false" "#;

/// The next piece of the configuration page.
pub const CONFIG_TO_CDC_BAUD: &'static str = r#"><span>Disabled</span></label>
  </div>
  <div class="grid-3">
    <div class="field"><label>Baud Rate</label>
      <input type="number" name="cdc_baud" value=""#;

/// The next piece of the configuration page.
pub const CONFIG_TO_DP_COM1: &'static str = r#"" min="300" max="921600"></div>
  </div>
</div>

<!-- Display Port -->
<div class="card">
  <div class="section-title">&#x1F4FA; Display Serial Port</div>
  <div class="grid-3">
    <div class="field"><label>Monitor Port</label>
      <select name="display_port">
        <option value="com1" "#;

/// The next piece of the configuration page.
pub const CONFIG_TO_DP_COM2: &'static str = r#">COM1</option>
        <option value="com2" "#;

/// The next piece of the configuration page.
pub const CONFIG_TO_DP_USB0: &'static str = r#">COM2</option>
        <option value="usb0" "#;

/// The next piece of the configuration page.
pub const CONFIG_TO_PWM_TRUE: &'static str = r#">USB0</option>
      </select></div>
  </div>
</div>

<!-- PWM Control -->
<div class="card">
  <div class="section-title">&#x1F4CA; PWM Control (GPIO 10, 11)</div>
  <div style="font-size:.8em;color:#64748b;margin-bottom:6px">Enable PWM Output</div>
  <div class="toggle-group">
    <label><input type="radio" name="pwm_enable" value="true" "#;

/// The next piece of the configuration page.
pub const CONFIG_TO_PWM_FALSE: &'static str = r#"><span>Enabled</span></label>
    <label><input type="radio" name="pwm_enable" value="false" "#;

/// The next piece of the configuration page.
pub const CONFIG_TO_NTP_SERVER1: &'static str = r#"><span>Disabled</span></label>
  </div>
  <div style="font-size:.78em;color:#475569;margin-top:6px">Disabled: PWM pins are not initialized (useful when pins are used for other purposes)</div>
</div>

<!-- NTP Servers -->
<div class="card">
  <div class="section-title">&#x1F552; NTP Servers</div>
  <div class="grid">
    <div class="field"><label>NTP Server 1 (Primary)</label>
      <input type="text" name="ntp_server1" value=""#;

/// The next piece of the configuration page.
pub const CONFIG_TO_NTP_SERVER2: &'static str = r#"" placeholder="time.google.com"></div>
    <div class="field"><label>NTP Server 2</label>
      <input type="text" name="ntp_server2" value=""#;

/// The next piece of the configuration page.
pub const CONFIG_TO_NTP_SERVER3: &'static str = r#"" placeholder="time.google.com"></div>
    <div class="field"><label>NTP Server 3</label>
      <input type="text" name="ntp_server3" value=""#;

/// The next piece of the configuration page.
pub const CONFIG_TO_NTP_SERVER4: &'static str = r#"" placeholder="time.cloudflare.com"></div>
    <div class="field"><label>NTP Server 4</label>
      <input type="text" name="ntp_server4" value=""#;

/// The rest of the configuration page.
pub const CONFIG_END: &'static str = r#"" placeholder="ntp.nict.jp"></div>
  </div>
</div>


</form>
</div>
<script>
// Show/hide static IP fields based on ip_mode radio
function ipModeChange() {
  var isStatic = document.querySelector('input[name=ip_mode]:checked').value === 'static';
  document.getElementById('static-fields').style.display = isStatic ? 'block' : 'none';
}
// Apply on load
ipModeChange();
function showMsg(text, ok) {
  var d = document.getElementById('msg');
  d.textContent = text;
  d.className = ok ? 'ok' : 'err';
  d.style.display = 'block';
  d.scrollIntoView({behavior:'smooth'});
}
function saveConfig() {
  var fd = new FormData(document.getElementById('cfg'));
  var body = new URLSearchParams(fd).toString();
  fetch('/api/config', {
    method: 'POST',
    headers: {'Content-Type': 'application/x-www-form-urlencoded'},
    body: body
  })
  .then(r => r.text())
  .then(t => showMsg(t, true))
  .catch(e => showMsg('Save failed: ' + e, false));
}
function reboot() {
  if (!confirm('Reboot the device?')) return;
  fetch('/api/reboot', {method: 'POST'})
  .then(() => {
    showMsg('Rebooting... redirecting to login in 3 seconds.', true);
    setTimeout(() => { location.href = '/login'; }, 3000);
  })
  .catch(e => showMsg('Reboot request failed: ' + e, false));
}
function resetDefaults() {
  if (!confirm('Reset all settings to compile-time defaults and reload the page?')) return;
  fetch('/api/reset', {method: 'POST'})
  .then(r => r.text())
  .then(() => { location.reload(); })
  .catch(e => showMsg('Reset failed: ' + e, false));
}
function startWps() {
  if (!confirm('Start WPS? The device leaves the current network while it waits for the router.')) return;
  fetch('/api/wps', {method: 'POST'})
  .then(r => r.text())
  .then(t => { showMsg(t, true); updateWps(); })
  .catch(e => showMsg('WPS request failed: ' + e, false));
}
function updateWps() {
  fetch('/api/wps')
  .then(r => r.json())
  .then(d => {
    var texts = {
      'requested':  'Starting WPS...',
      'waiting':    'Press the WPS button on your router (' + d.seconds + ' s left)',
      'connecting': 'Connecting...',
      'succeeded':  'Connected, rebooting...',
      'failed':     'WPS failed',
    };
    document.getElementById('wps-status').textContent = texts[d.wps] || '';
  })
  .catch(() => {});
}
updateWps();
setInterval(updateWps, 2000);
function rssiBar(rssi) {
  if (rssi >= -55) return '<span class="badge badge-ok">Excellent (' + rssi + ' dBm)</span>';
  if (rssi >= -70) return '<span class="badge badge-ok">Good (' + rssi + ' dBm)</span>';
  if (rssi >= -80) return '<span class="badge badge-warn">Fair (' + rssi + ' dBm)</span>';
  return '<span class="badge badge-err">Weak (' + rssi + ' dBm)</span>';
}
function updateStatus() {
  fetch('/api/status')
  .then(r => r.json())
  .then(d => {
    var usb = d.cdc_enabled
      ? (d.usb_connected
          ? '<span class="badge badge-ok">&#x2705; ' + d.usb_device + ' (' + d.usb_vid + '/' + d.usb_pid + ')</span>'
          : '<span class="badge badge-warn">No device</span>')
      : '<span class="badge badge-err">Disabled</span>';
    var dev = d.active_device !== 'none'
      ? '<span class="badge badge-ok">' + d.active_device + '</span>'
      : '<span class="badge badge-warn">none</span>';
    document.getElementById('status-card').innerHTML =
      '<span class="stat-key">IP Address</span><span class="stat-val">' + d.ip + '</span>' +
      '<span class="stat-key">WiFi SSID</span><span class="stat-val">' + d.ssid + '</span>' +
      '<span class="stat-key">RSSI</span><span class="stat-val">' + rssiBar(d.rssi) + '</span>' +
      '<span class="stat-key">DC In Voltage</span><span class="stat-val"><span class="badge badge-ok">' + d.dc_in_voltage.toFixed(2) + ' V</span></span>' +
      '<span class="stat-key">DC Out Voltage</span><span class="stat-val"><span class="badge badge-ok">' + d.dc_out_voltage.toFixed(2) + ' V</span></span>' +
      '<span class="stat-key">Chip Temp</span><span class="stat-val"><span class="badge ' + (d.chip_temp < 70 ? 'badge-ok' : d.chip_temp < 85 ? 'badge-warn' : 'badge-err') + '">' + d.chip_temp.toFixed(1) + ' °C</span></span>' +
      '<span class="stat-key">USB CDC</span><span class="stat-val">' + usb + '</span>' +
      '<span class="stat-key">Active Device</span><span class="stat-val">' + dev + '</span>' +
      '<span class="stat-key">Display Port</span><span class="stat-val"><span class="badge badge-ok">' + d.display_port + '</span></span>' +
      '<span class="stat-key">Version</span><span class="stat-val"><span class="badge badge-ok">v' + d.version + '</span></span>';
  })
  .catch(() => {});
}
updateStatus();
setInterval(updateStatus, 3000);
function showBootLog() {
  var overlay = document.getElementById('boot-log-overlay');
  overlay.style.display = 'flex';
  document.getElementById('boot-log-body').innerHTML = '<span style="color:#64748b">Loading...</span>';
  fetch('/api/boot_log')
  .then(r => r.json())
  .then(d => {
    if (!d.entries || d.entries.length === 0) {
      document.getElementById('boot-log-body').innerHTML = '<span style="color:#64748b">No entries yet.</span>';
      return;
    }
    var reasons = {
      'PowerOn':     ['badge-ok',   '&#x1F50C; PowerOn'],
      'Software':    ['badge-ok',   '&#x1F501; Software'],
      'Panic/Crash': ['badge-err',  '&#x1F4A5; Panic/Crash'],
      'IntWatchdog': ['badge-err',  '&#x231B; IntWatchdog'],
      'TaskWatchdog':['badge-warn', '&#x231B; TaskWatchdog'],
      'Watchdog':    ['badge-warn', '&#x231B; Watchdog'],
      'Brownout':    ['badge-err',  '&#x26A1; Brownout'],
      'DeepSleep':   ['badge-ok',   '&#x1F4A4; DeepSleep'],
      'ExtReset':    ['badge-ok',   '&#x1F504; ExtReset'],
      'SDIO':        ['badge-warn', '&#x1F4BE; SDIO'],
    };
    var html = '<table style="width:100%;border-collapse:collapse">' +
      '<tr><th style="text-align:left;color:#475569;font-size:.75em;padding-bottom:6px;border-bottom:1px solid #243b55">#</th>' +
      '<th style="text-align:left;color:#475569;font-size:.75em;padding-bottom:6px;border-bottom:1px solid #243b55;padding-left:10px">Reset Reason</th></tr>';
    d.entries.forEach(function(e) {
      var m = e.match(/^#(\d+)\s+(.+)$/);
      if (!m) return;
      var num = m[1], reason = m[2].trim();
      var info = reasons[reason] || ['badge-warn', reason];
      html += '<tr><td style="padding:5px 0;color:#64748b;font-size:.85em;vertical-align:top">' + num + '</td>' +
        '<td style="padding:5px 0 5px 10px"><span class="badge ' + info[0] + '">' + info[1] + '</span></td></tr>';
    });
    html += '</table>';
    document.getElementById('boot-log-body').innerHTML = html;
  })
  .catch(e => {
    document.getElementById('boot-log-body').innerHTML = '<span style="color:#fca5a5">Failed to load: ' + e + '</span>';
  });
}
function closeBootLog() {
  document.getElementById('boot-log-overlay').style.display = 'none';
}
document.getElementById('boot-log-overlay').addEventListener('click', function(e) {
  if (e.target === this) closeBootLog();
});
</script>
</body></html>"#;

/// The pieces of the configuration page.
pub open spec fn config_pieces() -> Seq<Seq<char>> {
    seq![
        CONFIG_TO_VERSION@,
        CONFIG_TO_WIFI_SSID@,
        CONFIG_TO_WIFI_PSK@,
        CONFIG_TO_WPS_TRUE@,
        CONFIG_TO_WPS_FALSE@,
        CONFIG_TO_DHCP_CHK@,
        CONFIG_TO_STATIC_CHK@,
        CONFIG_TO_IP_ADDRESS@,
        CONFIG_TO_SUBNET_MASK@,
        CONFIG_TO_GATEWAY@,
        CONFIG_TO_DNS@,
        CONFIG_TO_SYSLOG_SERVER@,
        CONFIG_TO_SYSLOG_HOST_NAME@,
        CONFIG_TO_SYSLOG_APP_NAME@,
        CONFIG_TO_SYSLOG_TRUE@,
        CONFIG_TO_SYSLOG_FALSE@,
        CONFIG_TO_SSH_USER@,
        CONFIG_TO_SSH_PASSWORD@,
        CONFIG_TO_COM1_TX_PIN@,
        CONFIG_TO_COM1_RX_PIN@,
        CONFIG_TO_COM1_BAUD@,
        CONFIG_TO_COM2_TX_PIN@,
        CONFIG_TO_COM2_RX_PIN@,
        CONFIG_TO_COM2_BAUD@,
        CONFIG_TO_CDC_TRUE@,
        CONFIG_TO_CDC_FALSE@,
        CONFIG_TO_CDC_BAUD@,
        CONFIG_TO_DP_COM1@,
        CONFIG_TO_DP_COM2@,
        CONFIG_TO_DP_USB0@,
        CONFIG_TO_PWM_TRUE@,
        CONFIG_TO_PWM_FALSE@,
        CONFIG_TO_NTP_SERVER1@,
        CONFIG_TO_NTP_SERVER2@,
        CONFIG_TO_NTP_SERVER3@,
        CONFIG_TO_NTP_SERVER4@,
        CONFIG_END@,
    ]
}

/// What fills the gaps of the configuration page.
pub open spec fn config_values(cfg: NvsConfig) -> Seq<Seq<char>> {
    seq![
        APP_VERSION@,
        forms::escaped(cfg.wifi_ssid@),
        forms::escaped(cfg.wifi_psk@),
        forms::marked(cfg.wps_enable@, "true"@, "checked"@),
        forms::marked(cfg.wps_enable@, "false"@, "checked"@),
        forms::marked(cfg.ip_mode@, "dhcp"@, "checked"@),
        forms::marked(cfg.ip_mode@, "static"@, "checked"@),
        forms::escaped(cfg.ip_address@),
        forms::escaped(cfg.subnet_mask@),
        forms::escaped(cfg.gateway@),
        forms::escaped(cfg.dns@),
        forms::escaped(cfg.syslog_server@),
        forms::escaped(cfg.syslog_host_name@),
        forms::escaped(cfg.syslog_app_name@),
        forms::marked(cfg.syslog_enable@, "true"@, "checked"@),
        forms::marked(cfg.syslog_enable@, "false"@, "checked"@),
        forms::escaped(cfg.ssh_user@),
        forms::escaped(cfg.ssh_password@),
        forms::escaped(cfg.com1_tx_pin@),
        forms::escaped(cfg.com1_rx_pin@),
        forms::escaped(cfg.com1_baud@),
        forms::escaped(cfg.com2_tx_pin@),
        forms::escaped(cfg.com2_rx_pin@),
        forms::escaped(cfg.com2_baud@),
        forms::marked(cfg.cdc_enable@, "true"@, "checked"@),
        forms::marked(cfg.cdc_enable@, "false"@, "checked"@),
        forms::escaped(cfg.cdc_baud@),
        forms::marked(cfg.display_port@, "com1"@, "selected"@),
        forms::marked(cfg.display_port@, "com2"@, "selected"@),
        forms::marked(cfg.display_port@, "usb0"@, "selected"@),
        forms::marked(cfg.pwm_enable@, "true"@, "checked"@),
        forms::marked(cfg.pwm_enable@, "false"@, "checked"@),
        forms::escaped(cfg.ntp_server1@),
        forms::escaped(cfg.ntp_server2@),
        forms::escaped(cfg.ntp_server3@),
        forms::escaped(cfg.ntp_server4@),
    ]
}

/// The configuration page for the given settings.
pub fn build_config_html(cfg: &NvsConfig) -> (r: String)
    ensures
        r@ == filled(config_pieces(), config_values(*cfg)),
{
    let pieces: Vec<&'static str> = vec![
        CONFIG_TO_VERSION,
        CONFIG_TO_WIFI_SSID,
        CONFIG_TO_WIFI_PSK,
        CONFIG_TO_WPS_TRUE,
        CONFIG_TO_WPS_FALSE,
        CONFIG_TO_DHCP_CHK,
        CONFIG_TO_STATIC_CHK,
        CONFIG_TO_IP_ADDRESS,
        CONFIG_TO_SUBNET_MASK,
        CONFIG_TO_GATEWAY,
        CONFIG_TO_DNS,
        CONFIG_TO_SYSLOG_SERVER,
        CONFIG_TO_SYSLOG_HOST_NAME,
        CONFIG_TO_SYSLOG_APP_NAME,
        CONFIG_TO_SYSLOG_TRUE,
        CONFIG_TO_SYSLOG_FALSE,
        CONFIG_TO_SSH_USER,
        CONFIG_TO_SSH_PASSWORD,
        CONFIG_TO_COM1_TX_PIN,
        CONFIG_TO_COM1_RX_PIN,
        CONFIG_TO_COM1_BAUD,
        CONFIG_TO_COM2_TX_PIN,
        CONFIG_TO_COM2_RX_PIN,
        CONFIG_TO_COM2_BAUD,
        CONFIG_TO_CDC_TRUE,
        CONFIG_TO_CDC_FALSE,
        CONFIG_TO_CDC_BAUD,
        CONFIG_TO_DP_COM1,
        CONFIG_TO_DP_COM2,
        CONFIG_TO_DP_USB0,
        CONFIG_TO_PWM_TRUE,
        CONFIG_TO_PWM_FALSE,
        CONFIG_TO_NTP_SERVER1,
        CONFIG_TO_NTP_SERVER2,
        CONFIG_TO_NTP_SERVER3,
        CONFIG_TO_NTP_SERVER4,
        CONFIG_END,
    ];
    let values: Vec<String> = vec![
        APP_VERSION.to_owned(),
        esc(cfg.wifi_ssid.as_str()),
        esc(cfg.wifi_psk.as_str()),
        chk(cfg.wps_enable.as_str(), "true").to_owned(),
        chk(cfg.wps_enable.as_str(), "false").to_owned(),
        chk(cfg.ip_mode.as_str(), "dhcp").to_owned(),
        chk(cfg.ip_mode.as_str(), "static").to_owned(),
        esc(cfg.ip_address.as_str()),
        esc(cfg.subnet_mask.as_str()),
        esc(cfg.gateway.as_str()),
        esc(cfg.dns.as_str()),
        esc(cfg.syslog_server.as_str()),
        esc(cfg.syslog_host_name.as_str()),
        esc(cfg.syslog_app_name.as_str()),
        chk(cfg.syslog_enable.as_str(), "true").to_owned(),
        chk(cfg.syslog_enable.as_str(), "false").to_owned(),
        esc(cfg.ssh_user.as_str()),
        esc(cfg.ssh_password.as_str()),
        esc(cfg.com1_tx_pin.as_str()),
        esc(cfg.com1_rx_pin.as_str()),
        esc(cfg.com1_baud.as_str()),
        esc(cfg.com2_tx_pin.as_str()),
        esc(cfg.com2_rx_pin.as_str()),
        esc(cfg.com2_baud.as_str()),
        chk(cfg.cdc_enable.as_str(), "true").to_owned(),
        chk(cfg.cdc_enable.as_str(), "false").to_owned(),
        esc(cfg.cdc_baud.as_str()),
        sel(cfg.display_port.as_str(), "com1").to_owned(),
        sel(cfg.display_port.as_str(), "com2").to_owned(),
        sel(cfg.display_port.as_str(), "usb0").to_owned(),
        chk(cfg.pwm_enable.as_str(), "true").to_owned(),
        chk(cfg.pwm_enable.as_str(), "false").to_owned(),
        esc(cfg.ntp_server1.as_str()),
        esc(cfg.ntp_server2.as_str()),
        esc(cfg.ntp_server3.as_str()),
        esc(cfg.ntp_server4.as_str()),
    ];
    proof {
        assert(piece_views(pieces@) =~= config_pieces());
        assert(text::views(values@) =~= config_values(*cfg));
    }
    fill(pieces, values)
}

/// A piece of the row of a digital output.
pub const GPIO_ROW_0: &'static str = r#"<tr><td class="pin-label">GPIO "#;

/// A piece of the row of a digital output.
pub const GPIO_ROW_1: &'static str = r#"</td><td><label class="sw"><input type="checkbox" id="g"#;

/// A piece of the row of a digital output.
pub const GPIO_ROW_2: &'static str = r#"" "#;

/// A piece of the row of a digital output.
pub const GPIO_ROW_3: &'static str = r#" onchange="setGpio("#;

/// A piece of the row of a digital output.
pub const GPIO_ROW_4: &'static str = r#",this.checked)"><span class="slider"></span></label></td><td><span id="gs"#;

/// A piece of the row of a digital output.
pub const GPIO_ROW_5: &'static str = r#"" class="badge "#;

/// A piece of the row of a digital output.
pub const GPIO_ROW_6: &'static str = r#"">"#;

/// A piece of the row of a digital output.
pub const GPIO_ROW_7: &'static str = r#"</span></td></tr>"#;

/// A piece of the row of the DC output.
pub const DC_ROW_0: &'static str = r#"<tr><td class="pin-label">DCPOWER</td><td><label class="sw"><input type="checkbox" id="g6" "#;

/// A piece of the row of the DC output.
pub const DC_ROW_1: &'static str = r#" onchange="setGpio(6,this.checked)"><span class="slider"></span></label></td><td><span id="gs6" class="badge "#;

/// A piece of the row of the DC output.
pub const DC_ROW_2: &'static str = r#"">"#;

/// A piece of the row of the DC output.
pub const DC_ROW_3: &'static str = r#"</span></td></tr>"#;

/// A piece of the row of a PWM output.
pub const PWM_ROW_0: &'static str = r#"<tr><td class="pin-label">GPIO "#;

/// A piece of the row of a PWM output.
pub const PWM_ROW_1: &'static str = r#"</td><td><input type="range" min="0" max="100" value=""#;

/// A piece of the row of a PWM output.
pub const PWM_ROW_2: &'static str = r#"" class="range-input"id="p"#;

/// A piece of the row of a PWM output.
pub const PWM_ROW_3: &'static str = r#"" oninput="updatePwmLabel("#;

/// A piece of the row of a PWM output.
pub const PWM_ROW_4: &'static str = r#",this.value)" onchange="setPwm("#;

/// A piece of the row of a PWM output.
pub const PWM_ROW_5: &'static str = r#",this.value)"></td><td><span id="pl"#;

/// A piece of the row of a PWM output.
pub const PWM_ROW_6: &'static str = r#"" class="duty-label">"#;

/// A piece of the row of a PWM output.
pub const PWM_ROW_7: &'static str = r#"%</span></td></tr>"#;

/// A piece of the page of the outputs.
pub const GPIO_PAGE_0: &'static str = r#"<!DOCTYPE html><html lang="ja"><head>
<meta charset="UTF-8"><meta name="viewport" content="width=device-width,initial-scale=1">
<title>GPIO/PWM Control</title>
<style>
*{box-sizing:border-box;margin:0;padding:0}
body{font-family:'Segoe UI',Arial,sans-serif;background:#111827;color:#e2e8f0;min-height:100vh}
.page{max-width:640px;margin:0 auto;padding:16px}
h1{color:#f87171;text-align:center;font-size:1.4em;padding:18px 0 14px;letter-spacing:.05em}
.card{background:#1e2d45;border-radius:10px;padding:16px 18px;margin-bottom:10px;border:1px solid #243b55;box-shadow:0 2px 8px rgba(0,0,0,.35)}
.section-title{display:flex;align-items:center;gap:8px;color:#93c5fd;font-size:.82em;font-weight:700;text-transform:uppercase;letter-spacing:.08em;margin:0 0 12px;padding-bottom:6px;border-bottom:1px solid #1e3a5f}
table{width:100%;border-collapse:collapse}
td{padding:8px 6px;vertical-align:middle}
.pin-label{font-size:.9em;font-weight:600;color:#94a3b8;width:90px}
.badge{display:inline-block;padding:2px 9px;border-radius:20px;font-size:.8em;font-weight:700;width:42px;text-align:center}
.badge-ok{background:#14532d;color:#4ade80;border:1px solid #166534}
.badge-err{background:#4c0519;color:#fb7185;border:1px solid #881337}
.sw{position:relative;display:inline-block;width:46px;height:26px}
.sw input{display:none}
.slider{position:absolute;cursor:pointer;top:0;left:0;right:0;bottom:0;background:#374151;border-radius:34px;transition:.3s}
.slider:before{position:absolute;content:"";height:20px;width:20px;left:3px;bottom:3px;background:#e2e8f0;border-radius:50%;transition:.3s}
.sw input:checked+.slider{background:#1d4ed8}
.sw input:checked+.slider:before{transform:translateX(20px)}
.range-input{-webkit-appearance:none;width:100%;height:6px;border-radius:3px;background:#374151;outline:none}
.range-input::-webkit-slider-thumb{-webkit-appearance:none;width:18px;height:18px;border-radius:50%;background:#60a5fa;cursor:pointer}
.duty-label{font-size:.95em;font-weight:700;color:#7dd3fc;min-width:40px;display:inline-block;text-align:right}
.back-link{display:block;text-align:center;margin-top:12px;color:#60a5fa;font-size:.9em;text-decoration:none}
.back-link:hover{text-decoration:underline}
</style></head><body>
<div class="page">
<h1>&#x26A1; GPIO / PWM Control</h1>

<div class="card">
  <div class="section-title">&#x1F4A1; Digital Output (GPIO 4-9)</div>
  <table>"#;

/// A piece of the page of the outputs.
pub const GPIO_PAGE_1: &'static str = r#"</table>
</div>

<div class="card" style="border-color:#7c3aed">
  <div class="section-title" style="color:#c4b5fd;border-color:#4c1d95">&#x26A1; DC Power (GPIO 12)</div>
  <table>"#;

/// A piece of the page of the outputs.
pub const GPIO_PAGE_2: &'static str = r#"</table>
</div>

<div class="card">
  <div class="section-title">&#x1F4CA; PWM Output (GPIO 10-11)</div>
  <table>"#;

/// A piece of the page of the outputs.
pub const GPIO_PAGE_3: &'static str = r#"</table>
</div>

<a class="back-link" href="/">&#x2190; Back to Config</a>
</div>
<script>
function setGpio(idx,val){
  fetch('/api/gpio',{method:'POST',headers:{'Content-Type':'application/x-www-form-urlencoded'},
    body:'index='+idx+'&value='+(val?'1':'0')}).then(r=>r.json()).then(d=>{
    var b=document.getElementById('gs'+idx);
    b.textContent=d.gpio[idx]?'ON':'OFF';
    b.className='badge '+(d.gpio[idx]?'badge-ok':'badge-err');
    document.getElementById('g'+idx).checked=d.gpio[idx];
  }).catch(function(){});
}
function updatePwmLabel(idx,val){document.getElementById('pl'+idx).textContent=val+'%';}
function setPwm(idx,val){
  fetch('/api/pwm',{method:'POST',headers:{'Content-Type':'application/x-www-form-urlencoded'},
    body:'index='+idx+'&duty='+val}).catch(function(){});
}
function refreshState(){
  fetch('/api/gpio_state').then(r=>r.json()).then(d=>{
    for(var i=0;i<7;i++){
      var b=document.getElementById('gs'+i);
      b.textContent=d.gpio[i]?'ON':'OFF';
      b.className='badge '+(d.gpio[i]?'badge-ok':'badge-err');
      document.getElementById('g'+i).checked=d.gpio[i];
    }
    for(var j=0;j<2;j++){
      document.getElementById('p'+j).value=d.pwm[j];
      document.getElementById('pl'+j).textContent=d.pwm[j]+'%';
    }
  }).catch(function(){});
}
setInterval(refreshState,2000);
</script>
</body></html>"#;

/// `checked` for an output that is on.
pub open spec fn checked(on: bool) -> Seq<char> {
    if on {
        "checked"@
    } else {
        Seq::empty()
    }
}

/// The class of an output's badge.
pub open spec fn badge(on: bool) -> Seq<char> {
    if on {
        "badge-ok"@
    } else {
        "badge-err"@
    }
}

/// The label of an output's badge.
pub open spec fn on_off(on: bool) -> Seq<char> {
    if on {
        "ON"@
    } else {
        "OFF"@
    }
}

/// The row of digital output `i`.
pub open spec fn gpio_row(i: nat, on: bool) -> Seq<char> {
    filled(
        seq![GPIO_ROW_0@, GPIO_ROW_1@, GPIO_ROW_2@, GPIO_ROW_3@, GPIO_ROW_4@, GPIO_ROW_5@, GPIO_ROW_6@, GPIO_ROW_7@],
        seq![
            text::dec(i + 4),
            text::dec(i),
            checked(on),
            text::dec(i),
            text::dec(i),
            badge(on),
            on_off(on),
        ],
    )
}

/// The rows of the first `n` digital outputs.
pub open spec fn gpio_rows(gpio: Seq<bool>, n: nat) -> Seq<char>
    decreases n,
{
    if n == 0 {
        Seq::empty()
    } else {
        gpio_rows(gpio, (n - 1) as nat) + gpio_row((n - 1) as nat, gpio[n - 1])
    }
}

/// The row of the DC output.
pub open spec fn dc_row(on: bool) -> Seq<char> {
    filled(seq![DC_ROW_0@, DC_ROW_1@, DC_ROW_2@, DC_ROW_3@], seq![checked(on), badge(on), on_off(on)])
}

/// The row of PWM output `i`.
pub open spec fn pwm_row(i: nat, duty: u8) -> Seq<char> {
    filled(
        seq![PWM_ROW_0@, PWM_ROW_1@, PWM_ROW_2@, PWM_ROW_3@, PWM_ROW_4@, PWM_ROW_5@, PWM_ROW_6@, PWM_ROW_7@],
        seq![
            text::dec(i + 10),
            text::dec(duty as nat),
            text::dec(i),
            text::dec(i),
            text::dec(i),
            text::dec(i),
            text::dec(duty as nat),
        ],
    )
}

/// The page of the outputs.
pub open spec fn gpio_page(gpio: Seq<bool>, pwm: Seq<u8>) -> Seq<char> {
    filled(
        seq![GPIO_PAGE_0@, GPIO_PAGE_1@, GPIO_PAGE_2@, GPIO_PAGE_3@],
        seq![gpio_rows(gpio, 6), dc_row(gpio[6]), pwm_row(0, pwm[0]) + pwm_row(1, pwm[1])],
    )
}

fn checked_text(on: bool) -> (r: String)
    ensures
        r@ == checked(on),
{
    if on {
        "checked".to_owned()
    } else {
        String::new()
    }
}

fn badge_text(on: bool) -> (r: String)
    ensures
        r@ == badge(on),
{
    if on {
        "badge-ok".to_owned()
    } else {
        "badge-err".to_owned()
    }
}

fn on_off_text(on: bool) -> (r: String)
    ensures
        r@ == on_off(on),
{
    if on {
        "ON".to_owned()
    } else {
        "OFF".to_owned()
    }
}

fn gpio_row_text(i: usize, on: bool) -> (r: String)
    requires
        i < 6,
    ensures
        r@ == gpio_row(i as nat, on),
{
    let pieces: Vec<&'static str> = vec![GPIO_ROW_0, GPIO_ROW_1, GPIO_ROW_2, GPIO_ROW_3, GPIO_ROW_4, GPIO_ROW_5, GPIO_ROW_6, GPIO_ROW_7];
    let values: Vec<String> = vec![
        dec_text(i as u64 + 4),
        dec_text(i as u64),
        checked_text(on),
        dec_text(i as u64),
        dec_text(i as u64),
        badge_text(on),
        on_off_text(on),
    ];
    proof {
        assert(piece_views(pieces@) =~= seq![GPIO_ROW_0@, GPIO_ROW_1@, GPIO_ROW_2@, GPIO_ROW_3@, GPIO_ROW_4@, GPIO_ROW_5@, GPIO_ROW_6@, GPIO_ROW_7@]);
        assert(text::views(values@) =~= seq![
            text::dec((i + 4) as nat),
            text::dec(i as nat),
            checked(on),
            text::dec(i as nat),
            text::dec(i as nat),
            badge(on),
            on_off(on),
        ]);
    }
    fill(pieces, values)
}

fn dc_row_text(on: bool) -> (r: String)
    ensures
        r@ == dc_row(on),
{
    let pieces: Vec<&'static str> = vec![DC_ROW_0, DC_ROW_1, DC_ROW_2, DC_ROW_3];
    let values: Vec<String> = vec![checked_text(on), badge_text(on), on_off_text(on)];
    proof {
        assert(piece_views(pieces@) =~= seq![DC_ROW_0@, DC_ROW_1@, DC_ROW_2@, DC_ROW_3@]);
        assert(text::views(values@) =~= seq![checked(on), badge(on), on_off(on)]);
    }
    fill(pieces, values)
}

fn pwm_row_text(i: usize, duty: u8) -> (r: String)
    requires
        i < 2,
    ensures
        r@ == pwm_row(i as nat, duty),
{
    let pieces: Vec<&'static str> = vec![PWM_ROW_0, PWM_ROW_1, PWM_ROW_2, PWM_ROW_3, PWM_ROW_4, PWM_ROW_5, PWM_ROW_6, PWM_ROW_7];
    let values: Vec<String> = vec![
        dec_text(i as u64 + 10),
        dec_text(duty as u64),
        dec_text(i as u64),
        dec_text(i as u64),
        dec_text(i as u64),
        dec_text(i as u64),
        dec_text(duty as u64),
    ];
    proof {
        assert(piece_views(pieces@) =~= seq![PWM_ROW_0@, PWM_ROW_1@, PWM_ROW_2@, PWM_ROW_3@, PWM_ROW_4@, PWM_ROW_5@, PWM_ROW_6@, PWM_ROW_7@]);
        assert(text::views(values@) =~= seq![
            text::dec((i + 10) as nat),
            text::dec(duty as nat),
            text::dec(i as nat),
            text::dec(i as nat),
            text::dec(i as nat),
            text::dec(i as nat),
            text::dec(duty as nat),
        ]);
    }
    fill(pieces, values)
}

/// The page of the outputs.
pub fn build_gpio_html(gpio_states: [bool; 7], pwm_duties: [u8; 2]) -> (r: String)
    ensures
        r@ == gpio_page(gpio_states@, pwm_duties@),
{
    let mut rows = String::new();
    let mut i: usize = 0;
    while i < 6
        invariant
            i <= 6,
            rows@ == gpio_rows(gpio_states@, i as nat),
        decreases 6 - i,
    {
        let row = gpio_row_text(i, gpio_states[i]);
        rows.append(row.as_str());
        i = i + 1;
    }
    let mut pwm = pwm_row_text(0, pwm_duties[0]);
    let second = pwm_row_text(1, pwm_duties[1]);
    pwm.append(second.as_str());
    let pieces: Vec<&'static str> = vec![GPIO_PAGE_0, GPIO_PAGE_1, GPIO_PAGE_2, GPIO_PAGE_3];
    let values: Vec<String> = vec![rows, dc_row_text(gpio_states[6]), pwm];
    proof {
        assert(piece_views(pieces@) =~= seq![GPIO_PAGE_0@, GPIO_PAGE_1@, GPIO_PAGE_2@, GPIO_PAGE_3@]);
        assert(text::views(values@) =~= seq![
            gpio_rows(gpio_states@, 6),
            dc_row(gpio_states@[6]),
            pwm_row(0, pwm_duties@[0]) + pwm_row(1, pwm_duties@[1]),
        ]);
    }
    fill(pieces, values)
}

/// The terminal page.
pub const TERMINAL_HTML: &'static str = r#"<!DOCTYPE html><html lang="ja"><head>
<meta charset="UTF-8"><meta name="viewport" content="width=device-width,initial-scale=1">
<title>SSH-Serial-Bridge Terminal</title>
<link rel="stylesheet" href="/static/xterm.css">
<style>
*{box-sizing:border-box;margin:0;padding:0}
body{background:#111827;color:#e2e8f0;font-family:'Segoe UI',Arial,sans-serif;height:100vh;display:flex;flex-direction:column}
.toolbar{display:flex;align-items:center;gap:10px;padding:8px 14px;background:#1e2d45;
  border-bottom:1px solid #243b55;flex-shrink:0}
.toolbar h1{font-size:1em;color:#93c5fd;letter-spacing:.05em;margin-right:auto}
.toolbar select,.toolbar button{padding:6px 14px;border-radius:6px;border:1px solid #2d4a6a;
  background:#0f172a;color:#e2e8f0;font-size:.85em;cursor:pointer}
.toolbar select:focus,.toolbar button:focus{outline:none;border-color:#60a5fa}
.toolbar button:hover{filter:brightness(1.2)}
.btn-connect{background:#166534;border-color:#16a34a;font-weight:700}
.btn-connect.connected{background:#991b1b;border-color:#dc2626}
.btn-back{background:#374151;text-decoration:none;color:#e2e8f0;display:inline-flex;
  align-items:center;padding:6px 14px;border-radius:6px;font-size:.85em;font-weight:600}
.status{font-size:.78em;padding:3px 10px;border-radius:12px;font-weight:700}
.status.ok{background:#14532d;color:#4ade80}.status.off{background:#4c0519;color:#fb7185}
#terminal-container{flex:1;padding:4px;overflow:hidden}
</style></head><body>
<div class="toolbar">
  <h1>&#x1F4BB; Serial Terminal</h1>
  <label style="font-size:.8em;color:#94a3b8">Port:</label>
  <select id="port-select">
    <option value="com1">COM1</option>
    <option value="com2">COM2</option>
    <option value="usb0" id="opt-usb0" style="display:none">USB0</option>
    <option value="usb1" id="opt-usb1" style="display:none">USB1</option>
    <option value="usb2" id="opt-usb2" style="display:none">USB2</option>
    <option value="usb3" id="opt-usb3" style="display:none">USB3</option>
  </select>
  <button id="btn-conn" class="toolbar btn-connect" onclick="toggleConnection()">Connect</button>
  <span id="ws-status" class="status off">Disconnected</span>
  <a href="/" class="btn-back">&#x2190; Config</a>
</div>
<div id="terminal-container"></div>
<script src="/static/xterm.js"></script>
<script src="/static/xterm-addon-fit.js"></script>
<script>
const term = new Terminal({
  cursorBlink: true,
  fontSize: 14,
  theme: {
    background: '#0f172a',
    foreground: '#e2e8f0',
    cursor: '#60a5fa',
    selectionBackground: '#334155'
  }
});
const fitAddon = new FitAddon.FitAddon();
term.loadAddon(fitAddon);
term.open(document.getElementById('terminal-container'));
fitAddon.fit();
window.addEventListener('resize', () => fitAddon.fit());

let ws = null;
const portSel = document.getElementById('port-select');
const btnConn = document.getElementById('btn-conn');
const wsStatus = document.getElementById('ws-status');

function toggleConnection() {
  if (ws && ws.readyState === WebSocket.OPEN) {
    ws.close();
  } else {
    connect();
  }
}

function connect() {
  const port = portSel.value;
  const proto = location.protocol === 'https:' ? 'wss:' : 'ws:';
  ws = new WebSocket(proto + '//' + location.host + '/ws/serial');
  ws.binaryType = 'arraybuffer';

  ws.onopen = () => {
    wsStatus.textContent = 'Connected (' + port.toUpperCase() + ')';
    wsStatus.className = 'status ok';
    btnConn.textContent = 'Disconnect';
    btnConn.classList.add('connected');
    portSel.disabled = true;
    // Send init message with port selection
    ws.send(JSON.stringify({cmd: 'init', port: port}));
    term.focus();
  };

  ws.onmessage = (ev) => {
    if (ev.data instanceof ArrayBuffer) {
      term.write(new Uint8Array(ev.data));
    } else {
      term.write(ev.data);
    }
  };

  ws.onclose = () => {
    wsStatus.textContent = 'Disconnected';
    wsStatus.className = 'status off';
    btnConn.textContent = 'Connect';
    btnConn.classList.remove('connected');
    portSel.disabled = false;
    ws = null;
  };

  ws.onerror = (err) => {
    console.error('WS error:', err);
    term.write('\r\n\x1b[31m[WebSocket error]\x1b[0m\r\n');
  };
}

// Terminal input → WebSocket (binary)
term.onData((data) => {
  if (ws && ws.readyState === WebSocket.OPEN) {
    const encoder = new TextEncoder();
    ws.send(encoder.encode(data));
  }
});

// Populate USB port options based on connected device
function updateUsbOptions() {
  fetch('/api/status')
  .then(r => r.json())
  .then(d => {
    var count = (d.cdc_enabled && d.usb_connected) ? (d.usb_ports || 1) : 0;
    for (var i = 0; i < 4; i++) {
      var opt = document.getElementById('opt-usb' + i);
      if (opt) opt.style.display = i < count ? '' : 'none';
    }
  })
  .catch(function(){});
}
updateUsbOptions();
setInterval(updateUsbOptions, 5000);
</script>
</body></html>"#;

/// The terminal page.
pub fn build_terminal_html() -> (r: String)
    ensures
        r@ == TERMINAL_HTML@,
{
    TERMINAL_HTML.to_owned()
}

proof fn lemma_gap(pieces: Seq<Seq<char>>, values: Seq<Seq<char>>, n: nat, i: int)
    requires
        0 <= i < n <= values.len(),
        pieces.len() == values.len() + 1,
    ensures
        text::stands_in(filled_to(pieces, values, n), pieces[i] + values[i] + pieces[i + 1]),
    decreases n,
{
    let part = pieces[i] + values[i] + pieces[i + 1];
    let before = filled_to(pieces, values, (n - 1) as nat);
    let end = values[n - 1] + pieces[n as int];
    let whole = filled_to(pieces, values, n);
    let none = Seq::<char>::empty();
    if i < n - 1 {
        lemma_gap(pieces, values, (n - 1) as nat, i);
        let (a, b) = choose|a: Seq<char>, b: Seq<char>| before == #[trigger] (a + part + b);
        assert(whole =~= a + part + (b + end));
    } else if n == 1 {
        assert(before == pieces[0]);
        assert(whole =~= none + part + none);
    } else {
        let front = filled_to(pieces, values, (n - 2) as nat) + values[n - 2];
        assert(before == front + pieces[n - 1]);
        assert(whole =~= front + part + none);
    }
}

/// On the configuration page each setting stands in the field of its own name, between the text
/// that leads to it and the text behind it; of a choice the option that is set is marked.
pub proof fn law_config_page_by_field(cfg: NvsConfig)
    ensures
        ({
            let page = filled(config_pieces(), config_values(cfg));
            &&& text::stands_in(
                page,
                CONFIG_TO_VERSION@ + APP_VERSION@ + CONFIG_TO_WIFI_SSID@,
            )
            &&& text::stands_in(
                page,
                CONFIG_TO_WIFI_SSID@ + forms::escaped(cfg.wifi_ssid@) + CONFIG_TO_WIFI_PSK@,
            )
            &&& text::stands_in(
                page,
                CONFIG_TO_WIFI_PSK@ + forms::escaped(cfg.wifi_psk@) + CONFIG_TO_WPS_TRUE@,
            )
            &&& text::stands_in(
                page,
                CONFIG_TO_WPS_TRUE@ + forms::marked(cfg.wps_enable@, "true"@, "checked"@) + CONFIG_TO_WPS_FALSE@,
            )
            &&& text::stands_in(
                page,
                CONFIG_TO_WPS_FALSE@ + forms::marked(cfg.wps_enable@, "false"@, "checked"@) + CONFIG_TO_DHCP_CHK@,
            )
            &&& text::stands_in(
                page,
                CONFIG_TO_DHCP_CHK@ + forms::marked(cfg.ip_mode@, "dhcp"@, "checked"@) + CONFIG_TO_STATIC_CHK@,
            )
            &&& text::stands_in(
                page,
                CONFIG_TO_STATIC_CHK@ + forms::marked(cfg.ip_mode@, "static"@, "checked"@) + CONFIG_TO_IP_ADDRESS@,
            )
            &&& text::stands_in(
                page,
                CONFIG_TO_IP_ADDRESS@ + forms::escaped(cfg.ip_address@) + CONFIG_TO_SUBNET_MASK@,
            )
            &&& text::stands_in(
                page,
                CONFIG_TO_SUBNET_MASK@ + forms::escaped(cfg.subnet_mask@) + CONFIG_TO_GATEWAY@,
            )
            &&& text::stands_in(
                page,
                CONFIG_TO_GATEWAY@ + forms::escaped(cfg.gateway@) + CONFIG_TO_DNS@,
            )
            &&& text::stands_in(
                page,
                CONFIG_TO_DNS@ + forms::escaped(cfg.dns@) + CONFIG_TO_SYSLOG_SERVER@,
            )
            &&& text::stands_in(
                page,
                CONFIG_TO_SYSLOG_SERVER@ + forms::escaped(cfg.syslog_server@) + CONFIG_TO_SYSLOG_HOST_NAME@,
            )
            &&& text::stands_in(
                page,
                CONFIG_TO_SYSLOG_HOST_NAME@ + forms::escaped(cfg.syslog_host_name@) + CONFIG_TO_SYSLOG_APP_NAME@,
            )
            &&& text::stands_in(
                page,
                CONFIG_TO_SYSLOG_APP_NAME@ + forms::escaped(cfg.syslog_app_name@) + CONFIG_TO_SYSLOG_TRUE@,
            )
            &&& text::stands_in(
                page,
                CONFIG_TO_SYSLOG_TRUE@ + forms::marked(cfg.syslog_enable@, "true"@, "checked"@) + CONFIG_TO_SYSLOG_FALSE@,
            )
            &&& text::stands_in(
                page,
                CONFIG_TO_SYSLOG_FALSE@ + forms::marked(cfg.syslog_enable@, "false"@, "checked"@) + CONFIG_TO_SSH_USER@,
            )
            &&& text::stands_in(
                page,
                CONFIG_TO_SSH_USER@ + forms::escaped(cfg.ssh_user@) + CONFIG_TO_SSH_PASSWORD@,
            )
            &&& text::stands_in(
                page,
                CONFIG_TO_SSH_PASSWORD@ + forms::escaped(cfg.ssh_password@) + CONFIG_TO_COM1_TX_PIN@,
            )
            &&& text::stands_in(
                page,
                CONFIG_TO_COM1_TX_PIN@ + forms::escaped(cfg.com1_tx_pin@) + CONFIG_TO_COM1_RX_PIN@,
            )
            &&& text::stands_in(
                page,
                CONFIG_TO_COM1_RX_PIN@ + forms::escaped(cfg.com1_rx_pin@) + CONFIG_TO_COM1_BAUD@,
            )
            &&& text::stands_in(
                page,
                CONFIG_TO_COM1_BAUD@ + forms::escaped(cfg.com1_baud@) + CONFIG_TO_COM2_TX_PIN@,
            )
            &&& text::stands_in(
                page,
                CONFIG_TO_COM2_TX_PIN@ + forms::escaped(cfg.com2_tx_pin@) + CONFIG_TO_COM2_RX_PIN@,
            )
            &&& text::stands_in(
                page,
                CONFIG_TO_COM2_RX_PIN@ + forms::escaped(cfg.com2_rx_pin@) + CONFIG_TO_COM2_BAUD@,
            )
            &&& text::stands_in(
                page,
                CONFIG_TO_COM2_BAUD@ + forms::escaped(cfg.com2_baud@) + CONFIG_TO_CDC_TRUE@,
            )
            &&& text::stands_in(
                page,
                CONFIG_TO_CDC_TRUE@ + forms::marked(cfg.cdc_enable@, "true"@, "checked"@) + CONFIG_TO_CDC_FALSE@,
            )
            &&& text::stands_in(
                page,
                CONFIG_TO_CDC_FALSE@ + forms::marked(cfg.cdc_enable@, "false"@, "checked"@) + CONFIG_TO_CDC_BAUD@,
            )
            &&& text::stands_in(
                page,
                CONFIG_TO_CDC_BAUD@ + forms::escaped(cfg.cdc_baud@) + CONFIG_TO_DP_COM1@,
            )
            &&& text::stands_in(
                page,
                CONFIG_TO_DP_COM1@ + forms::marked(cfg.display_port@, "com1"@, "selected"@) + CONFIG_TO_DP_COM2@,
            )
            &&& text::stands_in(
                page,
                CONFIG_TO_DP_COM2@ + forms::marked(cfg.display_port@, "com2"@, "selected"@) + CONFIG_TO_DP_USB0@,
            )
            &&& text::stands_in(
                page,
                CONFIG_TO_DP_USB0@ + forms::marked(cfg.display_port@, "usb0"@, "selected"@) + CONFIG_TO_PWM_TRUE@,
            )
            &&& text::stands_in(
                page,
                CONFIG_TO_PWM_TRUE@ + forms::marked(cfg.pwm_enable@, "true"@, "checked"@) + CONFIG_TO_PWM_FALSE@,
            )
            &&& text::stands_in(
                page,
                CONFIG_TO_PWM_FALSE@ + forms::marked(cfg.pwm_enable@, "false"@, "checked"@) + CONFIG_TO_NTP_SERVER1@,
            )
            &&& text::stands_in(
                page,
                CONFIG_TO_NTP_SERVER1@ + forms::escaped(cfg.ntp_server1@) + CONFIG_TO_NTP_SERVER2@,
            )
            &&& text::stands_in(
                page,
                CONFIG_TO_NTP_SERVER2@ + forms::escaped(cfg.ntp_server2@) + CONFIG_TO_NTP_SERVER3@,
            )
            &&& text::stands_in(
                page,
                CONFIG_TO_NTP_SERVER3@ + forms::escaped(cfg.ntp_server3@) + CONFIG_TO_NTP_SERVER4@,
            )
            &&& text::stands_in(
                page,
                CONFIG_TO_NTP_SERVER4@ + forms::escaped(cfg.ntp_server4@) + CONFIG_END@,
            )
        }),
{
    let ps = config_pieces();
    let vs = config_values(cfg);
    lemma_gap(ps, vs, vs.len(), 0);
    lemma_gap(ps, vs, vs.len(), 1);
    lemma_gap(ps, vs, vs.len(), 2);
    lemma_gap(ps, vs, vs.len(), 3);
    lemma_gap(ps, vs, vs.len(), 4);
    lemma_gap(ps, vs, vs.len(), 5);
    lemma_gap(ps, vs, vs.len(), 6);
    lemma_gap(ps, vs, vs.len(), 7);
    lemma_gap(ps, vs, vs.len(), 8);
    lemma_gap(ps, vs, vs.len(), 9);
    lemma_gap(ps, vs, vs.len(), 10);
    lemma_gap(ps, vs, vs.len(), 11);
    lemma_gap(ps, vs, vs.len(), 12);
    lemma_gap(ps, vs, vs.len(), 13);
    lemma_gap(ps, vs, vs.len(), 14);
    lemma_gap(ps, vs, vs.len(), 15);
    lemma_gap(ps, vs, vs.len(), 16);
    lemma_gap(ps, vs, vs.len(), 17);
    lemma_gap(ps, vs, vs.len(), 18);
    lemma_gap(ps, vs, vs.len(), 19);
    lemma_gap(ps, vs, vs.len(), 20);
    lemma_gap(ps, vs, vs.len(), 21);
    lemma_gap(ps, vs, vs.len(), 22);
    lemma_gap(ps, vs, vs.len(), 23);
    lemma_gap(ps, vs, vs.len(), 24);
    lemma_gap(ps, vs, vs.len(), 25);
    lemma_gap(ps, vs, vs.len(), 26);
    lemma_gap(ps, vs, vs.len(), 27);
    lemma_gap(ps, vs, vs.len(), 28);
    lemma_gap(ps, vs, vs.len(), 29);
    lemma_gap(ps, vs, vs.len(), 30);
    lemma_gap(ps, vs, vs.len(), 31);
    lemma_gap(ps, vs, vs.len(), 32);
    lemma_gap(ps, vs, vs.len(), 33);
    lemma_gap(ps, vs, vs.len(), 34);
    lemma_gap(ps, vs, vs.len(), 35);
}

/// The row of an output tells its pin, four above its number, and its state, and switches the
/// output of that number.
pub proof fn law_output_row(i: nat, on: bool)
    ensures
        gpio_row(i, on) == GPIO_ROW_0@ + text::dec(i + 4) + GPIO_ROW_1@ + text::dec(i) + GPIO_ROW_2@
            + (if on {
            "checked"@
        } else {
            Seq::empty()
        }) + GPIO_ROW_3@ + text::dec(i) + GPIO_ROW_4@ + text::dec(i) + GPIO_ROW_5@ + (if on {
            "badge-ok"@
        } else {
            "badge-err"@
        }) + GPIO_ROW_6@ + (if on {
            "ON"@
        } else {
            "OFF"@
        }) + GPIO_ROW_7@,
{
    reveal_with_fuel(filled_to, 8);
}

/// The row of the DC output tells its state.
pub proof fn law_dc_row(on: bool)
    ensures
        dc_row(on) == DC_ROW_0@ + (if on {
            "checked"@
        } else {
            Seq::empty()
        }) + DC_ROW_1@ + (if on {
            "badge-ok"@
        } else {
            "badge-err"@
        }) + DC_ROW_2@ + (if on {
            "ON"@
        } else {
            "OFF"@
        }) + DC_ROW_3@,
{
    reveal_with_fuel(filled_to, 4);
}

/// The row of a PWM output tells its pin, ten above its number, and its duty, and sets the duty of
/// that number.
pub proof fn law_duty_row(i: nat, duty: u8)
    ensures
        pwm_row(i, duty) == PWM_ROW_0@ + text::dec(i + 10) + PWM_ROW_1@ + text::dec(duty as nat)
            + PWM_ROW_2@ + text::dec(i) + PWM_ROW_3@ + text::dec(i) + PWM_ROW_4@ + text::dec(i)
            + PWM_ROW_5@ + text::dec(i) + PWM_ROW_6@ + text::dec(duty as nat) + PWM_ROW_7@,
{
    reveal_with_fuel(filled_to, 8);
}

/// The page of the outputs shows six digital outputs in order, then the DC output, then both PWM
/// outputs, each with its own state.
pub proof fn law_outputs_page(g: Seq<bool>, p: Seq<u8>)
    requires
        g.len() == 7,
        p.len() == 2,
    ensures
        gpio_page(g, p) == GPIO_PAGE_0@ + (gpio_row(0, g[0]) + gpio_row(1, g[1]) + gpio_row(2, g[2])
            + gpio_row(3, g[3]) + gpio_row(4, g[4]) + gpio_row(5, g[5])) + GPIO_PAGE_1@ + dc_row(
            g[6],
        ) + GPIO_PAGE_2@ + (pwm_row(0, p[0]) + pwm_row(1, p[1])) + GPIO_PAGE_3@,
{
    reveal_with_fuel(filled_to, 4);
    reveal_with_fuel(gpio_rows, 7);
    let rows = gpio_row(0, g[0]) + gpio_row(1, g[1]) + gpio_row(2, g[2]) + gpio_row(3, g[3])
        + gpio_row(4, g[4]) + gpio_row(5, g[5]);
    assert(gpio_rows(g, 6) =~= rows);
}

} // verus!
