//! Replies of the embedded web server and the MQTT client settings derived
//! from the configuration.

use vstd::prelude::*;

use crate::sensors::{level_color, level_color_spec, pm_level, pm_level_spec};
use crate::text::{dec, dec_signed, push_char, push_dec, push_dec_signed, parse_u64, int_text_value};
use crate::schedule::trunc_div;

verus! {

/// The MQTT state shown by `/status`: OK or FAIL when enabled, OFF otherwise.
pub open spec fn mqtt_state_spec(enabled: bool, connected: bool) -> Seq<char> {
    if enabled {
        if connected { "OK"@ } else { "FAIL"@ }
    } else {
        "OFF"@
    }
}

/// The MQTT state shown by `/status` (see `mqtt_state_spec`).
pub fn mqtt_state(enabled: bool, connected: bool) -> (s: &'static str)
    ensures
        s@ == mqtt_state_spec(enabled, connected),
{
    if enabled {
        if connected { "OK" } else { "FAIL" }
    } else {
        "OFF"
    }
}

/// `true` or `false`.
pub open spec fn bool_text(b: bool) -> Seq<char> {
    if b { "true"@ } else { "false"@ }
}

/// What `/status` reports. The readings that are floating-point numbers come
/// already formatted (`temp_text` and `hum_text` are `null` while unread).
pub struct StatusReport {
    pub co2_text: String,
    pub co2_level: String,
    pub pm1: u16,
    pub pm25: u16,
    pub pm10: u16,
    pub temp_text: String,
    pub hum_text: String,
    pub mqtt_enabled: bool,
    pub mqtt_connected: bool,
    pub gmt_off: i32,
    pub dst_off: i32,
    pub ssid: String,
    pub ip: String,
    pub rotated: bool,
    pub night_on: bool,
    pub night_sh: i32,
    pub night_eh: i32,
    pub night_lev: u32,
    pub interval_sec: i32,
}

/// The `/status` fields of one particulate reading.
pub open spec fn pm_fields(name: Seq<char>, v: u16) -> Seq<char> {
    "\""@ + name + "\":"@ + dec(v as nat) + ",\""@ + name + "lvl\":\""@ + pm_level_spec(v as int) + "\",\""@ + name
        + "clr\":\""@ + level_color_spec(pm_level_spec(v as int)) + "\","@
}

/// The JSON object `/status` replies with: readings with their level names
/// and colours, MQTT state, time offsets (the zone in whole hours), the saved
/// SSID and the current address, display and night settings, the firmware
/// version and the MQTT interval. Passwords are never included.
pub open spec fn status_json_spec(r: StatusReport) -> Seq<char> {
    "{\"co2\":"@ + r.co2_text@ + ",\"co2lvl\":\""@ + r.co2_level@ + "\",\"co2clr\":\""@ + level_color_spec(r.co2_level@)
        + "\","@ + pm_fields("pm1"@, r.pm1) + pm_fields("pm25"@, r.pm25) + pm_fields("pm10"@, r.pm10) + "\"temp\":"@
        + r.temp_text@ + ",\"hum\":"@ + r.hum_text@ + ",\"mq\":\""@ + mqtt_state_spec(r.mqtt_enabled, r.mqtt_connected)
        + "\",\"m_en\":"@ + bool_text(r.mqtt_enabled) + ",\"gmt_h\":"@ + dec_signed(trunc_div(r.gmt_off as int, 3600))
        + ",\"dst_s\":"@ + dec_signed(r.dst_off as int) + ",\"ssid\":\""@ + r.ssid@ + "\",\"ip\":\""@ + r.ip@
        + "\",\"rot\":"@ + (if r.rotated { "1"@ } else { "0"@ }) + ",\"n_on\":"@ + (if r.night_on { "1"@ } else { "0"@ })
        + ",\"n_sh\":"@ + dec_signed(r.night_sh as int) + ",\"n_eh\":"@ + dec_signed(r.night_eh as int) + ",\"n_lev\":"@
        + dec(r.night_lev as nat) + ",\"ver\":\""@ + crate::config::VERSION@ + "\",\"m_int\":"@ + dec_signed(
        r.interval_sec as int,
    ) + "}"@
}

/// The digit a flag is reported as.
pub open spec fn flag_digit(b: bool) -> Seq<char> {
    if b {
        "1"@
    } else {
        "0"@
    }
}

spec fn status_head(r: StatusReport) -> Seq<char> {
    "{\"co2\":"@ + r.co2_text@ + ",\"co2lvl\":\""@ + r.co2_level@ + "\",\"co2clr\":\""@ + level_color_spec(r.co2_level@)
        + "\","@ + pm_fields("pm1"@, r.pm1) + pm_fields("pm25"@, r.pm25) + pm_fields("pm10"@, r.pm10) + "\"temp\":"@
        + r.temp_text@ + ",\"hum\":"@ + r.hum_text@ + ",\"mq\":\""@ + mqtt_state_spec(r.mqtt_enabled, r.mqtt_connected)
        + "\",\"m_en\":"@ + bool_text(r.mqtt_enabled) + ",\"gmt_h\":"@ + dec_signed(trunc_div(r.gmt_off as int, 3600))
        + ",\"dst_s\":"@ + dec_signed(r.dst_off as int) + ",\"ssid\":\""@ + r.ssid@ + "\",\"ip\":\""@ + r.ip@
}

spec fn status_tail(r: StatusReport) -> Seq<char> {
    ",\"n_sh\":"@ + dec_signed(r.night_sh as int) + ",\"n_eh\":"@ + dec_signed(r.night_eh as int) + ",\"n_lev\":"@
        + dec(r.night_lev as nat) + ",\"ver\":\""@ + crate::config::VERSION@ + "\",\"m_int\":"@ + dec_signed(
        r.interval_sec as int,
    ) + "}"@
}

proof fn lemma_status_parts(r: StatusReport)
    ensures
        status_json_spec(r) == status_head(r) + "\",\"rot\":"@ + flag_digit(r.rotated) + ",\"n_on\":"@ + flag_digit(
            r.night_on,
        ) + status_tail(r),
{
    assert(status_json_spec(r) =~= status_head(r) + "\",\"rot\":"@ + flag_digit(r.rotated) + ",\"n_on\":"@
        + flag_digit(r.night_on) + status_tail(r));
}

proof fn lemma_digits_differ(pre: Seq<char>, l1: Seq<char>, l2: Seq<char>, post: Seq<char>, a: bool, b: bool, c: bool, d: bool)
    requires
        a != c || b != d,
    ensures
        pre + l1 + flag_digit(a) + l2 + flag_digit(b) + post != pre + l1 + flag_digit(c) + l2 + flag_digit(d) + post,
{
    reveal_strlit("1");
    reveal_strlit("0");
    let x = pre + l1 + flag_digit(a) + l2 + flag_digit(b) + post;
    let y = pre + l1 + flag_digit(c) + l2 + flag_digit(d) + post;
    let k: int = pre.len() + l1.len() as int;
    if a != c {
        assert(x[k] == flag_digit(a)[0]);
        assert(y[k] == flag_digit(c)[0]);
    } else {
        let k2: int = k + 1 + l2.len() as int;
        assert(x[k2] == flag_digit(b)[0]);
        assert(y[k2] == flag_digit(d)[0]);
    }
}

/// The `rot` and `n_on` fields of `/status` read back as the rotation and
/// night-mode flags: 1 exactly when the flag is set, 0 otherwise. Two reports
/// that differ only in these flags give replies that differ only in these
/// two digits, and replies for different flags differ.
pub proof fn lemma_status_flags(r: StatusReport, rot: bool, night: bool)
    ensures
        ({
            let r2 = StatusReport { rotated: rot, night_on: night, ..r };
            exists|pre: Seq<char>, post: Seq<char>|
                {
                    &&& status_json_spec(r) == pre + "\",\"rot\":"@ + flag_digit(r.rotated) + ",\"n_on\":"@
                        + flag_digit(r.night_on) + post
                    &&& status_json_spec(r2) == pre + "\",\"rot\":"@ + flag_digit(rot) + ",\"n_on\":"@
                        + flag_digit(night) + post
                }
        }),
        (rot != r.rotated || night != r.night_on) ==> status_json_spec(r) != status_json_spec(
            StatusReport { rotated: rot, night_on: night, ..r },
        ),
{
    let r2 = StatusReport { rotated: rot, night_on: night, ..r };
    lemma_status_parts(r);
    lemma_status_parts(r2);
    assert(status_head(r2) == status_head(r));
    assert(status_tail(r2) == status_tail(r));
    let pre = status_head(r);
    let post = status_tail(r);
    assert(status_json_spec(r) == pre + "\",\"rot\":"@ + flag_digit(r.rotated) + ",\"n_on\":"@ + flag_digit(r.night_on)
        + post);
    if rot != r.rotated || night != r.night_on {
        lemma_digits_differ(pre, "\",\"rot\":"@, ",\"n_on\":"@, post, r.rotated, r.night_on, rot, night);
    }
}

fn push_pm_fields(out: &mut String, name: &str, v: u16)
    ensures
        final(out)@ == old(out)@ + pm_fields(name@, v),
{
    let lvl = pm_level(v);
    out.append("\"");
    out.append(name);
    out.append("\":");
    push_dec(out, v as u64);
    out.append(",\"");
    out.append(name);
    out.append("lvl\":\"");
    out.append(lvl);
    out.append("\",\"");
    out.append(name);
    out.append("clr\":\"");
    out.append(level_color(lvl));
    out.append("\",");
    assert(out@ =~= old(out)@ + pm_fields(name@, v));
}

/// The `/status` reply (see `status_json_spec`).
pub fn status_json(r: &StatusReport) -> (json: String)
    ensures
        json@ == status_json_spec(*r),
{
    let mut out = String::from_str("{\"co2\":");
    out.append(r.co2_text.as_str());
    out.append(",\"co2lvl\":\"");
    out.append(r.co2_level.as_str());
    out.append("\",\"co2clr\":\"");
    out.append(level_color(r.co2_level.as_str()));
    out.append("\",");
    push_pm_fields(&mut out, "pm1", r.pm1);
    push_pm_fields(&mut out, "pm25", r.pm25);
    push_pm_fields(&mut out, "pm10", r.pm10);
    out.append("\"temp\":");
    out.append(r.temp_text.as_str());
    out.append(",\"hum\":");
    out.append(r.hum_text.as_str());
    out.append(",\"mq\":\"");
    out.append(mqtt_state(r.mqtt_enabled, r.mqtt_connected));
    out.append("\",\"m_en\":");
    out.append(if r.mqtt_enabled { "true" } else { "false" });
    out.append(",\"gmt_h\":");
    push_dec_signed(&mut out, (r.gmt_off / 3600) as i64);
    out.append(",\"dst_s\":");
    push_dec_signed(&mut out, r.dst_off as i64);
    out.append(",\"ssid\":\"");
    out.append(r.ssid.as_str());
    out.append("\",\"ip\":\"");
    out.append(r.ip.as_str());
    out.append("\",\"rot\":");
    out.append(if r.rotated { "1" } else { "0" });
    out.append(",\"n_on\":");
    out.append(if r.night_on { "1" } else { "0" });
    out.append(",\"n_sh\":");
    push_dec_signed(&mut out, r.night_sh as i64);
    out.append(",\"n_eh\":");
    push_dec_signed(&mut out, r.night_eh as i64);
    out.append(",\"n_lev\":");
    push_dec(&mut out, r.night_lev as u64);
    out.append(",\"ver\":\"");
    out.append(crate::config::VERSION);
    out.append("\",\"m_int\":");
    push_dec_signed(&mut out, r.interval_sec as i64);
    out.append("}");
    assert(out@ =~= status_json_spec(*r));
    out
}

/// One network found by a scan.
pub struct ScannedNetwork {
    pub ssid: String,
    pub rssi: i8,
}

/// The `/scan` entries after the first `n` networks.
pub open spec fn scan_items(nets: Seq<ScannedNetwork>, n: int) -> Seq<char>
    decreases n,
{
    if n <= 0 {
        Seq::empty()
    } else {
        scan_items(nets, n - 1) + (if n > 1 { ","@ } else { Seq::empty() }) + "{\"ssid\":\""@ + nets[n - 1].ssid@
            + "\",\"rssi\":"@ + dec_signed(nets[n - 1].rssi as int) + "}"@
    }
}

/// The `/scan` reply: a JSON array of `{"ssid": ..., "rssi": ...}` objects in
/// scan order (the SSID is written as found).
pub fn scan_json(nets: &Vec<ScannedNetwork>) -> (json: String)
    ensures
        json@ == "["@ + scan_items(nets@, nets@.len() as int) + "]"@,
{
    let mut out = String::from_str("[");
    let mut i: usize = 0;
    while i < nets.len()
        invariant
            i <= nets@.len(),
            out@ == "["@ + scan_items(nets@, i as int),
        decreases nets@.len() - i,
    {
        let ghost before = out@;
        if i > 0 {
            out.append(",");
        }
        out.append("{\"ssid\":\"");
        out.append(nets[i].ssid.as_str());
        out.append("\",\"rssi\":");
        push_dec_signed(&mut out, nets[i].rssi as i64);
        out.append("}");
        assert(out@ =~= "["@ + scan_items(nets@, i + 1));
        i = i + 1;
    }
    out.append("]");
    out
}

/// The reply to `/rotate`, naming the new orientation.
pub fn rotate_message(rotated: bool) -> (msg: String)
    ensures
        msg@ == "Display: "@ + (if rotated { "flipped 180"@ } else { "normal"@ }) + ". Restarting..."@,
{
    let mut m = String::from_str("Display: ");
    m.append(if rotated { "flipped 180" } else { "normal" });
    m.append(". Restarting...");
    m
}

/// The broker URL of MQTT settings: `mqtt://<server>:<port>`.
pub fn mqtt_url(server: &str, port: i32) -> (url: String)
    ensures
        url@ == "mqtt://"@ + server@ + ":"@ + dec_signed(port as int),
{
    let mut u = String::from_str("mqtt://");
    u.append(server);
    u.append(":");
    push_dec_signed(&mut u, port as i64);
    u
}

/// Eight lower-case hexadecimal digits of `v`.
pub open spec fn hex8(v: u32) -> Seq<char> {
    Seq::new(8, |i: int| crate::logbuf::hex_digit(((v as int) / pow16(7 - i)) % 16))
}

/// 16 to the power `k`.
pub open spec fn pow16(k: int) -> int
    decreases k,
{
    if k <= 0 {
        1
    } else {
        16 * pow16(k - 1)
    }
}

/// The MQTT client id of a device: `AirScan-` and eight hex digits of a
/// random number.
pub fn client_id(random: u32) -> (id: String)
    ensures
        id@ == "AirScan-"@ + hex8(random),
{
    let mut s = String::from_str("AirScan-");
    let ghost start = s@;
    let mut div: u32 = 0x1000_0000;
    let mut i: usize = 0;
    assert(pow16(7) == 0x1000_0000) by {
        reveal_with_fuel(pow16, 8);
    }
    while i < 8
        invariant
            i <= 8,
            div > 0,
            i < 8 ==> div as int == pow16(7 - i),
            s@ == start + hex8(random).take(i as int),
        decreases 8 - i,
    {
        let d = (random / div) % 16;
        push_char(&mut s, hex_char_lower(d));
        assert(s@ =~= start + hex8(random).take(i + 1));
        if i < 7 {
            assert(pow16(7 - i) == 16 * pow16(7 - i - 1));
            assert(pow16(7 - i - 1) >= 1) by {
                lemma_pow16_pos(7 - i - 1);
            }
            div = div / 16;
        }
        i = i + 1;
    }
    assert(hex8(random).take(8) =~= hex8(random));
    s
}

proof fn lemma_pow16_pos(k: int)
    ensures
        pow16(k) >= 1,
    decreases k,
{
    if k > 0 {
        lemma_pow16_pos(k - 1);
    }
}

fn hex_char_lower(v: u32) -> (c: char)
    requires
        v < 16,
    ensures
        c == crate::logbuf::hex_digit(v as int),
{
    if v < 10 {
        ((v + 48) as u8) as char
    } else {
        ((v + 87) as u8) as char
    }
}

/// The `after` value of a `/logs/tail` request: the query is what follows the
/// first `?`; among its `&`-separated parts, the last that starts with
/// `after=` gives the number (0 when it is not one); 0 when there is none.
pub open spec fn tail_after_spec(uri: Seq<char>) -> u64 {
    let q = crate::form::first_index(uri, '?');
    if q >= uri.len() {
        0
    } else {
        let query = uri.skip(q + 1);
        let parts = crate::form::split_on(query.take(crate::form::first_index(query, '?')), '&');
        after_from_parts(parts, parts.len() as int)
    }
}

/// The value the first `n` query parts leave for `after`.
pub open spec fn after_from_parts(parts: Seq<Seq<char>>, n: int) -> u64
    decreases n,
{
    if n <= 0 {
        0
    } else {
        let p = parts[n - 1];
        if p.len() >= 6 && p.take(6) == "after="@ {
            match int_text_value(p.skip(6), false) {
                Some(v) => if 0 <= v <= u64::MAX { v as u64 } else { 0 },
                None => 0,
            }
        } else {
            after_from_parts(parts, n - 1)
        }
    }
}

fn after_value(part: &str) -> (r: Option<u64>)
    ensures
        r is Some <==> (part@.len() >= 6 && part@.take(6) == "after="@),
        r matches Some(v) ==> v == match int_text_value(part@.skip(6), false) {
            Some(x) => if 0 <= x <= u64::MAX { x as u64 } else { 0 },
            None => 0,
        },
{
    let n = part.unicode_len();
    proof {
        reveal_strlit("after=");
    }
    if n >= 6 && crate::text::str_eq(part.substring_char(0, 6), "after=") {
        assert(part@.subrange(0, 6) =~= part@.take(6));
        assert(part@.subrange(6, n as int) =~= part@.skip(6));
        match parse_u64(part.substring_char(6, n)) {
            Some(v) => Some(v),
            None => Some(0),
        }
    } else {
        proof {
            if n >= 6 {
                assert(part@.subrange(0, 6) =~= part@.take(6));
            }
        }
        None
    }
}

/// The `after` value of a `/logs/tail` request URI (see `tail_after_spec`).
pub fn tail_after(uri: &str) -> (after: u64)
    ensures
        after == tail_after_spec(uri@),
{
    let n = uri.unicode_len();
    let q = crate::form::find_char(uri, '?');
    if q >= n {
        return 0;
    }
    let rest = uri.substring_char(q + 1, n);
    assert(rest@ =~= uri@.skip(q + 1));
    let end = crate::form::find_char(rest, '?');
    let query = rest.substring_char(0, end);
    assert(query@ =~= rest@.take(end as int));
    let m = query.unicode_len();
    let mut after: u64 = 0;
    let mut start: usize = 0;
    let mut i: usize = 0;
    proof {
        assert(query@.take(0) =~= Seq::<char>::empty());
    }
    while i < m
        invariant
            m == query@.len(),
            start <= i <= m,
            ({
                let p = crate::form::split_on(query@.take(i as int), '&');
                &&& p.len() >= 1
                &&& p.last() == query@.subrange(start as int, i as int)
                &&& after == after_from_parts(p, p.len() - 1)
            }),
        decreases m - i,
    {
        let ghost p = crate::form::split_on(query@.take(i as int), '&');
        proof {
            crate::form::lemma_split_step(query@, '&', i as int);
        }
        if query.get_char(i) == '&' {
            let part = query.substring_char(start, i);
            match after_value(part) {
                Some(v) => {
                    after = v;
                },
                None => {},
            }
            proof {
                let p2 = crate::form::split_on(query@.take(i + 1), '&');
                assert(p2.drop_last() =~= p);
                assert(p2[p2.len() - 2] == p.last());
                lemma_after_prefix(p, p2, p.len() - 1);
                assert(Seq::<char>::empty() =~= query@.subrange(i + 1, i + 1));
            }
            start = i + 1;
        } else {
            proof {
                let q2 = crate::form::split_on(query@.take(i + 1), '&');
                assert(q2.last() =~= query@.subrange(start as int, i + 1));
                assert forall|k: int| 0 <= k < q2.len() - 1 implies q2[k] == p[k] by {}
                lemma_after_prefix(p, q2, p.len() - 1);
            }
        }
        i = i + 1;
    }
    let part = query.substring_char(start, m);
    match after_value(part) {
        Some(v) => {
            after = v;
        },
        None => {},
    }
    proof {
        assert(query@.take(m as int) =~= query@);
    }
    after
}

proof fn lemma_after_prefix(a: Seq<Seq<char>>, b: Seq<Seq<char>>, n: int)
    requires
        0 <= n <= a.len(),
        n <= b.len(),
        forall|k: int| 0 <= k < n ==> a[k] == b[k],
    ensures
        after_from_parts(a, n) == after_from_parts(b, n),
    decreases n,
{
    if n > 0 {
        lemma_after_prefix(a, b, n - 1);
    }
}

/// How the MQTT task starts from the stored settings.
pub enum MqttStart {
    /// MQTT is disabled in the settings.
    Disabled,
    /// MQTT is enabled but no broker host is set.
    NoServer,
    /// Connect to this broker URL.
    Connect(String),
}

/// How the MQTT task starts: not at all when disabled or without a broker
/// host, otherwise by connecting to `mqtt://<server>:<port>`.
pub fn mqtt_start(enabled: bool, server: &str, port: i32) -> (r: MqttStart)
    ensures
        !enabled ==> r is Disabled,
        enabled && server@.len() == 0 ==> r is NoServer,
        enabled && server@.len() > 0 ==> (r matches MqttStart::Connect(u) && u@ == "mqtt://"@ + server@ + ":"@
            + dec_signed(port as int)),
{
    if !enabled {
        MqttStart::Disabled
    } else if server.unicode_len() == 0 {
        MqttStart::NoServer
    } else {
        MqttStart::Connect(mqtt_url(server, port))
    }
}

/// When readings are published: only while connected, and once the interval
/// has passed since the last publication (the first one right away).
pub struct PublishSchedule {
    /// Time of the last publication, in milliseconds since the task started.
    pub last_pub_ms: Option<u64>,
}

impl PublishSchedule {
    /// Nothing published yet.
    pub fn new() -> (s: PublishSchedule)
        ensures
            s.last_pub_ms is None,
    {
        PublishSchedule { last_pub_ms: None }
    }

    /// Whether to publish at `now_ms`; a publication is recorded when due.
    pub fn due(&mut self, now_ms: u64, connected: bool, interval_sec: i32) -> (publish: bool)
        ensures
            publish == (connected && match old(self).last_pub_ms {
                Some(t) => now_ms.saturating_sub(t) as int >= (interval_sec as u64) as int * 1000,
                None => true,
            }),
            final(self).last_pub_ms == if publish { Some(now_ms) } else { old(self).last_pub_ms },
    {
        if !connected {
            return false;
        }
        let interval_ms: u128 = (interval_sec as u64) as u128 * 1000;
        let publish = match self.last_pub_ms {
            Some(t) => (now_ms.saturating_sub(t) as u128) >= interval_ms,
            None => true,
        };
        if publish {
            self.last_pub_ms = Some(now_ms);
        }
        publish
    }
}

} // verus!
