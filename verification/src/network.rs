//! Persisted settings: the list of remembered Wi-Fi networks, the MQTT broker
//! configuration, display rotation and night mode, and how the settings form
//! changes them.

use vstd::prelude::*;

use crate::config::{MAX_WIFI_NETWORKS, NIGHT_DIM_LEVEL, NIGHT_END_H_DEF, NIGHT_ON_DEF, NIGHT_START_H_DEF};
use crate::form::FormParams;
use crate::text::{int_text_value, parse_i32, parse_u32};

verus! {

/// MQTT broker settings, with the local time offsets that share their store.
#[derive(Clone)]
pub struct MqttCfg {
    pub enabled: bool,
    pub server: String,
    pub port: i32,
    pub user: String,
    pub pass: String,
    pub gmt_off: i32,
    pub dst_off: i32,
    pub interval_sec: i32,
}

/// The MQTT settings as read from the store: `None` for a key that is absent
/// or could not be read.
pub struct StoredMqtt {
    pub m_en: Option<u8>,
    pub m_srv: Option<String>,
    pub m_port: Option<i32>,
    pub m_user: Option<String>,
    pub m_pass: Option<String>,
    pub gmt_off: Option<i32>,
    pub dst_off: Option<i32>,
    pub m_int: Option<i32>,
}

/// `v.max(lo)`.
pub open spec fn at_least(v: int, lo: int) -> int {
    if v < lo { lo } else { v }
}

/// `v.clamp(lo, hi)` for `lo <= hi`.
pub open spec fn clamp(v: int, lo: int, hi: int) -> int {
    if v < lo {
        lo
    } else if v > hi {
        hi
    } else {
        v
    }
}

fn clamp_i32(v: i32, lo: i32, hi: i32) -> (r: i32)
    requires
        lo <= hi,
    ensures
        r == clamp(v as int, lo as int, hi as int),
{
    if v < lo {
        lo
    } else if v > hi {
        hi
    } else {
        v
    }
}

fn clamp_u32(v: u32, lo: u32, hi: u32) -> (r: u32)
    requires
        lo <= hi,
    ensures
        r == clamp(v as int, lo as int, hi as int),
{
    if v < lo {
        lo
    } else if v > hi {
        hi
    } else {
        v
    }
}

fn string_or_empty(s: &Option<String>) -> (r: String)
    ensures
        r@ == match s {
            Some(v) => v@,
            None => Seq::<char>::empty(),
        },
{
    match s {
        Some(v) => v.clone(),
        None => String::new(),
    }
}

/// The MQTT settings as values.
pub struct MqttView {
    pub enabled: bool,
    pub server: Seq<char>,
    pub port: i32,
    pub user: Seq<char>,
    pub pass: Seq<char>,
    pub gmt_off: i32,
    pub dst_off: i32,
    pub interval_sec: i32,
}

impl View for MqttCfg {
    type V = MqttView;

    open spec fn view(&self) -> MqttView {
        MqttView {
            enabled: self.enabled,
            server: self.server@,
            port: self.port,
            user: self.user@,
            pass: self.pass@,
            gmt_off: self.gmt_off,
            dst_off: self.dst_off,
            interval_sec: self.interval_sec,
        }
    }
}

/// The stored MQTT keys as values.
pub struct StoredMqttView {
    pub m_en: Option<u8>,
    pub m_srv: Option<Seq<char>>,
    pub m_port: Option<i32>,
    pub m_user: Option<Seq<char>>,
    pub m_pass: Option<Seq<char>>,
    pub gmt_off: Option<i32>,
    pub dst_off: Option<i32>,
    pub m_int: Option<i32>,
}

/// The view of an optional string.
pub open spec fn opt_view(s: Option<String>) -> Option<Seq<char>> {
    match s {
        Some(v) => Some(v@),
        None => None,
    }
}

impl View for StoredMqtt {
    type V = StoredMqttView;

    open spec fn view(&self) -> StoredMqttView {
        StoredMqttView {
            m_en: self.m_en,
            m_srv: opt_view(self.m_srv),
            m_port: self.m_port,
            m_user: opt_view(self.m_user),
            m_pass: opt_view(self.m_pass),
            gmt_off: self.gmt_off,
            dst_off: self.dst_off,
            m_int: self.m_int,
        }
    }
}

/// `o`, or `d` when it is `None`.
pub open spec fn or_default<T>(o: Option<T>, d: T) -> T {
    match o {
        Some(v) => v,
        None => d,
    }
}

/// The MQTT settings that a store holding `st` yields: absent keys take their
/// defaults (disabled, empty server, port 1883, empty user and password, zero
/// offsets, a 10 s interval), `m_en` counts as enabled only when it is 1, and
/// the interval is at least one second.
pub open spec fn load_mqtt_spec(st: StoredMqttView) -> MqttView {
    MqttView {
        enabled: st.m_en == Some(1u8),
        server: or_default(st.m_srv, Seq::empty()),
        port: or_default(st.m_port, 1883i32),
        user: or_default(st.m_user, Seq::empty()),
        pass: or_default(st.m_pass, Seq::empty()),
        gmt_off: or_default(st.gmt_off, 0i32),
        dst_off: or_default(st.dst_off, 0i32),
        interval_sec: at_least(or_default(st.m_int, 10i32) as int, 1) as i32,
    }
}

/// What storing `cfg` writes: every key, `m_en` as 1 or 0 and the interval
/// raised to at least one second.
pub open spec fn save_mqtt_spec(cfg: MqttView) -> StoredMqttView {
    StoredMqttView {
        m_en: Some(if cfg.enabled { 1u8 } else { 0u8 }),
        m_srv: Some(cfg.server),
        m_port: Some(cfg.port),
        m_user: Some(cfg.user),
        m_pass: Some(cfg.pass),
        gmt_off: Some(cfg.gmt_off),
        dst_off: Some(cfg.dst_off),
        m_int: Some(at_least(cfg.interval_sec as int, 1) as i32),
    }
}

/// The MQTT settings held by a store with the keys `st` (see `load_mqtt_spec`).
pub fn load_mqtt(st: &StoredMqtt) -> (cfg: MqttCfg)
    ensures
        cfg@ == load_mqtt_spec(st@),
{
    let enabled = match st.m_en {
        Some(v) => v == 1,
        None => false,
    };
    let port = match st.m_port {
        Some(p) => p,
        None => 1883,
    };
    let gmt_off = match st.gmt_off {
        Some(g) => g,
        None => 0,
    };
    let dst_off = match st.dst_off {
        Some(d) => d,
        None => 0,
    };
    let interval = match st.m_int {
        Some(i) => i,
        None => 10,
    };
    let cfg = MqttCfg {
        enabled,
        server: string_or_empty(&st.m_srv),
        port,
        user: string_or_empty(&st.m_user),
        pass: string_or_empty(&st.m_pass),
        gmt_off,
        dst_off,
        interval_sec: if interval < 1 { 1 } else { interval },
    };
    assert(cfg@.server =~= load_mqtt_spec(st@).server);
    assert(cfg@.user =~= load_mqtt_spec(st@).user);
    assert(cfg@.pass =~= load_mqtt_spec(st@).pass);
    cfg
}

/// The keys that storing `cfg` writes (see `save_mqtt_spec`).
pub fn save_mqtt(cfg: &MqttCfg) -> (st: StoredMqtt)
    ensures
        st@ == save_mqtt_spec(cfg@),
{
    StoredMqtt {
        m_en: Some(if cfg.enabled { 1 } else { 0 }),
        m_srv: Some(cfg.server.clone()),
        m_port: Some(cfg.port),
        m_user: Some(cfg.user.clone()),
        m_pass: Some(cfg.pass.clone()),
        gmt_off: Some(cfg.gmt_off),
        dst_off: Some(cfg.dst_off),
        m_int: Some(if cfg.interval_sec < 1 { 1 } else { cfg.interval_sec }),
    }
}

/// Reading back what was stored gives the same MQTT settings, with the
/// interval raised to at least one second.
pub proof fn lemma_mqtt_roundtrip(cfg: MqttView)
    ensures
        load_mqtt_spec(save_mqtt_spec(cfg)) == (MqttView {
            interval_sec: at_least(cfg.interval_sec as int, 1) as i32,
            ..cfg
        }),
{
}

/// One remembered network as read from the store: `None` for a key that is
/// absent or could not be read.
pub struct WifiSlot {
    pub ssid: Option<String>,
    pub pass: Option<String>,
}

/// A remembered network as values.
pub struct WifiSlotView {
    pub ssid: Option<Seq<char>>,
    pub pass: Option<Seq<char>>,
}

impl View for WifiSlot {
    type V = WifiSlotView;

    open spec fn view(&self) -> WifiSlotView {
        WifiSlotView { ssid: opt_view(self.ssid), pass: opt_view(self.pass) }
    }
}

/// The views of a list of slots.
pub open spec fn slots_view(slots: Seq<WifiSlot>) -> Seq<WifiSlotView> {
    slots.map_values(|s: WifiSlot| s@)
}

/// The networks that the first `n` slots list: each slot with a non-empty
/// SSID, with its password or the empty string, in slot order.
pub open spec fn known_networks_upto(slots: Seq<WifiSlotView>, n: int) -> Seq<(Seq<char>, Seq<char>)>
    decreases n,
{
    if n <= 0 {
        Seq::empty()
    } else {
        let rest = known_networks_upto(slots, n - 1);
        let s = slots[n - 1];
        match s.ssid {
            Some(id) => if id.len() > 0 {
                rest.push((id, or_default(s.pass, Seq::empty())))
            } else {
                rest
            },
            None => rest,
        }
    }
}

/// The networks that the slots list, most recently saved first.
pub open spec fn known_networks_spec(slots: Seq<WifiSlotView>) -> Seq<(Seq<char>, Seq<char>)> {
    known_networks_upto(slots, slots.len() as int)
}

/// The slots after saving (`ssid`, `pass`): nothing changes for an empty SSID;
/// when the SSID is the first slot's, only its password is replaced; otherwise
/// every slot whose SSID and password are both present moves down one place
/// (the last one is dropped, a slot below a gap stays), and the new network
/// takes the first slot.
pub open spec fn remember_spec(slots: Seq<WifiSlotView>, ssid: Seq<char>, pass: Seq<char>) -> Seq<
    WifiSlotView,
> {
    if ssid.len() == 0 {
        slots
    } else if slots[0].ssid == Some(ssid) {
        slots.update(0, WifiSlotView { ssid: slots[0].ssid, pass: Some(pass) })
    } else {
        Seq::new(
            slots.len(),
            |i: int|
                if i == 0 {
                    WifiSlotView { ssid: Some(ssid), pass: Some(pass) }
                } else if slots[i - 1].ssid is Some && slots[i - 1].pass is Some {
                    slots[i - 1]
                } else {
                    slots[i]
                },
        )
    }
}

fn clone_slot(s: &WifiSlot) -> (r: WifiSlot)
    ensures
        r@ == s@,
{
    let ssid = match &s.ssid {
        Some(v) => Some(v.clone()),
        None => None,
    };
    let pass = match &s.pass {
        Some(v) => Some(v.clone()),
        None => None,
    };
    WifiSlot { ssid, pass }
}

/// The networks the slots list (see `known_networks_spec`).
pub fn known_networks(slots: &Vec<WifiSlot>) -> (nets: Vec<(String, String)>)
    ensures
        nets@.map_values(|p: (String, String)| (p.0@, p.1@)) == known_networks_spec(slots_view(slots@)),
        nets@.len() <= slots@.len(),
        forall|i: int| 0 <= i < nets@.len() ==> #[trigger] nets@[i].0@.len() > 0,
{
    let mut nets: Vec<(String, String)> = Vec::new();
    let ghost sv = slots_view(slots@);
    let mut i: usize = 0;
    while i < slots.len()
        invariant
            i <= slots@.len(),
            sv == slots_view(slots@),
            nets@.map_values(|p: (String, String)| (p.0@, p.1@)) == known_networks_upto(sv, i as int),
            nets@.len() <= i,
            forall|k: int| 0 <= k < nets@.len() ==> #[trigger] nets@[k].0@.len() > 0,
        decreases slots@.len() - i,
    {
        let ghost before = nets@;
        assert(sv[i as int] == slots@[i as int]@);
        match &slots[i].ssid {
            Some(id) => {
                if id.unicode_len() > 0 {
                    let p = string_or_empty(&slots[i].pass);
                    nets.push((id.clone(), p));
                    assert(nets@.map_values(|p: (String, String)| (p.0@, p.1@)) =~= before.map_values(
                        |p: (String, String)| (p.0@, p.1@),
                    ).push((id@, p@)));
                }
            },
            None => {},
        }
        i = i + 1;
    }
    nets
}

/// Saves (`ssid`, `pass`) as the most recent network (see `remember_spec`).
pub fn remember_network(slots: &mut Vec<WifiSlot>, ssid: &str, pass: &str)
    requires
        old(slots)@.len() == MAX_WIFI_NETWORKS,
    ensures
        final(slots)@.len() == MAX_WIFI_NETWORKS,
        slots_view(final(slots)@) == remember_spec(slots_view(old(slots)@), ssid@, pass@),
{
    let ghost sv = slots_view(slots@);
    if ssid.unicode_len() == 0 {
        return;
    }
    let first_matches = match &slots[0].ssid {
        Some(s0) => crate::text::str_eq(s0.as_str(), ssid),
        None => false,
    };
    if first_matches {
        let s0 = clone_slot(&slots[0]);
        slots.set(0, WifiSlot { ssid: s0.ssid, pass: Some(String::from_str(pass)) });
        assert(slots_view(slots@) =~= remember_spec(sv, ssid@, pass@));
        return;
    }
    let mut i: usize = MAX_WIFI_NETWORKS - 1;
    while i >= 1
        invariant
            0 <= i < MAX_WIFI_NETWORKS,
            slots@.len() == MAX_WIFI_NETWORKS,
            sv.len() == MAX_WIFI_NETWORKS,
            ssid@.len() > 0,
            sv[0].ssid != Some(ssid@),
            forall|j: int| 0 <= j <= i ==> slots@[j]@ == sv[j],
            forall|j: int| i < j < MAX_WIFI_NETWORKS ==> slots@[j]@ == remember_spec(sv, ssid@, pass@)[j],
        decreases i,
    {
        let prev_ok = slots[i - 1].ssid.is_some() && slots[i - 1].pass.is_some();
        if prev_ok {
            let moved = clone_slot(&slots[i - 1]);
            slots.set(i, moved);
        }
        i = i - 1;
    }
    slots.set(0, WifiSlot { ssid: Some(String::from_str(ssid)), pass: Some(String::from_str(pass)) });
    assert(slots_view(slots@) =~= remember_spec(sv, ssid@, pass@));
}

/// A saved network becomes the first one listed.
pub proof fn lemma_remembered_first(slots: Seq<WifiSlotView>, ssid: Seq<char>, pass: Seq<char>)
    requires
        slots.len() == MAX_WIFI_NETWORKS,
        ssid.len() > 0,
    ensures
        known_networks_spec(remember_spec(slots, ssid, pass)).len() >= 1,
        known_networks_spec(remember_spec(slots, ssid, pass))[0] == (ssid, pass),
{
    let r = remember_spec(slots, ssid, pass);
    assert(r[0].ssid == Some(ssid) && r[0].pass == Some(pass));
    lemma_known_networks_first(r, r.len() as int);
}

proof fn lemma_known_networks_first(slots: Seq<WifiSlotView>, n: int)
    requires
        1 <= n <= slots.len(),
        slots[0].ssid matches Some(id) && id.len() > 0,
    ensures
        known_networks_upto(slots, n).len() >= 1,
        known_networks_upto(slots, n)[0] == (slots[0].ssid->0, or_default(slots[0].pass, Seq::<char>::empty())),
    decreases n,
{
    if n > 1 {
        lemma_known_networks_first(slots, n - 1);
    } else {
        assert(known_networks_upto(slots, 0) =~= Seq::<(Seq<char>, Seq<char>)>::empty());
    }
}

/// Whether the panel is shown rotated by 180°, from the stored `rot` key:
/// rotated unless the key holds a value other than 1.
pub fn get_display_rot(stored: Option<u8>) -> (rot: bool)
    ensures
        rot == match stored {
            Some(v) => v == 1,
            None => true,
        },
{
    match stored {
        Some(v) => v == 1,
        None => true,
    }
}

/// The value stored for a rotation setting: 1 for rotated, 0 otherwise.
pub fn set_display_rot(rot: bool) -> (v: u8)
    ensures
        v == if rot { 1u8 } else { 0u8 },
{
    if rot { 1 } else { 0 }
}

/// Reading back a stored rotation gives the rotation that was stored.
pub proof fn lemma_rotation_roundtrip(rot: bool)
    ensures
        (if rot { 1u8 } else { 0u8 } == 1u8) == rot,
{
}

/// Night mode settings: enabled, window start and end hour, dimmed duty.
pub struct NightCfg {
    pub on: bool,
    pub start_h: i32,
    pub end_h: i32,
    pub level: u32,
}

/// The night settings that stored keys yield: absent keys take their defaults
/// (off, 23:00, 07:00, duty 40), `n_on` counts only when it is 1, and the duty
/// is clamped to 1..=1024. A store that cannot be opened gives all defaults.
pub open spec fn get_night_spec(on: Option<u8>, sh: Option<i32>, eh: Option<i32>, lev: Option<u32>) -> NightCfg {
    NightCfg {
        on: match on {
            Some(v) => v == 1,
            None => NIGHT_ON_DEF,
        },
        start_h: or_default(sh, NIGHT_START_H_DEF),
        end_h: or_default(eh, NIGHT_END_H_DEF),
        level: clamp(or_default(lev, NIGHT_DIM_LEVEL) as int, 1, 1024) as u32,
    }
}

/// The night settings held by a store with the given keys.
pub fn get_night(on: Option<u8>, sh: Option<i32>, eh: Option<i32>, lev: Option<u32>) -> (cfg: NightCfg)
    ensures
        cfg == get_night_spec(on, sh, eh, lev),
{
    NightCfg {
        on: match on {
            Some(v) => v == 1,
            None => NIGHT_ON_DEF,
        },
        start_h: match sh {
            Some(v) => v,
            None => NIGHT_START_H_DEF,
        },
        end_h: match eh {
            Some(v) => v,
            None => NIGHT_END_H_DEF,
        },
        level: clamp_u32(
            match lev {
                Some(v) => v,
                None => NIGHT_DIM_LEVEL,
            },
            1,
            1024,
        ),
    }
}

/// The values stored for night settings: `n_on` as 1 or 0, the hours as
/// given, the duty clamped to 1..=1024.
pub fn set_night(on: bool, sh: i32, eh: i32, lev: u32) -> (r: (u8, i32, i32, u32))
    ensures
        r == (if on { 1u8 } else { 0u8 }, sh, eh, clamp(lev as int, 1, 1024) as u32),
{
    (if on { 1 } else { 0 }, sh, eh, clamp_u32(lev, 1, 1024))
}

/// Reading back stored night settings gives them back, the duty clamped.
pub proof fn lemma_night_roundtrip(on: bool, sh: i32, eh: i32, lev: u32)
    ensures
        get_night_spec(
            Some(if on { 1u8 } else { 0u8 }),
            Some(sh),
            Some(eh),
            Some(clamp(lev as int, 1, 1024) as u32),
        ) == (NightCfg { on, start_h: sh, end_h: eh, level: clamp(lev as int, 1, 1024) as u32 }),
{
}

/// `s.parse::<i32>().ok()`.
pub open spec fn parse_i32_spec(t: Seq<char>) -> Option<i32> {
    match int_text_value(t, true) {
        Some(v) => if i32::MIN <= v <= i32::MAX { Some(v as i32) } else { None },
        None => None,
    }
}

/// `s.parse::<u32>().ok()`.
pub open spec fn parse_u32_spec(t: Seq<char>) -> Option<u32> {
    match int_text_value(t, false) {
        Some(v) => if 0 <= v <= u32::MAX { Some(v as u32) } else { None },
        None => None,
    }
}

/// The value of parameter `k`, if set.
pub open spec fn param(m: Map<Seq<char>, Seq<char>>, k: Seq<char>) -> Option<Seq<char>> {
    if m.contains_key(k) {
        Some(m[k])
    } else {
        None
    }
}

/// A parameter read as an `i32`, with a default when it is absent or not a
/// number.
pub open spec fn param_i32(m: Map<Seq<char>, Seq<char>>, k: Seq<char>, d: i32) -> i32 {
    match param(m, k) {
        Some(t) => or_default(parse_i32_spec(t), d),
        None => d,
    }
}

/// The password saved for `ssid`: that of the first remembered network with
/// this SSID, or the empty string.
pub open spec fn saved_pass(saved: Seq<(Seq<char>, Seq<char>)>, ssid: Seq<char>) -> Seq<char>
    decreases saved.len(),
{
    if saved.len() == 0 {
        Seq::empty()
    } else if saved[0].0 == ssid {
        saved[0].1
    } else {
        saved_pass(saved.drop_first(), ssid)
    }
}

/// What a submitted settings form asks to store.
pub struct ConnectPlan {
    /// A network to remember, when the form names one.
    pub wifi: Option<(String, String)>,
    /// The MQTT and time settings to store.
    pub mqtt: MqttCfg,
    /// The night mode settings to store.
    pub night: NightCfg,
}

/// The network a form asks to remember: its non-empty `ssid`, with the
/// submitted `pass`, or when that is blank the password already saved for it.
pub open spec fn plan_wifi_spec(m: Map<Seq<char>, Seq<char>>, saved: Seq<(Seq<char>, Seq<char>)>) -> Option<
    (Seq<char>, Seq<char>),
> {
    match param(m, "ssid"@) {
        Some(ssid) => if ssid.len() > 0 {
            let p = or_default(param(m, "pass"@), Seq::empty());
            Some((ssid, if p.len() == 0 { saved_pass(saved, ssid) } else { p }))
        } else {
            None
        },
        None => None,
    }
}

/// The MQTT settings a form asks to store: enabled when `m_en` is present;
/// blank server, user or password, and a port that is not a positive number,
/// keep the stored values; `gmt_h` hours become seconds (wrapping);
/// `dst_en` is the daylight-saving offset; the interval defaults to 10 s and is
/// at least one second.
pub open spec fn plan_mqtt_spec(m: Map<Seq<char>, Seq<char>>, prev: MqttView) -> MqttView {
    let server = or_default(param(m, "m_srv"@), Seq::empty());
    let port = param_i32(m, "m_port"@, 1883);
    let user = or_default(param(m, "m_user"@), Seq::empty());
    let pass = or_default(param(m, "m_pass"@), Seq::empty());
    MqttView {
        enabled: m.contains_key("m_en"@),
        server: if server.len() == 0 { prev.server } else { server },
        port: if port <= 0 { prev.port } else { port },
        user: if user.len() == 0 { prev.user } else { user },
        pass: if pass.len() == 0 { prev.pass } else { pass },
        gmt_off: vstd::wrapping::i32_specs::wrapping_mul(param_i32(m, "gmt_h"@, 0), 3600),
        dst_off: param_i32(m, "dst_en"@, 0),
        interval_sec: at_least(param_i32(m, "m_int"@, 10) as int, 1) as i32,
    }
}

/// The night settings a form asks to store: on when `n_on` is present, hours
/// clamped to 0..=23 (defaults 23 and 7), duty clamped to 1..=1024 (default 40).
pub open spec fn plan_night_spec(m: Map<Seq<char>, Seq<char>>) -> NightCfg {
    NightCfg {
        on: m.contains_key("n_on"@),
        start_h: clamp(param_i32(m, "n_sh"@, NIGHT_START_H_DEF) as int, 0, 23) as i32,
        end_h: clamp(param_i32(m, "n_eh"@, NIGHT_END_H_DEF) as int, 0, 23) as i32,
        level: clamp(
            match param(m, "n_lev"@) {
                Some(t) => or_default(parse_u32_spec(t), NIGHT_DIM_LEVEL),
                None => NIGHT_DIM_LEVEL,
            } as int,
            1,
            1024,
        ) as u32,
    }
}

fn get_i32(p: &FormParams, k: &str, d: i32) -> (v: i32)
    requires
        p.wf(),
    ensures
        v == param_i32(p.params(), k@, d),
{
    match p.get(k) {
        Some(t) => match parse_i32(t.as_str()) {
            Some(v) => v,
            None => d,
        },
        None => d,
    }
}

fn get_string(p: &FormParams, k: &str) -> (v: String)
    requires
        p.wf(),
    ensures
        v@ == or_default(param(p.params(), k@), Seq::empty()),
{
    match p.get(k) {
        Some(t) => t.clone(),
        None => String::new(),
    }
}

fn find_saved_pass(saved: &Vec<(String, String)>, ssid: &str) -> (pass: String)
    ensures
        pass@ == saved_pass(saved@.map_values(|e: (String, String)| (e.0@, e.1@)), ssid@),
{
    let ghost sv = saved@.map_values(|e: (String, String)| (e.0@, e.1@));
    assert(sv.skip(0) =~= sv);
    let mut i: usize = 0;
    while i < saved.len()
        invariant
            i <= saved@.len(),
            sv == saved@.map_values(|e: (String, String)| (e.0@, e.1@)),
            saved_pass(sv, ssid@) == saved_pass(sv.skip(i as int), ssid@),
        decreases saved@.len() - i,
    {
        assert(sv.skip(i as int).drop_first() =~= sv.skip(i + 1));
        assert(sv.skip(i as int)[0] == sv[i as int]);
        if crate::text::str_eq(saved[i].0.as_str(), ssid) {
            return saved[i].1.clone();
        }
        i = i + 1;
    }
    assert(sv.skip(i as int) =~= Seq::<(Seq<char>, Seq<char>)>::empty());
    String::new()
}

/// What a submitted settings form asks to store, given the networks already
/// remembered and the stored MQTT settings. A blank password field keeps the
/// saved password: it is never erased by an empty form submit.
pub fn plan_connect(p: &FormParams, saved: &Vec<(String, String)>, prev: &MqttCfg) -> (plan: ConnectPlan)
    requires
        p.wf(),
    ensures
        match plan.wifi {
            Some((s, w)) => plan_wifi_spec(p.params(), saved@.map_values(|e: (String, String)| (e.0@, e.1@)))
                == Some((s@, w@)),
            None => plan_wifi_spec(p.params(), saved@.map_values(|e: (String, String)| (e.0@, e.1@))) is None,
        },
        plan.mqtt@ == plan_mqtt_spec(p.params(), prev@),
        plan.night == plan_night_spec(p.params()),
{
    let wifi = match p.get("ssid") {
        Some(ssid) => {
            if ssid.unicode_len() > 0 {
                let given = get_string(p, "pass");
                let pass = if given.unicode_len() == 0 {
                    find_saved_pass(saved, ssid.as_str())
                } else {
                    given
                };
                Some((ssid.clone(), pass))
            } else {
                None
            }
        },
        None => None,
    };
    let server = get_string(p, "m_srv");
    let port = get_i32(p, "m_port", 1883);
    let user = get_string(p, "m_user");
    let pass = get_string(p, "m_pass");
    let interval = get_i32(p, "m_int", 10);
    let mqtt = MqttCfg {
        enabled: p.contains_key("m_en"),
        server: if server.unicode_len() == 0 { prev.server.clone() } else { server },
        port: if port <= 0 { prev.port } else { port },
        user: if user.unicode_len() == 0 { prev.user.clone() } else { user },
        pass: if pass.unicode_len() == 0 { prev.pass.clone() } else { pass },
        gmt_off: get_i32(p, "gmt_h", 0).wrapping_mul(3600),
        dst_off: get_i32(p, "dst_en", 0),
        interval_sec: if interval < 1 { 1 } else { interval },
    };
    let lev = match p.get("n_lev") {
        Some(t) => match parse_u32(t.as_str()) {
            Some(v) => v,
            None => NIGHT_DIM_LEVEL,
        },
        None => NIGHT_DIM_LEVEL,
    };
    let night = NightCfg {
        on: p.contains_key("n_on"),
        start_h: clamp_i32(get_i32(p, "n_sh", NIGHT_START_H_DEF), 0, 23),
        end_h: clamp_i32(get_i32(p, "n_eh", NIGHT_END_H_DEF), 0, 23),
        level: clamp_u32(lev, 1, 1024),
    };
    ConnectPlan { wifi, mqtt, night }
}

/// A blank password field never erases a saved password: the MQTT password
/// stays the stored one, and a network that is saved again keeps the password
/// remembered for it.
pub proof fn lemma_blank_password_kept(
    m: Map<Seq<char>, Seq<char>>,
    saved: Seq<(Seq<char>, Seq<char>)>,
    prev: MqttView,
)
    ensures
        or_default(param(m, "m_pass"@), Seq::empty()).len() == 0 ==> plan_mqtt_spec(m, prev).pass
            == prev.pass,
        or_default(param(m, "pass"@), Seq::empty()).len() == 0 ==> (plan_wifi_spec(m, saved) matches Some(
            (ssid, pass),
        ) ==> pass == saved_pass(saved, ssid)),
{
}

} // verus!
