//! Wi-Fi policy: when the configuration access point is dropped or brought
//! back, and which address the device shows.

use vstd::prelude::*;

use crate::config::WIFI_TIMEOUT_MS;
use crate::text::str_eq;

verus! {

/// The boot window during which the access point is never touched.
pub const AP_BOOT_WINDOW_MS: u64 = 60000;

/// How long the station link must hold before the access point is dropped.
pub const STA_STABLE_MS: u64 = 60000;

/// How long the station link must be lost before the access point returns.
pub const STA_LOST_MS: u64 = 15000;

/// The outcome of one poll while joining a remembered network at boot.
#[derive(Clone, Copy, Debug, PartialEq, Eq, Structural)]
pub enum JoinStep {
    /// The station is connected: stop trying further networks.
    Joined,
    /// The join timeout has passed: move on to the next network.
    TimedOut,
    /// Keep waiting (and add a progress dot).
    Wait,
}

/// One poll of a join attempt that started `elapsed_ms` ago: connected wins,
/// otherwise the attempt gives up once `WIFI_TIMEOUT_MS` has passed.
pub fn join_step(connected: bool, elapsed_ms: u64) -> (step: JoinStep)
    ensures
        step == if connected {
            JoinStep::Joined
        } else if elapsed_ms >= WIFI_TIMEOUT_MS {
            JoinStep::TimedOut
        } else {
            JoinStep::Wait
        },
{
    if connected {
        JoinStep::Joined
    } else if elapsed_ms >= WIFI_TIMEOUT_MS {
        JoinStep::TimedOut
    } else {
        JoinStep::Wait
    }
}

/// What the watchdog asks the Wi-Fi driver to do.
#[derive(Clone, Copy, Debug, PartialEq, Eq, Structural)]
pub enum ApAction {
    /// Nothing to change.
    Keep,
    /// Switch to station-only mode, dropping the access point.
    DropAp,
    /// Switch back to access point plus station and reconnect the station.
    RestoreAp,
}

/// State of the access-point watchdog. Times are milliseconds since boot.
pub struct ApWatchdog {
    /// Whether the access point is up (boot always starts with it up).
    pub ap_up: bool,
    /// When the current run of connected station checks began.
    pub sta_since: Option<u64>,
    /// When the current run of disconnected station checks began.
    pub sta_down_since: Option<u64>,
}

/// The timers after a check at `now_ms` that saw the station `connected`.
pub open spec fn observe_spec(w: ApWatchdog, now_ms: u64, connected: bool) -> (Option<u64>, Option<u64>) {
    if connected {
        (if w.sta_since is Some { w.sta_since } else { Some(now_ms) }, None)
    } else {
        (None, if w.sta_down_since is Some { w.sta_down_since } else { Some(now_ms) })
    }
}

/// Whether a timer has run for at least `ms` at `now_ms` (a timer in the
/// future counts as just started).
pub open spec fn held_for(since: Option<u64>, now_ms: u64, ms: u64) -> bool {
    match since {
        Some(t) => (if now_ms >= t { now_ms - t } else { 0 }) >= ms,
        None => false,
    }
}

/// The watchdog's decision for a check at `now_ms` after the timers are
/// updated: drop the access point once past the boot window with the station
/// stable for a minute; bring it back once past the boot window with the
/// station lost for 15 s; otherwise keep things as they are.
pub open spec fn decide_spec(ap_up: bool, sta_since: Option<u64>, sta_down_since: Option<u64>, now_ms: u64) -> ApAction {
    let in_window = now_ms < AP_BOOT_WINDOW_MS;
    if ap_up {
        if !in_window && held_for(sta_since, now_ms, STA_STABLE_MS) {
            ApAction::DropAp
        } else {
            ApAction::Keep
        }
    } else if !in_window && held_for(sta_down_since, now_ms, STA_LOST_MS) {
        ApAction::RestoreAp
    } else {
        ApAction::Keep
    }
}

fn held(since: Option<u64>, now_ms: u64, ms: u64) -> (r: bool)
    ensures
        r == held_for(since, now_ms, ms),
{
    match since {
        Some(t) => now_ms.saturating_sub(t) >= ms,
        None => false,
    }
}

impl ApWatchdog {
    /// The watchdog at boot: access point up, no station observation yet.
    pub fn new() -> (w: ApWatchdog)
        ensures
            w.ap_up,
            w.sta_since is None,
            w.sta_down_since is None,
    {
        ApWatchdog { ap_up: true, sta_since: None, sta_down_since: None }
    }

    /// One periodic check at `now_ms` that found the station `connected`:
    /// updates the timers and says what to do with the access point. The
    /// access point is never touched while the station is alive unless it has
    /// been stable for a minute, and never within the boot window.
    pub fn tick(&mut self, now_ms: u64, connected: bool) -> (action: ApAction)
        ensures
            (final(self).sta_since, final(self).sta_down_since) == observe_spec(*old(self), now_ms, connected),
            final(self).ap_up == old(self).ap_up,
            action == decide_spec(old(self).ap_up, final(self).sta_since, final(self).sta_down_since, now_ms),
            action == ApAction::DropAp ==> connected && old(self).ap_up && now_ms >= AP_BOOT_WINDOW_MS,
            action == ApAction::RestoreAp ==> !connected && !old(self).ap_up && now_ms >= AP_BOOT_WINDOW_MS,
    {
        if connected {
            if self.sta_since.is_none() {
                self.sta_since = Some(now_ms);
            }
            self.sta_down_since = None;
        } else {
            if self.sta_down_since.is_none() {
                self.sta_down_since = Some(now_ms);
            }
            self.sta_since = None;
        }
        let in_window = now_ms < AP_BOOT_WINDOW_MS;
        if self.ap_up {
            if !in_window && held(self.sta_since, now_ms, STA_STABLE_MS) {
                ApAction::DropAp
            } else {
                ApAction::Keep
            }
        } else if !in_window && held(self.sta_down_since, now_ms, STA_LOST_MS) {
            ApAction::RestoreAp
        } else {
            ApAction::Keep
        }
    }

    /// Records the outcome of carrying out `action`: the access point is down
    /// after a successful drop and up after a successful restore; a failed
    /// reconfiguration changes nothing.
    pub fn action_done(&mut self, action: ApAction, ok: bool)
        ensures
            final(self).sta_since == old(self).sta_since,
            final(self).sta_down_since == old(self).sta_down_since,
            final(self).ap_up == if ok && action == ApAction::DropAp {
                false
            } else if ok && action == ApAction::RestoreAp {
                true
            } else {
                old(self).ap_up
            },
    {
        if ok {
            match action {
                ApAction::DropAp => {
                    self.ap_up = false;
                },
                ApAction::RestoreAp => {
                    self.ap_up = true;
                },
                ApAction::Keep => {},
            }
        }
    }
}

/// Within the boot window the watchdog never changes the access point.
pub proof fn lemma_boot_window_keeps_ap(ap_up: bool, sta_since: Option<u64>, sta_down_since: Option<u64>, now_ms: u64)
    requires
        now_ms < AP_BOOT_WINDOW_MS,
    ensures
        decide_spec(ap_up, sta_since, sta_down_since, now_ms) == ApAction::Keep,
{
}

/// The access point is dropped only after the station has been observed
/// connected, without interruption, for at least a minute.
pub proof fn lemma_drop_needs_stable_station(w: ApWatchdog, now_ms: u64, connected: bool)
    ensures
        ({
            let (since, down) = observe_spec(w, now_ms, connected);
            decide_spec(w.ap_up, since, down, now_ms) == ApAction::DropAp ==> connected && (since matches Some(t)
                && t <= now_ms - STA_STABLE_MS && (w.sta_since is Some ==> since == w.sta_since))
        }),
{
}

/// The access point comes back only after the station has been observed
/// lost, without interruption, for at least 15 s.
pub proof fn lemma_restore_needs_lost_station(w: ApWatchdog, now_ms: u64, connected: bool)
    ensures
        ({
            let (since, down) = observe_spec(w, now_ms, connected);
            decide_spec(w.ap_up, since, down, now_ms) == ApAction::RestoreAp ==> !connected && (down matches Some(t)
                && t <= now_ms - STA_LOST_MS && (w.sta_down_since is Some ==> down == w.sta_down_since))
        }),
{
}

/// Past the boot window, the access point is dropped at the first check that
/// finds the station still connected a minute after it was first seen so.
pub proof fn lemma_stable_station_drops_ap(w: ApWatchdog, now_ms: u64, t: u64)
    requires
        w.ap_up,
        w.sta_since == Some(t),
        now_ms >= AP_BOOT_WINDOW_MS,
        now_ms >= t + STA_STABLE_MS,
    ensures
        ({
            let (since, down) = observe_spec(w, now_ms, true);
            decide_spec(w.ap_up, since, down, now_ms) == ApAction::DropAp
        }),
{
}

/// Past the boot window, a dropped access point comes back at the first check
/// that finds the station still lost 15 s after it was first seen so.
pub proof fn lemma_lost_station_restores_ap(w: ApWatchdog, now_ms: u64, t: u64)
    requires
        !w.ap_up,
        w.sta_down_since == Some(t),
        now_ms >= AP_BOOT_WINDOW_MS,
        now_ms >= t + STA_LOST_MS,
    ensures
        ({
            let (since, down) = observe_spec(w, now_ms, false);
            decide_spec(w.ap_up, since, down, now_ms) == ApAction::RestoreAp
        }),
{
}

/// An interface address that is actually assigned (not `0.0.0.0`).
pub open spec fn assigned(ip: Option<Seq<char>>) -> Option<Seq<char>> {
    match ip {
        Some(v) => if v == "0.0.0.0"@ { None } else { Some(v) },
        None => None,
    }
}

/// The view of an optional string.
pub open spec fn opt_seq(s: Option<String>) -> Option<Seq<char>> {
    match s {
        Some(v) => Some(v@),
        None => None,
    }
}

/// The address `/status` reports: the station address when assigned; while
/// the access point is up, its address (or 192.168.4.1); otherwise the last
/// known address when it is a real one; otherwise "no link".
pub open spec fn status_ip_spec(sta: Option<Seq<char>>, ap: Option<Seq<char>>, ap_up: bool, last: Seq<char>) -> Seq<char> {
    match assigned(sta) {
        Some(v) => v,
        None => if ap_up {
            match assigned(ap) {
                Some(v) => v,
                None => "192.168.4.1"@,
            }
        } else if last.len() > 0 && last != "0.0.0.0"@ {
            last
        } else {
            "no link"@
        },
    }
}

/// The address the status bar shows: station, then access point, then the
/// last known real address, otherwise "no link".
pub open spec fn display_ip_spec(sta: Option<Seq<char>>, ap: Option<Seq<char>>, last: Seq<char>) -> Seq<char> {
    match assigned(sta) {
        Some(v) => v,
        None => match assigned(ap) {
            Some(v) => v,
            None => if last.len() > 0 && last != "0.0.0.0"@ {
                last
            } else {
                "no link"@
            },
        },
    }
}

fn assigned_ip(ip: &Option<String>) -> (r: Option<String>)
    ensures
        opt_seq(r) == assigned(opt_seq(*ip)),
{
    match ip {
        Some(v) => if str_eq(v.as_str(), "0.0.0.0") {
            None
        } else {
            Some(v.clone())
        },
        None => None,
    }
}

fn is_real_ip(last: &str) -> (r: bool)
    ensures
        r == (last@.len() > 0 && last@ != "0.0.0.0"@),
{
    last.unicode_len() > 0 && !str_eq(last, "0.0.0.0")
}

/// The address `/status` reports (see `status_ip_spec`).
pub fn status_ip(sta: &Option<String>, ap: &Option<String>, ap_up: bool, last: &str) -> (ip: String)
    ensures
        ip@ == status_ip_spec(opt_seq(*sta), opt_seq(*ap), ap_up, last@),
{
    match assigned_ip(sta) {
        Some(v) => v,
        None => if ap_up {
            match assigned_ip(ap) {
                Some(v) => v,
                None => String::from_str("192.168.4.1"),
            }
        } else if is_real_ip(last) {
            String::from_str(last)
        } else {
            String::from_str("no link")
        },
    }
}

/// The address the status bar shows (see `display_ip_spec`), and whether the
/// station counts as connected: reported connected or holding an address.
pub fn display_ip(connected: bool, sta: &Option<String>, ap: &Option<String>, last: &str) -> (r: (bool, String))
    ensures
        r.0 == (connected || assigned(opt_seq(*sta)) is Some),
        r.1@ == display_ip_spec(opt_seq(*sta), opt_seq(*ap), last@),
{
    let sta_ip = assigned_ip(sta);
    let linked = connected || sta_ip.is_some();
    let ip = match sta_ip {
        Some(v) => v,
        None => match assigned_ip(ap) {
            Some(v) => v,
            None => if is_real_ip(last) {
                String::from_str(last)
            } else {
                String::from_str("no link")
            },
        },
    };
    (linked, ip)
}

} // verus!
