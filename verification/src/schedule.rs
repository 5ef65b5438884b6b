//! Time-driven decisions of the firmware's loops: local time of day, night
//! dimming of the backlight, the refresh progress bar and the CO2 history.

use vstd::prelude::*;

use crate::calendar::floor_div_mod;
use crate::config::{DISPLAY_UPDATE_INTERVAL_MS, GRAPH_SAMPLES};

verus! {

/// Whether local hour `h` falls in the night window [`sh`, `eh`): `sh == eh`
/// means always night, and a window such as 23 to 7 wraps around midnight.
pub open spec fn night_dim_spec(h: u32, sh: i32, eh: i32) -> bool {
    let h = h as i32;
    if sh == eh {
        true
    } else if sh < eh {
        sh <= h && h < eh
    } else {
        h >= sh || h < eh
    }
}

/// Whether local hour `h` falls in the night window (see `night_dim_spec`).
pub fn night_dim(h: u32, sh: i32, eh: i32) -> (dim: bool)
    ensures
        dim == night_dim_spec(h, sh, eh),
{
    let h = h as i32;
    if sh == eh {
        true
    } else if sh < eh {
        sh <= h && h < eh
    } else {
        h >= sh || h < eh
    }
}

/// A night window that wraps past midnight (`0 <= eh < sh <= 23`) dims
/// exactly the hours from its start to midnight and from midnight to its end:
/// an hour of the day is dimmed iff `sh <= h <= 23` or `0 <= h < eh`.
pub proof fn lemma_wrapping_night_window(h: u32, sh: i32, eh: i32)
    requires
        0 <= eh < sh <= 23,
        h <= 23,
    ensures
        night_dim_spec(h, sh, eh) <==> (sh <= h <= 23 || h < eh),
{
}

/// Swapping start and end of a window (start != end) swaps the dimmed and the
/// bright hours: every hour of the day is dimmed by exactly one of the two.
pub proof fn lemma_night_window_complement(h: u32, sh: i32, eh: i32)
    requires
        0 <= sh <= 23,
        0 <= eh <= 23,
        sh != eh,
        h <= 23,
    ensures
        night_dim_spec(h, sh, eh) != night_dim_spec(h, eh, sh),
{
}

/// Integer division rounding toward zero, as Rust's `/` on signed integers.
pub open spec fn trunc_div(a: int, b: int) -> int {
    if a >= 0 {
        a / b
    } else {
        -((-a) / b)
    }
}

/// The local time of day of the Unix time `now_s` shifted by the zone and
/// daylight-saving offsets: (valid, hour, minute, second). Not valid when the
/// clock reads zero or when a rough year (`1970 + days / 365`) is before 2020.
pub open spec fn local_hms_spec(now_s: int, gmt_off: int, dst_off: int) -> (bool, u32, u32, u32) {
    if now_s == 0 {
        (false, 0, 0, 0)
    } else {
        let shifted = now_s + gmt_off + dst_off;
        let day = shifted / 86400;
        let sod = shifted % 86400;
        if 1970 + trunc_div(day, 365) < 2020 {
            (false, 0, 0, 0)
        } else {
            ((true, (sod / 3600) as u32, (sod % 3600 / 60) as u32, (sod % 60) as u32))
        }
    }
}

/// The local time of day (see `local_hms_spec`).
pub fn local_hms(now_s: i64, gmt_off: i32, dst_off: i32) -> (r: (bool, u32, u32, u32))
    requires
        i64::MIN <= now_s + gmt_off <= i64::MAX,
        i64::MIN <= now_s + gmt_off + dst_off <= i64::MAX,
    ensures
        r == local_hms_spec(now_s as int, gmt_off as int, dst_off as int),
{
    if now_s == 0 {
        return (false, 0, 0, 0);
    }
    let shifted = now_s + gmt_off as i64 + dst_off as i64;
    let (day, sod) = floor_div_mod(shifted, 86400);
    let years = if day >= 0 {
        day / 365
    } else {
        -((-day) / 365)
    };
    let year = 1970 + years;
    if year < 2020 {
        return (false, 0, 0, 0);
    }
    (true, (sod / 3600) as u32, ((sod % 3600) / 60) as u32, (sod % 60) as u32)
}

/// The backlight duty for a clock check: with night mode on and the hour in
/// the night window (the local hour when known, otherwise hours since boot
/// modulo 24), the night level limited to the maximum and at least 1;
/// otherwise the maximum.
pub open spec fn backlight_duty_spec(
    night_on: bool,
    has_time: bool,
    hour: u32,
    uptime_s: u64,
    sh: i32,
    eh: i32,
    level: u32,
    max_duty: u32,
) -> u32 {
    let dim = if night_on {
        if has_time {
            night_dim_spec(hour, sh, eh)
        } else {
            night_dim_spec(((uptime_s / 3600) as u32 % 24) as u32, sh, eh)
        }
    } else {
        false
    };
    if dim {
        let l = if level < max_duty { level } else { max_duty };
        if l < 1 { 1 } else { l }
    } else {
        max_duty
    }
}

/// The backlight duty for a clock check (see `backlight_duty_spec`).
pub fn backlight_duty(
    night_on: bool,
    has_time: bool,
    hour: u32,
    uptime_s: u64,
    sh: i32,
    eh: i32,
    level: u32,
    max_duty: u32,
) -> (duty: u32)
    ensures
        duty == backlight_duty_spec(night_on, has_time, hour, uptime_s, sh, eh, level, max_duty),
{
    let dim = if night_on {
        if has_time {
            night_dim(hour, sh, eh)
        } else {
            night_dim((uptime_s / 3600) as u32 % 24, sh, eh)
        }
    } else {
        false
    };
    if dim {
        let l = if level < max_duty { level } else { max_duty };
        if l < 1 { 1 } else { l }
    } else {
        max_duty
    }
}

/// Width in pixels of the refresh progress bar, `ms_since * 128 / 5000` in
/// wrapping 32-bit arithmetic.
pub fn progress_width(ms_since: u32) -> (w: i32)
    ensures
        w == (((ms_since as int * 128) % 0x1_0000_0000) / (DISPLAY_UPDATE_INTERVAL_MS as int)) as i32,
{
    let scaled = ms_since.wrapping_mul(128);
    (scaled / (DISPLAY_UPDATE_INTERVAL_MS as u32)) as i32
}

/// The history window after one more sample: appended while the window is
/// filling, otherwise everything moves one place left and the sample takes
/// the last place.
pub open spec fn history_push(samples: Seq<i32>, filled: nat, v: i32) -> (Seq<i32>, nat) {
    if filled < GRAPH_SAMPLES {
        (samples.update(filled as int, v), filled + 1)
    } else {
        (samples.skip(1).push(v), filled)
    }
}

/// The window after the samples `vals` were recorded into an empty one: the
/// latest `GRAPH_SAMPLES` values in order, then zeros for unused places.
pub open spec fn history_after(vals: Seq<i32>) -> Seq<i32> {
    if vals.len() <= GRAPH_SAMPLES {
        vals + Seq::new((GRAPH_SAMPLES - vals.len()) as nat, |i: int| 0i32)
    } else {
        vals.skip(vals.len() - GRAPH_SAMPLES)
    }
}

/// The CO2 history shown in the graph: `GRAPH_SAMPLES` places, filled from the
/// left; unused places hold 0.
pub struct Co2History {
    samples: Vec<i32>,
    filled: usize,
}

impl Co2History {
    /// The samples, oldest first, padded with zeros.
    pub closed spec fn samples(&self) -> Seq<i32> {
        self.samples@
    }

    /// How many places are in use.
    pub closed spec fn filled(&self) -> nat {
        self.filled as nat
    }

    /// The window always has `GRAPH_SAMPLES` places, of which at most all are
    /// in use.
    pub closed spec fn wf(&self) -> bool {
        self.samples@.len() == GRAPH_SAMPLES && self.filled <= GRAPH_SAMPLES
    }

    /// An empty history: all zeros.
    pub fn new() -> (h: Co2History)
        ensures
            h.wf(),
            h.filled() == 0,
            h.samples() == Seq::new(GRAPH_SAMPLES as nat, |i: int| 0i32),
    {
        let mut samples: Vec<i32> = Vec::new();
        let mut i: usize = 0;
        while i < GRAPH_SAMPLES
            invariant
                i <= GRAPH_SAMPLES,
                samples@ == Seq::new(i as nat, |j: int| 0i32),
            decreases GRAPH_SAMPLES - i,
        {
            samples.push(0);
            i = i + 1;
            assert(samples@ =~= Seq::new(i as nat, |j: int| 0i32));
        }
        Co2History { samples, filled: 0 }
    }

    /// Records one CO2 sample (see `history_push`).
    pub fn push(&mut self, v: i32)
        requires
            old(self).wf(),
        ensures
            final(self).wf(),
            (final(self).samples(), final(self).filled()) == history_push(old(self).samples(), old(self).filled(), v),
    {
        if self.filled < GRAPH_SAMPLES {
            self.samples.set(self.filled, v);
            self.filled = self.filled + 1;
        } else {
            self.samples.remove(0);
            self.samples.push(v);
            assert(self.samples@ =~= old(self).samples@.skip(1).push(v));
        }
    }

    /// The sample in place `i`.
    pub fn get(&self, i: usize) -> (v: i32)
        requires
            self.wf(),
            i < GRAPH_SAMPLES,
        ensures
            v == self.samples()[i as int],
    {
        self.samples[i]
    }

    /// The samples, oldest first, padded with zeros.
    pub fn as_slice(&self) -> (s: &[i32])
        ensures
            s@ == self.samples(),
    {
        self.samples.as_slice()
    }
}

/// The window recorded from an empty one by `vals`.
pub open spec fn history_fold(vals: Seq<i32>) -> (Seq<i32>, nat)
    decreases vals.len(),
{
    if vals.len() == 0 {
        (Seq::new(GRAPH_SAMPLES as nat, |i: int| 0i32), 0)
    } else {
        let (s, f) = history_fold(vals.drop_last());
        history_push(s, f, vals.last())
    }
}

/// The graph always shows the latest `GRAPH_SAMPLES` samples in the order
/// they were taken, followed by zeros while the window is not yet full.
pub proof fn lemma_history_window(vals: Seq<i32>)
    ensures
        history_fold(vals).0 == history_after(vals),
        history_fold(vals).1 == if vals.len() < GRAPH_SAMPLES { vals.len() } else { GRAPH_SAMPLES as nat },
    decreases vals.len(),
{
    if vals.len() > 0 {
        let p = vals.drop_last();
        lemma_history_window(p);
        if p.len() < GRAPH_SAMPLES {
            assert(history_after(vals) =~= history_after(p).update(p.len() as int, vals.last()));
        } else {
            assert(history_after(vals) =~= history_after(p).skip(1).push(vals.last()));
        }
    } else {
        assert(history_after(vals) =~= Seq::new(GRAPH_SAMPLES as nat, |i: int| 0i32));
    }
}

/// Which periodic jobs of the display loop run on a tick.
pub struct DisplayJobs {
    /// Record a CO2 history sample (every 30 s).
    pub graph: bool,
    /// Update the clock and the backlight (every second).
    pub clock: bool,
    /// Redraw the readings (every 5 s).
    pub refresh: bool,
}

/// The last run of each periodic job, in milliseconds since the display loop
/// started. The clock and the readings are due at once; the first history
/// sample is taken after 30 s.
pub struct DisplayTimers {
    pub last_graph: i64,
    pub last_clock: i64,
    pub last_update: i64,
}

/// Whether a job last run at `last` is due at `now`.
pub open spec fn job_due(now: i64, last: i64, interval: int) -> bool {
    now - last >= interval
}

impl DisplayTimers {
    /// The timers when the display loop starts.
    pub fn new() -> (t: DisplayTimers)
        ensures
            t.last_graph == 0,
            t.last_clock == -1000,
            t.last_update == -(DISPLAY_UPDATE_INTERVAL_MS as int),
    {
        DisplayTimers { last_graph: 0, last_clock: -1000, last_update: -5000 }
    }

    /// Milliseconds since the readings were last redrawn, for the progress
    /// bar (zero if the clock went backwards, truncated to 32 bits).
    pub fn since_update(&self, now: i64) -> (ms: u32)
        requires
            i64::MIN <= now - self.last_update <= i64::MAX,
        ensures
            ms == if now >= self.last_update { (now - self.last_update) as u32 } else { 0u32 },
    {
        if now >= self.last_update {
            (now - self.last_update) as u32
        } else {
            0
        }
    }

    /// The jobs due at `now`; each due job's timer restarts at `now`.
    pub fn tick(&mut self, now: i64) -> (jobs: DisplayJobs)
        requires
            i64::MIN <= now - old(self).last_graph <= i64::MAX,
            i64::MIN <= now - old(self).last_clock <= i64::MAX,
            i64::MIN <= now - old(self).last_update <= i64::MAX,
        ensures
            jobs.graph == job_due(now, old(self).last_graph, 30000),
            jobs.clock == job_due(now, old(self).last_clock, 1000),
            jobs.refresh == job_due(now, old(self).last_update, DISPLAY_UPDATE_INTERVAL_MS as int),
            final(self).last_graph == if jobs.graph { now } else { old(self).last_graph },
            final(self).last_clock == if jobs.clock { now } else { old(self).last_clock },
            final(self).last_update == if jobs.refresh { now } else { old(self).last_update },
    {
        let graph = now - self.last_graph >= 30000;
        if graph {
            self.last_graph = now;
        }
        let clock = now - self.last_clock >= 1000;
        if clock {
            self.last_clock = now;
        }
        let refresh = now - self.last_update >= 5000;
        if refresh {
            self.last_update = now;
        }
        DisplayJobs { graph, clock, refresh }
    }
}

/// How a clock tick updates the top of the screen.
#[derive(Clone, Copy, Debug, PartialEq, Eq, Structural)]
pub enum ClockDraw {
    /// Redraw the whole clock region.
    Full,
    /// Only blink the colon.
    Colon,
    /// Only blink the uptime dot.
    Led,
}

/// What the clock region last showed: the hour and minute as `h * 100 + m`,
/// and the uptime in minutes (`u32::MAX` and `u64::MAX` before the first
/// drawing).
pub struct ClockShown {
    pub last_hm: u32,
    pub last_upmin: u64,
}

impl ClockShown {
    /// Nothing shown yet.
    pub fn new() -> (c: ClockShown)
        ensures
            c.last_hm == u32::MAX,
            c.last_upmin == u64::MAX,
    {
        ClockShown { last_hm: u32::MAX, last_upmin: u64::MAX }
    }

    /// Decides a clock tick: a full redraw when the minute shown changes
    /// (wall time) or the uptime minute changes (no time yet), otherwise only
    /// the blinking colon or dot.
    pub fn decide(&mut self, has_time: bool, h: u32, m: u32, uptime_s: u64) -> (d: ClockDraw)
        requires
            has_time ==> h * 100 + m <= u32::MAX,
        ensures
            has_time ==> {
                &&& d == if h * 100 + m != old(self).last_hm { ClockDraw::Full } else { ClockDraw::Colon }
                &&& final(self).last_hm == (h * 100 + m) as u32
                &&& final(self).last_upmin == old(self).last_upmin
            },
            !has_time ==> {
                &&& d == if uptime_s / 60 != old(self).last_upmin { ClockDraw::Full } else { ClockDraw::Led }
                &&& final(self).last_upmin == uptime_s / 60
                &&& final(self).last_hm == old(self).last_hm
            },
    {
        if has_time {
            let hm = h * 100 + m;
            let full = hm != self.last_hm;
            self.last_hm = hm;
            if full { ClockDraw::Full } else { ClockDraw::Colon }
        } else {
            let upmin = uptime_s / 60;
            let full = upmin != self.last_upmin;
            self.last_upmin = upmin;
            if full { ClockDraw::Full } else { ClockDraw::Led }
        }
    }
}

} // verus!
