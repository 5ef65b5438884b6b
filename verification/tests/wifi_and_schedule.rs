use air_monitor::schedule::{
    backlight_duty, local_hms, night_dim, progress_width, ClockDraw, ClockShown, Co2History, DisplayTimers,
};
use air_monitor::wifi::{display_ip, join_step, status_ip, ApAction, ApWatchdog, JoinStep};

#[test]
fn watchdog_keeps_ap_during_boot_window() {
    let mut w = ApWatchdog::new();
    let mut t = 0;
    while t < 60_000 {
        assert_eq!(w.tick(t, true), ApAction::Keep);
        t += 3000;
    }
}

#[test]
fn watchdog_drops_ap_after_stable_minute() {
    let mut w = ApWatchdog::new();
    assert_eq!(w.tick(30_000, true), ApAction::Keep);
    assert_eq!(w.tick(60_000, true), ApAction::Keep);
    assert_eq!(w.tick(89_999, true), ApAction::Keep);
    assert_eq!(w.tick(90_000, true), ApAction::DropAp);
    w.action_done(ApAction::DropAp, true);
    assert!(!w.ap_up);
    assert_eq!(w.tick(93_000, true), ApAction::Keep);
}

#[test]
fn watchdog_restores_ap_after_loss() {
    let mut w = ApWatchdog { ap_up: false, sta_since: Some(0), sta_down_since: None };
    assert_eq!(w.tick(100_000, false), ApAction::Keep);
    assert_eq!(w.tick(114_999, false), ApAction::Keep);
    assert_eq!(w.tick(115_000, false), ApAction::RestoreAp);
    w.action_done(ApAction::RestoreAp, false);
    assert!(!w.ap_up);
    assert_eq!(w.tick(118_000, false), ApAction::RestoreAp);
    w.action_done(ApAction::RestoreAp, true);
    assert!(w.ap_up);
    assert_eq!(w.tick(121_000, true), ApAction::Keep);
}

#[test]
fn watchdog_flapping_link_restarts_timers() {
    let mut w = ApWatchdog::new();
    assert_eq!(w.tick(61_000, true), ApAction::Keep);
    assert_eq!(w.tick(100_000, false), ApAction::Keep);
    assert_eq!(w.tick(103_000, true), ApAction::Keep);
    assert_eq!(w.tick(162_000, true), ApAction::Keep);
    assert_eq!(w.tick(163_000, true), ApAction::DropAp);
}

#[test]
fn reported_addresses() {
    let some = |s: &str| Some(s.to_string());
    assert_eq!(status_ip(&some("10.0.0.5"), &some("192.168.71.1"), true, ""), "10.0.0.5");
    assert_eq!(status_ip(&some("0.0.0.0"), &some("192.168.71.1"), true, ""), "192.168.71.1");
    assert_eq!(status_ip(&None, &some("0.0.0.0"), true, ""), "192.168.4.1");
    assert_eq!(status_ip(&None, &some("192.168.71.1"), false, "10.0.0.9"), "10.0.0.9");
    assert_eq!(status_ip(&None, &None, false, "0.0.0.0"), "no link");
    assert_eq!(status_ip(&None, &None, false, ""), "no link");
    assert_eq!(display_ip(false, &some("10.0.0.5"), &None, ""), (true, "10.0.0.5".to_string()));
    assert_eq!(display_ip(false, &None, &some("192.168.71.1"), ""), (false, "192.168.71.1".to_string()));
    assert_eq!(display_ip(true, &None, &None, "10.1.1.1"), (true, "10.1.1.1".to_string()));
    assert_eq!(display_ip(false, &None, &None, "0.0.0.0"), (false, "no link".to_string()));
}

#[test]
fn night_window() {
    assert!(night_dim(23, 23, 7));
    assert!(night_dim(0, 23, 7));
    assert!(night_dim(6, 23, 7));
    assert!(!night_dim(7, 23, 7));
    assert!(!night_dim(22, 23, 7));
    assert!(night_dim(13, 12, 12));
    assert!(night_dim(9, 8, 17));
    assert!(!night_dim(17, 8, 17));
}

#[test]
fn local_time_of_day() {
    assert_eq!(local_hms(0, 0, 0), (false, 0, 0, 0));
    assert_eq!(local_hms(1_700_000_000, 0, 0), (true, 22, 13, 20));
    assert_eq!(local_hms(1_700_000_000, 7200, 3600), (true, 1, 13, 20));
    assert_eq!(local_hms(86_400 * 365 * 50 - 1, 0, 0), (false, 0, 0, 0));
    assert_eq!(local_hms(86_400 * 365 * 50, 0, 0), (true, 0, 0, 0));
    assert_eq!(local_hms(-5, 0, 0), (false, 0, 0, 0));
}

#[test]
fn backlight_levels() {
    assert_eq!(backlight_duty(false, true, 23, 0, 23, 7, 40, 1024), 1024);
    assert_eq!(backlight_duty(true, true, 23, 0, 23, 7, 40, 1024), 40);
    assert_eq!(backlight_duty(true, true, 12, 0, 23, 7, 40, 1024), 1024);
    assert_eq!(backlight_duty(true, true, 1, 0, 23, 7, 2000, 1023), 1023);
    assert_eq!(backlight_duty(true, true, 1, 0, 23, 7, 0, 1023), 1);
    assert_eq!(backlight_duty(true, false, 99, 3 * 3600, 2, 4, 40, 1024), 40);
    assert_eq!(backlight_duty(true, false, 3, 5 * 3600, 2, 4, 40, 1024), 1024);
    assert_eq!(backlight_duty(true, false, 0, 26 * 3600, 2, 4, 40, 1024), 40);
}

#[test]
fn progress_bar_width() {
    assert_eq!(progress_width(0), 0);
    assert_eq!(progress_width(2500), 64);
    assert_eq!(progress_width(5000), 128);
    assert_eq!(progress_width(5500), 140);
    assert_eq!(progress_width(u32::MAX), (u32::MAX.wrapping_mul(128) / 5000) as i32);
}

#[test]
fn history_keeps_latest_samples() {
    let mut h = Co2History::new();
    assert!(h.as_slice().iter().all(|&v| v == 0));
    for i in 1..=3 {
        h.push(400 + i);
    }
    assert_eq!(&h.as_slice()[..4], &[401, 402, 403, 0]);
    for i in 4..=65 {
        h.push(400 + i);
    }
    assert_eq!(h.as_slice().len(), 60);
    assert_eq!(h.get(0), 406);
    assert_eq!(h.get(59), 465);
}

#[test]
fn display_timers() {
    let mut t = DisplayTimers::new();
    let j = t.tick(0);
    assert!(!j.graph && j.clock && j.refresh);
    assert_eq!(t.since_update(2500), 2500);
    let j = t.tick(999);
    assert!(!j.graph && !j.clock && !j.refresh);
    let j = t.tick(1000);
    assert!(!j.graph && j.clock && !j.refresh);
    let j = t.tick(30_000);
    assert!(j.graph && j.clock && j.refresh);
}

#[test]
fn clock_redraws_on_minute_change() {
    let mut c = ClockShown::new();
    assert_eq!(c.decide(true, 9, 5, 0), ClockDraw::Full);
    assert_eq!(c.decide(true, 9, 5, 0), ClockDraw::Colon);
    assert_eq!(c.decide(true, 9, 6, 0), ClockDraw::Full);
    assert_eq!(c.decide(false, 0, 0, 59), ClockDraw::Full);
    assert_eq!(c.decide(false, 0, 0, 60), ClockDraw::Full);
    assert_eq!(c.decide(false, 0, 0, 119), ClockDraw::Led);
}

#[test]
fn joining_a_network() {
    assert_eq!(join_step(true, 0), JoinStep::Joined);
    assert_eq!(join_step(true, 20000), JoinStep::Joined);
    assert_eq!(join_step(false, 9999), JoinStep::Wait);
    assert_eq!(join_step(false, 10000), JoinStep::TimedOut);
}
