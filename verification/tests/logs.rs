use air_monitor::logbuf::{
    format_log_line, json_escape, marker, page, page_body, set_time_offsets, tail_json, LogLevel, RingLog,
    MAX_LINES,
};

#[test]
fn markers() {
    assert_eq!(marker(LogLevel::Error), "E");
    assert_eq!(marker(LogLevel::Warn), "W");
    assert_eq!(marker(LogLevel::Info), "I");
    assert_eq!(marker(LogLevel::Debug), "D");
    assert_eq!(marker(LogLevel::Trace), "V");
}

#[test]
fn log_line_layout() {
    assert_eq!(
        format_log_line(LogLevel::Info, Some((2024, 3, 5, 7, 8, 9)), 0, "air", "hello"),
        "I [2024-03-05 07:08:09] air: hello"
    );
    assert_eq!(format_log_line(LogLevel::Error, None, 1234, "wifi", "down"), "E [up 1234ms] wifi: down");
    assert_eq!(format_log_line(LogLevel::Warn, Some((12345, 10, 31, 23, 59, 0)), 0, "", ""), "W [12345-10-31 23:59:00] : ");
}

#[test]
fn json_escaping() {
    assert_eq!(json_escape("plain"), "\"plain\"");
    assert_eq!(json_escape("a\"b\\c\nd\re\tf"), "\"a\\\"b\\\\c\\nd\\re\\tf\"");
    assert_eq!(json_escape("\u{1}\u{1f}"), "\"\\u0001\\u001f\"");
    assert_eq!(json_escape("é€ "), "\"é€ \"");
    assert_eq!(json_escape(""), "\"\"");
}

fn read_json_literal(lit: &str) -> String {
    let body: Vec<char> = lit.chars().collect();
    assert_eq!(body.first(), Some(&'"'));
    assert_eq!(body.last(), Some(&'"'));
    let t = &body[1..body.len() - 1];
    let mut out = String::new();
    let mut i = 0;
    while i < t.len() {
        assert!(t[i] >= ' ');
        assert_ne!(t[i], '"');
        if t[i] == '\\' {
            match t[i + 1] {
                'u' => {
                    let hex: String = t[i + 2..i + 6].iter().collect();
                    out.push(char::from_u32(u32::from_str_radix(&hex, 16).unwrap()).unwrap());
                    i += 6;
                }
                'n' => {
                    out.push('\n');
                    i += 2;
                }
                'r' => {
                    out.push('\r');
                    i += 2;
                }
                't' => {
                    out.push('\t');
                    i += 2;
                }
                c => {
                    out.push(c);
                    i += 2;
                }
            }
        } else {
            out.push(t[i]);
            i += 1;
        }
    }
    out
}

#[test]
fn json_escape_reads_back() {
    for s in ["", "plain", "q\"b\\s", "l1\nl2\r\t", "\u{0}\u{7}\u{1b}", "\u{7f} \u{20ac}"] {
        assert_eq!(read_json_literal(&json_escape(s)), s);
    }
}

fn logged(n: usize) -> RingLog {
    let mut log = RingLog::new();
    for i in 0..n {
        log.push_line(format!("line {}", i));
    }
    log
}

#[test]
fn empty_tail_reports_next_id() {
    let log = RingLog::new();
    assert_eq!(tail_json(&log, 0), "{\"last\":0,\"lines\":[]}");
}

#[test]
fn tail_lists_lines_after_id() {
    let log = logged(4);
    assert_eq!(tail_json(&log, 1), "{\"last\":3,\"lines\":[\"line 2\",\"line 3\"]}");
    assert_eq!(tail_json(&log, 3), "{\"last\":3,\"lines\":[]}");
    // The line with id 0 is never newer than any `after`.
    assert_eq!(tail_json(&log, 0), "{\"last\":3,\"lines\":[\"line 1\",\"line 2\",\"line 3\"]}");
}

#[test]
fn tail_after_last_shows_exactly_new_lines() {
    let mut log = logged(10);
    let last = 9;
    log.push_line("new \"one\"".to_string());
    log.push_line("new two".to_string());
    assert_eq!(tail_json(&log, last), "{\"last\":11,\"lines\":[\"new \\\"one\\\"\",\"new two\"]}");
}

#[test]
fn ring_keeps_latest_lines() {
    let log = logged(MAX_LINES + 5);
    assert_eq!(log.len(), MAX_LINES);
    let j = tail_json(&log, 0);
    assert!(j.starts_with("{\"last\":304,\"lines\":[\"line 5\","));
    assert!(!j.contains("\"line 4\""));
}

#[test]
fn ring_ids_increase_and_stay_below_next() {
    let mut log = RingLog::new();
    let ids: Vec<u64> = (0..310).map(|i| log.push_line(format!("l{}", i))).collect();
    assert!(ids.windows(2).all(|w| w[0] < w[1]));
    assert_eq!(ids[309], 309);
    assert_eq!(tail_json(&log, 308), "{\"last\":309,\"lines\":[\"l309\"]}");
}

#[test]
fn push_returns_consecutive_ids() {
    let mut log = RingLog::new();
    assert_eq!(log.push_line("a".to_string()), 0);
    assert_eq!(log.push_line("b".to_string()), 1);
}

#[test]
fn logging_stamps_with_offsets() {
    let mut log = RingLog::new();
    set_time_offsets(&mut log, 3600, 0);
    assert_eq!(log.time_offsets(), (3600, 0));
    let line = log.log(LogLevel::Info, 1_700_000_000, 5, "main", "boot");
    assert_eq!(line, "I [2023-11-14 23:13:20] main: boot");
    let line = log.log(LogLevel::Warn, 0, 5, "main", "no clock");
    assert_eq!(line, "W [up 5ms] main: no clock");
    assert_eq!(tail_json(&log, 0), "{\"last\":1,\"lines\":[\"W [up 5ms] main: no clock\"]}");
}

#[test]
fn log_page_contains_body() {
    let p = page();
    assert!(p.starts_with("<!DOCTYPE html>"));
    assert!(p.contains(&page_body()));
    assert!(p.contains("<title>Air Monitor Logs</title>"));
    assert!(p.contains("body{font-family:monospace;"));
    assert!(p.contains("\u{2190} Back"));
    assert!(p.ends_with("</body></html>"));
    assert!(page_body().contains("fetch('/logs/tail?after=' + last)"));
}
