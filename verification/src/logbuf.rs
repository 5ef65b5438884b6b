//! The in-memory log ring behind the `/logs` page: timestamped log lines, the
//! incremental JSON tail that the page polls, and the page itself.

use vstd::prelude::*;

use crate::calendar::{civil_from_days, days_from_civil, floor_div_mod, valid_date};
use crate::text::{dec, dec_padded, push_char, push_dec, push_dec_padded};

verus! {

/// How many lines the ring keeps.
pub const MAX_LINES: usize = 300;

/// Severity of a log record.
#[derive(Clone, Copy, Debug, PartialEq, Eq, Structural)]
pub enum LogLevel {
    Error,
    Warn,
    Info,
    Debug,
    Trace,
}

/// The one-letter tag of a level, as ESP-IDF prints it.
pub open spec fn marker_spec(level: LogLevel) -> Seq<char> {
    match level {
        LogLevel::Error => "E"@,
        LogLevel::Warn => "W"@,
        LogLevel::Info => "I"@,
        LogLevel::Debug => "D"@,
        LogLevel::Trace => "V"@,
    }
}

/// The one-letter tag of a level: E, W, I, D, or V for trace.
pub fn marker(level: LogLevel) -> (m: &'static str)
    ensures
        m@ == marker_spec(level),
{
    match level {
        LogLevel::Error => "E",
        LogLevel::Warn => "W",
        LogLevel::Info => "I",
        LogLevel::Debug => "D",
        LogLevel::Trace => "V",
    }
}

/// The wall-clock reading of a given calendar date and second of the day:
/// `None` before 2020, which is taken to mean that the clock is not set yet.
pub open spec fn wall_reading(y: int, m: int, d: int, sod: int) -> Option<
    (u32, u32, u32, u32, u32, u32),
> {
    if y < 2020 {
        None
    } else {
        Some(
            (
                y as u32,
                m as u32,
                d as u32,
                (sod / 3600) as u32,
                (sod % 3600 / 60) as u32,
                (sod % 60) as u32,
            ),
        )
    }
}

/// Local date and time (year, month, day, hour, minute, second) of the Unix
/// time `now_s` shifted by the zone offset `gmt_off` and the daylight-saving
/// offset `dst_off` (both in seconds). `None` when the clock reads zero (not
/// read) or the date lies before 2020 (not synchronised yet).
pub fn get_wall_time(now_s: i64, gmt_off: i32, dst_off: i32) -> (r: Option<
    (u32, u32, u32, u32, u32, u32),
>)
    requires
        i64::MIN <= now_s + gmt_off <= i64::MAX,
        i64::MIN <= now_s + gmt_off + dst_off <= i64::MAX,
    ensures
        now_s == 0 ==> r is None,
        now_s != 0 ==> ({
            let shifted = now_s + gmt_off + dst_off;
            exists|y: int, m: int, d: int|
                #![trigger days_from_civil(y, m, d)]
                valid_date(y, m, d) && days_from_civil(y, m, d) == shifted / 86400 && r
                    == wall_reading(y, m, d, shifted % 86400)
        }),
{
    if now_s == 0 {
        return None;
    }
    let shifted = now_s + gmt_off as i64 + dst_off as i64;
    let (days, sod) = floor_div_mod(shifted, 86400);
    let hour = (sod / 3600) as u32;
    let minute = ((sod % 3600) / 60) as u32;
    let second = (sod % 60) as u32;
    let (y, m, d) = civil_from_days(days);
    let r = if y < 2020 {
        None
    } else {
        Some((y as u32, m, d, hour, minute, second))
    };
    assert(r == wall_reading(y as int, m as int, d as int, shifted as int % 86400));
    r
}

/// The time field of a log line: the local date and time when known,
/// otherwise the milliseconds since boot.
pub open spec fn time_text(wall: Option<(u32, u32, u32, u32, u32, u32)>, uptime_ms: u32) -> Seq<
    char,
> {
    match wall {
        Some((y, mo, d, h, mi, s)) => dec_padded(y as nat, 4) + seq!['-'] + dec_padded(mo as nat, 2)
            + seq!['-'] + dec_padded(d as nat, 2) + seq![' '] + dec_padded(h as nat, 2) + seq![':']
            + dec_padded(mi as nat, 2) + seq![':'] + dec_padded(s as nat, 2),
        None => "up "@ + dec(uptime_ms as nat) + "ms"@,
    }
}

/// A complete log line: `<marker> [<time>] <target>: <message>`.
pub open spec fn log_line_text(
    level: LogLevel,
    wall: Option<(u32, u32, u32, u32, u32, u32)>,
    uptime_ms: u32,
    target: Seq<char>,
    msg: Seq<char>,
) -> Seq<char> {
    marker_spec(level) + " ["@ + time_text(wall, uptime_ms) + "] "@ + target + ": "@ + msg
}

/// Formats a log line: level tag, local time `YYYY-MM-DD hh:mm:ss` (or
/// `up <ms>ms` before the clock is set), the record's target and message.
pub fn format_log_line(
    level: LogLevel,
    wall: Option<(u32, u32, u32, u32, u32, u32)>,
    uptime_ms: u32,
    target: &str,
    msg: &str,
) -> (line: String)
    ensures
        line@ == log_line_text(level, wall, uptime_ms, target@, msg@),
{
    let mut out = String::new();
    out.append(marker(level));
    out.append(" [");
    match wall {
        Some((y, mo, d, h, mi, s)) => {
            push_dec_padded(&mut out, y as u64, 4);
            push_char(&mut out, '-');
            push_dec_padded(&mut out, mo as u64, 2);
            push_char(&mut out, '-');
            push_dec_padded(&mut out, d as u64, 2);
            push_char(&mut out, ' ');
            push_dec_padded(&mut out, h as u64, 2);
            push_char(&mut out, ':');
            push_dec_padded(&mut out, mi as u64, 2);
            push_char(&mut out, ':');
            push_dec_padded(&mut out, s as u64, 2);
        },
        None => {
            out.append("up ");
            push_dec(&mut out, uptime_ms as u64);
            out.append("ms");
        },
    }
    out.append("] ");
    out.append(target);
    out.append(": ");
    out.append(msg);
    assert(out@ =~= log_line_text(level, wall, uptime_ms, target@, msg@));
    out
}

/// Lower-case hexadecimal digit of `v` (0..=15).
pub open spec fn hex_digit(v: int) -> char {
    if v < 10 {
        (v + 48) as char
    } else {
        (v + 87) as char
    }
}

/// How one character appears inside a JSON string literal.
pub open spec fn escape_char(c: char) -> Seq<char> {
    if c == '"' {
        "\\\""@
    } else if c == '\\' {
        "\\\\"@
    } else if c == '\n' {
        "\\n"@
    } else if c == '\r' {
        "\\r"@
    } else if c == '\t' {
        "\\t"@
    } else if (c as u32) < 0x20 {
        "\\u00"@ + seq![hex_digit(c as int / 16), hex_digit(c as int % 16)]
    } else {
        seq![c]
    }
}

/// The escaped characters of `s`, without the surrounding quotes.
pub open spec fn escape_chars(s: Seq<char>) -> Seq<char>
    decreases s.len(),
{
    if s.len() == 0 {
        Seq::empty()
    } else {
        escape_chars(s.drop_last()) + escape_char(s.last())
    }
}

/// `s` as a JSON string literal.
pub open spec fn json_escape_spec(s: Seq<char>) -> Seq<char> {
    seq!['"'] + escape_chars(s) + seq!['"']
}

fn hex_char(v: u32) -> (c: char)
    requires
        v < 16,
    ensures
        c == hex_digit(v as int),
{
    let c: char = if v == 0 {
        '0'
    } else if v == 1 {
        '1'
    } else if v == 2 {
        '2'
    } else if v == 3 {
        '3'
    } else if v == 4 {
        '4'
    } else if v == 5 {
        '5'
    } else if v == 6 {
        '6'
    } else if v == 7 {
        '7'
    } else if v == 8 {
        '8'
    } else if v == 9 {
        '9'
    } else if v == 10 {
        'a'
    } else if v == 11 {
        'b'
    } else if v == 12 {
        'c'
    } else if v == 13 {
        'd'
    } else if v == 14 {
        'e'
    } else {
        'f'
    };
    c
}

/// Appends the JSON string literal of `s` (quotes included) to `out`.
fn push_json_escaped(out: &mut String, s: &str)
    ensures
        final(out)@ == old(out)@ + json_escape_spec(s@),
{
    let ghost start = out@;
    push_char(out, '"');
    let n = s.unicode_len();
    let mut i: usize = 0;
    while i < n
        invariant
            n == s@.len(),
            i <= n,
            out@ == start + seq!['"'] + escape_chars(s@.take(i as int)),
        decreases n - i,
    {
        let c = s.get_char(i);
        let ghost before = out@;
        if c == '"' {
            out.append("\\\"");
        } else if c == '\\' {
            out.append("\\\\");
        } else if c == '\n' {
            out.append("\\n");
        } else if c == '\r' {
            out.append("\\r");
        } else if c == '\t' {
            out.append("\\t");
        } else if (c as u32) < 0x20 {
            out.append("\\u00");
            push_char(out, hex_char(c as u32 / 16));
            push_char(out, hex_char(c as u32 % 16));
            assert(out@ =~= before + escape_char(c));
        } else {
            push_char(out, c);
        }
        assert(s@.take(i + 1).drop_last() =~= s@.take(i as int));
        assert(out@ =~= start + seq!['"'] + escape_chars(s@.take(i + 1)));
        i = i + 1;
    }
    assert(s@.take(n as int) =~= s@);
    push_char(out, '"');
    assert(out@ =~= old(out)@ + json_escape_spec(s@));
}

/// JSON-escapes a string, producing a `"..."` literal: quote, backslash,
/// newline, carriage return and tab get their short escapes, other control
/// characters become `\u00XX`, everything else is kept.
pub fn json_escape(s: &str) -> (out: String)
    ensures
        out@ == json_escape_spec(s@),
{
    let mut out = String::new();
    push_json_escaped(&mut out, s);
    out
}

/// Whether `c` is a hexadecimal digit (either case).
pub open spec fn is_hex_char(c: char) -> bool {
    ('0' <= c <= '9') || ('a' <= c <= 'f') || ('A' <= c <= 'F')
}

/// The value of a hexadecimal digit character.
pub open spec fn hex_char_value(c: char) -> int {
    if c <= '9' {
        c as int - 48
    } else if c <= 'F' {
        c as int - 55
    } else {
        c as int - 87
    }
}

/// Whether `e` may follow a backslash as a short escape in JSON.
pub open spec fn is_short_escape(e: char) -> bool {
    e == '"' || e == '\\' || e == '/' || e == 'b' || e == 'f' || e == 'n' || e == 'r' || e == 't'
}

/// The character a short escape stands for.
pub open spec fn short_escape_char(e: char) -> char {
    if e == 'b' {
        '\u{8}'
    } else if e == 'f' {
        '\u{c}'
    } else if e == 'n' {
        '\n'
    } else if e == 'r' {
        '\r'
    } else if e == 't' {
        '\t'
    } else {
        e
    }
}

/// Whether `t` is a well-formed body of a JSON string literal: characters
/// other than quote, backslash and control characters, short escapes, and
/// `\u` escapes with four hexadecimal digits.
pub open spec fn json_body_ok(t: Seq<char>) -> bool
    decreases t.len(),
{
    if t.len() == 0 {
        true
    } else if t[0] == '\\' {
        if t.len() >= 6 && t[1] == 'u' {
            is_hex_char(t[2]) && is_hex_char(t[3]) && is_hex_char(t[4]) && is_hex_char(t[5]) && json_body_ok(
                t.skip(6),
            )
        } else {
            t.len() >= 2 && is_short_escape(t[1]) && json_body_ok(t.skip(2))
        }
    } else {
        t[0] != '"' && t[0] as u32 >= 0x20 && json_body_ok(t.skip(1))
    }
}

/// The characters a JSON parser reads from the body `t` of a string literal.
pub open spec fn json_unescape(t: Seq<char>) -> Seq<char>
    decreases t.len(),
{
    if t.len() == 0 {
        Seq::empty()
    } else if t[0] == '\\' && t.len() >= 6 && t[1] == 'u' {
        seq![
            ((hex_char_value(t[2]) * 4096 + hex_char_value(t[3]) * 256 + hex_char_value(t[4]) * 16
                + hex_char_value(t[5])) as u32) as char,
        ] + json_unescape(t.skip(6))
    } else if t[0] == '\\' && t.len() >= 2 {
        seq![short_escape_char(t[1])] + json_unescape(t.skip(2))
    } else {
        seq![t[0]] + json_unescape(t.skip(1))
    }
}

proof fn lemma_escape_chars_front(s: Seq<char>)
    requires
        s.len() > 0,
    ensures
        escape_chars(s) == escape_char(s[0]) + escape_chars(s.drop_first()),
    decreases s.len(),
{
    if s.len() == 1 {
        assert(s.drop_last() =~= Seq::<char>::empty());
        assert(s.drop_first() =~= Seq::<char>::empty());
        assert(escape_chars(s.drop_last()) == Seq::<char>::empty());
        assert(s.last() == s[0]);
        assert(escape_chars(s) =~= escape_char(s[0]));
    } else {
        let p = s.drop_last();
        lemma_escape_chars_front(p);
        assert(p.drop_first() =~= s.drop_first().drop_last());
        assert(s.drop_first().last() == s.last());
        assert(escape_chars(s) =~= escape_char(s[0]) + escape_chars(s.drop_first()));
    }
}

proof fn lemma_escape_char_reads_back(c: char, r: Seq<char>)
    ensures
        json_unescape(escape_char(c) + r) == seq![c] + json_unescape(r),
        json_body_ok(escape_char(c) + r) == json_body_ok(r),
{
    reveal_strlit("\\\"");
    reveal_strlit("\\\\");
    reveal_strlit("\\n");
    reveal_strlit("\\r");
    reveal_strlit("\\t");
    reveal_strlit("\\u00");
    let t = escape_char(c) + r;
    let e = escape_char(c);
    if c == '"' || c == '\\' || c == '\n' || c == '\r' || c == '\t' {
        assert(e.len() == 2);
        assert(t.skip(2) =~= r);
        assert(t[0] == '\\');
        assert(t[1] != 'u');
    } else if (c as u32) < 0x20 {
        let v = c as u32;
        assert(e.len() == 6);
        assert(t.skip(6) =~= r);
        assert(t[1] == 'u' && t[2] == '0' && t[3] == '0');
        assert(hex_char_value(t[4]) == v / 16);
        assert(hex_char_value(t[5]) == v % 16);
        assert((0 * 4096 + 0 * 256 + (v / 16) as int * 16 + (v % 16) as int) as u32 == v);
        vstd::utf8::char_u32_cast(c, v);
    } else {
        assert(e =~= seq![c]);
        assert(t.skip(1) =~= r);
        assert(t[0] == c);
    }
}

proof fn lemma_escape_chars_reads_back(s: Seq<char>, r: Seq<char>)
    ensures
        json_unescape(escape_chars(s) + r) == s + json_unescape(r),
        json_body_ok(escape_chars(s) + r) == json_body_ok(r),
    decreases s.len(),
{
    if s.len() == 0 {
        assert(escape_chars(s) + r =~= r);
        assert(s + json_unescape(r) =~= json_unescape(r));
    } else {
        let rest = s.drop_first();
        lemma_escape_chars_front(s);
        lemma_escape_chars_reads_back(rest, r);
        lemma_escape_char_reads_back(s[0], escape_chars(rest) + r);
        assert(escape_chars(s) + r =~= escape_char(s[0]) + (escape_chars(rest) + r));
        assert(seq![s[0]] + (rest + json_unescape(r)) =~= s + json_unescape(r));
    }
}

/// A JSON-escaped text is a well-formed JSON string literal whose value is
/// the text: a JSON parser reads every log line back unchanged.
pub proof fn lemma_json_escape_reads_back(s: Seq<char>)
    ensures
        json_escape_spec(s) == seq!['"'] + escape_chars(s) + seq!['"'],
        json_body_ok(escape_chars(s)),
        json_unescape(escape_chars(s)) == s,
{
    lemma_escape_chars_reads_back(s, Seq::empty());
    assert(escape_chars(s) + Seq::<char>::empty() =~= escape_chars(s));
    assert(s + Seq::<char>::empty() =~= s);
}

/// The ring after one more line with id `id` is kept: the oldest line leaves
/// once the ring holds `MAX_LINES`.
pub open spec fn ring_push(entries: Seq<(u64, Seq<char>)>, id: u64, text: Seq<char>) -> Seq<
    (u64, Seq<char>),
> {
    if entries.len() >= MAX_LINES {
        entries.drop_first().push((id, text))
    } else {
        entries.push((id, text))
    }
}

/// The texts of the lines whose id is strictly greater than `after`, oldest
/// first.
pub open spec fn tail_lines(entries: Seq<(u64, Seq<char>)>, after: u64) -> Seq<Seq<char>>
    decreases entries.len(),
{
    if entries.len() == 0 {
        Seq::empty()
    } else {
        let rest = tail_lines(entries.drop_last(), after);
        if entries.last().0 > after {
            rest.push(entries.last().1)
        } else {
            rest
        }
    }
}

/// The `last` field of a tail reply: the id of the newest line, or the next id
/// to be handed out while the ring is empty.
pub open spec fn tail_last(entries: Seq<(u64, Seq<char>)>, next_id: u64) -> u64 {
    if entries.len() == 0 {
        next_id
    } else {
        entries.last().0
    }
}

/// JSON string literals joined by commas.
pub open spec fn join_escaped(items: Seq<Seq<char>>) -> Seq<char>
    decreases items.len(),
{
    if items.len() == 0 {
        Seq::empty()
    } else if items.len() == 1 {
        json_escape_spec(items[0])
    } else {
        join_escaped(items.drop_last()) + seq![','] + json_escape_spec(items.last())
    }
}

/// The reply of the tail endpoint: `{"last":<id>,"lines":[...]}`.
pub open spec fn tail_json_text(last: u64, items: Seq<Seq<char>>) -> Seq<char> {
    "{\"last\":"@ + dec(last as nat) + ",\"lines\":["@ + join_escaped(items) + "]}"@
}

/// The log ring: the most recent lines with their ids, the next id to hand
/// out, and the time offsets used to stamp new lines.
pub struct RingLog {
    lines: Vec<(u64, String)>,
    next_id: u64,
    gmt_off: i32,
    dst_off: i32,
}

impl RingLog {
    /// The kept lines, oldest first, as (id, text).
    pub closed spec fn entries(&self) -> Seq<(u64, Seq<char>)> {
        self.lines@.map_values(|p: (u64, String)| (p.0, p.1@))
    }

    /// The id the next line will get.
    pub closed spec fn next_line_id(&self) -> u64 {
        self.next_id
    }

    /// The zone offset (seconds) used to stamp lines.
    pub closed spec fn gmt_offset(&self) -> i32 {
        self.gmt_off
    }

    /// The daylight-saving offset (seconds) used to stamp lines.
    pub closed spec fn dst_offset(&self) -> i32 {
        self.dst_off
    }

    /// The ring holds at most `MAX_LINES` lines, whose ids count up by one
    /// (modulo 2^64) and end just before `next_line_id`.
    pub closed spec fn wf(&self) -> bool {
        &&& self.lines@.len() <= MAX_LINES
        &&& forall|i: int|
            0 <= i < self.lines@.len() ==> #[trigger] self.lines@[i].0 as int == (self.next_id
                as int - self.lines@.len() + i) % 0x1_0000_0000_0000_0000
    }

    /// An empty ring; ids start at 0 and the offsets at 0.
    pub fn new() -> (log: RingLog)
        ensures
            log.wf(),
            log.entries() == Seq::<(u64, Seq<char>)>::empty(),
            log.next_line_id() == 0,
            log.gmt_offset() == 0,
            log.dst_offset() == 0,
    {
        let log = RingLog { lines: Vec::new(), next_id: 0, gmt_off: 0, dst_off: 0 };
        assert(log.entries() =~= Seq::<(u64, Seq<char>)>::empty());
        log
    }

    /// The zone and daylight-saving offsets currently used to stamp lines.
    pub fn time_offsets(&self) -> (r: (i32, i32))
        ensures
            r == (self.gmt_offset(), self.dst_offset()),
    {
        (self.gmt_off, self.dst_off)
    }

    /// Number of lines kept.
    pub fn len(&self) -> (n: usize)
        ensures
            n == self.entries().len(),
    {
        self.lines.len()
    }

    /// Keeps `text` as the newest line under the next id, dropping the oldest
    /// line when the ring is full; returns the id given.
    pub fn push_line(&mut self, text: String) -> (id: u64)
        requires
            old(self).wf(),
        ensures
            final(self).wf(),
            id == old(self).next_line_id(),
            final(self).entries() == ring_push(old(self).entries(), id, text@),
            final(self).next_line_id() == old(self).next_line_id().wrapping_add(1),
            final(self).gmt_offset() == old(self).gmt_offset(),
            final(self).dst_offset() == old(self).dst_offset(),
    {
        let id = self.next_id;
        let ghost before = self.lines@;
        if self.lines.len() >= MAX_LINES {
            self.lines.remove(0);
        }
        self.lines.push((id, text));
        self.next_id = self.next_id.wrapping_add(1);
        proof {
            let m = 0x1_0000_0000_0000_0000int;
            assert forall|i: int| 0 <= i < self.lines@.len() implies #[trigger] self.lines@[i].0 as int
                == (self.next_id as int - self.lines@.len() + i) % m by {
                if i == self.lines@.len() - 1 {
                    assert(self.lines@[i].0 == id);
                    assert((id as int) % m == id as int);
                } else {
                    let j = if before.len() >= MAX_LINES { i + 1 } else { i };
                    assert(self.lines@[i] == before[j]);
                    assert(before[j].0 as int == (id as int - before.len() + j) % m);
                    let x = self.next_id as int - self.lines@.len() + i;
                    let y = id as int - before.len() + j;
                    if id as int + 1 < m {
                        assert(x == y);
                    } else {
                        assert(x == y - m);
                        assert(x % m == y % m) by (nonlinear_arith)
                            requires
                                x == y - m,
                                m > 0,
                        ;
                    }
                }
            }
            assert(self.entries() =~= ring_push(
                before.map_values(|p: (u64, String)| (p.0, p.1@)),
                id,
                text@,
            ));
        }
        id
    }

    /// Formats a record as a log line (see `format_log_line`), stamped with the
    /// wall time of `now_s` under the ring's offsets, and keeps it as the
    /// newest line. Returns the line, for echoing to the console.
    pub fn log(
        &mut self,
        level: LogLevel,
        now_s: i64,
        uptime_ms: u32,
        target: &str,
        msg: &str,
    ) -> (line: String)
        requires
            old(self).wf(),
            i64::MIN <= now_s + old(self).gmt_offset() <= i64::MAX,
            i64::MIN <= now_s + old(self).gmt_offset() + old(self).dst_offset() <= i64::MAX,
        ensures
            final(self).wf(),
            final(self).gmt_offset() == old(self).gmt_offset(),
            final(self).dst_offset() == old(self).dst_offset(),
            final(self).next_line_id() == old(self).next_line_id().wrapping_add(1),
            final(self).entries() == ring_push(old(self).entries(), old(self).next_line_id(), line@),
            exists|wall: Option<(u32, u32, u32, u32, u32, u32)>|
                line@ == log_line_text(level, wall, uptime_ms, target@, msg@) && (now_s == 0
                    ==> wall is None) && (now_s != 0 ==> ({
                    let shifted = now_s + old(self).gmt_offset() + old(self).dst_offset();
                    exists|y: int, m: int, d: int|
                        #![trigger days_from_civil(y, m, d)]
                        valid_date(y, m, d) && days_from_civil(y, m, d) == shifted / 86400 && wall
                            == wall_reading(y, m, d, shifted % 86400)
                })),
    {
        let wall = get_wall_time(now_s, self.gmt_off, self.dst_off);
        let line = format_log_line(level, wall, uptime_ms, target, msg);
        let kept = line.clone();
        self.push_line(kept);
        line
    }
}

/// Sets the zone and daylight-saving offsets (seconds) used to stamp the
/// lines logged from now on.
pub fn set_time_offsets(log: &mut RingLog, gmt: i32, dst: i32)
    requires
        old(log).wf(),
    ensures
        final(log).wf(),
        final(log).entries() == old(log).entries(),
        final(log).next_line_id() == old(log).next_line_id(),
        final(log).gmt_offset() == gmt,
        final(log).dst_offset() == dst,
{
    log.gmt_off = gmt;
    log.dst_off = dst;
}

/// The tail of the ring as `{"last": <id>, "lines": ["...", ...]}`. Only lines
/// with id strictly greater than `after` are returned, so the web UI can
/// append just the new entries on each poll instead of redrawing all.
pub fn tail_json(log: &RingLog, after: u64) -> (json: String)
    ensures
        json@ == tail_json_text(
            tail_last(log.entries(), log.next_line_id()),
            tail_lines(log.entries(), after),
        ),
{
    let ghost es = log.entries();
    let mut body = String::new();
    let mut count: usize = 0;
    let mut last = log.next_id;
    let n = log.lines.len();
    let mut i: usize = 0;
    while i < n
        invariant
            n == log.lines@.len(),
            es == log.entries(),
            i <= n,
            count == tail_lines(es.take(i as int), after).len(),
            count <= i,
            body@ == join_escaped(tail_lines(es.take(i as int), after)),
            last == tail_last(es.take(i as int), log.next_line_id()),
        decreases n - i,
    {
        let id = log.lines[i].0;
        assert(es.take(i + 1).drop_last() =~= es.take(i as int));
        assert(es[i as int] == (id, log.lines@[i as int].1@));
        if id > after {
            let ghost prev = tail_lines(es.take(i as int), after);
            if count > 0 {
                push_char(&mut body, ',');
            }
            push_json_escaped(&mut body, log.lines[i].1.as_str());
            count = count + 1;
            proof {
                let cur = tail_lines(es.take(i + 1), after);
                assert(cur == prev.push(es[i as int].1));
                assert(cur.drop_last() =~= prev);
            }
        }
        last = id;
        i = i + 1;
    }
    assert(es.take(n as int) =~= es);
    let mut out = String::new();
    out.append("{\"last\":");
    push_dec(&mut out, last);
    out.append(",\"lines\":[");
    out.append(body.as_str());
    out.append("]}");
    out
}

/// The entries after `new` are pushed one by one, the first under id `id`.
pub open spec fn ring_push_all(entries: Seq<(u64, Seq<char>)>, id: u64, new: Seq<Seq<char>>) -> Seq<
    (u64, Seq<char>),
>
    decreases new.len(),
{
    if new.len() == 0 {
        entries
    } else {
        ring_push(
            ring_push_all(entries, id, new.drop_last()),
            (id + new.len() - 1) as u64,
            new.last(),
        )
    }
}

proof fn lemma_tail_lines_append(a: Seq<(u64, Seq<char>)>, b: Seq<(u64, Seq<char>)>, after: u64)
    ensures
        tail_lines(a + b, after) == tail_lines(a, after) + tail_lines(b, after),
    decreases b.len(),
{
    if b.len() == 0 {
        assert(a + b =~= a);
        assert(tail_lines(a, after) + tail_lines(b, after) =~= tail_lines(a, after));
    } else {
        assert((a + b).drop_last() =~= a + b.drop_last());
        lemma_tail_lines_append(a, b.drop_last(), after);
        if b.last().0 > after {
            assert(tail_lines(a + b, after) =~= tail_lines(a, after) + tail_lines(b, after));
        } else {
            assert(tail_lines(a + b, after) =~= tail_lines(a, after) + tail_lines(b, after));
        }
    }
}

proof fn lemma_tail_lines_old(a: Seq<(u64, Seq<char>)>, after: u64)
    requires
        forall|j: int| 0 <= j < a.len() ==> (#[trigger] a[j]).0 <= after,
    ensures
        tail_lines(a, after) == Seq::<Seq<char>>::empty(),
    decreases a.len(),
{
    if a.len() > 0 {
        lemma_tail_lines_old(a.drop_last(), after);
    }
}

proof fn lemma_tail_lines_new(a: Seq<(u64, Seq<char>)>, after: u64, texts: Seq<Seq<char>>)
    requires
        a.len() == texts.len(),
        forall|j: int| 0 <= j < a.len() ==> (#[trigger] a[j]).0 > after && a[j].1 == texts[j],
    ensures
        tail_lines(a, after) == texts,
    decreases a.len(),
{
    if a.len() > 0 {
        lemma_tail_lines_new(a.drop_last(), after, texts.drop_last());
        assert(tail_lines(a, after) =~= texts);
    }
}

/// The shape of the ring while lines are pushed after a tail reply: older
/// lines keep ids up to `after`, and the last `new.len()` entries are the new
/// lines under consecutive ids from `id`.
proof fn lemma_ring_push_all_shape(
    entries: Seq<(u64, Seq<char>)>,
    id: u64,
    after: u64,
    new: Seq<Seq<char>>,
)
    requires
        entries.len() <= MAX_LINES,
        new.len() <= MAX_LINES,
        id > after,
        id + new.len() <= u64::MAX + 1,
        forall|j: int| 0 <= j < entries.len() ==> (#[trigger] entries[j]).0 <= after,
    ensures
        ({
            let r = ring_push_all(entries, id, new);
            &&& r.len() <= MAX_LINES
            &&& new.len() <= r.len()
            &&& forall|j: int| 0 <= j < r.len() - new.len() ==> (#[trigger] r[j]).0 <= after
            &&& forall|j: int|
                0 <= j < new.len() ==> #[trigger] r[r.len() - new.len() + j] == (
                    (id + j) as u64,
                    new[j],
                )
        }),
    decreases new.len(),
{
    if new.len() > 0 {
        let p = new.drop_last();
        lemma_ring_push_all_shape(entries, id, after, p);
        let q = ring_push_all(entries, id, p);
        let r = ring_push_all(entries, id, new);
        let k = new.len() - 1;
        assert(r == ring_push(q, (id + k) as u64, new.last()));
        if q.len() >= MAX_LINES {
            assert forall|j: int| 0 <= j < r.len() - new.len() implies (#[trigger] r[j]).0
                <= after by {
                assert(r[j] == q[j + 1]);
            }
            assert forall|j: int| 0 <= j < new.len() implies #[trigger] r[r.len() - new.len()
                + j] == ((id + j) as u64, new[j]) by {
                if j < k {
                    assert(r[r.len() - new.len() + j] == q[q.len() - p.len() + j]);
                    assert(p[j] == new[j]);
                }
            }
        } else {
            assert forall|j: int| 0 <= j < r.len() - new.len() implies (#[trigger] r[j]).0
                <= after by {
                assert(r[j] == q[j]);
            }
            assert forall|j: int| 0 <= j < new.len() implies #[trigger] r[r.len() - new.len()
                + j] == ((id + j) as u64, new[j]) by {
                if j < k {
                    assert(r[r.len() - new.len() + j] == q[q.len() - p.len() + j]);
                    assert(p[j] == new[j]);
                }
            }
        }
    }
}

/// A ring never holds more than `MAX_LINES` lines.
pub proof fn lemma_ring_bounded(log: &RingLog)
    requires
        log.wf(),
    ensures
        log.entries().len() <= MAX_LINES,
{
}

/// Until the ids wrap around (no more lines kept than ids handed out), the
/// ids of a ring count up by one from front to back, so they strictly
/// increase, and all lie below the id the next line will get.
pub proof fn lemma_ring_ids_ordered(log: &RingLog)
    requires
        log.wf(),
        log.entries().len() <= log.next_line_id(),
    ensures
        forall|i: int|
            0 <= i < log.entries().len() ==> #[trigger] log.entries()[i].0 == log.next_line_id()
                - log.entries().len() + i,
        forall|i: int, j: int|
            0 <= i < j < log.entries().len() ==> #[trigger] log.entries()[i].0 < #[trigger] log.entries()[j].0,
        forall|i: int| 0 <= i < log.entries().len() ==> #[trigger] log.entries()[i].0 < log.next_line_id(),
{
    let n = log.lines@.len();
    assert forall|i: int| 0 <= i < log.entries().len() implies #[trigger] log.entries()[i].0 == log.next_line_id()
        - log.entries().len() + i by {
        assert(log.entries()[i].0 == log.lines@[i].0);
        assert(log.lines@[i].0 as int == (log.next_id as int - n + i) % 0x1_0000_0000_0000_0000);
        assert(0 <= log.next_id as int - n + i < 0x1_0000_0000_0000_0000);
    }
}

/// What the log page relies on: after a tail reply whose `last` field is
/// `tail_last` of a non-empty ring, any up to `MAX_LINES` lines logged since
/// are exactly what the next tail reply for that `last` lists, in order
/// (as long as ids have not wrapped around).
pub proof fn lemma_tail_shows_new_lines(log: &RingLog, new: Seq<Seq<char>>)
    requires
        log.wf(),
        log.entries().len() > 0,
        log.entries().len() <= log.next_line_id(),
        new.len() <= MAX_LINES,
        log.next_line_id() + new.len() <= u64::MAX + 1,
    ensures
        tail_lines(
            ring_push_all(log.entries(), log.next_line_id(), new),
            tail_last(log.entries(), log.next_line_id()),
        ) == new,
{
    let e = log.entries();
    let id = log.next_line_id();
    let after = tail_last(e, id);
    let m = 0x1_0000_0000_0000_0000int;
    assert forall|j: int| 0 <= j < e.len() implies (#[trigger] e[j]).0 as int == id - e.len() + j by {
        assert(e[j].0 == log.lines@[j].0);
        assert(log.lines@[j].0 as int == (id as int - e.len() + j) % m);
        assert(0 <= id as int - e.len() + j < m);
    }
    assert(after == id - 1);
    lemma_ring_push_all_shape(e, id, after, new);
    let r = ring_push_all(e, id, new);
    let split = r.len() - new.len();
    assert(r =~= r.subrange(0, split) + r.subrange(split, r.len() as int));
    lemma_tail_lines_append(r.subrange(0, split), r.subrange(split, r.len() as int), after);
    lemma_tail_lines_old(r.subrange(0, split), after);
    assert forall|j: int| 0 <= j < new.len() implies (#[trigger] r.subrange(split, r.len() as int)[j]).0
        > after && r.subrange(split, r.len() as int)[j].1 == new[j] by {
        assert(r.subrange(split, r.len() as int)[j] == r[split + j]);
    }
    lemma_tail_lines_new(r.subrange(split, r.len() as int), after, new);
    assert(Seq::<Seq<char>>::empty() + new =~= new);
}

/// The body of the log page: a live view that polls `/logs/tail` every two
/// seconds and appends the new lines.
pub const LOGS_PAGE_BODY: &'static str = r#"<h1>Monitoring Logs</h1>
<p id="meta">following live…, no auto page reload</p>
<pre id="log"></pre>
<script>
(function () {
  var last = 0;
  var pre = document.getElementById('log');
  var meta = document.getElementById('meta');
  function nearBottom() {
    return window.innerHeight + window.pageYOffset >= document.body.scrollHeight - 60;
  }
  function append(lines) {
    var stick = nearBottom();
    pre.textContent += lines.join('\n') + (lines.length ? '\n' : '');
    meta.textContent = 'lines: ' + pre.textContent.split('\n').filter(Boolean).length;
    if (stick) window.scrollTo(0, document.body.scrollHeight);
  }
  function poll() {
    fetch('/logs/tail?after=' + last)
      .then(function (r) { return r.json(); })
      .then(function (d) {
        if (d.lines && d.lines.length) append(d.lines);
        last = d.last;
        meta.textContent = 'live · last ' + last;
      })
      .catch(function () {
        meta.textContent = 'live · (offline, retrying)';
      });
  }
  poll();
  setInterval(poll, 2000);
})();
</script>"#;

/// The page around the body: head, style and a link back to the dashboard.
pub const LOGS_PAGE_HEAD: &'static str = "<!DOCTYPE html><html><head><meta charset=\"UTF-8\"><meta name=\"viewport\" content=\"width=device-width, initial-scale=1\"><title>Air Monitor Logs</title><style>body{font-family:monospace;background:#111;color:#ddd;padding:10px;font-size:12px;}h1{font-size:16px;color:#8af;}a{color:#8af;}pre{white-space:pre-wrap;word-break:break-all;}</style></head><body><a href=\"/\">\u{2190} Back</a>";

/// The end of the log page.
pub const LOGS_PAGE_TAIL: &'static str = "</body></html>";

/// The body of the log page.
pub fn page_body() -> (body: String)
    ensures
        body@ == LOGS_PAGE_BODY@,
{
    String::from_str(LOGS_PAGE_BODY)
}

/// The complete log page.
pub fn page() -> (html: String)
    ensures
        html@ == LOGS_PAGE_HEAD@ + LOGS_PAGE_BODY@ + LOGS_PAGE_TAIL@,
{
    let mut out = String::from_str(LOGS_PAGE_HEAD);
    let body = page_body();
    out.append(body.as_str());
    out.append(LOGS_PAGE_TAIL);
    out
}

} // verus!
