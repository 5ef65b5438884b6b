//! Screen layout of the 128x160 panel: what each screen region shows, as a
//! list of drawing operations that the firmware renders on the panel.

use vstd::prelude::*;

use crate::sensors::{pm_level, pm_level_spec};
use crate::text::{dec, dec_padded, push_char, push_dec, push_dec_padded, str_eq};

verus! {

/// Colours of the user interface (the panel takes BGR order; the firmware
/// maps each to its panel value).
#[derive(Clone, Copy, Debug, PartialEq, Eq, Structural)]
pub enum Color {
    Black,
    White,
    Green,
    Red,
    Cyan,
    Orange,
    Yellow,
    Gray,
    GraphBorder,
    GraphDots,
}

/// One drawing operation.
pub enum DrawOp {
    /// Fill the whole screen with black.
    ClearScreen,
    /// Fill a rectangle with black (width and height taken as unsigned).
    Clear { x: i32, y: i32, w: i32, h: i32 },
    /// Fill a rectangle with a colour.
    Fill { x: i32, y: i32, w: u32, h: u32, color: Color },
    /// Outline a rectangle, one pixel wide.
    Frame { x: i32, y: i32, w: u32, h: u32, color: Color },
    /// Outline a rectangle with rounded corners.
    RoundedFrame { x: i32, y: i32, w: u32, h: u32, radius: u32, stroke: u32, color: Color },
    /// Text on black, with its top-left corner at (x, y), in font size 1
    /// (5x7), 2 (9x15 bold) or 3 (10x20).
    Text { x: i32, y: i32, text: String, color: Color, size: u32 },
    /// A filled circle of the given diameter with its top-left at (x, y).
    Dot { x: i32, y: i32, diameter: u32, color: Color },
    /// A 1-pixel line of the CO2 graph from the point at column `x1` with
    /// value `v1` to the point at column `x2` with value `v2`; values are ppm
    /// above 400, at most 1600, and a value `v` lies on the row
    /// `base_y - v / 1600 * span` (the scaling is done in floating point by
    /// the firmware).
    GraphLine { x1: i32, v1: i32, x2: i32, v2: i32, base_y: i32, span: i32, color: Color },
}

/// A drawing operation as values.
pub enum DrawOpView {
    ClearScreen,
    Clear { x: i32, y: i32, w: i32, h: i32 },
    Fill { x: i32, y: i32, w: u32, h: u32, color: Color },
    Frame { x: i32, y: i32, w: u32, h: u32, color: Color },
    RoundedFrame { x: i32, y: i32, w: u32, h: u32, radius: u32, stroke: u32, color: Color },
    Text { x: i32, y: i32, text: Seq<char>, color: Color, size: u32 },
    Dot { x: i32, y: i32, diameter: u32, color: Color },
    GraphLine { x1: i32, v1: i32, x2: i32, v2: i32, base_y: i32, span: i32, color: Color },
}

impl View for DrawOp {
    type V = DrawOpView;

    open spec fn view(&self) -> DrawOpView {
        match self {
            DrawOp::ClearScreen => DrawOpView::ClearScreen,
            DrawOp::Clear { x, y, w, h } => DrawOpView::Clear { x: *x, y: *y, w: *w, h: *h },
            DrawOp::Fill { x, y, w, h, color } => DrawOpView::Fill { x: *x, y: *y, w: *w, h: *h, color: *color },
            DrawOp::Frame { x, y, w, h, color } => DrawOpView::Frame { x: *x, y: *y, w: *w, h: *h, color: *color },
            DrawOp::RoundedFrame { x, y, w, h, radius, stroke, color } => DrawOpView::RoundedFrame {
                x: *x,
                y: *y,
                w: *w,
                h: *h,
                radius: *radius,
                stroke: *stroke,
                color: *color,
            },
            DrawOp::Text { x, y, text, color, size } => DrawOpView::Text {
                x: *x,
                y: *y,
                text: text@,
                color: *color,
                size: *size,
            },
            DrawOp::Dot { x, y, diameter, color } => DrawOpView::Dot {
                x: *x,
                y: *y,
                diameter: *diameter,
                color: *color,
            },
            DrawOp::GraphLine { x1, v1, x2, v2, base_y, span, color } => DrawOpView::GraphLine {
                x1: *x1,
                v1: *v1,
                x2: *x2,
                v2: *v2,
                base_y: *base_y,
                span: *span,
                color: *color,
            },
        }
    }
}

/// The views of a list of operations.
pub open spec fn ops_view(ops: Seq<DrawOp>) -> Seq<DrawOpView> {
    ops.map_values(|o: DrawOp| o@)
}

fn push_op(ops: &mut Vec<DrawOp>, op: DrawOp)
    ensures
        ops_view(final(ops)@) == ops_view(old(ops)@).push(op@),
{
    let ghost v = op@;
    ops.push(op);
    assert(ops_view(ops@) =~= ops_view(old(ops)@).push(v));
}

fn append_ops(ops: &mut Vec<DrawOp>, more: Vec<DrawOp>)
    ensures
        ops_view(final(ops)@) == ops_view(old(ops)@) + ops_view(more@),
{
    let ghost extra = more@;
    let mut more = more;
    ops.append(&mut more);
    assert(ops_view(ops@) =~= ops_view(old(ops)@) + ops_view(extra));
}

/// The 5x7 bitmap of a clock glyph, one byte per row, most significant of
/// the five bits on the left. Characters without a glyph are blank.
pub open spec fn glyph_spec(ch: char) -> Seq<u8> {
    if ch == '0' {
        seq![0b01110u8, 0b10001u8, 0b10011u8, 0b10101u8, 0b11001u8, 0b10001u8, 0b01110u8]
    } else if ch == '1' {
        seq![0b00100u8, 0b01100u8, 0b00100u8, 0b00100u8, 0b00100u8, 0b00100u8, 0b01110u8]
    } else if ch == '2' {
        seq![0b01110u8, 0b10001u8, 0b00001u8, 0b00110u8, 0b01000u8, 0b10000u8, 0b11111u8]
    } else if ch == '3' {
        seq![0b11111u8, 0b00010u8, 0b00100u8, 0b00010u8, 0b00001u8, 0b10001u8, 0b01110u8]
    } else if ch == '4' {
        seq![0b00010u8, 0b00110u8, 0b01010u8, 0b10010u8, 0b11111u8, 0b00010u8, 0b00010u8]
    } else if ch == '5' {
        seq![0b11111u8, 0b10000u8, 0b11110u8, 0b00001u8, 0b00001u8, 0b10001u8, 0b01110u8]
    } else if ch == '6' {
        seq![0b00110u8, 0b01000u8, 0b10000u8, 0b11110u8, 0b10001u8, 0b10001u8, 0b01110u8]
    } else if ch == '7' {
        seq![0b11111u8, 0b00001u8, 0b00010u8, 0b00100u8, 0b01000u8, 0b01000u8, 0b01000u8]
    } else if ch == '8' {
        seq![0b01110u8, 0b10001u8, 0b10001u8, 0b01110u8, 0b10001u8, 0b10001u8, 0b01110u8]
    } else if ch == '9' {
        seq![0b01110u8, 0b10001u8, 0b10001u8, 0b01111u8, 0b00001u8, 0b00010u8, 0b01100u8]
    } else if ch == ':' {
        seq![0b00000u8, 0b01100u8, 0b01100u8, 0b00000u8, 0b01100u8, 0b01100u8, 0b00000u8]
    } else if ch == 'A' {
        seq![0b01110u8, 0b10001u8, 0b10001u8, 0b11111u8, 0b10001u8, 0b10001u8, 0b10001u8]
    } else if ch == 'M' {
        seq![0b10001u8, 0b11011u8, 0b10101u8, 0b10101u8, 0b10001u8, 0b10001u8, 0b10001u8]
    } else if ch == 'P' {
        seq![0b11110u8, 0b10001u8, 0b10001u8, 0b11110u8, 0b10000u8, 0b10000u8, 0b10000u8]
    } else {
        seq![0u8, 0u8, 0u8, 0u8, 0u8, 0u8, 0u8]
    }
}

/// The 5x7 bitmap of a clock glyph (see `glyph_spec`).
pub fn glyph_rows(ch: char) -> (rows: [u8; 7])
    ensures
        rows@ == glyph_spec(ch),
{
    let rows: [u8; 7] = if ch == '0' {
        [0b01110, 0b10001, 0b10011, 0b10101, 0b11001, 0b10001, 0b01110]
    } else if ch == '1' {
        [0b00100, 0b01100, 0b00100, 0b00100, 0b00100, 0b00100, 0b01110]
    } else if ch == '2' {
        [0b01110, 0b10001, 0b00001, 0b00110, 0b01000, 0b10000, 0b11111]
    } else if ch == '3' {
        [0b11111, 0b00010, 0b00100, 0b00010, 0b00001, 0b10001, 0b01110]
    } else if ch == '4' {
        [0b00010, 0b00110, 0b01010, 0b10010, 0b11111, 0b00010, 0b00010]
    } else if ch == '5' {
        [0b11111, 0b10000, 0b11110, 0b00001, 0b00001, 0b10001, 0b01110]
    } else if ch == '6' {
        [0b00110, 0b01000, 0b10000, 0b11110, 0b10001, 0b10001, 0b01110]
    } else if ch == '7' {
        [0b11111, 0b00001, 0b00010, 0b00100, 0b01000, 0b01000, 0b01000]
    } else if ch == '8' {
        [0b01110, 0b10001, 0b10001, 0b01110, 0b10001, 0b10001, 0b01110]
    } else if ch == '9' {
        [0b01110, 0b10001, 0b10001, 0b01111, 0b00001, 0b00010, 0b01100]
    } else if ch == ':' {
        [0b00000, 0b01100, 0b01100, 0b00000, 0b01100, 0b01100, 0b00000]
    } else if ch == 'A' {
        [0b01110, 0b10001, 0b10001, 0b11111, 0b10001, 0b10001, 0b10001]
    } else if ch == 'M' {
        [0b10001, 0b11011, 0b10101, 0b10101, 0b10001, 0b10001, 0b10001]
    } else if ch == 'P' {
        [0b11110, 0b10001, 0b10001, 0b11110, 0b10000, 0b10000, 0b10000]
    } else {
        [0, 0, 0, 0, 0, 0, 0]
    };
    assert(rows@ =~= glyph_spec(ch));
    rows
}

/// The pixel squares of a glyph's first `k` cells (row by row), each lit cell
/// a `scale` x `scale` square.
pub open spec fn glyph_cells(rows: Seq<u8>, x: i32, y: i32, scale: i32, color: Color, k: int) -> Seq<
    DrawOpView,
>
    decreases k,
{
    if k <= 0 {
        Seq::empty()
    } else {
        let prev = glyph_cells(rows, x, y, scale, color, k - 1);
        let r = (k - 1) / 5;
        let c = (k - 1) % 5;
        if rows[r] & (16u8 >> (c as u8)) != 0 {
            prev.push(
                DrawOpView::Fill {
                    x: (x + c * scale) as i32,
                    y: (y + r * scale) as i32,
                    w: scale as u32,
                    h: scale as u32,
                    color,
                },
            )
        } else {
            prev
        }
    }
}

/// The squares that draw a 5x7 glyph at (x, y) magnified by `scale`.
pub open spec fn glyph_ops_spec(rows: Seq<u8>, x: i32, y: i32, scale: i32, color: Color) -> Seq<DrawOpView> {
    glyph_cells(rows, x, y, scale, color, 35)
}

/// Whether a glyph of magnification `scale` fits at (x, y) in `i32` pixels.
pub open spec fn glyph_fits(x: i32, y: i32, scale: i32) -> bool {
    &&& i32::MIN <= 6 * scale <= i32::MAX
    &&& i32::MIN <= x + 4 * scale <= i32::MAX
    &&& i32::MIN <= y + 6 * scale <= i32::MAX
    &&& i32::MIN <= x + 0 * scale <= i32::MAX
}

/// The squares that draw a glyph (see `glyph_ops_spec`).
pub fn draw_glyph(rows: &[u8; 7], x: i32, y: i32, scale: i32, color: Color) -> (ops: Vec<DrawOp>)
    requires
        glyph_fits(x, y, scale),
        0 <= scale,
    ensures
        ops_view(ops@) == glyph_ops_spec(rows@, x, y, scale, color),
{
    let mut ops: Vec<DrawOp> = Vec::new();
    let mut k: usize = 0;
    assert(ops_view(ops@) =~= glyph_cells(rows@, x, y, scale, color, 0));
    while k < 35
        invariant
            k <= 35,
            glyph_fits(x, y, scale),
            0 <= scale,
            ops_view(ops@) == glyph_cells(rows@, x, y, scale, color, k as int),
        decreases 35 - k,
    {
        let r: usize = k / 5;
        let c: usize = k % 5;
        assert(0 <= c * scale <= 4 * scale) by (nonlinear_arith)
            requires
                c <= 4,
                scale >= 0,
        ;
        assert(0 <= r * scale <= 6 * scale) by (nonlinear_arith)
            requires
                r <= 6,
                scale >= 0,
        ;
        if rows[r] & (0b10000u8 >> (c as u8)) != 0 {
            let cs = c as i32 * scale;
            let rs = r as i32 * scale;
            push_op(&mut ops, DrawOp::Fill { x: x + cs, y: y + rs, w: scale as u32, h: scale as u32, color });
        }
        k = k + 1;
    }
    ops
}

/// The glyphs of `text` drawn left to right from (x, y), `step` pixels apart.
pub open spec fn glyph_text_ops(text: Seq<char>, x: i32, y: i32, scale: i32, step: i32, color: Color) -> Seq<
    DrawOpView,
>
    decreases text.len(),
{
    if text.len() == 0 {
        Seq::empty()
    } else {
        glyph_text_ops(text.drop_last(), x, y, scale, step, color) + glyph_ops_spec(
            glyph_spec(text.last()),
            (x + (text.len() - 1) * step) as i32,
            y,
            scale,
            color,
        )
    }
}

fn draw_glyph_text(text: &str, x: i32, y: i32, scale: i32, step: i32, color: Color) -> (ops: Vec<DrawOp>)
    requires
        text@.len() <= 64,
        0 <= x <= 1000,
        0 <= y <= 1000,
        0 <= scale <= 16,
        0 <= step <= 64,
    ensures
        ops_view(ops@) == glyph_text_ops(text@, x, y, scale, step, color),
{
    let n = text.unicode_len();
    let mut ops: Vec<DrawOp> = Vec::new();
    let mut gx: i32 = x;
    let mut i: usize = 0;
    assert(text@.take(0) =~= Seq::<char>::empty());
    while i < n
        invariant
            n == text@.len(),
            n <= 64,
            i <= n,
            0 <= x <= 1000,
            0 <= y <= 1000,
            0 <= scale <= 16,
            0 <= step <= 64,
            gx == x + i * step,
            ops_view(ops@) == glyph_text_ops(text@.take(i as int), x, y, scale, step, color),
        decreases n - i,
    {
        assert(i * step <= 64 * 64) by (nonlinear_arith)
            requires
                i <= 64,
                0 <= step <= 64,
        ;
        let rows = glyph_rows(text.get_char(i));
        let more = draw_glyph(&rows, gx, y, scale, color);
        append_ops(&mut ops, more);
        assert(text@.take(i + 1).drop_last() =~= text@.take(i as int));
        assert((i + 1) * step == i * step + step) by (nonlinear_arith);
        gx = gx + step;
        i = i + 1;
    }
    assert(text@.take(n as int) =~= text@);
    ops
}

/// The clock digits: the 12-hour hour, `:` on even seconds (a blank
/// otherwise) and the minute, each zero-padded to two digits.
pub open spec fn clock_text(h: u32, m: u32, s: u32) -> Seq<char> {
    let h12 = if h % 12 == 0 { 12 } else { h % 12 };
    dec_padded(h12 as nat, 2) + seq![if s % 2 == 0 { ':' } else { ' ' }] + dec_padded(m as nat, 2)
}

/// The uptime shown before the clock is set: hours modulo 100 and minutes.
pub open spec fn uptime_text(uptime_s: u64) -> Seq<char> {
    dec_padded(((uptime_s / 3600) % 100) as nat, 2) + seq![':'] + dec_padded(((uptime_s % 3600) / 60) as nat, 2)
}

/// The top 32 pixels: with the time known, large cyan digits (see
/// `clock_text`) and a small white AM/PM; otherwise "UPTIME", the uptime
/// (see `uptime_text`) and a dot that is red on even seconds.
pub open spec fn clock_ops_spec(has_time: bool, h: u32, m: u32, s: u32, uptime_s: u64) -> Seq<DrawOpView> {
    let clear = seq![DrawOpView::Clear { x: 0, y: 0, w: 128, h: 32 }];
    if has_time {
        clear + glyph_text_ops(clock_text(h, m, s), 6, 4, 3, 17, Color::Cyan) + glyph_text_ops(
            if h < 12 { "AM"@ } else { "PM"@ },
            96,
            5,
            1,
            6,
            Color::White,
        )
    } else {
        clear + seq![
            DrawOpView::Text { x: 10, y: 5, text: "UPTIME"@, color: Color::White, size: 1 },
            DrawOpView::Text { x: 10, y: 13, text: uptime_text(uptime_s), color: Color::White, size: 2 },
            DrawOpView::Dot { x: 120, y: 11, diameter: 2, color: if s % 2 == 0 { Color::Red } else { Color::Black } },
        ]
    }
}

/// Draws the clock region (see `clock_ops_spec`).
pub fn draw_clock(has_time: bool, h: u32, m: u32, s: u32, uptime_s: u64) -> (ops: Vec<DrawOp>)
    ensures
        ops_view(ops@) == clock_ops_spec(has_time, h, m, s, uptime_s),
{
    let mut ops: Vec<DrawOp> = Vec::new();
    push_op(&mut ops, DrawOp::Clear { x: 0, y: 0, w: 128, h: 32 });
    if has_time {
        let h12 = if h % 12 == 0 { 12 } else { h % 12 };
        let mut t = String::new();
        push_dec_padded(&mut t, h12 as u64, 2);
        push_char(&mut t, if s % 2 == 0 { ':' } else { ' ' });
        push_dec_padded(&mut t, m as u64, 2);
        assert(t@ =~= clock_text(h, m, s));
        proof {
            lemma_dec_padded_len(h12 as nat, 2);
            lemma_dec_padded_len(m as nat, 2);
        }
        let digits = draw_glyph_text(t.as_str(), 6, 4, 3, 17, Color::Cyan);
        append_ops(&mut ops, digits);
        let p = if h < 12 { "AM" } else { "PM" };
        proof {
            reveal_strlit("AM");
            reveal_strlit("PM");
        }
        let ampm = draw_glyph_text(p, 96, 5, 1, 6, Color::White);
        append_ops(&mut ops, ampm);
    } else {
        push_op(&mut ops, DrawOp::Text { x: 10, y: 5, text: String::from_str("UPTIME"), color: Color::White, size: 1 });
        let mut t = String::new();
        push_dec_padded(&mut t, (uptime_s / 3600) % 100, 2);
        push_char(&mut t, ':');
        push_dec_padded(&mut t, (uptime_s % 3600) / 60, 2);
        assert(t@ =~= uptime_text(uptime_s));
        push_op(&mut ops, DrawOp::Text { x: 10, y: 13, text: t, color: Color::White, size: 2 });
        push_op(&mut ops, DrawOp::Dot { x: 120, y: 11, diameter: 2, color: if s % 2 == 0 { Color::Red } else { Color::Black } });
    }
    assert(ops_view(ops@) =~= clock_ops_spec(has_time, h, m, s, uptime_s));
    ops
}

/// Whether `a` ends with `b`.
pub open spec fn ends_with(a: Seq<DrawOpView>, b: Seq<DrawOpView>) -> bool {
    a.len() >= b.len() && a.skip(a.len() - b.len()) == b
}

/// With the time known, the clock ends with the small white marker glyphs at
/// (96, 5): "PM" from 12:00 on (noon included), "AM" before noon.
pub proof fn lemma_clock_marker(h: u32, m: u32, s: u32, uptime_s: u64)
    ensures
        h >= 12 ==> ends_with(clock_ops_spec(true, h, m, s, uptime_s), glyph_text_ops("PM"@, 96, 5, 1, 6, Color::White)),
        h < 12 ==> ends_with(clock_ops_spec(true, h, m, s, uptime_s), glyph_text_ops("AM"@, 96, 5, 1, 6, Color::White)),
{
    let a = seq![DrawOpView::Clear { x: 0, y: 0, w: 128, h: 32 }] + glyph_text_ops(clock_text(h, m, s), 6, 4, 3, 17, Color::Cyan);
    let pm = glyph_text_ops("PM"@, 96, 5, 1, 6, Color::White);
    let am = glyph_text_ops("AM"@, 96, 5, 1, 6, Color::White);
    assert((a + pm).skip(a.len() as int) =~= pm);
    assert((a + am).skip(a.len() as int) =~= am);
}

/// A number below 10^10 has at most 10 digits, so padding keeps it short.
proof fn lemma_dec_padded_len(n: nat, w: nat)
    requires
        n <= u32::MAX,
        w <= 10,
    ensures
        dec_padded(n, w).len() <= 10,
{
    lemma_dec_len_small(n);
}

proof fn lemma_dec_len_small(n: nat)
    requires
        n <= u32::MAX,
    ensures
        dec(n).len() <= 10,
{
    assert(pow10(10) == 10000000000) by {
        reveal_with_fuel(pow10, 11);
    }
    lemma_dec_len_below(n, 10);
}

spec fn pow10(k: nat) -> nat
    decreases k,
{
    if k == 0 {
        1
    } else {
        10 * pow10((k - 1) as nat)
    }
}

proof fn lemma_dec_len_below(n: nat, k: nat)
    requires
        k >= 1,
        n < pow10(k),
    ensures
        dec(n).len() <= k,
    decreases n,
{
    if n >= 10 {
        assert(k >= 2) by {
            if k == 1 {
                reveal_with_fuel(pow10, 2);
            }
        }
        assert(n / 10 < pow10((k - 1) as nat));
        lemma_dec_len_below(n / 10, (k - 1) as nat);
    }
}

/// Y of the status bar.
pub const BAR_Y: i32 = 134;

/// Height of the status bar.
pub const BAR_H: i32 = 12;

/// Height of the clock region.
pub const TOP_H: i32 = 32;

/// Clears the whole screen.
pub fn fill_screen() -> (op: DrawOp)
    ensures
        op@ == DrawOpView::ClearScreen,
{
    DrawOp::ClearScreen
}

/// Clears a rectangle.
pub fn clear_rect(x: i32, y: i32, w: i32, h: i32) -> (op: DrawOp)
    ensures
        op@ == (DrawOpView::Clear { x, y, w, h }),
{
    DrawOp::Clear { x, y, w, h }
}

/// Redraws only the clock colon (avoiding flicker): the colon's cell is
/// cleared and, when `show`, the colon glyph drawn again.
pub fn clock_colon_blink(show: bool) -> (ops: Vec<DrawOp>)
    ensures
        ops_view(ops@) == seq![DrawOpView::Clear { x: 40, y: 4, w: 17, h: 21 }] + if show {
            glyph_ops_spec(glyph_spec(':'), 40, 4, 3, Color::Cyan)
        } else {
            Seq::empty()
        },
{
    let mut ops: Vec<DrawOp> = Vec::new();
    let colon_x: i32 = 6 + 17 * 2;
    push_op(&mut ops, DrawOp::Clear { x: colon_x, y: 4, w: 17, h: 21 });
    if show {
        let rows = glyph_rows(':');
        let more = draw_glyph(&rows, colon_x, 4, 3, Color::Cyan);
        append_ops(&mut ops, more);
    }
    assert(ops_view(ops@) =~= seq![DrawOpView::Clear { x: 40, y: 4, w: 17, h: 21 }] + if show {
        glyph_ops_spec(glyph_spec(':'), 40, 4, 3, Color::Cyan)
    } else {
        Seq::empty()
    });
    ops
}

/// Redraws only the uptime dot: red when `on`, black otherwise.
pub fn clock_uptime_led(on: bool) -> (op: DrawOp)
    ensures
        op@ == (DrawOpView::Dot { x: 120, y: 11, diameter: 2, color: if on { Color::Red } else { Color::Black } }),
{
    DrawOp::Dot { x: 120, y: 11, diameter: 2, color: if on { Color::Red } else { Color::Black } }
}

/// The refresh progress bar along the bottom two rows: the width is clamped
/// to 0..=128; the bar is cleared first when it shrank, and drawn in cyan when
/// not empty. Returns the operations and the width to remember.
pub fn draw_progress_bar(bw: i32, last_bw: i32) -> (r: (Vec<DrawOp>, i32))
    ensures
        ({
            let w = if bw < 0 { 0 } else if bw > 128 { 128 } else { bw };
            &&& r.1 == w
            &&& ops_view(r.0@) == (if w < last_bw {
                seq![DrawOpView::Clear { x: 0, y: 158, w: 128, h: 2 }]
            } else {
                Seq::empty()
            }) + (if w > 0 {
                seq![DrawOpView::Fill { x: 0, y: 158, w: w as u32, h: 2, color: Color::Cyan }]
            } else {
                Seq::empty()
            })
        }),
{
    let w = if bw < 0 { 0 } else if bw > 128 { 128 } else { bw };
    let mut ops: Vec<DrawOp> = Vec::new();
    if w < last_bw {
        push_op(&mut ops, DrawOp::Clear { x: 0, y: 158, w: 128, h: 2 });
    }
    if w > 0 {
        push_op(&mut ops, DrawOp::Fill { x: 0, y: 158, w: w as u32, h: 2, color: Color::Cyan });
    }
    assert(ops_view(ops@) =~= (if w < last_bw {
        seq![DrawOpView::Clear { x: 0, y: 158, w: 128, h: 2 }]
    } else {
        Seq::empty()
    }) + (if w > 0 {
        seq![DrawOpView::Fill { x: 0, y: 158, w: w as u32, h: 2, color: Color::Cyan }]
    } else {
        Seq::empty()
    }));
    (ops, w)
}

/// The splash screen frame: a cyan rounded box with "AIR SCAN" and the
/// version, and the "SYSTEM CHECK:" heading.
pub open spec fn splash_border_spec(version: Seq<char>) -> Seq<DrawOpView> {
    seq![
        DrawOpView::ClearScreen,
        DrawOpView::RoundedFrame { x: 5, y: 5, w: 118, h: 40, radius: 8, stroke: 2, color: Color::Cyan },
        DrawOpView::Text { x: 20, y: 10, text: "AIR SCAN"@, color: Color::Cyan, size: 2 },
        DrawOpView::Text { x: 42, y: 27, text: version, color: Color::White, size: 1 },
        DrawOpView::Text { x: 10, y: 52, text: "SYSTEM CHECK:"@, color: Color::White, size: 1 },
    ]
}

/// Draws the splash screen frame (see `splash_border_spec`).
pub fn draw_splash_border(version: &str) -> (ops: Vec<DrawOp>)
    ensures
        ops_view(ops@) == splash_border_spec(version@),
{
    let mut ops: Vec<DrawOp> = Vec::new();
    push_op(&mut ops, DrawOp::ClearScreen);
    push_op(&mut ops, DrawOp::RoundedFrame { x: 5, y: 5, w: 118, h: 40, radius: 8, stroke: 2, color: Color::Cyan });
    push_op(&mut ops, DrawOp::Text { x: 20, y: 10, text: String::from_str("AIR SCAN"), color: Color::Cyan, size: 2 });
    push_op(&mut ops, DrawOp::Text { x: 42, y: 27, text: String::from_str(version), color: Color::White, size: 1 });
    push_op(&mut ops, DrawOp::Text { x: 10, y: 52, text: String::from_str("SYSTEM CHECK:"), color: Color::White, size: 1 });
    assert(ops_view(ops@) =~= splash_border_spec(version@));
    ops
}

/// One line of the boot self-test: " > <label>:" and a green OK or red FAIL;
/// the next line is 7 pixels lower.
pub fn splash_check(y: i32, label: &str, ok: bool) -> (r: (Vec<DrawOp>, i32))
    requires
        y + 7 <= i32::MAX,
    ensures
        r.1 == y + 7,
        ops_view(r.0@) == seq![
            DrawOpView::Text { x: 10, y, text: " > "@ + label@ + ":"@, color: Color::White, size: 1 },
            DrawOpView::Text {
                x: 95,
                y,
                text: if ok { "OK"@ } else { "FAIL"@ },
                color: if ok { Color::Green } else { Color::Red },
                size: 1,
            },
        ],
{
    let mut t = String::from_str(" > ");
    t.append(label);
    t.append(":");
    let mut ops: Vec<DrawOp> = Vec::new();
    push_op(&mut ops, DrawOp::Text { x: 10, y, text: t, color: Color::White, size: 1 });
    let verdict = if ok { "OK" } else { "FAIL" };
    push_op(&mut ops, DrawOp::Text {
        x: 95,
        y,
        text: String::from_str(verdict),
        color: if ok { Color::Green } else { Color::Red },
        size: 1,
    });
    assert(ops_view(ops@) =~= seq![
        DrawOpView::Text { x: 10, y, text: " > "@ + label@ + ":"@, color: Color::White, size: 1 },
        DrawOpView::Text {
            x: 95,
            y,
            text: if ok { "OK"@ } else { "FAIL"@ },
            color: if ok { Color::Green } else { Color::Red },
            size: 1,
        },
    ]);
    (ops, y + 7)
}

/// A line of splash text in white at x = 10; the next line is 7 pixels lower.
pub fn splash_text(s: &str, y: i32) -> (r: (DrawOp, i32))
    requires
        y + 7 <= i32::MAX,
    ensures
        r.0@ == (DrawOpView::Text { x: 10, y, text: s@, color: Color::White, size: 1 }),
        r.1 == y + 7,
{
    (DrawOp::Text { x: 10, y, text: String::from_str(s), color: Color::White, size: 1 }, y + 7)
}

/// The progress line of a boot-time connection attempt.
pub open spec fn wifi_attempt_text(idx: u32, ssid: Seq<char>, dots: nat) -> Seq<char> {
    "Trying ["@ + dec(idx as nat) + "]: "@ + ssid + Seq::new(dots, |i: int| '.')
}

/// Redraws the line of a boot-time connection attempt: "Trying [<idx>]:
/// <ssid>" followed by one dot per half second waited.
pub fn wifi_attempt(y: i32, idx: u32, ssid: &str, dots: usize) -> (ops: Vec<DrawOp>)
    ensures
        ops_view(ops@) == seq![
            DrawOpView::Clear { x: 0, y, w: 128, h: 7 },
            DrawOpView::Text { x: 10, y, text: wifi_attempt_text(idx, ssid@, dots as nat), color: Color::White, size: 1 },
        ],
{
    let mut t = String::from_str("Trying [");
    push_dec(&mut t, idx as u64);
    t.append("]: ");
    t.append(ssid);
    let ghost base = t@;
    let mut k: usize = 0;
    while k < dots
        invariant
            k <= dots,
            t@ == base + Seq::new(k as nat, |i: int| '.'),
        decreases dots - k,
    {
        push_char(&mut t, '.');
        k = k + 1;
        assert(t@ =~= base + Seq::new(k as nat, |i: int| '.'));
    }
    assert(t@ =~= wifi_attempt_text(idx, ssid@, dots as nat));
    let mut ops: Vec<DrawOp> = Vec::new();
    push_op(&mut ops, DrawOp::Clear { x: 0, y, w: 128, h: 7 });
    push_op(&mut ops, DrawOp::Text { x: 10, y, text: t, color: Color::White, size: 1 });
    assert(ops_view(ops@) =~= seq![
        DrawOpView::Clear { x: 0, y, w: 128, h: 7 },
        DrawOpView::Text { x: 10, y, text: wifi_attempt_text(idx, ssid@, dots as nat), color: Color::White, size: 1 },
    ]);
    ops
}

/// Replaces the attempt line with a message.
pub fn wifi_message(y: i32, s: &str, color: Color) -> (ops: Vec<DrawOp>)
    ensures
        ops_view(ops@) == seq![
            DrawOpView::Clear { x: 0, y, w: 128, h: 7 },
            DrawOpView::Text { x: 10, y, text: s@, color, size: 1 },
        ],
{
    let mut ops: Vec<DrawOp> = Vec::new();
    push_op(&mut ops, DrawOp::Clear { x: 0, y, w: 128, h: 7 });
    push_op(&mut ops, DrawOp::Text { x: 10, y, text: String::from_str(s), color, size: 1 });
    assert(ops_view(ops@) =~= seq![
        DrawOpView::Clear { x: 0, y, w: 128, h: 7 },
        DrawOpView::Text { x: 10, y, text: s@, color, size: 1 },
    ]);
    ops
}

/// The colour of a level name on screen: green for Good, orange for Fair,
/// red for anything else.
pub open spec fn level_rgb_spec(lvl: Seq<char>) -> Color {
    if lvl == "Good"@ {
        Color::Green
    } else if lvl == "Fair"@ {
        Color::Orange
    } else {
        Color::Red
    }
}

/// The colour of a level name on screen (see `level_rgb_spec`).
pub fn level_rgb(lvl: &str) -> (c: Color)
    ensures
        c == level_rgb_spec(lvl@),
{
    if str_eq(lvl, "Good") {
        Color::Green
    } else if str_eq(lvl, "Fair") {
        Color::Orange
    } else {
        Color::Red
    }
}

/// One particulate line: "<label>: <value>" and the level, in the level's
/// colour.
pub open spec fn pm_line_spec(y: i32, label: Seq<char>, v: u16) -> Seq<DrawOpView> {
    let c = level_rgb_spec(pm_level_spec(v as int));
    seq![
        DrawOpView::Text { x: 1, y, text: label + ": "@ + dec(v as nat), color: c, size: 1 },
        DrawOpView::Text { x: 70, y, text: pm_level_spec(v as int), color: c, size: 1 },
    ]
}

/// The MQTT state in the status bar and its colour.
pub open spec fn mqtt_badge_spec(enabled: bool, connected: bool) -> (Seq<char>, Color) {
    if !enabled {
        ("M:OFF"@, Color::Cyan)
    } else if connected {
        ("M:OK"@, Color::Green)
    } else {
        ("M:ERR"@, Color::Red)
    }
}

/// The readings screen below the clock: the CO2 line in its level's colour,
/// the CO2 graph, temperature and humidity, the three particulate lines, and
/// the status bar with the MQTT state and the address (grey when the station
/// is linked, yellow otherwise). The numbers that come from floating-point
/// readings are passed already formatted; the graph shows `history` in a
/// 120 x 28 box at (4, 44).
pub open spec fn data_ops_spec(
    co2_text: Seq<char>,
    co2_lvl: Seq<char>,
    temp_text: Seq<char>,
    hum_text: Seq<char>,
    pm1: u16,
    pm25: u16,
    pm10: u16,
    m_en: bool,
    m_con: bool,
    wifi_connected: bool,
    ip: Seq<char>,
    history: Seq<i32>,
) -> Seq<DrawOpView> {
    let (ms, mc) = mqtt_badge_spec(m_en, m_con);
    seq![
        DrawOpView::Text { x: 1, y: 32, text: "CO2: "@ + co2_text + " ("@ + co2_lvl + ")"@, color: level_rgb_spec(co2_lvl), size: 1 },
    ] + graph_ops_spec(4, 44, 120, 28, history) + seq![
        DrawOpView::Text { x: 1, y: 73, text: "T:"@ + temp_text + "C H:"@ + hum_text + "%"@, color: Color::White, size: 1 },
    ] + pm_line_spec(87, "PM1.0"@, pm1) + pm_line_spec(101, "PM2.5"@, pm25) + pm_line_spec(115, "PM10"@, pm10) + seq![
        DrawOpView::Clear { x: 0, y: BAR_Y, w: 128, h: BAR_H },
        DrawOpView::Text { x: 1, y: BAR_Y, text: ms, color: mc, size: 1 },
        DrawOpView::Text { x: 26, y: BAR_Y, text: " "@ + ip, color: if wifi_connected { Color::Gray } else { Color::Yellow }, size: 1 },
    ]
}

/// The MQTT badge at the left of the status bar, the last-but-one operation
/// of the readings screen: "M:OFF" in cyan when MQTT is disabled, "M:OK" in
/// green when it is enabled and connected, "M:ERR" in red when it is enabled
/// but not connected.
pub proof fn lemma_mqtt_badge(
    co2_text: Seq<char>,
    co2_lvl: Seq<char>,
    temp_text: Seq<char>,
    hum_text: Seq<char>,
    pm1: u16,
    pm25: u16,
    pm10: u16,
    m_en: bool,
    m_con: bool,
    wifi_connected: bool,
    ip: Seq<char>,
    history: Seq<i32>,
)
    ensures
        ({
            let ops = data_ops_spec(co2_text, co2_lvl, temp_text, hum_text, pm1, pm25, pm10, m_en, m_con, wifi_connected, ip, history);
            &&& ops.len() >= 2
            &&& !m_en ==> ops[ops.len() - 2] == (DrawOpView::Text { x: 1, y: BAR_Y, text: "M:OFF"@, color: Color::Cyan, size: 1 })
            &&& m_en && m_con ==> ops[ops.len() - 2] == (DrawOpView::Text { x: 1, y: BAR_Y, text: "M:OK"@, color: Color::Green, size: 1 })
            &&& m_en && !m_con ==> ops[ops.len() - 2] == (DrawOpView::Text { x: 1, y: BAR_Y, text: "M:ERR"@, color: Color::Red, size: 1 })
        }),
{
    let ops = data_ops_spec(co2_text, co2_lvl, temp_text, hum_text, pm1, pm25, pm10, m_en, m_con, wifi_connected, ip, history);
    let (ms, mc) = mqtt_badge_spec(m_en, m_con);
    let tail = seq![
        DrawOpView::Clear { x: 0, y: BAR_Y, w: 128, h: BAR_H },
        DrawOpView::Text { x: 1, y: BAR_Y, text: ms, color: mc, size: 1 },
        DrawOpView::Text { x: 26, y: BAR_Y, text: " "@ + ip, color: if wifi_connected { Color::Gray } else { Color::Yellow }, size: 1 },
    ];
    assert(ops.len() >= 3);
    assert(ops[ops.len() - 2] == tail[1]);
}

fn pm_line(ops: &mut Vec<DrawOp>, y: i32, label: &str, v: u16)
    ensures
        ops_view(final(ops)@) == ops_view(old(ops)@) + pm_line_spec(y, label@, v),
{
    let lvl = pm_level(v);
    let c = level_rgb(lvl);
    let mut t = String::from_str(label);
    t.append(": ");
    push_dec(&mut t, v as u64);
    push_op(ops, DrawOp::Text { x: 1, y, text: t, color: c, size: 1 });
    push_op(ops, DrawOp::Text { x: 70, y, text: String::from_str(lvl), color: c, size: 1 });
    assert(ops_view(ops@) =~= ops_view(old(ops)@) + pm_line_spec(y, label@, v));
}

/// Draws the readings screen (see `data_ops_spec`).
pub fn draw_data(
    co2_text: &str,
    co2_lvl: &str,
    temp_text: &str,
    hum_text: &str,
    pm1: u16,
    pm25: u16,
    pm10: u16,
    m_en: bool,
    m_con: bool,
    wifi_connected: bool,
    ip: &str,
    history: &[i32],
) -> (ops: Vec<DrawOp>)
    requires
        history@.len() == crate::config::GRAPH_SAMPLES,
    ensures
        ops_view(ops@) == data_ops_spec(co2_text@, co2_lvl@, temp_text@, hum_text@, pm1, pm25, pm10, m_en, m_con, wifi_connected, ip@, history@),
{
    let mut ops: Vec<DrawOp> = Vec::new();
    let mut t = String::from_str("CO2: ");
    t.append(co2_text);
    t.append(" (");
    t.append(co2_lvl);
    t.append(")");
    push_op(&mut ops, DrawOp::Text { x: 1, y: 32, text: t, color: level_rgb(co2_lvl), size: 1 });
    let graph = co2_graph_ops(4, 44, 120, 28, history);
    append_ops(&mut ops, graph);
    let mut th = String::from_str("T:");
    th.append(temp_text);
    th.append("C H:");
    th.append(hum_text);
    th.append("%");
    push_op(&mut ops, DrawOp::Text { x: 1, y: 73, text: th, color: Color::White, size: 1 });
    let ghost head = ops_view(ops@);
    pm_line(&mut ops, 87, "PM1.0", pm1);
    pm_line(&mut ops, 101, "PM2.5", pm25);
    pm_line(&mut ops, 115, "PM10", pm10);
    push_op(&mut ops, DrawOp::Clear { x: 0, y: BAR_Y, w: 128, h: BAR_H });
    let (ms, mc) = if !m_en {
        ("M:OFF", Color::Cyan)
    } else if m_con {
        ("M:OK", Color::Green)
    } else {
        ("M:ERR", Color::Red)
    };
    push_op(&mut ops, DrawOp::Text { x: 1, y: BAR_Y, text: String::from_str(ms), color: mc, size: 1 });
    let mut ipt = String::from_str(" ");
    ipt.append(ip);
    push_op(&mut ops, DrawOp::Text {
        x: 26,
        y: BAR_Y,
        text: ipt,
        color: if wifi_connected { Color::Gray } else { Color::Yellow },
        size: 1,
    });
    assert(ops_view(ops@) =~= data_ops_spec(co2_text@, co2_lvl@, temp_text@, hum_text@, pm1, pm25, pm10, m_en, m_con, wifi_connected, ip@, history@));
    ops
}

/// Number of graph segments: the polyline runs from the first sample up to
/// the last one before an unused (zero) place, over at most the whole window.
pub open spec fn graph_run_from(h: Seq<i32>, i: int) -> int
    decreases 59 - i,
{
    if i >= 59 {
        59
    } else if h[i + 1] == 0 {
        i
    } else {
        graph_run_from(h, i + 1)
    }
}

/// The polyline of the CO2 graph, as (x, value above 400 ppm) points: the
/// samples are clamped to 400..=2000 ppm and placed 2 pixels apart from `x`;
/// no line is drawn when there is no segment. The firmware scales the values
/// to the graph's height.
pub open spec fn graph_points_spec(h: Seq<i32>, x: i32) -> Seq<(i32, i32)> {
    let k = graph_run_from(h, 0);
    if k == 0 {
        Seq::empty()
    } else {
        Seq::new((k + 1) as nat, |i: int| ((x + 2 * i) as i32, (crate::network::clamp(h[i] as int, 400, 2000) - 400) as i32))
    }
}

proof fn lemma_graph_run_bounds(h: Seq<i32>, i: int)
    requires
        0 <= i <= 59,
    ensures
        i <= graph_run_from(h, i) <= 59,
    decreases 59 - i,
{
    if i < 59 && h[i + 1] != 0 {
        lemma_graph_run_bounds(h, i + 1);
    }
}

/// The polyline of the CO2 graph (see `graph_points_spec`).
pub fn co2_graph_points(history: &[i32], x: i32) -> (pts: Vec<(i32, i32)>)
    requires
        history@.len() == crate::config::GRAPH_SAMPLES,
        x + 2 * 59 <= i32::MAX,
    ensures
        pts@ == graph_points_spec(history@, x),
{
    let mut k: usize = 0;
    while k < 59 && history[k + 1] != 0
        invariant
            k <= 59,
            history@.len() == 60,
            graph_run_from(history@, 0) == graph_run_from(history@, k as int),
        decreases 59 - k,
    {
        k = k + 1;
    }
    let mut pts: Vec<(i32, i32)> = Vec::new();
    if k == 0 {
        return pts;
    }
    let mut i: usize = 0;
    while i <= k
        invariant
            k <= 59,
            k == graph_run_from(history@, 0),
            history@.len() == 60,
            x + 2 * 59 <= i32::MAX,
            i <= k + 1,
            pts@ == Seq::new(i as nat, |j: int| ((x + 2 * j) as i32, (crate::network::clamp(history@[j] as int, 400, 2000) - 400) as i32)),
        decreases k + 1 - i,
    {
        let v = history[i];
        let c = if v < 400 { 400 } else if v > 2000 { 2000 } else { v };
        pts.push((x + 2 * (i as i32), c - 400));
        i = i + 1;
        assert(pts@ =~= Seq::new(i as nat, |j: int| ((x + 2 * j) as i32, (crate::network::clamp(history@[j] as int, 400, 2000) - 400) as i32)));
    }
    pts
}

/// The x positions of the graph's baseline dots: every 4 pixels across the
/// width, from `x`.
pub fn baseline_dot_xs(x: i32, w: i32) -> (xs: Vec<i32>)
    requires
        x + w + 3 <= i32::MAX,
        w + 4 <= i32::MAX,
    ensures
        forall|j: int| 0 <= j < xs@.len() ==> xs@[j] == x + 4 * j,
        xs@.len() * 4 >= w,
        w > 0 ==> (xs@.len() - 1) * 4 < w,
        w <= 0 ==> xs@.len() == 0,
{
    let mut xs: Vec<i32> = Vec::new();
    let mut i: i32 = 0;
    while i < w
        invariant
            x + w + 3 <= i32::MAX,
            w + 4 <= i32::MAX,
            0 <= i,
            i < w + 4 || i == 0,
            i == 4 * xs@.len(),
            forall|j: int| 0 <= j < xs@.len() ==> xs@[j] == x + 4 * j,
        decreases w + 4 - i,
    {
        xs.push(x + i);
        i = i + 4;
    }
    xs
}

/// How many baseline dots a graph of width `w` has: one every 4 pixels.
pub open spec fn graph_dot_count(w: i32) -> int {
    if w > 0 {
        (w + 3) / 4
    } else {
        0
    }
}

/// The CO2 graph in the box at (x, y) of size `w` x `h`: the box cleared to
/// black, its outline in the border colour, a 1-pixel dot every 4 pixels on
/// the base row `y + h - 2` (400 ppm), and one green 1-pixel line joining
/// each recorded point of `graph_points_spec` to the next.
pub open spec fn graph_ops_spec(x: i32, y: i32, w: i32, h: i32, history: Seq<i32>) -> Seq<DrawOpView> {
    let base = (y + h - 2) as i32;
    let pts = graph_points_spec(history, x);
    seq![
        DrawOpView::Clear { x, y, w, h },
        DrawOpView::Frame { x, y, w: w as u32, h: h as u32, color: Color::GraphBorder },
    ] + Seq::new(
        graph_dot_count(w) as nat,
        |i: int| DrawOpView::Dot { x: (x + 4 * i) as i32, y: base, diameter: 1, color: Color::GraphDots },
    ) + Seq::new(
        if pts.len() > 0 { (pts.len() - 1) as nat } else { 0 },
        |i: int|
            DrawOpView::GraphLine {
                x1: pts[i].0,
                v1: pts[i].1,
                x2: pts[i + 1].0,
                v2: pts[i + 1].1,
                base_y: base,
                span: (h - 4) as i32,
                color: Color::Green,
            },
    )
}

/// Draws the CO2 graph (see `graph_ops_spec`).
pub fn co2_graph_ops(x: i32, y: i32, w: i32, h: i32, history: &[i32]) -> (ops: Vec<DrawOp>)
    requires
        history@.len() == crate::config::GRAPH_SAMPLES,
        x + 2 * 59 <= i32::MAX,
        x + w + 3 <= i32::MAX,
        w + 4 <= i32::MAX,
        i32::MIN <= y + h - 2 <= i32::MAX,
        i32::MIN <= h - 4,
    ensures
        ops_view(ops@) == graph_ops_spec(x, y, w, h, history@),
{
    let mut ops: Vec<DrawOp> = Vec::new();
    push_op(&mut ops, DrawOp::Clear { x, y, w, h });
    push_op(&mut ops, DrawOp::Frame { x, y, w: w as u32, h: h as u32, color: Color::GraphBorder });
    let base = y + (h - 2);
    let xs = baseline_dot_xs(x, w);
    assert(xs@.len() == graph_dot_count(w));
    let ghost head = ops_view(ops@);
    let mut i: usize = 0;
    while i < xs.len()
        invariant
            i <= xs@.len(),
            xs@.len() == graph_dot_count(w),
            base == y + h - 2,
            forall|j: int| 0 <= j < xs@.len() ==> xs@[j] == x + 4 * j,
            ops_view(ops@) == head + Seq::new(
                i as nat,
                |j: int| DrawOpView::Dot { x: (x + 4 * j) as i32, y: base, diameter: 1, color: Color::GraphDots },
            ),
        decreases xs@.len() - i,
    {
        push_op(&mut ops, DrawOp::Dot { x: xs[i], y: base, diameter: 1, color: Color::GraphDots });
        i = i + 1;
        assert(ops_view(ops@) =~= head + Seq::new(
            i as nat,
            |j: int| DrawOpView::Dot { x: (x + 4 * j) as i32, y: base, diameter: 1, color: Color::GraphDots },
        ));
    }
    let ghost mid = ops_view(ops@);
    let pts = co2_graph_points(history, x);
    let n: usize = if pts.len() > 0 { pts.len() - 1 } else { 0 };
    let span = h - 4;
    let mut k: usize = 0;
    while k < n
        invariant
            k <= n,
            n == if pts@.len() > 0 { pts@.len() - 1 } else { 0 },
            base == y + h - 2,
            span == h - 4,
            ops_view(ops@) == mid + Seq::new(
                k as nat,
                |j: int|
                    DrawOpView::GraphLine {
                        x1: pts@[j].0,
                        v1: pts@[j].1,
                        x2: pts@[j + 1].0,
                        v2: pts@[j + 1].1,
                        base_y: base,
                        span,
                        color: Color::Green,
                    },
            ),
        decreases n - k,
    {
        let (x1, v1) = pts[k];
        let (x2, v2) = pts[k + 1];
        push_op(&mut ops, DrawOp::GraphLine { x1, v1, x2, v2, base_y: base, span, color: Color::Green });
        k = k + 1;
        assert(ops_view(ops@) =~= mid + Seq::new(
            k as nat,
            |j: int|
                DrawOpView::GraphLine {
                    x1: pts@[j].0,
                    v1: pts@[j].1,
                    x2: pts@[j + 1].0,
                    v2: pts@[j + 1].1,
                    base_y: base,
                    span,
                    color: Color::Green,
                },
        ));
    }
    assert(ops_view(ops@) =~= graph_ops_spec(x, y, w, h, history@));
    ops
}

/// The fonts of the user interface.
#[derive(Clone, Copy, Debug, PartialEq, Eq, Structural)]
pub enum Font {
    /// 5x7 pixels.
    Small5x7,
    /// 9x15 pixels, bold.
    Bold9x15,
    /// 10x20 pixels.
    Large10x20,
}

/// The font of a text size: 2 is 9x15 bold, 3 is 10x20, anything else 5x7.
pub fn font(size: u32) -> (f: Font)
    ensures
        f == if size == 2 {
            Font::Bold9x15
        } else if size == 3 {
            Font::Large10x20
        } else {
            Font::Small5x7
        },
{
    if size == 2 {
        Font::Bold9x15
    } else if size == 3 {
        Font::Large10x20
    } else {
        Font::Small5x7
    }
}

} // verus!
