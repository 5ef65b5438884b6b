use air_monitor::display::{
    baseline_dot_xs, clock_colon_blink, co2_graph_ops, co2_graph_points, draw_clock, draw_data, draw_glyph, draw_progress_bar,
    draw_splash_border, font, glyph_rows, level_rgb, splash_check, splash_text, wifi_attempt, wifi_message, Color, DrawOp, Font,
};

fn text_of(op: &DrawOp) -> Option<&str> {
    match op {
        DrawOp::Text { text, .. } => Some(text.as_str()),
        _ => None,
    }
}

#[test]
fn glyph_bitmaps() {
    assert_eq!(glyph_rows('1'), [0b00100, 0b01100, 0b00100, 0b00100, 0b00100, 0b00100, 0b01110]);
    assert_eq!(glyph_rows(' '), [0; 7]);
    assert_eq!(glyph_rows('x'), [0; 7]);
}

#[test]
fn glyph_cells_are_lit_bits() {
    let ops = draw_glyph(&glyph_rows('1'), 6, 4, 3, Color::Cyan);
    assert_eq!(ops.len(), 10);
    match &ops[0] {
        DrawOp::Fill { x, y, w, h, color } => {
            assert_eq!((*x, *y, *w, *h, *color), (12, 4, 3, 3, Color::Cyan));
        },
        _ => panic!("expected a square"),
    }
    match &ops[9] {
        DrawOp::Fill { x, y, .. } => assert_eq!((*x, *y), (15, 22)),
        _ => panic!("expected a square"),
    }
}

#[test]
fn clock_with_time() {
    let ops = draw_clock(true, 13, 5, 2, 0);
    assert!(matches!(ops[0], DrawOp::Clear { x: 0, y: 0, w: 128, h: 32 }));
    let glyph_cells = |c: char| draw_glyph(&glyph_rows(c), 0, 0, 1, Color::White).len();
    let expected = 1 + glyph_cells('0') + glyph_cells('1') + glyph_cells(':') + glyph_cells('0') + glyph_cells('5')
        + glyph_cells('P') + glyph_cells('M');
    assert_eq!(ops.len(), expected);
    assert_eq!(expected, 107);
    let odd = draw_clock(true, 0, 0, 1, 0);
    let expected = 1 + glyph_cells('1') + glyph_cells('2') + 2 * glyph_cells('0') + glyph_cells('A') + glyph_cells('M');
    assert_eq!(odd.len(), expected);
}

#[test]
fn clock_without_time() {
    let ops = draw_clock(false, 0, 0, 4, 3 * 3600 + 7 * 60 + 5);
    assert_eq!(ops.len(), 4);
    assert_eq!(text_of(&ops[1]), Some("UPTIME"));
    assert_eq!(text_of(&ops[2]), Some("03:07"));
    assert!(matches!(ops[3], DrawOp::Dot { x: 120, y: 11, diameter: 2, color: Color::Red }));
    let ops = draw_clock(false, 0, 0, 5, 100 * 3600 + 59 * 60);
    assert_eq!(text_of(&ops[2]), Some("00:59"));
    assert!(matches!(ops[3], DrawOp::Dot { color: Color::Black, .. }));
}

#[test]
fn colon_blink() {
    assert_eq!(clock_colon_blink(false).len(), 1);
    assert_eq!(clock_colon_blink(true).len(), 9);
}

#[test]
fn progress_bar() {
    let (ops, w) = draw_progress_bar(200, 100);
    assert_eq!(w, 128);
    assert_eq!(ops.len(), 1);
    assert!(matches!(ops[0], DrawOp::Fill { x: 0, y: 158, w: 128, h: 2, color: Color::Cyan }));
    let (ops, w) = draw_progress_bar(-3, 128);
    assert_eq!(w, 0);
    assert_eq!(ops.len(), 1);
    assert!(matches!(ops[0], DrawOp::Clear { x: 0, y: 158, w: 128, h: 2 }));
    let (ops, _) = draw_progress_bar(10, 128);
    assert_eq!(ops.len(), 2);
}

#[test]
fn splash_screen() {
    let ops = draw_splash_border("V0.1.17");
    assert_eq!(ops.len(), 5);
    assert!(matches!(ops[0], DrawOp::ClearScreen));
    assert_eq!(text_of(&ops[2]), Some("AIR SCAN"));
    assert_eq!(text_of(&ops[3]), Some("V0.1.17"));
    let (ops, y) = splash_check(62, "SCD30", false);
    assert_eq!(y, 69);
    assert_eq!(text_of(&ops[0]), Some(" > SCD30:"));
    assert_eq!(text_of(&ops[1]), Some("FAIL"));
    assert!(matches!(ops[1], DrawOp::Text { x: 95, color: Color::Red, .. }));
    let (op, y) = splash_text(" > WiFi: ", 76);
    assert_eq!(y, 83);
    assert_eq!(text_of(&op), Some(" > WiFi: "));
}

#[test]
fn wifi_lines() {
    let ops = wifi_attempt(83, 2, "Home", 3);
    assert!(matches!(ops[0], DrawOp::Clear { x: 0, y: 83, w: 128, h: 7 }));
    assert_eq!(text_of(&ops[1]), Some("Trying [2]: Home..."));
    let ops = wifi_message(83, "CONNECTED", Color::Green);
    assert!(matches!(ops[1], DrawOp::Text { color: Color::Green, .. }));
}

#[test]
fn readings_screen() {
    assert_eq!(level_rgb("Good"), Color::Green);
    assert_eq!(level_rgb("Fair"), Color::Orange);
    assert_eq!(level_rgb("Bad"), Color::Red);
    let empty = [0i32; 60];
    let ops = draw_data("902", "Fair", "29.8", "45", 5, 40, 60, true, false, false, "192.168.1.178", &empty);
    // the graph of an empty history: clear, frame and 30 baseline dots
    let g = 32;
    assert_eq!(ops.len(), 11 + g);
    assert_eq!(text_of(&ops[0]), Some("CO2: 902 (Fair)"));
    assert!(matches!(ops[0], DrawOp::Text { color: Color::Orange, .. }));
    assert!(matches!(ops[1], DrawOp::Clear { x: 4, y: 44, w: 120, h: 28 }));
    assert_eq!(text_of(&ops[g + 1]), Some("T:29.8C H:45%"));
    assert_eq!(text_of(&ops[g + 2]), Some("PM1.0: 5"));
    assert_eq!(text_of(&ops[g + 3]), Some("Good"));
    assert_eq!(text_of(&ops[g + 4]), Some("PM2.5: 40"));
    assert_eq!(text_of(&ops[g + 5]), Some("Poor"));
    assert!(matches!(ops[g + 5], DrawOp::Text { color: Color::Red, .. }));
    assert_eq!(text_of(&ops[g + 7]), Some("Bad"));
    assert_eq!(text_of(&ops[g + 9]), Some("M:ERR"));
    assert_eq!(text_of(&ops[g + 10]), Some(" 192.168.1.178"));
    assert!(matches!(ops[g + 10], DrawOp::Text { x: 26, color: Color::Yellow, .. }));
    let ops = draw_data("0", "Good", "null", "null", 0, 0, 0, false, false, true, "x", &empty);
    assert_eq!(text_of(&ops[g + 9]), Some("M:OFF"));
    assert!(matches!(ops[g + 10], DrawOp::Text { color: Color::Gray, .. }));
}

#[test]
fn graph_drawing() {
    let mut h = [0i32; 60];
    h[0] = 300;
    h[1] = 900;
    h[2] = 2500;
    let ops = co2_graph_ops(4, 44, 120, 28, &h);
    assert_eq!(ops.len(), 2 + 30 + 2);
    assert!(matches!(ops[0], DrawOp::Clear { x: 4, y: 44, w: 120, h: 28 }));
    assert!(matches!(ops[1], DrawOp::Frame { x: 4, y: 44, w: 120, h: 28, color: Color::GraphBorder }));
    for i in 0..30 {
        match ops[2 + i] {
            DrawOp::Dot { x, y, diameter, color } => {
                assert_eq!((x, y, diameter, color), (4 + 4 * i as i32, 70, 1, Color::GraphDots));
            }
            _ => panic!("expected a baseline dot"),
        }
    }
    assert!(matches!(
        ops[32],
        DrawOp::GraphLine { x1: 4, v1: 0, x2: 6, v2: 500, base_y: 70, span: 24, color: Color::Green }
    ));
    assert!(matches!(
        ops[33],
        DrawOp::GraphLine { x1: 6, v1: 500, x2: 8, v2: 1600, base_y: 70, span: 24, color: Color::Green }
    ));
    let full = [1000i32; 60];
    let ops = co2_graph_ops(4, 44, 120, 28, &full);
    assert_eq!(ops.len(), 2 + 30 + 59);
    let data = draw_data("1000", "Fair", "20.0", "40", 1, 1, 1, true, true, true, "ip", &full);
    assert_eq!(data.len(), 11 + 2 + 30 + 59);
}

#[test]
fn graph_polyline() {
    let mut h = [0i32; 60];
    assert!(co2_graph_points(&h, 4).is_empty());
    h[0] = 300;
    assert!(co2_graph_points(&h, 4).is_empty());
    h[1] = 900;
    h[2] = 2500;
    assert_eq!(co2_graph_points(&h, 4), vec![(4, 0), (6, 500), (8, 1600)]);
    let full = [1000i32; 60];
    let pts = co2_graph_points(&full, 4);
    assert_eq!(pts.len(), 60);
    assert_eq!(pts[59], (122, 600));
}

#[test]
fn baseline_dots() {
    assert_eq!(baseline_dot_xs(4, 10), vec![4, 8, 12]);
    assert_eq!(baseline_dot_xs(4, 8), vec![4, 8]);
    assert_eq!(baseline_dot_xs(4, 0), Vec::<i32>::new());
    assert_eq!(baseline_dot_xs(4, 120).len(), 30);
}

#[test]
fn fonts_by_size() {
    assert_eq!(font(1), Font::Small5x7);
    assert_eq!(font(2), Font::Bold9x15);
    assert_eq!(font(3), Font::Large10x20);
    assert_eq!(font(0), Font::Small5x7);
}
