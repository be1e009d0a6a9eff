use std::collections::HashMap;

use esp32_test::bus::BusOp;
use esp32_test::cmd;
use esp32_test::color;
use esp32_test::display::{ColorFormat, DisplayRotation};
use esp32_test::lcd::ATKMD0130;
use esp32_test::spi::SpiError;

/// A captured-command fake of the controller: follows the address window
/// protocol and records the color last written at each pixel.
struct FakePanel {
    pixels: HashMap<(u16, u16), u16>,
    col: (u16, u16),
    row: (u16, u16),
    pending: Option<u8>,
    params: Vec<u8>,
    cursor: (u16, u16),
    half: Option<u8>,
    writing: bool,
    data_writes: usize,
}

impl FakePanel {
    fn new() -> Self {
        FakePanel {
            pixels: HashMap::new(),
            col: (0, 0),
            row: (0, 0),
            pending: None,
            params: Vec::new(),
            cursor: (0, 0),
            half: None,
            writing: false,
            data_writes: 0,
        }
    }

    fn play(&mut self, ops: &[BusOp]) {
        for op in ops {
            match op {
                BusOp::Command(c) => {
                    self.writing = *c == cmd::RAMWR;
                    self.pending = if *c == cmd::CASET || *c == cmd::RASET { Some(*c) } else { None };
                    self.params.clear();
                    self.half = None;
                    if self.writing {
                        self.cursor = (self.col.0, self.row.0);
                    }
                }
                BusOp::Data(bytes) => {
                    self.data_writes += 1;
                    for b in bytes {
                        self.byte(*b);
                    }
                }
                _ => {}
            }
        }
    }

    fn byte(&mut self, b: u8) {
        if let Some(c) = self.pending {
            self.params.push(b);
            if self.params.len() == 4 {
                let lo = u16::from_be_bytes([self.params[0], self.params[1]]);
                let hi = u16::from_be_bytes([self.params[2], self.params[3]]);
                if c == cmd::CASET {
                    self.col = (lo, hi);
                } else {
                    self.row = (lo, hi);
                }
                self.pending = None;
            }
        } else if self.writing {
            match self.half.take() {
                None => self.half = Some(b),
                Some(h) => {
                    self.pixels.insert(self.cursor, u16::from_be_bytes([h, b]));
                    if self.cursor.0 == self.col.1 {
                        self.cursor = (self.col.0, self.cursor.1 + 1);
                    } else {
                        self.cursor.0 += 1;
                    }
                }
            }
        }
    }
}

fn touched(ops: &[BusOp]) -> Vec<(u16, u16)> {
    let mut panel = FakePanel::new();
    panel.play(ops);
    let mut v: Vec<(u16, u16)> = panel.pixels.keys().cloned().collect();
    v.sort();
    v
}

fn ready() -> ATKMD0130 {
    let mut lcd = ATKMD0130::new(true);
    lcd.initialize();
    lcd
}

#[test]
fn rotation_sets_extent_and_distinct_config_bytes() {
    let mut lcd = ready();
    let all = [
        (DisplayRotation::Portrait, 0x48u8),
        (DisplayRotation::Landscape, 0x28u8),
        (DisplayRotation::PortraitFlipped, 0x88u8),
        (DisplayRotation::LandscapeFlipped, 0xA8u8),
    ];
    for (r, byte) in all {
        let ops = lcd.set_rotation(r);
        assert_eq!(ops, vec![BusOp::Command(cmd::MADCTL), BusOp::Data(vec![byte])]);
        assert_eq!((lcd.width(), lcd.height()), (240, 240));
        assert_eq!(lcd.rotation(), r);
    }
}

#[test]
fn full_fill_reads_back_at_corners_and_center() {
    let lcd = ready();
    let ops = lcd.fill_rect(0, 0, 240, 240, color::ORANGE);
    let mut panel = FakePanel::new();
    panel.play(&ops);
    for p in [(0, 0), (239, 0), (0, 239), (239, 239), (120, 120)] {
        assert_eq!(panel.pixels.get(&p), Some(&color::ORANGE));
    }
    assert_eq!(panel.pixels.len(), 240 * 240);
    let probe = lcd.draw_pixel(120, 120, color::BLUE);
    panel.play(&probe);
    assert_eq!(panel.pixels.get(&(120, 120)), Some(&color::BLUE));
}

#[test]
fn horizontal_line_touches_eleven_pixels() {
    let lcd = ready();
    let ops = lcd.draw_line(0, 0, 10, 0, color::WHITE);
    let expect: Vec<(u16, u16)> = (0..=10).map(|x| (x, 0)).collect();
    assert_eq!(touched(&ops), expect);
}

#[test]
fn diagonal_line_touches_six_pixels() {
    let lcd = ready();
    let ops = lcd.draw_line(0, 0, 5, 5, color::WHITE);
    let expect: Vec<(u16, u16)> = (0..=5).map(|i| (i, i)).collect();
    assert_eq!(touched(&ops), expect);
}

#[test]
fn reversed_and_steep_lines_end_at_endpoint() {
    let lcd = ready();
    let ops = lcd.draw_line(7, 9, 2, 0, color::WHITE);
    let pts = touched(&ops);
    assert_eq!(pts.len(), 10);
    assert!(pts.contains(&(7, 9)));
    assert!(pts.contains(&(2, 0)));
}

#[test]
fn line_from_off_canvas_skips_hidden_points() {
    let lcd = ready();
    let ops = lcd.draw_line(-5, 0, 5, 0, color::WHITE);
    let expect: Vec<(u16, u16)> = (0..=5).map(|x| (x, 0)).collect();
    assert_eq!(touched(&ops), expect);
}

fn quarter_turn_closed(pts: &[(u16, u16)], cx: i32, cy: i32) -> bool {
    pts.iter().all(|&(x, y)| {
        let (dx, dy) = (x as i32 - cx, y as i32 - cy);
        let (rx, ry) = (cx - dy, cy + dx);
        pts.contains(&(rx as u16, ry as u16))
    })
}

#[test]
fn circle_outline_is_quarter_turn_symmetric() {
    let lcd = ready();
    let ops = lcd.draw_circle(120, 100, 40, color::RED);
    let pts = touched(&ops);
    assert!(pts.contains(&(160, 100)));
    assert!(pts.contains(&(120, 60)));
    assert!(quarter_turn_closed(&pts, 120, 100));
}

#[test]
fn filled_circle_is_quarter_turn_symmetric() {
    let lcd = ready();
    let ops = lcd.fill_circle(100, 120, 30, color::GREEN);
    let pts = touched(&ops);
    assert!(pts.contains(&(100, 120)));
    assert!(pts.contains(&(130, 120)));
    assert!(!pts.contains(&(131, 120)));
    assert!(quarter_turn_closed(&pts, 100, 120));
}

#[test]
fn radius_zero_circle_is_one_pixel() {
    let lcd = ready();
    assert_eq!(touched(&lcd.draw_circle(10, 10, 0, color::RED)), vec![(10, 10)]);
    assert_eq!(touched(&lcd.fill_circle(10, 10, 0, color::RED)), vec![(10, 10)]);
}

#[test]
fn circle_near_edge_is_clipped_point_by_point() {
    let lcd = ready();
    let pts = touched(&lcd.draw_circle(2, 2, 5, color::RED));
    assert!(pts.contains(&(7, 2)));
    assert!(pts.iter().all(|&(x, y)| x < 240 && y < 240));
    let filled = touched(&lcd.fill_circle(2, 2, 5, color::RED));
    assert!(filled.contains(&(0, 2)));
}

#[test]
fn short_image_fails_before_any_traffic() {
    let lcd = ready();
    let data = vec![0x1234u16; 15];
    assert_eq!(lcd.draw_image(0, 0, 4, 4, &data), Err(SpiError::InvalidParameter));
    let clipped = lcd.draw_image(238, 0, 4, 4, &data[..8]).unwrap();
    assert_eq!(touched(&clipped).len(), 8);
}

#[test]
fn image_is_streamed_row_major() {
    let lcd = ready();
    let data: Vec<u16> = (0..6).map(|i| 0x0100 * i + 1).collect();
    let ops = lcd.draw_image(10, 20, 3, 2, &data).unwrap();
    let mut panel = FakePanel::new();
    panel.play(&ops);
    assert_eq!(panel.pixels.get(&(10, 20)), Some(&0x0001));
    assert_eq!(panel.pixels.get(&(12, 20)), Some(&0x0201));
    assert_eq!(panel.pixels.get(&(10, 21)), Some(&0x0301));
    assert_eq!(panel.pixels.get(&(12, 21)), Some(&0x0501));
    assert_eq!(ops.last(), Some(&BusOp::Data(vec![0, 1, 1, 1, 2, 1, 3, 1, 4, 1, 5, 1])));
}

#[test]
fn off_canvas_origin_issues_nothing() {
    let lcd = ready();
    assert!(lcd.draw_pixel(240, 0, 1).is_empty());
    assert!(lcd.draw_pixel(0, 240, 1).is_empty());
    assert!(lcd.fill_rect(240, 10, 5, 5, 1).is_empty());
    assert!(lcd.draw_hline(0, 300, 5, 1).is_empty());
    assert!(lcd.draw_vline(500, 0, 5, 1).is_empty());
    assert!(lcd.draw_rect(250, 250, 5, 5, 1).is_empty());
    assert_eq!(lcd.draw_image(240, 0, 2, 2, &[1, 2, 3, 4]), Ok(vec![]));
}

#[test]
fn zero_size_is_a_no_op() {
    let lcd = ready();
    assert!(lcd.fill_rect(5, 5, 0, 5, 1).is_empty());
    assert!(lcd.fill_rect(5, 5, 5, 0, 1).is_empty());
    assert!(lcd.draw_rect(5, 5, 0, 0, 1).is_empty());
    assert_eq!(lcd.draw_image(5, 5, 0, 3, &[]), Ok(vec![]));
}

#[test]
fn refill_leaves_only_second_color() {
    let lcd = ready();
    let mut panel = FakePanel::new();
    panel.play(&lcd.fill_rect(200, 200, 100, 100, color::RED));
    panel.play(&lcd.fill_rect(200, 200, 100, 100, color::BLUE));
    assert_eq!(panel.pixels.len(), 40 * 40);
    assert!(panel.pixels.values().all(|&c| c == color::BLUE));
}

#[test]
fn fill_is_windowed_and_chunked() {
    let lcd = ready();
    let ops = lcd.fill_rect(1, 2, 10, 10, 0xABCD);
    assert_eq!(ops[0], BusOp::Command(cmd::CASET));
    assert_eq!(ops[1], BusOp::Data(vec![0, 1]));
    assert_eq!(ops[2], BusOp::Data(vec![0, 10]));
    assert_eq!(ops[3], BusOp::Command(cmd::RASET));
    assert_eq!(ops[4], BusOp::Data(vec![0, 2]));
    assert_eq!(ops[5], BusOp::Data(vec![0, 11]));
    assert_eq!(ops[6], BusOp::Command(cmd::RAMWR));
    assert_eq!(ops.len(), 7 + 2);
    match (&ops[7], &ops[8]) {
        (BusOp::Data(a), BusOp::Data(b)) => {
            assert_eq!(a.len(), 128);
            assert_eq!(b.len(), 200 - 128);
            assert_eq!(&a[..4], &[0xAB, 0xCD, 0xAB, 0xCD]);
        }
        _ => panic!("pixel payload expected"),
    }
}

#[test]
fn far_edge_is_clipped() {
    let lcd = ready();
    let pts = touched(&lcd.fill_rect(230, 235, 20, 20, 7));
    assert_eq!(pts.len(), 10 * 5);
    assert_eq!(pts.last(), Some(&(239, 239)));
}

#[test]
fn rect_outline_draws_border_only() {
    let lcd = ready();
    let pts = touched(&lcd.draw_rect(10, 10, 5, 4, 3));
    assert_eq!(pts.len(), 2 * 5 + 2 * 2);
    assert!(!pts.contains(&(12, 12)));
    assert!(pts.contains(&(14, 13)));
}

#[test]
fn pixel_is_written_msb_first() {
    let lcd = ready();
    let ops = lcd.draw_pixel(3, 4, 0xF81F);
    assert_eq!(ops.len(), 8);
    assert_eq!(ops[7], BusOp::Data(vec![0xF8, 0x1F]));
}

#[test]
fn initialize_runs_power_up_sequence() {
    let mut lcd = ATKMD0130::new(true);
    assert!(!lcd.is_initialized());
    let ops = lcd.initialize();
    assert!(lcd.is_initialized());
    assert_eq!(
        &ops[..6],
        &[
            BusOp::Reset(true),
            BusOp::Delay(10),
            BusOp::Reset(false),
            BusOp::Delay(10),
            BusOp::Reset(true),
            BusOp::Delay(120),
        ]
    );
    assert_eq!(ops[6], BusOp::Command(cmd::SLPOUT));
    assert_eq!(ops[8], BusOp::Command(cmd::COLMOD));
    assert_eq!(ops[9], BusOp::Data(vec![0x55]));
    assert_eq!(ops[11], BusOp::Data(vec![0x48]));
    assert_eq!(ops[12], BusOp::Command(cmd::INVON));
    assert!(ops.contains(&BusOp::Backlight(true)));
    assert_eq!(lcd.backlight(), Some(true));
    let mut panel = FakePanel::new();
    panel.play(&ops);
    assert_eq!(panel.pixels.len(), 240 * 240);
    assert!(panel.pixels.values().all(|&c| c == color::BLACK));
}

#[test]
fn backlight_without_line_does_nothing() {
    let mut lcd = ATKMD0130::new(false);
    let ops = lcd.initialize();
    assert!(!ops.contains(&BusOp::Backlight(true)));
    assert!(lcd.set_backlight(true).is_empty());
    assert_eq!(lcd.backlight(), None);
    let mut lit = ATKMD0130::new(true);
    assert_eq!(lit.set_backlight(false), vec![BusOp::Backlight(false)]);
    assert_eq!(lit.backlight(), Some(false));
}

#[test]
fn color_format_bytes() {
    let mut lcd = ready();
    assert_eq!(
        lcd.set_color_format(ColorFormat::RGB888),
        vec![BusOp::Command(cmd::COLMOD), BusOp::Data(vec![0x66])]
    );
    assert_eq!(lcd.color_format(), ColorFormat::RGB888);
}

#[test]
fn largest_rect_is_clipped_to_canvas() {
    let lcd = ready();
    let ops = lcd.fill_rect(0, 0, u16::MAX, u16::MAX, color::WHITE);
    assert_eq!(ops[2], BusOp::Data(vec![0, 239]));
    assert_eq!(ops[5], BusOp::Data(vec![0, 239]));
    assert_eq!(touched(&ops).len(), 240 * 240);
    assert!(lcd.draw_rect(239, 239, u16::MAX, u16::MAX, 1).len() > 0);
}

#[test]
fn extreme_line_stays_in_range() {
    let lcd = ready();
    let ops = lcd.draw_line(i16::MIN, i16::MIN, i16::MAX, i16::MAX, color::WHITE);
    let pts = touched(&ops);
    assert_eq!(pts.len(), 240);
    assert!(pts.iter().all(|&(x, y)| x == y));
}

#[test]
fn huge_circles_are_clipped() {
    let lcd = ready();
    assert!(touched(&lcd.draw_circle(u16::MAX, u16::MAX, u16::MAX, 1)).is_empty());
    let filled = touched(&lcd.fill_circle(120, 120, 1000, 1));
    assert_eq!(filled.len(), 240 * 240);
}
