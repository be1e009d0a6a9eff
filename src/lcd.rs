//! The display driver: device state, rotation and format settings, and the
//! drawing primitives, each of which yields the exact bus transcript to play.

use vstd::prelude::*;

use crate::bus::{
    emit, ops_view, set_address_window, stream_fill, stream_pixels, write_command,
    write_data, BusOp, Op,
};
use crate::cmd;
use crate::color;
use crate::display::{
    extent_of, format_byte, rotation_byte, ColorFormat, DisplayRotation, DISPLAY_HEIGHT,
    DISPLAY_WIDTH,
};
use crate::model::{
    frame_ops, frames_ops, lemma_frames_ops_append, lemma_frames_ops_one,
    lemma_points_frames_append, lemma_points_frames_step, min, points_frames, rect_frames,
    solid_frame, span_frames, Frame,
};
use crate::raster::{
    circle_count, circle_count_from, circle_points, circle_points_upto, circle_state, iabs,
    lemma_circle_state, lemma_line_end, lemma_line_walk, line_len, line_points, line_walk, octet,
    toward,
};
use crate::spi::{SpiError, SpiResult};

verus! {

/// Device state of one display.
pub struct ATKMD0130 {
    rotation: DisplayRotation,
    color_format: ColorFormat,
    backlight: Option<bool>,
    initialized: bool,
    window_width: u16,
    window_height: u16,
}

/// Abstract device state.
pub struct LcdState {
    /// Current orientation.
    pub rotation: DisplayRotation,
    /// Current pixel format.
    pub color_format: ColorFormat,
    /// Level of the backlight line; `None` when the display has none.
    pub backlight: Option<bool>,
    /// Width of the drawable region.
    pub width: int,
    /// Height of the drawable region.
    pub height: int,
    /// Whether the power-up sequence has been issued.
    pub initialized: bool,
}

impl View for ATKMD0130 {
    type V = LcdState;

    closed spec fn view(&self) -> LcdState {
        LcdState {
            rotation: self.rotation,
            color_format: self.color_format,
            backlight: self.backlight,
            width: self.window_width as int,
            height: self.window_height as int,
            initialized: self.initialized,
        }
    }
}

/// Operations that select an orientation.
pub open spec fn rotation_ops(r: DisplayRotation) -> Seq<Op> {
    seq![Op::Command(cmd::MADCTL), Op::Data(seq![rotation_byte(r)])]
}

/// Operations that select a pixel format.
pub open spec fn format_ops(f: ColorFormat) -> Seq<Op> {
    seq![Op::Command(cmd::COLMOD), Op::Data(seq![format_byte(f)])]
}

/// Hardware reset: line high, low for 10 ms, then high with 120 ms to settle.
pub open spec fn reset_ops() -> Seq<Op> {
    seq![
        Op::Reset(true),
        Op::Delay(10),
        Op::Reset(false),
        Op::Delay(10),
        Op::Reset(true),
        Op::Delay(120),
    ]
}

/// Positive polarity gamma calibration table.
pub open spec fn gamma_positive() -> Seq<u8> {
    seq![
        0x0fu8, 0x22, 0x1C, 0x1B, 0x08, 0x0F, 0x48, 0xB8, 0x34, 0x05, 0x0C, 0x09, 0x0F, 0x07, 0x00,
    ]
}

/// Negative polarity gamma calibration table.
pub open spec fn gamma_negative() -> Seq<u8> {
    seq![
        0x0Fu8, 0x23, 0x1C, 0x1B, 0x09, 0x10, 0x48, 0xB8, 0x34, 0x05, 0x0C, 0x09, 0x0F, 0x07, 0x00,
    ]
}

/// The power-up sequence: reset, sleep out, RGB565, portrait, inversion on,
/// both gamma tables, display on, backlight on where there is one, and the
/// whole panel cleared to black.
pub open spec fn init_ops(has_backlight: bool) -> Seq<Op> {
    reset_ops() + seq![Op::Command(cmd::SLPOUT), Op::Delay(120)] + format_ops(ColorFormat::RGB565)
        + rotation_ops(DisplayRotation::Portrait) + seq![
        Op::Command(cmd::INVON),
        Op::Command(cmd::GMCTRP1),
        Op::Data(gamma_positive()),
        Op::Command(cmd::GMCTRN1),
        Op::Data(gamma_negative()),
        Op::Delay(10),
        Op::Command(cmd::DISPON),
        Op::Delay(120),
    ] + (if has_backlight {
        seq![Op::Backlight(true)]
    } else {
        seq![]
    }) + frames_ops(
        rect_frames(
            DISPLAY_WIDTH as int,
            DISPLAY_HEIGHT as int,
            0,
            0,
            DISPLAY_WIDTH as int,
            DISPLAY_HEIGHT as int,
            color::BLACK,
        ),
    )
}

/// The outline of a rectangle: top and bottom rows, then left and right
/// columns, each drawn as a filled rectangle (the corners twice).
pub open spec fn outline_frames(w: int, h: int, x: int, y: int, rw: int, rh: int, c: u16) -> Seq<
    Frame,
> {
    if rw <= 0 || rh <= 0 {
        seq![]
    } else {
        rect_frames(w, h, x, y, rw, 1, c) + rect_frames(w, h, x, y + rh - 1, rw, 1, c)
            + rect_frames(w, h, x, y, 1, rh, c) + rect_frames(w, h, x + rw - 1, y, 1, rh, c)
    }
}

/// The four horizontal spans filled for one state of the circle recurrence:
/// rows `cy + y` and `cy - y` of half-width `x`, rows `cy + x` and `cy - x` of
/// half-width `y`.
pub open spec fn span_quad(w: int, h: int, cx: int, cy: int, x: int, y: int, c: u16) -> Seq<Frame> {
    span_frames(w, h, cx - x, cx + x, cy + y, c) + span_frames(w, h, cx - y, cx + y, cy + x, c)
        + span_frames(w, h, cx - x, cx + x, cy - y, c) + span_frames(w, h, cx - y, cx + y, cy - x, c)
}

/// The spans filled by the first `k` steps of the circle recurrence.
pub open spec fn disk_frames_upto(w: int, h: int, cx: int, cy: int, r: int, k: nat, c: u16) -> Seq<
    Frame,
>
    decreases k,
{
    if k == 0 {
        seq![]
    } else {
        let (x, y, e) = circle_state(r, (k - 1) as nat);
        disk_frames_upto(w, h, cx, cy, r, (k - 1) as nat, c) + span_quad(w, h, cx, cy, x, y, c)
    }
}

/// The spans of a filled circle, each clipped to the canvas.
pub open spec fn disk_frames(w: int, h: int, cx: int, cy: int, r: int, c: u16) -> Seq<Frame> {
    disk_frames_upto(w, h, cx, cy, r, circle_count(r), c)
}

/// Number of pixels an image blit writes: its rectangle clipped at the far
/// edges, or zero when the origin is off the canvas or the size is zero.
pub open spec fn image_area(w: int, h: int, x: int, y: int, iw: int, ih: int) -> int {
    if x < 0 || y < 0 || x >= w || y >= h || iw <= 0 || ih <= 0 {
        0
    } else {
        (min(x + iw - 1, w - 1) - x + 1) * (min(y + ih - 1, h - 1) - y + 1)
    }
}

/// The frame of an image blit: the clipped rectangle and the leading pixels
/// of the source that fill it.
pub open spec fn image_frames(w: int, h: int, x: int, y: int, iw: int, ih: int, px: Seq<u16>) -> Seq<
    Frame,
> {
    if image_area(w, h, x, y, iw, ih) == 0 {
        seq![]
    } else {
        seq![
            Frame {
                x0: x,
                y0: y,
                x1: min(x + iw - 1, w - 1),
                y1: min(y + ih - 1, h - 1),
                pixels: px.take(image_area(w, h, x, y, iw, ih)),
            },
        ]
    }
}

impl ATKMD0130 {
    /// The cached drawable region matches the orientation.
    pub open spec fn wf(&self) -> bool {
        self@.width == extent_of(self@.rotation).0 as int && self@.height == extent_of(
            self@.rotation,
        ).1 as int
    }

    /// A display in portrait orientation and RGB565, before initialization.
    /// `has_backlight` tells whether a backlight line is wired.
    pub fn new(has_backlight: bool) -> (r: Self)
        ensures
            r.wf(),
            r@.rotation == DisplayRotation::Portrait,
            r@.color_format == ColorFormat::RGB565,
            !r@.initialized,
            r@.backlight == (if has_backlight {
                Some(false)
            } else {
                None
            }),
    {
        ATKMD0130 {
            rotation: DisplayRotation::Portrait,
            color_format: ColorFormat::RGB565,
            backlight: if has_backlight {
                Some(false)
            } else {
                None
            },
            initialized: false,
            window_width: DISPLAY_WIDTH,
            window_height: DISPLAY_HEIGHT,
        }
    }

    /// Width of the drawable region.
    pub fn width(&self) -> (r: u16)
        ensures
            r as int == self@.width,
    {
        self.window_width
    }

    /// Height of the drawable region.
    pub fn height(&self) -> (r: u16)
        ensures
            r as int == self@.height,
    {
        self.window_height
    }

    /// Current orientation.
    pub fn rotation(&self) -> (r: DisplayRotation)
        ensures
            r == self@.rotation,
    {
        self.rotation
    }

    /// Current pixel format.
    pub fn color_format(&self) -> (r: ColorFormat)
        ensures
            r == self@.color_format,
    {
        self.color_format
    }

    /// Whether the power-up sequence has been issued.
    pub fn is_initialized(&self) -> (r: bool)
        ensures
            r == self@.initialized,
    {
        self.initialized
    }

    /// Level of the backlight line, `None` when there is none.
    pub fn backlight(&self) -> (r: Option<bool>)
        ensures
            r == self@.backlight,
    {
        self.backlight
    }

    /// Selects an orientation: writes its configuration byte and makes the
    /// drawable region the panel's extent, rows and columns exchanged for the
    /// landscape orientations.
    pub fn set_rotation(&mut self, rotation: DisplayRotation) -> (ops: Vec<BusOp>)
        ensures
            final(self).wf(),
            final(self)@.rotation == rotation,
            final(self)@.width == extent_of(rotation).0 as int,
            final(self)@.height == extent_of(rotation).1 as int,
            final(self)@.color_format == old(self)@.color_format,
            final(self)@.backlight == old(self)@.backlight,
            final(self)@.initialized == old(self)@.initialized,
            ops_view(ops@) == rotation_ops(rotation),
    {
        let mut out: Vec<BusOp> = Vec::new();
        self.apply_rotation(&mut out, rotation);
        assert(ops_view(out@) =~= rotation_ops(rotation));
        out
    }

    fn apply_rotation(&mut self, out: &mut Vec<BusOp>, rotation: DisplayRotation)
        ensures
            final(self).wf(),
            final(self)@ == (LcdState {
                rotation,
                width: extent_of(rotation).0 as int,
                height: extent_of(rotation).1 as int,
                ..old(self)@
            }),
            ops_view(final(out)@) == ops_view(old(out)@) + rotation_ops(rotation),
    {
        let ghost start = ops_view(out@);
        let value = rotation.config_byte();
        write_command(out, cmd::MADCTL);
        let data = vec![value];
        assert(data@ =~= seq![value]);
        write_data(out, data.as_slice());
        let (w, h) = rotation.extent();
        self.window_width = w;
        self.window_height = h;
        self.rotation = rotation;
        assert(ops_view(out@) =~= start + rotation_ops(rotation));
    }

    /// Selects a pixel format.
    pub fn set_color_format(&mut self, format: ColorFormat) -> (ops: Vec<BusOp>)
        ensures
            final(self)@ == (LcdState { color_format: format, ..old(self)@ }),
            ops_view(ops@) == format_ops(format),
    {
        let mut out: Vec<BusOp> = Vec::new();
        self.apply_color_format(&mut out, format);
        assert(ops_view(out@) =~= format_ops(format));
        out
    }

    fn apply_color_format(&mut self, out: &mut Vec<BusOp>, format: ColorFormat)
        ensures
            final(self)@ == (LcdState { color_format: format, ..old(self)@ }),
            ops_view(final(out)@) == ops_view(old(out)@) + format_ops(format),
    {
        let ghost start = ops_view(out@);
        let value = format.format_byte();
        write_command(out, cmd::COLMOD);
        let data = vec![value];
        assert(data@ =~= seq![value]);
        write_data(out, data.as_slice());
        self.color_format = format;
        assert(ops_view(out@) =~= start + format_ops(format));
    }

    /// Pulses the reset line with the controller's minimum timings.
    fn hardware_reset(out: &mut Vec<BusOp>)
        ensures
            ops_view(final(out)@) == ops_view(old(out)@) + reset_ops(),
    {
        let ghost start = ops_view(out@);
        emit(out, BusOp::Reset(true));
        emit(out, BusOp::Delay(10));
        emit(out, BusOp::Reset(false));
        emit(out, BusOp::Delay(10));
        emit(out, BusOp::Reset(true));
        emit(out, BusOp::Delay(120));
        assert(ops_view(out@) =~= start + reset_ops());
    }

    /// Brings the panel up: reset, wake, RGB565, portrait, inversion, gamma,
    /// display on, backlight on, and the panel cleared to black.
    pub fn initialize(&mut self) -> (ops: Vec<BusOp>)
        ensures
            final(self).wf(),
            final(self)@ == (LcdState {
                rotation: DisplayRotation::Portrait,
                color_format: ColorFormat::RGB565,
                backlight: if old(self)@.backlight.is_some() {
                    Some(true)
                } else {
                    None
                },
                width: DISPLAY_WIDTH as int,
                height: DISPLAY_HEIGHT as int,
                initialized: true,
            }),
            ops_view(ops@) == init_ops(old(self)@.backlight.is_some()),
    {
        let mut out: Vec<BusOp> = Vec::new();
        let ghost has_bl = self@.backlight.is_some();
        Self::hardware_reset(&mut out);
        write_command(&mut out, cmd::SLPOUT);
        emit(&mut out, BusOp::Delay(120));
        self.apply_color_format(&mut out, ColorFormat::RGB565);
        self.apply_rotation(&mut out, DisplayRotation::Portrait);
        write_command(&mut out, cmd::INVON);
        write_command(&mut out, cmd::GMCTRP1);
        let pos: Vec<u8> = vec![
            0x0f, 0x22, 0x1C, 0x1B, 0x08, 0x0F, 0x48, 0xB8, 0x34, 0x05, 0x0C, 0x09, 0x0F, 0x07, 0x00,
        ];
        assert(pos@ =~= gamma_positive());
        write_data(&mut out, pos.as_slice());
        write_command(&mut out, cmd::GMCTRN1);
        let neg: Vec<u8> = vec![
            0x0F, 0x23, 0x1C, 0x1B, 0x09, 0x10, 0x48, 0xB8, 0x34, 0x05, 0x0C, 0x09, 0x0F, 0x07, 0x00,
        ];
        assert(neg@ =~= gamma_negative());
        write_data(&mut out, neg.as_slice());
        emit(&mut out, BusOp::Delay(10));
        write_command(&mut out, cmd::DISPON);
        emit(&mut out, BusOp::Delay(120));
        if self.backlight.is_some() {
            emit(&mut out, BusOp::Backlight(true));
            self.backlight = Some(true);
        }
        self.initialized = true;
        self.push_rect(
            &mut out,
            0,
            0,
            self.window_width as u32,
            self.window_height as u32,
            color::BLACK,
        );
        assert(ops_view(out@) =~= init_ops(has_bl));
        out
    }

    /// Switches the backlight; without a backlight line nothing happens.
    pub fn set_backlight(&mut self, on: bool) -> (ops: Vec<BusOp>)
        ensures
            old(self)@.backlight.is_some() ==> final(self)@ == (LcdState {
                backlight: Some(on),
                ..old(self)@
            }) && ops_view(ops@) == seq![Op::Backlight(on)],
            old(self)@.backlight.is_none() ==> final(self)@ == old(self)@ && ops@.len() == 0,
    {
        let mut out: Vec<BusOp> = Vec::new();
        if self.backlight.is_some() {
            emit(&mut out, BusOp::Backlight(on));
            self.backlight = Some(on);
            assert(ops_view(out@) =~= seq![Op::Backlight(on)]);
        }
        out
    }

    /// Appends one solid frame on the canvas.
    fn push_solid(&self, out: &mut Vec<BusOp>, x0: u16, y0: u16, x1: u16, y1: u16, c: u16)
        requires
            self.wf(),
            x0 <= x1 < self@.width,
            y0 <= y1 < self@.height,
        ensures
            ops_view(final(out)@) == ops_view(old(out)@) + frame_ops(
                solid_frame(x0 as int, y0 as int, x1 as int, y1 as int, c),
            ),
    {
        let ghost start = ops_view(out@);
        set_address_window(out, x0, y0, x1, y1);
        let cols: usize = (x1 - x0 + 1) as usize;
        let rows: usize = (y1 - y0 + 1) as usize;
        assert(cols * rows <= 240 * 240) by (nonlinear_arith)
            requires
                cols <= 240,
                rows <= 240,
        ;
        let n: usize = cols * rows;
        stream_fill(out, c, n);
        assert(ops_view(out@) =~= start + frame_ops(
            solid_frame(x0 as int, y0 as int, x1 as int, y1 as int, c),
        ));
    }

    /// Appends a filled rectangle given by origin and size, clipped at the far
    /// edges; nothing for an origin off the canvas or a zero size.
    fn push_rect(&self, out: &mut Vec<BusOp>, x: u32, y: u32, w: u32, h: u32, c: u16)
        requires
            self.wf(),
            x + w <= u32::MAX,
            y + h <= u32::MAX,
        ensures
            ops_view(final(out)@) == ops_view(old(out)@) + frames_ops(
                rect_frames(self@.width, self@.height, x as int, y as int, w as int, h as int, c),
            ),
    {
        let ghost fs = rect_frames(
            self@.width,
            self@.height,
            x as int,
            y as int,
            w as int,
            h as int,
            c,
        );
        if x >= self.window_width as u32 || y >= self.window_height as u32 || w == 0 || h == 0 {
            assert(fs =~= Seq::<Frame>::empty());
            assert(ops_view(out@) =~= ops_view(out@) + frames_ops(fs));
            return ;
        }
        let x_end: u32 = if x + w - 1 < self.window_width as u32 {
            x + w - 1
        } else {
            self.window_width as u32 - 1
        };
        let y_end: u32 = if y + h - 1 < self.window_height as u32 {
            y + h - 1
        } else {
            self.window_height as u32 - 1
        };
        self.push_solid(out, x as u16, y as u16, x_end as u16, y_end as u16, c);
        proof {
            lemma_frames_ops_one(fs[0]);
            assert(fs =~= seq![fs[0]]);
        }
    }

    /// Appends a single pixel at a point given in signed coordinates;
    /// nothing for a point off the canvas.
    fn push_point(&self, out: &mut Vec<BusOp>, x: i64, y: i64, c: u16)
        requires
            self.wf(),
        ensures
            ops_view(final(out)@) == ops_view(old(out)@) + frames_ops(
                rect_frames(self@.width, self@.height, x as int, y as int, 1, 1, c),
            ),
    {
        let ghost fs = rect_frames(self@.width, self@.height, x as int, y as int, 1, 1, c);
        if x < 0 || y < 0 || x >= self.window_width as i64 || y >= self.window_height as i64 {
            assert(fs =~= Seq::<Frame>::empty());
            assert(ops_view(out@) =~= ops_view(out@) + frames_ops(fs));
            return ;
        }
        self.push_solid(out, x as u16, y as u16, x as u16, y as u16, c);
        proof {
            lemma_frames_ops_one(fs[0]);
            assert(fs =~= seq![fs[0]]);
        }
    }

    /// Draws one pixel; a point off the canvas is silently skipped.
    pub fn draw_pixel(&self, x: u16, y: u16, color: u16) -> (ops: Vec<BusOp>)
        requires
            self.wf(),
        ensures
            ops_view(ops@) == frames_ops(
                rect_frames(self@.width, self@.height, x as int, y as int, 1, 1, color),
            ),
            x >= self@.width || y >= self@.height ==> ops@.len() == 0,
    {
        let mut out: Vec<BusOp> = Vec::new();
        self.push_point(&mut out, x as i64, y as i64, color);
        assert(ops_view(out@) =~= Seq::<Op>::empty() + ops_view(out@));
        out
    }

    /// Fills a rectangle, clipped at the far edges of the canvas. An origin
    /// off the canvas or a zero size draws nothing.
    pub fn fill_rect(&self, x: u16, y: u16, width: u16, height: u16, color: u16) -> (ops: Vec<
        BusOp,
    >)
        requires
            self.wf(),
        ensures
            ops_view(ops@) == frames_ops(
                rect_frames(
                    self@.width,
                    self@.height,
                    x as int,
                    y as int,
                    width as int,
                    height as int,
                    color,
                ),
            ),
            x >= self@.width || y >= self@.height ==> ops@.len() == 0,
    {
        let mut out: Vec<BusOp> = Vec::new();
        self.push_rect(&mut out, x as u32, y as u32, width as u32, height as u32, color);
        out
    }

    /// A horizontal line of `width` pixels starting at `(x, y)`.
    pub fn draw_hline(&self, x: u16, y: u16, width: u16, color: u16) -> (ops: Vec<BusOp>)
        requires
            self.wf(),
        ensures
            ops_view(ops@) == frames_ops(
                rect_frames(self@.width, self@.height, x as int, y as int, width as int, 1, color),
            ),
            x >= self@.width || y >= self@.height ==> ops@.len() == 0,
    {
        self.fill_rect(x, y, width, 1, color)
    }

    /// A vertical line of `height` pixels starting at `(x, y)`.
    pub fn draw_vline(&self, x: u16, y: u16, height: u16, color: u16) -> (ops: Vec<BusOp>)
        requires
            self.wf(),
        ensures
            ops_view(ops@) == frames_ops(
                rect_frames(self@.width, self@.height, x as int, y as int, 1, height as int, color),
            ),
            x >= self@.width || y >= self@.height ==> ops@.len() == 0,
    {
        self.fill_rect(x, y, 1, height, color)
    }

    /// The outline of a rectangle as four independent edge lines.
    pub fn draw_rect(&self, x: u16, y: u16, width: u16, height: u16, color: u16) -> (ops: Vec<
        BusOp,
    >)
        requires
            self.wf(),
        ensures
            ops_view(ops@) == frames_ops(
                outline_frames(
                    self@.width,
                    self@.height,
                    x as int,
                    y as int,
                    width as int,
                    height as int,
                    color,
                ),
            ),
            x >= self@.width || y >= self@.height ==> ops@.len() == 0,
    {
        let mut out: Vec<BusOp> = Vec::new();
        let ghost (w, h) = (self@.width, self@.height);
        if width == 0 || height == 0 {
            assert(ops_view(out@) =~= frames_ops(Seq::<Frame>::empty()));
            return out;
        }
        let xs = x as u32;
        let ys = y as u32;
        let ws = width as u32;
        let hs = height as u32;
        self.push_rect(&mut out, xs, ys, ws, 1, color);
        self.push_rect(&mut out, xs, ys + hs - 1, ws, 1, color);
        self.push_rect(&mut out, xs, ys, 1, hs, color);
        self.push_rect(&mut out, xs + ws - 1, ys, 1, hs, color);
        proof {
            let a = rect_frames(w, h, x as int, y as int, width as int, 1, color);
            let b = rect_frames(w, h, x as int, y + height - 1, width as int, 1, color);
            let c = rect_frames(w, h, x as int, y as int, 1, height as int, color);
            let d = rect_frames(w, h, x + width - 1, y as int, 1, height as int, color);
            lemma_frames_ops_append(a, b);
            lemma_frames_ops_append(a + b, c);
            lemma_frames_ops_append(a + b + c, d);
            assert(ops_view(out@) =~= Seq::<Op>::empty() + frames_ops(a) + frames_ops(b)
                + frames_ops(c) + frames_ops(d));
        }
        out
    }

    /// Draws a line with the integer line walk, one pixel per visited point;
    /// points off the canvas are skipped and the walk goes on to `(x1, y1)`.
    pub fn draw_line(&self, x0: i16, y0: i16, x1: i16, y1: i16, color: u16) -> (ops: Vec<BusOp>)
        requires
            self.wf(),
        ensures
            ops_view(ops@) == frames_ops(
                points_frames(
                    self@.width,
                    self@.height,
                    line_points(x0 as int, y0 as int, x1 as int, y1 as int),
                    color,
                ),
            ),
    {
        let mut out: Vec<BusOp> = Vec::new();
        let ghost (w, h) = (self@.width, self@.height);
        let ghost pts = line_points(x0 as int, y0 as int, x1 as int, y1 as int);
        let ghost len = line_len(x0 as int, y0 as int, x1 as int, y1 as int);
        let dx: i32 = if x0 > x1 {
            x0 as i32 - x1 as i32
        } else {
            x1 as i32 - x0 as i32
        };
        let dy: i32 = if y0 > y1 {
            y0 as i32 - y1 as i32
        } else {
            y1 as i32 - y0 as i32
        };
        let sx: i32 = if x0 < x1 {
            1
        } else {
            -1
        };
        let sy: i32 = if y0 < y1 {
            1
        } else {
            -1
        };
        let mut err: i32 = if dx > dy {
            dx / 2
        } else {
            -(dy / 2)
        };
        let mut x: i32 = x0 as i32;
        let mut y: i32 = y0 as i32;
        let ghost mut k: nat = 0;
        assert(ops_view(out@) =~= frames_ops(points_frames(w, h, pts.take(0), color)));
        loop
            invariant_except_break
                ops_view(out@) == frames_ops(points_frames(w, h, pts.take(k as int), color)),
            invariant
                self.wf(),
                w == self@.width,
                h == self@.height,
                pts == line_points(x0 as int, y0 as int, x1 as int, y1 as int),
                len == line_len(x0 as int, y0 as int, x1 as int, y1 as int),
                pts.len() == len + 1,
                dx == iabs(x1 - x0),
                dy == iabs(y1 - y0),
                sx == (if x0 < x1 {
                    1i32
                } else {
                    -1i32
                }),
                sy == (if y0 < y1 {
                    1i32
                } else {
                    -1i32
                }),
                k <= len,
                x == toward(x0 as int, x1 as int, line_walk(dx as int, dy as int, k).0),
                y == toward(y0 as int, y1 as int, line_walk(dx as int, dy as int, k).1),
                err == line_walk(dx as int, dy as int, k).2,
            ensures
                ops_view(out@) == frames_ops(points_frames(w, h, pts, color)),
            decreases len - k,
        {
            proof {
                lemma_line_walk(dx as int, dy as int, k);
                lemma_line_end(dx as int, dy as int, k);
                lemma_points_frames_step(w, h, pts, k as int, color);
            }
            self.push_point(&mut out, x as i64, y as i64, color);
            if x == x1 as i32 && y == y1 as i32 {
                assert(pts.take(k + 1 as int) =~= pts);
                break ;
            }
            proof {
                let (kx, ky, e) = line_walk(dx as int, dy as int, k);
                let nk = (k + 1) as nat;
                assert(line_walk(dx as int, dy as int, nk) == (
                    if e > -dx { kx + 1 } else { kx },
                    if e < dy { ky + 1 } else { ky },
                    if e < dy { (if e > -dx { e - dy } else { e }) + dx } else { if e > -dx { e - dy } else { e } },
                ));
            }
            let e2 = err;
            if e2 > -dx {
                err = err - dy;
                x = x + sx;
            }
            if e2 < dy {
                err = err + dx;
                y = y + sy;
            }
            proof {
                k = k + 1;
            }
        }
        out
    }

    /// Appends a horizontal span `a..=b` on row `row`, clipped to the canvas.
    fn push_span(&self, out: &mut Vec<BusOp>, a: i64, b: i64, row: i64, c: u16)
        requires
            self.wf(),
        ensures
            ops_view(final(out)@) == ops_view(old(out)@) + frames_ops(
                span_frames(self@.width, self@.height, a as int, b as int, row as int, c),
            ),
    {
        let ghost fs = span_frames(self@.width, self@.height, a as int, b as int, row as int, c);
        let l: i64 = if a > 0 {
            a
        } else {
            0
        };
        let r: i64 = if b < self.window_width as i64 - 1 {
            b
        } else {
            self.window_width as i64 - 1
        };
        if row < 0 || row >= self.window_height as i64 || l > r {
            assert(fs =~= Seq::<Frame>::empty());
            assert(ops_view(out@) =~= ops_view(out@) + frames_ops(fs));
            return ;
        }
        self.push_solid(out, l as u16, row as u16, r as u16, row as u16, c);
        proof {
            lemma_frames_ops_one(fs[0]);
            assert(fs =~= seq![fs[0]]);
        }
    }

    /// Appends the `i`-th of a sequence of points, given the ones before it.
    fn push_nth(
        &self,
        out: &mut Vec<BusOp>,
        pts: Ghost<Seq<(int, int)>>,
        start: Ghost<Seq<Op>>,
        i: usize,
        x: i64,
        y: i64,
        c: u16,
    )
        requires
            self.wf(),
            i < pts@.len(),
            pts@[i as int] == (x as int, y as int),
            ops_view(old(out)@) == start@ + frames_ops(
                points_frames(self@.width, self@.height, pts@.take(i as int), c),
            ),
        ensures
            ops_view(final(out)@) == start@ + frames_ops(
                points_frames(self@.width, self@.height, pts@.take(i + 1), c),
            ),
    {
        self.push_point(out, x, y, c);
        proof {
            lemma_points_frames_step(self@.width, self@.height, pts@, i as int, c);
            assert(ops_view(out@) =~= start@ + frames_ops(
                points_frames(self@.width, self@.height, pts@.take(i + 1), c),
            ));
        }
    }

    /// Appends the eight symmetric points of one circle state.
    fn push_octet(&self, out: &mut Vec<BusOp>, cx: i64, cy: i64, x: i64, y: i64, c: u16)
        requires
            self.wf(),
            -0x10000 <= cx <= 0x10000,
            -0x10000 <= cy <= 0x10000,
            -0x10000 <= x <= 0x10000,
            -0x10000 <= y <= 0x10000,
        ensures
            ops_view(final(out)@) == ops_view(old(out)@) + frames_ops(
                points_frames(
                    self@.width,
                    self@.height,
                    octet(cx as int, cy as int, x as int, y as int),
                    c,
                ),
            ),
    {
        let ghost (w, h) = (self@.width, self@.height);
        let ghost oc = octet(cx as int, cy as int, x as int, y as int);
        let ghost start = ops_view(out@);
        assert(start =~= start + frames_ops(points_frames(w, h, oc.take(0), c)));
        self.push_nth(out, Ghost(oc), Ghost(start), 0, cx + x, cy + y, c);
        self.push_nth(out, Ghost(oc), Ghost(start), 1, cx + y, cy + x, c);
        self.push_nth(out, Ghost(oc), Ghost(start), 2, cx - y, cy + x, c);
        self.push_nth(out, Ghost(oc), Ghost(start), 3, cx - x, cy + y, c);
        self.push_nth(out, Ghost(oc), Ghost(start), 4, cx - x, cy - y, c);
        self.push_nth(out, Ghost(oc), Ghost(start), 5, cx - y, cy - x, c);
        self.push_nth(out, Ghost(oc), Ghost(start), 6, cx + y, cy - x, c);
        self.push_nth(out, Ghost(oc), Ghost(start), 7, cx + x, cy - y, c);
        assert(oc.take(8) =~= oc);
    }

    /// Appends the four spans of one circle state.
    fn push_quad(&self, out: &mut Vec<BusOp>, cx: i64, cy: i64, x: i64, y: i64, c: u16)
        requires
            self.wf(),
            -0x10000 <= cx <= 0x10000,
            -0x10000 <= cy <= 0x10000,
            -0x10000 <= x <= 0x10000,
            -0x10000 <= y <= 0x10000,
        ensures
            ops_view(final(out)@) == ops_view(old(out)@) + frames_ops(
                span_quad(self@.width, self@.height, cx as int, cy as int, x as int, y as int, c),
            ),
    {
        let ghost (w, h) = (self@.width, self@.height);
        let ghost (gcx, gcy, gx, gy) = (cx as int, cy as int, x as int, y as int);
        let ghost start = ops_view(out@);
        let ghost s1 = span_frames(w, h, gcx - gx, gcx + gx, gcy + gy, c);
        let ghost s2 = span_frames(w, h, gcx - gy, gcx + gy, gcy + gx, c);
        let ghost s3 = span_frames(w, h, gcx - gx, gcx + gx, gcy - gy, c);
        let ghost s4 = span_frames(w, h, gcx - gy, gcx + gy, gcy - gx, c);
        self.push_span(out, cx - x, cx + x, cy + y, c);
        self.push_span(out, cx - y, cx + y, cy + x, c);
        proof {
            lemma_frames_ops_append(s1, s2);
            assert(ops_view(out@) =~= start + frames_ops(s1 + s2));
        }
        self.push_span(out, cx - x, cx + x, cy - y, c);
        proof {
            lemma_frames_ops_append(s1 + s2, s3);
            assert(ops_view(out@) =~= start + frames_ops(s1 + s2 + s3));
        }
        self.push_span(out, cx - y, cx + y, cy - x, c);
        proof {
            lemma_frames_ops_append(s1 + s2 + s3, s4);
            assert(ops_view(out@) =~= start + frames_ops(s1 + s2 + s3 + s4));
        }
    }

    /// Draws the outline of a circle with the midpoint recurrence, eight
    /// symmetric points per step; points off the canvas are skipped one by one.
    pub fn draw_circle(&self, x_center: u16, y_center: u16, radius: u16, color: u16) -> (ops: Vec<
        BusOp,
    >)
        requires
            self.wf(),
        ensures
            ops_view(ops@) == frames_ops(
                points_frames(
                    self@.width,
                    self@.height,
                    circle_points(x_center as int, y_center as int, radius as int),
                    color,
                ),
            ),
    {
        let mut out: Vec<BusOp> = Vec::new();
        let ghost (w, h) = (self@.width, self@.height);
        let ghost (gcx, gcy, r) = (x_center as int, y_center as int, radius as int);
        let cx = x_center as i64;
        let cy = y_center as i64;
        let mut x: i64 = radius as i64;
        let mut y: i64 = 0;
        let mut err: i64 = 0;
        let ghost mut k: nat = 0;
        assert(ops_view(out@) =~= frames_ops(points_frames(w, h, circle_points_upto(gcx, gcy, r, 0), color)));
        while x >= y
            invariant
                self.wf(),
                w == self@.width,
                h == self@.height,
                gcx == cx,
                gcy == cy,
                0 <= cx <= 0xffff,
                0 <= cy <= 0xffff,
                0 <= r <= 0xffff,
                k <= r + 1,
                (x as int, y as int, err as int) == circle_state(r, k),
                circle_count(r) == circle_count_from(r, k),
                ops_view(out@) == frames_ops(
                    points_frames(w, h, circle_points_upto(gcx, gcy, r, k), color),
                ),
            decreases r + 1 - k,
        {
            proof {
                lemma_circle_state(r, k);
                lemma_points_frames_append(
                    w,
                    h,
                    circle_points_upto(gcx, gcy, r, k),
                    octet(gcx, gcy, x as int, y as int),
                    color,
                );
                lemma_frames_ops_append(
                    points_frames(w, h, circle_points_upto(gcx, gcy, r, k), color),
                    points_frames(w, h, octet(gcx, gcy, x as int, y as int), color),
                );
                assert(circle_points_upto(gcx, gcy, r, k + 1) == circle_points_upto(gcx, gcy, r, k)
                    + octet(gcx, gcy, x as int, y as int));
                assert(k * (4 * r + 6) <= 0x10001 * 0x40000) by (nonlinear_arith)
                    requires
                        k <= r + 1,
                        r <= 0xffff,
                ;
            }
            self.push_octet(&mut out, cx, cy, x, y, color);
            y = y + 1;
            if err <= 0 {
                err = err + 2 * y + 1;
            }
            if err > 0 {
                x = x - 1;
                err = err - (2 * x + 1);
            }
            proof {
                k = k + 1;
            }
        }
        out
    }

    /// Fills a circle with the midpoint recurrence, four horizontal spans per
    /// step. Each span is clipped to the canvas at both ends, so a circle that
    /// crosses the left or top edge keeps its visible part.
    pub fn fill_circle(&self, x_center: u16, y_center: u16, radius: u16, color: u16) -> (ops: Vec<
        BusOp,
    >)
        requires
            self.wf(),
        ensures
            ops_view(ops@) == frames_ops(
                disk_frames(
                    self@.width,
                    self@.height,
                    x_center as int,
                    y_center as int,
                    radius as int,
                    color,
                ),
            ),
    {
        let mut out: Vec<BusOp> = Vec::new();
        let ghost (w, h) = (self@.width, self@.height);
        let ghost (gcx, gcy, r) = (x_center as int, y_center as int, radius as int);
        let cx = x_center as i64;
        let cy = y_center as i64;
        let mut x: i64 = radius as i64;
        let mut y: i64 = 0;
        let mut err: i64 = 0;
        let ghost mut k: nat = 0;
        assert(ops_view(out@) =~= frames_ops(disk_frames_upto(w, h, gcx, gcy, r, 0, color)));
        while x >= y
            invariant
                self.wf(),
                w == self@.width,
                h == self@.height,
                gcx == cx,
                gcy == cy,
                0 <= cx <= 0xffff,
                0 <= cy <= 0xffff,
                0 <= r <= 0xffff,
                k <= r + 1,
                (x as int, y as int, err as int) == circle_state(r, k),
                circle_count(r) == circle_count_from(r, k),
                ops_view(out@) == frames_ops(disk_frames_upto(w, h, gcx, gcy, r, k, color)),
            decreases r + 1 - k,
        {
            proof {
                lemma_circle_state(r, k);
                assert(k * (4 * r + 6) <= 0x10001 * 0x40000) by (nonlinear_arith)
                    requires
                        k <= r + 1,
                        r <= 0xffff,
                ;
            }
            let ghost before = disk_frames_upto(w, h, gcx, gcy, r, k, color);
            let ghost quad = span_quad(w, h, gcx, gcy, x as int, y as int, color);
            self.push_quad(&mut out, cx, cy, x, y, color);
            proof {
                lemma_frames_ops_append(before, quad);
                assert(before + quad =~= disk_frames_upto(w, h, gcx, gcy, r, k + 1, color));
            }
            y = y + 1;
            if err <= 0 {
                err = err + 2 * y + 1;
            }
            if err > 0 {
                x = x - 1;
                err = err - (2 * x + 1);
            }
            proof {
                k = k + 1;
            }
        }
        out
    }

    /// Copies an image into a rectangle, row-major, clipped at the far edges.
    /// Fails with `InvalidParameter`, before any bus traffic, when `image_data`
    /// holds fewer pixels than the clipped rectangle; an origin off the canvas
    /// or a zero size draws nothing.
    pub fn draw_image(&self, x: u16, y: u16, width: u16, height: u16, image_data: &[u16]) -> (r:
        SpiResult<Vec<BusOp>>)
        requires
            self.wf(),
        ensures
            image_area(self@.width, self@.height, x as int, y as int, width as int, height as int)
                > image_data@.len() <==> r.is_err(),
            r.is_err() ==> r == Err::<Vec<BusOp>, SpiError>(SpiError::InvalidParameter),
            r matches Ok(ops) ==> ops_view(ops@) == frames_ops(
                image_frames(
                    self@.width,
                    self@.height,
                    x as int,
                    y as int,
                    width as int,
                    height as int,
                    image_data@,
                ),
            ),
            x >= self@.width || y >= self@.height ==> (r matches Ok(ops) && ops@.len() == 0),
    {
        let mut out: Vec<BusOp> = Vec::new();
        let ghost (w, h) = (self@.width, self@.height);
        let ghost fs = image_frames(
            w,
            h,
            x as int,
            y as int,
            width as int,
            height as int,
            image_data@,
        );
        if x >= self.window_width || y >= self.window_height || width == 0 || height == 0 {
            assert(fs =~= Seq::<Frame>::empty());
            assert(ops_view(out@) =~= frames_ops(fs));
            return Ok(out);
        }
        let x_end: u16 = if (x as u32) + (width as u32) - 1 < self.window_width as u32 {
            x + width - 1
        } else {
            self.window_width - 1
        };
        let y_end: u16 = if (y as u32) + (height as u32) - 1 < self.window_height as u32 {
            y + height - 1
        } else {
            self.window_height - 1
        };
        let cols: usize = (x_end - x + 1) as usize;
        let rows: usize = (y_end - y + 1) as usize;
        assert(cols * rows <= 240 * 240) by (nonlinear_arith)
            requires
                cols <= 240,
                rows <= 240,
        ;
        let n: usize = cols * rows;
        assert(cols * rows >= 1) by (nonlinear_arith)
            requires
                cols >= 1,
                rows >= 1,
        ;
        assert(image_area(w, h, x as int, y as int, width as int, height as int) == n);
        if n > image_data.len() {
            return Err(SpiError::InvalidParameter);
        }
        set_address_window(&mut out, x, y, x_end, y_end);
        stream_pixels(&mut out, image_data, n);
        proof {
            lemma_frames_ops_one(fs[0]);
            assert(fs =~= seq![fs[0]]);
            assert(ops_view(out@) =~= frame_ops(fs[0]));
        }
        Ok(out)
    }
}

} // verus!
