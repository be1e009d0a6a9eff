//! What a transcript does to the panel: address-window writes ("frames") and
//! the colors they leave behind.

use vstd::prelude::*;

use crate::bus::{Op, pixel_bytes, solid, stream_ops, window_ops};

verus! {

/// One address-window write: the inclusive rectangle `(x0, y0)..=(x1, y1)` in
/// panel coordinates, then `pixels` in row-major order.
pub struct Frame {
    pub x0: int,
    pub y0: int,
    pub x1: int,
    pub y1: int,
    pub pixels: Seq<u16>,
}

/// The operations that carry out one frame.
pub open spec fn frame_ops(f: Frame) -> Seq<Op> {
    window_ops(f.x0 as u16, f.y0 as u16, f.x1 as u16, f.y1 as u16) + stream_ops(
        pixel_bytes(f.pixels),
    )
}

/// The operations that carry out a sequence of frames, in order.
pub open spec fn frames_ops(fs: Seq<Frame>) -> Seq<Op>
    decreases fs.len(),
{
    if fs.len() == 0 {
        seq![]
    } else {
        frames_ops(fs.drop_last()) + frame_ops(fs.last())
    }
}

/// Whether a frame's rectangle holds the point.
pub open spec fn covers(f: Frame, x: int, y: int) -> bool {
    f.x0 <= x <= f.x1 && f.y0 <= y <= f.y1
}

/// Position of a point in the row-major order of a frame's rectangle.
pub open spec fn frame_index(f: Frame, x: int, y: int) -> int {
    (y - f.y0) * (f.x1 - f.x0 + 1) + (x - f.x0)
}

/// The color last written at a point by a sequence of frames, if any.
pub open spec fn shown(fs: Seq<Frame>, x: int, y: int) -> Option<u16>
    decreases fs.len(),
{
    if fs.len() == 0 {
        None
    } else {
        let f = fs.last();
        if covers(f, x, y) && frame_index(f, x, y) < f.pixels.len() {
            Some(f.pixels[frame_index(f, x, y)])
        } else {
            shown(fs.drop_last(), x, y)
        }
    }
}

/// A frame filled with one color.
pub open spec fn solid_frame(x0: int, y0: int, x1: int, y1: int, c: u16) -> Frame {
    Frame { x0, y0, x1, y1, pixels: solid(c, ((x1 - x0 + 1) * (y1 - y0 + 1)) as nat) }
}

pub open spec fn min(a: int, b: int) -> int {
    if a <= b {
        a
    } else {
        b
    }
}

pub open spec fn max(a: int, b: int) -> int {
    if a >= b {
        a
    } else {
        b
    }
}

/// A filled rectangle on a `w` by `h` canvas: nothing when the origin lies
/// off the canvas or the size is zero, else one frame clipped at the far edges.
pub open spec fn rect_frames(w: int, h: int, x: int, y: int, rw: int, rh: int, c: u16) -> Seq<
    Frame,
> {
    if x < 0 || y < 0 || x >= w || y >= h || rw <= 0 || rh <= 0 {
        seq![]
    } else {
        seq![solid_frame(x, y, min(x + rw - 1, w - 1), min(y + rh - 1, h - 1), c)]
    }
}

/// A horizontal span `a..=b` on row `row`, clipped to the canvas at both ends.
pub open spec fn span_frames(w: int, h: int, a: int, b: int, row: int, c: u16) -> Seq<Frame> {
    let l = max(a, 0);
    let r = min(b, w - 1);
    if row < 0 || row >= h || l > r {
        seq![]
    } else {
        seq![solid_frame(l, row, r, row, c)]
    }
}

/// Single pixels at each point in turn; points off the canvas are skipped.
pub open spec fn points_frames(w: int, h: int, pts: Seq<(int, int)>, c: u16) -> Seq<Frame>
    decreases pts.len(),
{
    if pts.len() == 0 {
        seq![]
    } else {
        points_frames(w, h, pts.drop_last(), c) + rect_frames(
            w,
            h,
            pts.last().0,
            pts.last().1,
            1,
            1,
            c,
        )
    }
}

pub proof fn lemma_frames_ops_append(a: Seq<Frame>, b: Seq<Frame>)
    ensures
        frames_ops(a + b) == frames_ops(a) + frames_ops(b),
    decreases b.len(),
{
    if b.len() == 0 {
        assert(a + b =~= a);
        assert(frames_ops(b) =~= seq![]);
        assert(frames_ops(a) + frames_ops(b) =~= frames_ops(a));
    } else {
        lemma_frames_ops_append(a, b.drop_last());
        assert((a + b).drop_last() =~= a + b.drop_last());
        assert((a + b).last() == b.last());
        assert(frames_ops(a + b) =~= frames_ops(a) + frames_ops(b));
    }
}

pub proof fn lemma_frames_ops_push(a: Seq<Frame>, f: Frame)
    ensures
        frames_ops(a.push(f)) == frames_ops(a) + frame_ops(f),
{
    assert(a.push(f).drop_last() =~= a);
}

pub proof fn lemma_frames_ops_one(f: Frame)
    ensures
        frames_ops(seq![f]) == frame_ops(f),
{
    lemma_frames_ops_push(seq![], f);
    assert(seq![f] =~= Seq::<Frame>::empty().push(f));
    assert(frames_ops(Seq::<Frame>::empty()) + frame_ops(f) =~= frame_ops(f));
}

pub proof fn lemma_points_frames_append(w: int, h: int, a: Seq<(int, int)>, b: Seq<(int, int)>, c: u16)
    ensures
        points_frames(w, h, a + b, c) == points_frames(w, h, a, c) + points_frames(w, h, b, c),
    decreases b.len(),
{
    if b.len() == 0 {
        assert(a + b =~= a);
        assert(points_frames(w, h, a, c) + points_frames(w, h, b, c) =~= points_frames(w, h, a, c));
    } else {
        lemma_points_frames_append(w, h, a, b.drop_last(), c);
        assert((a + b).drop_last() =~= a + b.drop_last());
        assert(points_frames(w, h, a + b, c) =~= points_frames(w, h, a, c) + points_frames(
            w,
            h,
            b,
            c,
        ));
    }
}

/// Plotting one more point extends the frames of a prefix.
pub proof fn lemma_points_frames_step(w: int, h: int, pts: Seq<(int, int)>, k: int, c: u16)
    requires
        0 <= k < pts.len(),
    ensures
        frames_ops(points_frames(w, h, pts.take(k + 1), c)) == frames_ops(
            points_frames(w, h, pts.take(k), c),
        ) + frames_ops(rect_frames(w, h, pts[k].0, pts[k].1, 1, 1, c)),
{
    assert(pts.take(k + 1).drop_last() =~= pts.take(k));
    lemma_frames_ops_append(
        points_frames(w, h, pts.take(k), c),
        rect_frames(w, h, pts[k].0, pts[k].1, 1, 1, c),
    );
}

} // verus!
