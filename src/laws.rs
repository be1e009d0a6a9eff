//! Properties that relate several calls or hold of every input.

use vstd::prelude::*;

use crate::display::{extent_of, rotation_byte, DisplayRotation};
use crate::lcd::{disk_frames, disk_frames_upto, span_quad};
use crate::model::{covers, frame_index, max, min, rect_frames, shown, solid_frame, span_frames, Frame};
use crate::raster::{
    circle_count, circle_points, circle_points_upto, circle_state, iabs,
    lemma_circle_count_from, lemma_circle_state, lemma_circle_x_between, lemma_circle_x_monotone,
    lemma_circle_x_step, lemma_line_end, line_len, line_points, octet,
};

verus! {

/// Every orientation presents a 240 by 240 canvas, and no two orientations
/// share a configuration byte.
pub proof fn lemma_rotation_extent_and_byte(a: DisplayRotation, b: DisplayRotation)
    ensures
        extent_of(a) == (240u16, 240u16),
        a != b ==> rotation_byte(a) != rotation_byte(b),
{
    assert(0x40u8 | 0x08u8 == 0x48u8) by (bit_vector);
    assert(0x20u8 | 0x08u8 == 0x28u8) by (bit_vector);
    assert(0x80u8 | 0x08u8 == 0x88u8) by (bit_vector);
    assert(0x20u8 | 0x80u8 | 0x08u8 == 0xA8u8) by (bit_vector);
}

/// What one solid frame shows at a point of its rectangle.
proof fn lemma_solid_frame_shows(before: Seq<Frame>, f: Frame, c: u16, x: int, y: int)
    requires
        f == solid_frame(f.x0, f.y0, f.x1, f.y1, c),
        f.x0 <= f.x1,
        f.y0 <= f.y1,
    ensures
        shown(before.push(f), x, y) == (if covers(f, x, y) {
            Some(c)
        } else {
            shown(before, x, y)
        }),
{
    assert(before.push(f).drop_last() =~= before);
    if covers(f, x, y) {
        let cols = f.x1 - f.x0 + 1;
        let rows = f.y1 - f.y0 + 1;
        assert(frame_index(f, x, y) < cols * rows) by (nonlinear_arith)
            requires
                f.x0 <= x <= f.x1,
                f.y0 <= y <= f.y1,
                cols == f.x1 - f.x0 + 1,
                rows == f.y1 - f.y0 + 1,
                frame_index(f, x, y) == (y - f.y0) * cols + (x - f.x0),
        ;
        assert(frame_index(f, x, y) >= 0) by (nonlinear_arith)
            requires
                f.x0 <= x <= f.x1,
                f.y0 <= y <= f.y1,
                frame_index(f, x, y) == (y - f.y0) * (f.x1 - f.x0 + 1) + (x - f.x0),
        ;
    }
}

/// Filling the whole canvas with `c` leaves `c` at every point of it, so a
/// read-back of any corner or of the center gives `c`.
pub proof fn lemma_full_fill_shows_color(r: DisplayRotation, c: u16, x: int, y: int)
    requires
        0 <= x < extent_of(r).0,
        0 <= y < extent_of(r).1,
    ensures
        shown(
            rect_frames(
                extent_of(r).0 as int,
                extent_of(r).1 as int,
                0,
                0,
                extent_of(r).0 as int,
                extent_of(r).1 as int,
                c,
            ),
            x,
            y,
        ) == Some(c),
{
    let (w, h) = (extent_of(r).0 as int, extent_of(r).1 as int);
    let fs = rect_frames(w, h, 0, 0, w, h, c);
    let f = fs[0];
    assert(fs =~= Seq::<Frame>::empty().push(f));
    lemma_solid_frame_shows(Seq::<Frame>::empty(), f, c, x, y);
}

/// Filling a rectangle and then filling it again with another color leaves
/// only the second color: every point of the clipped rectangle shows `c2`
/// and no other point shows anything.
pub proof fn lemma_refill_shows_second_color(
    w: int,
    h: int,
    x: int,
    y: int,
    rw: int,
    rh: int,
    c1: u16,
    c2: u16,
    px: int,
    py: int,
)
    ensures
        ({
            let first = rect_frames(w, h, x, y, rw, rh, c1);
            let second = rect_frames(w, h, x, y, rw, rh, c2);
            shown(first + second, px, py) == (if second.len() > 0 && covers(second[0], px, py) {
                Some(c2)
            } else {
                None::<u16>
            })
        }),
{
    let first = rect_frames(w, h, x, y, rw, rh, c1);
    let second = rect_frames(w, h, x, y, rw, rh, c2);
    if second.len() == 0 {
        assert(first =~= Seq::<Frame>::empty());
        assert(first + second =~= Seq::<Frame>::empty());
    } else {
        let f1 = first[0];
        let f2 = second[0];
        assert(first + second =~= Seq::<Frame>::empty().push(f1).push(f2));
        lemma_solid_frame_shows(Seq::<Frame>::empty().push(f1), f2, c2, px, py);
        lemma_solid_frame_shows(Seq::<Frame>::empty(), f1, c1, px, py);
        assert(Seq::<Frame>::empty().push(f1).drop_last() =~= Seq::<Frame>::empty());
    }
}

/// A line starts at its first endpoint, ends at its second, and reaches the
/// second at no earlier point.
pub proof fn lemma_line_endpoints(x0: int, y0: int, x1: int, y1: int)
    ensures
        line_points(x0, y0, x1, y1)[0] == (x0, y0),
        line_points(x0, y0, x1, y1).last() == (x1, y1),
        forall|k: int|
            0 <= k < line_len(x0, y0, x1, y1) ==> #[trigger] line_points(x0, y0, x1, y1)[k] != (
                x1,
                y1,
            ),
{
    let dx = iabs(x1 - x0);
    let dy = iabs(y1 - y0);
    let n = line_len(x0, y0, x1, y1);
    lemma_line_end(dx, dy, n);
    assert forall|k: int| 0 <= k < n implies #[trigger] line_points(x0, y0, x1, y1)[k] != (
        x1,
        y1,
    ) by {
        lemma_line_end(dx, dy, k as nat);
    }
}

/// Quarter turn of a point about a center.
pub open spec fn quarter_turn(cx: int, cy: int, p: (int, int)) -> (int, int) {
    (cx - (p.1 - cy), cy + (p.0 - cx))
}

proof fn lemma_circle_points_len(cx: int, cy: int, r: int, k: nat)
    ensures
        circle_points_upto(cx, cy, r, k).len() == 8 * k,
    decreases k,
{
    if k > 0 {
        lemma_circle_points_len(cx, cy, r, (k - 1) as nat);
    }
}

proof fn lemma_circle_upto_symmetric(cx: int, cy: int, r: int, k: nat, i: int)
    requires
        0 <= i < circle_points_upto(cx, cy, r, k).len(),
    ensures
        exists|j: int|
            0 <= j < circle_points_upto(cx, cy, r, k).len() && circle_points_upto(cx, cy, r, k)[j]
                == quarter_turn(cx, cy, circle_points_upto(cx, cy, r, k)[i]),
    decreases k,
{
    let pts = circle_points_upto(cx, cy, r, k);
    let km = (k - 1) as nat;
    let prev = circle_points_upto(cx, cy, r, km);
    let (x, y, e) = circle_state(r, km);
    let oc = octet(cx, cy, x, y);
    lemma_circle_points_len(cx, cy, r, km);
    assert(pts == prev + oc);
    let base = prev.len() as int;
    if i < base {
        lemma_circle_upto_symmetric(cx, cy, r, km, i);
        let j = choose|j: int|
            0 <= j < prev.len() && prev[j] == quarter_turn(cx, cy, prev[i]);
        assert(pts[j] == prev[j]);
    } else {
        let t = i - base;
        let u = if t == 0 {
            2
        } else if t == 1 {
            3
        } else if t == 2 {
            4
        } else if t == 3 {
            5
        } else if t == 4 {
            6
        } else if t == 5 {
            7
        } else if t == 6 {
            0
        } else {
            1
        };
        assert(pts[base + u] == oc[u]);
        assert(pts[i] == oc[t]);
        assert(pts[base + u] == quarter_turn(cx, cy, pts[i]));
    }
}

/// The outline drawn by the midpoint recurrence is closed under a quarter
/// turn about its center: the point a quarter turn from any plotted point is
/// plotted too.
pub proof fn lemma_circle_quarter_turn(cx: int, cy: int, r: int, p: (int, int))
    requires
        circle_points(cx, cy, r).contains(p),
    ensures
        circle_points(cx, cy, r).contains(quarter_turn(cx, cy, p)),
{
    let pts = circle_points(cx, cy, r);
    let i = choose|i: int| 0 <= i < pts.len() && pts[i] == p;
    lemma_circle_upto_symmetric(cx, cy, r, crate::raster::circle_count(r), i);
}

/// Whether the spans of step `j` of the circle recurrence hold the offset
/// `(dx, dy)` from the center: rows `±y` out to `±x`, rows `±x` out to `±y`.
pub open spec fn step_spans_hold(r: int, j: nat, dx: int, dy: int) -> bool {
    let (x, y, e) = circle_state(r, j);
    (iabs(dy) == y && iabs(dx) <= x) || (iabs(dy) == x && iabs(dx) <= y)
}

/// Whether the spans of one of the first `k` steps hold the offset.
pub open spec fn spans_upto_hold(r: int, k: nat, dx: int, dy: int) -> bool {
    exists|j: nat| j < k && #[trigger] step_spans_hold(r, j, dx, dy)
}

/// Whether the filled circle of radius `r` holds the offset `(dx, dy)`.
pub open spec fn in_disk(r: int, dx: int, dy: int) -> bool {
    spans_upto_hold(r, circle_count(r), dx, dy)
}

/// The filled circle is closed under a quarter turn.
pub proof fn lemma_disk_quarter_turn(r: int, dx: int, dy: int)
    requires
        r >= 0,
        in_disk(r, dx, dy),
    ensures
        in_disk(r, -dy, dx),
{
    let k = circle_count(r);
    lemma_circle_count_from(r, 0);
    let j = choose|j: nat| j < k && #[trigger] step_spans_hold(r, j, dx, dy);
    lemma_circle_state(r, j);
    let a = iabs(dx);
    let b = iabs(dy);
    let xj = circle_state(r, j).0;
    assert(xj >= j);
    if b == j && a <= xj {
        if a <= j {
            let t = a as nat;
            lemma_circle_x_monotone(r, t, j);
            lemma_circle_state(r, t);
            assert(step_spans_hold(r, t, -dy, dx));
        } else {
            let last = (k - 1) as nat;
            lemma_circle_x_step(r, last);
            assert(last + 1 == k);
            let xl = circle_state(r, last).0;
            if a < xl {
                let t = a as nat;
                lemma_circle_x_monotone(r, t, last);
                lemma_circle_state(r, t);
                assert(step_spans_hold(r, t, -dy, dx));
            } else {
                lemma_circle_x_monotone(r, j, last);
                lemma_circle_x_between(r, j, last, a);
                let m = choose|m: nat| j <= m <= last && circle_state(r, m).0 == a;
                lemma_circle_state(r, m);
                assert(step_spans_hold(r, m, -dy, dx));
            }
        }
    } else {
        assert(b == xj && a <= j);
        let t = a as nat;
        lemma_circle_x_monotone(r, t, j);
        lemma_circle_state(r, t);
        assert(step_spans_hold(r, t, -dy, dx));
    }
}

/// What a concatenation of frame sequences shows: the later one where it
/// wrote, the earlier one elsewhere.
pub proof fn lemma_shown_append(a: Seq<Frame>, b: Seq<Frame>, x: int, y: int)
    ensures
        shown(a + b, x, y) == (if shown(b, x, y).is_some() {
            shown(b, x, y)
        } else {
            shown(a, x, y)
        }),
    decreases b.len(),
{
    if b.len() == 0 {
        assert(a + b =~= a);
    } else {
        lemma_shown_append(a, b.drop_last(), x, y);
        assert((a + b).drop_last() =~= a + b.drop_last());
    }
}

/// What a clipped span shows.
proof fn lemma_span_shows(w: int, h: int, a: int, b: int, row: int, c: u16, px: int, py: int)
    ensures
        shown(span_frames(w, h, a, b, row, c), px, py) == (if 0 <= py < h && py == row && max(a, 0)
            <= px <= min(b, w - 1) {
            Some(c)
        } else {
            None::<u16>
        }),
{
    let fs = span_frames(w, h, a, b, row, c);
    if fs.len() > 0 {
        assert(fs =~= Seq::<Frame>::empty().push(fs[0]));
        lemma_solid_frame_shows(Seq::<Frame>::empty(), fs[0], c, px, py);
    }
}

/// What the four spans of one step show.
proof fn lemma_quad_shows(w: int, h: int, cx: int, cy: int, x: int, y: int, c: u16, px: int, py: int)
    requires
        x >= 0,
        y >= 0,
    ensures
        shown(span_quad(w, h, cx, cy, x, y, c), px, py) == (if 0 <= px < w && 0 <= py < h && ((
        iabs(py - cy) == y && iabs(px - cx) <= x) || (iabs(py - cy) == x && iabs(px - cx) <= y)) {
            Some(c)
        } else {
            None::<u16>
        }),
{
    let s1 = span_frames(w, h, cx - x, cx + x, cy + y, c);
    let s2 = span_frames(w, h, cx - y, cx + y, cy + x, c);
    let s3 = span_frames(w, h, cx - x, cx + x, cy - y, c);
    let s4 = span_frames(w, h, cx - y, cx + y, cy - x, c);
    lemma_shown_append(s1 + s2 + s3, s4, px, py);
    lemma_shown_append(s1 + s2, s3, px, py);
    lemma_shown_append(s1, s2, px, py);
    lemma_span_shows(w, h, cx - x, cx + x, cy + y, c, px, py);
    lemma_span_shows(w, h, cx - y, cx + y, cy + x, c, px, py);
    lemma_span_shows(w, h, cx - x, cx + x, cy - y, c, px, py);
    lemma_span_shows(w, h, cx - y, cx + y, cy - x, c, px, py);
}

/// The filled circle paints exactly the points of the disk that lie on the
/// canvas, all in one color.
pub proof fn lemma_disk_frames_show(
    w: int,
    h: int,
    cx: int,
    cy: int,
    r: int,
    k: nat,
    c: u16,
    px: int,
    py: int,
)
    requires
        r >= 0,
        k <= circle_count(r),
    ensures
        shown(disk_frames_upto(w, h, cx, cy, r, k, c), px, py) == (if 0 <= px < w && 0 <= py < h
            && spans_upto_hold(r, k, px - cx, py - cy) {
            Some(c)
        } else {
            None::<u16>
        }),
    decreases k,
{
    let (dx, dy) = (px - cx, py - cy);
    if k == 0 {
        assert(!spans_upto_hold(r, k, dx, dy));
    } else {
        let km = (k - 1) as nat;
        lemma_disk_frames_show(w, h, cx, cy, r, km, c, px, py);
        lemma_circle_count_from(r, 0);
        lemma_circle_state(r, km);
        let (x, y, e) = circle_state(r, km);
        assert(x >= km);
        let prev = disk_frames_upto(w, h, cx, cy, r, km, c);
        let quad = span_quad(w, h, cx, cy, x, y, c);
        assert(disk_frames_upto(w, h, cx, cy, r, k, c) == prev + quad);
        lemma_shown_append(prev, quad, px, py);
        lemma_quad_shows(w, h, cx, cy, x, y, c, px, py);
        if spans_upto_hold(r, km, dx, dy) {
            let j = choose|j: nat| j < km && #[trigger] step_spans_hold(r, j, dx, dy);
            assert(j < k && step_spans_hold(r, j, dx, dy));
        }
        if step_spans_hold(r, km, dx, dy) {
            assert(km < k && step_spans_hold(r, km, dx, dy));
        }
        if spans_upto_hold(r, k, dx, dy) {
            let j = choose|j: nat| j < k && #[trigger] step_spans_hold(r, j, dx, dy);
            if j < km {
                assert(spans_upto_hold(r, km, dx, dy));
            } else {
                assert(j == km);
            }
        }
    }
}

/// The filled circle drawn on the canvas is closed under a quarter turn about
/// its center, wherever the turned point is on the canvas too.
pub proof fn lemma_filled_circle_quarter_turn(
    w: int,
    h: int,
    cx: int,
    cy: int,
    r: int,
    c: u16,
    p: (int, int),
)
    requires
        r >= 0,
        shown(disk_frames(w, h, cx, cy, r, c), p.0, p.1).is_some(),
        0 <= quarter_turn(cx, cy, p).0 < w,
        0 <= quarter_turn(cx, cy, p).1 < h,
    ensures
        shown(disk_frames(w, h, cx, cy, r, c), quarter_turn(cx, cy, p).0, quarter_turn(cx, cy, p).1)
            == Some(c),
{
    let k = circle_count(r);
    let q = quarter_turn(cx, cy, p);
    lemma_disk_frames_show(w, h, cx, cy, r, k, c, p.0, p.1);
    lemma_disk_frames_show(w, h, cx, cy, r, k, c, q.0, q.1);
    assert(in_disk(r, p.0 - cx, p.1 - cy));
    lemma_disk_quarter_turn(r, p.0 - cx, p.1 - cy);
    assert(q.0 - cx == -(p.1 - cy) && q.1 - cy == p.0 - cx);
    let j = choose|j: nat| j < k && #[trigger] step_spans_hold(r, j, -(p.1 - cy), p.0 - cx);
    assert(j < k && step_spans_hold(r, j, q.0 - cx, q.1 - cy));
}

} // verus!
