//! Rasterization: the integer line walk and the midpoint circle recurrence,
//! as mathematical point sequences.

use vstd::prelude::*;

verus! {

pub open spec fn iabs(v: int) -> int {
    if v < 0 {
        -v
    } else {
        v
    }
}

/// Initial error term of the line walk.
pub open spec fn line_err0(dx: int, dy: int) -> int {
    if dx > dy {
        dx / 2
    } else {
        -(dy / 2)
    }
}

/// State of the line walk after `k` steps, for distances `dx` and `dy`:
/// steps taken along x, steps taken along y, and the error term. From the
/// error `e`, x advances when `e > -dx` and y when `e < dy`, both judged on
/// the error before the step.
pub open spec fn line_walk(dx: int, dy: int, k: nat) -> (int, int, int)
    decreases k,
{
    if k == 0 {
        (0, 0, line_err0(dx, dy))
    } else {
        let (kx, ky, e) = line_walk(dx, dy, (k - 1) as nat);
        let kx2 = if e > -dx {
            kx + 1
        } else {
            kx
        };
        let e2 = if e > -dx {
            e - dy
        } else {
            e
        };
        let ky2 = if e < dy {
            ky + 1
        } else {
            ky
        };
        let e3 = if e < dy {
            e2 + dx
        } else {
            e2
        };
        (kx2, ky2, e3)
    }
}

/// Number of steps from one end of a line to the other.
pub open spec fn line_len(x0: int, y0: int, x1: int, y1: int) -> nat {
    let dx = iabs(x1 - x0);
    let dy = iabs(y1 - y0);
    (if dx > dy {
        dx
    } else {
        dy
    }) as nat
}

/// Moves `k` units from `a` toward `b` (away from it when `a == b`, where
/// `k` stays zero).
pub open spec fn toward(a: int, b: int, k: int) -> int {
    if a < b {
        a + k
    } else {
        a - k
    }
}

/// The `k`-th point of the line walk from `(x0, y0)` to `(x1, y1)`.
pub open spec fn line_point(x0: int, y0: int, x1: int, y1: int, k: nat) -> (int, int) {
    let (kx, ky, e) = line_walk(iabs(x1 - x0), iabs(y1 - y0), k);
    (toward(x0, x1, kx), toward(y0, y1, ky))
}

/// Every point the line walk visits, both ends included.
pub open spec fn line_points(x0: int, y0: int, x1: int, y1: int) -> Seq<(int, int)> {
    Seq::new(line_len(x0, y0, x1, y1) + 1, |k: int| line_point(x0, y0, x1, y1, k as nat))
}

/// Bounds and the error identity of the line walk, step by step.
pub proof fn lemma_line_walk(dx: int, dy: int, k: nat)
    requires
        dx >= 0,
        dy >= 0,
        k <= (if dx > dy {
            dx
        } else {
            dy
        }),
    ensures
        ({
            let (kx, ky, e) = line_walk(dx, dy, k);
            &&& 0 <= kx <= k
            &&& 0 <= ky <= k
            &&& e == line_err0(dx, dy) + ky * dx - kx * dy
            &&& dx > dy ==> kx == k && 0 <= e < dx
            &&& dx <= dy && dy > 0 ==> ky == k && -dy < e <= 0
        }),
    decreases k,
{
    if k > 0 {
        lemma_line_walk(dx, dy, (k - 1) as nat);
        let (kx, ky, e) = line_walk(dx, dy, (k - 1) as nat);
        assert((kx + 1) * dy == kx * dy + dy) by (nonlinear_arith);
        assert((ky + 1) * dx == ky * dx + dx) by (nonlinear_arith);
    }
}

/// The line walk is at its far end exactly after `line_len` steps.
pub proof fn lemma_line_end(dx: int, dy: int, k: nat)
    requires
        dx >= 0,
        dy >= 0,
        k <= (if dx > dy {
            dx
        } else {
            dy
        }),
    ensures
        ({
            let (kx, ky, e) = line_walk(dx, dy, k);
            (kx == dx && ky == dy) <==> k == (if dx > dy {
                dx
            } else {
                dy
            })
        }),
{
    lemma_line_walk(dx, dy, k);
    let (kx, ky, e) = line_walk(dx, dy, k);
    let c = line_err0(dx, dy);
    if dx > dy {
        if k == dx {
            assert(e == c + dx * (ky - dy)) by (nonlinear_arith)
                requires
                    e == c + ky * dx - kx * dy,
                    kx == dx,
            ;
            assert(ky == dy) by (nonlinear_arith)
                requires
                    e == c + dx * (ky - dy),
                    0 <= e < dx,
                    0 <= c < dx,
            ;
        }
    } else if dy > 0 {
        if k == dy {
            assert(e == c + dy * (dx - kx)) by (nonlinear_arith)
                requires
                    e == c + ky * dx - kx * dy,
                    ky == dy,
            ;
            assert(kx == dx) by (nonlinear_arith)
                requires
                    e == c + dy * (dx - kx),
                    -dy < e <= 0,
                    -dy < c <= 0,
            ;
        }
    }
}

/// State of the midpoint circle recurrence for radius `r` after `k` steps:
/// `(x, y, err)`, starting from `(r, 0, 0)`. A step increments `y`, adds
/// `2y + 1` to a non-positive error, and then, if the error is positive,
/// decrements `x` and subtracts `2x + 1`.
pub open spec fn circle_state(r: int, k: nat) -> (int, int, int)
    decreases k,
{
    if k == 0 {
        (r, 0, 0)
    } else {
        let (x, y, e) = circle_state(r, (k - 1) as nat);
        let y2 = y + 1;
        let e2 = if e <= 0 {
            e + 2 * y2 + 1
        } else {
            e
        };
        if e2 > 0 {
            (x - 1, y2, e2 - 2 * (x - 1) - 1)
        } else {
            (x, y2, e2)
        }
    }
}

/// Index of the first state, from `k` on, where `x < y`: the number of steps
/// the recurrence runs.
pub open spec fn circle_count_from(r: int, k: nat) -> nat
    decreases r + 2 - k,
{
    if k > r + 1 || circle_state(r, k).0 < circle_state(r, k).1 {
        k
    } else {
        circle_count_from(r, k + 1)
    }
}

/// Number of steps of the recurrence for radius `r`.
pub open spec fn circle_count(r: int) -> nat {
    circle_count_from(r, 0)
}

/// The eight points, symmetric about the center, plotted for one state.
pub open spec fn octet(cx: int, cy: int, x: int, y: int) -> Seq<(int, int)> {
    seq![
        (cx + x, cy + y),
        (cx + y, cy + x),
        (cx - y, cy + x),
        (cx - x, cy + y),
        (cx - x, cy - y),
        (cx - y, cy - x),
        (cx + y, cy - x),
        (cx + x, cy - y),
    ]
}

/// The points plotted by the first `k` steps.
pub open spec fn circle_points_upto(cx: int, cy: int, r: int, k: nat) -> Seq<(int, int)>
    decreases k,
{
    if k == 0 {
        seq![]
    } else {
        let (x, y, e) = circle_state(r, (k - 1) as nat);
        circle_points_upto(cx, cy, r, (k - 1) as nat) + octet(cx, cy, x, y)
    }
}

/// Every point of the circle of radius `r` about `(cx, cy)`, in plotting order.
pub open spec fn circle_points(cx: int, cy: int, r: int) -> Seq<(int, int)> {
    circle_points_upto(cx, cy, r, circle_count(r))
}

/// Basic facts of the recurrence: `y` counts the steps, `x` never grows and
/// shrinks by at most one per step, and the error stays bounded.
pub proof fn lemma_circle_state(r: int, k: nat)
    requires
        r >= 0,
        k <= r + 1,
    ensures
        ({
            let (x, y, e) = circle_state(r, k);
            &&& y == k
            &&& x <= r
            &&& x >= r - k
            &&& -k * (4 * r + 6) <= e <= k * (4 * r + 6)
        }),
    decreases k,
{
    if k > 0 {
        let km = (k - 1) as nat;
        lemma_circle_state(r, km);
        let (x, y, e) = circle_state(r, km);
        assert(k * (4 * r + 6) == km * (4 * r + 6) + (4 * r + 6)) by (nonlinear_arith)
            requires
                k == km + 1,
        ;
        assert(km * (4 * r + 6) >= 0) by (nonlinear_arith)
            requires
                r >= 0,
        ;
        let b = km * (4 * r + 6);
        assert(-km * (4 * r + 6) == -b) by (nonlinear_arith)
            requires
                b == km * (4 * r + 6),
        ;
        let (x2, y2, e2) = circle_state(r, k);
        assert(y2 == k);
        assert(x2 <= r && x2 >= r - k);
        assert(e2 <= b + (4 * r + 6));
        let ee = if e <= 0 {
            e + 2 * k + 1
        } else {
            e
        };
        if ee > 0 {
            assert(e2 == ee - 2 * (x - 1) - 1);
            assert(e2 > -(2 * r - 1));
        } else {
            assert(e2 == ee);
            assert(ee >= e);
        }
        assert(e2 >= -b - (4 * r + 6));
        assert(-k * (4 * r + 6) == -b - (4 * r + 6)) by (nonlinear_arith)
            requires
                k == km + 1,
                b == km * (4 * r + 6),
        ;
    }
}

/// Each step lowers `x` by at most one and never raises it.
pub proof fn lemma_circle_x_step(r: int, k: nat)
    ensures
        circle_state(r, k + 1).0 <= circle_state(r, k).0,
        circle_state(r, k + 1).0 >= circle_state(r, k).0 - 1,
        circle_state(r, k + 1).1 == circle_state(r, k).1 + 1,
{
    assert(((k + 1) as nat - 1) as nat == k);
}

/// `x` never grows along the recurrence.
pub proof fn lemma_circle_x_monotone(r: int, i: nat, j: nat)
    requires
        i <= j,
    ensures
        circle_state(r, j).0 <= circle_state(r, i).0,
    decreases j - i,
{
    if i < j {
        lemma_circle_x_monotone(r, i, (j - 1) as nat);
        lemma_circle_x_step(r, (j - 1) as nat);
    }
}

/// Between two steps `x` passes through every value in between.
pub proof fn lemma_circle_x_between(r: int, i: nat, j: nat, a: int)
    requires
        i <= j,
        circle_state(r, j).0 <= a <= circle_state(r, i).0,
    ensures
        exists|m: nat| i <= m <= j && circle_state(r, m).0 == a,
    decreases j - i,
{
    if circle_state(r, i).0 == a {
        assert(i <= i <= j && circle_state(r, i).0 == a);
    } else {
        lemma_circle_x_step(r, i);
        lemma_circle_x_between(r, i + 1, j, a);
        let m = choose|m: nat| i + 1 <= m <= j && circle_state(r, m).0 == a;
        assert(i <= m <= j && circle_state(r, m).0 == a);
    }
}

/// The recurrence runs while `x >= y` and stops at the first step where
/// `x < y`.
pub proof fn lemma_circle_count_from(r: int, k: nat)
    requires
        r >= 0,
        k <= r + 1,
    ensures
        k <= circle_count_from(r, k) <= r + 1,
        circle_state(r, circle_count_from(r, k)).0 < circle_count_from(r, k),
        forall|j: nat|
            k <= j < circle_count_from(r, k) ==> circle_state(r, j).0 >= j,
    decreases r + 2 - k,
{
    lemma_circle_state(r, k);
    if circle_state(r, k).0 < circle_state(r, k).1 {
    } else {
        assert(k <= r);
        lemma_circle_count_from(r, k + 1);
        assert forall|j: nat| k <= j < circle_count_from(r, k) implies circle_state(r, j).0
            >= j by {
            if j > k {
            } else {
                lemma_circle_state(r, j);
            }
        }
    }
}

} // verus!
