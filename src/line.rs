//! The line rasterizer: which pixels a line between two canvas points
//! paints, in the order in which it paints them.
use vstd::prelude::*;
use vstd::arithmetic::div_mod::{lemma_fundamental_div_mod, lemma_mod_pos_bound};

verus! {

/// `n` steps from `from` towards `to` (a step goes up unless `from > to`).
pub open spec fn step(from: int, to: int, n: int) -> int {
    if from > to { from - n } else { from + n }
}

pub open spec fn abs_diff(a: int, b: int) -> int {
    if a > b { a - b } else { b - a }
}

/// The number of row steps taken once `k` column steps have been taken, on a
/// line that spans `dx` columns and `dy` rows: `k * dy / dx` rounded to the
/// nearest integer, halves rounded up. This is what an error term that grows
/// by `dy / dx` per column and gives a row step whenever it reaches one half
/// amounts to.
pub open spec fn rise(k: int, dx: int, dy: int) -> int {
    (2 * k * dy + dx) / (2 * dx)
}

/// The pixels painted at column step `k >= 1` of a line that is not vertical:
/// the new column at the current row, then the current row once more before
/// each row step.
pub open spec fn column(sx: int, sy: int, ex: int, ey: int, k: int) -> Seq<(int, int)> {
    let dx = abs_diff(sx, ex);
    let dy = abs_diff(sy, ey);
    let x = step(sx, ex, k);
    let r0 = rise(k - 1, dx, dy);
    seq![(x, step(sy, ey, r0))] + Seq::new(
        (rise(k, dx, dy) - r0) as nat,
        |j: int| (x, step(sy, ey, r0 + j)),
    )
}

/// The pixels painted once `k` column steps of a non-vertical line are done.
pub open spec fn painted(sx: int, sy: int, ex: int, ey: int, k: nat) -> Seq<(int, int)>
    decreases k,
{
    if k == 0 {
        seq![(sx, sy)]
    } else {
        painted(sx, sy, ex, ey, (k - 1) as nat) + column(sx, sy, ex, ey, k as int)
    }
}

/// Every pixel painted by a line from `(sx, sy)` to `(ex, ey)`, in order and
/// with repetitions. A vertical line paints each row from start to end once;
/// any other line takes one column step at a time.
pub open spec fn line_points(sx: int, sy: int, ex: int, ey: int) -> Seq<(int, int)> {
    if sx == ex {
        Seq::new((abs_diff(sy, ey) + 1) as nat, |j: int| (sx, step(sy, ey, j)))
    } else {
        painted(sx, sy, ex, ey, abs_diff(sx, ex) as nat)
    }
}

pub open spec fn as_ints(s: Seq<(u32, u32)>) -> Seq<(int, int)> {
    s.map_values(|p: (u32, u32)| (p.0 as int, p.1 as int))
}

pub open spec fn to_pixels(s: Seq<(int, int)>) -> Seq<(u32, u32)> {
    s.map_values(|p: (int, int)| (p.0 as u32, p.1 as u32))
}

/// The pixels painted by a line between two canvas points.
pub open spec fn line_pixels_spec(start: (u32, u32), end: (u32, u32)) -> Seq<(u32, u32)> {
    to_pixels(line_points(start.0 as int, start.1 as int, end.0 as int, end.1 as int))
}

/// `rise` is the integer quotient: bounded by its defining products.
proof fn lemma_rise_bounds(k: int, dx: int, dy: int)
    requires
        k >= 0,
        dx > 0,
        dy >= 0,
    ensures
        2 * dx * rise(k, dx, dy) <= 2 * k * dy + dx,
        2 * k * dy + dx < 2 * dx * (rise(k, dx, dy) + 1),
        rise(k, dx, dy) >= 0,
{
    let n = 2 * k * dy + dx;
    let d = 2 * dx;
    assert(n >= 0) by (nonlinear_arith)
        requires
            n == 2 * k * dy + dx,
            k >= 0,
            dy >= 0,
            dx > 0,
    ;
    lemma_fundamental_div_mod(n, d);
    lemma_mod_pos_bound(n, d);
    let f = n / d;
    assert(d * f <= n && n < d * (f + 1)) by (nonlinear_arith)
        requires
            n == d * f + n % d,
            0 <= n % d < d,
    ;
    assert(f >= 0) by (nonlinear_arith)
        requires
            d * (f + 1) > n,
            n >= 0,
            d > 0,
    ;
}

/// A row count `s` lies at or below `rise(k)` exactly when `2*dx*s` does not
/// exceed `2*k*dy + dx`.
proof fn lemma_rise_cmp(k: int, dx: int, dy: int, s: int)
    requires
        k >= 0,
        dx > 0,
        dy >= 0,
    ensures
        2 * dx * s <= 2 * k * dy + dx ==> s <= rise(k, dx, dy),
        2 * k * dy + dx < 2 * dx * s ==> rise(k, dx, dy) < s,
{
    lemma_rise_bounds(k, dx, dy);
    let f = rise(k, dx, dy);
    let n = 2 * k * dy + dx;
    assert(2 * dx * s <= n ==> s <= f) by (nonlinear_arith)
        requires
            n < 2 * dx * (f + 1),
            dx > 0,
    ;
    assert(n < 2 * dx * s ==> f < s) by (nonlinear_arith)
        requires
            2 * dx * f <= n,
            dx > 0,
    ;
}

/// `rise` starts at zero, ends at `dy` and never decreases.
proof fn lemma_rise_range(k1: int, k2: int, dx: int, dy: int)
    requires
        0 <= k1 <= k2,
        dx > 0,
        dy >= 0,
    ensures
        rise(0, dx, dy) == 0,
        rise(dx, dx, dy) == dy,
        rise(k1, dx, dy) <= rise(k2, dx, dy),
{
    lemma_rise_bounds(0, dx, dy);
    lemma_rise_cmp(0, dx, dy, 0);
    lemma_rise_cmp(0, dx, dy, 1);
    assert(2 * 0 * dy + dx < 2 * dx * 1) by (nonlinear_arith)
        requires
            dx > 0,
    ;
    assert(2 * dx * 0 <= 2 * 0 * dy + dx) by (nonlinear_arith)
        requires
            dx > 0,
    ;
    lemma_rise_cmp(dx, dx, dy, dy);
    lemma_rise_cmp(dx, dx, dy, dy + 1);
    assert(2 * dx * dy <= 2 * dx * dy + dx && 2 * dx * dy + dx < 2 * dx * (dy + 1)) by (nonlinear_arith)
        requires
            dx > 0,
    ;
    lemma_rise_bounds(k1, dx, dy);
    lemma_rise_cmp(k2, dx, dy, rise(k1, dx, dy));
    assert(2 * dx * rise(k1, dx, dy) <= 2 * k2 * dy + dx) by (nonlinear_arith)
        requires
            2 * dx * rise(k1, dx, dy) <= 2 * k1 * dy + dx,
            k1 <= k2,
            dy >= 0,
    ;
}

/// One step from `x` towards `y`.
fn towards(x: u32, y: u32) -> (r: u32)
    requires
        x != y,
    ensures
        r as int == step(x as int, y as int, 1),
{
    if x > y {
        x - 1
    } else {
        x + 1
    }
}

/// The pixels that a line from `start` to `end` paints, in painting order.
/// `start` comes first.
pub fn line_pixels(start: (u32, u32), end: (u32, u32)) -> (r: Vec<(u32, u32)>)
    ensures
        as_ints(r@) == line_points(start.0 as int, start.1 as int, end.0 as int, end.1 as int),
        r@ == line_pixels_spec(start, end),
{
    let ghost sx = start.0 as int;
    let ghost sy = start.1 as int;
    let ghost ex = end.0 as int;
    let ghost ey = end.1 as int;
    let mut out: Vec<(u32, u32)> = Vec::new();
    out.push(start);
    assert(as_ints(out@) =~= seq![(sx, sy)]);
    if start.0 == end.0 {
        let ghost ady = abs_diff(sy, ey);
        let mut y: u32 = start.1;
        let ghost mut j: int = 0;
        while y != end.1
            invariant
                sx == start.0 as int,
                sy == start.1 as int,
                ex == end.0 as int,
                ey == end.1 as int,
                start.0 == end.0,
                ady == abs_diff(sy, ey),
                0 <= j <= ady,
                y as int == step(sy, ey, j),
                as_ints(out@) =~= Seq::new((j + 1) as nat, |i: int| (sx, step(sy, ey, i))),
            decreases ady - j,
        {
            let ghost before = as_ints(out@);
            y = towards(y, end.1);
            out.push((start.0, y));
            proof {
                j = j + 1;
                assert(as_ints(out@) =~= before.push((sx, y as int)));
                assert(as_ints(out@) =~= Seq::new((j + 1) as nat, |i: int| (sx, step(sy, ey, i))));
            }
        }
        assert(j == ady);
    } else {
        let dx: i64 = if end.0 > start.0 {
            end.0 as i64 - start.0 as i64
        } else {
            start.0 as i64 - end.0 as i64
        };
        let dy: i64 = if end.1 > start.1 {
            end.1 as i64 - start.1 as i64
        } else {
            start.1 as i64 - end.1 as i64
        };
        let mut err: i64 = 0;
        let mut x: u32 = start.0;
        let mut y: u32 = start.1;
        let ghost mut k: int = 0;
        let ghost mut s: int = 0;
        proof {
            lemma_rise_range(0, 0, dx as int, dy as int);
        }
        while x != end.0
            invariant
                sx == start.0 as int,
                sy == start.1 as int,
                ex == end.0 as int,
                ey == end.1 as int,
                start.0 != end.0,
                dx as int == abs_diff(sx, ex),
                dy as int == abs_diff(sy, ey),
                dx > 0,
                dx <= u32::MAX,
                dy <= u32::MAX,
                0 <= k <= dx,
                -dx <= err < dx,
                x as int == step(sx, ex, k),
                y as int == step(sy, ey, s),
                s == rise(k, dx as int, dy as int),
                err as int == 2 * k * dy - 2 * dx * s,
                as_ints(out@) =~= painted(sx, sy, ex, ey, k as nat),
            decreases dx - k,
        {
            proof {
                assert(k < dx);
                lemma_rise_bounds(k, dx as int, dy as int);
                lemma_rise_range(k, k + 1, dx as int, dy as int);
                lemma_rise_range(k + 1, dx as int, dx as int, dy as int);
            }
            let ghost before = as_ints(out@);
            x = towards(x, end.0);
            out.push((x, y));
            err = err + 2 * dy;
            proof {
                assert(as_ints(out@) =~= before.push((x as int, y as int)));
                k = k + 1;
                assert(err as int == 2 * k * dy - 2 * dx * s) by (nonlinear_arith)
                    requires
                        err as int == 2 * (k - 1) * dy - 2 * dx * s + 2 * dy,
                ;
            }
            while err >= dx
                invariant
                    sx == start.0 as int,
                    sy == start.1 as int,
                    ex == end.0 as int,
                    ey == end.1 as int,
                    start.0 != end.0,
                    dx as int == abs_diff(sx, ex),
                    dy as int == abs_diff(sy, ey),
                    dx > 0,
                    dx <= u32::MAX,
                    dy <= u32::MAX,
                    1 <= k <= dx,
                    x as int == step(sx, ex, k),
                    y as int == step(sy, ey, s),
                    rise(k - 1, dx as int, dy as int) <= s <= rise(k, dx as int, dy as int),
                    rise(k, dx as int, dy as int) <= dy,
                    err as int == 2 * k * dy - 2 * dx * s,
                    -dx <= err < dx + 2 * dy,
                    before == painted(sx, sy, ex, ey, (k - 1) as nat),
                    as_ints(out@) =~= before + seq![(x as int, step(sy, ey, rise(k - 1, dx as int, dy as int)))]
                        + Seq::new(
                        (s - rise(k - 1, dx as int, dy as int)) as nat,
                        |j: int| (x as int, step(sy, ey, rise(k - 1, dx as int, dy as int) + j)),
                    ),
                decreases rise(k, dx as int, dy as int) - s,
            {
                proof {
                    assert(2 * dx * (s + 1) <= 2 * k * dy + dx) by (nonlinear_arith)
                        requires
                            err as int == 2 * k * dy - 2 * dx * s,
                            err >= dx,
                    ;
                    lemma_rise_cmp(k, dx as int, dy as int, s + 1);
                }
                let ghost before_step = as_ints(out@);
                out.push((x, y));
                y = towards(y, end.1);
                err = err - 2 * dx;
                proof {
                    assert(as_ints(out@) =~= before_step.push((x as int, step(sy, ey, s))));
                    s = s + 1;
                    assert(err as int == 2 * k * dy - 2 * dx * s) by (nonlinear_arith)
                        requires
                            err as int == 2 * k * dy - 2 * dx * (s - 1) - 2 * dx,
                    ;
                }
            }
            proof {
                assert(2 * k * dy + dx < 2 * dx * (s + 1)) by (nonlinear_arith)
                    requires
                        err as int == 2 * k * dy - 2 * dx * s,
                        err < dx,
                ;
                lemma_rise_cmp(k, dx as int, dy as int, s + 1);
                assert(as_ints(out@) =~= painted(sx, sy, ex, ey, k as nat));
            }
        }
    }
    proof {
        let p = line_pixels_spec(start, end);
        assert(out@ =~= p) by {
            assert forall|i: int| 0 <= i < out@.len() implies out@[i] == p[i] by {
                assert(as_ints(out@)[i] == (out@[i].0 as int, out@[i].1 as int));
            }
        }
    }
    out
}

/// How far `v` lies from `from` in the direction of `to`.
pub open spec fn offset(from: int, to: int, v: int) -> int {
    if from > to { from - v } else { v - from }
}

/// The shape of a non-vertical line after `k` column steps: offsets stay in
/// range, never go back, and neighbours differ by at most one in each axis.
proof fn lemma_painted_shape(sx: int, sy: int, ex: int, ey: int, k: nat)
    requires
        sx != ex,
        k <= abs_diff(sx, ex),
    ensures
        ({
            let p = painted(sx, sy, ex, ey, k);
            let dx = abs_diff(sx, ex);
            let dy = abs_diff(sy, ey);
            &&& p.len() >= 1
            &&& p[0] == (sx, sy)
            &&& offset(sx, ex, p.last().0) == k
            &&& rise(k as int, dx, dy) - 1 <= offset(sy, ey, p.last().1) <= rise(k as int, dx, dy)
            &&& forall|i: int|
                0 <= i < p.len() ==> {
                    &&& p[i].0 == step(sx, ex, offset(sx, ex, p[i].0))
                    &&& p[i].1 == step(sy, ey, offset(sy, ey, p[i].1))
                    &&& 0 <= offset(sx, ex, p[i].0) <= k
                    &&& 0 <= offset(sy, ey, p[i].1) <= rise(k as int, dx, dy)
                }
            &&& forall|i: int|
                0 <= i < p.len() - 1 ==> abs_diff((#[trigger] p[i]).0, p[i + 1].0) <= 1 && abs_diff(p[i].1, p[i + 1].1)
                    <= 1
            &&& forall|i: int, j: int|
                0 <= i <= j < p.len() ==> offset(sx, ex, (#[trigger] p[i]).0) <= offset(sx, ex, (#[trigger] p[j]).0) && offset(
                    sy,
                    ey,
                    p[i].1,
                ) <= offset(sy, ey, p[j].1)
        }),
    decreases k,
{
    let dx = abs_diff(sx, ex);
    let dy = abs_diff(sy, ey);
    lemma_rise_range(0, 0, dx, dy);
    if k > 0 {
        let k0 = (k - 1) as nat;
        lemma_painted_shape(sx, sy, ex, ey, k0);
        lemma_rise_range(k0 as int, k as int, dx, dy);
        lemma_rise_range(k as int, dx, dx, dy);
        let a = painted(sx, sy, ex, ey, k0);
        let c = column(sx, sy, ex, ey, k as int);
        let p = painted(sx, sy, ex, ey, k);
        let r0 = rise(k0 as int, dx, dy);
        let r1 = rise(k as int, dx, dy);
        assert(p == a + c);
        assert(c.len() == 1 + r1 - r0);
        assert forall|i: int| 0 <= i < c.len() implies {
            &&& c[i].0 == step(sx, ex, k as int)
            &&& c[i].1 == step(sy, ey, offset(sy, ey, c[i].1))
            &&& offset(sx, ex, c[i].0) == k
            &&& offset(sy, ey, c[i].1) == if i == 0 { r0 } else { r0 + i - 1 }
        } by {}
        assert forall|i: int| 0 <= i < p.len() - 1 implies abs_diff((#[trigger] p[i]).0, p[i + 1].0) <= 1
            && abs_diff(p[i].1, p[i + 1].1) <= 1 by {
            if i < a.len() - 1 {
                assert(p[i] == a[i] && p[i + 1] == a[i + 1]);
            } else if i == a.len() - 1 {
                assert(p[i] == a.last() && p[i + 1] == c[0]);
            } else {
                assert(p[i] == c[i - a.len()] && p[i + 1] == c[i + 1 - a.len()]);
            }
        }
        assert forall|i: int, j: int| 0 <= i <= j < p.len() implies offset(sx, ex, (#[trigger] p[i]).0) <= offset(
            sx,
            ex,
            (#[trigger] p[j]).0,
        ) && offset(sy, ey, p[i].1) <= offset(sy, ey, p[j].1) by {
            if j < a.len() {
                assert(p[i] == a[i] && p[j] == a[j]);
            } else if i < a.len() {
                assert(p[i] == a[i] && p[j] == c[j - a.len()]);
            } else {
                assert(p[i] == c[i - a.len()] && p[j] == c[j - a.len()]);
            }
        }
        assert forall|i: int| 0 <= i < p.len() implies {
            &&& p[i].0 == step(sx, ex, offset(sx, ex, p[i].0))
            &&& p[i].1 == step(sy, ey, offset(sy, ey, p[i].1))
            &&& 0 <= offset(sx, ex, p[i].0) <= k
            &&& 0 <= offset(sy, ey, p[i].1) <= r1
        } by {
            if i < a.len() {
                assert(p[i] == a[i]);
            } else {
                assert(p[i] == c[i - a.len()]);
            }
        }
        assert(p.last() == c.last());
    }
}

/// Every pixel of a line lies in the box spanned by its end points, the first
/// is the start, neighbours differ by at most one in each axis, and both
/// coordinates move monotonically from the start towards the end.
pub proof fn lemma_line_shape(sx: int, sy: int, ex: int, ey: int)
    ensures
        ({
            let p = line_points(sx, sy, ex, ey);
            &&& p.len() >= 1
            &&& p[0] == (sx, sy)
            &&& forall|i: int|
                0 <= i < p.len() ==> {
                    &&& p[i].0 == step(sx, ex, offset(sx, ex, p[i].0))
                    &&& p[i].1 == step(sy, ey, offset(sy, ey, p[i].1))
                    &&& 0 <= offset(sx, ex, p[i].0) <= abs_diff(sx, ex)
                    &&& 0 <= offset(sy, ey, p[i].1) <= abs_diff(sy, ey)
                }
            &&& forall|i: int|
                0 <= i < p.len() - 1 ==> abs_diff((#[trigger] p[i]).0, p[i + 1].0) <= 1 && abs_diff(p[i].1, p[i + 1].1)
                    <= 1
            &&& forall|i: int, j: int|
                0 <= i <= j < p.len() ==> offset(sx, ex, (#[trigger] p[i]).0) <= offset(sx, ex, (#[trigger] p[j]).0) && offset(
                    sy,
                    ey,
                    p[i].1,
                ) <= offset(sy, ey, p[j].1)
        }),
{
    if sx != ex {
        let dx = abs_diff(sx, ex);
        lemma_painted_shape(sx, sy, ex, ey, dx as nat);
        lemma_rise_range(dx, dx, dx, abs_diff(sy, ey));
    }
}

/// A vertical line paints each row between its end points exactly once, and
/// nothing else.
pub proof fn lemma_vertical_line(sx: int, sy: int, ey: int)
    ensures
        ({
            let p = line_points(sx, sy, sx, ey);
            &&& p.len() == abs_diff(sy, ey) + 1
            &&& forall|i: int, j: int| 0 <= i < j < p.len() ==> #[trigger] p[i] != #[trigger] p[j]
            &&& forall|q: (int, int)|
                #[trigger] p.contains(q) <==> q.0 == sx && 0 <= offset(sy, ey, q.1) <= abs_diff(sy, ey)
        }),
{
    let p = line_points(sx, sy, sx, ey);
    assert forall|q: (int, int)| #[trigger] p.contains(q) <==> q.0 == sx && 0 <= offset(sy, ey, q.1)
        <= abs_diff(sy, ey) by {
        if q.0 == sx && 0 <= offset(sy, ey, q.1) <= abs_diff(sy, ey) {
            assert(p[offset(sy, ey, q.1)] == q);
        }
    }
}

} // verus!
