//! Line rasterization. A horizontal or vertical line fills the span between
//! its endpoints; any other line is stepped with the integer error-term
//! walk whose plotted points `bres_seq` spells out, and the drawing contract
//! states exactly which pixels receive the color.

use vstd::prelude::*;
use crate::system::SystemImpl;

verus! {

/// Absolute value.
pub open spec fn absi(v: int) -> int {
    if v < 0 {
        -v
    } else {
        v
    }
}

/// Sign: -1, 0 or 1.
pub open spec fn sgn(v: int) -> int {
    if v > 0 {
        1
    } else if v < 0 {
        -1
    } else {
        0
    }
}

/// Whether `v` lies in the closed span between `a` and `b`, in either order.
pub open spec fn between(a: int, b: int, v: int) -> bool {
    (a <= v <= b) || (b <= v <= a)
}

/// One step of the error-term walk: from point `(x, y)` with error `err`,
/// the x coordinate advances by `sx` when `2 * err >= dy`, and the y
/// coordinate advances by `sy` when `2 * err <= dx`, the error absorbing
/// `dy` and `dx` respectively.
pub open spec fn bres_step(x: int, y: int, dx: int, dy: int, err: int, sx: int, sy: int) -> (int, int, int) {
    let e2 = 2 * err;
    let xn = if e2 >= dy {
        x + sx
    } else {
        x
    };
    let e1 = if e2 >= dy {
        err + dy
    } else {
        err
    };
    let yn = if e2 <= dx {
        y + sy
    } else {
        y
    };
    let en = if e2 <= dx {
        e1 + dx
    } else {
        e1
    };
    (xn, yn, en)
}

/// The points the error-term walk plots from `(x, y)` until it reaches
/// `(x1, y1)`, endpoints included. The walk always makes progress on the
/// parameters the rasterizer passes, so the guard on the recursive branch
/// only bounds the recursion.
pub open spec fn bres_seq(x: int, y: int, x1: int, y1: int, dx: int, dy: int, err: int, sx: int, sy: int) -> Seq<(int, int)>
    decreases absi(x1 - x) + absi(y1 - y),
{
    if x == x1 && y == y1 {
        seq![(x, y)]
    } else {
        let s = bres_step(x, y, dx, dy, err, sx, sy);
        if absi(x1 - s.0) + absi(y1 - s.1) < absi(x1 - x) + absi(y1 - y) {
            seq![(x, y)] + bres_seq(s.0, s.1, x1, y1, dx, dy, s.2, sx, sy)
        } else {
            seq![(x, y)]
        }
    }
}

/// The full walk from `(x0, y0)` to `(x1, y1)`, with the standard initial
/// error `dx + dy` where `dx = |x1 - x0|` and `dy = -|y1 - y0|`.
pub open spec fn bres_points(x0: int, y0: int, x1: int, y1: int) -> Seq<(int, int)> {
    bres_seq(
        x0,
        y0,
        x1,
        y1,
        absi(x1 - x0),
        -absi(y1 - y0),
        absi(x1 - x0) - absi(y1 - y0),
        sgn(x1 - x0),
        sgn(y1 - y0),
    )
}

/// Whether drawing the line from `(x0, y0)` to `(x1, y1)` plots `(px, py)`:
/// a horizontal line covers its row span, a vertical line its column span,
/// and any other line exactly the points of the error-term walk.
pub open spec fn line_covers(x0: int, y0: int, x1: int, y1: int, px: int, py: int) -> bool {
    if y0 == y1 {
        py == y0 && between(x0, x1, px)
    } else if x0 == x1 {
        px == x0 && between(y0, y1, py)
    } else {
        bres_points(x0, y0, x1, y1).contains((px, py))
    }
}

/// Membership in a concatenation is membership in either part.
proof fn lemma_seq_add_contains(a: Seq<(int, int)>, b: Seq<(int, int)>, v: (int, int))
    ensures
        (a + b).contains(v) <==> (a.contains(v) || b.contains(v)),
{
    if (a + b).contains(v) {
        let k = choose|k: int| 0 <= k < (a + b).len() && (a + b)[k] == v;
        if k < a.len() {
            assert(a[k] == v);
        } else {
            assert(b[k - a.len()] == v);
        }
    }
    if a.contains(v) {
        let k = choose|k: int| 0 <= k < a.len() && a[k] == v;
        assert((a + b)[k] == v);
    }
    if b.contains(v) {
        let k = choose|k: int| 0 <= k < b.len() && b[k] == v;
        assert((a + b)[a.len() + k] == v);
    }
}

/// A one-point sequence contains exactly that point.
proof fn lemma_singleton_contains(a: (int, int), v: (int, int))
    ensures
        seq![a].contains(v) <==> v == a,
{
    if v == a {
        assert(seq![a][0] == v);
    }
}

/// Distributing a product over an increment.
proof fn lemma_mul_dist(a: int, b: int)
    ensures
        a * (b + 1) == a * b + a,
{
    assert(a * (b + 1) == a * b + a) by (nonlinear_arith);
}

/// Multiplying by a unit sign keeps or flips the value.
proof fn lemma_mul_sign_unit(s: int, a: int)
    requires
        s == 1 || s == -1,
    ensures
        s == 1 ==> s * a == a,
        s == -1 ==> s * a == -a,
{
    assert(1 * a == a) by (nonlinear_arith);
    assert((-1) * a == -a) by (nonlinear_arith);
}

/// Once the x coordinate sits on its endpoint while y does not, the error
/// term keeps the x step from firing, so the walk never overshoots in x.
proof fn lemma_x_step_blocked(dx: int, dy: int, j: int, e: int)
    requires
        dx >= 1,
        dy <= -1,
        0 <= j <= -dy - 1,
        e == dx * (1 + j) + dy * (1 + dx),
    ensures
        2 * e < dy,
{
    assert(2 * (dx * (1 + j) + dy * (1 + dx)) < dy) by (nonlinear_arith)
        requires
            dx >= 1,
            dy <= -1,
            0 <= j <= -dy - 1,
    ;
}

/// Once the y coordinate sits on its endpoint while x does not, the error
/// term keeps the y step from firing, so the walk never overshoots in y.
proof fn lemma_y_step_blocked(dx: int, dy: int, i: int, e: int)
    requires
        dx >= 1,
        dy <= -1,
        0 <= i <= dx - 1,
        e == dx * (1 + (-dy)) + dy * (1 + i),
    ensures
        2 * e > dx,
{
    assert(2 * (dx * (1 - dy) + dy * (1 + i)) > dx) by (nonlinear_arith)
        requires
            dx >= 1,
            dy <= -1,
            0 <= i <= dx - 1,
    ;
}

/// The error term stays well within machine range.
proof fn lemma_err_bounds(dx: int, dy: int, i: int, j: int, e: int)
    requires
        1 <= dx <= 255,
        -255 <= dy <= -1,
        0 <= i <= dx,
        0 <= j <= -dy,
        e == dx * (1 + j) + dy * (1 + i),
    ensures
        -65535 <= e <= 65535,
{
    assert(-65535 <= dx * (1 + j) + dy * (1 + i) <= 65535) by (nonlinear_arith)
        requires
            1 <= dx <= 255,
            -255 <= dy <= -1,
            0 <= i <= dx,
            0 <= j <= -dy,
    ;
}

impl SystemImpl {
    /// Draw the line from `(x0, y0)` to `(x1, y1)` in `color`. Exactly the
    /// pixels `line_covers` names receive the color (writes falling off the
    /// 128x128 screen are dropped, as with any pixel write), every other
    /// pixel keeps its value, and the current color becomes `color`. The
    /// covered points always include both endpoints and never leave the
    /// bounding box the endpoints span.
    pub fn line(&mut self, x0: u8, y0: u8, x1: u8, y1: u8, color: u8)
        requires
            old(self).wf(),
        ensures
            final(self).wf(),
            final(self).color == color,
            final(self).rng == old(self).rng,
            line_covers(x0 as int, y0 as int, x1 as int, y1 as int, x0 as int, y0 as int),
            line_covers(x0 as int, y0 as int, x1 as int, y1 as int, x1 as int, y1 as int),
            forall|px: int, py: int|
                #[trigger] line_covers(x0 as int, y0 as int, x1 as int, y1 as int, px, py)
                    ==> between(x0 as int, x1 as int, px) && between(y0 as int, y1 as int, py),
            forall|px: int, py: int| 0 <= px < 128 && 0 <= py < 128 ==>
                #[trigger] final(self).pix(px, py) == (if line_covers(
                    x0 as int,
                    y0 as int,
                    x1 as int,
                    y1 as int,
                    px,
                    py,
                ) {
                    color
                } else {
                    old(self).pix(px, py)
                }),
    {
        let ghost orig = *self;
        if y0 == y1 {
            let lo = if x0 < x1 { x0 } else { x1 };
            let hi = if x0 < x1 { x1 } else { x0 };
            let mut x = lo;
            loop
                invariant_except_break
                    forall|px: int, py: int| 0 <= px < 128 && 0 <= py < 128 ==>
                        #[trigger] self.pix(px, py) == (if py == y0 as int && lo as int <= px < x as int {
                            color
                        } else {
                            orig.pix(px, py)
                        }),
                invariant
                    self.wf(),
                    self.rng == orig.rng,
                    y0 == y1,
                    lo <= x <= hi,
                    lo as int == if x0 <= x1 { x0 as int } else { x1 as int },
                    hi as int == if x0 <= x1 { x1 as int } else { x0 as int },
                ensures
                    self.wf(),
                    self.rng == orig.rng,
                    self.color == color,
                    forall|px: int, py: int| 0 <= px < 128 && 0 <= py < 128 ==>
                        #[trigger] self.pix(px, py) == (if py == y0 as int && lo as int <= px <= hi as int {
                            color
                        } else {
                            orig.pix(px, py)
                        }),
                decreases hi as int - x as int,
            {
                self.pset(x, y0, color);
                if x == hi {
                    break;
                }
                x = x + 1;
            }
        } else if x0 == x1 {
            let lo = if y0 < y1 { y0 } else { y1 };
            let hi = if y0 < y1 { y1 } else { y0 };
            let mut y = lo;
            loop
                invariant_except_break
                    forall|px: int, py: int| 0 <= px < 128 && 0 <= py < 128 ==>
                        #[trigger] self.pix(px, py) == (if px == x0 as int && lo as int <= py < y as int {
                            color
                        } else {
                            orig.pix(px, py)
                        }),
                invariant
                    self.wf(),
                    self.rng == orig.rng,
                    x0 == x1,
                    y0 != y1,
                    lo <= y <= hi,
                    lo as int == if y0 <= y1 { y0 as int } else { y1 as int },
                    hi as int == if y0 <= y1 { y1 as int } else { y0 as int },
                ensures
                    self.wf(),
                    self.rng == orig.rng,
                    self.color == color,
                    forall|px: int, py: int| 0 <= px < 128 && 0 <= py < 128 ==>
                        #[trigger] self.pix(px, py) == (if px == x0 as int && lo as int <= py <= hi as int {
                            color
                        } else {
                            orig.pix(px, py)
                        }),
                decreases hi as int - y as int,
            {
                self.pset(x0, y, color);
                if y == hi {
                    break;
                }
                y = y + 1;
            }
        } else {
            self.line_walk(x0, y0, x1, y1, color);
        }
    }

    /// The general, neither horizontal nor vertical, case of `line`: run the
    /// error-term walk and plot each of its points.
    fn line_walk(&mut self, x0: u8, y0: u8, x1: u8, y1: u8, color: u8)
        requires
            old(self).wf(),
            x0 != x1,
            y0 != y1,
        ensures
            final(self).wf(),
            final(self).color == color,
            final(self).rng == old(self).rng,
            bres_points(x0 as int, y0 as int, x1 as int, y1 as int).contains((x0 as int, y0 as int)),
            bres_points(x0 as int, y0 as int, x1 as int, y1 as int).contains((x1 as int, y1 as int)),
            forall|p: (int, int)|
                #[trigger] bres_points(x0 as int, y0 as int, x1 as int, y1 as int).contains(p)
                    ==> between(x0 as int, x1 as int, p.0) && between(y0 as int, y1 as int, p.1),
            forall|px: int, py: int| 0 <= px < 128 && 0 <= py < 128 ==>
                #[trigger] final(self).pix(px, py) == (if bres_points(
                    x0 as int,
                    y0 as int,
                    x1 as int,
                    y1 as int,
                ).contains((px, py)) {
                    color
                } else {
                    old(self).pix(px, py)
                }),
    {
        let ghost orig = *self;
        let x1i: i32 = x1 as i32;
        let y1i: i32 = y1 as i32;
        let dx: i32 = if x0 < x1 { x1 as i32 - x0 as i32 } else { x0 as i32 - x1 as i32 };
        let sx: i32 = if x0 < x1 { 1 } else { -1 };
        let dya: i32 = if y0 < y1 { y1 as i32 - y0 as i32 } else { y0 as i32 - y1 as i32 };
        let dy: i32 = -dya;
        let sy: i32 = if y0 < y1 { 1 } else { -1 };
        let mut err: i32 = dx + dy;
        let mut x: i32 = x0 as i32;
        let mut y: i32 = y0 as i32;
        let ghost full = bres_points(x0 as int, y0 as int, x1 as int, y1 as int);
        let ghost mut done = Set::<(int, int)>::empty();
        let ghost mut i: int = 0;
        let ghost mut j: int = 0;
        proof {
            lemma_mul_sign_unit(sx as int, dx as int);
            lemma_mul_sign_unit(sy as int, dya as int);
            lemma_mul_sign_unit(sx as int, 0);
            lemma_mul_sign_unit(sy as int, 0);
            // The walk starts at (x0, y0), so that point is always covered.
            assert(full[0] == (x0 as int, y0 as int));
            assert(full.contains((x0 as int, y0 as int)));
        }
        loop
            invariant
                self.wf(),
                self.rng == orig.rng,
                x0 != x1,
                y0 != y1,
                x1i == x1 as i32,
                y1i == y1 as i32,
                dx as int == absi(x1 as int - x0 as int),
                dy as int == -absi(y1 as int - y0 as int),
                dya as int == -(dy as int),
                sx as int == sgn(x1 as int - x0 as int),
                sy as int == sgn(y1 as int - y0 as int),
                1 <= dx as int <= 255,
                -255 <= dy as int <= -1,
                0 <= i <= dx as int,
                0 <= j <= dya as int,
                x as int == x0 as int + sx as int * i,
                y as int == y0 as int + sy as int * j,
                x1 as int == x0 as int + sx as int * (dx as int),
                y1 as int == y0 as int + sy as int * (dya as int),
                err as int == (dx as int) * (1 + j) + (dy as int) * (1 + i),
                (i == dx as int) <==> (x == x1i),
                (j == dya as int) <==> (y == y1i),
                0 <= x as int <= 255,
                0 <= y as int <= 255,
                full == bres_points(x0 as int, y0 as int, x1 as int, y1 as int),
                forall|p: (int, int)| #[trigger] done.contains(p)
                    ==> between(x0 as int, x1 as int, p.0) && between(y0 as int, y1 as int, p.1),
                forall|p: (int, int)|
                    #![trigger full.contains(p)]
                    #![trigger done.contains(p)]
                    full.contains(p) <==> (done.contains(p) || bres_seq(
                        x as int,
                        y as int,
                        x1 as int,
                        y1 as int,
                        dx as int,
                        dy as int,
                        err as int,
                        sx as int,
                        sy as int,
                    ).contains(p)),
                forall|px: int, py: int| 0 <= px < 128 && 0 <= py < 128 ==>
                    #[trigger] self.pix(px, py) == (if done.contains((px, py)) {
                        color
                    } else {
                        orig.pix(px, py)
                    }),
            ensures
                self.wf(),
                self.rng == orig.rng,
                self.color == color,
                full.contains((x1 as int, y1 as int)),
                forall|p: (int, int)| #[trigger] full.contains(p)
                    ==> between(x0 as int, x1 as int, p.0) && between(y0 as int, y1 as int, p.1),
                forall|px: int, py: int| 0 <= px < 128 && 0 <= py < 128 ==>
                    #[trigger] self.pix(px, py) == (if full.contains((px, py)) {
                        color
                    } else {
                        orig.pix(px, py)
                    }),
            decreases absi(x1 as int - x as int) + absi(y1 as int - y as int),
        {
            self.pset(x as u8, y as u8, color);
            proof {
                // The current point sits between the endpoints on both axes.
                lemma_mul_sign_unit(sx as int, i);
                lemma_mul_sign_unit(sx as int, dx as int);
                lemma_mul_sign_unit(sy as int, j);
                lemma_mul_sign_unit(sy as int, dya as int);
                assert(between(x0 as int, x1 as int, x as int));
                assert(between(y0 as int, y1 as int, y as int));
                done = done.insert((x as int, y as int));
            }
            if x == x1i && y == y1i {
                proof {
                    let rem = bres_seq(
                        x as int,
                        y as int,
                        x1 as int,
                        y1 as int,
                        dx as int,
                        dy as int,
                        err as int,
                        sx as int,
                        sy as int,
                    );
                    assert(rem == seq![(x as int, y as int)]);
                    assert forall|p: (int, int)| full.contains(p) <==> done.contains(p) by {
                        lemma_singleton_contains((x as int, y as int), p);
                    }
                    assert(full.contains((x1 as int, y1 as int)));
                }
                break;
            }
            let ghost oldx = x as int;
            let ghost oldy = y as int;
            let ghost olderr = err as int;
            let ghost oldi = i;
            let ghost oldj = j;
            proof {
                lemma_err_bounds(dx as int, dy as int, i, j, err as int);
                // When a coordinate already sits on its endpoint, its step
                // condition cannot fire.
                if i == dx as int {
                    lemma_x_step_blocked(dx as int, dy as int, j, err as int);
                }
                if j == dya as int {
                    lemma_y_step_blocked(dx as int, dy as int, i, err as int);
                }
            }
            let e2: i32 = 2 * err;
            if e2 >= dy {
                err = err + dy;
                x = x + sx;
                proof {
                    i = i + 1;
                }
            }
            if e2 <= dx {
                err = err + dx;
                y = y + sy;
                proof {
                    j = j + 1;
                }
            }
            proof {
                lemma_mul_dist(dx as int, 1 + oldj);
                lemma_mul_dist(dy as int, 1 + oldi);
                lemma_mul_sign_unit(sx as int, i);
                lemma_mul_sign_unit(sx as int, oldi);
                lemma_mul_sign_unit(sx as int, dx as int);
                lemma_mul_sign_unit(sy as int, j);
                lemma_mul_sign_unit(sy as int, oldj);
                lemma_mul_sign_unit(sy as int, dya as int);
                // The step makes progress: at least one condition fired.
                assert(i + j > oldi + oldj);
                // Positions stay on the segment, so the distances to the
                // endpoint shrink by exactly the steps taken.
                assert(absi(x1 as int - (x as int)) == dx as int - i);
                assert(absi(y1 as int - (y as int)) == dya as int - j);
                assert(absi(x1 as int - oldx) == dx as int - oldi);
                assert(absi(y1 as int - oldy) == dya as int - oldj);
                let s = bres_step(oldx, oldy, dx as int, dy as int, olderr, sx as int, sy as int);
                assert(s == (x as int, y as int, err as int));
                let rem_old = bres_seq(
                    oldx,
                    oldy,
                    x1 as int,
                    y1 as int,
                    dx as int,
                    dy as int,
                    olderr,
                    sx as int,
                    sy as int,
                );
                let rem_new = bres_seq(
                    x as int,
                    y as int,
                    x1 as int,
                    y1 as int,
                    dx as int,
                    dy as int,
                    err as int,
                    sx as int,
                    sy as int,
                );
                assert(rem_old == seq![(oldx, oldy)] + rem_new);
                assert forall|p: (int, int)| full.contains(p) <==> (done.contains(p) || rem_new.contains(p)) by {
                    lemma_seq_add_contains(seq![(oldx, oldy)], rem_new, p);
                    lemma_singleton_contains((oldx, oldy), p);
                }
            }
        }
    }
}

} // verus!
