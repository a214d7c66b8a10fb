use vstd::prelude::*;
use crate::geometry::{Point, COORD_LIMIT};

verus! {

/// Largest scale (mass) of a body, in hundredths.
pub const MASS_LIMIT: u64 = 0x1_0000;

/// A round body: where it is, how far it moves per tick, and its mass.
#[derive(Debug, Clone, Copy, PartialEq, Eq, Structural)]
pub struct Body {
    pub pos: Point,
    pub vel: Point,
    pub mass: u64,
}

impl Body {
    /// Position and velocity are in range and the mass is positive.
    pub open spec fn wf(self) -> bool {
        self.pos.bounded() && self.vel.bounded() && 1 <= self.mass <= MASS_LIMIT
    }
}

/// Division of `n` by a positive `d`, rounding toward zero.
pub open spec fn trunc_div(n: int, d: int) -> int {
    if n >= 0 {
        n / d
    } else {
        -((-n) / d)
    }
}

/// Squared distance between the centres of `a` and `b`.
pub open spec fn dist2(a: Body, b: Body) -> int {
    (a.pos.x - b.pos.x) * (a.pos.x - b.pos.x) + (a.pos.y - b.pos.y) * (a.pos.y - b.pos.y)
}

/// Twice the closing speed of `b` onto `a` along the line of centres, scaled
/// by the distance: `2 (v_b - v_a) . (p_a - p_b)`.
pub open spec fn closing(a: Body, b: Body) -> int {
    2 * ((b.vel.x - a.vel.x) * (a.pos.x - b.pos.x) + (b.vel.y - a.vel.y) * (a.pos.y - b.pos.y))
}

/// The denominator of the elastic impulse: total mass times squared distance.
pub open spec fn impulse_den(a: Body, b: Body) -> int {
    (a.mass + b.mass) * dist2(a, b)
}

/// The exact elastic change of velocity of a body, scaled by
/// `impulse_den`, on an axis whose component of the line of centres is `c`,
/// when the other body has mass `m`.
pub open spec fn impulse_num(a: Body, b: Body, m: int, c: int) -> int {
    m * closing(a, b) * c
}

/// The velocity change `impulse_num / impulse_den`, rounded toward zero.
pub open spec fn gain(a: Body, b: Body, m: int, c: int) -> int {
    trunc_div(impulse_num(a, b, m, c), impulse_den(a, b))
}

/// Velocity components of `a` and `b` after an elastic collision.
pub open spec fn after_ax(a: Body, b: Body) -> int {
    a.vel.x + gain(a, b, b.mass as int, a.pos.x - b.pos.x)
}

pub open spec fn after_ay(a: Body, b: Body) -> int {
    a.vel.y + gain(a, b, b.mass as int, a.pos.y - b.pos.y)
}

pub open spec fn after_bx(a: Body, b: Body) -> int {
    b.vel.x - gain(a, b, a.mass as int, a.pos.x - b.pos.x)
}

pub open spec fn after_by(a: Body, b: Body) -> int {
    b.vel.y - gain(a, b, a.mass as int, a.pos.y - b.pos.y)
}

pub open spec fn in_range(v: int) -> bool {
    -COORD_LIMIT <= v <= COORD_LIMIT
}

/// The velocities after the collision are all within `COORD_LIMIT`.
pub open spec fn bounce_in_range(a: Body, b: Body) -> bool {
    in_range(after_ax(a, b)) && in_range(after_ay(a, b)) && in_range(after_bx(a, b))
        && in_range(after_by(a, b))
}

proof fn lemma_mul_bound(a: int, b: int, ba: int, bb: int)
    requires
        -ba <= a <= ba,
        -bb <= b <= bb,
    ensures
        -(ba * bb) <= a * b <= ba * bb,
{
    assert(-(ba * bb) <= a * b <= ba * bb) by (nonlinear_arith)
        requires
            -ba <= a <= ba,
            -bb <= b <= bb,
    ;
}

/// Rounding toward zero misses the exact quotient by less than one.
proof fn lemma_trunc_div_close(n: int, d: int)
    requires
        d > 0,
    ensures
        -d < trunc_div(n, d) * d - n < d,
{
    if n >= 0 {
        vstd::arithmetic::div_mod::lemma_fundamental_div_mod(n, d);
        vstd::arithmetic::div_mod::lemma_mod_bound(n, d);
        assert(trunc_div(n, d) * d == d * (n / d)) by (nonlinear_arith)
            requires
                trunc_div(n, d) == n / d,
        ;
    } else {
        vstd::arithmetic::div_mod::lemma_fundamental_div_mod(-n, d);
        vstd::arithmetic::div_mod::lemma_mod_bound(-n, d);
        assert(trunc_div(n, d) * d == -(d * ((-n) / d))) by (nonlinear_arith)
            requires
                trunc_div(n, d) == -((-n) / d),
        ;
    }
}

proof fn lemma_den_positive(a: Body, b: Body)
    requires
        a.wf(),
        b.wf(),
        a.pos != b.pos,
    ensures
        dist2(a, b) > 0,
        impulse_den(a, b) > 0,
{
    let (px, py) = (a.pos.x - b.pos.x, a.pos.y - b.pos.y);
    assert(px * px >= 0 && py * py >= 0) by (nonlinear_arith);
    if px != 0 {
        assert(px * px > 0) by (nonlinear_arith) requires px != 0;
    }
    if py != 0 {
        assert(py * py > 0) by (nonlinear_arith) requires py != 0;
    }
    let m = a.mass + b.mass;
    assert(m * dist2(a, b) > 0) by (nonlinear_arith) requires m > 0, dist2(a, b) > 0;
}

fn div_toward_zero(n: i128, d: i128) -> (r: i128)
    requires
        d > 0,
        n > i128::MIN,
    ensures
        r == trunc_div(n as int, d as int),
{
    if n >= 0 {
        n / d
    } else {
        let m = -n;
        -(m / d)
    }
}

fn gain_exec(a: &Body, b: &Body, m: i128, c: i128) -> (r: i128)
    requires
        a.wf(),
        b.wf(),
        a.pos != b.pos,
        m == a.mass || m == b.mass,
        c == a.pos.x - b.pos.x || c == a.pos.y - b.pos.y,
    ensures
        r == gain(*a, *b, m as int, c as int),
{
    let lim: i128 = 0x8000_0000;
    let px = a.pos.x as i128 - b.pos.x as i128;
    let py = a.pos.y as i128 - b.pos.y as i128;
    let dvx = b.vel.x as i128 - a.vel.x as i128;
    let dvy = b.vel.y as i128 - a.vel.y as i128;
    proof {
        lemma_mul_bound(dvx as int, px as int, lim as int, lim as int);
        lemma_mul_bound(dvy as int, py as int, lim as int, lim as int);
        lemma_mul_bound(px as int, px as int, lim as int, lim as int);
        lemma_mul_bound(py as int, py as int, lim as int, lim as int);
        lemma_den_positive(*a, *b);
    }
    let s = 2 * (dvx * px + dvy * py);
    let d = px * px + py * py;
    proof {
        lemma_mul_bound(m as int, s as int, 0x1_0000, 0x1_0000_0000_0000_0000);
        lemma_mul_bound((m * s) as int, c as int, 0x1_0000_0000_0000_0000_0000, lim as int);
    }
    let mm = a.mass as i128 + b.mass as i128;
    proof {
        lemma_mul_bound(mm as int, d as int, 0x2_0000, 0x8000_0000_0000_0000);
    }
    div_toward_zero(m * s * c, mm * d)
}

/// Resolves an elastic collision between two round bodies whose centres do
/// not coincide, using their scales as masses.
///
/// Each body's velocity changes along the line of centres by the exact
/// elastic impulse divided by its own mass, rounded toward zero once on each
/// axis (see `lemma_bounce_near_elastic`). Gives `None` when a resulting
/// velocity would leave the coordinate range.
pub fn bounce_velocities(a: &Body, b: &Body) -> (r: Option<(Point, Point)>)
    requires
        a.wf(),
        b.wf(),
        a.pos != b.pos,
    ensures
        r.is_some() <==> bounce_in_range(*a, *b),
        r matches Some((va, vb)) ==> {
            &&& va.x == after_ax(*a, *b)
            &&& va.y == after_ay(*a, *b)
            &&& vb.x == after_bx(*a, *b)
            &&& vb.y == after_by(*a, *b)
        },
{
    let px = a.pos.x as i128 - b.pos.x as i128;
    let py = a.pos.y as i128 - b.pos.y as i128;
    let ma = a.mass as i128;
    let mb = b.mass as i128;
    let gax = gain_exec(a, b, mb, px);
    let gay = gain_exec(a, b, mb, py);
    let gbx = gain_exec(a, b, ma, px);
    let gby = gain_exec(a, b, ma, py);
    let lim = COORD_LIMIT as i128;
    if gax < -3 * lim || gax > 3 * lim || gay < -3 * lim || gay > 3 * lim || gbx < -3 * lim || gbx
        > 3 * lim || gby < -3 * lim || gby > 3 * lim {
        return None;
    }
    let ax = a.vel.x as i128 + gax;
    let ay = a.vel.y as i128 + gay;
    let bx = b.vel.x as i128 - gbx;
    let by_ = b.vel.y as i128 - gby;
    if ax < -lim || ax > lim || ay < -lim || ay > lim || bx < -lim || bx > lim || by_ < -lim
        || by_ > lim {
        return None;
    }
    Some((Point { x: ax as i64, y: ay as i64 }, Point { x: bx as i64, y: by_ as i64 }))
}

/// Total momentum along one axis of two bodies of masses `ma`, `mb` moving
/// at `va`, `vb`.
pub open spec fn momentum(ma: int, va: int, mb: int, vb: int) -> int {
    ma * va + mb * vb
}

/// Each velocity after a bounce is the exact elastic one to within one unit
/// per axis: the change of `a` along x times `impulse_den` differs from
/// `m_b * closing * (p_a - p_b).x` by less than `impulse_den`, and likewise
/// for the other axis and for `b`.
pub proof fn lemma_bounce_near_elastic(a: Body, b: Body)
    requires
        a.wf(),
        b.wf(),
        a.pos != b.pos,
    ensures
        ({
            let d = impulse_den(a, b);
            let (px, py) = (a.pos.x - b.pos.x, a.pos.y - b.pos.y);
            &&& -d < (after_ax(a, b) - a.vel.x) * d - impulse_num(a, b, b.mass as int, px) < d
            &&& -d < (after_ay(a, b) - a.vel.y) * d - impulse_num(a, b, b.mass as int, py) < d
            &&& -d < (b.vel.x - after_bx(a, b)) * d - impulse_num(a, b, a.mass as int, px) < d
            &&& -d < (b.vel.y - after_by(a, b)) * d - impulse_num(a, b, a.mass as int, py) < d
        }),
{
    lemma_den_positive(a, b);
    let d = impulse_den(a, b);
    let (px, py) = (a.pos.x - b.pos.x, a.pos.y - b.pos.y);
    lemma_trunc_div_close(impulse_num(a, b, b.mass as int, px), d);
    lemma_trunc_div_close(impulse_num(a, b, b.mass as int, py), d);
    lemma_trunc_div_close(impulse_num(a, b, a.mass as int, px), d);
    lemma_trunc_div_close(impulse_num(a, b, a.mass as int, py), d);
}

proof fn lemma_momentum_axis(ma: int, mb: int, va: int, vb: int, ga: int, gb: int, k: int, d: int)
    requires
        ma >= 1,
        mb >= 1,
        d > 0,
        -d < ga * d - mb * k < d,
        -d < gb * d - ma * k < d,
    ensures
        -(ma + mb) < momentum(ma, va + ga, mb, vb - gb) - momentum(ma, va, mb, vb) < ma + mb,
{
    let delta = ma * ga - mb * gb;
    assert(ma * (va + ga) + mb * (vb - gb) - (ma * va + mb * vb) == delta) by (nonlinear_arith)
        requires
            delta == ma * ga - mb * gb,
    ;
    assert(delta * d == ma * (ga * d - mb * k) - mb * (gb * d - ma * k)) by (nonlinear_arith)
        requires
            delta == ma * ga - mb * gb,
    ;
    assert(-(ma * d) < ma * (ga * d - mb * k) < ma * d) by (nonlinear_arith)
        requires
            ma >= 1,
            -d < ga * d - mb * k < d,
    ;
    assert(-(mb * d) < mb * (gb * d - ma * k) < mb * d) by (nonlinear_arith)
        requires
            mb >= 1,
            -d < gb * d - ma * k < d,
    ;
    assert((ma + mb) * d == ma * d + mb * d) by (nonlinear_arith);
    assert(-((ma + mb) * d) < delta * d < (ma + mb) * d);
    assert(-(ma + mb) < delta < ma + mb) by (nonlinear_arith)
        requires
            d > 0,
            -((ma + mb) * d) < delta * d < (ma + mb) * d,
    ;
}

/// A bounce keeps the total momentum of the two bodies on each axis: the
/// rounding changes it by less than the sum of the masses.
pub proof fn lemma_bounce_conserves_momentum(a: Body, b: Body)
    requires
        a.wf(),
        b.wf(),
        a.pos != b.pos,
    ensures
        -(a.mass + b.mass) < momentum(a.mass as int, after_ax(a, b), b.mass as int, after_bx(a, b))
            - momentum(a.mass as int, a.vel.x as int, b.mass as int, b.vel.x as int) < a.mass + b.mass,
        -(a.mass + b.mass) < momentum(a.mass as int, after_ay(a, b), b.mass as int, after_by(a, b))
            - momentum(a.mass as int, a.vel.y as int, b.mass as int, b.vel.y as int) < a.mass + b.mass,
{
    lemma_bounce_near_elastic(a, b);
    lemma_den_positive(a, b);
    let d = impulse_den(a, b);
    let (ma, mb) = (a.mass as int, b.mass as int);
    let (px, py) = (a.pos.x - b.pos.x, a.pos.y - b.pos.y);
    let (kx, ky) = (closing(a, b) * px, closing(a, b) * py);
    let c = closing(a, b);
    assert(forall|m: int, q: int| #[trigger] (m * c * q) == m * (c * q)) by {
        assert forall|m: int, q: int| #[trigger] (m * c * q) == m * (c * q) by {
            vstd::arithmetic::mul::lemma_mul_is_associative(m, c, q);
        }
    }
    lemma_momentum_axis(ma, mb, a.vel.x as int, b.vel.x as int, after_ax(a, b) - a.vel.x,
        b.vel.x - after_bx(a, b), kx, d);
    lemma_momentum_axis(ma, mb, a.vel.y as int, b.vel.y as int, after_ay(a, b) - a.vel.y,
        b.vel.y - after_by(a, b), ky, d);
}

} // verus!
