//! Closed-form solver for real roots of a quadratic.

use vstd::prelude::*;

use crate::fixed::{fadd, fdiv, fmul, fneg, fsqrt, fsub, Fx, SCALE};

verus! {

/// The fixed-point discriminant `b*b - 4*a*c`.
pub open spec fn quad_disc(a: int, b: int, c: int) -> int {
    fsub(fmul(b, b), fmul(fmul(4 * SCALE, a), c))
}

/// The first root, `(-b - sqrt(disc)) / (2*a)`.
pub open spec fn quad_root1(a: int, b: int, c: int) -> int {
    fdiv(fsub(fneg(b), fsqrt(quad_disc(a, b, c))), fmul(2 * SCALE, a))
}

/// The second root, `(-b + sqrt(disc)) / (2*a)`.
pub open spec fn quad_root2(a: int, b: int, c: int) -> int {
    fdiv(fadd(fneg(b), fsqrt(quad_disc(a, b, c))), fmul(2 * SCALE, a))
}

/// The real roots of `a*x*x + b*x + c == 0` by the standard formula,
/// or `None` exactly when the discriminant is negative.  When the
/// discriminant is zero the two roots are equal.  A zero leading
/// coefficient is tolerated: the division-by-zero convention of the
/// fixed-point scalars makes both roots zero.
pub fn solve_quadratic(a: Fx, b: Fx, c: Fx) -> (r: Option<(Fx, Fx)>)
    ensures
        r is Some <==> quad_disc(a@, b@, c@) >= 0,
        r is Some ==> (r->0).0@ == quad_root1(a@, b@, c@) && (r->0).1@ == quad_root2(a@, b@, c@),
{
    let four = Fx::from_int(4);
    let two = Fx::from_int(2);
    let discriminant = b.mul(b).sub(four.mul(a).mul(c));
    if discriminant.raw < 0 {
        return None;
    }
    let sq = discriminant.sqrt();
    let two_a = two.mul(a);
    let root1 = b.neg().sub(sq).div(two_a);
    let root2 = b.neg().add(sq).div(two_a);
    Some((root1, root2))
}

} // verus!
