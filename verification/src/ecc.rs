//! The curve gadgets: point addition, doubling, negation and reduction to
//! affine coordinates, each as a step on the registers of a trace row and as
//! the transition constraints that check the step.
//!
//! A point in projective coordinates takes eighteen registers, `X`, `Y` and
//! `Z` in this order; the identity is `(0, 1, 0)`. A point in affine
//! coordinates takes twelve, `x` and `y`. The addition law is the complete
//! one of a short Weierstrass curve `y^2 = x^3 + a x + b`: one formula for
//! every pair of points, the identity and doubling included.

use crate::bits::{bit_at, spec_bit_at};
use crate::constraint::{
    agg_constraint, agg_range, all_canonical, are_equal, diff, lemma_enforce_copy_satisfied, select,
    spec_agg, spec_agg_range, spec_are_equal, spec_diff, spec_select, spec_write_range, write_range,
};
use crate::field::Felt;
use crate::fp6::Fp6;
use vstd::prelude::*;

verus! {

/// Number of registers of one coordinate.
pub const POINT_COORDINATE_WIDTH: usize = 6;

/// Number of registers of a point in affine coordinates.
pub const AFFINE_POINT_WIDTH: usize = 12;

/// Number of registers of a point in projective coordinates.
pub const PROJECTIVE_POINT_WIDTH: usize = 18;

/// The curve that the gadgets work on: the extension that its coordinates
/// live in, its coefficients and its generator. Built once and never
/// changed.
#[derive(Clone, Copy, Debug, PartialEq, Eq, Structural)]
pub struct Curve {
    /// The residue of `u^6` in the extension.
    pub red: Fp6,
    /// The coefficient `a` of the curve equation.
    pub a: Fp6,
    /// Three times the coefficient `b` of the curve equation.
    pub b3: Fp6,
    /// The generator of the group.
    pub generator: Affine,
}

/// A point in affine coordinates. It cannot hold the identity.
#[derive(Clone, Copy, Debug, PartialEq, Eq, Structural)]
pub struct Affine {
    pub x: Fp6,
    pub y: Fp6,
}

/// A point in projective coordinates.
#[derive(Clone, Copy, Debug, PartialEq, Eq, Structural)]
pub struct Projective {
    pub x: Fp6,
    pub y: Fp6,
    pub z: Fp6,
}

impl Affine {
    /// The point held by the twelve registers of `s` from `offset` on.
    pub open spec fn spec_read(s: Seq<Felt>, offset: int) -> Affine {
        Affine { x: Fp6::spec_read(s, offset), y: Fp6::spec_read(s, offset + 6) }
    }

    /// The twelve registers of the point.
    #[verifier::opaque]
    pub open spec fn spec_registers(self) -> Seq<Felt> {
        seq![
            self.x.c0,
            self.x.c1,
            self.x.c2,
            self.x.c3,
            self.x.c4,
            self.x.c5,
            self.y.c0,
            self.y.c1,
            self.y.c2,
            self.y.c3,
            self.y.c4,
            self.y.c5,
        ]
    }

    pub open spec fn spec_neg(self) -> Affine {
        Affine { x: self.x, y: self.y.spec_neg() }
    }

    /// Reads a point from the twelve registers of `s` from `offset` on.
    pub fn read(s: &[Felt], offset: usize) -> (r: Affine)
        requires
            offset + AFFINE_POINT_WIDTH <= s.len(),
        ensures
            r == Affine::spec_read(s@, offset as int),
    {
        Affine { x: Fp6::read(s, offset), y: Fp6::read(s, offset + 6) }
    }

    /// The twelve registers of the point.
    pub fn to_vec(self) -> (r: Vec<Felt>)
        ensures
            r@ == self.spec_registers(),
            r.len() == AFFINE_POINT_WIDTH,
    {
        proof {
            reveal(Affine::spec_registers);
        }
        let mut r: Vec<Felt> = Vec::with_capacity(AFFINE_POINT_WIDTH);
        self.x.append_to(&mut r);
        self.y.append_to(&mut r);
        assert(r@ =~= self.spec_registers());
        r
    }

    pub fn neg(self) -> (r: Affine)
        ensures
            r == self.spec_neg(),
    {
        Affine { x: self.x, y: self.y.neg() }
    }

    /// The point times the number that the `n` most significant of the 255
    /// bits of a scalar make.
    pub open spec fn spec_mul_top_bits_of(self, scalar: Seq<u8>, n: nat, curve: Curve) -> Projective
        decreases n,
    {
        if n == 0 {
            Projective::spec_identity()
        } else {
            let doubled = self.spec_mul_top_bits_of(scalar, (n - 1) as nat, curve).spec_double(
                curve,
            );
            if spec_bit_at(scalar, 255 - n) {
                doubled.spec_add_mixed(self, curve)
            } else {
                doubled
            }
        }
    }

    /// The point times a scalar of 255 bits, given by its bytes, least
    /// significant first: by double-and-add from the most significant bit
    /// down.
    pub open spec fn spec_scalar_mul_bytes(self, scalar: Seq<u8>, curve: Curve) -> Projective {
        self.spec_mul_top_bits_of(scalar, 255, curve)
    }

    /// The point times a scalar of 255 bits, given by its bytes.
    pub fn scalar_mul_bytes(self, scalar: &[u8; 32], curve: &Curve) -> (r: Projective)
        ensures
            r == self.spec_scalar_mul_bytes(scalar@, *curve),
    {
        let mut acc = Projective::identity();
        let mut n: usize = 0;
        while n < 255
            invariant
                n <= 255,
                acc == self.spec_mul_top_bits_of(scalar@, n as nat, *curve),
            decreases 255 - n,
        {
            acc = acc.double(curve);
            if bit_at(scalar, 254 - n) {
                acc = acc.add_mixed(self, curve);
            }
            n += 1;
        }
        acc
    }

    /// The point meets the curve equation, taken three times:
    /// `3 y^2 = 3 x^3 + 3 a x + 3b`.
    pub open spec fn spec_is_on_curve(self, curve: Curve) -> bool {
        let red = curve.red;
        let yy = self.y.spec_mul(self.y, red);
        let xxx = self.x.spec_mul(self.x, red).spec_mul(self.x, red);
        let ax = curve.a.spec_mul(self.x, red);
        let rhs = xxx.spec_add(ax);
        yy.spec_add(yy).spec_add(yy) == rhs.spec_add(rhs).spec_add(rhs).spec_add(curve.b3)
    }

    /// Whether the point is on the curve.
    pub fn is_on_curve(self, curve: &Curve) -> (r: bool)
        ensures
            r == self.spec_is_on_curve(*curve),
    {
        let red = &curve.red;
        let yy = self.y.mul(self.y, red);
        let xxx = self.x.mul(self.x, red).mul(self.x, red);
        let ax = curve.a.mul(self.x, red);
        let rhs = xxx.add(ax);
        yy.add(yy).add(yy) == rhs.add(rhs).add(rhs).add(curve.b3)
    }

    /// The point times the number that the `n` most significant bits of
    /// `scalar` make: doubled for each bit, and `self` added where the bit
    /// is set.
    pub open spec fn spec_mul_top_bits(self, scalar: u64, n: nat, curve: Curve) -> Projective
        decreases n,
    {
        if n == 0 {
            Projective::spec_identity()
        } else {
            let doubled = self.spec_mul_top_bits(scalar, (n - 1) as nat, curve).spec_double(curve);
            if (scalar >> ((64 - n) as u64)) & 1 == 1 {
                doubled.spec_add_mixed(self, curve)
            } else {
                doubled
            }
        }
    }

    /// The point times `scalar`, by double-and-add over the 64 bits of the
    /// scalar.
    pub open spec fn spec_scalar_mul(self, scalar: u64, curve: Curve) -> Projective {
        self.spec_mul_top_bits(scalar, 64, curve)
    }

    /// The point times `scalar`.
    pub fn scalar_mul(self, scalar: u64, curve: &Curve) -> (r: Projective)
        ensures
            r == self.spec_scalar_mul(scalar, *curve),
    {
        let mut acc = Projective::identity();
        let mut n: u64 = 0;
        while n < 64
            invariant
                n <= 64,
                acc == self.spec_mul_top_bits(scalar, n as nat, *curve),
            decreases 64 - n,
        {
            acc = acc.double(curve);
            if (scalar >> (63 - n)) & 1 == 1 {
                acc = acc.add_mixed(self, curve);
            }
            n += 1;
        }
        acc
    }
}

impl Projective {
    /// The point held by the eighteen registers of `s` from `offset` on.
    pub open spec fn spec_read(s: Seq<Felt>, offset: int) -> Projective {
        Projective {
            x: Fp6::spec_read(s, offset),
            y: Fp6::spec_read(s, offset + 6),
            z: Fp6::spec_read(s, offset + 12),
        }
    }

    /// The eighteen registers of the point.
    #[verifier::opaque]
    pub open spec fn spec_registers(self) -> Seq<Felt> {
        seq![
            self.x.c0,
            self.x.c1,
            self.x.c2,
            self.x.c3,
            self.x.c4,
            self.x.c5,
            self.y.c0,
            self.y.c1,
            self.y.c2,
            self.y.c3,
            self.y.c4,
            self.y.c5,
            self.z.c0,
            self.z.c1,
            self.z.c2,
            self.z.c3,
            self.z.c4,
            self.z.c5,
        ]
    }

    /// The identity of the group.
    pub open spec fn spec_identity() -> Projective {
        Projective { x: Fp6::spec_zero(), y: Fp6::spec_one(), z: Fp6::spec_zero() }
    }

    /// The affine point, with `Z = 1`.
    pub open spec fn spec_from_affine(q: Affine) -> Projective {
        Projective { x: q.x, y: q.y, z: Fp6::spec_one() }
    }

    pub open spec fn spec_neg(self) -> Projective {
        Projective { x: self.x, y: self.y.spec_neg(), z: self.z }
    }

    /// The sum of two points, by the complete addition law:
    ///
    /// ```text
    /// X3 = (X1Y2 + X2Y1) m - (Y1Z2 + Y2Z1) n
    /// Y3 = (3 X1X2 + a Z1Z2) n + s m
    /// Z3 = (Y1Z2 + Y2Z1) s + (X1Y2 + X2Y1) (3 X1X2 + a Z1Z2)
    /// ```
    ///
    /// with `m = Y1Y2 - a (X1Z2 + X2Z1) - 3b Z1Z2`,
    /// `s = Y1Y2 + a (X1Z2 + X2Z1) + 3b Z1Z2` and
    /// `n = a X1X2 + 3b (X1Z2 + X2Z1) - a^2 Z1Z2`.
    #[verifier::opaque]
    pub open spec fn spec_add(self, rhs: Projective, curve: Curve) -> Projective {
        let red = curve.red;
        let xx = self.x.spec_mul(rhs.x, red);
        let yy = self.y.spec_mul(rhs.y, red);
        let zz = self.z.spec_mul(rhs.z, red);
        let xy = self.x.spec_mul(rhs.y, red).spec_add(rhs.x.spec_mul(self.y, red));
        let xz = self.x.spec_mul(rhs.z, red).spec_add(rhs.x.spec_mul(self.z, red));
        let yz = self.y.spec_mul(rhs.z, red).spec_add(rhs.y.spec_mul(self.z, red));
        let a_xz = curve.a.spec_mul(xz, red);
        let b3_zz = curve.b3.spec_mul(zz, red);
        let m = yy.spec_sub(a_xz).spec_sub(b3_zz);
        let s = yy.spec_add(a_xz).spec_add(b3_zz);
        let n = curve.a.spec_mul(xx, red).spec_add(curve.b3.spec_mul(xz, red)).spec_sub(
            curve.a.spec_mul(curve.a, red).spec_mul(zz, red),
        );
        let t = xx.spec_add(xx).spec_add(xx).spec_add(curve.a.spec_mul(zz, red));
        Projective {
            x: xy.spec_mul(m, red).spec_sub(yz.spec_mul(n, red)),
            y: t.spec_mul(n, red).spec_add(s.spec_mul(m, red)),
            z: yz.spec_mul(s, red).spec_add(xy.spec_mul(t, red)),
        }
    }

    /// Twice the point: its sum with itself.
    pub open spec fn spec_double(self, curve: Curve) -> Projective {
        self.spec_add(self, curve)
    }

    /// The sum with a point in affine coordinates.
    pub open spec fn spec_add_mixed(self, rhs: Affine, curve: Curve) -> Projective {
        self.spec_add(Projective::spec_from_affine(rhs), curve)
    }

    /// The affine coordinates `X / Z` and `Y / Z`; both zero where `Z` has
    /// no inverse, as for the identity.
    pub open spec fn spec_to_affine(self, curve: Curve) -> Affine {
        let zi = self.z.spec_inv(curve.red);
        Affine { x: self.x.spec_mul(zi, curve.red), y: self.y.spec_mul(zi, curve.red) }
    }

    /// Reads a point from the eighteen registers of `s` from `offset` on.
    pub fn read(s: &[Felt], offset: usize) -> (r: Projective)
        requires
            offset + PROJECTIVE_POINT_WIDTH <= s.len(),
        ensures
            r == Projective::spec_read(s@, offset as int),
    {
        Projective {
            x: Fp6::read(s, offset),
            y: Fp6::read(s, offset + 6),
            z: Fp6::read(s, offset + 12),
        }
    }

    /// The eighteen registers of the point.
    pub fn to_vec(self) -> (r: Vec<Felt>)
        ensures
            r@ == self.spec_registers(),
            r.len() == PROJECTIVE_POINT_WIDTH,
    {
        proof {
            reveal(Projective::spec_registers);
        }
        let mut r: Vec<Felt> = Vec::with_capacity(PROJECTIVE_POINT_WIDTH);
        self.x.append_to(&mut r);
        self.y.append_to(&mut r);
        self.z.append_to(&mut r);
        assert(r@ =~= self.spec_registers());
        r
    }

    #[verifier::when_used_as_spec(spec_identity)]
    pub fn identity() -> (r: Projective)
        ensures
            r == Projective::spec_identity(),
    {
        Projective { x: Fp6::zero(), y: Fp6::one(), z: Fp6::zero() }
    }

    pub fn from_affine(q: Affine) -> (r: Projective)
        ensures
            r == Projective::spec_from_affine(q),
    {
        Projective { x: q.x, y: q.y, z: Fp6::one() }
    }

    pub fn neg(self) -> (r: Projective)
        ensures
            r == self.spec_neg(),
    {
        Projective { x: self.x, y: self.y.neg(), z: self.z }
    }

    /// The sum of two points.
    pub fn add(self, rhs: Projective, curve: &Curve) -> (r: Projective)
        ensures
            r == self.spec_add(rhs, *curve),
    {
        proof {
            reveal(Projective::spec_add);
        }
        let red = &curve.red;
        let xx = self.x.mul(rhs.x, red);
        let yy = self.y.mul(rhs.y, red);
        let zz = self.z.mul(rhs.z, red);
        let xy = self.x.mul(rhs.y, red).add(rhs.x.mul(self.y, red));
        let xz = self.x.mul(rhs.z, red).add(rhs.x.mul(self.z, red));
        let yz = self.y.mul(rhs.z, red).add(rhs.y.mul(self.z, red));
        let a_xz = curve.a.mul(xz, red);
        let b3_zz = curve.b3.mul(zz, red);
        let m = yy.sub(a_xz).sub(b3_zz);
        let s = yy.add(a_xz).add(b3_zz);
        let n = curve.a.mul(xx, red).add(curve.b3.mul(xz, red)).sub(
            curve.a.mul(curve.a, red).mul(zz, red),
        );
        let t = xx.add(xx).add(xx).add(curve.a.mul(zz, red));
        Projective {
            x: xy.mul(m, red).sub(yz.mul(n, red)),
            y: t.mul(n, red).add(s.mul(m, red)),
            z: yz.mul(s, red).add(xy.mul(t, red)),
        }
    }

    /// Twice the point.
    pub fn double(self, curve: &Curve) -> (r: Projective)
        ensures
            r == self.spec_double(*curve),
    {
        self.add(self, curve)
    }

    /// The sum with a point in affine coordinates.
    pub fn add_mixed(self, rhs: Affine, curve: &Curve) -> (r: Projective)
        ensures
            r == self.spec_add_mixed(rhs, *curve),
    {
        self.add(Projective::from_affine(rhs), curve)
    }

    /// The affine coordinates of the point.
    pub fn to_affine(self, curve: &Curve) -> (r: Affine)
        ensures
            r == self.spec_to_affine(*curve),
    {
        let zi = self.z.inv(&curve.red);
        Affine { x: self.x.mul(zi, &curve.red), y: self.y.mul(zi, &curve.red) }
    }
}

// STEPS ON THE REGISTERS OF A ROW
// ================================================================================================

/// The registers of the identity.
pub fn identity() -> (r: Vec<Felt>)
    ensures
        r@ == Projective::spec_identity().spec_registers(),
        r.len() == PROJECTIVE_POINT_WIDTH,
{
    Projective::identity().to_vec()
}

/// The registers of the negation of a point in affine coordinates.
pub fn compute_negation_affine(point: &[Felt]) -> (r: Vec<Felt>)
    requires
        point.len() == AFFINE_POINT_WIDTH,
    ensures
        r@ == Affine::spec_read(point@, 0).spec_neg().spec_registers(),
        r.len() == AFFINE_POINT_WIDTH,
{
    Affine::read(point, 0).neg().to_vec()
}

/// The registers of the negation of the projective point that `row` holds
/// from `offset` on.
pub fn compute_negation_projective(row: &[Felt], offset: usize) -> (r: Vec<Felt>)
    requires
        offset + PROJECTIVE_POINT_WIDTH <= row.len(),
    ensures
        r@ == Projective::spec_read(row@, offset as int).spec_neg().spec_registers(),
        r.len() == PROJECTIVE_POINT_WIDTH,
{
    Projective::read(row, offset).neg().to_vec()
}

/// The affine registers of the projective point that `row` holds from
/// `offset` on.
pub fn reduce_to_affine(row: &[Felt], offset: usize, curve: &Curve) -> (r: Vec<Felt>)
    requires
        offset + PROJECTIVE_POINT_WIDTH <= row.len(),
    ensures
        r@ == Projective::spec_read(row@, offset as int).spec_to_affine(*curve).spec_registers(),
        r.len() == AFFINE_POINT_WIDTH,
{
    Projective::read(row, offset).to_affine(curve).to_vec()
}

/// The state after the point at `offset` was replaced by its sum with the
/// projective point `rhs`.
pub open spec fn spec_compute_add(
    state: Seq<Felt>,
    offset: int,
    rhs: Seq<Felt>,
    curve: Curve,
) -> Seq<Felt> {
    spec_write_range(
        state,
        offset,
        Projective::spec_read(state, offset).spec_add(
            Projective::spec_read(rhs, 0),
            curve,
        ).spec_registers(),
    )
}

/// Replaces the point at `offset` by its sum with the projective point
/// `rhs`.
pub fn compute_add(state: &mut [Felt], offset: usize, rhs: &[Felt], curve: &Curve)
    requires
        offset + PROJECTIVE_POINT_WIDTH <= old(state).len(),
        rhs.len() == PROJECTIVE_POINT_WIDTH,
    ensures
        final(state)@ == spec_compute_add(old(state)@, offset as int, rhs@, *curve),
        final(state).len() == old(state).len(),
{
    let sum = Projective::read(state, offset).add(Projective::read(rhs, 0), curve).to_vec();
    write_range(state, offset, sum.as_slice());
}

/// The state after the point at `offset` was replaced by its sum with the
/// affine point `point`.
pub open spec fn spec_compute_add_mixed(
    state: Seq<Felt>,
    offset: int,
    point: Seq<Felt>,
    curve: Curve,
) -> Seq<Felt> {
    spec_write_range(
        state,
        offset,
        Projective::spec_read(state, offset).spec_add_mixed(
            Affine::spec_read(point, 0),
            curve,
        ).spec_registers(),
    )
}

/// Replaces the point at `offset` by its sum with the affine point `point`.
pub fn compute_add_mixed(state: &mut [Felt], offset: usize, point: &[Felt], curve: &Curve)
    requires
        offset + PROJECTIVE_POINT_WIDTH <= old(state).len(),
        point.len() == AFFINE_POINT_WIDTH,
    ensures
        final(state)@ == spec_compute_add_mixed(old(state)@, offset as int, point@, *curve),
        final(state).len() == old(state).len(),
{
    let sum = Projective::read(state, offset).add_mixed(Affine::read(point, 0), curve).to_vec();
    write_range(state, offset, sum.as_slice());
}

/// The state after the point at `offset` was doubled.
pub open spec fn spec_apply_point_doubling(state: Seq<Felt>, offset: int, curve: Curve) -> Seq<
    Felt,
> {
    spec_write_range(
        state,
        offset,
        Projective::spec_read(state, offset).spec_double(curve).spec_registers(),
    )
}

/// Doubles the point at `offset`: the first half of a step of
/// double-and-add.
pub fn apply_point_doubling(state: &mut [Felt], offset: usize, curve: &Curve)
    requires
        offset + PROJECTIVE_POINT_WIDTH <= old(state).len(),
    ensures
        final(state)@ == spec_apply_point_doubling(old(state)@, offset as int, *curve),
        final(state).len() == old(state).len(),
{
    let doubled = Projective::read(state, offset).double(curve).to_vec();
    write_range(state, offset, doubled.as_slice());
}

/// The state after `point` was added to the point at `offset` where the
/// register `bit` holds one; the state itself where it does not.
pub open spec fn spec_apply_point_addition_mixed_bit(
    state: Seq<Felt>,
    offset: int,
    point: Seq<Felt>,
    bit: int,
    curve: Curve,
) -> Seq<Felt> {
    if state[bit] == Felt::spec_one() {
        spec_compute_add_mixed(state, offset, point, curve)
    } else {
        state
    }
}

/// Adds the affine point `point` to the point at `offset` if the register
/// `bit` holds one: the second half of a step of double-and-add.
pub fn apply_point_addition_mixed_bit(
    state: &mut [Felt],
    offset: usize,
    point: &[Felt],
    bit: usize,
    curve: &Curve,
)
    requires
        offset + PROJECTIVE_POINT_WIDTH <= old(state).len(),
        bit < old(state).len(),
        point.len() == AFFINE_POINT_WIDTH,
    ensures
        final(state)@ == spec_apply_point_addition_mixed_bit(
            old(state)@,
            offset as int,
            point@,
            bit as int,
            *curve,
        ),
        final(state).len() == old(state).len(),
{
    if state[bit] == Felt::one() {
        compute_add_mixed(state, offset, point, curve);
    }
}

/// As [`apply_point_addition_mixed_bit`], with the bit in the register that
/// follows the point.
pub fn apply_point_addition_mixed(state: &mut [Felt], offset: usize, point: &[Felt], curve: &Curve)
    requires
        offset + PROJECTIVE_POINT_WIDTH < old(state).len(),
        point.len() == AFFINE_POINT_WIDTH,
    ensures
        final(state)@ == spec_apply_point_addition_mixed_bit(
            old(state)@,
            offset as int,
            point@,
            offset + PROJECTIVE_POINT_WIDTH,
            *curve,
        ),
        final(state).len() == old(state).len(),
{
    apply_point_addition_mixed_bit(state, offset, point, offset + PROJECTIVE_POINT_WIDTH, curve);
}

// TRANSITION CONSTRAINTS
// ================================================================================================

/// The constraints that the point of `next` at `offset` is `expected`.
pub open spec fn spec_enforce_point(
    result: Seq<Felt>,
    next: Seq<Felt>,
    offset: int,
    expected: Seq<Felt>,
    flag: Felt,
) -> Seq<Felt> {
    spec_agg_range(
        result,
        offset,
        flag,
        spec_diff(next.subrange(offset, offset + PROJECTIVE_POINT_WIDTH), expected),
    )
}

fn enforce_point(result: &mut [Felt], next: &[Felt], offset: usize, expected: &[Felt], flag: Felt)
    requires
        offset + PROJECTIVE_POINT_WIDTH <= old(result).len(),
        offset + PROJECTIVE_POINT_WIDTH <= next.len(),
        expected.len() == PROJECTIVE_POINT_WIDTH,
    ensures
        final(result)@ == spec_enforce_point(old(result)@, next@, offset as int, expected@, flag),
        final(result).len() == old(result).len(),
{
    let d = diff(&next[offset..offset + PROJECTIVE_POINT_WIDTH], expected);
    agg_range(result, offset, flag, d.as_slice());
}

/// The constraints of a doubling, without that of the bit.
pub open spec fn spec_enforce_point_doubling_bit(
    result: Seq<Felt>,
    current: Seq<Felt>,
    next: Seq<Felt>,
    offset: int,
    flag: Felt,
    curve: Curve,
) -> Seq<Felt> {
    spec_enforce_point(
        result,
        next,
        offset,
        Projective::spec_read(current, offset).spec_double(curve).spec_registers(),
        flag,
    )
}

/// Under `flag`, constrains the point of `next` at `offset` to be twice that
/// of `current`. The bit of the double-and-add is left to the gadget that
/// owns its register.
pub fn enforce_point_doubling_bit(
    result: &mut [Felt],
    current: &[Felt],
    next: &[Felt],
    offset: usize,
    flag: Felt,
    curve: &Curve,
)
    requires
        offset + PROJECTIVE_POINT_WIDTH <= old(result).len(),
        offset + PROJECTIVE_POINT_WIDTH <= current.len(),
        offset + PROJECTIVE_POINT_WIDTH <= next.len(),
    ensures
        final(result)@ == spec_enforce_point_doubling_bit(
            old(result)@,
            current@,
            next@,
            offset as int,
            flag,
            *curve,
        ),
        final(result).len() == old(result).len(),
{
    let expected = Projective::read(current, offset).double(curve).to_vec();
    enforce_point(result, next, offset, expected.as_slice(), flag);
}

/// The constraints of a doubling: those of the point, and that the bit that
/// `next` brings in the register after the point is binary.
pub open spec fn spec_enforce_point_doubling(
    result: Seq<Felt>,
    current: Seq<Felt>,
    next: Seq<Felt>,
    offset: int,
    flag: Felt,
    curve: Curve,
) -> Seq<Felt> {
    spec_agg(
        spec_enforce_point_doubling_bit(result, current, next, offset, flag, curve),
        offset + PROJECTIVE_POINT_WIDTH,
        flag,
        crate::constraint::spec_is_binary(next[offset + PROJECTIVE_POINT_WIDTH]),
    )
}

/// Under `flag`, constrains the point of `next` at `offset` to be twice that
/// of `current`, and the register after the point to hold a bit in `next`.
pub fn enforce_point_doubling(
    result: &mut [Felt],
    current: &[Felt],
    next: &[Felt],
    offset: usize,
    flag: Felt,
    curve: &Curve,
)
    requires
        offset + PROJECTIVE_POINT_WIDTH < old(result).len(),
        offset + PROJECTIVE_POINT_WIDTH < current.len(),
        offset + PROJECTIVE_POINT_WIDTH < next.len(),
    ensures
        final(result)@ == spec_enforce_point_doubling(
            old(result)@,
            current@,
            next@,
            offset as int,
            flag,
            *curve,
        ),
        final(result).len() == old(result).len(),
{
    enforce_point_doubling_bit(result, current, next, offset, flag, curve);
    agg_constraint(
        result,
        offset + PROJECTIVE_POINT_WIDTH,
        flag,
        crate::constraint::is_binary(next[offset + PROJECTIVE_POINT_WIDTH]),
    );
}

/// The constraints of a conditional addition, without that of the bit: the
/// point of `next` is the sum where the register `bit` of `current` is one,
/// the point of `current` where it is zero.
pub open spec fn spec_enforce_point_addition_mixed_bit(
    result: Seq<Felt>,
    current: Seq<Felt>,
    next: Seq<Felt>,
    offset: int,
    point: Seq<Felt>,
    bit: int,
    flag: Felt,
    curve: Curve,
) -> Seq<Felt> {
    let before = Projective::spec_read(current, offset);
    let sum = before.spec_add_mixed(Affine::spec_read(point, 0), curve);
    spec_enforce_point(
        result,
        next,
        offset,
        spec_select(current[bit], sum.spec_registers(), before.spec_registers()),
        flag,
    )
}

/// Under `flag`, constrains the point of `next` at `offset` to be that of
/// `current` plus `point` where the register `bit` of `current` holds one,
/// and that of `current` where it holds zero.
pub fn enforce_point_addition_mixed_bit(
    result: &mut [Felt],
    current: &[Felt],
    next: &[Felt],
    offset: usize,
    point: &[Felt],
    bit: usize,
    flag: Felt,
    curve: &Curve,
)
    requires
        offset + PROJECTIVE_POINT_WIDTH <= old(result).len(),
        offset + PROJECTIVE_POINT_WIDTH <= current.len(),
        offset + PROJECTIVE_POINT_WIDTH <= next.len(),
        bit < current.len(),
        point.len() == AFFINE_POINT_WIDTH,
    ensures
        final(result)@ == spec_enforce_point_addition_mixed_bit(
            old(result)@,
            current@,
            next@,
            offset as int,
            point@,
            bit as int,
            flag,
            *curve,
        ),
        final(result).len() == old(result).len(),
{
    let before = Projective::read(current, offset);
    let sum = before.add_mixed(Affine::read(point, 0), curve).to_vec();
    let kept = before.to_vec();
    let expected = select(current[bit], sum.as_slice(), kept.as_slice());
    enforce_point(result, next, offset, expected.as_slice(), flag);
}

/// The constraints of a conditional addition with the bit in the register
/// after the point: those of the point, and that the bit is carried over.
pub open spec fn spec_enforce_point_addition_mixed(
    result: Seq<Felt>,
    current: Seq<Felt>,
    next: Seq<Felt>,
    offset: int,
    point: Seq<Felt>,
    flag: Felt,
    curve: Curve,
) -> Seq<Felt> {
    let bit = offset + PROJECTIVE_POINT_WIDTH;
    spec_agg(
        spec_enforce_point_addition_mixed_bit(
            result,
            current,
            next,
            offset,
            point,
            bit,
            flag,
            curve,
        ),
        bit,
        flag,
        spec_are_equal(next[bit], current[bit]),
    )
}

/// Under `flag`, constrains the point of `next` at `offset` as
/// [`enforce_point_addition_mixed_bit`] does with the bit in the register
/// after the point, and that register to keep its value.
pub fn enforce_point_addition_mixed(
    result: &mut [Felt],
    current: &[Felt],
    next: &[Felt],
    offset: usize,
    point: &[Felt],
    flag: Felt,
    curve: &Curve,
)
    requires
        offset + PROJECTIVE_POINT_WIDTH < old(result).len(),
        offset + PROJECTIVE_POINT_WIDTH < current.len(),
        offset + PROJECTIVE_POINT_WIDTH < next.len(),
        point.len() == AFFINE_POINT_WIDTH,
    ensures
        final(result)@ == spec_enforce_point_addition_mixed(
            old(result)@,
            current@,
            next@,
            offset as int,
            point@,
            flag,
            *curve,
        ),
        final(result).len() == old(result).len(),
{
    let bit = offset + PROJECTIVE_POINT_WIDTH;
    enforce_point_addition_mixed_bit(result, current, next, offset, point, bit, flag, curve);
    agg_constraint(result, bit, flag, are_equal(next[bit], current[bit]));
}

/// The constraints of an addition of a projective point.
pub open spec fn spec_enforce_point_addition(
    result: Seq<Felt>,
    current: Seq<Felt>,
    next: Seq<Felt>,
    offset: int,
    rhs: Seq<Felt>,
    flag: Felt,
    curve: Curve,
) -> Seq<Felt> {
    spec_enforce_point(
        result,
        next,
        offset,
        Projective::spec_read(current, offset).spec_add(
            Projective::spec_read(rhs, 0),
            curve,
        ).spec_registers(),
        flag,
    )
}

/// Under `flag`, constrains the point of `next` at `offset` to be that of
/// `current` plus the projective point `rhs`.
pub fn enforce_point_addition(
    result: &mut [Felt],
    current: &[Felt],
    next: &[Felt],
    offset: usize,
    rhs: &[Felt],
    flag: Felt,
    curve: &Curve,
)
    requires
        offset + PROJECTIVE_POINT_WIDTH <= old(result).len(),
        offset + PROJECTIVE_POINT_WIDTH <= current.len(),
        offset + PROJECTIVE_POINT_WIDTH <= next.len(),
        rhs.len() == PROJECTIVE_POINT_WIDTH,
    ensures
        final(result)@ == spec_enforce_point_addition(
            old(result)@,
            current@,
            next@,
            offset as int,
            rhs@,
            flag,
            *curve,
        ),
        final(result).len() == old(result).len(),
{
    let expected = Projective::read(current, offset).add(Projective::read(rhs, 0), curve).to_vec();
    enforce_point(result, next, offset, expected.as_slice(), flag);
}

/// The constraints of an addition of an affine point, whatever a bit says.
pub open spec fn spec_enforce_point_addition_mixed_unchecked(
    result: Seq<Felt>,
    current: Seq<Felt>,
    next: Seq<Felt>,
    offset: int,
    point: Seq<Felt>,
    flag: Felt,
    curve: Curve,
) -> Seq<Felt> {
    spec_enforce_point(
        result,
        next,
        offset,
        Projective::spec_read(current, offset).spec_add_mixed(
            Affine::spec_read(point, 0),
            curve,
        ).spec_registers(),
        flag,
    )
}

/// Under `flag`, constrains the point of `next` at `offset` to be that of
/// `current` plus the affine point `point`.
pub fn enforce_point_addition_mixed_unchecked(
    result: &mut [Felt],
    current: &[Felt],
    next: &[Felt],
    offset: usize,
    point: &[Felt],
    flag: Felt,
    curve: &Curve,
)
    requires
        offset + PROJECTIVE_POINT_WIDTH <= old(result).len(),
        offset + PROJECTIVE_POINT_WIDTH <= current.len(),
        offset + PROJECTIVE_POINT_WIDTH <= next.len(),
        point.len() == AFFINE_POINT_WIDTH,
    ensures
        final(result)@ == spec_enforce_point_addition_mixed_unchecked(
            old(result)@,
            current@,
            next@,
            offset as int,
            point@,
            flag,
            *curve,
        ),
        final(result).len() == old(result).len(),
{
    let expected = Projective::read(current, offset).add_mixed(
        Affine::read(point, 0),
        curve,
    ).to_vec();
    enforce_point(result, next, offset, expected.as_slice(), flag);
}

/// What the registers of `reduced` lack to hold `sum` reduced to affine
/// coordinates: `x Z - X`, `y Z - Y` and `z - Z`. The division by `Z` is
/// checked by a multiplication, so that the identity needs no inverse.
pub open spec fn spec_reduction_defect(reduced: Projective, sum: Projective, curve: Curve) -> Seq<
    Felt,
> {
    Projective {
        x: reduced.x.spec_mul(sum.z, curve.red).spec_sub(sum.x),
        y: reduced.y.spec_mul(sum.z, curve.red).spec_sub(sum.y),
        z: reduced.z.spec_sub(sum.z),
    }.spec_registers()
}

fn reduction_defect(reduced: Projective, sum: Projective, curve: &Curve) -> (r: Vec<Felt>)
    ensures
        r@ == spec_reduction_defect(reduced, sum, *curve),
        r.len() == PROJECTIVE_POINT_WIDTH,
{
    Projective {
        x: reduced.x.mul(sum.z, &curve.red).sub(sum.x),
        y: reduced.y.mul(sum.z, &curve.red).sub(sum.y),
        z: reduced.z.sub(sum.z),
    }.to_vec()
}

/// The constraints of an addition of a projective point followed by a
/// reduction to affine coordinates.
pub open spec fn spec_enforce_point_addition_reduce_affine(
    result: Seq<Felt>,
    current: Seq<Felt>,
    next: Seq<Felt>,
    offset: int,
    rhs: Seq<Felt>,
    flag: Felt,
    curve: Curve,
) -> Seq<Felt> {
    spec_agg_range(
        result,
        offset,
        flag,
        spec_reduction_defect(
            Projective::spec_read(next, offset),
            Projective::spec_read(current, offset).spec_add(Projective::spec_read(rhs, 0), curve),
            curve,
        ),
    )
}

/// Under `flag`, constrains the registers of `next` at `offset` to hold the
/// affine coordinates of the point of `current` plus the projective point
/// `rhs`, followed by the `Z` of that sum.
pub fn enforce_point_addition_reduce_affine(
    result: &mut [Felt],
    current: &[Felt],
    next: &[Felt],
    offset: usize,
    rhs: &[Felt],
    flag: Felt,
    curve: &Curve,
)
    requires
        offset + PROJECTIVE_POINT_WIDTH <= old(result).len(),
        offset + PROJECTIVE_POINT_WIDTH <= current.len(),
        offset + PROJECTIVE_POINT_WIDTH <= next.len(),
        rhs.len() == PROJECTIVE_POINT_WIDTH,
    ensures
        final(result)@ == spec_enforce_point_addition_reduce_affine(
            old(result)@,
            current@,
            next@,
            offset as int,
            rhs@,
            flag,
            *curve,
        ),
        final(result).len() == old(result).len(),
{
    let sum = Projective::read(current, offset).add(Projective::read(rhs, 0), curve);
    let defect = reduction_defect(Projective::read(next, offset), sum, curve);
    agg_range(result, offset, flag, defect.as_slice());
}

/// The constraints of an addition of an affine point followed by a
/// reduction to affine coordinates.
pub open spec fn spec_enforce_point_addition_mixed_reduce_affine(
    result: Seq<Felt>,
    current: Seq<Felt>,
    next: Seq<Felt>,
    offset: int,
    point: Seq<Felt>,
    flag: Felt,
    curve: Curve,
) -> Seq<Felt> {
    spec_agg_range(
        result,
        offset,
        flag,
        spec_reduction_defect(
            Projective::spec_read(next, offset),
            Projective::spec_read(current, offset).spec_add_mixed(
                Affine::spec_read(point, 0),
                curve,
            ),
            curve,
        ),
    )
}

/// Under `flag`, constrains the registers of `next` at `offset` to hold the
/// affine coordinates of the point of `current` plus the affine point
/// `point`, followed by the `Z` of that sum.
pub fn enforce_point_addition_mixed_reduce_affine(
    result: &mut [Felt],
    current: &[Felt],
    next: &[Felt],
    offset: usize,
    point: &[Felt],
    flag: Felt,
    curve: &Curve,
)
    requires
        offset + PROJECTIVE_POINT_WIDTH <= old(result).len(),
        offset + PROJECTIVE_POINT_WIDTH <= current.len(),
        offset + PROJECTIVE_POINT_WIDTH <= next.len(),
        point.len() == AFFINE_POINT_WIDTH,
    ensures
        final(result)@ == spec_enforce_point_addition_mixed_reduce_affine(
            old(result)@,
            current@,
            next@,
            offset as int,
            point@,
            flag,
            *curve,
        ),
        final(result).len() == old(result).len(),
{
    let sum = Projective::read(current, offset).add_mixed(Affine::read(point, 0), curve);
    let defect = reduction_defect(Projective::read(next, offset), sum, curve);
    agg_range(result, offset, flag, defect.as_slice());
}

/// The constraints of a scalar multiplication whose bit
/// lives in the register after its point.
pub open spec fn spec_enforce_scalar_mul(
    result: Seq<Felt>,
    current: Seq<Felt>,
    next: Seq<Felt>,
    offset: int,
    point: Seq<Felt>,
    doubling_flag: Felt,
    addition_flag: Felt,
    curve: Curve,
) -> Seq<Felt> {
    spec_enforce_point_addition_mixed(
        spec_enforce_point_doubling(result, current, next, offset, doubling_flag, curve),
        current,
        next,
        offset,
        point,
        addition_flag,
        curve,
    )
}

/// Under `doubling_flag`, constrains a doubling of the point at `offset`;
/// under `addition_flag`, the addition of `point` where the bit in the
/// register after the point is one.
pub fn enforce_scalar_mul(
    result: &mut [Felt],
    current: &[Felt],
    next: &[Felt],
    offset: usize,
    point: &[Felt],
    doubling_flag: Felt,
    addition_flag: Felt,
    curve: &Curve,
)
    requires
        offset + PROJECTIVE_POINT_WIDTH < old(result).len(),
        offset + PROJECTIVE_POINT_WIDTH < current.len(),
        offset + PROJECTIVE_POINT_WIDTH < next.len(),
        point.len() == AFFINE_POINT_WIDTH,
    ensures
        final(result)@ == spec_enforce_scalar_mul(
            old(result)@,
            current@,
            next@,
            offset as int,
            point@,
            doubling_flag,
            addition_flag,
            *curve,
        ),
        final(result).len() == old(result).len(),
{
    enforce_point_doubling(result, current, next, offset, doubling_flag, curve);
    enforce_point_addition_mixed(result, current, next, offset, point, addition_flag, curve);
}

/// The constraints of a scalar multiplication whose bit
/// lives in the register `bit`, which another gadget owns.
pub open spec fn spec_enforce_scalar_mul_bit(
    result: Seq<Felt>,
    current: Seq<Felt>,
    next: Seq<Felt>,
    offset: int,
    point: Seq<Felt>,
    bit: int,
    doubling_flag: Felt,
    addition_flag: Felt,
    curve: Curve,
) -> Seq<Felt> {
    spec_enforce_point_addition_mixed_bit(
        spec_enforce_point_doubling_bit(result, current, next, offset, doubling_flag, curve),
        current,
        next,
        offset,
        point,
        bit,
        addition_flag,
        curve,
    )
}

/// As [`enforce_scalar_mul`], with the bit in the register `bit` and
/// without constraints on it.
pub fn enforce_scalar_mul_bit(
    result: &mut [Felt],
    current: &[Felt],
    next: &[Felt],
    offset: usize,
    point: &[Felt],
    bit: usize,
    doubling_flag: Felt,
    addition_flag: Felt,
    curve: &Curve,
)
    requires
        offset + PROJECTIVE_POINT_WIDTH <= old(result).len(),
        offset + PROJECTIVE_POINT_WIDTH <= current.len(),
        offset + PROJECTIVE_POINT_WIDTH <= next.len(),
        bit < current.len(),
        point.len() == AFFINE_POINT_WIDTH,
    ensures
        final(result)@ == spec_enforce_scalar_mul_bit(
            old(result)@,
            current@,
            next@,
            offset as int,
            point@,
            bit as int,
            doubling_flag,
            addition_flag,
            *curve,
        ),
        final(result).len() == old(result).len(),
{
    enforce_point_doubling_bit(result, current, next, offset, doubling_flag, curve);
    enforce_point_addition_mixed_bit(
        result,
        current,
        next,
        offset,
        point,
        bit,
        addition_flag,
        curve,
    );
}

// LAWS
// ================================================================================================

/// A doubling meets its own constraints: they vanish on a row and the row
/// that [`apply_point_doubling`] makes of it, and the result vector stays as
/// it was.
pub proof fn lemma_doubling_meets_its_constraints(
    result: Seq<Felt>,
    current: Seq<Felt>,
    offset: int,
    flag: Felt,
    curve: Curve,
)
    requires
        all_canonical(result),
        0 <= offset,
        offset + PROJECTIVE_POINT_WIDTH <= current.len(),
    ensures
        spec_enforce_point_doubling_bit(
            result,
            current,
            spec_apply_point_doubling(current, offset, curve),
            offset,
            flag,
            curve,
        ) == result,
{
    let doubled = Projective::spec_read(current, offset).spec_double(curve).spec_registers();
    let next = spec_apply_point_doubling(current, offset, curve);
    assert(next.subrange(offset, offset + PROJECTIVE_POINT_WIDTH) =~= doubled) by {
        reveal(spec_write_range);
        reveal(Projective::spec_registers);
    }
    lemma_enforce_copy_satisfied(result, offset, doubled, flag);
}

} // verus!
