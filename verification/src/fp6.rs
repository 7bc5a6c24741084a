//! The sextic extension of the base field, in which the coordinates of a
//! curve point live.
//!
//! An element is a polynomial of degree below six in `u`. The extension is
//! fixed by the residue of `u^6`, which every multiplication takes as its
//! last argument: the product is the polynomial product reduced by it.

use crate::field::Felt;
use vstd::prelude::*;

verus! {

/// Number of base field elements of one element of the extension.
pub const EXTENSION_DEGREE: usize = 6;

/// Number of bits of the exponent `p^6 - 2` that inverts an element.
pub const INVERSION_EXPONENT_BITS: usize = 373;

/// An element `c0 + c1 u + c2 u^2 + c3 u^3 + c4 u^4 + c5 u^5`.
#[derive(Clone, Copy, Debug, PartialEq, Eq, Structural)]
pub struct Fp6 {
    pub c0: Felt,
    pub c1: Felt,
    pub c2: Felt,
    pub c3: Felt,
    pub c4: Felt,
    pub c5: Felt,
}

/// Limb `i` of `p^6 - 2`, least significant first.
pub open spec fn spec_inversion_exponent_limb(i: int) -> u64 {
    if i == 0 {
        0x88ffffffffffffff
    } else if i == 1 {
        0xfb61c00000000001
    } else if i == 2 {
        0x55c2038000000000
    } else if i == 3 {
        0x1074daebf0000000
    } else if i == 4 {
        0x01af28ce25900000
    } else {
        0x001262d2ca6f6400
    }
}

/// Bit `i` of `p^6 - 2`, least significant first.
pub open spec fn spec_inversion_exponent_bit(i: int) -> bool {
    (spec_inversion_exponent_limb(i / 64) >> ((i % 64) as u64)) & 1 == 1
}

fn inversion_exponent_bit(i: usize) -> (b: bool)
    requires
        i < INVERSION_EXPONENT_BITS,
    ensures
        b == spec_inversion_exponent_bit(i as int),
{
    let k = i / 64;
    let limb: u64 = if k == 0 {
        0x88ffffffffffffff
    } else if k == 1 {
        0xfb61c00000000001
    } else if k == 2 {
        0x55c2038000000000
    } else if k == 3 {
        0x1074daebf0000000
    } else if k == 4 {
        0x01af28ce25900000
    } else {
        0x001262d2ca6f6400
    };
    let shift: u64 = (i % 64) as u64;
    (limb >> shift) & 1 == 1
}

impl Fp6 {
    pub open spec fn spec_zero() -> Fp6 {
        Fp6 {
            c0: Felt::spec_zero(),
            c1: Felt::spec_zero(),
            c2: Felt::spec_zero(),
            c3: Felt::spec_zero(),
            c4: Felt::spec_zero(),
            c5: Felt::spec_zero(),
        }
    }

    pub open spec fn spec_one() -> Fp6 {
        Fp6 {
            c0: Felt::spec_one(),
            c1: Felt::spec_zero(),
            c2: Felt::spec_zero(),
            c3: Felt::spec_zero(),
            c4: Felt::spec_zero(),
            c5: Felt::spec_zero(),
        }
    }

    /// The element held by the six registers of `s` from `offset` on.
    pub open spec fn spec_read(s: Seq<Felt>, offset: int) -> Fp6 {
        Fp6 {
            c0: s[offset],
            c1: s[offset + 1],
            c2: s[offset + 2],
            c3: s[offset + 3],
            c4: s[offset + 4],
            c5: s[offset + 5],
        }
    }

    /// The six coefficients, from the constant one on.
    pub open spec fn spec_coefficients(self) -> Seq<Felt> {
        seq![self.c0, self.c1, self.c2, self.c3, self.c4, self.c5]
    }

    pub open spec fn is_canonical(self) -> bool {
        &&& self.c0.is_canonical()
        &&& self.c1.is_canonical()
        &&& self.c2.is_canonical()
        &&& self.c3.is_canonical()
        &&& self.c4.is_canonical()
        &&& self.c5.is_canonical()
    }

    pub open spec fn spec_add(self, rhs: Fp6) -> Fp6 {
        Fp6 {
            c0: self.c0.spec_add(rhs.c0),
            c1: self.c1.spec_add(rhs.c1),
            c2: self.c2.spec_add(rhs.c2),
            c3: self.c3.spec_add(rhs.c3),
            c4: self.c4.spec_add(rhs.c4),
            c5: self.c5.spec_add(rhs.c5),
        }
    }

    pub open spec fn spec_sub(self, rhs: Fp6) -> Fp6 {
        Fp6 {
            c0: self.c0.spec_sub(rhs.c0),
            c1: self.c1.spec_sub(rhs.c1),
            c2: self.c2.spec_sub(rhs.c2),
            c3: self.c3.spec_sub(rhs.c3),
            c4: self.c4.spec_sub(rhs.c4),
            c5: self.c5.spec_sub(rhs.c5),
        }
    }

    pub open spec fn spec_neg(self) -> Fp6 {
        Fp6 {
            c0: self.c0.spec_neg(),
            c1: self.c1.spec_neg(),
            c2: self.c2.spec_neg(),
            c3: self.c3.spec_neg(),
            c4: self.c4.spec_neg(),
            c5: self.c5.spec_neg(),
        }
    }

    /// The product with an element of the base field.
    pub open spec fn spec_scale(self, k: Felt) -> Fp6 {
        Fp6 {
            c0: self.c0.spec_mul(k),
            c1: self.c1.spec_mul(k),
            c2: self.c2.spec_mul(k),
            c3: self.c3.spec_mul(k),
            c4: self.c4.spec_mul(k),
            c5: self.c5.spec_mul(k),
        }
    }

    /// The product with `u`, where `u^6` is `red`.
    pub open spec fn spec_mul_u(self, red: Fp6) -> Fp6 {
        Fp6 {
            c0: self.c5.spec_mul(red.c0),
            c1: self.c0.spec_add(self.c5.spec_mul(red.c1)),
            c2: self.c1.spec_add(self.c5.spec_mul(red.c2)),
            c3: self.c2.spec_add(self.c5.spec_mul(red.c3)),
            c4: self.c3.spec_add(self.c5.spec_mul(red.c4)),
            c5: self.c4.spec_add(self.c5.spec_mul(red.c5)),
        }
    }

    /// The product of two elements, where `u^6` is `red`: the sum of the
    /// `rhs.ci * u^i * self`, by Horner's rule.
    #[verifier::opaque]
    pub open spec fn spec_mul(self, rhs: Fp6, red: Fp6) -> Fp6 {
        let h5 = self.spec_scale(rhs.c5);
        let h4 = self.spec_scale(rhs.c4).spec_add(h5.spec_mul_u(red));
        let h3 = self.spec_scale(rhs.c3).spec_add(h4.spec_mul_u(red));
        let h2 = self.spec_scale(rhs.c2).spec_add(h3.spec_mul_u(red));
        let h1 = self.spec_scale(rhs.c1).spec_add(h2.spec_mul_u(red));
        self.spec_scale(rhs.c0).spec_add(h1.spec_mul_u(red))
    }

    /// `self` raised to the number that the `n` most significant bits of
    /// `p^6 - 2` make, by squaring for each bit and multiplying where it is
    /// set.
    pub open spec fn spec_pow_top_bits(self, n: nat, red: Fp6) -> Fp6
        decreases n,
    {
        if n == 0 {
            Fp6::spec_one()
        } else {
            let prev = self.spec_pow_top_bits((n - 1) as nat, red);
            let sq = prev.spec_mul(prev, red);
            if spec_inversion_exponent_bit(INVERSION_EXPONENT_BITS - n) {
                sq.spec_mul(self, red)
            } else {
                sq
            }
        }
    }

    /// `self` raised to `p^6 - 2`.
    pub open spec fn spec_inverse_candidate(self, red: Fp6) -> Fp6 {
        self.spec_pow_top_bits(INVERSION_EXPONENT_BITS as nat, red)
    }

    /// The inverse of `self`; zero where `self` has none.
    #[verifier::opaque]
    pub open spec fn spec_inv(self, red: Fp6) -> Fp6 {
        let w = self.spec_inverse_candidate(red);
        if w.spec_mul(self, red) == Fp6::spec_one() {
            w
        } else {
            Fp6::spec_zero()
        }
    }

    #[verifier::when_used_as_spec(spec_zero)]
    pub fn zero() -> (r: Fp6)
        ensures
            r == Fp6::spec_zero(),
    {
        Fp6 {
            c0: Felt::zero(),
            c1: Felt::zero(),
            c2: Felt::zero(),
            c3: Felt::zero(),
            c4: Felt::zero(),
            c5: Felt::zero(),
        }
    }

    #[verifier::when_used_as_spec(spec_one)]
    pub fn one() -> (r: Fp6)
        ensures
            r == Fp6::spec_one(),
    {
        Fp6 {
            c0: Felt::one(),
            c1: Felt::zero(),
            c2: Felt::zero(),
            c3: Felt::zero(),
            c4: Felt::zero(),
            c5: Felt::zero(),
        }
    }

    /// Reads an element from the six registers of `s` from `offset` on.
    pub fn read(s: &[Felt], offset: usize) -> (r: Fp6)
        requires
            offset + 6 <= s.len(),
        ensures
            r == Fp6::spec_read(s@, offset as int),
    {
        Fp6 {
            c0: s[offset],
            c1: s[offset + 1],
            c2: s[offset + 2],
            c3: s[offset + 3],
            c4: s[offset + 4],
            c5: s[offset + 5],
        }
    }

    /// Appends the six coefficients to `out`.
    pub fn append_to(self, out: &mut Vec<Felt>)
        ensures
            final(out)@ == old(out)@ + self.spec_coefficients(),
    {
        out.push(self.c0);
        out.push(self.c1);
        out.push(self.c2);
        out.push(self.c3);
        out.push(self.c4);
        out.push(self.c5);
        assert(out@ =~= old(out)@ + self.spec_coefficients());
    }

    pub fn add(self, rhs: Fp6) -> (r: Fp6)
        ensures
            r == self.spec_add(rhs),
    {
        Fp6 {
            c0: self.c0.add(rhs.c0),
            c1: self.c1.add(rhs.c1),
            c2: self.c2.add(rhs.c2),
            c3: self.c3.add(rhs.c3),
            c4: self.c4.add(rhs.c4),
            c5: self.c5.add(rhs.c5),
        }
    }

    pub fn sub(self, rhs: Fp6) -> (r: Fp6)
        ensures
            r == self.spec_sub(rhs),
    {
        Fp6 {
            c0: self.c0.sub(rhs.c0),
            c1: self.c1.sub(rhs.c1),
            c2: self.c2.sub(rhs.c2),
            c3: self.c3.sub(rhs.c3),
            c4: self.c4.sub(rhs.c4),
            c5: self.c5.sub(rhs.c5),
        }
    }

    pub fn neg(self) -> (r: Fp6)
        ensures
            r == self.spec_neg(),
    {
        Fp6 {
            c0: self.c0.neg(),
            c1: self.c1.neg(),
            c2: self.c2.neg(),
            c3: self.c3.neg(),
            c4: self.c4.neg(),
            c5: self.c5.neg(),
        }
    }

    /// The product with an element of the base field.
    pub fn scale(self, k: Felt) -> (r: Fp6)
        ensures
            r == self.spec_scale(k),
    {
        Fp6 {
            c0: self.c0.mul(k),
            c1: self.c1.mul(k),
            c2: self.c2.mul(k),
            c3: self.c3.mul(k),
            c4: self.c4.mul(k),
            c5: self.c5.mul(k),
        }
    }

    /// The product with `u`, where `u^6` is `red`.
    pub fn mul_u(self, red: &Fp6) -> (r: Fp6)
        ensures
            r == self.spec_mul_u(*red),
    {
        Fp6 {
            c0: self.c5.mul(red.c0),
            c1: self.c0.add(self.c5.mul(red.c1)),
            c2: self.c1.add(self.c5.mul(red.c2)),
            c3: self.c2.add(self.c5.mul(red.c3)),
            c4: self.c3.add(self.c5.mul(red.c4)),
            c5: self.c4.add(self.c5.mul(red.c5)),
        }
    }

    /// The product of two elements, where `u^6` is `red`.
    pub fn mul(self, rhs: Fp6, red: &Fp6) -> (r: Fp6)
        ensures
            r == self.spec_mul(rhs, *red),
    {
        proof {
            reveal(Fp6::spec_mul);
        }
        let h5 = self.scale(rhs.c5);
        let h4 = self.scale(rhs.c4).add(h5.mul_u(red));
        let h3 = self.scale(rhs.c3).add(h4.mul_u(red));
        let h2 = self.scale(rhs.c2).add(h3.mul_u(red));
        let h1 = self.scale(rhs.c1).add(h2.mul_u(red));
        self.scale(rhs.c0).add(h1.mul_u(red))
    }

    /// The inverse of `self`, where `u^6` is `red`; zero where `self` has
    /// none. The candidate `self^(p^6 - 2)` is tested against `self` before
    /// it is returned.
    pub fn inv(self, red: &Fp6) -> (r: Fp6)
        ensures
            r == self.spec_inv(*red),
            r != Fp6::spec_zero() ==> r.spec_mul(self, *red) == Fp6::spec_one(),
    {
        proof {
            reveal(Fp6::spec_inv);
        }
        let mut acc = Fp6::one();
        let mut n: usize = 0;
        while n < INVERSION_EXPONENT_BITS
            invariant
                n <= INVERSION_EXPONENT_BITS,
                acc == self.spec_pow_top_bits(n as nat, *red),
            decreases INVERSION_EXPONENT_BITS - n,
        {
            let sq = acc.mul(acc, red);
            if inversion_exponent_bit(INVERSION_EXPONENT_BITS - 1 - n) {
                acc = sq.mul(self, red);
            } else {
                acc = sq;
            }
            n += 1;
        }
        if acc.mul(self, red) == Fp6::one() {
            acc
        } else {
            Fp6::zero()
        }
    }
}

} // verus!
