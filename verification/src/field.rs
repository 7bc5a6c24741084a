//! The base prime field: residues modulo `2^62 + 2^56 + 2^55 + 1`.
//!
//! Every register of an execution trace and every public input is one
//! [`Felt`]. The arithmetic is stated over the integers: the result of an
//! operation is the canonical residue of the integer result.

use vstd::arithmetic::div_mod::{
    lemma_mod_add_multiples_vanish, lemma_mul_mod_noop_general, lemma_mul_mod_noop_right,
    lemma_small_mod, lemma_sub_mod_noop_right,
};
use vstd::arithmetic::mul::{lemma_mul_is_associative, lemma_mul_is_commutative};
use vstd::arithmetic::power::{
    lemma_pow0, lemma_pow1, lemma_pow_adds, lemma_pow_mod_noop, lemma_pow_multiplies, pow,
};
use vstd::prelude::*;

verus! {

/// The prime modulus of the base field.
pub const MODULUS: u64 = 4719772409484279809;

/// Number of bytes of a serialized field element.
pub const ELEMENT_BYTES: usize = 8;

/// An element of the base field.
///
/// Every value that this library produces is canonical (`value < MODULUS`);
/// the operations accept any `u64` and reduce it.
#[derive(Clone, Copy, Debug, PartialEq, Eq, Structural)]
pub struct Felt {
    pub value: u64,
}

impl View for Felt {
    type V = int;

    open spec fn view(&self) -> int {
        self.value as int
    }
}

/// The canonical residue of an integer.
pub open spec fn residue(x: int) -> Felt {
    Felt { value: (x % (MODULUS as int)) as u64 }
}

impl Felt {
    /// The value is the canonical representative of its residue class.
    pub open spec fn is_canonical(self) -> bool {
        self.value < MODULUS
    }

    pub open spec fn spec_zero() -> Felt {
        Felt { value: 0 }
    }

    pub open spec fn spec_one() -> Felt {
        Felt { value: 1 }
    }

    pub open spec fn spec_new(x: u64) -> Felt {
        residue(x as int)
    }

    pub open spec fn spec_from_bool(b: bool) -> Felt {
        if b {
            Felt::spec_one()
        } else {
            Felt::spec_zero()
        }
    }

    #[verifier::opaque]
    pub open spec fn spec_add(self, rhs: Felt) -> Felt {
        residue(self.value + rhs.value)
    }

    #[verifier::opaque]
    pub open spec fn spec_sub(self, rhs: Felt) -> Felt {
        residue(self.value - rhs.value)
    }

    #[verifier::opaque]
    pub open spec fn spec_mul(self, rhs: Felt) -> Felt {
        residue(self.value * rhs.value)
    }

    #[verifier::opaque]
    pub open spec fn spec_neg(self) -> Felt {
        residue(-(self.value as int))
    }

    pub open spec fn spec_double(self) -> Felt {
        self.spec_add(self)
    }

    pub open spec fn spec_square(self) -> Felt {
        self.spec_mul(self)
    }

    /// `self` raised to the power `exp`.
    #[verifier::opaque]
    pub open spec fn spec_pow(self, exp: nat) -> Felt {
        residue(pow(self.value as int, exp))
    }

    /// The multiplicative inverse by Fermat's little theorem; zero for zero.
    pub open spec fn spec_inv(self) -> Felt {
        self.spec_pow((MODULUS - 2) as nat)
    }

    #[verifier::when_used_as_spec(spec_zero)]
    pub fn zero() -> (r: Felt)
        ensures
            r == Felt::spec_zero(),
    {
        Felt { value: 0 }
    }

    #[verifier::when_used_as_spec(spec_one)]
    pub fn one() -> (r: Felt)
        ensures
            r == Felt::spec_one(),
    {
        Felt { value: 1 }
    }

    /// The field element that `x` stands for.
    pub fn new(x: u64) -> (r: Felt)
        ensures
            r == Felt::spec_new(x),
            r.is_canonical(),
    {
        Felt { value: x % MODULUS }
    }

    /// One for `true`, zero for `false`.
    pub fn from_bool(b: bool) -> (r: Felt)
        ensures
            r == Felt::spec_from_bool(b),
            r.is_canonical(),
    {
        if b {
            Felt { value: 1 }
        } else {
            Felt { value: 0 }
        }
    }

    /// The canonical integer of this element.
    pub fn as_int(self) -> (r: u64)
        ensures
            r == self.value % MODULUS,
            r < MODULUS,
    {
        self.value % MODULUS
    }

    pub fn add(self, rhs: Felt) -> (r: Felt)
        ensures
            r == self.spec_add(rhs),
            r.is_canonical(),
    {
        proof {
            reveal(Felt::spec_add);
        }
        let s: u128 = self.value as u128 + rhs.value as u128;
        Felt { value: (s % (MODULUS as u128)) as u64 }
    }

    pub fn sub(self, rhs: Felt) -> (r: Felt)
        ensures
            r == self.spec_sub(rhs),
            r.is_canonical(),
    {
        proof {
            reveal(Felt::spec_sub);
        }
        let b: u64 = rhs.value % MODULUS;
        let s: u128 = self.value as u128 + (MODULUS - b) as u128;
        proof {
            let m = MODULUS as int;
            lemma_sub_mod_noop_right(self.value as int, rhs.value as int, m);
            lemma_mod_add_multiples_vanish(self.value - b, m);
        }
        Felt { value: (s % (MODULUS as u128)) as u64 }
    }

    pub fn mul(self, rhs: Felt) -> (r: Felt)
        ensures
            r == self.spec_mul(rhs),
            r.is_canonical(),
    {
        proof {
            reveal(Felt::spec_mul);
        }
        assert(self.value * rhs.value <= u128::MAX) by (nonlinear_arith)
            requires
                self.value <= u64::MAX,
                rhs.value <= u64::MAX,
        ;
        let s: u128 = self.value as u128 * rhs.value as u128;
        Felt { value: (s % (MODULUS as u128)) as u64 }
    }

    pub fn neg(self) -> (r: Felt)
        ensures
            r == self.spec_neg(),
            r.is_canonical(),
    {
        proof {
            reveal(Felt::spec_neg);
        }
        let b: u64 = self.value % MODULUS;
        let s: u64 = MODULUS - b;
        proof {
            let m = MODULUS as int;
            lemma_sub_mod_noop_right(0, self.value as int, m);
            lemma_mod_add_multiples_vanish(0 - b, m);
        }
        Felt { value: s % MODULUS }
    }

    pub fn double(self) -> (r: Felt)
        ensures
            r == self.spec_double(),
            r.is_canonical(),
    {
        self.add(self)
    }

    pub fn square(self) -> (r: Felt)
        ensures
            r == self.spec_square(),
            r.is_canonical(),
    {
        self.mul(self)
    }

    /// `self` raised to the power `exp`, by square and multiply.
    pub fn pow(self, exp: u64) -> (r: Felt)
        ensures
            r == self.spec_pow(exp as nat),
            r.is_canonical(),
    {
        proof {
            reveal(Felt::spec_pow);
        }
        let mut acc = Felt::one();
        let mut base = Felt::new(self.value);
        let mut k: u64 = exp;
        proof {
            lemma_pow_mod_noop(self.value as int, exp as nat, MODULUS as int);
        }
        while k > 0
            invariant
                acc.value < MODULUS,
                base.value < MODULUS,
                (acc.value * pow(base.value as int, k as nat)) % (MODULUS as int) == pow(
                    self.value as int,
                    exp as nat,
                ) % (MODULUS as int),
            decreases k,
        {
            proof {
                reveal(Felt::spec_mul);
                lemma_pow_step(acc.value as int, base.value as int, k as nat);
            }
            if k % 2 == 1 {
                acc = acc.mul(base);
            }
            base = base.mul(base);
            k = k / 2;
        }
        proof {
            lemma_pow0(base.value as int);
            lemma_small_mod(acc.value as nat, MODULUS as nat);
        }
        acc
    }

    /// The multiplicative inverse; zero for zero.
    pub fn inv(self) -> (r: Felt)
        ensures
            r == self.spec_inv(),
            r.is_canonical(),
    {
        self.pow(MODULUS - 2)
    }
}

/// One step of square and multiply keeps `acc * base^k` fixed modulo the
/// modulus.
proof fn lemma_pow_step(a: int, b: int, k: nat)
    requires
        k > 0,
    ensures
        k % 2 == 1 ==> (((a * b) % (MODULUS as int)) * pow((b * b) % (MODULUS as int), k / 2)) % (
        MODULUS as int) == (a * pow(b, k)) % (MODULUS as int),
        k % 2 == 0 ==> (a * pow((b * b) % (MODULUS as int), k / 2)) % (MODULUS as int) == (a * pow(
            b,
            k,
        )) % (MODULUS as int),
{
    let m = MODULUS as int;
    let j: nat = k / 2;
    let sq = pow(b * b, j);
    // pow(b, 2 * j) == pow(b * b, j)
    lemma_pow_multiplies(b, 2, j);
    lemma_pow1(b);
    lemma_pow_adds(b, 1, 1);
    assert(pow(b, 2) == b * b);
    assert(pow(b, 2 * j) == sq);
    // pow((b * b) % m, j) % m == sq % m
    lemma_pow_mod_noop(b * b, j, m);
    let red = pow((b * b) % m, j);
    if k % 2 == 0 {
        assert(k == 2 * j);
        lemma_mul_mod_noop_right(a, red, m);
        lemma_mul_mod_noop_right(a, sq, m);
    } else {
        assert(k == 2 * j + 1);
        lemma_pow_adds(b, 1, 2 * j);
        assert(pow(b, k) == b * sq);
        lemma_mul_is_associative(a, b, sq);
        assert(a * pow(b, k) == (a * b) * sq);
        lemma_mul_mod_noop_general(a * b, red, m);
        lemma_mul_mod_noop_general(a * b, sq, m);
    }
}

/// Adding zero changes nothing of a canonical element.
pub proof fn lemma_add_zero(a: Felt)
    requires
        a.is_canonical(),
    ensures
        a.spec_add(Felt::spec_zero()) == a,
{
    reveal(Felt::spec_add);
    lemma_small_mod(a.value as nat, MODULUS as nat);
}

/// Taking away what was added gives a canonical element back.
pub proof fn lemma_add_sub(a: Felt, b: Felt)
    requires
        a.is_canonical(),
    ensures
        a.spec_add(b).spec_sub(b) == a,
{
    reveal(Felt::spec_add);
    reveal(Felt::spec_sub);
}

/// An element minus itself is zero.
pub proof fn lemma_sub_self(a: Felt)
    ensures
        a.spec_sub(a) == Felt::spec_zero(),
{
    reveal(Felt::spec_sub);
}

/// Any multiple of zero is zero.
pub proof fn lemma_mul_zero(a: Felt)
    ensures
        a.spec_mul(Felt::spec_zero()) == Felt::spec_zero(),
        Felt::spec_zero().spec_mul(a) == Felt::spec_zero(),
{
    reveal(Felt::spec_mul);
    assert(a.value * 0 == 0);
    assert(0 * a.value == 0);
}

/// One is neutral for the multiplication of canonical elements.
pub proof fn lemma_mul_one(a: Felt)
    requires
        a.is_canonical(),
    ensures
        a.spec_mul(Felt::spec_one()) == a,
        Felt::spec_one().spec_mul(a) == a,
{
    reveal(Felt::spec_mul);
    assert(a.value * 1 == a.value);
    assert(1 * a.value == a.value);
    lemma_small_mod(a.value as nat, MODULUS as nat);
}

/// Addition and multiplication do not depend on the order of the operands.
pub proof fn lemma_commutative(a: Felt, b: Felt)
    ensures
        a.spec_add(b) == b.spec_add(a),
        a.spec_mul(b) == b.spec_mul(a),
{
    reveal(Felt::spec_add);
    reveal(Felt::spec_mul);
    lemma_mul_is_commutative(a.value as int, b.value as int);
}

/// Every operation yields a canonical element.
pub proof fn lemma_canonical(a: Felt, b: Felt, e: nat)
    ensures
        a.spec_add(b).is_canonical(),
        a.spec_sub(b).is_canonical(),
        a.spec_mul(b).is_canonical(),
        a.spec_neg().is_canonical(),
        a.spec_pow(e).is_canonical(),
{
    reveal(Felt::spec_add);
    reveal(Felt::spec_sub);
    reveal(Felt::spec_mul);
    reveal(Felt::spec_neg);
    reveal(Felt::spec_pow);
}

} // verus!
