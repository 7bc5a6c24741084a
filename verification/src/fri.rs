//! The options of the low-degree test that a proving engine runs on the
//! committed trace.

use crate::air::{is_power_of_two, spec_is_power_of_two};
use vstd::prelude::*;

verus! {

/// The options of the low-degree test: by how much each layer folds the
/// domain, at which size the folding stops, and by how much the evaluation
/// domain exceeds the trace.
#[derive(PartialEq, Eq)]
pub struct FriOptions {
    folding_factor: usize,
    max_remainder_size: usize,
    blowup_factor: usize,
}

/// The options are ones that the test accepts: the blowup factor is a power
/// of two, the folding factor is 4, 8 or 16, and the remainder may be at
/// least twice as large as the folding factor.
pub open spec fn spec_valid_fri_options(
    blowup_factor: usize,
    folding_factor: usize,
    max_remainder_size: usize,
) -> bool {
    &&& spec_is_power_of_two(blowup_factor as nat)
    &&& (folding_factor == 4 || folding_factor == 8 || folding_factor == 16)
    &&& max_remainder_size >= folding_factor * 2
}

/// Number of times that a domain of `domain_size` is folded by
/// `folding_factor` until it is no larger than `max_remainder_size`.
pub open spec fn spec_num_fri_layers(
    domain_size: nat,
    folding_factor: nat,
    max_remainder_size: nat,
) -> nat
    decreases domain_size,
    via folding_decreases
{
    if domain_size > max_remainder_size && folding_factor >= 2 {
        1 + spec_num_fri_layers(
            domain_size / folding_factor,
            folding_factor,
            max_remainder_size,
        )
    } else {
        0
    }
}

/// The size of a domain of `domain_size` after it was folded by
/// `folding_factor` until it is no larger than `max_remainder_size`.
pub open spec fn spec_fri_remainder_size(
    domain_size: nat,
    folding_factor: nat,
    max_remainder_size: nat,
) -> nat
    decreases domain_size,
    via remainder_decreases
{
    if domain_size > max_remainder_size && folding_factor >= 2 {
        spec_fri_remainder_size(domain_size / folding_factor, folding_factor, max_remainder_size)
    } else {
        domain_size
    }
}

#[via_fn]
proof fn folding_decreases(domain_size: nat, folding_factor: nat, max_remainder_size: nat) {
    if domain_size > max_remainder_size && folding_factor >= 2 {
        lemma_folding_shrinks(domain_size, folding_factor);
    }
}

#[via_fn]
proof fn remainder_decreases(domain_size: nat, folding_factor: nat, max_remainder_size: nat) {
    if domain_size > max_remainder_size && folding_factor >= 2 {
        lemma_folding_shrinks(domain_size, folding_factor);
    }
}

/// Folding a domain that is not empty makes it smaller.
proof fn lemma_folding_shrinks(domain_size: nat, folding_factor: nat)
    requires
        domain_size > 0,
        folding_factor >= 2,
    ensures
        domain_size / folding_factor < domain_size,
{
    assert(domain_size / folding_factor < domain_size) by (nonlinear_arith)
        requires
            domain_size > 0,
            folding_factor >= 2,
    ;
}

impl Clone for FriOptions {
    fn clone(&self) -> (r: FriOptions)
        ensures
            r == *self,
    {
        proof {
            use_type_invariant(self);
        }
        FriOptions {
            folding_factor: self.folding_factor,
            max_remainder_size: self.max_remainder_size,
            blowup_factor: self.blowup_factor,
        }
    }
}

impl FriOptions {
    #[verifier::type_invariant]
    spec fn inv(self) -> bool {
        spec_valid_fri_options(self.blowup_factor, self.folding_factor, self.max_remainder_size)
    }

    pub closed spec fn spec_folding_factor(&self) -> usize {
        self.folding_factor
    }

    pub closed spec fn spec_max_remainder_size(&self) -> usize {
        self.max_remainder_size
    }

    pub closed spec fn spec_blowup_factor(&self) -> usize {
        self.blowup_factor
    }

    /// The options with the given parameters.
    pub fn new(blowup_factor: usize, folding_factor: usize, max_remainder_size: usize) -> (r:
        FriOptions)
        requires
            spec_valid_fri_options(blowup_factor, folding_factor, max_remainder_size),
        ensures
            r.spec_blowup_factor() == blowup_factor,
            r.spec_folding_factor() == folding_factor,
            r.spec_max_remainder_size() == max_remainder_size,
    {
        FriOptions { folding_factor, max_remainder_size, blowup_factor }
    }

    /// Whether [`FriOptions::new`] accepts the parameters.
    pub fn is_valid(blowup_factor: usize, folding_factor: usize, max_remainder_size: usize) -> (b:
        bool)
        ensures
            b == spec_valid_fri_options(blowup_factor, folding_factor, max_remainder_size),
    {
        is_power_of_two(blowup_factor) && (folding_factor == 4 || folding_factor == 8
            || folding_factor == 16) && max_remainder_size >= folding_factor * 2
    }

    /// The factor by which each layer reduces the degree of a polynomial.
    pub fn folding_factor(&self) -> (r: usize)
        ensures
            r == self.spec_folding_factor(),
            r == 4 || r == 8 || r == 16,
    {
        proof {
            use_type_invariant(self);
        }
        self.folding_factor
    }

    /// The largest size that the last layer may have.
    pub fn max_remainder_size(&self) -> (r: usize)
        ensures
            r == self.spec_max_remainder_size(),
            r >= 2 * self.spec_folding_factor(),
    {
        proof {
            use_type_invariant(self);
        }
        self.max_remainder_size
    }

    /// The factor by which the evaluation domain exceeds the trace.
    pub fn blowup_factor(&self) -> (r: usize)
        ensures
            r == self.spec_blowup_factor(),
            spec_is_power_of_two(r as nat),
    {
        proof {
            use_type_invariant(self);
        }
        self.blowup_factor
    }

    /// Number of layers that a domain of `domain_size` takes, the last one
    /// not counted.
    pub fn num_fri_layers(&self, domain_size: usize) -> (r: usize)
        ensures
            r == spec_num_fri_layers(
                domain_size as nat,
                self.spec_folding_factor() as nat,
                self.spec_max_remainder_size() as nat,
            ),
    {
        proof {
            use_type_invariant(self);
        }
        let mut size: usize = domain_size;
        let mut result: usize = 0;
        while size > self.max_remainder_size
            invariant
                self.folding_factor == 4 || self.folding_factor == 8 || self.folding_factor == 16,
                result + size <= domain_size,
                spec_num_fri_layers(
                    domain_size as nat,
                    self.folding_factor as nat,
                    self.max_remainder_size as nat,
                ) == result + spec_num_fri_layers(
                    size as nat,
                    self.folding_factor as nat,
                    self.max_remainder_size as nat,
                ),
            decreases size,
        {
            size = size / self.folding_factor;
            result += 1;
        }
        result
    }

    /// The size of the last layer for a domain of `domain_size`.
    pub fn fri_remainder_size(&self, domain_size: usize) -> (r: usize)
        ensures
            r == spec_fri_remainder_size(
                domain_size as nat,
                self.spec_folding_factor() as nat,
                self.spec_max_remainder_size() as nat,
            ),
            r <= domain_size,
            r <= self.spec_max_remainder_size() || r == domain_size,
    {
        proof {
            use_type_invariant(self);
        }
        let mut size: usize = domain_size;
        while size > self.max_remainder_size
            invariant
                self.folding_factor == 4 || self.folding_factor == 8 || self.folding_factor == 16,
                size <= domain_size,
                spec_fri_remainder_size(
                    domain_size as nat,
                    self.folding_factor as nat,
                    self.max_remainder_size as nat,
                ) == spec_fri_remainder_size(
                    size as nat,
                    self.folding_factor as nat,
                    self.max_remainder_size as nat,
                ),
            decreases size,
        {
            size = size / self.folding_factor;
        }
        size
    }
}

} // verus!
