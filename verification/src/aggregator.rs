//! The bookkeeping of an aggregator, who collects what the voters send in
//! each phase and has it proved.

pub mod cast;
pub mod register;
pub mod tally;

use crate::air::{lemma_cycle_lengths_are_powers_of_two, FieldExtension, HashFunction, ProofOptions};
use vstd::prelude::*;

verus! {

/// The extension that a degree stands for: quadratic for 2, cubic for 3,
/// and none for every other number.
pub open spec fn spec_extension(extension: u8) -> FieldExtension {
    if extension == 2 {
        FieldExtension::Quadratic
    } else if extension == 3 {
        FieldExtension::Cubic
    } else {
        FieldExtension::Base
    }
}

/// The parameters of every proof of an aggregator: 42 queries, a blowup
/// factor of 8, no grinding, a hash of 192 bits, a folding factor of 4 and a
/// remainder of at most 256, over the extension of the given degree.
pub fn build_options(extension: u8) -> (r: ProofOptions)
    ensures
        r.num_queries == 42,
        r.blowup_factor == 8,
        r.grinding_factor == 0,
        r.hash_fn == HashFunction::Blake3_192,
        r.field_extension == spec_extension(extension),
        r.fri_folding_factor == 4,
        r.fri_max_remainder_size == 256,
{
    proof {
        lemma_cycle_lengths_are_powers_of_two();
        reveal_with_fuel(crate::air::spec_is_power_of_two, 10);
    }
    ProofOptions::new(
        42,
        8,
        0,
        HashFunction::Blake3_192,
        match extension {
            2 => FieldExtension::Quadratic,
            3 => FieldExtension::Cubic,
            _ => FieldExtension::Base,
        },
        4,
        256,
    )
}

} // verus!
