//! The constraint systems of an anonymous voting protocol that is proved
//! with STARKs, and the provers that build their execution traces.
//!
//! Four statements are proved: that a voting key belongs to the tree of
//! eligible voters ([`merkle`]), that its owner signed an address
//! ([`schnorr`]), that an encrypted vote holds one of the two allowed votes
//! ([`cds`]), and that the encrypted votes add up to a claimed tally
//! ([`tally`]). Each comes as a constraint system, a prover that turns a
//! witness into a trace and public inputs, and a check of the witness
//! without a proof system.
//!
//! They are built from the arithmetic of the field ([`field`], [`fp6`]),
//! the gadgets of the curve ([`ecc`]) and of the hash ([`rescue`]), the
//! combinators of constraints ([`constraint`]) and the periodic columns
//! that switch them on and off ([`periodic`]). The curve, the extension of
//! the field and the tables of the hash are values that the caller builds
//! once and hands in.
//!
//! Around them stand what a constraint system tells a proving engine
//! ([`air`], [`fri`], [`coefficients`]), the bytes of public inputs
//! ([`wire`]), the bookkeeping of the three phases of an election
//! ([`aggregator`]) and the verifier of what it sends ([`chain_verifier`],
//! [`precompile`]). The proving engine itself is not part of the library:
//! a caller runs it on the traces and the constraint systems.

pub mod aggregator;
pub mod air;
pub mod bits;
pub mod cds;
pub mod chain_verifier;
pub mod coefficients;
pub mod constraint;
pub mod ecc;
pub mod field;
pub mod fp6;
pub mod fri;
pub mod merkle;
pub mod periodic;
pub mod precompile;
pub mod rescue;
pub mod schnorr;
pub mod tally;
pub mod wire;
