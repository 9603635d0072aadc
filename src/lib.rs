//! Verifier for Spartan-style zero-knowledge arguments: a Fiat-Shamir
//! transcript, Pedersen commitments and their openings, sumcheck, the
//! product-circuit argument and offline memory checking, composed into
//! verification of R1CS satisfiability.

pub mod arithmetic;
pub mod biginteger;
pub mod codec;
pub mod commitments;
pub mod errors;
pub mod field;
pub mod group;
pub mod hex;
pub mod inner_product;
pub mod memory;
pub mod modular;
pub mod poly;
pub mod product_circuit;
pub mod proofs;
pub mod r1cs;
pub mod sigma;
pub mod sparse;
pub mod sumcheck;
pub mod transcript;
pub mod wire;

pub use arithmetic::{adc, mac, mac_discard, mac_with_carry, sbb};
pub use biginteger::{BigInteger, BigInteger256};
pub use errors::SynthesisError;
pub use field::Fr;
pub use group::GroupElem;
pub use hex::to_hex;
pub use memory::behind_verify_for_timestamp;
pub use product_circuit::product_circuit_eval_verify;
pub use r1cs::{nizk_verify, r1cs_satisfied_verify, snark_verify};
pub use sparse::hash_layer_verify;
pub use sumcheck::sum_check_cubic_verify;
