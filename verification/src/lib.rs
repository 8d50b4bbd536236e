//! Aggregation primitives for XMSS signatures, together with a deterministic
//! engine that synthesizes structurally valid Winternitz/Merkle signatures.
//!
//! A field element of the KoalaBear field is carried as a `u32`; a value at or
//! above [`field::ORDER`] stands for its residue.

pub mod aggregator;
pub mod benchmark;
pub mod bignum;
pub mod codec;
pub mod error;
pub mod field;
pub mod hashing;
pub mod params;
pub mod phony_xmss;
pub mod poseidon;
pub mod tweak;
pub mod types;

pub use aggregator::{aggregate, validate};
pub use error::AggregationError;
pub use types::{AggregationBatch, AggregationProof, ProofMetadata, VerificationItem};
