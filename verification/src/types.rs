//! The data model: keys, signatures, batches and proofs.

use crate::params::{HASH_LEN_FE, MESSAGE_LENGTH, PARAMETER_LEN, RAND_LEN};
use vstd::prelude::*;

verus! {

/// A hash value: one chain value, tree node or root.
pub type Digest = [u32; HASH_LEN_FE];

/// The public parameter of a key.
pub type Parameter = [u32; PARAMETER_LEN];

/// The randomness that a signature carries for its message hash.
pub type Randomness = [u32; RAND_LEN];

/// A message to be signed.
pub type Message = [u8; MESSAGE_LENGTH];

/// The digests of a list, each as the sequence of its field elements.
pub open spec fn digests_view(digests: Seq<Digest>) -> Seq<Seq<u32>> {
    Seq::new(digests.len(), |i: int| digests[i]@)
}

/// The siblings that lead from a leaf to the root, leaf level first.
#[derive(Clone, Debug, PartialEq, Eq)]
pub struct HashTreeOpening {
    pub co_path: Vec<Digest>,
}

/// A one-time signature: the randomness of the message hash, the revealed
/// value of every chain, and the authentication path of the leaf.
#[derive(Clone, Debug, PartialEq, Eq)]
pub struct Signature {
    pub path: HashTreeOpening,
    pub rho: Randomness,
    pub hashes: Vec<Digest>,
}

/// A public key: the root of the tree and the public parameter.
#[derive(Clone, Copy, Debug, PartialEq, Eq)]
pub struct PublicKey {
    pub root: Digest,
    pub parameter: Parameter,
}

/// What a [`Signature`] holds, as sequences.
pub struct SignatureView {
    pub co_path: Seq<Seq<u32>>,
    pub rho: Seq<u32>,
    pub hashes: Seq<Seq<u32>>,
}

/// What a [`PublicKey`] holds, as sequences.
pub struct PublicKeyView {
    pub root: Seq<u32>,
    pub parameter: Seq<u32>,
}

impl View for Signature {
    type V = SignatureView;

    open spec fn view(&self) -> SignatureView {
        SignatureView {
            co_path: digests_view(self.path.co_path@),
            rho: self.rho@,
            hashes: digests_view(self.hashes@),
        }
    }
}

impl View for PublicKey {
    type V = PublicKeyView;

    open spec fn view(&self) -> PublicKeyView {
        PublicKeyView { root: self.root@, parameter: self.parameter@ }
    }
}

/// One signature with all that it takes to verify it: the message, the
/// epoch it was made for, and the public key of its signer.
#[derive(Clone, Debug, PartialEq, Eq)]
pub struct VerificationItem {
    /// Message that was signed.
    pub message: Message,
    /// Epoch, the index of the one-time key that signed.
    pub epoch: u32,
    /// The signature.
    pub signature: Signature,
    /// Public key of the signer.
    pub public_key: PublicKey,
}

/// What a [`VerificationItem`] holds, as sequences.
pub struct VerificationItemView {
    pub message: Seq<u8>,
    pub epoch: u32,
    pub signature: SignatureView,
    pub public_key: PublicKeyView,
}

impl View for VerificationItem {
    type V = VerificationItemView;

    open spec fn view(&self) -> VerificationItemView {
        VerificationItemView {
            message: self.message@,
            epoch: self.epoch,
            signature: self.signature@,
            public_key: self.public_key@,
        }
    }
}

/// A batch of signatures that was validated for aggregation.
#[derive(Clone, Debug, PartialEq, Eq)]
pub struct AggregationBatch {
    /// The items of the batch.
    pub items: Vec<VerificationItem>,
}

/// How and when a proof was made.
#[derive(Clone, Debug)]
pub struct ProofMetadata {
    /// Unix timestamp, in seconds, of the proof's generation.
    pub timestamp: u64,
    /// Number of signatures in the batch.
    pub batch_size: usize,
    /// Memory size the prover was configured with.
    pub memory_size: usize,
    /// Longest trace the prover was configured for.
    pub trace_length: usize,
}

/// A succinct proof that a batch of signatures was verified.
#[derive(Clone, Debug)]
pub struct AggregationProof {
    /// The serialized proof.
    pub proof: Vec<u8>,
    /// Number of signatures that verified.
    pub verified_count: u32,
    /// How and when the proof was made.
    pub metadata: ProofMetadata,
}

} // verus!
