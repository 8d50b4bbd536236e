//! The parameters of the signature scheme instance: Winternitz chains of
//! length two over the KoalaBear field, hashed with Poseidon2.

use vstd::prelude::*;

verus! {

/// Bytes in a message.
pub const MESSAGE_LENGTH: usize = 32;

/// Field elements in the public parameter.
pub const PARAMETER_LEN: usize = 5;

/// Field elements in a digest.
pub const HASH_LEN_FE: usize = 7;

/// Field elements that carry an encoded message.
pub const MSG_LEN_FE: usize = 9;

/// Field elements in a tweak.
pub const TWEAK_LEN_FE: usize = 2;

/// Field elements in the randomness of a signature.
pub const RAND_LEN: usize = 5;

/// Bits in one chunk of the encoding.
pub const CHUNK_SIZE_W1: usize = 1;

/// The base in which the encoding is written.
pub const BASE_W1: usize = 2;

/// Chunks that encode the message digest.
pub const NUM_CHUNKS_W1: usize = 155;

/// Chunks that encode the checksum.
pub const NUM_CHUNKS_CHECKSUM_W1: usize = 8;

/// Chains in one signature.
pub const NUM_CHAINS: usize = NUM_CHUNKS_W1 + NUM_CHUNKS_CHECKSUM_W1;

/// Positions in one chain.
pub const CHAIN_LENGTH: usize = BASE_W1;

/// Height of the authentication tree.
pub const LOG_LIFETIME: usize = 32;

/// Domain separator of chain tweaks.
pub const TWEAK_SEPARATOR_FOR_CHAIN_HASH: u8 = 0x00;

/// Domain separator of tree tweaks.
pub const TWEAK_SEPARATOR_FOR_TREE_HASH: u8 = 0x01;

/// Domain separator of the message hash.
pub const TWEAK_SEPARATOR_FOR_MESSAGE_HASH: u8 = 0x02;

} // verus!
