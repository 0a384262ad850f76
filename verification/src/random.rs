//! Deterministic randomness: a seed mixed from block entropy and an account,
//! and a generator that reads the ChaCha20 word stream keyed by that seed.

use vstd::prelude::*;
use vstd::bytes::{spec_u64_to_le_bytes, u64_to_le_bytes};
use vstd::string::StrSliceExecFns;
use vstd::utf8::encode_utf8;

use rand_chacha::rand_core::{RngCore, SeedableRng};
use rand_chacha::ChaChaRng;

use crate::state::BlockInfo;

verus! {

/// Number of 32-bit words in one period of the ChaCha20 stream (2^68).
pub const STREAM_PERIOD: u128 = 0x10_0000_0000_0000_0000;

/// The SHA-256 digest of `data`.
pub uninterp spec fn sha_256_digest(data: Seq<u8>) -> Seq<u8>;

/// The 32-bit word at offset `word_pos` of the ChaCha20 stream keyed by `seed`.
pub uninterp spec fn chacha_stream_word(seed: Seq<u8>, word_pos: nat) -> u32;

/// `secret_toolkit::crypto::sha_256`: the digest is the SHA-256 hash of
/// `data`, a function of the bytes alone.
#[verifier::external_body]
fn sha_256(data: &[u8]) -> (digest: [u8; 32])
    ensures
        digest@ == sha_256_digest(data@),
{
    secret_toolkit::crypto::sha_256(data)
}

/// `ChaChaRng::from_seed`, `ChaChaRng::set_word_pos` and `RngCore::next_u32`:
/// the word that a generator keyed by `seed` yields once it has been placed
/// `word_pos` words into its stream. A fresh generator starts at word 0 and
/// hands its words out in order, so this is also the word that the
/// `word_pos + 1`-th draw from a fresh generator returns.
#[verifier::external_body]
fn chacha_word(seed: &[u8; 32], word_pos: u128) -> (word: u32)
    requires
        word_pos < STREAM_PERIOD,
    ensures
        word == chacha_stream_word(seed@, word_pos as nat),
{
    let mut rng = ChaChaRng::from_seed(*seed);
    rng.set_word_pos(word_pos);
    rng.next_u32()
}

/// The bytes that are hashed into a seed: block time and block height, each
/// as eight little-endian bytes, followed by the account in UTF-8.
pub open spec fn entropy_bytes(time: u64, height: u64, account: Seq<char>) -> Seq<u8> {
    spec_u64_to_le_bytes(time) + spec_u64_to_le_bytes(height) + encode_utf8(account)
}

/// The seed that a block and an account give.
pub open spec fn seed_of(block: BlockInfo, account: Seq<char>) -> Seq<u8> {
    sha_256_digest(entropy_bytes(block.time, block.height, account))
}

/// Reduces a stream word to a cell value: a byte below 255.
pub open spec fn byte_in_range(word: u32) -> u8 {
    (word % 255) as u8
}

/// The `index`-th byte (from 0) that a fresh generator keyed by `seed` draws.
pub open spec fn stream_byte(seed: Seq<u8>, index: nat) -> u8 {
    byte_in_range(chacha_stream_word(seed, index))
}

/// Mixes block time, block height and an account into a 32-byte seed.
pub fn randomness_seed(block: &BlockInfo, sender: &String) -> (seed: [u8; 32])
    ensures
        seed@ == seed_of(*block, sender@),
{
    let mut data: Vec<u8> = u64_to_le_bytes(block.time);
    let mut height: Vec<u8> = u64_to_le_bytes(block.height);
    let mut account: Vec<u8> = sender.as_str().as_bytes_vec();
    data.append(&mut height);
    data.append(&mut account);
    sha_256(data.as_slice())
}

/// A deterministic generator: a position in the word stream of one seed.
#[derive(Clone, Debug, PartialEq, Eq)]
pub struct Generator {
    seed: [u8; 32],
    word_pos: u128,
}

impl Generator {
    /// The seed that keys the stream.
    pub closed spec fn seed(&self) -> Seq<u8> {
        self.seed@
    }

    /// How many words into the stream the next draw reads.
    pub closed spec fn word_pos(&self) -> nat {
        self.word_pos as nat
    }

    /// The position lies within one period of the stream.
    pub open spec fn wf(&self) -> bool {
        self.word_pos() < STREAM_PERIOD
    }

    /// A generator at the start of the stream keyed by `seed`.
    pub fn from_seed(seed: [u8; 32]) -> (generator: Generator)
        ensures
            generator.wf(),
            generator.seed() == seed@,
            generator.word_pos() == 0,
    {
        Generator { seed, word_pos: 0 }
    }

    /// A generator at the start of the stream that `block` and `sender` key.
    pub fn from_entropy(block: &BlockInfo, sender: &String) -> (generator: Generator)
        ensures
            generator.wf(),
            generator.seed() == seed_of(*block, sender@),
            generator.word_pos() == 0,
    {
        Generator::from_seed(randomness_seed(block, sender))
    }

    /// Draws the next word of the stream. After the last word of a period the
    /// generator starts over, as the stream itself does.
    pub fn next_u32(&mut self) -> (word: u32)
        requires
            old(self).wf(),
        ensures
            final(self).wf(),
            word == chacha_stream_word(old(self).seed(), old(self).word_pos()),
            final(self).seed() == old(self).seed(),
            final(self).word_pos() == (old(self).word_pos() + 1) % (STREAM_PERIOD as nat),
    {
        let word: u32 = chacha_word(&self.seed, self.word_pos);
        if self.word_pos == STREAM_PERIOD - 1 {
            self.word_pos = 0;
        } else {
            self.word_pos = self.word_pos + 1;
        }
        word
    }

    /// Draws the next cell value: the next word reduced to a byte below 255.
    pub fn next_byte_in_range(&mut self) -> (byte: u8)
        requires
            old(self).wf(),
        ensures
            final(self).wf(),
            byte == stream_byte_at(*old(self)),
            byte < 255,
            final(self).seed() == old(self).seed(),
            final(self).word_pos() == (old(self).word_pos() + 1) % (STREAM_PERIOD as nat),
    {
        let word: u32 = self.next_u32();
        (word % 255) as u8
    }
}

/// The byte that the next draw from `generator` yields.
pub open spec fn stream_byte_at(generator: Generator) -> u8 {
    byte_in_range(chacha_stream_word(generator.seed(), generator.word_pos()))
}

/// Equal entropy gives equal values: two fresh generators made from the same
/// block time, block height and account draw the same byte at every index.
pub proof fn lemma_same_entropy_same_bytes(
    first: BlockInfo,
    second: BlockInfo,
    first_account: Seq<char>,
    second_account: Seq<char>,
    index: nat,
)
    requires
        first.time == second.time,
        first.height == second.height,
        first_account == second_account,
    ensures
        seed_of(first, first_account) == seed_of(second, second_account),
        stream_byte(seed_of(first, first_account), index) == stream_byte(
            seed_of(second, second_account),
            index,
        ),
{
}

} // verus!
