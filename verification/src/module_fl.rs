//! The federated-learning module: it refuses block traffic, leaves received
//! frames alone, and picks out the one kind of transmitted frame whose bias
//! words are to be perturbed.

use crate::mem::{overlay, read_u32, u32_at, write_u32};
use crate::module::{ModuleAction, ModuleReturn};
use crate::module_cvm_hardening::{classify, IPV4_TCP, IPV4_UDP};
use vstd::bytes::spec_u32_to_le_bytes;
use vstd::prelude::*;

verus! {

/// Payload length of the UDP frame that carries a local model.
pub const MODEL_PAYLOAD_LEN: usize = 6916;

/// Offset of the first bias word in the payload of a model frame.
pub const BIAS_START: usize = 0x112;

/// Offset just past the last bias word in the payload of a model frame.
pub const BIAS_END: usize = 0x182;

/// Number of bias words in a model frame.
pub const BIAS_WORDS: usize = 28;

/// Multiplier of the generator's recurrence.
pub const RNG_MULTIPLIER: u64 = 1664525;

/// Increment of the generator's recurrence.
pub const RNG_INCREMENT: u64 = 1013904223;

/// Linear congruential generator over 32-bit seeds.
pub struct SimpleRNG {
    pub seed: u32,
}

/// The seed that follows `seed`.
pub open spec fn next_seed(seed: u32) -> u32 {
    ((seed * RNG_MULTIPLIER + RNG_INCREMENT) % 0x1_0000_0000) as u32
}

/// Offset of the payload of a model frame: a UDP frame with a payload of
/// exactly `MODEL_PAYLOAD_LEN` bytes. `None` for every other frame.
pub open spec fn model_payload(data: Seq<u8>) -> Option<int> {
    if classify(data).0 == IPV4_UDP && data.len() - classify(data).1 == MODEL_PAYLOAD_LEN {
        Some(classify(data).1)
    } else {
        None
    }
}

impl SimpleRNG {
    pub fn new(seed: u32) -> (rng: Self)
        ensures
            rng.seed == seed,
    {
        SimpleRNG { seed }
    }

    /// Advances the generator and returns the upper 23 bits of the new
    /// seed, the numerator of a fraction over `2^23`.
    pub fn next_bits(&mut self) -> (bits: u32)
        ensures
            final(self).seed == next_seed(old(self).seed),
            bits == next_seed(old(self).seed) / 512,
            bits < 0x80_0000,
    {
        let wide: u64 = (self.seed as u64) * RNG_MULTIPLIER + RNG_INCREMENT;
        self.seed = (wide % 0x1_0000_0000) as u32;
        self.seed / 512
    }
}

/// Write hook: block requests are not allowed.
pub fn blk_write(_data: &mut [u8], _arg1: u64, _arg2: &mut [u8]) -> (ret: ModuleReturn)
    ensures
        !ret.modified,
        ret.action == ModuleAction::Deny,
        final(_data)@ == old(_data)@,
        final(_arg2)@ == old(_arg2)@,
{
    ModuleReturn { modified: false, action: ModuleAction::Deny }
}

/// Read hook: block requests are not allowed.
pub fn blk_read(_data: &mut [u8], _arg1: u64, _arg2: &mut [u8]) -> (ret: ModuleReturn)
    ensures
        !ret.modified,
        ret.action == ModuleAction::Deny,
        final(_data)@ == old(_data)@,
        final(_arg2)@ == old(_arg2)@,
{
    ModuleReturn { modified: false, action: ModuleAction::Deny }
}

/// Tells whether a frame carries TCP or UDP over IPv4, and where its
/// payload starts.
pub fn is_tcp_or_udp(data: &[u8]) -> (res: (u8, usize))
    ensures
        res.0 == classify(data@).0,
        res.1 == classify(data@).1,
        res.0 == 0 || res.0 == IPV4_TCP || res.0 == IPV4_UDP,
        res.1 <= data@.len(),
{
    crate::module_cvm_hardening::is_tcp_or_udp(data)
}

/// Decides whether a transmitted frame is a model frame, and if so where
/// its payload starts. The bias words of such a frame lie in its payload
/// from `BIAS_START` to `BIAS_END`, four bytes each.
pub fn net_tx_target(data: &[u8]) -> (at: Option<usize>)
    ensures
        at matches Some(off) ==> model_payload(data@) == Some(off as int) && off + MODEL_PAYLOAD_LEN
            == data@.len(),
        at is None ==> model_payload(data@) is None,
{
    let len: usize = data.len();
    let res = is_tcp_or_udp(data);
    if res.0 == IPV4_UDP && len - res.1 == MODEL_PAYLOAD_LEN {
        Some(res.1)
    } else {
        None
    }
}

/// `mem` after the first `n` words were stored in it, four bytes each,
/// little-endian, one after the other from `at` on.
pub open spec fn write_words_spec(mem: Seq<u8>, at: int, words: Seq<u32>, n: nat) -> Seq<u8>
    decreases n,
{
    if n == 0 {
        mem
    } else {
        overlay(
            write_words_spec(mem, at, words, (n - 1) as nat),
            at + 4 * (n - 1),
            spec_u32_to_le_bytes(words[n - 1]),
        )
    }
}

/// Reads the bias words of a model frame whose payload starts at `at`.
pub fn read_bias_words(data: &[u8], at: usize) -> (words: Vec<u32>)
    requires
        at + MODEL_PAYLOAD_LEN <= data@.len(),
    ensures
        words@.len() == BIAS_WORDS,
        forall|k: int|
            0 <= k < BIAS_WORDS ==> #[trigger] words@[k] == u32_at(data@, at + BIAS_START + 4 * k),
{
    let len: usize = data.len();
    let mut words: Vec<u32> = Vec::new();
    let mut k: usize = 0;
    while k < BIAS_WORDS
        invariant
            at + MODEL_PAYLOAD_LEN <= data@.len(),
            len == data@.len(),
            k <= BIAS_WORDS,
            words@.len() == k,
            forall|j: int|
                0 <= j < k ==> #[trigger] words@[j] == u32_at(data@, at + BIAS_START + 4 * j),
        decreases BIAS_WORDS - k,
    {
        words.push(read_u32(data, at + BIAS_START + 4 * k));
        k += 1;
    }
    words
}

/// Stores new bias words in a model frame whose payload starts at `at`.
/// Nothing but the bias words changes.
pub fn write_bias_words(data: &mut [u8], at: usize, words: &[u32])
    requires
        at + MODEL_PAYLOAD_LEN <= old(data)@.len(),
        words@.len() == BIAS_WORDS,
    ensures
        final(data)@ == write_words_spec(
            old(data)@,
            at + BIAS_START,
            words@,
            BIAS_WORDS as nat,
        ),
        final(data)@.len() == old(data)@.len(),
{
    let len: usize = data.len();
    let mut k: usize = 0;
    while k < BIAS_WORDS
        invariant
            len == data@.len(),
            len == old(data)@.len(),
            at + MODEL_PAYLOAD_LEN <= len,
            words@.len() == BIAS_WORDS,
            k <= BIAS_WORDS,
            data@ == write_words_spec(old(data)@, at + BIAS_START, words@, k as nat),
        decreases BIAS_WORDS - k,
    {
        write_u32(data, at + BIAS_START + 4 * k, words[k]);
        k += 1;
    }
}

/// Receive hook: frames pass unchanged.
pub fn net_rx(_data: &mut [u8], _arg1: usize) -> (ret: ModuleReturn)
    ensures
        !ret.modified,
        ret.action == ModuleAction::Allow,
        final(_data)@ == old(_data)@,
{
    ModuleReturn { modified: false, action: ModuleAction::Allow }
}

} // verus!
