//! AES engine: AES-256-GCM for block sectors and blockwise AES-128 for
//! network payloads, both under the fixed bring-up key.

use ::aes::cipher::generic_array::GenericArray;
use ::aes::cipher::{BlockDecrypt, BlockEncrypt};
use ::aes::Aes128;
use aes_gcm::aead::{Aead, KeyInit, Payload};
use aes_gcm::{Aes256Gcm, Key, Nonce};
use vstd::prelude::*;

verus! {

/// Length of a GCM authentication tag in bytes.
pub const TAG_SIZE: usize = 16;

/// Length of an AES block in bytes.
pub const BLOCK_SIZE: usize = 16;

/// Longest message, in bytes, that AES-GCM accepts.
pub const GCM_MAX_MESSAGE: u64 = 0x10_0000_0000;

/// The authentication tag of one block sector.
#[derive(Clone, Copy)]
pub struct TagStorage {
    pub tag: [u8; 16],
}

/// What `Aes128::encrypt_block` turns `block` into under `key`.
pub uninterp spec fn aes128_encrypt_block(key: Seq<u8>, block: Seq<u8>) -> Seq<u8>;

/// What `Aes128::decrypt_block` turns `block` into under `key`.
pub uninterp spec fn aes128_decrypt_block(key: Seq<u8>, block: Seq<u8>) -> Seq<u8>;

/// What `Aes256Gcm::encrypt` returns for `msg` with no associated data:
/// ciphertext followed by tag, or `None` where it refuses the message.
pub uninterp spec fn aes256_gcm_seal(key: Seq<u8>, nonce: Seq<u8>, msg: Seq<u8>) -> Option<Seq<u8>>;

/// What `Aes256Gcm::decrypt` returns for `sealed` (ciphertext followed by
/// tag) with no associated data: the plaintext, or `None` where the tag does
/// not authenticate the ciphertext.
pub uninterp spec fn aes256_gcm_open(key: Seq<u8>, nonce: Seq<u8>, sealed: Seq<u8>) -> Option<Seq<u8>>;

/// A sequence of `n` zero bytes.
pub open spec fn zeros(n: nat) -> Seq<u8> {
    Seq::new(n, |i: int| 0u8)
}

/// The 256-bit key of the sector cipher.
pub open spec fn gcm_key() -> Seq<u8> {
    zeros(32)
}

/// The 96-bit nonce of the sector cipher.
pub open spec fn gcm_nonce() -> Seq<u8> {
    zeros(12)
}

/// The 128-bit key of the payload cipher.
pub open spec fn ecb_key() -> Seq<u8> {
    zeros(16)
}

/// Ciphertext and tag that sealing `data` yields, if the cipher accepts it.
pub open spec fn seal_spec(data: Seq<u8>) -> Option<(Seq<u8>, Seq<u8>)> {
    match aes256_gcm_seal(gcm_key(), gcm_nonce(), data) {
        Some(sealed) => Some(
            (
                sealed.subrange(0, data.len() as int),
                sealed.subrange(data.len() as int, data.len() + TAG_SIZE),
            ),
        ),
        None => None,
    }
}

/// The plaintext that `data` opens to under `tag`, if the tag authenticates it.
pub open spec fn open_spec(data: Seq<u8>, tag: Seq<u8>) -> Option<Seq<u8>> {
    aes256_gcm_open(gcm_key(), gcm_nonce(), data + tag)
}

/// One block through the payload cipher, in the given direction.
pub open spec fn block_spec(block: Seq<u8>, is_encrypt: bool) -> Seq<u8> {
    if is_encrypt {
        aes128_encrypt_block(ecb_key(), block)
    } else {
        aes128_decrypt_block(ecb_key(), block)
    }
}

/// The `k`-th 16-byte block of `data`.
pub open spec fn block_of(data: Seq<u8>, k: int) -> Seq<u8> {
    data.subrange(16 * k, 16 * k + 16)
}

/// `data`, whose length is a multiple of 16, with every block put through
/// the payload cipher independently.
pub open spec fn ecb_spec(data: Seq<u8>, is_encrypt: bool) -> Seq<u8> {
    Seq::new(data.len(), |i: int| block_spec(block_of(data, i / 16), is_encrypt)[i % 16])
}

/// Calls `Aes128::new` and `encrypt_block`. Trusted: the result is the
/// cipher's image of `block`, and `decrypt_block` under the same key maps it
/// back to `block`.
#[verifier::external_body]
fn cipher_encrypt_block(key: &[u8; 16], block: &[u8; 16]) -> (out: [u8; 16])
    ensures
        out@ == aes128_encrypt_block(key@, block@),
        aes128_decrypt_block(key@, out@) == block@,
{
    let cipher = Aes128::new(&GenericArray::from(*key));
    let mut buf = GenericArray::from(*block);
    cipher.encrypt_block(&mut buf);
    buf.into()
}

/// Calls `Aes128::new` and `decrypt_block`. Trusted: the result is the
/// cipher's preimage of `block`, and `encrypt_block` under the same key maps
/// it back to `block`.
#[verifier::external_body]
fn cipher_decrypt_block(key: &[u8; 16], block: &[u8; 16]) -> (out: [u8; 16])
    ensures
        out@ == aes128_decrypt_block(key@, block@),
        aes128_encrypt_block(key@, out@) == block@,
{
    let cipher = Aes128::new(&GenericArray::from(*key));
    let mut buf = GenericArray::from(*block);
    cipher.decrypt_block(&mut buf);
    buf.into()
}

/// Calls `Aes256Gcm::new` and `Aead::encrypt` with empty associated data.
/// Trusted: the call succeeds exactly on messages of at most
/// `GCM_MAX_MESSAGE` bytes, its result is 16 bytes longer than the message,
/// and `Aead::decrypt` under the same key and nonce opens it to the message.
#[verifier::external_body]
fn gcm_seal(key: &[u8; 32], nonce: &[u8; 12], msg: &[u8]) -> (out: Option<Vec<u8>>)
    ensures
        out is Some <==> msg@.len() <= GCM_MAX_MESSAGE,
        out is None ==> aes256_gcm_seal(key@, nonce@, msg@) is None,
        out matches Some(v) ==> {
            &&& aes256_gcm_seal(key@, nonce@, msg@) == Some(v@)
            &&& v@.len() == msg@.len() + TAG_SIZE
            &&& aes256_gcm_open(key@, nonce@, v@) == Some(msg@)
        },
{
    let cipher = Aes256Gcm::new(Key::<Aes256Gcm>::from_slice(key));
    cipher.encrypt(Nonce::from_slice(nonce), Payload { msg, aad: b"" }).ok()
}

/// Calls `Aes256Gcm::new` and `Aead::decrypt` with empty associated data.
/// Trusted: a plaintext that comes back is 16 bytes shorter than `sealed`.
#[verifier::external_body]
fn gcm_open(key: &[u8; 32], nonce: &[u8; 12], sealed: &[u8]) -> (out: Option<Vec<u8>>)
    ensures
        out is None ==> aes256_gcm_open(key@, nonce@, sealed@) is None,
        out matches Some(v) ==> {
            &&& aes256_gcm_open(key@, nonce@, sealed@) == Some(v@)
            &&& v@.len() + TAG_SIZE == sealed@.len()
        },
{
    let cipher = Aes256Gcm::new(Key::<Aes256Gcm>::from_slice(key));
    cipher.decrypt(Nonce::from_slice(nonce), Payload { msg: sealed, aad: b"" }).ok()
}

/// Seals `data` in place with AES-256-GCM and stores the tag in `tag`.
///
/// On success `data` holds the ciphertext, of the same length, and `decrypt`
/// on the result restores the plaintext. On failure nothing changes.
pub fn encrypt(data: &mut [u8], tag: &mut TagStorage) -> (ok: bool)
    ensures
        final(data)@.len() == old(data)@.len(),
        ok <==> old(data)@.len() <= GCM_MAX_MESSAGE,
        ok <==> seal_spec(old(data)@) is Some,
        ok ==> seal_spec(old(data)@) == Some((final(data)@, final(tag).tag@)),
        ok ==> open_spec(final(data)@, final(tag).tag@) == Some(old(data)@),
        !ok ==> final(data)@ == old(data)@ && *final(tag) == *old(tag),
{
    let key_bytes: [u8; 32] = [0u8; 32];
    let nonce_bytes: [u8; 12] = [0u8; 12];
    assert(key_bytes@ =~= gcm_key());
    assert(nonce_bytes@ =~= gcm_nonce());
    let n: usize = data.len();
    match gcm_seal(&key_bytes, &nonce_bytes, data) {
        Some(sealed) => {
            let total: usize = sealed.len();
            let mut i: usize = 0;
            while i < n
                invariant
                    n == data@.len(),
                    n == old(data)@.len(),
                    sealed@.len() == n + TAG_SIZE,
                    i <= n,
                    forall|j: int| 0 <= j < i ==> data@[j] == sealed@[j],
                decreases n - i,
            {
                data[i] = sealed[i];
                i += 1;
            }
            let mut t: usize = 0;
            while t < TAG_SIZE
                invariant
                    sealed@.len() == n + TAG_SIZE,
                    total == n + TAG_SIZE,
                    t <= TAG_SIZE,
                    forall|j: int| 0 <= j < t ==> tag.tag@[j] == sealed@[n + j],
                decreases TAG_SIZE - t,
            {
                tag.tag[t] = sealed[n + t];
                t += 1;
            }
            assert(data@ =~= sealed@.subrange(0, n as int));
            assert(tag.tag@ =~= sealed@.subrange(n as int, n + TAG_SIZE));
            assert(data@ + tag.tag@ =~= sealed@);
            true
        },
        None => false,
    }
}

/// Opens `data` in place with AES-256-GCM against the tag in `tag`.
///
/// On success `data` holds the plaintext. Where the tag does not
/// authenticate the ciphertext nothing changes. The tag is never changed.
pub fn decrypt(data: &mut [u8], tag: &mut TagStorage) -> (ok: bool)
    ensures
        final(data)@.len() == old(data)@.len(),
        *final(tag) == *old(tag),
        ok <==> open_spec(old(data)@, old(tag).tag@) is Some,
        ok ==> open_spec(old(data)@, old(tag).tag@) == Some(final(data)@),
        !ok ==> final(data)@ == old(data)@,
{
    let key_bytes: [u8; 32] = [0u8; 32];
    let nonce_bytes: [u8; 12] = [0u8; 12];
    assert(key_bytes@ =~= gcm_key());
    assert(nonce_bytes@ =~= gcm_nonce());
    let n: usize = data.len();
    let mut data_with_tag: Vec<u8> = Vec::new();
    let mut i: usize = 0;
    while i < n
        invariant
            n == data@.len(),
            i <= n,
            data_with_tag@ == data@.subrange(0, i as int),
        decreases n - i,
    {
        data_with_tag.push(data[i]);
        i += 1;
    }
    let mut t: usize = 0;
    while t < TAG_SIZE
        invariant
            t <= TAG_SIZE,
            data_with_tag@ == data@ + tag.tag@.subrange(0, t as int),
        decreases TAG_SIZE - t,
    {
        data_with_tag.push(tag.tag[t]);
        t += 1;
    }
    assert(data_with_tag@ =~= data@ + tag.tag@);
    match gcm_open(&key_bytes, &nonce_bytes, data_with_tag.as_slice()) {
        Some(plain) => {
            let mut k: usize = 0;
            while k < n
                invariant
                    n == data@.len(),
                    plain@.len() == n,
                    k <= n,
                    forall|j: int| 0 <= j < k ==> data@[j] == plain@[j],
                decreases n - k,
            {
                data[k] = plain[k];
                k += 1;
            }
            assert(data@ =~= plain@);
            true
        },
        None => false,
    }
}

/// Within a buffer whose length is a multiple of 16, byte `16 * k + j` lies
/// in block `k` at position `j`.
proof fn lemma_block_index(k: int, j: int)
    requires
        0 <= k,
        0 <= j < 16,
    ensures
        (16 * k + j) / 16 == k,
        (16 * k + j) % 16 == j,
{
}

/// Runs every 16-byte block of `data` through AES-128, encrypting or
/// decrypting in place. A length that is not a multiple of 16 is refused
/// and leaves `data` as it was.
///
/// The opposite direction undoes the result.
pub fn __encrypt_no_auth(data: &mut [u8], is_encrypt: bool) -> (ok: bool)
    ensures
        final(data)@.len() == old(data)@.len(),
        ok <==> old(data)@.len() % 16 == 0,
        ok ==> final(data)@ == ecb_spec(old(data)@, is_encrypt),
        ok ==> ecb_spec(final(data)@, !is_encrypt) == old(data)@,
        !ok ==> final(data)@ == old(data)@,
{
    let key: [u8; 16] = [0u8; 16];
    assert(key@ =~= ecb_key());
    let len: usize = data.len();
    if len % 16 != 0 {
        return false;
    }
    let ghost input = data@;
    let ghost target = ecb_spec(input, is_encrypt);
    let mut curr: usize = 0;
    while curr < len
        invariant
            len == data@.len(),
            len == input.len(),
            len % 16 == 0,
            curr % 16 == 0,
            curr <= len,
            key@ == ecb_key(),
            target == ecb_spec(input, is_encrypt),
            forall|i: int| 0 <= i < curr ==> data@[i] == target[i],
            forall|i: int| curr <= i < len ==> data@[i] == input[i],
            forall|k: int|
                0 <= k < curr / 16 ==> block_spec(#[trigger] block_of(target, k), !is_encrypt)
                    == block_of(input, k),
        decreases len - curr,
    {
        let ghost k0 = curr as int / 16;
        let mut d: [u8; 16] = [0u8; 16];
        let mut j: usize = 0;
        while j < 16
            invariant
                len == data@.len(),
                curr + 16 <= len,
                j <= 16,
                forall|i: int| 0 <= i < j ==> d@[i] == data@[curr + i],
            decreases 16 - j,
        {
            d[j] = data[curr + j];
            j += 1;
        }
        assert(d@ =~= block_of(input, k0));
        let block = if is_encrypt {
            cipher_encrypt_block(&key, &d)
        } else {
            cipher_decrypt_block(&key, &d)
        };
        assert(block@ == block_spec(block_of(input, k0), is_encrypt));
        assert(block_spec(block@, !is_encrypt) == block_of(input, k0));
        assert(block@ =~= block_of(target, k0)) by {
            assert forall|i: int| 0 <= i < 16 implies block@[i] == block_of(target, k0)[i] by {
                lemma_block_index(k0, i);
            }
        }
        let ghost before = data@;
        let mut j: usize = 0;
        while j < 16
            invariant
                len == data@.len(),
                len == before.len(),
                curr + 16 <= len,
                j <= 16,
                forall|i: int| 0 <= i < j ==> data@[curr + i] == block@[i],
                forall|i: int| 0 <= i < curr ==> data@[i] == before[i],
                forall|i: int| curr + j <= i < len ==> data@[i] == before[i],
            decreases 16 - j,
        {
            data[curr + j] = block[j];
            j += 1;
        }
        assert forall|i: int| 0 <= i < curr + 16 implies data@[i] == target[i] by {
            if i >= curr {
                assert(data@[curr + (i - curr)] == block@[i - curr]);
            }
        }
        curr += 16;
    }
    assert(data@ =~= target);
    assert(ecb_spec(target, !is_encrypt) =~= input) by {
        assert forall|i: int| 0 <= i < len implies ecb_spec(target, !is_encrypt)[i]
            == input[i] by {
            let k = i / 16;
            assert(block_spec(block_of(target, k), !is_encrypt) == block_of(input, k));
        }
    }
    true
}

/// Encrypts `data` in place, block by block, without authentication.
pub fn encrypt_no_auth(data: &mut [u8]) -> (ok: bool)
    ensures
        final(data)@.len() == old(data)@.len(),
        ok <==> old(data)@.len() % 16 == 0,
        ok ==> final(data)@ == ecb_spec(old(data)@, true),
        ok ==> ecb_spec(final(data)@, false) == old(data)@,
        !ok ==> final(data)@ == old(data)@,
{
    __encrypt_no_auth(data, true)
}

/// Decrypts `data` in place, block by block, without authentication.
pub fn decrypt_no_auth(data: &mut [u8]) -> (ok: bool)
    ensures
        final(data)@.len() == old(data)@.len(),
        ok <==> old(data)@.len() % 16 == 0,
        ok ==> final(data)@ == ecb_spec(old(data)@, false),
        ok ==> ecb_spec(final(data)@, true) == old(data)@,
        !ok ==> final(data)@ == old(data)@,
{
    __encrypt_no_auth(data, false)
}

} // verus!
