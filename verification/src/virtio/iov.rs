//! Descriptors: reading and storing them, checking them against the
//! data region, and what a copy along them leaves.

use crate::mem::{overlay, read_u64, span, u64_at, write_u64};
use crate::virtio::{IOVec, IOVEC_SIZE};
use vstd::bytes::{lemma_auto_spec_u64_to_from_le_bytes, spec_u64_to_le_bytes};
use vstd::prelude::*;

verus! {

/// The descriptor stored in `mem` at `at`.
pub open spec fn iov_at(mem: Seq<u8>, at: int) -> IOVec {
    IOVec { iov_base: u64_at(mem, at), iov_len: u64_at(mem, at + 8) }
}

/// The `n` descriptors stored in `mem` from `at` on.
pub open spec fn iovs_at(mem: Seq<u8>, at: int, n: nat) -> Seq<IOVec> {
    Seq::new(n, |i: int| iov_at(mem, at + IOVEC_SIZE * i))
}

/// Every descriptor lies within a data region of `data_size` bytes.
pub open spec fn all_valid(iovs: Seq<IOVec>, data_size: nat) -> bool {
    forall|i: int| 0 <= i < iovs.len() ==> (#[trigger] iovs[i]).valid(data_size)
}

/// Whether one of the descriptors includes offset `i` of the data region.
pub open spec fn covered(iovs: Seq<IOVec>, i: int) -> bool {
    exists|k: int| 0 <= k < iovs.len() && (#[trigger] iovs[k]).covers(i)
}

/// `dst` after the bytes that the descriptors describe were copied into it
/// from the same offsets of `src`.
pub open spec fn copy_iovs_spec(dst: Seq<u8>, src: Seq<u8>, iovs: Seq<IOVec>) -> Seq<u8> {
    Seq::new(
        dst.len(),
        |i: int|
            if covered(iovs, i) {
                src[i]
            } else {
                dst[i]
            },
    )
}

/// Reads `n` descriptors from `mem`, starting at `at`.
pub fn read_iovs(mem: &[u8], at: usize, n: usize) -> (iovs: Vec<IOVec>)
    requires
        at + IOVEC_SIZE * n <= mem@.len(),
    ensures
        iovs@ == iovs_at(mem@, at as int, n as nat),
{
    let len: usize = mem.len();
    let mut iovs: Vec<IOVec> = Vec::new();
    let mut i: usize = 0;
    while i < n
        invariant
            at + IOVEC_SIZE * n <= mem@.len(),
            len == mem@.len(),
            i <= n,
            iovs@ == iovs_at(mem@, at as int, i as nat),
        decreases n - i,
    {
        let p: usize = at + IOVEC_SIZE * i;
        let iov = IOVec { iov_base: read_u64(mem, p), iov_len: read_u64(mem, p + 8) };
        iovs.push(iov);
        i += 1;
        assert(iovs@ =~= iovs_at(mem@, at as int, i as nat));
    }
    iovs
}

/// Tells whether every descriptor lies within a data region of
/// `data_size` bytes.
pub fn check_iovs(iovs: &[IOVec], data_size: usize) -> (ok: bool)
    ensures
        ok == all_valid(iovs@, data_size as nat),
{
    let n: usize = iovs.len();
    let mut i: usize = 0;
    while i < n
        invariant
            n == iovs@.len(),
            i <= n,
            forall|k: int| 0 <= k < i ==> (#[trigger] iovs@[k]).valid(data_size as nat),
        decreases n - i,
    {
        if iovs[i].locate(data_size).is_none() {
            return false;
        }
        i += 1;
    }
    true
}

/// The bytes of a descriptor in memory: base, then length, both
/// little-endian.
pub open spec fn iov_bytes(iov: IOVec) -> Seq<u8> {
    spec_u64_to_le_bytes(iov.iov_base) + spec_u64_to_le_bytes(iov.iov_len)
}

/// `mem` after the first `n` descriptors were stored in it, one after the
/// other from `at` on.
pub open spec fn write_iovs_spec(mem: Seq<u8>, at: int, iovs: Seq<IOVec>, n: nat) -> Seq<u8>
    decreases n,
{
    if n == 0 {
        mem
    } else {
        overlay(
            write_iovs_spec(mem, at, iovs, (n - 1) as nat),
            at + IOVEC_SIZE * (n - 1),
            iov_bytes(iovs[n - 1]),
        )
    }
}

/// Storing descriptors keeps the length of the memory.
pub proof fn lemma_write_iovs_len(mem: Seq<u8>, at: int, iovs: Seq<IOVec>, n: nat)
    ensures
        write_iovs_spec(mem, at, iovs, n).len() == mem.len(),
    decreases n,
{
    if n > 0 {
        lemma_write_iovs_len(mem, at, iovs, (n - 1) as nat);
    }
}

/// Stores the first `n` descriptors in `mem`, one after the other from
/// `at` on.
pub fn write_iovs(mem: &mut [u8], at: usize, iovs: &[IOVec], n: usize)
    requires
        n <= iovs@.len(),
        at + IOVEC_SIZE * n <= old(mem)@.len(),
    ensures
        final(mem)@ == write_iovs_spec(old(mem)@, at as int, iovs@, n as nat),
        final(mem)@.len() == old(mem)@.len(),
{
    let len: usize = mem.len();
    let mut i: usize = 0;
    while i < n
        invariant
            len == mem@.len(),
            len == old(mem)@.len(),
            n <= iovs@.len(),
            at + IOVEC_SIZE * n <= len,
            i <= n,
            mem@ == write_iovs_spec(old(mem)@, at as int, iovs@, i as nat),
        decreases n - i,
    {
        let p: usize = at + IOVEC_SIZE * i;
        let ghost before = mem@;
        write_u64(mem, p, iovs[i].iov_base);
        write_u64(mem, p + 8, iovs[i].iov_len);
        proof {
            lemma_auto_spec_u64_to_from_le_bytes();
            assert(mem@ =~= overlay(before, p as int, iov_bytes(iovs@[i as int])));
        }
        i += 1;
    }
}

/// Appends the `len` bytes of `src` from `at` on to `buf`.
pub(crate) fn append_span(buf: &mut Vec<u8>, src: &[u8], at: usize, len: usize)
    requires
        at + len <= src@.len(),
    ensures
        final(buf)@ == old(buf)@ + span(src@, at as int, len as int),
{
    let src_len: usize = src.len();
    let mut i: usize = 0;
    while i < len
        invariant
            at + len <= src@.len(),
            src_len == src@.len(),
            i <= len,
            buf@ == old(buf)@ + span(src@, at as int, i as int),
        decreases len - i,
    {
        buf.push(src[at + i]);
        i += 1;
        assert(buf@ =~= old(buf)@ + span(src@, at as int, i as int));
    }
    assert(span(src@, at as int, 0) =~= Seq::<u8>::empty());
}

/// A part of a part of memory is a part of the memory.
pub proof fn lemma_span_of_span(mem: Seq<u8>, at: int, n: int, k: int, m: int)
    requires
        0 <= at,
        0 <= k,
        0 <= m,
        k + m <= n,
        at + n <= mem.len(),
    ensures
        span(span(mem, at, n), k, m) == span(mem, at + k, m),
{
    assert(span(span(mem, at, n), k, m) =~= span(mem, at + k, m));
}

/// Descriptors read from a copy of a part of memory are the descriptors
/// stored in that part.
pub proof fn lemma_iovs_of_span(mem: Seq<u8>, at: int, n: int, k: int, cnt: nat)
    requires
        0 <= at,
        0 <= k,
        k + IOVEC_SIZE * cnt <= n,
        at + n <= mem.len(),
    ensures
        iovs_at(span(mem, at, n), k, cnt) == iovs_at(mem, at + k, cnt),
{
    let copied = iovs_at(span(mem, at, n), k, cnt);
    let stored = iovs_at(mem, at + k, cnt);
    assert forall|i: int| 0 <= i < cnt implies #[trigger] copied[i] == stored[i] by {
        lemma_span_of_span(mem, at, n, k + IOVEC_SIZE * i, 8);
        lemma_span_of_span(mem, at, n, k + IOVEC_SIZE * i + 8, 8);
    }
    assert(copied =~= stored);
}

/// Where descriptors were stored, memory holds their bytes; everywhere
/// else it is as before.
pub proof fn lemma_write_iovs_at(mem: Seq<u8>, at: int, iovs: Seq<IOVec>, n: nat, i: int)
    requires
        0 <= at,
        at + IOVEC_SIZE * n <= mem.len(),
        n <= iovs.len(),
        0 <= i < mem.len(),
    ensures
        write_iovs_spec(mem, at, iovs, n).len() == mem.len(),
        at <= i < at + IOVEC_SIZE * n ==> write_iovs_spec(mem, at, iovs, n)[i] == iov_bytes(
            iovs[(i - at) / 16],
        )[(i - at) % 16],
        !(at <= i < at + IOVEC_SIZE * n) ==> write_iovs_spec(mem, at, iovs, n)[i] == mem[i],
    decreases n,
{
    lemma_auto_spec_u64_to_from_le_bytes();
    if n > 0 {
        lemma_write_iovs_at(mem, at, iovs, (n - 1) as nat, i);
        let prev = write_iovs_spec(mem, at, iovs, (n - 1) as nat);
        let p = at + IOVEC_SIZE * (n - 1);
        assert(iov_bytes(iovs[n - 1]).len() == 16);
        if p <= i < p + 16 {
            assert((i - at) / 16 == n - 1);
            assert((i - at) % 16 == i - p);
        }
    }
}

/// Descriptors that were stored are the descriptors that are read back
/// from the same place.
pub proof fn lemma_stored_iovs_read_back(mem: Seq<u8>, at: int, iovs: Seq<IOVec>, n: nat)
    requires
        0 <= at,
        at + IOVEC_SIZE * n <= mem.len(),
        n <= iovs.len(),
    ensures
        iovs_at(write_iovs_spec(mem, at, iovs, n), at, n) == iovs.take(n as int),
{
    lemma_auto_spec_u64_to_from_le_bytes();
    let stored = write_iovs_spec(mem, at, iovs, n);
    lemma_write_iovs_len(mem, at, iovs, n);
    let back = iovs_at(stored, at, n);
    assert forall|k: int| 0 <= k < n implies #[trigger] back[k] == iovs[k] by {
        let p = at + IOVEC_SIZE * k;
        let base = spec_u64_to_le_bytes(iovs[k].iov_base);
        let len = spec_u64_to_le_bytes(iovs[k].iov_len);
        assert forall|j: int| 0 <= j < 16 implies stored[p + j] == iov_bytes(iovs[k])[j] by {
            lemma_write_iovs_at(mem, at, iovs, n, p + j);
            assert((p + j - at) / 16 == k);
            assert((p + j - at) % 16 == j);
        }
        assert(span(stored, p, 8) =~= base) by {
            assert forall|j: int| 0 <= j < 8 implies span(stored, p, 8)[j] == base[j] by {
                assert(stored[p + j] == iov_bytes(iovs[k])[j]);
            }
        }
        assert(span(stored, p + 8, 8) =~= len) by {
            assert forall|j: int| 0 <= j < 8 implies span(stored, p + 8, 8)[j] == len[j] by {
                assert(stored[p + (j + 8)] == iov_bytes(iovs[k])[j + 8]);
            }
        }
    }
    assert(back =~= iovs.take(n as int));
}

} // verus!
