//! Byte-level access to a window of memory: bounded copies and
//! little-endian integers.

use vstd::bytes::{
    spec_u16_from_le_bytes, spec_u16_to_le_bytes, spec_u32_from_le_bytes, spec_u32_to_le_bytes,
    spec_u64_from_le_bytes, spec_u64_to_le_bytes, u16_from_le_bytes, u16_to_le_bytes,
    u32_from_le_bytes, u32_to_le_bytes, u64_from_le_bytes, u64_to_le_bytes,
};
use vstd::prelude::*;
use vstd::slice::slice_subrange;

verus! {

/// `base` with `patch` written over it from index `at` on.
pub open spec fn overlay(base: Seq<u8>, at: int, patch: Seq<u8>) -> Seq<u8> {
    Seq::new(
        base.len(),
        |i: int|
            if at <= i < at + patch.len() {
                patch[i - at]
            } else {
                base[i]
            },
    )
}

/// The `len` bytes of `mem` from index `at` on.
pub open spec fn span(mem: Seq<u8>, at: int, len: int) -> Seq<u8> {
    mem.subrange(at, at + len)
}

/// The little-endian `u16` stored in `mem` at `at`.
pub open spec fn u16_at(mem: Seq<u8>, at: int) -> u16 {
    spec_u16_from_le_bytes(span(mem, at, 2))
}

/// The little-endian `u32` stored in `mem` at `at`.
pub open spec fn u32_at(mem: Seq<u8>, at: int) -> u32 {
    spec_u32_from_le_bytes(span(mem, at, 4))
}

/// The little-endian `u64` stored in `mem` at `at`.
pub open spec fn u64_at(mem: Seq<u8>, at: int) -> u64 {
    spec_u64_from_le_bytes(span(mem, at, 8))
}

/// Copies `len` bytes from `src` at `src_at` to `dst` at `dst_at`.
pub fn copy_range(dst: &mut [u8], dst_at: usize, src: &[u8], src_at: usize, len: usize)
    requires
        dst_at + len <= old(dst)@.len(),
        src_at + len <= src@.len(),
    ensures
        final(dst)@ == overlay(old(dst)@, dst_at as int, span(src@, src_at as int, len as int)),
{
    let dst_len: usize = dst.len();
    let src_len: usize = src.len();
    let mut i: usize = 0;
    while i < len
        invariant
            dst@.len() == old(dst)@.len(),
            dst_len == dst@.len(),
            src_len == src@.len(),
            dst_at + len <= dst@.len(),
            src_at + len <= src@.len(),
            i <= len,
            forall|j: int|
                dst_at <= j < dst_at + i ==> #[trigger] dst@[j] == src@[src_at + (j - dst_at)],
            forall|j: int| 0 <= j < dst_at ==> dst@[j] == old(dst)@[j],
            forall|j: int| dst_at + i <= j < dst@.len() ==> dst@[j] == old(dst)@[j],
        decreases len - i,
    {
        dst[dst_at + i] = src[src_at + i];
        i += 1;
    }
    assert(dst@ =~= overlay(old(dst)@, dst_at as int, span(src@, src_at as int, len as int))) by {
        assert forall|j: int| 0 <= j < dst@.len() implies dst@[j] == overlay(
            old(dst)@,
            dst_at as int,
            span(src@, src_at as int, len as int),
        )[j] by {
        }
    }
}

/// Writes all of `src` into `dst` from index `at` on.
pub fn write_bytes(dst: &mut [u8], at: usize, src: &[u8])
    requires
        at + src@.len() <= old(dst)@.len(),
    ensures
        final(dst)@ == overlay(old(dst)@, at as int, src@),
{
    let len: usize = src.len();
    copy_range(dst, at, src, 0, len);
    assert(span(src@, 0, len as int) =~= src@);
}

/// Copies the `len` bytes of `src` from index `at` on into a fresh buffer.
pub fn read_bytes(src: &[u8], at: usize, len: usize) -> (out: Vec<u8>)
    requires
        at + len <= src@.len(),
    ensures
        out@ == span(src@, at as int, len as int),
{
    let src_len: usize = src.len();
    let mut out: Vec<u8> = Vec::new();
    let mut i: usize = 0;
    while i < len
        invariant
            at + len <= src@.len(),
            src_len == src@.len(),
            i <= len,
            out@ == span(src@, at as int, i as int),
        decreases len - i,
    {
        out.push(src[at + i]);
        i += 1;
        assert(out@ =~= span(src@, at as int, i as int));
    }
    out
}

/// Reads the little-endian `u16` at `at`.
pub fn read_u16(mem: &[u8], at: usize) -> (v: u16)
    requires
        at + 2 <= mem@.len(),
    ensures
        v == u16_at(mem@, at as int),
{
    let len: usize = mem.len();
    u16_from_le_bytes(slice_subrange(mem, at, at + 2))
}

/// Reads the little-endian `u32` at `at`.
pub fn read_u32(mem: &[u8], at: usize) -> (v: u32)
    requires
        at + 4 <= mem@.len(),
    ensures
        v == u32_at(mem@, at as int),
{
    let len: usize = mem.len();
    u32_from_le_bytes(slice_subrange(mem, at, at + 4))
}

/// Reads the little-endian `u64` at `at`.
pub fn read_u64(mem: &[u8], at: usize) -> (v: u64)
    requires
        at + 8 <= mem@.len(),
    ensures
        v == u64_at(mem@, at as int),
{
    let len: usize = mem.len();
    u64_from_le_bytes(slice_subrange(mem, at, at + 8))
}

/// Stores `v` at `at` in little-endian order.
pub fn write_u16(mem: &mut [u8], at: usize, v: u16)
    requires
        at + 2 <= old(mem)@.len(),
    ensures
        final(mem)@ == overlay(old(mem)@, at as int, spec_u16_to_le_bytes(v)),
{
    let bytes = u16_to_le_bytes(v);
    write_bytes(mem, at, bytes.as_slice());
}

/// Stores `v` at `at` in little-endian order.
pub fn write_u32(mem: &mut [u8], at: usize, v: u32)
    requires
        at + 4 <= old(mem)@.len(),
    ensures
        final(mem)@ == overlay(old(mem)@, at as int, spec_u32_to_le_bytes(v)),
{
    let bytes = u32_to_le_bytes(v);
    write_bytes(mem, at, bytes.as_slice());
}

/// Stores `v` at `at` in little-endian order.
pub fn write_u64(mem: &mut [u8], at: usize, v: u64)
    requires
        at + 8 <= old(mem)@.len(),
    ensures
        final(mem)@ == overlay(old(mem)@, at as int, spec_u64_to_le_bytes(v)),
{
    let bytes = u64_to_le_bytes(v);
    write_bytes(mem, at, bytes.as_slice());
}

} // verus!
