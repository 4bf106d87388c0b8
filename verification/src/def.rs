//! Constants of the boot path.

use vstd::prelude::*;

verus! {

/// First address of the realm's own memory.
pub const REALM_IPA_START: u64 = 0x8000_0000;

/// Address just past the realm's own memory.
pub const REALM_IPA_END: u64 = 0x9000_0000;

/// First address of the range that is shared with the host.
pub const HOST_SHARED_IPA_START: u64 = 0x8840_0000;

/// Address just past the range that is shared with the host.
pub const HOST_SHARED_IPA_END: u64 = 0x8c40_0000;

pub const INVALID_MPIDR: u64 = 0xffff_ffff;

pub const SCTLR_I_BIT: u64 = 1 << 12;

pub const STACK_SIZE: u64 = 0x1000;

pub const NUM_OF_CPU: usize = 8;

pub const PAL_INVALID_MPID: u64 = 0xFFFF_FFFF;

/// The affinity fields of a processor identifier.
pub const PAL_MPIDR_AFFINITY_MASK: u64 = 0xff_00ff_ffff;

/// The identifier of each processor, by its number.
pub open spec fn phy_mpidr(idx: int) -> u64 {
    if idx == 0 {
        0x00000
    } else if idx == 1 {
        0x00100
    } else if idx == 2 {
        0x00200
    } else if idx == 3 {
        0x00300
    } else if idx == 4 {
        0x10000
    } else if idx == 5 {
        0x10100
    } else if idx == 6 {
        0x10200
    } else {
        0x10300
    }
}

/// The identifiers of the processors, in the order of their numbers.
pub fn phy_mpidr_array() -> (table: [u64; 8])
    ensures
        forall|i: int| 0 <= i < NUM_OF_CPU ==> table@[i] == phy_mpidr(i),
{
    [0x00000, 0x00100, 0x00200, 0x00300, 0x10000, 0x10100, 0x10200, 0x10300]
}

} // verus!
