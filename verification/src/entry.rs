//! Boot path: which processor is which.

use crate::def::{
    phy_mpidr, phy_mpidr_array, NUM_OF_CPU, PAL_INVALID_MPID, PAL_MPIDR_AFFINITY_MASK,
};
use vstd::prelude::*;

verus! {

/// The number of the processor whose identifier has the affinity fields
/// `mpidr`: its place in the table of identifiers, else the value itself
/// if that is a processor number, else `PAL_INVALID_MPID`.
pub open spec fn cpu_id_of(mpidr: u64) -> u64 {
    match table_index(mpidr, 0) {
        Some(i) => i as u64,
        None => if mpidr < NUM_OF_CPU {
            mpidr
        } else {
            PAL_INVALID_MPID
        },
    }
}

/// The first place from `from` on at which the table of identifiers holds
/// `mpidr`.
pub open spec fn table_index(mpidr: u64, from: int) -> Option<int>
    decreases NUM_OF_CPU - from,
{
    if from < 0 || from >= NUM_OF_CPU {
        None
    } else if phy_mpidr(from) == mpidr {
        Some(from)
    } else {
        table_index(mpidr, from + 1)
    }
}

/// Maps the identifier register of a processor to the processor's number.
pub fn get_cpu_id(mp: u64) -> (id: u64)
    ensures
        id == cpu_id_of(mp & PAL_MPIDR_AFFINITY_MASK),
        id < NUM_OF_CPU || id == PAL_INVALID_MPID,
{
    let table = phy_mpidr_array();
    let mpidr: u64 = mp & PAL_MPIDR_AFFINITY_MASK;
    let mut idx: usize = 0;
    while idx < NUM_OF_CPU
        invariant
            idx <= NUM_OF_CPU,
            mpidr == mp & PAL_MPIDR_AFFINITY_MASK,
            forall|i: int| 0 <= i < NUM_OF_CPU ==> table@[i] == phy_mpidr(i),
            table_index(mpidr, 0) == table_index(mpidr, idx as int),
        decreases NUM_OF_CPU - idx,
    {
        assert(table@[idx as int] == phy_mpidr(idx as int));
        if mpidr == table[idx] {
            assert(table_index(mpidr, idx as int) == Some(idx as int));
            return idx as u64;
        }
        idx += 1;
    }
    if mpidr < NUM_OF_CPU as u64 {
        return mpidr;
    }
    PAL_INVALID_MPID
}

} // verus!
