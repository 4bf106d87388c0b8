//! The 9P control structure and the request that the gateway keeps.

use crate::mem::{overlay, span, u16_at};
use crate::virtio::{DropReason, IOVec, IOVEC_SIZE, VIRTQUEUE_NUM, VQ_CTRL_9P, VQ_CTRL_9P_HOST};
use crate::virtio::iov::{copy_iovs_spec, iovs_at};
use vstd::prelude::*;

verus! {

/// Size of a 9P control structure.
pub const P9PDU_SIZE: usize = 4128;

/// Offset of the position for reading in a 9P control structure.
pub const P9PDU_READ_OFFSET: usize = 8;

/// Offset of the position for writing in a 9P control structure.
pub const P9PDU_WRITE_OFFSET: usize = 16;

/// Offset of the count of device-readable descriptors.
pub const P9PDU_OUT_CNT: usize = 24;

/// Offset of the count of device-writable descriptors.
pub const P9PDU_IN_CNT: usize = 26;

/// Offset of the device-writable descriptors.
pub const P9PDU_IN_IOV: usize = 32;

/// Offset of the device-readable descriptors.
pub const P9PDU_OUT_IOV: usize = P9PDU_IN_IOV + IOVEC_SIZE * VIRTQUEUE_NUM;

/// A 9P request: queue position, offsets, and the two lists of descriptors.
pub struct P9pdu {
    pub queue_head: u32,
    pub read_offset: u64,
    pub write_offset: u64,
    pub out_iov_cnt: u16,
    pub in_iov_cnt: u16,
    pub in_iov: Vec<IOVec>,
    pub out_iov: Vec<IOVec>,
}

/// A 9P request without its representation.
#[verifier::ext_equal]
pub struct P9View {
    pub queue_head: u32,
    pub read_offset: u64,
    pub write_offset: u64,
    pub in_iov: Seq<IOVec>,
    pub out_iov: Seq<IOVec>,
}

impl P9View {
    /// A request without descriptors, all fields zero.
    pub open spec fn empty() -> P9View {
        P9View {
            queue_head: 0,
            read_offset: 0,
            write_offset: 0,
            in_iov: Seq::empty(),
            out_iov: Seq::empty(),
        }
    }
}

impl P9pdu {
    pub open spec fn view(&self) -> P9View {
        P9View {
            queue_head: self.queue_head,
            read_offset: self.read_offset,
            write_offset: self.write_offset,
            in_iov: self.in_iov@,
            out_iov: self.out_iov@,
        }
    }

    /// Each list holds as many descriptors as it counts, and together they
    /// fit a virtqueue.
    pub open spec fn wf(&self) -> bool {
        &&& self.in_iov@.len() == self.in_iov_cnt
        &&& self.out_iov@.len() == self.out_iov_cnt
        &&& self.in_iov_cnt + self.out_iov_cnt <= VIRTQUEUE_NUM
    }

    /// A request without descriptors.
    pub fn new() -> (pdu: Self)
        ensures
            pdu.wf(),
            pdu@ == P9View::empty(),
            pdu.in_iov_cnt == 0,
            pdu.out_iov_cnt == 0,
    {
        P9pdu {
            queue_head: 0,
            read_offset: 0,
            write_offset: 0,
            out_iov_cnt: 0,
            in_iov_cnt: 0,
            in_iov: Vec::new(),
            out_iov: Vec::new(),
        }
    }
}

/// The two lists of descriptors of the 9P request in the control region,
/// device-writable first. A request whose lists together exceed a
/// virtqueue is refused.
pub open spec fn p9_request(ctrl: Seq<u8>) -> Result<(Seq<IOVec>, Seq<IOVec>), DropReason> {
    let in_cnt = u16_at(ctrl, VQ_CTRL_9P + P9PDU_IN_CNT);
    let out_cnt = u16_at(ctrl, VQ_CTRL_9P + P9PDU_OUT_CNT);
    if in_cnt + out_cnt > VIRTQUEUE_NUM {
        Err(DropReason::TooManyIovs)
    } else {
        Ok(
            (
                iovs_at(ctrl, VQ_CTRL_9P + P9PDU_IN_IOV, in_cnt as nat),
                iovs_at(ctrl, VQ_CTRL_9P + P9PDU_OUT_IOV, out_cnt as nat),
            ),
        )
    }
}

/// The host window after a 9P request was carried across: the request,
/// byte for byte, in the host's 9P page, and the bytes of both lists of
/// descriptors in the image of the data region.
pub open spec fn p9_host_after(
    ctrl: Seq<u8>,
    data: Seq<u8>,
    host: Seq<u8>,
    in_iov: Seq<IOVec>,
    out_iov: Seq<IOVec>,
) -> Seq<u8> {
    copy_iovs_spec(
        copy_iovs_spec(
            overlay(host, VQ_CTRL_9P_HOST as int, span(ctrl, VQ_CTRL_9P as int, P9PDU_SIZE as int)),
            data,
            in_iov,
        ),
        data,
        out_iov,
    )
}

} // verus!
