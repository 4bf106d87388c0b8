//! Network frames: transmit requests of the guest and frames that the
//! host delivers.

use crate::mem::{copy_range, overlay, read_u32, read_u64, span, u32_at, write_u32};
use crate::module::{
    lemma_net_chain_len, Module, ModuleRegistry, monitor_net_rx, monitor_net_tx, net_chain,
    net_chain_modified,
};
use crate::virtio::{
    copy_iovs, DropReason, IOVec, IOVEC_SIZE, Outcome, SharedMemory, VIRTQUEUE_NUM,
    VQ_CTRL_BLK_AES_TAG_HOST, VQ_CTRL_BLK_HOST, VQ_CTRL_NET_RX_HOST, VQ_CTRL_NET_TX_HOST, VQ_START,
};
use crate::virtio::iov::{
    all_valid, append_span, check_iovs, copy_iovs_spec, covered, iov_at, iovs_at, read_iovs,
    write_iovs, write_iovs_spec,
};
use vstd::bytes::spec_u32_to_le_bytes;
use vstd::prelude::*;

verus! {

/// Size of the fixed part of a network control structure: the count,
/// padded to the alignment of the descriptors.
pub const NET_HDR_SIZE: usize = 8;

/// Size of a network control structure.
pub const NET_CTRL_SIZE: usize = NET_HDR_SIZE + IOVEC_SIZE * VIRTQUEUE_NUM;

/// A transmit request: the descriptors of one frame.
pub struct NetTX {
    pub out_cnt: u32,
    pub iovs: Vec<IOVec>,
}

/// The descriptors of the network request stored in `ctrl` at `at`. A
/// request that announces more descriptors than a virtqueue holds, or
/// none, is refused.
pub open spec fn net_request(ctrl: Seq<u8>, at: int) -> Result<Seq<IOVec>, DropReason> {
    let cnt = u32_at(ctrl, at);
    if cnt > VIRTQUEUE_NUM {
        Err(DropReason::TooManyIovs)
    } else if cnt == 0 {
        Err(DropReason::NoIovs)
    } else {
        Ok(iovs_at(ctrl, at + NET_HDR_SIZE, cnt as nat))
    }
}

/// Takes a private copy of the network request stored in `ctrl` at `at`.
pub fn snapshot_net(ctrl: &[u8], at: usize) -> (r: Result<NetTX, DropReason>)
    requires
        at + NET_CTRL_SIZE <= ctrl@.len(),
    ensures
        match r {
            Ok(req) => net_request(ctrl@, at as int) == Ok::<Seq<IOVec>, DropReason>(req.iovs@)
                && req.out_cnt == req.iovs@.len() && 0 < req.out_cnt <= VIRTQUEUE_NUM,
            Err(reason) => net_request(ctrl@, at as int) == Err::<Seq<IOVec>, DropReason>(reason),
        },
{
    let ctrl_len: usize = ctrl.len();
    let out_cnt: u32 = read_u32(ctrl, at);
    if out_cnt as usize > VIRTQUEUE_NUM {
        return Err(DropReason::TooManyIovs);
    }
    if out_cnt == 0 {
        return Err(DropReason::NoIovs);
    }
    let iovs = read_iovs(ctrl, at + NET_HDR_SIZE, out_cnt as usize);
    Ok(NetTX { out_cnt, iovs })
}

/// Runs the modules' network hooks on `len` bytes of `data` at `off`.
fn net_hooks_on(registry: &ModuleRegistry, is_tx: bool, data: &mut [u8], off: usize, len: usize)
    requires
        off + len <= old(data)@.len(),
    ensures
        final(data)@ == overlay(
            old(data)@,
            off as int,
            net_chain(
                registry.modules@,
                registry.modules@.len(),
                is_tx,
                span(old(data)@, off as int, len as int),
            ),
        ),
        final(data)@.len() == old(data)@.len(),
        net_chain(
            registry.modules@,
            registry.modules@.len(),
            is_tx,
            span(old(data)@, off as int, len as int),
        ).len() == len,
{
    let (_head, rest) = data.split_at_mut(off);
    let (segment, _tail) = rest.split_at_mut(len);
    assert(segment@ =~= span(old(data)@, off as int, len as int));
    if is_tx {
        let _ = monitor_net_tx(registry, segment, 0);
    } else {
        let _ = monitor_net_rx(registry, segment, 0);
    }
    assert(data@ =~= overlay(
        old(data)@,
        off as int,
        net_chain(
            registry.modules@,
            registry.modules@.len(),
            is_tx,
            span(old(data)@, off as int, len as int),
        ),
    ));
}

/// The bytes of a frame that two descriptors describe, one part after the
/// other.
pub open spec fn merged_frame(data: Seq<u8>, iovs: Seq<IOVec>) -> Seq<u8> {
    span(data, iovs[0].offset(), iovs[0].iov_len as int) + span(
        data,
        iovs[1].offset(),
        iovs[1].iov_len as int,
    )
}

/// The data region after a frame was written back over the two parts it
/// was merged from, each part getting as many bytes as it had.
pub open spec fn scatter(data: Seq<u8>, iovs: Seq<IOVec>, frame: Seq<u8>) -> Seq<u8> {
    overlay(
        overlay(data, iovs[0].offset(), frame.subrange(0, iovs[0].iov_len as int)),
        iovs[1].offset(),
        frame.subrange(iovs[0].iov_len as int, iovs[0].iov_len + iovs[1].iov_len),
    )
}

/// The data region after the modules saw a frame to transmit. A frame in
/// one piece is handed to them where it lies. A frame in two pieces is
/// merged for them and written back over its pieces if they changed it. A
/// frame in more pieces is not shown to them.
pub open spec fn net_tx_data(mods: Seq<Module>, iovs: Seq<IOVec>, data: Seq<u8>) -> Seq<u8> {
    if iovs.len() == 1 {
        overlay(
            data,
            iovs[0].offset(),
            net_chain(mods, mods.len(), true, span(data, iovs[0].offset(), iovs[0].iov_len as int)),
        )
    } else if iovs.len() == 2 {
        if net_chain_modified(mods, mods.len(), true, merged_frame(data, iovs)) {
            scatter(data, iovs, net_chain(mods, mods.len(), true, merged_frame(data, iovs)))
        } else {
            data
        }
    } else {
        data
    }
}

/// The host window with a transmit request stored in the host's page:
/// the count, then the descriptors.
pub open spec fn net_tx_page(host: Seq<u8>, iovs: Seq<IOVec>) -> Seq<u8> {
    write_iovs_spec(
        overlay(host, VQ_CTRL_NET_TX_HOST as int, spec_u32_to_le_bytes(iovs.len() as u32)),
        VQ_CTRL_NET_TX_HOST + NET_HDR_SIZE,
        iovs,
        iovs.len(),
    )
}

/// Carries a transmit request across: lets the modules see the frame,
/// stores the descriptors in the host's page and copies the frame to the
/// host.
pub fn process_net_tx(registry: &ModuleRegistry, req: &NetTX, mem: &mut SharedMemory) -> (out:
    Outcome)
    requires
        old(mem).wf(),
        req.out_cnt == req.iovs@.len(),
        0 < req.out_cnt <= VIRTQUEUE_NUM,
    ensures
        final(mem).wf(),
        final(mem).ctrl@ == old(mem).ctrl@,
        !all_valid(req.iovs@, old(mem).data@.len()) ==> out == Outcome::Dropped(DropReason::BadIov)
            && final(mem).data@ == old(mem).data@ && final(mem).host@ == old(mem).host@,
        all_valid(req.iovs@, old(mem).data@.len()) ==> out == Outcome::Done && final(mem).data@
            == net_tx_data(registry.modules@, req.iovs@, old(mem).data@) && final(mem).host@
            == copy_iovs_spec(net_tx_page(old(mem).host@, req.iovs@), final(mem).data@, req.iovs@),
{
    let data_size: usize = mem.data.len();
    let cnt: usize = req.out_cnt as usize;
    if !check_iovs(req.iovs.as_slice(), data_size) {
        return Outcome::Dropped(DropReason::BadIov);
    }
    if cnt == 1 {
        let iov = req.iovs[0];
        assert(req.iovs@[0].valid(data_size as nat));
        match iov.locate(data_size) {
            Some((off, len)) => {
                net_hooks_on(registry, true, mem.data, off, len);
            },
            None => {},
        }
    } else if cnt == 2 {
        let first = req.iovs[0];
        let second = req.iovs[1];
        assert(req.iovs@[0].valid(data_size as nat));
        assert(req.iovs@[1].valid(data_size as nat));
        let off0: usize = (first.iov_base - VQ_START) as usize;
        let len0: usize = first.iov_len as usize;
        let off1: usize = (second.iov_base - VQ_START) as usize;
        let len1: usize = second.iov_len as usize;
        let mut merged_data: Vec<u8> = Vec::new();
        append_span(&mut merged_data, mem.data, off0, len0);
        append_span(&mut merged_data, mem.data, off1, len1);
        assert(merged_data@ =~= merged_frame(mem.data@, req.iovs@));
        let res = monitor_net_tx(registry, merged_data.as_mut_slice(), 0);
        if res.modified {
            copy_range(mem.data, off0, merged_data.as_slice(), 0, len0);
            copy_range(mem.data, off1, merged_data.as_slice(), len0, len1);
        }
    }
    write_u32(mem.host, VQ_CTRL_NET_TX_HOST, req.out_cnt);
    write_iovs(mem.host, VQ_CTRL_NET_TX_HOST + NET_HDR_SIZE, req.iovs.as_slice(), cnt);
    assert(req.iovs@.take(cnt as int) =~= req.iovs@);
    copy_iovs(mem, req.iovs.as_slice(), cnt, true);
    Outcome::Done
}

/// One piece of a received frame: the descriptor it goes to, where its
/// bytes lie in the host window, and how many there are.
#[derive(Clone, Copy, Debug)]
pub struct RxSegment {
    pub iov: IOVec,
    pub src: usize,
    pub len: usize,
}

impl RxSegment {
    /// The piece fits its descriptor, the data region and the host's page.
    pub open spec fn wf(self, data_size: nat) -> bool {
        &&& self.iov.valid(data_size)
        &&& self.len <= self.iov.iov_len
        &&& self.src + self.len <= VQ_CTRL_BLK_HOST
    }
}

/// The pieces of the received frame that the host's page holds from `ptr`
/// on, with `remaining` bytes of the frame still to come. Each piece is a
/// descriptor followed by its bytes, as many as the descriptor takes or as
/// are left of the frame. The frame is refused if a descriptor lies
/// outside the data region or the pieces run past the end of the page.
pub open spec fn rx_segments(host: Seq<u8>, ptr: int, remaining: int, data_size: nat) -> Result<
    Seq<RxSegment>,
    DropReason,
>
    decreases VQ_CTRL_BLK_HOST - ptr,
{
    if remaining <= 0 {
        Ok(Seq::empty())
    } else if ptr < 0 || ptr + IOVEC_SIZE > VQ_CTRL_BLK_HOST {
        Err(DropReason::Truncated)
    } else {
        let iov = iov_at(host, ptr);
        let copy = if iov.iov_len <= remaining {
            iov.iov_len as int
        } else {
            remaining
        };
        if !iov.valid(data_size) {
            Err(DropReason::BadIov)
        } else if ptr + IOVEC_SIZE + copy > VQ_CTRL_BLK_HOST {
            Err(DropReason::Truncated)
        } else {
            match rx_segments(host, ptr + IOVEC_SIZE + copy, remaining - copy, data_size) {
                Ok(rest) => Ok(
                    seq![RxSegment { iov, src: (ptr + IOVEC_SIZE) as usize, len: copy as usize }]
                        + rest,
                ),
                Err(reason) => Err(reason),
            }
        }
    }
}

/// The pieces of the received frame in the host's receive page: the page
/// starts with the length of the frame.
pub open spec fn rx_frame(host: Seq<u8>, data_size: nat) -> Result<Seq<RxSegment>, DropReason> {
    rx_segments(
        host,
        VQ_CTRL_NET_RX_HOST + 4,
        u32_at(host, VQ_CTRL_NET_RX_HOST as int) as int,
        data_size,
    )
}

/// `found` followed by what the rest of the walk finds.
pub open spec fn rx_joined(found: Seq<RxSegment>, rest: Result<Seq<RxSegment>, DropReason>) -> Result<
    Seq<RxSegment>,
    DropReason,
> {
    match rest {
        Ok(more) => Ok(found + more),
        Err(reason) => Err(reason),
    }
}

/// The data region after the first `n` pieces were delivered in turn:
/// each is copied to its place and shown to the modules there.
pub open spec fn rx_apply(
    mods: Seq<Module>,
    segs: Seq<RxSegment>,
    n: nat,
    data: Seq<u8>,
    host: Seq<u8>,
) -> Seq<u8>
    decreases n,
{
    if n == 0 {
        data
    } else {
        let prev = rx_apply(mods, segs, (n - 1) as nat, data, host);
        let seg = segs[n - 1];
        if seg.len == 0 {
            prev
        } else {
            overlay(
                prev,
                seg.iov.offset(),
                net_chain(mods, mods.len(), false, span(host, seg.src as int, seg.len as int)),
            )
        }
    }
}

/// Takes a private copy of the descriptors of the received frame in the
/// host's receive page, and finds the bytes of each piece.
pub fn snapshot_net_rx(host: &[u8], data_size: usize) -> (r: Result<Vec<RxSegment>, DropReason>)
    requires
        host@.len() >= VQ_CTRL_BLK_AES_TAG_HOST,
    ensures
        match r {
            Ok(segs) => rx_frame(host@, data_size as nat) == Ok::<Seq<RxSegment>, DropReason>(
                segs@,
            ) && forall|k: int| 0 <= k < segs@.len() ==> (#[trigger] segs@[k]).wf(data_size as nat),
            Err(reason) => rx_frame(host@, data_size as nat) == Err::<
                Seq<RxSegment>,
                DropReason,
            >(reason),
        },
{
    let host_len: usize = host.len();
    let total: u32 = read_u32(host, VQ_CTRL_NET_RX_HOST);
    let mut llen: usize = total as usize;
    let mut ptr_addr: usize = VQ_CTRL_NET_RX_HOST + 4;
    let mut segs: Vec<RxSegment> = Vec::new();
    assert(rx_joined(segs@, rx_segments(host@, ptr_addr as int, llen as int, data_size as nat))
        == rx_frame(host@, data_size as nat)) by {
        let rest = rx_segments(host@, ptr_addr as int, llen as int, data_size as nat);
        if rest is Ok {
            assert(segs@ + rest->Ok_0 =~= rest->Ok_0);
        }
    }
    while llen > 0
        invariant
            host_len == host@.len(),
            host_len >= VQ_CTRL_BLK_AES_TAG_HOST,
            VQ_CTRL_NET_RX_HOST + 4 <= ptr_addr <= VQ_CTRL_BLK_HOST,
            rx_joined(segs@, rx_segments(host@, ptr_addr as int, llen as int, data_size as nat))
                == rx_frame(host@, data_size as nat),
            forall|k: int| 0 <= k < segs@.len() ==> (#[trigger] segs@[k]).wf(data_size as nat),
        decreases VQ_CTRL_BLK_HOST - ptr_addr,
    {
        if ptr_addr + IOVEC_SIZE > VQ_CTRL_BLK_HOST {
            return Err(DropReason::Truncated);
        }
        let iiov = IOVec {
            iov_base: read_u64(host, ptr_addr),
            iov_len: read_u64(host, ptr_addr + 8),
        };
        if iiov.locate(data_size).is_none() {
            return Err(DropReason::BadIov);
        }
        let copy: usize = if iiov.iov_len <= llen as u64 {
            iiov.iov_len as usize
        } else {
            llen
        };
        if copy > VQ_CTRL_BLK_HOST - (ptr_addr + IOVEC_SIZE) {
            return Err(DropReason::Truncated);
        }
        let seg = RxSegment { iov: iiov, src: ptr_addr + IOVEC_SIZE, len: copy };
        proof {
            let rest = rx_segments(
                host@,
                ptr_addr + IOVEC_SIZE + copy,
                llen - copy,
                data_size as nat,
            );
            if rest is Ok {
                assert(segs@.push(seg) + rest->Ok_0 =~= segs@ + (seq![seg] + rest->Ok_0));
            }
        }
        segs.push(seg);
        ptr_addr = ptr_addr + IOVEC_SIZE + copy;
        llen -= copy;
    }
    proof {
        assert(segs@ + Seq::<RxSegment>::empty() =~= segs@);
    }
    Ok(segs)
}

/// Delivers the pieces of a received frame: each is copied from the host's
/// page to its place in the data region and shown to the modules there.
pub fn process_net_rx(registry: &ModuleRegistry, segs: &[RxSegment], mem: &mut SharedMemory)
    requires
        old(mem).wf(),
        forall|k: int| 0 <= k < segs@.len() ==> (#[trigger] segs@[k]).wf(old(mem).data@.len()),
    ensures
        final(mem).wf(),
        final(mem).ctrl@ == old(mem).ctrl@,
        final(mem).host@ == old(mem).host@,
        final(mem).data@ == rx_apply(
            registry.modules@,
            segs@,
            segs@.len(),
            old(mem).data@,
            old(mem).host@,
        ),
{
    let n: usize = segs.len();
    let data_size: usize = mem.data.len();
    let mut i: usize = 0;
    while i < n
        invariant
            mem.wf(),
            mem.ctrl@ == old(mem).ctrl@,
            mem.host@ == old(mem).host@,
            n == segs@.len(),
            data_size == mem.data@.len(),
            data_size == old(mem).data@.len(),
            forall|k: int| 0 <= k < segs@.len() ==> (#[trigger] segs@[k]).wf(data_size as nat),
            i <= n,
            mem.data@ == rx_apply(
                registry.modules@,
                segs@,
                i as nat,
                old(mem).data@,
                old(mem).host@,
            ),
        decreases n - i,
    {
        let seg = segs[i];
        assert(segs@[i as int].wf(data_size as nat));
        if seg.len > 0 {
            let off: usize = (seg.iov.iov_base - VQ_START) as usize;
            let ghost before = mem.data@;
            copy_range(mem.data, off, mem.host, seg.src, seg.len);
            assert(span(mem.data@, off as int, seg.len as int) =~= span(
                mem.host@,
                seg.src as int,
                seg.len as int,
            ));
            net_hooks_on(registry, false, mem.data, off, seg.len);
            assert(mem.data@ =~= overlay(
                before,
                off as int,
                net_chain(
                    registry.modules@,
                    registry.modules@.len(),
                    false,
                    span(mem.host@, seg.src as int, seg.len as int),
                ),
            ));
        }
        i += 1;
    }
}

/// Writing a frame back over the two pieces it was merged from keeps the
/// length of the data region and of every piece, fills the second piece
/// with its part of the frame, fills the first piece with its part
/// wherever the second does not lie over it, and leaves every byte outside
/// the two pieces alone.
pub proof fn lemma_scatter_overwrites(data: Seq<u8>, iovs: Seq<IOVec>, frame: Seq<u8>)
    requires
        iovs.len() == 2,
        all_valid(iovs, data.len()),
        frame.len() == iovs[0].iov_len + iovs[1].iov_len,
    ensures
        scatter(data, iovs, frame).len() == data.len(),
        span(scatter(data, iovs, frame), iovs[1].offset(), iovs[1].iov_len as int)
            == frame.subrange(iovs[0].iov_len as int, iovs[0].iov_len + iovs[1].iov_len),
        forall|i: int|
            iovs[0].covers(i) && !iovs[1].covers(i) ==> #[trigger] scatter(data, iovs, frame)[i]
                == frame[i - iovs[0].offset()],
        forall|i: int|
            0 <= i < data.len() && !covered(iovs, i) ==> #[trigger] scatter(data, iovs, frame)[i]
                == data[i],
{
    assert(iovs[0].valid(data.len()));
    assert(iovs[1].valid(data.len()));
    let out = scatter(data, iovs, frame);
    assert(span(out, iovs[1].offset(), iovs[1].iov_len as int) =~= frame.subrange(
        iovs[0].iov_len as int,
        iovs[0].iov_len + iovs[1].iov_len,
    ));
    assert forall|i: int| 0 <= i < data.len() && !covered(iovs, i) implies #[trigger] out[i]
        == data[i] by {
        assert(!iovs[0].covers(i));
        assert(!iovs[1].covers(i));
    }
}

/// A frame in two pieces that the modules changed: the changed frame is as
/// long as both pieces together, and the data region afterwards is the
/// changed frame written back over the pieces.
pub proof fn lemma_net_tx_two_pieces(mods: Seq<Module>, iovs: Seq<IOVec>, data: Seq<u8>)
    requires
        iovs.len() == 2,
        all_valid(iovs, data.len()),
        net_chain_modified(mods, mods.len(), true, merged_frame(data, iovs)),
    ensures
        net_chain(mods, mods.len(), true, merged_frame(data, iovs)).len() == iovs[0].iov_len
            + iovs[1].iov_len,
        net_tx_data(mods, iovs, data) == scatter(
            data,
            iovs,
            net_chain(mods, mods.len(), true, merged_frame(data, iovs)),
        ),
{
    assert(iovs[0].valid(data.len()));
    assert(iovs[1].valid(data.len()));
    lemma_net_chain_len(mods, mods.len(), true, merged_frame(data, iovs));
}

} // verus!
