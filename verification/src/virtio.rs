//! Virtio mediator: the shared-memory layout, the control structures that
//! guest and host leave in it, and the handlers that carry each request
//! across the boundary.

pub mod blk;
pub mod iov;
pub mod net;
pub mod p9;

use crate::mem::{
    copy_range, overlay, read_bytes, read_u16, read_u32, read_u64, span, u16_at, u32_at, u64_at,
    write_bytes, write_u16,
};
use crate::module::ModuleRegistry;
use crate::virtio::blk::{
    blk_denied, blk_host_after, blk_in_denied, blk_in_hooks, blk_request, blk_request_hooks,
    blk_response, lemma_blk_read_segments_keep_table, parse_blk, process_blk, process_blk_in,
    snapshot_blk, snapshot_blk_in, tag_table, with_tag_table,
};
use crate::virtio::iov::{
    all_valid, check_iovs, copy_iovs_spec, covered, iovs_at, lemma_iovs_of_span,
    lemma_span_of_span, lemma_stored_iovs_read_back, lemma_write_iovs_at, lemma_write_iovs_len,
    read_iovs,
};
use crate::virtio::net::{
    net_request, net_tx_data, net_tx_page, process_net_rx, process_net_tx, rx_apply, rx_frame,
    snapshot_net, snapshot_net_rx, NET_CTRL_SIZE, NET_HDR_SIZE,
};
use crate::virtio::p9::{
    p9_host_after, p9_request, P9View, P9pdu, P9PDU_IN_CNT, P9PDU_IN_IOV, P9PDU_OUT_CNT,
    P9PDU_OUT_IOV, P9PDU_READ_OFFSET, P9PDU_SIZE, P9PDU_WRITE_OFFSET,
};
use vstd::bytes::{
    lemma_auto_spec_u32_to_from_le_bytes, spec_u16_to_le_bytes, spec_u32_to_le_bytes,
};
use vstd::prelude::*;

verus! {

/// Distance from a realm-shared address to the host's view of the same page.
pub const IPA_OFFSET: u64 = 0x1_0000_0000;

/// Guest address of the first byte of the shared data region.
pub const VQ_START: u64 = 0x9960_0000;

/// Host address of the first byte of the shared data region.
pub const VQ_DATA_HOST: u64 = 0x1_9960_0000;

/// Capacity of a virtqueue, in descriptors.
pub const VIRTQUEUE_NUM: usize = 128;

/// Size of the realm-side control region.
pub const VQ_CTRL_SIZE: usize = 0x20_0000;

/// Offset of the 9P sub-channel in the control region.
pub const VQ_CTRL_9P: usize = 0;

/// Offset of the vsock transmit sub-channel in the control region.
pub const VQ_CTRL_VSOCK_TX: usize = 0x8_0000;

/// Offset of the vsock receive sub-channel in the control region.
pub const VQ_CTRL_VSOCK_RX: usize = 0xC_8000;

/// Offset of the network transmit sub-channel in the control region.
pub const VQ_CTRL_NET_TX: usize = 0x10_0000;

/// Offset of the network receive sub-channel in the control region.
pub const VQ_CTRL_NET_RX: usize = 0x18_0000;

/// Offset of the block sub-channel in the control region.
pub const VQ_CTRL_BLK: usize = 0x1C_8000;

/// Offset of the host's 9P control page in the host window.
pub const VQ_CTRL_9P_HOST: usize = 0xE0_0000;

/// Offset of the host's network transmit control page in the host window.
pub const VQ_CTRL_NET_TX_HOST: usize = 0x120_0000;

/// Offset of the host's network receive control page in the host window.
pub const VQ_CTRL_NET_RX_HOST: usize = 0x160_0000;

/// Offset of the host's block request page in the host window.
pub const VQ_CTRL_BLK_HOST: usize = 0x1A0_0000;

/// Offset of the host's block response page in the host window.
pub const VQ_CTRL_BLK_IN_HOST: usize = 0x1E0_0000;

/// Offset of the table of sector tags in the host window.
pub const VQ_CTRL_BLK_AES_TAG_HOST: usize = 0x220_0000;

/// Size of a descriptor in memory.
pub const IOVEC_SIZE: usize = 16;

/// A scatter-gather descriptor: a guest address and a length in bytes.
#[derive(Clone, Copy, Debug)]
pub struct IOVec {
    pub iov_base: u64,
    pub iov_len: u64,
}

impl IOVec {
    /// The descriptor lies within a data region of `data_size` bytes.
    pub open spec fn valid(self, data_size: nat) -> bool {
        &&& VQ_START <= self.iov_base < VQ_START + data_size
        &&& self.iov_len <= data_size - (self.iov_base - VQ_START)
    }

    /// Offset of the described bytes in the data region, and in the host's
    /// image of it.
    pub open spec fn offset(self) -> int {
        self.iov_base - VQ_START
    }

    /// Whether the described bytes include offset `i` of the data region.
    pub open spec fn covers(self, i: int) -> bool {
        self.offset() <= i < self.offset() + self.iov_len
    }

    /// Offset and length of the described bytes, if the descriptor lies
    /// within a data region of `data_size` bytes.
    pub fn locate(&self, data_size: usize) -> (at: Option<(usize, usize)>)
        ensures
            at is Some <==> self.valid(data_size as nat),
            at matches Some((off, len)) ==> off == self.offset() && len == self.iov_len && off
                + len <= data_size,
    {
        if self.iov_base < VQ_START {
            return None;
        }
        let off: u64 = self.iov_base - VQ_START;
        if off >= data_size as u64 {
            None
        } else if self.iov_len > data_size as u64 - off {
            None
        } else {
            Some((off as usize, self.iov_len as usize))
        }
    }
}

/// The three windows of memory that the gateway works on.
pub struct SharedMemory<'a> {
    /// Realm-side control region, written by the guest.
    pub ctrl: &'a [u8],
    /// Realm-side data region; the guest addresses it from `VQ_START` on.
    pub data: &'a mut [u8],
    /// Host-shared window; the host addresses it from `VQ_DATA_HOST` on. It
    /// starts with the host's image of the data region and holds the host's
    /// control pages and the table of sector tags.
    pub host: &'a mut [u8],
}

/// The contents of the three windows.
#[verifier::ext_equal]
pub struct Memory {
    pub ctrl: Seq<u8>,
    pub data: Seq<u8>,
    pub host: Seq<u8>,
}

impl<'a> SharedMemory<'a> {
    /// The contents of the windows.
    pub open spec fn view(&self) -> Memory {
        Memory { ctrl: self.ctrl@, data: self.data@, host: self.host@ }
    }

    /// The windows hold exactly `m`.
    pub open spec fn holds(&self, m: Memory) -> bool {
        self.ctrl@ == m.ctrl && self.data@ == m.data && self.host@ == m.host
    }

    /// The windows have the sizes of the memory map: a full control region,
    /// and a host window that holds the image of the data region and every
    /// control page.
    pub open spec fn wf(&self) -> bool {
        &&& self.ctrl@.len() == VQ_CTRL_SIZE
        &&& self.data@.len() <= self.host@.len()
        &&& self.host@.len() >= VQ_CTRL_BLK_AES_TAG_HOST
        &&& VQ_START + self.data@.len() <= u64::MAX
    }

    /// Puts three windows together, if they have the sizes of the memory
    /// map.
    pub fn new(ctrl: &'a [u8], data: &'a mut [u8], host: &'a mut [u8]) -> (mem: Option<Self>)
        ensures
            mem is Some <==> ctrl@.len() == VQ_CTRL_SIZE && old(data)@.len() <= old(host)@.len()
                && old(host)@.len() >= VQ_CTRL_BLK_AES_TAG_HOST && VQ_START + old(data)@.len()
                <= u64::MAX,
            mem matches Some(m) ==> m.wf() && m.ctrl@ == ctrl@ && m.data@ == old(data)@
                && m.host@ == old(host)@ && final(data)@ == final(m.data)@ && final(host)@
                == final(m.host)@,
            mem is None ==> final(data)@ == old(data)@ && final(host)@ == old(host)@,
    {
        if ctrl.len() == VQ_CTRL_SIZE && data.len() <= host.len() && host.len()
            >= VQ_CTRL_BLK_AES_TAG_HOST && data.len() as u64 <= u64::MAX - VQ_START {
            Some(SharedMemory { ctrl, data, host })
        } else {
            None
        }
    }
}

/// Why a request was dropped.
#[derive(Clone, Copy, PartialEq, Eq, Structural, Debug)]
pub enum DropReason {
    /// The request announces more descriptors than it may hold.
    TooManyIovs,
    /// The request holds no descriptor.
    NoIovs,
    /// A descriptor does not lie within the data region.
    BadIov,
    /// The descriptors are too short for the request header.
    ShortHeader,
    /// No descriptor has room for the status byte.
    NoStatus,
    /// A stream of the host runs out of its control page.
    Truncated,
}

/// How a handler ended.
#[derive(Clone, Copy, PartialEq, Eq, Structural, Debug)]
pub enum Outcome {
    /// The request was carried across.
    Done,
    /// The request was malformed and dropped; nothing was changed.
    Dropped(DropReason),
    /// A module denies the request; nothing was changed and the gateway
    /// must halt.
    Denied,
}

/// The realm address of the byte that the guest addresses as `base`, in a
/// data region that starts at realm address `vq_data`.
pub open spec fn realm_view_spec(vq_data: u64, base: u64) -> int {
    vq_data + (base - VQ_START)
}

/// The host address of the byte at realm address `addr`, in a data region
/// that starts at realm address `vq_data`.
pub open spec fn host_view_spec(vq_data: u64, addr: u64) -> int {
    (addr - vq_data) + VQ_START + IPA_OFFSET
}

/// Translates a guest address to the realm address of the same byte.
pub fn realm_view(vq_data: u64, base: u64) -> (addr: u64)
    requires
        base >= VQ_START,
        vq_data + (base - VQ_START) <= u64::MAX,
    ensures
        addr == realm_view_spec(vq_data, base),
{
    vq_data + (base - VQ_START)
}

/// Translates a realm address in the data region to the host address of
/// the same byte.
pub fn host_view(vq_data: u64, addr: u64) -> (host: u64)
    requires
        addr >= vq_data,
        (addr - vq_data) + VQ_START + IPA_OFFSET <= u64::MAX,
    ensures
        host == host_view_spec(vq_data, addr),
{
    (addr - vq_data) + VQ_START + IPA_OFFSET
}

/// Translating a guest address first to its realm address and from there
/// to the host's view gives the guest address moved by `IPA_OFFSET`; and
/// the byte lies at the same offset in the data region and in the host
/// window.
pub proof fn lemma_translation_round_trip(vq_data: u64, base: u64, data_size: nat)
    requires
        VQ_START <= base < VQ_START + data_size,
        vq_data + data_size <= u64::MAX,
    ensures
        host_view_spec(vq_data, realm_view_spec(vq_data, base) as u64) == base + IPA_OFFSET,
        realm_view_spec(vq_data, base) - vq_data == base - VQ_START,
        base + IPA_OFFSET - VQ_DATA_HOST == base - VQ_START,
{
}

/// Copies the bytes that the first `cnt` descriptors describe between the
/// data region and the host's image of it: to the host if `to_host_shared`,
/// from the host otherwise. Source and destination are the same offsets of
/// the two windows.
pub fn copy_iovs(mem: &mut SharedMemory, iovs: &[IOVec], cnt: usize, to_host_shared: bool)
    requires
        old(mem).wf(),
        cnt <= iovs@.len(),
        all_valid(iovs@.take(cnt as int), old(mem).data@.len()),
    ensures
        final(mem).wf(),
        final(mem).ctrl@ == old(mem).ctrl@,
        to_host_shared ==> final(mem).data@ == old(mem).data@ && final(mem).host@ == copy_iovs_spec(
            old(mem).host@,
            old(mem).data@,
            iovs@.take(cnt as int),
        ),
        !to_host_shared ==> final(mem).host@ == old(mem).host@ && final(mem).data@
            == copy_iovs_spec(old(mem).data@, old(mem).host@, iovs@.take(cnt as int)),
{
    let data_size: usize = mem.data.len();
    let host_size: usize = mem.host.len();
    let mut i: usize = 0;
    assert(mem.host@ =~= copy_iovs_spec(mem.host@, mem.data@, iovs@.take(0)));
    assert(mem.data@ =~= copy_iovs_spec(mem.data@, mem.host@, iovs@.take(0)));
    while i < cnt
        invariant
            mem.wf(),
            mem.ctrl@ == old(mem).ctrl@,
            data_size == mem.data@.len(),
            data_size == old(mem).data@.len(),
            host_size == mem.host@.len(),
            host_size == old(mem).host@.len(),
            i <= cnt <= iovs@.len(),
            all_valid(iovs@.take(cnt as int), data_size as nat),
            to_host_shared ==> mem.data@ == old(mem).data@ && mem.host@ == copy_iovs_spec(
                old(mem).host@,
                old(mem).data@,
                iovs@.take(i as int),
            ),
            !to_host_shared ==> mem.host@ == old(mem).host@ && mem.data@ == copy_iovs_spec(
                old(mem).data@,
                old(mem).host@,
                iovs@.take(i as int),
            ),
        decreases cnt - i,
    {
        let iov = iovs[i];
        assert(iovs@.take(cnt as int)[i as int].valid(data_size as nat));
        match iov.locate(data_size) {
            Some((off, len)) => {
                if to_host_shared {
                    copy_range(mem.host, off, mem.data, off, len);
                } else {
                    copy_range(mem.data, off, mem.host, off, len);
                }
            },
            None => {},
        }
        proof {
            let done = iovs@.take(i as int);
            let next = iovs@.take(i + 1);
            assert forall|j: int| covered(next, j) == (covered(done, j) || iov.covers(j)) by {
                if covered(next, j) {
                    let k = choose|k: int| 0 <= k < next.len() && (#[trigger] next[k]).covers(j);
                    if k < i {
                        assert(done[k].covers(j));
                    }
                }
                if covered(done, j) {
                    let k = choose|k: int| 0 <= k < done.len() && (#[trigger] done[k]).covers(j);
                    assert(next[k].covers(j));
                }
                if iov.covers(j) {
                    assert(next[i as int].covers(j));
                }
            }
            if to_host_shared {
                assert(mem.host@ =~= copy_iovs_spec(old(mem).host@, old(mem).data@, next));
            } else {
                assert(mem.data@ =~= copy_iovs_spec(old(mem).data@, old(mem).host@, next));
            }
        }
        i += 1;
    }
}

/// Outcome of a block request and the memory it leaves. A malformed
/// request is dropped and one that a module denies is reported as denied,
/// both without any change. Every other request is carried across: the
/// modules see the data of a write, the request goes to the host's block
/// page, the data to the host's image, and the status byte in the host's
/// image is set to success last.
pub open spec fn handle_blk_spec(registry: &ModuleRegistry, m: Memory) -> (Outcome, Memory) {
    match blk_request(m.data, m.host) {
        Err(reason) => (Outcome::Dropped(reason), m),
        Ok(req) => if blk_denied(registry, req) {
            (Outcome::Denied, m)
        } else {
            (
                Outcome::Done,
                Memory {
                    ctrl: m.ctrl,
                    data: blk_request_hooks(registry, req, m.data, m.host).0,
                    host: blk_host_after(registry, req, m.data, m.host),
                },
            )
        },
    }
}

/// Handles a block request of the guest. The request in the host's block
/// page is copied once and only the copy is read after that. A malformed
/// request is dropped, and one that a module denies is reported as denied;
/// in both cases nothing is changed. Every other request is carried across
/// as `process_blk` describes.
pub fn handle_blk(registry: &ModuleRegistry, mem: &mut SharedMemory) -> (out: Outcome)
    requires
        old(mem).wf(),
    ensures
        final(mem).wf(),
        out == handle_blk_spec(registry, old(mem)@).0,
        final(mem).holds(handle_blk_spec(registry, old(mem)@).1),
{
    let req = match snapshot_blk(mem.host) {
        Ok(req) => req,
        Err(reason) => {
            return Outcome::Dropped(reason);
        },
    };
    let host_req = match parse_blk(&req, mem.data) {
        Ok(host_req) => host_req,
        Err(reason) => {
            return Outcome::Dropped(reason);
        },
    };
    process_blk(registry, &host_req, mem)
}

/// Outcome of a transmit request and the memory it leaves. A malformed
/// request is dropped without any change. Every other request is carried
/// across: the modules see the frame, the descriptors go to the host's
/// transmit page and the frame to the host's image.
pub open spec fn handle_net_tx_spec(registry: &ModuleRegistry, m: Memory) -> (Outcome, Memory) {
    match net_request(m.ctrl, VQ_CTRL_NET_TX as int) {
        Err(reason) => (Outcome::Dropped(reason), m),
        Ok(iovs) => if !all_valid(iovs, m.data.len()) {
            (Outcome::Dropped(DropReason::BadIov), m)
        } else {
            (
                Outcome::Done,
                Memory {
                    ctrl: m.ctrl,
                    data: net_tx_data(registry.modules@, iovs, m.data),
                    host: copy_iovs_spec(
                        net_tx_page(m.host, iovs),
                        net_tx_data(registry.modules@, iovs, m.data),
                        iovs,
                    ),
                },
            )
        },
    }
}

/// Handles a transmit request of the guest. The request in the control
/// region is copied once and only the copy is read after that. A malformed
/// request is dropped and nothing is changed; every other request is
/// carried across as `process_net_tx` describes.
pub fn handle_net_tx_request(registry: &ModuleRegistry, mem: &mut SharedMemory) -> (out: Outcome)
    requires
        old(mem).wf(),
    ensures
        final(mem).wf(),
        out == handle_net_tx_spec(registry, old(mem)@).0,
        final(mem).holds(handle_net_tx_spec(registry, old(mem)@).1),
{
    let req = match snapshot_net(mem.ctrl, VQ_CTRL_NET_TX) {
        Ok(req) => req,
        Err(reason) => {
            return Outcome::Dropped(reason);
        },
    };
    process_net_tx(registry, &req, mem)
}

/// Outcome of a received frame and the memory it leaves. A malformed frame
/// is dropped without any change. Every other frame is delivered to the
/// data region piece by piece.
pub open spec fn handle_net_rx_spec(registry: &ModuleRegistry, m: Memory) -> (Outcome, Memory) {
    match rx_frame(m.host, m.data.len()) {
        Err(reason) => (Outcome::Dropped(reason), m),
        Ok(segs) => (
            Outcome::Done,
            Memory {
                ctrl: m.ctrl,
                data: rx_apply(registry.modules@, segs, segs.len(), m.data, m.host),
                host: m.host,
            },
        ),
    }
}

/// Handles a frame that the host delivers. The descriptors in the host's
/// receive page are copied once and only the copy is read after that. A
/// malformed frame is dropped and nothing is changed; every other frame is
/// delivered piece by piece as `process_net_rx` describes.
pub fn handle_net_rx_response(registry: &ModuleRegistry, mem: &mut SharedMemory) -> (out: Outcome)
    requires
        old(mem).wf(),
    ensures
        final(mem).wf(),
        out == handle_net_rx_spec(registry, old(mem)@).0,
        final(mem).holds(handle_net_rx_spec(registry, old(mem)@).1),
{
    let data_size: usize = mem.data.len();
    let segs = match snapshot_net_rx(mem.host, data_size) {
        Ok(segs) => segs,
        Err(reason) => {
            return Outcome::Dropped(reason);
        },
    };
    process_net_rx(registry, segs.as_slice(), mem);
    Outcome::Done
}

/// Size of the receive header that carries the buffer count.
pub const NET_HDR_MRG_RXBUF_SIZE: usize = 12;

/// Offset of the buffer count in the receive header.
pub const NET_HDR_NUM_BUFFERS: usize = 10;

/// The descriptor of the receive header that the host's receive page names
/// by its address.
pub open spec fn rx_header_iov(host: Seq<u8>) -> IOVec {
    IOVec {
        iov_base: u64_at(host, VQ_CTRL_NET_RX_HOST as int),
        iov_len: NET_HDR_MRG_RXBUF_SIZE as u64,
    }
}

/// Outcome of a buffer count and the memory it leaves: the count from the
/// host's receive page, stored in the receive header that the page names.
/// A header that does not lie within the data region is refused without
/// any change.
pub open spec fn handle_net_rx_num_buffers_spec(m: Memory) -> (Outcome, Memory) {
    if !rx_header_iov(m.host).valid(m.data.len()) {
        (Outcome::Dropped(DropReason::BadIov), m)
    } else {
        (
            Outcome::Done,
            Memory {
                ctrl: m.ctrl,
                data: overlay(
                    m.data,
                    rx_header_iov(m.host).offset() + NET_HDR_NUM_BUFFERS,
                    spec_u16_to_le_bytes(u16_at(m.host, VQ_CTRL_NET_RX_HOST + 8)),
                ),
                host: m.host,
            },
        )
    }
}

/// Handles the number of buffers that a received frame took: the host's
/// receive page names a receive header in the data region and the count to
/// store in it. A header that does not lie within the data region is
/// refused and nothing is changed.
pub fn handle_net_rx_num_buffers(mem: &mut SharedMemory) -> (out: Outcome)
    requires
        old(mem).wf(),
    ensures
        final(mem).wf(),
        out == handle_net_rx_num_buffers_spec(old(mem)@).0,
        final(mem).holds(handle_net_rx_num_buffers_spec(old(mem)@).1),
{
    let data_size: usize = mem.data.len();
    let host_len: usize = mem.host.len();
    let acc = Accessor::new(VQ_CTRL_NET_RX_HOST);
    let iov_base: u64 = match acc.read_u64(mem.host) {
        Some(v) => v,
        None => {
            return Outcome::Dropped(DropReason::BadIov);
        },
    };
    let acc = Accessor::new(VQ_CTRL_NET_RX_HOST + 8);
    let num_buffers: u16 = match acc.read_u16(mem.host) {
        Some(v) => v,
        None => {
            return Outcome::Dropped(DropReason::BadIov);
        },
    };
    let hdr = IOVec { iov_base, iov_len: NET_HDR_MRG_RXBUF_SIZE as u64 };
    match hdr.locate(data_size) {
        Some((off, _len)) => {
            let acc = Accessor::new(off + NET_HDR_NUM_BUFFERS);
            let stored = acc.write_u16(mem.data, num_buffers);
            assert(stored);
            Outcome::Done
        },
        None => Outcome::Dropped(DropReason::BadIov),
    }
}

/// A place in a window of memory, for reading and writing little-endian
/// integers there.
pub struct Accessor {
    pub addr: usize,
}

impl Accessor {
    pub fn new(addr: usize) -> (acc: Self)
        ensures
            acc.addr == addr,
    {
        Self { addr }
    }

    /// Whether `size` bytes at this place lie within a window of `len`
    /// bytes.
    pub open spec fn fits(&self, len: nat, size: nat) -> bool {
        self.addr + size <= len
    }

    /// Reads the `u16` at this place, if it lies within the window.
    pub fn read_u16(&self, mem: &[u8]) -> (v: Option<u16>)
        ensures
            v is Some <==> self.fits(mem@.len(), 2),
            v matches Some(x) ==> x == u16_at(mem@, self.addr as int),
    {
        let len: usize = mem.len();
        if len >= 2 && self.addr <= len - 2 {
            Some(read_u16(mem, self.addr))
        } else {
            None
        }
    }

    /// Reads the `u32` at this place, if it lies within the window.
    pub fn read_u32(&self, mem: &[u8]) -> (v: Option<u32>)
        ensures
            v is Some <==> self.fits(mem@.len(), 4),
            v matches Some(x) ==> x == u32_at(mem@, self.addr as int),
    {
        let len: usize = mem.len();
        if len >= 4 && self.addr <= len - 4 {
            Some(read_u32(mem, self.addr))
        } else {
            None
        }
    }

    /// Reads the `u64` at this place, if it lies within the window.
    pub fn read_u64(&self, mem: &[u8]) -> (v: Option<u64>)
        ensures
            v is Some <==> self.fits(mem@.len(), 8),
            v matches Some(x) ==> x == u64_at(mem@, self.addr as int),
    {
        let len: usize = mem.len();
        if len >= 8 && self.addr <= len - 8 {
            Some(read_u64(mem, self.addr))
        } else {
            None
        }
    }

    /// Stores a `u16` at this place, if it lies within the window;
    /// otherwise the window stays as it was.
    pub fn write_u16(&self, mem: &mut [u8], v: u16) -> (ok: bool)
        ensures
            ok == self.fits(old(mem)@.len(), 2),
            ok ==> final(mem)@ == overlay(old(mem)@, self.addr as int, spec_u16_to_le_bytes(v)),
            !ok ==> final(mem)@ == old(mem)@,
    {
        let len: usize = mem.len();
        if len >= 2 && self.addr <= len - 2 {
            write_u16(mem, self.addr, v);
            true
        } else {
            false
        }
    }

    /// Stores a `u8` at this place, if it lies within the window; otherwise
    /// the window stays as it was.
    pub fn write_u8(&self, mem: &mut [u8], v: u8) -> (ok: bool)
        ensures
            ok == self.fits(old(mem)@.len(), 1),
            ok ==> final(mem)@ == overlay(old(mem)@, self.addr as int, seq![v]),
            !ok ==> final(mem)@ == old(mem)@,
    {
        let len: usize = mem.len();
        if self.addr < len {
            mem[self.addr] = v;
            assert(mem@ =~= overlay(old(mem)@, self.addr as int, seq![v]));
            true
        } else {
            false
        }
    }
}

/// What the gateway keeps between requests: the registered modules and its
/// copy of the last 9P request.
pub struct Gateway {
    pub modules: ModuleRegistry,
    pub p9pdu: P9pdu,
}

impl Gateway {
    pub open spec fn wf(&self) -> bool {
        self.modules.wf() && self.p9pdu.wf()
    }

    /// A gateway with no module and no request seen.
    pub fn new() -> (gw: Self)
        ensures
            gw.wf(),
            gw.modules.modules@.len() == 0,
            gw.p9pdu@ == P9View::empty(),
    {
        Gateway { modules: ModuleRegistry::new(), p9pdu: P9pdu::new() }
    }
}

/// Outcome of a 9P request, the request that the gateway keeps after it,
/// and the memory it leaves. A malformed request is dropped without any
/// change. Every other request is kept, stored byte for byte in the host's
/// 9P page, and the bytes of all its descriptors go to the host's image.
pub open spec fn handle_p9_request_spec(kept: P9View, m: Memory) -> (Outcome, P9View, Memory) {
    match p9_request(m.ctrl) {
        Err(reason) => (Outcome::Dropped(reason), kept, m),
        Ok((in_iov, out_iov)) => if all_valid(in_iov, m.data.len()) && all_valid(
            out_iov,
            m.data.len(),
        ) {
            (
                Outcome::Done,
                P9View {
                    queue_head: u32_at(m.ctrl, VQ_CTRL_9P as int),
                    read_offset: u64_at(m.ctrl, VQ_CTRL_9P + P9PDU_READ_OFFSET),
                    write_offset: u64_at(m.ctrl, VQ_CTRL_9P + P9PDU_WRITE_OFFSET),
                    in_iov,
                    out_iov,
                },
                Memory {
                    ctrl: m.ctrl,
                    data: m.data,
                    host: p9_host_after(m.ctrl, m.data, m.host, in_iov, out_iov),
                },
            )
        } else {
            (Outcome::Dropped(DropReason::BadIov), kept, m)
        },
    }
}

/// Handles a 9P request of the guest. The request in the control region is
/// copied once and only the copy is read after that. A malformed request
/// is dropped and nothing is changed. Every other request is kept for the
/// response, stored byte for byte in the host's 9P page, and the bytes of
/// all its descriptors are copied to the host.
pub fn handle_p9_request(gw: &mut Gateway, mem: &mut SharedMemory) -> (out: Outcome)
    requires
        old(gw).wf(),
        old(mem).wf(),
    ensures
        final(gw).wf(),
        final(gw).modules == old(gw).modules,
        final(mem).wf(),
        out == handle_p9_request_spec(old(gw).p9pdu@, old(mem)@).0,
        final(gw).p9pdu@ == handle_p9_request_spec(old(gw).p9pdu@, old(mem)@).1,
        final(mem).holds(handle_p9_request_spec(old(gw).p9pdu@, old(mem)@).2),
{
    let data_size: usize = mem.data.len();
    let raw: Vec<u8> = read_bytes(mem.ctrl, VQ_CTRL_9P, P9PDU_SIZE);
    let queue_head: u32 = read_u32(raw.as_slice(), 0);
    let read_offset: u64 = read_u64(raw.as_slice(), P9PDU_READ_OFFSET);
    let write_offset: u64 = read_u64(raw.as_slice(), P9PDU_WRITE_OFFSET);
    let out_iov_cnt: u16 = read_u16(raw.as_slice(), P9PDU_OUT_CNT);
    let in_iov_cnt: u16 = read_u16(raw.as_slice(), P9PDU_IN_CNT);
    proof {
        let ctrl = mem.ctrl@;
        lemma_span_of_span(ctrl, VQ_CTRL_9P as int, P9PDU_SIZE as int, 0, 4);
        lemma_span_of_span(ctrl, VQ_CTRL_9P as int, P9PDU_SIZE as int, P9PDU_READ_OFFSET as int, 8);
        lemma_span_of_span(
            ctrl,
            VQ_CTRL_9P as int,
            P9PDU_SIZE as int,
            P9PDU_WRITE_OFFSET as int,
            8,
        );
        lemma_span_of_span(ctrl, VQ_CTRL_9P as int, P9PDU_SIZE as int, P9PDU_OUT_CNT as int, 2);
        lemma_span_of_span(ctrl, VQ_CTRL_9P as int, P9PDU_SIZE as int, P9PDU_IN_CNT as int, 2);
    }
    if in_iov_cnt as usize + out_iov_cnt as usize > VIRTQUEUE_NUM {
        return Outcome::Dropped(DropReason::TooManyIovs);
    }
    let in_iov = read_iovs(raw.as_slice(), P9PDU_IN_IOV, in_iov_cnt as usize);
    let out_iov = read_iovs(raw.as_slice(), P9PDU_OUT_IOV, out_iov_cnt as usize);
    proof {
        let ctrl = mem.ctrl@;
        lemma_iovs_of_span(
            ctrl,
            VQ_CTRL_9P as int,
            P9PDU_SIZE as int,
            P9PDU_IN_IOV as int,
            in_iov_cnt as nat,
        );
        lemma_iovs_of_span(
            ctrl,
            VQ_CTRL_9P as int,
            P9PDU_SIZE as int,
            P9PDU_OUT_IOV as int,
            out_iov_cnt as nat,
        );
    }
    if !check_iovs(in_iov.as_slice(), data_size) || !check_iovs(out_iov.as_slice(), data_size) {
        return Outcome::Dropped(DropReason::BadIov);
    }
    write_bytes(mem.host, VQ_CTRL_9P_HOST, raw.as_slice());
    assert(in_iov@.take(in_iov_cnt as int) =~= in_iov@);
    assert(out_iov@.take(out_iov_cnt as int) =~= out_iov@);
    copy_iovs(mem, in_iov.as_slice(), in_iov_cnt as usize, true);
    copy_iovs(mem, out_iov.as_slice(), out_iov_cnt as usize, true);
    gw.p9pdu = P9pdu {
        queue_head,
        read_offset,
        write_offset,
        out_iov_cnt,
        in_iov_cnt,
        in_iov,
        out_iov,
    };
    Outcome::Done
}

/// Outcome of a 9P response and the memory it leaves: the bytes of all
/// descriptors of the kept request go from the host's image to the data
/// region. If one of them does not lie within the data region, nothing is
/// changed.
pub open spec fn handle_p9_response_spec(kept: P9View, m: Memory) -> (Outcome, Memory) {
    if all_valid(kept.in_iov, m.data.len()) && all_valid(kept.out_iov, m.data.len()) {
        (
            Outcome::Done,
            Memory {
                ctrl: m.ctrl,
                data: copy_iovs_spec(
                    copy_iovs_spec(m.data, m.host, kept.in_iov),
                    m.host,
                    kept.out_iov,
                ),
                host: m.host,
            },
        )
    } else {
        (Outcome::Dropped(DropReason::BadIov), m)
    }
}

/// Handles the host's response to the last 9P request: the bytes of all
/// descriptors of the request that the gateway kept are copied from the
/// host back to the data region. Only the gateway's own copy of the
/// request is read. If a descriptor does not lie within the data region,
/// nothing is changed.
pub fn handle_p9_response(gw: &Gateway, mem: &mut SharedMemory) -> (out: Outcome)
    requires
        gw.wf(),
        old(mem).wf(),
    ensures
        final(mem).wf(),
        out == handle_p9_response_spec(gw.p9pdu@, old(mem)@).0,
        final(mem).holds(handle_p9_response_spec(gw.p9pdu@, old(mem)@).1),
{
    let data_size: usize = mem.data.len();
    let p9pdu = &gw.p9pdu;
    if !check_iovs(p9pdu.in_iov.as_slice(), data_size) || !check_iovs(
        p9pdu.out_iov.as_slice(),
        data_size,
    ) {
        return Outcome::Dropped(DropReason::BadIov);
    }
    assert(p9pdu.in_iov@.take(p9pdu.in_iov_cnt as int) =~= p9pdu.in_iov@);
    assert(p9pdu.out_iov@.take(p9pdu.out_iov_cnt as int) =~= p9pdu.out_iov@);
    copy_iovs(mem, p9pdu.in_iov.as_slice(), p9pdu.in_iov_cnt as usize, false);
    copy_iovs(mem, p9pdu.out_iov.as_slice(), p9pdu.out_iov_cnt as usize, false);
    Outcome::Done
}

/// Outcome of a block response and the memory it leaves. A malformed
/// response is dropped and one that a module denies is reported as denied,
/// both without any change. Every other response is delivered: the data
/// goes from the host's image to the data region, the modules see it
/// there, and the status byte in the data region is set to success last.
pub open spec fn handle_blk_in_resp_spec(registry: &ModuleRegistry, m: Memory) -> (
    Outcome,
    Memory,
) {
    match blk_response(m.host, m.data.len()) {
        Err(reason) => (Outcome::Dropped(reason), m),
        Ok(req) => if blk_in_denied(registry, req) {
            (Outcome::Denied, m)
        } else {
            (
                Outcome::Done,
                Memory {
                    ctrl: m.ctrl,
                    data: overlay(
                        blk_in_hooks(registry, req, m.data, m.host).0,
                        req.status - VQ_START,
                        seq![0u8],
                    ),
                    host: with_tag_table(m.host, blk_in_hooks(registry, req, m.data, m.host).1),
                },
            )
        },
    }
}

/// Handles the host's response to a block read. The response in the
/// host's page is copied once and only the copy is read after that. A
/// malformed response is dropped, and one that a module denies is reported
/// as denied; in both cases nothing is changed. Every other response is
/// delivered as `process_blk_in` describes.
pub fn handle_blk_in_resp(registry: &ModuleRegistry, mem: &mut SharedMemory) -> (out: Outcome)
    requires
        old(mem).wf(),
    ensures
        final(mem).wf(),
        out == handle_blk_in_resp_spec(registry, old(mem)@).0,
        final(mem).holds(handle_blk_in_resp_spec(registry, old(mem)@).1),
{
    let data_size: usize = mem.data.len();
    let req = match snapshot_blk_in(mem.host, data_size) {
        Ok(req) => req,
        Err(reason) => {
            return Outcome::Dropped(reason);
        },
    };
    process_blk_in(registry, &req, mem)
}

/// Size of the buffers that stand in for a vsock transfer.
pub const VSOCK_BUF_SIZE: usize = 8192;

/// Number of bytes moved for a descriptor of `len` bytes: a descriptor too
/// long for the buffer is cut to 8190.
pub open spec fn vsock_copy_len(len: u64) -> nat {
    if len >= VSOCK_BUF_SIZE {
        8190
    } else {
        len as nat
    }
}

/// A buffer of `n` bytes, each of them `v`.
fn filled(v: u8, n: usize) -> (buf: Vec<u8>)
    ensures
        buf@.len() == n,
        forall|i: int| 0 <= i < n ==> buf@[i] == v,
{
    let mut buf: Vec<u8> = Vec::new();
    let mut i: usize = 0;
    while i < n
        invariant
            i <= n,
            buf@.len() == i,
            forall|j: int| 0 <= j < i ==> buf@[j] == v,
        decreases n - i,
    {
        buf.push(v);
        i += 1;
    }
    buf
}

/// Stands in for a vsock transfer: takes a private copy of the request in
/// the control region at `cvm_addr`, and moves as many bytes between two
/// buffers of its own as the descriptors ask for. Shared memory is only
/// read. A request that announces more descriptors than a virtqueue holds,
/// or none, is dropped.
pub fn __handle_vsock(mem: &SharedMemory, cvm_addr: usize) -> (out: Outcome)
    requires
        mem.wf(),
        cvm_addr + NET_CTRL_SIZE <= VQ_CTRL_SIZE,
    ensures
        match net_request(mem.ctrl@, cvm_addr as int) {
            Err(reason) => out == Outcome::Dropped(reason),
            Ok(iovs) => out == Outcome::Done,
        },
{
    let req = match snapshot_net(mem.ctrl, cvm_addr) {
        Ok(req) => req,
        Err(reason) => {
            return Outcome::Dropped(reason);
        },
    };
    let mut dest_buffer: Vec<u8> = filled(2, VSOCK_BUF_SIZE);
    let src_buffer: Vec<u8> = filled(1, VSOCK_BUF_SIZE);
    let n: usize = req.out_cnt as usize;
    let mut i: usize = 0;
    while i < n
        invariant
            n == req.iovs@.len(),
            i <= n,
            dest_buffer@.len() == VSOCK_BUF_SIZE,
            src_buffer@.len() == VSOCK_BUF_SIZE,
        decreases n - i,
    {
        let len: usize = if req.iovs[i].iov_len >= VSOCK_BUF_SIZE as u64 {
            8190
        } else {
            req.iovs[i].iov_len as usize
        };
        assert(len == vsock_copy_len(req.iovs@[i as int].iov_len));
        copy_range(dest_buffer.as_mut_slice(), 0, src_buffer.as_slice(), 0, len);
        i += 1;
    }
    Outcome::Done
}

/// Stands in for a vsock transmit request.
pub fn handle_vsock_tx(mem: &SharedMemory) -> (out: Outcome)
    requires
        mem.wf(),
    ensures
        match net_request(mem.ctrl@, VQ_CTRL_VSOCK_TX as int) {
            Err(reason) => out == Outcome::Dropped(reason),
            Ok(iovs) => out == Outcome::Done,
        },
{
    __handle_vsock(mem, VQ_CTRL_VSOCK_TX)
}

/// Stands in for a vsock receive request.
pub fn handle_vsock_rx(mem: &SharedMemory) -> (out: Outcome)
    requires
        mem.wf(),
    ensures
        match net_request(mem.ctrl@, VQ_CTRL_VSOCK_RX as int) {
            Err(reason) => out == Outcome::Dropped(reason),
            Ok(iovs) => out == Outcome::Done,
        },
{
    __handle_vsock(mem, VQ_CTRL_VSOCK_RX)
}

/// Size of the unit to which the data region is aligned.
pub const ALIGN_2MB: u64 = 0x20_0000;

/// The next address after `addr` that is a multiple of 2 MiB.
pub fn align_to_2mb(addr: u64) -> (aligned: u64)
    requires
        addr + ALIGN_2MB <= u64::MAX,
    ensures
        aligned % ALIGN_2MB == 0,
        addr < aligned <= addr + ALIGN_2MB,
        aligned == addr + (ALIGN_2MB - addr % ALIGN_2MB),
{
    let align_min: u64 = ALIGN_2MB;
    let remainder: u64 = addr % align_min;
    let aligned_addr: u64 = addr + (align_min - remainder);
    aligned_addr
}

/// Size of the data channel that is published to the host.
pub const VQ_DATA_CHANNEL_SIZE: u64 = 0x100_0000;

/// Where the shared regions lie in the realm: the data region and the
/// sub-channels of the control region.
#[derive(Clone, Copy, Debug)]
pub struct VqLayout {
    pub data: u64,
    pub ctrl: u64,
    pub ctrl_9p: u64,
    pub ctrl_vsock_tx: u64,
    pub ctrl_vsock_rx: u64,
    pub ctrl_net_tx: u64,
    pub ctrl_net_rx: u64,
    pub ctrl_blk: u64,
}

/// A shared channel to publish: its number, its realm address and its
/// size.
#[derive(Clone, Copy, Debug)]
pub struct SharedChannel {
    pub id: u64,
    pub ipa: u64,
    pub size: u64,
}

/// Lays out the shared regions in the two arenas at `data_ptr` and
/// `ctrl_ptr`: the data region starts at the next multiple of 2 MiB after
/// `data_ptr`, the sub-channels lie at their fixed offsets from `ctrl_ptr`.
/// Returns the layout and the two channels to publish, data first.
pub fn create_memory_cvm_shared(data_ptr: u64, ctrl_ptr: u64) -> (r: (
    VqLayout,
    SharedChannel,
    SharedChannel,
))
    requires
        data_ptr + ALIGN_2MB <= u64::MAX,
        ctrl_ptr + VQ_CTRL_SIZE <= u64::MAX,
    ensures
        r.0.data == data_ptr + (ALIGN_2MB - data_ptr % ALIGN_2MB),
        r.0.data % ALIGN_2MB == 0,
        r.0.ctrl == ctrl_ptr,
        r.0.ctrl_9p == ctrl_ptr + VQ_CTRL_9P,
        r.0.ctrl_vsock_tx == ctrl_ptr + VQ_CTRL_VSOCK_TX,
        r.0.ctrl_vsock_rx == ctrl_ptr + VQ_CTRL_VSOCK_RX,
        r.0.ctrl_net_tx == ctrl_ptr + VQ_CTRL_NET_TX,
        r.0.ctrl_net_rx == ctrl_ptr + VQ_CTRL_NET_RX,
        r.0.ctrl_blk == ctrl_ptr + VQ_CTRL_BLK,
        r.1 == (SharedChannel { id: 0, ipa: r.0.data, size: VQ_DATA_CHANNEL_SIZE }),
        r.2 == (SharedChannel { id: 1, ipa: ctrl_ptr, size: VQ_CTRL_SIZE as u64 }),
{
    let aligned_ptr: u64 = align_to_2mb(data_ptr);
    let layout = VqLayout {
        data: aligned_ptr,
        ctrl: ctrl_ptr,
        ctrl_9p: ctrl_ptr + VQ_CTRL_9P as u64,
        ctrl_vsock_tx: ctrl_ptr + VQ_CTRL_VSOCK_TX as u64,
        ctrl_vsock_rx: ctrl_ptr + VQ_CTRL_VSOCK_RX as u64,
        ctrl_net_tx: ctrl_ptr + VQ_CTRL_NET_TX as u64,
        ctrl_net_rx: ctrl_ptr + VQ_CTRL_NET_RX as u64,
        ctrl_blk: ctrl_ptr + VQ_CTRL_BLK as u64,
    };
    (
        layout,
        SharedChannel { id: 0, ipa: aligned_ptr, size: VQ_DATA_CHANNEL_SIZE },
        SharedChannel { id: 1, ipa: ctrl_ptr, size: VQ_CTRL_SIZE as u64 },
    )
}

/// A block response never changes the host window.
pub proof fn lemma_blk_in_resp_keeps_host(registry: &ModuleRegistry, m: Memory)
    requires
        m.host.len() >= VQ_CTRL_BLK_AES_TAG_HOST,
    ensures
        handle_blk_in_resp_spec(registry, m).1.host == m.host,
{
    match blk_response(m.host, m.data.len()) {
        Ok(req) => {
            lemma_blk_read_segments_keep_table(
                registry.modules@,
                req.sector,
                req.iovs,
                req.iovs.len(),
                copy_iovs_spec(m.data, m.host, req.iovs),
                tag_table(m.host),
            );
            assert(with_tag_table(m.host, tag_table(m.host)) =~= m.host);
        },
        Err(_) => {},
    }
}

/// A response to a 9P request reads the request that the gateway kept and
/// nothing of the control region: whatever the guest wrote there since,
/// outcome and memory are the same.
pub proof fn lemma_p9_response_ignores_ctrl(kept: P9View, m1: Memory, m2: Memory)
    requires
        m1.data == m2.data,
        m1.host == m2.host,
    ensures
        handle_p9_response_spec(kept, m1).0 == handle_p9_response_spec(kept, m2).0,
        handle_p9_response_spec(kept, m1).1.data == handle_p9_response_spec(kept, m2).1.data,
        handle_p9_response_spec(kept, m1).1.host == handle_p9_response_spec(kept, m2).1.host,
{
}

/// The host gets the descriptors of a transmit request as the guest
/// queued them, count and lengths included, whatever the modules did to
/// the frame. (The data region must end before the host's transmit page,
/// so that no copied byte falls into the page.)
pub proof fn lemma_net_tx_host_gets_descriptors(registry: &ModuleRegistry, m: Memory)
    requires
        m.host.len() >= VQ_CTRL_BLK_AES_TAG_HOST,
        m.data.len() <= VQ_CTRL_NET_TX_HOST,
        handle_net_tx_spec(registry, m).0 == Outcome::Done,
    ensures
        net_request(m.ctrl, VQ_CTRL_NET_TX as int) is Ok,
        ({
            let iovs = net_request(m.ctrl, VQ_CTRL_NET_TX as int)->Ok_0;
            let after = handle_net_tx_spec(registry, m).1.host;
            &&& u32_at(after, VQ_CTRL_NET_TX_HOST as int) == iovs.len()
            &&& iovs_at(after, VQ_CTRL_NET_TX_HOST + NET_HDR_SIZE, iovs.len()) == iovs
        }),
{
    lemma_auto_spec_u32_to_from_le_bytes();
    let iovs = net_request(m.ctrl, VQ_CTRL_NET_TX as int)->Ok_0;
    let n = iovs.len();
    let at = VQ_CTRL_NET_TX_HOST as int;
    let after = handle_net_tx_spec(registry, m).1.host;
    let counted = overlay(m.host, at, spec_u32_to_le_bytes(n as u32));
    let page = net_tx_page(m.host, iovs);
    lemma_write_iovs_len(counted, at + NET_HDR_SIZE, iovs, n);
    assert forall|i: int| at <= i < page.len() implies after[i] == page[i] by {
        if covered(iovs, i) {
            let k = choose|k: int| 0 <= k < iovs.len() && (#[trigger] iovs[k]).covers(i);
            assert(iovs[k].valid(m.data.len()));
        }
    }
    assert(span(after, at, 4) =~= spec_u32_to_le_bytes(n as u32)) by {
        assert forall|j: int| 0 <= j < 4 implies span(after, at, 4)[j] == spec_u32_to_le_bytes(
            n as u32,
        )[j] by {
            lemma_write_iovs_at(counted, at + NET_HDR_SIZE, iovs, n, at + j);
        }
    }
    lemma_stored_iovs_read_back(counted, at + NET_HDR_SIZE, iovs, n);
    let stored = iovs_at(page, at + NET_HDR_SIZE, n);
    let seen = iovs_at(after, at + NET_HDR_SIZE, n);
    assert forall|k: int| 0 <= k < n implies #[trigger] seen[k] == stored[k] by {
        let p = at + NET_HDR_SIZE + IOVEC_SIZE * k;
        assert(span(after, p, 8) =~= span(page, p, 8));
        assert(span(after, p + 8, 8) =~= span(page, p + 8, 8));
    }
    assert(seen =~= stored);
    assert(iovs.take(n as int) =~= iovs);
}

} // verus!
