//! Block requests and responses: taking a request apart, letting the
//! modules see the data, and carrying it across.

use crate::mem::{overlay, read_u32, read_u64, span, u32_at, u64_at, write_u32, write_u64};
use crate::module::{
    blk_chain, lemma_blk_read_keeps_table, Module, ModuleRegistry, monitor_blk_read,
    monitor_blk_write,
};
use crate::virtio::{
    copy_iovs, DropReason, IOVec, IOVEC_SIZE, Outcome, SharedMemory, VIRTQUEUE_NUM,
    VQ_CTRL_BLK_AES_TAG_HOST, VQ_CTRL_BLK_HOST, VQ_CTRL_BLK_IN_HOST, VQ_START,
};
use crate::virtio::iov::{
    all_valid, append_span, check_iovs, copy_iovs_spec, iovs_at, lemma_write_iovs_at,
    lemma_write_iovs_len, read_iovs, write_iovs, write_iovs_spec,
};
use vstd::bytes::{
    lemma_auto_spec_u32_to_from_le_bytes, lemma_auto_spec_u64_to_from_le_bytes,
    spec_u32_to_le_bytes, spec_u64_to_le_bytes,
};
use vstd::prelude::*;

verus! {

/// The table of sector tags: the host window from
/// `VQ_CTRL_BLK_AES_TAG_HOST` on.
pub open spec fn tag_table(host: Seq<u8>) -> Seq<u8> {
    host.subrange(VQ_CTRL_BLK_AES_TAG_HOST as int, host.len() as int)
}

/// The host window with the table of sector tags replaced.
pub open spec fn with_tag_table(host: Seq<u8>, table: Seq<u8>) -> Seq<u8> {
    host.subrange(0, VQ_CTRL_BLK_AES_TAG_HOST as int) + table
}

/// Data region and tag table after the modules' block hooks ran on the
/// bytes of each of the first `n` descriptors in turn.
pub open spec fn blk_segments(
    mods: Seq<Module>,
    is_write: bool,
    sector: u64,
    iovs: Seq<IOVec>,
    n: nat,
    data: Seq<u8>,
    table: Seq<u8>,
) -> (Seq<u8>, Seq<u8>)
    decreases n,
{
    if n == 0 {
        (data, table)
    } else {
        let prev = blk_segments(mods, is_write, sector, iovs, (n - 1) as nat, data, table);
        let iov = iovs[n - 1];
        let res = blk_chain(
            mods,
            mods.len(),
            is_write,
            span(prev.0, iov.offset(), iov.iov_len as int),
            sector,
            prev.1,
        );
        (overlay(prev.0, iov.offset(), res.0), res.1)
    }
}

/// Runs the modules' block hooks on `len` bytes of the data region at
/// `off`, with the table of sector tags in the host window.
fn blk_hooks_on(
    registry: &ModuleRegistry,
    is_write: bool,
    mem: &mut SharedMemory,
    off: usize,
    len: usize,
    sector: u64,
)
    requires
        old(mem).wf(),
        off + len <= old(mem).data@.len(),
        registry.permits_blk(is_write),
    ensures
        final(mem).wf(),
        final(mem).ctrl@ == old(mem).ctrl@,
        final(mem).data@.len() == old(mem).data@.len(),
        final(mem).host@.len() == old(mem).host@.len(),
        ({
            let res = blk_chain(
                registry.modules@,
                registry.modules@.len(),
                is_write,
                span(old(mem).data@, off as int, len as int),
                sector,
                tag_table(old(mem).host@),
            );
            &&& final(mem).data@ == overlay(old(mem).data@, off as int, res.0)
            &&& final(mem).host@ == with_tag_table(old(mem).host@, res.1)
        }),
{
    let (_head, rest) = mem.data.split_at_mut(off);
    let (segment, _tail) = rest.split_at_mut(len);
    let (_pages, table) = mem.host.split_at_mut(VQ_CTRL_BLK_AES_TAG_HOST);
    assert(segment@ =~= span(old(mem).data@, off as int, len as int));
    if is_write {
        let _ = monitor_blk_write(registry, segment, sector, table);
    } else {
        let _ = monitor_blk_read(registry, segment, sector, table);
    }
    proof {
        let res = blk_chain(
            registry.modules@,
            registry.modules@.len(),
            is_write,
            span(old(mem).data@, off as int, len as int),
            sector,
            tag_table(old(mem).host@),
        );
        assert(mem.data@ =~= overlay(old(mem).data@, off as int, res.0));
        assert(mem.host@ =~= with_tag_table(old(mem).host@, res.1));
    }
}

/// Request type of a block write.
pub const VIRTIO_BLK_T_OUT: u32 = 1;

/// A block request holds fewer descriptors than this.
pub const BLK_MAX_IOVS: u64 = 16;

/// Size of the header that leads a block request.
pub const BLK_HDR_SIZE: usize = 16;

/// A block request as the guest queued it: device-readable descriptors
/// first, device-writable ones after them.
pub struct BlockReq {
    pub out_cnt: u32,
    pub in_cnt: u32,
    pub iovs: Vec<IOVec>,
}

/// The header that leads a block request.
#[derive(Clone, Copy, Debug)]
pub struct VirtioBlkOuthdr {
    pub blk_type: u32,
    pub ioprio: u32,
    pub sector: u64,
}

/// A block request as the host gets it: header fields, the guest address
/// of the status byte, and the descriptors of the data.
pub struct BlockReqHost {
    pub blk_type: u32,
    pub cnt: u32,
    pub sector: u64,
    pub status: u64,
    pub iovs: Vec<IOVec>,
}

impl BlockReqHost {
    /// The request fits a data region of `data_size` bytes: it holds as
    /// many descriptors as it counts, at most a virtqueue's worth, all of
    /// them and the status byte within the region.
    pub open spec fn wf(&self, data_size: nat) -> bool {
        &&& self.cnt == self.iovs@.len()
        &&& self.cnt <= VIRTQUEUE_NUM
        &&& all_valid(self.iovs@, data_size)
        &&& VQ_START <= self.status < VQ_START + data_size
    }

    /// The request without its representation.
    pub open spec fn plan(&self) -> BlkPlan {
        BlkPlan {
            blk_type: self.blk_type,
            sector: self.sector,
            status: self.status,
            iovs: self.iovs@,
        }
    }
}

/// The walk over the device-readable descriptors that collects the request
/// header: the descriptors as trimmed so far, the one the walk stands at,
/// how many device-readable ones are left, how many header bytes are still
/// wanted, and the header bytes collected.
pub struct HeaderWalk {
    pub iovs: Seq<IOVec>,
    pub idx: int,
    pub iovcount: int,
    pub need: int,
    pub hdr: Seq<u8>,
}

/// Where the walk ends: it takes header bytes from one descriptor after the
/// other, moving each descriptor past the bytes taken, and steps over every
/// descriptor it empties, until the header is complete or the
/// device-readable descriptors run out.
pub open spec fn take_header(st: HeaderWalk, data: Seq<u8>) -> HeaderWalk
    decreases st.iovcount,
{
    if st.need <= 0 || st.iovcount <= 0 {
        st
    } else {
        let iov = st.iovs[st.idx];
        let copy = if st.need <= iov.iov_len {
            st.need
        } else {
            iov.iov_len as int
        };
        let rest = IOVec {
            iov_base: (iov.iov_base + copy) as u64,
            iov_len: (iov.iov_len - copy) as u64,
        };
        let iovs = st.iovs.update(st.idx, rest);
        let hdr = st.hdr + span(data, iov.offset(), copy);
        if rest.iov_len == 0 {
            take_header(
                HeaderWalk {
                    iovs,
                    idx: st.idx + 1,
                    iovcount: st.iovcount - 1,
                    need: st.need - copy,
                    hdr,
                },
                data,
            )
        } else {
            HeaderWalk { iovs, idx: st.idx, iovcount: st.iovcount, need: st.need - copy, hdr }
        }
    }
}

/// Index of the last descriptor in `[lo, hi)` that is not empty.
pub open spec fn last_nonempty(iovs: Seq<IOVec>, lo: int, hi: int) -> Option<int>
    decreases hi - lo,
{
    if hi <= lo {
        None
    } else if iovs[hi - 1].iov_len != 0 {
        Some(hi - 1)
    } else {
        last_nonempty(iovs, lo, hi - 1)
    }
}

/// What a block request comes to once header and status byte are taken
/// out of its descriptors.
pub struct BlkPlan {
    pub blk_type: u32,
    pub sector: u64,
    pub status: u64,
    pub iovs: Seq<IOVec>,
}

/// Takes a block request apart. The header is the first 16 bytes that the
/// device-readable descriptors describe; the status byte is the last byte
/// of the last descriptor that is not empty; what is left of the
/// descriptors, from the one the header walk stopped at, describes the
/// data. The request is refused if a descriptor lies outside the data
/// region, if the header is short, or if there is no room for the status
/// byte.
pub open spec fn plan_blk(iovs: Seq<IOVec>, out_cnt: nat, in_cnt: nat, data: Seq<u8>) -> Result<
    BlkPlan,
    DropReason,
> {
    if !all_valid(iovs, data.len()) {
        Err(DropReason::BadIov)
    } else {
        let st = take_header(
            HeaderWalk {
                iovs,
                idx: 0,
                iovcount: out_cnt as int,
                need: BLK_HDR_SIZE as int,
                hdr: Seq::empty(),
            },
            data,
        );
        if st.need > 0 {
            Err(DropReason::ShortHeader)
        } else {
            let total = st.iovcount + in_cnt;
            match last_nonempty(st.iovs, st.idx, st.idx + total) {
                None => Err(DropReason::NoStatus),
                Some(at) => {
                    let iov = st.iovs[at];
                    let shrunk = IOVec {
                        iov_base: iov.iov_base,
                        iov_len: (iov.iov_len - 1) as u64,
                    };
                    let cnt = if shrunk.iov_len == 0 {
                        total - 1
                    } else {
                        total
                    };
                    Ok(
                        BlkPlan {
                            blk_type: outhdr_of(st.hdr).blk_type,
                            sector: outhdr_of(st.hdr).sector,
                            status: (iov.iov_base + iov.iov_len - 1) as u64,
                            iovs: st.iovs.update(at, shrunk).subrange(st.idx, st.idx + cnt),
                        },
                    )
                },
            }
        }
    }
}

/// Takes a private copy of the block request that the host page holds. A
/// request that announces 16 descriptors or more is refused.
pub fn snapshot_blk(host: &[u8]) -> (r: Result<BlockReq, DropReason>)
    requires
        host@.len() >= VQ_CTRL_BLK_AES_TAG_HOST,
    ensures
        match r {
            Ok(req) => {
                &&& req.out_cnt + req.in_cnt < BLK_MAX_IOVS
                &&& req.out_cnt == u32_at(host@, VQ_CTRL_BLK_HOST as int)
                &&& req.in_cnt == u32_at(host@, VQ_CTRL_BLK_HOST + 4)
                &&& req.iovs@ == iovs_at(
                    host@,
                    VQ_CTRL_BLK_HOST + 8,
                    (req.out_cnt + req.in_cnt) as nat,
                )
            },
            Err(reason) => {
                &&& reason == DropReason::TooManyIovs
                &&& u32_at(host@, VQ_CTRL_BLK_HOST as int) + u32_at(host@, VQ_CTRL_BLK_HOST + 4)
                    >= BLK_MAX_IOVS
            },
        },
{
    let out_cnt: u32 = read_u32(host, VQ_CTRL_BLK_HOST);
    let in_cnt: u32 = read_u32(host, VQ_CTRL_BLK_HOST + 4);
    if out_cnt as u64 + in_cnt as u64 >= BLK_MAX_IOVS {
        return Err(DropReason::TooManyIovs);
    }
    let iovs = read_iovs(host, VQ_CTRL_BLK_HOST + 8, (out_cnt + in_cnt) as usize);
    Ok(BlockReq { out_cnt, in_cnt, iovs })
}

/// The header that 16 bytes hold: type, priority and sector, all
/// little-endian.
pub open spec fn outhdr_of(hdr: Seq<u8>) -> VirtioBlkOuthdr {
    VirtioBlkOuthdr { blk_type: u32_at(hdr, 0), ioprio: u32_at(hdr, 4), sector: u64_at(hdr, 8) }
}

/// Reads the request header out of its 16 bytes.
pub fn parse_outhdr(hdr: &[u8]) -> (out_hdr: VirtioBlkOuthdr)
    requires
        hdr@.len() == BLK_HDR_SIZE,
    ensures
        out_hdr == outhdr_of(hdr@),
{
    VirtioBlkOuthdr {
        blk_type: read_u32(hdr, 0),
        ioprio: read_u32(hdr, 4),
        sector: read_u64(hdr, 8),
    }
}

/// Takes a block request apart: reads the header out of the data region,
/// finds the status byte, and returns the request in the host's form with
/// the descriptors of the data.
pub fn parse_blk(req: &BlockReq, data: &[u8]) -> (r: Result<BlockReqHost, DropReason>)
    requires
        req.out_cnt + req.in_cnt < BLK_MAX_IOVS,
        req.iovs@.len() == req.out_cnt + req.in_cnt,
        VQ_START + data@.len() <= u64::MAX,
    ensures
        match r {
            Ok(host_req) => {
                &&& plan_blk(req.iovs@, req.out_cnt as nat, req.in_cnt as nat, data@) == Ok::<
                    BlkPlan,
                    DropReason,
                >(host_req.plan())
                &&& host_req.wf(data@.len())
            },
            Err(reason) => plan_blk(req.iovs@, req.out_cnt as nat, req.in_cnt as nat, data@)
                == Err::<BlkPlan, DropReason>(reason),
        },
{
    let data_size: usize = data.len();
    let total: usize = (req.out_cnt + req.in_cnt) as usize;
    if !check_iovs(req.iovs.as_slice(), data_size) {
        return Err(DropReason::BadIov);
    }
    let mut iovs: Vec<IOVec> = Vec::new();
    let mut c: usize = 0;
    while c < total
        invariant
            total == req.iovs@.len(),
            c <= total,
            iovs@ == req.iovs@.take(c as int),
        decreases total - c,
    {
        iovs.push(req.iovs[c]);
        c += 1;
        assert(iovs@ =~= req.iovs@.take(c as int));
    }
    assert(iovs@ =~= req.iovs@);
    let mut hdr: Vec<u8> = Vec::new();
    let mut need: usize = BLK_HDR_SIZE;
    let mut idx: usize = 0;
    let mut iovcount: usize = req.out_cnt as usize;
    let ghost start = HeaderWalk {
        iovs: req.iovs@,
        idx: 0,
        iovcount: req.out_cnt as int,
        need: BLK_HDR_SIZE as int,
        hdr: Seq::empty(),
    };
    assert(hdr@ =~= Seq::<u8>::empty());
    while need > 0 && iovcount > 0
        invariant
            data_size == data@.len(),
            VQ_START + data_size <= u64::MAX,
            total == req.out_cnt + req.in_cnt,
            total < BLK_MAX_IOVS,
            iovs@.len() == total,
            idx + iovcount == req.out_cnt,
            need <= BLK_HDR_SIZE,
            hdr@.len() == BLK_HDR_SIZE - need,
            forall|k: int| idx <= k < total ==> (#[trigger] iovs@[k]).valid(data_size as nat),
            take_header(
                HeaderWalk {
                    iovs: iovs@,
                    idx: idx as int,
                    iovcount: iovcount as int,
                    need: need as int,
                    hdr: hdr@,
                },
                data@,
            ) == take_header(start, data@),
        decreases iovcount + need,
    {
        let iov = iovs[idx];
        assert(iovs@[idx as int].valid(data_size as nat));
        let off: usize = (iov.iov_base - VQ_START) as usize;
        let copy: usize = if need as u64 <= iov.iov_len {
            need
        } else {
            iov.iov_len as usize
        };
        append_span(&mut hdr, data, off, copy);
        let rest = IOVec {
            iov_base: iov.iov_base + copy as u64,
            iov_len: iov.iov_len - copy as u64,
        };
        iovs.set(idx, rest);
        need -= copy;
        if rest.iov_len == 0 {
            idx += 1;
            iovcount -= 1;
        }
    }
    if need > 0 {
        return Err(DropReason::ShortHeader);
    }
    let ghost st = HeaderWalk {
        iovs: iovs@,
        idx: idx as int,
        iovcount: iovcount as int,
        need: need as int,
        hdr: hdr@,
    };
    assert(st == take_header(start, data@));
    let total2: usize = iovcount + req.in_cnt as usize;
    let mut last: usize = total2;
    while last > 0 && iovs[idx + last - 1].iov_len == 0
        invariant
            iovs@.len() == total,
            idx + total2 == total,
            last <= total2,
            last_nonempty(iovs@, idx as int, idx + last) == last_nonempty(
                iovs@,
                idx as int,
                idx + total2,
            ),
        decreases last,
    {
        last -= 1;
    }
    if last == 0 {
        return Err(DropReason::NoStatus);
    }
    let at: usize = idx + last - 1;
    assert(last_nonempty(iovs@, idx as int, idx + total2) == Some(at as int));
    let iov = iovs[at];
    assert(iovs@[at as int].valid(data_size as nat));
    let shrunk = IOVec { iov_base: iov.iov_base, iov_len: iov.iov_len - 1 };
    let status: u64 = iov.iov_base + shrunk.iov_len;
    iovs.set(at, shrunk);
    let cnt: usize = if shrunk.iov_len == 0 {
        total2 - 1
    } else {
        total2
    };
    let mut left: Vec<IOVec> = Vec::new();
    let mut k: usize = 0;
    while k < cnt
        invariant
            iovs@.len() == total,
            idx + cnt <= total,
            k <= cnt,
            left@ == iovs@.subrange(idx as int, idx + k),
        decreases cnt - k,
    {
        left.push(iovs[idx + k]);
        k += 1;
        assert(left@ =~= iovs@.subrange(idx as int, idx + k));
    }
    let out_hdr = parse_outhdr(hdr.as_slice());
    assert(all_valid(left@, data_size as nat)) by {
        assert forall|j: int| 0 <= j < left@.len() implies (#[trigger] left@[j]).valid(
            data_size as nat,
        ) by {
            assert(left@[j] == iovs@[idx + j]);
            if idx + j != at {
                assert(iovs@[idx + j] == st.iovs[idx + j]);
            }
        }
    }
    Ok(
        BlockReqHost {
            blk_type: out_hdr.blk_type,
            cnt: cnt as u32,
            sector: out_hdr.sector,
            status,
            iovs: left,
        },
    )
}

/// Whether a module stops the request: it is a write with data, and some
/// module denies block writes.
pub open spec fn blk_denied(registry: &ModuleRegistry, req: BlkPlan) -> bool {
    req.blk_type == VIRTIO_BLK_T_OUT && req.iovs.len() > 0 && !registry.permits_blk(true)
}

/// The host window with the request stored in the page at `at`: type,
/// count, sector, status address, then the descriptors.
pub open spec fn blk_page(host: Seq<u8>, at: int, req: BlkPlan) -> Seq<u8> {
    write_iovs_spec(
        overlay(
            overlay(
                overlay(
                    overlay(host, at, spec_u32_to_le_bytes(req.blk_type)),
                    at + 4,
                    spec_u32_to_le_bytes(req.iovs.len() as u32),
                ),
                at + 8,
                spec_u64_to_le_bytes(req.sector),
            ),
            at + 16,
            spec_u64_to_le_bytes(req.status),
        ),
        at + 24,
        req.iovs,
        req.iovs.len(),
    )
}

/// Data region and tag table after the modules saw the data of the
/// request: the write hooks ran on it if the request is a write, and
/// nothing happened otherwise.
pub open spec fn blk_request_hooks(
    registry: &ModuleRegistry,
    req: BlkPlan,
    data: Seq<u8>,
    host: Seq<u8>,
) -> (Seq<u8>, Seq<u8>) {
    if req.blk_type == VIRTIO_BLK_T_OUT {
        blk_segments(
            registry.modules@,
            true,
            req.sector,
            req.iovs,
            req.iovs.len(),
            data,
            tag_table(host),
        )
    } else {
        (data, tag_table(host))
    }
}

/// The host window after a block request was carried across: the tags that
/// the modules stored, the request in the host's block page, the data in
/// the image of the data region, and last the status byte set to success.
pub open spec fn blk_host_after(
    registry: &ModuleRegistry,
    req: BlkPlan,
    data: Seq<u8>,
    host: Seq<u8>,
) -> Seq<u8> {
    let hooked = blk_request_hooks(registry, req, data, host);
    overlay(
        copy_iovs_spec(
            blk_page(with_tag_table(host, hooked.1), VQ_CTRL_BLK_HOST as int, req),
            hooked.0,
            req.iovs,
        ),
        req.status - VQ_START,
        seq![0u8],
    )
}

/// Runs the modules' block hooks on the data of each descriptor in turn.
fn blk_hooks_all(
    registry: &ModuleRegistry,
    is_write: bool,
    iovs: &[IOVec],
    sector: u64,
    mem: &mut SharedMemory,
)
    requires
        old(mem).wf(),
        all_valid(iovs@, old(mem).data@.len()),
        registry.permits_blk(is_write),
    ensures
        final(mem).wf(),
        final(mem).ctrl@ == old(mem).ctrl@,
        final(mem).data@.len() == old(mem).data@.len(),
        final(mem).host@.len() == old(mem).host@.len(),
        ({
            let res = blk_segments(
                registry.modules@,
                is_write,
                sector,
                iovs@,
                iovs@.len(),
                old(mem).data@,
                tag_table(old(mem).host@),
            );
            &&& final(mem).data@ == res.0
            &&& final(mem).host@ == with_tag_table(old(mem).host@, res.1)
        }),
{
    let n: usize = iovs.len();
    let data_size: usize = mem.data.len();
    let mut i: usize = 0;
    assert(mem.host@ =~= with_tag_table(mem.host@, tag_table(mem.host@)));
    while i < n
        invariant
            mem.wf(),
            mem.ctrl@ == old(mem).ctrl@,
            n == iovs@.len(),
            data_size == mem.data@.len(),
            data_size == old(mem).data@.len(),
            mem.host@.len() == old(mem).host@.len(),
            all_valid(iovs@, data_size as nat),
            registry.permits_blk(is_write),
            i <= n,
            ({
                let res = blk_segments(
                    registry.modules@,
                    is_write,
                    sector,
                    iovs@,
                    i as nat,
                    old(mem).data@,
                    tag_table(old(mem).host@),
                );
                &&& mem.data@ == res.0
                &&& mem.host@ == with_tag_table(old(mem).host@, res.1)
            }),
        decreases n - i,
    {
        let iov = iovs[i];
        assert(iovs@[i as int].valid(data_size as nat));
        let ghost before = mem.host@;
        match iov.locate(data_size) {
            Some((off, len)) => {
                blk_hooks_on(registry, is_write, mem, off, len, sector);
            },
            None => {},
        }
        proof {
            let prev = blk_segments(
                registry.modules@,
                is_write,
                sector,
                iovs@,
                i as nat,
                old(mem).data@,
                tag_table(old(mem).host@),
            );
            assert(tag_table(before) =~= prev.1);
            let res = blk_segments(
                registry.modules@,
                is_write,
                sector,
                iovs@,
                (i + 1) as nat,
                old(mem).data@,
                tag_table(old(mem).host@),
            );
            assert(mem.host@ =~= with_tag_table(old(mem).host@, res.1));
        }
        i += 1;
    }
}

/// Carries a parsed block request across: lets the modules see the data of
/// a write, stores the request in the host's block page, copies the data to
/// the host, and sets the status byte in the host's image to success.
///
/// Where a module denies the request, nothing is changed.
pub fn process_blk(registry: &ModuleRegistry, req: &BlockReqHost, mem: &mut SharedMemory) -> (out:
    Outcome)
    requires
        old(mem).wf(),
        req.wf(old(mem).data@.len()),
    ensures
        final(mem).wf(),
        final(mem).ctrl@ == old(mem).ctrl@,
        blk_denied(registry, req.plan()) ==> out == Outcome::Denied && final(mem).data@ == old(
            mem).data@ && final(mem).host@ == old(mem).host@,
        !blk_denied(registry, req.plan()) ==> out == Outcome::Done && final(mem).data@
            == blk_request_hooks(registry, req.plan(), old(mem).data@, old(mem).host@).0
            && final(mem).host@ == blk_host_after(
            registry,
            req.plan(),
            old(mem).data@,
            old(mem).host@,
        ),
{
    let cnt: usize = req.cnt as usize;
    if req.blk_type == VIRTIO_BLK_T_OUT {
        if cnt > 0 && !registry.permits_blk_write() {
            return Outcome::Denied;
        }
        if cnt > 0 {
            blk_hooks_all(registry, true, req.iovs.as_slice(), req.sector, mem);
        } else {
            assert(mem.host@ =~= with_tag_table(mem.host@, tag_table(mem.host@)));
        }
    } else {
        assert(mem.host@ =~= with_tag_table(mem.host@, tag_table(mem.host@)));
    }
    let ghost hooked = blk_request_hooks(registry, req.plan(), old(mem).data@, old(mem).host@);
    assert(mem.data@ == hooked.0);
    assert(mem.host@ == with_tag_table(old(mem).host@, hooked.1));
    write_u32(mem.host, VQ_CTRL_BLK_HOST, req.blk_type);
    write_u32(mem.host, VQ_CTRL_BLK_HOST + 4, req.cnt);
    write_u64(mem.host, VQ_CTRL_BLK_HOST + 8, req.sector);
    write_u64(mem.host, VQ_CTRL_BLK_HOST + 16, req.status);
    write_iovs(mem.host, VQ_CTRL_BLK_HOST + 24, req.iovs.as_slice(), cnt);
    assert(req.iovs@.take(cnt as int) =~= req.iovs@);
    copy_iovs(mem, req.iovs.as_slice(), cnt, true);
    let status_off: usize = (req.status - VQ_START) as usize;
    let ghost before = mem.host@;
    mem.host[status_off] = 0x00;
    assert(mem.host@ =~= overlay(before, status_off as int, seq![0u8]));
    Outcome::Done
}

/// The outcome of taking a private copy of the host's block page and
/// taking the request in it apart.
pub open spec fn blk_request(data: Seq<u8>, host: Seq<u8>) -> Result<BlkPlan, DropReason> {
    let out_cnt = u32_at(host, VQ_CTRL_BLK_HOST as int);
    let in_cnt = u32_at(host, VQ_CTRL_BLK_HOST + 4);
    if out_cnt + in_cnt >= BLK_MAX_IOVS {
        Err(DropReason::TooManyIovs)
    } else {
        plan_blk(
            iovs_at(host, VQ_CTRL_BLK_HOST + 8, (out_cnt + in_cnt) as nat),
            out_cnt as nat,
            in_cnt as nat,
            data,
        )
    }
}

/// The block response in the host's response page: type, count, sector,
/// status address, then the descriptors. It is refused if it counts more
/// descriptors than a virtqueue holds, or if a descriptor or the status
/// byte lies outside the data region.
pub open spec fn blk_response(host: Seq<u8>, data_size: nat) -> Result<BlkPlan, DropReason> {
    let cnt = u32_at(host, VQ_CTRL_BLK_IN_HOST + 4);
    let iovs = iovs_at(host, VQ_CTRL_BLK_IN_HOST + 24, cnt as nat);
    let status = u64_at(host, VQ_CTRL_BLK_IN_HOST + 16);
    if cnt > VIRTQUEUE_NUM {
        Err(DropReason::TooManyIovs)
    } else if !all_valid(iovs, data_size) {
        Err(DropReason::BadIov)
    } else if !(VQ_START <= status < VQ_START + data_size) {
        Err(DropReason::NoStatus)
    } else {
        Ok(
            BlkPlan {
                blk_type: u32_at(host, VQ_CTRL_BLK_IN_HOST as int),
                sector: u64_at(host, VQ_CTRL_BLK_IN_HOST + 8),
                status,
                iovs,
            },
        )
    }
}

/// Takes a private copy of the block response that the host's response
/// page holds.
pub fn snapshot_blk_in(host: &[u8], data_size: usize) -> (r: Result<BlockReqHost, DropReason>)
    requires
        host@.len() >= VQ_CTRL_BLK_AES_TAG_HOST,
    ensures
        match r {
            Ok(req) => blk_response(host@, data_size as nat) == Ok::<BlkPlan, DropReason>(
                req.plan(),
            ) && req.wf(data_size as nat),
            Err(reason) => blk_response(host@, data_size as nat) == Err::<BlkPlan, DropReason>(
                reason,
            ),
        },
{
    let host_len: usize = host.len();
    let blk_type: u32 = read_u32(host, VQ_CTRL_BLK_IN_HOST);
    let cnt: u32 = read_u32(host, VQ_CTRL_BLK_IN_HOST + 4);
    let sector: u64 = read_u64(host, VQ_CTRL_BLK_IN_HOST + 8);
    let status: u64 = read_u64(host, VQ_CTRL_BLK_IN_HOST + 16);
    if cnt as usize > VIRTQUEUE_NUM {
        return Err(DropReason::TooManyIovs);
    }
    let iovs = read_iovs(host, VQ_CTRL_BLK_IN_HOST + 24, cnt as usize);
    if !check_iovs(iovs.as_slice(), data_size) {
        return Err(DropReason::BadIov);
    }
    if status < VQ_START || status - VQ_START >= data_size as u64 {
        return Err(DropReason::NoStatus);
    }
    Ok(BlockReqHost { blk_type, cnt, sector, status, iovs })
}

/// Whether a module stops the response: it carries data, and some module
/// denies block reads.
pub open spec fn blk_in_denied(registry: &ModuleRegistry, req: BlkPlan) -> bool {
    req.iovs.len() > 0 && !registry.permits_blk(false)
}

/// Data region and tag table after a block response was delivered: the
/// data copied from the host's image to the data region and the modules'
/// read hooks run on it there.
pub open spec fn blk_in_hooks(
    registry: &ModuleRegistry,
    req: BlkPlan,
    data: Seq<u8>,
    host: Seq<u8>,
) -> (Seq<u8>, Seq<u8>) {
    blk_segments(
        registry.modules@,
        false,
        req.sector,
        req.iovs,
        req.iovs.len(),
        copy_iovs_spec(data, host, req.iovs),
        tag_table(host),
    )
}

/// Delivers a block response: copies the data from the host to the data
/// region, lets the modules see it there, and last sets the status byte in
/// the data region to success.
///
/// Where a module denies the response, nothing is changed.
pub fn process_blk_in(registry: &ModuleRegistry, req: &BlockReqHost, mem: &mut SharedMemory) -> (out:
    Outcome)
    requires
        old(mem).wf(),
        req.wf(old(mem).data@.len()),
    ensures
        final(mem).wf(),
        final(mem).ctrl@ == old(mem).ctrl@,
        blk_in_denied(registry, req.plan()) ==> out == Outcome::Denied && final(mem).data@ == old(
            mem).data@ && final(mem).host@ == old(mem).host@,
        !blk_in_denied(registry, req.plan()) ==> out == Outcome::Done && final(mem).data@
            == overlay(
            blk_in_hooks(registry, req.plan(), old(mem).data@, old(mem).host@).0,
            req.status - VQ_START,
            seq![0u8],
        ) && final(mem).host@ == with_tag_table(
            old(mem).host@,
            blk_in_hooks(registry, req.plan(), old(mem).data@, old(mem).host@).1,
        ),
{
    let cnt: usize = req.cnt as usize;
    if cnt > 0 && !registry.permits_blk_read() {
        return Outcome::Denied;
    }
    assert(req.iovs@.take(cnt as int) =~= req.iovs@);
    copy_iovs(mem, req.iovs.as_slice(), cnt, false);
    if cnt > 0 {
        blk_hooks_all(registry, false, req.iovs.as_slice(), req.sector, mem);
    } else {
        assert(mem.host@ =~= with_tag_table(mem.host@, tag_table(mem.host@)));
    }
    let status_off: usize = (req.status - VQ_START) as usize;
    let ghost before = mem.data@;
    mem.data[status_off] = 0x00;
    assert(mem.data@ =~= overlay(before, status_off as int, seq![0u8]));
    Outcome::Done
}

/// Once a block request is copied, what the host writes into the bytes of
/// its block page that the request takes no longer matters: two host
/// windows that differ only there lead to the same data region, the same
/// tags and the same host window.
pub proof fn lemma_blk_snapshot_immutable(
    registry: &ModuleRegistry,
    req: BlkPlan,
    data: Seq<u8>,
    host1: Seq<u8>,
    host2: Seq<u8>,
)
    requires
        host1.len() == host2.len(),
        host1.len() >= VQ_CTRL_BLK_AES_TAG_HOST,
        req.iovs.len() <= VIRTQUEUE_NUM,
        forall|i: int|
            0 <= i < host1.len() && !(VQ_CTRL_BLK_HOST <= i < VQ_CTRL_BLK_HOST + 24 + IOVEC_SIZE
                * req.iovs.len()) ==> host1[i] == host2[i],
    ensures
        blk_request_hooks(registry, req, data, host1) == blk_request_hooks(
            registry,
            req,
            data,
            host2,
        ),
        blk_host_after(registry, req, data, host1) == blk_host_after(registry, req, data, host2),
{
    lemma_auto_spec_u32_to_from_le_bytes();
    lemma_auto_spec_u64_to_from_le_bytes();
    assert(tag_table(host1) =~= tag_table(host2));
    let hooked = blk_request_hooks(registry, req, data, host1);
    let at = VQ_CTRL_BLK_HOST as int;
    let cnt = req.iovs.len();
    let w1 = with_tag_table(host1, hooked.1);
    let w2 = with_tag_table(host2, hooked.1);
    let base1 = overlay(
        overlay(
            overlay(
                overlay(w1, at, spec_u32_to_le_bytes(req.blk_type)),
                at + 4,
                spec_u32_to_le_bytes(cnt as u32),
            ),
            at + 8,
            spec_u64_to_le_bytes(req.sector),
        ),
        at + 16,
        spec_u64_to_le_bytes(req.status),
    );
    let base2 = overlay(
        overlay(
            overlay(
                overlay(w2, at, spec_u32_to_le_bytes(req.blk_type)),
                at + 4,
                spec_u32_to_le_bytes(cnt as u32),
            ),
            at + 8,
            spec_u64_to_le_bytes(req.sector),
        ),
        at + 16,
        spec_u64_to_le_bytes(req.status),
    );
    let page1 = blk_page(w1, at, req);
    let page2 = blk_page(w2, at, req);
    assert(w1.len() == w2.len());
    lemma_write_iovs_len(base1, at + 24, req.iovs, cnt);
    lemma_write_iovs_len(base2, at + 24, req.iovs, cnt);
    assert forall|i: int| 0 <= i < page1.len() implies page1[i] == page2[i] by {
        lemma_write_iovs_at(base1, at + 24, req.iovs, cnt, i);
        lemma_write_iovs_at(base2, at + 24, req.iovs, cnt, i);
    }
    assert(page1 =~= page2);
}

/// Delivering the data of a block response leaves the tag table alone.
pub proof fn lemma_blk_read_segments_keep_table(
    mods: Seq<Module>,
    sector: u64,
    iovs: Seq<IOVec>,
    n: nat,
    data: Seq<u8>,
    table: Seq<u8>,
)
    requires
        n <= iovs.len(),
    ensures
        blk_segments(mods, false, sector, iovs, n, data, table).1 == table,
    decreases n,
{
    if n > 0 {
        lemma_blk_read_segments_keep_table(mods, sector, iovs, (n - 1) as nat, data, table);
        let prev = blk_segments(mods, false, sector, iovs, (n - 1) as nat, data, table);
        let iov = iovs[n - 1];
        lemma_blk_read_keeps_table(
            mods,
            mods.len(),
            span(prev.0, iov.offset(), iov.iov_len as int),
            sector,
            prev.1,
        );
    }
}

} // verus!
