//! The hardening module: AES-GCM per block sector, with the tag kept in a
//! side table, and blockwise AES over the payload of TCP and UDP packets.

use crate::aes::{
    decrypt, decrypt_no_auth, ecb_spec, encrypt, encrypt_no_auth, open_spec, seal_spec, zeros,
    TagStorage, GCM_MAX_MESSAGE, TAG_SIZE,
};
use crate::mem::{overlay, span, write_bytes};
use crate::module::{ModuleAction, ModuleReturn};
use vstd::prelude::*;

verus! {

pub const VNET_HDR_SIZE: usize = 12;

pub const VNET_DATA_OFFSET: usize = VNET_HDR_SIZE;

pub const ETH_HDR_SIZE: usize = 14;

pub const ETH_DATA_OFFSET: usize = VNET_DATA_OFFSET + ETH_HDR_SIZE;

pub const IPV4_HDR_SIZE: usize = 20;

pub const IPV4_DATA_OFFSET: usize = ETH_DATA_OFFSET + IPV4_HDR_SIZE;

pub const UDP_HDR_SIZE: usize = 8;

pub const UDP_DATA_OFFSET: usize = IPV4_DATA_OFFSET + UDP_HDR_SIZE;

pub const ETH_IPV4: u16 = 0x800;

pub const IPV4_TCP: u8 = 0x6;

pub const IPV4_UDP: u8 = 0x11;

/// Offset of the EtherType field in a frame.
pub const ETH_TYPE_OFFSET: usize = VNET_DATA_OFFSET + 12;

/// Offset of the protocol field of the IPv4 header in a frame.
pub const IPV4_PROTO_OFFSET: usize = ETH_DATA_OFFSET + 9;

/// Offset of the data-offset byte of the TCP header in a frame.
pub const TCP_DOFF_OFFSET: usize = IPV4_DATA_OFFSET + 12;

/// Where the tag of `sector` starts in a tag table of `table_len` bytes, if
/// the table holds it.
pub open spec fn tag_slot(sector: u64, table_len: nat) -> Option<int> {
    if TAG_SIZE * sector + TAG_SIZE <= table_len {
        Some(TAG_SIZE * sector)
    } else {
        None
    }
}

/// Payload and tag table after the write hook: the payload sealed and its
/// tag stored in the sector's slot. Without a slot, or where the cipher
/// refuses the payload, both stay as they were.
pub open spec fn blk_write_spec(data: Seq<u8>, sector: u64, table: Seq<u8>) -> (Seq<u8>, Seq<u8>) {
    match tag_slot(sector, table.len()) {
        Some(at) => match seal_spec(data) {
            Some((sealed, tag)) => (sealed, overlay(table, at, tag)),
            None => (data, table),
        },
        None => (data, table),
    }
}

/// Payload after the read hook: opened against the tag in the sector's slot.
/// Without a slot, or where the tag does not authenticate it, it stays as
/// it was.
pub open spec fn blk_read_spec(data: Seq<u8>, sector: u64, table: Seq<u8>) -> Seq<u8> {
    match tag_slot(sector, table.len()) {
        Some(at) => match open_spec(data, span(table, at, TAG_SIZE as int)) {
            Some(plain) => plain,
            None => data,
        },
        None => data,
    }
}

/// The protocol of a frame and the offset of its payload: `(IPV4_TCP, off)`
/// or `(IPV4_UDP, off)` for an IPv4 frame that carries TCP or UDP and is
/// long enough to hold the headers, `(0, 0)` for every other frame.
pub open spec fn classify(data: Seq<u8>) -> (u8, int) {
    if data.len() < ETH_TYPE_OFFSET + 2 {
        (0u8, 0int)
    } else if data[ETH_TYPE_OFFSET as int] * 256 + data[ETH_TYPE_OFFSET + 1] != ETH_IPV4 {
        (0u8, 0int)
    } else if data.len() <= IPV4_PROTO_OFFSET {
        (0u8, 0int)
    } else if data[IPV4_PROTO_OFFSET as int] == IPV4_TCP {
        if data.len() <= TCP_DOFF_OFFSET {
            (0u8, 0int)
        } else if data.len() < IPV4_DATA_OFFSET + (data[TCP_DOFF_OFFSET as int] / 16) * 4 {
            (0u8, 0int)
        } else {
            (IPV4_TCP, IPV4_DATA_OFFSET + (data[TCP_DOFF_OFFSET as int] / 16) * 4)
        }
    } else if data[IPV4_PROTO_OFFSET as int] == IPV4_UDP {
        if data.len() < UDP_DATA_OFFSET {
            (0u8, 0int)
        } else {
            (IPV4_UDP, UDP_DATA_OFFSET as int)
        }
    } else {
        (0u8, 0int)
    }
}

/// Number of zero bytes that bring a payload of `len` bytes to a multiple
/// of 16.
pub open spec fn pad_len(len: nat) -> nat {
    if len % 16 == 0 {
        0
    } else {
        (16 - len % 16) as nat
    }
}

/// Number of bytes of a payload of `len` bytes that lie in whole 16-byte
/// blocks.
pub open spec fn whole_blocks(len: nat) -> int {
    16 * (len as int / 16)
}

/// A payload through the payload cipher: padded with zeros to a multiple of
/// 16, run blockwise, and cut back to its own length.
pub open spec fn encrypt_pkt_spec(data: Seq<u8>, is_encrypt: bool) -> Seq<u8> {
    ecb_spec(data + zeros(pad_len(data.len())), is_encrypt).subrange(0, data.len() as int)
}

/// A frame with its payload, if it carries TCP or UDP, put through the
/// payload cipher.
pub open spec fn net_spec(data: Seq<u8>, is_encrypt: bool) -> Seq<u8> {
    let (proto, at) = classify(data);
    if proto == IPV4_TCP || proto == IPV4_UDP {
        data.subrange(0, at) + encrypt_pkt_spec(data.subrange(at, data.len() as int), is_encrypt)
    } else {
        data
    }
}

/// Whether the network hooks change a frame: they do for TCP and UDP.
pub open spec fn net_modifies(data: Seq<u8>) -> bool {
    classify(data).0 == IPV4_TCP || classify(data).0 == IPV4_UDP
}

/// Write hook: seals `data` in place and stores its tag in the slot of
/// `sector`, at `tag_table[16 * sector..]`.
///
/// Where the table holds the slot and the payload is one the cipher takes,
/// the read hook on the result restores the payload.
pub fn blk_write(data: &mut [u8], sector: u64, tag_table: &mut [u8]) -> (ret: ModuleReturn)
    ensures
        ret.modified,
        ret.action == ModuleAction::Allow,
        (final(data)@, final(tag_table)@) == blk_write_spec(
            old(data)@,
            sector,
            old(tag_table)@,
        ),
        final(data)@.len() == old(data)@.len(),
        final(tag_table)@.len() == old(tag_table)@.len(),
        tag_slot(sector, old(tag_table)@.len()) is Some && old(data)@.len() <= GCM_MAX_MESSAGE
            ==> blk_read_spec(final(data)@, sector, final(tag_table)@) == old(data)@,
{
    let table_len: usize = tag_table.len();
    if table_len >= TAG_SIZE && sector <= ((table_len - TAG_SIZE) / TAG_SIZE) as u64 {
        let at: usize = TAG_SIZE * (sector as usize);
        let mut tag_storage = load_tag(tag_table, at);
        let ok = encrypt(data, &mut tag_storage);
        if ok {
            write_bytes(tag_table, at, &tag_storage.tag);
            assert(span(tag_table@, at as int, TAG_SIZE as int) =~= tag_storage.tag@);
        }
    }
    ModuleReturn { modified: true, action: ModuleAction::Allow }
}

/// Read hook: opens `data` in place against the tag in the slot of `sector`.
pub fn blk_read(data: &mut [u8], sector: u64, tag_table: &mut [u8]) -> (ret: ModuleReturn)
    ensures
        ret.modified,
        ret.action == ModuleAction::Allow,
        final(data)@ == blk_read_spec(old(data)@, sector, old(tag_table)@),
        final(data)@.len() == old(data)@.len(),
        final(tag_table)@ == old(tag_table)@,
{
    let table_len: usize = tag_table.len();
    if table_len >= TAG_SIZE && sector <= ((table_len - TAG_SIZE) / TAG_SIZE) as u64 {
        let at: usize = TAG_SIZE * (sector as usize);
        let mut tag_storage = load_tag(tag_table, at);
        let _ = decrypt(data, &mut tag_storage);
    }
    ModuleReturn { modified: true, action: ModuleAction::Allow }
}

/// Reads the tag stored at `at` in the tag table.
fn load_tag(tag_table: &[u8], at: usize) -> (tag: TagStorage)
    requires
        at + TAG_SIZE <= tag_table@.len(),
    ensures
        tag.tag@ == span(tag_table@, at as int, TAG_SIZE as int),
{
    let table_len: usize = tag_table.len();
    let mut tag = TagStorage { tag: [0u8; 16] };
    let mut i: usize = 0;
    while i < TAG_SIZE
        invariant
            at + TAG_SIZE <= tag_table@.len(),
            table_len == tag_table@.len(),
            i <= TAG_SIZE,
            forall|j: int| 0 <= j < i ==> tag.tag@[j] == tag_table@[at + j],
        decreases TAG_SIZE - i,
    {
        tag.tag[i] = tag_table[at + i];
        i += 1;
    }
    assert(tag.tag@ =~= span(tag_table@, at as int, TAG_SIZE as int));
    tag
}

/// Tells whether a frame carries TCP or UDP over IPv4, and where its
/// payload starts. A frame too short for the headers it announces is
/// reported as neither.
pub fn is_tcp_or_udp(data: &[u8]) -> (res: (u8, usize))
    ensures
        res.0 == classify(data@).0,
        res.1 == classify(data@).1,
        res.0 == 0 || res.0 == IPV4_TCP || res.0 == IPV4_UDP,
        res.0 == 0 ==> res.1 == 0,
        res.1 <= data@.len(),
{
    let len: usize = data.len();
    if len < ETH_TYPE_OFFSET + 2 {
        return (0, 0);
    }
    let eth_type: u16 = (data[ETH_TYPE_OFFSET] as u16) * 256 + (data[ETH_TYPE_OFFSET + 1] as u16);
    if eth_type != ETH_IPV4 {
        return (0, 0);
    }
    if len <= IPV4_PROTO_OFFSET {
        return (0, 0);
    }
    let ip_next: u8 = data[IPV4_PROTO_OFFSET];
    if ip_next == IPV4_TCP {
        if len <= TCP_DOFF_OFFSET {
            return (0, 0);
        }
        let pkt_size: usize = ((data[TCP_DOFF_OFFSET] / 16) as usize) * 4;
        if len < IPV4_DATA_OFFSET + pkt_size {
            return (0, 0);
        }
        (IPV4_TCP, IPV4_DATA_OFFSET + pkt_size)
    } else if ip_next == IPV4_UDP {
        if len < UDP_DATA_OFFSET {
            return (0, 0);
        }
        (IPV4_UDP, UDP_DATA_OFFSET)
    } else {
        (0, 0)
    }
}

/// Runs a payload through the payload cipher in place. A payload whose
/// length is not a multiple of 16 is padded with zeros for the cipher and
/// only its own length is taken back.
///
/// Decrypting what this function encrypted restores every whole 16-byte
/// block of the payload, so all of it where the length is a multiple of 16.
pub fn encrypt_pkt(data: &mut [u8], is_encrypt: bool) -> (ok: bool)
    ensures
        ok,
        final(data)@ == encrypt_pkt_spec(old(data)@, is_encrypt),
        final(data)@.len() == old(data)@.len(),
        encrypt_pkt_spec(final(data)@, !is_encrypt).subrange(0, whole_blocks(old(data)@.len()))
            == old(data)@.subrange(0, whole_blocks(old(data)@.len())),
        old(data)@.len() % 16 == 0 ==> encrypt_pkt_spec(final(data)@, !is_encrypt) == old(data)@,
{
    let len: usize = data.len();
    let modulus: usize = len % 16;
    let ghost input = data@;
    let ghost whole = whole_blocks(len as nat);
    if modulus == 0 {
        assert(input + zeros(0) =~= input);
        let ok = if is_encrypt {
            encrypt_no_auth(data)
        } else {
            decrypt_no_auth(data)
        };
        assert(data@ + zeros(0) =~= data@);
        assert(data@ =~= encrypt_pkt_spec(input, is_encrypt));
        assert(encrypt_pkt_spec(data@, !is_encrypt) =~= input);
        return ok;
    }
    let adder: usize = 16 - modulus;
    let mut padded_data: Vec<u8> = Vec::new();
    let mut i: usize = 0;
    while i < len
        invariant
            len == data@.len(),
            i <= len,
            padded_data@ == data@.subrange(0, i as int),
        decreases len - i,
    {
        padded_data.push(data[i]);
        i += 1;
        assert(padded_data@ =~= data@.subrange(0, i as int));
    }
    let mut p: usize = 0;
    while p < adder
        invariant
            len == data@.len(),
            p <= adder,
            padded_data@ == data@ + zeros(p as nat),
        decreases adder - p,
    {
        padded_data.push(0x0);
        p += 1;
        assert(padded_data@ =~= data@ + zeros(p as nat));
    }
    let ghost padded = padded_data@;
    assert(padded == input + zeros(pad_len(input.len())));
    assert(padded.len() % 16 == 0);
    let ok = if is_encrypt {
        encrypt_no_auth(padded_data.as_mut_slice())
    } else {
        decrypt_no_auth(padded_data.as_mut_slice())
    };
    let ghost coded = padded_data@;
    assert(coded == ecb_spec(padded, is_encrypt));
    assert(ecb_spec(coded, !is_encrypt) == padded);
    let mut k: usize = 0;
    while k < len
        invariant
            len == data@.len(),
            padded_data@ == coded,
            coded.len() == len + adder,
            k <= len,
            forall|j: int| 0 <= j < k ==> data@[j] == coded[j],
        decreases len - k,
    {
        data[k] = padded_data[k];
        k += 1;
    }
    assert(data@ =~= encrypt_pkt_spec(input, is_encrypt));
    proof {
        let back = ecb_spec(data@ + zeros(pad_len(data@.len())), !is_encrypt);
        assert forall|j: int| 0 <= j < whole implies back[j] == input[j] by {
            let b = j / 16;
            assert(crate::aes::block_of(data@ + zeros(pad_len(data@.len())), b)
                =~= crate::aes::block_of(coded, b));
            assert(ecb_spec(coded, !is_encrypt)[j] == padded[j]);
        }
        assert(encrypt_pkt_spec(data@, !is_encrypt).subrange(0, whole) =~= input.subrange(
            0,
            whole,
        ));
    }
    ok
}

/// Transmit hook: encrypts the payload of a TCP or UDP packet in place and
/// leaves every other frame alone.
pub fn net_tx(data: &mut [u8], _arg1: usize) -> (ret: ModuleReturn)
    ensures
        ret.action == ModuleAction::Allow,
        ret.modified == net_modifies(old(data)@),
        final(data)@ == net_spec(old(data)@, true),
        final(data)@.len() == old(data)@.len(),
{
    net_hook(data, true)
}

/// Receive hook: decrypts the payload of a TCP or UDP packet in place and
/// leaves every other frame alone.
pub fn net_rx(data: &mut [u8], _arg1: usize) -> (ret: ModuleReturn)
    ensures
        ret.action == ModuleAction::Allow,
        ret.modified == net_modifies(old(data)@),
        final(data)@ == net_spec(old(data)@, false),
        final(data)@.len() == old(data)@.len(),
{
    net_hook(data, false)
}

/// The two network hooks, which differ only in direction.
fn net_hook(data: &mut [u8], is_encrypt: bool) -> (ret: ModuleReturn)
    ensures
        ret.action == ModuleAction::Allow,
        ret.modified == net_modifies(old(data)@),
        final(data)@ == net_spec(old(data)@, is_encrypt),
        final(data)@.len() == old(data)@.len(),
{
    let res = is_tcp_or_udp(data);
    if res.0 == IPV4_TCP || res.0 == IPV4_UDP {
        let (_head, payload) = data.split_at_mut(res.1);
        let _ = encrypt_pkt(payload, is_encrypt);
        ModuleReturn { modified: true, action: ModuleAction::Allow }
    } else {
        ModuleReturn { modified: false, action: ModuleAction::Allow }
    }
}

/// The payload cipher keeps the length of a payload.
pub proof fn lemma_encrypt_pkt_len(data: Seq<u8>, is_encrypt: bool)
    ensures
        encrypt_pkt_spec(data, is_encrypt).len() == data.len(),
{
}

/// The network hooks keep the length of a frame.
pub proof fn lemma_net_spec_len(data: Seq<u8>, is_encrypt: bool)
    ensures
        net_spec(data, is_encrypt).len() == data.len(),
{
    lemma_encrypt_pkt_len(data.subrange(classify(data).1, data.len() as int), is_encrypt);
}

/// The network hooks leave the headers of a frame alone: every byte
/// before the payload stays as it is.
pub proof fn lemma_net_spec_keeps_headers(data: Seq<u8>, is_encrypt: bool, i: int)
    requires
        0 <= i < data.len(),
        !net_modifies(data) || i < classify(data).1,
    ensures
        net_spec(data, is_encrypt)[i] == data[i],
{
}

} // verus!
