use aes_gcm::aead::{Aead, KeyInit};
use aes_gcm::{Aes256Gcm, Key, Nonce};
use cvm_gateway::aes::encrypt_no_auth;
use cvm_gateway::gateway::gateway_init;
use cvm_gateway::module::{
    add_module, BlkReadFunc, BlkWriteFunc, ModuleRegistry, NetRxFunc, NetTxFunc,
};
use cvm_gateway::virtio::blk::{parse_blk, process_blk, snapshot_blk};
use cvm_gateway::virtio::iov::{check_iovs, read_iovs, write_iovs};
use cvm_gateway::virtio::p9::P9PDU_SIZE;
use cvm_gateway::virtio::{
    __handle_vsock, align_to_2mb, copy_iovs, create_memory_cvm_shared, handle_blk,
    handle_blk_in_resp, handle_net_rx_num_buffers, handle_net_rx_response, handle_net_tx_request,
    handle_p9_request, handle_p9_response, handle_vsock_rx, handle_vsock_tx, host_view,
    realm_view, Accessor, DropReason, Gateway, IOVec, Outcome, SharedMemory, IPA_OFFSET,
    VQ_CTRL_9P_HOST, VQ_CTRL_BLK_AES_TAG_HOST, VQ_CTRL_BLK_HOST, VQ_CTRL_BLK_IN_HOST,
    VQ_CTRL_NET_RX_HOST, VQ_CTRL_NET_TX, VQ_CTRL_NET_TX_HOST, VQ_CTRL_SIZE, VQ_CTRL_VSOCK_RX,
    VQ_CTRL_VSOCK_TX, VQ_DATA_HOST, VQ_START,
};

const DATA_SIZE: usize = 0x10_0000;
const HOST_SIZE: usize = VQ_CTRL_BLK_AES_TAG_HOST + 0x1000;

struct Bufs {
    ctrl: Vec<u8>,
    data: Vec<u8>,
    host: Vec<u8>,
}

fn bufs() -> Bufs {
    Bufs { ctrl: vec![0u8; VQ_CTRL_SIZE], data: vec![0u8; DATA_SIZE], host: vec![0u8; HOST_SIZE] }
}

fn mem(b: &mut Bufs) -> SharedMemory<'_> {
    SharedMemory::new(&b.ctrl, &mut b.data, &mut b.host).unwrap()
}

fn put_u16(m: &mut [u8], at: usize, v: u16) {
    m[at..at + 2].copy_from_slice(&v.to_le_bytes());
}

fn put_u32(m: &mut [u8], at: usize, v: u32) {
    m[at..at + 4].copy_from_slice(&v.to_le_bytes());
}

fn put_u64(m: &mut [u8], at: usize, v: u64) {
    m[at..at + 8].copy_from_slice(&v.to_le_bytes());
}

fn get_u32(m: &[u8], at: usize) -> u32 {
    u32::from_le_bytes([m[at], m[at + 1], m[at + 2], m[at + 3]])
}

fn get_u64(m: &[u8], at: usize) -> u64 {
    let mut b = [0u8; 8];
    b.copy_from_slice(&m[at..at + 8]);
    u64::from_le_bytes(b)
}

fn put_iov(m: &mut [u8], at: usize, off: usize, len: usize) {
    put_u64(m, at, VQ_START + off as u64);
    put_u64(m, at + 8, len as u64);
}

fn iov(off: usize, len: usize) -> IOVec {
    IOVec { iov_base: VQ_START + off as u64, iov_len: len as u64 }
}

fn seal(plain: &[u8]) -> (Vec<u8>, Vec<u8>) {
    let key = [0u8; 32];
    let nonce = [0u8; 12];
    let cipher = Aes256Gcm::new(Key::<Aes256Gcm>::from_slice(&key));
    let mut out = cipher.encrypt(Nonce::from_slice(&nonce), plain).unwrap();
    let tag = out.split_off(plain.len());
    (out, tag)
}

fn padded_encrypt(payload: &[u8]) -> Vec<u8> {
    let mut p = payload.to_vec();
    while p.len() % 16 != 0 {
        p.push(0);
    }
    assert!(encrypt_no_auth(&mut p));
    p.truncate(payload.len());
    p
}

fn blk_write_request(b: &mut Bufs, sector: u64, payload: &[u8]) {
    put_u32(&mut b.data, 0, 1);
    put_u32(&mut b.data, 4, 0);
    put_u64(&mut b.data, 8, sector);
    b.data[0x1000..0x1000 + payload.len()].copy_from_slice(payload);
    b.data[0x3000] = 0xff;
    put_u32(&mut b.host, VQ_CTRL_BLK_HOST, 2);
    put_u32(&mut b.host, VQ_CTRL_BLK_HOST + 4, 1);
    put_iov(&mut b.host, VQ_CTRL_BLK_HOST + 8, 0, 16);
    put_iov(&mut b.host, VQ_CTRL_BLK_HOST + 24, 0x1000, payload.len());
    put_iov(&mut b.host, VQ_CTRL_BLK_HOST + 40, 0x3000, 1);
    b.host[0x3000] = 0xff;
}

fn blk_read_response(b: &mut Bufs, sector: u64, len: usize) {
    put_u32(&mut b.host, VQ_CTRL_BLK_IN_HOST, 0);
    put_u32(&mut b.host, VQ_CTRL_BLK_IN_HOST + 4, 1);
    put_u64(&mut b.host, VQ_CTRL_BLK_IN_HOST + 8, sector);
    put_u64(&mut b.host, VQ_CTRL_BLK_IN_HOST + 16, VQ_START + 0x3000);
    put_iov(&mut b.host, VQ_CTRL_BLK_IN_HOST + 24, 0x1000, len);
}

fn udp_frame(len: usize) -> Vec<u8> {
    let mut f: Vec<u8> = (0..len).map(|i| (i % 251) as u8).collect();
    f[24] = 0x08;
    f[25] = 0x00;
    f[35] = 0x11;
    f
}

fn tcp_frame(len: usize) -> Vec<u8> {
    let mut f = udp_frame(len);
    f[35] = 0x06;
    f[58] = 0x50;
    f
}

#[test]
fn memory_windows_must_fit_the_map() {
    let ctrl = vec![0u8; VQ_CTRL_SIZE];
    let mut data = vec![0u8; 4096];
    let mut host = vec![0u8; HOST_SIZE];
    assert!(SharedMemory::new(&ctrl, &mut data, &mut host).is_some());
    let mut small = vec![0u8; VQ_CTRL_BLK_AES_TAG_HOST - 1];
    assert!(SharedMemory::new(&ctrl, &mut data, &mut small).is_none());
    let short = vec![0u8; VQ_CTRL_SIZE - 1];
    assert!(SharedMemory::new(&short, &mut data, &mut host).is_none());
    let mut big = vec![0u8; HOST_SIZE + 1];
    assert!(SharedMemory::new(&ctrl, &mut big, &mut host).is_none());
}

#[test]
fn address_translation_round_trip() {
    let vq_data = 0x8100_0000u64;
    for off in [0u64, 1, 0xfff, 0x1000, DATA_SIZE as u64 - 1] {
        let base = VQ_START + off;
        let realm = realm_view(vq_data, base);
        assert_eq!(realm, vq_data + off);
        assert_eq!(host_view(vq_data, realm), base + IPA_OFFSET);
        assert_eq!(host_view(vq_data, realm) - VQ_DATA_HOST, off);
    }
    assert_eq!(VQ_DATA_HOST, VQ_START + IPA_OFFSET);
}

#[test]
fn descriptors_are_checked_against_the_data_region() {
    assert_eq!(iov(0, 0).locate(DATA_SIZE), Some((0, 0)));
    assert_eq!(iov(0, DATA_SIZE).locate(DATA_SIZE), Some((0, DATA_SIZE)));
    assert_eq!(iov(16, 32).locate(DATA_SIZE), Some((16, 32)));
    assert_eq!(iov(DATA_SIZE - 1, 1).locate(DATA_SIZE), Some((DATA_SIZE - 1, 1)));
    assert_eq!(iov(DATA_SIZE - 1, 2).locate(DATA_SIZE), None);
    assert_eq!(iov(DATA_SIZE, 0).locate(DATA_SIZE), None);
    assert_eq!(iov(0, DATA_SIZE + 1).locate(DATA_SIZE), None);
    assert_eq!(IOVec { iov_base: VQ_START - 1, iov_len: 1 }.locate(DATA_SIZE), None);
    assert_eq!(IOVec { iov_base: 0, iov_len: 0 }.locate(DATA_SIZE), None);
    assert_eq!(IOVec { iov_base: u64::MAX, iov_len: u64::MAX }.locate(DATA_SIZE), None);
    assert_eq!(IOVec { iov_base: VQ_START, iov_len: u64::MAX }.locate(DATA_SIZE), None);
    assert!(check_iovs(&[iov(0, 1), iov(5, 5)], DATA_SIZE));
    assert!(!check_iovs(&[iov(0, 1), iov(DATA_SIZE, 5)], DATA_SIZE));
    assert!(check_iovs(&[], DATA_SIZE));
}

#[test]
fn descriptors_are_stored_as_base_then_length() {
    let mut m = vec![0xeeu8; 64];
    let list = [iov(0x10, 0x20), IOVec { iov_base: 0x0102030405060708, iov_len: 0x1112131415161718 }];
    write_iovs(&mut m, 8, &list, 2);
    assert_eq!(&m[..8], &[0xee; 8]);
    assert_eq!(get_u64(&m, 8), VQ_START + 0x10);
    assert_eq!(get_u64(&m, 16), 0x20);
    assert_eq!(&m[24..32], &[8, 7, 6, 5, 4, 3, 2, 1]);
    assert_eq!(&m[32..40], &[0x18, 0x17, 0x16, 0x15, 0x14, 0x13, 0x12, 0x11]);
    assert_eq!(&m[40..], &[0xee; 24]);
    let back = read_iovs(&m, 8, 2);
    assert_eq!(back.len(), 2);
    assert_eq!(back[0].iov_base, VQ_START + 0x10);
    assert_eq!(back[0].iov_len, 0x20);
    assert_eq!(back[1].iov_base, 0x0102030405060708);
    assert_eq!(back[1].iov_len, 0x1112131415161718);
}

#[test]
fn copy_iovs_moves_same_offsets_both_ways() {
    let mut b = bufs();
    for i in 0..DATA_SIZE {
        b.data[i] = (i % 253) as u8;
    }
    let list = [iov(0x100, 0x40), iov(0x1000, 7), iov(0x120, 0x40), iov(0x9000, 0x10)];
    {
        let mut m = mem(&mut b);
        copy_iovs(&mut m, &list, 3, true);
    }
    for i in 0..DATA_SIZE {
        let covered = (0x100..0x160).contains(&i) || (0x1000..0x1007).contains(&i);
        assert_eq!(b.host[i], if covered { (i % 253) as u8 } else { 0 });
    }
    for i in 0..DATA_SIZE {
        b.host[i] = 0x77;
    }
    {
        let mut m = mem(&mut b);
        copy_iovs(&mut m, &list, 4, false);
    }
    for i in 0..DATA_SIZE {
        let covered = (0x100..0x160).contains(&i)
            || (0x1000..0x1007).contains(&i)
            || (0x9000..0x9010).contains(&i);
        assert_eq!(b.data[i], if covered { 0x77 } else { (i % 253) as u8 });
    }
}

#[test]
fn accessor_reads_and_writes_little_endian() {
    let mut m = vec![0u8; 16];
    m[4..12].copy_from_slice(&[1, 2, 3, 4, 5, 6, 7, 8]);
    assert_eq!(Accessor::new(4).read_u16(&m), Some(0x0201));
    assert_eq!(Accessor::new(4).read_u32(&m), Some(0x04030201));
    assert_eq!(Accessor::new(4).read_u64(&m), Some(0x0807060504030201));
    assert_eq!(Accessor::new(14).read_u16(&m), Some(0));
    assert_eq!(Accessor::new(15).read_u16(&m), None);
    assert_eq!(Accessor::new(13).read_u32(&m), None);
    assert_eq!(Accessor::new(9).read_u64(&m), None);
    assert_eq!(Accessor::new(usize::MAX).read_u64(&m), None);
    assert!(Accessor::new(0).write_u16(&mut m, 0xBEEF));
    assert_eq!(&m[..3], &[0xEF, 0xBE, 0]);
    assert!(!Accessor::new(15).write_u16(&mut m, 0xBEEF));
    assert!(Accessor::new(15).write_u8(&mut m, 9));
    assert_eq!(m[15], 9);
    assert!(!Accessor::new(16).write_u8(&mut m, 9));
}

#[test]
fn blk_write_sector_zero() {
    let mut b = bufs();
    let plain = vec![0xAAu8; 4096];
    blk_write_request(&mut b, 0, &plain);
    let gw = gateway_init();
    let out = handle_blk(&gw.modules, &mut mem(&mut b));
    assert_eq!(out, Outcome::Done);
    let (cipher, tag) = seal(&plain);
    assert_ne!(cipher, plain);
    assert_eq!(&b.data[0x1000..0x2000], &cipher[..]);
    assert_eq!(&b.host[0x1000..0x2000], &cipher[..]);
    assert_eq!(&b.host[VQ_CTRL_BLK_AES_TAG_HOST..VQ_CTRL_BLK_AES_TAG_HOST + 16], &tag[..]);
    assert_eq!(b.host[0x3000], 0x00);
    assert_eq!(b.data[0x3000], 0xff);
    assert_eq!(get_u32(&b.host, VQ_CTRL_BLK_HOST), 1);
    assert_eq!(get_u32(&b.host, VQ_CTRL_BLK_HOST + 4), 1);
    assert_eq!(get_u64(&b.host, VQ_CTRL_BLK_HOST + 8), 0);
    assert_eq!(get_u64(&b.host, VQ_CTRL_BLK_HOST + 16), VQ_START + 0x3000);
    assert_eq!(get_u64(&b.host, VQ_CTRL_BLK_HOST + 24), VQ_START + 0x1000);
    assert_eq!(get_u64(&b.host, VQ_CTRL_BLK_HOST + 32), 4096);
}

#[test]
fn blk_read_sector_zero_previously_written() {
    let mut b = bufs();
    let plain = vec![0xAAu8; 4096];
    blk_write_request(&mut b, 0, &plain);
    let gw = gateway_init();
    assert_eq!(handle_blk(&gw.modules, &mut mem(&mut b)), Outcome::Done);
    for x in b.data[0x1000..0x2000].iter_mut() {
        *x = 0;
    }
    b.data[0x3000] = 0xff;
    blk_read_response(&mut b, 0, 4096);
    let host_before = b.host.clone();
    let out = handle_blk_in_resp(&gw.modules, &mut mem(&mut b));
    assert_eq!(out, Outcome::Done);
    assert_eq!(&b.data[0x1000..0x2000], &plain[..]);
    assert_eq!(b.data[0x3000], 0x00);
    assert_eq!(b.host, host_before);
}

#[test]
fn blk_write_uses_the_slot_of_its_sector() {
    let mut b = bufs();
    let plain: Vec<u8> = (0..512u32).map(|i| i as u8).collect();
    blk_write_request(&mut b, 5, &plain);
    let gw = gateway_init();
    assert_eq!(handle_blk(&gw.modules, &mut mem(&mut b)), Outcome::Done);
    let (cipher, tag) = seal(&plain);
    assert_eq!(&b.host[0x1000..0x1200], &cipher[..]);
    let slot = VQ_CTRL_BLK_AES_TAG_HOST + 16 * 5;
    assert_eq!(&b.host[slot..slot + 16], &tag[..]);
    assert_eq!(&b.host[VQ_CTRL_BLK_AES_TAG_HOST..slot], &[0u8; 80][..]);
    assert_eq!(get_u64(&b.host, VQ_CTRL_BLK_HOST + 8), 5);
}

#[test]
fn blk_read_request_is_not_shown_to_write_hooks() {
    let mut b = bufs();
    let plain = vec![0x33u8; 512];
    blk_write_request(&mut b, 0, &plain);
    put_u32(&mut b.data, 0, 0);
    let gw = gateway_init();
    assert_eq!(handle_blk(&gw.modules, &mut mem(&mut b)), Outcome::Done);
    assert_eq!(&b.data[0x1000..0x1200], &plain[..]);
    assert_eq!(&b.host[0x1000..0x1200], &plain[..]);
    assert_eq!(&b.host[VQ_CTRL_BLK_AES_TAG_HOST..VQ_CTRL_BLK_AES_TAG_HOST + 16], &[0u8; 16][..]);
    assert_eq!(get_u32(&b.host, VQ_CTRL_BLK_HOST), 0);
    assert_eq!(b.host[0x3000], 0);
}

#[test]
fn blk_header_may_span_descriptors() {
    let mut b = bufs();
    put_u32(&mut b.data, 0x100, 1);
    put_u32(&mut b.data, 0x200, 0);
    put_u64(&mut b.data, 0x300, 9);
    let plain = vec![0x44u8; 64];
    b.data[0x308..0x348].copy_from_slice(&plain);
    put_u32(&mut b.host, VQ_CTRL_BLK_HOST, 4);
    put_u32(&mut b.host, VQ_CTRL_BLK_HOST + 4, 2);
    put_iov(&mut b.host, VQ_CTRL_BLK_HOST + 8, 0x100, 4);
    put_iov(&mut b.host, VQ_CTRL_BLK_HOST + 24, 0x50, 0);
    put_iov(&mut b.host, VQ_CTRL_BLK_HOST + 40, 0x200, 4);
    put_iov(&mut b.host, VQ_CTRL_BLK_HOST + 56, 0x300, 8 + 64);
    put_iov(&mut b.host, VQ_CTRL_BLK_HOST + 72, 0x4000, 3);
    put_iov(&mut b.host, VQ_CTRL_BLK_HOST + 88, 0x5000, 0);
    let gw = gateway_init();
    let snap = snapshot_blk(&b.host).unwrap();
    assert_eq!(snap.out_cnt, 4);
    assert_eq!(snap.in_cnt, 2);
    let req = parse_blk(&snap, &b.data).unwrap();
    assert_eq!(req.blk_type, 1);
    assert_eq!(req.sector, 9);
    assert_eq!(req.status, VQ_START + 0x4002);
    assert_eq!(req.cnt, 3);
    let left: Vec<(u64, u64)> = req.iovs.iter().map(|v| (v.iov_base - VQ_START, v.iov_len)).collect();
    assert_eq!(left, vec![(0x308, 64), (0x4000, 2), (0x5000, 0)]);
    assert_eq!(handle_blk(&gw.modules, &mut mem(&mut b)), Outcome::Done);
    let (cipher, _) = seal(&plain);
    assert_eq!(&b.host[0x308..0x348], &cipher[..]);
    assert_eq!(b.host[0x4002], 0);
    assert_eq!(get_u32(&b.host, VQ_CTRL_BLK_HOST + 4), 3);
    assert_eq!(get_u64(&b.host, VQ_CTRL_BLK_HOST + 16), VQ_START + 0x4002);
}

#[test]
fn blk_status_descriptor_that_empties_is_not_counted() {
    let mut b = bufs();
    blk_write_request(&mut b, 0, &[1u8; 32]);
    let snap = snapshot_blk(&b.host).unwrap();
    let req = parse_blk(&snap, &b.data).unwrap();
    assert_eq!(req.cnt, 1);
    assert_eq!(req.iovs.len(), 1);
    assert_eq!(req.status, VQ_START + 0x3000);
}

#[test]
fn blk_request_with_sixteen_descriptors_is_dropped() {
    let mut b = bufs();
    blk_write_request(&mut b, 0, &[1u8; 32]);
    put_u32(&mut b.host, VQ_CTRL_BLK_HOST, 10);
    put_u32(&mut b.host, VQ_CTRL_BLK_HOST + 4, 6);
    let before_host = b.host.clone();
    let before_data = b.data.clone();
    let gw = gateway_init();
    let out = handle_blk(&gw.modules, &mut mem(&mut b));
    assert_eq!(out, Outcome::Dropped(DropReason::TooManyIovs));
    assert_eq!(b.host, before_host);
    assert_eq!(b.data, before_data);
    put_u32(&mut b.host, VQ_CTRL_BLK_HOST, u32::MAX);
    put_u32(&mut b.host, VQ_CTRL_BLK_HOST + 4, u32::MAX);
    assert_eq!(
        handle_blk(&gw.modules, &mut mem(&mut b)),
        Outcome::Dropped(DropReason::TooManyIovs)
    );
}

#[test]
fn blk_request_with_bad_descriptor_is_dropped() {
    let mut b = bufs();
    blk_write_request(&mut b, 0, &[1u8; 32]);
    put_iov(&mut b.host, VQ_CTRL_BLK_HOST + 24, DATA_SIZE - 16, 32);
    let before_host = b.host.clone();
    let before_data = b.data.clone();
    let gw = gateway_init();
    let out = handle_blk(&gw.modules, &mut mem(&mut b));
    assert_eq!(out, Outcome::Dropped(DropReason::BadIov));
    assert_eq!(b.host, before_host);
    assert_eq!(b.data, before_data);
}

#[test]
fn blk_request_with_short_header_is_dropped() {
    let mut b = bufs();
    blk_write_request(&mut b, 0, &[1u8; 32]);
    put_u32(&mut b.host, VQ_CTRL_BLK_HOST, 1);
    put_iov(&mut b.host, VQ_CTRL_BLK_HOST + 8, 0, 15);
    let gw = gateway_init();
    let out = handle_blk(&gw.modules, &mut mem(&mut b));
    assert_eq!(out, Outcome::Dropped(DropReason::ShortHeader));
    put_u32(&mut b.host, VQ_CTRL_BLK_HOST, 0);
    assert_eq!(
        handle_blk(&gw.modules, &mut mem(&mut b)),
        Outcome::Dropped(DropReason::ShortHeader)
    );
}

#[test]
fn blk_request_without_status_room_is_dropped() {
    let mut b = bufs();
    blk_write_request(&mut b, 0, &[1u8; 32]);
    put_u32(&mut b.host, VQ_CTRL_BLK_HOST, 1);
    put_u32(&mut b.host, VQ_CTRL_BLK_HOST + 4, 0);
    let gw = gateway_init();
    let out = handle_blk(&gw.modules, &mut mem(&mut b));
    assert_eq!(out, Outcome::Dropped(DropReason::NoStatus));
    put_u32(&mut b.host, VQ_CTRL_BLK_HOST + 4, 1);
    put_iov(&mut b.host, VQ_CTRL_BLK_HOST + 24, 0x1000, 0);
    assert_eq!(handle_blk(&gw.modules, &mut mem(&mut b)), Outcome::Dropped(DropReason::NoStatus));
}

#[test]
fn blk_write_is_denied_by_refusing_module() {
    let mut b = bufs();
    blk_write_request(&mut b, 0, &[0xAAu8; 512]);
    let mut reg = ModuleRegistry::new();
    assert!(add_module(
        &mut reg,
        "cvm_hardening",
        0,
        BlkWriteFunc::CvmHardening,
        BlkReadFunc::CvmHardening,
        NetTxFunc::CvmHardening,
        NetRxFunc::CvmHardening
    ));
    assert!(add_module(
        &mut reg,
        "fl",
        1,
        BlkWriteFunc::Fl,
        BlkReadFunc::Fl,
        NetTxFunc::CvmHardening,
        NetRxFunc::Fl
    ));
    let before_host = b.host.clone();
    let before_data = b.data.clone();
    assert_eq!(handle_blk(&reg, &mut mem(&mut b)), Outcome::Denied);
    assert_eq!(b.host, before_host);
    assert_eq!(b.data, before_data);
    blk_read_response(&mut b, 0, 512);
    let before_host = b.host.clone();
    assert_eq!(handle_blk_in_resp(&reg, &mut mem(&mut b)), Outcome::Denied);
    assert_eq!(b.host, before_host);
    assert_eq!(b.data, before_data);
    put_u32(&mut b.data, 0, 0);
    assert_eq!(handle_blk(&reg, &mut mem(&mut b)), Outcome::Done);
}

#[test]
fn blk_response_is_validated() {
    let mut b = bufs();
    let gw = gateway_init();
    blk_read_response(&mut b, 0, 512);
    put_u32(&mut b.host, VQ_CTRL_BLK_IN_HOST + 4, 129);
    assert_eq!(
        handle_blk_in_resp(&gw.modules, &mut mem(&mut b)),
        Outcome::Dropped(DropReason::TooManyIovs)
    );
    blk_read_response(&mut b, 0, DATA_SIZE);
    assert_eq!(
        handle_blk_in_resp(&gw.modules, &mut mem(&mut b)),
        Outcome::Dropped(DropReason::BadIov)
    );
    blk_read_response(&mut b, 0, 512);
    put_u64(&mut b.host, VQ_CTRL_BLK_IN_HOST + 16, VQ_START + DATA_SIZE as u64);
    assert_eq!(
        handle_blk_in_resp(&gw.modules, &mut mem(&mut b)),
        Outcome::Dropped(DropReason::NoStatus)
    );
    put_u64(&mut b.host, VQ_CTRL_BLK_IN_HOST + 16, VQ_START - 1);
    assert_eq!(
        handle_blk_in_resp(&gw.modules, &mut mem(&mut b)),
        Outcome::Dropped(DropReason::NoStatus)
    );
    assert_eq!(b.data, vec![0u8; DATA_SIZE]);
}

#[test]
fn blk_response_with_wrong_tag_delivers_host_bytes() {
    let mut b = bufs();
    for x in b.host[0x1000..0x1200].iter_mut() {
        *x = 0x5c;
    }
    b.data[0x3000] = 0xff;
    blk_read_response(&mut b, 2, 512);
    let gw = gateway_init();
    assert_eq!(handle_blk_in_resp(&gw.modules, &mut mem(&mut b)), Outcome::Done);
    assert_eq!(&b.data[0x1000..0x1200], &[0x5cu8; 512][..]);
    assert_eq!(b.data[0x3000], 0);
}

#[test]
fn host_inflating_out_cnt_after_snapshot_is_not_seen() {
    let mut pristine = bufs();
    let plain = vec![0xAAu8; 4096];
    blk_write_request(&mut pristine, 0, &plain);
    let gw = gateway_init();
    assert_eq!(handle_blk(&gw.modules, &mut mem(&mut pristine)), Outcome::Done);

    let mut b = bufs();
    blk_write_request(&mut b, 0, &plain);
    let snap = snapshot_blk(&b.host).unwrap();
    put_u32(&mut b.host, VQ_CTRL_BLK_HOST, 200);
    put_iov(&mut b.host, VQ_CTRL_BLK_HOST + 24, DATA_SIZE * 4, 1 << 30);
    assert_eq!(snap.out_cnt, 2);
    assert_eq!(snap.iovs.len(), 3);
    let req = parse_blk(&snap, &b.data).unwrap();
    let out = process_blk(&gw.modules, &req, &mut mem(&mut b));
    assert_eq!(out, Outcome::Done);
    assert_eq!(b.data, pristine.data);
    assert_eq!(b.host, pristine.host);
    assert_eq!(get_u32(&b.host, VQ_CTRL_BLK_HOST + 4), 1);
}

#[test]
fn net_tx_single_udp_packet() {
    let mut b = bufs();
    let frame = udp_frame(1024);
    b.data[0x2000..0x2400].copy_from_slice(&frame);
    put_u32(&mut b.ctrl, VQ_CTRL_NET_TX, 1);
    put_iov(&mut b.ctrl, VQ_CTRL_NET_TX + 8, 0x2000, 1024);
    b.host[VQ_CTRL_NET_TX_HOST + 4] = 0x99;
    let gw = gateway_init();
    let out = handle_net_tx_request(&gw.modules, &mut mem(&mut b));
    assert_eq!(out, Outcome::Done);
    assert_eq!(&b.data[0x2000..0x2000 + 54], &frame[..54]);
    assert_eq!(&b.data[0x2000 + 54..0x2400], &padded_encrypt(&frame[54..])[..]);
    assert_ne!(&b.data[0x2000 + 54..0x2400], &frame[54..]);
    assert_eq!(&b.host[0x2000..0x2400], &b.data[0x2000..0x2400]);
    assert_eq!(get_u32(&b.host, VQ_CTRL_NET_TX_HOST), 1);
    assert_eq!(b.host[VQ_CTRL_NET_TX_HOST + 4], 0x99);
    assert_eq!(get_u64(&b.host, VQ_CTRL_NET_TX_HOST + 8), VQ_START + 0x2000);
    assert_eq!(get_u64(&b.host, VQ_CTRL_NET_TX_HOST + 16), 1024);
    assert_eq!(&b.data[..0x2000], &vec![0u8; 0x2000][..]);
    assert_eq!(&b.data[0x2400..], &vec![0u8; DATA_SIZE - 0x2400][..]);
}

#[test]
fn net_tx_tcp_across_two_iovs() {
    let mut b = bufs();
    let frame = tcp_frame(566);
    b.data[0x2000..0x2000 + 54].copy_from_slice(&frame[..54]);
    b.data[0x8000..0x8000 + 512].copy_from_slice(&frame[54..]);
    put_u32(&mut b.ctrl, VQ_CTRL_NET_TX, 2);
    put_iov(&mut b.ctrl, VQ_CTRL_NET_TX + 8, 0x2000, 54);
    put_iov(&mut b.ctrl, VQ_CTRL_NET_TX + 24, 0x8000, 512);
    let gw = gateway_init();
    let out = handle_net_tx_request(&gw.modules, &mut mem(&mut b));
    assert_eq!(out, Outcome::Done);
    let mut expect = frame.clone();
    let payload = padded_encrypt(&frame[66..]);
    expect[66..].copy_from_slice(&payload);
    assert_eq!(&b.data[0x2000..0x2000 + 54], &expect[..54]);
    assert_eq!(&b.data[0x8000..0x8000 + 512], &expect[54..]);
    assert_eq!(&b.data[0x8000..0x8000 + 12], &frame[54..66]);
    assert_eq!(b.data[0x2000 + 54], 0);
    assert_eq!(b.data[0x8000 + 512], 0);
    assert_eq!(&b.host[0x2000..0x2000 + 54], &expect[..54]);
    assert_eq!(&b.host[0x8000..0x8000 + 512], &expect[54..]);
    assert_eq!(get_u32(&b.host, VQ_CTRL_NET_TX_HOST), 2);
    assert_eq!(get_u64(&b.host, VQ_CTRL_NET_TX_HOST + 16), 54);
    assert_eq!(get_u64(&b.host, VQ_CTRL_NET_TX_HOST + 32), 512);
    assert_eq!(
        get_u64(&b.host, VQ_CTRL_NET_TX_HOST + 16) + get_u64(&b.host, VQ_CTRL_NET_TX_HOST + 32),
        566
    );
}

#[test]
fn net_tx_two_iovs_unmodified_frame_is_left_alone() {
    let mut b = bufs();
    for x in b.data[0x2000..0x2100].iter_mut() {
        *x = 0x42;
    }
    put_u32(&mut b.ctrl, VQ_CTRL_NET_TX, 2);
    put_iov(&mut b.ctrl, VQ_CTRL_NET_TX + 8, 0x2000, 0x80);
    put_iov(&mut b.ctrl, VQ_CTRL_NET_TX + 24, 0x2080, 0x80);
    let before = b.data.clone();
    let gw = gateway_init();
    assert_eq!(handle_net_tx_request(&gw.modules, &mut mem(&mut b)), Outcome::Done);
    assert_eq!(b.data, before);
    assert_eq!(&b.host[0x2000..0x2100], &[0x42u8; 0x100][..]);
}

#[test]
fn net_tx_more_than_two_iovs_passes_through() {
    let mut b = bufs();
    let frame = udp_frame(300);
    b.data[0x2000..0x2000 + 300].copy_from_slice(&frame);
    put_u32(&mut b.ctrl, VQ_CTRL_NET_TX, 3);
    put_iov(&mut b.ctrl, VQ_CTRL_NET_TX + 8, 0x2000, 100);
    put_iov(&mut b.ctrl, VQ_CTRL_NET_TX + 24, 0x2064, 100);
    put_iov(&mut b.ctrl, VQ_CTRL_NET_TX + 40, 0x20c8, 100);
    let gw = gateway_init();
    assert_eq!(handle_net_tx_request(&gw.modules, &mut mem(&mut b)), Outcome::Done);
    assert_eq!(&b.data[0x2000..0x2000 + 300], &frame[..]);
    assert_eq!(&b.host[0x2000..0x2000 + 300], &frame[..]);
    assert_eq!(get_u32(&b.host, VQ_CTRL_NET_TX_HOST), 3);
}

#[test]
fn net_tx_count_limits() {
    let gw = gateway_init();
    let mut b = bufs();
    assert_eq!(
        handle_net_tx_request(&gw.modules, &mut mem(&mut b)),
        Outcome::Dropped(DropReason::NoIovs)
    );
    put_u32(&mut b.ctrl, VQ_CTRL_NET_TX, 129);
    assert_eq!(
        handle_net_tx_request(&gw.modules, &mut mem(&mut b)),
        Outcome::Dropped(DropReason::TooManyIovs)
    );
    put_u32(&mut b.ctrl, VQ_CTRL_NET_TX, 128);
    assert_eq!(
        handle_net_tx_request(&gw.modules, &mut mem(&mut b)),
        Outcome::Dropped(DropReason::BadIov)
    );
    for i in 0..128 {
        put_iov(&mut b.ctrl, VQ_CTRL_NET_TX + 8 + 16 * i, 16 * i, 16);
    }
    for x in b.data[..2048].iter_mut() {
        *x = 0x1f;
    }
    assert_eq!(handle_net_tx_request(&gw.modules, &mut mem(&mut b)), Outcome::Done);
    assert_eq!(&b.host[..2048], &[0x1fu8; 2048][..]);
    assert_eq!(b.host[2048], 0);
    assert_eq!(get_u32(&b.host, VQ_CTRL_NET_TX_HOST), 128);
}

#[test]
fn net_tx_bad_descriptor_changes_nothing() {
    let mut b = bufs();
    b.data[0x2000] = 7;
    put_u32(&mut b.ctrl, VQ_CTRL_NET_TX, 2);
    put_iov(&mut b.ctrl, VQ_CTRL_NET_TX + 8, 0x2000, 54);
    put_iov(&mut b.ctrl, VQ_CTRL_NET_TX + 24, DATA_SIZE, 1);
    let before_host = b.host.clone();
    let before_data = b.data.clone();
    let gw = gateway_init();
    assert_eq!(
        handle_net_tx_request(&gw.modules, &mut mem(&mut b)),
        Outcome::Dropped(DropReason::BadIov)
    );
    assert_eq!(b.host, before_host);
    assert_eq!(b.data, before_data);
}

#[test]
fn net_rx_response_delivers_and_decrypts() {
    let mut b = bufs();
    let plain = udp_frame(54 + 160);
    let mut wire = plain.clone();
    let enc = padded_encrypt(&plain[54..]);
    wire[54..].copy_from_slice(&enc);
    let p = VQ_CTRL_NET_RX_HOST;
    put_u32(&mut b.host, p, wire.len() as u32);
    put_iov(&mut b.host, p + 4, 0x6000, 4096);
    b.host[p + 20..p + 20 + wire.len()].copy_from_slice(&wire);
    let host_before = b.host.clone();
    let gw = gateway_init();
    assert_eq!(handle_net_rx_response(&gw.modules, &mut mem(&mut b)), Outcome::Done);
    assert_eq!(&b.data[0x6000..0x6000 + plain.len()], &plain[..]);
    assert_eq!(b.data[0x6000 + plain.len()], 0);
    assert_eq!(b.host, host_before);
}

#[test]
fn net_rx_response_walks_several_pieces() {
    let mut b = bufs();
    let p = VQ_CTRL_NET_RX_HOST;
    put_u32(&mut b.host, p, 30);
    put_iov(&mut b.host, p + 4, 0x100, 10);
    for i in 0..10 {
        b.host[p + 20 + i] = 0xa0 + i as u8;
    }
    put_iov(&mut b.host, p + 30, 0x200, 0);
    put_iov(&mut b.host, p + 46, 0x300, 100);
    for i in 0..20 {
        b.host[p + 62 + i] = 0xc0 + i as u8;
    }
    let gw = gateway_init();
    assert_eq!(handle_net_rx_response(&gw.modules, &mut mem(&mut b)), Outcome::Done);
    for i in 0..10 {
        assert_eq!(b.data[0x100 + i], 0xa0 + i as u8);
    }
    assert_eq!(b.data[0x10a], 0);
    assert_eq!(b.data[0x200], 0);
    for i in 0..20 {
        assert_eq!(b.data[0x300 + i], 0xc0 + i as u8);
    }
    assert_eq!(b.data[0x300 + 20], 0);
}

#[test]
fn net_rx_response_of_length_zero_does_nothing() {
    let mut b = bufs();
    put_iov(&mut b.host, VQ_CTRL_NET_RX_HOST + 4, DATA_SIZE, 10);
    let gw = gateway_init();
    assert_eq!(handle_net_rx_response(&gw.modules, &mut mem(&mut b)), Outcome::Done);
    assert_eq!(b.data, vec![0u8; DATA_SIZE]);
}

#[test]
fn net_rx_response_with_bad_descriptor_is_dropped() {
    let mut b = bufs();
    let p = VQ_CTRL_NET_RX_HOST;
    put_u32(&mut b.host, p, 20);
    put_iov(&mut b.host, p + 4, 0x100, 10);
    for i in 0..10 {
        b.host[p + 20 + i] = 0xa0;
    }
    put_iov(&mut b.host, p + 30, DATA_SIZE - 4, 10);
    let gw = gateway_init();
    assert_eq!(
        handle_net_rx_response(&gw.modules, &mut mem(&mut b)),
        Outcome::Dropped(DropReason::BadIov)
    );
    assert_eq!(b.data, vec![0u8; DATA_SIZE]);
}

#[test]
fn net_rx_response_that_leaves_its_page_is_dropped() {
    let mut b = bufs();
    let p = VQ_CTRL_NET_RX_HOST;
    put_u32(&mut b.host, p, u32::MAX);
    for i in 0..((VQ_CTRL_BLK_HOST - p) / 16) {
        put_iov(&mut b.host, p + 4 + 16 * i, 0x100, 0);
    }
    let gw = gateway_init();
    assert_eq!(
        handle_net_rx_response(&gw.modules, &mut mem(&mut b)),
        Outcome::Dropped(DropReason::Truncated)
    );
    assert_eq!(b.data, vec![0u8; DATA_SIZE]);
}

#[test]
fn net_rx_num_buffers_is_stored_in_the_header() {
    let mut b = bufs();
    for x in b.data[0x7000..0x7010].iter_mut() {
        *x = 0xee;
    }
    put_u64(&mut b.host, VQ_CTRL_NET_RX_HOST, VQ_START + 0x7000);
    put_u16(&mut b.host, VQ_CTRL_NET_RX_HOST + 8, 0x0203);
    assert_eq!(handle_net_rx_num_buffers(&mut mem(&mut b)), Outcome::Done);
    assert_eq!(&b.data[0x7000..0x700a], &[0xee; 10]);
    assert_eq!(&b.data[0x700a..0x700c], &[0x03, 0x02]);
    assert_eq!(&b.data[0x700c..0x7010], &[0xee; 4]);
}

#[test]
fn net_rx_num_buffers_outside_the_data_region_is_dropped() {
    let mut b = bufs();
    put_u16(&mut b.host, VQ_CTRL_NET_RX_HOST + 8, 5);
    for base in [0u64, VQ_START - 1, VQ_START + DATA_SIZE as u64 - 11, VQ_START + DATA_SIZE as u64] {
        put_u64(&mut b.host, VQ_CTRL_NET_RX_HOST, base);
        assert_eq!(
            handle_net_rx_num_buffers(&mut mem(&mut b)),
            Outcome::Dropped(DropReason::BadIov)
        );
    }
    assert_eq!(b.data, vec![0u8; DATA_SIZE]);
    put_u64(&mut b.host, VQ_CTRL_NET_RX_HOST, VQ_START + DATA_SIZE as u64 - 12);
    assert_eq!(handle_net_rx_num_buffers(&mut mem(&mut b)), Outcome::Done);
    assert_eq!(b.data[DATA_SIZE - 2], 5);
}

fn p9_request(b: &mut Bufs) {
    put_u32(&mut b.ctrl, 0, 0x11223344);
    put_u32(&mut b.ctrl, 4, 0xdeadbeef);
    put_u64(&mut b.ctrl, 8, 7);
    put_u64(&mut b.ctrl, 16, 11);
    put_u16(&mut b.ctrl, 24, 2);
    put_u16(&mut b.ctrl, 26, 3);
    put_u32(&mut b.ctrl, 28, 0xcafef00d);
    put_iov(&mut b.ctrl, 32, 0x1000, 0x100);
    put_iov(&mut b.ctrl, 48, 0x2000, 0x80);
    put_iov(&mut b.ctrl, 64, 0x3000, 1);
    put_iov(&mut b.ctrl, 2080, 0x4000, 0x200);
    put_iov(&mut b.ctrl, 2096, 0x5000, 0x10);
    for i in 0..DATA_SIZE {
        b.data[i] = (i % 239) as u8 + 1;
    }
}

fn p9_covered(i: usize) -> bool {
    (0x1000..0x1100).contains(&i)
        || (0x2000..0x2080).contains(&i)
        || i == 0x3000
        || (0x4000..0x4200).contains(&i)
        || (0x5000..0x5010).contains(&i)
}

#[test]
fn p9_request_with_three_in_and_two_out_iovs() {
    let mut b = bufs();
    p9_request(&mut b);
    let mut gw = Gateway::new();
    let out = handle_p9_request(&mut gw, &mut mem(&mut b));
    assert_eq!(out, Outcome::Done);
    assert_eq!(&b.host[VQ_CTRL_9P_HOST..VQ_CTRL_9P_HOST + P9PDU_SIZE], &b.ctrl[..P9PDU_SIZE]);
    for i in 0..DATA_SIZE {
        assert_eq!(b.host[i], if p9_covered(i) { b.data[i] } else { 0 });
    }
    assert_eq!(gw.p9pdu.queue_head, 0x11223344);
    assert_eq!(gw.p9pdu.read_offset, 7);
    assert_eq!(gw.p9pdu.write_offset, 11);
    assert_eq!(gw.p9pdu.out_iov_cnt, 2);
    assert_eq!(gw.p9pdu.in_iov_cnt, 3);
    assert_eq!(gw.p9pdu.in_iov.len(), 3);
    assert_eq!(gw.p9pdu.out_iov.len(), 2);
    assert_eq!(gw.p9pdu.in_iov[1].iov_base, VQ_START + 0x2000);
    assert_eq!(gw.p9pdu.out_iov[1].iov_len, 0x10);
}

#[test]
fn p9_response_uses_the_kept_request() {
    let mut b = bufs();
    p9_request(&mut b);
    let mut gw = Gateway::new();
    assert_eq!(handle_p9_request(&mut gw, &mut mem(&mut b)), Outcome::Done);
    put_u16(&mut b.ctrl, 24, 200);
    put_u16(&mut b.ctrl, 26, 200);
    put_iov(&mut b.ctrl, 32, 0x9000, 0x1000);
    for i in 0..DATA_SIZE {
        b.host[i] = 0xf0;
    }
    let before = b.data.clone();
    assert_eq!(handle_p9_response(&gw, &mut mem(&mut b)), Outcome::Done);
    for i in 0..DATA_SIZE {
        assert_eq!(b.data[i], if p9_covered(i) { 0xf0 } else { before[i] });
    }
}

#[test]
fn p9_response_before_any_request_copies_nothing() {
    let mut b = bufs();
    for i in 0..DATA_SIZE {
        b.host[i] = 0xf0;
    }
    let gw = Gateway::new();
    assert_eq!(handle_p9_response(&gw, &mut mem(&mut b)), Outcome::Done);
    assert_eq!(b.data, vec![0u8; DATA_SIZE]);
}

#[test]
fn p9_request_with_too_many_descriptors_is_dropped() {
    let mut b = bufs();
    p9_request(&mut b);
    put_u16(&mut b.ctrl, 24, 100);
    put_u16(&mut b.ctrl, 26, 29);
    let mut gw = Gateway::new();
    assert_eq!(
        handle_p9_request(&mut gw, &mut mem(&mut b)),
        Outcome::Dropped(DropReason::TooManyIovs)
    );
    assert_eq!(b.host, vec![0u8; HOST_SIZE]);
    assert_eq!(gw.p9pdu.in_iov_cnt, 0);
    assert_eq!(gw.p9pdu.out_iov_cnt, 0);
}

#[test]
fn p9_request_with_bad_descriptor_keeps_the_old_request() {
    let mut b = bufs();
    p9_request(&mut b);
    let mut gw = Gateway::new();
    assert_eq!(handle_p9_request(&mut gw, &mut mem(&mut b)), Outcome::Done);
    let host_before = b.host.clone();
    put_iov(&mut b.ctrl, 2096, DATA_SIZE - 8, 0x10);
    put_u64(&mut b.ctrl, 8, 99);
    assert_eq!(
        handle_p9_request(&mut gw, &mut mem(&mut b)),
        Outcome::Dropped(DropReason::BadIov)
    );
    assert_eq!(b.host, host_before);
    assert_eq!(gw.p9pdu.read_offset, 7);
    assert_eq!(gw.p9pdu.out_iov[1].iov_base, VQ_START + 0x5000);
}

#[test]
fn p9_request_takes_full_virtqueue() {
    let mut b = bufs();
    put_u16(&mut b.ctrl, 24, 64);
    put_u16(&mut b.ctrl, 26, 64);
    for i in 0..64 {
        put_iov(&mut b.ctrl, 32 + 16 * i, 32 * i, 16);
        put_iov(&mut b.ctrl, 2080 + 16 * i, 32 * i + 16, 16);
    }
    for x in b.data[..4096].iter_mut() {
        *x = 0x3c;
    }
    let mut gw = Gateway::new();
    assert_eq!(handle_p9_request(&mut gw, &mut mem(&mut b)), Outcome::Done);
    assert_eq!(&b.host[..2048], &[0x3c; 2048][..]);
    assert_eq!(&b.host[2048..4096], &[0u8; 2048][..]);
}

#[test]
fn vsock_requests_are_checked_and_touch_nothing() {
    let mut b = bufs();
    {
        let m = mem(&mut b);
        assert_eq!(handle_vsock_tx(&m), Outcome::Dropped(DropReason::NoIovs));
        assert_eq!(handle_vsock_rx(&m), Outcome::Dropped(DropReason::NoIovs));
    }
    put_u32(&mut b.ctrl, VQ_CTRL_VSOCK_TX, 3);
    put_iov(&mut b.ctrl, VQ_CTRL_VSOCK_TX + 8, 0, 100);
    put_iov(&mut b.ctrl, VQ_CTRL_VSOCK_TX + 24, 0, 8192);
    put_iov(&mut b.ctrl, VQ_CTRL_VSOCK_TX + 40, 0, usize::MAX);
    put_u32(&mut b.ctrl, VQ_CTRL_VSOCK_RX, 129);
    {
        let m = mem(&mut b);
        assert_eq!(handle_vsock_tx(&m), Outcome::Done);
        assert_eq!(handle_vsock_rx(&m), Outcome::Dropped(DropReason::TooManyIovs));
        assert_eq!(__handle_vsock(&m, VQ_CTRL_VSOCK_TX), Outcome::Done);
        assert_eq!(__handle_vsock(&m, 0), Outcome::Dropped(DropReason::NoIovs));
    }
    assert_eq!(b.data, vec![0u8; DATA_SIZE]);
    assert_eq!(b.host, vec![0u8; HOST_SIZE]);
}

#[test]
fn data_region_is_aligned_to_two_mebibytes() {
    assert_eq!(align_to_2mb(0), 0x20_0000);
    assert_eq!(align_to_2mb(1), 0x20_0000);
    assert_eq!(align_to_2mb(0x1f_ffff), 0x20_0000);
    assert_eq!(align_to_2mb(0x20_0000), 0x40_0000);
    assert_eq!(align_to_2mb(0x8123_4567), 0x8140_0000);
}

#[test]
fn shared_regions_are_laid_out_at_fixed_offsets() {
    let (layout, data, ctrl) = create_memory_cvm_shared(0x8123_4567, 0x8400_0000);
    assert_eq!(layout.data, 0x8140_0000);
    assert_eq!(layout.ctrl, 0x8400_0000);
    assert_eq!(layout.ctrl_9p, 0x8400_0000);
    assert_eq!(layout.ctrl_vsock_tx, 0x8400_0000 + 0x80000);
    assert_eq!(layout.ctrl_vsock_rx, 0x8400_0000 + 0xC8000);
    assert_eq!(layout.ctrl_net_tx, 0x8400_0000 + 0x100000);
    assert_eq!(layout.ctrl_net_rx, 0x8400_0000 + 0x180000);
    assert_eq!(layout.ctrl_blk, 0x8400_0000 + 0x1C8000);
    assert_eq!((data.id, data.ipa, data.size), (0, 0x8140_0000, 16 * 1024 * 1024));
    assert_eq!((ctrl.id, ctrl.ipa, ctrl.size), (1, 0x8400_0000, 2 * 1024 * 1024));
}
