use cvm_gateway::entry::get_cpu_id;
use cvm_gateway::gateway::{gateway_init, gateway_step, Step};
use cvm_gateway::module::{add_module, BlkReadFunc, BlkWriteFunc, NetRxFunc, NetTxFunc};
use cvm_gateway::virtio::{
    DropReason, Outcome, SharedMemory, VQ_CTRL_BLK_AES_TAG_HOST, VQ_CTRL_BLK_HOST,
    VQ_CTRL_BLK_IN_HOST, VQ_CTRL_NET_RX_HOST, VQ_CTRL_NET_TX, VQ_CTRL_SIZE, VQ_START,
};

const DATA_SIZE: usize = 0x1_0000;
const HOST_SIZE: usize = VQ_CTRL_BLK_AES_TAG_HOST + 0x100;

struct Bufs {
    ctrl: Vec<u8>,
    data: Vec<u8>,
    host: Vec<u8>,
}

fn bufs() -> Bufs {
    Bufs { ctrl: vec![0u8; VQ_CTRL_SIZE], data: vec![0u8; DATA_SIZE], host: vec![0u8; HOST_SIZE] }
}

fn mem(b: &mut Bufs) -> SharedMemory<'_> {
    SharedMemory::new(&b.ctrl, &mut b.data, &mut b.host).unwrap()
}

fn put_u32(m: &mut [u8], at: usize, v: u32) {
    m[at..at + 4].copy_from_slice(&v.to_le_bytes());
}

fn put_u64(m: &mut [u8], at: usize, v: u64) {
    m[at..at + 8].copy_from_slice(&v.to_le_bytes());
}

fn block_write(b: &mut Bufs) {
    put_u32(&mut b.data, 0, 1);
    put_u64(&mut b.data, 8, 0);
    for x in b.data[0x100..0x140].iter_mut() {
        *x = 0xAA;
    }
    put_u32(&mut b.host, VQ_CTRL_BLK_HOST, 2);
    put_u32(&mut b.host, VQ_CTRL_BLK_HOST + 4, 1);
    put_u64(&mut b.host, VQ_CTRL_BLK_HOST + 8, VQ_START);
    put_u64(&mut b.host, VQ_CTRL_BLK_HOST + 16, 16);
    put_u64(&mut b.host, VQ_CTRL_BLK_HOST + 24, VQ_START + 0x100);
    put_u64(&mut b.host, VQ_CTRL_BLK_HOST + 32, 0x40);
    put_u64(&mut b.host, VQ_CTRL_BLK_HOST + 40, VQ_START + 0x200);
    put_u64(&mut b.host, VQ_CTRL_BLK_HOST + 48, 1);
}

#[test]
fn initial_gateway_holds_the_hardening_module() {
    let gw = gateway_init();
    assert_eq!(gw.modules.len(), 1);
    assert_eq!(gw.modules.modules[0].name, "cvm_hardening");
    assert_eq!(gw.modules.modules[0].priority, 0);
    assert!(gw.modules.permits_blk_write());
    assert!(gw.modules.permits_blk_read());
    assert_eq!(gw.p9pdu.in_iov_cnt, 0);
    assert_eq!(gw.p9pdu.out_iov_cnt, 0);
}

#[test]
fn each_message_type_reaches_its_handler() {
    let mut gw = gateway_init();
    let mut b = bufs();
    assert_eq!(gateway_step(&mut gw, &mut mem(&mut b), 2), Step::Handled(Outcome::Done));
    assert_eq!(gateway_step(&mut gw, &mut mem(&mut b), 12), Step::Handled(Outcome::Done));
    assert_eq!(
        gateway_step(&mut gw, &mut mem(&mut b), 3),
        Step::Handled(Outcome::Dropped(DropReason::NoIovs))
    );
    assert_eq!(gateway_step(&mut gw, &mut mem(&mut b), 14), Step::Handled(Outcome::Done));
    assert_eq!(
        gateway_step(&mut gw, &mut mem(&mut b), 15),
        Step::Handled(Outcome::Dropped(DropReason::BadIov))
    );
    assert_eq!(
        gateway_step(&mut gw, &mut mem(&mut b), 6),
        Step::Handled(Outcome::Dropped(DropReason::ShortHeader))
    );
    assert_eq!(
        gateway_step(&mut gw, &mut mem(&mut b), 16),
        Step::Handled(Outcome::Dropped(DropReason::NoStatus))
    );
    assert_eq!(b.data, vec![0u8; DATA_SIZE]);
}

#[test]
fn messages_without_handler_are_ignored() {
    let mut gw = gateway_init();
    let mut b = bufs();
    put_u32(&mut b.ctrl, VQ_CTRL_NET_TX, 1);
    put_u64(&mut b.ctrl, VQ_CTRL_NET_TX + 8, VQ_START);
    put_u64(&mut b.ctrl, VQ_CTRL_NET_TX + 16, 64);
    put_u32(&mut b.host, VQ_CTRL_NET_RX_HOST, 64);
    for t in [4u64, 5, 7] {
        assert_eq!(gateway_step(&mut gw, &mut mem(&mut b), t), Step::Unexpected);
    }
    for t in [0u64, 1, 8, 9, 10, 11, 13, 17, 799, u64::MAX] {
        assert_eq!(gateway_step(&mut gw, &mut mem(&mut b), t), Step::Unsupported);
    }
    assert_eq!(b.data, vec![0u8; DATA_SIZE]);
}

#[test]
fn block_write_through_dispatch() {
    let mut gw = gateway_init();
    let mut b = bufs();
    block_write(&mut b);
    assert_eq!(gateway_step(&mut gw, &mut mem(&mut b), 6), Step::Handled(Outcome::Done));
    assert_ne!(&b.data[0x100..0x140], &[0xAAu8; 0x40][..]);
    assert_eq!(&b.host[0x100..0x140], &b.data[0x100..0x140]);
    let sealed = b.data[0x100..0x140].to_vec();
    for x in b.data[0x100..0x140].iter_mut() {
        *x = 0;
    }
    put_u32(&mut b.host, VQ_CTRL_BLK_IN_HOST + 4, 1);
    put_u64(&mut b.host, VQ_CTRL_BLK_IN_HOST + 16, VQ_START + 0x200);
    put_u64(&mut b.host, VQ_CTRL_BLK_IN_HOST + 24, VQ_START + 0x100);
    put_u64(&mut b.host, VQ_CTRL_BLK_IN_HOST + 32, 0x40);
    assert_eq!(gateway_step(&mut gw, &mut mem(&mut b), 16), Step::Handled(Outcome::Done));
    assert_eq!(&b.data[0x100..0x140], &[0xAAu8; 0x40][..]);
    assert_eq!(&b.host[0x100..0x140], &sealed[..]);
}

#[test]
fn denial_is_reported_and_changes_nothing() {
    let mut gw = gateway_init();
    assert!(add_module(
        &mut gw.modules,
        "fl",
        9,
        BlkWriteFunc::Fl,
        BlkReadFunc::Fl,
        NetTxFunc::CvmHardening,
        NetRxFunc::Fl
    ));
    let mut b = bufs();
    block_write(&mut b);
    let data = b.data.clone();
    let host = b.host.clone();
    assert_eq!(gateway_step(&mut gw, &mut mem(&mut b), 6), Step::Handled(Outcome::Denied));
    assert_eq!(b.data, data);
    assert_eq!(b.host, host);
    assert_eq!(
        gateway_step(&mut gw, &mut mem(&mut b), 3),
        Step::Handled(Outcome::Dropped(DropReason::NoIovs))
    );
}

#[test]
fn processor_numbers_follow_the_table() {
    assert_eq!(get_cpu_id(0x00000), 0);
    assert_eq!(get_cpu_id(0x00100), 1);
    assert_eq!(get_cpu_id(0x00200), 2);
    assert_eq!(get_cpu_id(0x00300), 3);
    assert_eq!(get_cpu_id(0x10000), 4);
    assert_eq!(get_cpu_id(0x10100), 5);
    assert_eq!(get_cpu_id(0x10200), 6);
    assert_eq!(get_cpu_id(0x10300), 7);
    assert_eq!(get_cpu_id(0x8000_0000 | 0x10100), 5);
    assert_eq!(get_cpu_id(0xff00_0000_0000_0300), 3);
}

#[test]
fn processor_numbers_outside_the_table() {
    for i in 1..8u64 {
        assert_eq!(get_cpu_id(i), i);
    }
    assert_eq!(get_cpu_id(8), 0xFFFF_FFFF);
    assert_eq!(get_cpu_id(0x400), 0xFFFF_FFFF);
    assert_eq!(get_cpu_id(0x1_0000_0000), 0xFFFF_FFFF);
    assert_eq!(get_cpu_id(u64::MAX), 0xFFFF_FFFF);
}
