use cvm_gateway::rsi::{
    host_call_msg_type, rsi_cloak_create_memory_shared, rsi_cloak_host_call, rsi_print,
    rsi_set_memory_host_shared, rsi_set_memory_range, rsi_set_memory_realm, smc_call,
    HostCallArg, SmcParam,
};

fn regs(p: &SmcParam) -> [u64; 11] {
    [p.x0, p.x1, p.x2, p.x3, p.x4, p.x5, p.x6, p.x7, p.x8, p.x9, p.x10]
}

#[test]
fn smc_call_packs_registers() {
    let p = smc_call(1, 2, 3, 4);
    assert_eq!(regs(&p), [1, 2, 3, 4, 0, 0, 0, 0, 0, 0, 0]);
}

#[test]
fn set_memory_realm_repeats_until_top_reaches_end() {
    let call = rsi_set_memory_realm(0x8000_0000, 0x9000_0000, 0x8000_0000).unwrap();
    assert_eq!(regs(&call), [0xC400_0197, 0x8000_0000, 0x1000_0000, 1, 0, 0, 0, 0, 0, 0, 0]);
    let call = rsi_set_memory_realm(0x8000_0000, 0x9000_0000, 0x8800_0000).unwrap();
    assert_eq!(regs(&call), [0xC400_0197, 0x8000_0000, 0x1000_0000, 1, 0, 0, 0, 0, 0, 0, 0]);
    assert_eq!(rsi_set_memory_realm(0x8000_0000, 0x9000_0000, 0x9000_0000), None);
}

#[test]
fn set_memory_host_shared_uses_empty_state() {
    let call = rsi_set_memory_host_shared(0x8840_0000, 0x8c40_0000, 0x8840_0000).unwrap();
    assert_eq!(regs(&call), [0xC400_0197, 0x8840_0000, 0x0400_0000, 0, 0, 0, 0, 0, 0, 0, 0]);
    assert_eq!(rsi_set_memory_host_shared(0x8840_0000, 0x8c40_0000, 0x8c40_0000), None);
}

#[test]
fn set_memory_range_of_no_addresses_needs_no_call() {
    assert_eq!(rsi_set_memory_range(5, 5, 1, 5), None);
    let call = rsi_set_memory_range(5, 5, 7, 0).unwrap();
    assert_eq!(regs(&call), [0xC400_0197, 5, 0, 7, 0, 0, 0, 0, 0, 0, 0]);
}

#[test]
fn create_memory_shared_names_channel_address_and_size() {
    let p = rsi_cloak_create_memory_shared(1, 0x8400_0000, 0x20_0000);
    assert_eq!(regs(&p), [0xC400_0200, 1, 0x8400_0000, 0x20_0000, 0, 0, 0, 0, 0, 0, 0]);
}

#[test]
fn host_call_announces_outlen() {
    let arg = rsi_cloak_host_call(999999);
    assert_eq!(arg.imm, 799);
    assert_eq!(arg.gprs, [999999, 0, 0, 0, 0, 0, 0]);
    assert_eq!(host_call_msg_type(&arg), 0);
    let reply = HostCallArg { imm: 799, gprs: [1, 2, 3, 4, 5, 6, 16] };
    assert_eq!(host_call_msg_type(&reply), 16);
}

#[test]
fn print_pads_message_with_zeros() {
    let call = rsi_print("net_tx!", 3, 4).unwrap();
    assert_eq!(call.msg.len(), 1024);
    assert_eq!(&call.msg[..7], b"net_tx!");
    assert!(call.msg[7..].iter().all(|b| *b == 0));
    assert_eq!(call.data1, 3);
    assert_eq!(call.data2, 4);
    let call = rsi_print("", 0, 0).unwrap();
    assert!(call.msg.iter().all(|b| *b == 0));
}

#[test]
fn print_drops_long_messages() {
    let longest = "x".repeat(1023);
    let call = rsi_print(&longest, 0, 0).unwrap();
    assert_eq!(call.msg.len(), 1024);
    assert_eq!(&call.msg[..1023], longest.as_bytes());
    assert_eq!(call.msg[1023], 0);
    assert!(rsi_print(&"x".repeat(1024), 0, 0).is_none());
    assert!(rsi_print(&"x".repeat(5000), 0, 0).is_none());
}
