//! Realm services interface: the parameter blocks of the calls to the
//! monitor. The call itself is made by the program that embeds this
//! library.

use vstd::prelude::*;
use vstd::string::StringSliceAdditionalSpecFns;

verus! {

pub const RSI_IPA_STATE_SET: u64 = 0xC400_0197;

pub const RSI_CLOAK_PRINT_CALL: u64 = 0xC400_0204;

pub const RSI_CHANNEL_CREATE: u64 = 0xC400_0200;

pub const RSI_HOST_CALL: u64 = 0xC400_0199;

pub const RSI_RIPAS_EMPTY: u64 = 0;

pub const RSI_RIPAS_RAM: u64 = 1;

/// Immediate value of the gateway's host calls.
pub const CLOAK_HOST_CALL: u16 = 799;

/// Size of the message buffer of a print call.
pub const PRINT_MSG_SIZE: usize = 1024;

/// Number of registers that a host call exchanges.
pub const HOST_CALL_GPRS: usize = 7;

/// The eleven registers of a call to the monitor.
#[derive(Clone, Copy, PartialEq, Eq, Structural, Debug)]
pub struct SmcParam {
    pub x0: u64,
    pub x1: u64,
    pub x2: u64,
    pub x3: u64,
    pub x4: u64,
    pub x5: u64,
    pub x6: u64,
    pub x7: u64,
    pub x8: u64,
    pub x9: u64,
    pub x10: u64,
}

/// The parameter block of a print call.
pub struct PrintCall {
    pub msg: Vec<u8>,
    pub data1: u64,
    pub data2: u64,
}

/// The argument of a host call.
#[derive(Clone, Copy, Debug)]
pub struct HostCallArg {
    pub imm: u16,
    pub gprs: [u64; 7],
}

/// The registers of a call with function number `x0` and up to three
/// arguments; the other registers are zero.
pub open spec fn smc_param(x0: u64, x1: u64, x2: u64, x3: u64) -> SmcParam {
    SmcParam { x0, x1, x2, x3, x4: 0, x5: 0, x6: 0, x7: 0, x8: 0, x9: 0, x10: 0 }
}

/// The message buffer of a print call: the message, then zeros up to 1024
/// bytes.
pub open spec fn print_msg(msg: Seq<u8>) -> Seq<u8> {
    Seq::new(
        PRINT_MSG_SIZE as nat,
        |i: int|
            if i < msg.len() {
                msg[i]
            } else {
                0u8
            },
    )
}

/// Packs the registers of a call to the monitor.
pub fn smc_call(x0: u64, x1: u64, x2: u64, x3: u64) -> (param: SmcParam)
    ensures
        param == smc_param(x0, x1, x2, x3),
{
    SmcParam { x0, x1, x2, x3, x4: 0, x5: 0, x6: 0, x7: 0, x8: 0, x9: 0, x10: 0 }
}

/// Builds the parameter block that prints `msg` with two numbers. A
/// message of more than 1023 bytes is not printed.
pub fn rsi_print(msg: &str, data1: u64, data2: u64) -> (call: Option<PrintCall>)
    ensures
        call is Some <==> msg.spec_bytes().len() <= PRINT_MSG_SIZE - 1,
        call matches Some(c) ==> c.msg@ == print_msg(msg.spec_bytes()) && c.data1 == data1
            && c.data2 == data2,
{
    let msg_bytes = msg.as_bytes();
    let len: usize = msg_bytes.len();
    if len > PRINT_MSG_SIZE - 1 {
        return None;
    }
    let mut buf: Vec<u8> = Vec::new();
    let mut i: usize = 0;
    while i < PRINT_MSG_SIZE
        invariant
            len == msg_bytes@.len(),
            len <= PRINT_MSG_SIZE - 1,
            i <= PRINT_MSG_SIZE,
            buf@.len() == i,
            forall|j: int| 0 <= j < i ==> buf@[j] == print_msg(msg_bytes@)[j],
        decreases PRINT_MSG_SIZE - i,
    {
        if i < len {
            buf.push(msg_bytes[i]);
        } else {
            buf.push(0);
        }
        i += 1;
    }
    assert(buf@ =~= print_msg(msg_bytes@));
    Some(PrintCall { msg: buf, data1, data2 })
}

/// The next call that sets the state of the addresses from `start` to
/// `end`, given the address `curr` up to which the monitor has come:
/// none once it has reached `end`, else the same call again.
pub fn rsi_set_memory_range(start: u64, end: u64, ripas: u64, curr: u64) -> (call: Option<
    SmcParam,
>)
    requires
        start <= end,
    ensures
        curr == end ==> call is None,
        curr != end ==> call == Some(
            smc_param(RSI_IPA_STATE_SET, start, (end - start) as u64, ripas),
        ),
{
    if curr != end {
        Some(smc_call(RSI_IPA_STATE_SET, start, end - start, ripas))
    } else {
        None
    }
}

/// The next call that makes the addresses from `start` to `end` memory of
/// the realm.
pub fn rsi_set_memory_realm(start: u64, end: u64, curr: u64) -> (call: Option<SmcParam>)
    requires
        start <= end,
    ensures
        curr == end ==> call is None,
        curr != end ==> call == Some(
            smc_param(RSI_IPA_STATE_SET, start, (end - start) as u64, RSI_RIPAS_RAM),
        ),
{
    rsi_set_memory_range(start, end, RSI_RIPAS_RAM, curr)
}

/// The next call that shares the addresses from `start` to `end` with the
/// host.
pub fn rsi_set_memory_host_shared(start: u64, end: u64, curr: u64) -> (call: Option<SmcParam>)
    requires
        start <= end,
    ensures
        curr == end ==> call is None,
        curr != end ==> call == Some(
            smc_param(RSI_IPA_STATE_SET, start, (end - start) as u64, RSI_RIPAS_EMPTY),
        ),
{
    rsi_set_memory_range(start, end, RSI_RIPAS_EMPTY, curr)
}

/// The call that publishes a shared region as channel `id`.
pub fn rsi_cloak_create_memory_shared(id: u64, ipa: u64, size: u64) -> (param: SmcParam)
    ensures
        param == smc_param(RSI_CHANNEL_CREATE, id, ipa, size),
{
    smc_call(RSI_CHANNEL_CREATE, id, ipa, size)
}

/// The argument of a host call that announces `outlen`: the gateway's
/// immediate value, `outlen` in the first register and zeros in the
/// others.
pub fn rsi_cloak_host_call(outlen: u64) -> (arg: HostCallArg)
    ensures
        arg.imm == CLOAK_HOST_CALL,
        arg.gprs@.len() == HOST_CALL_GPRS,
        arg.gprs@[0] == outlen,
        forall|i: int| 1 <= i < HOST_CALL_GPRS ==> arg.gprs@[i] == 0,
{
    let mut gprs: [u64; 7] = [0u64; 7];
    gprs[0] = outlen;
    HostCallArg { imm: CLOAK_HOST_CALL, gprs }
}

/// The type of the next message, which the host leaves in the last
/// register of a host call.
pub fn host_call_msg_type(arg: &HostCallArg) -> (msg_type: u64)
    ensures
        msg_type == arg.gprs@[6],
{
    arg.gprs[6]
}

} // verus!
