//! Dispatch: one message of the host is routed to exactly one handler.

use crate::module::ModuleRegistry;
use crate::virtio::p9::P9View;
use crate::virtio::{
    handle_blk, handle_blk_in_resp, handle_blk_in_resp_spec, handle_blk_spec,
    handle_net_rx_num_buffers, handle_net_rx_num_buffers_spec, handle_net_rx_response,
    handle_net_rx_spec, handle_net_tx_request, handle_net_tx_spec, handle_p9_request,
    handle_p9_request_spec, handle_p9_response, handle_p9_response_spec, Gateway, Memory, Outcome,
    SharedMemory,
};
use vstd::prelude::*;

verus! {

/// Length that the first host call announces.
pub const FIRST_CLOAK_OUTLEN: u64 = 999999;

pub const CLOAK_MSG_TYPE_P9: u64 = 2;

pub const CLOAK_MSG_TYPE_P9_RESP: u64 = 12;

pub const CLOAK_MSG_TYPE_NET_TX: u64 = 3;

pub const CLOAK_MSG_TYPE_NET_RX: u64 = 4;

pub const CLOAK_MSG_TYPE_NET_RX_NUM_BUFFERS: u64 = 5;

pub const CLOAK_MSG_TYPE_NET_RX_RESP: u64 = 14;

pub const CLOAK_MSG_TYPE_NET_RX_NUM_BUFFERS_RESP: u64 = 15;

pub const CLOAK_MSG_TYPE_BLK_IN_RESP: u64 = 16;

pub const CLOAK_MSG_TYPE_BLK: u64 = 6;

pub const CLOAK_MSG_TYPE_BLK_IN: u64 = 7;

/// What became of a message.
#[derive(Clone, Copy, PartialEq, Eq, Structural, Debug)]
pub enum Step {
    /// A handler ran and ended this way.
    Handled(Outcome),
    /// The message is of a type that the host should not send; it was
    /// ignored.
    Unexpected,
    /// The message is of no known type; it was ignored.
    Unsupported,
}

/// Whether the host should not send a message of this type.
pub open spec fn is_unexpected(msg_type: u64) -> bool {
    msg_type == CLOAK_MSG_TYPE_NET_RX || msg_type == CLOAK_MSG_TYPE_NET_RX_NUM_BUFFERS || msg_type
        == CLOAK_MSG_TYPE_BLK_IN
}

/// What one message comes to: the handler of its type decides the outcome,
/// the 9P request that the gateway keeps, and the memory. A message of any
/// other type changes nothing.
pub open spec fn gateway_step_spec(
    registry: &ModuleRegistry,
    kept: P9View,
    m: Memory,
    msg_type: u64,
) -> (Step, P9View, Memory) {
    if msg_type == CLOAK_MSG_TYPE_P9 {
        let r = handle_p9_request_spec(kept, m);
        (Step::Handled(r.0), r.1, r.2)
    } else if msg_type == CLOAK_MSG_TYPE_P9_RESP {
        let r = handle_p9_response_spec(kept, m);
        (Step::Handled(r.0), kept, r.1)
    } else if msg_type == CLOAK_MSG_TYPE_NET_TX {
        let r = handle_net_tx_spec(registry, m);
        (Step::Handled(r.0), kept, r.1)
    } else if msg_type == CLOAK_MSG_TYPE_NET_RX_RESP {
        let r = handle_net_rx_spec(registry, m);
        (Step::Handled(r.0), kept, r.1)
    } else if msg_type == CLOAK_MSG_TYPE_NET_RX_NUM_BUFFERS_RESP {
        let r = handle_net_rx_num_buffers_spec(m);
        (Step::Handled(r.0), kept, r.1)
    } else if msg_type == CLOAK_MSG_TYPE_BLK {
        let r = handle_blk_spec(registry, m);
        (Step::Handled(r.0), kept, r.1)
    } else if msg_type == CLOAK_MSG_TYPE_BLK_IN_RESP {
        let r = handle_blk_in_resp_spec(registry, m);
        (Step::Handled(r.0), kept, r.1)
    } else if is_unexpected(msg_type) {
        (Step::Unexpected, kept, m)
    } else {
        (Step::Unsupported, kept, m)
    }
}

/// One turn of the gateway's main loop: routes the message that the host
/// call returned to the handler of its type. The caller makes the host
/// call, logs what was dropped or ignored, and halts on
/// `Step::Handled(Outcome::Denied)`.
pub fn gateway_step(gw: &mut Gateway, mem: &mut SharedMemory, msg_type: u64) -> (step: Step)
    requires
        old(gw).wf(),
        old(mem).wf(),
    ensures
        final(gw).wf(),
        final(gw).modules == old(gw).modules,
        final(mem).wf(),
        step == gateway_step_spec(&old(gw).modules, old(gw).p9pdu@, old(mem)@, msg_type).0,
        final(gw).p9pdu@ == gateway_step_spec(
            &old(gw).modules,
            old(gw).p9pdu@,
            old(mem)@,
            msg_type,
        ).1,
        final(mem).holds(
            gateway_step_spec(&old(gw).modules, old(gw).p9pdu@, old(mem)@, msg_type).2,
        ),
{
    if msg_type == CLOAK_MSG_TYPE_P9 {
        Step::Handled(handle_p9_request(gw, mem))
    } else if msg_type == CLOAK_MSG_TYPE_P9_RESP {
        Step::Handled(handle_p9_response(gw, mem))
    } else if msg_type == CLOAK_MSG_TYPE_NET_TX {
        Step::Handled(handle_net_tx_request(&gw.modules, mem))
    } else if msg_type == CLOAK_MSG_TYPE_NET_RX_RESP {
        Step::Handled(handle_net_rx_response(&gw.modules, mem))
    } else if msg_type == CLOAK_MSG_TYPE_NET_RX_NUM_BUFFERS_RESP {
        Step::Handled(handle_net_rx_num_buffers(mem))
    } else if msg_type == CLOAK_MSG_TYPE_BLK {
        Step::Handled(handle_blk(&gw.modules, mem))
    } else if msg_type == CLOAK_MSG_TYPE_BLK_IN_RESP {
        Step::Handled(handle_blk_in_resp(&gw.modules, mem))
    } else if msg_type == CLOAK_MSG_TYPE_NET_RX || msg_type == CLOAK_MSG_TYPE_NET_RX_NUM_BUFFERS
        || msg_type == CLOAK_MSG_TYPE_BLK_IN {
        Step::Unexpected
    } else {
        Step::Unsupported
    }
}

/// The gateway as it starts: the hardening module registered at priority
/// 0 and no request seen.
pub fn gateway_init() -> (gw: Gateway)
    ensures
        gw.wf(),
        gw.modules.modules@.len() == 1,
        gw.modules.modules@[0].priority == 0,
        gw.modules.modules@[0].name@ == "cvm_hardening"@,
        gw.modules.modules@[0].blk_write is CvmHardening,
        gw.modules.modules@[0].blk_read is CvmHardening,
        gw.modules.modules@[0].net_tx is CvmHardening,
        gw.modules.modules@[0].net_rx is CvmHardening,
        gw.modules.permits_blk(true),
        gw.modules.permits_blk(false),
        gw.p9pdu@ == P9View::empty(),
{
    let mut gw = Gateway::new();
    let added = crate::module::add_module(
        &mut gw.modules,
        "cvm_hardening",
        0,
        crate::module::BlkWriteFunc::CvmHardening,
        crate::module::BlkReadFunc::CvmHardening,
        crate::module::NetTxFunc::CvmHardening,
        crate::module::NetRxFunc::CvmHardening,
    );
    assert(added);
    gw
}

/// A message is denied only where a registered module denies block
/// traffic: with a registry that permits block writes and block reads, no
/// message ever is.
pub proof fn lemma_denied_only_by_module(
    registry: &ModuleRegistry,
    kept: P9View,
    m: Memory,
    msg_type: u64,
)
    requires
        gateway_step_spec(registry, kept, m, msg_type).0 == Step::Handled(Outcome::Denied),
    ensures
        msg_type == CLOAK_MSG_TYPE_BLK || msg_type == CLOAK_MSG_TYPE_BLK_IN_RESP,
        msg_type == CLOAK_MSG_TYPE_BLK ==> !registry.permits_blk(true),
        msg_type == CLOAK_MSG_TYPE_BLK_IN_RESP ==> !registry.permits_blk(false),
        gateway_step_spec(registry, kept, m, msg_type).1 == kept,
        gateway_step_spec(registry, kept, m, msg_type).2 == m,
{
}

/// A message of a type that has no handler changes nothing.
pub proof fn lemma_ignored_messages_change_nothing(
    registry: &ModuleRegistry,
    kept: P9View,
    m: Memory,
    msg_type: u64,
)
    requires
        gateway_step_spec(registry, kept, m, msg_type).0 is Unexpected || gateway_step_spec(
            registry,
            kept,
            m,
            msg_type,
        ).0 is Unsupported,
    ensures
        gateway_step_spec(registry, kept, m, msg_type).1 == kept,
        gateway_step_spec(registry, kept, m, msg_type).2 == m,
{
}

} // verus!
