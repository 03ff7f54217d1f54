//! What the completion-polling task does with each work completion.
use vstd::prelude::*;

use crate::cq::{opcode_of, wc_status_of, Opcode, WCStatus, WC};

verus! {

/// What a work completion asks of the connection.
#[derive(Clone, Copy, Debug, PartialEq, Eq, Structural)]
pub enum Completion {
    /// A write of the peer arrived: replenish the receive queue with one
    /// request and hand `(length, imm)` to the receiver.
    Received { length: u32, imm: u32 },
    /// One of our writes finished: its send slot may be reused.
    WriteDone { wr_id: u64 },
    /// Another opcode: nothing to do.
    Other(Opcode),
    /// The completion failed: the connection is over.
    Failed(WCStatus),
}

pub open spec fn completion_of(wc: WC) -> Completion {
    if wc_status_of(wc.status) != WCStatus::Success {
        Completion::Failed(wc_status_of(wc.status))
    } else {
        match opcode_of(wc.opcode) {
            Opcode::WriteWithImm => Completion::Received { length: wc.byte_len, imm: wc.imm_data },
            Opcode::Write => Completion::WriteDone { wr_id: wc.wr_id },
            op => Completion::Other(op),
        }
    }
}

/// Sorts a completion by its status and opcode.
pub fn dispatch(wc: &WC) -> (r: Completion)
    ensures
        r == completion_of(*wc),
{
    let status = wc.status();
    match status {
        WCStatus::Success => {},
        _ => {
            return Completion::Failed(status);
        },
    }
    match wc.opcode() {
        Opcode::WriteWithImm => Completion::Received { length: wc.byte_len(), imm: wc.imm_data() },
        Opcode::Write => Completion::WriteDone { wr_id: wc.wr_id() },
        op => Completion::Other(op),
    }
}

} // verus!
