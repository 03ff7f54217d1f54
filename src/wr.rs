//! Work requests: what is posted to the send and receive queues, as plain
//! values that the verbs layer copies into its own structures.
use vstd::prelude::*;

use crate::mr::{LocalBuf, RemoteBuf};

verus! {

/// The one-sided operations, with the immediate data of a write that carries
/// one.
#[derive(Clone, Copy, Debug, PartialEq, Eq, Structural)]
pub enum RDMAType {
    READ,
    WRITE,
    /// A write whose immediate data reaches the peer in the completion of the
    /// receive request it consumes.
    WRITEIMM(u32),
}

/// The remote side of a one-sided operation.
#[derive(Clone, Copy, Debug, PartialEq, Eq, Structural)]
pub struct RDMA {
    pub rdma_type: RDMAType,
    pub addr: u64,
    pub rkey: u32,
}

impl RDMA {
    pub fn new(rdma_type: RDMAType, addr: u64, rkey: u32) -> (r: RDMA)
        ensures
            r == (RDMA { rdma_type, addr, rkey }),
    {
        RDMA { rdma_type, addr, rkey }
    }
}

/// Which queue a work request goes to.
#[derive(Clone, Copy, Debug, PartialEq, Eq, Structural)]
pub enum WRType {
    SEND,
    RECV,
}

/// Opcode of a request on the send queue.
#[derive(Clone, Copy, Debug, PartialEq, Eq, Structural)]
pub enum WrOpcode {
    Send,
    RdmaRead,
    RdmaWrite,
    RdmaWriteWithImm,
}

/// A work request: its queue, its id, its scatter-gather list and, for a
/// one-sided operation, the remote side.
#[derive(Clone, Debug)]
pub struct WR {
    pub wr_type: WRType,
    pub wr_id: u64,
    pub sges: Vec<LocalBuf>,
    pub rdma: Option<RDMA>,
}

/// A request for the send queue, field by field.
#[derive(Clone, Copy, Debug, PartialEq, Eq, Structural)]
pub struct SendWr {
    pub wr_id: u64,
    pub opcode: WrOpcode,
    pub imm_data: u32,
    pub remote_addr: u64,
    pub rkey: u32,
    pub num_sge: usize,
    pub signaled: bool,
}

/// A request for the receive queue, field by field.
#[derive(Clone, Copy, Debug, PartialEq, Eq, Structural)]
pub struct RecvWr {
    pub wr_id: u64,
    pub num_sge: usize,
}

pub open spec fn opcode_for(rdma: Option<RDMA>) -> WrOpcode {
    match rdma {
        None => WrOpcode::Send,
        Some(r) => match r.rdma_type {
            RDMAType::READ => WrOpcode::RdmaRead,
            RDMAType::WRITE => WrOpcode::RdmaWrite,
            RDMAType::WRITEIMM(_) => WrOpcode::RdmaWriteWithImm,
        },
    }
}

pub open spec fn imm_for(rdma: Option<RDMA>) -> u32 {
    match rdma {
        Some(RDMA { rdma_type: RDMAType::WRITEIMM(imm), .. }) => imm,
        _ => 0,
    }
}

impl WR {
    pub fn new(wr_id: u64, wr_type: WRType, sges: Vec<LocalBuf>, rdma: Option<RDMA>) -> (r: WR)
        ensures
            r.wr_id == wr_id,
            r.wr_type == wr_type,
            r.sges@ == sges@,
            r.rdma == rdma,
    {
        WR { wr_type, wr_id, sges, rdma }
    }

    /// The send-queue request: SEND without a remote side, else the one-sided
    /// opcode with the remote address and key; the immediate data only for a
    /// write that carries it. Every request is signalled, so that its
    /// completion frees its send slot.
    pub fn build_send_wr(&self) -> (r: SendWr)
        ensures
            r.wr_id == self.wr_id,
            r.opcode == opcode_for(self.rdma),
            r.imm_data == imm_for(self.rdma),
            r.remote_addr == (match self.rdma {
                Some(x) => x.addr,
                None => 0,
            }),
            r.rkey == (match self.rdma {
                Some(x) => x.rkey,
                None => 0,
            }),
            r.num_sge == self.sges@.len(),
            r.signaled,
    {
        let num_sge = self.sges.len();
        match self.rdma {
            None => SendWr {
                wr_id: self.wr_id,
                opcode: WrOpcode::Send,
                imm_data: 0,
                remote_addr: 0,
                rkey: 0,
                num_sge,
                signaled: true,
            },
            Some(rdma) => {
                let (opcode, imm_data) = match rdma.rdma_type {
                    RDMAType::READ => (WrOpcode::RdmaRead, 0),
                    RDMAType::WRITE => (WrOpcode::RdmaWrite, 0),
                    RDMAType::WRITEIMM(imm) => (WrOpcode::RdmaWriteWithImm, imm),
                };
                SendWr {
                    wr_id: self.wr_id,
                    opcode,
                    imm_data,
                    remote_addr: rdma.addr,
                    rkey: rdma.rkey,
                    num_sge,
                    signaled: true,
                }
            },
        }
    }

    /// The receive-queue request.
    pub fn build_recv_wr(&self) -> (r: RecvWr)
        ensures
            r == (RecvWr { wr_id: self.wr_id, num_sge: self.sges@.len() as usize }),
    {
        RecvWr { wr_id: self.wr_id, num_sge: self.sges.len() }
    }
}

/// The write that carries one message: the local slot as the only entry,
/// the peer's slot as the target, and the credit as immediate data.
pub fn write_with_imm(local_buf: LocalBuf, remote_buf: RemoteBuf, imm: u32, wr_id: u64) -> (r: WR)
    ensures
        r.wr_type == WRType::SEND,
        r.wr_id == wr_id,
        r.sges@ == seq![local_buf],
        r.rdma == Some(RDMA { rdma_type: RDMAType::WRITEIMM(imm), addr: remote_buf.addr, rkey: remote_buf.rkey }),
{
    let mut sges: Vec<LocalBuf> = Vec::new();
    sges.push(local_buf);
    proof {
        assert(sges@ =~= seq![local_buf]);
    }
    WR::new(wr_id, WRType::SEND, sges, Some(RDMA::new(RDMAType::WRITEIMM(imm), remote_buf.addr, remote_buf.rkey)))
}

/// A receive request with no scatter-gather entry: the writes it receives
/// carry only immediate data into it, their payload going straight to the
/// registered region.
pub fn null_recv() -> (r: WR)
    ensures
        r.wr_type == WRType::RECV,
        r.wr_id == 0,
        r.sges@.len() == 0,
        r.rdma.is_none(),
{
    WR::new(0, WRType::RECV, Vec::new(), None)
}

} // verus!
