//! Queue-pair values: the endpoint record exchanged in the handshake, the
//! capacities a queue pair is created with, and the attribute sets that move
//! it through INIT, RTR and RTS.
use vstd::prelude::*;

use crate::bytes::{
    le_u16, le_u32, lemma_u16_bytes_round_trip, lemma_u16_round_trip, lemma_u32_bytes_round_trip,
    lemma_u32_round_trip, push_u16_le, push_u32_le, read_u16_le, read_u32_le, u16_le, u32_le,
};
use crate::default::DEFAULT_GID_INDEX;

verus! {

broadcast use vstd::array::group_array_axioms;

/// What a peer needs to address a queue pair.
#[derive(Clone, Copy, Debug, PartialEq, Eq)]
pub struct EndPoint {
    pub gid: [u8; 16],
    pub qpn: u32,
    pub lid: u16,
}

/// Size of the encoded `EndPoint`.
pub const END_POINT_LEN: usize = 22;

/// The 22-byte record `gid[16] || qpn (u32 LE) || lid (u16 LE)`.
pub open spec fn end_point_bytes(e: EndPoint) -> Seq<u8> {
    e.gid@ + u32_le(e.qpn) + u16_le(e.lid)
}

/// Whether `e` is the endpoint that the first 22 bytes of `b` encode.
pub open spec fn end_point_from(b: Seq<u8>, e: EndPoint) -> bool {
    &&& e.gid@ == b.subrange(0, 16)
    &&& e.qpn == le_u32(b.subrange(16, 20))
    &&& e.lid == le_u16(b.subrange(20, 22))
}

impl EndPoint {
    pub fn new(qpn: u32, lid: u16, gid: [u8; 16]) -> (r: EndPoint)
        ensures
            r == (EndPoint { gid, qpn, lid }),
    {
        EndPoint { qpn, lid, gid }
    }

    pub fn qpn(&self) -> (r: u32)
        ensures
            r == self.qpn,
    {
        self.qpn
    }

    pub fn lid(&self) -> (r: u16)
        ensures
            r == self.lid,
    {
        self.lid
    }

    /// Encodes the endpoint for the auxiliary channel.
    pub fn to_bytes(&self) -> (r: Vec<u8>)
        ensures
            r@ == end_point_bytes(*self),
            r@.len() == END_POINT_LEN,
    {
        let mut out: Vec<u8> = Vec::new();
        let mut i: usize = 0;
        while i < 16
            invariant
                i <= 16,
                out@ == self.gid@.take(i as int),
            decreases 16 - i,
        {
            out.push(self.gid[i]);
            assert(out@ =~= self.gid@.take(i as int + 1));
            i = i + 1;
        }
        proof {
            vstd::array::array_len_matches_n(&self.gid);
        }
        assert(self.gid@.take(16) =~= self.gid@);
        push_u32_le(&mut out, self.qpn);
        push_u16_le(&mut out, self.lid);
        assert(out@ =~= end_point_bytes(*self));
        out
    }

    /// Decodes an endpoint from the first 22 bytes of `bytes`.
    pub fn from_bytes(bytes: &[u8]) -> (r: EndPoint)
        requires
            bytes@.len() >= END_POINT_LEN,
        ensures
            end_point_from(bytes@, r),
    {
        let mut gid = [0u8; 16];
        let mut i: usize = 0;
        while i < 16
            invariant
                i <= 16,
                bytes@.len() >= END_POINT_LEN,
                forall|k: int| 0 <= k < i ==> gid@[k] == bytes@[k],
            decreases 16 - i,
        {
            gid[i] = bytes[i];
            i = i + 1;
        }
        assert(gid@ =~= bytes@.subrange(0, 16));
        let qpn = read_u32_le(bytes, 16);
        let lid = read_u16_le(bytes, 20);
        EndPoint { gid, qpn, lid }
    }
}

/// Decoding an encoded endpoint gives the endpoint back.
pub proof fn lemma_end_point_round_trip(e: EndPoint)
    ensures
        end_point_bytes(e).len() == END_POINT_LEN,
        end_point_from(end_point_bytes(e), e),
{
    vstd::array::array_len_matches_n(&e.gid);
    let b = end_point_bytes(e);
    assert(b.subrange(0, 16) =~= e.gid@);
    assert(b.subrange(16, 20) =~= u32_le(e.qpn));
    assert(b.subrange(20, 22) =~= u16_le(e.lid));
    lemma_u32_round_trip(e.qpn);
    lemma_u16_round_trip(e.lid);
}

/// Every 22-byte record is the encoding of the endpoint it decodes to.
pub proof fn lemma_end_point_bytes_round_trip(b: Seq<u8>, e: EndPoint)
    requires
        b.len() == END_POINT_LEN,
        end_point_from(b, e),
    ensures
        end_point_bytes(e) == b,
{
    vstd::array::array_len_matches_n(&e.gid);
    lemma_u32_bytes_round_trip(b.subrange(16, 20));
    lemma_u16_bytes_round_trip(b.subrange(20, 22));
    assert(end_point_bytes(e) =~= b);
}

/// Capacities a queue pair is created with.
#[derive(Clone, Copy, Debug, PartialEq, Eq, Structural)]
pub struct QPCap {
    pub max_send_wr: u32,
    pub max_recv_wr: u32,
    pub max_send_sge: u32,
    pub max_recv_sge: u32,
    pub max_inline_data: u32,
}

impl QPCap {
    /// Capacities with no inline data.
    pub fn new(max_send_wr: u32, max_recv_wr: u32, max_send_sge: u32, max_recv_sge: u32) -> (r:
        QPCap)
        ensures
            r == (QPCap { max_send_wr, max_recv_wr, max_send_sge, max_recv_sge, max_inline_data: 0 }),
    {
        QPCap { max_send_wr, max_recv_wr, max_send_sge, max_recv_sge, max_inline_data: 0 }
    }
}

/// Capacities of every connection's queue pair.
pub fn default_qp_cap() -> (r: QPCap)
    ensures
        r == (QPCap {
            max_send_wr: 1000,
            max_recv_wr: 1000,
            max_send_sge: 5,
            max_recv_sge: 5,
            max_inline_data: 0,
        }),
{
    QPCap::new(1000, 1000, 5, 5)
}

/// Attributes of the move to INIT.
#[derive(Clone, Copy, Debug, PartialEq, Eq, Structural)]
pub struct InitAttr {
    pub pkey_index: u16,
    pub port_num: u8,
    pub local_write: bool,
    pub remote_write: bool,
    pub remote_read: bool,
}

/// Attributes of the move to RTR, towards the peer's endpoint.
#[derive(Clone, Copy, Debug, PartialEq, Eq)]
pub struct RtrAttr {
    pub path_mtu: u32,
    pub dest_qp_num: u32,
    pub rq_psn: u32,
    pub max_dest_rd_atomic: u8,
    pub min_rnr_timer: u8,
    pub dlid: u16,
    pub dgid: [u8; 16],
    pub sgid_index: u8,
    pub hop_limit: u8,
    pub is_global: u8,
    pub port_num: u8,
}

/// Attributes of the move to RTS.
#[derive(Clone, Copy, Debug, PartialEq, Eq, Structural)]
pub struct RtsAttr {
    pub timeout: u8,
    pub retry_cnt: u8,
    pub rnr_retry: u8,
    pub sq_psn: u32,
    pub max_rd_atomic: u8,
}

pub fn init_attr() -> (r: InitAttr)
    ensures
        r == (InitAttr {
            pkey_index: 0,
            port_num: 1,
            local_write: true,
            remote_write: true,
            remote_read: true,
        }),
{
    InitAttr { pkey_index: 0, port_num: 1, local_write: true, remote_write: true, remote_read: true }
}

/// RTR towards `remote`: MTU 1024, PSN 0, one outstanding read, RNR timer
/// 18, a global route from GID index `DEFAULT_GID_INDEX` with hop limit 255,
/// port 1.
pub fn ready_to_receive_attr(remote: &EndPoint) -> (r: RtrAttr)
    ensures
        r == (RtrAttr {
            path_mtu: 1024,
            dest_qp_num: remote.qpn,
            rq_psn: 0,
            max_dest_rd_atomic: 1,
            min_rnr_timer: 18,
            dlid: remote.lid,
            dgid: remote.gid,
            sgid_index: DEFAULT_GID_INDEX,
            hop_limit: 255,
            is_global: 1,
            port_num: 1,
        }),
{
    RtrAttr {
        path_mtu: 1024,
        dest_qp_num: remote.qpn,
        rq_psn: 0,
        max_dest_rd_atomic: 1,
        min_rnr_timer: 18,
        dlid: remote.lid,
        dgid: remote.gid,
        sgid_index: DEFAULT_GID_INDEX,
        hop_limit: 255,
        is_global: 1,
        port_num: 1,
    }
}

/// RTS: timeout 14, six retries and six RNR retries, PSN 0, one outstanding
/// read.
pub fn ready_to_send_attr() -> (r: RtsAttr)
    ensures
        r == (RtsAttr { timeout: 14, retry_cnt: 6, rnr_retry: 6, sq_psn: 0, max_rd_atomic: 1 }),
{
    RtsAttr { timeout: 14, retry_cnt: 6, rnr_retry: 6, sq_psn: 0, max_rd_atomic: 1 }
}

} // verus!
