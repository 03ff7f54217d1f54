//! The connection engine: every decision of the data path, as state and
//! event in, next state and action out. The caller performs the actions
//! (posting work requests, waiting) and reports the events (completions,
//! messages handed over by the polling task).
use vstd::prelude::*;

use std::collections::VecDeque;

use crate::cq::{WCStatus, WC};
use crate::daemon::{completion_of, dispatch, Completion};
use crate::default::DEFAULT_RQE_COUNT;
use crate::mr::{
    concat, gather, idle_prefix, lemma_concat_prefix_len, mark_idle, parts_view, release_step,
    remote_mr_from, slot_lens, LocalBuf, RecvBuffer, RemoteBufManager, RemoteMR, SendBuffer, Slot,
    REMOTE_MR_LEN,
};
use crate::qp::{end_point_from, EndPoint, END_POINT_LEN};
use crate::ring::{chain_end, Ring};
use crate::wr::{write_with_imm, RDMAType, WRType, RDMA, WR};

verus! {

/// Default cap on sends not yet answered by a message of the peer: the depth
/// of the peer's receive queue.
pub const MAX_SENDING: u32 = DEFAULT_RQE_COUNT;

/// Why a connection operation failed.
#[derive(Clone, Copy, Debug, PartialEq, Eq, Structural)]
pub enum Error {
    /// The auxiliary channel closed early or carried a malformed record.
    HandshakeFailed,
    /// `modify_qp` refused, with its errno.
    QpStateFailed(i32),
    /// Posting a work request failed, with its errno.
    PostFailed(i32),
    /// A completion returned this status.
    WcError(WCStatus),
    /// The polling task has exited.
    ConnectionClosed,
    /// A message larger than the buffers, or a record out of range.
    InvalidArgument,
}

/// Which side opened the connection.
#[derive(Clone, Copy, Debug, PartialEq, Eq, Structural)]
pub enum ConnType {
    Client,
    Server,
}

/// The active side's entry point.
pub struct Client {}

impl Client {
    pub fn new() -> (r: Client)
        ensures
            r == (Client {}),
    {
        Client {}
    }
}

/// The peer's endpoint from the bytes read in the first handshake step.
pub fn peer_end_point(bytes: &[u8]) -> (r: Result<EndPoint, Error>)
    ensures
        bytes@.len() < END_POINT_LEN ==> r == Err::<EndPoint, Error>(Error::HandshakeFailed),
        bytes@.len() >= END_POINT_LEN ==> (r matches Ok(e) && end_point_from(bytes@, e)),
{
    if bytes.len() < END_POINT_LEN {
        Err(Error::HandshakeFailed)
    } else {
        Ok(EndPoint::from_bytes(bytes))
    }
}

/// The peer's receive region from the bytes read in the second handshake
/// step; a record too short, or one whose region would pass the end of the
/// address space, is malformed.
pub fn peer_recv_mr(bytes: Vec<u8>) -> (r: Result<RemoteMR, Error>)
    ensures
        bytes@.len() < REMOTE_MR_LEN ==> r == Err::<RemoteMR, Error>(Error::HandshakeFailed),
        bytes@.len() >= REMOTE_MR_LEN ==> {
            let m = remote_mr_from(bytes@);
            &&& m.addr + m.length > u64::MAX ==> r == Err::<RemoteMR, Error>(Error::HandshakeFailed)
            &&& m.addr + m.length <= u64::MAX ==> r == Ok::<RemoteMR, Error>(m)
        },
{
    if bytes.len() < REMOTE_MR_LEN {
        return Err(Error::HandshakeFailed);
    }
    let m = RemoteMR::deserialize(bytes);
    if m.length as u64 > u64::MAX - m.addr {
        Err(Error::HandshakeFailed)
    } else {
        Ok(m)
    }
}

/// The outcome of a `modify_qp` call that returned `ret`.
pub fn modify_result(ret: i32) -> (r: Result<(), Error>)
    ensures
        ret == 0 ==> r == Ok::<(), Error>(()),
        ret != 0 ==> r == Err::<(), Error>(Error::QpStateFailed(ret)),
{
    if ret == 0 {
        Ok(())
    } else {
        Err(Error::QpStateFailed(ret))
    }
}

/// The outcome of posting a work request, the provider having returned `ret`.
pub fn post_result(ret: i32) -> (r: Result<(), Error>)
    ensures
        ret == 0 ==> r == Ok::<(), Error>(()),
        ret != 0 ==> r == Err::<(), Error>(Error::PostFailed(ret)),
{
    if ret == 0 {
        Ok(())
    } else {
        Err(Error::PostFailed(ret))
    }
}

/// The error that ends the polling task, for a completion that failed.
pub fn completion_error(c: &Completion) -> (r: Option<Error>)
    ensures
        match *c {
            Completion::Failed(status) => r == Some(Error::WcError(status)),
            _ => r.is_none(),
        },
{
    match c {
        Completion::Failed(status) => Some(Error::WcError(*status)),
        _ => None,
    }
}

/// The state of one connection's data path.
pub struct Conn {
    recv_buf: RecvBuffer,
    sending: u32,
    max_sending: u32,
    allocator: RemoteBufManager,
    send_buf: SendBuffer,
    release: VecDeque<u32>,
}

impl Conn {
    pub closed spec fn recv_buf(&self) -> RecvBuffer {
        self.recv_buf
    }

    /// Sends not yet answered by a message of the peer.
    pub closed spec fn sending(&self) -> u32 {
        self.sending
    }

    pub closed spec fn max_sending(&self) -> u32 {
        self.max_sending
    }

    pub closed spec fn allocator(&self) -> RemoteBufManager {
        self.allocator
    }

    pub closed spec fn send_buf(&self) -> SendBuffer {
        self.send_buf
    }

    /// Credits waiting for an outgoing write, oldest first.
    pub closed spec fn pending(&self) -> Seq<u32> {
        self.release@
    }

    pub open spec fn wf(&self) -> bool {
        &&& self.recv_buf().wf()
        &&& self.allocator().wf()
        &&& self.send_buf().wf()
        &&& self.sending() <= self.max_sending()
    }

    /// The largest message: it must fit in the send pool and in the peer's
    /// receive region.
    pub open spec fn max_message(&self) -> int {
        let s = self.send_buf().ring().capacity();
        let r = self.allocator()@.capacity();
        if s <= r {
            s
        } else {
            r
        }
    }

    /// Whether a message of `total` bytes can go out now: room in the send
    /// pool, room in the peer's region, and fewer than `max_sending` sends
    /// unanswered.
    pub open spec fn ready(&self, total: int) -> bool {
        &&& self.send_buf().ring().can_alloc(total)
        &&& self.sending() < self.max_sending()
        &&& self.allocator()@.can_alloc(total)
    }

    /// The credit the next write carries: the oldest pending one, or 0.
    pub open spec fn next_credit(&self) -> u32 {
        if self.pending().len() > 0 {
            self.pending()[0]
        } else {
            0
        }
    }

    pub open spec fn pending_after_write(&self) -> Seq<u32> {
        if self.pending().len() > 0 {
            self.pending().drop_first()
        } else {
            self.pending()
        }
    }

    /// A connection over a local send pool and receive region, writing into
    /// the peer's region `remote_mr`.
    pub fn new(send_buf: SendBuffer, recv_buf: RecvBuffer, remote_mr: RemoteMR, max_sending: u32) -> (r: Conn)
        requires
            send_buf.wf(),
            recv_buf.wf(),
            remote_mr.addr + remote_mr.length <= u64::MAX,
        ensures
            r.wf(),
            r.send_buf() == send_buf,
            r.recv_buf() == recv_buf,
            r.allocator()@ == Ring::new_spec(
                remote_mr.addr,
                (remote_mr.addr + remote_mr.length) as u64,
            ),
            r.allocator().rkey() == remote_mr.rkey,
            r.sending() == 0,
            r.max_sending() == max_sending,
            r.pending() == Seq::<u32>::empty(),
    {
        Conn {
            recv_buf,
            sending: 0,
            max_sending,
            allocator: RemoteBufManager::new(remote_mr),
            send_buf,
            release: VecDeque::new(),
        }
    }

    /// Sends not yet answered by a message of the peer.
    pub fn sending_count(&self) -> (r: u32)
        ensures
            r == self.sending(),
    {
        self.sending
    }

    pub fn send_buffer(&self) -> (r: &SendBuffer)
        ensures
            *r == self.send_buf(),
    {
        &self.send_buf
    }

    pub fn recv_buffer(&self) -> (r: &RecvBuffer)
        ensures
            *r == self.recv_buf(),
    {
        &self.recv_buf
    }

    pub fn remote(&self) -> (r: &RemoteBufManager)
        ensures
            *r == self.allocator(),
    {
        &self.allocator
    }

    /// Credits waiting for an outgoing write.
    pub fn pending_credits(&self) -> (r: usize)
        ensures
            r == self.pending().len(),
    {
        self.release.len()
    }

    /// Total length of `msg`, or `None` once it passes `limit`.
    fn total_len(msg: &[&[u8]], limit: u64) -> (r: Option<u64>)
        ensures
            match r {
                Some(t) => t == concat(parts_view(msg)).len() && t <= limit,
                None => concat(parts_view(msg)).len() > limit,
            },
    {
        let mut total: u64 = 0;
        let mut i: usize = 0;
        while i < msg.len()
            invariant
                i <= msg@.len(),
                total == concat(parts_view(msg).take(i as int)).len(),
                total <= limit,
            decreases msg@.len() - i,
        {
            proof {
                lemma_concat_prefix_len(parts_view(msg), i as int + 1);
            }
            let n = msg[i].len() as u64;
            if n > limit - total {
                proof {
                    lemma_concat_prefix_len(parts_view(msg), i as int + 1);
                }
                return None;
            }
            total = total + n;
            i = i + 1;
        }
        assert(parts_view(msg).take(i as int) =~= parts_view(msg));
        Some(total)
    }

    /// One attempt at sending `msg`, the slices joined in order.
    /// `Err(InvalidArgument)` when it is larger than `max_message`;
    /// `Ok(None)` when it cannot go out yet (the caller waits for progress
    /// and tries again); else the message is copied into a fresh slot of the
    /// send pool, a slot of the same length is taken in the peer's region,
    /// and the returned write carries it there with the oldest pending credit.
    pub fn send_msg(&mut self, msg: &[&[u8]]) -> (r: Result<Option<WR>, Error>)
        requires
            old(self).wf(),
        ensures
            final(self).wf(),
            final(self).max_sending() == old(self).max_sending(),
            ({
                let total = concat(parts_view(msg)).len() as int;
                let sr = old(self).send_buf().ring();
                let laddr = sr.place(sr.index as int, total);
                let rr = old(self).allocator()@;
                let raddr = rr.place(rr.index as int, total);
                if total > old(self).max_message() {
                    r == Err::<Option<WR>, Error>(Error::InvalidArgument) && *final(self) == *old(self)
                } else if !old(self).ready(total) {
                    r == Ok::<Option<WR>, Error>(None) && *final(self) == *old(self)
                } else {
                    &&& (r matches Ok(Some(wr)) && {
                        &&& wr.wr_type == WRType::SEND
                        &&& wr.wr_id == old(self).send_buf().next_id()
                        &&& wr.sges@ == seq![
                            LocalBuf {
                                addr: laddr as u64,
                                length: total as u32,
                                lkey: old(self).send_buf().lkey(),
                            },
                        ]
                        &&& wr.rdma == Some(
                            RDMA {
                                rdma_type: RDMAType::WRITEIMM(old(self).next_credit()),
                                addr: raddr as u64,
                                rkey: old(self).allocator().rkey(),
                            },
                        )
                    })
                    &&& final(self).sending() == old(self).sending() + 1
                    &&& final(self).pending() == old(self).pending_after_write()
                    &&& final(self).send_buf().slots() == old(self).send_buf().slots().push(
                        Slot { wr_id: old(self).send_buf().next_id(), length: total as u32, in_use: true },
                    )
                    &&& final(self).send_buf().ring().index == sr.step(sr.index as int, total)
                    &&& final(self).send_buf().ring().done == sr.done
                    &&& final(self).send_buf().bytes().subrange(laddr - sr.left, laddr - sr.left + total)
                        == concat(parts_view(msg))
                    &&& final(self).allocator()@.index == rr.step(rr.index as int, total)
                    &&& final(self).allocator()@.done == rr.done
                    &&& final(self).recv_buf() == old(self).recv_buf()
                }
            }),
    {
        let send_cap = self.send_buf.capacity();
        let remote_cap = self.allocator.capacity();
        let limit = if send_cap <= remote_cap {
            send_cap
        } else {
            remote_cap
        };
        let total = match Conn::total_len(msg, limit) {
            Some(t) => t as u32,
            None => {
                return Err(Error::InvalidArgument);
            },
        };
        if !(self.send_buf.can_alloc(total) && self.sending < self.max_sending
            && self.allocator.can_alloc(total)) {
            return Ok(None);
        }
        let data = gather(msg);
        let (local, wr_id) = match self.send_buf.try_alloc(total) {
            Some(x) => x,
            None => {
                return Ok(None);
            },
        };
        let ghost b1 = self.send_buf.bytes();
        self.send_buf.fill(local.addr, data.as_slice());
        proof {
            let off = local.addr - self.send_buf.ring().left;
            assert(self.send_buf.bytes().subrange(off, off + total) =~= data@);
        }
        self.sending = self.sending + 1;
        let imm = self.get_release_length();
        let remote = match self.allocator.try_alloc(total) {
            Some(b) => b,
            None => {
                return Ok(None);
            },
        };
        Ok(Some(write_with_imm(local, remote, imm, wr_id)))
    }

    /// A message of `length` bytes carrying credit `imm` arrived from the
    /// peer. One fewer send is unanswered; a nonzero credit frees that many
    /// bytes of the peer's region; the message starts at the returned address
    /// of the receive region. `Err(InvalidArgument)` (nothing changed) for a
    /// length or a credit larger than the region it refers to.
    pub fn recv_msg(&mut self, length: u32, imm: u32) -> (r: Result<u64, Error>)
        requires
            old(self).wf(),
        ensures
            final(self).wf(),
            ({
                let rr = old(self).recv_buf().ring();
                let ar = old(self).allocator()@;
                if imm > ar.capacity() || length > rr.capacity() {
                    r == Err::<u64, Error>(Error::InvalidArgument) && *final(self) == *old(self)
                } else {
                    let start = rr.place(rr.index as int, length as int);
                    &&& r == Ok::<u64, Error>(start as u64)
                    &&& final(self).recv_buf().ring() == (Ring { index: (start + length) as u64, ..rr })
                    &&& final(self).recv_buf().released() == old(self).recv_buf().released()
                    &&& final(self).sending() == if old(self).sending() > 0 {
                        old(self).sending() - 1
                    } else {
                        0
                    }
                    &&& final(self).allocator()@ == if imm == 0 {
                        ar
                    } else {
                        Ring { done: ar.step(ar.done as int, imm as int) as u64, ..ar }
                    }
                    &&& final(self).allocator().rkey() == old(self).allocator().rkey()
                    &&& final(self).send_buf() == old(self).send_buf()
                    &&& final(self).pending() == old(self).pending()
                    &&& final(self).max_sending() == old(self).max_sending()
                }
            }),
    {
        if imm as u64 > self.allocator.capacity() || length as u64 > self.recv_buf.capacity() {
            return Err(Error::InvalidArgument);
        }
        if self.sending > 0 {
            self.sending = self.sending - 1;
        }
        if imm != 0 {
            self.allocator.update(imm);
        }
        Ok(self.recv_buf.read(length))
    }

    /// The user is done with `length` received bytes. A credit that the
    /// tracker emits is queued for the next outgoing write.
    pub fn release(&mut self, length: u32)
        requires
            old(self).wf(),
        ensures
            final(self).wf(),
            ({
                let rr = old(self).recv_buf().ring();
                let (d, rel, out) = release_step(
                    rr.left as int,
                    rr.right as int,
                    rr.done as int,
                    old(self).recv_buf().released() as int,
                    length as int,
                );
                &&& final(self).recv_buf().ring() == (Ring { done: d as u64, ..rr })
                &&& final(self).recv_buf().released() == rel
                &&& final(self).pending() == match out {
                    Some(v) => old(self).pending().push(v as u32),
                    None => old(self).pending(),
                }
            }),
            final(self).sending() == old(self).sending(),
            final(self).max_sending() == old(self).max_sending(),
            final(self).allocator() == old(self).allocator(),
            final(self).send_buf() == old(self).send_buf(),
    {
        match self.recv_buf.notify_release(length) {
            Some(v) => self.release.push_back(v),
            None => {},
        }
    }

    /// Takes the oldest pending credit, or 0 when there is none.
    pub fn get_release_length(&mut self) -> (r: u32)
        ensures
            r == old(self).next_credit(),
            final(self).pending() == old(self).pending_after_write(),
            final(self).recv_buf() == old(self).recv_buf(),
            final(self).sending() == old(self).sending(),
            final(self).max_sending() == old(self).max_sending(),
            final(self).allocator() == old(self).allocator(),
            final(self).send_buf() == old(self).send_buf(),
    {
        match self.release.pop_front() {
            Some(v) => {
                proof {
                    assert(self.release@ =~= old(self).release@.drop_first());
                }
                v
            },
            None => 0,
        }
    }

    /// Applies one work completion: a finished write marks its send slot
    /// idle and returns the idle slots at the front of the pool to the ring.
    /// Returns what the completion asks of the caller.
    pub fn on_completion(&mut self, wc: &WC) -> (r: Completion)
        requires
            old(self).wf(),
        ensures
            final(self).wf(),
            r == completion_of(*wc),
            !(r matches Completion::WriteDone { .. }) ==> *final(self) == *old(self),
            final(self).recv_buf() == old(self).recv_buf(),
            final(self).sending() == old(self).sending(),
            final(self).max_sending() == old(self).max_sending(),
            final(self).allocator() == old(self).allocator(),
            final(self).pending() == old(self).pending(),
            r matches Completion::WriteDone { wr_id } ==> {
                let marked = mark_idle(old(self).send_buf().slots(), wr_id);
                let sr = old(self).send_buf().ring();
                exists|k: int|
                    #![trigger marked.skip(k)]
                    {
                        &&& idle_prefix(marked, k)
                        &&& final(self).send_buf().slots() == marked.skip(k)
                        &&& final(self).send_buf().ring() == (Ring {
                            done: chain_end(
                                sr.left as int,
                                sr.right as int,
                                sr.done as int,
                                slot_lens(marked).take(k),
                            ) as u64,
                            ..sr
                        })
                    }
            },
            final(self).send_buf().bytes() == old(self).send_buf().bytes(),
            final(self).send_buf().next_id() == old(self).send_buf().next_id(),
            final(self).send_buf().lkey() == old(self).send_buf().lkey(),
    {
        let c = dispatch(wc);
        match c {
            Completion::WriteDone { wr_id } => {
                self.send_buf.complete(wr_id);
                let k = self.send_buf.reclaim();
                assert(self.send_buf.slots() == mark_idle(old(self).send_buf.slots(), wr_id).skip(
                    k as int,
                ));
            },
            _ => {},
        }
        c
    }

    /// A copy of the bytes of a local slot, as the hardware reads them.
    pub fn sent_bytes(&self, buf: LocalBuf) -> (r: Option<Vec<u8>>)
        requires
            self.wf(),
        ensures
            ({
                let sr = self.send_buf().ring();
                if sr.left <= buf.addr && buf.addr - sr.left + buf.length <= sr.capacity() {
                    (r matches Some(v) && v@ == self.send_buf().bytes().subrange(
                        buf.addr - sr.left,
                        buf.addr - sr.left + buf.length,
                    ))
                } else {
                    r.is_none()
                }
            }),
    {
        let left = self.send_buf.left();
        if buf.addr < left || buf.length as u64 > self.send_buf.capacity() || buf.addr - left
            > self.send_buf.capacity() - buf.length as u64 {
            return None;
        }
        Some(self.send_buf.read_back(buf.addr, buf.length))
    }
}

/// With `max_sending` sends unanswered, no further message goes out until a
/// message of the peer arrives.
pub proof fn lemma_admission_blocks(c: Conn, total: int)
    requires
        c.wf(),
        c.sending() >= c.max_sending(),
    ensures
        !c.ready(total),
{
}

/// At any time, at most `max_sending` sends are unanswered.
pub proof fn lemma_sending_bounded(c: Conn)
    requires
        c.wf(),
    ensures
        c.sending() <= c.max_sending(),
{
}

} // verus!
