//! Memory-region descriptors and the three ring trackers built on them: the
//! allocator over the peer's receive region, the local send pool, and the
//! receive cursor with its release credits.
use vstd::prelude::*;

use crate::bytes::{
    le_u32, le_u64, lemma_u32_bytes_round_trip, lemma_u32_round_trip,
    lemma_u64_bytes_round_trip, lemma_u64_round_trip, push_u32_le, push_u64_le, read_u32_le,
    read_u64_le, u32_le, u64_le,
};
use crate::default::MIN_LENGTH_TO_NOTIFY_RELEASE;
use crate::ring::{
    all_fit, chain_cost, chain_end, laps, lemma_chain_accounting, lemma_chain_bounds,
    lemma_chain_front, lemma_chain_push, lemma_used_after_release, skipped, sum_lens, Ring,
};

verus! {

/// A registered region of the peer, as it announced it: `[addr, addr + length)`
/// writable with `rkey`.
#[derive(Clone, Copy, Debug, PartialEq, Eq, Structural)]
pub struct RemoteMR {
    pub addr: u64,
    pub length: u32,
    pub rkey: u32,
}

/// A piece of the peer's region handed out for one write.
#[derive(Clone, Copy, Debug, PartialEq, Eq, Structural)]
pub struct RemoteBuf {
    pub addr: u64,
    pub length: u32,
    pub rkey: u32,
}

/// A piece of a local registered region, usable as a scatter-gather entry.
#[derive(Clone, Copy, Debug, PartialEq, Eq, Structural)]
pub struct LocalBuf {
    pub addr: u64,
    pub length: u32,
    pub lkey: u32,
}

/// Size of the encoded `RemoteMR`.
pub const REMOTE_MR_LEN: usize = 16;

/// The 16-byte record `addr (u64 LE) || length (u32 LE) || rkey (u32 LE)`.
pub open spec fn remote_mr_bytes(m: RemoteMR) -> Seq<u8> {
    u64_le(m.addr) + u32_le(m.length) + u32_le(m.rkey)
}

/// The descriptor that the first 16 bytes of `b` encode.
pub open spec fn remote_mr_from(b: Seq<u8>) -> RemoteMR {
    RemoteMR {
        addr: le_u64(b.subrange(0, 8)),
        length: le_u32(b.subrange(8, 12)),
        rkey: le_u32(b.subrange(12, 16)),
    }
}

impl RemoteMR {
    pub fn new(addr: u64, length: u32, rkey: u32) -> (r: RemoteMR)
        ensures
            r == (RemoteMR { addr, length, rkey }),
    {
        RemoteMR { addr, length, rkey }
    }

    /// Encodes the descriptor for the auxiliary channel.
    pub fn serialize(&self) -> (r: Vec<u8>)
        ensures
            r@ == remote_mr_bytes(*self),
            r@.len() == REMOTE_MR_LEN,
    {
        let mut out: Vec<u8> = Vec::new();
        push_u64_le(&mut out, self.addr);
        push_u32_le(&mut out, self.length);
        push_u32_le(&mut out, self.rkey);
        assert(out@ =~= remote_mr_bytes(*self));
        out
    }

    /// Decodes a descriptor from the first 16 bytes of `data`.
    pub fn deserialize(data: Vec<u8>) -> (r: RemoteMR)
        requires
            data@.len() >= REMOTE_MR_LEN,
        ensures
            r == remote_mr_from(data@),
    {
        let b = data.as_slice();
        let addr = read_u64_le(b, 0);
        let length = read_u32_le(b, 8);
        let rkey = read_u32_le(b, 12);
        RemoteMR { addr, length, rkey }
    }
}

/// Decoding an encoded descriptor gives the descriptor back.
pub proof fn lemma_remote_mr_round_trip(m: RemoteMR)
    ensures
        remote_mr_bytes(m).len() == REMOTE_MR_LEN,
        remote_mr_from(remote_mr_bytes(m)) == m,
{
    let b = remote_mr_bytes(m);
    assert(b.subrange(0, 8) =~= u64_le(m.addr));
    assert(b.subrange(8, 12) =~= u32_le(m.length));
    assert(b.subrange(12, 16) =~= u32_le(m.rkey));
    lemma_u64_round_trip(m.addr);
    lemma_u32_round_trip(m.length);
    lemma_u32_round_trip(m.rkey);
}

/// Every 16-byte record is the encoding of the descriptor it decodes to.
pub proof fn lemma_remote_mr_bytes_round_trip(b: Seq<u8>)
    requires
        b.len() == REMOTE_MR_LEN,
    ensures
        remote_mr_bytes(remote_mr_from(b)) == b,
{
    lemma_u64_bytes_round_trip(b.subrange(0, 8));
    lemma_u32_bytes_round_trip(b.subrange(8, 12));
    lemma_u32_bytes_round_trip(b.subrange(12, 16));
    assert(remote_mr_bytes(remote_mr_from(b)) =~= b);
}

/// Tracks which part of the peer's receive region is free. The head moves as
/// writes are placed; the tail moves when the peer hands back credit.
pub struct RemoteBufManager {
    ring: Ring,
    rkey: u32,
}

impl View for RemoteBufManager {
    type V = Ring;

    closed spec fn view(&self) -> Ring {
        self.ring
    }
}

impl RemoteBufManager {
    pub closed spec fn rkey(&self) -> u32 {
        self.rkey
    }

    pub open spec fn wf(&self) -> bool {
        &&& self@.wf()
        &&& self@.capacity() <= u32::MAX
    }

    /// Starts with the whole region free.
    pub fn new(mr: RemoteMR) -> (r: RemoteBufManager)
        requires
            mr.addr + mr.length <= u64::MAX,
        ensures
            r.wf(),
            r@.left == mr.addr,
            r@.right == mr.addr + mr.length,
            r@.index == mr.addr,
            r@.done == mr.addr,
            r.rkey() == mr.rkey,
    {
        RemoteBufManager { ring: Ring::new(mr.addr, mr.addr + mr.length as u64), rkey: mr.rkey }
    }

    /// Bytes of the peer's region.
    pub fn capacity(&self) -> (r: u64)
        requires
            self.wf(),
        ensures
            r == self@.capacity(),
    {
        self.ring.capacity_exec()
    }

    /// The head: where the next write will be placed, unless it wraps.
    pub fn head(&self) -> (r: u64)
        ensures
            r == self@.index,
    {
        self.ring.index
    }

    /// The tail: the first byte the peer has not given back.
    pub fn tail(&self) -> (r: u64)
        ensures
            r == self@.done,
    {
        self.ring.done
    }

    /// Bytes of the peer's region in use.
    pub fn used(&self) -> (r: u64)
        requires
            self.wf(),
        ensures
            r == self@.used(),
    {
        self.ring.used_bytes()
    }

    /// Whether `try_alloc(length)` would succeed now.
    pub fn can_alloc(&self, length: u32) -> (r: bool)
        requires
            self.wf(),
        ensures
            r == self@.can_alloc(length as int),
    {
        self.ring.can_alloc_exec(length)
    }

    /// Places `length` bytes in the peer's region at the head, wrapping to
    /// the start when they do not fit before its end. `None` (and nothing
    /// changed) while the head would overrun the tail: the caller waits for
    /// credit and tries again.
    pub fn try_alloc(&mut self, length: u32) -> (r: Option<RemoteBuf>)
        requires
            old(self).wf(),
        ensures
            final(self).wf(),
            final(self).rkey() == old(self).rkey(),
            final(self)@.left == old(self)@.left,
            final(self)@.right == old(self)@.right,
            final(self)@.done == old(self)@.done,
            old(self)@.can_alloc(length as int) ==> {
                &&& r == Some(
                    RemoteBuf {
                        addr: old(self)@.place(old(self)@.index as int, length as int) as u64,
                        length,
                        rkey: old(self).rkey(),
                    },
                )
                &&& final(self)@.index == old(self)@.step(old(self)@.index as int, length as int)
            },
            !old(self)@.can_alloc(length as int) ==> r.is_none() && final(self)@ == old(self)@,
    {
        match self.ring.reserve(length) {
            Some(addr) => Some(RemoteBuf { addr, length, rkey: self.rkey }),
            None => None,
        }
    }

    /// The peer gave back `length` bytes: the tail moves forward over them,
    /// restarting from the region's start when they pass its end. A credit of
    /// zero changes nothing.
    pub fn update(&mut self, length: u32)
        requires
            old(self).wf(),
            length <= old(self)@.capacity(),
        ensures
            final(self).wf(),
            final(self).rkey() == old(self).rkey(),
            final(self)@.left == old(self)@.left,
            final(self)@.right == old(self)@.right,
            final(self)@.index == old(self)@.index,
            final(self)@.done == old(self)@.step(old(self)@.done as int, length as int),
            length == 0 ==> final(self)@ == old(self)@,
    {
        self.ring.advance(length);
    }
}

/// The bytes of a message given as slices: the slices joined in order.
pub open spec fn concat(parts: Seq<Seq<u8>>) -> Seq<u8>
    decreases parts.len(),
{
    if parts.len() == 0 {
        Seq::empty()
    } else {
        concat(parts.drop_last()) + parts.last()
    }
}

pub open spec fn parts_view(msg: &[&[u8]]) -> Seq<Seq<u8>> {
    msg@.map_values(|s: &[u8]| s@)
}

/// Joins the slices of a message into one buffer.
pub fn gather(msg: &[&[u8]]) -> (r: Vec<u8>)
    requires
        concat(parts_view(msg)).len() <= usize::MAX,
    ensures
        r@ == concat(parts_view(msg)),
{
    let mut out: Vec<u8> = Vec::new();
    let mut i: usize = 0;
    while i < msg.len()
        invariant
            i <= msg@.len(),
            concat(parts_view(msg)).len() <= usize::MAX,
            out@ == concat(parts_view(msg).take(i as int)),
        decreases msg@.len() - i,
    {
        let part: &[u8] = msg[i];
        proof {
            lemma_concat_prefix_len(parts_view(msg), i as int + 1);
            assert(parts_view(msg).take(i as int + 1).drop_last() =~= parts_view(msg).take(
                i as int,
            ));
        }
        let ghost before = out@;
        let mut j: usize = 0;
        while j < part.len()
            invariant
                j <= part@.len(),
                before.len() + part@.len() <= usize::MAX,
                out@ == before + part@.take(j as int),
            decreases part@.len() - j,
        {
            out.push(part[j]);
            assert(out@ =~= before + part@.take(j as int + 1));
            j = j + 1;
        }
        assert(part@.take(j as int) =~= part@);
        i = i + 1;
    }
    assert(parts_view(msg).take(i as int) =~= parts_view(msg));
    out
}

/// The joined length of a prefix of the parts is at most the whole length.
pub proof fn lemma_concat_prefix_len(parts: Seq<Seq<u8>>, k: int)
    requires
        0 <= k <= parts.len(),
    ensures
        concat(parts.take(k)).len() <= concat(parts).len(),
        k > 0 ==> concat(parts.take(k)) == concat(parts.take(k - 1)) + parts[k - 1],
    decreases parts.len(),
{
    if k > 0 {
        assert(parts.take(k).drop_last() =~= parts.take(k - 1));
    }
    if k < parts.len() {
        assert(parts.take(k) =~= parts.drop_last().take(k));
        lemma_concat_prefix_len(parts.drop_last(), k);
    } else {
        assert(parts.take(k) =~= parts);
    }
}

/// One in-flight write of the send pool: its id, its length, and whether the
/// hardware may still read it.
#[derive(Clone, Copy, Debug, PartialEq, Eq, Structural)]
pub struct Slot {
    pub wr_id: u64,
    pub length: u32,
    pub in_use: bool,
}

pub open spec fn slot_lens(s: Seq<Slot>) -> Seq<int> {
    s.map_values(|x: Slot| x.length as int)
}

/// Index of the oldest in-use slot with id `wr_id`, or `s.len()` if none.
pub open spec fn first_match(s: Seq<Slot>, wr_id: u64) -> int
    decreases s.len(),
{
    if s.len() == 0 {
        0
    } else if s[0].wr_id == wr_id && s[0].in_use {
        0
    } else {
        1 + first_match(s.drop_first(), wr_id)
    }
}

/// `s` with the oldest in-use slot of id `wr_id`, if any, marked idle.
pub open spec fn mark_idle(s: Seq<Slot>, wr_id: u64) -> Seq<Slot> {
    let i = first_match(s, wr_id);
    if i < s.len() {
        s.update(i, Slot { in_use: false, ..s[i] })
    } else {
        s
    }
}

pub proof fn lemma_first_match(s: Seq<Slot>, wr_id: u64, i: int)
    requires
        0 <= i <= s.len(),
        forall|k: int| 0 <= k < i ==> !(s[k].wr_id == wr_id && s[k].in_use),
        i < s.len() ==> s[i].wr_id == wr_id && s[i].in_use,
    ensures
        first_match(s, wr_id) == i,
    decreases s.len(),
{
    if s.len() > 0 && i > 0 {
        let t = s.drop_first();
        assert forall|k: int| 0 <= k < i - 1 implies !(t[k].wr_id == wr_id && t[k].in_use) by {
            assert(t[k] == s[k + 1]);
        }
        if i < s.len() {
            assert(t[i - 1] == s[i]);
        }
        assert(!(s[0].wr_id == wr_id && s[0].in_use));
        lemma_first_match(t, wr_id, i - 1);
    }
}

/// `k` slots at the front of `s` are no longer in use, and the next one, if
/// any, still is.
pub open spec fn idle_prefix(s: Seq<Slot>, k: int) -> bool {
    &&& 0 <= k <= s.len()
    &&& forall|i: int| 0 <= i < k ==> !(#[trigger] s[i]).in_use
    &&& k < s.len() ==> s[k].in_use
}

/// The local send pool: one registered region used as a ring. Slots are
/// handed out at the head and returned at the tail strictly in the order they
/// were handed out, each once the hardware has finished reading it.
pub struct SendBuffer {
    ring: Ring,
    lkey: u32,
    send_buf: Vec<u8>,
    to_release: Vec<Slot>,
    next_id: u64,
}

impl SendBuffer {
    pub closed spec fn ring(&self) -> Ring {
        self.ring
    }

    pub closed spec fn slots(&self) -> Seq<Slot> {
        self.to_release@
    }

    pub closed spec fn bytes(&self) -> Seq<u8> {
        self.send_buf@
    }

    pub closed spec fn lkey(&self) -> u32 {
        self.lkey
    }

    pub closed spec fn next_id(&self) -> u64 {
        self.next_id
    }

    pub open spec fn wf(&self) -> bool {
        &&& self.ring().wf()
        &&& self.bytes().len() == self.ring().capacity()
        &&& self.slots_wf()
    }

    /// The in-flight slots lie one after the other from the tail to the head.
    pub closed spec fn slots_wf(&self) -> bool {
        let r = self.ring;
        let lens = slot_lens(self.to_release@);
        &&& all_fit(r.left as int, r.right as int, lens)
        &&& r.index == chain_end(r.left as int, r.right as int, r.done as int, lens)
        &&& r.used() == chain_cost(r.left as int, r.right as int, r.done as int, lens)
    }

    /// A pool over `send_buf`, registered at `addr` with `lkey`; nothing in use.
    pub fn new(send_buf: Vec<u8>, addr: u64, lkey: u32) -> (r: SendBuffer)
        requires
            addr + send_buf@.len() <= u64::MAX,
        ensures
            r.wf(),
            r.ring() == Ring::new_spec(addr, (addr + send_buf@.len()) as u64),
            r.slots() == Seq::<Slot>::empty(),
            r.bytes() == send_buf@,
            r.lkey() == lkey,
    {
        let right = addr + send_buf.len() as u64;
        let r = SendBuffer {
            ring: Ring::new(addr, right),
            lkey,
            send_buf,
            to_release: Vec::new(),
            next_id: 1,
        };
        assert(slot_lens(r.to_release@) =~= Seq::<int>::empty());
        r
    }

    /// Start of the pool.
    pub fn left(&self) -> (r: u64)
        ensures
            r == self.ring().left,
    {
        self.ring.left
    }

    /// Bytes of the pool.
    pub fn capacity(&self) -> (r: u64)
        requires
            self.wf(),
        ensures
            r == self.ring().capacity(),
    {
        self.ring.capacity_exec()
    }

    /// Bytes of the pool in use, skipped tail ends included.
    pub fn used(&self) -> (r: u64)
        requires
            self.wf(),
        ensures
            r == self.ring().used(),
    {
        self.ring.used_bytes()
    }

    /// Number of slots in flight.
    pub fn in_flight(&self) -> (r: usize)
        ensures
            r == self.slots().len(),
    {
        self.to_release.len()
    }

    /// Whether `try_alloc(length)` would succeed now.
    pub fn can_alloc(&self, length: u32) -> (r: bool)
        requires
            self.wf(),
        ensures
            r == self.ring().can_alloc(length as int),
    {
        self.ring.can_alloc_exec(length)
    }

    /// Hands out `length` bytes at the head, with a fresh work-request id,
    /// and records the slot as in use. `None` (nothing changed) while the head
    /// would overrun the tail.
    pub fn try_alloc(&mut self, length: u32) -> (r: Option<(LocalBuf, u64)>)
        requires
            old(self).wf(),
        ensures
            final(self).wf(),
            final(self).lkey() == old(self).lkey(),
            final(self).bytes() == old(self).bytes(),
            final(self).ring().left == old(self).ring().left,
            final(self).ring().right == old(self).ring().right,
            final(self).ring().done == old(self).ring().done,
            old(self).ring().can_alloc(length as int) ==> {
                &&& r == Some(
                    (
                        LocalBuf {
                            addr: old(self).ring().place(old(self).ring().index as int, length as int)
                                as u64,
                            length,
                            lkey: old(self).lkey(),
                        },
                        old(self).next_id(),
                    ),
                )
                &&& final(self).ring().index == old(self).ring().step(
                    old(self).ring().index as int,
                    length as int,
                )
                &&& final(self).slots() == old(self).slots().push(
                    Slot { wr_id: old(self).next_id(), length, in_use: true },
                )
            },
            !old(self).ring().can_alloc(length as int) ==> r.is_none() && *final(self) == *old(
                self,
            ),
    {
        let ghost lens = slot_lens(self.to_release@);
        let ghost r0 = self.ring;
        match self.ring.reserve(length) {
            Some(addr) => {
                let wr_id = self.add_to_release(length);
                proof {
                    lemma_chain_push(r0.left as int, r0.right as int, r0.done as int, lens, length as int);
                    assert(slot_lens(self.to_release@) =~= lens.push(length as int));
                }
                Some((LocalBuf { addr, length, lkey: self.lkey }, wr_id))
            },
            None => None,
        }
    }

    /// Copies `data` into the pool at address `addr`, leaving the other
    /// bytes as they were.
    pub fn fill(&mut self, addr: u64, data: &[u8])
        requires
            old(self).wf(),
            old(self).ring().left <= addr,
            addr - old(self).ring().left + data@.len() <= old(self).ring().capacity(),
        ensures
            final(self).wf(),
            final(self).ring() == old(self).ring(),
            final(self).slots() == old(self).slots(),
            final(self).lkey() == old(self).lkey(),
            final(self).next_id() == old(self).next_id(),
            ({
                let off = addr - old(self).ring().left;
                final(self).bytes() == old(self).bytes().take(off) + data@ + old(self).bytes().skip(
                    off + data@.len(),
                )
            }),
    {
        let ghost s0 = *self;
        let ghost b0 = self.send_buf@;
        let _len = self.send_buf.len();
        let off = (addr - self.ring.left) as usize;
        let mut j: usize = 0;
        while j < data.len()
            invariant
                j <= data@.len(),
                self.ring == s0.ring,
                self.to_release == s0.to_release,
                self.lkey == s0.lkey,
                self.next_id == s0.next_id,
                b0 == s0.send_buf@,
                b0.len() <= usize::MAX,
                off == addr - s0.ring.left,
                off + data@.len() <= b0.len(),
                self.send_buf@.len() == b0.len(),
                self.send_buf@ == b0.take(off as int) + data@.take(j as int) + b0.skip(off + j),
            decreases data@.len() - j,
        {
            self.send_buf.set(off + j, data[j]);
            assert(self.send_buf@ =~= b0.take(off as int) + data@.take(j as int + 1) + b0.skip(
                off + j + 1,
            ));
            j = j + 1;
        }
        assert(data@.take(j as int) =~= data@);
    }

    /// A copy of the `length` bytes of the pool at address `addr`.
    pub fn read_back(&self, addr: u64, length: u32) -> (r: Vec<u8>)
        requires
            self.wf(),
            self.ring().left <= addr,
            addr - self.ring().left + length <= self.ring().capacity(),
        ensures
            r@ == self.bytes().subrange(
                addr - self.ring().left,
                addr - self.ring().left + length,
            ),
    {
        let _len = self.send_buf.len();
        let off = (addr - self.ring.left) as usize;
        let n = length as usize;
        let mut out: Vec<u8> = Vec::new();
        let mut j: usize = 0;
        while j < n
            invariant
                j <= n,
                n == length,
                off + n <= self.send_buf@.len(),
                self.send_buf@.len() <= usize::MAX,
                out@ == self.send_buf@.subrange(off as int, off + j),
            decreases n - j,
        {
            out.push(self.send_buf[off + j]);
            assert(out@ =~= self.send_buf@.subrange(off as int, off + j + 1));
            j = j + 1;
        }
        out
    }

    /// The hardware finished the write with id `wr_id`: the oldest in-use
    /// slot with that id is marked idle. Returns whether there was one.
    pub fn complete(&mut self, wr_id: u64) -> (r: bool)
        requires
            old(self).wf(),
        ensures
            final(self).wf(),
            final(self).ring() == old(self).ring(),
            final(self).bytes() == old(self).bytes(),
            final(self).lkey() == old(self).lkey(),
            final(self).next_id() == old(self).next_id(),
            r == (first_match(old(self).slots(), wr_id) < old(self).slots().len()),
            final(self).slots() == mark_idle(old(self).slots(), wr_id),
    {
        let ghost s0 = *self;
        let mut i: usize = 0;
        while i < self.to_release.len()
            invariant
                *self == s0,
                i <= self.to_release@.len(),
                forall|k: int|
                    0 <= k < i ==> !(self.to_release@[k].wr_id == wr_id
                        && self.to_release@[k].in_use),
            ensures
                *self == s0,
                i <= self.to_release@.len(),
                forall|k: int|
                    0 <= k < i ==> !(self.to_release@[k].wr_id == wr_id
                        && self.to_release@[k].in_use),
                i < self.to_release@.len() ==> self.to_release@[i as int].wr_id == wr_id
                    && self.to_release@[i as int].in_use,
            decreases self.to_release@.len() - i,
        {
            if self.to_release[i].wr_id == wr_id && self.to_release[i].in_use {
                break;
            }
            i = i + 1;
        }
        proof {
            lemma_first_match(s0.to_release@, wr_id, i as int);
        }
        if i == self.to_release.len() {
            return false;
        }
        let slot = self.to_release[i];
        let ghost lens = slot_lens(self.to_release@);
        self.to_release.set(i, Slot { in_use: false, ..slot });
        assert(slot_lens(self.to_release@) =~= lens);
        assert(s0.slots()[i as int] == slot);
        true
    }

    /// Returns to the ring, oldest first, every slot at the front that is no
    /// longer in use; stops at the first one still in use. Returns how many.
    pub fn reclaim(&mut self) -> (k: usize)
        requires
            old(self).wf(),
        ensures
            final(self).wf(),
            idle_prefix(old(self).slots(), k as int),
            final(self).slots() == old(self).slots().skip(k as int),
            final(self).ring().left == old(self).ring().left,
            final(self).ring().right == old(self).ring().right,
            final(self).ring().index == old(self).ring().index,
            final(self).ring().done == chain_end(
                old(self).ring().left as int,
                old(self).ring().right as int,
                old(self).ring().done as int,
                slot_lens(old(self).slots()).take(k as int),
            ),
            final(self).bytes() == old(self).bytes(),
            final(self).lkey() == old(self).lkey(),
            final(self).next_id() == old(self).next_id(),
    {
        let ghost s0 = self.to_release@;
        let ghost r0 = self.ring;
        let ghost l = r0.left as int;
        let ghost rt = r0.right as int;
        let _len = self.to_release.len();
        let mut k: usize = 0;
        assert(slot_lens(s0).take(0) =~= Seq::<int>::empty());
        assert(s0.skip(0) =~= s0);
        while self.to_release.len() > 0 && !self.to_release[0].in_use
            invariant
                self.wf(),
                l == r0.left as int,
                rt == r0.right as int,
                s0.len() <= usize::MAX,
                k <= s0.len(),
                self.to_release@ == s0.skip(k as int),
                forall|i: int| 0 <= i < k ==> !(#[trigger] s0[i]).in_use,
                self.ring.left == r0.left,
                self.ring.right == r0.right,
                self.ring.index == r0.index,
                self.ring.done == chain_end(l, rt, r0.done as int, slot_lens(s0).take(k as int)),
                self.send_buf == old(self).send_buf,
                self.lkey == old(self).lkey,
                self.next_id == old(self).next_id,
            decreases self.to_release@.len(),
        {
            let ghost r = self.ring;
            let ghost cur = slot_lens(self.to_release@);
            let slot = self.to_release[0];
            proof {
                assert(all_fit(l, rt, cur));
                assert(cur[0] == slot.length as int);
                assert(0 <= cur[0] <= rt - l);
                lemma_chain_front(l, rt, r.done as int, cur);
                let d2 = r.step(r.done as int, cur[0]);
                assert(cur.drop_first() =~= slot_lens(self.to_release@.drop_first()));
                assert forall|i: int| 0 <= i < cur.drop_first().len() implies 0
                    <= #[trigger] cur.drop_first()[i] <= rt - l by {
                    assert(cur.drop_first()[i] == cur[i + 1]);
                }
                lemma_chain_bounds(l, rt, d2, cur.drop_first());
            }
            self.ring.advance(slot.length);
            self.to_release.remove(0);
            proof {
                let rest = slot_lens(self.to_release@);
                lemma_used_after_release(
                    r,
                    self.ring,
                    cur[0],
                    chain_cost(l, rt, self.ring.done as int, rest),
                );
                assert(s0.skip(k as int).drop_first() =~= s0.skip(k as int + 1));
                assert(s0[k as int] == slot);
                assert(slot_lens(s0).take(k as int + 1) =~= slot_lens(s0).take(k as int).push(
                    slot.length as int,
                ));
                lemma_chain_push(l, rt, r0.done as int, slot_lens(s0).take(k as int), slot.length as int);
            }
            k = k + 1;
        }
        k
    }

    /// Records a new in-use slot of `length` bytes and returns its id.
    fn add_to_release(&mut self, length: u32) -> (r: u64)
        ensures
            r == old(self).next_id,
            final(self).to_release@ == old(self).to_release@.push(
                Slot { wr_id: old(self).next_id, length, in_use: true },
            ),
            final(self).ring == old(self).ring,
            final(self).send_buf == old(self).send_buf,
            final(self).lkey == old(self).lkey,
    {
        let wr_id = self.next_id;
        self.to_release.push(Slot { wr_id, length, in_use: true });
        self.next_id = self.next_id.wrapping_add(1);
        wr_id
    }
}

/// The send pool at any time: the span from tail to head lies within the ring
/// and is exactly what the in-flight slots take up, namely their lengths plus
/// the tail end skipped where one wrapped; while the tail is not past the
/// head no slot in flight has wrapped, and the span is the sum of their
/// lengths.
pub proof fn lemma_send_used_in_flight(sb: SendBuffer)
    requires
        sb.wf(),
    ensures
        0 <= sb.ring().used() <= sb.ring().capacity(),
        sb.ring().used() == sum_lens(slot_lens(sb.slots())) + skipped(
            sb.ring().left as int,
            sb.ring().right as int,
            sb.ring().done as int,
            slot_lens(sb.slots()),
        ),
        sb.ring().done <= sb.ring().index ==> sb.ring().used() == sum_lens(slot_lens(sb.slots())),
{
    let r = sb.ring;
    lemma_chain_accounting(r.left as int, r.right as int, r.done as int, slot_lens(sb.slots()));
}

/// One call of `notify_release(length)` on the tracker state `(done,
/// released)` over `[left, right)`: the new `done`, the new `released`, and
/// the credit to send, if any.
pub open spec fn release_step(left: int, right: int, done: int, released: int, length: int) -> (
    int,
    int,
    Option<int>,
) {
    if done + released + length > right {
        (left, length, Some(released))
    } else if released + length >= MIN_LENGTH_TO_NOTIFY_RELEASE {
        (done + released + length, 0, Some(released + length))
    } else {
        (done, released + length, None)
    }
}

pub open spec fn credit(o: Option<int>) -> int {
    match o {
        Some(v) => v,
        None => 0,
    }
}

/// Calls of `notify_release` with `lens`, in order, from `(done, released)`:
/// the final `done`, the final `released`, and the sum of the credits sent.
pub open spec fn release_run(left: int, right: int, done: int, released: int, lens: Seq<int>) -> (
    int,
    int,
    int,
)
    decreases lens.len(),
{
    if lens.len() == 0 {
        (done, released, 0)
    } else {
        let (d, rel, sent) = release_run(left, right, done, released, lens.drop_last());
        let (d2, rel2, out) = release_step(left, right, d, rel, lens.last());
        (d2, rel2, sent + credit(out))
    }
}

pub open spec fn opt_int(o: Option<u32>) -> Option<int> {
    match o {
        Some(v) => Some(v as int),
        None => None,
    }
}

/// Release credit accounting: over any run of releases from a fresh tracker,
/// the credits sent plus what is still held back add up to exactly the bytes
/// released; what is held back is under the batching threshold, unless the
/// last release wrapped the cursor, and then it is that release's length.
pub proof fn lemma_release_accounting(left: int, right: int, done: int, lens: Seq<int>)
    ensures
        ({
            let (d, rel, sent) = release_run(left, right, done, 0, lens);
            &&& sent + rel == sum_lens(lens)
            &&& rel < MIN_LENGTH_TO_NOTIFY_RELEASE || (rel == lens.last() && release_run(
                left,
                right,
                done,
                0,
                lens.drop_last(),
            ).0 + release_run(left, right, done, 0, lens.drop_last()).1 + lens.last() > right)
        }),
    decreases lens.len(),
{
    if lens.len() > 0 {
        lemma_release_accounting(left, right, done, lens.drop_last());
    }
}

/// How many credits the calls of `notify_release` with `lens` send.
pub open spec fn release_count(left: int, right: int, done: int, released: int, lens: Seq<int>) -> int
    decreases lens.len(),
{
    if lens.len() == 0 {
        0
    } else {
        let (d, rel, sent) = release_run(left, right, done, released, lens.drop_last());
        let (d2, rel2, out) = release_step(left, right, d, rel, lens.last());
        release_count(left, right, done, released, lens.drop_last()) + if out is Some {
            1int
        } else {
            0int
        }
    }
}

pub open spec fn all_lengths(lens: Seq<int>) -> bool {
    forall|i: int| 0 <= i < lens.len() ==> #[trigger] lens[i] >= 0
}

/// Releases that stay under the batching threshold, without reaching the end
/// of the region, send nothing and are all held back.
pub proof fn lemma_release_quiet(left: int, right: int, done: int, lens: Seq<int>)
    requires
        all_lengths(lens),
        sum_lens(lens) < MIN_LENGTH_TO_NOTIFY_RELEASE,
        done + sum_lens(lens) <= right,
    ensures
        release_run(left, right, done, 0, lens) == (done, sum_lens(lens), 0int),
        release_count(left, right, done, 0, lens) == 0,
        sum_lens(lens) >= 0,
    decreases lens.len(),
{
    if lens.len() > 0 {
        let d = lens.drop_last();
        assert forall|i: int| 0 <= i < d.len() implies #[trigger] d[i] >= 0 by {
            assert(d[i] == lens[i]);
        }
        assert(lens.last() == lens[lens.len() - 1]);
        lemma_release_quiet(left, right, done, d);
    }
}

/// Releases that reach the batching threshold only with the last one, and
/// stay within the region, send exactly one credit, carrying their sum.
pub proof fn lemma_release_batched(left: int, right: int, done: int, lens: Seq<int>)
    requires
        lens.len() > 0,
        all_lengths(lens),
        sum_lens(lens.drop_last()) < MIN_LENGTH_TO_NOTIFY_RELEASE,
        sum_lens(lens) >= MIN_LENGTH_TO_NOTIFY_RELEASE,
        done + sum_lens(lens) <= right,
    ensures
        release_count(left, right, done, 0, lens) == 1,
        release_run(left, right, done, 0, lens) == (done + sum_lens(lens), 0int, sum_lens(lens)),
{
    let d = lens.drop_last();
    assert forall|i: int| 0 <= i < d.len() implies #[trigger] d[i] >= 0 by {
        assert(d[i] == lens[i]);
    }
    assert(lens.last() == lens[lens.len() - 1]);
    lemma_release_quiet(left, right, done, d);
}

/// The receive side of a connection: a read cursor that follows the peer's
/// placement of writes, and the tracker that batches released bytes into
/// credits for the peer.
pub struct RecvBuffer {
    ring: Ring,
    released: u32,
}

impl RecvBuffer {
    /// `left`, `right`; `index` is the read cursor, `done` the position up to
    /// which releases were announced.
    pub closed spec fn ring(&self) -> Ring {
        self.ring
    }

    /// Released bytes not yet announced.
    pub closed spec fn released(&self) -> u32 {
        self.released
    }

    pub open spec fn wf(&self) -> bool {
        &&& self.ring().wf()
        &&& self.ring().capacity() <= u32::MAX
    }

    /// A receive region `[addr, addr + length)`, nothing read or released.
    pub fn new(addr: u64, length: u32) -> (r: RecvBuffer)
        requires
            addr + length <= u64::MAX,
        ensures
            r.wf(),
            r.ring() == Ring::new_spec(addr, (addr + length) as u64),
            r.released() == 0,
    {
        RecvBuffer { ring: Ring::new(addr, addr + length as u64), released: 0 }
    }

    /// Bytes of the receive region.
    pub fn capacity(&self) -> (r: u64)
        requires
            self.wf(),
        ensures
            r == self.ring().capacity(),
    {
        self.ring.capacity_exec()
    }

    /// The read cursor: where the next message starts, unless it wraps.
    pub fn cursor(&self) -> (r: u64)
        ensures
            r == self.ring().index,
    {
        self.ring.index
    }

    /// Position up to which releases were announced.
    pub fn announced(&self) -> (r: u64)
        ensures
            r == self.ring().done,
    {
        self.ring.done
    }

    /// Released bytes not yet announced.
    pub fn held_back(&self) -> (r: u32)
        ensures
            r == self.released(),
    {
        self.released
    }

    /// The next message, of `length` bytes, starts where the peer placed it:
    /// at the cursor, or at `left` when it would pass `right`. Returns its
    /// address and moves the cursor past it.
    pub fn read(&mut self, length: u32) -> (start: u64)
        requires
            old(self).wf(),
            length <= old(self).ring().capacity(),
        ensures
            final(self).wf(),
            start == old(self).ring().place(old(self).ring().index as int, length as int),
            final(self).ring() == (Ring {
                index: (start + length) as u64,
                ..old(self).ring()
            }),
            final(self).released() == old(self).released(),
    {
        let length = length as u64;
        let start = if length > self.ring.right - self.ring.index {
            self.ring.left
        } else {
            self.ring.index
        };
        self.ring.index = start + length;
        start
    }

    /// Adds `length` released bytes. When the released span would pass the
    /// end of the region, announces what was held back and restarts from
    /// `left` holding `length`; else, once the held-back bytes reach the
    /// batching threshold, announces all of them; else holds them back.
    pub fn notify_release(&mut self, length: u32) -> (r: Option<u32>)
        requires
            old(self).wf(),
        ensures
            final(self).wf(),
            ({
                let (d, rel, out) = release_step(
                    old(self).ring().left as int,
                    old(self).ring().right as int,
                    old(self).ring().done as int,
                    old(self).released() as int,
                    length as int,
                );
                &&& final(self).ring() == (Ring { done: d as u64, ..old(self).ring() })
                &&& final(self).released() == rel
                &&& opt_int(r) == out
            }),
            credit(opt_int(r)) + final(self).released() == old(self).released() + length,
    {
        let sum = self.released as u64 + length as u64;
        if sum > self.ring.right - self.ring.done {
            let ret = self.released;
            self.released = length;
            self.ring.done = self.ring.left;
            Some(ret)
        } else if sum >= MIN_LENGTH_TO_NOTIFY_RELEASE as u64 {
            let ret = sum as u32;
            self.ring.done = self.ring.done + sum;
            self.released = 0;
            Some(ret)
        } else {
            self.released = sum as u32;
            None
        }
    }
}

} // verus!
