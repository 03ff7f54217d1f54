use ibv::conn::{
    completion_error, modify_result, post_result, Client, Conn, ConnType, Error, MAX_SENDING,
};
use ibv::cq::{WCStatus, WC};
use ibv::daemon::Completion;
use ibv::mr::{RecvBuffer, RemoteMR, SendBuffer};
use ibv::wr::{RDMAType, WR};

/// One end of a simulated connection: its engine and its receive region.
struct Side {
    conn: Conn,
    region: Vec<u8>,
    base: u64,
}

fn pair(size: u32, max_sending: u32) -> (Side, Side) {
    let (a_send, a_recv, b_send, b_recv) = (0x1000_0000u64, 0x2000_0000u64, 0x3000_0000u64, 0x4000_0000u64);
    let a = Conn::new(
        SendBuffer::new(vec![0u8; size as usize], a_send, 11),
        RecvBuffer::new(a_recv, size),
        RemoteMR::new(b_recv, size, 22),
        max_sending,
    );
    let b = Conn::new(
        SendBuffer::new(vec![0u8; size as usize], b_send, 33),
        RecvBuffer::new(b_recv, size),
        RemoteMR::new(a_recv, size, 44),
        max_sending,
    );
    (
        Side { conn: a, region: vec![0u8; size as usize], base: a_recv },
        Side { conn: b, region: vec![0u8; size as usize], base: b_recv },
    )
}

fn imm_of(wr: &WR) -> u32 {
    match wr.rdma.unwrap().rdma_type {
        RDMAType::WRITEIMM(imm) => imm,
        _ => panic!("not a write with immediate"),
    }
}

/// Carries a posted write: its payload into the peer's region, its
/// completion back to the sender, and the peer's completion to the peer.
/// Returns the receive address the peer computes, checked against the target.
fn wire(from: &mut Side, wr: &WR, to: &mut Side) -> Vec<u8> {
    let local = wr.sges[0];
    let data = from.conn.sent_bytes(local).unwrap();
    let target = wr.rdma.unwrap().addr;
    let off = (target - to.base) as usize;
    to.region[off..off + data.len()].copy_from_slice(&data);
    let done = from.conn.on_completion(&WC::new(wr.wr_id, 0, 1, 0, 0, 0));
    assert_eq!(done, Completion::WriteDone { wr_id: wr.wr_id });
    let got = to.conn.on_completion(&WC::new(0, 0, 129, imm_of(wr), 3, local.length));
    let (length, imm) = match got {
        Completion::Received { length, imm } => (length, imm),
        other => panic!("unexpected {:?}", other),
    };
    assert_eq!(length as usize, data.len());
    let start = to.conn.recv_msg(length, imm).unwrap();
    assert_eq!(start, target);
    let off = (start - to.base) as usize;
    to.region[off..off + length as usize].to_vec()
}

fn send(side: &mut Side, parts: &[&[u8]]) -> WR {
    side.conn.send_msg(parts).unwrap().expect("message should go out")
}

#[test]
fn echo_one_message() {
    let (mut a, mut b) = pair(1 << 16, MAX_SENDING);
    let wr = send(&mut a, &[&[0x01, 0x02, 0x03, 0x04]]);
    assert_eq!(wr.sges[0].length, 4);
    assert_eq!(imm_of(&wr), 0);
    let got = wire(&mut a, &wr, &mut b);
    assert_eq!(got, vec![0x01, 0x02, 0x03, 0x04]);
}

#[test]
fn slices_arrive_joined_in_order() {
    let (mut a, mut b) = pair(1 << 16, MAX_SENDING);
    let wr = send(&mut a, &[&[1, 2], &[], &[3], &[4, 5, 6]]);
    assert_eq!(wr.sges[0].length, 6);
    assert_eq!(wire(&mut a, &wr, &mut b), vec![1, 2, 3, 4, 5, 6]);
}

#[test]
fn zero_length_message_is_permitted() {
    let (mut a, mut b) = pair(1 << 16, MAX_SENDING);
    let wr = send(&mut a, &[]);
    assert_eq!(wr.sges[0].length, 0);
    assert_eq!(wire(&mut a, &wr, &mut b), Vec::<u8>::new());
}

#[test]
fn oversized_message_is_rejected() {
    let (mut a, _b) = pair(1024, MAX_SENDING);
    let big = vec![7u8; 1025];
    assert_eq!(a.conn.send_msg(&[&big[..]]).unwrap_err(), Error::InvalidArgument);
    assert_eq!(a.conn.sending_count(), 0);
    let fits = vec![7u8; 1024];
    assert!(a.conn.send_msg(&[&fits[..]]).unwrap().is_some());
}

#[test]
fn recv_rejects_out_of_range_values() {
    let (mut a, _b) = pair(1024, MAX_SENDING);
    assert_eq!(a.conn.recv_msg(1025, 0), Err(Error::InvalidArgument));
    assert_eq!(a.conn.recv_msg(10, 1025), Err(Error::InvalidArgument));
}

#[test]
fn fan_out_fan_in() {
    let (mut a, mut b) = pair(1 << 20, MAX_SENDING);
    let mut seen: Vec<u32> = Vec::new();
    for i in 0..100_000u32 {
        let bytes = i.to_be_bytes();
        let wr = send(&mut a, &[&bytes[..]]);
        let got = wire(&mut a, &wr, &mut b);
        seen.push(u32::from_be_bytes([got[0], got[1], got[2], got[3]]));
        b.conn.release(got.len() as u32);
        let ack = send(&mut b, &[]);
        let empty = wire(&mut b, &ack, &mut a);
        a.conn.release(empty.len() as u32);
    }
    seen.sort();
    let expected: Vec<u32> = (0..100_000).collect();
    assert_eq!(seen, expected);
}

#[test]
fn credit_batching() {
    let (mut a, mut b) = pair(1 << 20, MAX_SENDING);
    let kib = vec![5u8; 1024];
    for _ in 0..16 {
        let wr = send(&mut a, &[&kib[..]]);
        let got = wire(&mut a, &wr, &mut b);
        assert_eq!(got.len(), 1024);
    }
    assert_eq!(b.conn.pending_credits(), 0);
    b.conn.release(9216);
    assert_eq!(b.conn.pending_credits(), 1);
    let first = send(&mut b, &[&[1]]);
    assert_eq!(imm_of(&first), 9216);
    let second = send(&mut b, &[&[2]]);
    assert_eq!(imm_of(&second), 0);
    let tail_before = a.conn.remote().tail();
    wire(&mut b, &first, &mut a);
    assert_eq!(a.conn.remote().tail(), tail_before + 9216);
}

#[test]
fn both_rings_wrap() {
    let (mut a, mut b) = pair(64 * 1024, MAX_SENDING);
    let mut sum_sent: u64 = 0;
    let mut sum_got: u64 = 0;
    let mut send_wrapped = false;
    let mut recv_wrapped = false;
    let mut last_local = 0u64;
    let mut last_cursor = b.conn.recv_buffer().cursor();
    for i in 0..4096u32 {
        let payload: Vec<u8> = (0..24u32).map(|k| ((i * 31 + k * 7) % 251) as u8).collect();
        sum_sent += payload.iter().map(|x| *x as u64).sum::<u64>();
        let wr = send(&mut a, &[&payload[..]]);
        if wr.sges[0].addr < last_local {
            send_wrapped = true;
        }
        last_local = wr.sges[0].addr;
        let got = wire(&mut a, &wr, &mut b);
        if b.conn.recv_buffer().cursor() < last_cursor {
            recv_wrapped = true;
        }
        last_cursor = b.conn.recv_buffer().cursor();
        sum_got += got.iter().map(|x| *x as u64).sum::<u64>();
        assert_eq!(got, payload);
        b.conn.release(24);
        let echo = send(&mut b, &[&got[..]]);
        let back = wire(&mut b, &echo, &mut a);
        a.conn.release(back.len() as u32);
    }
    assert!(send_wrapped);
    assert!(recv_wrapped);
    assert_eq!(sum_sent, sum_got);
}

#[test]
fn admission_caps_unanswered_sends() {
    let (mut a, mut b) = pair(1 << 16, 8);
    let mut posted: Vec<WR> = Vec::new();
    let mut waiting = 0;
    for i in 0..16u8 {
        match a.conn.send_msg(&[&[i]]).unwrap() {
            Some(wr) => posted.push(wr),
            None => waiting += 1,
        }
    }
    assert_eq!(posted.len(), 8);
    assert_eq!(waiting, 8);
    assert_eq!(a.conn.sending_count(), 8);
    for wr in &posted {
        wire(&mut a, wr, &mut b);
        b.conn.release(1);
        let reply = send(&mut b, &[&[0xaa]]);
        wire(&mut b, &reply, &mut a);
        a.conn.release(1);
    }
    assert_eq!(a.conn.sending_count(), 0);
    for i in 8..16u8 {
        assert!(a.conn.send_msg(&[&[i]]).unwrap().is_some());
    }
}

#[test]
fn max_sending_blocks_the_next_caller() {
    let (mut a, _b) = pair(1 << 16, MAX_SENDING);
    for _ in 0..MAX_SENDING {
        assert!(a.conn.send_msg(&[&[1]]).unwrap().is_some());
    }
    assert_eq!(a.conn.sending_count(), MAX_SENDING);
    assert!(a.conn.send_msg(&[&[1]]).unwrap().is_none());
    assert_eq!(a.conn.sending_count(), MAX_SENDING);
}

#[test]
fn zero_credit_leaves_remote_tail() {
    let (mut a, _b) = pair(1 << 16, MAX_SENDING);
    send(&mut a, &[&[1, 2, 3]]);
    let tail = a.conn.remote().tail();
    a.conn.recv_msg(0, 0).unwrap();
    assert_eq!(a.conn.remote().tail(), tail);
}

#[test]
fn recv_without_send_does_not_go_negative() {
    let (mut a, _b) = pair(1 << 16, MAX_SENDING);
    a.conn.recv_msg(0, 0).unwrap();
    assert_eq!(a.conn.sending_count(), 0);
}

#[test]
fn failed_completion_ends_the_connection() {
    let (mut a, _b) = pair(1 << 16, MAX_SENDING);
    let c = a.conn.on_completion(&WC::new(5, 12, 1, 0, 0, 0));
    assert_eq!(c, Completion::Failed(WCStatus::RetryExcErr));
    assert_eq!(completion_error(&c), Some(Error::WcError(WCStatus::RetryExcErr)));
    assert_eq!(completion_error(&Completion::WriteDone { wr_id: 1 }), None);
}

#[test]
fn verbs_return_codes() {
    assert_eq!(modify_result(0), Ok(()));
    assert_eq!(modify_result(22), Err(Error::QpStateFailed(22)));
    assert_eq!(post_result(0), Ok(()));
    assert_eq!(post_result(12), Err(Error::PostFailed(12)));
}

#[test]
fn client_and_conn_type() {
    let _c = Client::new();
    assert_ne!(ConnType::Client, ConnType::Server);
}
