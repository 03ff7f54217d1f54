use ibv::cq::{Opcode, WCFlag, WCStatus, WC};
use ibv::daemon::{dispatch, Completion};
use ibv::mr::{LocalBuf, RemoteBuf};
use ibv::qp::{
    default_qp_cap, init_attr, ready_to_receive_attr, ready_to_send_attr, EndPoint, QPCap,
};
use ibv::wr::{null_recv, write_with_imm, RDMAType, WRType, WrOpcode, RDMA, WR};

#[test]
fn status_decoding() {
    assert_eq!(WCStatus::from(0), WCStatus::Success);
    assert_eq!(WCStatus::from(5), WCStatus::WrFlushErr);
    assert_eq!(WCStatus::from(21), WCStatus::GeneralErr);
    assert_eq!(WCStatus::from(22), WCStatus::Unknown(22));
}

#[test]
fn opcode_and_flag_decoding() {
    assert_eq!(Opcode::from(129), Opcode::WriteWithImm);
    assert_eq!(Opcode::from(1), Opcode::Write);
    assert_eq!(Opcode::from(128), Opcode::Recv);
    assert_eq!(Opcode::from(7), Opcode::Unknown(7));
    assert_eq!(WCFlag::from(3), WCFlag::WithImm);
    assert_eq!(WCFlag::from(0), WCFlag::Empty);
    assert_eq!(WCFlag::from(2), WCFlag::Unknown(2));
}

#[test]
fn completion_getters() {
    let wc = WC::new(9, 0, 129, 4096, 3, 24);
    assert_eq!(wc.wr_id(), 9);
    assert_eq!(wc.status(), WCStatus::Success);
    assert_eq!(wc.opcode(), Opcode::WriteWithImm);
    assert_eq!(wc.imm_data(), 4096);
    assert_eq!(wc.wc_flags(), WCFlag::WithImm);
    assert_eq!(wc.byte_len(), 24);
}

#[test]
fn dispatch_by_opcode() {
    assert_eq!(dispatch(&WC::new(0, 0, 129, 77, 3, 10)), Completion::Received { length: 10, imm: 77 });
    assert_eq!(dispatch(&WC::new(42, 0, 1, 0, 0, 0)), Completion::WriteDone { wr_id: 42 });
    assert_eq!(dispatch(&WC::new(1, 0, 0, 0, 0, 0)), Completion::Other(Opcode::Send));
    assert_eq!(dispatch(&WC::new(1, 5, 129, 0, 0, 0)), Completion::Failed(WCStatus::WrFlushErr));
}

#[test]
fn write_with_imm_request() {
    let local = LocalBuf { addr: 100, length: 24, lkey: 5 };
    let remote = RemoteBuf { addr: 900, length: 24, rkey: 6 };
    let wr = write_with_imm(local, remote, 9216, 17);
    let s = wr.build_send_wr();
    assert_eq!(s.opcode, WrOpcode::RdmaWriteWithImm);
    assert_eq!(s.imm_data, 9216);
    assert_eq!(s.remote_addr, 900);
    assert_eq!(s.rkey, 6);
    assert_eq!(s.wr_id, 17);
    assert_eq!(s.num_sge, 1);
    assert!(s.signaled);
}

#[test]
fn other_send_requests() {
    let sge = vec![LocalBuf { addr: 1, length: 2, lkey: 3 }];
    let send = WR::new(4, WRType::SEND, sge.clone(), None).build_send_wr();
    assert_eq!(send.opcode, WrOpcode::Send);
    assert_eq!(send.imm_data, 0);
    let read = WR::new(4, WRType::SEND, sge.clone(), Some(RDMA::new(RDMAType::READ, 50, 7))).build_send_wr();
    assert_eq!(read.opcode, WrOpcode::RdmaRead);
    assert_eq!(read.remote_addr, 50);
    let write = WR::new(4, WRType::SEND, sge, Some(RDMA::new(RDMAType::WRITE, 60, 8))).build_send_wr();
    assert_eq!(write.opcode, WrOpcode::RdmaWrite);
    assert_eq!(write.rkey, 8);
}

#[test]
fn receive_request_without_entries() {
    let wr = null_recv();
    assert_eq!(wr.wr_type, WRType::RECV);
    let r = wr.build_recv_wr();
    assert_eq!(r.wr_id, 0);
    assert_eq!(r.num_sge, 0);
}

#[test]
fn queue_pair_attributes() {
    let remote = EndPoint::new(0x1234, 7, [9u8; 16]);
    let rtr = ready_to_receive_attr(&remote);
    assert_eq!(rtr.path_mtu, 1024);
    assert_eq!(rtr.dest_qp_num, 0x1234);
    assert_eq!(rtr.dlid, 7);
    assert_eq!(rtr.dgid, [9u8; 16]);
    assert_eq!(rtr.min_rnr_timer, 18);
    assert_eq!(rtr.sgid_index, 1);
    assert_eq!(rtr.hop_limit, 255);
    let rts = ready_to_send_attr();
    assert_eq!((rts.timeout, rts.retry_cnt, rts.rnr_retry, rts.sq_psn, rts.max_rd_atomic), (14, 6, 6, 0, 1));
    let init = init_attr();
    assert_eq!(init.port_num, 1);
    assert_eq!(default_qp_cap(), QPCap::new(1000, 1000, 5, 5));
    assert_eq!(default_qp_cap().max_inline_data, 0);
}
