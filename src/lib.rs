//! Message-oriented connections over RDMA reliable-connected queue pairs:
//! the verified core of ring allocation, release credits, admission,
//! completion dispatch, work-request building and the handshake records.

pub mod bytes;
pub mod conn;
pub mod cq;
pub mod daemon;
pub mod default;
pub mod mr;
pub mod qp;
pub mod ring;
pub mod wr;
