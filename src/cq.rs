//! Work completions as plain values, and the decoding of their status,
//! opcode and flags.
use vstd::prelude::*;

verus! {

/// Status of a work completion.
#[derive(Clone, Copy, Debug, PartialEq, Eq, Structural)]
pub enum WCStatus {
    /// Work request completed successfully.
    Success,
    /// Local length of the scatter/gather list is invalid.
    LocalLenErr,
    /// Local queue-pair operation error.
    LocalQpOpErr,
    /// Local EEC operation error.
    LocalEecOpErr,
    /// Local protection error.
    LocalProtErr,
    /// Work request flushed.
    WrFlushErr,
    /// Memory window bind error.
    MwBindErr,
    /// Bad response.
    BadRespErr,
    /// Local access error.
    LocalAccessErr,
    /// Remote invalid request.
    RemInvReqErr,
    /// Remote access error.
    RemAccessErr,
    /// Remote operation error.
    RemOpErr,
    /// Retry counter exceeded.
    RetryExcErr,
    /// RNR retry counter exceeded.
    RnrRetryExcErr,
    /// Local RDD violation.
    LocRddViolErr,
    /// Remote invalid RD request.
    RemInvRdReqErr,
    /// Remote abort.
    RemAbortErr,
    /// Invalid EECN.
    InvEecnErr,
    /// Invalid EEC state.
    InvEecStateErr,
    /// Fatal error.
    FatalErr,
    /// Response timeout.
    RespTimeoutErr,
    /// General error.
    GeneralErr,
    /// A status this library does not know.
    Unknown(u32),
}

pub open spec fn wc_status_of(value: u32) -> WCStatus {
    match value {
        0 => WCStatus::Success,
        1 => WCStatus::LocalLenErr,
        2 => WCStatus::LocalQpOpErr,
        3 => WCStatus::LocalEecOpErr,
        4 => WCStatus::LocalProtErr,
        5 => WCStatus::WrFlushErr,
        6 => WCStatus::MwBindErr,
        7 => WCStatus::BadRespErr,
        8 => WCStatus::LocalAccessErr,
        9 => WCStatus::RemInvReqErr,
        10 => WCStatus::RemAccessErr,
        11 => WCStatus::RemOpErr,
        12 => WCStatus::RetryExcErr,
        13 => WCStatus::RnrRetryExcErr,
        14 => WCStatus::LocRddViolErr,
        15 => WCStatus::RemInvRdReqErr,
        16 => WCStatus::RemAbortErr,
        17 => WCStatus::InvEecnErr,
        18 => WCStatus::InvEecStateErr,
        19 => WCStatus::FatalErr,
        20 => WCStatus::RespTimeoutErr,
        21 => WCStatus::GeneralErr,
        _ => WCStatus::Unknown(value),
    }
}

impl From<u32> for WCStatus {
    fn from(value: u32) -> Self {
        match value {
            0 => WCStatus::Success,
            1 => WCStatus::LocalLenErr,
            2 => WCStatus::LocalQpOpErr,
            3 => WCStatus::LocalEecOpErr,
            4 => WCStatus::LocalProtErr,
            5 => WCStatus::WrFlushErr,
            6 => WCStatus::MwBindErr,
            7 => WCStatus::BadRespErr,
            8 => WCStatus::LocalAccessErr,
            9 => WCStatus::RemInvReqErr,
            10 => WCStatus::RemAccessErr,
            11 => WCStatus::RemOpErr,
            12 => WCStatus::RetryExcErr,
            13 => WCStatus::RnrRetryExcErr,
            14 => WCStatus::LocRddViolErr,
            15 => WCStatus::RemInvRdReqErr,
            16 => WCStatus::RemAbortErr,
            17 => WCStatus::InvEecnErr,
            18 => WCStatus::InvEecStateErr,
            19 => WCStatus::FatalErr,
            20 => WCStatus::RespTimeoutErr,
            21 => WCStatus::GeneralErr,
            _ => WCStatus::Unknown(value),
        }
    }
}

impl vstd::std_specs::convert::FromSpecImpl<u32> for WCStatus {
    open spec fn obeys_from_spec() -> bool {
        true
    }

    open spec fn from_spec(v: u32) -> WCStatus {
        wc_status_of(v)
    }
}

/// Opcode of a work completion.
#[derive(Clone, Copy, Debug, PartialEq, Eq, Structural)]
pub enum Opcode {
    Send,
    Recv,
    Read,
    Write,
    SendWithImm,
    /// A write with immediate data from the peer arrived.
    WriteWithImm,
    Unknown(u32),
}

pub open spec fn opcode_of(value: u32) -> Opcode {
    match value {
        0 => Opcode::Send,
        128 => Opcode::Recv,
        2 => Opcode::Read,
        1 => Opcode::Write,
        129 => Opcode::WriteWithImm,
        _ => Opcode::Unknown(value),
    }
}

impl From<u32> for Opcode {
    fn from(value: u32) -> Self {
        match value {
            0 => Opcode::Send,
            128 => Opcode::Recv,
            2 => Opcode::Read,
            1 => Opcode::Write,
            129 => Opcode::WriteWithImm,
            _ => Opcode::Unknown(value),
        }
    }
}

impl vstd::std_specs::convert::FromSpecImpl<u32> for Opcode {
    open spec fn obeys_from_spec() -> bool {
        true
    }

    open spec fn from_spec(v: u32) -> Opcode {
        opcode_of(v)
    }
}

/// Flags of a work completion.
#[derive(Clone, Copy, Debug, PartialEq, Eq, Structural)]
pub enum WCFlag {
    Empty,
    /// The immediate data is valid.
    WithImm,
    Unknown(u32),
}

pub open spec fn wc_flag_of(value: u32) -> WCFlag {
    match value {
        0 => WCFlag::Empty,
        3 => WCFlag::WithImm,
        _ => WCFlag::Unknown(value),
    }
}

impl From<u32> for WCFlag {
    fn from(value: u32) -> Self {
        match value {
            0 => WCFlag::Empty,
            3 => WCFlag::WithImm,
            _ => WCFlag::Unknown(value),
        }
    }
}

impl vstd::std_specs::convert::FromSpecImpl<u32> for WCFlag {
    open spec fn obeys_from_spec() -> bool {
        true
    }

    open spec fn from_spec(v: u32) -> WCFlag {
        wc_flag_of(v)
    }
}

/// A work completion, as polled from the completion queue.
#[derive(Clone, Copy, Debug, PartialEq, Eq, Structural)]
pub struct WC {
    pub wr_id: u64,
    pub status: u32,
    pub opcode: u32,
    pub imm_data: u32,
    pub wc_flags: u32,
    pub byte_len: u32,
}

impl WC {
    pub fn new(wr_id: u64, status: u32, opcode: u32, imm_data: u32, wc_flags: u32, byte_len: u32) -> (r: WC)
        ensures
            r == (WC { wr_id, status, opcode, imm_data, wc_flags, byte_len }),
    {
        WC { wr_id, status, opcode, imm_data, wc_flags, byte_len }
    }

    pub fn wr_id(&self) -> (r: u64)
        ensures
            r == self.wr_id,
    {
        self.wr_id
    }

    pub fn status(&self) -> (r: WCStatus)
        ensures
            r == wc_status_of(self.status),
    {
        WCStatus::from(self.status)
    }

    pub fn opcode(&self) -> (r: Opcode)
        ensures
            r == opcode_of(self.opcode),
    {
        Opcode::from(self.opcode)
    }

    pub fn imm_data(&self) -> (r: u32)
        ensures
            r == self.imm_data,
    {
        self.imm_data
    }

    pub fn wc_flags(&self) -> (r: WCFlag)
        ensures
            r == wc_flag_of(self.wc_flags),
    {
        WCFlag::from(self.wc_flags)
    }

    pub fn byte_len(&self) -> (r: u32)
        ensures
            r == self.byte_len,
    {
        self.byte_len
    }
}

} // verus!
