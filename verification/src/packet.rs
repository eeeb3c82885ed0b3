//! The five TFTP packet kinds and the wire error codes.

use vstd::prelude::*;

verus! {

/// The numeric error codes a TFTP ERROR packet can carry (RFC 1350).
#[derive(Clone, Copy, Debug, PartialEq, Eq, Structural)]
pub enum ErrorCode {
    NotDefined,
    FileNotFound,
    AccessViolation,
    DiskFullOrAllocationFailed,
    IllegalTftpOperation,
    UnknownTransferId,
    FileAlreadyExists,
    NoSuchUser,
}

/// The wire number of an error code.
pub open spec fn spec_code_to_u16(code: ErrorCode) -> u16 {
    match code {
        ErrorCode::NotDefined => 0,
        ErrorCode::FileNotFound => 1,
        ErrorCode::AccessViolation => 2,
        ErrorCode::DiskFullOrAllocationFailed => 3,
        ErrorCode::IllegalTftpOperation => 4,
        ErrorCode::UnknownTransferId => 5,
        ErrorCode::FileAlreadyExists => 6,
        ErrorCode::NoSuchUser => 7,
    }
}

/// The error code a wire number decodes to; numbers out of range fall
/// back to `NotDefined` (a lossy, one-directional mapping).
pub open spec fn spec_code_from_u16(val: u16) -> ErrorCode {
    match val {
        0u16 => ErrorCode::NotDefined,
        1u16 => ErrorCode::FileNotFound,
        2u16 => ErrorCode::AccessViolation,
        3u16 => ErrorCode::DiskFullOrAllocationFailed,
        4u16 => ErrorCode::IllegalTftpOperation,
        5u16 => ErrorCode::UnknownTransferId,
        6u16 => ErrorCode::FileAlreadyExists,
        7u16 => ErrorCode::NoSuchUser,
        _ => ErrorCode::NotDefined,
    }
}

impl ErrorCode {
    /// Decode a wire number; unknown numbers map to `NotDefined`.
    pub fn from_u16(val: u16) -> (code: ErrorCode)
        ensures
            code == spec_code_from_u16(val),
    {
        match val {
            0 => ErrorCode::NotDefined,
            1 => ErrorCode::FileNotFound,
            2 => ErrorCode::AccessViolation,
            3 => ErrorCode::DiskFullOrAllocationFailed,
            4 => ErrorCode::IllegalTftpOperation,
            5 => ErrorCode::UnknownTransferId,
            6 => ErrorCode::FileAlreadyExists,
            7 => ErrorCode::NoSuchUser,
            _ => ErrorCode::NotDefined,
        }
    }

    /// Encode this code as its wire number.
    pub fn to_u16(&self) -> (val: u16)
        ensures
            val == spec_code_to_u16(*self),
    {
        match self {
            ErrorCode::NotDefined => 0,
            ErrorCode::FileNotFound => 1,
            ErrorCode::AccessViolation => 2,
            ErrorCode::DiskFullOrAllocationFailed => 3,
            ErrorCode::IllegalTftpOperation => 4,
            ErrorCode::UnknownTransferId => 5,
            ErrorCode::FileAlreadyExists => 6,
            ErrorCode::NoSuchUser => 7,
        }
    }
}

/// The round trip through the wire number is the identity on every code.
pub proof fn lemma_code_round_trip(code: ErrorCode)
    ensures
        spec_code_from_u16(spec_code_to_u16(code)) == code,
{
}

/// A decoded TFTP packet, discriminated by its wire opcode:
/// RRQ = 1, WRQ = 2, DATA = 3, ACK = 4, ERROR = 5.
#[derive(Clone, Debug, PartialEq, Eq)]
pub enum Packet {
    RRQ(String, String),
    WRQ(String, String),
    ACK(u16),
    ERROR(ErrorCode, String),
    Data(u16, Box<Vec<u8>>),
}

/// The mathematical shape of a packet: text fields as character
/// sequences, the DATA payload as a byte sequence.
pub enum PacketModel {
    RRQ { filename: Seq<char>, mode: Seq<char> },
    WRQ { filename: Seq<char>, mode: Seq<char> },
    ACK { block_no: u16 },
    ERROR { code: ErrorCode, message: Seq<char> },
    Data { block_no: u16, payload: Seq<u8> },
}

impl View for Packet {
    type V = PacketModel;

    open spec fn view(&self) -> PacketModel {
        match self {
            Packet::RRQ(filename, mode) => PacketModel::RRQ {
                filename: filename@,
                mode: mode@,
            },
            Packet::WRQ(filename, mode) => PacketModel::WRQ {
                filename: filename@,
                mode: mode@,
            },
            Packet::ACK(block_no) => PacketModel::ACK { block_no: *block_no },
            Packet::ERROR(code, message) => PacketModel::ERROR {
                code: *code,
                message: message@,
            },
            Packet::Data(block_no, payload) => PacketModel::Data {
                block_no: *block_no,
                payload: payload@,
            },
        }
    }
}

/// Why a buffer failed to decode: an opcode outside 1..=5, a buffer cut
/// short of a complete packet, or a text field that is not valid UTF-8.
#[derive(Clone, Copy, Debug, PartialEq, Eq, Structural)]
pub enum DecodeError {
    UnknownOpcode,
    Truncated,
    InvalidText,
}

} // verus!
