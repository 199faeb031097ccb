//! The one-byte PDU type tag that opens every Basic Header Segment.
use vstd::prelude::*;

use crate::error::PduError;

verus! {

/// The immediate-delivery flag bit of the opcode byte.
pub const IMMEDIATE_FLAG: u8 = 0x40;

/// The opcode value of a Reject PDU.
pub const REJECT_CODE: u8 = 0x3f;

/// The closed set of iSCSI PDU types.
#[derive(Clone, Copy, Debug, PartialEq, Eq, Structural)]
pub enum Opcode {
    NopOut,
    ScsiCommand,
    ScsiTaskManagementRequest,
    LoginRequest,
    TextRequest,
    ScsiDataOut,
    LogoutRequest,
    SnackRequest,
    NopIn,
    ScsiResponse,
    ScsiTaskManagementResponse,
    LoginResponse,
    TextResponse,
    ScsiDataIn,
    LogoutResponse,
    ReadyToTransfer,
    AsyncMessage,
    Reject,
}

/// The six-bit code of each opcode.
pub open spec fn code_of(op: Opcode) -> u8 {
    match op {
        Opcode::NopOut => 0x00,
        Opcode::ScsiCommand => 0x01,
        Opcode::ScsiTaskManagementRequest => 0x02,
        Opcode::LoginRequest => 0x03,
        Opcode::TextRequest => 0x04,
        Opcode::ScsiDataOut => 0x05,
        Opcode::LogoutRequest => 0x06,
        Opcode::SnackRequest => 0x10,
        Opcode::NopIn => 0x20,
        Opcode::ScsiResponse => 0x21,
        Opcode::ScsiTaskManagementResponse => 0x22,
        Opcode::LoginResponse => 0x23,
        Opcode::TextResponse => 0x24,
        Opcode::ScsiDataIn => 0x25,
        Opcode::LogoutResponse => 0x26,
        Opcode::ReadyToTransfer => 0x31,
        Opcode::AsyncMessage => 0x32,
        Opcode::Reject => 0x3f,
    }
}

/// The opcode whose code is `c`, if any.
pub open spec fn opcode_of_code(c: u8) -> Option<Opcode> {
    if exists|op: Opcode| code_of(op) == c {
        Some(choose|op: Opcode| code_of(op) == c)
    } else {
        None
    }
}

/// A decoded opcode byte: the immediate flag and the PDU type.
#[derive(Clone, Copy, Debug, PartialEq, Eq, Structural)]
pub struct BhsOpcode {
    pub immediate: bool,
    pub opcode: Opcode,
}

/// The byte that encodes `o`.
pub open spec fn bhs_opcode_byte(o: BhsOpcode) -> u8 {
    if o.immediate {
        (IMMEDIATE_FLAG + code_of(o.opcode)) as u8
    } else {
        code_of(o.opcode)
    }
}

/// The opcode byte `b` decoded, or `None` where its top bit is set or its
/// low six bits name no known PDU type.
pub open spec fn bhs_opcode_of(b: u8) -> Option<BhsOpcode> {
    if b >= 0x80 {
        None
    } else {
        match opcode_of_code(b % 64) {
            Some(op) => Some(BhsOpcode { immediate: b >= 0x40, opcode: op }),
            None => None,
        }
    }
}

/// Each code names one opcode.
pub proof fn lemma_code_injective(a: Opcode, b: Opcode)
    ensures
        code_of(a) == code_of(b) ==> a == b,
        code_of(a) < 64,
{
}

impl Opcode {
    /// The code of this opcode.
    pub fn code(&self) -> (r: u8)
        ensures
            r == code_of(*self),
    {
        match self {
            Opcode::NopOut => 0x00,
            Opcode::ScsiCommand => 0x01,
            Opcode::ScsiTaskManagementRequest => 0x02,
            Opcode::LoginRequest => 0x03,
            Opcode::TextRequest => 0x04,
            Opcode::ScsiDataOut => 0x05,
            Opcode::LogoutRequest => 0x06,
            Opcode::SnackRequest => 0x10,
            Opcode::NopIn => 0x20,
            Opcode::ScsiResponse => 0x21,
            Opcode::ScsiTaskManagementResponse => 0x22,
            Opcode::LoginResponse => 0x23,
            Opcode::TextResponse => 0x24,
            Opcode::ScsiDataIn => 0x25,
            Opcode::LogoutResponse => 0x26,
            Opcode::ReadyToTransfer => 0x31,
            Opcode::AsyncMessage => 0x32,
            Opcode::Reject => 0x3f,
        }
    }

    /// The opcode with code `c`; `Malformed` where no opcode has it.
    pub fn from_code(c: u8) -> (r: Result<Opcode, PduError>)
        ensures
            match r {
                Ok(op) => opcode_of_code(c) == Some(op),
                Err(e) => opcode_of_code(c) is None && e == PduError::Malformed,
            },
    {
        let r = match c {
            0x00 => Ok(Opcode::NopOut),
            0x01 => Ok(Opcode::ScsiCommand),
            0x02 => Ok(Opcode::ScsiTaskManagementRequest),
            0x03 => Ok(Opcode::LoginRequest),
            0x04 => Ok(Opcode::TextRequest),
            0x05 => Ok(Opcode::ScsiDataOut),
            0x06 => Ok(Opcode::LogoutRequest),
            0x10 => Ok(Opcode::SnackRequest),
            0x20 => Ok(Opcode::NopIn),
            0x21 => Ok(Opcode::ScsiResponse),
            0x22 => Ok(Opcode::ScsiTaskManagementResponse),
            0x23 => Ok(Opcode::LoginResponse),
            0x24 => Ok(Opcode::TextResponse),
            0x25 => Ok(Opcode::ScsiDataIn),
            0x26 => Ok(Opcode::LogoutResponse),
            0x31 => Ok(Opcode::ReadyToTransfer),
            0x32 => Ok(Opcode::AsyncMessage),
            0x3f => Ok(Opcode::Reject),
            _ => Err(PduError::Malformed),
        };
        proof {
            match r {
                Ok(op) => {
                    assert(code_of(op) == c);
                    let o = choose|o: Opcode| code_of(o) == c;
                    lemma_code_injective(o, op);
                },
                Err(_) => {},
            }
        }
        r
    }
}

impl BhsOpcode {
    /// Decodes an opcode byte; `Malformed` where `b` is not a known opcode byte.
    pub fn from_byte(b: u8) -> (r: Result<BhsOpcode, PduError>)
        ensures
            match r {
                Ok(o) => bhs_opcode_of(b) == Some(o),
                Err(e) => bhs_opcode_of(b) is None && e == PduError::Malformed,
            },
    {
        if b >= 0x80 {
            return Err(PduError::Malformed);
        }
        match Opcode::from_code(b % 64) {
            Ok(op) => Ok(BhsOpcode { immediate: b >= IMMEDIATE_FLAG, opcode: op }),
            Err(e) => Err(e),
        }
    }

    /// The byte that encodes this opcode.
    pub fn to_byte(&self) -> (r: u8)
        ensures
            r == bhs_opcode_byte(*self),
    {
        proof {
            lemma_code_injective(self.opcode, self.opcode);
        }
        if self.immediate {
            IMMEDIATE_FLAG + self.opcode.code()
        } else {
            self.opcode.code()
        }
    }
}

/// Decoding the byte of an opcode gives that opcode back.
pub proof fn lemma_bhs_opcode_round_trip(o: BhsOpcode)
    ensures
        bhs_opcode_of(bhs_opcode_byte(o)) == Some(o),
{
    let c = code_of(o.opcode);
    lemma_code_injective(o.opcode, o.opcode);
    let b = bhs_opcode_byte(o);
    assert(b % 64 == c);
    let p = choose|p: Opcode| code_of(p) == c;
    lemma_code_injective(p, o.opcode);
}

} // verus!
