//! Frame opcodes.

use vstd::prelude::*;

verus! {

/// The purpose of a frame. Only these five kinds are understood; every other
/// four-bit value is rejected when a header is parsed.
#[derive(Debug, Clone, Copy, PartialEq, Eq, Structural)]
pub enum OpCode {
    TextFrame,
    BinaryFrame,
    ConnectionClose,
    Ping,
    Pong,
}

/// The opcode that a four-bit wire value stands for, if any.
pub open spec fn opcode_of(op: u8) -> Option<OpCode> {
    if op == 1 {
        Some(OpCode::TextFrame)
    } else if op == 2 {
        Some(OpCode::BinaryFrame)
    } else if op == 8 {
        Some(OpCode::ConnectionClose)
    } else if op == 9 {
        Some(OpCode::Ping)
    } else if op == 10 {
        Some(OpCode::Pong)
    } else {
        None
    }
}

impl OpCode {
    /// The four-bit value that stands for this opcode on the wire.
    pub open spec fn wire_value(self) -> u8 {
        match self {
            OpCode::TextFrame => 1,
            OpCode::BinaryFrame => 2,
            OpCode::ConnectionClose => 8,
            OpCode::Ping => 9,
            OpCode::Pong => 10,
        }
    }

    /// Reads an opcode from its wire value.
    pub fn from(op: u8) -> (r: Option<OpCode>)
        ensures
            r == opcode_of(op),
    {
        match op {
            1 => Some(OpCode::TextFrame),
            2 => Some(OpCode::BinaryFrame),
            8 => Some(OpCode::ConnectionClose),
            9 => Some(OpCode::Ping),
            0xA => Some(OpCode::Pong),
            _ => None,
        }
    }

    /// The wire value of this opcode.
    pub fn to_u8(self) -> (r: u8)
        ensures
            r == self.wire_value(),
            r < 16,
    {
        match self {
            OpCode::TextFrame => 1,
            OpCode::BinaryFrame => 2,
            OpCode::ConnectionClose => 8,
            OpCode::Ping => 9,
            OpCode::Pong => 0xA,
        }
    }
}

/// Reading back the wire value of an opcode gives that opcode, and a wire
/// value is accepted only if some opcode has it.
pub proof fn lemma_opcode_wire_round_trip(code: OpCode, op: u8)
    ensures
        opcode_of(code.wire_value()) == Some(code),
        opcode_of(op) matches Some(c) ==> c.wire_value() == op,
        opcode_of(op) is Some <==> (op == 1 || op == 2 || op == 8 || op == 9 || op == 10),
{
}

} // verus!
