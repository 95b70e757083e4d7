use crate::error::RuntimeErrors;
use vstd::prelude::*;

verus! {

/// The closed set of virtual-machine instructions.
#[derive(Clone, Copy, Debug, PartialEq, Eq, Structural)]
pub enum OpCode {
    Constant,
    Addition,
    Subtract,
    Multiply,
    Divide,
    Not,
    Negate,
    Print,
    Jump,
    JumpIfFalse,
    Loop,
    True,
    Pop,
    GetLocal,
    SetLocal,
    GetGlobal,
    DefineGlobal,
    SetGlobal,
    Equal,
    False,
    Greater,
    Less,
    Nil,
    Return,
}

/// The encoding of an opcode: its position in the declaration order above.
pub open spec fn opcode_byte(op: OpCode) -> u8 {
    match op {
        OpCode::Constant => 0,
        OpCode::Addition => 1,
        OpCode::Subtract => 2,
        OpCode::Multiply => 3,
        OpCode::Divide => 4,
        OpCode::Not => 5,
        OpCode::Negate => 6,
        OpCode::Print => 7,
        OpCode::Jump => 8,
        OpCode::JumpIfFalse => 9,
        OpCode::Loop => 10,
        OpCode::True => 11,
        OpCode::Pop => 12,
        OpCode::GetLocal => 13,
        OpCode::SetLocal => 14,
        OpCode::GetGlobal => 15,
        OpCode::DefineGlobal => 16,
        OpCode::SetGlobal => 17,
        OpCode::Equal => 18,
        OpCode::False => 19,
        OpCode::Greater => 20,
        OpCode::Less => 21,
        OpCode::Nil => 22,
        OpCode::Return => 23,
    }
}

/// The decoding of a byte, if it encodes an opcode.
pub open spec fn opcode_of_byte(b: u8) -> Option<OpCode> {
    if b == 0 {
        Some(OpCode::Constant)
    } else if b == 1 {
        Some(OpCode::Addition)
    } else if b == 2 {
        Some(OpCode::Subtract)
    } else if b == 3 {
        Some(OpCode::Multiply)
    } else if b == 4 {
        Some(OpCode::Divide)
    } else if b == 5 {
        Some(OpCode::Not)
    } else if b == 6 {
        Some(OpCode::Negate)
    } else if b == 7 {
        Some(OpCode::Print)
    } else if b == 8 {
        Some(OpCode::Jump)
    } else if b == 9 {
        Some(OpCode::JumpIfFalse)
    } else if b == 10 {
        Some(OpCode::Loop)
    } else if b == 11 {
        Some(OpCode::True)
    } else if b == 12 {
        Some(OpCode::Pop)
    } else if b == 13 {
        Some(OpCode::GetLocal)
    } else if b == 14 {
        Some(OpCode::SetLocal)
    } else if b == 15 {
        Some(OpCode::GetGlobal)
    } else if b == 16 {
        Some(OpCode::DefineGlobal)
    } else if b == 17 {
        Some(OpCode::SetGlobal)
    } else if b == 18 {
        Some(OpCode::Equal)
    } else if b == 19 {
        Some(OpCode::False)
    } else if b == 20 {
        Some(OpCode::Greater)
    } else if b == 21 {
        Some(OpCode::Less)
    } else if b == 22 {
        Some(OpCode::Nil)
    } else if b == 23 {
        Some(OpCode::Return)
    } else {
        None
    }
}

/// The display name each opcode carries.
pub open spec fn opcode_name(op: OpCode) -> Seq<char> {
    match op {
        OpCode::Constant => "Op_Constant"@,
        OpCode::Addition => "Op_Addition"@,
        OpCode::Subtract => "Op_Subtract"@,
        OpCode::Multiply => "Op_Multiply"@,
        OpCode::Divide => "Op_Divide"@,
        OpCode::Not => "Op_Not"@,
        OpCode::Negate => "Op_Negate"@,
        OpCode::Print => "Op_Print"@,
        OpCode::Jump => "Op_Jump"@,
        OpCode::JumpIfFalse => "Op_JumpIfFalse"@,
        OpCode::Loop => "Op_Loop"@,
        OpCode::True => "Op_True"@,
        OpCode::Pop => "Op_Pop"@,
        OpCode::GetLocal => "Op_GetLocal"@,
        OpCode::SetLocal => "Op_SetLocal"@,
        OpCode::GetGlobal => "Op_GetGlobal"@,
        OpCode::DefineGlobal => "Op_DefineGlobal"@,
        OpCode::SetGlobal => "Op_SetGlobal"@,
        OpCode::Equal => "Op_Equal"@,
        OpCode::False => "Op_False"@,
        OpCode::Greater => "Op_Greater"@,
        OpCode::Less => "Op_Less"@,
        OpCode::Nil => "Op_Nil"@,
        OpCode::Return => "Op_Return"@,
    }
}

impl OpCode {
    /// The byte this opcode is written as in a chunk.
    pub fn to_byte(self) -> (b: u8)
        ensures
            b == opcode_byte(self),
    {
        match self {
            OpCode::Constant => 0,
            OpCode::Addition => 1,
            OpCode::Subtract => 2,
            OpCode::Multiply => 3,
            OpCode::Divide => 4,
            OpCode::Not => 5,
            OpCode::Negate => 6,
            OpCode::Print => 7,
            OpCode::Jump => 8,
            OpCode::JumpIfFalse => 9,
            OpCode::Loop => 10,
            OpCode::True => 11,
            OpCode::Pop => 12,
            OpCode::GetLocal => 13,
            OpCode::SetLocal => 14,
            OpCode::GetGlobal => 15,
            OpCode::DefineGlobal => 16,
            OpCode::SetGlobal => 17,
            OpCode::Equal => 18,
            OpCode::False => 19,
            OpCode::Greater => 20,
            OpCode::Less => 21,
            OpCode::Nil => 22,
            OpCode::Return => 23,
        }
    }

    /// Decode a byte read from a chunk; bytes past the last opcode are the
    /// `InvalidOpcode` runtime error.
    pub fn from_byte(b: u8) -> (r: Result<OpCode, RuntimeErrors>)
        ensures
            r is Ok <==> opcode_of_byte(b) is Some,
            r is Ok ==> r->Ok_0 == opcode_of_byte(b)->0,
            r is Err ==> r->Err_0 is InvalidOpcode,
    {
        if b == 0 {
            Ok(OpCode::Constant)
        } else if b == 1 {
            Ok(OpCode::Addition)
        } else if b == 2 {
            Ok(OpCode::Subtract)
        } else if b == 3 {
            Ok(OpCode::Multiply)
        } else if b == 4 {
            Ok(OpCode::Divide)
        } else if b == 5 {
            Ok(OpCode::Not)
        } else if b == 6 {
            Ok(OpCode::Negate)
        } else if b == 7 {
            Ok(OpCode::Print)
        } else if b == 8 {
            Ok(OpCode::Jump)
        } else if b == 9 {
            Ok(OpCode::JumpIfFalse)
        } else if b == 10 {
            Ok(OpCode::Loop)
        } else if b == 11 {
            Ok(OpCode::True)
        } else if b == 12 {
            Ok(OpCode::Pop)
        } else if b == 13 {
            Ok(OpCode::GetLocal)
        } else if b == 14 {
            Ok(OpCode::SetLocal)
        } else if b == 15 {
            Ok(OpCode::GetGlobal)
        } else if b == 16 {
            Ok(OpCode::DefineGlobal)
        } else if b == 17 {
            Ok(OpCode::SetGlobal)
        } else if b == 18 {
            Ok(OpCode::Equal)
        } else if b == 19 {
            Ok(OpCode::False)
        } else if b == 20 {
            Ok(OpCode::Greater)
        } else if b == 21 {
            Ok(OpCode::Less)
        } else if b == 22 {
            Ok(OpCode::Nil)
        } else if b == 23 {
            Ok(OpCode::Return)
        } else {
            Err(RuntimeErrors::InvalidOpcode)
        }
    }

    /// The display name of the opcode, as the disassembler prints it.
    pub fn name(&self) -> (m: &'static str)
        ensures
            m@ == opcode_name(*self),
    {
        match self {
            OpCode::Constant => "Op_Constant",
            OpCode::Addition => "Op_Addition",
            OpCode::Subtract => "Op_Subtract",
            OpCode::Multiply => "Op_Multiply",
            OpCode::Divide => "Op_Divide",
            OpCode::Not => "Op_Not",
            OpCode::Negate => "Op_Negate",
            OpCode::Print => "Op_Print",
            OpCode::Jump => "Op_Jump",
            OpCode::JumpIfFalse => "Op_JumpIfFalse",
            OpCode::Loop => "Op_Loop",
            OpCode::True => "Op_True",
            OpCode::Pop => "Op_Pop",
            OpCode::GetLocal => "Op_GetLocal",
            OpCode::SetLocal => "Op_SetLocal",
            OpCode::GetGlobal => "Op_GetGlobal",
            OpCode::DefineGlobal => "Op_DefineGlobal",
            OpCode::SetGlobal => "Op_SetGlobal",
            OpCode::Equal => "Op_Equal",
            OpCode::False => "Op_False",
            OpCode::Greater => "Op_Greater",
            OpCode::Less => "Op_Less",
            OpCode::Nil => "Op_Nil",
            OpCode::Return => "Op_Return",
        }
    }
}

/// Decoding inverts encoding: every opcode comes back from its own byte.
pub proof fn lemma_opcode_roundtrip(op: OpCode)
    ensures
        opcode_of_byte(opcode_byte(op)) == Some(op),
{
}

} // verus!
