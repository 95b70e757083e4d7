use crate::chunks::Chunk;
use crate::opcode::{opcode_of_byte, OpCode};
use crate::value::Value;
use vstd::prelude::*;

verus! {

/// How many bytes an instruction occupies: the opcode and its immediates. A
/// byte that is no opcode is listed alone.
pub open spec fn instr_width(b: u8) -> int {
    match opcode_of_byte(b) {
        None => 1,
        Some(op) => match op {
            OpCode::Constant => 2,
            OpCode::GetLocal => 2,
            OpCode::SetLocal => 2,
            OpCode::GetGlobal => 2,
            OpCode::DefineGlobal => 2,
            OpCode::SetGlobal => 2,
            OpCode::Jump => 3,
            OpCode::JumpIfFalse => 3,
            OpCode::Loop => 3,
            _ => 1,
        },
    }
}

/// Where the instructions of `code` begin, from position `i` on; an
/// instruction whose immediates run past the end still gets its entry.
pub open spec fn instr_offsets(code: Seq<u8>, i: int) -> Seq<int>
    decreases code.len() - i,
    when 0 <= i <= code.len()
    via instr_offsets_decreases
{
    if i >= code.len() {
        Seq::empty()
    } else {
        let next = if i + instr_width(code[i]) <= code.len() {
            i + instr_width(code[i])
        } else {
            code.len() as int
        };
        seq![i] + instr_offsets(code, next)
    }
}

#[via_fn]
proof fn instr_offsets_decreases(code: Seq<u8>, i: int) {
    if 0 <= i < code.len() {
        assert(instr_width(code[i]) >= 1);
    }
}

/// The immediates one listed instruction carries.
#[derive(Clone, Copy, Debug, PartialEq, Eq, Structural)]
pub enum DisOperand {
    NoOperand,
    Byte(u8),
    Constant(u8, Value),
    Jump(u16),
    Truncated,
}

/// One line of a disassembly: where the instruction sits, the source line it
/// came from, what it is, and what it carries.
#[derive(Clone, Copy, Debug)]
pub struct DisLine {
    pub offset: usize,
    pub line: usize,
    pub op: Option<OpCode>,
    pub operand: DisOperand,
}

/// Anything that can list itself as instructions: the listing holds exactly
/// one entry per instruction, in order of their offsets.
pub trait Disassembler {
    spec fn dis_wf(&self) -> bool;

    spec fn dis_code(&self) -> Seq<u8>;

    fn disassemble(&self) -> (r: Vec<DisLine>)
        requires
            self.dis_wf(),
        ensures
            r@.len() == instr_offsets(self.dis_code(), 0).len(),
            forall|k: int|
                0 <= k < r@.len() ==> (#[trigger] r@[k]).offset == instr_offsets(
                    self.dis_code(),
                    0,
                )[k],
            forall|k: int|
                0 <= k < r@.len() ==> (#[trigger] r@[k]).op == opcode_of_byte(
                    self.dis_code()[r@[k].offset as int],
                ),
    ;
}

impl Disassembler for Chunk {
    open spec fn dis_wf(&self) -> bool {
        self.wf()
    }

    open spec fn dis_code(&self) -> Seq<u8> {
        self.code@
    }

    fn disassemble(&self) -> (r: Vec<DisLine>) {
        let mut out: Vec<DisLine> = Vec::new();
        let mut ip = TracingIp::new(self, 0);
        proof {
            assert(instr_offsets(self.code@, 0) =~= out@.map(|i: int, l: DisLine| l.offset as int)
                + instr_offsets(self.code@, 0));
        }
        loop
            invariant
                ip.chunk == self,
                self.wf(),
                ip.offset <= self.code@.len(),
                instr_offsets(self.code@, 0) == out@.map(|i: int, l: DisLine| l.offset as int)
                    + instr_offsets(self.code@, ip.offset as int),
                forall|k: int|
                    0 <= k < out@.len() ==> (#[trigger] out@[k]).offset == instr_offsets(
                        self.code@,
                        0,
                    )[k],
                forall|k: int|
                    0 <= k < out@.len() ==> (#[trigger] out@[k]).op == opcode_of_byte(
                        self.code@[out@[k].offset as int],
                    ),
            ensures
                ip.offset == self.code@.len(),
            decreases self.code@.len() - ip.offset,
        {
            if !ip.valid() {
                break ;
            }
            let ghost pre_out = out@;
            let ghost pre_off = ip.offset as int;
            let entry = ip.disassemble_instruction();
            out.push(entry);
            proof {
                assert(out@.map(|i: int, l: DisLine| l.offset as int) =~= pre_out.map(
                    |i: int, l: DisLine| l.offset as int,
                ).push(pre_off));
                assert(instr_offsets(self.code@, pre_off) == seq![pre_off] + instr_offsets(
                    self.code@,
                    ip.offset as int,
                ));
                assert(instr_offsets(self.code@, 0) =~= out@.map(
                    |i: int, l: DisLine| l.offset as int,
                ) + instr_offsets(self.code@, ip.offset as int));
                assert forall|k: int| 0 <= k < out@.len() implies (#[trigger] out@[k]).offset
                    == instr_offsets(self.code@, 0)[k] by {
                    assert(instr_offsets(self.code@, 0)[k] == (out@.map(
                        |i: int, l: DisLine| l.offset as int,
                    ) + instr_offsets(self.code@, ip.offset as int))[k]);
                }
            }
        }
        proof {
            assert(instr_offsets(self.code@, self.code@.len() as int) =~= Seq::<int>::empty());
            assert(instr_offsets(self.code@, 0) =~= out@.map(|i: int, l: DisLine| l.offset as int));
        }
        out
    }
}

/// A reading head over a chunk: the position it is at, and the source line
/// of the byte it last read.
#[derive(Clone)]
pub struct TracingIp<'a> {
    pub chunk: &'a Chunk,
    pub offset: usize,
    pub line: Option<usize>,
}

impl<'a> TracingIp<'a> {
    pub fn new(chunk: &'a Chunk, offset: usize) -> (r: TracingIp<'a>)
        ensures
            r.chunk == chunk,
            r.offset == offset,
            r.line is None,
    {
        TracingIp { chunk, offset, line: None }
    }

    /// Whether the head still points into the code.
    pub fn valid(&self) -> (r: bool)
        ensures
            r == (self.offset < self.chunk.code@.len()),
    {
        self.offset < self.chunk.code.len()
    }

    /// Read one byte and remember its source line.
    pub fn read(&mut self) -> (r: u8)
        requires
            old(self).chunk.wf(),
            old(self).offset < old(self).chunk.code@.len(),
        ensures
            final(self).chunk == old(self).chunk,
            final(self).offset == old(self).offset + 1,
            r == old(self).chunk.code@[old(self).offset as int],
            final(self).line == Some(old(self).chunk.byte_lines@[old(self).offset as int]),
    {
        let n = self.chunk.code.len();
        proof {
            assert(self.offset < n);
        }
        let result = self.chunk.code[self.offset];
        self.line = Some(self.chunk.line_at(self.offset));
        self.offset = self.offset + 1;
        result
    }

    /// Read a 16-bit big-endian immediate.
    pub fn read_short(&mut self) -> (r: u16)
        requires
            old(self).chunk.wf(),
            old(self).offset + 2 <= old(self).chunk.code@.len(),
        ensures
            final(self).chunk == old(self).chunk,
            final(self).offset == old(self).offset + 2,
            r == old(self).chunk.code@[old(self).offset as int] * 256 + old(
                self,
            ).chunk.code@[old(self).offset + 1],
    {
        let high = self.read();
        let low = self.read();
        (high as u16) * 256 + (low as u16)
    }

    /// Read a constant-pool operand and fetch the value it names, when the
    /// pool holds it.
    pub fn read_constant(&mut self) -> (r: (u8, Option<Value>))
        requires
            old(self).chunk.wf(),
            old(self).offset < old(self).chunk.code@.len(),
        ensures
            final(self).chunk == old(self).chunk,
            final(self).offset == old(self).offset + 1,
            r.0 == old(self).chunk.code@[old(self).offset as int],
            r.0 < old(self).chunk.constants@.len() ==> r.1 == Some(
                old(self).chunk.constants@[r.0 as int],
            ),
            r.0 >= old(self).chunk.constants@.len() ==> r.1 is None,
    {
        let off = self.read();
        if (off as usize) < self.chunk.constants.len() {
            (off, Some(self.chunk.constants[off as usize]))
        } else {
            (off, None)
        }
    }

    /// A copy of the constant `distance` below the top of the pool.
    pub fn peek(&self, distance: usize) -> (r: Value)
        requires
            distance < self.chunk.constants@.len(),
        ensures
            r == self.chunk.constants@[self.chunk.constants@.len() - 1 - distance],
    {
        self.chunk.constants[self.chunk.constants.len() - 1 - distance]
    }

    /// The source line of the byte under the head, when there is one.
    pub fn get_line(&self) -> (r: Option<usize>)
        requires
            self.chunk.wf(),
        ensures
            self.offset < self.chunk.code@.len() ==> r == Some(
                self.chunk.byte_lines@[self.offset as int],
            ),
            self.chunk.code@.len() == 0 ==> r is None,
    {
        let n = self.chunk.code.len();
        if self.offset < n {
            Some(self.chunk.line_at(self.offset))
        } else if n > 0 {
            Some(self.chunk.line_at(n - 1))
        } else {
            None
        }
    }

    /// List the instruction under the head and move past it; immediates that
    /// run past the end of the code are listed as truncated.
    pub fn disassemble_instruction(&mut self) -> (l: DisLine)
        requires
            old(self).chunk.wf(),
            old(self).offset < old(self).chunk.code@.len(),
        ensures
            final(self).chunk == old(self).chunk,
            l.offset == old(self).offset,
            l.line == old(self).chunk.byte_lines@[old(self).offset as int],
            l.op == opcode_of_byte(old(self).chunk.code@[old(self).offset as int]),
            final(self).offset as int == if old(self).offset + instr_width(
                old(self).chunk.code@[old(self).offset as int],
            ) <= old(self).chunk.code@.len() {
                old(self).offset + instr_width(old(self).chunk.code@[old(self).offset as int])
            } else {
                old(self).chunk.code@.len() as int
            },
            l.operand == ({
                let code = old(self).chunk.code@;
                let consts = old(self).chunk.constants@;
                let at = old(self).offset as int;
                match opcode_of_byte(code[at]) {
                    None => DisOperand::Truncated,
                    Some(op) => match op {
                        OpCode::Constant | OpCode::GetGlobal | OpCode::DefineGlobal
                            | OpCode::SetGlobal => if at + 1 < code.len() {
                            if code[at + 1] < consts.len() {
                                DisOperand::Constant(code[at + 1], consts[code[at + 1] as int])
                            } else {
                                DisOperand::Byte(code[at + 1])
                            }
                        } else {
                            DisOperand::Truncated
                        },
                        OpCode::GetLocal | OpCode::SetLocal => if at + 1 < code.len() {
                            DisOperand::Byte(code[at + 1])
                        } else {
                            DisOperand::Truncated
                        },
                        OpCode::Jump | OpCode::JumpIfFalse | OpCode::Loop => if at + 3
                            <= code.len() {
                            DisOperand::Jump((code[at + 1] * 256 + code[at + 2]) as u16)
                        } else {
                            DisOperand::Truncated
                        },
                        _ => DisOperand::NoOperand,
                    },
                }
            }),
    {
        let start = self.offset;
        let byte = self.read();
        let line = match self.line {
            Some(l) => l,
            None => 0,
        };
        let code_len = self.chunk.code.len();
        match OpCode::from_byte(byte) {
            Err(_) => DisLine { offset: start, line, op: None, operand: DisOperand::Truncated },
            Ok(op) => {
                let operand = match op {
                    OpCode::Constant | OpCode::GetGlobal | OpCode::DefineGlobal
                        | OpCode::SetGlobal => {
                        if self.offset < code_len {
                            let (idx, val) = self.read_constant();
                            match val {
                                Some(v) => DisOperand::Constant(idx, v),
                                None => DisOperand::Byte(idx),
                            }
                        } else {
                            DisOperand::Truncated
                        }
                    },
                    OpCode::GetLocal | OpCode::SetLocal => {
                        if self.offset < code_len {
                            DisOperand::Byte(self.read())
                        } else {
                            DisOperand::Truncated
                        }
                    },
                    OpCode::Jump | OpCode::JumpIfFalse | OpCode::Loop => {
                        if code_len - self.offset >= 2 {
                            let jump = self.read_short();
                            DisOperand::Jump(jump)
                        } else {
                            self.offset = code_len;
                            DisOperand::Truncated
                        }
                    },
                    _ => DisOperand::NoOperand,
                };
                DisLine { offset: start, line, op: Some(op), operand }
            },
        }
    }
}

} // verus!
