use crate::chunks::Chunk;
use crate::error::CompileErrors;
use crate::num::{num_parse, num_parse_of};
use crate::opcode::{opcode_byte, OpCode};
use crate::parser::{
    get_rule, prec_level, rule_of, InfixRule, Parser, Precedence, PrefixRule,
};
use crate::token::{TType, Token};
use crate::value::{find_text, valid_value, Interns, Value};
use vstd::prelude::*;

verus! {

/// A compile-time record of one local variable: the lexeme it was declared
/// under, and the scope depth it lives at — `None` from its declaration
/// until its initializer has run.
#[derive(Clone, Copy, Debug)]
pub struct Local<'src> {
    pub name: &'src str,
    pub depth: Option<usize>,
}

/// Whether a local sits strictly above the given depth; one still being
/// initialized counts as above every depth, since it belongs to the scope
/// being compiled.
pub open spec fn local_above(l: Local<'_>, d: int) -> bool {
    match l.depth {
        None => true,
        Some(x) => x > d,
    }
}

/// The locals that survive when the scope at depth `d` ends: the longest
/// prefix whose tail is not above `d`.
pub open spec fn keep_scope<'src>(locals: Seq<Local<'src>>, d: int) -> Seq<Local<'src>>
    decreases locals.len(),
{
    if locals.len() > 0 && local_above(locals.last(), d) {
        keep_scope(locals.drop_last(), d)
    } else {
        locals
    }
}

/// Every local is initialized, at a depth no deeper than `d`. This holds at
/// every statement boundary; during a `var` declaration the newest local is
/// momentarily uninitialized.
pub open spec fn locals_resolved(locals: Seq<Local<'_>>, d: int) -> bool {
    forall|k: int|
        0 <= k < locals.len() ==> ((#[trigger] locals[k]).depth matches Some(x) && x <= d)
}

/// The single-pass compiler: the token cursor, the local-slot stack, the
/// chunk being written, and the intern table it pools names and literals
/// into.
pub struct Compiler<'src> {
    pub parser: Parser<'src>,
    pub locals: Vec<Local<'src>>,
    pub scope_depth: usize,
    pub compiling_chunk: Chunk,
    pub strings: Interns,
}

impl<'src> Compiler<'src> {
    pub open spec fn wf(self) -> bool {
        &&& self.parser.wf()
        &&& self.compiling_chunk.wf()
        &&& self.strings.wf()
        &&& self.locals@.len() <= 256
        &&& forall|i: int|
            0 <= i < self.compiling_chunk.constants@.len() ==> valid_value(
                #[trigger] self.compiling_chunk.constants@[i],
                self.strings.contents().len() as int,
            )
        &&& self.scope_depth + self.parser.toks() <= self.parser.scanner.source@.len() + 1
    }

    /// The measure every parsing step runs down.
    pub open spec fn toks(self) -> int {
        self.parser.toks()
    }

    /// A compiler state with a buffered token, as every parsing function
    /// sees it once the token stream is primed.
    pub open spec fn ready(self) -> bool {
        &&& self.wf()
        &&& self.parser.current is Some
    }

    /// What compilation only ever grows: code length (bytes are patched in
    /// place, never removed), the constant pool, the intern table, and the
    /// reports.
    pub open spec fn grows(pre: Compiler<'src>, post: Compiler<'src>) -> bool {
        &&& pre.compiling_chunk.code@.len() <= post.compiling_chunk.code@.len()
        &&& pre.compiling_chunk.constants@.len() <= post.compiling_chunk.constants@.len()
        &&& forall|i: int|
            0 <= i < pre.compiling_chunk.constants@.len()
                ==> post.compiling_chunk.constants@[i] == #[trigger] pre.compiling_chunk.constants@[i]
        &&& pre.strings.contents().len() <= post.strings.contents().len()
        &&& forall|i: int|
            0 <= i < pre.strings.contents().len() ==> post.strings.contents()[i]
                == #[trigger] pre.strings.contents()[i]
        &&& pre.parser.diagnostics@.len() <= post.parser.diagnostics@.len()
        &&& forall|i: int|
            0 <= i < pre.parser.diagnostics@.len() ==> post.parser.diagnostics@[i]
                == #[trigger] pre.parser.diagnostics@[i]
        &&& (pre.parser.had_error ==> post.parser.had_error)
        &&& pre.parser.scanner.source == post.parser.scanner.source
    }

    /// Growing is transitive, so statement-level contracts compose.
    pub proof fn lemma_grows_trans(a: Compiler<'src>, b: Compiler<'src>, c: Compiler<'src>)
        requires
            Self::grows(a, b),
            Self::grows(b, c),
        ensures
            Self::grows(a, c),
    {
    }

    pub fn new(source: &'src str, strings: Interns) -> (r: Compiler<'src>)
        requires
            source@.len() < usize::MAX,
            strings.wf(),
        ensures
            r.wf(),
            r.parser.scanner.source == source,
            r.parser.current is None,
            r.parser.diagnostics@.len() == 0,
            !r.parser.had_error,
            !r.parser.panic_mode,
            r.locals@.len() == 0,
            r.scope_depth == 0,
            r.compiling_chunk.code@.len() == 0,
            r.compiling_chunk.constants@.len() == 0,
            r.strings == strings,
    {
        Compiler {
            parser: Parser::new(source),
            locals: Vec::new(),
            scope_depth: 0,
            compiling_chunk: Chunk::new(),
            strings,
        }
    }

    /// A borrow of the chunk being compiled into.
    pub fn get_current_chunk(&self) -> (c: &Chunk)
        ensures
            *c == self.compiling_chunk,
    {
        &self.compiling_chunk
    }

    /// Append one byte at the previous token's line.
    pub fn emit_byte(&mut self, byte: u8)
        requires
            old(self).wf(),
            old(self).parser.previous is Some,
        ensures
            final(self).wf(),
            Self::grows(*old(self), *final(self)),
            final(self).parser == old(self).parser,
            final(self).locals == old(self).locals,
            final(self).scope_depth == old(self).scope_depth,
            final(self).strings == old(self).strings,
            final(self).compiling_chunk.code@ == old(self).compiling_chunk.code@.push(byte),
            final(self).compiling_chunk.constants == old(self).compiling_chunk.constants,
    {
        let line = match &self.parser.previous {
            Some(t) => t.line,
            None => 0,
        };
        self.compiling_chunk.write(byte, line);
    }

    /// Append one byte at an explicit line, for operators whose token came
    /// earlier than their code.
    pub fn emit_byte_with_line(&mut self, byte: u8, line: usize)
        requires
            old(self).wf(),
        ensures
            final(self).wf(),
            Self::grows(*old(self), *final(self)),
            final(self).parser == old(self).parser,
            final(self).locals == old(self).locals,
            final(self).scope_depth == old(self).scope_depth,
            final(self).strings == old(self).strings,
            final(self).compiling_chunk.code@ == old(self).compiling_chunk.code@.push(byte),
            final(self).compiling_chunk.constants == old(self).compiling_chunk.constants,
    {
        self.compiling_chunk.write(byte, line);
    }

    /// Append two bytes, most often an opcode and its operand.
    pub fn emit_bytes(&mut self, byte1: u8, byte2: u8)
        requires
            old(self).wf(),
            old(self).parser.previous is Some,
        ensures
            final(self).wf(),
            Self::grows(*old(self), *final(self)),
            final(self).parser == old(self).parser,
            final(self).locals == old(self).locals,
            final(self).scope_depth == old(self).scope_depth,
            final(self).strings == old(self).strings,
            final(self).compiling_chunk.code@ == old(self).compiling_chunk.code@.push(byte1).push(
                byte2,
            ),
            final(self).compiling_chunk.constants == old(self).compiling_chunk.constants,
    {
        self.emit_byte(byte1);
        self.emit_byte(byte2);
    }

    /// Emit a jump with a placeholder displacement; the returned offset is
    /// where `patch_jump` writes the real one.
    pub fn emit_jump(&mut self, instruction: OpCode) -> (offset: usize)
        requires
            old(self).wf(),
            old(self).parser.previous is Some,
        ensures
            final(self).wf(),
            Self::grows(*old(self), *final(self)),
            final(self).parser == old(self).parser,
            final(self).locals == old(self).locals,
            final(self).scope_depth == old(self).scope_depth,
            final(self).strings == old(self).strings,
            final(self).compiling_chunk.code@ == old(self).compiling_chunk.code@.push(
                opcode_byte(instruction),
            ).push(0xff).push(0xff),
            final(self).compiling_chunk.constants == old(self).compiling_chunk.constants,
            offset == old(self).compiling_chunk.code@.len() + 1,
            offset + 2 == final(self).compiling_chunk.code@.len(),
    {
        self.emit_byte(instruction.to_byte());
        self.emit_byte(0xff_u8);
        self.emit_byte(0xff_u8);
        self.compiling_chunk.code.len() - 2
    }

    /// Write the displacement from `offset` to the end of the code into the
    /// two placeholder bytes, big-endian; a span over 65535 bytes is the
    /// `TooMuchToJump` error and the code is left alone.
    pub fn patch_jump(&mut self, offset: usize)
        requires
            old(self).wf(),
            old(self).parser.current is Some,
            offset + 2 <= old(self).compiling_chunk.code@.len(),
        ensures
            final(self).wf(),
            final(self).parser.scanner == old(self).parser.scanner,
            final(self).parser.current == old(self).parser.current,
            final(self).parser.previous == old(self).parser.previous,
            Self::grows(*old(self), *final(self)),
            final(self).locals == old(self).locals,
            final(self).scope_depth == old(self).scope_depth,
            final(self).strings == old(self).strings,
            final(self).compiling_chunk.constants == old(self).compiling_chunk.constants,
            final(self).compiling_chunk.lines == old(self).compiling_chunk.lines,
            final(self).compiling_chunk.byte_lines == old(self).compiling_chunk.byte_lines,
            final(self).compiling_chunk.code@.len() == old(self).compiling_chunk.code@.len(),
            ({
                let jump = old(self).compiling_chunk.code@.len() - offset - 2;
                if jump <= 0xffff {
                    &&& final(self).compiling_chunk.code@ == old(
                        self,
                    ).compiling_chunk.code@.update(offset as int, (jump / 256) as u8).update(
                        offset + 1,
                        (jump % 256) as u8,
                    )
                    &&& final(self).parser == old(self).parser
                } else {
                    &&& final(self).compiling_chunk == old(self).compiling_chunk
                    &&& (old(self).parser.panic_mode ==> final(self).parser == old(self).parser)
                    &&& (!old(self).parser.panic_mode ==> crate::parser::reports(
                        old(self).parser,
                        final(self).parser,
                        CompileErrors::TooMuchToJump,
                        CompileErrors::TooMuchToJump.message_spec(),
                    ))
                }
            }),
    {
        let jump = self.compiling_chunk.code.len() - offset - 2;

        if jump > 0xffff {
            self.parser.error_at(
                CompileErrors::TooMuchToJump,
                CompileErrors::TooMuchToJump.message(),
            );
        } else {
            let high_w: usize = (jump >> 8) & 0xff;
            let low_w: usize = jump & 0xff;
            proof {
                assert(high_w <= 0xff && low_w <= 0xff && (jump <= 0xffff ==> high_w == jump / 256
                    && low_w == jump % 256)) by (bit_vector)
                    requires
                        high_w == (jump >> 8) & 0xff && low_w == jump & 0xff,
                ;
            }
            let high: u8 = high_w as u8;
            let low: u8 = low_w as u8;
            let code = &mut self.compiling_chunk.code;
            code[offset] = high;
            code[offset + 1] = low;
        }
    }

    /// Emit a backward jump to `loop_start`. The displacement counts from
    /// past the operand bytes; one over 65535 is the `TooFarToLoop` error,
    /// and its truncated bytes are still written.
    pub fn emit_loop(&mut self, loop_start: usize)
        requires
            old(self).wf(),
            old(self).parser.current is Some,
            old(self).parser.previous is Some,
            loop_start <= old(self).compiling_chunk.code@.len(),
        ensures
            final(self).wf(),
            final(self).parser.scanner == old(self).parser.scanner,
            final(self).parser.current == old(self).parser.current,
            final(self).parser.previous == old(self).parser.previous,
            Self::grows(*old(self), *final(self)),
            final(self).locals == old(self).locals,
            final(self).scope_depth == old(self).scope_depth,
            final(self).strings == old(self).strings,
            final(self).compiling_chunk.constants == old(self).compiling_chunk.constants,
            ({
                let off = old(self).compiling_chunk.code@.len() + 3 - loop_start;
                &&& (off <= 0xffff ==> final(self).compiling_chunk.code@ == old(
                    self,
                ).compiling_chunk.code@.push(opcode_byte(OpCode::Loop)).push((off / 256) as u8).push(
                    (off % 256) as u8,
                ) && final(self).parser == old(self).parser)
                &&& (off > 0xffff ==> final(self).compiling_chunk.code@.len() == old(
                    self,
                ).compiling_chunk.code@.len() + 3 && (old(self).parser.panic_mode ==> final(self).parser == old(self).parser) && (!old(self).parser.panic_mode
                    ==> crate::parser::reports(
                    old(self).parser,
                    final(self).parser,
                    CompileErrors::TooFarToLoop,
                    CompileErrors::TooFarToLoop.message_spec(),
                )))
            }),
    {
        self.emit_byte(OpCode::Loop.to_byte());
        let delta = self.compiling_chunk.code.len() - loop_start;
        if delta > 0xfffd {
            self.parser.error_at(
                CompileErrors::TooFarToLoop,
                CompileErrors::TooFarToLoop.message(),
            );
            self.emit_byte(0xff_u8);
            self.emit_byte(0xff_u8);
        } else {
            let offset = delta + 2;
            self.emit_byte((offset / 256) as u8);
            self.emit_byte((offset % 256) as u8);
        }
    }

    /// Emit the `Return` that ends every chunk.
    fn emit_return(&mut self)
        requires
            old(self).wf(),
            old(self).parser.previous is Some,
        ensures
            final(self).wf(),
            Self::grows(*old(self), *final(self)),
            final(self).parser == old(self).parser,
            final(self).locals == old(self).locals,
            final(self).scope_depth == old(self).scope_depth,
            final(self).strings == old(self).strings,
            final(self).compiling_chunk.code@ == old(self).compiling_chunk.code@.push(
                opcode_byte(OpCode::Return),
            ),
            final(self).compiling_chunk.constants == old(self).compiling_chunk.constants,
    {
        self.emit_byte(OpCode::Return.to_byte())
    }

    /// Pool a constant and emit the instruction that pushes it; a pool past
    /// 256 entries is the `TooManyConstants` error.
    pub fn emit_constant(&mut self, value: Value)
        requires
            old(self).wf(),
            old(self).parser.current is Some,
            old(self).parser.previous is Some,
            valid_value(value, old(self).strings.contents().len() as int),
        ensures
            final(self).wf(),
            final(self).parser.scanner == old(self).parser.scanner,
            final(self).parser.current == old(self).parser.current,
            final(self).parser.previous == old(self).parser.previous,
            Self::grows(*old(self), *final(self)),
            final(self).locals == old(self).locals,
            final(self).scope_depth == old(self).scope_depth,
            final(self).strings == old(self).strings,
            old(self).compiling_chunk.constants@.len() < 256 ==> {
                &&& final(self).compiling_chunk.constants@ == old(
                    self,
                ).compiling_chunk.constants@.push(value)
                &&& final(self).compiling_chunk.code@ == old(self).compiling_chunk.code@.push(
                    opcode_byte(OpCode::Constant),
                ).push(old(self).compiling_chunk.constants@.len() as u8)
                &&& final(self).parser == old(self).parser
            },
            old(self).compiling_chunk.constants@.len() >= 256 ==> {
                &&& final(self).compiling_chunk == old(self).compiling_chunk
                &&& (old(self).parser.panic_mode ==> final(self).parser == old(self).parser)
                &&& (!old(self).parser.panic_mode ==> crate::parser::reports(
                    old(self).parser,
                    final(self).parser,
                    CompileErrors::TooManyConstants,
                    CompileErrors::TooManyConstants.message_spec(),
                ))
            },
    {
        let r = self.compiling_chunk.add(value);
        match r {
            Ok(byte) => self.emit_bytes(OpCode::Constant.to_byte(), byte),
            Err(err) => self.parser.error_at(err, err.message()),
        }
    }

    /// Step into a block scope.
    fn begin_scope(&mut self)
        requires
            old(self).wf(),
            old(self).scope_depth + old(self).parser.toks() + 1 <= old(
                self,
            ).parser.scanner.source@.len() + 1,
        ensures
            final(self).wf(),
            final(self).scope_depth == old(self).scope_depth + 1,
            final(self).parser == old(self).parser,
            final(self).locals == old(self).locals,
            final(self).compiling_chunk == old(self).compiling_chunk,
            final(self).strings == old(self).strings,
    {
        self.scope_depth = self.scope_depth + 1;
    }

    /// Step out of a block scope, discarding its locals and emitting the
    /// `Pop` that removes each from the runtime stack.
    fn end_scope(&mut self)
        requires
            old(self).wf(),
            old(self).parser.previous is Some,
            old(self).scope_depth > 0,
        ensures
            final(self).wf(),
            Self::grows(*old(self), *final(self)),
            final(self).parser == old(self).parser,
            final(self).strings == old(self).strings,
            final(self).scope_depth == old(self).scope_depth - 1,
            final(self).locals@ == keep_scope(old(self).locals@, old(self).scope_depth - 1),
            final(self).compiling_chunk.constants == old(self).compiling_chunk.constants,
            final(self).compiling_chunk.code@.len() == old(self).compiling_chunk.code@.len() + (old(
                self,
            ).locals@.len() - final(self).locals@.len()),
            forall|i: int|
                0 <= i < old(self).compiling_chunk.code@.len()
                    ==> final(self).compiling_chunk.code@[i] == #[trigger] old(
                    self,
                ).compiling_chunk.code@[i],
            forall|i: int|
                old(self).compiling_chunk.code@.len() <= i < final(self).compiling_chunk.code@.len()
                    ==> #[trigger] final(self).compiling_chunk.code@[i] == opcode_byte(OpCode::Pop),
    {
        self.scope_depth = self.scope_depth - 1;
        proof {
            assert(keep_scope(self.locals@, self.scope_depth as int) == keep_scope(
                old(self).locals@,
                old(self).scope_depth - 1,
            ));
        }
        loop
            invariant
                self.wf(),
                self.parser == old(self).parser,
                self.strings == old(self).strings,
                self.scope_depth == old(self).scope_depth - 1,
                self.compiling_chunk.constants == old(self).compiling_chunk.constants,
                self.locals@.len() <= old(self).locals@.len(),
                self.compiling_chunk.code@.len() == old(self).compiling_chunk.code@.len() + (old(
                    self,
                ).locals@.len() - self.locals@.len()),
                forall|i: int|
                    0 <= i < old(self).compiling_chunk.code@.len()
                        ==> self.compiling_chunk.code@[i] == #[trigger] old(
                        self,
                    ).compiling_chunk.code@[i],
                forall|i: int|
                    old(self).compiling_chunk.code@.len() <= i < self.compiling_chunk.code@.len()
                        ==> #[trigger] self.compiling_chunk.code@[i] == opcode_byte(OpCode::Pop),
                keep_scope(self.locals@, self.scope_depth as int) == keep_scope(
                    old(self).locals@,
                    old(self).scope_depth - 1,
                ),
                old(self).parser.previous is Some,
                Self::grows(*old(self), *self),
            ensures
                self.locals@ == keep_scope(old(self).locals@, old(self).scope_depth - 1),
            decreases self.locals@.len(),
        {
            let n = self.locals.len();
            if n == 0 {
                break ;
            }
            let above = match self.locals[n - 1].depth {
                None => true,
                Some(x) => x > self.scope_depth,
            };
            if !above {
                break ;
            }
            self.emit_byte(OpCode::Pop.to_byte());
            self.locals.pop();
        }
    }

    /// Record one more local slot for the lexeme just declared; a table of
    /// 256 is full, and one more is the `TooManyLocals` error.
    fn add_local(&mut self, name: &'src str)
        requires
            old(self).wf(),
            old(self).parser.current is Some,
        ensures
            final(self).wf(),
            final(self).parser.scanner == old(self).parser.scanner,
            final(self).parser.current == old(self).parser.current,
            final(self).parser.previous == old(self).parser.previous,
            Self::grows(*old(self), *final(self)),
            final(self).compiling_chunk == old(self).compiling_chunk,
            final(self).strings == old(self).strings,
            final(self).scope_depth == old(self).scope_depth,
            old(self).locals@.len() < 256 ==> final(self).locals@ == old(self).locals@.push(
                Local { name, depth: None },
            ) && final(self).parser == old(self).parser,
            old(self).locals@.len() == 256 ==> final(self).locals == old(self).locals && (old(
                self,
            ).parser.panic_mode ==> final(self).parser == old(self).parser) && (!old(
                self,
            ).parser.panic_mode ==> crate::parser::reports(
                old(self).parser,
                final(self).parser,
                CompileErrors::TooManyLocals,
                CompileErrors::TooManyLocals.message_spec(),
            )),
    {
        if self.locals.len() == 256 {
            self.parser.error_at(
                CompileErrors::TooManyLocals,
                CompileErrors::TooManyLocals.message(),
            );
            return ;
        }
        self.locals.push(Local { name, depth: None });
    }

    /// Mark the newest local as initialized at the current depth; it becomes
    /// visible to lookups from here on.
    fn mark_initialized(&mut self)
        requires
            old(self).wf(),
        ensures
            final(self).wf(),
            Self::grows(*old(self), *final(self)),
            final(self).parser == old(self).parser,
            final(self).compiling_chunk == old(self).compiling_chunk,
            final(self).strings == old(self).strings,
            final(self).scope_depth == old(self).scope_depth,
            old(self).locals@.len() > 0 ==> final(self).locals@ == old(self).locals@.update(
                old(self).locals@.len() - 1,
                Local { name: old(self).locals@.last().name, depth: Some(old(self).scope_depth) },
            ),
            old(self).locals@.len() == 0 ==> final(self).locals == old(self).locals,
    {
        let n = self.locals.len();
        if n > 0 {
            let name = self.locals[n - 1].name;
            self.locals[n - 1] = Local { name, depth: Some(self.scope_depth) };
        }
    }
}

/// Locals a statement may add all belong to the current depth; everything
/// already on the stack stays where it was.
pub open spec fn locals_extended<'src>(
    pre: Seq<Local<'src>>,
    post: Seq<Local<'src>>,
    d: int,
) -> bool {
    &&& pre.len() <= post.len()
    &&& forall|i: int| 0 <= i < pre.len() ==> post[i] == #[trigger] pre[i]
    &&& forall|k: int|
        pre.len() <= k < post.len() ==> (#[trigger] post[k]).depth == Some(d as usize)
}

/// Locals extended only with slots of depth `d` stay resolved at `d`.
pub proof fn lemma_extended_resolved<'src>(pre: Seq<Local<'src>>, post: Seq<Local<'src>>, d: int)
    requires
        locals_extended(pre, post, d),
        locals_resolved(pre, d),
        d >= 0,
    ensures
        locals_resolved(post, d),
{
    assert forall|k: int| 0 <= k < post.len() implies ((#[trigger] post[k]).depth matches Some(x)
        && x <= d) by {
        if k < pre.len() {
            assert(post[k] == pre[k]);
            assert((pre[k]).depth matches Some(x) && x <= d);
        } else {
            assert(post[k].depth == Some(d as usize));
        }
    }
}

/// Ending the scope above `d` gives back exactly the locals that were there
/// before it, provided the newcomers all live above `d` and the old ones do
/// not.
pub proof fn lemma_keep_scope_frame<'src>(pre: Seq<Local<'src>>, post: Seq<Local<'src>>, d: int)
    requires
        pre.len() <= post.len(),
        forall|i: int| 0 <= i < pre.len() ==> post[i] == #[trigger] pre[i],
        forall|k: int| pre.len() <= k < post.len() ==> local_above(#[trigger] post[k], d),
        locals_resolved(pre, d),
    ensures
        keep_scope(post, d) == pre,
    decreases post.len(),
{
    if post.len() > pre.len() {
        lemma_keep_scope_frame(pre, post.drop_last(), d);
    } else {
        assert(post =~= pre);
        if pre.len() > 0 {
            assert(!local_above(post.last(), d));
        }
    }
}

/// Whether a lexeme already names a local in the innermost scope: the walk
/// from the top of the stack down to the first local below depth `d`.
pub open spec fn dup_in_scope<'src>(locals: Seq<Local<'src>>, name: Seq<char>, d: int) -> bool
    decreases locals.len(),
{
    if locals.len() == 0 {
        false
    } else {
        let l = locals.last();
        if l.depth matches Some(x) && x < d {
            false
        } else if l.name@ == name {
            true
        } else {
            dup_in_scope(locals.drop_last(), name, d)
        }
    }
}

/// Where a name resolves among the locals: the first index from the top with
/// that name and a settled depth. The flag says whether the walk passed the
/// name still waiting for its initializer, which is the self-reference error.
pub open spec fn resolve_spec<'src>(locals: Seq<Local<'src>>, name: Seq<char>) -> (
    Option<int>,
    bool,
)
    decreases locals.len(),
{
    if locals.len() == 0 {
        (None, false)
    } else {
        let l = locals.last();
        if l.name@ == name {
            match l.depth {
                Some(_) => (Some(locals.len() - 1), false),
                None => (resolve_spec(locals.drop_last(), name).0, true),
            }
        } else {
            resolve_spec(locals.drop_last(), name)
        }
    }
}

impl<'src> Compiler<'src> {
    /// What every expression-level step leaves alone: the scope, the local
    /// stack, and a buffered token window.
    pub open spec fn expr_frame(pre: Compiler<'src>, post: Compiler<'src>) -> bool {
        &&& post.ready()
        &&& Self::grows(pre, post)
        &&& post.toks() <= pre.toks()
        &&& post.scope_depth == pre.scope_depth
        &&& post.locals == pre.locals
        &&& post.parser.previous is Some
    }

    /// What every statement-level step leaves alone, and how it may extend
    /// the local stack: only with slots of the current depth.
    pub open spec fn stmt_frame(pre: Compiler<'src>, post: Compiler<'src>) -> bool {
        &&& post.ready()
        &&& Self::grows(pre, post)
        &&& post.toks() <= pre.toks()
        &&& post.scope_depth == pre.scope_depth
        &&& post.parser.previous is Some
        &&& locals_extended(pre.locals@, post.locals@, pre.scope_depth as int)
    }

    /// Look a name up among the locals, reporting a self-reference in an
    /// initializer as the `UninitializedLocal` error.
    #[verifier::rlimit(50)]
    fn resolve_local(&mut self, name: &'src str) -> (r: Option<u8>)
        requires
            old(self).ready(),
        ensures
            final(self).ready(),
            Self::grows(*old(self), *final(self)),
            final(self).compiling_chunk == old(self).compiling_chunk,
            final(self).strings == old(self).strings,
            final(self).locals == old(self).locals,
            final(self).scope_depth == old(self).scope_depth,
            final(self).parser.scanner == old(self).parser.scanner,
            final(self).parser.current == old(self).parser.current,
            final(self).parser.previous == old(self).parser.previous,
            final(self).toks() == old(self).toks(),
            ({
                let (ri, marker) = resolve_spec(old(self).locals@, name@);
                &&& match ri {
                    Some(i) => r == Some(i as u8),
                    None => r is None,
                }
                &&& (!marker ==> final(self).parser == old(self).parser)
                &&& (marker && !old(self).parser.panic_mode ==> final(self).parser.had_error)
            }),
    {
        let ghost full = self.locals@;
        let ghost mut seen: bool = false;
        let mut j = self.locals.len();
        proof {
            assert(full.subrange(0, j as int) == full);
        }
        loop
            invariant
                self.ready(),
                Self::grows(*old(self), *self),
                self.compiling_chunk == old(self).compiling_chunk,
                self.strings == old(self).strings,
                self.locals == old(self).locals,
                self.scope_depth == old(self).scope_depth,
                self.parser.scanner == old(self).parser.scanner,
                self.parser.current == old(self).parser.current,
                self.parser.previous == old(self).parser.previous,
                full == self.locals@,
                j <= full.len(),
                resolve_spec(full, name@).0 == resolve_spec(full.subrange(0, j as int), name@).0,
                resolve_spec(full, name@).1 == (resolve_spec(full.subrange(0, j as int), name@).1
                    || seen),
                !seen ==> self.parser == old(self).parser,
                seen && !old(self).parser.panic_mode ==> self.parser.had_error,
            ensures
                j == 0,
            decreases j,
        {
            if j == 0 {
                break ;
            }
            j = j - 1;
            proof {
                assert(full.subrange(0, j + 1).last() == full[j as int]);
                assert(full.subrange(0, j + 1).drop_last() == full.subrange(0, j as int));
            }
            let l = self.locals[j];
            if crate::text::str_eq(l.name, name) {
                match l.depth {
                    Some(_) => {
                        return Some(j as u8);
                    },
                    None => {
                        self.parser.error_at(
                            CompileErrors::UninitializedLocal,
                            CompileErrors::UninitializedLocal.message(),
                        );
                        proof {
                            seen = true;
                        }
                    },
                }
            }
        }
        None
    }

    /// Declare the variable named by the previous token. At global depth
    /// names are handled lexically and nothing is recorded; in a scope the
    /// name must be new there, and a fresh uninitialized slot is pushed.
    pub fn declare_variable(&mut self)
        requires
            old(self).ready(),
        ensures
            final(self).ready(),
            Self::grows(*old(self), *final(self)),
            final(self).compiling_chunk == old(self).compiling_chunk,
            final(self).strings == old(self).strings,
            final(self).scope_depth == old(self).scope_depth,
            final(self).parser.scanner == old(self).parser.scanner,
            final(self).parser.current == old(self).parser.current,
            final(self).parser.previous == old(self).parser.previous,
            final(self).toks() == old(self).toks(),
            old(self).scope_depth == 0 ==> *final(self) == *old(self),
            final(self).locals@.len() <= old(self).locals@.len() + 1,
            old(self).locals@.len() <= final(self).locals@.len(),
            forall|i: int|
                0 <= i < old(self).locals@.len()
                    ==> final(self).locals@[i] == #[trigger] old(self).locals@[i],
            forall|k: int|
                old(self).locals@.len() <= k < final(self).locals@.len()
                    ==> (#[trigger] final(self).locals@[k]).depth is None,
            old(self).scope_depth > 0 ==> match old(self).parser.previous {
                Some(t) => match t.lexeme {
                    Some(l) => {
                        let dup = dup_in_scope(old(self).locals@, l@, old(self).scope_depth as int);
                        &&& (dup ==> final(self).locals == old(self).locals && (!old(
                            self,
                        ).parser.panic_mode ==> final(self).parser.had_error))
                        &&& (!dup && old(self).locals@.len() < 256 ==> final(self).locals@ == old(
                            self,
                        ).locals@.push(Local { name: l, depth: None }))
                    },
                    None => *final(self) == *old(self),
                },
                None => *final(self) == *old(self),
            },
    {
        if self.scope_depth == 0 {
            return ;
        }
        let name = match &self.parser.previous {
            Some(t) => match t.lexeme {
                Some(l) => l,
                None => {
                    return ;
                },
            },
            None => {
                return ;
            },
        };
        let ghost full = self.locals@;
        let ghost d = self.scope_depth as int;
        let mut j = self.locals.len();
        proof {
            assert(full.subrange(0, j as int) == full);
        }
        loop
            invariant_except_break
                dup_in_scope(full, name@, d) == dup_in_scope(full.subrange(0, j as int), name@, d),
            invariant
                self.ready(),
                *self == *old(self),
                full == self.locals@,
                d == self.scope_depth as int,
                d > 0,
                j <= full.len(),
                old(self).parser.previous is Some,
                old(self).parser.previous->0.lexeme is Some,
                name == old(self).parser.previous->0.lexeme->0,
            ensures
                *self == *old(self),
                !dup_in_scope(full, name@, d),
            decreases j,
        {
            if j == 0 {
                break ;
            }
            j = j - 1;
            proof {
                assert(full.subrange(0, j + 1).last() == full[j as int]);
                assert(full.subrange(0, j + 1).drop_last() == full.subrange(0, j as int));
            }
            let l = self.locals[j];
            let below = match l.depth {
                Some(x) => x < self.scope_depth,
                None => false,
            };
            if below {
                break ;
            }
            if crate::text::str_eq(l.name, name) {
                self.parser.error_at(
                    CompileErrors::DuplicateName,
                    CompileErrors::DuplicateName.message(),
                );
                return ;
            }
        }
        self.add_local(name);
    }

    /// Pool the previous token's lexeme as an interned string constant; the
    /// index names a global variable in the emitted code.
    pub fn identififer_constant(&mut self, t: Option<Token<'src>>) -> (r: Result<
        u8,
        CompileErrors,
    >)
        requires
            old(self).ready(),
        ensures
            final(self).ready(),
            Self::grows(*old(self), *final(self)),
            final(self).compiling_chunk.code == old(self).compiling_chunk.code,
            final(self).locals == old(self).locals,
            final(self).scope_depth == old(self).scope_depth,
            final(self).parser == old(self).parser,
            match t {
                Some(tok) => match tok.lexeme {
                    Some(l) => {
                        &&& (old(self).compiling_chunk.constants@.len() < 256 ==> (r matches Ok(ci)
                            && {
                            &&& ci == old(self).compiling_chunk.constants@.len()
                            &&& final(self).compiling_chunk.constants@ == old(
                                self,
                            ).compiling_chunk.constants@.push(
                                Value::String(find_or_len(old(self).strings, l@)),
                            )
                            &&& final(self).strings.contents()[find_or_len(
                                old(self).strings,
                                l@,
                            ) as int] == l@
                        }))
                        &&& (old(self).compiling_chunk.constants@.len() >= 256 ==> r == Err::<
                            u8,
                            CompileErrors,
                        >(CompileErrors::TooManyConstants)
                            && final(self).compiling_chunk.constants == old(
                            self,
                        ).compiling_chunk.constants)
                    },
                    None => true,
                },
                None => true,
            },
            !(t matches Some(tok) && tok.lexeme is Some) ==> *final(self) == *old(self) && r
                == Err::<u8, CompileErrors>(CompileErrors::ParseError),
    {
        let name = match &t {
            Some(tok) => match tok.lexeme {
                Some(l) => l,
                None => {
                    return Err(CompileErrors::ParseError);
                },
            },
            None => {
                return Err(CompileErrors::ParseError);
            },
        };
        proof {
            crate::value::lemma_find_text(self.strings.contents(), name@);
        }
        let idx = self.strings.intern(name);
        self.compiling_chunk.add(Value::String(idx))
    }

    /// Settle the variable just compiled: in a scope the newest local becomes
    /// visible; at global depth the value on the stack is bound to the pooled
    /// name.
    pub fn define_variable(&mut self, global: u8)
        requires
            old(self).ready(),
            old(self).parser.previous is Some,
        ensures
            final(self).ready(),
            Self::grows(*old(self), *final(self)),
            final(self).parser == old(self).parser,
            final(self).strings == old(self).strings,
            final(self).scope_depth == old(self).scope_depth,
            final(self).compiling_chunk.constants == old(self).compiling_chunk.constants,
            old(self).scope_depth > 0 ==> final(self).compiling_chunk == old(
                self,
            ).compiling_chunk && final(self).locals@.len() == old(self).locals@.len() && (forall|
                i: int,
            |
                0 <= i < old(self).locals@.len() && old(self).locals@[i].depth is Some
                    ==> final(self).locals@[i] == #[trigger] old(self).locals@[i]) && (forall|
                i: int,
            |
                0 <= i < final(self).locals@.len() ==> (#[trigger] final(self).locals@[i]).depth
                    is None ==> old(self).locals@[i].depth is None) && (old(
                self,
            ).locals@.len() > 0 && old(self).locals@.last().depth is None ==> final(self).locals@
                == old(self).locals@.update(
                old(self).locals@.len() - 1,
                Local {
                    name: old(self).locals@.last().name,
                    depth: Some(old(self).scope_depth),
                },
            )),
            old(self).scope_depth == 0 ==> final(self).locals == old(self).locals && final(self).compiling_chunk.code@ == old(self).compiling_chunk.code@.push(
                opcode_byte(OpCode::DefineGlobal),
            ).push(global),
            old(self).scope_depth > 0 && !(old(self).locals@.len() > 0 && old(
                self,
            ).locals@.last().depth is None) ==> final(self).locals == old(self).locals,
    {
        if self.scope_depth > 0 {
            self.mark_initialized_guarded();
        } else {
            self.emit_bytes(OpCode::DefineGlobal.to_byte(), global);
        }
    }

    /// Mark the newest local as initialized, when there is one still waiting.
    fn mark_initialized_guarded(&mut self)
        requires
            old(self).wf(),
        ensures
            final(self).wf(),
            Self::grows(*old(self), *final(self)),
            final(self).parser == old(self).parser,
            final(self).compiling_chunk == old(self).compiling_chunk,
            final(self).strings == old(self).strings,
            final(self).scope_depth == old(self).scope_depth,
            final(self).locals@.len() == old(self).locals@.len(),
            forall|i: int|
                0 <= i < old(self).locals@.len() && old(self).locals@[i].depth is Some
                    ==> final(self).locals@[i] == #[trigger] old(self).locals@[i],
            forall|i: int|
                0 <= i < final(self).locals@.len() ==> (#[trigger] final(self).locals@[i]).depth
                    is None ==> old(self).locals@[i].depth is None,
            old(self).locals@.len() > 0 && old(self).locals@.last().depth is None ==> final(self).locals@ == old(self).locals@.update(
                old(self).locals@.len() - 1,
                Local { name: old(self).locals@.last().name, depth: Some(old(self).scope_depth) },
            ),
            !(old(self).locals@.len() > 0 && old(self).locals@.last().depth is None) ==> final(self).locals == old(self).locals,
    {
        let n = self.locals.len();
        if n > 0 {
            let last = self.locals[n - 1];
            if last.depth.is_none() {
                self.locals[n - 1] = Local { name: last.name, depth: Some(self.scope_depth) };
            }
        }
    }
}

/// The token kinds panic-mode recovery stops in front of: the keywords a
/// statement can begin with.
pub open spec fn is_sync_keyword(tt: TType) -> bool {
    ||| tt == TType::Class
    ||| tt == TType::Fun
    ||| tt == TType::Var
    ||| tt == TType::For
    ||| tt == TType::If
    ||| tt == TType::While
    ||| tt == TType::Print
    ||| tt == TType::Return
}

/// The canonical index `text` gets in a table: its entry when it is already
/// there, the end otherwise.
pub open spec fn find_or_len(interns: Interns, text: Seq<char>) -> usize {
    match find_text(interns.contents(), text) {
        Some(j) => j as usize,
        None => interns.contents().len() as usize,
    }
}

impl<'src> Compiler<'src> {
    /// Facts of the rule table the parser leans on: no token binds as
    /// tightly as `Primary`, only real operator tokens carry a precedence,
    /// and the string rule belongs to string tokens alone.
    proof fn lemma_rule_facts(tt: TType)
        ensures
            rule_of(tt).precedence != Precedence::Primary,
            rule_of(tt).precedence != Precedence::Lowest ==> tt != TType::Eof && rule_of(
                tt,
            ).infix is Some,
            rule_of(tt).prefix == Some(PrefixRule::StringLit) ==> tt == TType::String,
            rule_of(tt).prefix is Some ==> tt != TType::Eof,
    {
    }

    /// Compile a parenthesised expression.
    fn grouping(&mut self, can_assign: bool)
        requires
            old(self).ready(),
            old(self).parser.previous is Some,
        ensures
            Self::expr_frame(*old(self), *final(self)),
        decreases old(self).toks(), 3int,
    {
        self.expression();
        self.parser.consume(TType::RightParen, "Unclosed ')' parenthesis.");
    }

    /// Compile a unary operator: the operand first, then `Not` or `Negate`
    /// at the operator's own line.
    fn unary(&mut self, can_assign: bool)
        requires
            old(self).ready(),
            old(self).parser.previous is Some,
        ensures
            Self::expr_frame(*old(self), *final(self)),
            old(self).parser.previous->0.ttype == TType::Bang ==> final(self).compiling_chunk.code@.len() > old(self).compiling_chunk.code@.len() && final(self).compiling_chunk.code@.last() == opcode_byte(OpCode::Not),
            old(self).parser.previous->0.ttype == TType::Minus ==> final(self).compiling_chunk.code@.len() > old(self).compiling_chunk.code@.len() && final(self).compiling_chunk.code@.last() == opcode_byte(OpCode::Negate),
        decreases old(self).toks(), 3int,
    {
        let (op, line) = match &self.parser.previous {
            Some(t) => (t.ttype, t.line),
            None => (TType::Eof, 0),
        };
        self.parse_precedence(Precedence::Unary);
        match op {
            TType::Bang => self.emit_byte_with_line(OpCode::Not.to_byte(), line),
            TType::Minus => self.emit_byte_with_line(OpCode::Negate.to_byte(), line),
            _ => {},
        }
    }

    /// Compile the right operand of a binary operator one level above its
    /// own precedence, then the operator's code; the compound comparisons
    /// are their complement followed by `Not`.
    fn binary(&mut self, can_assign: bool)
        requires
            old(self).ready(),
            old(self).parser.previous is Some,
        ensures
            Self::expr_frame(*old(self), *final(self)),
            ({
                let post = final(self).compiling_chunk.code@;
                let grew = post.len() > old(self).compiling_chunk.code@.len();
                match old(self).parser.previous->0.ttype {
                    TType::Plus => grew && post.last() == opcode_byte(OpCode::Addition),
                    TType::Minus => grew && post.last() == opcode_byte(OpCode::Subtract),
                    TType::Star => grew && post.last() == opcode_byte(OpCode::Multiply),
                    TType::Slash => grew && post.last() == opcode_byte(OpCode::Divide),
                    TType::EqualEqual => grew && post.last() == opcode_byte(OpCode::Equal),
                    TType::Greater => grew && post.last() == opcode_byte(OpCode::Greater),
                    TType::Less => grew && post.last() == opcode_byte(OpCode::Less),
                    TType::BangEqual => post.len() > old(self).compiling_chunk.code@.len() + 1
                        && post.last() == opcode_byte(OpCode::Not) && post[post.len() - 2]
                        == opcode_byte(OpCode::Equal),
                    TType::GreaterEqual => post.len() > old(self).compiling_chunk.code@.len() + 1
                        && post.last() == opcode_byte(OpCode::Not) && post[post.len() - 2]
                        == opcode_byte(OpCode::Less),
                    TType::LessEqual => post.len() > old(self).compiling_chunk.code@.len() + 1
                        && post.last() == opcode_byte(OpCode::Not) && post[post.len() - 2]
                        == opcode_byte(OpCode::Greater),
                    _ => true,
                }
            }),
        decreases old(self).toks(), 3int,
    {
        let tt = match &self.parser.previous {
            Some(t) => t.ttype,
            None => TType::Eof,
        };
        let rule = get_rule(tt);
        proof {
            Self::lemma_rule_facts(tt);
        }
        self.parse_precedence(rule.precedence.next());
        match tt {
            TType::Plus => self.emit_byte(OpCode::Addition.to_byte()),
            TType::Minus => self.emit_byte(OpCode::Subtract.to_byte()),
            TType::Star => self.emit_byte(OpCode::Multiply.to_byte()),
            TType::Slash => self.emit_byte(OpCode::Divide.to_byte()),
            TType::BangEqual => self.emit_bytes(OpCode::Equal.to_byte(), OpCode::Not.to_byte()),
            TType::EqualEqual => self.emit_byte(OpCode::Equal.to_byte()),
            TType::Greater => self.emit_byte(OpCode::Greater.to_byte()),
            TType::GreaterEqual => self.emit_bytes(OpCode::Less.to_byte(), OpCode::Not.to_byte()),
            TType::Less => self.emit_byte(OpCode::Less.to_byte()),
            TType::LessEqual => self.emit_bytes(OpCode::Greater.to_byte(), OpCode::Not.to_byte()),
            _ => {},
        }
    }

    /// Compile a number literal into a pooled constant.
    fn number(&mut self, can_assign: bool)
        requires
            old(self).ready(),
            old(self).parser.previous is Some,
        ensures
            Self::expr_frame(*old(self), *final(self)),
            final(self).strings == old(self).strings,
            old(self).parser.previous matches Some(t) ==> match t.lexeme {
                Some(l) => match num_parse_of(l@) {
                    Some(bits) => if old(self).compiling_chunk.constants@.len() < 256 {
                        &&& final(self).compiling_chunk.code@ == old(
                            self,
                        ).compiling_chunk.code@.push(opcode_byte(OpCode::Constant)).push(
                            old(self).compiling_chunk.constants@.len() as u8,
                        )
                        &&& final(self).compiling_chunk.constants@ == old(
                            self,
                        ).compiling_chunk.constants@.push(Value::Number(bits))
                        &&& final(self).parser == old(self).parser
                    } else {
                        final(self).compiling_chunk == old(self).compiling_chunk
                    },
                    None => final(self).compiling_chunk == old(self).compiling_chunk,
                },
                None => *final(self) == *old(self),
            },
        decreases old(self).toks(), 3int,
    {
        let lexeme = match &self.parser.previous {
            Some(t) => match t.lexeme {
                Some(l) => l,
                None => {
                    return ;
                },
            },
            None => {
                return ;
            },
        };
        match num_parse(lexeme) {
            Some(bits) => self.emit_constant(Value::Number(bits)),
            None => self.parser.error_at(CompileErrors::ParseError, "Invalid number literal."),
        }
    }

    /// Intern a string literal without its quotes and pool it as a constant.
    fn string(&mut self, can_assign: bool)
        requires
            old(self).ready(),
            old(self).parser.previous matches Some(t) && t.ttype == TType::String,
        ensures
            Self::expr_frame(*old(self), *final(self)),
            old(self).parser.previous matches Some(t) ==> match t.lexeme {
                Some(l) => {
                    let inner = l@.subrange(1, l@.len() - 1);
                    let si = find_or_len(old(self).strings, inner);
                    &&& final(self).strings.contents()[si as int] == inner
                    &&& si < final(self).strings.contents().len()
                    &&& (old(self).compiling_chunk.constants@.len() < 256 ==> {
                        &&& final(self).compiling_chunk.code@ == old(
                            self,
                        ).compiling_chunk.code@.push(opcode_byte(OpCode::Constant)).push(
                            old(self).compiling_chunk.constants@.len() as u8,
                        )
                        &&& final(self).compiling_chunk.constants@ == old(
                            self,
                        ).compiling_chunk.constants@.push(Value::String(si))
                        &&& final(self).parser == old(self).parser
                    })
                    &&& (old(self).compiling_chunk.constants@.len() >= 256 ==> final(self).compiling_chunk == old(self).compiling_chunk)
                },
                None => *final(self) == *old(self),
            },
        decreases old(self).toks(), 3int,
    {
        let lexeme = match &self.parser.previous {
            Some(t) => match t.lexeme {
                Some(l) => l,
                None => {
                    return ;
                },
            },
            None => {
                return ;
            },
        };
        let n = lexeme.unicode_len();
        let inner = lexeme.substring_char(1, n - 1);
        let idx = self.strings.intern(inner);
        self.emit_constant(Value::String(idx));
    }

    /// Compile `true`, `false` or `nil` into its own instruction.
    fn literal(&mut self, can_assign: bool)
        requires
            old(self).ready(),
            old(self).parser.previous is Some,
        ensures
            Self::expr_frame(*old(self), *final(self)),
            *final(self) == (Compiler {
                compiling_chunk: final(self).compiling_chunk,
                ..*old(self)
            }),
            final(self).compiling_chunk.code@ == match old(self).parser.previous->0.ttype {
                TType::False => old(self).compiling_chunk.code@.push(opcode_byte(OpCode::False)),
                TType::True => old(self).compiling_chunk.code@.push(opcode_byte(OpCode::True)),
                TType::Nil => old(self).compiling_chunk.code@.push(opcode_byte(OpCode::Nil)),
                _ => old(self).compiling_chunk.code@,
            },
            final(self).compiling_chunk.constants == old(self).compiling_chunk.constants,
        decreases old(self).toks(), 3int,
    {
        let tt = match &self.parser.previous {
            Some(t) => t.ttype,
            None => TType::Eof,
        };
        match tt {
            TType::False => self.emit_byte(OpCode::False.to_byte()),
            TType::True => self.emit_byte(OpCode::True.to_byte()),
            TType::Nil => self.emit_byte(OpCode::Nil.to_byte()),
            _ => {},
        }
    }

    /// Compile a short-circuiting `and`: when the left side is falsy, jump
    /// over the right side, leaving the left value as the result.
    fn and_op(&mut self, can_assign: bool)
        requires
            old(self).ready(),
            old(self).parser.previous is Some,
        ensures
            Self::expr_frame(*old(self), *final(self)),
        decreases old(self).toks(), 3int,
    {
        let end_jump = self.emit_jump(OpCode::JumpIfFalse);
        self.emit_byte(OpCode::Pop.to_byte());
        self.parse_precedence(Precedence::And);
        self.patch_jump(end_jump);
    }

    /// Compile a short-circuiting `or`: when the left side is falsy, fall
    /// into the right side; otherwise jump over it.
    fn or_op(&mut self, can_assign: bool)
        requires
            old(self).ready(),
            old(self).parser.previous is Some,
        ensures
            Self::expr_frame(*old(self), *final(self)),
        decreases old(self).toks(), 3int,
    {
        let else_jump = self.emit_jump(OpCode::JumpIfFalse);
        let end_jump = self.emit_jump(OpCode::Jump);
        self.patch_jump(else_jump);
        self.emit_byte(OpCode::Pop.to_byte());
        self.parse_precedence(Precedence::Or);
        self.patch_jump(end_jump);
    }

    /// Compile a read of, or an assignment to, the variable the token names:
    /// through its slot for a local, through its pooled name for a global.
    pub fn named_variable(&mut self, token: Option<Token<'src>>, can_assign: bool)
        requires
            old(self).ready(),
            old(self).parser.previous is Some,
        ensures
            Self::expr_frame(*old(self), *final(self)),
            !final(self).parser.had_error ==> match token {
                Some(t) => match t.lexeme {
                    Some(l) => ({
                        let assigns = can_assign && (old(self).parser.current matches Some(c)
                            && c.ttype == TType::Equal);
                        let pre_code = old(self).compiling_chunk.code@;
                        let post_code = final(self).compiling_chunk.code@;
                        match resolve_spec(old(self).locals@, l@).0 {
                            Some(i) => {
                                &&& (assigns ==> post_code.len() >= pre_code.len() + 2
                                    && post_code[post_code.len() - 2] == opcode_byte(
                                    OpCode::SetLocal,
                                ) && post_code.last() == i as u8)
                                &&& (!assigns ==> post_code == pre_code.push(
                                    opcode_byte(OpCode::GetLocal),
                                ).push(i as u8) && final(self).compiling_chunk.constants == old(
                                    self,
                                ).compiling_chunk.constants)
                            },
                            None => ({
                                let k = old(self).compiling_chunk.constants@.len();
                                &&& k < 256
                                &&& final(self).compiling_chunk.constants@.len() > k
                                &&& (final(self).compiling_chunk.constants@[k as int]
                                    matches Value::String(si) && si < final(self).strings.contents().len() && final(self).strings.contents()[
                                    si as int
                                ] == l@)
                                &&& (assigns ==> post_code.len() >= pre_code.len() + 2
                                    && post_code[post_code.len() - 2] == opcode_byte(
                                    OpCode::SetGlobal,
                                ) && post_code.last() == k as u8)
                                &&& (!assigns ==> post_code == pre_code.push(
                                    opcode_byte(OpCode::GetGlobal),
                                ).push(k as u8))
                            }),
                        }
                    }),
                    None => *final(self) == *old(self),
                },
                None => *final(self) == *old(self),
            },
        decreases old(self).toks(), 3int,
    {
        match &token {
            Some(t) => {
                if t.lexeme.is_none() {
                    return ;
                }
            },
            None => {
                return ;
            },
        }
        let name = match &token {
            Some(t) => match t.lexeme {
                Some(l) => l,
                None => {
                    return ;
                },
            },
            None => {
                return ;
            },
        };
        let resolved = self.resolve_local(name);
        let (get_op, set_op, arg) = match resolved {
            Some(index) => (OpCode::GetLocal, OpCode::SetLocal, index),
            None => {
                match self.identififer_constant(token) {
                    Ok(i) => (OpCode::GetGlobal, OpCode::SetGlobal, i),
                    Err(err) => {
                        self.parser.error_at(err, err.message());
                        return ;
                    },
                }
            },
        };
        let ghost after_ic = *self;
        if can_assign && self.parser.match_token(TType::Equal) {
            self.expression();
            let ghost after_expr = *self;
            self.emit_bytes(set_op.to_byte(), arg);
            proof {
                if resolved is None {
                    let k = old(self).compiling_chunk.constants@.len() as int;
                    assert(after_expr.compiling_chunk.constants@[k]
                        == after_ic.compiling_chunk.constants@[k]);
                    assert(self.compiling_chunk.constants@[k]
                        == after_expr.compiling_chunk.constants@[k]);
                    match after_ic.compiling_chunk.constants@[k] {
                        Value::String(si) => {
                            assert(after_expr.strings.contents()[si as int]
                                == after_ic.strings.contents()[si as int]);
                            assert(self.strings.contents()[si as int]
                                == after_expr.strings.contents()[si as int]);
                        },
                        _ => {},
                    }
                }
            }
        } else {
            self.emit_bytes(get_op.to_byte(), arg);
        }
    }

    /// Compile one expression.
    pub fn expression(&mut self)
        requires
            old(self).ready(),
        ensures
            Self::expr_frame(*old(self), *final(self)),
            old(self).parser.current matches Some(t) && t.ttype != TType::Eof ==> final(self).toks() < old(self).toks(),
            final(self).parser.current matches Some(t) && t.ttype == TType::Equal
                ==> final(self).parser.had_error,
        decreases old(self).toks(), 2int,
    {
        self.parse_precedence(Precedence::Assignment);
    }

    /// The Pratt driver: consume one token, run its prefix rule, then fold
    /// in every infix operator that binds at least as tightly as `prec`.
    /// An `=` that survives to the end could not be part of any assignment
    /// target, and is reported.
    #[verifier::rlimit(100)]
    pub fn parse_precedence(&mut self, prec: Precedence)
        requires
            old(self).ready(),
            prec_level(prec) >= 1,
        ensures
            Self::expr_frame(*old(self), *final(self)),
            old(self).parser.current matches Some(t) && t.ttype != TType::Eof ==> final(self).toks() < old(self).toks(),
            prec_level(prec) <= 1 ==> (final(self).parser.current matches Some(t) && t.ttype
                == TType::Equal ==> final(self).parser.had_error),
        decreases old(self).toks(), 1int,
    {
        self.parser.advance();
        let can_assign = prec.level() <= Precedence::Assignment.level();
        let prev = self.parser.previous;
        let prefix = match &prev {
            Some(t) => {
                proof {
                    Self::lemma_rule_facts(t.ttype);
                }
                get_rule(t.ttype).prefix
            },
            None => None,
        };
        match prefix {
            Some(PrefixRule::Grouping) => self.grouping(can_assign),
            Some(PrefixRule::Unary) => self.unary(can_assign),
            Some(PrefixRule::Variable) => {
                let tok = self.parser.previous;
                self.named_variable(tok, can_assign);
            },
            Some(PrefixRule::StringLit) => self.string(can_assign),
            Some(PrefixRule::NumberLit) => self.number(can_assign),
            Some(PrefixRule::Literal) => self.literal(can_assign),
            None => {
                self.parser.error_at(CompileErrors::ParseError, "Expected expression.");
            },
        }
        let ghost after_prefix = *self;
        loop
            invariant
                self.ready(),
                Self::grows(*old(self), *self),
                self.toks() <= after_prefix.toks(),
                after_prefix.toks() <= old(self).toks(),
                (old(self).parser.current matches Some(t) && t.ttype != TType::Eof
                    ==> after_prefix.toks() < old(self).toks()),
                self.scope_depth == old(self).scope_depth,
                self.locals == old(self).locals,
                self.parser.previous is Some,
                self.parser.current is Some,
                prec_level(prec) >= 1,
            decreases self.toks(),
        {
            let cur = match &self.parser.current {
                Some(t) => t.ttype,
                None => TType::Eof,
            };
            let rule = get_rule(cur);
            if prec.level() > rule.precedence.level() {
                break ;
            }
            proof {
                Self::lemma_rule_facts(cur);
            }
            self.parser.advance();
            let inf = match &self.parser.previous {
                Some(t) => get_rule(t.ttype).infix,
                None => None,
            };
            match inf {
                Some(InfixRule::Binary) => self.binary(can_assign),
                Some(InfixRule::AndOp) => self.and_op(can_assign),
                Some(InfixRule::OrOp) => self.or_op(can_assign),
                None => {},
            }
        }
        if can_assign && self.parser.check(TType::Equal) {
            self.parser.match_token(TType::Equal);
            self.parser.error_at(CompileErrors::ParseError, "Invalid assignment target.");
        }
    }
}

impl<'src> Compiler<'src> {
    /// Parse a variable name: consume the identifier, declare it, and at
    /// global depth pool the name, whose index the definition will carry.
    pub fn parse_variable(&mut self, error: &'static str) -> (r: Result<u8, CompileErrors>)
        requires
            old(self).ready(),
            locals_resolved(old(self).locals@, old(self).scope_depth as int),
        ensures
            final(self).ready(),
            Self::grows(*old(self), *final(self)),
            final(self).toks() <= old(self).toks(),
            final(self).scope_depth == old(self).scope_depth,
            final(self).compiling_chunk.code == old(self).compiling_chunk.code,
            old(self).locals@.len() <= final(self).locals@.len(),
            forall|i: int|
                0 <= i < old(self).locals@.len()
                    ==> final(self).locals@[i] == #[trigger] old(self).locals@[i],
            forall|k: int|
                old(self).locals@.len() <= k < final(self).locals@.len()
                    ==> (#[trigger] final(self).locals@[k]).depth is None,
            final(self).locals@.len() <= old(self).locals@.len() + 1,
            old(self).scope_depth == 0 ==> final(self).locals == old(self).locals,
            old(self).scope_depth > 0 ==> r is Ok,
            old(self).parser.previous is Some ==> final(self).parser.previous is Some,
            old(self).scope_depth == 0 && !final(self).parser.had_error ==> match old(
                self,
            ).parser.current {
                Some(t) => match t.lexeme {
                    Some(l) => match r {
                        Ok(ci) => {
                            &&& ci == old(self).compiling_chunk.constants@.len()
                            &&& final(self).compiling_chunk.constants@ == old(
                                self,
                            ).compiling_chunk.constants@.push(
                                Value::String(find_or_len(old(self).strings, l@)),
                            )
                            &&& final(self).strings.contents()[find_or_len(
                                old(self).strings,
                                l@,
                            ) as int] == l@
                        },
                        Err(e) => e == CompileErrors::TooManyConstants && old(
                            self,
                        ).compiling_chunk.constants@.len() >= 256,
                    },
                    None => true,
                },
                None => true,
            },
        decreases old(self).toks(), 0int,
    {
        self.parser.consume(TType::Identifer, error);
        self.declare_variable();
        if self.scope_depth > 0 {
            return Ok(0_u8);
        }
        let prev = self.parser.previous;
        self.identififer_constant(prev)
    }

    /// Compile a `var` declaration: the name, the initializer or an implicit
    /// `nil`, the closing semicolon, and the definition.
    /// Compile a `var` declaration: the name, the initializer or an implicit
    /// `nil`, the closing semicolon, and the definition.
    #[verifier::rlimit(100)]
    fn var_declaration(&mut self)
        requires
            old(self).ready(),
            old(self).parser.previous is Some,
            locals_resolved(old(self).locals@, old(self).scope_depth as int),
        ensures
            Self::stmt_frame(*old(self), *final(self)),
            locals_resolved(final(self).locals@, final(self).scope_depth as int),
            old(self).scope_depth == 0 && !final(self).parser.had_error ==> match old(
                self,
            ).parser.current {
                Some(t) => match t.lexeme {
                    Some(l) => ({
                        let post = final(self).compiling_chunk.code@;
                        &&& post.len() >= old(self).compiling_chunk.code@.len() + 2
                        &&& post[post.len() - 2] == opcode_byte(OpCode::DefineGlobal)
                        &&& (post.last() as int) < final(self).compiling_chunk.constants@.len()
                        &&& (final(self).compiling_chunk.constants@[post.last() as int]
                            matches Value::String(si) && si < final(self).strings.contents().len()
                            && final(self).strings.contents()[si as int] == l@)
                    }),
                    None => true,
                },
                None => true,
            },
        decreases old(self).toks(), 0int,
    {
        let r = self.parse_variable("Expect variable name");
        let ghost s1 = *self;
        match r {
            Ok(var) => {
                self.var_initializer(var);
                proof {
                    Self::lemma_grows_trans(*old(self), s1, *self);
                    let pre = old(self).locals@;
                    let mid = s1.locals@;
                    let post = self.locals@;
                    let d = old(self).scope_depth as int;
                    if old(self).scope_depth == 0 {
                        assert(post == pre);
                    } else if mid.len() == pre.len() + 1 {
                        assert(mid.last().depth is None);
                        assert forall|i: int| 0 <= i < pre.len() implies post[i] == #[trigger] pre[i] by {
                            assert(post[i] == mid[i]);
                        }
                        assert(post[pre.len() as int].depth == Some(old(self).scope_depth));
                    } else {
                        assert(mid.len() == pre.len());
                        assert forall|i: int| 0 <= i < pre.len() implies mid[i] == #[trigger] pre[i] by {}
                        assert(mid =~= pre);
                        assert(s1.scope_depth == old(self).scope_depth);
                        assert(s1.locals@ == mid);
                        if pre.len() > 0 {
                            assert(pre.last().depth is Some);
                            assert(mid.last().depth is Some);
                        } else {
                            assert(mid.len() == 0);
                        }
                        assert(post == mid);
                    }
                    assert(locals_extended(pre, post, d));
                    lemma_extended_resolved(pre, post, d);
                    assert(self.scope_depth == old(self).scope_depth);
                    if old(self).scope_depth == 0 && !self.parser.had_error {
                        assert(!s1.parser.had_error);
                        match old(self).parser.current {
                            Some(t) => match t.lexeme {
                                Some(l) => {
                                    let ci = old(self).compiling_chunk.constants@.len() as int;
                                    assert(var as int == ci);
                                    assert(self.compiling_chunk.constants@[ci]
                                        == s1.compiling_chunk.constants@[ci]);
                                    match s1.compiling_chunk.constants@[ci] {
                                        Value::String(si) => {
                                            assert(self.strings.contents()[si as int]
                                                == s1.strings.contents()[si as int]);
                                        },
                                        _ => {},
                                    }
                                },
                                None => {},
                            },
                            None => {},
                        }
                    }
                }
            },
            Err(err) => {
                self.parser.error_at(err, err.message());
                proof {
                    assert(Self::grows(s1, *self));
                    Self::lemma_grows_trans(*old(self), s1, *self);
                }
            },
        }
    }

    /// Compile the initializer of a `var` declaration, or the implicit
    /// `nil`, and settle the variable.
    #[verifier::spinoff_prover]
    #[verifier::rlimit(100)]
    fn var_initializer(&mut self, var: u8)
        requires
            old(self).ready(),
            old(self).parser.previous is Some,
        ensures
            final(self).ready(),
            Self::grows(*old(self), *final(self)),
            final(self).toks() <= old(self).toks(),
            final(self).scope_depth == old(self).scope_depth,
            final(self).parser.previous is Some,
            final(self).locals@.len() == old(self).locals@.len(),
            forall|i: int|
                0 <= i < old(self).locals@.len() && old(self).locals@[i].depth is Some
                    ==> final(self).locals@[i] == #[trigger] old(self).locals@[i],
            forall|i: int|
                0 <= i < final(self).locals@.len() ==> ((#[trigger] final(self).locals@[i]).depth
                    is None ==> old(self).locals@[i].depth is None),
            old(self).scope_depth > 0 && old(self).locals@.len() > 0 && old(
                self,
            ).locals@.last().depth is None ==> final(self).locals@ == old(self).locals@.update(
                old(self).locals@.len() - 1,
                Local {
                    name: old(self).locals@.last().name,
                    depth: Some(old(self).scope_depth),
                },
            ),
            old(self).scope_depth == 0 || old(self).locals@.len() == 0 || old(
                self,
            ).locals@.last().depth is Some ==> final(self).locals == old(self).locals,
            old(self).scope_depth == 0 ==> ({
                let post = final(self).compiling_chunk.code@;
                &&& post.len() >= old(self).compiling_chunk.code@.len() + 2
                &&& post[post.len() - 2] == opcode_byte(OpCode::DefineGlobal)
                &&& post.last() == var
            }),
        decreases old(self).toks(), 0int,
    {
        if self.parser.match_token(TType::Equal) {
            self.expression();
        } else {
            self.emit_byte(OpCode::Nil.to_byte());
        }
        self.parser.consume(TType::SemiColon, "Expect ';' after variable declaration.");
        self.define_variable(var);
    }

    /// Compile an expression statement: the expression, then `Pop`, so the
    /// statement has no net stack effect.
    fn expression_statement(&mut self)
        requires
            old(self).ready(),
        ensures
            Self::stmt_frame(*old(self), *final(self)),
            final(self).locals == old(self).locals,
            old(self).parser.current matches Some(t) && t.ttype != TType::Eof ==> final(
                self).toks() < old(self).toks(),
            final(self).compiling_chunk.code@.len() > old(self).compiling_chunk.code@.len(),
            final(self).compiling_chunk.code@.last() == opcode_byte(OpCode::Pop),
        decreases old(self).toks(), 0int,
    {
        self.expression();
        self.parser.consume(TType::SemiColon, "Expect ';' after expression.");
        self.emit_byte(OpCode::Pop.to_byte());
    }

    /// Compile a `print` statement.
    fn print_statement(&mut self)
        requires
            old(self).ready(),
        ensures
            Self::stmt_frame(*old(self), *final(self)),
            final(self).locals == old(self).locals,
            final(self).compiling_chunk.code@.len() > old(self).compiling_chunk.code@.len(),
            final(self).compiling_chunk.code@.last() == opcode_byte(OpCode::Print),
        decreases old(self).toks(), 0int,
    {
        self.expression();
        self.parser.consume(TType::SemiColon, "Expect ';' after print statement.");
        self.emit_byte(OpCode::Print.to_byte());
    }

    /// Compile an `if` statement: the condition, a patched jump over the
    /// then-branch, and an unconditional jump that carries the then-branch
    /// past the else-branch; each path pops the condition once.
    fn if_statement(&mut self)
        requires
            old(self).ready(),
            old(self).parser.previous is Some,
            locals_resolved(old(self).locals@, old(self).scope_depth as int),
        ensures
            Self::stmt_frame(*old(self), *final(self)),
            final(self).locals@ == old(self).locals@,
            locals_resolved(final(self).locals@, final(self).scope_depth as int),
        decreases old(self).toks(), 6int,
    {
        self.parser.consume(TType::LeftParen, "Expect a '(' after an 'if'.");
        self.expression();
        self.parser.consume(TType::RightParen, "Expect ')'. Unclosed parenthesis.");

        let then_jump = self.emit_jump(OpCode::JumpIfFalse);
        self.emit_byte(OpCode::Pop.to_byte());
        self.statement();

        let else_jump = self.emit_jump(OpCode::Jump);

        self.patch_jump(then_jump);
        self.emit_byte(OpCode::Pop.to_byte());

        if self.parser.match_token(TType::Else) {
            self.statement();
        }
        self.patch_jump(else_jump);
    }

    /// Compile a `while` statement: the condition, a patched exit jump, the
    /// body, and a backward jump to the condition.
    fn while_statement(&mut self)
        requires
            old(self).ready(),
            old(self).parser.previous is Some,
            locals_resolved(old(self).locals@, old(self).scope_depth as int),
        ensures
            Self::stmt_frame(*old(self), *final(self)),
            final(self).locals@ == old(self).locals@,
            locals_resolved(final(self).locals@, final(self).scope_depth as int),
            final(self).compiling_chunk.code@.len() > old(self).compiling_chunk.code@.len(),
            final(self).compiling_chunk.code@.last() == opcode_byte(OpCode::Pop),
        decreases old(self).toks(), 6int,
    {
        let loop_start = self.compiling_chunk.code.len();
        self.parser.consume(TType::LeftParen, "Expect a '(' after a 'while'.");
        self.expression();
        self.parser.consume(TType::RightParen, "Unclosed parenthesis. Expect ')' after condition.");

        let exit_jump = self.emit_jump(OpCode::JumpIfFalse);
        self.emit_byte(OpCode::Pop.to_byte());
        self.statement();
        self.emit_loop(loop_start);
        self.patch_jump(exit_jump);
        self.emit_byte(OpCode::Pop.to_byte());
    }

    /// Compile a `for` statement in its own scope: optional initializer,
    /// optional patched exit condition, and an increment clause that runs
    /// after the body through a pair of jumps that keep the body's target
    /// stable.
    #[verifier::rlimit(100)]
    fn for_statement(&mut self)
        requires
            old(self).ready(),
            old(self).parser.previous is Some,
            locals_resolved(old(self).locals@, old(self).scope_depth as int),
            old(self).scope_depth + old(self).toks() < old(self).parser.scanner.source@.len() + 1,
        ensures
            Self::stmt_frame(*old(self), *final(self)),
            final(self).locals@ == old(self).locals@,
            locals_resolved(final(self).locals@, final(self).scope_depth as int),
        decreases old(self).toks(), 6int,
    {
        let ghost entry = *self;
        self.begin_scope();
        self.parser.consume(TType::LeftParen, "Expect '(' after 'for'.");
        if self.parser.match_token(TType::SemiColon) {
        } else if self.parser.match_token(TType::Var) {
            self.var_declaration();
        } else {
            self.expression_statement();
        }

        let mut loop_start = self.compiling_chunk.code.len();
        let mut exit_jump: Option<usize> = None;
        if !self.parser.match_token(TType::SemiColon) {
            self.expression();
            self.parser.consume(TType::SemiColon, "Expect ';' atfter loop condition.");

            exit_jump = Some(self.emit_jump(OpCode::JumpIfFalse));
            self.emit_byte(OpCode::Pop.to_byte());
        }
        if !self.parser.match_token(TType::RightParen) {
            let body_jump = self.emit_jump(OpCode::Jump);
            let increment_start = self.compiling_chunk.code.len();
            self.expression();
            self.emit_byte(OpCode::Pop.to_byte());
            self.parser.consume(
                TType::RightParen,
                "Expect ')' after 'for' clause. Unclosed parenthesis.",
            );

            self.emit_loop(loop_start);
            loop_start = increment_start;
            self.patch_jump(body_jump);
        }

        self.statement();
        self.emit_loop(loop_start);
        match exit_jump {
            Some(exit) => {
                self.patch_jump(exit);
                self.emit_byte(OpCode::Pop.to_byte());
            },
            None => {},
        }
        let ghost before_end = *self;
        self.end_scope();
        proof {
            lemma_keep_scope_frame(
                entry.locals@,
                before_end.locals@,
                entry.scope_depth as int,
            );
        }
    }

    /// Compile the declarations of a block up to its closing brace.
    pub fn block(&mut self)
        requires
            old(self).ready(),
            old(self).parser.previous is Some,
            locals_resolved(old(self).locals@, old(self).scope_depth as int),
        ensures
            Self::stmt_frame(*old(self), *final(self)),
            locals_resolved(final(self).locals@, final(self).scope_depth as int),
        decreases old(self).toks(), 8int,
    {
        loop
            invariant
                self.ready(),
                Self::grows(*old(self), *self),
                self.toks() <= old(self).toks(),
                self.scope_depth == old(self).scope_depth,
                self.parser.previous is Some,
                locals_resolved(self.locals@, self.scope_depth as int),
                locals_extended(old(self).locals@, self.locals@, old(self).scope_depth as int),
            decreases self.toks(),
        {
            if self.parser.check(TType::RightBrace) {
                break ;
            }
            if self.parser.check(TType::Eof) {
                break ;
            }
            let ghost mid = *self;
            self.declaraction();
            proof {
                Self::lemma_grows_trans(*old(self), mid, *self);
                assert forall|i: int| 0 <= i < old(self).locals@.len() implies self.locals@[i]
                    == #[trigger] old(self).locals@[i] by {
                    assert(self.locals@[i] == mid.locals@[i]);
                }
                assert forall|k: int|
                    old(self).locals@.len() <= k < self.locals@.len() implies (#[trigger] self.locals@[k]).depth
                    == Some(old(self).scope_depth) by {
                    if k < mid.locals@.len() {
                        assert(self.locals@[k] == mid.locals@[k]);
                    }
                }
                assert(locals_extended(old(self).locals@, self.locals@, old(self).scope_depth as int));
            }
        }

        self.parser.consume(TType::RightBrace, "Unclosed '{'. Expect a '}' after block.");
    }

    /// Skip to a statement boundary after an error: drop tokens until a
    /// semicolon went by or a statement keyword is next, and leave panic
    /// mode so new errors are reported again.
    pub fn synchronize(&mut self)
        requires
            old(self).ready(),
        ensures
            final(self).ready(),
            Self::grows(*old(self), *final(self)),
            final(self).toks() <= old(self).toks(),
            final(self).scope_depth == old(self).scope_depth,
            final(self).locals == old(self).locals,
            final(self).compiling_chunk == old(self).compiling_chunk,
            final(self).strings == old(self).strings,
            old(self).parser.previous is Some ==> final(self).parser.previous is Some,
            !final(self).parser.panic_mode || final(self).parser.diagnostics@.len() > old(
                self,
            ).parser.diagnostics@.len(),
            final(self).parser.current matches Some(t) && (t.ttype == TType::Eof
                || is_sync_keyword(t.ttype) || (final(self).parser.previous matches Some(p)
                && p.ttype == TType::SemiColon)),
    {
        self.parser.panic_mode = false;

        loop
            invariant
                self.ready(),
                Self::grows(*old(self), *self),
                self.toks() <= old(self).toks(),
                self.scope_depth == old(self).scope_depth,
                self.locals == old(self).locals,
                self.compiling_chunk == old(self).compiling_chunk,
                self.strings == old(self).strings,
                old(self).parser.previous is Some ==> self.parser.previous is Some,
                !self.parser.panic_mode || self.parser.diagnostics@.len() > old(
                    self,
                ).parser.diagnostics@.len(),
            ensures
                self.parser.current matches Some(t) && t.ttype == TType::Eof,
            decreases self.toks(),
        {
            let cur = match &self.parser.current {
                Some(t) => t.ttype,
                None => TType::Eof,
            };
            if cur == TType::Eof {
                break ;
            }
            let prev_semi = match &self.parser.previous {
                Some(t) => t.ttype == TType::SemiColon,
                None => false,
            };
            if prev_semi {
                return ;
            }
            match cur {
                TType::Class | TType::Fun | TType::Var | TType::For | TType::If | TType::While
                    | TType::Print | TType::Return => {
                    return ;
                },
                _ => {},
            }
            let ghost m = *self;
            self.parser.advance();
            proof {
                if self.parser.panic_mode && m.parser.panic_mode {
                    assert(m.parser.diagnostics@.len() > old(self).parser.diagnostics@.len());
                }
                if self.parser.panic_mode && !m.parser.panic_mode {
                    assert(self.parser.diagnostics@.len() > m.parser.diagnostics@.len());
                }
                assert(self.parser.diagnostics@.len() >= m.parser.diagnostics@.len());
                if self.parser.panic_mode {
                    assert(self.parser.diagnostics@.len() > old(self).parser.diagnostics@.len());
                }
            }
        }
    }

    /// Compile one statement; the scope and the local stack come back as
    /// they went in.
    pub fn statement(&mut self)
        requires
            old(self).ready(),
            locals_resolved(old(self).locals@, old(self).scope_depth as int),
        ensures
            Self::stmt_frame(*old(self), *final(self)),
            final(self).locals@ == old(self).locals@,
            locals_resolved(final(self).locals@, final(self).scope_depth as int),
            old(self).parser.current matches Some(t) && t.ttype != TType::Eof ==> final(
                self).toks() < old(self).toks(),
            old(self).parser.current->0.ttype == TType::Print ==> final(self).compiling_chunk.code@.len() > old(self).compiling_chunk.code@.len() && final(self).compiling_chunk.code@.last() == opcode_byte(OpCode::Print),
            old(self).parser.current->0.ttype == TType::While ==> final(self).compiling_chunk.code@.len() > old(self).compiling_chunk.code@.len() && final(self).compiling_chunk.code@.last() == opcode_byte(OpCode::Pop),
        decreases old(self).toks(), 5int,
    {
        if self.parser.match_token(TType::Print) {
            self.print_statement();
        } else if self.parser.match_token(TType::For) {
            self.for_statement();
        } else if self.parser.match_token(TType::If) {
            self.if_statement();
        } else if self.parser.match_token(TType::While) {
            self.while_statement();
        } else if self.parser.match_token(TType::LeftBrace) {
            let ghost entry = *self;
            self.begin_scope();
            self.block();
            let ghost before_end = *self;
            self.end_scope();
            proof {
                lemma_keep_scope_frame(
                    entry.locals@,
                    before_end.locals@,
                    entry.scope_depth as int,
                );
            }
        } else {
            self.expression_statement();
        }
    }

    /// Compile one declaration: a `var` declaration or a statement; after an
    /// error, skip ahead to the next statement boundary.
    pub fn declaraction(&mut self)
        requires
            old(self).ready(),
            locals_resolved(old(self).locals@, old(self).scope_depth as int),
        ensures
            Self::stmt_frame(*old(self), *final(self)),
            locals_resolved(final(self).locals@, final(self).scope_depth as int),
            old(self).parser.current matches Some(t) && t.ttype != TType::Eof ==> final(
                self).toks() < old(self).toks(),
        decreases old(self).toks(), 7int,
    {
        if self.parser.match_token(TType::Var) {
            self.var_declaration();
        } else {
            self.statement();
        }

        if self.parser.panic_mode {
            self.synchronize();
        }
    }

    /// Finish the chunk with its closing `Return`.
    pub fn end_compiler(&mut self)
        requires
            old(self).wf(),
            old(self).parser.previous is Some,
        ensures
            final(self).wf(),
            Self::grows(*old(self), *final(self)),
            final(self).parser == old(self).parser,
            final(self).locals == old(self).locals,
            final(self).scope_depth == old(self).scope_depth,
            final(self).strings == old(self).strings,
            final(self).compiling_chunk.code@ == old(self).compiling_chunk.code@.push(
                opcode_byte(OpCode::Return),
            ),
            final(self).compiling_chunk.constants == old(self).compiling_chunk.constants,
    {
        self.emit_return();
    }

    /// Compile the whole source: declarations until end-of-input, then the
    /// closing `Return`. Success is exactly the absence of reports; on
    /// failure the first collected error is returned.
    pub fn compile(&mut self) -> (r: Result<(), CompileErrors>)
        requires
            old(self).wf(),
            old(self).parser.current is None,
            old(self).scope_depth == 0,
            locals_resolved(old(self).locals@, 0),
        ensures
            final(self).wf(),
            Self::grows(*old(self), *final(self)),
            r is Ok <==> !final(self).parser.had_error,
            r is Ok ==> final(self).parser.diagnostics@.len() == 0,
            r matches Err(e) ==> final(self).parser.diagnostics@.len() > 0 && e == final(
                self).parser.diagnostics@[0].err,
            r is Ok ==> final(self).parser.scanner.pos == final(self).parser.scanner.source@.len(),
            final(self).compiling_chunk.code@.len() > 0,
            final(self).compiling_chunk.code@.last() == opcode_byte(OpCode::Return),
    {
        self.parser.advance();

        loop
            invariant
                self.ready(),
                Self::grows(*old(self), *self),
                self.scope_depth == old(self).scope_depth,
                locals_resolved(self.locals@, self.scope_depth as int),
            ensures
                self.parser.previous is Some,
            decreases self.toks(),
        {
            if self.parser.match_token(TType::Eof) {
                break ;
            }
            self.declaraction();
        }

        self.parser.consume(TType::Eof, "Expected end of expression");
        self.end_compiler();
        if self.parser.had_error {
            let first = &self.parser.diagnostics[0];
            Err(first.err)
        } else {
            Ok(())
        }
    }
}

} // verus!
