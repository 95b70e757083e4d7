use crate::chunks::Chunk;
use crate::compiler::Compiler;
use crate::error::{RuntimeErrors, RuntimeErrorsSpec, VmErrors};
use crate::num::{
    num_add, num_add_of, num_div, num_div_of, num_gt_of, num_lt_of, num_mul, num_mul_of, num_neg,
    num_neg_of, num_order, num_sub, num_sub_of, NumOrder,
};
use crate::opcode::{opcode_of_byte, OpCode};
use crate::value::{
    find_text, is_falsy_spec, valid_value, value_text, value_text_spec, values_equal,
    values_equal_spec, Interns, Value,
};
use vstd::prelude::*;

verus! {

/// The texts a list of printed lines holds.
pub open spec fn out_view(v: Seq<String>) -> Seq<Seq<char>> {
    v.map(|i: int, s: String| s@)
}

/// The whole machine at one instant: the installed chunk, the instruction
/// pointer, and everything the machine owns.
pub ghost struct StateS {
    pub code: Seq<u8>,
    pub consts: Seq<Value>,
    pub ip: int,
    pub stack: Seq<Value>,
    pub globals: Seq<(usize, Value)>,
    pub strings: Seq<Seq<char>>,
    pub output: Seq<Seq<char>>,
}

/// What one instruction does: carry on at a new state, end execution, or
/// halt with a runtime error.
pub ghost enum StepS {
    Next(StateS),
    Done(StateS),
    Fail(StateS, RuntimeErrorsSpec),
}

/// The first entry of the global environment bound to key `k`.
pub open spec fn gfind(g: Seq<(usize, Value)>, k: usize) -> Option<int>
    decreases g.len(),
{
    if g.len() == 0 {
        None
    } else if g[0].0 == k {
        Some(0)
    } else {
        match gfind(g.drop_first(), k) {
            Some(j) => Some(j + 1),
            None => None,
        }
    }
}

/// `gfind` finds the first binding, and none means no binding.
pub proof fn lemma_gfind(g: Seq<(usize, Value)>, k: usize)
    ensures
        match gfind(g, k) {
            Some(j) => 0 <= j < g.len() && g[j].0 == k && forall|i: int|
                0 <= i < j ==> (#[trigger] g[i]).0 != k,
            None => forall|i: int| 0 <= i < g.len() ==> (#[trigger] g[i]).0 != k,
        },
    decreases g.len(),
{
    if g.len() > 0 && g[0].0 != k {
        lemma_gfind(g.drop_first(), k);
        match gfind(g.drop_first(), k) {
            Some(j) => {
                assert(g.drop_first()[j] == g[j + 1]);
                assert forall|i: int| 0 <= i < j + 1 implies (#[trigger] g[i]).0 != k by {
                    if i > 0 {
                        assert(g.drop_first()[i - 1] == g[i]);
                    }
                }
            },
            None => {
                assert forall|i: int| 0 <= i < g.len() implies (#[trigger] g[i]).0 != k by {
                    if i > 0 {
                        assert(g.drop_first()[i - 1] == g[i]);
                    }
                }
            },
        }
    }
}

/// A binding at `j` with no earlier binding is what `gfind` returns.
pub proof fn lemma_gfind_at(g: Seq<(usize, Value)>, k: usize, j: int)
    requires
        0 <= j < g.len(),
        g[j].0 == k,
        forall|i: int| 0 <= i < j ==> (#[trigger] g[i]).0 != k,
    ensures
        gfind(g, k) == Some(j),
    decreases g.len(),
{
    if j > 0 {
        assert(forall|i: int| 0 <= i < j - 1 ==> #[trigger] g.drop_first()[i] == g[i + 1]);
        assert(g.drop_first()[j - 1] == g[j]);
        lemma_gfind_at(g.drop_first(), k, j - 1);
    }
}

/// The value bound to `k`, if any.
pub open spec fn glookup(g: Seq<(usize, Value)>, k: usize) -> Option<Value> {
    match gfind(g, k) {
        Some(j) => Some(g[j].1),
        None => None,
    }
}

/// The environment after binding `k` to `v`: the first entry for `k` is
/// replaced, or a new entry is appended.
pub open spec fn gset(g: Seq<(usize, Value)>, k: usize, v: Value) -> Seq<(usize, Value)> {
    match gfind(g, k) {
        Some(j) => g.update(j, (k, v)),
        None => g.push((k, v)),
    }
}

/// The intern table after canonicalising `s`, and the index `s` gets.
pub open spec fn intern_step(strings: Seq<Seq<char>>, s: Seq<char>) -> (Seq<Seq<char>>, int) {
    match find_text(strings, s) {
        Some(j) => (strings, j),
        None => (strings.push(s), strings.len() as int),
    }
}

/// Push a value: everything else stays, the instruction pointer moves past
/// the `width` bytes of the instruction.
pub open spec fn push_step(s: StateS, width: int, v: Value) -> StepS {
    StepS::Next(StateS { ip: s.ip + width, stack: s.stack.push(v), ..s })
}

/// A binary arithmetic or comparison instruction: both operands must be
/// numbers; the offender is reported, top of stack first.
pub open spec fn binary_num_step(s: StateS, op: OpCode) -> StepS {
    if s.stack.len() < 2 {
        StepS::Fail(s, RuntimeErrorsSpec::StackUnderflow)
    } else {
        let b = s.stack.last();
        let a = s.stack[s.stack.len() - 2];
        let rest = s.stack.drop_last().drop_last();
        if !(b is Number) {
            StepS::Fail(
                StateS { stack: s.stack.drop_last(), ..s },
                RuntimeErrorsSpec::TypeError("number"@, value_text_spec(b, s.strings)),
            )
        } else if !(a is Number) {
            StepS::Fail(
                StateS { stack: rest, ..s },
                RuntimeErrorsSpec::TypeError("number"@, value_text_spec(a, s.strings)),
            )
        } else {
            let x = a->Number_0;
            let y = b->Number_0;
            let r = match op {
                OpCode::Subtract => Value::Number(num_sub_of(x, y)),
                OpCode::Multiply => Value::Number(num_mul_of(x, y)),
                OpCode::Divide => Value::Number(num_div_of(x, y)),
                OpCode::Greater => Value::Bool(num_gt_of(x, y)),
                _ => Value::Bool(num_lt_of(x, y)),
            };
            StepS::Next(StateS { ip: s.ip + 1, stack: rest.push(r), ..s })
        }
    }
}

/// The addition instruction: numbers add; a string operand stringifies the
/// other side and the interned concatenation is pushed; anything else is the
/// `InvalidAddition` error.
pub open spec fn addition_step(s: StateS) -> StepS {
    if s.stack.len() < 2 {
        StepS::Fail(s, RuntimeErrorsSpec::StackUnderflow)
    } else {
        let b = s.stack.last();
        let a = s.stack[s.stack.len() - 2];
        let rest = s.stack.drop_last().drop_last();
        if a is Number && b is Number {
            StepS::Next(
                StateS {
                    ip: s.ip + 1,
                    stack: rest.push(Value::Number(num_add_of(a->Number_0, b->Number_0))),
                    ..s
                },
            )
        } else if (a is String || a is Number) && (b is String || b is Number) {
            let text = value_text_spec(a, s.strings) + value_text_spec(b, s.strings);
            let (strings2, idx) = intern_step(s.strings, text);
            StepS::Next(
                StateS {
                    ip: s.ip + 1,
                    stack: rest.push(Value::String(idx as usize)),
                    strings: strings2,
                    ..s
                },
            )
        } else {
            StepS::Fail(
                StateS { stack: rest, ..s },
                RuntimeErrorsSpec::InvalidAddition(
                    value_text_spec(a, s.strings),
                    value_text_spec(b, s.strings),
                ),
            )
        }
    }
}

/// The 16-bit big-endian displacement whose two bytes sit at `s.ip + 1`.
pub open spec fn disp_of(s: StateS) -> int {
    s.code[s.ip + 1] * 256 + s.code[s.ip + 2]
}

/// What the instruction under the instruction pointer does. An operand that
/// runs past the code, a constant index outside the pool, a local slot
/// outside the stack, a jump outside the code, or a global-name constant
/// that is not a string, are all malformed bytecode and fail as
/// `InvalidOpcode` would: the chunk is not one the compiler built.
pub open spec fn step(s: StateS) -> StepS {
    if !(0 <= s.ip < s.code.len()) {
        StepS::Done(s)
    } else {
        match opcode_of_byte(s.code[s.ip]) {
            None => StepS::Fail(s, RuntimeErrorsSpec::InvalidOpcode),
            Some(op) => match op {
                OpCode::Constant => {
                    if s.ip + 1 < s.code.len() && s.code[s.ip + 1] < s.consts.len() {
                        StepS::Next(
                            StateS {
                                ip: s.ip + 2,
                                stack: s.stack.push(s.consts[s.code[s.ip + 1] as int]),
                                ..s
                            },
                        )
                    } else {
                        StepS::Fail(s, RuntimeErrorsSpec::InvalidOpcode)
                    }
                },
                OpCode::Addition => addition_step(s),
                OpCode::Subtract => binary_num_step(s, op),
                OpCode::Multiply => binary_num_step(s, op),
                OpCode::Divide => binary_num_step(s, op),
                OpCode::Greater => binary_num_step(s, op),
                OpCode::Less => binary_num_step(s, op),
                OpCode::Not => {
                    if s.stack.len() < 1 {
                        StepS::Fail(s, RuntimeErrorsSpec::StackUnderflow)
                    } else {
                        StepS::Next(
                            StateS {
                                ip: s.ip + 1,
                                stack: s.stack.drop_last().push(
                                    Value::Bool(is_falsy_spec(s.stack.last())),
                                ),
                                ..s
                            },
                        )
                    }
                },
                OpCode::Negate => {
                    if s.stack.len() < 1 {
                        StepS::Fail(s, RuntimeErrorsSpec::StackUnderflow)
                    } else if !(s.stack.last() is Number) {
                        StepS::Fail(
                            StateS { stack: s.stack.drop_last(), ..s },
                            RuntimeErrorsSpec::TypeError(
                                "number"@,
                                value_text_spec(s.stack.last(), s.strings),
                            ),
                        )
                    } else {
                        StepS::Next(
                            StateS {
                                ip: s.ip + 1,
                                stack: s.stack.drop_last().push(
                                    Value::Number(num_neg_of(s.stack.last()->Number_0)),
                                ),
                                ..s
                            },
                        )
                    }
                },
                OpCode::Print => {
                    if s.stack.len() < 1 {
                        StepS::Fail(s, RuntimeErrorsSpec::StackUnderflow)
                    } else {
                        StepS::Next(
                            StateS {
                                ip: s.ip + 1,
                                stack: s.stack.drop_last(),
                                output: s.output.push(
                                    value_text_spec(s.stack.last(), s.strings),
                                ),
                                ..s
                            },
                        )
                    }
                },
                OpCode::True => push_step(s, 1, Value::Bool(true)),
                OpCode::False => push_step(s, 1, Value::Bool(false)),
                OpCode::Nil => push_step(s, 1, Value::Nil),
                OpCode::Pop => {
                    if s.stack.len() < 1 {
                        StepS::Fail(s, RuntimeErrorsSpec::StackUnderflow)
                    } else {
                        StepS::Next(StateS { ip: s.ip + 1, stack: s.stack.drop_last(), ..s })
                    }
                },
                OpCode::GetLocal => {
                    if s.ip + 1 < s.code.len() && s.code[s.ip + 1] < s.stack.len() {
                        StepS::Next(
                            StateS {
                                ip: s.ip + 2,
                                stack: s.stack.push(s.stack[s.code[s.ip + 1] as int]),
                                ..s
                            },
                        )
                    } else {
                        StepS::Fail(s, RuntimeErrorsSpec::InvalidOpcode)
                    }
                },
                OpCode::SetLocal => {
                    if s.ip + 1 < s.code.len() && s.code[s.ip + 1] < s.stack.len()
                        && s.stack.len() >= 1 {
                        StepS::Next(
                            StateS {
                                ip: s.ip + 2,
                                stack: s.stack.update(s.code[s.ip + 1] as int, s.stack.last()),
                                ..s
                            },
                        )
                    } else {
                        StepS::Fail(s, RuntimeErrorsSpec::InvalidOpcode)
                    }
                },
                OpCode::GetGlobal => {
                    if !(s.ip + 1 < s.code.len() && s.code[s.ip + 1] < s.consts.len()
                        && s.consts[s.code[s.ip + 1] as int] is String) {
                        StepS::Fail(s, RuntimeErrorsSpec::InvalidOpcode)
                    } else {
                        let i = s.consts[s.code[s.ip + 1] as int]->String_0;
                        match glookup(s.globals, i) {
                            Some(v) => StepS::Next(
                                StateS { ip: s.ip + 2, stack: s.stack.push(v), ..s },
                            ),
                            None => StepS::Fail(
                                s,
                                RuntimeErrorsSpec::UndefinedVariable(s.strings[i as int]),
                            ),
                        }
                    }
                },
                OpCode::DefineGlobal => {
                    if !(s.ip + 1 < s.code.len() && s.code[s.ip + 1] < s.consts.len()
                        && s.consts[s.code[s.ip + 1] as int] is String) {
                        StepS::Fail(s, RuntimeErrorsSpec::InvalidOpcode)
                    } else if s.stack.len() < 1 {
                        StepS::Fail(s, RuntimeErrorsSpec::StackUnderflow)
                    } else {
                        let i = s.consts[s.code[s.ip + 1] as int]->String_0;
                        StepS::Next(
                            StateS {
                                ip: s.ip + 2,
                                stack: s.stack.drop_last(),
                                globals: gset(s.globals, i, s.stack.last()),
                                ..s
                            },
                        )
                    }
                },
                OpCode::SetGlobal => {
                    if !(s.ip + 1 < s.code.len() && s.code[s.ip + 1] < s.consts.len()
                        && s.consts[s.code[s.ip + 1] as int] is String) {
                        StepS::Fail(s, RuntimeErrorsSpec::InvalidOpcode)
                    } else if s.stack.len() < 1 {
                        StepS::Fail(s, RuntimeErrorsSpec::StackUnderflow)
                    } else {
                        let i = s.consts[s.code[s.ip + 1] as int]->String_0;
                        match glookup(s.globals, i) {
                            Some(_) => StepS::Next(
                                StateS {
                                    ip: s.ip + 2,
                                    globals: gset(s.globals, i, s.stack.last()),
                                    ..s
                                },
                            ),
                            None => StepS::Fail(
                                s,
                                RuntimeErrorsSpec::UndefinedVariable(s.strings[i as int]),
                            ),
                        }
                    }
                },
                OpCode::Equal => {
                    if s.stack.len() < 2 {
                        StepS::Fail(s, RuntimeErrorsSpec::StackUnderflow)
                    } else {
                        let a = s.stack.last();
                        let b = s.stack[s.stack.len() - 2];
                        StepS::Next(
                            StateS {
                                ip: s.ip + 1,
                                stack: s.stack.drop_last().drop_last().push(
                                    Value::Bool(values_equal_spec(a, b)),
                                ),
                                ..s
                            },
                        )
                    }
                },
                OpCode::Jump => {
                    if s.ip + 2 < s.code.len() {
                        StepS::Next(StateS { ip: s.ip + 3 + disp_of(s), ..s })
                    } else {
                        StepS::Fail(s, RuntimeErrorsSpec::InvalidOpcode)
                    }
                },
                OpCode::JumpIfFalse => {
                    if s.ip + 2 < s.code.len() && s.stack.len() >= 1 {
                        if is_falsy_spec(s.stack.last()) {
                            StepS::Next(StateS { ip: s.ip + 3 + disp_of(s), ..s })
                        } else {
                            StepS::Next(StateS { ip: s.ip + 3, ..s })
                        }
                    } else {
                        StepS::Fail(s, RuntimeErrorsSpec::InvalidOpcode)
                    }
                },
                OpCode::Loop => {
                    if s.ip + 2 < s.code.len() && disp_of(s) <= s.ip + 3 {
                        StepS::Next(StateS { ip: s.ip + 3 - disp_of(s), ..s })
                    } else {
                        StepS::Fail(s, RuntimeErrorsSpec::InvalidOpcode)
                    }
                },
                OpCode::Return => StepS::Done(s),
            },
        }
    }
}

/// The machine after `n` instructions, as long as it keeps running.
pub open spec fn steps(s: StateS, n: nat) -> StepS
    decreases n,
{
    if n == 0 {
        StepS::Next(s)
    } else {
        match steps(s, (n - 1) as nat) {
            StepS::Next(t) => step(t),
            done_or_fail => done_or_fail,
        }
    }
}

/// The machine is deterministic: what `steps` yields is the one possible
/// outcome, so any halting result other functions exhibit is the only one.
pub proof fn lemma_steps_deterministic(s: StateS, n: nat, m: nat)
    requires
        n <= m,
        !(steps(s, n) is Next),
    ensures
        steps(s, m) == steps(s, n),
    decreases m,
{
    if n < m {
        lemma_steps_deterministic(s, n, (m - 1) as nat);
    }
}

/// Binding a valid key to a valid value keeps every entry of the
/// environment valid.
pub proof fn lemma_gset_wf(g: Seq<(usize, Value)>, k: usize, v: Value, m: int)
    requires
        forall|i: int| 0 <= i < g.len() ==> (#[trigger] g[i]).0 < m && valid_value(g[i].1, m),
        k < m,
        valid_value(v, m),
    ensures
        forall|i: int|
            0 <= i < gset(g, k, v).len() ==> (#[trigger] gset(g, k, v)[i]).0 < m && valid_value(
                gset(g, k, v)[i].1,
                m,
            ),
{
    lemma_gfind(g, k);
    let g2 = gset(g, k, v);
    assert forall|i: int| 0 <= i < g2.len() implies (#[trigger] g2[i]).0 < m && valid_value(
        g2[i].1,
        m,
    ) by {
        match gfind(g, k) {
            Some(j) => {
                if i != j {
                    assert(g2[i] == g[i]);
                }
            },
            None => {
                if i < g.len() {
                    assert(g2[i] == g[i]);
                }
            },
        }
    }
}

/// A value looked up in a valid environment is valid.
pub proof fn lemma_glookup_valid(g: Seq<(usize, Value)>, k: usize, m: int)
    requires
        forall|i: int| 0 <= i < g.len() ==> (#[trigger] g[i]).0 < m && valid_value(g[i].1, m),
    ensures
        glookup(g, k) matches Some(v) ==> valid_value(v, m),
{
    lemma_gfind(g, k);
}

/// The virtual machine: the evaluation stack, the interned-string heap, the
/// global environment, the installed chunk, and the lines printed so far.
pub struct VM {
    pub stack: Vec<Value>,
    pub strings: Interns,
    pub globals: Vec<(usize, Value)>,
    pub chunks: Chunk,
    pub output: Vec<String>,
}

impl VM {
    pub open spec fn wf(self) -> bool {
        &&& self.strings.wf()
        &&& self.chunks.wf()
        &&& forall|i: int|
            0 <= i < self.stack@.len() ==> valid_value(
                #[trigger] self.stack@[i],
                self.strings.contents().len() as int,
            )
        &&& forall|i: int|
            0 <= i < self.globals@.len() ==> (#[trigger] self.globals@[i]).0
                < self.strings.contents().len() && valid_value(
                self.globals@[i].1,
                self.strings.contents().len() as int,
            )
        &&& forall|i: int|
            0 <= i < self.chunks.constants@.len() ==> valid_value(
                #[trigger] self.chunks.constants@[i],
                self.strings.contents().len() as int,
            )
    }

    /// The machine state this VM holds, at instruction pointer `ip`.
    pub open spec fn state(self, ip: int) -> StateS {
        StateS {
            code: self.chunks.code@,
            consts: self.chunks.constants@,
            ip,
            stack: self.stack@,
            globals: self.globals@,
            strings: self.strings.contents(),
            output: out_view(self.output@),
        }
    }

    /// The parts of a machine state a caller can observe once execution
    /// stops; the instruction pointer is not among them.
    pub open spec fn observes(self, t: StateS) -> bool {
        &&& t.code == self.chunks.code@
        &&& t.consts == self.chunks.constants@
        &&& t.stack == self.stack@
        &&& t.globals == self.globals@
        &&& t.strings == self.strings.contents()
        &&& t.output == out_view(self.output@)
    }

    pub fn new() -> (r: VM)
        ensures
            r.wf(),
            r.stack@.len() == 0,
            r.globals@.len() == 0,
            r.strings.contents().len() == 0,
            r.output@.len() == 0,
            r.chunks.code@.len() == 0,
    {
        VM {
            stack: Vec::new(),
            strings: Interns::new(),
            globals: Vec::new(),
            chunks: Chunk::new(),
            output: Vec::new(),
        }
    }

    /// Pop the top of the evaluation stack; an empty stack is the
    /// `StackUnderflow` error.
    fn pop(&mut self) -> (r: Result<Value, VmErrors>)
        ensures
            final(self).strings == old(self).strings,
            final(self).globals == old(self).globals,
            final(self).chunks == old(self).chunks,
            final(self).output == old(self).output,
            old(self).stack@.len() > 0 ==> r == Ok::<Value, VmErrors>(old(self).stack@.last())
                && final(self).stack@ == old(self).stack@.drop_last(),
            old(self).stack@.len() == 0 ==> (r matches Err(VmErrors::RuntimeError(
                RuntimeErrors::StackUnderflow,
            )) && final(self).stack@ == old(self).stack@),
    {
        match self.stack.pop() {
            Some(x) => Ok(x),
            None => Err(VmErrors::RuntimeError(RuntimeErrors::StackUnderflow)),
        }
    }

    /// A copy of the value `distance` below the top, without touching the
    /// stack.
    fn peek(&self, distance: usize) -> (r: Value)
        requires
            distance < self.stack@.len(),
        ensures
            r == self.stack@[self.stack@.len() - 1 - distance],
    {
        self.stack[self.stack.len() - 1 - distance]
    }

    /// Look a key up in the global environment.
    fn globals_get(&self, k: usize) -> (r: Option<Value>)
        ensures
            r == glookup(self.globals@, k),
    {
        proof {
            lemma_gfind(self.globals@, k);
        }
        let n = self.globals.len();
        let mut j: usize = 0;
        while j < n
            invariant
                n == self.globals@.len(),
                j <= n,
                forall|i: int| 0 <= i < j ==> (#[trigger] self.globals@[i]).0 != k,
            decreases n - j,
        {
            let e = self.globals[j];
            if e.0 == k {
                proof {
                    lemma_gfind_at(self.globals@, k, j as int);
                }
                return Some(e.1);
            }
            j = j + 1;
        }
        None
    }

    /// Bind a key in the global environment: replace its entry, or append a
    /// new one.
    fn globals_set(&mut self, k: usize, v: Value)
        ensures
            final(self).stack == old(self).stack,
            final(self).strings == old(self).strings,
            final(self).chunks == old(self).chunks,
            final(self).output == old(self).output,
            final(self).globals@ == gset(old(self).globals@, k, v),
    {
        proof {
            lemma_gfind(self.globals@, k);
        }
        let n = self.globals.len();
        let mut j: usize = 0;
        while j < n
            invariant
                *self == *old(self),
                n == self.globals@.len(),
                j <= n,
                forall|i: int| 0 <= i < j ==> (#[trigger] self.globals@[i]).0 != k,
            decreases n - j,
        {
            let e = self.globals[j];
            if e.0 == k {
                proof {
                    lemma_gfind_at(self.globals@, k, j as int);
                }
                self.globals[j] = (k, v);
                return ;
            }
            j = j + 1;
        }
        self.globals.push((k, v));
    }
}

/// Whether the specification machine state `t` describes this VM with its
/// instruction pointer at `ip`; past the end of the code the exact pointer
/// no longer matters, as every such state is about to stop.
pub open spec fn sim(t: StateS, vm: VM, ip: usize) -> bool {
    &&& vm.observes(t)
    &&& (t.ip == ip || (t.ip >= t.code.len() && ip >= t.code.len()))
}

impl VM {
    /// Execute the installed chunk from its start, for at most `fuel`
    /// instructions. The result and the machine left behind are exactly
    /// what the specification machine yields: `Ok` when it ends (or, after
    /// `fuel` instructions, the machine as it stands — unreachable in
    /// practice with the full 64-bit budget), the runtime error it fails
    /// with otherwise.
    #[verifier::rlimit(100)]
    pub fn run(&mut self, fuel: u64) -> (r: Result<(), VmErrors>)
        requires
            old(self).wf(),
        ensures
            final(self).wf(),
            final(self).chunks == old(self).chunks,
            exists|n: nat|
                #![trigger steps(old(self).state(0), n)]
                n <= fuel && (match r {
                    Ok(()) => (steps(old(self).state(0), n) matches StepS::Done(t)
                        && final(self).observes(t)) || (n == fuel && (steps(
                        old(self).state(0),
                        n,
                    ) matches StepS::Next(t) && final(self).observes(t))),
                    Err(VmErrors::RuntimeError(e)) => steps(
                        old(self).state(0),
                        n,
                    ) matches StepS::Fail(t, es) && es == e@ && final(self).observes(t),
                    Err(VmErrors::CompileError(_)) => false,
                }),
    {
        let ghost init = old(self).state(0);
        let mut ip: usize = 0;
        let mut remaining: u64 = fuel;
        let ghost mut cur: StateS = init;
        loop
            invariant
                self.wf(),
                self.chunks == old(self).chunks,
                remaining <= fuel,
                init == old(self).state(0),
                steps(init, (fuel - remaining) as nat) == StepS::Next(cur),
                sim(cur, *self, ip),
            decreases remaining,
        {
            let ghost n: nat = (fuel - remaining) as nat;
            if remaining == 0 {
                return Ok(());
            }
            let code_len = self.chunks.code.len();
            if ip >= code_len {
                proof {
                    assert(step(cur) == StepS::Done(cur));
                    assert(steps(init, (n + 1) as nat) == StepS::Done(cur));
                }
                return Ok(());
            }
            remaining = remaining - 1;
            let byte = self.chunks.code[ip];
            let op = match OpCode::from_byte(byte) {
                Ok(op) => op,
                Err(err) => {
                    proof {
                        assert(step(cur) == StepS::Fail(cur, RuntimeErrorsSpec::InvalidOpcode));
                        assert(steps(init, (n + 1) as nat) == StepS::Fail(
                            cur,
                            RuntimeErrorsSpec::InvalidOpcode,
                        ));
                    }
                    return Err(VmErrors::RuntimeError(err));
                },
            };
            match op {
                OpCode::Constant => {
                    if ip + 1 >= code_len || self.chunks.code[ip + 1] as usize
                        >= self.chunks.constants.len() {
                        proof {
                            assert(steps(init, (n + 1) as nat) == StepS::Fail(
                                cur,
                                RuntimeErrorsSpec::InvalidOpcode,
                            ));
                        }
                        return Err(VmErrors::RuntimeError(RuntimeErrors::InvalidOpcode));
                    }
                    let idx = self.chunks.code[ip + 1];
                    let val = self.chunks.constants[idx as usize];
                    self.stack.push(val);
                    proof {
                        cur = StateS { ip: cur.ip + 2, stack: cur.stack.push(val), ..cur };
                        assert(steps(init, (n + 1) as nat) == StepS::Next(cur));
                    }
                    ip = ip + 2;
                },
                OpCode::Addition => {
                    if self.stack.len() < 2 {
                        proof {
                            assert(steps(init, (n + 1) as nat) == StepS::Fail(
                                cur,
                                RuntimeErrorsSpec::StackUnderflow,
                            ));
                        }
                        return Err(VmErrors::RuntimeError(RuntimeErrors::StackUnderflow));
                    }
                    let slen = self.stack.len();
                    let bv = self.stack[slen - 1];
                    let av = self.stack[slen - 2];
                    self.stack.truncate(slen - 2);
                    proof {
                        assert(self.stack@ =~= cur.stack.drop_last().drop_last());
                    }
                    match (av, bv) {
                        (Value::Number(x), Value::Number(y)) => {
                            let sum = num_add(x, y);
                            self.stack.push(Value::Number(sum));
                            proof {
                                cur = StateS {
                                    ip: cur.ip + 1,
                                    stack: cur.stack.drop_last().drop_last().push(
                                        Value::Number(num_add_of(x, y)),
                                    ),
                                    ..cur
                                };
                                assert(steps(init, (n + 1) as nat) == StepS::Next(cur));
                            }
                            ip = ip + 1;
                        },
                        (Value::Bool(_), _) | (Value::Nil, _) | (_, Value::Bool(_)) | (
                            _,
                            Value::Nil,
                        ) => {
                            let at = value_text(av, &self.strings);
                            let bt = value_text(bv, &self.strings);
                            proof {
                                assert(steps(init, (n + 1) as nat) == StepS::Fail(
                                    StateS { stack: cur.stack.drop_last().drop_last(), ..cur },
                                    RuntimeErrorsSpec::InvalidAddition(at@, bt@),
                                ));
                            }
                            return Err(
                                VmErrors::RuntimeError(RuntimeErrors::InvalidAddition(at, bt)),
                            );
                        },
                        _ => {
                            let at = value_text(av, &self.strings);
                            let bt = value_text(bv, &self.strings);
                            let joined = at.concat(bt.as_str());
                            let idx = self.strings.intern(joined.as_str());
                            proof {
                                crate::value::lemma_find_text(cur.strings, joined@);
                            }
                            self.stack.push(Value::String(idx));
                            proof {
                                let m = self.strings.contents().len() as int;
                                assert forall|i: int| 0 <= i < self.stack@.len() implies valid_value(
                                    #[trigger] self.stack@[i],
                                    m,
                                ) by {
                                    if i < self.stack@.len() - 1 {
                                        assert(valid_value(
                                            cur.stack[i],
                                            cur.strings.len() as int,
                                        ));
                                    }
                                }
                                let text = value_text_spec(av, cur.strings) + value_text_spec(
                                    bv,
                                    cur.strings,
                                );
                                let (strings2, si) = intern_step(cur.strings, text);
                                assert(self.strings.contents() == strings2);
                                assert(idx as int == si);
                                cur = StateS {
                                    ip: cur.ip + 1,
                                    stack: cur.stack.drop_last().drop_last().push(
                                        Value::String(si as usize),
                                    ),
                                    strings: strings2,
                                    ..cur
                                };
                                assert(steps(init, (n + 1) as nat) == StepS::Next(cur));
                            }
                            ip = ip + 1;
                        },
                    }
                },
                OpCode::Subtract | OpCode::Multiply | OpCode::Divide | OpCode::Greater
                    | OpCode::Less => {
                    if self.stack.len() < 2 {
                        proof {
                            assert(steps(init, (n + 1) as nat) == StepS::Fail(
                                cur,
                                RuntimeErrorsSpec::StackUnderflow,
                            ));
                        }
                        return Err(VmErrors::RuntimeError(RuntimeErrors::StackUnderflow));
                    }
                    let slen = self.stack.len();
                    let bv = self.stack[slen - 1];
                    let av = self.stack[slen - 2];
                    let y = match bv {
                        Value::Number(y) => y,
                        _ => {
                            self.stack.truncate(slen - 1);
                            proof {
                                assert(self.stack@ =~= cur.stack.drop_last());
                            }
                            let text = value_text(bv, &self.strings);
                            proof {
                                assert(steps(init, (n + 1) as nat) == StepS::Fail(
                                    StateS { stack: cur.stack.drop_last(), ..cur },
                                    RuntimeErrorsSpec::TypeError("number"@, text@),
                                ));
                            }
                            return Err(
                                VmErrors::RuntimeError(RuntimeErrors::TypeError("number", text)),
                            );
                        },
                    };
                    let x = match av {
                        Value::Number(x) => x,
                        _ => {
                            self.stack.truncate(slen - 2);
                            proof {
                                assert(self.stack@ =~= cur.stack.drop_last().drop_last());
                            }
                            let text = value_text(av, &self.strings);
                            proof {
                                assert(steps(init, (n + 1) as nat) == StepS::Fail(
                                    StateS { stack: cur.stack.drop_last().drop_last(), ..cur },
                                    RuntimeErrorsSpec::TypeError("number"@, text@),
                                ));
                            }
                            return Err(
                                VmErrors::RuntimeError(RuntimeErrors::TypeError("number", text)),
                            );
                        },
                    };
                    self.stack.truncate(slen - 2);
                    proof {
                        assert(self.stack@ =~= cur.stack.drop_last().drop_last());
                    }
                    let result = match op {
                        OpCode::Subtract => Value::Number(num_sub(x, y)),
                        OpCode::Multiply => Value::Number(num_mul(x, y)),
                        OpCode::Divide => Value::Number(num_div(x, y)),
                        OpCode::Greater => Value::Bool(
                            matches!(num_order(x, y), NumOrder::Greater),
                        ),
                        _ => Value::Bool(matches!(num_order(x, y), NumOrder::Less)),
                    };
                    self.stack.push(result);
                    proof {
                        let rs = match op {
                            OpCode::Subtract => Value::Number(num_sub_of(x, y)),
                            OpCode::Multiply => Value::Number(num_mul_of(x, y)),
                            OpCode::Divide => Value::Number(num_div_of(x, y)),
                            OpCode::Greater => Value::Bool(num_gt_of(x, y)),
                            _ => Value::Bool(num_lt_of(x, y)),
                        };
                        cur = StateS {
                            ip: cur.ip + 1,
                            stack: cur.stack.drop_last().drop_last().push(rs),
                            ..cur
                        };
                        assert(steps(init, (n + 1) as nat) == StepS::Next(cur));
                    }
                    ip = ip + 1;
                },
                OpCode::Not => {
                    let v = match self.pop() {
                        Ok(v) => v,
                        Err(e) => {
                            proof {
                                assert(steps(init, (n + 1) as nat) == StepS::Fail(
                                    cur,
                                    RuntimeErrorsSpec::StackUnderflow,
                                ));
                            }
                            return Err(e);
                        },
                    };
                    let b = v.is_falsy();
                    self.stack.push(Value::Bool(b));
                    proof {
                        cur = StateS {
                            ip: cur.ip + 1,
                            stack: cur.stack.drop_last().push(Value::Bool(is_falsy_spec(v))),
                            ..cur
                        };
                        assert(steps(init, (n + 1) as nat) == StepS::Next(cur));
                    }
                    ip = ip + 1;
                },
                OpCode::Negate => {
                    let v = match self.pop() {
                        Ok(v) => v,
                        Err(e) => {
                            proof {
                                assert(steps(init, (n + 1) as nat) == StepS::Fail(
                                    cur,
                                    RuntimeErrorsSpec::StackUnderflow,
                                ));
                            }
                            return Err(e);
                        },
                    };
                    match v {
                        Value::Number(x) => {
                            self.stack.push(Value::Number(num_neg(x)));
                            proof {
                                cur = StateS {
                                    ip: cur.ip + 1,
                                    stack: cur.stack.drop_last().push(
                                        Value::Number(num_neg_of(x)),
                                    ),
                                    ..cur
                                };
                                assert(steps(init, (n + 1) as nat) == StepS::Next(cur));
                            }
                            ip = ip + 1;
                        },
                        _ => {
                            let text = value_text(v, &self.strings);
                            proof {
                                assert(steps(init, (n + 1) as nat) == StepS::Fail(
                                    StateS { stack: cur.stack.drop_last(), ..cur },
                                    RuntimeErrorsSpec::TypeError("number"@, text@),
                                ));
                            }
                            return Err(
                                VmErrors::RuntimeError(RuntimeErrors::TypeError("number", text)),
                            );
                        },
                    }
                },
                OpCode::Print => {
                    let v = match self.pop() {
                        Ok(v) => v,
                        Err(e) => {
                            proof {
                                assert(steps(init, (n + 1) as nat) == StepS::Fail(
                                    cur,
                                    RuntimeErrorsSpec::StackUnderflow,
                                ));
                            }
                            return Err(e);
                        },
                    };
                    let text = value_text(v, &self.strings);
                    self.output.push(text);
                    proof {
                        assert(out_view(self.output@) =~= cur.output.push(
                            value_text_spec(v, cur.strings),
                        ));
                        cur = StateS {
                            ip: cur.ip + 1,
                            stack: cur.stack.drop_last(),
                            output: cur.output.push(value_text_spec(v, cur.strings)),
                            ..cur
                        };
                        assert(steps(init, (n + 1) as nat) == StepS::Next(cur));
                    }
                    ip = ip + 1;
                },
                OpCode::True => {
                    self.stack.push(Value::Bool(true));
                    proof {
                        cur = StateS {
                            ip: cur.ip + 1,
                            stack: cur.stack.push(Value::Bool(true)),
                            ..cur
                        };
                        assert(steps(init, (n + 1) as nat) == StepS::Next(cur));
                    }
                    ip = ip + 1;
                },
                OpCode::False => {
                    self.stack.push(Value::Bool(false));
                    proof {
                        cur = StateS {
                            ip: cur.ip + 1,
                            stack: cur.stack.push(Value::Bool(false)),
                            ..cur
                        };
                        assert(steps(init, (n + 1) as nat) == StepS::Next(cur));
                    }
                    ip = ip + 1;
                },
                OpCode::Nil => {
                    self.stack.push(Value::Nil);
                    proof {
                        cur = StateS { ip: cur.ip + 1, stack: cur.stack.push(Value::Nil), ..cur };
                        assert(steps(init, (n + 1) as nat) == StepS::Next(cur));
                    }
                    ip = ip + 1;
                },
                OpCode::Pop => {
                    match self.pop() {
                        Ok(_) => {},
                        Err(e) => {
                            proof {
                                assert(steps(init, (n + 1) as nat) == StepS::Fail(
                                    cur,
                                    RuntimeErrorsSpec::StackUnderflow,
                                ));
                            }
                            return Err(e);
                        },
                    }
                    proof {
                        cur = StateS { ip: cur.ip + 1, stack: cur.stack.drop_last(), ..cur };
                        assert(steps(init, (n + 1) as nat) == StepS::Next(cur));
                    }
                    ip = ip + 1;
                },
                OpCode::GetLocal => {
                    if ip + 1 >= code_len || self.chunks.code[ip + 1] as usize
                        >= self.stack.len() {
                        proof {
                            assert(steps(init, (n + 1) as nat) == StepS::Fail(
                                cur,
                                RuntimeErrorsSpec::InvalidOpcode,
                            ));
                        }
                        return Err(VmErrors::RuntimeError(RuntimeErrors::InvalidOpcode));
                    }
                    let slot = self.chunks.code[ip + 1];
                    let val = self.stack[slot as usize];
                    self.stack.push(val);
                    proof {
                        cur = StateS { ip: cur.ip + 2, stack: cur.stack.push(val), ..cur };
                        assert(steps(init, (n + 1) as nat) == StepS::Next(cur));
                    }
                    ip = ip + 2;
                },
                OpCode::SetLocal => {
                    if ip + 1 >= code_len || self.chunks.code[ip + 1] as usize >= self.stack.len()
                        || self.stack.len() == 0 {
                        proof {
                            assert(steps(init, (n + 1) as nat) == StepS::Fail(
                                cur,
                                RuntimeErrorsSpec::InvalidOpcode,
                            ));
                        }
                        return Err(VmErrors::RuntimeError(RuntimeErrors::InvalidOpcode));
                    }
                    let slot = self.chunks.code[ip + 1];
                    let top = self.peek(0);
                    self.stack[slot as usize] = top;
                    proof {
                        cur = StateS {
                            ip: cur.ip + 2,
                            stack: cur.stack.update(
                                self.chunks.code@[ip + 1] as int,
                                cur.stack.last(),
                            ),
                            ..cur
                        };
                        assert(steps(init, (n + 1) as nat) == StepS::Next(cur));
                    }
                    ip = ip + 2;
                },
                OpCode::GetGlobal => {
                    let name_idx = match self.global_name(ip) {
                        Ok(i) => i,
                        Err(e) => {
                            proof {
                                assert(steps(init, (n + 1) as nat) == StepS::Fail(
                                    cur,
                                    RuntimeErrorsSpec::InvalidOpcode,
                                ));
                            }
                            return Err(e);
                        },
                    };
                    match self.globals_get(name_idx) {
                        Some(v) => {
                            proof {
                                lemma_glookup_valid(
                                    self.globals@,
                                    name_idx,
                                    self.strings.contents().len() as int,
                                );
                            }
                            self.stack.push(v);
                            proof {
                                cur = StateS { ip: cur.ip + 2, stack: cur.stack.push(v), ..cur };
                                assert(steps(init, (n + 1) as nat) == StepS::Next(cur));
                            }
                            ip = ip + 2;
                        },
                        None => {
                            let name = self.strings.get(name_idx).clone();
                            proof {
                                assert(steps(init, (n + 1) as nat) == StepS::Fail(
                                    cur,
                                    RuntimeErrorsSpec::UndefinedVariable(
                                        cur.strings[name_idx as int],
                                    ),
                                ));
                            }
                            return Err(
                                VmErrors::RuntimeError(RuntimeErrors::UndefinedVariable(name)),
                            );
                        },
                    }
                },
                OpCode::DefineGlobal => {
                    let name_idx = match self.global_name(ip) {
                        Ok(i) => i,
                        Err(e) => {
                            proof {
                                assert(steps(init, (n + 1) as nat) == StepS::Fail(
                                    cur,
                                    RuntimeErrorsSpec::InvalidOpcode,
                                ));
                            }
                            return Err(e);
                        },
                    };
                    if self.stack.len() == 0 {
                        proof {
                            assert(steps(init, (n + 1) as nat) == StepS::Fail(
                                cur,
                                RuntimeErrorsSpec::StackUnderflow,
                            ));
                        }
                        return Err(VmErrors::RuntimeError(RuntimeErrors::StackUnderflow));
                    }
                    let top = self.peek(0);
                    proof {
                        lemma_gset_wf(
                            self.globals@,
                            name_idx,
                            top,
                            self.strings.contents().len() as int,
                        );
                    }
                    self.globals_set(name_idx, top);
                    match self.pop() {
                        Ok(_) => {},
                        Err(_) => {},
                    }
                    proof {
                        cur = StateS {
                            ip: cur.ip + 2,
                            stack: cur.stack.drop_last(),
                            globals: gset(cur.globals, name_idx, cur.stack.last()),
                            ..cur
                        };
                        assert(steps(init, (n + 1) as nat) == StepS::Next(cur));
                    }
                    ip = ip + 2;
                },
                OpCode::SetGlobal => {
                    let name_idx = match self.global_name(ip) {
                        Ok(i) => i,
                        Err(e) => {
                            proof {
                                assert(steps(init, (n + 1) as nat) == StepS::Fail(
                                    cur,
                                    RuntimeErrorsSpec::InvalidOpcode,
                                ));
                            }
                            return Err(e);
                        },
                    };
                    if self.stack.len() == 0 {
                        proof {
                            assert(steps(init, (n + 1) as nat) == StepS::Fail(
                                cur,
                                RuntimeErrorsSpec::StackUnderflow,
                            ));
                        }
                        return Err(VmErrors::RuntimeError(RuntimeErrors::StackUnderflow));
                    }
                    match self.globals_get(name_idx) {
                        Some(_) => {
                            let top = self.peek(0);
                            proof {
                                lemma_gset_wf(
                                    self.globals@,
                                    name_idx,
                                    top,
                                    self.strings.contents().len() as int,
                                );
                            }
                            self.globals_set(name_idx, top);
                            proof {
                                cur = StateS {
                                    ip: cur.ip + 2,
                                    globals: gset(cur.globals, name_idx, cur.stack.last()),
                                    ..cur
                                };
                                assert(steps(init, (n + 1) as nat) == StepS::Next(cur));
                            }
                            ip = ip + 2;
                        },
                        None => {
                            let name = self.strings.get(name_idx).clone();
                            proof {
                                assert(steps(init, (n + 1) as nat) == StepS::Fail(
                                    cur,
                                    RuntimeErrorsSpec::UndefinedVariable(
                                        cur.strings[name_idx as int],
                                    ),
                                ));
                            }
                            return Err(
                                VmErrors::RuntimeError(RuntimeErrors::UndefinedVariable(name)),
                            );
                        },
                    }
                },
                OpCode::Equal => {
                    if self.stack.len() < 2 {
                        proof {
                            assert(steps(init, (n + 1) as nat) == StepS::Fail(
                                cur,
                                RuntimeErrorsSpec::StackUnderflow,
                            ));
                        }
                        return Err(VmErrors::RuntimeError(RuntimeErrors::StackUnderflow));
                    }
                    let slen = self.stack.len();
                    let a = self.stack[slen - 1];
                    let b = self.stack[slen - 2];
                    self.stack.truncate(slen - 2);
                    proof {
                        assert(self.stack@ =~= cur.stack.drop_last().drop_last());
                    }
                    let eq = values_equal(a, b);
                    self.stack.push(Value::Bool(eq));
                    proof {
                        cur = StateS {
                            ip: cur.ip + 1,
                            stack: cur.stack.drop_last().drop_last().push(
                                Value::Bool(values_equal_spec(a, b)),
                            ),
                            ..cur
                        };
                        assert(steps(init, (n + 1) as nat) == StepS::Next(cur));
                    }
                    ip = ip + 1;
                },
                OpCode::Jump => {
                    match self.read_jump(ip, code_len) {
                        Ok(disp) => {
                            proof {
                                cur = StateS { ip: cur.ip + 3 + disp_of(cur), ..cur };
                                assert(steps(init, (n + 1) as nat) == StepS::Next(cur));
                            }
                            ip = Self::jump_target(ip, disp, code_len);
                        },
                        Err(e) => {
                            proof {
                                assert(steps(init, (n + 1) as nat) == StepS::Fail(
                                    cur,
                                    RuntimeErrorsSpec::InvalidOpcode,
                                ));
                            }
                            return Err(e);
                        },
                    }
                },
                OpCode::JumpIfFalse => {
                    let disp = match self.read_jump(ip, code_len) {
                        Ok(disp) => disp,
                        Err(e) => {
                            proof {
                                assert(steps(init, (n + 1) as nat) == StepS::Fail(
                                    cur,
                                    RuntimeErrorsSpec::InvalidOpcode,
                                ));
                            }
                            return Err(e);
                        },
                    };
                    if self.stack.len() == 0 {
                        proof {
                            assert(steps(init, (n + 1) as nat) == StepS::Fail(
                                cur,
                                RuntimeErrorsSpec::InvalidOpcode,
                            ));
                        }
                        return Err(VmErrors::RuntimeError(RuntimeErrors::InvalidOpcode));
                    }
                    let top = self.peek(0);
                    if top.is_falsy() {
                        proof {
                            cur = StateS { ip: cur.ip + 3 + disp_of(cur), ..cur };
                            assert(steps(init, (n + 1) as nat) == StepS::Next(cur));
                        }
                        ip = Self::jump_target(ip, disp, code_len);
                    } else {
                        proof {
                            cur = StateS { ip: cur.ip + 3, ..cur };
                            assert(steps(init, (n + 1) as nat) == StepS::Next(cur));
                        }
                        ip = ip + 3;
                    }
                },
                OpCode::Loop => {
                    let disp = match self.read_jump(ip, code_len) {
                        Ok(disp) => disp,
                        Err(e) => {
                            proof {
                                assert(steps(init, (n + 1) as nat) == StepS::Fail(
                                    cur,
                                    RuntimeErrorsSpec::InvalidOpcode,
                                ));
                            }
                            return Err(e);
                        },
                    };
                    if disp > ip + 3 {
                        proof {
                            assert(steps(init, (n + 1) as nat) == StepS::Fail(
                                cur,
                                RuntimeErrorsSpec::InvalidOpcode,
                            ));
                        }
                        return Err(VmErrors::RuntimeError(RuntimeErrors::InvalidOpcode));
                    }
                    proof {
                        cur = StateS { ip: cur.ip + 3 - disp_of(cur), ..cur };
                        assert(steps(init, (n + 1) as nat) == StepS::Next(cur));
                    }
                    ip = ip + 3 - disp;
                },
                OpCode::Return => {
                    proof {
                        assert(step(cur) == StepS::Done(cur));
                        assert(steps(init, (n + 1) as nat) == StepS::Done(cur));
                    }
                    return Ok(());
                },
            }
        }
    }

    /// Read the pooled string index a global instruction carries; anything
    /// else under the operand is malformed bytecode.
    fn global_name(&self, ip: usize) -> (r: Result<usize, VmErrors>)
        requires
            self.wf(),
            ip < self.chunks.code@.len(),
        ensures
            ({
                let ok = ip + 1 < self.chunks.code@.len() && self.chunks.code@[ip + 1]
                    < self.chunks.constants@.len() && self.chunks.constants@[self.chunks.code@[ip
                    + 1] as int] is String;
                &&& (ok <==> r is Ok)
                &&& (ok ==> r->Ok_0 == self.chunks.constants@[self.chunks.code@[ip + 1] as int]->String_0
                    && r->Ok_0 < self.strings.contents().len())
                &&& (!ok ==> (r matches Err(VmErrors::RuntimeError(RuntimeErrors::InvalidOpcode))))
            }),
    {
        let n = self.chunks.code.len();
        if n - ip <= 1 {
            return Err(VmErrors::RuntimeError(RuntimeErrors::InvalidOpcode));
        }
        let idx = self.chunks.code[ip + 1];
        if idx as usize >= self.chunks.constants.len() {
            return Err(VmErrors::RuntimeError(RuntimeErrors::InvalidOpcode));
        }
        match self.chunks.constants[idx as usize] {
            Value::String(i) => Ok(i),
            _ => Err(VmErrors::RuntimeError(RuntimeErrors::InvalidOpcode)),
        }
    }

    /// Read the 16-bit big-endian displacement after a jump opcode.
    fn read_jump(&self, ip: usize, code_len: usize) -> (r: Result<usize, VmErrors>)
        requires
            self.wf(),
            ip < self.chunks.code@.len(),
            code_len == self.chunks.code@.len(),
        ensures
            r is Ok <==> ip + 2 < self.chunks.code@.len(),
            r is Ok ==> r->Ok_0 == self.chunks.code@[ip + 1] * 256 + self.chunks.code@[ip + 2]
                && r->Ok_0 <= 0xffff,
            r is Err ==> (r matches Err(VmErrors::RuntimeError(RuntimeErrors::InvalidOpcode))),
    {
        if code_len - ip <= 2 {
            return Err(VmErrors::RuntimeError(RuntimeErrors::InvalidOpcode));
        }
        let high = self.chunks.code[ip + 1];
        let low = self.chunks.code[ip + 2];
        Ok((high as usize) * 256 + (low as usize))
    }

    /// The executable landing point of a forward jump: clamped to the end of
    /// the code, which the machine treats as having stopped either way.
    fn jump_target(ip: usize, disp: usize, code_len: usize) -> (r: usize)
        requires
            ip + 3 <= code_len,
            disp <= 0xffff,
        ensures
            r == ip + 3 + disp || (r >= code_len && ip + 3 + disp >= code_len),
    {
        if disp >= code_len - (ip + 3) {
            code_len
        } else {
            ip + 3 + disp
        }
    }
}

impl VM {
    /// Compile the source and execute it: the one entry the driver calls.
    /// A compile failure is reported as the first collected error and leaves
    /// the machine untouched but for newly interned strings; otherwise the
    /// chunk is installed and run, and the outcome is the specification
    /// machine's, starting from the old stack, globals and output.
    pub fn interpret(&mut self, src: &str) -> (r: Result<(), VmErrors>)
        requires
            old(self).wf(),
            src@.len() < usize::MAX,
        ensures
            final(self).wf(),
            r matches Err(VmErrors::CompileError(_)) ==> final(self).stack == old(self).stack
                && final(self).globals == old(self).globals && final(self).output == old(
                self,
            ).output && final(self).chunks == old(self).chunks,
            !(r matches Err(VmErrors::CompileError(_))) ==> exists|n: nat, init: StateS|
                #![trigger steps(init, n)]
                {
                    &&& init.code == final(self).chunks.code@
                    &&& init.consts == final(self).chunks.constants@
                    &&& init.ip == 0
                    &&& init.stack == old(self).stack@
                    &&& init.globals == old(self).globals@
                    &&& init.output == out_view(old(self).output@)
                    &&& init.code.len() > 0
                    &&& init.code.last() == crate::opcode::opcode_byte(OpCode::Return)
                    &&& match r {
                        Ok(()) => (steps(init, n) matches StepS::Done(t) && final(self).observes(
                            t,
                        )) || (n == u64::MAX && (steps(init, n) matches StepS::Next(t) && final(self).observes(t))),
                        Err(VmErrors::RuntimeError(e)) => steps(init, n) matches StepS::Fail(
                            t,
                            es,
                        ) && es == e@ && final(self).observes(t),
                        Err(VmErrors::CompileError(_)) => false,
                    }
                },
    {
        let mut interns = Interns::new();
        core::mem::swap(&mut self.strings, &mut interns);
        let mut cc = Compiler::new(src, interns);
        let r = cc.compile();
        self.strings = cc.strings;
        match r {
            Err(e) => Err(VmErrors::CompileError(e)),
            Ok(()) => {
                self.chunks = cc.compiling_chunk;
                proof {
                    assert forall|i: int| 0 <= i < self.stack@.len() implies valid_value(
                        #[trigger] self.stack@[i],
                        self.strings.contents().len() as int,
                    ) by {
                        assert(valid_value(
                            old(self).stack@[i],
                            old(self).strings.contents().len() as int,
                        ));
                    }
                    assert forall|i: int| 0 <= i < self.globals@.len() implies (
                    #[trigger] self.globals@[i]).0 < self.strings.contents().len() && valid_value(
                        self.globals@[i].1,
                        self.strings.contents().len() as int,
                    ) by {
                        assert((old(self).globals@[i]).0 < old(self).strings.contents().len()
                            && valid_value(
                            old(self).globals@[i].1,
                            old(self).strings.contents().len() as int,
                        ));
                    }
                }
                self.run(u64::MAX)
            },
        }
    }
}

/// Intern a piece of text into the machine's string table, handing back the
/// canonical index its string values carry.
pub fn create_string(vm: &mut VM, text: &str) -> (i: usize)
    requires
        old(vm).wf(),
    ensures
        final(vm).wf(),
        final(vm).stack == old(vm).stack,
        final(vm).globals == old(vm).globals,
        final(vm).chunks == old(vm).chunks,
        final(vm).output == old(vm).output,
        i < final(vm).strings.contents().len(),
        final(vm).strings.contents()[i as int] == text@,
        match find_text(old(vm).strings.contents(), text@) {
            Some(j) => final(vm).strings == old(vm).strings && i == j,
            None => final(vm).strings.contents() =~= old(vm).strings.contents().push(text@) && i
                == old(vm).strings.contents().len(),
        },
{
    let i = vm.strings.intern(text);
    proof {
        let m = vm.strings.contents().len() as int;
        assert forall|k: int| 0 <= k < vm.stack@.len() implies valid_value(
            #[trigger] vm.stack@[k],
            m,
        ) by {
            assert(valid_value(old(vm).stack@[k], old(vm).strings.contents().len() as int));
        }
        assert forall|k: int| 0 <= k < vm.globals@.len() implies (#[trigger] vm.globals@[k]).0 < m
            && valid_value(vm.globals@[k].1, m) by {
            assert((old(vm).globals@[k]).0 < old(vm).strings.contents().len() && valid_value(
                old(vm).globals@[k].1,
                old(vm).strings.contents().len() as int,
            ));
        }
        assert forall|k: int| 0 <= k < vm.chunks.constants@.len() implies valid_value(
            #[trigger] vm.chunks.constants@[k],
            m,
        ) by {
            assert(valid_value(
                old(vm).chunks.constants@[k],
                old(vm).strings.contents().len() as int,
            ));
        }
    }
    i
}

} // verus!
