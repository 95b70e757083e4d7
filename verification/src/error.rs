use vstd::prelude::*;

verus! {

/// Errors the compiler can report. They are collected while compilation goes
/// on, so one pass can surface several of them.
#[derive(Clone, Copy, Debug, PartialEq, Eq, Structural)]
pub enum CompileErrors {
    TooManyConstants,
    TooManyLocals,
    DuplicateName,
    UninitializedLocal,
    ParseError,
    TooFarToLoop,
    TooMuchToJump,
    InvalidPrecedence,
}

impl CompileErrors {
    pub fn message(&self) -> (m: &'static str)
        ensures
            m@ == self.message_spec(),
    {
        match self {
            Self::TooManyConstants => "Too many constants in one chunk. Chunk overloaded.",
            Self::TooManyLocals => "Too many local variables in function",
            Self::DuplicateName => "Already a variable in scope with this name.",
            Self::UninitializedLocal => "Local hasn't been initialized yet.",
            Self::ParseError => "Parse Error.",
            Self::TooFarToLoop => "Loop body too large.",
            Self::TooMuchToJump => "Too much code to jump over.",
            Self::InvalidPrecedence => "Cannot convert to a higher precedence",
        }
    }

    pub open spec fn message_spec(self) -> Seq<char> {
        match self {
            Self::TooManyConstants => "Too many constants in one chunk. Chunk overloaded."@,
            Self::TooManyLocals => "Too many local variables in function"@,
            Self::DuplicateName => "Already a variable in scope with this name."@,
            Self::UninitializedLocal => "Local hasn't been initialized yet."@,
            Self::ParseError => "Parse Error."@,
            Self::TooFarToLoop => "Loop body too large."@,
            Self::TooMuchToJump => "Too much code to jump over."@,
            Self::InvalidPrecedence => "Cannot convert to a higher precedence"@,
        }
    }
}

/// Errors that halt the virtual machine. The text fields carry renderings of
/// the offending values.
#[derive(Clone, Debug, PartialEq)]
pub enum RuntimeErrors {
    InvalidOpcode,
    StackUnderflow,
    TypeError(&'static str, String),
    InvalidAddition(String, String),
    UndefinedVariable(String),
}

/// The mathematical shape of a runtime error: the same variants over
/// character sequences.
pub ghost enum RuntimeErrorsSpec {
    InvalidOpcode,
    StackUnderflow,
    TypeError(Seq<char>, Seq<char>),
    InvalidAddition(Seq<char>, Seq<char>),
    UndefinedVariable(Seq<char>),
}

impl View for RuntimeErrors {
    type V = RuntimeErrorsSpec;

    open spec fn view(&self) -> RuntimeErrorsSpec {
        match self {
            RuntimeErrors::InvalidOpcode => RuntimeErrorsSpec::InvalidOpcode,
            RuntimeErrors::StackUnderflow => RuntimeErrorsSpec::StackUnderflow,
            RuntimeErrors::TypeError(t, v) => RuntimeErrorsSpec::TypeError(t@, v@),
            RuntimeErrors::InvalidAddition(a, b) => RuntimeErrorsSpec::InvalidAddition(a@, b@),
            RuntimeErrors::UndefinedVariable(n) => RuntimeErrorsSpec::UndefinedVariable(n@),
        }
    }
}

/// The two error families `interpret` can end with.
#[derive(Clone, Debug, PartialEq)]
pub enum VmErrors {
    CompileError(CompileErrors),
    RuntimeError(RuntimeErrors),
}

} // verus!
