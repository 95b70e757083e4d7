use crate::error::CompileErrors;
use crate::scanner::{spec_scan, ScanStep, Scanner};
use crate::token::{TType, Token};
use vstd::prelude::*;

verus! {

/// The two token kinds the lexer uses to report trouble.
pub open spec fn is_error_kind(tt: TType) -> bool {
    tt is UnexpectedCharacterError || tt is UnterminatedStringError
}

/// A token never moves the scanner backwards, never leaves the text, and
/// only the end-of-input token stands still.
pub proof fn lemma_spec_scan(s: Seq<char>, pos: int, line: int)
    requires
        0 <= pos <= s.len(),
        0 <= line,
    ensures
        ({
            let st = spec_scan(s, pos, line);
            &&& pos <= st.start <= st.end <= s.len()
            &&& (st.ttype != TType::Eof ==> st.start < st.end)
            &&& (st.ttype == TType::Eof ==> st.end == s.len())
            &&& (st.ttype == TType::String ==> st.end >= st.start + 2)
            &&& line <= st.line
        }),
{
    crate::scanner::lemma_skip_ws(s, pos, line);
    let (i, l) = crate::scanner::skip_ws(s, pos, line);
    if i < s.len() {
        let c = s[i];
        if crate::scanner::is_ident_start_char(c) {
            crate::scanner::lemma_scan_while(s, i + 1, |ch: char| crate::scanner::is_ident_char(ch));
        } else if crate::scanner::is_digit_char(c) {
            crate::scanner::lemma_scan_while(s, i + 1, |ch: char| crate::scanner::is_digit_char(ch));
            let d = crate::scanner::digits_end(s, i + 1);
            if d + 1 < s.len() && s[d] == '.' && crate::scanner::is_digit_char(s[d + 1]) {
                crate::scanner::lemma_scan_while(s, d + 2, |ch: char| crate::scanner::is_digit_char(ch));
            }
        } else if c == '"' {
            crate::scanner::lemma_string_scan(s, i + 1, l);
        }
    }
}

/// The next token that is not a lexer error, skipping and leaving behind the
/// error tokens before it.
pub open spec fn next_real(s: Seq<char>, pos: int, line: int) -> ScanStep
    decreases s.len() - pos,
    when 0 <= pos <= s.len() && 0 <= line
    via next_real_decreases
{
    let st = spec_scan(s, pos, line);
    if is_error_kind(st.ttype) {
        next_real(s, st.end, st.line)
    } else {
        st
    }
}

#[via_fn]
proof fn next_real_decreases(s: Seq<char>, pos: int, line: int) {
    lemma_spec_scan(s, pos, line);
}

pub proof fn lemma_next_real(s: Seq<char>, pos: int, line: int)
    requires
        0 <= pos <= s.len(),
        0 <= line,
    ensures
        ({
            let nr = next_real(s, pos, line);
            &&& pos <= nr.start <= nr.end <= s.len()
            &&& (nr.ttype != TType::Eof ==> nr.start < nr.end)
            &&& (nr.ttype == TType::Eof ==> nr.end == s.len())
            &&& (nr.ttype == TType::String ==> nr.end >= nr.start + 2)
            &&& !is_error_kind(nr.ttype)
            &&& line <= nr.line
        }),
    decreases s.len() - pos,
{
    lemma_spec_scan(s, pos, line);
    let st = spec_scan(s, pos, line);
    if is_error_kind(st.ttype) {
        lemma_next_real(s, st.end, st.line);
    }
}

/// One more report was collected, and it is exactly this one: the error
/// value and wording are pinned, the flags are raised, and everything
/// gathered before is kept.
pub open spec fn reports<'a>(
    pre: Parser<'a>,
    post: Parser<'a>,
    e: CompileErrors,
    note: Seq<char>,
) -> bool {
    &&& post.had_error
    &&& post.panic_mode
    &&& post.diagnostics@.len() == pre.diagnostics@.len() + 1
    &&& post.diagnostics@.drop_last() == pre.diagnostics@
    &&& post.diagnostics@.last().err == e
    &&& post.diagnostics@.last().note@ == note
}

/// One collected compile report: where it happened, which error it is, and
/// the specific wording that goes with it.
#[derive(Debug)]
pub struct Diagnostic {
    pub line: usize,
    pub at_end: bool,
    pub lexeme: Option<String>,
    pub err: CompileErrors,
    pub note: &'static str,
}

/// The compile-time token cursor: the scanner, the `previous`/`current`
/// window, the error flags, and every report collected so far.
pub struct Parser<'src> {
    pub scanner: Scanner<'src>,
    pub current: Option<Token<'src>>,
    pub previous: Option<Token<'src>>,
    pub had_error: bool,
    pub panic_mode: bool,
    pub diagnostics: Vec<Diagnostic>,
}

impl<'src> Parser<'src> {
    pub open spec fn wf(self) -> bool {
        &&& self.scanner.wf()
        &&& (self.current matches Some(t) && t.ttype == TType::Eof ==> self.scanner.pos
            == self.scanner.source@.len())
        &&& (self.had_error <==> self.diagnostics@.len() > 0)
        &&& (self.panic_mode ==> self.had_error)
        &&& (self.current matches Some(t) ==> ((t.ttype != TType::Eof ==> t.lexeme is Some) && (
        t.ttype == TType::String ==> (t.lexeme matches Some(l) && l@.len() >= 2))))
        &&& (self.previous matches Some(t) ==> ((t.ttype != TType::Eof ==> t.lexeme is Some) && (
        t.ttype == TType::String ==> (t.lexeme matches Some(l) && l@.len() >= 2))))
    }

    /// How much input is left to parse: the unread characters, plus one for
    /// a buffered token that is not end-of-input. Every parsing step is
    /// measured by this.
    pub open spec fn toks(self) -> int {
        self.scanner.source@.len() - self.scanner.pos + if self.current matches Some(t)
            && t.ttype != TType::Eof {
            1int
        } else {
            0int
        }
    }

    pub fn new(source: &'src str) -> (r: Parser<'src>)
        requires
            source@.len() < usize::MAX,
        ensures
            r.wf(),
            r.scanner.source == source,
            r.scanner.pos == 0,
            r.scanner.line == 1,
            r.current is None,
            r.previous is None,
            !r.had_error,
            !r.panic_mode,
            r.diagnostics@.len() == 0,
    {
        Parser {
            scanner: Scanner::new(source),
            previous: None,
            current: None,
            had_error: false,
            panic_mode: false,
            diagnostics: Vec::new(),
        }
    }

    /// Whether the current token has the given kind.
    pub fn check(&self, tt: TType) -> (r: bool)
        ensures
            r == (self.current matches Some(t) && t.ttype == tt),
    {
        match &self.current {
            Some(t) => t.ttype == tt,
            None => false,
        }
    }

    /// Record a report at the current token, unless the parser is already in
    /// panic mode; entering panic mode suppresses further reports until the
    /// next synchronisation point.
    pub fn error_at(&mut self, err: CompileErrors, note: &'static str)
        ensures
            final(self).scanner == old(self).scanner,
            final(self).current == old(self).current,
            final(self).previous == old(self).previous,
            old(self).panic_mode ==> *final(self) == *old(self),
            !old(self).panic_mode ==> match old(self).current {
                Some(t) => {
                    &&& final(self).had_error
                    &&& final(self).panic_mode
                    &&& final(self).diagnostics@.len() == old(self).diagnostics@.len() + 1
                    &&& ({
                        let d = final(self).diagnostics@.last();
                        &&& final(self).diagnostics@.drop_last() == old(self).diagnostics@
                        &&& d.line == t.line
                        &&& d.at_end == (t.ttype == TType::Eof)
                        &&& d.err == err
                        &&& d.note == note
                        &&& match t.lexeme {
                            Some(l) => d.lexeme matches Some(dl) && dl@ == l@,
                            None => d.lexeme is None,
                        }
                    })
                },
                None => *final(self) == *old(self),
            },
    {
        if self.panic_mode {
            return ;
        }
        match &self.current {
            Some(t) => {
                let lexeme = match t.lexeme {
                    Some(l) => Some(l.to_owned()),
                    None => None,
                };
                let d = Diagnostic {
                    line: t.line,
                    at_end: t.ttype == TType::Eof,
                    lexeme,
                    err,
                    note,
                };
                self.had_error = true;
                self.panic_mode = true;
                self.diagnostics.push(d);
                proof {
                    assert(self.diagnostics@.drop_last() == old(self).diagnostics@);
                }
            },
            None => {},
        }
    }

    /// Shift the token window one real token forward: `current` becomes
    /// `previous`, and the scanner runs until it yields a token that is not
    /// a lexer error, reporting the first error token it skipped.
    pub fn advance(&mut self)
        requires
            old(self).wf(),
        ensures
            final(self).wf(),
            final(self).scanner.source == old(self).scanner.source,
            final(self).previous == old(self).current,
            final(self).toks() <= old(self).toks(),
            old(self).current matches Some(t) && t.ttype != TType::Eof ==> final(self).toks()
                < old(self).toks(),
            old(self).diagnostics@.is_prefix_of(final(self).diagnostics@),
            old(self).had_error ==> final(self).had_error,
            old(self).panic_mode == final(self).panic_mode || final(self).panic_mode,
            final(self).panic_mode ==> old(self).panic_mode || final(self).diagnostics@.len()
                > old(self).diagnostics@.len(),
            ({
                let nr = next_real(
                    old(self).scanner.source@,
                    old(self).scanner.pos as int,
                    old(self).scanner.line as int,
                );
                &&& final(self).scanner.pos == nr.end
                &&& final(self).scanner.line == nr.line
                &&& final(self).current matches Some(t) && t.ttype == nr.ttype && t.line == nr.line
                    && (nr.ttype != TType::Eof ==> (t.lexeme matches Some(l) && l@
                    == old(self).scanner.source@.subrange(nr.start, nr.end))) && (nr.ttype
                    == TType::Eof ==> t.lexeme is None)
            }),
    {
        proof {
            lemma_next_real(
                old(self).scanner.source@,
                old(self).scanner.pos as int,
                old(self).scanner.line as int,
            );
        }
        self.previous = self.current;
        loop
            invariant_except_break
                next_real(self.scanner.source@, self.scanner.pos as int, self.scanner.line as int)
                    == next_real(
                    old(self).scanner.source@,
                    old(self).scanner.pos as int,
                    old(self).scanner.line as int,
                ),
            invariant
                self.scanner.wf(),
                self.scanner.source == old(self).scanner.source,
                self.previous == old(self).current,
                old(self).scanner.pos <= self.scanner.pos,
                old(self).diagnostics@.is_prefix_of(self.diagnostics@),
                self.had_error <==> self.diagnostics@.len() > 0,
                self.panic_mode ==> self.had_error,
                old(self).had_error ==> self.had_error,
                old(self).panic_mode ==> self.panic_mode,
                self.panic_mode ==> old(self).panic_mode || self.diagnostics@.len() > old(
                    self,
                ).diagnostics@.len(),
            ensures
                self.scanner.wf(),
                self.scanner.source == old(self).scanner.source,
                self.previous == old(self).current,
                old(self).diagnostics@.is_prefix_of(self.diagnostics@),
                self.had_error <==> self.diagnostics@.len() > 0,
                self.panic_mode ==> self.had_error,
                old(self).had_error ==> self.had_error,
                old(self).panic_mode ==> self.panic_mode,
                self.panic_mode ==> old(self).panic_mode || self.diagnostics@.len() > old(
                    self,
                ).diagnostics@.len(),
                ({
                    let nr = next_real(
                        old(self).scanner.source@,
                        old(self).scanner.pos as int,
                        old(self).scanner.line as int,
                    );
                    &&& self.scanner.pos == nr.end
                    &&& self.scanner.line == nr.line
                    &&& self.current matches Some(t) && t.ttype == nr.ttype && t.line == nr.line
                        && (nr.ttype != TType::Eof ==> (t.lexeme matches Some(l) && l@
                        == old(self).scanner.source@.subrange(nr.start, nr.end))) && (nr.ttype
                        == TType::Eof ==> t.lexeme is None)
                }),
            decreases self.scanner.source@.len() - self.scanner.pos,
        {
            proof {
                lemma_spec_scan(
                    self.scanner.source@,
                    self.scanner.pos as int,
                    self.scanner.line as int,
                );
            }
            let token = self.scanner.scan_token();
            let error = token.ttype.error_message();
            self.current = Some(token);
            match error {
                Some(e) => {
                    self.error_at(CompileErrors::ParseError, e);
                },
                None => {
                    break ;
                },
            }
        }
    }

    /// Whether the current token has the given kind; when it does, consume
    /// it.
    pub fn match_token(&mut self, tt: TType) -> (r: bool)
        requires
            old(self).wf(),
        ensures
            final(self).wf(),
            final(self).scanner.source == old(self).scanner.source,
            final(self).toks() <= old(self).toks(),
            old(self).diagnostics@.is_prefix_of(final(self).diagnostics@),
            old(self).had_error ==> final(self).had_error,
            r == (old(self).current matches Some(t) && t.ttype == tt),
            !r ==> *final(self) == *old(self),
            r ==> final(self).previous == old(self).current,
            r && tt != TType::Eof ==> final(self).toks() < old(self).toks(),
            r ==> (final(self).current matches Some(t) && !is_error_kind(t.ttype)),
    {
        if !self.check(tt) {
            return false;
        }
        self.advance();
        proof {
            lemma_next_real(
                old(self).scanner.source@,
                old(self).scanner.pos as int,
                old(self).scanner.line as int,
            );
        }
        true
    }

    /// Demand a token of the given kind: consume it when it is there, report
    /// the given wording at the current token otherwise.
    pub fn consume(&mut self, tt: TType, note: &'static str)
        requires
            old(self).wf(),
        ensures
            final(self).wf(),
            final(self).scanner.source == old(self).scanner.source,
            final(self).toks() <= old(self).toks(),
            old(self).diagnostics@.is_prefix_of(final(self).diagnostics@),
            old(self).had_error ==> final(self).had_error,
            old(self).current is Some ==> final(self).current is Some,
            old(self).current matches Some(t) && t.ttype == tt ==> final(self).previous
                == old(self).current && (tt != TType::Eof ==> final(self).toks() < old(self).toks()),
            !(old(self).current matches Some(t) && t.ttype == tt) ==> final(self).scanner
                == old(self).scanner && final(self).current == old(self).current
                && final(self).previous == old(self).previous && (old(self).panic_mode
                ==> *final(self) == *old(self)) && (!old(self).panic_mode && old(self).current
                is Some ==> reports(*old(self), *final(self), CompileErrors::ParseError, note@)),
    {
        if self.check(tt) {
            self.advance();
            return ;
        }
        let ghost pre = *self;
        self.error_at(CompileErrors::ParseError, note);
        proof {
            if pre.panic_mode {
                assert(*self == pre);
            }
            assert(self.diagnostics@.len() >= pre.diagnostics@.len());
            assert(pre.diagnostics@.is_prefix_of(self.diagnostics@)) by {
                if !pre.panic_mode && pre.current is Some {
                    assert(self.diagnostics@.drop_last() == pre.diagnostics@);
                }
            }
        }
    }
}

// ---------------------------------------------------------------------------
// Precedence and the Pratt rule table
// ---------------------------------------------------------------------------
/// Binding powers, weakest first.
#[derive(Clone, Copy, Debug, PartialEq, Eq, Structural)]
pub enum Precedence {
    Lowest,
    Assignment,
    Or,
    And,
    Equality,
    Comparison,
    Term,
    Factor,
    Unary,
    Call,
    Primary,
}

/// The rank of a precedence level, for comparing binding powers.
pub open spec fn prec_level(p: Precedence) -> int {
    match p {
        Precedence::Lowest => 0,
        Precedence::Assignment => 1,
        Precedence::Or => 2,
        Precedence::And => 3,
        Precedence::Equality => 4,
        Precedence::Comparison => 5,
        Precedence::Term => 6,
        Precedence::Factor => 7,
        Precedence::Unary => 8,
        Precedence::Call => 9,
        Precedence::Primary => 10,
    }
}

impl Precedence {
    pub fn level(self) -> (n: u8)
        ensures
            n == prec_level(self),
    {
        match self {
            Precedence::Lowest => 0,
            Precedence::Assignment => 1,
            Precedence::Or => 2,
            Precedence::And => 3,
            Precedence::Equality => 4,
            Precedence::Comparison => 5,
            Precedence::Term => 6,
            Precedence::Factor => 7,
            Precedence::Unary => 8,
            Precedence::Call => 9,
            Precedence::Primary => 10,
        }
    }

    /// The next, tighter level; used for left-associative operators.
    pub fn next(self) -> (r: Precedence)
        requires
            self != Precedence::Primary,
        ensures
            prec_level(r) == prec_level(self) + 1,
    {
        match self {
            Precedence::Lowest => Precedence::Assignment,
            Precedence::Assignment => Precedence::Or,
            Precedence::Or => Precedence::And,
            Precedence::And => Precedence::Equality,
            Precedence::Equality => Precedence::Comparison,
            Precedence::Comparison => Precedence::Term,
            Precedence::Term => Precedence::Factor,
            Precedence::Factor => Precedence::Unary,
            Precedence::Unary => Precedence::Call,
            Precedence::Call => Precedence::Primary,
            Precedence::Primary => Precedence::Primary,
        }
    }
}

/// The prefix positions an expression can start from.
#[derive(Clone, Copy, Debug, PartialEq, Eq, Structural)]
pub enum PrefixRule {
    Grouping,
    Unary,
    Variable,
    StringLit,
    NumberLit,
    Literal,
}

/// The infix positions an expression can continue with.
#[derive(Clone, Copy, Debug, PartialEq, Eq, Structural)]
pub enum InfixRule {
    Binary,
    AndOp,
    OrOp,
}

/// One row of the Pratt table: how a token parses in prefix and in infix
/// position, and how tightly it binds as an operator.
#[derive(Clone, Copy, Debug, PartialEq, Eq, Structural)]
pub struct ParseRule {
    pub prefix: Option<PrefixRule>,
    pub infix: Option<InfixRule>,
    pub precedence: Precedence,
}

/// The Pratt table itself.
pub open spec fn rule_of(tt: TType) -> ParseRule {
    match tt {
        TType::LeftParen => ParseRule {
            prefix: Some(PrefixRule::Grouping),
            infix: None,
            precedence: Precedence::Lowest,
        },
        TType::Minus => ParseRule {
            prefix: Some(PrefixRule::Unary),
            infix: Some(InfixRule::Binary),
            precedence: Precedence::Term,
        },
        TType::Plus => ParseRule {
            prefix: None,
            infix: Some(InfixRule::Binary),
            precedence: Precedence::Term,
        },
        TType::Slash => ParseRule {
            prefix: None,
            infix: Some(InfixRule::Binary),
            precedence: Precedence::Factor,
        },
        TType::Star => ParseRule {
            prefix: None,
            infix: Some(InfixRule::Binary),
            precedence: Precedence::Factor,
        },
        TType::Bang => ParseRule {
            prefix: Some(PrefixRule::Unary),
            infix: None,
            precedence: Precedence::Lowest,
        },
        TType::BangEqual => ParseRule {
            prefix: None,
            infix: Some(InfixRule::Binary),
            precedence: Precedence::Equality,
        },
        TType::EqualEqual => ParseRule {
            prefix: None,
            infix: Some(InfixRule::Binary),
            precedence: Precedence::Equality,
        },
        TType::Greater => ParseRule {
            prefix: None,
            infix: Some(InfixRule::Binary),
            precedence: Precedence::Comparison,
        },
        TType::GreaterEqual => ParseRule {
            prefix: None,
            infix: Some(InfixRule::Binary),
            precedence: Precedence::Comparison,
        },
        TType::Less => ParseRule {
            prefix: None,
            infix: Some(InfixRule::Binary),
            precedence: Precedence::Comparison,
        },
        TType::LessEqual => ParseRule {
            prefix: None,
            infix: Some(InfixRule::Binary),
            precedence: Precedence::Comparison,
        },
        TType::Identifer => ParseRule {
            prefix: Some(PrefixRule::Variable),
            infix: None,
            precedence: Precedence::Lowest,
        },
        TType::String => ParseRule {
            prefix: Some(PrefixRule::StringLit),
            infix: None,
            precedence: Precedence::Lowest,
        },
        TType::Number => ParseRule {
            prefix: Some(PrefixRule::NumberLit),
            infix: None,
            precedence: Precedence::Lowest,
        },
        TType::False => ParseRule {
            prefix: Some(PrefixRule::Literal),
            infix: None,
            precedence: Precedence::Lowest,
        },
        TType::Nil => ParseRule {
            prefix: Some(PrefixRule::Literal),
            infix: None,
            precedence: Precedence::Lowest,
        },
        TType::True => ParseRule {
            prefix: Some(PrefixRule::Literal),
            infix: None,
            precedence: Precedence::Lowest,
        },
        TType::And => ParseRule {
            prefix: None,
            infix: Some(InfixRule::AndOp),
            precedence: Precedence::And,
        },
        TType::Or => ParseRule {
            prefix: None,
            infix: Some(InfixRule::OrOp),
            precedence: Precedence::Or,
        },
        _ => ParseRule { prefix: None, infix: None, precedence: Precedence::Lowest },
    }
}

/// Look a token kind up in the Pratt table.
pub fn get_rule(tt: TType) -> (r: ParseRule)
    ensures
        r == rule_of(tt),
{
    match tt {
        TType::LeftParen => ParseRule {
            prefix: Some(PrefixRule::Grouping),
            infix: None,
            precedence: Precedence::Lowest,
        },
        TType::Minus => ParseRule {
            prefix: Some(PrefixRule::Unary),
            infix: Some(InfixRule::Binary),
            precedence: Precedence::Term,
        },
        TType::Plus => ParseRule {
            prefix: None,
            infix: Some(InfixRule::Binary),
            precedence: Precedence::Term,
        },
        TType::Slash => ParseRule {
            prefix: None,
            infix: Some(InfixRule::Binary),
            precedence: Precedence::Factor,
        },
        TType::Star => ParseRule {
            prefix: None,
            infix: Some(InfixRule::Binary),
            precedence: Precedence::Factor,
        },
        TType::Bang => ParseRule {
            prefix: Some(PrefixRule::Unary),
            infix: None,
            precedence: Precedence::Lowest,
        },
        TType::BangEqual => ParseRule {
            prefix: None,
            infix: Some(InfixRule::Binary),
            precedence: Precedence::Equality,
        },
        TType::EqualEqual => ParseRule {
            prefix: None,
            infix: Some(InfixRule::Binary),
            precedence: Precedence::Equality,
        },
        TType::Greater => ParseRule {
            prefix: None,
            infix: Some(InfixRule::Binary),
            precedence: Precedence::Comparison,
        },
        TType::GreaterEqual => ParseRule {
            prefix: None,
            infix: Some(InfixRule::Binary),
            precedence: Precedence::Comparison,
        },
        TType::Less => ParseRule {
            prefix: None,
            infix: Some(InfixRule::Binary),
            precedence: Precedence::Comparison,
        },
        TType::LessEqual => ParseRule {
            prefix: None,
            infix: Some(InfixRule::Binary),
            precedence: Precedence::Comparison,
        },
        TType::Identifer => ParseRule {
            prefix: Some(PrefixRule::Variable),
            infix: None,
            precedence: Precedence::Lowest,
        },
        TType::String => ParseRule {
            prefix: Some(PrefixRule::StringLit),
            infix: None,
            precedence: Precedence::Lowest,
        },
        TType::Number => ParseRule {
            prefix: Some(PrefixRule::NumberLit),
            infix: None,
            precedence: Precedence::Lowest,
        },
        TType::False => ParseRule {
            prefix: Some(PrefixRule::Literal),
            infix: None,
            precedence: Precedence::Lowest,
        },
        TType::Nil => ParseRule {
            prefix: Some(PrefixRule::Literal),
            infix: None,
            precedence: Precedence::Lowest,
        },
        TType::True => ParseRule {
            prefix: Some(PrefixRule::Literal),
            infix: None,
            precedence: Precedence::Lowest,
        },
        TType::And => ParseRule {
            prefix: None,
            infix: Some(InfixRule::AndOp),
            precedence: Precedence::And,
        },
        TType::Or => ParseRule {
            prefix: None,
            infix: Some(InfixRule::OrOp),
            precedence: Precedence::Or,
        },
        _ => ParseRule { prefix: None, infix: None, precedence: Precedence::Lowest },
    }
}

} // verus!
