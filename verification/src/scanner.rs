use crate::text::str_eq;
use crate::token::{TType, Token};
use vstd::prelude::*;

verus! {

// ---------------------------------------------------------------------------
// Character classes
// ---------------------------------------------------------------------------
pub open spec fn is_space_char(c: char) -> bool {
    c == ' ' || c == '\t' || c == '\r'
}

pub open spec fn is_digit_char(c: char) -> bool {
    '0' <= c && c <= '9'
}

pub open spec fn is_ident_start_char(c: char) -> bool {
    ('a' <= c && c <= 'z') || ('A' <= c && c <= 'Z') || c == '_'
}

pub open spec fn is_ident_char(c: char) -> bool {
    is_ident_start_char(c) || is_digit_char(c)
}

/// Whether an optional character starts an identifier or keyword.
pub fn is_identifier(c: &Option<char>) -> (r: bool)
    ensures
        r == match c {
            Some(c) => is_ident_start_char(*c),
            None => false,
        },
{
    match c {
        Some(c) => ('a' <= *c && *c <= 'z') || ('A' <= *c && *c <= 'Z') || *c == '_',
        None => false,
    }
}

/// Whether an optional character is an ASCII digit.
pub fn is_digit(c: &Option<char>) -> (r: bool)
    ensures
        r == match c {
            Some(c) => is_digit_char(*c),
            None => false,
        },
{
    match c {
        Some(c) => '0' <= *c && *c <= '9',
        None => false,
    }
}

// ---------------------------------------------------------------------------
// The specification tokenizer
// ---------------------------------------------------------------------------
/// The position where a run of characters satisfying `f` ends.
pub open spec fn scan_while(s: Seq<char>, i: int, f: spec_fn(char) -> bool) -> int
    decreases s.len() - i,
    when 0 <= i <= s.len()
{
    if i < s.len() && f(s[i]) {
        scan_while(s, i + 1, f)
    } else {
        i
    }
}

/// `scan_while` stays inside the text and stops exactly at the first
/// character that fails `f`.
pub proof fn lemma_scan_while(s: Seq<char>, i: int, f: spec_fn(char) -> bool)
    requires
        0 <= i <= s.len(),
    ensures
        i <= scan_while(s, i, f) <= s.len(),
        forall|k: int| i <= k < scan_while(s, i, f) ==> f(s[k]),
        scan_while(s, i, f) < s.len() ==> !f(s[scan_while(s, i, f)]),
    decreases s.len() - i,
{
    if i < s.len() && f(s[i]) {
        lemma_scan_while(s, i + 1, f);
    }
}

pub open spec fn ident_end(s: Seq<char>, i: int) -> int {
    scan_while(s, i, |c: char| is_ident_char(c))
}

pub open spec fn digits_end(s: Seq<char>, i: int) -> int {
    scan_while(s, i, |c: char| is_digit_char(c))
}

pub open spec fn comment_end(s: Seq<char>, i: int) -> int {
    scan_while(s, i, |c: char| c != '\n')
}

/// Where a number token ends: the integer digits, then one fractional part
/// only when a digit follows the dot.
pub open spec fn number_end(s: Seq<char>, i: int) -> int {
    let d = digits_end(s, i);
    if d + 1 < s.len() && s[d] == '.' && is_digit_char(s[d + 1]) {
        digits_end(s, d + 2)
    } else {
        d
    }
}

/// Where skipping blanks, newlines and `//` comments lands: the next
/// significant position and the line it is on.
pub open spec fn skip_ws(s: Seq<char>, i: int, line: int) -> (int, int)
    decreases s.len() - i,
    when 0 <= i <= s.len()
    via skip_ws_decreases
{
    if i < s.len() {
        let c = s[i];
        if is_space_char(c) {
            skip_ws(s, i + 1, line)
        } else if c == '\n' {
            skip_ws(s, i + 1, line + 1)
        } else if c == '/' && i + 1 < s.len() && s[i + 1] == '/' {
            skip_ws(s, comment_end(s, i + 2), line)
        } else {
            (i, line)
        }
    } else {
        (i, line)
    }
}

#[via_fn]
proof fn skip_ws_decreases(s: Seq<char>, i: int, line: int) {
    if 0 <= i < s.len() && s[i] == '/' && i + 1 < s.len() && s[i + 1] == '/' {
        lemma_scan_while(s, i + 2, |c: char| c != '\n');
    }
}

/// Skipping never moves backwards, never leaves the text, and counts a line
/// for each newline passed.
pub proof fn lemma_skip_ws(s: Seq<char>, i: int, line: int)
    requires
        0 <= i <= s.len(),
    ensures
        i <= skip_ws(s, i, line).0 <= s.len(),
        line <= skip_ws(s, i, line).1 <= line + (skip_ws(s, i, line).0 - i),
    decreases s.len() - i,
{
    if i < s.len() {
        let c = s[i];
        if is_space_char(c) {
            lemma_skip_ws(s, i + 1, line);
        } else if c == '\n' {
            lemma_skip_ws(s, i + 1, line + 1);
        } else if c == '/' && i + 1 < s.len() && s[i + 1] == '/' {
            lemma_scan_while(s, i + 2, |c: char| c != '\n');
            lemma_skip_ws(s, comment_end(s, i + 2), line);
        }
    }
}

/// Where a string literal body ends: the position after the closing quote,
/// the line reached, and whether the quote was found before the text ran out.
pub open spec fn string_scan(s: Seq<char>, i: int, line: int) -> (int, int, bool)
    decreases s.len() - i,
    when 0 <= i <= s.len()
{
    if i >= s.len() {
        (i, line, false)
    } else if s[i] == '"' {
        (i + 1, line, true)
    } else if s[i] == '\n' {
        string_scan(s, i + 1, line + 1)
    } else {
        string_scan(s, i + 1, line)
    }
}

pub proof fn lemma_string_scan(s: Seq<char>, i: int, line: int)
    requires
        0 <= i <= s.len(),
    ensures
        i <= string_scan(s, i, line).0 <= s.len(),
        line <= string_scan(s, i, line).1 <= line + (string_scan(s, i, line).0 - i),
        string_scan(s, i, line).2 ==> string_scan(s, i, line).0 >= i + 1,
    decreases s.len() - i,
{
    if i < s.len() && s[i] != '"' {
        if s[i] == '\n' {
            lemma_string_scan(s, i + 1, line + 1);
        } else {
            lemma_string_scan(s, i + 1, line);
        }
    }
}

/// The keyword a word spells, or a plain identifier.
pub open spec fn keyword_or_ident(w: Seq<char>) -> TType {
    if w == "and"@ {
        TType::And
    } else if w == "class"@ {
        TType::Class
    } else if w == "else"@ {
        TType::Else
    } else if w == "false"@ {
        TType::False
    } else if w == "for"@ {
        TType::For
    } else if w == "fun"@ {
        TType::Fun
    } else if w == "if"@ {
        TType::If
    } else if w == "nil"@ {
        TType::Nil
    } else if w == "or"@ {
        TType::Or
    } else if w == "print"@ {
        TType::Print
    } else if w == "return"@ {
        TType::Return
    } else if w == "super"@ {
        TType::Super
    } else if w == "this"@ {
        TType::This
    } else if w == "true"@ {
        TType::True
    } else if w == "var"@ {
        TType::Var
    } else if w == "while"@ {
        TType::While
    } else {
        TType::Identifer
    }
}

/// One token of the specification tokenizer: its kind, the character range
/// of its lexeme, and the line it ends on.
pub ghost struct ScanStep {
    pub ttype: TType,
    pub start: int,
    pub end: int,
    pub line: int,
}

/// What a one- or two-character operator or punctuation mark scans to:
/// its kind and its end position.
pub open spec fn punct_step(s: Seq<char>, i: int) -> (TType, int) {
    let c = s[i];
    if c == '(' {
        (TType::LeftParen, i + 1)
    } else if c == ')' {
        (TType::RightParen, i + 1)
    } else if c == '{' {
        (TType::LeftBrace, i + 1)
    } else if c == '}' {
        (TType::RightBrace, i + 1)
    } else if c == ';' {
        (TType::SemiColon, i + 1)
    } else if c == ',' {
        (TType::Comma, i + 1)
    } else if c == '.' {
        (TType::Dot, i + 1)
    } else if c == '+' {
        (TType::Plus, i + 1)
    } else if c == '-' {
        (TType::Minus, i + 1)
    } else if c == '/' {
        (TType::Slash, i + 1)
    } else if c == '*' {
        (TType::Star, i + 1)
    } else if c == '!' {
        if i + 1 < s.len() && s[i + 1] == '=' {
            (TType::BangEqual, i + 2)
        } else {
            (TType::Bang, i + 1)
        }
    } else if c == '=' {
        if i + 1 < s.len() && s[i + 1] == '=' {
            (TType::EqualEqual, i + 2)
        } else {
            (TType::Equal, i + 1)
        }
    } else if c == '<' {
        if i + 1 < s.len() && s[i + 1] == '=' {
            (TType::LessEqual, i + 2)
        } else {
            (TType::Less, i + 1)
        }
    } else if c == '>' {
        if i + 1 < s.len() && s[i + 1] == '=' {
            (TType::GreaterEqual, i + 2)
        } else {
            (TType::Greater, i + 1)
        }
    } else {
        (TType::UnexpectedCharacterError, i + 1)
    }
}

/// The specification tokenizer: what one call of `scan_token` does from
/// position `pos` on line `line`.
pub open spec fn spec_scan(s: Seq<char>, pos: int, line: int) -> ScanStep {
    let (i, l) = skip_ws(s, pos, line);
    if i >= s.len() {
        ScanStep { ttype: TType::Eof, start: s.len() as int, end: s.len() as int, line: l }
    } else {
        let c = s[i];
        if is_ident_start_char(c) {
            let e = ident_end(s, i + 1);
            ScanStep { ttype: keyword_or_ident(s.subrange(i, e)), start: i, end: e, line: l }
        } else if is_digit_char(c) {
            ScanStep { ttype: TType::Number, start: i, end: number_end(s, i + 1), line: l }
        } else if c == '"' {
            let (e, l2, closed) = string_scan(s, i + 1, l);
            ScanStep {
                ttype: if closed {
                    TType::String
                } else {
                    TType::UnterminatedStringError
                },
                start: i,
                end: e,
                line: l2,
            }
        } else {
            let (tt, e) = punct_step(s, i);
            ScanStep { ttype: tt, start: i, end: e, line: l }
        }
    }
}

// ---------------------------------------------------------------------------
// The executable scanner
// ---------------------------------------------------------------------------
/// A cursor over the source text. `pos` and `token_start` count characters;
/// `len` caches the character length of the source.
pub struct Scanner<'a> {
    pub source: &'a str,
    pub token_start: usize,
    pub pos: usize,
    pub line: usize,
    pub len: usize,
}

impl<'a> Scanner<'a> {
    pub open spec fn wf(self) -> bool {
        &&& self.len == self.source@.len()
        &&& self.source@.len() < usize::MAX
        &&& self.token_start <= self.pos <= self.len
        &&& 1 <= self.line <= 1 + self.pos
    }

    pub fn new(source: &'a str) -> (r: Scanner<'a>)
        requires
            source@.len() < usize::MAX,
        ensures
            r.wf(),
            r.source == source,
            r.pos == 0,
            r.token_start == 0,
            r.line == 1,
    {
        let len = source.unicode_len();
        Scanner { source, token_start: 0, pos: 0, line: 1, len }
    }

    /// The character under the cursor, if any.
    fn peek(&self) -> (c: Option<char>)
        requires
            self.wf(),
        ensures
            c == if self.pos < self.source@.len() {
                Some(self.source@[self.pos as int])
            } else {
                None::<char>
            },
    {
        if self.pos < self.len {
            Some(self.source.get_char(self.pos))
        } else {
            None
        }
    }

    /// The character one past the cursor, if any.
    fn peek_next(&self) -> (c: Option<char>)
        requires
            self.wf(),
        ensures
            c == if self.pos + 1 < self.source@.len() {
                Some(self.source@[self.pos + 1])
            } else {
                None::<char>
            },
    {
        if self.pos < self.len && self.pos + 1 < self.len {
            Some(self.source.get_char(self.pos + 1))
        } else {
            None
        }
    }

    /// Consume and return the character under the cursor.
    fn advance(&mut self) -> (c: Option<char>)
        requires
            old(self).wf(),
        ensures
            final(self).wf(),
            final(self).source == old(self).source,
            final(self).token_start == old(self).token_start,
            final(self).line == old(self).line,
            c == if old(self).pos < old(self).source@.len() {
                Some(old(self).source@[old(self).pos as int])
            } else {
                None::<char>
            },
            final(self).pos == if old(self).pos < old(self).source@.len() {
                old(self).pos + 1
            } else {
                old(self).pos as int
            },
    {
        if self.pos < self.len {
            let c = self.source.get_char(self.pos);
            self.pos = self.pos + 1;
            Some(c)
        } else {
            None
        }
    }

    /// Consume the character under the cursor when it is the expected one.
    fn match_char(&mut self, expected: char) -> (r: bool)
        requires
            old(self).wf(),
        ensures
            final(self).wf(),
            final(self).source == old(self).source,
            final(self).token_start == old(self).token_start,
            final(self).line == old(self).line,
            r == (old(self).pos < old(self).source@.len() && old(self).source@[old(self).pos as int]
                == expected),
            final(self).pos == if r {
                old(self).pos + 1
            } else {
                old(self).pos as int
            },
    {
        if self.pos < self.len && self.source.get_char(self.pos) == expected {
            self.pos = self.pos + 1;
            true
        } else {
            false
        }
    }

    /// The cursor position the current lexeme ends at.
    fn current(&self) -> (i: usize)
        ensures
            i == self.pos,
    {
        self.pos
    }

    /// The text between the start of the current token and the cursor.
    fn content(&self) -> (w: &'a str)
        requires
            self.wf(),
        ensures
            w@ == self.source@.subrange(self.token_start as int, self.pos as int),
    {
        self.source.substring_char(self.token_start, self.pos)
    }

    /// Wrap the current lexeme as a token ending on the current line.
    fn make_token(&self, ttype: TType) -> (t: Token<'a>)
        requires
            self.wf(),
        ensures
            t.ttype == ttype,
            t.line == self.line,
            t.lexeme matches Some(l) && l@ == self.source@.subrange(
                self.token_start as int,
                self.pos as int,
            ),
    {
        Token::new(ttype, Some(self.content()), self.line)
    }

    /// Move the cursor past blanks, newlines and `//` comments, counting
    /// lines.
    fn skip_whitespace(&mut self)
        requires
            old(self).wf(),
        ensures
            final(self).wf(),
            final(self).source == old(self).source,
            final(self).token_start == old(self).token_start,
            (final(self).pos as int, final(self).line as int) == skip_ws(
                old(self).source@,
                old(self).pos as int,
                old(self).line as int,
            ),
    {
        loop
            invariant
                self.wf(),
                self.source == old(self).source,
                self.token_start == old(self).token_start,
                skip_ws(self.source@, self.pos as int, self.line as int) == skip_ws(
                    old(self).source@,
                    old(self).pos as int,
                    old(self).line as int,
                ),
            decreases self.source@.len() - self.pos,
        {
            let c = self.peek();
            match c {
                Some(' ') | Some('\t') | Some('\r') => {
                    self.pos = self.pos + 1;
                },
                Some('\n') => {
                    self.line = self.line + 1;
                    self.pos = self.pos + 1;
                },
                Some('/') => {
                    match self.peek_next() {
                        Some('/') => {
                            self.pos = self.pos + 2;
                            let ghost entry = self.pos as int;
                            let ghost line0 = self.line;
                            loop
                                invariant
                                    self.wf(),
                                    self.source == old(self).source,
                                    self.token_start == old(self).token_start,
                                    self.line == line0,
                                    entry <= self.pos <= self.source@.len(),
                                    comment_end(self.source@, entry) == comment_end(
                                        self.source@,
                                        self.pos as int,
                                    ),
                                ensures
                                    self.pos as int == comment_end(self.source@, entry),
                                decreases self.source@.len() - self.pos,
                            {
                                let c2 = self.peek();
                                match c2 {
                                    Some('\n') => {
                                        break ;
                                    },
                                    Some(_) => {
                                        self.pos = self.pos + 1;
                                    },
                                    None => {
                                        break ;
                                    },
                                }
                            }
                            proof {
                                assert(self.pos as int == comment_end(self.source@, entry));
                            }
                        },
                        _ => {
                            return ;
                        },
                    }
                },
                _ => {
                    return ;
                },
            }
        }
    }

    /// Scan the tail of an identifier and classify the word against the
    /// keyword list.
    fn identifier(&mut self) -> (t: Token<'a>)
        requires
            old(self).wf(),
            old(self).token_start <= old(self).pos,
        ensures
            final(self).wf(),
            final(self).source == old(self).source,
            final(self).token_start == old(self).token_start,
            final(self).line == old(self).line,
            old(self).pos <= final(self).pos,
            final(self).pos as int == ident_end(old(self).source@, old(self).pos as int),
            t.ttype == keyword_or_ident(
                old(self).source@.subrange(old(self).token_start as int, final(self).pos as int),
            ),
            t.line == final(self).line,
            t.lexeme matches Some(l) && l@ == old(self).source@.subrange(
                old(self).token_start as int,
                final(self).pos as int,
            ),
    {
        loop
            invariant
                self.wf(),
                self.source == old(self).source,
                self.token_start == old(self).token_start,
                self.line == old(self).line,
                old(self).pos <= self.pos,
                ident_end(self.source@, self.pos as int) == ident_end(
                    old(self).source@,
                    old(self).pos as int,
                ),
            ensures
                self.pos as int == ident_end(old(self).source@, old(self).pos as int),
            decreases self.source@.len() - self.pos,
        {
            let c = self.peek();
            if is_identifier(&c) || is_digit(&c) {
                self.pos = self.pos + 1;
            } else {
                break ;
            }
        }
        let tt = self.identifier_type();
        self.make_token(tt)
    }

    /// Classify the current lexeme: a keyword where it spells one, an
    /// identifier otherwise.
    fn identifier_type(&self) -> (tt: TType)
        requires
            self.wf(),
        ensures
            tt == keyword_or_ident(
                self.source@.subrange(self.token_start as int, self.pos as int),
            ),
    {
        keyword_type(self.content())
    }

    /// Consume a run of digits.
    fn consume_number(&mut self)
        requires
            old(self).wf(),
        ensures
            final(self).wf(),
            final(self).source == old(self).source,
            final(self).token_start == old(self).token_start,
            final(self).line == old(self).line,
            old(self).pos <= final(self).pos,
            final(self).pos as int == digits_end(old(self).source@, old(self).pos as int),
    {
        loop
            invariant
                self.wf(),
                self.source == old(self).source,
                self.token_start == old(self).token_start,
                self.line == old(self).line,
                old(self).pos <= self.pos,
                digits_end(self.source@, self.pos as int) == digits_end(
                    old(self).source@,
                    old(self).pos as int,
                ),
            ensures
                self.pos as int == digits_end(old(self).source@, old(self).pos as int),
            decreases self.source@.len() - self.pos,
        {
            let c = self.peek();
            if is_digit(&c) {
                self.pos = self.pos + 1;
            } else {
                break ;
            }
        }
    }

    /// Scan the tail of a number: the remaining digits and one fractional
    /// part when a digit follows the dot; a bare trailing dot is left alone.
    fn number_literal(&mut self) -> (t: Token<'a>)
        requires
            old(self).wf(),
        ensures
            final(self).wf(),
            final(self).source == old(self).source,
            final(self).token_start == old(self).token_start,
            final(self).line == old(self).line,
            old(self).pos <= final(self).pos,
            final(self).pos as int == number_end(old(self).source@, old(self).pos as int),
            t.ttype == TType::Number,
            t.line == final(self).line,
            t.lexeme matches Some(l) && l@ == old(self).source@.subrange(
                old(self).token_start as int,
                final(self).pos as int,
            ),
    {
        self.consume_number();
        let c = self.peek();
        let c2 = self.peek_next();
        if matches!(c, Some('.')) && is_digit(&c2) {
            self.pos = self.pos + 1;
            self.consume_number();
        }
        self.make_token(TType::Number)
    }

    /// Scan a string literal body up to the closing quote, counting the
    /// lines it spans; text that runs out first is the unterminated-string
    /// error token.
    fn string_literal(&mut self) -> (t: Token<'a>)
        requires
            old(self).wf(),
        ensures
            final(self).wf(),
            final(self).source == old(self).source,
            final(self).token_start == old(self).token_start,
            old(self).pos <= final(self).pos,
            ({
                let (e, l2, closed) = string_scan(
                    old(self).source@,
                    old(self).pos as int,
                    old(self).line as int,
                );
                &&& final(self).pos as int == e
                &&& final(self).line as int == l2
                &&& t.ttype == if closed {
                    TType::String
                } else {
                    TType::UnterminatedStringError
                }
            }),
            t.line == final(self).line,
            t.lexeme matches Some(l) && l@ == old(self).source@.subrange(
                old(self).token_start as int,
                final(self).pos as int,
            ),
    {
        loop
            invariant
                self.wf(),
                self.source == old(self).source,
                self.token_start == old(self).token_start,
                old(self).pos <= self.pos,
                string_scan(self.source@, self.pos as int, self.line as int) == string_scan(
                    old(self).source@,
                    old(self).pos as int,
                    old(self).line as int,
                ),
            decreases self.source@.len() - self.pos,
        {
            let c = self.peek();
            match c {
                Some('"') => {
                    self.pos = self.pos + 1;
                    return self.make_token(TType::String);
                },
                Some('\n') => {
                    self.pos = self.pos + 1;
                    self.line = self.line + 1;
                },
                Some(_) => {
                    self.pos = self.pos + 1;
                },
                None => {
                    return self.make_token(TType::UnterminatedStringError);
                },
            }
        }
    }

    /// Produce the next token, exactly as the specification tokenizer says.
    pub fn scan_token(&mut self) -> (t: Token<'a>)
        requires
            old(self).wf(),
        ensures
            final(self).wf(),
            final(self).source == old(self).source,
            old(self).pos <= final(self).pos,
            ({
                let st = spec_scan(old(self).source@, old(self).pos as int, old(self).line as int);
                &&& t.ttype == st.ttype
                &&& t.line == st.line
                &&& final(self).line == st.line
                &&& final(self).pos == st.end
                &&& final(self).token_start == st.start
                &&& (t.ttype == TType::Eof ==> t.lexeme is None && final(self).pos
                    == final(self).source@.len())
                &&& (t.ttype != TType::Eof ==> final(self).pos > old(self).pos && (
                t.lexeme matches Some(l) && l@ == old(self).source@.subrange(st.start, st.end)))
            }),
    {
        proof {
            lemma_skip_ws(old(self).source@, old(self).pos as int, old(self).line as int);
        }
        self.skip_whitespace();
        self.token_start = self.pos;
        let c = self.advance();
        if is_identifier(&c) {
            proof {
                lemma_scan_while(self.source@, self.pos as int, |ch: char| is_ident_char(ch));
            }
            return self.identifier();
        }
        if is_digit(&c) {
            proof {
                lemma_scan_while(self.source@, self.pos as int, |ch: char| is_digit_char(ch));
                let d = digits_end(self.source@, self.pos as int);
                if d + 1 < self.source@.len() && self.source@[d] == '.' && is_digit_char(
                    self.source@[d + 1],
                ) {
                    lemma_scan_while(self.source@, d + 2, |ch: char| is_digit_char(ch));
                }
            }
            return self.number_literal();
        }
        match c {
            None => Token::new(TType::Eof, None, self.line),
            Some(ch) => match ch {
                '(' => self.make_token(TType::LeftParen),
                ')' => self.make_token(TType::RightParen),
                '{' => self.make_token(TType::LeftBrace),
                '}' => self.make_token(TType::RightBrace),
                ';' => self.make_token(TType::SemiColon),
                ',' => self.make_token(TType::Comma),
                '.' => self.make_token(TType::Dot),
                '+' => self.make_token(TType::Plus),
                '-' => self.make_token(TType::Minus),
                '/' => self.make_token(TType::Slash),
                '*' => self.make_token(TType::Star),
                '!' => {
                    if self.match_char('=') {
                        self.make_token(TType::BangEqual)
                    } else {
                        self.make_token(TType::Bang)
                    }
                },
                '=' => {
                    if self.match_char('=') {
                        self.make_token(TType::EqualEqual)
                    } else {
                        self.make_token(TType::Equal)
                    }
                },
                '<' => {
                    if self.match_char('=') {
                        self.make_token(TType::LessEqual)
                    } else {
                        self.make_token(TType::Less)
                    }
                },
                '>' => {
                    if self.match_char('=') {
                        self.make_token(TType::GreaterEqual)
                    } else {
                        self.make_token(TType::Greater)
                    }
                },
                '"' => {
                    proof {
                        lemma_string_scan(self.source@, self.pos as int, self.line as int);
                    }
                    self.string_literal()
                },
                _ => self.make_token(TType::UnexpectedCharacterError),
            },
        }
    }
}

/// The keyword a word spells, or a plain identifier.
pub fn keyword_type(w: &str) -> (tt: TType)
    ensures
        tt == keyword_or_ident(w@),
{
    if str_eq(w, "and") {
        TType::And
    } else if str_eq(w, "class") {
        TType::Class
    } else if str_eq(w, "else") {
        TType::Else
    } else if str_eq(w, "false") {
        TType::False
    } else if str_eq(w, "for") {
        TType::For
    } else if str_eq(w, "fun") {
        TType::Fun
    } else if str_eq(w, "if") {
        TType::If
    } else if str_eq(w, "nil") {
        TType::Nil
    } else if str_eq(w, "or") {
        TType::Or
    } else if str_eq(w, "print") {
        TType::Print
    } else if str_eq(w, "return") {
        TType::Return
    } else if str_eq(w, "super") {
        TType::Super
    } else if str_eq(w, "this") {
        TType::This
    } else if str_eq(w, "true") {
        TType::True
    } else if str_eq(w, "var") {
        TType::Var
    } else if str_eq(w, "while") {
        TType::While
    } else {
        TType::Identifer
    }
}

} // verus!
