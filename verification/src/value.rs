use crate::error::{RuntimeErrors, VmErrors};
use crate::num::{num_eq_of, num_neg, num_neg_of, num_order, num_text, num_text_of, NumOrder};
use crate::text::str_eq;
use vstd::prelude::*;

verus! {

/// A runtime value. A number carries the 64-bit encoding of an IEEE double;
/// a string carries the index of its entry in the interned-string table, so
/// content equality reduces to index equality.
#[derive(Clone, Copy, Debug, PartialEq, Eq, Structural)]
pub enum Value {
    Number(u64),
    String(usize),
    Bool(bool),
    Nil,
}

/// One interned string: the canonical owner of one piece of text.
#[derive(Debug)]
pub struct InternString(pub String);

/// The interned-string table. Each distinct text is held exactly once.
#[derive(Debug)]
pub struct Interns {
    pub table: Vec<InternString>,
}

/// The first index at which `tbl` holds `s`, if any.
pub open spec fn find_text(tbl: Seq<Seq<char>>, s: Seq<char>) -> Option<int>
    decreases tbl.len(),
{
    if tbl.len() == 0 {
        None
    } else if tbl[0] == s {
        Some(0)
    } else {
        match find_text(tbl.drop_first(), s) {
            Some(j) => Some(j + 1),
            None => None,
        }
    }
}

/// `find_text` finds the first occurrence: `Some(j)` points at a match that
/// no earlier index gives, and `None` means no index matches.
pub proof fn lemma_find_text(tbl: Seq<Seq<char>>, s: Seq<char>)
    ensures
        match find_text(tbl, s) {
            Some(j) => 0 <= j < tbl.len() && tbl[j] == s && forall|k: int|
                0 <= k < j ==> tbl[k] != s,
            None => forall|k: int| 0 <= k < tbl.len() ==> tbl[k] != s,
        },
    decreases tbl.len(),
{
    if tbl.len() > 0 && tbl[0] != s {
        lemma_find_text(tbl.drop_first(), s);
        match find_text(tbl.drop_first(), s) {
            Some(j) => {
                assert(tbl[j + 1] == tbl.drop_first()[j]);
                assert forall|k: int| 0 <= k < j + 1 implies tbl[k] != s by {
                    if k > 0 {
                        assert(tbl.drop_first()[k - 1] == tbl[k]);
                    }
                }
            },
            None => {
                assert forall|k: int| 0 <= k < tbl.len() implies tbl[k] != s by {
                    if k > 0 {
                        assert(tbl.drop_first()[k - 1] == tbl[k]);
                    }
                }
            },
        }
    }
}

/// A match with no earlier match is what `find_text` returns.
pub proof fn lemma_find_text_at(tbl: Seq<Seq<char>>, s: Seq<char>, j: int)
    requires
        0 <= j < tbl.len(),
        tbl[j] == s,
        forall|k: int| 0 <= k < j ==> tbl[k] != s,
    ensures
        find_text(tbl, s) == Some(j),
    decreases tbl.len(),
{
    if j > 0 {
        assert(forall|k: int| 0 <= k < j - 1 ==> tbl.drop_first()[k] == tbl[k + 1]);
        lemma_find_text_at(tbl.drop_first(), s, j - 1);
    }
}

/// A string value's index is in range for the given table size.
pub open spec fn valid_value(v: Value, n: int) -> bool {
    match v {
        Value::String(i) => i < n,
        _ => true,
    }
}

impl Interns {
    /// The texts the table holds, in insertion order.
    pub open spec fn contents(self) -> Seq<Seq<char>> {
        self.table@.map(|i: int, e: InternString| e.0@)
    }

    /// No text appears twice.
    pub open spec fn wf(self) -> bool {
        forall|i: int, j: int|
            0 <= i < j < self.contents().len() ==> self.contents()[i] != self.contents()[j]
    }

    pub fn new() -> (r: Interns)
        ensures
            r.wf(),
            r.contents().len() == 0,
    {
        Interns { table: Vec::new() }
    }

    /// Return the canonical index of `text`: the existing entry when the text
    /// is already interned, a fresh entry at the end otherwise.
    pub fn intern(&mut self, text: &str) -> (i: usize)
        requires
            old(self).wf(),
        ensures
            final(self).wf(),
            i < final(self).contents().len(),
            final(self).contents()[i as int] == text@,
            match find_text(old(self).contents(), text@) {
                Some(j) => *final(self) == *old(self) && i == j,
                None => final(self).contents() =~= old(self).contents().push(text@) && i
                    == old(self).contents().len(),
            },
    {
        proof {
            lemma_find_text(old(self).contents(), text@);
        }
        let n = self.table.len();
        let mut j: usize = 0;
        while j < n
            invariant
                old(self).wf(),
                n == self.table.len(),
                j <= n,
                *self == *old(self),
                forall|k: int| 0 <= k < j ==> self.contents()[k] != text@,
            decreases n - j,
        {
            if str_eq(self.table[j].0.as_str(), text) {
                proof {
                    assert(self.contents()[j as int] == self.table@[j as int].0@);
                    lemma_find_text_at(old(self).contents(), text@, j as int);
                }
                return j;
            }
            assert(self.contents()[j as int] == self.table@[j as int].0@);
            j = j + 1;
        }
        self.table.push(InternString(text.to_owned()));
        assert(final(self).contents() =~= old(self).contents().push(text@));
        n
    }

    /// A borrow of the text interned at `i`.
    pub fn get(&self, i: usize) -> (s: &String)
        requires
            i < self.contents().len(),
        ensures
            s@ == self.contents()[i as int],
    {
        &self.table[i].0
    }
}

/// Lox equality. Numbers compare by IEEE equality (a NaN equals nothing),
/// strings by interned index, booleans and nil by themselves; values of
/// different kinds are never equal.
pub open spec fn values_equal_spec(a: Value, b: Value) -> bool {
    match (a, b) {
        (Value::Number(x), Value::Number(y)) => num_eq_of(x, y),
        (Value::String(i), Value::String(j)) => i == j,
        (Value::Bool(x), Value::Bool(y)) => x == y,
        (Value::Nil, Value::Nil) => true,
        _ => false,
    }
}

/// Decide Lox equality of two values.
pub fn values_equal(a: Value, b: Value) -> (r: bool)
    ensures
        r == values_equal_spec(a, b),
{
    match (a, b) {
        (Value::Number(x), Value::Number(y)) => matches!(num_order(x, y), NumOrder::Equal),
        (Value::String(i), Value::String(j)) => i == j,
        (Value::Bool(x), Value::Bool(y)) => x == y,
        (Value::Nil, Value::Nil) => true,
        _ => false,
    }
}

/// Interning makes index equality coincide with content equality: two valid
/// string values whose texts are equal are the same entry, so Lox equality
/// returns true on every pair of string values with content-equal payloads.
pub proof fn lemma_interned_strings_equal(interns: Interns, i: usize, j: usize)
    requires
        interns.wf(),
        i < interns.contents().len(),
        j < interns.contents().len(),
        interns.contents()[i as int] == interns.contents()[j as int],
    ensures
        i == j,
        values_equal_spec(Value::String(i), Value::String(j)),
{
}

/// What a value is rendered as: the text of a string, the decimal rendering
/// of a number, the words `true`, `false` and `nil` for the rest.
pub open spec fn value_text_spec(v: Value, tbl: Seq<Seq<char>>) -> Seq<char> {
    match v {
        Value::Number(a) => num_text_of(a),
        Value::String(i) => tbl[i as int],
        Value::Bool(b) => if b {
            "true"@
        } else {
            "false"@
        },
        Value::Nil => "nil"@,
    }
}

/// Render a value for printing and for error reports.
pub fn value_text(v: Value, strings: &Interns) -> (s: String)
    requires
        valid_value(v, strings.contents().len() as int),
    ensures
        s@ == value_text_spec(v, strings.contents()),
{
    match v {
        Value::Number(a) => num_text(a),
        Value::String(i) => strings.get(i).clone(),
        Value::Bool(b) => if b {
            "true".to_owned()
        } else {
            "false".to_owned()
        },
        Value::Nil => "nil".to_owned(),
    }
}

/// Whether a value counts as false: nil and false themselves; everything
/// else, zero and the empty string included, is truthy.
pub open spec fn is_falsy_spec(v: Value) -> bool {
    v is Nil || v == Value::Bool(false)
}

impl Value {
    pub fn is_falsy(&self) -> (r: bool)
        ensures
            r == is_falsy_spec(*self),
    {
        match self {
            Value::Bool(b) => !*b,
            Value::Nil => true,
            _ => false,
        }
    }

    /// IEEE negation of a number; any other value is a type error carrying
    /// its rendering.
    pub fn negate(&self, strings: &Interns) -> (r: Result<Value, VmErrors>)
        requires
            valid_value(*self, strings.contents().len() as int),
        ensures
            self is Number <==> r is Ok,
            self is Number ==> r == Ok::<Value, VmErrors>(Value::Number(num_neg_of(self->Number_0))),
            !(self is Number) ==> (r matches Err(VmErrors::RuntimeError(e)) && e@
                == crate::error::RuntimeErrorsSpec::TypeError(
                "number"@,
                value_text_spec(*self, strings.contents()),
            )),
    {
        match self {
            Value::Number(a) => Ok(Value::Number(num_neg(*a))),
            _ => Err(
                VmErrors::RuntimeError(
                    RuntimeErrors::TypeError("number", value_text(*self, strings)),
                ),
            ),
        }
    }
}

} // verus!
