use crate::error::CompileErrors;
use crate::value::Value;
use vstd::prelude::*;

verus! {

/// The line of the greatest entry whose offset is at most `o`; zero when no
/// entry qualifies.
pub open spec fn line_lookup(lines: Seq<(usize, usize)>, o: int) -> int
    decreases lines.len(),
{
    if lines.len() == 0 {
        0
    } else if lines.last().0 <= o {
        lines.last().1 as int
    } else {
        line_lookup(lines.drop_last(), o)
    }
}

/// The run-length line table is sound for a code sequence of length `n`:
/// offsets strictly increase, stay inside the code, start at zero when there
/// is code at all, and adjacent runs carry different lines.
pub open spec fn lines_wf(lines: Seq<(usize, usize)>, n: int) -> bool {
    &&& forall|k: int| 0 <= k < lines.len() ==> (#[trigger] lines[k]).0 < n
    &&& forall|k: int| 0 <= k < lines.len() - 1 ==> (#[trigger] lines[k]).0 < lines[k + 1].0
    &&& forall|k: int| 0 <= k < lines.len() - 1 ==> (#[trigger] lines[k]).1 != lines[k + 1].1
    &&& (n > 0 ==> lines.len() > 0 && lines[0].0 == 0)
}

/// A compiled unit: the instruction stream, its constant pool, and the
/// run-length-compressed line table. The ghost `byte_lines` records the
/// source line each byte was written with; well-formedness says the table
/// recovers exactly that record.
pub struct Chunk {
    pub code: Vec<u8>,
    pub constants: Vec<Value>,
    pub lines: Vec<(usize, usize)>,
    pub byte_lines: Ghost<Seq<usize>>,
}

impl Chunk {
    pub open spec fn wf(self) -> bool {
        &&& self.byte_lines@.len() == self.code@.len()
        &&& self.constants@.len() <= 256
        &&& lines_wf(self.lines@, self.code@.len() as int)
        &&& forall|o: int|
            0 <= o < self.code@.len() ==> line_lookup(self.lines@, o) == #[trigger] self.byte_lines@[o]
    }

    pub fn new() -> (c: Chunk)
        ensures
            c.wf(),
            c.code@.len() == 0,
            c.constants@.len() == 0,
            c.lines@.len() == 0,
    {
        Chunk { code: Vec::new(), constants: Vec::new(), lines: Vec::new(), byte_lines: Ghost(Seq::empty()) }
    }

    /// Append one byte, recording the source line it came from. A new table
    /// entry is made only when the line differs from the current run's.
    pub fn write(&mut self, byte: u8, line: usize)
        requires
            old(self).wf(),
        ensures
            final(self).wf(),
            final(self).code@ == old(self).code@.push(byte),
            final(self).constants == old(self).constants,
            final(self).byte_lines@ == old(self).byte_lines@.push(line),
            final(self).lines@ == if old(self).lines@.len() > 0 && old(self).lines@.last().1 == line {
                old(self).lines@
            } else {
                old(self).lines@.push((old(self).code@.len() as usize, line))
            },
    {
        let off = self.code.len();
        self.code.push(byte);
        proof {
            self.byte_lines@ = self.byte_lines@.push(line);
        }
        let n = self.lines.len();
        if n == 0 || self.lines[n - 1].1 != line {
            self.lines.push((off, line));
            proof {
                assert(self.lines@.drop_last() == old(self).lines@);
                assert forall|o: int| 0 <= o < self.code@.len() implies line_lookup(
                    self.lines@,
                    o,
                ) == #[trigger] self.byte_lines@[o] by {
                    if o < old(self).code@.len() {
                        assert(line_lookup(self.lines@, o) == line_lookup(old(self).lines@, o));
                    }
                }
            }
        } else {
            proof {
                assert forall|o: int| 0 <= o < self.code@.len() implies line_lookup(
                    self.lines@,
                    o,
                ) == #[trigger] self.byte_lines@[o] by {
                    if o == old(self).code@.len() {
                        assert(self.lines@.last().0 <= o);
                        assert(line_lookup(self.lines@, o) == line as int);
                    }
                }
            }
        }
    }

    /// Pool a constant. The pool holds at most 256 entries; the first one
    /// past that is the `TooManyConstants` error and the chunk is unchanged.
    pub fn add(&mut self, val: Value) -> (r: Result<u8, CompileErrors>)
        requires
            old(self).wf(),
        ensures
            final(self).wf(),
            final(self).code == old(self).code,
            final(self).lines == old(self).lines,
            final(self).byte_lines == old(self).byte_lines,
            old(self).constants@.len() < 256 ==> r == Ok::<u8, CompileErrors>(
                old(self).constants@.len() as u8,
            ) && final(self).constants@ == old(self).constants@.push(val),
            old(self).constants@.len() >= 256 ==> r == Err::<u8, CompileErrors>(
                CompileErrors::TooManyConstants,
            ) && final(self).constants == old(self).constants,
    {
        if self.constants.len() > 255 {
            Err(CompileErrors::TooManyConstants)
        } else {
            self.constants.push(val);
            Ok((self.constants.len() - 1) as u8)
        }
    }

    /// Recover the source line a code byte was written with, by a linear
    /// walk of the run-length table.
    pub fn line_at(&self, offset: usize) -> (l: usize)
        requires
            self.wf(),
            offset < self.code@.len(),
        ensures
            l == self.byte_lines@[offset as int],
    {
        let ghost target = line_lookup(self.lines@, offset as int);
        let mut k = self.lines.len();
        proof {
            assert(self.lines@.subrange(0, self.lines@.len() as int) == self.lines@);
        }
        while k > 0
            invariant
                self.wf(),
                offset < self.code@.len(),
                k <= self.lines@.len(),
                line_lookup(self.lines@.subrange(0, k as int), offset as int) == target,
                target == line_lookup(self.lines@, offset as int),
                forall|m: int| k <= m < self.lines@.len() ==> (#[trigger] self.lines@[m]).0 > offset,
            decreases k,
        {
            k = k - 1;
            if self.lines[k].0 <= offset {
                proof {
                    assert(self.lines@.subrange(0, k + 1).last() == self.lines@[k as int]);
                }
                return self.lines[k].1;
            }
            proof {
                assert(self.lines@.subrange(0, k + 1).drop_last() == self.lines@.subrange(
                    0,
                    k as int,
                ));
            }
        }
        proof {
            // code is non-empty, so the table has an entry at offset zero and
            // the walk above cannot have run out
            assert(self.lines@[0].0 == 0);
            assert(false);
        }
        0
    }
}

} // verus!
