//! Stack unwinding along the chain of saved frame pointers.

use vstd::prelude::*;
use crate::inferior::{extends, word_of, DebugError, Inferior};
use crate::sys::TraceOp;
use crate::word::WORD_BYTES;

verus! {

/// The characters of an optional string.
pub open spec fn chars_of(s: Option<String>) -> Option<Seq<char>> {
    match s {
        Some(x) => Some(x@),
        None => None,
    }
}

/// A named range `[start, end)` of code addresses.
pub struct Symbol {
    pub start: usize,
    pub end: usize,
    pub name: String,
}

/// The name of the first of `entries` whose range holds `addr`.
pub open spec fn lookup(entries: Seq<Symbol>, addr: usize) -> Option<Seq<char>>
    decreases entries.len(),
{
    if entries.len() == 0 {
        None
    } else if entries[0].start <= addr < entries[0].end {
        Some(entries[0].name@)
    } else {
        lookup(entries.drop_first(), addr)
    }
}

fn lookup_in(entries: &Vec<Symbol>, addr: usize) -> (r: Option<String>)
    ensures
        chars_of(r) == lookup(entries@, addr),
{
    let mut i: usize = 0;
    assert(entries@.skip(0) =~= entries@);
    while i < entries.len()
        invariant
            i <= entries.len(),
            lookup(entries@, addr) == lookup(entries@.skip(i as int), addr),
        decreases entries.len() - i,
    {
        assert(entries@.skip(i as int).drop_first() =~= entries@.skip(i + 1));
        if entries[i].start <= addr && addr < entries[i].end {
            return Some(entries[i].name.clone());
        }
        i = i + 1;
    }
    None
}

/// Source lines and functions of a program, each as a table of address
/// ranges; where ranges overlap, the earlier entry wins.
pub struct DebugData {
    pub functions: Vec<Symbol>,
    pub lines: Vec<Symbol>,
}

impl DebugData {
    /// The source line of the code at `addr`, if known.
    pub open spec fn line_of(&self, addr: usize) -> Option<Seq<char>> {
        lookup(self.lines@, addr)
    }

    /// The name of the function whose code holds `addr`, if known.
    pub open spec fn function_of(&self, addr: usize) -> Option<Seq<char>> {
        lookup(self.functions@, addr)
    }

    /// The source line of the code at `addr`, if known.
    pub fn get_line_from_addr(&self, addr: usize) -> (r: Option<String>)
        ensures
            chars_of(r) == self.line_of(addr),
    {
        lookup_in(&self.lines, addr)
    }

    /// The name of the function whose code holds `addr`, if known.
    pub fn get_function_from_addr(&self, addr: usize) -> (r: Option<String>)
        ensures
            chars_of(r) == self.function_of(addr),
    {
        lookup_in(&self.functions, addr)
    }
}

/// One frame of a backtrace, innermost first.
pub struct Frame {
    /// The frame's instruction pointer.
    pub pc: usize,
    /// The frame's base pointer.
    pub fp: usize,
    /// The source line of `pc`, if known.
    pub line: Option<String>,
    /// The function `pc` belongs to, if known.
    pub function: Option<String>,
}

/// The name of the entry function, as characters.
pub open spec fn entry_name() -> Seq<char> {
    seq!['m', 'a', 'i', 'n']
}

/// A frame with this function is the last one of a walk: the function is
/// unknown, or it is the entry function.
pub open spec fn ends_walk(function: Option<String>) -> bool {
    match function {
        Some(f) => f@ == entry_name(),
        None => true,
    }
}

/// Whether the walk stops at a frame with this function.
pub fn is_last_frame(function: &Option<String>) -> (r: bool)
    ensures
        r == ends_walk(*function),
{
    match function {
        Some(f) => {
            let entry = "main".to_owned();
            proof {
                reveal_strlit("main");
                assert(entry@ =~= entry_name());
            }
            *f == entry
        },
        None => true,
    }
}

/// Frame `i + 1` of `frames` is the caller of frame `i`, as read by the two
/// word reads `t` holds at `n + 1 + 2 * i`: the saved return address one word
/// above the frame base, then the saved frame base itself.
pub open spec fn linked(t: Seq<TraceOp>, n: int, frames: Seq<Frame>, i: int) -> bool {
    &&& frames[i].fp + WORD_BYTES <= usize::MAX
    &&& t[n + 1 + 2 * i] matches TraceOp::Peeked(a, w) && a == word_of(
        (frames[i].fp + WORD_BYTES) as usize,
    ) && frames[i + 1].pc == w as usize
    &&& t[n + 2 + 2 * i] matches TraceOp::Peeked(a, w) && a == word_of(frames[i].fp) && frames[i
        + 1].fp == w as usize
}

/// A link between two frames stays in the record as further operations
/// follow.
pub proof fn lemma_linked_kept(t1: Seq<TraceOp>, t2: Seq<TraceOp>, n: int, frames: Seq<Frame>, i: int)
    requires
        extends(t1, t2),
        0 <= n,
        0 <= i,
        n + 2 + 2 * i < t1.len(),
        linked(t1, n, frames, i),
    ensures
        linked(t2, n, frames, i),
{
    assert(t2[n + 1 + 2 * i] == t1[n + 1 + 2 * i]);
    assert(t2[n + 2 + 2 * i] == t1[n + 2 + 2 * i]);
}

/// Frame `i` holds the debug information of its own pc.
pub open spec fn resolved(d: &DebugData, f: Frame) -> bool {
    &&& chars_of(f.line) == d.line_of(f.pc)
    &&& chars_of(f.function) == d.function_of(f.pc)
}

impl Inferior {
    /// Walks the stack of the stopped tracee, innermost frame first, for at
    /// most `max_frames` frames. The walk ends at the entry function, at a
    /// frame whose function is unknown, or where the next saved return
    /// address or frame pointer cannot be read. Fails only where the
    /// registers cannot be read.
    pub fn backtrace(&mut self, debug_data: &DebugData, max_frames: usize) -> (r: Result<
        Vec<Frame>,
        DebugError,
    >)
        ensures
            final(self).spec_pid() == old(self).spec_pid(),
            final(self).written() == old(self).written(),
            extends(old(self).ops(), final(self).ops()),
            r matches Err(e) ==> e is Trace && final(self).ops() == old(self).ops(),
            r matches Ok(frames) ==> {
                let t = final(self).ops();
                let n = old(self).ops().len() as int;
                &&& frames.len() <= max_frames
                &&& max_frames > 0 ==> frames.len() >= 1
                &&& t[n] matches TraceOp::GotRegs(pc, fp) && (frames.len() > 0 ==> frames@[0].pc
                    == pc && frames@[0].fp == fp)
                &&& forall|i: int| 0 <= i < frames.len() ==> resolved(debug_data, #[trigger] frames@[i])
                &&& forall|i: int|
                    0 <= i < frames.len() - 1 ==> !ends_walk(#[trigger] frames@[i].function)
                        && linked(t, n, frames@, i)
                &&& (frames.len() > 0 && frames.len() < max_frames && !ends_walk(
                    frames@[frames.len() - 1].function,
                )) ==> t.len() < n + 1 + 2 * frames.len()
            },
    {
        let ghost n = self.ops().len() as int;
        let regs = self.registers()?;
        let mut pc = regs.pc;
        let mut fp = regs.fp;
        let mut frames: Vec<Frame> = Vec::new();
        while frames.len() < max_frames
            invariant
                self.spec_pid() == old(self).spec_pid(),
                self.written() == old(self).written(),
                extends(old(self).ops(), self.ops()),
                n == old(self).ops().len(),
                frames.len() <= max_frames,
                self.ops().len() == n + 1 + 2 * frames.len(),
                self.ops()[n] matches TraceOp::GotRegs(p, f) && (frames.len() == 0 ==> p == pc && f
                    == fp) && (frames.len() > 0 ==> frames@[0].pc == p && frames@[0].fp == f),
                forall|i: int| 0 <= i < frames.len() ==> resolved(debug_data, #[trigger] frames@[i]),
                forall|i: int|
                    0 <= i < frames.len() ==> !ends_walk(#[trigger] frames@[i].function),
                forall|i: int| 0 <= i < frames.len() - 1 ==> #[trigger] linked(self.ops(), n, frames@, i),
                frames.len() > 0 ==> linked(self.ops(), n, frames@.push(Frame { pc, fp, line: None, function: None }), frames.len() - 1),
            decreases max_frames - frames.len(),
        {
            let line = debug_data.get_line_from_addr(pc);
            let function = debug_data.get_function_from_addr(pc);
            let last = is_last_frame(&function);
            let ghost before = frames@;
            frames.push(Frame { pc, fp, line, function });
            proof {
                assert forall|i: int| 0 <= i < frames.len() - 1 implies #[trigger] linked(self.ops(), n, frames@, i) by {
                    if i < frames.len() - 2 {
                        assert(linked(self.ops(), n, before, i));
                    } else {
                        assert(linked(self.ops(), n, before.push(Frame { pc, fp, line: None, function: None }), i));
                    }
                }
            }
            if last || fp > usize::MAX - WORD_BYTES {
                return Ok(frames);
            }
            let ghost ops1 = self.ops();
            let ret = match self.read_word(fp + WORD_BYTES) {
                Ok(w) => w,
                Err(_) => return Ok(frames),
            };
            proof {
                assert forall|i: int| 0 <= i < frames.len() - 1 implies #[trigger] linked(self.ops(), n, frames@, i) by {
                    lemma_linked_kept(ops1, self.ops(), n, frames@, i);
                }
            }
            let saved = match self.read_word(fp) {
                Ok(w) => w,
                Err(_) => return Ok(frames),
            };
            proof {
                assert forall|i: int| 0 <= i < frames.len() - 1 implies #[trigger] linked(self.ops(), n, frames@, i) by {
                    lemma_linked_kept(ops1, self.ops(), n, frames@, i);
                }
            }
            pc = #[verifier::truncate] (ret as usize);
            fp = #[verifier::truncate] (saved as usize);
        }
        Ok(frames)
    }
}

} // verus!
