//! The traced child process: memory patches, breakpoints, the resume
//! algorithm that steps over a breakpoint, and the stop-status translation.

use vstd::prelude::*;
use std::collections::HashMap;
use vstd::std_specs::iter::IteratorSpec;
use nix::errno::Errno;
use nix::sys::signal::Signal;
use nix::sys::wait::WaitPidFlag;
use nix::unistd::Pid;
use crate::sys::{Regs, TraceOp, Tracee, WaitEvent};
use crate::word::{align_addr_to_word, byte_of, splice_byte, with_byte, word_start, TRAP_BYTE};

verus! {

broadcast use vstd::std_specs::hash::group_hash_axioms;

/// How the tracee stands after a wait.
#[derive(Debug)]
pub enum Status {
    /// Stopped by the signal, with the instruction pointer it stopped at.
    Stopped(Signal, usize),
    /// Exited normally with this code.
    Exited(i32),
    /// Terminated by the signal.
    Signaled(Signal),
}

/// Why a debugger operation did not complete.
#[derive(Debug)]
pub enum DebugError {
    /// The process-tracing facility refused the request.
    Trace(Errno),
    /// A breakpoint could not be patched at this address.
    InvalidAddress(usize),
    /// A breakpoint is already recorded at this address.
    DuplicateBreakpoint(usize),
    /// A wait reported a state other than exited, signaled or stopped.
    UnexpectedState,
}

/// Where the step-over algorithm finds a breakpoint for a stop at `pc`: the
/// trap is one byte, so a hit leaves the instruction pointer one past it.
pub open spec fn hit_at(pc: usize, breakpoints: Map<usize, u8>) -> Option<(usize, u8)> {
    if pc >= 1 && breakpoints.contains_key((pc - 1) as usize) {
        Some(((pc - 1) as usize, breakpoints[(pc - 1) as usize]))
    } else {
        None
    }
}

/// `m1` and `m2` agree at `a`: both lack it, or both map it to one value.
pub open spec fn agree_at(m1: Map<usize, u8>, m2: Map<usize, u8>, a: usize) -> bool {
    &&& m1.contains_key(a) == m2.contains_key(a)
    &&& m1.contains_key(a) ==> m1[a] == m2[a]
}

/// The breakpoint, if any, that a stop at `pc` has just trapped on, with the
/// original byte saved for it.
pub fn breakpoint_hit(pc: usize, breakpoints: &HashMap<usize, u8>) -> (r: Option<(usize, u8)>)
    ensures
        r == hit_at(pc, breakpoints@),
{
    if pc >= 1 {
        match breakpoints.get(&(pc - 1)) {
            Some(b) => Some((pc - 1, *b)),
            None => None,
        }
    } else {
        None
    }
}

/// The status a wait report gives; `pc` is the instruction pointer read for
/// a stop. A report of any other kind is an unexpected state.
pub open spec fn status_spec(ev: WaitEvent, pc: usize) -> Result<Status, DebugError> {
    match ev {
        WaitEvent::Exited(code) => Ok(Status::Exited(code)),
        WaitEvent::Signaled(sig) => Ok(Status::Signaled(sig)),
        WaitEvent::Stopped(sig) => Ok(Status::Stopped(sig, pc)),
        WaitEvent::Other => Err(DebugError::UnexpectedState),
    }
}

/// Translates a wait report into a status; `pc` is the instruction pointer
/// read for a stop.
pub fn status_of(ev: WaitEvent, pc: usize) -> (r: Result<Status, DebugError>)
    ensures
        r == status_spec(ev, pc),
{
    match ev {
        WaitEvent::Exited(code) => Ok(Status::Exited(code)),
        WaitEvent::Signaled(sig) => Ok(Status::Signaled(sig)),
        WaitEvent::Stopped(sig) => Ok(Status::Stopped(sig, pc)),
        WaitEvent::Other => Err(DebugError::UnexpectedState),
    }
}

/// What the step-over algorithm does once the single step over a
/// breakpoint has been waited for.
pub enum StepAction {
    /// The process ended during the step: this status is the result.
    Finish(Status),
    /// The step stopped: write the trap back and resume.
    Rearm,
}

/// The decision after the single step: an exit or a signal is returned at
/// once, a stop leads to re-arming the breakpoint.
pub fn after_step(st: Status) -> (r: StepAction)
    ensures
        match st {
            Status::Stopped(_, _) => r is Rearm,
            _ => r == StepAction::Finish(st),
        },
{
    match st {
        Status::Stopped(_, _) => StepAction::Rearm,
        _ => StepAction::Finish(st),
    }
}

/// Start of the word that holds `addr`.
pub open spec fn word_of(addr: usize) -> usize {
    word_start(addr as int) as usize
}

/// Position of `addr` within its word.
pub open spec fn offset_of(addr: usize) -> int {
    addr - word_start(addr as int)
}

/// `after` is `before` followed by further operations.
pub open spec fn extends(before: Seq<TraceOp>, after: Seq<TraceOp>) -> bool {
    &&& before.len() <= after.len()
    &&& forall|i: int| 0 <= i < before.len() ==> after[i] == before[i]
}

/// Operations `i` and `i + 1` of `t` write `val` at `addr` by a
/// read-modify-write of its word: the word read is written back with only
/// that byte replaced.
pub open spec fn byte_written_at(t: Seq<TraceOp>, i: int, addr: usize, val: u8) -> bool {
    &&& 0 <= i && i + 1 < t.len()
    &&& t[i] matches TraceOp::Peeked(a, w) && a == word_of(addr) && t[i + 1] == TraceOp::Poked(
        word_of(addr),
        with_byte(w, offset_of(addr), val),
    )
}

/// The byte that the read-modify-write starting at operation `i` replaced.
pub open spec fn byte_replaced_at(t: Seq<TraceOp>, i: int, addr: usize) -> u8 {
    match t[i] {
        TraceOp::Peeked(_, w) => byte_of(w, offset_of(addr)),
        _ => 0,
    }
}

/// From operation `i` on, `t` holds exactly a wait that gave `st`: the
/// report, and for a stop the register read that gave its pc.
pub open spec fn waited_at(t: Seq<TraceOp>, i: int, st: Status) -> bool {
    &&& 0 <= i
    &&& match st {
        Status::Stopped(sig, pc) => {
            &&& t.len() == i + 2
            &&& t[i] == TraceOp::Waited(WaitEvent::Stopped(sig))
            &&& t[i + 1] matches TraceOp::GotRegs(p, _) && p == pc
        },
        Status::Exited(code) => t.len() == i + 1 && t[i] == TraceOp::Waited(WaitEvent::Exited(code)),
        Status::Signaled(sig) => t.len() == i + 1 && t[i] == TraceOp::Waited(
            WaitEvent::Signaled(sig),
        ),
    }
}

/// A failure of the tracing facility or an unexpected report.
pub open spec fn is_trace_failure(r: Result<Status, DebugError>) -> bool {
    r matches Err(e) ==> (e is Trace || e is UnexpectedState)
}

/// The operations `t` holds from `n` on are a run of the step-over algorithm
/// that ended in `st`, resuming with `sig`. The registers are read; where the
/// stop is not one past a breakpoint the process is resumed and waited for.
/// Otherwise the saved byte is written back, the pc is rewound to the
/// breakpoint, one instruction is stepped and waited for; an exit or signal
/// there is the result, and a stop leads to the trap being written back
/// before the process is resumed and waited for.
pub open spec fn resumed(t: Seq<TraceOp>, n: int, bps: Map<usize, u8>, sig: Option<Signal>, st: Status) -> bool {
    &&& 0 <= n < t.len()
    &&& t[n] matches TraceOp::GotRegs(pc, fp) && match hit_at(pc, bps) {
        None => t[n + 1] == TraceOp::Continued(sig) && waited_at(t, n + 2, st),
        Some((a, b)) => {
            &&& byte_written_at(t, n + 1, a, b)
            &&& t[n + 3] == TraceOp::SetRegs(a, fp)
            &&& t[n + 4] == TraceOp::Stepped
            &&& ((!(st is Stopped) && waited_at(t, n + 5, st)) || (t[n + 5] matches TraceOp::Waited(
                WaitEvent::Stopped(_),
            ) && t[n + 6] is GotRegs && byte_written_at(t, n + 7, a, TRAP_BYTE) && t[n + 9]
                == TraceOp::Continued(sig) && waited_at(t, n + 10, st)))
        },
    }
}

/// A read-modify-write stays in the record as further operations follow.
pub proof fn lemma_byte_written_kept(t1: Seq<TraceOp>, t2: Seq<TraceOp>, i: int, addr: usize, val: u8)
    requires
        extends(t1, t2),
        byte_written_at(t1, i, addr, val),
    ensures
        byte_written_at(t2, i, addr, val),
        byte_replaced_at(t2, i, addr) == byte_replaced_at(t1, i, addr),
{
    assert(t2[i] == t1[i]);
    assert(t2[i + 1] == t1[i + 1]);
}

/// Breakpoint `a` maps to the byte that a trap write recorded in `t`
/// replaced.
pub open spec fn saved_by_install(t: Seq<TraceOp>, a: usize, b: u8) -> bool {
    exists|i: int| #[trigger] byte_written_at(t, i, a, TRAP_BYTE) && b == byte_replaced_at(t, i, a)
}

/// A child process under trace.
pub struct Inferior {
    tracee: Tracee,
    /// The byte this debugger last wrote at each address it patched.
    written: Ghost<Map<usize, u8>>,
}

impl Inferior {
    /// Process id of the tracee.
    pub closed spec fn spec_pid(&self) -> Pid {
        self.tracee.spec_pid()
    }

    /// The tracing operations on the tracee that succeeded, oldest first.
    pub closed spec fn ops(&self) -> Seq<TraceOp> {
        self.tracee.ops()
    }

    /// For each address this debugger patched, the byte it last wrote there.
    pub closed spec fn written(&self) -> Map<usize, u8> {
        self.written@
    }

    /// The trap byte is the last thing this debugger wrote at `addr`.
    pub open spec fn is_armed(&self, addr: usize) -> bool {
        self.written().contains_key(addr) && self.written()[addr] == TRAP_BYTE
    }

    /// Returns the pid of this inferior.
    pub fn pid(&self) -> (r: Pid)
        ensures
            r == self.spec_pid(),
    {
        self.tracee.pid()
    }

    /// Waits for the tracee to change state and reports how it stands; for a
    /// stop, the instruction pointer is read from its registers.
    pub fn wait(&mut self, options: Option<WaitPidFlag>) -> (r: Result<Status, DebugError>)
        ensures
            final(self).spec_pid() == old(self).spec_pid(),
            final(self).written() == old(self).written(),
            extends(old(self).ops(), final(self).ops()),
            is_trace_failure(r),
            r matches Ok(st) ==> waited_at(final(self).ops(), old(self).ops().len() as int, st),
            r is Err ==> final(self).ops().len() <= old(self).ops().len() + 1,
            r matches Err(DebugError::UnexpectedState) ==> final(self).ops() == old(self).ops().push(
                TraceOp::Waited(WaitEvent::Other),
            ),
    {
        let ev = match self.tracee.wait_event(options) {
            Ok(ev) => ev,
            Err(e) => return Err(DebugError::Trace(e)),
        };
        let pc = match ev {
            WaitEvent::Stopped(_) => match self.tracee.get_regs() {
                Ok(regs) => regs.pc,
                Err(e) => return Err(DebugError::Trace(e)),
            },
            _ => 0,
        };
        status_of(ev, pc)
    }

    /// Writes `val` at `addr` in the tracee by a read-modify-write of the word
    /// that holds it; returns the byte that was there.
    pub fn write_byte(&mut self, addr: usize, val: u8) -> (r: Result<u8, Errno>)
        ensures
            final(self).spec_pid() == old(self).spec_pid(),
            extends(old(self).ops(), final(self).ops()),
            match r {
                Ok(orig) => {
                    &&& final(self).written() == old(self).written().insert(addr, val)
                    &&& final(self).ops().len() == old(self).ops().len() + 2
                    &&& byte_written_at(final(self).ops(), old(self).ops().len() as int, addr, val)
                    &&& orig == byte_replaced_at(final(self).ops(), old(self).ops().len() as int, addr)
                },
                Err(_) => {
                    &&& final(self).written() == old(self).written()
                    &&& final(self).ops().len() <= old(self).ops().len() + 1
                },
            },
    {
        let aligned = align_addr_to_word(addr);
        let offset = addr - aligned;
        let word = self.tracee.peek_word(aligned)?;
        let (updated, orig) = splice_byte(word, offset, val);
        self.tracee.poke_word(aligned, updated)?;
        self.written = Ghost(self.written@.insert(addr, val));
        Ok(orig)
    }

    /// Patches the trap byte at `addr` and records the byte it replaced.
    /// An address already recorded is refused, so that a saved byte is never
    /// a trap byte written earlier; an address that cannot be patched is
    /// reported and left out of the table.
    pub fn install_breakpoint(&mut self, addr: usize, breakpoints: &mut HashMap<usize, u8>) -> (r:
        Result<(), DebugError>)
        ensures
            final(self).spec_pid() == old(self).spec_pid(),
            extends(old(self).ops(), final(self).ops()),
            old(breakpoints)@.contains_key(addr) ==> r == Err::<(), DebugError>(
                DebugError::DuplicateBreakpoint(addr),
            ),
            match r {
                Ok(_) => {
                    &&& !old(breakpoints)@.contains_key(addr)
                    &&& byte_written_at(final(self).ops(), old(self).ops().len() as int, addr, TRAP_BYTE)
                    &&& final(self).ops().len() == old(self).ops().len() + 2
                    &&& final(breakpoints)@ == old(breakpoints)@.insert(
                        addr,
                        byte_replaced_at(final(self).ops(), old(self).ops().len() as int, addr),
                    )
                    &&& final(self).written() == old(self).written().insert(addr, TRAP_BYTE)
                },
                Err(e) => {
                    &&& final(breakpoints)@ == old(breakpoints)@
                    &&& final(self).written() == old(self).written()
                    &&& (!old(breakpoints)@.contains_key(addr) ==> e == DebugError::InvalidAddress(addr))
                },
            },
    {
        if breakpoints.contains_key(&addr) {
            return Err(DebugError::DuplicateBreakpoint(addr));
        }
        match self.write_byte(addr, TRAP_BYTE) {
            Ok(orig) => {
                breakpoints.insert(addr, orig);
                Ok(())
            },
            Err(_) => Err(DebugError::InvalidAddress(addr)),
        }
    }

    /// Writes back the original byte saved for the breakpoint at `addr`,
    /// keeping its record.
    pub fn disarm_breakpoint(&mut self, addr: usize, breakpoints: &HashMap<usize, u8>) -> (r: Result<
        (),
        DebugError,
    >)
        ensures
            final(self).spec_pid() == old(self).spec_pid(),
            extends(old(self).ops(), final(self).ops()),
            !breakpoints@.contains_key(addr) ==> r == Err::<(), DebugError>(
                DebugError::InvalidAddress(addr),
            ),
            match r {
                Ok(_) => {
                    &&& breakpoints@.contains_key(addr)
                    &&& final(self).ops().len() == old(self).ops().len() + 2
                    &&& byte_written_at(final(self).ops(), old(self).ops().len() as int, addr, breakpoints@[addr])
                    &&& final(self).written() == old(self).written().insert(addr, breakpoints@[addr])
                },
                Err(e) => {
                    &&& final(self).written() == old(self).written()
                    &&& final(self).ops().len() <= old(self).ops().len() + 1
                    &&& (breakpoints@.contains_key(addr) ==> e is Trace)
                },
            },
    {
        match breakpoints.get(&addr) {
            Some(orig) => match self.write_byte(addr, *orig) {
                Ok(_) => Ok(()),
                Err(e) => Err(DebugError::Trace(e)),
            },
            None => Err(DebugError::InvalidAddress(addr)),
        }
    }

    /// Writes the trap byte again at the recorded breakpoint `addr`.
    pub fn rearm_breakpoint(&mut self, addr: usize, breakpoints: &HashMap<usize, u8>) -> (r: Result<
        (),
        DebugError,
    >)
        ensures
            final(self).spec_pid() == old(self).spec_pid(),
            extends(old(self).ops(), final(self).ops()),
            !breakpoints@.contains_key(addr) ==> r == Err::<(), DebugError>(
                DebugError::InvalidAddress(addr),
            ),
            match r {
                Ok(_) => {
                    &&& breakpoints@.contains_key(addr)
                    &&& final(self).ops().len() == old(self).ops().len() + 2
                    &&& byte_written_at(final(self).ops(), old(self).ops().len() as int, addr, TRAP_BYTE)
                    &&& final(self).written() == old(self).written().insert(addr, TRAP_BYTE)
                },
                Err(e) => {
                    &&& final(self).written() == old(self).written()
                    &&& final(self).ops().len() <= old(self).ops().len() + 1
                    &&& (breakpoints@.contains_key(addr) ==> e is Trace)
                },
            },
    {
        if !breakpoints.contains_key(&addr) {
            return Err(DebugError::InvalidAddress(addr));
        }
        match self.write_byte(addr, TRAP_BYTE) {
            Ok(_) => Ok(()),
            Err(e) => Err(DebugError::Trace(e)),
        }
    }

    /// Resumes the tracee until its next state change, delivering `signal` if
    /// given. Where it stands one past a breakpoint, the original instruction
    /// is first run once, unpatched, by a single step, and the trap is written
    /// back before the process runs on; if the process ends during that step,
    /// that outcome is returned at once.
    pub fn continue_run(&mut self, signal: Option<Signal>, breakpoints: &HashMap<usize, u8>) -> (r:
        Result<Status, DebugError>)
        ensures
            final(self).spec_pid() == old(self).spec_pid(),
            extends(old(self).ops(), final(self).ops()),
            is_trace_failure(r),
            r matches Ok(st) ==> resumed(
                final(self).ops(),
                old(self).ops().len() as int,
                breakpoints@,
                signal,
                st,
            ),
            forall|a: usize|
                !breakpoints@.contains_key(a) ==> agree_at(
                    final(self).written(),
                    old(self).written(),
                    a,
                ),
            r matches Ok(Status::Stopped(_, _)) ==> forall|a: usize|
                #[trigger] old(self).is_armed(a) ==> final(self).is_armed(a),
            final(self).ops().len() > old(self).ops().len() ==> (final(self).ops()[old(
                self,
            ).ops().len() as int] matches TraceOp::GotRegs(pc, _) && (hit_at(pc, breakpoints@) is None
                ==> final(self).written() == old(self).written())),
            final(self).ops().len() == old(self).ops().len() ==> r matches Err(DebugError::Trace(_)),
            final(self).ops().len() >= old(self).ops().len() + 9 ==> (final(self).ops()[old(
                self,
            ).ops().len() as int] matches TraceOp::GotRegs(pc, _) && (hit_at(pc, breakpoints@) matches Some(
                (a, _),
            ) ==> byte_written_at(final(self).ops(), old(self).ops().len() as int + 7, a, TRAP_BYTE))),
    {
        let ghost n = self.ops().len() as int;
        let regs = match self.tracee.get_regs() {
            Ok(regs) => regs,
            Err(e) => return Err(DebugError::Trace(e)),
        };
        let fp = regs.fp;
        if let Some((addr, _)) = breakpoint_hit(regs.pc, breakpoints) {
            self.disarm_breakpoint(addr, breakpoints)?;
            let mut regs = regs;
            regs.pc = addr;
            if let Err(e) = self.tracee.set_regs(regs) {
                return Err(DebugError::Trace(e));
            }
            if let Err(e) = self.tracee.single_step() {
                return Err(DebugError::Trace(e));
            }
            let st = self.wait(None)?;
            match after_step(st) {
                StepAction::Finish(st) => return Ok(st),
                StepAction::Rearm => {
                    self.rearm_breakpoint(addr, breakpoints)?;
                },
            }
        }
        if let Err(e) = self.tracee.resume(signal) {
            return Err(DebugError::Trace(e));
        }
        self.wait(None)
    }

    /// Kills the tracee and waits for it, so that no zombie remains. The
    /// tracee must still be alive.
    pub fn kill(&mut self) -> (r: Result<Status, DebugError>)
        ensures
            final(self).spec_pid() == old(self).spec_pid(),
            final(self).written() == old(self).written(),
            extends(old(self).ops(), final(self).ops()),
            is_trace_failure(r),
            r matches Ok(st) ==> {
                &&& st is Exited || st is Signaled
                &&& final(self).ops()[old(self).ops().len() as int] == TraceOp::Killed
                &&& waited_at(final(self).ops(), old(self).ops().len() as int + 1, st)
            },
    {
        if let Err(e) = self.tracee.send_kill() {
            return Err(DebugError::Trace(e));
        }
        match self.wait(None)? {
            Status::Stopped(_, _) => Err(DebugError::UnexpectedState),
            st => Ok(st),
        }
    }

    /// Takes control of a child that has asked to be traced and executed its
    /// target, once it stops at its first trap; then installs a breakpoint at
    /// each address in `breakpoints`. An address that cannot be patched is
    /// dropped from the table, and the others map to the byte the trap
    /// replaced. Returns `None`, with the table untouched, where the child
    /// does not report that first stop.
    pub fn new(pid: Pid, breakpoints: &mut HashMap<usize, u8>) -> (r: Option<Inferior>)
        ensures
            match r {
                Some(inf) => {
                    &&& inf.spec_pid() == pid
                    &&& inf.ops().len() >= 2
                    &&& inf.ops()[0] matches TraceOp::Waited(WaitEvent::Stopped(_))
                    &&& final(breakpoints)@.dom().subset_of(old(breakpoints)@.dom())
                    &&& final(breakpoints)@.dom() == inf.written().dom()
                    &&& forall|a: usize| #[trigger]
                        final(breakpoints)@.contains_key(a) ==> inf.is_armed(a) && saved_by_install(
                            inf.ops(),
                            a,
                            final(breakpoints)@[a],
                        )
                },
                None => final(breakpoints)@ == old(breakpoints)@,
            },
    {
        let mut inferior = Inferior { tracee: Tracee::new(pid), written: Ghost(Map::empty()) };
        match inferior.wait(None) {
            Ok(Status::Stopped(_, _)) => {},
            _ => return None,
        }
        let mut addrs: Vec<usize> = Vec::new();
        let ghost all = vstd::std_specs::hash::spec_keys_iter(&*breakpoints).remaining().unref();
        for a in it: breakpoints.keys()
            invariant
                it.seq().unref() == all,
                all.len() == it.seq().len(),
                addrs@ == it.seq().take(it.index() as int).unref(),
                it.seq().unref().to_set() == breakpoints@.dom(),
                it.seq().unref().no_duplicates(),
        {
            addrs.push(*a);
        }
        assert(addrs@ =~= all);
        let ghost start = breakpoints@;
        for i in 0..addrs.len()
            invariant
                inferior.spec_pid() == pid,
                inferior.ops().len() >= 2,
                inferior.ops()[0] matches TraceOp::Waited(WaitEvent::Stopped(_)),
                addrs@.to_set() == start.dom(),
                addrs@.no_duplicates(),
                start == old(breakpoints)@,
                breakpoints@.dom().subset_of(start.dom()),
                forall|j: int| i <= j < addrs.len() ==> breakpoints@.contains_key(#[trigger] addrs@[j]),
                forall|j: int| i <= j < addrs.len() ==> !inferior.written().contains_key(#[trigger] addrs@[j]),
                forall|a: usize| #[trigger]
                    breakpoints@.contains_key(a) ==> (inferior.written().contains_key(a) || exists|j: int|
                        i <= j < addrs.len() && addrs@[j] == a),
                forall|a: usize| #[trigger]
                    inferior.written().contains_key(a) ==> breakpoints@.contains_key(a)
                        && inferior.is_armed(a) && saved_by_install(inferior.ops(), a, breakpoints@[a]),
        {
            let a = addrs[i];
            let ghost ops0 = inferior.ops();
            breakpoints.remove(&a);
            let res = inferior.install_breakpoint(a, breakpoints);
            proof {
                assert forall|x: usize| #[trigger]
                    inferior.written().contains_key(x) implies saved_by_install(inferior.ops(), x, breakpoints@[x]) by {
                    if x == a && res is Ok {
                        assert(byte_written_at(inferior.ops(), ops0.len() as int, a, TRAP_BYTE));
                    } else {
                        let k = choose|k: int| #[trigger] byte_written_at(ops0, k, x, TRAP_BYTE)
                            && breakpoints@[x] == byte_replaced_at(ops0, k, x);
                        lemma_byte_written_kept(ops0, inferior.ops(), k, x, TRAP_BYTE);
                    }
                }
                assert forall|j: int| i + 1 <= j < addrs.len() implies !inferior.written().contains_key(#[trigger] addrs@[j]) by {
                    assert(addrs@[j] != a);
                }
            }
        }
        assert(breakpoints@.dom() =~= inferior.written().dom());
        Some(inferior)
    }

    /// Reads the whole machine word that holds `addr`, from its aligned start.
    pub fn read_word(&mut self, addr: usize) -> (r: Result<u64, DebugError>)
        ensures
            final(self).spec_pid() == old(self).spec_pid(),
            final(self).written() == old(self).written(),
            match r {
                Ok(w) => final(self).ops() == old(self).ops().push(TraceOp::Peeked(word_of(addr), w)),
                Err(e) => e is Trace && final(self).ops() == old(self).ops(),
            },
    {
        let aligned = align_addr_to_word(addr);
        match self.tracee.peek_word(aligned) {
            Ok(w) => Ok(w),
            Err(e) => Err(DebugError::Trace(e)),
        }
    }

    /// Reads the tracee's instruction pointer and frame base.
    pub(crate) fn registers(&mut self) -> (r: Result<Regs, DebugError>)
        ensures
            final(self).spec_pid() == old(self).spec_pid(),
            final(self).written() == old(self).written(),
            match r {
                Ok(regs) => final(self).ops() == old(self).ops().push(TraceOp::GotRegs(regs.pc, regs.fp)),
                Err(e) => e is Trace && final(self).ops() == old(self).ops(),
            },
    {
        match self.tracee.get_regs() {
            Ok(regs) => Ok(regs),
            Err(e) => Err(DebugError::Trace(e)),
        }
    }
}

} // verus!
