//! The process-tracing calls this library makes, each behind a small trusted
//! wrapper or a declaration of an outside type.
//!
//! What these calls return depends on the traced process, so no wrapper
//! promises a value. Each one that succeeds adds itself, with what it was
//! handed and what came back, to the tracee's record of operations, over
//! which the callers' contracts are stated.

use vstd::prelude::*;
use nix::errno::Errno;
use nix::sys::ptrace;
use nix::sys::signal::Signal;
use nix::sys::wait::{WaitPidFlag, WaitStatus};
use nix::unistd::Pid;
use nix::libc::user_regs_struct;

verus! {

#[verifier::external_type_specification]
#[verifier::external_body]
pub struct ExPid(Pid);

#[verifier::external_type_specification]
#[verifier::external_body]
pub struct ExSignal(Signal);

#[verifier::external_type_specification]
#[verifier::external_body]
pub struct ExErrno(Errno);

#[verifier::external_type_specification]
#[verifier::external_body]
pub struct ExWaitPidFlag(WaitPidFlag);

#[verifier::external_type_specification]
#[verifier::external_body]
pub struct ExRegs(user_regs_struct);

/// A state change of a traced process, as `waitpid` reports it, reduced to
/// what the debugger decides on.
pub enum WaitEvent {
    /// The process exited with this code.
    Exited(i32),
    /// The process was terminated by this signal.
    Signaled(Signal),
    /// The process stopped on this signal.
    Stopped(Signal),
    /// Any other report (continued, ptrace event, still alive).
    Other,
}

/// A tracing operation that succeeded, with what was handed to it and what
/// came back.
pub enum TraceOp {
    /// The word read at a word-aligned address.
    Peeked(usize, u64),
    /// The word written at a word-aligned address.
    Poked(usize, u64),
    /// The instruction pointer and frame base read from the registers.
    GotRegs(usize, usize),
    /// The instruction pointer and frame base loaded into the registers.
    SetRegs(usize, usize),
    /// One instruction executed.
    Stepped,
    /// Execution resumed, delivering the signal if any.
    Continued(Option<Signal>),
    /// SIGKILL sent.
    Killed,
    /// A wait reported this event.
    Waited(WaitEvent),
}

/// The registers of a stopped tracee: the instruction pointer and frame base
/// as plain values, the rest carried along unread.
pub struct Regs {
    pub pc: usize,
    pub fp: usize,
    pub(crate) raw: user_regs_struct,
}

/// A process under trace, with the record of the tracing operations on it
/// that succeeded, oldest first.
pub struct Tracee {
    pid: Pid,
    ops: Ghost<Seq<TraceOp>>,
}

impl Tracee {
    /// Process id of the tracee.
    pub closed spec fn spec_pid(&self) -> Pid {
        self.pid
    }

    /// The tracing operations on this process that succeeded, oldest first.
    pub closed spec fn ops(&self) -> Seq<TraceOp> {
        self.ops@
    }

    /// Starts tracing operations on the process `pid`.
    pub fn new(pid: Pid) -> (t: Tracee)
        ensures
            t.spec_pid() == pid,
            t.ops() == Seq::<TraceOp>::empty(),
    {
        Tracee { pid, ops: Ghost(Seq::empty()) }
    }

    /// Process id of the tracee.
    pub fn pid(&self) -> (r: Pid)
        ensures
            r == self.spec_pid(),
    {
        self.pid
    }

    /// Relies on `nix::sys::ptrace::read` (PTRACE_PEEKDATA): reads the word
    /// at a word-aligned address, or fails with the OS error.
    #[verifier::external_body]
    pub(crate) fn peek_word(&mut self, addr: usize) -> (r: Result<u64, Errno>)
        requires
            addr % 8 == 0,
        ensures
            final(self).spec_pid() == old(self).spec_pid(),
            r matches Ok(w) ==> final(self).ops() == old(self).ops().push(TraceOp::Peeked(addr, w)),
            r is Err ==> final(self).ops() == old(self).ops(),
    {
        ptrace::read(self.pid, addr as ptrace::AddressType).map(|w| w as u64)
    }

    /// Relies on `nix::sys::ptrace::write` (PTRACE_POKEDATA): writes one word
    /// at a word-aligned address, or fails with the OS error.
    #[verifier::external_body]
    pub(crate) fn poke_word(&mut self, addr: usize, word: u64) -> (r: Result<(), Errno>)
        requires
            addr % 8 == 0,
        ensures
            final(self).spec_pid() == old(self).spec_pid(),
            r is Ok ==> final(self).ops() == old(self).ops().push(TraceOp::Poked(addr, word)),
            r is Err ==> final(self).ops() == old(self).ops(),
    {
        ptrace::write(self.pid, addr as ptrace::AddressType, word as nix::libc::c_long)
    }

    /// Relies on `nix::sys::ptrace::getregs` (PTRACE_GETREGS); `pc` and `fp`
    /// are the `rip` and `rbp` of the register set.
    #[verifier::external_body]
    pub(crate) fn get_regs(&mut self) -> (r: Result<Regs, Errno>)
        ensures
            final(self).spec_pid() == old(self).spec_pid(),
            r matches Ok(regs) ==> final(self).ops() == old(self).ops().push(
                TraceOp::GotRegs(regs.pc, regs.fp),
            ),
            r is Err ==> final(self).ops() == old(self).ops(),
    {
        ptrace::getregs(self.pid).map(|raw| Regs { pc: raw.rip as usize, fp: raw.rbp as usize, raw })
    }

    /// Relies on `nix::sys::ptrace::setregs` (PTRACE_SETREGS): loads the
    /// register set, with `rip` and `rbp` taken from `pc` and `fp`.
    #[verifier::external_body]
    pub(crate) fn set_regs(&mut self, regs: Regs) -> (r: Result<(), Errno>)
        ensures
            final(self).spec_pid() == old(self).spec_pid(),
            r is Ok ==> final(self).ops() == old(self).ops().push(TraceOp::SetRegs(regs.pc, regs.fp)),
            r is Err ==> final(self).ops() == old(self).ops(),
    {
        let mut raw = regs.raw;
        raw.rip = regs.pc as u64;
        raw.rbp = regs.fp as u64;
        ptrace::setregs(self.pid, raw)
    }

    /// Relies on `nix::sys::ptrace::step` (PTRACE_SINGLESTEP) with no signal.
    #[verifier::external_body]
    pub(crate) fn single_step(&mut self) -> (r: Result<(), Errno>)
        ensures
            final(self).spec_pid() == old(self).spec_pid(),
            r is Ok ==> final(self).ops() == old(self).ops().push(TraceOp::Stepped),
            r is Err ==> final(self).ops() == old(self).ops(),
    {
        ptrace::step(self.pid, None)
    }

    /// Relies on `nix::sys::ptrace::cont` (PTRACE_CONT), delivering `sig` if
    /// given.
    #[verifier::external_body]
    pub(crate) fn resume(&mut self, sig: Option<Signal>) -> (r: Result<(), Errno>)
        ensures
            final(self).spec_pid() == old(self).spec_pid(),
            r is Ok ==> final(self).ops() == old(self).ops().push(TraceOp::Continued(sig)),
            r is Err ==> final(self).ops() == old(self).ops(),
    {
        ptrace::cont(self.pid, sig)
    }

    /// Relies on `nix::sys::signal::kill` with SIGKILL.
    #[verifier::external_body]
    pub(crate) fn send_kill(&mut self) -> (r: Result<(), Errno>)
        ensures
            final(self).spec_pid() == old(self).spec_pid(),
            r is Ok ==> final(self).ops() == old(self).ops().push(TraceOp::Killed),
            r is Err ==> final(self).ops() == old(self).ops(),
    {
        nix::sys::signal::kill(self.pid, Signal::SIGKILL)
    }

    /// Relies on `nix::sys::wait::waitpid` for this process; each kind of
    /// report is carried over with its fields, the process id dropped.
    #[verifier::external_body]
    pub(crate) fn wait_event(&mut self, options: Option<WaitPidFlag>) -> (r: Result<WaitEvent, Errno>)
        ensures
            final(self).spec_pid() == old(self).spec_pid(),
            r matches Ok(ev) ==> final(self).ops() == old(self).ops().push(TraceOp::Waited(ev)),
            r is Err ==> final(self).ops() == old(self).ops(),
    {
        Ok(match nix::sys::wait::waitpid(self.pid, options)? {
            WaitStatus::Exited(_, code) => WaitEvent::Exited(code),
            WaitStatus::Signaled(_, sig, _) => WaitEvent::Signaled(sig),
            WaitStatus::Stopped(_, sig) => WaitEvent::Stopped(sig),
            _ => WaitEvent::Other,
        })
    }
}

} // verus!
