//! The tracer's decisions at each syscall stop. Every call stops the tracee
//! twice, at entry and at exit, so the supervisor alternates between the two
//! and looks at a `write` only at its entry, before the kernel has read the
//! buffer.
use vstd::prelude::*;

use crate::remote::{words_fit, RemoteError, WRITE_SYSCALL};
use crate::splice::occurs_in;
use crate::syscall::WriteArgs;
use nix::libc::user_regs_struct;
use nix::unistd::Pid;

verus! {

/// Which of a call's two stops comes next.
#[derive(Clone, Copy, Debug, PartialEq, Eq, Structural)]
pub enum Direction {
    Entry,
    Exit,
}

/// The other stop of a call.
pub open spec fn toggled(d: Direction) -> Direction {
    match d {
        Direction::Entry => Direction::Exit,
        Direction::Exit => Direction::Entry,
    }
}

/// What the tracer does after a stop.
#[derive(Clone, Copy, Debug, PartialEq, Eq, Structural)]
pub enum Verdict {
    /// Resume the tracee up to its next syscall stop.
    Resume,
    /// The pattern was scrubbed: detach from the tracee.
    Detach,
}

/// What a syscall stop led to: the verdict, and at the entry of a `write`
/// the buffer that was inspected, as it was read.
#[derive(Debug)]
pub struct Outcome {
    pub verdict: Verdict,
    pub inspected: Option<Vec<u8>>,
}

/// The bytes scrubbed by default: a `--unshare-pid` argument with its
/// terminating NUL.
pub open spec fn default_pattern_bytes() -> Seq<u8> {
    seq![45u8, 45, 117, 110, 115, 104, 97, 114, 101, 45, 112, 105, 100, 0]
}

/// The bytes scrubbed by default: a `--unshare-pid` argument with its
/// terminating NUL.
pub fn default_pattern() -> (r: Vec<u8>)
    ensures
        r@ == default_pattern_bytes(),
{
    let r = vec![
        '-' as u8, '-' as u8, 'u' as u8, 'n' as u8, 's' as u8, 'h' as u8, 'a' as u8, 'r' as u8, 'e' as u8, '-' as u8, 'p' as u8, 'i' as u8, 'd' as u8,
        0u8,
    ];
    assert(r@ =~= default_pattern_bytes());
    r
}

/// The tracer's state: which stop comes next, and the pattern to scrub.
pub struct Supervisor {
    direction: Direction,
    pattern: Vec<u8>,
}

impl Supervisor {
    /// The pattern to scrub.
    pub closed spec fn pattern_view(&self) -> Seq<u8> {
        self.pattern@
    }

    /// Which stop of a call comes next.
    pub closed spec fn next_stop(&self) -> Direction {
        self.direction
    }

    /// Which stop of a call comes next.
    pub fn direction(&self) -> (r: Direction)
        ensures
            r == self.next_stop(),
    {
        self.direction
    }

    /// The pattern is not empty.
    pub open spec fn wf(&self) -> bool {
        self.pattern_view().len() > 0
    }

    /// A supervisor that waits for the entry stop of the first call.
    pub fn new(pattern: Vec<u8>) -> (r: Self)
        requires
            pattern@.len() > 0,
        ensures
            r.wf(),
            r.next_stop() == Direction::Entry,
            r.pattern_view() == pattern@,
    {
        Supervisor { direction: Direction::Entry, pattern }
    }

    /// The pattern to scrub.
    pub fn pattern(&self) -> (r: &[u8])
        ensures
            r@ == self.pattern_view(),
    {
        self.pattern.as_slice()
    }

    /// Records the outcome of a stop: after a scrub the tracer detaches, and
    /// otherwise the next stop is the other stop of a call.
    pub fn advance(&mut self, scrubbed: bool) -> (r: Verdict)
        ensures
            scrubbed ==> r == Verdict::Detach && final(self).next_stop() == old(self).next_stop(),
            !scrubbed ==> r == Verdict::Resume && final(self).next_stop() == toggled(
                old(self).next_stop(),
            ),
            final(self).pattern_view() == old(self).pattern_view(),
    {
        if scrubbed {
            Verdict::Detach
        } else {
            self.direction =
            match self.direction {
                Direction::Entry => Direction::Exit,
                Direction::Exit => Direction::Entry,
            };
            Verdict::Resume
        }
    }

    /// Handles the entry stop of a `write` whose arguments are `args`. When
    /// the pattern stands in its buffer, cuts out its leftmost occurrence,
    /// commits the shortened buffer and length to the tracee and answers
    /// `Detach`; otherwise touches nothing and answers `Resume`.
    pub fn on_write_entry(&mut self, args: WriteArgs) -> (r: Result<Verdict, RemoteError>)
        requires
            old(self).wf(),
            old(self).next_stop() == Direction::Entry,
        ensures
            final(self).wf(),
            final(self).pattern_view() == old(self).pattern_view(),
            !occurs_in(args.buffer(), old(self).pattern_view()) ==> r == Ok::<
                Verdict,
                RemoteError,
            >(Verdict::Resume),
            occurs_in(args.buffer(), old(self).pattern_view()) ==> !(r matches Ok(
                Verdict::Resume,
            )),
            occurs_in(args.buffer(), old(self).pattern_view()) ==> (r matches Err(
                RemoteError::AddressOverflow,
            ) <==> !words_fit(
                args.address(),
                (args.buffer().len() - old(self).pattern_view().len()) as usize,
            )),
            r matches Ok(Verdict::Resume) ==> final(self).next_stop() == Direction::Exit,
            r matches Ok(Verdict::Detach) ==> final(self).next_stop() == Direction::Entry,
    {
        let mut args = args;
        if args.scrub(self.pattern.as_slice()).is_some() {
            args.write_out()?;
            Ok(self.advance(true))
        } else {
            Ok(self.advance(false))
        }
    }

    /// Handles a syscall stop of `pid` with registers `regs`. At the entry
    /// of a `write`, reads its buffer and hands it to `on_write_entry`, and
    /// hands it out as it was read. Every other stop is only counted.
    pub fn on_syscall_stop(&mut self, pid: Pid, regs: user_regs_struct) -> (r: Result<
        Outcome,
        RemoteError,
    >)
        requires
            old(self).wf(),
        ensures
            final(self).wf(),
            final(self).pattern_view() == old(self).pattern_view(),
            (old(self).next_stop() == Direction::Exit || regs.orig_rax != WRITE_SYSCALL) ==> (r matches Ok(o)
                && o.verdict == Verdict::Resume && o.inspected is None),
            (old(self).next_stop() == Direction::Entry && regs.orig_rax == WRITE_SYSCALL
                && regs.rdx == 0) ==> (r matches Ok(o) && o.verdict == Verdict::Resume
                && (o.inspected matches Some(b) && b@.len() == 0)),
            (old(self).next_stop() == Direction::Entry && regs.orig_rax == WRITE_SYSCALL) ==> (
            r matches Err(RemoteError::AddressOverflow) <==> !words_fit(
                regs.rsi as usize,
                regs.rdx as usize,
            )),
            (old(self).next_stop() == Direction::Entry && regs.orig_rax == WRITE_SYSCALL) ==> (
            r matches Ok(o) ==> o.inspected is Some),
            r matches Ok(o) ==> (o.inspected matches Some(b) ==> b@.len() == regs.rdx as usize
                && (o.verdict == Verdict::Detach <==> occurs_in(b@, old(self).pattern_view()))),
            r matches Ok(o) ==> (o.verdict == Verdict::Resume ==> final(self).next_stop()
                == toggled(old(self).next_stop())),
            r matches Ok(o) ==> (o.verdict == Verdict::Detach ==> old(self).next_stop()
                == Direction::Entry && regs.orig_rax == WRITE_SYSCALL && final(self).next_stop()
                == old(self).next_stop()),
    {
        if self.direction == Direction::Entry {
            if let Some(args) = WriteArgs::parse(pid, regs)? {
                let seen = vstd::slice::slice_to_vec(args.contents());
                let verdict = self.on_write_entry(args)?;
                return Ok(Outcome { verdict, inspected: Some(seen) });
            }
        }
        Ok(Outcome { verdict: self.advance(false), inspected: None })
    }
}

} // verus!
