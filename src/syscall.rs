//! The arguments of an intercepted `write` call, captured at its entry stop.
use vstd::prelude::*;

use crate::remote::{read_buffer, words_fit, write_buffer, RemoteError, WRITE_SYSCALL};
use crate::words::{bytes_of_words, word_count};
use crate::splice::{is_first_match, occurs_in, remove_range, scrub, without_region};
use nix::libc::user_regs_struct;
use nix::unistd::Pid;

verus! {

/// A `write` call stopped at its entry: where its buffer lies in the tracee,
/// a local copy of that buffer, and the registers it was stopped with.
pub struct WriteArgs {
    pub addr: usize,
    contents: Vec<u8>,
    orig_regs: user_regs_struct,
    pid: Pid,
}

/// `regs` with the length argument of the call set to `len`.
pub open spec fn with_length(regs: user_regs_struct, len: u64) -> user_regs_struct {
    user_regs_struct { rdx: len, ..regs }
}

impl WriteArgs {
    /// The local copy of the buffer.
    pub closed spec fn buffer(&self) -> Seq<u8> {
        self.contents@
    }

    /// Where the buffer lies in the tracee.
    pub closed spec fn address(&self) -> usize {
        self.addr
    }

    /// The registers the call was stopped with.
    pub closed spec fn registers(&self) -> user_regs_struct {
        self.orig_regs
    }

    /// The traced process.
    pub closed spec fn process(&self) -> Pid {
        self.pid
    }

    /// Captures the arguments of the call that `regs` was stopped at, when it
    /// is a `write`, reading its buffer from the tracee. Any other call gives
    /// `None` and reads nothing.
    pub fn parse(pid: Pid, regs: user_regs_struct) -> (r: Result<Option<Self>, RemoteError>)
        ensures
            regs.orig_rax != WRITE_SYSCALL ==> r matches Ok(None),
            regs.orig_rax == WRITE_SYSCALL ==> !(r matches Ok(None)),
            regs.orig_rax == WRITE_SYSCALL && regs.rdx == 0 ==> r matches Ok(Some(_)),
            regs.orig_rax == WRITE_SYSCALL ==> (r matches Err(RemoteError::AddressOverflow)
                <==> !words_fit(regs.rsi as usize, regs.rdx as usize)),
            r matches Ok(Some(a)) ==> {
                &&& a.address() == regs.rsi as usize
                &&& a.buffer().len() == regs.rdx as usize
                &&& exists|ws: Seq<u64>|
                    ws.len() == word_count(regs.rdx as usize as nat) && a.buffer()
                        == bytes_of_words(ws, regs.rdx as usize as nat)
                &&& a.registers() == regs
                &&& a.process() == pid
            },
    {
        if regs.orig_rax == WRITE_SYSCALL {
            let addr = regs.rsi as usize;
            let len = regs.rdx as usize;
            let contents = read_buffer(pid, len, addr)?;
            Ok(Some(WriteArgs { addr, orig_regs: regs, pid, contents }))
        } else {
            Ok(None)
        }
    }

    /// The local copy of the buffer.
    pub fn contents(&self) -> (r: &[u8])
        ensures
            r@ == self.buffer(),
    {
        self.contents.as_slice()
    }

    /// Cuts the half-open region `range` out of the local copy of the buffer.
    pub fn remove_region(&mut self, range: std::ops::Range<usize>)
        requires
            range.start <= range.end <= old(self).buffer().len(),
        ensures
            final(self).buffer() == without_region(
                old(self).buffer(),
                range.start as int,
                range.end as int,
            ),
            final(self).address() == old(self).address(),
            final(self).registers() == old(self).registers(),
            final(self).process() == old(self).process(),
    {
        remove_range(&mut self.contents, range);
    }

    /// Removes the leftmost occurrence of `pattern` from the local copy of the
    /// buffer, if there is one, and returns the offset it stood at.
    pub fn scrub(&mut self, pattern: &[u8]) -> (r: Option<usize>)
        requires
            pattern@.len() > 0,
        ensures
            match r {
                Some(k) => {
                    &&& is_first_match(old(self).buffer(), pattern@, k as int)
                    &&& final(self).buffer() == without_region(
                        old(self).buffer(),
                        k as int,
                        k + pattern@.len(),
                    )
                },
                None => !occurs_in(old(self).buffer(), pattern@) && final(self).buffer() == old(
                    self,
                ).buffer(),
            },
            final(self).address() == old(self).address(),
            final(self).registers() == old(self).registers(),
            final(self).process() == old(self).process(),
    {
        scrub(&mut self.contents, pattern)
    }

    /// The registers to resume the call with: those it was stopped with, its
    /// length argument set to the length of the local buffer.
    pub fn committed_registers(&self) -> (r: user_regs_struct)
        ensures
            r == with_length(self.registers(), self.buffer().len() as u64),
    {
        let mut regs = self.orig_regs;
        regs.rdx = self.contents.len() as u64;
        regs
    }

    /// Writes the local buffer back over the call's buffer in the tracee and
    /// sets the call's length argument to the local buffer's length.
    pub fn write_out(self) -> (r: Result<(), RemoteError>)
        ensures
            r matches Err(RemoteError::AddressOverflow) <==> !words_fit(
                self.address(),
                self.buffer().len() as usize,
            ),
    {
        write_buffer(self.pid, self.addr, self.contents.as_slice())?;
        let regs = self.committed_registers();
        match nix::sys::ptrace::setregs(self.pid, regs) {
            Ok(()) => Ok(()),
            Err(e) => Err(RemoteError::Access(e)),
        }
    }
}

} // verus!
