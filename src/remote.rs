//! Access to a stopped tracee's memory, one machine word at a time.
use vstd::prelude::*;

use crate::words::{bytes_from_words, bytes_of_words, word_count, words_to_store, WORD_SIZE};
use nix::errno::Errno;
use nix::libc::user_regs_struct;
use nix::sys::ptrace::AddressType;
use nix::unistd::Pid;

verus! {

#[verifier::external_type_specification]
#[verifier::external_body]
pub struct ExPid(Pid);

#[verifier::external_type_specification]
#[verifier::external_body]
pub struct ExErrno(Errno);

#[verifier::external_type_specification]
pub struct ExUserRegs(user_regs_struct);

/// Relies on nix::sys::ptrace::setregs: one PTRACE_SETREGS with `regs`.
pub assume_specification[ nix::sys::ptrace::setregs ](pid: Pid, regs: user_regs_struct) -> nix::Result<()>;

/// Relies on nix::sys::ptrace::read: one PTRACE_PEEKDATA of the word at
/// `addr`; the word is handed back with its bits unchanged.
#[verifier::external_body]
fn peek_word(pid: Pid, addr: usize) -> (r: Result<u64, Errno>) {
    match nix::sys::ptrace::read(pid, addr as AddressType) {
        Ok(w) => Ok(w as u64),
        Err(e) => Err(e),
    }
}

/// Relies on nix::sys::ptrace::write: one PTRACE_POKEDATA of `word` at `addr`.
#[verifier::external_body]
fn poke_word(pid: Pid, addr: usize, word: u64) -> (r: Result<(), Errno>) {
    nix::sys::ptrace::write(pid, addr as AddressType, word as nix::libc::c_long)
}

/// Syscall number of `write` on x86-64.
pub const WRITE_SYSCALL: u64 = 1;

/// Why an access to the tracee failed.
#[derive(Debug)]
pub enum RemoteError {
    /// The tracing interface refused a word or register access.
    Access(Errno),
    /// The words that cover the buffer do not fit below the top of the
    /// address space.
    AddressOverflow,
}

/// The whole words that cover `len` bytes from `addr` lie inside the address
/// space.
pub open spec fn words_fit(addr: usize, len: usize) -> bool {
    addr + 8 * word_count(len as nat) <= usize::MAX
}

/// Number of words that cover `len` bytes.
fn words_for(len: usize) -> (r: usize)
    ensures
        r == word_count(len as nat),
{
    if len % WORD_SIZE == 0 {
        len / WORD_SIZE
    } else {
        len / WORD_SIZE + 1
    }
}

/// Whether the words that cover `len` bytes from `addr` lie inside the
/// address space.
fn check_words_fit(addr: usize, len: usize) -> (r: bool)
    ensures
        r == words_fit(addr, len),
{
    let count = words_for(len);
    count <= (usize::MAX - addr) / WORD_SIZE
}

/// Reads the `count` words that start at `addr`.
fn read_words(pid: Pid, addr: usize, count: usize) -> (r: Result<Vec<u64>, RemoteError>)
    requires
        addr + 8 * count <= usize::MAX,
    ensures
        r matches Ok(ws) ==> ws@.len() == count,
        r matches Err(e) ==> e is Access,
        count == 0 ==> r is Ok,
{
    let mut words: Vec<u64> = Vec::new();
    let mut i: usize = 0;
    while i < count
        invariant
            addr + 8 * count <= usize::MAX,
            i <= count,
            words@.len() == i,
        decreases count - i,
    {
        match peek_word(pid, addr + WORD_SIZE * i) {
            Ok(w) => words.push(w),
            Err(e) => {
                return Err(RemoteError::Access(e));
            },
        }
        i = i + 1;
    }
    Ok(words)
}

/// Reads `len` bytes of the tracee's memory from `addr`, as the first `len`
/// bytes of the whole words that cover them.
pub fn read_buffer(pid: Pid, len: usize, addr: usize) -> (r: Result<Vec<u8>, RemoteError>)
    ensures
        !words_fit(addr, len) <==> r matches Err(RemoteError::AddressOverflow),
        len == 0 ==> (r matches Ok(bytes) && bytes@.len() == 0),
        r matches Ok(bytes) ==> bytes@.len() == len && exists|ws: Seq<u64>|
            ws.len() == word_count(len as nat) && bytes@ == bytes_of_words(ws, len as nat),
{
    if !check_words_fit(addr, len) {
        return Err(RemoteError::AddressOverflow);
    }
    let words = read_words(pid, addr, words_for(len))?;
    let bytes = bytes_from_words(words.as_slice(), len);
    assert(bytes@ == bytes_of_words(words@, len as nat));
    proof {
        crate::words::lemma_flatten_index(words@);
    }
    Ok(bytes)
}

/// Writes `bytes` into the tracee's memory from `addr`, one whole word at a
/// time: the words of `words_to_store(bytes, resident)`, where `resident` is
/// the word now at the last of them, read first only when `bytes` ends inside
/// it.
pub fn write_buffer(pid: Pid, addr: usize, bytes: &[u8]) -> (r: Result<(), RemoteError>)
    ensures
        !words_fit(addr, bytes@.len() as usize) <==> r matches Err(RemoteError::AddressOverflow),
        bytes@.len() == 0 ==> r is Ok,
{
    let n = bytes.len();
    if !check_words_fit(addr, n) {
        return Err(RemoteError::AddressOverflow);
    }
    let count = words_for(n);
    // whole words take nothing from the words they replace
    let resident = if n % WORD_SIZE == 0 {
        0
    } else {
        match peek_word(pid, addr + WORD_SIZE * (count - 1)) {
            Ok(w) => w,
            Err(e) => {
                return Err(RemoteError::Access(e));
            },
        }
    };
    let words = words_to_store(bytes, resident);
    let mut i: usize = 0;
    while i < count
        invariant
            n == bytes@.len(),
            words_fit(addr, n),
            count == word_count(n as nat),
            words@.len() == count,
            addr + 8 * count <= usize::MAX,
            i <= count,
        decreases count - i,
    {
        if let Err(e) = poke_word(pid, addr + WORD_SIZE * i, words[i]) {
            return Err(RemoteError::Access(e));
        }
        i = i + 1;
    }
    Ok(())
}

} // verus!
