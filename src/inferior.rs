use vstd::prelude::*;
use vstd::string::StringSliceAdditionalSpecFns;

verus! {

/// Number of bytes in one word of traced memory.
pub const WORD_BYTES: usize = 8;

/// The signal number of `SIGTRAP`, which reports a trap to the tracer.
pub const SIGTRAP: i32 = 5;

/// The byte of the one-byte trap instruction (`int3`).
pub const TRAP_BYTE: u8 = 0xcc;

/// The word-aligned address at or below `addr`.
pub open spec fn aligned(addr: int) -> int {
    addr - addr % (WORD_BYTES as int)
}

/// Byte number `k` (little-endian) of the word `w`.
#[verifier::inline]
pub open spec fn byte_of(w: u64, k: u64) -> u8 {
    ((w >> (8 * k)) & 0xff) as u8
}

/// The word `w` with its byte number `k` replaced by `v`, all other bytes kept.
#[verifier::inline]
pub open spec fn with_byte(w: u64, k: u64, v: u8) -> u64 {
    (w & !(0xffu64 << (8 * k))) | ((v as u64) << (8 * k))
}

/// Rounds an address down to the start of the memory word that holds it.
pub fn align_addr_to_word(addr: usize) -> (r: usize)
    ensures
        r as int == aligned(addr as int),
        r % WORD_BYTES == 0,
        r <= addr < r + WORD_BYTES,
{
    addr - addr % WORD_BYTES
}

/// Splits an address into the aligned word that holds it and the byte's offset in that word.
pub fn word_and_offset(addr: usize) -> (r: (usize, usize))
    ensures
        r.0 as int == aligned(addr as int),
        r.1 < WORD_BYTES,
        r.0 + r.1 == addr,
{
    let word = align_addr_to_word(addr);
    (word, addr - word)
}

/// The read-modify-write step of a byte patch: given the word read from memory, the
/// byte's offset in it and the new byte, returns the word to write back and the byte
/// that was there before.
pub fn patch_word(word: u64, offset: usize, val: u8) -> (r: (u64, u8))
    requires
        offset < WORD_BYTES,
    ensures
        r.1 == byte_of(word, offset as u64),
        r.0 == with_byte(word, offset as u64, val),
        byte_of(r.0, offset as u64) == val,
        forall|k: u64| k < 8 && k != offset ==> #[trigger] byte_of(r.0, k) == byte_of(word, k),
{
    let k: u64 = offset as u64;
    let shift: u64 = 8 * k;
    let orig: u8 = ((word >> shift) & 0xff) as u8;
    let masked: u64 = word & !(0xffu64 << shift);
    let updated: u64 = masked | ((val as u64) << shift);
    assert(byte_of(updated, k) == val) by (bit_vector)
        requires
            k < 8,
            shift == 8 * k,
            updated == (word & !(0xffu64 << shift)) | ((val as u64) << shift),
    ;
    assert forall|j: u64| j < 8 && j != k implies #[trigger] byte_of(updated, j) == byte_of(word, j) by {
        assert(byte_of(updated, j) == byte_of(word, j)) by (bit_vector)
            requires
                k < 8,
                j < 8,
                j != k,
                shift == 8 * k,
                updated == (word & !(0xffu64 << shift)) | ((val as u64) << shift),
        ;
    }
    (updated, orig)
}

/// Patching a byte and then patching back the byte that the first patch returned
/// gives back the word as it was.
pub proof fn lemma_patch_round_trip(word: u64, offset: u64, val: u8)
    requires
        offset < 8,
    ensures
        with_byte(with_byte(word, offset, val), offset, byte_of(word, offset)) == word,
        byte_of(with_byte(word, offset, val), offset) == val,
{
    assert(with_byte(with_byte(word, offset, val), offset, byte_of(word, offset)) == word)
        by (bit_vector)
        requires
            offset < 8,
    ;
    assert(byte_of(with_byte(word, offset, val), offset) == val) by (bit_vector)
        requires
            offset < 8,
    ;
}

} // verus!

verus! {

/// How a wait on the traced process ended.
#[derive(Debug, Clone, Copy, PartialEq, Eq, Structural)]
pub enum Status {
    /// The process stopped: the signal that stopped it, and its instruction pointer.
    Stopped(i32, usize),
    /// The process exited normally, with this exit code.
    Exited(i32),
    /// The process was killed by this signal.
    Signaled(i32),
}

/// Whether a status is the trap stop that a freshly traced child reports before it runs
/// any instruction of the target program.
pub fn is_initial_trace_stop(status: &Status) -> (r: bool)
    ensures
        r == (status matches Status::Stopped(sig, _) && sig == SIGTRAP),
{
    match status {
        Status::Stopped(sig, _) => *sig == SIGTRAP,
        _ => false,
    }
}

/// The name of the designated entry function, where a backtrace ends.
pub open spec fn entry_name() -> Seq<u8> {
    // "main"
    seq![109u8, 97u8, 105u8, 110u8]
}

/// Whether a function name is that of the program's entry function.
pub fn is_entry_function(name: &str) -> (r: bool)
    ensures
        r == (name.spec_bytes() == entry_name()),
{
    let b = name.as_bytes();
    let r = b.len() == 4 && b[0] == 109 && b[1] == 97 && b[2] == 105 && b[3] == 110;
    assert(r ==> b@ =~= entry_name());
    r
}

/// What a backtrace does at one frame.
#[derive(Debug, Clone, Copy, PartialEq, Eq, Structural)]
pub enum WalkStep {
    /// No source line is known for the instruction pointer: the walk reports that and ends.
    NoCode,
    /// No function is known for the instruction pointer: the walk ends silently.
    Unresolved,
    /// The frame is printed, and it is the entry function's: the walk ends there.
    Last,
    /// The frame is printed, and the walk goes on to the caller's frame.
    Unwind,
}

/// Decides one step of a frame-pointer backtrace from what the symbol lookup gave for
/// the frame's instruction pointer.
pub fn backtrace_step(line_known: bool, func: Option<&str>) -> (r: WalkStep)
    ensures
        !line_known ==> r == WalkStep::NoCode,
        line_known && func is None ==> r == WalkStep::Unresolved,
        line_known && func is Some ==> r == (if func->0.spec_bytes() == entry_name() {
            WalkStep::Last
        } else {
            WalkStep::Unwind
        }),
{
    if !line_known {
        return WalkStep::NoCode;
    }
    match func {
        None => WalkStep::Unresolved,
        Some(name) => {
            if is_entry_function(name) {
                WalkStep::Last
            } else {
                WalkStep::Unwind
            }
        },
    }
}

/// The two stack slots of a frame: the caller's return address at `frame + 8`, and the
/// caller's saved frame pointer at `frame`. `None` where the first slot's address does
/// not fit in a word.
pub fn caller_frame_slots(frame: u64) -> (r: Option<(u64, u64)>)
    ensures
        frame + 8 <= u64::MAX ==> r == Some(((frame + 8) as u64, frame)),
        frame + 8 > u64::MAX ==> r is None,
{
    if frame <= u64::MAX - 8 {
        Some((frame + 8, frame))
    } else {
        None
    }
}

} // verus!
