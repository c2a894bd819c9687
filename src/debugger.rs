use vstd::prelude::*;
use vstd::string::StringSliceAdditionalSpecFns;
use std::collections::HashMap;
use crate::inferior::{byte_of, lemma_patch_round_trip, with_byte, Status, TRAP_BYTE};

verus! {

/// The value of a hexadecimal digit byte (`0-9`, `a-f`, `A-F`).
pub open spec fn hex_digit(b: u8) -> Option<nat> {
    if 48 <= b <= 57 {
        Some((b - 48) as nat)
    } else if 97 <= b <= 102 {
        Some((b - 87) as nat)
    } else if 65 <= b <= 70 {
        Some((b - 55) as nat)
    } else {
        None
    }
}

/// Whether every byte of `s` is a hexadecimal digit.
pub open spec fn all_hex(s: Seq<u8>) -> bool {
    forall|i: int| 0 <= i < s.len() ==> #[trigger] hex_digit(s[i]) is Some
}

/// The number that the hexadecimal digits `s` write, most significant first.
pub open spec fn hex_value(s: Seq<u8>) -> nat
    decreases s.len(),
{
    if s.len() == 0 {
        0
    } else {
        hex_value(s.drop_last()) * 16 + match hex_digit(s.last()) {
            Some(d) => d,
            None => 0,
        }
    }
}

/// `t` without a leading `0x` or `0X`.
pub open spec fn without_hex_prefix(t: Seq<u8>) -> Seq<u8> {
    if t.len() >= 2 && t[0] == 48 && (t[1] == 120 || t[1] == 88) {
        t.skip(2)
    } else {
        t
    }
}

/// `d` without one leading `+` sign, where digits follow it.
pub open spec fn without_plus(d: Seq<u8>) -> Seq<u8> {
    if d.len() >= 2 && d[0] == 43 {
        d.skip(1)
    } else {
        d
    }
}

/// The address that the text `t` writes in hexadecimal: an optional `0x` prefix, an
/// optional `+`, then one or more hex digits, with a value that fits in a `usize`.
pub open spec fn address_of(t: Seq<u8>) -> Option<usize> {
    let d = without_plus(without_hex_prefix(t));
    if d.len() > 0 && all_hex(d) && hex_value(d) <= usize::MAX {
        Some(hex_value(d) as usize)
    } else {
        None
    }
}

proof fn lemma_hex_value_prefix(s: Seq<u8>, j: int)
    requires
        0 <= j <= s.len(),
    ensures
        hex_value(s.take(j)) <= hex_value(s),
    decreases s.len(),
{
    if j < s.len() {
        assert(s.drop_last().take(j) =~= s.take(j));
        lemma_hex_value_prefix(s.drop_last(), j);
    } else {
        assert(s.take(j) =~= s);
    }
}

fn hex_digit_value(b: u8) -> (r: Option<u8>)
    ensures
        match hex_digit(b) {
            Some(d) => r == Some(d as u8),
            None => r is None,
        },
{
    if 48 <= b && b <= 57 {
        Some(b - 48)
    } else if 97 <= b && b <= 102 {
        Some(b - 87)
    } else if 65 <= b && b <= 70 {
        Some(b - 55)
    } else {
        None
    }
}

/// Reads a `usize` written in hexadecimal, with or without a `0x` prefix.
pub fn parse_address(addr: &str) -> (r: Option<usize>)
    ensures
        r == address_of(addr.spec_bytes()),
{
    let t = addr.as_bytes();
    assert(t@.skip(0) =~= t@);
    address_from(t, 0)
}

/// Reads the hexadecimal address written in `t` from position `from` on.
fn address_from(t: &[u8], from: usize) -> (r: Option<usize>)
    requires
        from <= t@.len(),
    ensures
        r == address_of(t@.skip(from as int)),
{
    let ghost s = t@.skip(from as int);
    let mut start: usize = from;
    if t.len() - from >= 2 && t[from] == 48 && (t[from + 1] == 120 || t[from + 1] == 88) {
        start = from + 2;
    }
    if t.len() - start >= 2 && t[start] == 43 {
        start = start + 1;
    }
    let ghost d = without_plus(without_hex_prefix(s));
    assert(d =~= t@.skip(start as int));
    if start >= t.len() {
        return None;
    }
    let mut acc: usize = 0;
    let mut i: usize = start;
    while i < t.len()
        invariant
            s == t@.skip(from as int),
            d == without_plus(without_hex_prefix(s)),
            d =~= t@.skip(start as int),
            start < t@.len(),
            start <= i <= t@.len(),
            all_hex(d.take(i - start)),
            acc as nat == hex_value(d.take(i - start)),
        decreases t@.len() - i,
    {
        let k = i - start;
        assert(d.take(k + 1).drop_last() =~= d.take(k as int));
        assert(d.take(k + 1).last() == t@[i as int]);
        match hex_digit_value(t[i]) {
            None => {
                assert(d[k as int] == t@[i as int]);
                assert(hex_digit(d[k as int]) is None);
                return None;
            },
            Some(v) => {
                if acc > (usize::MAX - v as usize) / 16 {
                    proof {
                        let a = acc as int;
                        let w = v as int;
                        let m = usize::MAX as int;
                        assert(a * 16 + w > m) by (nonlinear_arith)
                            requires
                                a > (m - w) / 16,
                                0 <= w < 16,
                                m >= 16,
                        ;
                        assert(hex_value(d.take(k + 1)) == a * 16 + w);
                        lemma_hex_value_prefix(d, k + 1);
                    }
                    return None;
                }
                acc = acc * 16 + v as usize;
                assert(all_hex(d.take(k + 1))) by {
                    assert forall|j: int| 0 <= j < k + 1 implies #[trigger] hex_digit(
                        d.take(k + 1)[j],
                    ) is Some by {
                        if j < k {
                            assert(d.take(k + 1)[j] == d.take(k as int)[j]);
                        }
                    }
                }
            },
        }
        i += 1;
    }
    assert(d.take(d.len() as int) =~= d);
    Some(acc)
}

/// The address that a `break` argument names: `*` followed by a hexadecimal address.
pub open spec fn breakpoint_target(t: Seq<u8>) -> Option<usize> {
    if t.len() >= 1 && t[0] == 42 {
        address_of(t.skip(1))
    } else {
        None
    }
}

/// Reads the address of a `break` argument of the form `*<hex-address>`.
pub fn parse_breakpoint_target(location: &str) -> (r: Option<usize>)
    ensures
        r == breakpoint_target(location.spec_bytes()),
{
    let t = location.as_bytes();
    if t.len() >= 1 && t[0] == 42 {
        address_from(t, 1)
    } else {
        None
    }
}

/// A breakpoint: its address, and the byte that the trap byte replaced there.
#[derive(Debug, Clone, Copy, PartialEq, Eq, Structural)]
pub struct Breakpoint {
    pub addr: usize,
    pub orig_byte: u8,
}

/// The breakpoint table `m` after recording a breakpoint at `addr` whose replaced byte
/// is `orig`: an address already in the table keeps its entry and its byte.
pub open spec fn recorded(m: Map<usize, Breakpoint>, addr: usize, orig: u8) -> Map<
    usize,
    Breakpoint,
> {
    if m.contains_key(addr) {
        m
    } else {
        m.insert(addr, Breakpoint { addr, orig_byte: orig })
    }
}

/// The breakpoint table `m` after a launch installed the breakpoint at `addr` and read
/// `orig` as the byte it replaced: only an entry that is there is updated.
pub open spec fn installed(m: Map<usize, Breakpoint>, addr: usize, orig: u8) -> Map<
    usize,
    Breakpoint,
> {
    if m.contains_key(addr) {
        m.insert(addr, Breakpoint { addr, orig_byte: orig })
    } else {
        m
    }
}

/// Whether every entry of a breakpoint table is keyed by its own address.
pub open spec fn keyed_by_address(m: Map<usize, Breakpoint>) -> bool {
    forall|a: usize| #[trigger] m.contains_key(a) ==> m[a].addr == a
}

/// What a `break` command asks for next.
#[derive(Debug, Clone, Copy, PartialEq, Eq, Structural)]
pub enum BreakStep {
    /// The argument is not `*` followed by a hexadecimal address.
    Invalid,
    /// A breakpoint is already set at this address; nothing changes.
    AlreadySet(usize),
    /// No program runs: the breakpoint was recorded, to be installed at the next launch.
    Recorded(usize),
    /// A program runs: the trap byte must be written at this address, and the replaced
    /// byte then recorded.
    Patch(usize),
}

/// What a wait on the running program means for the session.
#[derive(Debug, Clone, Copy, PartialEq, Eq, Structural)]
pub enum StopReport {
    /// The program exited with this code; it no longer runs.
    Exited(i32),
    /// The program was killed by this signal; it no longer runs.
    Signaled(i32),
    /// The program stopped on this signal at this instruction pointer.
    Stopped(i32, usize),
}

/// What a `continue` command asks for next.
#[derive(Debug, Clone, Copy, PartialEq, Eq, Structural)]
pub enum ContinueStep {
    /// No program runs: nothing is to be done.
    NotRunning,
    /// Resume the program and wait for its next stop.
    Resume,
    /// The program stands on the restored instruction of the breakpoint at this address:
    /// execute that one instruction, write the trap byte back there, then resume.
    StepOver(usize),
}

/// A debugging session: the target program, the breakpoint table, the process id of the
/// program while one runs under trace, and the breakpoint that its last stop disarmed.
///
/// A breakpoint that is hit has its original byte written back so that the instruction
/// under it can run; the next `continue` steps over that instruction and re-arms the
/// breakpoint before it lets the program run on.
pub struct Debugger {
    target: String,
    inferior: Option<u32>,
    breakpoints: HashMap<usize, Breakpoint>,
    rearm: Option<usize>,
}

impl Debugger {
    /// The breakpoint table, keyed by address.
    pub closed spec fn table(&self) -> Map<usize, Breakpoint> {
        self.breakpoints@
    }

    /// The process id of the running program, if one runs.
    pub closed spec fn live(&self) -> Option<u32> {
        self.inferior
    }

    /// The path of the target program.
    pub closed spec fn target_path(&self) -> Seq<char> {
        self.target@
    }

    /// The breakpoint that the last stop disarmed, to be re-armed at the next `continue`.
    pub closed spec fn pending_rearm(&self) -> Option<usize> {
        self.rearm
    }

    /// The session's invariant.
    pub open spec fn wf(&self) -> bool {
        keyed_by_address(self.table())
    }

    /// Starts a session on a target program, with no breakpoint and no running program.
    pub fn new(target: &str) -> (r: Debugger)
        ensures
            r.wf(),
            r.table() == Map::<usize, Breakpoint>::empty(),
            r.live() is None,
            r.pending_rearm() is None,
            r.target_path() == target@,
    {
        Debugger {
            target: target.to_owned(),
            inferior: None,
            breakpoints: HashMap::new(),
            rearm: None,
        }
    }

    /// The path of the target program.
    pub fn target(&self) -> (r: &str)
        ensures
            r@ == self.target_path(),
    {
        self.target.as_str()
    }

    /// The breakpoint table.
    pub fn breakpoints(&self) -> (r: &HashMap<usize, Breakpoint>)
        ensures
            r@ == self.table(),
    {
        &self.breakpoints
    }

    /// The process id of the running program, if one runs.
    pub fn inferior_pid(&self) -> (r: Option<u32>)
        ensures
            r == self.live(),
    {
        self.inferior
    }

    /// The `continue` command. Where no program runs, nothing is to be done and the
    /// session is left as it is. Otherwise the program is resumed, after a step over
    /// the breakpoint that its last stop disarmed, if any.
    pub fn cont(&mut self) -> (r: ContinueStep)
        ensures
            final(self).table() == old(self).table(),
            final(self).live() == old(self).live(),
            final(self).target_path() == old(self).target_path(),
            old(self).live() is None ==> r == ContinueStep::NotRunning && *final(self)
                == *old(self),
            old(self).live() is Some ==> final(self).pending_rearm() is None && r == match old(
                self,
            ).pending_rearm() {
                Some(a) => ContinueStep::StepOver(a),
                None => ContinueStep::Resume,
            },
    {
        if self.inferior.is_none() {
            return ContinueStep::NotRunning;
        }
        match self.rearm.take() {
            Some(a) => ContinueStep::StepOver(a),
            None => ContinueStep::Resume,
        }
    }

    /// Takes the running program out of the session, so that it is killed before it is
    /// dropped or replaced. The breakpoint table is kept.
    pub fn take_inferior(&mut self) -> (r: Option<u32>)
        ensures
            r == old(self).live(),
            final(self).live() is None,
            final(self).pending_rearm() is None,
            final(self).table() == old(self).table(),
            final(self).target_path() == old(self).target_path(),
    {
        let r = self.inferior;
        self.inferior = None;
        self.rearm = None;
        r
    }

    /// Records a freshly launched program. The previous one must have been taken out
    /// (and killed) first.
    pub fn start(&mut self, pid: u32)
        requires
            old(self).live() is None,
        ensures
            final(self).live() == Some(pid),
            final(self).pending_rearm() == old(self).pending_rearm(),
            final(self).table() == old(self).table(),
            final(self).target_path() == old(self).target_path(),
    {
        self.inferior = Some(pid);
    }

    /// Records the byte that a launch found at a breakpoint's address when it wrote the
    /// trap byte there.
    pub fn record_installed(&mut self, addr: usize, orig: u8)
        requires
            old(self).wf(),
        ensures
            final(self).wf(),
            final(self).table() == installed(old(self).table(), addr, orig),
            final(self).live() == old(self).live(),
            final(self).pending_rearm() == old(self).pending_rearm(),
            final(self).target_path() == old(self).target_path(),
    {
        broadcast use vstd::std_specs::hash::group_hash_axioms;

        if self.breakpoints.contains_key(&addr) {
            self.breakpoints.insert(addr, Breakpoint { addr, orig_byte: orig });
        }
    }

    /// The `break` command: decides from its argument what to do next.
    pub fn add_breakpoint(&mut self, location: &str) -> (r: BreakStep)
        requires
            old(self).wf(),
        ensures
            final(self).wf(),
            final(self).live() == old(self).live(),
            final(self).pending_rearm() == old(self).pending_rearm(),
            final(self).target_path() == old(self).target_path(),
            match breakpoint_target(location.spec_bytes()) {
                None => r == BreakStep::Invalid && final(self).table() == old(self).table(),
                Some(a) => if old(self).table().contains_key(a) {
                    r == BreakStep::AlreadySet(a) && final(self).table() == old(self).table()
                } else if old(self).live() is None {
                    r == BreakStep::Recorded(a) && final(self).table() == recorded(
                        old(self).table(),
                        a,
                        0,
                    )
                } else {
                    r == BreakStep::Patch(a) && final(self).table() == old(self).table()
                },
            },
    {
        broadcast use vstd::std_specs::hash::group_hash_axioms;

        match parse_breakpoint_target(location) {
            None => BreakStep::Invalid,
            Some(a) => {
                if self.breakpoints.contains_key(&a) {
                    BreakStep::AlreadySet(a)
                } else if self.inferior.is_none() {
                    self.breakpoints.insert(a, Breakpoint { addr: a, orig_byte: 0 });
                    BreakStep::Recorded(a)
                } else {
                    BreakStep::Patch(a)
                }
            },
        }
    }

    /// Records a breakpoint whose trap byte was written into the running program,
    /// replacing `orig`. An address already in the table keeps its first byte.
    pub fn record_breakpoint(&mut self, addr: usize, orig: u8)
        requires
            old(self).wf(),
        ensures
            final(self).wf(),
            final(self).table() == recorded(old(self).table(), addr, orig),
            final(self).live() == old(self).live(),
            final(self).pending_rearm() == old(self).pending_rearm(),
            final(self).target_path() == old(self).target_path(),
    {
        broadcast use vstd::std_specs::hash::group_hash_axioms;

        if !self.breakpoints.contains_key(&addr) {
            self.breakpoints.insert(addr, Breakpoint { addr, orig_byte: orig });
        }
    }

    /// Takes in the status that a wait on the running program gave: a program that
    /// exited or was killed by a signal leaves the session, with nothing to re-arm.
    pub fn on_status(&mut self, status: Status) -> (r: StopReport)
        ensures
            final(self).table() == old(self).table(),
            final(self).target_path() == old(self).target_path(),
            match status {
                Status::Exited(code) => {
                    &&& r == StopReport::Exited(code)
                    &&& final(self).live() is None
                    &&& final(self).pending_rearm() is None
                },
                Status::Signaled(sig) => {
                    &&& r == StopReport::Signaled(sig)
                    &&& final(self).live() is None
                    &&& final(self).pending_rearm() is None
                },
                Status::Stopped(sig, rip) => {
                    &&& r == StopReport::Stopped(sig, rip)
                    &&& final(self).live() == old(self).live()
                    &&& final(self).pending_rearm() == old(self).pending_rearm()
                },
            },
    {
        match status {
            Status::Exited(code) => {
                self.inferior = None;
                self.rearm = None;
                StopReport::Exited(code)
            },
            Status::Signaled(sig) => {
                self.inferior = None;
                self.rearm = None;
                StopReport::Signaled(sig)
            },
            Status::Stopped(sig, rip) => StopReport::Stopped(sig, rip),
        }
    }

    /// After a stop at `rip` whose source location was resolved: the breakpoint whose
    /// trap byte was just executed, if any. The trap instruction is one byte long, so
    /// that breakpoint sits at `rip - 1`; the caller rewinds the instruction pointer to
    /// its address and writes its original byte back there. The breakpoint is then due
    /// to be re-armed at the next `continue`.
    pub fn stop_repair(&mut self, rip: usize, location_known: bool) -> (r: Option<Breakpoint>)
        requires
            old(self).wf(),
        ensures
            r == (if location_known && rip >= 1 && old(self).table().contains_key(
                (rip - 1) as usize,
            ) {
                Some(old(self).table()[(rip - 1) as usize])
            } else {
                None
            }),
            r matches Some(bp) ==> bp.addr + 1 == rip && final(self).pending_rearm() == Some(
                bp.addr,
            ),
            r is None ==> final(self).pending_rearm() == old(self).pending_rearm(),
            final(self).wf(),
            final(self).table() == old(self).table(),
            final(self).live() == old(self).live(),
            final(self).target_path() == old(self).target_path(),
    {
        broadcast use vstd::std_specs::hash::group_hash_axioms;

        if !location_known || rip == 0 {
            return None;
        }
        let a = rip - 1;
        match self.breakpoints.get(&a) {
            Some(bp) => {
                self.rearm = Some(bp.addr);
                Some(*bp)
            },
            None => None,
        }
    }
}

/// Setting a breakpoint at an address that is already in the table adds no entry and
/// keeps the byte that was recorded first, whatever byte the second attempt read.
pub proof fn lemma_set_twice(m: Map<usize, Breakpoint>, addr: usize, first: u8, second: u8)
    requires
        keyed_by_address(m),
    ensures
        recorded(recorded(m, addr, first), addr, second) == recorded(m, addr, first),
        recorded(m, addr, first).dom() == m.dom().insert(addr),
        recorded(m, addr, first)[addr].orig_byte == (if m.contains_key(addr) {
            m[addr].orig_byte
        } else {
            first
        }),
        keyed_by_address(recorded(m, addr, first)),
{
    assert(recorded(m, addr, first).dom() =~= m.dom().insert(addr));
}

/// A breakpoint installed at launch, in the word `image` read from the unmodified
/// program, records the byte of the image at its address and leaves the trap byte
/// there; when it is hit, writing the recorded byte back gives the image word again.
pub proof fn lemma_install_then_restore(
    m: Map<usize, Breakpoint>,
    addr: usize,
    image: u64,
    offset: u64,
)
    requires
        keyed_by_address(m),
        m.contains_key(addr),
        offset < 8,
    ensures
        installed(m, addr, byte_of(image, offset))[addr].orig_byte == byte_of(image, offset),
        byte_of(with_byte(image, offset, TRAP_BYTE), offset) == TRAP_BYTE,
        with_byte(
            with_byte(image, offset, TRAP_BYTE),
            offset,
            installed(m, addr, byte_of(image, offset))[addr].orig_byte,
        ) == image,
        installed(m, addr, byte_of(image, offset)).dom() == m.dom(),
        keyed_by_address(installed(m, addr, byte_of(image, offset))),
{
    lemma_patch_round_trip(image, offset, TRAP_BYTE);
    assert(installed(m, addr, byte_of(image, offset)).dom() =~= m.dom());
}

} // verus!
