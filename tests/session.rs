use deet::debugger::{BreakStep, Breakpoint, ContinueStep, Debugger, StopReport};
use deet::inferior::{patch_word, word_and_offset, Status, TRAP_BYTE};

#[test]
fn new_session_is_empty() {
    let d = Debugger::new("./samples/segfault");
    assert_eq!(d.target(), "./samples/segfault");
    assert!(d.breakpoints().is_empty());
    assert_eq!(d.inferior_pid(), None);
}

#[test]
fn continue_without_process_changes_nothing() {
    let mut d = Debugger::new("prog");
    assert_eq!(d.add_breakpoint("*0x401000"), BreakStep::Recorded(0x401000));
    let before = d.breakpoints().clone();
    assert_eq!(d.cont(), ContinueStep::NotRunning);
    assert_eq!(d.inferior_pid(), None);
    assert_eq!(*d.breakpoints(), before);
}

#[test]
fn invalid_break_argument() {
    let mut d = Debugger::new("prog");
    assert_eq!(d.add_breakpoint("0x401000"), BreakStep::Invalid);
    assert_eq!(d.add_breakpoint("*xyz"), BreakStep::Invalid);
    assert!(d.breakpoints().is_empty());
}

#[test]
fn setting_a_breakpoint_twice_keeps_one_entry() {
    let mut d = Debugger::new("prog");
    assert_eq!(d.add_breakpoint("*0x401000"), BreakStep::Recorded(0x401000));
    assert_eq!(d.add_breakpoint("*401000"), BreakStep::AlreadySet(0x401000));
    assert_eq!(d.breakpoints().len(), 1);

    // with a running process: the first patch read 0x55, a second one would read the trap
    d.start(42);
    assert_eq!(d.add_breakpoint("*0x402000"), BreakStep::Patch(0x402000));
    d.record_breakpoint(0x402000, 0x55);
    assert_eq!(d.add_breakpoint("*0x402000"), BreakStep::AlreadySet(0x402000));
    d.record_breakpoint(0x402000, TRAP_BYTE);
    assert_eq!(d.breakpoints().len(), 2);
    assert_eq!(d.breakpoints()[&0x402000], Breakpoint { addr: 0x402000, orig_byte: 0x55 });
}

#[test]
fn launch_records_the_image_bytes() {
    let mut d = Debugger::new("prog");
    d.add_breakpoint("*0x401003");
    assert_eq!(d.breakpoints()[&0x401003].orig_byte, 0);
    assert_eq!(d.take_inferior(), None);
    d.start(100);
    // the word at 0x401000 of the unmodified image
    let image: u64 = 0x1122_3344_5566_7788;
    let (aligned, offset) = word_and_offset(0x401003);
    assert_eq!((aligned, offset), (0x401000, 3));
    let (patched, orig) = patch_word(image, offset, TRAP_BYTE);
    assert_eq!(orig, 0x55);
    assert_eq!(((patched >> 24) & 0xff) as u8, TRAP_BYTE);
    d.record_installed(0x401003, orig);
    assert_eq!(d.breakpoints()[&0x401003].orig_byte, 0x55);
    // an address that is not in the table is not added
    d.record_installed(0x500000, 0x12);
    assert_eq!(d.breakpoints().len(), 1);
}

#[test]
fn run_twice_kills_first_and_keeps_breakpoints() {
    let mut d = Debugger::new("prog");
    d.add_breakpoint("*0x401000");
    d.add_breakpoint("*0x401010");
    d.start(7);
    d.record_installed(0x401000, 0x90);
    // second run: the first process is handed out to be killed
    assert_eq!(d.take_inferior(), Some(7));
    assert_eq!(d.inferior_pid(), None);
    assert_eq!(d.breakpoints().len(), 2);
    d.start(8);
    assert_eq!(d.inferior_pid(), Some(8));
    d.record_installed(0x401000, 0x48);
    d.record_installed(0x401010, 0x89);
    assert_eq!(d.breakpoints()[&0x401000].orig_byte, 0x48);
    assert_eq!(d.breakpoints()[&0x401010].orig_byte, 0x89);
}

#[test]
fn exit_and_signal_end_the_process() {
    let mut d = Debugger::new("prog");
    d.start(9);
    assert_eq!(d.on_status(Status::Stopped(5, 0x401001)), StopReport::Stopped(5, 0x401001));
    assert_eq!(d.inferior_pid(), Some(9));
    assert_eq!(d.on_status(Status::Exited(3)), StopReport::Exited(3));
    assert_eq!(d.inferior_pid(), None);
    d.start(10);
    assert_eq!(d.on_status(Status::Signaled(11)), StopReport::Signaled(11));
    assert_eq!(d.inferior_pid(), None);
}

#[test]
fn hit_breakpoint_is_one_before_the_stop_address() {
    let mut d = Debugger::new("prog");
    d.add_breakpoint("*0x401000");
    d.start(11);
    d.record_installed(0x401000, 0x55);
    let bp = d.stop_repair(0x401001, true).unwrap();
    assert_eq!(bp, Breakpoint { addr: 0x401000, orig_byte: 0x55 });
    assert_eq!(bp.addr + 1, 0x401001);
    // unresolved location, or no breakpoint one byte before
    assert_eq!(d.stop_repair(0x401001, false), None);
    assert_eq!(d.stop_repair(0x401000, true), None);
    assert_eq!(d.stop_repair(0, true), None);
}

#[test]
fn continue_after_a_hit_steps_over_and_rearms() {
    let mut d = Debugger::new("prog");
    d.add_breakpoint("*0x401000");
    d.start(12);
    assert_eq!(d.cont(), ContinueStep::Resume);
    assert!(d.stop_repair(0x401001, true).is_some());
    assert_eq!(d.cont(), ContinueStep::StepOver(0x401000));
    assert_eq!(d.cont(), ContinueStep::Resume);
    // a stop that is no breakpoint hit leaves nothing to re-arm
    assert_eq!(d.stop_repair(0x401234, true), None);
    assert_eq!(d.cont(), ContinueStep::Resume);
}

#[test]
fn nothing_to_rearm_after_exit_or_restart() {
    let mut d = Debugger::new("prog");
    d.add_breakpoint("*0x401000");
    d.start(13);
    d.stop_repair(0x401001, true);
    d.on_status(Status::Exited(0));
    assert_eq!(d.cont(), ContinueStep::NotRunning);
    d.start(14);
    assert_eq!(d.cont(), ContinueStep::Resume);
    d.stop_repair(0x401001, true);
    assert_eq!(d.take_inferior(), Some(14));
    d.start(15);
    assert_eq!(d.cont(), ContinueStep::Resume);
}

#[test]
fn restoring_the_recorded_byte_gives_back_the_image() {
    let image: u64 = 0x0102_0304_0506_0708;
    let (trapped, orig) = patch_word(image, 0, TRAP_BYTE);
    assert_eq!(trapped, 0x0102_0304_0506_07cc);
    let (restored, trap) = patch_word(trapped, 0, orig);
    assert_eq!(restored, image);
    assert_eq!(trap, TRAP_BYTE);
}
