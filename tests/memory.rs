use deet::inferior::{
    align_addr_to_word, backtrace_step, caller_frame_slots, is_entry_function, is_initial_trace_stop,
    patch_word, word_and_offset, Status, WalkStep,
};
use std::collections::HashMap;

#[test]
fn align_rounds_down_to_words() {
    assert_eq!(align_addr_to_word(0x401003), 0x401000);
    assert_eq!(align_addr_to_word(0x401008), 0x401008);
    assert_eq!(align_addr_to_word(7), 0);
    assert_eq!(align_addr_to_word(usize::MAX), usize::MAX - 7);
    assert_eq!(word_and_offset(0x40100f), (0x401008, 7));
}

#[test]
fn patch_replaces_one_byte() {
    let (w, orig) = patch_word(0x1122_3344_5566_7788, 3, 0xcc);
    assert_eq!(w, 0x1122_3344_cc66_7788);
    assert_eq!(orig, 0x55);
    let (w, orig) = patch_word(0x1122_3344_5566_7788, 7, 0x00);
    assert_eq!(w, 0x0022_3344_5566_7788);
    assert_eq!(orig, 0x11);
}

#[test]
fn patch_round_trip() {
    let word: u64 = 0xdead_beef_0bad_f00d;
    for offset in 0..8 {
        let (patched, orig) = patch_word(word, offset, 0xcc);
        let (back, again) = patch_word(patched, offset, orig);
        assert_eq!(back, word);
        assert_eq!(again, 0xcc);
    }
}

#[test]
fn statuses() {
    assert!(is_initial_trace_stop(&Status::Stopped(5, 0x1000)));
    assert!(!is_initial_trace_stop(&Status::Stopped(11, 0x1000)));
    assert!(!is_initial_trace_stop(&Status::Exited(0)));
    assert!(!is_initial_trace_stop(&Status::Signaled(5)));
}

#[test]
fn frame_slots() {
    assert_eq!(caller_frame_slots(0x7ffd_0000), Some((0x7ffd_0008, 0x7ffd_0000)));
    assert_eq!(caller_frame_slots(u64::MAX - 8), Some((u64::MAX, u64::MAX - 8)));
    assert_eq!(caller_frame_slots(u64::MAX - 7), None);
}

#[test]
fn walk_steps() {
    assert_eq!(backtrace_step(false, Some("f")), WalkStep::NoCode);
    assert_eq!(backtrace_step(true, None), WalkStep::Unresolved);
    assert_eq!(backtrace_step(true, Some("main")), WalkStep::Last);
    assert_eq!(backtrace_step(true, Some("mainly")), WalkStep::Unwind);
    assert!(is_entry_function("main"));
    assert!(!is_entry_function("Main"));
}

fn lookup(rip: u64) -> Option<(&'static str, &'static str)> {
    match rip {
        0x1100..=0x11ff => Some(("g", "prog.c:3")),
        0x1200..=0x12ff => Some(("f", "prog.c:8")),
        0x1300..=0x13ff => Some(("main", "prog.c:13")),
        _ => None,
    }
}

#[test]
fn backtrace_of_two_level_call_chain() {
    // stopped in g, called from f, called from main
    let mut stack: HashMap<u64, u64> = HashMap::new();
    stack.insert(0x7000, 0x7100); // g's saved frame pointer: f's frame
    stack.insert(0x7008, 0x1234); // return address into f
    stack.insert(0x7100, 0x7200); // f's saved frame pointer: main's frame
    stack.insert(0x7108, 0x1320); // return address into main
    let (mut rip, mut rbp): (u64, u64) = (0x1150, 0x7000);
    let mut lines: Vec<String> = Vec::new();
    loop {
        let found = lookup(rip);
        let step = backtrace_step(found.is_some(), found.map(|f| f.0));
        match step {
            WalkStep::NoCode | WalkStep::Unresolved => break,
            WalkStep::Last | WalkStep::Unwind => {
                let (func, line) = found.unwrap();
                lines.push(format!("{} ({})", func, line));
                if step == WalkStep::Last {
                    break;
                }
                let (ret_slot, fp_slot) = caller_frame_slots(rbp).unwrap();
                rip = stack[&ret_slot];
                rbp = stack[&fp_slot];
            }
        }
    }
    assert_eq!(lines, vec!["g (prog.c:3)", "f (prog.c:8)", "main (prog.c:13)"]);
}
