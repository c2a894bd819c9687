use vstd::prelude::*;
use vstd::string::StringSliceAdditionalSpecFns;

verus! {

/// A command of the debugger's command line.
#[derive(Debug)]
pub enum DebuggerCommand {
    /// `quit` / `q`: kill any running program and leave.
    Quit,
    /// `run` / `r`, with the program's arguments: (re)start the program.
    Run(Vec<String>),
    /// `continue` / `cont` / `c`: resume the stopped program.
    Continue,
    /// `backtrace` / `back` / `bt`: print the call stack.
    Backtrace,
    /// `break` / `b`, with the breakpoint's location text.
    Break(String),
}

// "q", "quit"
pub open spec fn is_quit_word(t: Seq<u8>) -> bool {
    t == seq![113u8] || t == seq![113u8, 117u8, 105u8, 116u8]
}

// "r", "run"
pub open spec fn is_run_word(t: Seq<u8>) -> bool {
    t == seq![114u8] || t == seq![114u8, 117u8, 110u8]
}

// "c", "cont", "continue"
pub open spec fn is_continue_word(t: Seq<u8>) -> bool {
    t == seq![99u8] || t == seq![99u8, 111u8, 110u8, 116u8] || t == seq![
        99u8,
        111u8,
        110u8,
        116u8,
        105u8,
        110u8,
        117u8,
        101u8,
    ]
}

// "bt", "back", "backtrace"
pub open spec fn is_backtrace_word(t: Seq<u8>) -> bool {
    t == seq![98u8, 116u8] || t == seq![98u8, 97u8, 99u8, 107u8] || t == seq![
        98u8,
        97u8,
        99u8,
        107u8,
        116u8,
        114u8,
        97u8,
        99u8,
        101u8,
    ]
}

// "b", "break"
pub open spec fn is_break_word(t: Seq<u8>) -> bool {
    t == seq![98u8] || t == seq![98u8, 114u8, 101u8, 97u8, 107u8]
}

/// What the command line `toks` means: `r` is the command, or `None` for a line that
/// names no command (an empty line, an unknown word, or `break` without a location).
pub open spec fn parsed_as(toks: Seq<&str>, r: Option<DebuggerCommand>) -> bool {
    if toks.len() == 0 {
        r is None
    } else {
        let t = toks[0].spec_bytes();
        if is_quit_word(t) {
            r matches Some(DebuggerCommand::Quit)
        } else if is_run_word(t) {
            match r {
                Some(DebuggerCommand::Run(args)) => {
                    &&& args@.len() == toks.len() - 1
                    &&& forall|i: int| 0 <= i < args@.len() ==> #[trigger] args@[i]@ == toks[i + 1]@
                },
                _ => false,
            }
        } else if is_continue_word(t) {
            r matches Some(DebuggerCommand::Continue)
        } else if is_backtrace_word(t) {
            r matches Some(DebuggerCommand::Backtrace)
        } else if is_break_word(t) {
            if toks.len() < 2 {
                r is None
            } else {
                match r {
                    Some(DebuggerCommand::Break(loc)) => loc@ == toks[1]@,
                    _ => false,
                }
            }
        } else {
            r is None
        }
    }
}

/// Whether the bytes of a token equal `word`.
fn token_is(tok: &str, word: &[u8]) -> (r: bool)
    ensures
        r == (tok.spec_bytes() == word@),
{
    let b = tok.as_bytes();
    if b.len() != word.len() {
        return false;
    }
    let mut i: usize = 0;
    while i < b.len()
        invariant
            b@ == tok.spec_bytes(),
            b@.len() == word@.len(),
            i <= b@.len(),
            forall|j: int| 0 <= j < i ==> b@[j] == word@[j],
        decreases b@.len() - i,
    {
        if b[i] != word[i] {
            return false;
        }
        i += 1;
    }
    assert(b@ =~= word@);
    true
}

fn is_quit(t: &str) -> (r: bool)
    ensures
        r == is_quit_word(t.spec_bytes()),
{
    let a: [u8; 1] = [113u8];
    let b: [u8; 4] = [113u8, 117u8, 105u8, 116u8];
    assert(a@ =~= seq![113u8]);
    assert(b@ =~= seq![113u8, 117u8, 105u8, 116u8]);
    token_is(t, a.as_slice()) || token_is(t, b.as_slice())
}

fn is_run(t: &str) -> (r: bool)
    ensures
        r == is_run_word(t.spec_bytes()),
{
    let a: [u8; 1] = [114u8];
    let b: [u8; 3] = [114u8, 117u8, 110u8];
    assert(a@ =~= seq![114u8]);
    assert(b@ =~= seq![114u8, 117u8, 110u8]);
    token_is(t, a.as_slice()) || token_is(t, b.as_slice())
}

fn is_continue(t: &str) -> (r: bool)
    ensures
        r == is_continue_word(t.spec_bytes()),
{
    let a: [u8; 1] = [99u8];
    let b: [u8; 4] = [99u8, 111u8, 110u8, 116u8];
    let c: [u8; 8] = [99u8, 111u8, 110u8, 116u8, 105u8, 110u8, 117u8, 101u8];
    assert(a@ =~= seq![99u8]);
    assert(b@ =~= seq![99u8, 111u8, 110u8, 116u8]);
    assert(c@ =~= seq![99u8, 111u8, 110u8, 116u8, 105u8, 110u8, 117u8, 101u8]);
    token_is(t, a.as_slice()) || token_is(t, b.as_slice()) || token_is(t, c.as_slice())
}

fn is_backtrace(t: &str) -> (r: bool)
    ensures
        r == is_backtrace_word(t.spec_bytes()),
{
    let a: [u8; 2] = [98u8, 116u8];
    let b: [u8; 4] = [98u8, 97u8, 99u8, 107u8];
    let c: [u8; 9] = [98u8, 97u8, 99u8, 107u8, 116u8, 114u8, 97u8, 99u8, 101u8];
    assert(a@ =~= seq![98u8, 116u8]);
    assert(b@ =~= seq![98u8, 97u8, 99u8, 107u8]);
    assert(c@ =~= seq![98u8, 97u8, 99u8, 107u8, 116u8, 114u8, 97u8, 99u8, 101u8]);
    token_is(t, a.as_slice()) || token_is(t, b.as_slice()) || token_is(t, c.as_slice())
}

fn is_break(t: &str) -> (r: bool)
    ensures
        r == is_break_word(t.spec_bytes()),
{
    let a: [u8; 1] = [98u8];
    let b: [u8; 5] = [98u8, 114u8, 101u8, 97u8, 107u8];
    assert(a@ =~= seq![98u8]);
    assert(b@ =~= seq![98u8, 114u8, 101u8, 97u8, 107u8]);
    token_is(t, a.as_slice()) || token_is(t, b.as_slice())
}

impl DebuggerCommand {
    /// Reads a command from the whitespace-separated tokens of one input line.
    pub fn from_tokens(tokens: &Vec<&str>) -> (r: Option<DebuggerCommand>)
        ensures
            parsed_as(tokens@, r),
    {
        if tokens.len() == 0 {
            return None;
        }
        let first = tokens[0];
        if is_quit(first) {
            Some(DebuggerCommand::Quit)
        } else if is_run(first) {
            let mut args: Vec<String> = Vec::new();
            let mut i: usize = 1;
            while i < tokens.len()
                invariant
                    1 <= i <= tokens@.len(),
                    args@.len() == i - 1,
                    forall|j: int| 0 <= j < args@.len() ==> #[trigger] args@[j]@ == tokens@[j + 1]@,
                decreases tokens@.len() - i,
            {
                let arg = tokens[i].to_owned();
                args.push(arg);
                i += 1;
            }
            Some(DebuggerCommand::Run(args))
        } else if is_continue(first) {
            Some(DebuggerCommand::Continue)
        } else if is_backtrace(first) {
            Some(DebuggerCommand::Backtrace)
        } else if is_break(first) {
            if tokens.len() < 2 {
                None
            } else {
                Some(DebuggerCommand::Break(tokens[1].to_owned()))
            }
        } else {
            None
        }
    }
}

} // verus!
