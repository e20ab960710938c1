//! The environment check exercise: what it reports for each development tool,
//! once the tool has been run.

use vstd::prelude::*;
use vstd::utf8::{valid_utf8, decode_utf8};
use crate::console::Console;

verus! {

/// What running a tool with its version arguments came to.
pub enum CommandOutcome {
    /// The tool could not be started.
    NotInstalled,
    /// The tool ran and reported failure.
    Failed,
    /// The tool ran successfully and printed `stdout`.
    Succeeded { stdout: Vec<u8> },
}

/// The text that `String::from_utf8_lossy` makes of `bytes`: the decoded text,
/// with each invalid sequence replaced by U+FFFD.
pub uninterp spec fn utf8_lossy(bytes: Seq<u8>) -> Seq<char>;

/// `String::from_utf8_lossy`: the bytes read as text, each invalid sequence
/// replaced by U+FFFD; for valid UTF-8, exactly the text that the bytes encode.
#[verifier::external_body]
fn from_utf8_lossy(bytes: &[u8]) -> (s: String)
    ensures
        s@ == utf8_lossy(bytes@),
        valid_utf8(bytes@) ==> s@ == decode_utf8(bytes@),
{
    String::from_utf8_lossy(bytes).into_owned()
}

/// Index of the first line feed of `s` at or after `i`, or the length of `s`.
pub open spec fn newline_from(s: Seq<char>, i: int) -> int
    decreases s.len() - i,
{
    if i < 0 || i >= s.len() {
        s.len() as int
    } else if s[i] == '\n' {
        i
    } else {
        newline_from(s, i + 1)
    }
}

/// The first line of `s` as `str::lines` gives it: up to the first line feed,
/// without it and without a carriage return just before it; the whole text
/// when it has no line feed; `OK` when the text is empty (there is no line).
pub open spec fn first_line(s: Seq<char>) -> Seq<char> {
    let e = newline_from(s, 0);
    if s.len() == 0 {
        "OK"@
    } else if e < s.len() {
        let l = s.subrange(0, e);
        if l.len() > 0 && l.last() == '\r' {
            l.drop_last()
        } else {
            l
        }
    } else {
        s
    }
}

/// The line reported for the tool `cmd`.
pub open spec fn check_command_text(cmd: Seq<char>, outcome: CommandOutcome) -> Seq<char> {
    "  "@ + cmd + " ... "@ + match outcome {
        CommandOutcome::NotInstalled => "✗ 未安装\n"@,
        CommandOutcome::Failed => "✗ 执行失败\n"@,
        CommandOutcome::Succeeded { stdout } => "✓ "@ + first_line(utf8_lossy(stdout@)) + "\n"@,
    }
}

/// Prints the first line of `text` (see `first_line`).
pub fn print_first_line(console: &mut Console, text: &str)
    ensures
        final(console)@ == old(console)@ + first_line(text@),
{
    let mut chars: Vec<char> = Vec::new();
    for c in it: text.chars()
        invariant
            chars@ == it.seq().take(it.index() as int),
            it.seq() == text@,
    {
        chars.push(c);
    }
    proof {
        assert(chars@ =~= text@);
    }
    if chars.len() == 0 {
        console.write_str("OK");
        return;
    }
    let mut e: usize = 0;
    while e < chars.len() && chars[e] != '\n'
        invariant
            e <= chars@.len(),
            newline_from(chars@, 0) == newline_from(chars@, e as int),
        decreases chars.len() - e,
    {
        e = e + 1;
    }
    let mut end: usize = e;
    if e < chars.len() && e > 0 && chars[e - 1] == '\r' {
        end = e - 1;
    }
    let ghost start = console@;
    let mut i: usize = 0;
    while i < end
        invariant
            i <= end,
            end <= chars@.len(),
            console@ == start + chars@.take(i as int),
        decreases end - i,
    {
        console.put_char(chars[i]);
        proof {
            assert(chars@.take(i as int).push(chars@[i as int]) =~= chars@.take(i + 1));
        }
        i = i + 1;
    }
    proof {
        assert(newline_from(chars@, e as int) == e);
        if e < chars@.len() {
            if e > 0 {
                assert(chars@.subrange(0, e as int).drop_last() =~= chars@.take(e - 1));
            }
            assert(chars@.subrange(0, e as int) =~= chars@.take(e as int));
        } else {
            assert(chars@.take(e as int) =~= chars@);
        }
    }
}

/// Prints the line for the tool `cmd`: `✓` and the first line of what it
/// printed when it ran successfully, `✗ 执行失败` when it failed, and
/// `✗ 未安装` when it could not be started.
pub fn check_command(console: &mut Console, cmd: &str, outcome: &CommandOutcome)
    ensures
        final(console)@ == old(console)@ + check_command_text(cmd@, *outcome),
{
    let ghost start = console@;
    console.write_str("  ");
    console.write_str(cmd);
    console.write_str(" ... ");
    match outcome {
        CommandOutcome::NotInstalled => {
            console.write_str("✗ 未安装\n");
        },
        CommandOutcome::Failed => {
            console.write_str("✗ 执行失败\n");
        },
        CommandOutcome::Succeeded { stdout } => {
            let text = from_utf8_lossy(stdout.as_slice());
            console.write_str("✓ ");
            print_first_line(console, text.as_str());
            console.write_str("\n");
        },
    }
    proof {
        assert(console@ =~= start + check_command_text(cmd@, *outcome));
    }
}

} // verus!
