//! The call-stack exercise: the summary of a captured backtrace, one line per
//! frame with its first symbol, and the tips on reading a real call stack.

use vstd::prelude::*;
use crate::console::{Console, dec};

verus! {

/// What the summary shows of a frame's first symbol, as plain values.
pub struct SymbolInfo {
    /// The symbol's name, when it is known.
    pub name: Option<String>,
    /// The source file in its debug form (quoted), when it is known.
    pub file: Option<String>,
    /// The source line, when it is known.
    pub lineno: Option<u32>,
}

/// A captured frame: its first symbol, when the frame resolved to any.
pub struct FrameInfo {
    /// The first symbol of the frame.
    pub symbol: Option<SymbolInfo>,
}

/// An optional line number in its debug form: `Some(n)` or `None`.
pub open spec fn lineno_text(n: Option<u32>) -> Seq<char> {
    match n {
        Some(v) => "Some("@ + dec(v as nat) + ")"@,
        None => "None"@,
    }
}

/// The name part of a frame line: ` - name` when the name is known.
pub open spec fn name_text(s: SymbolInfo) -> Seq<char> {
    match s.name {
        Some(n) => " - "@ + n@,
        None => Seq::empty(),
    }
}

/// The place part of a frame line: ` (file:line)` when the file is known.
pub open spec fn place_text(s: SymbolInfo) -> Seq<char> {
    match s.file {
        Some(f) => " ("@ + f@ + ":"@ + lineno_text(s.lineno) + ")"@,
        None => Seq::empty(),
    }
}

/// What a frame line shows of its symbol: the name part, then the place part.
pub open spec fn symbol_text(s: SymbolInfo) -> Seq<char> {
    name_text(s) + place_text(s)
}

/// The line for frame number `index`.
pub open spec fn frame_line(index: nat, f: FrameInfo) -> Seq<char> {
    "  #"@ + dec(index) + (match f.symbol {
        Some(s) => symbol_text(s),
        None => Seq::empty(),
    }) + "\n"@
}

/// The lines for frames `0..k`.
pub open spec fn frame_lines(frames: Seq<FrameInfo>, k: nat) -> Seq<char>
    decreases k,
{
    if k == 0 {
        Seq::empty()
    } else {
        frame_lines(frames, (k - 1) as nat) + frame_line((k - 1) as nat, frames[k - 1])
    }
}

/// The text of the backtrace summary: a heading, then one line per frame,
/// innermost first.
pub open spec fn backtrace_summary_text(frames: Seq<FrameInfo>) -> Seq<char> {
    "调用链（从底到顶）：\n"@ + frame_lines(frames, frames.len())
}

fn print_lineno(console: &mut Console, n: Option<u32>)
    ensures
        final(console)@ == old(console)@ + lineno_text(n),
{
    let ghost start = console@;
    match n {
        Some(v) => {
            console.write_str("Some(");
            console.put_dec(v as usize);
            console.write_str(")");
        },
        None => {
            console.write_str("None");
        },
    }
    proof {
        assert(console@ =~= start + lineno_text(n));
    }
}

fn print_symbol(console: &mut Console, s: &SymbolInfo)
    ensures
        final(console)@ == old(console)@ + symbol_text(*s),
{
    let ghost start = console@;
    match &s.name {
        Some(n) => {
            console.write_str(" - ");
            console.write_str(n.as_str());
        },
        None => {},
    }
    assert(console@ =~= start + name_text(*s));
    let ghost mid = console@;
    match &s.file {
        Some(f) => {
            console.write_str(" (");
            console.write_str(f.as_str());
            console.write_str(":");
            print_lineno(console, s.lineno);
            console.write_str(")");
        },
        None => {},
    }
    assert(console@ =~= mid + place_text(*s));
    proof {
        assert(console@ =~= start + symbol_text(*s));
    }
}

/// Prints the summary of the captured frames `frames`, innermost first.
pub fn print_backtrace_summary(console: &mut Console, frames: &Vec<FrameInfo>)
    ensures
        final(console)@ == old(console)@ + backtrace_summary_text(frames@),
{
    let ghost start = console@;
    console.write_str("调用链（从底到顶）：\n");
    let ghost head = console@;
    let mut i: usize = 0;
    while i < frames.len()
        invariant
            i <= frames@.len(),
            head == start + "调用链（从底到顶）：\n"@,
            console@ == head + frame_lines(frames@, i as nat),
        decreases frames.len() - i,
    {
        let ghost before = console@;
        console.write_str("  #");
        console.put_dec(i);
        match &frames[i].symbol {
            Some(s) => print_symbol(console, s),
            None => {},
        }
        console.write_str("\n");
        proof {
            assert(console@ =~= before + frame_line(i as nat, frames@[i as int]));
            assert(console@ =~= head + frame_lines(frames@, (i + 1) as nat));
        }
        i = i + 1;
    }
    proof {
        assert(console@ =~= start + backtrace_summary_text(frames@));
    }
}

/// The tips on reading a real call stack: with GDB, with rust-lldb, and with
/// the backtrace crate.
pub open spec fn debug_tips_text() -> Seq<char> {
    "\n=== 如何查看真实的调用栈 ===\n"@
        + "方法1: 使用GDB\n"@
        + "  $ gdb ./exercise_b_backtrace\n"@
        + "  (gdb) break third_function\n"@
        + "  (gdb) run\n"@
        + "  (gdb) backtrace\n"@
        + "\n方法2: 使用rust-lldb\n"@
        + "  $ rust-lldb ./exercise_b_backtrace\n"@
        + "  (lldb) breakpoint set --name third_function\n"@
        + "  (lldb) run\n"@
        + "  (lldb) bt\n"@
        + "\n方法3: 使用Cargo项目 + backtrace crate\n"@
        + "  在Cargo.toml中添加:\n"@
        + "    [dependencies]\n"@
        + "    backtrace = \"0.3\"\n"@
        + "  然后在代码中使用:\n"@
        + "    let bt = backtrace::Backtrace::new();\n"@
        + "    println!(\"{:?}\", bt);\n"@
}

/// Prints the tips on reading a real call stack.
pub fn print_debug_tips(console: &mut Console)
    ensures
        final(console)@ == old(console)@ + debug_tips_text(),
{
    let ghost start = console@;
    console.write_str("\n=== 如何查看真实的调用栈 ===\n");
    console.write_str("方法1: 使用GDB\n");
    console.write_str("  $ gdb ./exercise_b_backtrace\n");
    console.write_str("  (gdb) break third_function\n");
    console.write_str("  (gdb) run\n");
    console.write_str("  (gdb) backtrace\n");
    console.write_str("\n方法2: 使用rust-lldb\n");
    console.write_str("  $ rust-lldb ./exercise_b_backtrace\n");
    console.write_str("  (lldb) breakpoint set --name third_function\n");
    console.write_str("  (lldb) run\n");
    console.write_str("  (lldb) bt\n");
    console.write_str("\n方法3: 使用Cargo项目 + backtrace crate\n");
    console.write_str("  在Cargo.toml中添加:\n");
    console.write_str("    [dependencies]\n");
    console.write_str("    backtrace = \"0.3\"\n");
    console.write_str("  然后在代码中使用:\n");
    console.write_str("    let bt = backtrace::Backtrace::new();\n");
    console.write_str("    println!(\"{:?}\", bt);\n");
    proof {
        assert(console@ =~= start + debug_tips_text());
    }
}

} // verus!
