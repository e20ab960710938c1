//! The exception exercise: the usage message that lists the faults it can
//! trigger.

use vstd::prelude::*;
use crate::console::Console;

verus! {

/// The usage message for the program named `prog_name`.
pub open spec fn usage_text(prog_name: Seq<char>) -> Seq<char> {
    "使用方法: "@ + prog_name + " --bin ex2_exception -- <异常类型>\n"@
        + "异常类型:\n"@
        + "  1 - 除零异常 (panic / SIGFPE)\n"@
        + "  2 - 数组越界访问 (panic)\n"@
        + "  3 - 空指针解引用 (SIGSEGV)\n"@
        + "  4 - 栈溢出 (SIGSEGV)\n"@
        + "  5 - 访问已释放内存 (undefined behavior)\n"@
}

/// Prints the usage message for the program named `prog_name`.
pub fn print_usage(console: &mut Console, prog_name: &str)
    ensures
        final(console)@ == old(console)@ + usage_text(prog_name@),
{
    let ghost start = console@;
    console.write_str("使用方法: ");
    console.write_str(prog_name);
    console.write_str(" --bin ex2_exception -- <异常类型>\n");
    console.write_str("异常类型:\n");
    console.write_str("  1 - 除零异常 (panic / SIGFPE)\n");
    console.write_str("  2 - 数组越界访问 (panic)\n");
    console.write_str("  3 - 空指针解引用 (SIGSEGV)\n");
    console.write_str("  4 - 栈溢出 (SIGSEGV)\n");
    console.write_str("  5 - 访问已释放内存 (undefined behavior)\n");
    proof {
        assert(console@ =~= start + usage_text(prog_name@));
    }
}

} // verus!
