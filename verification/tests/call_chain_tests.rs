use rcore_kernel::call_chain::{print_backtrace_summary, print_debug_tips, FrameInfo, SymbolInfo};
use rcore_kernel::console::Console;

fn text(c: &Console) -> String {
    c.output().iter().collect()
}

#[test]
fn backtrace_summary_lines() {
    let frames = vec![
        FrameInfo {
            symbol: Some(SymbolInfo {
                name: Some("demo::third_function".to_string()),
                file: Some("\"src/main.rs\"".to_string()),
                lineno: Some(31),
            }),
        },
        FrameInfo {
            symbol: Some(SymbolInfo { name: Some("demo::main".to_string()), file: None, lineno: None }),
        },
        FrameInfo {
            symbol: Some(SymbolInfo { name: None, file: Some("\"lib.rs\"".to_string()), lineno: None }),
        },
        FrameInfo { symbol: None },
    ];
    let mut c = Console::new();
    print_backtrace_summary(&mut c, &frames);
    assert_eq!(
        text(&c),
        "调用链（从底到顶）：\n  #0 - demo::third_function (\"src/main.rs\":Some(31))\n  #1 - demo::main\n  #2 (\"lib.rs\":None)\n  #3\n"
    );
}

#[test]
fn backtrace_summary_of_no_frames() {
    let mut c = Console::new();
    print_backtrace_summary(&mut c, &Vec::new());
    assert_eq!(text(&c), "调用链（从底到顶）：\n");
}

#[test]
fn debug_tips_text() {
    let mut c = Console::new();
    print_debug_tips(&mut c);
    let t = text(&c);
    assert!(t.starts_with("\n=== 如何查看真实的调用栈 ===\n方法1: 使用GDB\n"));
    assert!(t.contains("  (lldb) breakpoint set --name third_function\n"));
    assert!(t.ends_with("    backtrace = \"0.3\"\n  然后在代码中使用:\n    let bt = backtrace::Backtrace::new();\n    println!(\"{:?}\", bt);\n"));
    assert_eq!(t.lines().count(), 21);
}

#[test]
fn fault_demo_usage() {
    let mut c = Console::new();
    rcore_kernel::fault_demo::print_usage(&mut c, "cargo run");
    assert_eq!(
        text(&c),
        "使用方法: cargo run --bin ex2_exception -- <异常类型>\n异常类型:\n  1 - 除零异常 (panic / SIGFPE)\n  2 - 数组越界访问 (panic)\n  3 - 空指针解引用 (SIGSEGV)\n  4 - 栈溢出 (SIGSEGV)\n  5 - 访问已释放内存 (undefined behavior)\n"
    );
}
