use rcore_kernel::console::Console;
use rcore_kernel::env_check::{check_command, print_first_line, CommandOutcome};

fn text(c: &Console) -> String {
    c.output().iter().collect()
}

#[test]
fn check_command_reports_first_line() {
    let mut c = Console::new();
    let outcome = CommandOutcome::Succeeded { stdout: b"rustc 1.80.0 (abc 2024)\nextra\n".to_vec() };
    check_command(&mut c, "rustc", &outcome);
    assert_eq!(text(&c), "  rustc ... ✓ rustc 1.80.0 (abc 2024)\n");
}

#[test]
fn check_command_empty_output_is_ok() {
    let mut c = Console::new();
    check_command(&mut c, "make", &CommandOutcome::Succeeded { stdout: Vec::new() });
    assert_eq!(text(&c), "  make ... ✓ OK\n");
}

#[test]
fn check_command_failed_and_missing() {
    let mut c = Console::new();
    check_command(&mut c, "gdb", &CommandOutcome::Failed);
    check_command(&mut c, "qemu-system-riscv64", &CommandOutcome::NotInstalled);
    assert_eq!(text(&c), "  gdb ... ✗ 执行失败\n  qemu-system-riscv64 ... ✗ 未安装\n");
}

#[test]
fn check_command_invalid_utf8_is_replaced() {
    let mut c = Console::new();
    check_command(&mut c, "git", &CommandOutcome::Succeeded { stdout: vec![b'g', 0xff, b'x', b'\n'] });
    assert_eq!(text(&c), "  git ... ✓ g\u{FFFD}x\n");
}

#[test]
fn first_line_cases() {
    let cases = [
        ("a\r\nb", "a"),
        ("\nsecond", ""),
        ("only", "only"),
        ("tail\r", "tail\r"),
        ("", "OK"),
        ("x\r\r\n", "x\r"),
    ];
    for (input, expected) in cases {
        let mut c = Console::new();
        print_first_line(&mut c, input);
        assert_eq!(text(&c), expected, "input {:?}", input);
        let lines_first = input.lines().next().unwrap_or("OK");
        assert_eq!(lines_first, expected);
    }
}
