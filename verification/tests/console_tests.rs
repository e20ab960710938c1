use rcore_kernel::console::{
    dec_chars, hex_digit_chars, print, print_color, Console, ANSI_COLOR_RED, ANSI_COLOR_RESET,
};
use rcore_kernel::boot::{rust_main, MemoryLayout};

fn text(c: &Console) -> String {
    c.output().iter().collect()
}

#[test]
fn print_appends_text() {
    let mut c = Console::new();
    print(&mut c, "Hello, ");
    print(&mut c, "world!");
    assert_eq!(text(&c), "Hello, world!");
}

#[test]
fn print_keeps_non_ascii_characters() {
    let mut c = Console::new();
    print(&mut c, "操作系统");
    assert_eq!(text(&c), "操作系统");
    assert_eq!(c.output().len(), 4);
}

#[test]
fn print_color_wraps_text_in_escapes() {
    let mut c = Console::new();
    print_color(&mut c, ANSI_COLOR_RED, "[ERROR] boom\n");
    assert_eq!(text(&c), "\x1b[31m[ERROR] boom\n\x1b[0m");
    assert_eq!(ANSI_COLOR_RESET, "\x1b[0m");
}

#[test]
fn decimal_and_hex_digits() {
    assert_eq!(dec_chars(0).iter().collect::<String>(), "0");
    assert_eq!(dec_chars(9).iter().collect::<String>(), "9");
    assert_eq!(dec_chars(10).iter().collect::<String>(), "10");
    assert_eq!(dec_chars(4096).iter().collect::<String>(), "4096");
    assert_eq!(hex_digit_chars(0).iter().collect::<String>(), "0");
    assert_eq!(hex_digit_chars(255).iter().collect::<String>(), "ff");
    assert_eq!(hex_digit_chars(0x80200000).iter().collect::<String>(), "80200000");
}

#[test]
fn console_numbers() {
    let mut c = Console::new();
    c.put_hex(0x1a);
    c.put_char(' ');
    c.put_dec(123);
    c.put_char(' ');
    c.put_signed(-42);
    c.put_char(' ');
    c.put_signed(i32::MIN);
    c.put_char(' ');
    c.put_signed(0);
    assert_eq!(text(&c), "0x1a 123 -42 -2147483648 0");
}

#[test]
fn rust_main_prints_greeting_and_layout() {
    let layout = MemoryLayout {
        stext: 0x80200000,
        etext: 0x80202000,
        srodata: 0x80202000,
        erodata: 0x80203000,
        sdata: 0x80203000,
        edata: 0x80203000,
        sbss: 0x80213000,
        ebss: 0x80213000,
    };
    let mut c = Console::new();
    rust_main(&mut c, &layout);
    let expected = "Hello, world!\n\
        \x1b[34m[INFO] .text   [0x80200000, 0x80202000)\n\x1b[0m\
        \x1b[32m[DEBUG] .rodata [0x80202000, 0x80203000)\n\x1b[0m\
        \x1b[33m[WARN] .data   [0x80203000, 0x80203000)\n\x1b[0m\
        \x1b[31m[ERROR] .bss    [0x80213000, 0x80213000)\n\x1b[0m";
    assert_eq!(text(&c), expected);
}
