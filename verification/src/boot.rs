//! The first kernel: greets and prints its memory layout, each section in the
//! colour of a log level.

use vstd::prelude::*;
use crate::console::{
    Console, hex, lemma_cat, ANSI_COLOR_BLUE, ANSI_COLOR_GREEN, ANSI_COLOR_YELLOW, ANSI_COLOR_RED,
    ANSI_COLOR_RESET,
};

verus! {

/// The bounds of the kernel's sections, as the linker placed them.
#[derive(Clone, Copy, Debug, PartialEq, Eq, Structural)]
pub struct MemoryLayout {
    /// Start of `.text`.
    pub stext: usize,
    /// End of `.text`.
    pub etext: usize,
    /// Start of `.rodata`.
    pub srodata: usize,
    /// End of `.rodata`.
    pub erodata: usize,
    /// Start of `.data`.
    pub sdata: usize,
    /// End of `.data`.
    pub edata: usize,
    /// Start of `.bss`.
    pub sbss: usize,
    /// End of `.bss`.
    pub ebss: usize,
}

/// A coloured log line giving an address range: the colour, the prefix, the
/// two bounds, and the colour reset.
pub open spec fn range_line(color: Seq<char>, prefix: Seq<char>, start: usize, end: usize) -> Seq<char> {
    color + prefix + hex(start as nat) + ", "@ + hex(end as nat) + ")\n"@ + ANSI_COLOR_RESET@
}

/// The text that `print_memory_layout` writes.
pub open spec fn memory_layout_text(l: MemoryLayout) -> Seq<char> {
    range_line(ANSI_COLOR_BLUE@, "[INFO] .text   ["@, l.stext, l.etext)
        + range_line(ANSI_COLOR_GREEN@, "[DEBUG] .rodata ["@, l.srodata, l.erodata)
        + range_line(ANSI_COLOR_YELLOW@, "[WARN] .data   ["@, l.sdata, l.edata)
        + range_line(ANSI_COLOR_RED@, "[ERROR] .bss    ["@, l.sbss, l.ebss)
}

/// Law: the layout text is four coloured lines, one per section in the order
/// `.text`, `.rodata`, `.data`, `.bss`, each showing that section's own start
/// and end: `[start, end)` in hexadecimal, followed by the colour reset.
pub proof fn law_layout_shows_each_section(l: MemoryLayout)
    ensures
        memory_layout_text(l) == ANSI_COLOR_BLUE@ + "[INFO] .text   ["@ + hex(l.stext as nat) + ", "@
            + hex(l.etext as nat) + ")\n"@ + ANSI_COLOR_RESET@
            + ANSI_COLOR_GREEN@ + "[DEBUG] .rodata ["@ + hex(l.srodata as nat) + ", "@
            + hex(l.erodata as nat) + ")\n"@ + ANSI_COLOR_RESET@
            + ANSI_COLOR_YELLOW@ + "[WARN] .data   ["@ + hex(l.sdata as nat) + ", "@
            + hex(l.edata as nat) + ")\n"@ + ANSI_COLOR_RESET@
            + ANSI_COLOR_RED@ + "[ERROR] .bss    ["@ + hex(l.sbss as nat) + ", "@
            + hex(l.ebss as nat) + ")\n"@ + ANSI_COLOR_RESET@,
{
    assert(memory_layout_text(l) =~= ANSI_COLOR_BLUE@ + "[INFO] .text   ["@ + hex(l.stext as nat) + ", "@
            + hex(l.etext as nat) + ")\n"@ + ANSI_COLOR_RESET@
            + ANSI_COLOR_GREEN@ + "[DEBUG] .rodata ["@ + hex(l.srodata as nat) + ", "@
            + hex(l.erodata as nat) + ")\n"@ + ANSI_COLOR_RESET@
            + ANSI_COLOR_YELLOW@ + "[WARN] .data   ["@ + hex(l.sdata as nat) + ", "@
            + hex(l.edata as nat) + ")\n"@ + ANSI_COLOR_RESET@
            + ANSI_COLOR_RED@ + "[ERROR] .bss    ["@ + hex(l.sbss as nat) + ", "@
            + hex(l.ebss as nat) + ")\n"@ + ANSI_COLOR_RESET@);
}

fn log_range(console: &mut Console, color: &str, prefix: &str, start: usize, end: usize)
    ensures
        final(console)@ == old(console)@ + range_line(color@, prefix@, start, end),
{
    let ghost s0 = console@;
    console.write_str(color);
    console.write_str(prefix);
    console.put_hex(start);
    console.write_str(", ");
    console.put_hex(end);
    console.write_str(")\n");
    console.write_str(ANSI_COLOR_RESET);
    proof {
        assert(console@ =~= s0 + range_line(color@, prefix@, start, end));
    }
}

/// Prints the four sections: `.text` as info, `.rodata` as debug, `.data` as
/// a warning and `.bss` as an error.
pub fn print_memory_layout(console: &mut Console, layout: &MemoryLayout)
    ensures
        final(console)@ == old(console)@ + memory_layout_text(*layout),
{
    let ghost s0 = console@;
    log_range(console, ANSI_COLOR_BLUE, "[INFO] .text   [", layout.stext, layout.etext);
    let ghost t1 = range_line(ANSI_COLOR_BLUE@, "[INFO] .text   ["@, layout.stext, layout.etext);
    log_range(console, ANSI_COLOR_GREEN, "[DEBUG] .rodata [", layout.srodata, layout.erodata);
    let ghost l2 = range_line(ANSI_COLOR_GREEN@, "[DEBUG] .rodata ["@, layout.srodata, layout.erodata);
    proof {
        lemma_cat(s0, t1, l2);
    }
    let ghost t2 = t1 + l2;
    log_range(console, ANSI_COLOR_YELLOW, "[WARN] .data   [", layout.sdata, layout.edata);
    let ghost l3 = range_line(ANSI_COLOR_YELLOW@, "[WARN] .data   ["@, layout.sdata, layout.edata);
    proof {
        lemma_cat(s0, t2, l3);
    }
    let ghost t3 = t2 + l3;
    log_range(console, ANSI_COLOR_RED, "[ERROR] .bss    [", layout.sbss, layout.ebss);
    let ghost l4 = range_line(ANSI_COLOR_RED@, "[ERROR] .bss    ["@, layout.sbss, layout.ebss);
    proof {
        lemma_cat(s0, t3, l4);
    }
}

/// What the kernel prints once the BSS is cleared: the greeting, then the
/// memory layout. (The kernel then shuts the machine down.)
pub fn rust_main(console: &mut Console, layout: &MemoryLayout)
    ensures
        final(console)@ == old(console)@ + "Hello, world!\n"@ + memory_layout_text(*layout),
{
    console.write_str("Hello, world!\n");
    print_memory_layout(console, layout);
}

} // verus!
