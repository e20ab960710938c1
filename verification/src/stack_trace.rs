//! Walking the call stack by frame pointers (RISC-V calling convention: the
//! return address is saved at `fp - 8`, the caller's frame pointer at
//! `fp - 16`), and checking the walk against frame pointers recorded on the way
//! down.

use vstd::prelude::*;
use crate::console::{Console, dec, hex, hex_line, lemma_cat};

verus! {

/// Most frame pointers recorded.
pub const MAX_RECURSION: usize = 32;
/// Most frames walked.
pub const MAX_FRAMES: usize = 64;
/// Size of a saved word.
pub const WORD_SIZE: usize = 8;

/// The stack memory that a walk reads: the words from `base` on.
pub struct StackMemory {
    base: usize,
    words: Vec<usize>,
}

impl StackMemory {
    /// Where the memory begins.
    pub closed spec fn spec_base(&self) -> nat {
        self.base as nat
    }

    /// The words of the memory, from `base` on.
    pub closed spec fn spec_words(&self) -> Seq<usize> {
        self.words@
    }

    /// The word saved at `addr`, when `addr` is a word of the memory.
    pub open spec fn read(&self, addr: int) -> Option<usize> {
        let off = addr - self.spec_base();
        if 0 <= off && off % 8 == 0 && off / 8 < self.spec_words().len() {
            Some(self.spec_words()[off / 8])
        } else {
            None
        }
    }

    /// Memory holding `words` from address `base` on.
    pub fn new(base: usize, words: Vec<usize>) -> (m: StackMemory)
        ensures
            m.spec_base() == base,
            m.spec_words() == words@,
    {
        StackMemory { base, words }
    }

    /// Reads the word at `addr`; `None` when it is not a word of the memory.
    pub fn read_word(&self, addr: usize) -> (r: Option<usize>)
        ensures
            r == self.read(addr as int),
    {
        if addr < self.base {
            return None;
        }
        let off = addr - self.base;
        if off % 8 != 0 {
            return None;
        }
        let i = off / 8;
        if i < self.words.len() {
            Some(self.words[i])
        } else {
            None
        }
    }
}

/// A stack frame: the caller's frame pointer and the return address.
#[derive(Clone, Copy, Debug, PartialEq, Eq, Structural)]
pub struct StackFrame {
    fp: usize,
    ra: usize,
}

/// The frame that the frame pointer `fp` describes: `None` for a null frame
/// pointer, or when the saved words cannot be read.
pub open spec fn frame_at(mem: &StackMemory, fp: usize) -> Option<(usize, usize)> {
    if fp == 0 || fp < 16 {
        None
    } else {
        match (mem.read(fp - 16), mem.read(fp - 8)) {
            (Some(saved_fp), Some(saved_ra)) => Some((saved_fp, saved_ra)),
            _ => None,
        }
    }
}

impl StackFrame {
    /// The caller's frame pointer saved in this frame.
    pub closed spec fn spec_caller_fp(&self) -> usize {
        self.fp
    }

    /// The return address saved in this frame.
    pub closed spec fn spec_return_address(&self) -> usize {
        self.ra
    }

    /// Reads the frame that `fp` points to.
    pub fn from_fp(mem: &StackMemory, fp: usize) -> (f: Option<StackFrame>)
        ensures
            f is Some <==> frame_at(mem, fp) is Some,
            f is Some ==> f->0.spec_caller_fp() == frame_at(mem, fp).unwrap().0
                && f->0.spec_return_address() == frame_at(mem, fp).unwrap().1,
    {
        if fp == 0 || fp < 16 {
            return None;
        }
        let saved_ra = mem.read_word(fp - 8);
        let saved_fp = mem.read_word(fp - 16);
        match (saved_fp, saved_ra) {
            (Some(caller), Some(ra)) => Some(StackFrame { fp: caller, ra }),
            _ => None,
        }
    }

    /// The return address.
    pub fn return_address(&self) -> (r: usize)
        ensures
            r == self.spec_return_address(),
    {
        self.ra
    }

    /// The caller's frame pointer.
    pub fn caller_fp(&self) -> (r: usize)
        ensures
            r == self.spec_caller_fp(),
    {
        self.fp
    }
}

/// The frame pointers met walking up from `fp`, at most `limit` of them: the
/// walk stops at a null frame pointer or at a frame it cannot read.
pub open spec fn frame_chain(mem: &StackMemory, fp: usize, limit: nat) -> Seq<usize>
    decreases limit,
{
    if fp == 0 || limit == 0 {
        Seq::empty()
    } else {
        seq![fp] + match frame_at(mem, fp) {
            Some(f) => frame_chain(mem, f.0, (limit - 1) as nat),
            None => Seq::empty(),
        }
    }
}

proof fn lemma_chain_len(mem: &StackMemory, fp: usize, limit: nat)
    ensures
        frame_chain(mem, fp, limit).len() <= limit,
    decreases limit,
{
    if fp != 0 && limit > 0 {
        match frame_at(mem, fp) {
            Some(f) => lemma_chain_len(mem, f.0, (limit - 1) as nat),
            None => {},
        }
    }
}

/// Walks the frame chain from `fp`, keeping at most `MAX_FRAMES` frame pointers.
pub fn collect_frames(mem: &StackMemory, fp: usize) -> (r: Vec<usize>)
    ensures
        r@ == frame_chain(mem, fp, MAX_FRAMES as nat),
{
    let mut fps: Vec<usize> = Vec::new();
    let mut current = fp;
    let mut done = false;
    while !done && current != 0 && fps.len() < MAX_FRAMES
        invariant
            fps@.len() <= MAX_FRAMES,
            !done ==> frame_chain(mem, fp, MAX_FRAMES as nat)
                == fps@ + frame_chain(mem, current, (MAX_FRAMES - fps@.len()) as nat),
            done ==> frame_chain(mem, fp, MAX_FRAMES as nat) == fps@,
        decreases MAX_FRAMES - fps@.len(),
    {
        let ghost rest = (MAX_FRAMES - fps@.len()) as nat;
        fps.push(current);
        match StackFrame::from_fp(mem, current) {
            Some(f) => {
                proof {
                    assert(frame_chain(mem, current, rest) == seq![current] + frame_chain(mem, f.fp, (rest - 1) as nat));
                    assert(fps@ + frame_chain(mem, f.fp, (rest - 1) as nat)
                        =~= fps@.drop_last() + frame_chain(mem, current, rest));
                }
                current = f.caller_fp();
            },
            None => {
                proof {
                    assert(frame_chain(mem, current, rest) =~= seq![current]);
                    assert(fps@ =~= fps@.drop_last() + frame_chain(mem, current, rest));
                }
                done = true;
            },
        }
    }
    proof {
        if !done {
            assert(frame_chain(mem, current, (MAX_FRAMES - fps@.len()) as nat) =~= Seq::<usize>::empty());
            assert(fps@ + Seq::<usize>::empty() =~= fps@);
        }
    }
    fps
}

/// The frame pointers recorded on the way down the call chain.
pub struct FpRecords {
    records: Vec<usize>,
}

impl View for FpRecords {
    type V = Seq<usize>;

    closed spec fn view(&self) -> Seq<usize> {
        self.records@
    }
}

impl FpRecords {
    /// No record yet.
    pub fn new() -> (r: FpRecords)
        ensures
            r@ == Seq::<usize>::empty(),
    {
        FpRecords { records: Vec::new() }
    }

    /// The recorded frame pointers, in order.
    pub fn records(&self) -> (r: &Vec<usize>)
        ensures
            r@ == self@,
    {
        &self.records
    }

    /// Records `fp` while fewer than `MAX_RECURSION` are recorded.
    pub fn record_fp(&mut self, fp: usize)
        ensures
            old(self)@.len() < MAX_RECURSION ==> final(self)@ == old(self)@.push(fp),
            old(self)@.len() >= MAX_RECURSION ==> final(self)@ == old(self)@,
    {
        if self.records.len() < MAX_RECURSION {
            self.records.push(fp);
        }
    }
}

/// Index of the first occurrence of `v` in `rs` at or after `j`.
pub open spec fn find_from(rs: Seq<usize>, v: usize, j: int) -> Option<nat>
    decreases rs.len() - j,
{
    if j < 0 || j >= rs.len() {
        None
    } else if rs[j] == v {
        Some(j as nat)
    } else {
        find_from(rs, v, j + 1)
    }
}

proof fn lemma_find_from_bounds(rs: Seq<usize>, v: usize, j: int)
    ensures
        find_from(rs, v, j) is Some ==> {
            &&& find_from(rs, v, j)->0 < rs.len()
            &&& rs[find_from(rs, v, j)->0 as int] == v
        },
    decreases rs.len() - j,
{
    if 0 <= j < rs.len() && rs[j] != v {
        lemma_find_from_bounds(rs, v, j + 1);
    }
}

/// Index of the first occurrence of `v` in `rs`.
pub open spec fn first_index(rs: Seq<usize>, v: usize) -> Option<nat> {
    find_from(rs, v, 0)
}

/// Looks `v` up in the records.
pub fn find_record(rs: &Vec<usize>, v: usize) -> (r: Option<usize>)
    ensures
        r == match first_index(rs@, v) {
            Some(j) => Some(j as usize),
            None => None::<usize>,
        },
        r is Some ==> r->0 < rs@.len() && rs@[r->0 as int] == v,
{
    proof {
        lemma_find_from_bounds(rs@, v, 0);
    }
    let mut j: usize = 0;
    while j < rs.len()
        invariant
            j <= rs@.len(),
            first_index(rs@, v) == find_from(rs@, v, j as int),
        decreases rs.len() - j,
    {
        if rs[j] == v {
            return Some(j);
        }
        j = j + 1;
    }
    None
}

/// How many of the first `k` walked frames are among the records.
pub open spec fn found_count(rs: Seq<usize>, chain: Seq<usize>, k: nat) -> nat
    decreases k,
{
    if k == 0 {
        0
    } else {
        found_count(rs, chain, (k - 1) as nat) + if first_index(rs, chain[k - 1]) is Some { 1nat } else { 0nat }
    }
}

/// The lines that list the records `0..k`.
pub open spec fn recorded_lines(rs: Seq<usize>, k: nat) -> Seq<char>
    decreases k,
{
    if k == 0 {
        Seq::empty()
    } else {
        recorded_lines(rs, (k - 1) as nat) + "FP_RECORDS["@ + dec((k - 1) as nat) + "] = "@ + hex(rs[k - 1] as nat)
            + "\n"@
    }
}

/// The lines for walked frame number `i`, at frame pointer `fp`.
pub open spec fn frame_text(mem: &StackMemory, rs: Seq<usize>, i: nat, fp: usize) -> Seq<char> {
    match frame_at(mem, fp) {
        Some(f) => "["@ + dec(i) + "] Frame: "@ + hex(fp as nat) + " "@ + match first_index(rs, fp) {
            Some(j) => "[RECORDED at index "@ + dec(j) + "]"@,
            None => Seq::empty(),
        } + "\n"@ + hex_line("    RA: "@, f.1 as nat) + hex_line("    Caller FP: "@, f.0 as nat) + "\n"@,
        None => Seq::empty(),
    }
}

/// The lines for walked frames `0..k`.
pub open spec fn frame_lines(mem: &StackMemory, rs: Seq<usize>, chain: Seq<usize>, k: nat) -> Seq<char>
    decreases k,
{
    if k == 0 {
        Seq::empty()
    } else {
        frame_lines(mem, rs, chain, (k - 1) as nat) + frame_text(mem, rs, (k - 1) as nat, chain[k - 1])
    }
}

/// The closing lines: totals and the verdict.
pub open spec fn trace_summary(frames: nat, recorded: nat, found: nat) -> Seq<char> {
    "Total "@ + dec(frames) + " frames\n"@ + "\n"@ + "Recorded "@ + dec(recorded) + " frame pointers\n"@
        + "Found "@ + dec(found) + " of "@ + dec(recorded) + " in stack trace\n"@
        + if recorded > 0 && found == recorded {
            "All recorded frame pointers verified!\n"@
        } else {
            Seq::empty()
        }
}

/// The text that `print_stack_trace` writes, for records `rs` (after recording
/// the current frame) and the walked chain.
pub open spec fn stack_trace_text(mem: &StackMemory, rs: Seq<usize>, chain: Seq<usize>) -> Seq<char> {
    "=== Stack Trace ===\n"@ + "\n"@ + "--- Recorded FPs ---\n"@ + recorded_lines(rs, rs.len()) + "\n"@
        + frame_lines(mem, rs, chain, chain.len()) + trace_summary(chain.len(), rs.len(), found_count(rs, chain, chain.len()))
}

fn print_recorded(rs: &Vec<usize>, console: &mut Console)
    ensures
        final(console)@ == old(console)@ + recorded_lines(rs@, rs@.len()),
{
    let ghost start = console@;
    let mut i: usize = 0;
    while i < rs.len()
        invariant
            i <= rs@.len(),
            console@ == start + recorded_lines(rs@, i as nat),
        decreases rs.len() - i,
    {
        console.write_str("FP_RECORDS[");
        console.put_dec(i);
        console.write_str("] = ");
        console.put_hex(rs[i]);
        console.write_str("\n");
        proof {
            assert(console@ =~= start + recorded_lines(rs@, (i + 1) as nat));
        }
        i = i + 1;
    }
}

fn print_frame(mem: &StackMemory, rs: &Vec<usize>, i: usize, fp: usize, console: &mut Console) -> (found: bool)
    ensures
        found == (first_index(rs@, fp) is Some),
        final(console)@ == old(console)@ + frame_text(mem, rs@, i as nat, fp),
{
    let record = find_record(rs, fp);
    match StackFrame::from_fp(mem, fp) {
        Some(f) => {
            let ghost s0 = console@;
            console.write_str("[");
            console.put_dec(i);
            console.write_str("] Frame: ");
            console.put_hex(fp);
            console.write_str(" ");
            let ghost pre = "["@ + dec(i as nat) + "] Frame: "@ + hex(fp as nat) + " "@;
            let ghost mark = match first_index(rs@, fp) {
                Some(j) => "[RECORDED at index "@ + dec(j) + "]"@,
                None => Seq::empty(),
            };
            proof {
                assert(console@ =~= s0 + pre);
            }
            let ghost s_pre = console@;
            match record {
                Some(j) => {
                    console.write_str("[RECORDED at index ");
                    console.put_dec(j);
                    console.write_str("]");
                    proof {
                        lemma_find_from_bounds(rs@, fp, 0);
                        assert(first_index(rs@, fp) is Some);
                        let jj = first_index(rs@, fp)->0;
                        assert(jj < rs@.len());
                        assert(rs@.len() == rs.len());
                        assert(record == Some(jj as usize));
                        assert(first_index(rs@, fp) == Some(j as nat));
                        assert(console@ =~= s_pre + mark);
                    }
                },
                None => {
                    proof {
                        assert(console@ =~= s_pre + mark);
                    }
                },
            }
            console.write_str("\n");
            let ghost head = pre + mark + "\n"@;
            proof {
                assert(console@ =~= s0 + head);
            }
            console.put_hex_line("    RA: ", f.return_address());
            proof {
                lemma_cat(s0, head, hex_line("    RA: "@, f.ra as nat));
            }
            let ghost h2 = head + hex_line("    RA: "@, f.ra as nat);
            console.put_hex_line("    Caller FP: ", f.caller_fp());
            proof {
                lemma_cat(s0, h2, hex_line("    Caller FP: "@, f.fp as nat));
            }
            let ghost h3 = h2 + hex_line("    Caller FP: "@, f.fp as nat);
            console.write_str("\n");
            proof {
                lemma_cat(s0, h3, "\n"@);
            }
        },
        None => {
            proof {
                assert(old(console)@ + frame_text(mem, rs@, i as nat, fp) =~= old(console)@);
            }
        },
    }
    record.is_some()
}

fn print_trace_summary(frames: usize, recorded: usize, found: usize, console: &mut Console)
    ensures
        final(console)@ == old(console)@ + trace_summary(frames as nat, recorded as nat, found as nat),
{
    let ghost s0 = console@;
    console.write_str("Total ");
    console.put_dec(frames);
    console.write_str(" frames\n");
    console.write_str("\n");
    console.write_str("Recorded ");
    console.put_dec(recorded);
    console.write_str(" frame pointers\n");
    console.write_str("Found ");
    console.put_dec(found);
    console.write_str(" of ");
    console.put_dec(recorded);
    console.write_str(" in stack trace\n");
    if recorded > 0 && found == recorded {
        console.write_str("All recorded frame pointers verified!\n");
    }
    proof {
        assert(console@ =~= s0 + trace_summary(frames as nat, recorded as nat, found as nat));
    }
}

/// Prints the call stack: records `fp`, the frame pointer of the caller's
/// frame, walks the chain from it, lists the records, prints each walked frame
/// (marking those found among the records) and says how many records were found.
pub fn print_stack_trace(mem: &StackMemory, records: &mut FpRecords, fp: usize, console: &mut Console)
    ensures
        old(records)@.len() < MAX_RECURSION ==> final(records)@ == old(records)@.push(fp),
        old(records)@.len() >= MAX_RECURSION ==> final(records)@ == old(records)@,
        final(console)@ == old(console)@ + stack_trace_text(mem, final(records)@, frame_chain(mem, fp, MAX_FRAMES as nat)),
{
    records.record_fp(fp);
    let rs = records.records();
    let ghost s0 = console@;
    console.write_str("=== Stack Trace ===\n");
    console.write_str("\n");
    let actual = collect_frames(mem, fp);
    proof {
        lemma_chain_len(mem, fp, MAX_FRAMES as nat);
    }
    console.write_str("--- Recorded FPs ---\n");
    print_recorded(rs, console);
    console.write_str("\n");
    let ghost head = "=== Stack Trace ===\n"@ + "\n"@ + "--- Recorded FPs ---\n"@ + recorded_lines(rs@, rs@.len()) + "\n"@;
    proof {
        assert(console@ =~= s0 + head);
    }
    let ghost s1 = console@;
    let mut found: usize = 0;
    let mut i: usize = 0;
    while i < actual.len()
        invariant
            i <= actual@.len(),
            actual@.len() <= MAX_FRAMES,
            found == found_count(rs@, actual@, i as nat),
            found <= i,
            console@ == s1 + frame_lines(mem, rs@, actual@, i as nat),
        decreases actual.len() - i,
    {
        let is_recorded = print_frame(mem, rs, i, actual[i], console);
        if is_recorded {
            found = found + 1;
        }
        proof {
            lemma_cat(s1, frame_lines(mem, rs@, actual@, i as nat), frame_text(mem, rs@, i as nat, actual@[i as int]));
        }
        i = i + 1;
    }
    proof {
        lemma_cat(s0, head, frame_lines(mem, rs@, actual@, actual@.len()));
    }
    let ghost h2 = head + frame_lines(mem, rs@, actual@, actual@.len());
    print_trace_summary(actual.len(), rs.len(), found, console);
    proof {
        lemma_cat(s0, h2, trace_summary(actual@.len(), rs@.len(), found as nat));
        assert(stack_trace_text(mem, rs@, actual@) == h2 + trace_summary(actual@.len(), rs@.len(), found as nat));
    }
}

} // verus!
