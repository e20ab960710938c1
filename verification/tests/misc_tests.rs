use rcore_kernel::console::Console;
use rcore_kernel::fs::{check_user_buffer, sys_write};
use rcore_kernel::shared_counter::SharedCounter;
use rcore_kernel::stack_trace::{collect_frames, find_record, print_stack_trace, FpRecords, StackFrame, StackMemory};
use rcore_kernel::switch_cost::{
    mark_switch_start, print_switch_stats, record_switch_cost, SwitchCostStats, SwitchCostTracker,
};
use rcore_kernel::timestamp::{chrono_timestamp, format_timestamp};
use rcore_kernel::user_demo::recursive;

fn text(c: &Console) -> String {
    c.output().iter().collect()
}

#[test]
fn switch_cost_statistics() {
    let mut s = SwitchCostStats::default();
    let mut c = Console::new();
    assert_eq!(s.average_cost(), 0);
    s.record(30, &mut c);
    s.record(10, &mut c);
    s.record(20, &mut c);
    assert_eq!(s.total_switches, 3);
    assert_eq!(s.total_cost, 60);
    assert_eq!(s.max_cost, 30);
    assert_eq!(s.min_cost, 10);
    assert_eq!(s.average_cost(), 20);
    assert_eq!(
        text(&c),
        "[kernel] Switch #1 cost: 30 cycles\n[kernel] Switch #2 cost: 10 cycles\n[kernel] Switch #3 cost: 20 cycles\n"
    );
    let mut p = Console::new();
    s.print(&mut p);
    assert_eq!(
        text(&p),
        "[kernel] Task Switch Statistics:\n  Total switches: 3\n  Total cost: 60 cycles\n  Average cost: 20 cycles\n  Max cost: 30 cycles\n  Min cost: 10 cycles\n"
    );
}

#[test]
fn switch_cost_zero_minimum_is_kept() {
    let mut s = SwitchCostStats::default();
    let mut c = Console::new();
    s.record(0, &mut c);
    assert_eq!(s.min_cost, 0);
    s.record(5, &mut c);
    assert_eq!(s.min_cost, 0);
    s.record(7, &mut c);
    assert_eq!(s.min_cost, 0);
    assert_eq!(s.max_cost, 7);
}

#[test]
fn switch_cost_minimum_follows_smaller_costs() {
    let mut s = SwitchCostStats::default();
    let mut c = Console::new();
    s.record(9, &mut c);
    assert_eq!(s.min_cost, 9);
    s.record(12, &mut c);
    assert_eq!(s.min_cost, 9);
    s.record(4, &mut c);
    assert_eq!(s.min_cost, 4);
}

#[test]
fn switch_cost_prints_only_first_twenty() {
    let mut s = SwitchCostStats::default();
    let mut c = Console::new();
    for _ in 0..25 {
        s.record(1, &mut c);
    }
    let out = text(&c);
    assert!(out.contains("[kernel] Switch #20 cost: 1 cycles\n"));
    assert!(!out.contains("Switch #21"));
    let mut empty = SwitchCostStats::default();
    let mut p = Console::new();
    empty.print(&mut p);
    assert_eq!(text(&p), "");
    empty.record(3, &mut p);
}

#[test]
fn switch_cost_tracker_measures_between_marks() {
    let mut t = SwitchCostTracker::new();
    let mut c = Console::new();
    mark_switch_start(&mut t, 1000);
    assert_eq!(record_switch_cost(&mut t, 1042, &mut c), 42);
    mark_switch_start(&mut t, 2000);
    assert_eq!(record_switch_cost(&mut t, 2008, &mut c), 8);
    let mut p = Console::new();
    print_switch_stats(&t, &mut p);
    assert!(text(&p).contains("  Average cost: 25 cycles\n"));
}

fn memory() -> StackMemory {
    // words from 0x1000: frame at 0x1020 saves (fp 0x1040, ra 0xaaaa) at 0x1010/0x1018,
    // frame at 0x1040 saves (fp 0, ra 0xbbbb) at 0x1030/0x1038.
    let mut words = vec![0usize; 8];
    words[2] = 0x1040;
    words[3] = 0xaaaa;
    words[6] = 0;
    words[7] = 0xbbbb;
    StackMemory::new(0x1000, words)
}

#[test]
fn stack_frames_are_read_from_memory() {
    let mem = memory();
    assert_eq!(mem.read_word(0x1018), Some(0xaaaa));
    assert_eq!(mem.read_word(0x1019), None);
    assert_eq!(mem.read_word(0x2000), None);
    let f = StackFrame::from_fp(&mem, 0x1020).unwrap();
    assert_eq!(f.return_address(), 0xaaaa);
    assert_eq!(f.caller_fp(), 0x1040);
    assert!(StackFrame::from_fp(&mem, 0).is_none());
    assert!(StackFrame::from_fp(&mem, 0x5000).is_none());
    assert_eq!(collect_frames(&mem, 0x1020), vec![0x1020, 0x1040]);
    assert_eq!(collect_frames(&mem, 0), Vec::<usize>::new());
}

#[test]
fn frame_walk_stops_at_sixty_four() {
    // a frame that points to itself
    let mut words = vec![0usize; 4];
    words[0] = 0x1010;
    words[1] = 0x1;
    let mem = StackMemory::new(0x1000, words);
    let chain = collect_frames(&mem, 0x1010);
    assert_eq!(chain.len(), 64);
    assert!(chain.iter().all(|&f| f == 0x1010));
}

#[test]
fn records_keep_at_most_thirty_two() {
    let mut r = FpRecords::new();
    for i in 0..40 {
        r.record_fp(i);
    }
    assert_eq!(r.records().len(), 32);
    assert_eq!(r.records()[31], 31);
    assert_eq!(find_record(r.records(), 5), Some(5));
    assert_eq!(find_record(r.records(), 35), None);
}

#[test]
fn stack_trace_output() {
    let mem = memory();
    let mut r = FpRecords::new();
    r.record_fp(0x1040);
    let mut c = Console::new();
    print_stack_trace(&mem, &mut r, 0x1020, &mut c);
    assert_eq!(r.records(), &vec![0x1040, 0x1020]);
    assert_eq!(
        text(&c),
        "=== Stack Trace ===\n\n--- Recorded FPs ---\n\
         FP_RECORDS[0] = 0x1040\n\
         FP_RECORDS[1] = 0x1020\n\n\
         [0] Frame: 0x1020 [RECORDED at index 1]\n    RA: 0xaaaa\n    Caller FP: 0x1040\n\n\
         [1] Frame: 0x1040 [RECORDED at index 0]\n    RA: 0xbbbb\n    Caller FP: 0x0\n\n\
         Total 2 frames\n\n\
         Recorded 2 frame pointers\n\
         Found 2 of 2 in stack trace\n\
         All recorded frame pointers verified!\n"
    );
}

#[test]
fn stack_trace_with_unfound_record() {
    let mem = memory();
    let mut r = FpRecords::new();
    r.record_fp(0x9999);
    let mut c = Console::new();
    print_stack_trace(&mem, &mut r, 0x1040, &mut c);
    let out = text(&c);
    assert!(out.contains("[0] Frame: 0x1040 [RECORDED at index 1]\n"));
    assert!(out.contains("Found 1 of 2 in stack trace\n"));
    assert!(!out.contains("verified"));
}

#[test]
fn user_buffer_checks() {
    assert!(!check_user_buffer(0, 1));
    assert!(check_user_buffer(0x803FF000, 0x1000));
    assert!(!check_user_buffer(0x803FF000, 0x1001));
    assert!(check_user_buffer(0x80400000, 0x20000));
    assert!(!check_user_buffer(0x80400000, 0x20001));
    assert!(!check_user_buffer(0x80000000, 4));
    assert!(!check_user_buffer(0x1000, 4));
}

#[test]
fn check_user_buffer_refuses_overflowing_end() {
    assert!(!check_user_buffer(0x80400000, usize::MAX));
    assert!(!check_user_buffer(usize::MAX, 2));
    assert!(!check_user_buffer(0x803FF000, usize::MAX - 0x100));
}

#[test]
fn sys_write_refuses_invalid_utf8() {
    let mut c = Console::new();
    assert_eq!(sys_write(&mut c, 1, 0x80400100, 3, &[0x61, 0xff, 0x62]), -1);
    assert_eq!(sys_write(&mut c, 1, 0x80400100, 2, &[0xe7, 0xb3]), -1);
    assert_eq!(text(&c), "");
    assert_eq!(sys_write(&mut c, 1, 0x80400100, usize::MAX, &[]), -1);
    assert_eq!(text(&c), "");
}

#[test]
fn sys_write_to_stdout() {
    let mut c = Console::new();
    assert_eq!(sys_write(&mut c, 1, 0x80400100, 6, b"hello\n"), 6);
    assert_eq!(text(&c), "hello\n");
    assert_eq!(sys_write(&mut c, 2, 0x80400100, 6, b"hello\n"), -1);
    assert_eq!(sys_write(&mut c, 1, 0, 6, b"hello\n"), -1);
    assert_eq!(sys_write(&mut c, 1, 0x80000000, 6, b"hello\n"), -1);
    assert_eq!(text(&c), "hello\n");
}

#[test]
fn sys_write_decodes_utf8() {
    let mut c = Console::new();
    let bytes = "系统\n".as_bytes();
    assert_eq!(sys_write(&mut c, 1, 0x803FF800, bytes.len(), bytes), 7);
    assert_eq!(text(&c), "系统\n");
    assert_eq!(c.output().len(), 3);
}

#[test]
fn timestamp_formatting() {
    assert_eq!(format_timestamp(0, 0), "00:00:00.000");
    assert_eq!(format_timestamp(86399, 999_999_999), "23:59:59.999");
    assert_eq!(format_timestamp(86400 + 3661, 5_000_000), "01:01:01.005");
    assert_eq!(format_timestamp(1_700_000_000, 123_456_789), "22:13:20.123");
}

#[test]
fn chrono_timestamp_has_clock_shape() {
    let t = chrono_timestamp().unwrap();
    assert_eq!(t.len(), 12);
    let b = t.as_bytes();
    assert_eq!(b[2], b':');
    assert_eq!(b[5], b':');
    assert_eq!(b[8], b'.');
}

#[test]
fn shared_counter_counts() {
    let mut c = SharedCounter::new();
    assert_eq!(c.get(), 0);
    for i in 1..=12 {
        assert_eq!(c.increment(), i);
    }
    assert_eq!(c.get(), 12);
}

#[test]
fn recursive_prints_each_level() {
    let mut c = Console::new();
    assert_eq!(recursive(3, &mut c), 3);
    assert_eq!(text(&c), "recursive(3)\nrecursive(2)\nrecursive(1)\nBase case reached\n");
    let mut d = Console::new();
    assert_eq!(recursive(-2, &mut d), 0);
    assert_eq!(text(&d), "Base case reached\n");
}
