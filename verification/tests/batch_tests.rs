use rcore_kernel::batch::{
    get_app_exec_time, get_app_name, get_current_app_id, get_current_task_info, init,
    print_exception_details, print_exception_summary, print_syscall_stats, record_app_end_time,
    record_app_start_time, record_exception, record_syscall, run_next_app, AppManager, BatchKernel,
    ExceptionType, LoadPlan,
};
use rcore_kernel::console::Console;
use rcore_kernel::process::{c_str_len, sys_exit, sys_get_taskinfo};

fn text(c: &Console) -> String {
    c.output().iter().collect()
}

fn names() -> Vec<u8> {
    b"00hello_world\x0001store_fault\x0002power\x00".to_vec()
}

fn table() -> Vec<usize> {
    vec![3, 0x80400000, 0x80401000, 0x80403000, 0x80403800]
}

#[test]
fn exception_type_names() {
    assert_eq!(ExceptionType::IllegalInstruction.name(), "IllegalInstruction");
    assert_eq!(ExceptionType::InstructionAddressMisaligned.name(), "InstructionAddressMisaligned");
    assert_eq!(ExceptionType::StorePageFault.name(), "StorePageFault");
    assert_eq!(ExceptionType::Unknown.name(), "Unknown");
}

#[test]
fn app_name_table_lookup() {
    let t = names();
    assert_eq!(get_app_name(&t, 0), b"00hello_world".to_vec());
    assert_eq!(get_app_name(&t, 1), b"01store_fault".to_vec());
    assert_eq!(get_app_name(&t, 2), b"02power".to_vec());
    assert_eq!(get_app_name(&t, 3), Vec::<u8>::new());
    assert_eq!(get_app_name(&t, 100), Vec::<u8>::new());
}

#[test]
fn app_name_without_terminator_runs_to_table_end() {
    let t = b"first\x00second".to_vec();
    assert_eq!(get_app_name(&t, 1), b"second".to_vec());
}

#[test]
fn app_manager_moves_through_the_table() {
    let mut m = AppManager::from_app_table(&table());
    let mut c = Console::new();
    assert_eq!(m.get_current_app(), 0);
    assert_eq!(m.load_app(0, &mut c), LoadPlan::Load { src: 0x80400000, len: 0x1000 });
    m.move_to_next_app();
    assert_eq!(m.get_running_app(), 0);
    assert_eq!(m.get_current_app(), 1);
    assert_eq!(m.load_app(2, &mut c), LoadPlan::Load { src: 0x80403000, len: 0x800 });
    assert_eq!(m.load_app(3, &mut c), LoadPlan::AllCompleted);
    assert_eq!(
        text(&c),
        "[kernel] Loading app_0\n[kernel] Loading app_2\nAll applications completed!\n"
    );
}

#[test]
fn init_prints_app_table() {
    let k = BatchKernel::new(&table(), names());
    let mut c = Console::new();
    init(&k, &mut c);
    assert_eq!(
        text(&c),
        "[kernel] num_app = 3\n\
         [kernel] app_0 [0x80400000, 0x80401000)\n\
         [kernel] app_1 [0x80401000, 0x80403000)\n\
         [kernel] app_2 [0x80403000, 0x80403800)\n"
    );
}

#[test]
fn run_next_app_runs_each_app_then_completes() {
    let mut k = BatchKernel::new(&table(), names());
    let mut c = Console::new();
    assert_eq!(run_next_app(&mut k, 100, &mut c), LoadPlan::Load { src: 0x80400000, len: 0x1000 });
    assert_eq!(get_current_app_id(&k), 0);
    assert_eq!(run_next_app(&mut k, 200, &mut c), LoadPlan::Load { src: 0x80401000, len: 0x2000 });
    assert_eq!(run_next_app(&mut k, 300, &mut c), LoadPlan::Load { src: 0x80403000, len: 0x800 });
    assert_eq!(run_next_app(&mut k, 400, &mut c), LoadPlan::AllCompleted);
    assert_eq!(get_current_app_id(&k), 2);
    assert_eq!(
        text(&c),
        "[kernel] Loading app_0\n[kernel] Loading app_1\n[kernel] Loading app_2\nAll applications completed!\n"
    );
}

#[test]
fn current_task_info_names_the_running_app() {
    let mut k = BatchKernel::new(&table(), names());
    let mut c = Console::new();
    run_next_app(&mut k, 0, &mut c);
    run_next_app(&mut k, 0, &mut c);
    let (id, name) = get_current_task_info(&k);
    assert_eq!(id, 1);
    assert_eq!(name, b"01store_fault".to_vec());
}

#[test]
fn syscall_statistics_are_counted_and_printed() {
    let mut k = BatchKernel::new(&table(), names());
    let mut c = Console::new();
    run_next_app(&mut k, 0, &mut c);
    record_syscall(&mut k, 64);
    record_syscall(&mut k, 64);
    record_syscall(&mut k, 93);
    record_syscall(&mut k, 300);
    let mut out = Console::new();
    print_syscall_stats(&k, 0, &mut out);
    assert_eq!(
        text(&out),
        "\n[kernel] === Syscall Statistics for 00hello_world (app_0) ===\n\
         [kernel]   Syscall 64: 2 calls\n\
         [kernel]   Syscall 93: 1 calls\n\
         [kernel]   Total: 3 syscalls\n\n"
    );
    let mut other = Console::new();
    print_syscall_stats(&k, 1, &mut other);
    assert_eq!(
        text(&other),
        "\n[kernel] === Syscall Statistics for 01store_fault (app_1) ===\n[kernel]   Total: 0 syscalls\n\n"
    );
}

#[test]
fn execution_time_is_end_less_start() {
    let mut k = BatchKernel::new(&table(), names());
    record_app_start_time(&mut k, 1000);
    record_app_end_time(&mut k, 2, 1750);
    assert_eq!(get_app_exec_time(&k, 2), 750);
    assert_eq!(get_app_exec_time(&k, 0), 0);
}

#[test]
fn exceptions_are_recorded_and_summarised() {
    let mut k = BatchKernel::new(&table(), names());
    let mut c = Console::new();
    run_next_app(&mut k, 0, &mut c);
    record_exception(&mut k, ExceptionType::StoreFault, 0x80400010, 0);
    record_exception(&mut k, ExceptionType::IllegalInstruction, 0x80400020, 0x10);
    record_exception(&mut k, ExceptionType::StoreFault, 0x80400030, 0);
    let mut out = Console::new();
    print_exception_summary(&k, 0, &mut out);
    assert_eq!(
        text(&out),
        "\n[kernel] === Exception Summary for 00hello_world (app_0) ===\n\
         [kernel] Total exceptions: 3\n\
         [kernel]   IllegalInstruction: 1\n\
         [kernel]   StoreFault: 2\n\
         [kernel] \n"
    );
    let mut none = Console::new();
    print_exception_summary(&k, 1, &mut none);
    assert_eq!(text(&none), "");
}

#[test]
fn exception_record_is_capped_per_app() {
    let mut k = BatchKernel::new(&table(), names());
    let mut c = Console::new();
    run_next_app(&mut k, 0, &mut c);
    for i in 0..20 {
        record_exception(&mut k, ExceptionType::LoadAccessFault, i, 0);
    }
    let mut out = Console::new();
    print_exception_summary(&k, 0, &mut out);
    assert!(text(&out).contains("[kernel] Total exceptions: 16\n"));
    assert!(text(&out).contains("[kernel]   LoadAccessFault: 16\n"));
}

#[test]
fn exception_details_are_printed() {
    let mut k = BatchKernel::new(&table(), names());
    let mut c = Console::new();
    run_next_app(&mut k, 0, &mut c);
    let mut out = Console::new();
    print_exception_details(&k, ExceptionType::StorePageFault, 0x80400104, 0x0, 0x00b53023, &mut out);
    assert_eq!(
        text(&out),
        "[kernel] ==================== Exception Details ====================\n\
         [kernel] Application: 00hello_world (app_0)\n\
         [kernel] Exception Type: StorePageFault\n\
         [kernel] Fault Instruction Address (sepc): 0x80400104\n\
         [kernel] Fault Address (stval): 0x0\n\
         [kernel] Instruction: 0xb53023\n\
         [kernel] =========================================================\n"
    );
}

#[test]
fn sys_exit_reports_and_loads_next() {
    let mut k = BatchKernel::new(&table(), names());
    let mut c = Console::new();
    run_next_app(&mut k, 1000, &mut c);
    record_syscall(&mut k, 64);
    let mut out = Console::new();
    let plan = sys_exit(&mut k, -3, 1255, &mut out);
    assert_eq!(plan, LoadPlan::Load { src: 0x80401000, len: 0x2000 });
    assert_eq!(get_app_exec_time(&k, 0), 255);
    assert_eq!(
        text(&out),
        "[kernel] Application exited with code -3\n\
         [kernel] Execution time: 25 us (255 cycles)\n\
         \n[kernel] === Syscall Statistics for 00hello_world (app_0) ===\n\
         [kernel]   Syscall 64: 1 calls\n\
         [kernel]   Total: 1 syscalls\n\n\
         [kernel] Loading app_1\n"
    );
    assert_eq!(get_current_app_id(&k), 1);
}

#[test]
fn get_taskinfo_copies_name_and_terminator() {
    let mut k = BatchKernel::new(&table(), names());
    let mut c = Console::new();
    run_next_app(&mut k, 0, &mut c);
    run_next_app(&mut k, 0, &mut c);
    run_next_app(&mut k, 0, &mut c);
    let mut buf = vec![0xffu8; 64];
    let id = sys_get_taskinfo(&k, 0x1000, &mut buf, 64);
    assert_eq!(id, 2);
    let len = c_str_len(&buf);
    assert_eq!(len, 7);
    assert_eq!(&buf[..len], b"02power");
    assert_eq!(buf[8], 0xff);
}

#[test]
fn get_taskinfo_truncates_to_buffer() {
    let mut k = BatchKernel::new(&table(), names());
    let mut c = Console::new();
    run_next_app(&mut k, 0, &mut c);
    let mut buf = vec![0xffu8; 5];
    let id = sys_get_taskinfo(&k, 0x1000, &mut buf, 5);
    assert_eq!(id, 0);
    assert_eq!(buf, b"00he\x00".to_vec());
    assert_eq!(c_str_len(&buf), 4);
}

#[test]
fn get_taskinfo_rejects_null_or_empty_buffer() {
    let k = BatchKernel::new(&table(), names());
    let mut buf = vec![7u8; 4];
    assert_eq!(sys_get_taskinfo(&k, 0, &mut buf, 4), -1);
    assert_eq!(sys_get_taskinfo(&k, 0x1000, &mut buf, 0), -1);
    assert_eq!(buf, vec![7u8; 4]);
}

#[test]
fn utf8_names_are_decoded_when_printed() {
    let table = vec![1, 0x80400000, 0x80400010];
    let mut k = BatchKernel::new(&table, "应用\0".as_bytes().to_vec());
    let mut c = Console::new();
    run_next_app(&mut k, 0, &mut c);
    record_syscall(&mut k, 93);
    let mut out = Console::new();
    print_syscall_stats(&k, 0, &mut out);
    assert!(text(&out).starts_with("\n[kernel] === Syscall Statistics for 应用 (app_0) ===\n"));
}

#[test]
fn c_str_len_without_terminator_is_whole_buffer() {
    assert_eq!(c_str_len(&b"abc".to_vec()), 3);
    assert_eq!(c_str_len(&Vec::new()), 0);
}
