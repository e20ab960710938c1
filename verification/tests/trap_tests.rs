use rcore_kernel::batch::{get_current_app_id, print_exception_summary, run_next_app, BatchKernel, LoadPlan};
use rcore_kernel::console::Console;
use rcore_kernel::task_trap::{
    enable_timer_interrupt, trap_handler as task_trap_handler, trap_handler_k, trap_return,
    KernelTrapAction, TaskTrapAction, TrapEntries,
};
use rcore_kernel::trap::{init as batch_trap_init, trap_handler, TrapAction};
use rcore_kernel::trap_cause::{
    complete_syscall, trap_cause, ExceptionCause, InterruptCause, TrapCause, TrapContext, TrapCsrs,
    TrapVector, TrapVectorMode,
};

fn text(c: &Console) -> String {
    c.output().iter().collect()
}

fn csrs() -> TrapCsrs {
    TrapCsrs {
        stvec: TrapVector { address: 0, mode: TrapVectorMode::Vectored },
        sstatus_sie: false,
        sie_stimer: false,
    }
}

fn context(sepc: usize) -> TrapContext {
    let mut x = [0usize; 32];
    x[10] = 1;
    x[11] = 0x80400100;
    x[12] = 5;
    x[17] = 64;
    TrapContext { x, sstatus: 0, sepc }
}

const INTERRUPT: usize = 1usize << (usize::BITS - 1);

#[test]
fn scause_decoding() {
    assert_eq!(trap_cause(8), TrapCause::Exception(ExceptionCause::UserEnvCall));
    assert_eq!(trap_cause(2), TrapCause::Exception(ExceptionCause::IllegalInstruction));
    assert_eq!(trap_cause(7), TrapCause::Exception(ExceptionCause::StoreFault));
    assert_eq!(trap_cause(15), TrapCause::Exception(ExceptionCause::StorePageFault));
    assert_eq!(trap_cause(4), TrapCause::Exception(ExceptionCause::Unknown));
    assert_eq!(trap_cause(INTERRUPT | 5), TrapCause::Interrupt(InterruptCause::SupervisorTimer));
    assert_eq!(trap_cause(INTERRUPT | 1), TrapCause::Interrupt(InterruptCause::SupervisorSoft));
    assert_eq!(trap_cause(INTERRUPT | 2), TrapCause::Interrupt(InterruptCause::Unknown));
}

#[test]
fn complete_syscall_sets_a0() {
    let mut cx = context(0x80400000);
    complete_syscall(&mut cx, -1);
    assert_eq!(cx.x[10], usize::MAX);
    complete_syscall(&mut cx, 12);
    assert_eq!(cx.x[10], 12);
    assert_eq!(cx.x[17], 64);
}

fn kernel() -> BatchKernel {
    BatchKernel::new(&vec![2, 0x80400000, 0x80401000, 0x80402000], b"00hello\x0001bad\x00".to_vec())
}

#[test]
fn batch_trap_init_points_at_entry() {
    let mut c = csrs();
    batch_trap_init(&mut c, 0x80200100);
    assert_eq!(c.stvec, TrapVector { address: 0x80200100, mode: TrapVectorMode::Direct });
}

#[test]
fn batch_trap_syscall_advances_sepc() {
    let mut k = kernel();
    let mut out = Console::new();
    let mut cx = context(0x80400010);
    let action = trap_handler(&mut k, &mut cx, trap_cause(8), 0, 0, 0, &mut out);
    assert_eq!(action, TrapAction::Syscall { id: 64, arg0: 1, arg1: 0x80400100, arg2: 5 });
    assert_eq!(cx.sepc, 0x80400014);
    assert_eq!(text(&out), "");
}

#[test]
fn batch_trap_exception_records_and_moves_on() {
    let mut k = kernel();
    let mut c = Console::new();
    run_next_app(&mut k, 0, &mut c);
    let mut out = Console::new();
    let mut cx = context(0x80400040);
    let action = trap_handler(
        &mut k,
        &mut cx,
        TrapCause::Exception(ExceptionCause::IllegalInstruction),
        0x30200073,
        0x30200073,
        500,
        &mut out,
    );
    assert_eq!(action, TrapAction::RunNext(LoadPlan::Load { src: 0x80401000, len: 0x1000 }));
    assert_eq!(cx.sepc, 0x80400040);
    assert_eq!(get_current_app_id(&k), 1);
    assert_eq!(
        text(&out),
        "[kernel] ==================== Exception Details ====================\n\
         [kernel] Application: 00hello (app_0)\n\
         [kernel] Exception Type: IllegalInstruction\n\
         [kernel] Fault Instruction Address (sepc): 0x80400040\n\
         [kernel] Fault Address (stval): 0x30200073\n\
         [kernel] Instruction: 0x30200073\n\
         [kernel] =========================================================\n\
         [kernel] Loading app_1\n"
    );
    let mut summary = Console::new();
    print_exception_summary(&k, 0, &mut summary);
    assert!(text(&summary).contains("[kernel]   IllegalInstruction: 1\n"));
}

#[test]
fn batch_trap_unknown_is_recorded_and_unsupported() {
    let mut k = kernel();
    let mut c = Console::new();
    run_next_app(&mut k, 0, &mut c);
    let mut out = Console::new();
    let mut cx = context(0x80400040);
    let cause = TrapCause::Interrupt(InterruptCause::SupervisorTimer);
    let action = trap_handler(&mut k, &mut cx, cause, 9, 0, 0, &mut out);
    assert_eq!(action, TrapAction::Unsupported { cause, stval: 9 });
    let mut summary = Console::new();
    print_exception_summary(&k, 0, &mut summary);
    assert!(text(&summary).contains("[kernel]   Unknown: 1\n"));
    assert_eq!(get_current_app_id(&k), 0);
}

#[test]
fn task_trap_round_trip_restores_user_mode() {
    let entries = TrapEntries { user: 0x80200000, kernel: 0x80200800 };
    let mut c = csrs();
    rcore_kernel::task_trap::init(&mut c, &entries);
    enable_timer_interrupt(&mut c);
    let mut cx = context(0x80400000);
    let mut out = Console::new();
    let action = task_trap_handler(&mut c, &entries, &mut cx, trap_cause(8), 0, &mut out);
    assert_eq!(action, TaskTrapAction::Syscall { id: 64, arg0: 1, arg1: 0x80400100, arg2: 5 });
    assert_eq!(c.stvec, TrapVector { address: 0x80200800, mode: TrapVectorMode::Direct });
    assert!(c.sstatus_sie);
    assert_eq!(cx.sepc, 0x80400004);
    trap_return(&mut c, &entries);
    assert_eq!(
        c,
        TrapCsrs {
            stvec: TrapVector { address: 0x80200000, mode: TrapVectorMode::Direct },
            sstatus_sie: false,
            sie_stimer: true,
        }
    );
}

#[test]
fn task_trap_reports_faults() {
    let entries = TrapEntries { user: 0x80200000, kernel: 0x80200800 };
    let mut c = csrs();
    let mut cx = context(0x80400abc);
    let mut out = Console::new();
    let action = task_trap_handler(&mut c, &entries, &mut cx, trap_cause(15), 0x10, &mut out);
    assert_eq!(action, TaskTrapAction::ExitCurrent);
    let action = task_trap_handler(&mut c, &entries, &mut cx, trap_cause(2), 0, &mut out);
    assert_eq!(action, TaskTrapAction::ExitCurrent);
    assert_eq!(
        text(&out),
        "[kernel] PageFault in application, bad addr = 0x10, bad instruction = 0x80400abc, kernel killed it.\n\
         [kernel] IllegalInstruction in application, kernel killed it.\n"
    );
    let timer = task_trap_handler(&mut c, &entries, &mut cx, trap_cause(INTERRUPT | 5), 0, &mut out);
    assert_eq!(timer, TaskTrapAction::SuspendCurrent);
    let other = task_trap_handler(&mut c, &entries, &mut cx, trap_cause(3), 7, &mut out);
    assert_eq!(other, TaskTrapAction::Unsupported { cause: TrapCause::Exception(ExceptionCause::Breakpoint), stval: 7 });
}

#[test]
fn kernel_trap_handles_only_timer() {
    let cx = context(0x80201234);
    let mut out = Console::new();
    let a = trap_handler_k(&cx, trap_cause(INTERRUPT | 5), 0, &mut out);
    assert_eq!(a, KernelTrapAction::SetNextTrigger);
    assert_eq!(text(&out), "[kernel] Kernel trap: SupervisorTimer at sepc=0x80201234\n");
    let b = trap_handler_k(&cx, trap_cause(13), 0x44, &mut out);
    assert_eq!(
        b,
        KernelTrapAction::Unsupported {
            cause: TrapCause::Exception(ExceptionCause::LoadPageFault),
            stval: 0x44,
            sepc: 0x80201234
        }
    );
}

#[test]
fn app_init_context_sets_entry_and_stack() {
    let cx = rcore_kernel::trap_cause::TrapContext::app_init_context(0x80400000, 0x80207000, 0x20);
    assert_eq!(cx.sepc, 0x80400000);
    assert_eq!(cx.sstatus, 0x20);
    assert_eq!(cx.x[2], 0x80207000);
    for (i, r) in cx.x.iter().enumerate() {
        if i != 2 {
            assert_eq!(*r, 0);
        }
    }
}
