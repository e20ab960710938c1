//! Trap handling of the batch kernel: system calls go to the dispatcher, and
//! an application that raises an exception has it recorded and reported, and
//! is replaced by the next application.

use vstd::prelude::*;
use crate::console::Console;
use crate::batch::{
    BatchKernel, BatchView, ExceptionType, ExceptionRecord, LoadPlan, batch_valid, after_record_exception,
    after_run_next, exception_details_text, load_plan, load_text, record_exception,
    print_exception_details, run_next_app,
};
use crate::trap_cause::{
    TrapCause, ExceptionCause, TrapContext, TrapCsrs, TrapVector, TrapVectorMode,
};

verus! {

/// Points `stvec` at the trap entry `alltraps`, in direct mode.
pub fn init(csrs: &mut TrapCsrs, alltraps: usize)
    ensures
        *final(csrs) == (TrapCsrs {
            stvec: TrapVector { address: alltraps, mode: TrapVectorMode::Direct },
            ..*old(csrs)
        }),
{
    csrs.stvec = TrapVector { address: alltraps, mode: TrapVectorMode::Direct };
}

/// What the kernel does after a trap from an application.
#[derive(Clone, Copy, Debug, PartialEq, Eq, Structural)]
pub enum TrapAction {
    /// Run system call `id` with arguments `arg0`, `arg1`, `arg2`, then put its result in the
    /// context with `complete_syscall` and return to the application.
    Syscall { id: usize, arg0: usize, arg1: usize, arg2: usize },
    /// The application was stopped; carry out this plan for the next one.
    RunNext(LoadPlan),
    /// A trap that the kernel does not handle: the kernel panics.
    Unsupported { cause: TrapCause, stval: usize },
}

/// The kind under which the batch kernel records an exception that stops an
/// application, or `None` for the causes it does not stop an application for.
pub open spec fn recorded_kind(e: ExceptionCause) -> Option<ExceptionType> {
    match e {
        ExceptionCause::InstructionMisaligned => Some(ExceptionType::InstructionAddressMisaligned),
        ExceptionCause::InstructionPageFault => Some(ExceptionType::InstructionAccessFault),
        ExceptionCause::IllegalInstruction => Some(ExceptionType::IllegalInstruction),
        ExceptionCause::LoadPageFault => Some(ExceptionType::LoadAccessFault),
        ExceptionCause::StoreMisaligned => Some(ExceptionType::StoreAddressMisaligned),
        ExceptionCause::StoreFault => Some(ExceptionType::StoreFault),
        ExceptionCause::StorePageFault => Some(ExceptionType::StorePageFault),
        _ => None,
    }
}

fn kind_of(e: ExceptionCause) -> (k: Option<ExceptionType>)
    ensures
        k == recorded_kind(e),
{
    match e {
        ExceptionCause::InstructionMisaligned => Some(ExceptionType::InstructionAddressMisaligned),
        ExceptionCause::InstructionPageFault => Some(ExceptionType::InstructionAccessFault),
        ExceptionCause::IllegalInstruction => Some(ExceptionType::IllegalInstruction),
        ExceptionCause::LoadPageFault => Some(ExceptionType::LoadAccessFault),
        ExceptionCause::StoreMisaligned => Some(ExceptionType::StoreAddressMisaligned),
        ExceptionCause::StoreFault => Some(ExceptionType::StoreFault),
        ExceptionCause::StorePageFault => Some(ExceptionType::StorePageFault),
        _ => None,
    }
}

/// Law: the exceptions for which the batch kernel stops an application, and
/// the kind under which each is recorded: a misaligned instruction address, an
/// instruction page fault (recorded as an instruction access fault), an illegal
/// instruction, a load page fault (recorded as a load access fault), a
/// misaligned store, a store fault and a store page fault. Every other cause
/// (system calls, breakpoints, load access faults, ...) stops none.
pub proof fn law_fatal_exception_kinds(e: ExceptionCause)
    ensures
        recorded_kind(ExceptionCause::InstructionMisaligned) == Some(ExceptionType::InstructionAddressMisaligned),
        recorded_kind(ExceptionCause::InstructionPageFault) == Some(ExceptionType::InstructionAccessFault),
        recorded_kind(ExceptionCause::IllegalInstruction) == Some(ExceptionType::IllegalInstruction),
        recorded_kind(ExceptionCause::LoadPageFault) == Some(ExceptionType::LoadAccessFault),
        recorded_kind(ExceptionCause::StoreMisaligned) == Some(ExceptionType::StoreAddressMisaligned),
        recorded_kind(ExceptionCause::StoreFault) == Some(ExceptionType::StoreFault),
        recorded_kind(ExceptionCause::StorePageFault) == Some(ExceptionType::StorePageFault),
        recorded_kind(e) is Some <==> (e == ExceptionCause::InstructionMisaligned
            || e == ExceptionCause::InstructionPageFault || e == ExceptionCause::IllegalInstruction
            || e == ExceptionCause::LoadPageFault || e == ExceptionCause::StoreMisaligned
            || e == ExceptionCause::StoreFault || e == ExceptionCause::StorePageFault),
{
}

/// Whether the cause is a system call from user mode.
pub open spec fn is_syscall(cause: TrapCause) -> bool {
    cause == TrapCause::Exception(ExceptionCause::UserEnvCall)
}

/// Handles a trap from an application, with cause `cause` and trap value
/// `stval`, at time `now`; `instruction` is the instruction word at `cx.sepc`
/// (it is only printed for an exception that stops the application).
///
/// A system call moves `sepc` past the `ecall` and asks for the call. An
/// exception that the kernel knows is recorded and reported, and the next
/// application is loaded. Any other trap is recorded as `Unknown` and is not
/// handled.
pub fn trap_handler(
    kernel: &mut BatchKernel,
    cx: &mut TrapContext,
    cause: TrapCause,
    stval: usize,
    instruction: u32,
    now: usize,
    console: &mut Console,
) -> (action: TrapAction)
    requires
        batch_valid(old(kernel)@),
        is_syscall(cause) ==> old(cx).sepc + 4 <= usize::MAX,
        !is_syscall(cause) ==> old(kernel)@.apps.current_app >= 1,
    ensures
        batch_valid(final(kernel)@),
        is_syscall(cause) ==> {
            &&& action == TrapAction::Syscall {
                id: old(cx).x@[17],
                arg0: old(cx).x@[10],
                arg1: old(cx).x@[11],
                arg2: old(cx).x@[12],
            }
            &&& final(cx).sepc == old(cx).sepc + 4
            &&& final(cx).x == old(cx).x
            &&& final(cx).sstatus == old(cx).sstatus
            &&& final(kernel)@ == old(kernel)@
            &&& final(console)@ == old(console)@
        },
        !is_syscall(cause) ==> *final(cx) == *old(cx),
        (match cause {
            TrapCause::Exception(e) => recorded_kind(e) is Some,
            _ => false,
        }) ==> {
            let t = match cause {
                TrapCause::Exception(e) => recorded_kind(e)->0,
                _ => ExceptionType::Unknown,
            };
            let recorded = after_record_exception(old(kernel)@, ExceptionRecord { exception_type: t, sepc: old(cx).sepc, stval });
            &&& action == TrapAction::RunNext(load_plan(recorded.apps, recorded.apps.current_app))
            &&& final(kernel)@ == after_run_next(recorded, now)
            &&& final(console)@ == old(console)@
                + exception_details_text(recorded, t, old(cx).sepc, stval, instruction)
                + load_text(recorded.apps, recorded.apps.current_app)
        },
        !is_syscall(cause) && !(match cause {
            TrapCause::Exception(e) => recorded_kind(e) is Some,
            _ => false,
        }) ==> {
            &&& action == TrapAction::Unsupported { cause, stval }
            &&& final(kernel)@ == after_record_exception(
                old(kernel)@,
                ExceptionRecord { exception_type: ExceptionType::Unknown, sepc: old(cx).sepc, stval },
            )
            &&& final(console)@ == old(console)@
        },
{
    match cause {
        TrapCause::Exception(ExceptionCause::UserEnvCall) => {
            cx.sepc = cx.sepc + 4;
            return TrapAction::Syscall { id: cx.x[17], arg0: cx.x[10], arg1: cx.x[11], arg2: cx.x[12] };
        },
        TrapCause::Exception(e) => {
            match kind_of(e) {
                Some(t) => {
                    let sepc = cx.sepc;
                    record_exception(kernel, t, sepc, stval);
                    print_exception_details(kernel, t, sepc, stval, instruction, console);
                    let plan = run_next_app(kernel, now, console);
                    return TrapAction::RunNext(plan);
                },
                None => {},
            }
        },
        TrapCause::Interrupt(_) => {},
    }
    record_exception(kernel, ExceptionType::Unknown, cx.sepc, stval);
    TrapAction::Unsupported { cause, stval }
}

} // verus!
