//! Trap handling of the multitasking kernel. While the kernel handles a trap
//! from user mode, `stvec` points at the kernel entry and supervisor
//! interrupts are on, so that a timer interrupt taken in the kernel goes
//! through the kernel entry; both are put back before returning to user mode.

use vstd::prelude::*;
use crate::console::{Console, hex};
use crate::trap_cause::{
    TrapCause, ExceptionCause, InterruptCause, TrapContext, TrapCsrs, TrapVector, TrapVectorMode,
};

verus! {

/// The two trap entry points.
#[derive(Clone, Copy, Debug, PartialEq, Eq, Structural)]
pub struct TrapEntries {
    /// Entry for traps from user mode (`__alltraps`).
    pub user: usize,
    /// Entry for traps taken in the kernel (`__alltraps_k`).
    pub kernel: usize,
}

/// The CSRs with `stvec` pointing, in direct mode, at `address`.
pub open spec fn with_entry(csrs: TrapCsrs, address: usize) -> TrapCsrs {
    TrapCsrs { stvec: TrapVector { address, mode: TrapVectorMode::Direct }, ..csrs }
}

/// The CSRs while the kernel handles a trap from user mode.
pub open spec fn handling_csrs(csrs: TrapCsrs, entries: TrapEntries) -> TrapCsrs {
    TrapCsrs { sstatus_sie: true, ..with_entry(csrs, entries.kernel) }
}

/// The CSRs when the kernel returns to user mode.
pub open spec fn returning_csrs(csrs: TrapCsrs, entries: TrapEntries) -> TrapCsrs {
    TrapCsrs { sstatus_sie: false, ..with_entry(csrs, entries.user) }
}

fn set_kernel_trap_entry(csrs: &mut TrapCsrs, entries: &TrapEntries)
    ensures
        *final(csrs) == with_entry(*old(csrs), entries.kernel),
{
    csrs.stvec = TrapVector { address: entries.kernel, mode: TrapVectorMode::Direct };
}

fn set_user_trap_entry(csrs: &mut TrapCsrs, entries: &TrapEntries)
    ensures
        *final(csrs) == with_entry(*old(csrs), entries.user),
{
    csrs.stvec = TrapVector { address: entries.user, mode: TrapVectorMode::Direct };
}

/// Points `stvec` at the user trap entry.
pub fn init(csrs: &mut TrapCsrs, entries: &TrapEntries)
    ensures
        *final(csrs) == with_entry(*old(csrs), entries.user),
{
    set_user_trap_entry(csrs, entries);
}

/// Enables supervisor timer interrupts.
pub fn enable_timer_interrupt(csrs: &mut TrapCsrs)
    ensures
        *final(csrs) == (TrapCsrs { sie_stimer: true, ..*old(csrs) }),
{
    csrs.sie_stimer = true;
}

/// What the kernel does after a trap from user mode.
#[derive(Clone, Copy, Debug, PartialEq, Eq, Structural)]
pub enum TaskTrapAction {
    /// Run system call `id` with arguments `arg0`, `arg1`, `arg2`, put its
    /// result in the context with `complete_syscall`, then `trap_return`.
    Syscall { id: usize, arg0: usize, arg1: usize, arg2: usize },
    /// Stop the current task and run the next one.
    ExitCurrent,
    /// Set the next timer interrupt, suspend the current task and run the
    /// next one; when it runs again, `trap_return`.
    SuspendCurrent,
    /// A trap that the kernel does not handle: the kernel panics.
    Unsupported { cause: TrapCause, stval: usize },
}

/// The message for a store fault of the application.
pub open spec fn page_fault_text(stval: usize, sepc: usize) -> Seq<char> {
    "[kernel] PageFault in application, bad addr = "@ + hex(stval as nat) + ", bad instruction = "@
        + hex(sepc as nat) + ", kernel killed it.\n"@
}

/// The message for an illegal instruction of the application.
pub open spec fn illegal_instruction_text() -> Seq<char> {
    "[kernel] IllegalInstruction in application, kernel killed it.\n"@
}

/// Handles a trap from user mode with cause `cause` and trap value `stval`.
///
/// First `stvec` is pointed at the kernel entry and supervisor interrupts
/// are enabled. A system call moves `sepc` past the `ecall` and asks for the
/// call; a store fault or an illegal instruction is reported and ends the
/// task; a supervisor timer interrupt suspends it; any other trap is not
/// handled.
pub fn trap_handler(
    csrs: &mut TrapCsrs,
    entries: &TrapEntries,
    cx: &mut TrapContext,
    cause: TrapCause,
    stval: usize,
    console: &mut Console,
) -> (action: TaskTrapAction)
    requires
        cause == TrapCause::Exception(ExceptionCause::UserEnvCall) ==> old(cx).sepc + 4 <= usize::MAX,
    ensures
        *final(csrs) == handling_csrs(*old(csrs), *entries),
        final(cx).x == old(cx).x,
        final(cx).sstatus == old(cx).sstatus,
        match cause {
            TrapCause::Exception(ExceptionCause::UserEnvCall) => {
                &&& action == TaskTrapAction::Syscall {
                    id: old(cx).x@[17],
                    arg0: old(cx).x@[10],
                    arg1: old(cx).x@[11],
                    arg2: old(cx).x@[12],
                }
                &&& final(cx).sepc == old(cx).sepc + 4
                &&& final(console)@ == old(console)@
            },
            TrapCause::Exception(ExceptionCause::StoreFault)
            | TrapCause::Exception(ExceptionCause::StorePageFault) => {
                &&& action == TaskTrapAction::ExitCurrent
                &&& final(cx).sepc == old(cx).sepc
                &&& final(console)@ == old(console)@ + page_fault_text(stval, old(cx).sepc)
            },
            TrapCause::Exception(ExceptionCause::IllegalInstruction) => {
                &&& action == TaskTrapAction::ExitCurrent
                &&& final(cx).sepc == old(cx).sepc
                &&& final(console)@ == old(console)@ + illegal_instruction_text()
            },
            TrapCause::Interrupt(InterruptCause::SupervisorTimer) => {
                &&& action == TaskTrapAction::SuspendCurrent
                &&& final(cx).sepc == old(cx).sepc
                &&& final(console)@ == old(console)@
            },
            _ => {
                &&& action == TaskTrapAction::Unsupported { cause, stval }
                &&& final(cx).sepc == old(cx).sepc
                &&& final(console)@ == old(console)@
            },
        },
{
    set_kernel_trap_entry(csrs, entries);
    csrs.sstatus_sie = true;
    match cause {
        TrapCause::Exception(ExceptionCause::UserEnvCall) => {
            cx.sepc = cx.sepc + 4;
            TaskTrapAction::Syscall { id: cx.x[17], arg0: cx.x[10], arg1: cx.x[11], arg2: cx.x[12] }
        },
        TrapCause::Exception(ExceptionCause::StoreFault)
        | TrapCause::Exception(ExceptionCause::StorePageFault) => {
            let ghost start = console@;
            console.write_str("[kernel] PageFault in application, bad addr = ");
            console.put_hex(stval);
            console.write_str(", bad instruction = ");
            console.put_hex(cx.sepc);
            console.write_str(", kernel killed it.\n");
            proof {
                assert(console@ =~= start + page_fault_text(stval, cx.sepc));
            }
            TaskTrapAction::ExitCurrent
        },
        TrapCause::Exception(ExceptionCause::IllegalInstruction) => {
            console.write_str("[kernel] IllegalInstruction in application, kernel killed it.\n");
            TaskTrapAction::ExitCurrent
        },
        TrapCause::Interrupt(InterruptCause::SupervisorTimer) => TaskTrapAction::SuspendCurrent,
        _ => TaskTrapAction::Unsupported { cause, stval },
    }
}

/// Leaves the kernel for user mode: supervisor interrupts off, `stvec` back at
/// the user entry.
pub fn trap_return(csrs: &mut TrapCsrs, entries: &TrapEntries)
    ensures
        *final(csrs) == returning_csrs(*old(csrs), *entries),
{
    csrs.sstatus_sie = false;
    set_user_trap_entry(csrs, entries);
}

/// Law: a trap from user mode, handled and returned from, leaves the trap
/// CSRs as user mode needs them (user entry, direct mode, supervisor
/// interrupts off), with the timer enable untouched; in between, the kernel
/// entry is in place and interrupts are on.
pub proof fn law_trap_round_trip(before: TrapCsrs, entries: TrapEntries)
    ensures
        handling_csrs(before, entries).stvec == (TrapVector { address: entries.kernel, mode: TrapVectorMode::Direct }),
        handling_csrs(before, entries).sstatus_sie,
        returning_csrs(handling_csrs(before, entries), entries) == (TrapCsrs {
            stvec: TrapVector { address: entries.user, mode: TrapVectorMode::Direct },
            sstatus_sie: false,
            sie_stimer: before.sie_stimer,
        }),
{
}

/// What the kernel does after a trap taken in the kernel.
#[derive(Clone, Copy, Debug, PartialEq, Eq, Structural)]
pub enum KernelTrapAction {
    /// Set the next timer interrupt and go on.
    SetNextTrigger,
    /// A trap that the kernel does not handle: the kernel panics.
    Unsupported { cause: TrapCause, stval: usize, sepc: usize },
}

/// The message for a timer interrupt taken in the kernel.
pub open spec fn kernel_timer_text(sepc: usize) -> Seq<char> {
    "[kernel] Kernel trap: SupervisorTimer at sepc="@ + hex(sepc as nat) + "\n"@
}

/// Handles a trap taken in the kernel: a supervisor timer interrupt sets the
/// next trigger and is reported; anything else is not handled.
pub fn trap_handler_k(cx: &TrapContext, cause: TrapCause, stval: usize, console: &mut Console) -> (action: KernelTrapAction)
    ensures
        cause == TrapCause::Interrupt(InterruptCause::SupervisorTimer) ==> {
            &&& action == KernelTrapAction::SetNextTrigger
            &&& final(console)@ == old(console)@ + kernel_timer_text(cx.sepc)
        },
        cause != TrapCause::Interrupt(InterruptCause::SupervisorTimer) ==> {
            &&& action == (KernelTrapAction::Unsupported { cause, stval, sepc: cx.sepc })
            &&& final(console)@ == old(console)@
        },
{
    match cause {
        TrapCause::Interrupt(InterruptCause::SupervisorTimer) => {
            console.put_hex_line("[kernel] Kernel trap: SupervisorTimer at sepc=", cx.sepc);
            KernelTrapAction::SetNextTrigger
        },
        _ => KernelTrapAction::Unsupported { cause, stval, sepc: cx.sepc },
    }
}

} // verus!
