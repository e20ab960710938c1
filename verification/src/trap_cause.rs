//! Trap causes, the saved user context, and the trap CSRs that the kernel sets.

use vstd::prelude::*;
use riscv::register::scause::{Exception, Interrupt};

verus! {

/// Exception codes of the `scause` register.
#[derive(Clone, Copy, Debug, PartialEq, Eq, Structural)]
pub enum ExceptionCause {
    /// Instruction address misaligned (code 0).
    InstructionMisaligned,
    /// Instruction access fault (code 1).
    InstructionFault,
    /// Illegal instruction (code 2).
    IllegalInstruction,
    /// Breakpoint (code 3).
    Breakpoint,
    /// Load access fault (code 5).
    LoadFault,
    /// Store address misaligned (code 6).
    StoreMisaligned,
    /// Store access fault (code 7).
    StoreFault,
    /// Environment call from user mode (code 8).
    UserEnvCall,
    /// Instruction page fault (code 12).
    InstructionPageFault,
    /// Load page fault (code 13).
    LoadPageFault,
    /// Store page fault (code 15).
    StorePageFault,
    /// Any other code.
    Unknown,
}

/// Interrupt codes of the `scause` register.
#[derive(Clone, Copy, Debug, PartialEq, Eq, Structural)]
pub enum InterruptCause {
    /// User software interrupt (code 0).
    UserSoft,
    /// Supervisor software interrupt (code 1).
    SupervisorSoft,
    /// User timer interrupt (code 4).
    UserTimer,
    /// Supervisor timer interrupt (code 5).
    SupervisorTimer,
    /// User external interrupt (code 8).
    UserExternal,
    /// Supervisor external interrupt (code 9).
    SupervisorExternal,
    /// Any other code.
    Unknown,
}

/// The cause of a trap, as `scause` reports it.
#[derive(Clone, Copy, Debug, PartialEq, Eq, Structural)]
pub enum TrapCause {
    /// An interrupt.
    Interrupt(InterruptCause),
    /// An exception.
    Exception(ExceptionCause),
}

/// The exception that an exception code stands for.
pub open spec fn exception_of_code(nr: nat) -> ExceptionCause {
    if nr == 0 { ExceptionCause::InstructionMisaligned }
    else if nr == 1 { ExceptionCause::InstructionFault }
    else if nr == 2 { ExceptionCause::IllegalInstruction }
    else if nr == 3 { ExceptionCause::Breakpoint }
    else if nr == 5 { ExceptionCause::LoadFault }
    else if nr == 6 { ExceptionCause::StoreMisaligned }
    else if nr == 7 { ExceptionCause::StoreFault }
    else if nr == 8 { ExceptionCause::UserEnvCall }
    else if nr == 12 { ExceptionCause::InstructionPageFault }
    else if nr == 13 { ExceptionCause::LoadPageFault }
    else if nr == 15 { ExceptionCause::StorePageFault }
    else { ExceptionCause::Unknown }
}

/// The interrupt that an interrupt code stands for.
pub open spec fn interrupt_of_code(nr: nat) -> InterruptCause {
    if nr == 0 { InterruptCause::UserSoft }
    else if nr == 1 { InterruptCause::SupervisorSoft }
    else if nr == 4 { InterruptCause::UserTimer }
    else if nr == 5 { InterruptCause::SupervisorTimer }
    else if nr == 8 { InterruptCause::UserExternal }
    else if nr == 9 { InterruptCause::SupervisorExternal }
    else { InterruptCause::Unknown }
}

/// `riscv::register::scause::Exception::from`: the exception for an exception
/// code, by the table of the RISC-V privileged specification that the crate
/// implements (codes it does not list give `Unknown`).
#[verifier::external_body]
fn exception_from(nr: usize) -> (e: ExceptionCause)
    ensures
        e == exception_of_code(nr as nat),
{
    match Exception::from(nr) {
        Exception::InstructionMisaligned => ExceptionCause::InstructionMisaligned,
        Exception::InstructionFault => ExceptionCause::InstructionFault,
        Exception::IllegalInstruction => ExceptionCause::IllegalInstruction,
        Exception::Breakpoint => ExceptionCause::Breakpoint,
        Exception::LoadFault => ExceptionCause::LoadFault,
        Exception::StoreMisaligned => ExceptionCause::StoreMisaligned,
        Exception::StoreFault => ExceptionCause::StoreFault,
        Exception::UserEnvCall => ExceptionCause::UserEnvCall,
        Exception::InstructionPageFault => ExceptionCause::InstructionPageFault,
        Exception::LoadPageFault => ExceptionCause::LoadPageFault,
        Exception::StorePageFault => ExceptionCause::StorePageFault,
        Exception::Unknown => ExceptionCause::Unknown,
    }
}

/// `riscv::register::scause::Interrupt::from`: the interrupt for an interrupt
/// code, by the crate's table (codes it does not list give `Unknown`).
#[verifier::external_body]
fn interrupt_from(nr: usize) -> (i: InterruptCause)
    ensures
        i == interrupt_of_code(nr as nat),
{
    match Interrupt::from(nr) {
        Interrupt::UserSoft => InterruptCause::UserSoft,
        Interrupt::SupervisorSoft => InterruptCause::SupervisorSoft,
        Interrupt::UserTimer => InterruptCause::UserTimer,
        Interrupt::SupervisorTimer => InterruptCause::SupervisorTimer,
        Interrupt::UserExternal => InterruptCause::UserExternal,
        Interrupt::SupervisorExternal => InterruptCause::SupervisorExternal,
        Interrupt::Unknown => InterruptCause::Unknown,
    }
}

/// The value of the interrupt bit, the top bit of `scause`.
pub open spec fn interrupt_bit() -> nat {
    (usize::MAX / 2 + 1) as nat
}

/// The cause that an `scause` value reports: the top bit tells an interrupt
/// from an exception, the other bits give the code.
pub open spec fn cause_of(bits: usize) -> TrapCause {
    if bits >= interrupt_bit() {
        TrapCause::Interrupt(interrupt_of_code((bits - interrupt_bit()) as nat))
    } else {
        TrapCause::Exception(exception_of_code(bits as nat))
    }
}

/// Decodes an `scause` value.
pub fn trap_cause(bits: usize) -> (c: TrapCause)
    ensures
        c == cause_of(bits),
{
    let bit = usize::MAX / 2 + 1;
    if bits >= bit {
        TrapCause::Interrupt(interrupt_from(bits - bit))
    } else {
        TrapCause::Exception(exception_from(bits))
    }
}

/// Law: the exception code table of the RISC-V privileged specification, as
/// the decoder uses it: codes 0, 1, 2, 3, 5, 6, 7, 8, 12, 13 and 15 name their
/// exceptions, and every other code (4 among them) is unknown.
pub proof fn law_exception_code_table(n: nat)
    ensures
        exception_of_code(0) == ExceptionCause::InstructionMisaligned,
        exception_of_code(1) == ExceptionCause::InstructionFault,
        exception_of_code(2) == ExceptionCause::IllegalInstruction,
        exception_of_code(3) == ExceptionCause::Breakpoint,
        exception_of_code(5) == ExceptionCause::LoadFault,
        exception_of_code(6) == ExceptionCause::StoreMisaligned,
        exception_of_code(7) == ExceptionCause::StoreFault,
        exception_of_code(8) == ExceptionCause::UserEnvCall,
        exception_of_code(12) == ExceptionCause::InstructionPageFault,
        exception_of_code(13) == ExceptionCause::LoadPageFault,
        exception_of_code(15) == ExceptionCause::StorePageFault,
        !(n == 0 || n == 1 || n == 2 || n == 3 || n == 5 || n == 6 || n == 7 || n == 8 || n == 12 || n == 13
            || n == 15) ==> exception_of_code(n) == ExceptionCause::Unknown,
{
}

/// Law: the interrupt code table: codes 0, 1, 4, 5, 8 and 9 name their
/// interrupts, and every other code is unknown.
pub proof fn law_interrupt_code_table(n: nat)
    ensures
        interrupt_of_code(0) == InterruptCause::UserSoft,
        interrupt_of_code(1) == InterruptCause::SupervisorSoft,
        interrupt_of_code(4) == InterruptCause::UserTimer,
        interrupt_of_code(5) == InterruptCause::SupervisorTimer,
        interrupt_of_code(8) == InterruptCause::UserExternal,
        interrupt_of_code(9) == InterruptCause::SupervisorExternal,
        !(n == 0 || n == 1 || n == 4 || n == 5 || n == 8 || n == 9) ==> interrupt_of_code(n) == InterruptCause::Unknown,
{
}

/// Law: decoding `scause`: with the top bit clear the value is an exception
/// whose code is the whole value, looked up in the exception table; with it
/// set, an interrupt whose code is the value without that bit. So, for
/// instance, 5 is a load access fault and 13 a load page fault, and the two
/// never decode alike.
pub proof fn law_decode_scause(bits: usize)
    ensures
        bits < interrupt_bit() ==> cause_of(bits) == TrapCause::Exception(exception_of_code(bits as nat)),
        bits >= interrupt_bit() ==> cause_of(bits) == TrapCause::Interrupt(interrupt_of_code((bits - interrupt_bit()) as nat)),
        cause_of(5) == TrapCause::Exception(ExceptionCause::LoadFault),
        cause_of(13) == TrapCause::Exception(ExceptionCause::LoadPageFault),
        cause_of(7) == TrapCause::Exception(ExceptionCause::StoreFault),
        cause_of(8) == TrapCause::Exception(ExceptionCause::UserEnvCall),
        interrupt_bit() >= 0x8000_0000,
{
}

/// The user context saved when a trap enters the kernel.
pub struct TrapContext {
    /// General registers x0..x31.
    pub x: [usize; 32],
    /// The saved `sstatus` bits.
    pub sstatus: usize,
    /// The saved program counter.
    pub sepc: usize,
}

impl TrapContext {
    /// The context that starts an application: all registers zero but the
    /// stack pointer `x2`, which is `sp`; `sstatus` is the status to enter the
    /// application with (previous privilege: user); `sepc` is the entry point.
    pub fn app_init_context(entry: usize, sp: usize, sstatus: usize) -> (cx: TrapContext)
        ensures
            cx.x@ == Seq::new(32, |i: int| 0usize).update(2, sp),
            cx.sstatus == sstatus,
            cx.sepc == entry,
    {
        let mut x = [0usize; 32];
        x[2] = sp;
        proof {
            assert(x@ =~= Seq::new(32, |i: int| 0usize).update(2, sp));
        }
        TrapContext { x, sstatus, sepc: entry }
    }
}

/// Puts the result of a system call where the user reads it, in `a0` (`x10`).
pub fn complete_syscall(cx: &mut TrapContext, ret: isize)
    ensures
        final(cx).x@ == old(cx).x@.update(10, ret as usize),
        final(cx).sepc == old(cx).sepc,
        final(cx).sstatus == old(cx).sstatus,
{
    cx.x[10] = ret as usize;
}

/// How `stvec` dispatches traps.
#[derive(Clone, Copy, Debug, PartialEq, Eq, Structural)]
pub enum TrapVectorMode {
    /// Every trap goes to the base address.
    Direct,
    /// Interrupts go to the base address plus four times their code.
    Vectored,
}

/// The value of `stvec`.
#[derive(Clone, Copy, Debug, PartialEq, Eq, Structural)]
pub struct TrapVector {
    /// Base address of the trap entry.
    pub address: usize,
    /// Dispatch mode.
    pub mode: TrapVectorMode,
}

/// The trap-related CSRs that the kernel sets.
#[derive(Clone, Copy, Debug, PartialEq, Eq, Structural)]
pub struct TrapCsrs {
    /// The trap vector, `stvec`.
    pub stvec: TrapVector,
    /// Supervisor interrupts enabled: `sstatus.SIE`.
    pub sstatus_sie: bool,
    /// Supervisor timer interrupts enabled: `sie.STIE`.
    pub sie_stimer: bool,
}

} // verus!
