//! Process system calls of the batch kernel: leaving an application and asking
//! which application runs.

use vstd::prelude::*;
use crate::console::{Console, dec, signed_dec};
use crate::batch::{
    BatchKernel, BatchView, LoadPlan, after_run_next, MAX_APP_NUM, batch_valid, seq_sum, load_plan,
    load_text, syscall_stats_text, get_current_app_id, record_app_end_time, get_app_exec_time,
    print_syscall_stats, run_next_app, get_current_task_info, lemma_table_name_has_no_nul,
};

verus! {

/// The kernel's report when an application exits with `exit_code` after `cycles` cycles.
pub open spec fn exit_text(exit_code: i32, cycles: nat) -> Seq<char> {
    "[kernel] Application exited with code "@ + signed_dec(exit_code as int) + "\n"@
        + "[kernel] Execution time: "@ + dec(cycles / 10) + " us ("@ + dec(cycles) + " cycles)\n"@
}

/// The running application exits with `exit_code` at time `now`: stores its
/// execution time, reports it (converted at ten cycles per microsecond) with
/// the application's system call counts, then loads the next application.
/// The returned plan says what to load, or that every application has run.
pub fn sys_exit(kernel: &mut BatchKernel, exit_code: i32, now: usize, console: &mut Console) -> (plan: LoadPlan)
    requires
        batch_valid(old(kernel)@),
        old(kernel)@.apps.current_app >= 1,
        old(kernel)@.apps.current_app - 1 < MAX_APP_NUM,
        now >= old(kernel)@.app_start_time,
        seq_sum(old(kernel)@.syscall_counts(old(kernel)@.apps.current_app - 1)) <= usize::MAX,
    ensures
        ({
            let v = old(kernel)@;
            let app = (v.apps.current_app - 1) as nat;
            let cycles = (now - v.app_start_time) as nat;
            let ended = BatchView {
                app_exec_time: v.app_exec_time.update(app as int, cycles as usize),
                ..v
            };
            &&& plan == load_plan(v.apps, v.apps.current_app)
            &&& final(console)@ == old(console)@ + exit_text(exit_code, cycles)
                + syscall_stats_text(v, app) + load_text(v.apps, v.apps.current_app)
            &&& final(kernel)@ == after_run_next(ended, now)
        }),
        batch_valid(final(kernel)@),
{
    let ghost start = console@;
    let app_id = get_current_app_id(kernel);
    record_app_end_time(kernel, app_id, now);
    let exec_cycles = get_app_exec_time(kernel, app_id);
    let exec_time_us = exec_cycles / 10;
    console.write_str("[kernel] Application exited with code ");
    console.put_signed(exit_code);
    console.write_str("\n");
    console.write_str("[kernel] Execution time: ");
    console.put_dec(exec_time_us);
    console.write_str(" us (");
    console.put_dec(exec_cycles);
    console.write_str(" cycles)\n");
    proof {
        assert(console@ =~= start + exit_text(exit_code, exec_cycles as nat));
    }
    print_syscall_stats(kernel, app_id, console);
    let plan = run_next_app(kernel, now, console);
    proof {
        assert(console@ =~= start + exit_text(exit_code, exec_cycles as nat)
            + syscall_stats_text(old(kernel)@, app_id as nat) + load_text(old(kernel)@.apps, old(kernel)@.apps.current_app));
    }
    plan
}

/// Copies the name of the running application into the user buffer.
///
/// `buf` is the buffer's address and `user_buf` the bytes found there; the
/// buffer holds `max_len` bytes. A null address or a zero length answers -1
/// and writes nothing. Otherwise the name, cut to `max_len - 1` bytes, is
/// written followed by a 0 byte, and the answer is the application's number.
pub fn sys_get_taskinfo(
    kernel: &BatchKernel,
    buf: usize,
    user_buf: &mut Vec<u8>,
    max_len: usize,
) -> (r: isize)
    requires
        buf != 0 && max_len != 0 ==> old(user_buf)@.len() >= max_len && kernel@.apps.current_app >= 1,
    ensures
        buf == 0 || max_len == 0 ==> r == -1 && final(user_buf)@ == old(user_buf)@,
        buf != 0 && max_len != 0 ==> ({
            let app = (kernel@.apps.current_app - 1) as nat;
            let name = kernel@.name_of(app);
            let n = if name.len() < max_len - 1 { name.len() as int } else { max_len - 1 };
            &&& r == app as isize
            &&& final(user_buf)@ == name.take(n) + seq![0u8] + old(user_buf)@.skip(n + 1)
        }),
{
    if buf == 0 || max_len == 0 {
        return -1;
    }
    let (task_id, task_name) = get_current_task_info(kernel);
    let copy_len = if task_name.len() < max_len - 1 { task_name.len() } else { max_len - 1 };
    let ghost old_buf = user_buf@;
    let mut i: usize = 0;
    while i < copy_len
        invariant
            i <= copy_len,
            copy_len <= task_name@.len(),
            copy_len < max_len,
            max_len <= old_buf.len(),
            user_buf@.len() == old_buf.len(),
            forall|j: int| 0 <= j < i ==> #[trigger] user_buf@[j] == task_name@[j],
            forall|j: int| i <= j < old_buf.len() ==> #[trigger] user_buf@[j] == old_buf[j],
        decreases copy_len - i,
    {
        user_buf.set(i, task_name[i]);
        i = i + 1;
    }
    user_buf.set(copy_len, 0);
    proof {
        assert(user_buf@ =~= task_name@.take(copy_len as int) + seq![0u8] + old_buf.skip(copy_len + 1));
    }
    task_id as isize
}

/// Law: what a user program reads back. After a successful `sys_get_taskinfo`,
/// the string that ends at the first 0 byte of the buffer is the running
/// application's name, cut to `max_len - 1` bytes.
pub proof fn law_taskinfo_readback(kernel: BatchView, old_buf: Seq<u8>, new_buf: Seq<u8>, max_len: nat)
    requires
        kernel.apps.current_app >= 1,
        0 < max_len <= old_buf.len(),
        ({
            let name = kernel.name_of((kernel.apps.current_app - 1) as nat);
            let n = if name.len() < max_len - 1 { name.len() as int } else { max_len - 1 };
            new_buf == name.take(n) + seq![0u8] + old_buf.skip(n + 1)
        }),
    ensures
        ({
            let name = kernel.name_of((kernel.apps.current_app - 1) as nat);
            let n = if name.len() < max_len - 1 { name.len() as int } else { max_len - 1 };
            &&& n < new_buf.len()
            &&& new_buf[n] == 0
            &&& forall|j: int| 0 <= j < n ==> #[trigger] new_buf[j] != 0
            &&& new_buf.take(n) == name.take(n)
        }),
{
    let app = (kernel.apps.current_app - 1) as nat;
    let name = kernel.name_of(app);
    let n = if name.len() < max_len - 1 { name.len() as int } else { max_len - 1 };
    lemma_table_name_has_no_nul(kernel.app_names, app);
    assert forall|j: int| 0 <= j < n implies #[trigger] new_buf[j] != 0 by {
        assert(new_buf[j] == name[j]);
    }
    assert(new_buf[n] == 0);
    assert(new_buf.take(n) =~= name.take(n));
}

/// Length of the NUL-terminated string at the start of `buf`: the index of the
/// first 0 byte, or the whole buffer when there is none.
pub fn c_str_len(buf: &Vec<u8>) -> (n: usize)
    ensures
        n <= buf@.len(),
        forall|j: int| 0 <= j < n ==> #[trigger] buf@[j] != 0,
        n < buf@.len() ==> buf@[n as int] == 0,
{
    let mut i: usize = 0;
    while i < buf.len() && buf[i] != 0
        invariant
            i <= buf@.len(),
            forall|j: int| 0 <= j < i ==> #[trigger] buf@[j] != 0,
        decreases buf.len() - i,
    {
        i = i + 1;
    }
    i
}

} // verus!
