//! The batch subsystem: the application table, the application that runs,
//! and the per-application statistics that the kernel keeps (system calls,
//! execution time, exceptions).

use vstd::prelude::*;
use vstd::utf8::{valid_utf8, decode_utf8};
use crate::console::{Console, dec, hex, hex_line, dec_line, text_line, lemma_cat};

verus! {

/// Most applications the batch table can hold.
pub const MAX_APP_NUM: usize = 16;
/// System call numbers below this one are counted per application.
pub const MAX_SYSCALL_ID: usize = 256;
/// Most exceptions recorded per application.
pub const MAX_EXCEPTIONS_PER_APP: usize = 16;
/// Size of the user stack.
pub const USER_STACK_SIZE: usize = 8192;
/// Size of the kernel stack.
pub const KERNEL_STACK_SIZE: usize = 8192;
/// Where an application image is loaded.
pub const APP_BASE_ADDRESS: usize = 0x80400000;
/// Largest application image.
pub const APP_SIZE_LIMIT: usize = 0x20000;

/// Kinds of exception that the kernel tells apart.
#[derive(Clone, Copy, Debug, PartialEq, Eq, Structural)]
pub enum ExceptionType {
    /// Instruction address misaligned.
    InstructionAddressMisaligned,
    /// Instruction access fault.
    InstructionAccessFault,
    /// Illegal instruction.
    IllegalInstruction,
    /// Load address misaligned.
    LoadAddressMisaligned,
    /// Load access fault.
    LoadAccessFault,
    /// Store address misaligned.
    StoreAddressMisaligned,
    /// Store fault.
    StoreFault,
    /// Store page fault.
    StorePageFault,
    /// Any other exception.
    Unknown,
}

impl ExceptionType {
    /// The name of the kind, as the kernel prints it.
    pub open spec fn spec_name(self) -> Seq<char> {
        match self {
            ExceptionType::InstructionAddressMisaligned => "InstructionAddressMisaligned"@,
            ExceptionType::InstructionAccessFault => "InstructionAccessFault"@,
            ExceptionType::IllegalInstruction => "IllegalInstruction"@,
            ExceptionType::LoadAddressMisaligned => "LoadAddressMisaligned"@,
            ExceptionType::LoadAccessFault => "LoadAccessFault"@,
            ExceptionType::StoreAddressMisaligned => "StoreAddressMisaligned"@,
            ExceptionType::StoreFault => "StoreFault"@,
            ExceptionType::StorePageFault => "StorePageFault"@,
            ExceptionType::Unknown => "Unknown"@,
        }
    }

    /// The name of the exception kind.
    pub fn name(&self) -> (r: &'static str)
        ensures
            r@ == self.spec_name(),
    {
        match self {
            ExceptionType::InstructionAddressMisaligned => "InstructionAddressMisaligned",
            ExceptionType::InstructionAccessFault => "InstructionAccessFault",
            ExceptionType::IllegalInstruction => "IllegalInstruction",
            ExceptionType::LoadAddressMisaligned => "LoadAddressMisaligned",
            ExceptionType::LoadAccessFault => "LoadAccessFault",
            ExceptionType::StoreAddressMisaligned => "StoreAddressMisaligned",
            ExceptionType::StoreFault => "StoreFault",
            ExceptionType::StorePageFault => "StorePageFault",
            ExceptionType::Unknown => "Unknown",
        }
    }
}

/// One recorded exception.
#[derive(Clone, Copy, Debug)]
pub struct ExceptionRecord {
    /// Kind of the exception.
    pub exception_type: ExceptionType,
    /// Address of the faulting instruction.
    pub sepc: usize,
    /// The memory address involved.
    pub stval: usize,
}

// ---------------------------------------------------------------------------
// The application name table: names one after the other, each ended by a 0 byte.

/// Index of the first 0 byte of `t` at or after `s`, or the table's length if none.
pub open spec fn name_end(t: Seq<u8>, s: int) -> int
    decreases t.len() - s,
{
    if s >= t.len() {
        t.len() as int
    } else if s < 0 {
        name_end(t, 0)
    } else if t[s] == 0 {
        s
    } else {
        name_end(t, s + 1)
    }
}

/// Where the name of application `k` begins in the table.
pub open spec fn name_start(t: Seq<u8>, k: nat) -> int
    decreases k,
{
    if k == 0 {
        0
    } else {
        name_end(t, name_start(t, (k - 1) as nat)) + 1
    }
}

/// The name of application `k` in the table `t` (empty where the table has no such entry).
pub open spec fn table_name(t: Seq<u8>, k: nat) -> Seq<u8> {
    let s = name_start(t, k);
    if s >= t.len() {
        Seq::empty()
    } else {
        t.subrange(s, name_end(t, s))
    }
}

/// The table that lists `names` in order, each followed by a 0 byte.
pub open spec fn name_table(names: Seq<Seq<u8>>) -> Seq<u8>
    decreases names.len(),
{
    if names.len() == 0 {
        Seq::empty()
    } else {
        names[0] + seq![0u8] + name_table(names.drop_first())
    }
}

proof fn lemma_name_end_bounds(t: Seq<u8>, s: int)
    requires
        0 <= s,
    ensures
        s <= name_end(t, s) || s > t.len(),
        name_end(t, s) <= t.len(),
        name_end(t, s) < t.len() ==> t[name_end(t, s)] == 0,
        forall|i: int| s <= i < name_end(t, s) ==> t[i] != 0,
    decreases t.len() - s,
{
    if s < t.len() && t[s] != 0 {
        lemma_name_end_bounds(t, s + 1);
    }
}

proof fn lemma_name_start_nonneg(t: Seq<u8>, k: nat)
    ensures
        name_start(t, k) >= 0,
    decreases k,
{
    if k > 0 {
        lemma_name_start_nonneg(t, (k - 1) as nat);
        lemma_name_end_bounds(t, name_start(t, (k - 1) as nat));
    }
}

proof fn lemma_name_end_shift(a: Seq<u8>, b: Seq<u8>, s: int)
    requires
        0 <= s,
    ensures
        name_end(a + b, a.len() + s) == a.len() + name_end(b, s),
    decreases b.len() - s,
{
    if s < b.len() && b[s] != 0 {
        assert((a + b)[a.len() + s] == b[s]);
        lemma_name_end_shift(a, b, s + 1);
    } else if s < b.len() {
        assert((a + b)[a.len() + s] == b[s]);
    }
}

proof fn lemma_name_end_first(n0: Seq<u8>, rest: Seq<u8>, i: int)
    requires
        0 <= i <= n0.len(),
        forall|j: int| 0 <= j < n0.len() ==> n0[j] != 0,
    ensures
        name_end(n0 + seq![0u8] + rest, i) == n0.len(),
    decreases n0.len() - i,
{
    let t = n0 + seq![0u8] + rest;
    if i < n0.len() {
        assert(t[i] == n0[i]);
        lemma_name_end_first(n0, rest, i + 1);
    } else {
        assert(t[i] == 0u8);
    }
}

proof fn lemma_name_start_shift(n0: Seq<u8>, rest: Seq<u8>, k: nat)
    requires
        k >= 1,
        forall|j: int| 0 <= j < n0.len() ==> n0[j] != 0,
    ensures
        name_start(n0 + seq![0u8] + rest, k) == n0.len() + 1 + name_start(rest, (k - 1) as nat),
    decreases k,
{
    let t = n0 + seq![0u8] + rest;
    let p = n0 + seq![0u8];
    assert(t =~= p + rest);
    assert(p.len() == n0.len() + 1);
    if k == 1 {
        lemma_name_end_first(n0, rest, 0);
        assert(name_start(t, 1) == name_end(t, name_start(t, 0)) + 1);
        assert(name_start(rest, 0) == 0);
    } else {
        lemma_name_start_shift(n0, rest, (k - 1) as nat);
        lemma_name_start_nonneg(rest, (k - 2) as nat);
        let ns = name_start(rest, (k - 2) as nat);
        lemma_name_end_shift(p, rest, ns);
        assert(name_start(t, (k - 1) as nat) == p.len() + ns);
        assert(name_start(t, k) == name_end(t, name_start(t, (k - 1) as nat)) + 1);
        assert(name_start(rest, (k - 1) as nat) == name_end(rest, ns) + 1);
    }
}

/// Law: reading back a name table. When the table lists `names` in order, each
/// followed by a 0 byte (the layout that the build writes), and no name holds a
/// 0 byte, the name found for application `k` is the `k`-th name.
pub proof fn law_app_name_table(names: Seq<Seq<u8>>, k: nat)
    requires
        k < names.len(),
        forall|i: int, j: int| 0 <= i < names.len() && 0 <= j < names[i].len() ==> names[i][j] != 0,
    ensures
        table_name(name_table(names), k) == names[k as int],
    decreases names.len(),
{
    let n0 = names[0];
    let rest = names.drop_first();
    let t = name_table(names);
    assert(t == n0 + seq![0u8] + name_table(rest));
    assert forall|j: int| 0 <= j < n0.len() implies n0[j] != 0 by {
        assert(names[0][j] != 0);
    }
    if k == 0 {
        lemma_name_end_first(n0, name_table(rest), 0);
        assert(t.subrange(0, n0.len() as int) =~= n0);
    } else {
        assert forall|i: int, j: int| 0 <= i < rest.len() && 0 <= j < rest[i].len() implies rest[i][j] != 0 by {
            assert(rest[i] == names[i + 1]);
        }
        law_app_name_table(rest, (k - 1) as nat);
        lemma_name_start_shift(n0, name_table(rest), k);
        let rt = name_table(rest);
        let sp = name_start(rt, (k - 1) as nat);
        lemma_name_start_nonneg(rt, (k - 1) as nat);
        let p = n0 + seq![0u8];
        assert(t =~= p + rt);
        if sp < rt.len() {
            lemma_name_end_shift(p, rt, sp);
            lemma_name_end_bounds(rt, sp);
            assert(t.subrange(p.len() + sp, p.len() + name_end(rt, sp)) =~= rt.subrange(sp, name_end(rt, sp)));
        }
        assert(rest[(k - 1) as int] == names[k as int]);
    }
}

/// No name found in a table holds a 0 byte.
pub proof fn lemma_table_name_has_no_nul(t: Seq<u8>, k: nat)
    ensures
        forall|j: int| 0 <= j < table_name(t, k).len() ==> #[trigger] table_name(t, k)[j] != 0,
{
    lemma_name_start_nonneg(t, k);
    let s = name_start(t, k);
    if s < t.len() {
        lemma_name_end_bounds(t, s);
        assert forall|j: int| 0 <= j < table_name(t, k).len() implies #[trigger] table_name(t, k)[j] != 0 by {
            assert(table_name(t, k)[j] == t[s + j]);
        }
    }
}

/// Index of the first 0 byte at or after `s`, or the table's length.
fn find_name_end(t: &Vec<u8>, s: usize) -> (e: usize)
    ensures
        e == name_end(t@, s as int),
{
    let mut e = s;
    if e >= t.len() {
        return t.len();
    }
    while e < t.len() && t[e] != 0
        invariant
            s <= e,
            e <= t.len() || e == s,
            name_end(t@, s as int) == name_end(t@, e as int),
        decreases t.len() - e,
    {
        e = e + 1;
    }
    if e > t.len() {
        e = t.len();
    }
    e
}

/// The name of application `app_id` in the name table `table`.
pub fn get_app_name(table: &Vec<u8>, app_id: usize) -> (name: Vec<u8>)
    ensures
        name@ == table_name(table@, app_id as nat),
{
    let mut start: usize = 0;
    let mut k: usize = 0;
    while k < app_id
        invariant
            k <= app_id,
            start <= table.len(),
            start < table.len() ==> start == name_start(table@, k as nat),
            start == table.len() ==> name_start(table@, k as nat) >= table.len(),
        decreases app_id - k,
    {
        proof {
            lemma_name_start_nonneg(table@, k as nat);
        }
        if start < table.len() {
            let e = find_name_end(table, start);
            proof {
                lemma_name_end_bounds(table@, start as int);
            }
            start = if e < table.len() { e + 1 } else { table.len() };
        } else {
            proof {
                assert(name_end(table@, name_start(table@, k as nat)) == table.len());
            }
        }
        k = k + 1;
    }
    let mut name: Vec<u8> = Vec::new();
    if start >= table.len() {
        return name;
    }
    let end = find_name_end(table, start);
    proof {
        lemma_name_end_bounds(table@, start as int);
    }
    let mut i = start;
    while i < end
        invariant
            start <= i <= end,
            end <= table.len(),
            name@ == table@.subrange(start as int, i as int),
        decreases end - i,
    {
        name.push(table[i]);
        proof {
            assert(table@.subrange(start as int, i as int).push(table@[i as int])
                =~= table@.subrange(start as int, i + 1));
        }
        i = i + 1;
    }
    name
}

/// Sends a name, decoded from UTF-8.
pub fn write_name(console: &mut Console, name: &Vec<u8>)
    requires
        valid_utf8(name@),
    ensures
        final(console)@ == old(console)@ + decode_utf8(name@),
{
    console.write_utf8(name.as_slice());
}

// ---------------------------------------------------------------------------
// The application manager.

/// What the application manager holds, as plain values.
pub struct AppManagerView {
    /// Number of applications in the table.
    pub num_app: nat,
    /// The application that the next load takes.
    pub current_app: nat,
    /// Start addresses: entry `i` is where application `i` begins, entry `i + 1` where it ends.
    pub app_start: Seq<usize>,
}

/// The table of applications and the position of the batch in it.
pub struct AppManager {
    num_app: usize,
    current_app: usize,
    app_start: Vec<usize>,
}

/// Whether the first `num_app` applications occupy ascending address ranges.
pub open spec fn starts_ascend(app_start: Seq<usize>, num_app: nat) -> bool {
    forall|i: int| 0 <= i < num_app ==> #[trigger] app_start[i] <= app_start[i + 1]
}

/// What `load_app` decides.
#[derive(Clone, Copy, Debug, PartialEq, Eq, Structural)]
pub enum LoadPlan {
    /// Every application has run: the machine shuts down.
    AllCompleted,
    /// Copy `len` bytes from `src` to `APP_BASE_ADDRESS`, after clearing the
    /// application area, and run them.
    Load { src: usize, len: usize },
}

impl View for AppManager {
    type V = AppManagerView;

    closed spec fn view(&self) -> AppManagerView {
        AppManagerView {
            num_app: self.num_app as nat,
            current_app: self.current_app as nat,
            app_start: self.app_start@,
        }
    }
}

/// The text that `print_app_info` writes for applications `0..k`.
pub open spec fn app_lines(app_start: Seq<usize>, k: nat) -> Seq<char>
    decreases k,
{
    if k == 0 {
        Seq::empty()
    } else {
        app_lines(app_start, (k - 1) as nat) + "[kernel] app_"@ + dec((k - 1) as nat) + " ["@
            + hex(app_start[k - 1] as nat) + ", "@ + hex(app_start[k as int] as nat) + ")\n"@
    }
}

/// The text that `print_app_info` writes.
pub open spec fn app_info_text(m: AppManagerView) -> Seq<char> {
    "[kernel] num_app = "@ + dec(m.num_app) + "\n"@ + app_lines(m.app_start, m.num_app)
}

/// The plan that `load_app` returns for `app_id`.
pub open spec fn load_plan(m: AppManagerView, app_id: nat) -> LoadPlan {
    if app_id >= m.num_app {
        LoadPlan::AllCompleted
    } else {
        LoadPlan::Load {
            src: m.app_start[app_id as int],
            len: (m.app_start[app_id as int + 1] - m.app_start[app_id as int]) as usize,
        }
    }
}

/// The text that `load_app` writes for `app_id`.
pub open spec fn load_text(m: AppManagerView, app_id: nat) -> Seq<char> {
    if app_id >= m.num_app {
        "All applications completed!\n"@
    } else {
        "[kernel] Loading app_"@ + dec(app_id) + "\n"@
    }
}

impl AppManager {
    #[verifier::type_invariant]
    spec fn inv(self) -> bool {
        &&& self.app_start.len() == MAX_APP_NUM + 1
        &&& self.num_app <= MAX_APP_NUM
        &&& starts_ascend(self.app_start@, self.num_app as nat)
    }

    /// Builds the manager from the application table that the linker lays out:
    /// the number of applications `n`, then `n + 1` start addresses.
    pub fn from_app_table(raw: &[usize]) -> (m: AppManager)
        requires
            raw@.len() >= 1,
            raw@[0] <= MAX_APP_NUM,
            raw@.len() >= raw@[0] + 2,
            forall|i: int| 1 <= i <= raw@[0] ==> #[trigger] raw@[i] <= raw@[i + 1],
        ensures
            m@.num_app == raw@[0],
            m@.current_app == 0,
            m@.app_start.len() == MAX_APP_NUM + 1,
            forall|i: int| 0 <= i <= raw@[0] ==> #[trigger] m@.app_start[i] == raw@[i + 1],
            forall|i: int| raw@[0] < i <= MAX_APP_NUM ==> #[trigger] m@.app_start[i] == 0,
    {
        let num_app = raw[0];
        let mut app_start: Vec<usize> = Vec::new();
        let mut i: usize = 0;
        while i < MAX_APP_NUM + 1
            invariant
                i <= MAX_APP_NUM + 1,
                num_app == raw@[0],
                raw@.len() >= num_app + 2,
                app_start@.len() == i,
                forall|j: int| 0 <= j < i && j <= num_app ==> #[trigger] app_start@[j] == raw@[j + 1],
                forall|j: int| 0 <= j < i && j > num_app ==> #[trigger] app_start@[j] == 0,
            decreases MAX_APP_NUM + 1 - i,
        {
            if i <= num_app {
                app_start.push(raw[i + 1]);
            } else {
                app_start.push(0);
            }
            i = i + 1;
        }
        proof {
            assert forall|j: int| 0 <= j < num_app implies #[trigger] app_start@[j] <= app_start@[j + 1] by {
                assert(raw@[j + 1] <= raw@[j + 2]);
            }
        }
        AppManager { num_app, current_app: 0, app_start }
    }

    /// Prints the number of applications and the address range of each.
    pub fn print_app_info(&self, console: &mut Console)
        ensures
            final(console)@ == old(console)@ + app_info_text(self@),
    {
        proof {
            use_type_invariant(self);
        }
        let ghost start = console@;
        console.write_str("[kernel] num_app = ");
        console.put_dec(self.num_app);
        console.write_str("\n");
        let ghost head = console@;
        proof {
            assert(head == start + ("[kernel] num_app = "@ + dec(self.num_app as nat) + "\n"@));
        }
        let mut i: usize = 0;
        while i < self.num_app
            invariant
                i <= self.num_app,
                self.num_app <= MAX_APP_NUM,
                self.app_start@.len() == MAX_APP_NUM + 1,
                console@ == head + app_lines(self.app_start@, i as nat),
            decreases self.num_app - i,
        {
            console.write_str("[kernel] app_");
            console.put_dec(i);
            console.write_str(" [");
            console.put_hex(self.app_start[i]);
            console.write_str(", ");
            console.put_hex(self.app_start[i + 1]);
            console.write_str(")\n");
            proof {
                assert(app_lines(self.app_start@, (i + 1) as nat) == app_lines(self.app_start@, i as nat)
                    + "[kernel] app_"@ + dec(i as nat) + " ["@ + hex(self.app_start@[i as int] as nat)
                    + ", "@ + hex(self.app_start@[i + 1] as nat) + ")\n"@);
                assert(console@ =~= head + app_lines(self.app_start@, (i + 1) as nat));
            }
            i = i + 1;
        }
        proof {
            assert(console@ =~= start + app_info_text(self@));
        }
    }

    /// Decides what loading application `app_id` takes, and prints it.
    pub fn load_app(&self, app_id: usize, console: &mut Console) -> (plan: LoadPlan)
        ensures
            plan == load_plan(self@, app_id as nat),
            final(console)@ == old(console)@ + load_text(self@, app_id as nat),
    {
        proof {
            use_type_invariant(self);
        }
        if app_id >= self.num_app {
            console.write_str("All applications completed!\n");
            return LoadPlan::AllCompleted;
        }
        let ghost start = console@;
        console.write_str("[kernel] Loading app_");
        console.put_dec(app_id);
        console.write_str("\n");
        proof {
            assert(console@ =~= start + load_text(self@, app_id as nat));
            assert(self.app_start@[app_id as int] <= self.app_start@[app_id + 1]);
        }
        LoadPlan::Load {
            src: self.app_start[app_id],
            len: self.app_start[app_id + 1] - self.app_start[app_id],
        }
    }

    /// The application that the next load takes.
    pub fn get_current_app(&self) -> (r: usize)
        ensures
            r == self@.current_app,
    {
        self.current_app
    }

    /// The application that is running: the one before the next to load.
    pub fn get_running_app(&self) -> (r: usize)
        requires
            self@.current_app >= 1,
        ensures
            r == self@.current_app - 1,
    {
        self.current_app - 1
    }

    /// Moves the batch on to the next application.
    pub fn move_to_next_app(&mut self)
        requires
            old(self)@.current_app < usize::MAX,
        ensures
            final(self)@ == (AppManagerView { current_app: old(self)@.current_app + 1, ..old(self)@ }),
        no_unwind
    {
        proof {
            use_type_invariant(&*self);
        }
        self.current_app = self.current_app + 1;
    }
}

/// Law: once the batch has moved on, the running application is the one that
/// was next to load before the move.
pub proof fn law_running_app_after_move(before: AppManagerView, after: AppManagerView)
    requires
        after == (AppManagerView { current_app: before.current_app + 1, ..before }),
    ensures
        after.current_app >= 1,
        after.current_app - 1 == before.current_app,
        after.num_app == before.num_app,
        after.app_start == before.app_start,
{
}

// ---------------------------------------------------------------------------
// The kernel's batch state.

/// What the batch kernel holds, as plain values.
pub struct BatchView {
    /// The application manager.
    pub apps: AppManagerView,
    /// The application name table.
    pub app_names: Seq<u8>,
    /// System call counts: entry `app * MAX_SYSCALL_ID + id`.
    pub syscall_stats: Seq<usize>,
    /// Execution time of each application, in cycles.
    pub app_exec_time: Seq<usize>,
    /// When the running application started, in cycles.
    pub app_start_time: usize,
    /// Exception records: entry `app * MAX_EXCEPTIONS_PER_APP + i`.
    pub app_exceptions: Seq<ExceptionRecord>,
    /// Number of exceptions recorded per application.
    pub app_exception_counts: Seq<usize>,
}

impl BatchView {
    /// How often application `app` made system call `id`.
    pub open spec fn syscall_count(self, app: int, id: int) -> usize {
        self.syscall_stats[app * MAX_SYSCALL_ID + id]
    }

    /// The system call counts of application `app`, by call number.
    pub open spec fn syscall_counts(self, app: int) -> Seq<usize> {
        self.syscall_stats.subrange(app * MAX_SYSCALL_ID, app * MAX_SYSCALL_ID + MAX_SYSCALL_ID)
    }

    /// The exceptions recorded for application `app`, oldest first.
    pub open spec fn exceptions_of(self, app: int) -> Seq<ExceptionRecord> {
        self.app_exceptions.subrange(
            app * MAX_EXCEPTIONS_PER_APP,
            app * MAX_EXCEPTIONS_PER_APP + self.app_exception_counts[app],
        )
    }

    /// The name of application `app`.
    pub open spec fn name_of(self, app: nat) -> Seq<u8> {
        table_name(self.app_names, app)
    }
}

/// The sum of a sequence of counts.
pub open spec fn seq_sum(s: Seq<usize>) -> nat
    decreases s.len(),
{
    if s.len() == 0 {
        0
    } else {
        seq_sum(s.drop_last()) + s.last() as nat
    }
}

/// How many of `recs` are of kind `t`.
pub open spec fn type_count(recs: Seq<ExceptionRecord>, t: ExceptionType) -> nat
    decreases recs.len(),
{
    if recs.len() == 0 {
        0
    } else {
        type_count(recs.drop_last(), t) + if recs.last().exception_type == t { 1nat } else { 0nat }
    }
}

/// The kernel state that the batch subsystem keeps: the applications, their
/// names, and the statistics gathered while they run.
pub struct BatchKernel {
    manager: AppManager,
    app_names: Vec<u8>,
    syscall_stats: Vec<usize>,
    app_exec_time: Vec<usize>,
    app_start_time: usize,
    app_exceptions: Vec<ExceptionRecord>,
    app_exception_counts: Vec<usize>,
}

impl View for BatchKernel {
    type V = BatchView;

    closed spec fn view(&self) -> BatchView {
        BatchView {
            apps: self.manager@,
            app_names: self.app_names@,
            syscall_stats: self.syscall_stats@,
            app_exec_time: self.app_exec_time@,
            app_start_time: self.app_start_time,
            app_exceptions: self.app_exceptions@,
            app_exception_counts: self.app_exception_counts@,
        }
    }
}

/// Whether every name in the table is valid UTF-8.
pub open spec fn names_valid_utf8(t: Seq<u8>) -> bool {
    forall|k: nat| #[trigger] valid_utf8(table_name(t, k))
}

/// The shape that every batch state has.
pub open spec fn batch_valid(v: BatchView) -> bool {
    &&& v.apps.num_app <= MAX_APP_NUM
    &&& v.apps.app_start.len() == MAX_APP_NUM + 1
    &&& starts_ascend(v.apps.app_start, v.apps.num_app)
    &&& v.syscall_stats.len() == MAX_APP_NUM * MAX_SYSCALL_ID
    &&& v.app_exec_time.len() == MAX_APP_NUM
    &&& v.app_exceptions.len() == MAX_APP_NUM * MAX_EXCEPTIONS_PER_APP
    &&& v.app_exception_counts.len() == MAX_APP_NUM
    &&& forall|a: int| 0 <= a < MAX_APP_NUM ==> #[trigger] v.app_exception_counts[a] <= MAX_EXCEPTIONS_PER_APP
    &&& names_valid_utf8(v.app_names)
}

impl BatchKernel {
    /// Builds the batch state from the linker's application table (see
    /// `AppManager::from_app_table`) and the name table, with every count and
    /// time at zero.
    pub fn new(app_table: &[usize], app_names: Vec<u8>) -> (k: BatchKernel)
        requires
            app_table@.len() >= 1,
            app_table@[0] <= MAX_APP_NUM,
            app_table@.len() >= app_table@[0] + 2,
            forall|i: int| 1 <= i <= app_table@[0] ==> #[trigger] app_table@[i] <= app_table@[i + 1],
            names_valid_utf8(app_names@),
        ensures
            batch_valid(k@),
            k@.apps.num_app == app_table@[0],
            k@.apps.current_app == 0,
            forall|i: int| 0 <= i <= app_table@[0] ==> #[trigger] k@.apps.app_start[i] == app_table@[i + 1],
            k@.app_names == app_names@,
            k@.syscall_stats == Seq::new((MAX_APP_NUM * MAX_SYSCALL_ID) as nat, |i: int| 0usize),
            k@.app_exec_time == Seq::new(MAX_APP_NUM as nat, |i: int| 0usize),
            k@.app_start_time == 0,
            k@.app_exception_counts == Seq::new(MAX_APP_NUM as nat, |i: int| 0usize),
            k@.app_exceptions == Seq::new(
                (MAX_APP_NUM * MAX_EXCEPTIONS_PER_APP) as nat,
                |i: int| ExceptionRecord { exception_type: ExceptionType::Unknown, sepc: 0, stval: 0 },
            ),
    {
        let manager = AppManager::from_app_table(app_table);
        let mut syscall_stats: Vec<usize> = Vec::new();
        let mut i: usize = 0;
        while i < MAX_APP_NUM * MAX_SYSCALL_ID
            invariant
                i <= MAX_APP_NUM * MAX_SYSCALL_ID,
                syscall_stats@ == Seq::new(i as nat, |j: int| 0usize),
            decreases MAX_APP_NUM * MAX_SYSCALL_ID - i,
        {
            syscall_stats.push(0);
            proof {
                assert(syscall_stats@ =~= Seq::new((i + 1) as nat, |j: int| 0usize));
            }
            i = i + 1;
        }
        let mut app_exec_time: Vec<usize> = Vec::new();
        let mut app_exception_counts: Vec<usize> = Vec::new();
        let mut i: usize = 0;
        while i < MAX_APP_NUM
            invariant
                i <= MAX_APP_NUM,
                app_exec_time@ == Seq::new(i as nat, |j: int| 0usize),
                app_exception_counts@ == Seq::new(i as nat, |j: int| 0usize),
            decreases MAX_APP_NUM - i,
        {
            app_exec_time.push(0);
            app_exception_counts.push(0);
            proof {
                assert(app_exec_time@ =~= Seq::new((i + 1) as nat, |j: int| 0usize));
                assert(app_exception_counts@ =~= Seq::new((i + 1) as nat, |j: int| 0usize));
            }
            i = i + 1;
        }
        let mut app_exceptions: Vec<ExceptionRecord> = Vec::new();
        let mut i: usize = 0;
        while i < MAX_APP_NUM * MAX_EXCEPTIONS_PER_APP
            invariant
                i <= MAX_APP_NUM * MAX_EXCEPTIONS_PER_APP,
                app_exceptions@ == Seq::new(
                    i as nat,
                    |j: int| ExceptionRecord { exception_type: ExceptionType::Unknown, sepc: 0, stval: 0 },
                ),
            decreases MAX_APP_NUM * MAX_EXCEPTIONS_PER_APP - i,
        {
            app_exceptions.push(ExceptionRecord { exception_type: ExceptionType::Unknown, sepc: 0, stval: 0 });
            proof {
                assert(app_exceptions@ =~= Seq::new(
                    (i + 1) as nat,
                    |j: int| ExceptionRecord { exception_type: ExceptionType::Unknown, sepc: 0, stval: 0 },
                ));
            }
            i = i + 1;
        }
        proof {
            use_type_invariant(&manager);
            assert forall|a: int| 0 <= a < MAX_APP_NUM implies #[trigger] app_exception_counts@[a] <= MAX_EXCEPTIONS_PER_APP by {
                assert(app_exception_counts@[a] == 0);
            }
        }
        BatchKernel {
            manager,
            app_names,
            syscall_stats,
            app_exec_time,
            app_start_time: 0,
            app_exceptions,
            app_exception_counts,
        }
    }

    /// How often application `app_id` made system call `syscall_id`.
    pub fn syscall_count(&self, app_id: usize, syscall_id: usize) -> (r: usize)
        requires
            batch_valid(self@),
            app_id < MAX_APP_NUM,
            syscall_id < MAX_SYSCALL_ID,
        ensures
            r == self@.syscall_count(app_id as int, syscall_id as int),
    {
        self.syscall_stats[app_id * MAX_SYSCALL_ID + syscall_id]
    }

}

/// The text that `print_syscall_stats` writes for call numbers below `k`.
pub open spec fn syscall_lines(counts: Seq<usize>, k: nat) -> Seq<char>
    decreases k,
{
    if k == 0 {
        Seq::empty()
    } else {
        syscall_lines(counts, (k - 1) as nat) + if counts[k - 1] > 0 {
            "[kernel]   Syscall "@ + dec((k - 1) as nat) + ": "@ + dec(counts[k - 1] as nat) + " calls\n"@
        } else {
            Seq::empty()
        }
    }
}

/// The text that `print_syscall_stats` writes for application `app`.
pub open spec fn syscall_stats_text(v: BatchView, app: nat) -> Seq<char> {
    "\n[kernel] === Syscall Statistics for "@ + decode_utf8(v.name_of(app)) + " (app_"@ + dec(app)
        + ") ===\n"@ + syscall_lines(v.syscall_counts(app as int), MAX_SYSCALL_ID as nat)
        + "[kernel]   Total: "@ + dec(seq_sum(v.syscall_counts(app as int))) + " syscalls\n\n"@
}

/// The line that names the application `app` in the exception details.
pub open spec fn application_line(v: BatchView, app: nat) -> Seq<char> {
    "[kernel] Application: "@ + decode_utf8(v.name_of(app)) + " (app_"@ + dec(app) + ")\n"@
}

/// The text that `print_exception_details` writes.
pub open spec fn exception_details_text(
    v: BatchView,
    t: ExceptionType,
    sepc: usize,
    stval: usize,
    instruction: u32,
) -> Seq<char> {
    "[kernel] ==================== Exception Details ====================\n"@
        + application_line(v, (v.apps.current_app - 1) as nat)
        + text_line("[kernel] Exception Type: "@, t.spec_name())
        + hex_line("[kernel] Fault Instruction Address (sepc): "@, sepc as nat)
        + hex_line("[kernel] Fault Address (stval): "@, stval as nat)
        + hex_line("[kernel] Instruction: "@, instruction as nat)
        + "[kernel] =========================================================\n"@
}

/// One line of the exception summary: the count of kind `t`, when there is any.
pub open spec fn summary_line(recs: Seq<ExceptionRecord>, t: ExceptionType) -> Seq<char> {
    let c = type_count(recs, t);
    if c > 0 {
        "[kernel]   "@ + t.spec_name() + ": "@ + dec(c) + "\n"@
    } else {
        Seq::empty()
    }
}

/// The text that `print_exception_summary` writes for application `app`.
pub open spec fn exception_summary_text(v: BatchView, app: nat) -> Seq<char> {
    let recs = v.exceptions_of(app as int);
    if recs.len() == 0 {
        Seq::empty()
    } else {
        summary_header(v, app, recs.len()) + summary_lines(recs) + "[kernel] \n"@
    }
}

/// The heading of the exception summary for application `app` with `total` exceptions.
pub open spec fn summary_header(v: BatchView, app: nat, total: nat) -> Seq<char> {
    "\n[kernel] === Exception Summary for "@ + decode_utf8(v.name_of(app)) + " (app_"@ + dec(app)
        + ") ===\n"@ + dec_line("[kernel] Total exceptions: "@, total)
}

/// The per-kind lines of the exception summary, illegal instructions first.
pub open spec fn summary_lines(recs: Seq<ExceptionRecord>) -> Seq<char> {
    summary_line(recs, ExceptionType::IllegalInstruction)
        + summary_line(recs, ExceptionType::InstructionAddressMisaligned)
        + summary_line(recs, ExceptionType::InstructionAccessFault)
        + summary_line(recs, ExceptionType::LoadAddressMisaligned)
        + summary_line(recs, ExceptionType::LoadAccessFault)
        + summary_line(recs, ExceptionType::StoreAddressMisaligned)
        + summary_line(recs, ExceptionType::StoreFault)
        + summary_line(recs, ExceptionType::StorePageFault)
        + summary_line(recs, ExceptionType::Unknown)
}

proof fn lemma_sum_prefix(s: Seq<usize>, i: int)
    requires
        0 <= i < s.len(),
    ensures
        seq_sum(s.take(i + 1)) == seq_sum(s.take(i)) + s[i],
        seq_sum(s.take(i + 1)) <= seq_sum(s) || i + 1 > s.len(),
    decreases s.len() - i,
{
    assert(s.take(i + 1).drop_last() =~= s.take(i));
    if i + 1 < s.len() {
        lemma_sum_prefix(s, i + 1);
    } else {
        assert(s.take(i + 1) =~= s);
    }
}

proof fn lemma_type_count_prefix(recs: Seq<ExceptionRecord>, i: int, t: ExceptionType)
    requires
        0 <= i < recs.len(),
    ensures
        type_count(recs.take(i + 1), t) == type_count(recs.take(i), t)
            + if recs[i].exception_type == t { 1nat } else { 0nat },
{
    assert(recs.take(i + 1).drop_last() =~= recs.take(i));
}

/// Law: the exception summary accounts for every recorded exception: the counts
/// of the nine kinds add up to the number of records.
pub proof fn law_exception_kinds_add_up(recs: Seq<ExceptionRecord>)
    ensures
        type_count(recs, ExceptionType::InstructionAddressMisaligned)
            + type_count(recs, ExceptionType::InstructionAccessFault)
            + type_count(recs, ExceptionType::IllegalInstruction)
            + type_count(recs, ExceptionType::LoadAddressMisaligned)
            + type_count(recs, ExceptionType::LoadAccessFault)
            + type_count(recs, ExceptionType::StoreAddressMisaligned)
            + type_count(recs, ExceptionType::StoreFault)
            + type_count(recs, ExceptionType::StorePageFault)
            + type_count(recs, ExceptionType::Unknown) == recs.len(),
    decreases recs.len(),
{
    if recs.len() > 0 {
        law_exception_kinds_add_up(recs.drop_last());
    }
}

/// The state after `run_next_app` at time `now`: when an application is left
/// to load, the batch moves on and the start time is `now`; otherwise nothing changes.
pub open spec fn after_run_next(v: BatchView, now: usize) -> BatchView {
    if v.apps.current_app < v.apps.num_app {
        BatchView {
            apps: AppManagerView { current_app: v.apps.current_app + 1, ..v.apps },
            app_start_time: now,
            ..v
        }
    } else {
        v
    }
}

/// The state after recording exception `rec` for the running application: it
/// is appended while that application has room, and dropped otherwise.
pub open spec fn after_record_exception(v: BatchView, rec: ExceptionRecord) -> BatchView {
    let app = v.apps.current_app - 1;
    let count = v.app_exception_counts[app];
    if app < MAX_APP_NUM && count < MAX_EXCEPTIONS_PER_APP {
        BatchView {
            app_exceptions: v.app_exceptions.update(app * MAX_EXCEPTIONS_PER_APP + count, rec),
            app_exception_counts: v.app_exception_counts.update(app, (count + 1) as usize),
            ..v
        }
    } else {
        v
    }
}

/// The state after counting system call `id` for the running application:
/// its count goes up by one when both numbers lie within the table.
pub open spec fn after_record_syscall(v: BatchView, id: nat) -> BatchView {
    let app = v.apps.current_app - 1;
    if app < MAX_APP_NUM && id < MAX_SYSCALL_ID {
        BatchView {
            syscall_stats: v.syscall_stats.update(
                app * MAX_SYSCALL_ID + id,
                (v.syscall_count(app, id as int) + 1) as usize,
            ),
            ..v
        }
    } else {
        v
    }
}

proof fn lemma_sum_update_plus_one(s: Seq<usize>, i: int)
    requires
        0 <= i < s.len(),
        s[i] < usize::MAX,
    ensures
        seq_sum(s.update(i, (s[i] + 1) as usize)) == seq_sum(s) + 1,
    decreases s.len(),
{
    let t = s.update(i, (s[i] + 1) as usize);
    if i == s.len() - 1 {
        assert(t.drop_last() =~= s.drop_last());
    } else {
        lemma_sum_update_plus_one(s.drop_last(), i);
        assert(t.drop_last() =~= s.drop_last().update(i, (s[i] + 1) as usize));
    }
}

/// Law: counting a system call adds one to that call's count and to the
/// application's total, and leaves the other applications' counts alone.
pub proof fn law_record_syscall_counts_once(v: BatchView, id: nat)
    requires
        batch_valid(v),
        v.apps.current_app >= 1,
        v.apps.current_app - 1 < MAX_APP_NUM,
        id < MAX_SYSCALL_ID,
        v.syscall_count(v.apps.current_app - 1, id as int) < usize::MAX,
    ensures
        ({
            let app = v.apps.current_app - 1;
            let after = after_record_syscall(v, id);
            &&& after.syscall_count(app, id as int) == v.syscall_count(app, id as int) + 1
            &&& seq_sum(after.syscall_counts(app)) == seq_sum(v.syscall_counts(app)) + 1
            &&& forall|a: int| 0 <= a < MAX_APP_NUM && a != app ==> #[trigger] after.syscall_counts(a) == v.syscall_counts(a)
        }),
{
    let app = v.apps.current_app - 1;
    let after = after_record_syscall(v, id);
    let c = v.syscall_counts(app);
    assert(after.syscall_counts(app) =~= c.update(id as int, (c[id as int] + 1) as usize));
    lemma_sum_update_plus_one(c, id as int);
    assert forall|a: int| 0 <= a < MAX_APP_NUM && a != app implies #[trigger] after.syscall_counts(a) == v.syscall_counts(a) by {
        assert(after.syscall_counts(a) =~= v.syscall_counts(a));
    }
}

/// Law: the batch runs the applications in table order. While one is left,
/// the next load takes application `current_app`, whose image ends where the
/// following one begins, and moves the batch on by one; once all have run, the
/// answer is `AllCompleted` and nothing changes.
pub proof fn law_batch_runs_apps_in_order(v: BatchView, now: usize)
    requires
        batch_valid(v),
    ensures
        ({
            let c = v.apps.current_app;
            &&& c < v.apps.num_app ==> {
                &&& load_plan(v.apps, c) == (LoadPlan::Load {
                    src: v.apps.app_start[c as int],
                    len: (v.apps.app_start[c as int + 1] - v.apps.app_start[c as int]) as usize,
                })
                &&& v.apps.app_start[c as int] + (v.apps.app_start[c as int + 1] - v.apps.app_start[c as int])
                    == v.apps.app_start[c as int + 1]
                &&& after_run_next(v, now).apps.current_app == c + 1
                &&& after_run_next(v, now).app_start_time == now
            }
            &&& c >= v.apps.num_app ==> load_plan(v.apps, c) is AllCompleted && after_run_next(v, now) == v
        }),
{
}

/// Initialises the batch subsystem: prints the application table.
pub fn init(kernel: &BatchKernel, console: &mut Console)
    ensures
        final(console)@ == old(console)@ + app_info_text(kernel@.apps),
{
    print_app_info(kernel, console);
}

/// Prints the application table.
pub fn print_app_info(kernel: &BatchKernel, console: &mut Console)
    ensures
        final(console)@ == old(console)@ + app_info_text(kernel@.apps),
{
    kernel.manager.print_app_info(console);
}

/// Loads the next application: decides what to copy and where, moves the batch
/// on and notes the start time `now`. When every application has run it
/// changes nothing and answers `AllCompleted` (the machine then shuts down).
pub fn run_next_app(kernel: &mut BatchKernel, now: usize, console: &mut Console) -> (plan: LoadPlan)
    requires
        batch_valid(old(kernel)@),
    ensures
        batch_valid(final(kernel)@),
        plan == load_plan(old(kernel)@.apps, old(kernel)@.apps.current_app),
        final(console)@ == old(console)@ + load_text(old(kernel)@.apps, old(kernel)@.apps.current_app),
        final(kernel)@ == after_run_next(old(kernel)@, now),
{
    let current_app = kernel.manager.get_current_app();
    let plan = kernel.manager.load_app(current_app, console);
    match plan {
        LoadPlan::AllCompleted => plan,
        LoadPlan::Load { .. } => {
            kernel.manager.move_to_next_app();
            proof {
                use_type_invariant(&kernel.manager);
                assert(kernel@.app_names == old(kernel)@.app_names);
                assert(kernel@.app_exception_counts == old(kernel)@.app_exception_counts);
            }
            record_app_start_time(kernel, now);
            plan
        },
    }
}

/// The running application: its number and its name.
pub fn get_current_task_info(kernel: &BatchKernel) -> (r: (usize, Vec<u8>))
    requires
        kernel@.apps.current_app >= 1,
    ensures
        r.0 == kernel@.apps.current_app - 1,
        r.1@ == kernel@.name_of(r.0 as nat),
{
    let app_id = kernel.manager.get_running_app();
    let name = get_app_name(&kernel.app_names, app_id);
    (app_id, name)
}

/// Counts one system call `syscall_id` for the running application, when both
/// numbers are within the table.
pub fn record_syscall(kernel: &mut BatchKernel, syscall_id: usize)
    requires
        batch_valid(old(kernel)@),
        old(kernel)@.apps.current_app >= 1,
        old(kernel)@.apps.current_app - 1 < MAX_APP_NUM && syscall_id < MAX_SYSCALL_ID
            ==> old(kernel)@.syscall_count(old(kernel)@.apps.current_app - 1, syscall_id as int) < usize::MAX,
    ensures
        batch_valid(final(kernel)@),
        final(kernel)@ == after_record_syscall(old(kernel)@, syscall_id as nat),
{
    let app_id = kernel.manager.get_running_app();
    if app_id < MAX_APP_NUM && syscall_id < MAX_SYSCALL_ID {
        let idx = app_id * MAX_SYSCALL_ID + syscall_id;
        let c = kernel.syscall_stats[idx];
        kernel.syscall_stats.set(idx, c + 1);
    }
}

/// Prints the system call counts of application `app_id` and their total.
pub fn print_syscall_stats(kernel: &BatchKernel, app_id: usize, console: &mut Console)
    requires
        batch_valid(kernel@),
        app_id < MAX_APP_NUM,
        seq_sum(kernel@.syscall_counts(app_id as int)) <= usize::MAX,
    ensures
        final(console)@ == old(console)@ + syscall_stats_text(kernel@, app_id as nat),
{
    let ghost start = console@;
    let ghost counts = kernel@.syscall_counts(app_id as int);
    let name = get_app_name(&kernel.app_names, app_id);
    console.write_str("\n[kernel] === Syscall Statistics for ");
    write_name(console, &name);
    console.write_str(" (app_");
    console.put_dec(app_id);
    console.write_str(") ===\n");
    let ghost head = console@;
    let base = app_id * MAX_SYSCALL_ID;
    let mut total: usize = 0;
    let mut id: usize = 0;
    while id < MAX_SYSCALL_ID
        invariant
            id <= MAX_SYSCALL_ID,
            base == app_id * MAX_SYSCALL_ID,
            app_id < MAX_APP_NUM,
            kernel.syscall_stats@.len() == MAX_APP_NUM * MAX_SYSCALL_ID,
            counts == kernel@.syscall_counts(app_id as int),
            seq_sum(counts) <= usize::MAX,
            total == seq_sum(counts.take(id as int)),
            console@ == head + syscall_lines(counts, id as nat),
        decreases MAX_SYSCALL_ID - id,
    {
        let count = kernel.syscall_stats[base + id];
        proof {
            assert(count == counts[id as int]);
            lemma_sum_prefix(counts, id as int);
        }
        if count > 0 {
            console.write_str("[kernel]   Syscall ");
            console.put_dec(id);
            console.write_str(": ");
            console.put_dec(count);
            console.write_str(" calls\n");
            total = total + count;
        }
        proof {
            assert(syscall_lines(counts, (id + 1) as nat) == syscall_lines(counts, id as nat) + if counts[id as int] > 0 {
                "[kernel]   Syscall "@ + dec(id as nat) + ": "@ + dec(counts[id as int] as nat) + " calls\n"@
            } else {
                Seq::<char>::empty()
            });
            assert(console@ =~= head + syscall_lines(counts, (id + 1) as nat));
        }
        id = id + 1;
    }
    proof {
        assert(counts.take(MAX_SYSCALL_ID as int) =~= counts);
    }
    console.write_str("[kernel]   Total: ");
    console.put_dec(total);
    console.write_str(" syscalls\n\n");
    proof {
        assert(console@ =~= start + syscall_stats_text(kernel@, app_id as nat));
    }
}

/// The number of the running application.
pub fn get_current_app_id(kernel: &BatchKernel) -> (r: usize)
    requires
        kernel@.apps.current_app >= 1,
    ensures
        r == kernel@.apps.current_app - 1,
{
    kernel.manager.get_running_app()
}

/// Records an exception of the running application, unless its record is full
/// or the application lies beyond the table.
pub fn record_exception(kernel: &mut BatchKernel, exception_type: ExceptionType, sepc: usize, stval: usize)
    requires
        batch_valid(old(kernel)@),
        old(kernel)@.apps.current_app >= 1,
    ensures
        batch_valid(final(kernel)@),
        final(kernel)@ == after_record_exception(old(kernel)@, ExceptionRecord { exception_type, sepc, stval }),
{
    let app_id = get_current_app_id(kernel);
    if app_id < MAX_APP_NUM {
        let count = kernel.app_exception_counts[app_id];
        if count < MAX_EXCEPTIONS_PER_APP {
            kernel.app_exceptions.set(
                app_id * MAX_EXCEPTIONS_PER_APP + count,
                ExceptionRecord { exception_type, sepc, stval },
            );
            kernel.app_exception_counts.set(app_id, count + 1);
            proof {
                assert forall|a: int| 0 <= a < MAX_APP_NUM implies #[trigger] kernel@.app_exception_counts[a]
                    <= MAX_EXCEPTIONS_PER_APP by {
                    if a != app_id {
                        assert(kernel@.app_exception_counts[a] == old(kernel)@.app_exception_counts[a]);
                    }
                }
            }
        }
    }
    proof {
        let v = kernel@;
        assert(v.app_names == old(kernel)@.app_names);
        assert(names_valid_utf8(v.app_names));
    }
}

/// Law: an application stopped by an exception has it on record (while its
/// record has room) and the batch moves on to the next application, if any.
pub proof fn law_fault_stops_application(v: BatchView, rec: ExceptionRecord, now: usize)
    requires
        batch_valid(v),
        v.apps.current_app >= 1,
        v.apps.current_app - 1 < MAX_APP_NUM,
        v.exceptions_of(v.apps.current_app - 1).len() < MAX_EXCEPTIONS_PER_APP,
    ensures
        ({
            let app = v.apps.current_app - 1;
            let after = after_run_next(after_record_exception(v, rec), now);
            &&& after.exceptions_of(app) == v.exceptions_of(app).push(rec)
            &&& v.apps.current_app < v.apps.num_app ==> after.apps.current_app == v.apps.current_app + 1
            &&& v.apps.current_app >= v.apps.num_app ==> after.apps.current_app == v.apps.current_app
        }),
{
    law_record_exception_appends(v, rec);
}

/// Law: the exceptions recorded for an application are the first
/// `MAX_EXCEPTIONS_PER_APP` that it raised, in order: recording one appends it
/// while there is room, and changes nothing once the record is full.
pub proof fn law_record_exception_appends(before: BatchView, rec: ExceptionRecord)
    requires
        batch_valid(before),
        before.apps.current_app >= 1,
        before.apps.current_app - 1 < MAX_APP_NUM,
    ensures
        ({
            let app = before.apps.current_app - 1;
            let after = after_record_exception(before, rec);
            &&& before.exceptions_of(app).len() < MAX_EXCEPTIONS_PER_APP
                ==> after.exceptions_of(app) == before.exceptions_of(app).push(rec)
            &&& before.exceptions_of(app).len() == MAX_EXCEPTIONS_PER_APP
                ==> after.exceptions_of(app) == before.exceptions_of(app)
            &&& forall|a: int| 0 <= a < MAX_APP_NUM && a != app ==> #[trigger] after.exceptions_of(a) == before.exceptions_of(a)
        }),
{
    let app = before.apps.current_app - 1;
    let count = before.app_exception_counts[app];
    let after = after_record_exception(before, rec);
    if count < MAX_EXCEPTIONS_PER_APP {
        assert(after.exceptions_of(app) =~= before.exceptions_of(app).push(rec));
        assert forall|a: int| 0 <= a < MAX_APP_NUM && a != app implies #[trigger] after.exceptions_of(a) == before.exceptions_of(a) by {
            assert(before.app_exception_counts[a] <= MAX_EXCEPTIONS_PER_APP);
            assert(after.exceptions_of(a) =~= before.exceptions_of(a));
        }
    }
}

/// Law: recording an exception never overwrites an exception already on
/// record and never takes a record past `MAX_EXCEPTIONS_PER_APP`: the batch
/// state stays valid and each application's earlier records stay, in order,
/// at the front of its records.
pub proof fn law_records_never_overwritten(before: BatchView, rec: ExceptionRecord)
    requires
        batch_valid(before),
        before.apps.current_app >= 1,
    ensures
        ({
            let after = after_record_exception(before, rec);
            &&& batch_valid(after)
            &&& forall|a: int| 0 <= a < MAX_APP_NUM ==> #[trigger] after.app_exception_counts[a] <= MAX_EXCEPTIONS_PER_APP
            &&& forall|a: int| 0 <= a < MAX_APP_NUM ==> {
                &&& before.exceptions_of(a).len() <= #[trigger] after.exceptions_of(a).len()
                &&& after.exceptions_of(a).take(before.exceptions_of(a).len() as int) == before.exceptions_of(a)
            }
        }),
{
    let app = before.apps.current_app - 1;
    let after = after_record_exception(before, rec);
    if app < MAX_APP_NUM {
        law_record_exception_appends(before, rec);
        let count = before.app_exception_counts[app];
        assert forall|a: int| 0 <= a < MAX_APP_NUM implies #[trigger] after.app_exception_counts[a] <= MAX_EXCEPTIONS_PER_APP by {
            assert(before.app_exception_counts[a] <= MAX_EXCEPTIONS_PER_APP);
        }
        assert forall|a: int| 0 <= a < MAX_APP_NUM implies {
            &&& before.exceptions_of(a).len() <= #[trigger] after.exceptions_of(a).len()
            &&& after.exceptions_of(a).take(before.exceptions_of(a).len() as int) == before.exceptions_of(a)
        } by {
            assert(before.app_exception_counts[a] <= MAX_EXCEPTIONS_PER_APP);
            if a == app && count < MAX_EXCEPTIONS_PER_APP {
                assert(after.exceptions_of(a) == before.exceptions_of(a).push(rec));
                assert(before.exceptions_of(a).push(rec).take(before.exceptions_of(a).len() as int) =~= before.exceptions_of(a));
            } else {
                assert(after.exceptions_of(a) == before.exceptions_of(a));
                assert(before.exceptions_of(a).take(before.exceptions_of(a).len() as int) =~= before.exceptions_of(a));
            }
        }
    } else {
        assert forall|a: int| 0 <= a < MAX_APP_NUM implies
            after.exceptions_of(a).take(before.exceptions_of(a).len() as int) == before.exceptions_of(a) by {
            assert(before.exceptions_of(a).take(before.exceptions_of(a).len() as int) =~= before.exceptions_of(a));
        }
    }
}

/// Prints the details of an exception of the running application;
/// `instruction` is the instruction word found at `sepc`.
pub fn print_exception_details(
    kernel: &BatchKernel,
    exception_type: ExceptionType,
    sepc: usize,
    stval: usize,
    instruction: u32,
    console: &mut Console,
)
    requires
        batch_valid(kernel@),
        kernel@.apps.current_app >= 1,
    ensures
        final(console)@ == old(console)@ + exception_details_text(kernel@, exception_type, sepc, stval, instruction),
{
    let ghost s0 = console@;
    let app_id = get_current_app_id(kernel);
    let name = get_app_name(&kernel.app_names, app_id);
    console.write_str("[kernel] ==================== Exception Details ====================\n");
    let ghost t1 = "[kernel] ==================== Exception Details ====================\n"@;
    let ghost s1 = console@;
    console.write_str("[kernel] Application: ");
    write_name(console, &name);
    console.write_str(" (app_");
    console.put_dec(app_id);
    console.write_str(")\n");
    proof {
        assert(console@ =~= s1 + application_line(kernel@, app_id as nat));
        lemma_cat(s0, t1, application_line(kernel@, app_id as nat));
    }
    let ghost t2 = t1 + application_line(kernel@, app_id as nat);
    console.put_text_line("[kernel] Exception Type: ", exception_type.name());
    proof {
        lemma_cat(s0, t2, text_line("[kernel] Exception Type: "@, exception_type.spec_name()));
    }
    let ghost t3 = t2 + text_line("[kernel] Exception Type: "@, exception_type.spec_name());
    console.put_hex_line("[kernel] Fault Instruction Address (sepc): ", sepc);
    proof {
        lemma_cat(s0, t3, hex_line("[kernel] Fault Instruction Address (sepc): "@, sepc as nat));
    }
    let ghost t4 = t3 + hex_line("[kernel] Fault Instruction Address (sepc): "@, sepc as nat);
    console.put_hex_line("[kernel] Fault Address (stval): ", stval);
    proof {
        lemma_cat(s0, t4, hex_line("[kernel] Fault Address (stval): "@, stval as nat));
    }
    let ghost t5 = t4 + hex_line("[kernel] Fault Address (stval): "@, stval as nat);
    console.put_hex_line("[kernel] Instruction: ", instruction as usize);
    proof {
        lemma_cat(s0, t5, hex_line("[kernel] Instruction: "@, instruction as nat));
    }
    let ghost t6 = t5 + hex_line("[kernel] Instruction: "@, instruction as nat);
    console.write_str("[kernel] =========================================================\n");
    proof {
        lemma_cat(s0, t6, "[kernel] =========================================================\n"@);
    }
}

fn type_slot(t: ExceptionType) -> (i: usize)
    ensures
        i < 9,
        i == spec_type_slot(t),
{
    match t {
        ExceptionType::InstructionAddressMisaligned => 0,
        ExceptionType::InstructionAccessFault => 1,
        ExceptionType::IllegalInstruction => 2,
        ExceptionType::LoadAddressMisaligned => 3,
        ExceptionType::LoadAccessFault => 4,
        ExceptionType::StoreAddressMisaligned => 5,
        ExceptionType::StoreFault => 6,
        ExceptionType::StorePageFault => 7,
        ExceptionType::Unknown => 8,
    }
}

spec fn spec_type_slot(t: ExceptionType) -> nat {
    match t {
        ExceptionType::InstructionAddressMisaligned => 0,
        ExceptionType::InstructionAccessFault => 1,
        ExceptionType::IllegalInstruction => 2,
        ExceptionType::LoadAddressMisaligned => 3,
        ExceptionType::LoadAccessFault => 4,
        ExceptionType::StoreAddressMisaligned => 5,
        ExceptionType::StoreFault => 6,
        ExceptionType::StorePageFault => 7,
        ExceptionType::Unknown => 8,
    }
}

spec fn slot_type(i: int) -> ExceptionType {
    if i == 0 { ExceptionType::InstructionAddressMisaligned }
    else if i == 1 { ExceptionType::InstructionAccessFault }
    else if i == 2 { ExceptionType::IllegalInstruction }
    else if i == 3 { ExceptionType::LoadAddressMisaligned }
    else if i == 4 { ExceptionType::LoadAccessFault }
    else if i == 5 { ExceptionType::StoreAddressMisaligned }
    else if i == 6 { ExceptionType::StoreFault }
    else if i == 7 { ExceptionType::StorePageFault }
    else { ExceptionType::Unknown }
}

fn print_summary_line(console: &mut Console, t: ExceptionType, c: usize, Ghost(recs): Ghost<Seq<ExceptionRecord>>)
    requires
        c == type_count(recs, t),
    ensures
        final(console)@ == old(console)@ + summary_line(recs, t),
{
    if c > 0 {
        let ghost start = console@;
        console.write_str("[kernel]   ");
        console.write_str(t.name());
        console.write_str(": ");
        console.put_dec(c);
        console.write_str("\n");
        proof {
            assert(console@ =~= start + summary_line(recs, t));
        }
    } else {
        proof {
            assert(old(console)@ + summary_line(recs, t) =~= old(console)@);
        }
    }
}

/// Counts the first `exception_count` records of application `app_id` by kind.
fn count_kinds(kernel: &BatchKernel, app_id: usize, exception_count: usize) -> (type_counts: Vec<usize>)
    requires
        batch_valid(kernel@),
        app_id < MAX_APP_NUM,
        exception_count == kernel@.app_exception_counts[app_id as int],
    ensures
        type_counts@.len() == 9,
        forall|j: int| 0 <= j < 9 ==> #[trigger] type_counts@[j] == type_count(kernel@.exceptions_of(app_id as int), slot_type(j)),
{
    let ghost recs = kernel@.exceptions_of(app_id as int);
    let base = app_id * MAX_EXCEPTIONS_PER_APP;
    let mut type_counts: Vec<usize> = vec![0, 0, 0, 0, 0, 0, 0, 0, 0];
    let mut i: usize = 0;
    while i < exception_count
        invariant
            i <= exception_count,
            exception_count <= MAX_EXCEPTIONS_PER_APP,
            base == app_id * MAX_EXCEPTIONS_PER_APP,
            app_id < MAX_APP_NUM,
            kernel.app_exceptions@.len() == MAX_APP_NUM * MAX_EXCEPTIONS_PER_APP,
            recs == kernel.app_exceptions@.subrange(base as int, base + exception_count),
            type_counts@.len() == 9,
            forall|j: int| 0 <= j < 9 ==> #[trigger] type_counts@[j] == type_count(recs.take(i as int), slot_type(j)),
            forall|j: int| 0 <= j < 9 ==> #[trigger] type_counts@[j] <= i,
        decreases exception_count - i,
    {
        let t = kernel.app_exceptions[base + i].exception_type;
        let slot = type_slot(t);
        proof {
            assert(recs[i as int].exception_type == t);
            assert forall|j: int| 0 <= j < 9 implies type_count(recs.take(i + 1), #[trigger] slot_type(j))
                == type_count(recs.take(i as int), slot_type(j)) + if j == slot { 1nat } else { 0nat } by {
                lemma_type_count_prefix(recs, i as int, slot_type(j));
            }
        }
        let c = type_counts[slot];
        type_counts.set(slot, c + 1);
        i = i + 1;
    }
    proof {
        assert(recs.take(exception_count as int) =~= recs);
    }
    type_counts
}

fn print_summary_lines(console: &mut Console, type_counts: &Vec<usize>, Ghost(recs): Ghost<Seq<ExceptionRecord>>)
    requires
        type_counts@.len() == 9,
        forall|j: int| 0 <= j < 9 ==> #[trigger] type_counts@[j] == type_count(recs, slot_type(j)),
    ensures
        final(console)@ == old(console)@ + summary_lines(recs),
{
    let ghost s0 = console@;
    proof {
        assert(type_counts@[2] == type_count(recs, slot_type(2)));
        assert(type_counts@[0] == type_count(recs, slot_type(0)));
        assert(type_counts@[1] == type_count(recs, slot_type(1)));
        assert(type_counts@[3] == type_count(recs, slot_type(3)));
        assert(type_counts@[4] == type_count(recs, slot_type(4)));
        assert(type_counts@[5] == type_count(recs, slot_type(5)));
        assert(type_counts@[6] == type_count(recs, slot_type(6)));
        assert(type_counts@[7] == type_count(recs, slot_type(7)));
        assert(type_counts@[8] == type_count(recs, slot_type(8)));
    }
    print_summary_line(console, ExceptionType::IllegalInstruction, type_counts[2], Ghost(recs));
    let ghost t1 = summary_line(recs, ExceptionType::IllegalInstruction);
    print_summary_line(console, ExceptionType::InstructionAddressMisaligned, type_counts[0], Ghost(recs));
    let ghost l2 = summary_line(recs, ExceptionType::InstructionAddressMisaligned);
    proof { lemma_cat(s0, t1, l2); }
    let ghost t2 = t1 + l2;
    print_summary_line(console, ExceptionType::InstructionAccessFault, type_counts[1], Ghost(recs));
    let ghost l3 = summary_line(recs, ExceptionType::InstructionAccessFault);
    proof { lemma_cat(s0, t2, l3); }
    let ghost t3 = t2 + l3;
    print_summary_line(console, ExceptionType::LoadAddressMisaligned, type_counts[3], Ghost(recs));
    let ghost l4 = summary_line(recs, ExceptionType::LoadAddressMisaligned);
    proof { lemma_cat(s0, t3, l4); }
    let ghost t4 = t3 + l4;
    print_summary_line(console, ExceptionType::LoadAccessFault, type_counts[4], Ghost(recs));
    let ghost l5 = summary_line(recs, ExceptionType::LoadAccessFault);
    proof { lemma_cat(s0, t4, l5); }
    let ghost t5 = t4 + l5;
    print_summary_line(console, ExceptionType::StoreAddressMisaligned, type_counts[5], Ghost(recs));
    let ghost l6 = summary_line(recs, ExceptionType::StoreAddressMisaligned);
    proof { lemma_cat(s0, t5, l6); }
    let ghost t6 = t5 + l6;
    print_summary_line(console, ExceptionType::StoreFault, type_counts[6], Ghost(recs));
    let ghost l7 = summary_line(recs, ExceptionType::StoreFault);
    proof { lemma_cat(s0, t6, l7); }
    let ghost t7 = t6 + l7;
    print_summary_line(console, ExceptionType::StorePageFault, type_counts[7], Ghost(recs));
    let ghost l8 = summary_line(recs, ExceptionType::StorePageFault);
    proof { lemma_cat(s0, t7, l8); }
    let ghost t8 = t7 + l8;
    print_summary_line(console, ExceptionType::Unknown, type_counts[8], Ghost(recs));
    let ghost l9 = summary_line(recs, ExceptionType::Unknown);
    proof { lemma_cat(s0, t8, l9); }
}

/// Prints how many exceptions of each kind application `app_id` raised;
/// prints nothing when it raised none.
pub fn print_exception_summary(kernel: &BatchKernel, app_id: usize, console: &mut Console)
    requires
        batch_valid(kernel@),
        app_id < MAX_APP_NUM,
    ensures
        final(console)@ == old(console)@ + exception_summary_text(kernel@, app_id as nat),
{
    let ghost recs = kernel@.exceptions_of(app_id as int);
    let exception_count = kernel.app_exception_counts[app_id];
    if exception_count == 0 {
        proof {
            assert(old(console)@ + exception_summary_text(kernel@, app_id as nat) =~= old(console)@);
        }
        return;
    }
    let ghost s0 = console@;
    let name = get_app_name(&kernel.app_names, app_id);
    console.write_str("\n[kernel] === Exception Summary for ");
    write_name(console, &name);
    console.write_str(" (app_");
    console.put_dec(app_id);
    console.write_str(") ===\n");
    console.put_dec_line("[kernel] Total exceptions: ", exception_count);
    let ghost head = summary_header(kernel@, app_id as nat, recs.len());
    proof {
        assert(console@ =~= s0 + head);
    }
    let type_counts = count_kinds(kernel, app_id, exception_count);
    print_summary_lines(console, &type_counts, Ghost(recs));
    proof {
        lemma_cat(s0, head, summary_lines(recs));
    }
    let ghost t2 = head + summary_lines(recs);
    console.write_str("[kernel] \n");
    proof {
        lemma_cat(s0, t2, "[kernel] \n"@);
    }
}

/// Notes `now` as the start time of the running application.
pub fn record_app_start_time(kernel: &mut BatchKernel, now: usize)
    requires
        batch_valid(old(kernel)@),
    ensures
        batch_valid(final(kernel)@),
        final(kernel)@ == (BatchView { app_start_time: now, ..old(kernel)@ }),
{
    kernel.app_start_time = now;
}

/// Stores the execution time of application `app_id`: `now` less the start time.
pub fn record_app_end_time(kernel: &mut BatchKernel, app_id: usize, now: usize)
    requires
        batch_valid(old(kernel)@),
        app_id < MAX_APP_NUM,
        now >= old(kernel)@.app_start_time,
    ensures
        batch_valid(final(kernel)@),
        final(kernel)@ == (BatchView {
            app_exec_time: old(kernel)@.app_exec_time.update(
                app_id as int,
                (now - old(kernel)@.app_start_time) as usize,
            ),
            ..old(kernel)@
        }),
{
    let exec_time = now - kernel.app_start_time;
    kernel.app_exec_time.set(app_id, exec_time);
}

/// The stored execution time of application `app_id`, in cycles.
pub fn get_app_exec_time(kernel: &BatchKernel, app_id: usize) -> (r: usize)
    requires
        batch_valid(kernel@),
        app_id < MAX_APP_NUM,
    ensures
        r == kernel@.app_exec_time[app_id as int],
{
    kernel.app_exec_time[app_id]
}

} // verus!
