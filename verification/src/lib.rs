pub mod console;
pub mod batch;
pub mod process;
pub mod trap_cause;
pub mod trap;
pub mod task_trap;
pub mod switch_cost;
pub mod stack_trace;
pub mod fs;
pub mod boot;
pub mod timestamp;
pub mod shared_counter;
pub mod user_demo;
pub mod call_chain;
pub mod fault_demo;
pub mod env_check;
