# rcore_kernel

The decision logic of a small RISC-V teaching kernel (batch system and
time-sharing exercises), written in Verus with its contracts proved.

- `src/` is the verified library: the console text model, the batch
  application table and its statistics, the system calls `exit`,
  `get_taskinfo` and `write`, trap decoding and trap handling as functions
  from state and cause to the next state and an action, task-switch cost
  statistics, a frame-pointer stack walk, and timestamp formatting.
- `tests/` runs the library on concrete values.
- `app/` holds what touches the machine or the host: CSR writes, reading
  `scause`/`stval`/`time`, copying application images, thread and file
  demos, and the command-line entry point.
