# zeroos_core

The verified core of ZeroOS, a library operating system for zkVM guests, and
of its workspace tooling, written in Verus.

- `src/` is the library. Its functions are verified, apart from a few
  trusted wrappers around `libc` constants, `serde_json` and std calls
  (`String::push`, path equality), whose contracts are stated but not
  proved. The error numbers are those of the Linux ABI on RISC-V, x86 and
  Arm (other platforms number some of them differently):
  - `scheduler`, `thread`, `anchor`, `arch`, `errno`: the cooperative
    round-robin scheduler (threads, futex wait/wake, spawn, exit), kernel
    stacks and trap-frame placement. The scheduler decides; the operations
    its decisions need on architecture state come back as `ArchAction`s.
  - `trap`: the saved register state and its syscall view.
  - `matrix`, `massage`, `act`, `sh`, `text`: the planning logic of the
    `matrix`, `massage` and `act` tasks and of shell-script runs.
- `app/` is the unverified shell around it: the command line, file, process
  and environment access, YAML/JSON reading, and the platform glue that holds
  the global scheduler and performs its `ArchAction`s.
- `tests/` exercises the library on concrete values.
