# simurgh_kernel

The decisions of a capability-based microkernel, verified with [Verus](https://github.com/verus-lang/verus).

The library holds the kernel's object tables, the capability tables with the derivation forest over
them, and every decision that the kernel takes: what each system call does, what a process is given
at boot, how processes and services are brought up, who runs after a tick, a fault or a hand-over.
Each function's contract says exactly what it does to the tables and what it returns.

The library performs no effect itself. A decision that needs the scheduler, the IPC queues, the
memory layer or the hardware runs in steps. A step ends with the outcome or with a request; whoever
drives the kernel performs the request and hands the reply to the next step. The contracts hold for
every reply.

## Layout

- `src/` is the library. `src/lib.rs` says what each module is for.
- `tests/` runs it: `capabilities.rs` (rights, tables, derivation), `memory.rs` (memory maps and
  messages), `syscalls.rs` (boot and system calls against simple stand-ins for the layers around
  the kernel), `glue.rs` (processes, services, devices, hand-overs), `services.rs` (what the
  services are asked and what they answer).
- `app/` drives the library on a machine: it performs requests through the traits in
  `app/platform.rs`, moves register contexts and memory, and logs.

## What is proved beside the contracts

- A derived capability never has a right that the one it comes from lacks, however long the chain.
- Revoking a capability frees it and everything derived from it, in every space, and nothing else;
  right after a derivation it undoes the derivation.
- Every system call keeps both, whatever the layers around the kernel reply, and a call that fails
  leaves no object and no capability behind.
- A system call that is not turned away acts through a capability of its caller that carries the
  rights the call needs.
- Every capability names an object that exists, and every thread's spaces exist, from boot on.
- A thread has an exit reason exactly if it has exited, and keeps the reason recorded first;
  nothing brings it back.
- A mapping gives no access that the capability to the frame does not carry.
- Memory that is given to processes at boot is free: no byte of it is the kernel's, the boot
  loader's or the firmware's.
- A call is answered exactly once, and a thread that waits is runnable again once it is signalled.
