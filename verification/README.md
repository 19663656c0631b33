# Hawthorn kernel core

Hawthorn is a small AArch64 microkernel for QEMU `virt`. This crate holds the
part of it that decides: every function in `src/` carries a Verus contract and
is verified; `app/` is the program that runs on the machine and carries out
those decisions with register reads and writes.

## `src/` (the verified library)

| module | contents |
| --- | --- |
| `syscall_abi` | syscall numbers, `Errno` and the return-word encoding, the ABI info word, the packed `recv` word |
| `task_policy` | choice of the next task (priority, then round robin), timer tick step, sleeping and unblocking |
| `task` | the cooperative task table: creation, yield, exit |
| `endpoint` | IPC endpoints: create, destroy, and the call → recv → reply rendezvous |
| `syscall` | the dispatch table, the handlers, and the step-wise `write` |
| `user_layout` | the EL0 code and stack windows |
| `frame_alloc`, `phys_mem` | the frame bitmap and the RAM the tables live in |
| `mm`, `pt_walk`, `pt_kernel`, `pt_user`, `pt_boot`, `pt_dump` | 4-level translation tables: descriptors, kernel and user mappings, the boot identity map, table dumps |
| `pt_user_walk`, `pt_boot_map` | what the MMU sees after those mappings |
| `mmu` | `MAIR_EL1`, `TCR_EL1` and `SCTLR_EL1` values |
| `trap_frame`, `trap` | the trap frame layout and exception classification |
| `gic`, `irq`, `timer`, `pl011` | GICv3, IRQ routing, the scheduling tick, the UART: register values and decisions |

Laws relating several operations are public proof functions named `law_*`.

## `app/`

`main.rs` runs the boot sequence (`boot.rs`). `hw.rs` reaches the machine:
inline assembly on AArch64, a simulated register file elsewhere, so that the
boot sequence can be followed on a host.

## `tests/`

Unit and scenario tests of the library, run against the compiled crate.
