//! Hawthorn microkernel: the verified core of the syscall ABI, scheduling policy,
//! frame allocation, page-table construction, IPC endpoints, exception and
//! interrupt routing, and the register values of the MMU, GIC, timer and UART.
pub mod syscall_abi;
pub mod task_policy;
pub mod user_layout;
pub mod frame_alloc;
pub mod trap_frame;
pub mod task;
pub mod trap;
pub mod gic;
pub mod irq;
pub mod timer;
pub mod syscall;
pub mod endpoint;
pub mod phys_mem;
pub mod mm;
pub mod pt_walk;
pub mod pt_kernel;
pub mod pt_user;
pub mod mmu;
pub mod pt_dump;
pub mod pl011;
pub mod pt_boot;
pub mod pt_user_walk;
pub mod pt_boot_map;

