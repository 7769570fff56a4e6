//! Kernel side of a vDSO: the seqlock-published clock records of the page
//! shared with user space, and the planning of how the vDSO image and that
//! page are mapped into a process.

pub mod aarch64;
pub mod guard;
pub mod loongarch64;
mod platform;
pub mod riscv64;
pub mod vdso;
pub mod vdso_time_data;
pub mod x86_64;
