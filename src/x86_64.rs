pub mod config;
pub mod getcpu;
pub mod pvclock_data;
pub mod vdso_data;
