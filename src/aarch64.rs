pub mod config;
pub mod vdso_data;
