pub mod cmdline;
pub mod collector;
pub mod command;
pub mod decimal;
pub mod escape;
pub mod event;
pub mod exit_code;
pub mod monitor;
pub mod monitor_laws;
pub mod round_trip;
pub mod script;
pub mod sentinel;
pub mod text;
