//! Decision logic of a system-call buffer encryption checker: parsing of
//! traced system-call records, the per-descriptor bookkeeping that groups
//! buffers by file, and the helpers that name and report the files.
pub mod text;
pub mod fd_table;
pub mod record;
pub mod action;
pub mod engine;
pub mod command;
pub mod monitor;
pub mod threshold;
pub mod encryption;
pub mod ent;
pub mod fuzz;
pub mod fuzz_monitor;
pub mod executor;
pub mod tracer;
pub mod interceptor;
pub mod draw;
