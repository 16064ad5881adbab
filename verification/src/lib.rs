//! Decision and text-processing core of `please`: recognising the active shell,
//! reading shell history, skipping invocations of `please` itself, and wrapping
//! the chosen command so that the shell runs it through `sudo`.
pub mod cli;
pub mod detection;
pub mod history;
pub mod last_command;
pub mod locations;
pub mod shell_kind;
pub mod shell_name;
pub mod text;

pub use last_command::get_last_command;
pub use shell_kind::ShellKind;
