//! The command-line subcommands: what each decides and prints.
pub mod compile;
pub mod init;
pub mod install;
pub mod plugin;
