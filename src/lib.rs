//! Build orchestration for a desktop and mobile application: argument
//! splitting, subcommand dispatch, command planning, and the on-device log
//! verdict machine.
pub mod args;
pub mod cli;
pub mod harness;
pub mod plan;
pub mod tasks;
pub mod text;
