//! Verified core of the Noble command-line shell: bounded JSON reading and
//! writing, report construction, argument decoding and the sandbox command
//! line. Process, file and terminal effects live in the application crate.

pub mod text;
pub mod admission;
pub mod arguments;
pub mod artifacts;
pub mod build_arguments;
pub mod build_report;
pub mod certification;
pub mod cli;
pub mod component;
pub mod companion_reports;
pub mod companion_values;
pub mod companions;
pub mod digest;
pub mod evidence;
pub mod experiment;
pub mod framing;
pub mod json;
pub mod number;
pub mod outcome;
pub mod pipeline;
pub mod process;
pub mod reader;
pub mod readback;
pub mod retained;
pub mod rules;
pub mod sandbox;
pub mod session;
pub mod slots;
pub mod subject;
pub mod utf8;
pub mod verify_arguments;
pub mod verify_report;
pub mod worker;
