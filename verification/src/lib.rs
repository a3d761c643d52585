//! Registry and instantiation engine of a project scaffolding tool.
//!
//! The library holds every decision of the tool as a function from plain
//! values to plain values: which entries of a template are copied and where
//! to, how a template's configuration is completed and validated, how the
//! registry grows, and which step follows which observation of the outside
//! world. Touching the file system, the terminal or a shell is left to the
//! caller, who performs the requests that the library hands out and reports
//! back what happened.

pub mod cli;
pub mod file_system;
pub mod templates;
pub mod text;
