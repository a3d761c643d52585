//! The decisions behind the command line: which command runs, how a project
//! is made from a template, and how the answers given for a new template
//! become its configuration.

use vstd::prelude::*;

pub mod config;
pub mod project_cli;
pub mod project_run;
pub mod template_cli;


verus! {

/// The command that a command line asks for.
#[derive(Debug, Clone, Copy, PartialEq, Eq, Structural)]
pub enum CliCommand {
    /// `new project`: make a project.
    NewProject,
    /// `new template`: register a template.
    NewTemplate,
    /// Nothing that the tool acts on.
    Nothing,
}

/// Picks the command to run from the subcommands that were given: `new`,
/// and below it `project` and `template`. Without `new` nothing runs; under
/// `new`, `project` is looked for first.
pub fn parse_cli_args(new: bool, project: bool, template: bool) -> (out: CliCommand)
    ensures
        out == if new && project {
            CliCommand::NewProject
        } else if new && template {
            CliCommand::NewTemplate
        } else {
            CliCommand::Nothing
        },
{
    if !new {
        CliCommand::Nothing
    } else if project {
        CliCommand::NewProject
    } else if template {
        CliCommand::NewTemplate
    } else {
        CliCommand::Nothing
    }
}

} // verus!
