//! Registering a template: how the answers given on the command line or at
//! the prompts become the template's configuration and paths.

use crate::templates::config::{
    project_target, CreatedTemplateConfig, CreatedTemplateConfigView,
};
use crate::text::{absolute_path, child_path, join_path, texts};
use vstd::prelude::*;

verus! {

/// A path as the user gave it, with what is still to be done to it.
#[derive(Debug, PartialEq, Eq)]
pub enum PathAnswer {
    /// The text is used as it stands.
    Verbatim(String),
    /// The text is made absolute against the directory that the process
    /// runs in.
    Relative(String),
}

/// Model of a [`PathAnswer`].
pub enum PathAnswerView {
    Verbatim(Seq<char>),
    Relative(Seq<char>),
}

impl View for PathAnswer {
    type V = PathAnswerView;

    open spec fn view(&self) -> PathAnswerView {
        match self {
            PathAnswer::Verbatim(text) => PathAnswerView::Verbatim(text@),
            PathAnswer::Relative(text) => PathAnswerView::Relative(text@),
        }
    }
}

/// Whether the template's own configuration file is kept out of projects,
/// from the position chosen in the list "Yes", "No".
pub fn exclude_config_answer(selection: usize) -> (out: bool)
    ensures
        out == (selection == 0),
{
    selection == 0
}

/// Where a template goes that was given an output on the command line: to
/// that entry of the templates directory.
pub fn output_from_flag(templates_directory: &String, output: &String) -> (out: PathAnswer)
    ensures
        out@ == PathAnswerView::Relative(child_path(templates_directory@, output@)),
{
    PathAnswer::Relative(join_path(templates_directory.as_str(), output.as_str()))
}

/// The output that the prompt proposes for a template named `name`: the
/// entry of that name in the templates directory.
pub fn default_output(templates_directory: &String, name: &String) -> (out: String)
    ensures
        out@ == child_path(templates_directory@, name@),
{
    join_path(templates_directory.as_str(), name.as_str())
}

/// Where a template named `name` goes when the prompt was answered with
/// `input`: the proposed output as it stands where the answer is that
/// proposal, and else the entry `input` of the templates directory.
pub fn output_from_prompt(templates_directory: &String, name: &String, input: &String) -> (out:
    PathAnswer)
    ensures
        out@ == if input@ == child_path(templates_directory@, name@) {
            PathAnswerView::Verbatim(input@)
        } else {
            PathAnswerView::Relative(child_path(templates_directory@, input@))
        },
{
    let proposal = default_output(templates_directory, name);
    if *input == proposal {
        PathAnswer::Verbatim(proposal)
    } else {
        PathAnswer::Relative(join_path(templates_directory.as_str(), input.as_str()))
    }
}

/// Where a template's files come from: the empty text stands for no files
/// and stays as it is, any other text is a path.
pub fn source_answer(source: &String) -> (out: PathAnswer)
    ensures
        out@ == if source@.len() == 0 {
            PathAnswerView::Verbatim(source@)
        } else {
            PathAnswerView::Relative(source@)
        },
{
    if source.as_str().unicode_len() == 0 {
        PathAnswer::Verbatim(source.clone())
    } else {
        PathAnswer::Relative(source.clone())
    }
}

/// The path that an answer comes to. A verbatim text is the path. Any
/// other is made absolute against the directory that the process runs in,
/// which can fail, and always does for the empty text.
pub fn settle(answer: PathAnswer) -> (out: Option<String>)
    ensures
        answer@ matches PathAnswerView::Verbatim(text) ==> out matches Some(path) && path@ == text,
        answer@ matches PathAnswerView::Relative(text) ==> text.len() == 0 ==> out is None,
{
    match answer {
        PathAnswer::Verbatim(text) => Some(text),
        PathAnswer::Relative(text) => absolute_path(text.as_str()),
    }
}

/// The configuration of a new template from the answers given for it. The
/// target is always `project`.
pub fn template_config(
    name: String,
    author: String,
    version: String,
    description: String,
    exclude_config: bool,
    exclude_paths: Vec<String>,
    scripts: Vec<String>,
) -> (out: CreatedTemplateConfig)
    ensures
        out@ == (CreatedTemplateConfigView {
            target: project_target(),
            name: name@,
            author: author@,
            version: version@,
            description: description@,
            exclude_paths: texts(exclude_paths@),
            scripts: texts(scripts@),
            exclude_config,
        }),
{
    CreatedTemplateConfig {
        target: String::from_str("project"),
        name,
        author,
        version,
        description,
        exclude_paths,
        scripts,
        exclude_config,
    }
}

} // verus!
