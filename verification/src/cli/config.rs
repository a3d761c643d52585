//! What the command line layer hands down to the engines.

use crate::templates::config::TemplatesMetadata;
use vstd::prelude::*;

verus! {

/// The settings that a run of the tool works with.
pub struct CliMetadata<'a> {
    /// Where the registry of templates is kept.
    pub templates_meta: &'a TemplatesMetadata,
}

} // verus!
