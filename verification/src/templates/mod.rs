//! The templates that a new project can be made from.

use crate::file_system::PathKind;
use crate::templates::config::{RegisteredTemplate, RegisteredTemplateView};
use vstd::prelude::*;

pub mod config;
pub mod creation;

verus! {

/// A registry entry together with what was found at its path.
#[derive(Debug, PartialEq, Eq)]
pub struct ProbedTemplate {
    pub template: RegisteredTemplate,
    pub kind: PathKind,
}

/// Model of a [`ProbedTemplate`].
pub struct ProbedTemplateView {
    pub template: RegisteredTemplateView,
    pub kind: PathKind,
}

impl View for ProbedTemplate {
    type V = ProbedTemplateView;

    open spec fn view(&self) -> ProbedTemplateView {
        ProbedTemplateView { template: self.template@, kind: self.kind }
    }
}

/// The models of a sequence of probed entries, in order.
pub open spec fn probed_views(entries: Seq<ProbedTemplate>) -> Seq<ProbedTemplateView> {
    entries.map_values(|p: ProbedTemplate| p@)
}

/// The entry that stands for making a project from no template at all.
pub open spec fn no_template() -> RegisteredTemplateView {
    RegisteredTemplateView { name: "(No template)"@, path: Seq::empty() }
}

/// The test that an entry passes when a directory stands at its path.
pub open spec fn is_usable() -> spec_fn(ProbedTemplateView) -> bool {
    |p: ProbedTemplateView| p.kind == PathKind::Directory
}

/// The templates on offer: the entry for no template, then every registry
/// entry at whose path a directory stands, in registry order.
pub open spec fn offered(entries: Seq<ProbedTemplateView>) -> Seq<RegisteredTemplateView> {
    seq![no_template()] + entries.filter(is_usable()).map_values(
        |p: ProbedTemplateView| p.template,
    )
}

/// A registry entry at whose path nothing stands.
#[derive(Debug, PartialEq, Eq)]
pub struct MissingTemplate {
    pub template: RegisteredTemplate,
}

/// Lists the templates on offer. Index 0 is always the entry for no
/// template; the entries of the registry follow in their order, those left
/// out at whose path something other than a directory stands. The listing
/// fails on the first entry at whose path nothing stands.
pub fn get_templates(entries: &Vec<ProbedTemplate>) -> (out: Result<
    Vec<RegisteredTemplate>,
    MissingTemplate,
>)
    ensures
        out is Ok <==> forall|i: int|
            0 <= i < entries@.len() ==> (#[trigger] entries@[i]).kind != PathKind::Missing,
        out matches Ok(list) ==> config::template_views(list@) == offered(probed_views(entries@)),
        out matches Err(missing) ==> exists|i: int|
            0 <= i < entries@.len() && (#[trigger] entries@[i]).kind == PathKind::Missing
                && missing.template == entries@[i].template && forall|j: int|
                0 <= j < i ==> (#[trigger] entries@[j]).kind != PathKind::Missing,
{
    let mut list: Vec<RegisteredTemplate> = Vec::new();
    list.push(RegisteredTemplate { name: String::from_str("(No template)"), path: String::new() });
    let mut at: usize = 0;
    proof {
        assert(probed_views(entries@).take(0) =~= Seq::<ProbedTemplateView>::empty());
        Seq::<ProbedTemplateView>::empty().lemma_filter_len(is_usable());
        assert(config::template_views(list@) =~= offered(probed_views(entries@).take(0)));
    }
    while at < entries.len()
        invariant
            at <= entries.len(),
            forall|j: int| 0 <= j < at ==> (#[trigger] entries@[j]).kind != PathKind::Missing,
            config::template_views(list@) == offered(probed_views(entries@).take(at as int)),
        decreases entries.len() - at,
    {
        let entry = &entries[at];
        let ghost seen = probed_views(entries@).take(at as int);
        let ghost listed = list@;
        proof {
            assert(probed_views(entries@).take(at + 1) =~= seen.push(entry@));
            seen.lemma_filter_push(entry@, is_usable());
        }
        match entry.kind {
            PathKind::Missing => {
                return Err(MissingTemplate { template: entry.template.clone() });
            },
            PathKind::File | PathKind::Other => {},
            PathKind::Directory => {
                list.push(entry.template.clone());
                assert(config::template_views(list@) =~= config::template_views(listed).push(
                    entry.template@,
                ));
                assert(offered(seen.push(entry@)) =~= offered(seen).push(entry.template@));
            },
        }
        at = at + 1;
    }
    assert(probed_views(entries@).take(entries.len() as int) =~= probed_views(entries@));
    Ok(list)
}

} // verus!
