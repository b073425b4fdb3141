//! The report of a run: the links by what became of them.

use vstd::prelude::*;
use crate::link::{LinkRef, LinkTag};
use crate::verdict::{LinkVerdict, VerdictView};

verus! {

/// The lists of a report.
#[derive(Debug, Clone, Copy, PartialEq, Eq, Structural)]
pub enum Listing {
    /// The remote links that were probed, alive or dead.
    Visited,
    /// The paths that lead nowhere, and the links with the forbidden prefix.
    DeadInternal,
    /// The remote links whose probe failed.
    DeadExternal,
    /// The links that name the repository itself.
    ShouldBeRelative,
}

/// Whether a verdict puts its link on a list.
pub open spec fn belongs(verdict: VerdictView, listing: Listing) -> bool {
    match listing {
        Listing::Visited => verdict.was_probed(),
        Listing::DeadInternal => verdict is DeadInternal,
        Listing::DeadExternal => verdict is DeadExternal,
        Listing::ShouldBeRelative => verdict is ShouldBeRelative,
    }
}

/// The links that `verdicts` put on a list, in the order of the verdicts.
pub open spec fn listed(verdicts: Seq<VerdictView>, listing: Listing) -> Seq<LinkRef>
    decreases verdicts.len(),
{
    if verdicts.len() == 0 {
        Seq::empty()
    } else {
        let before = listed(verdicts.drop_last(), listing);
        if belongs(verdicts.last(), listing) {
            before.push(verdicts.last().link())
        } else {
            before
        }
    }
}

/// The model of a [`Report`].
pub struct ReportView {
    pub visited: Seq<LinkRef>,
    pub dead_internal: Seq<LinkRef>,
    pub dead_external: Seq<LinkRef>,
    pub should_be_relative: Seq<LinkRef>,
}

/// The report of a run. Each list is in the order in which the verdicts were given.
#[derive(Debug, PartialEq, Eq)]
pub struct Report {
    pub visited: Vec<LinkTag>,
    pub dead_internal: Vec<LinkTag>,
    pub dead_external: Vec<LinkTag>,
    pub should_be_relative: Vec<LinkTag>,
}

impl View for Report {
    type V = ReportView;

    open spec fn view(&self) -> ReportView {
        ReportView {
            visited: self.visited.deep_view(),
            dead_internal: self.dead_internal.deep_view(),
            dead_external: self.dead_external.deep_view(),
            should_be_relative: self.should_be_relative.deep_view(),
        }
    }
}

/// The report that a set of verdicts makes.
pub open spec fn report_of(verdicts: Seq<VerdictView>) -> ReportView {
    ReportView {
        visited: listed(verdicts, Listing::Visited),
        dead_internal: listed(verdicts, Listing::DeadInternal),
        dead_external: listed(verdicts, Listing::DeadExternal),
        should_be_relative: listed(verdicts, Listing::ShouldBeRelative),
    }
}

/// Whether `verdict` puts its link on `listing`.
fn puts_on(verdict: &LinkVerdict, listing: Listing) -> (r: bool)
    ensures
        r == belongs(verdict@, listing),
{
    match listing {
        Listing::Visited => match verdict {
            LinkVerdict::Alive { status, .. } => status.is_some(),
            LinkVerdict::DeadExternal { .. } => true,
            _ => false,
        },
        Listing::DeadInternal => match verdict {
            LinkVerdict::DeadInternal { .. } => true,
            _ => false,
        },
        Listing::DeadExternal => match verdict {
            LinkVerdict::DeadExternal { .. } => true,
            _ => false,
        },
        Listing::ShouldBeRelative => match verdict {
            LinkVerdict::ShouldBeRelative { .. } => true,
            _ => false,
        },
    }
}

/// Gathers one list of the report.
fn gather(verdicts: &Vec<LinkVerdict>, listing: Listing) -> (links: Vec<LinkTag>)
    ensures
        links.deep_view() == listed(verdicts.deep_view(), listing),
{
    let mut links: Vec<LinkTag> = Vec::new();
    let mut i: usize = 0;
    while i < verdicts.len()
        invariant
            i <= verdicts.len(),
            links.deep_view() == listed(verdicts.deep_view().take(i as int), listing),
        decreases verdicts.len() - i,
    {
        proof {
            let done = verdicts.deep_view().take(i + 1);
            assert(done.drop_last() == verdicts.deep_view().take(i as int));
            assert(done.last() == verdicts@[i as int]@);
        }
        if puts_on(&verdicts[i], listing) {
            let ghost before = links.deep_view();
            let link = verdicts[i].link().clone();
            links.push(link);
            assert(links.deep_view() == before.push(link@));
        }
        i += 1;
    }
    assert(verdicts.deep_view().take(verdicts.len() as int) == verdicts.deep_view());
    links
}

impl Report {
    /// Makes the report of a run from all its verdicts. The links that were
    /// alive on disk and those that were ignored are on no list.
    pub fn from_verdicts(verdicts: &Vec<LinkVerdict>) -> (report: Report)
        ensures
            report@ == report_of(verdicts.deep_view()),
    {
        Report {
            visited: gather(verdicts, Listing::Visited),
            dead_internal: gather(verdicts, Listing::DeadInternal),
            dead_external: gather(verdicts, Listing::DeadExternal),
            should_be_relative: gather(verdicts, Listing::ShouldBeRelative),
        }
    }
}

/// A link is on a list exactly when a verdict that belongs there is about it.
pub proof fn lemma_listed_links(verdicts: Seq<VerdictView>, listing: Listing)
    ensures
        forall|link: LinkRef|
            listed(verdicts, listing).contains(link) <==> exists|i: int|
                0 <= i < verdicts.len() && belongs(#[trigger] verdicts[i], listing)
                    && verdicts[i].link() == link,
    decreases verdicts.len(),
{
    if verdicts.len() > 0 {
        let shorter = verdicts.drop_last();
        lemma_listed_links(shorter, listing);
        assert forall|link: LinkRef|
            listed(verdicts, listing).contains(link) <==> exists|i: int|
                0 <= i < verdicts.len() && belongs(#[trigger] verdicts[i], listing)
                    && verdicts[i].link() == link by {
            let before = listed(shorter, listing);
            if listed(verdicts, listing).contains(link) {
                let k = choose|k: int|
                    0 <= k < listed(verdicts, listing).len() && listed(verdicts, listing)[k] == link;
                if k < before.len() {
                    assert(before[k] == link);
                    assert(before.contains(link));
                    let i = choose|i: int|
                        0 <= i < shorter.len() && belongs(#[trigger] shorter[i], listing)
                            && shorter[i].link() == link;
                    assert(verdicts[i] == shorter[i]);
                } else {
                    assert(belongs(verdicts[verdicts.len() - 1], listing));
                }
            }
            if exists|i: int|
                0 <= i < verdicts.len() && belongs(#[trigger] verdicts[i], listing)
                    && verdicts[i].link() == link {
                let i = choose|i: int|
                    0 <= i < verdicts.len() && belongs(#[trigger] verdicts[i], listing)
                        && verdicts[i].link() == link;
                if i < shorter.len() {
                    assert(shorter[i] == verdicts[i]);
                    assert(before.contains(link));
                    let k = choose|k: int| 0 <= k < before.len() && before[k] == link;
                    assert(listed(verdicts, listing)[k] == link);
                } else {
                    assert(listed(verdicts, listing)[before.len() as int] == link);
                }
            }
        }
    }
}

} // verus!
