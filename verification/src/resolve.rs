//! Links that are paths.
//!
//! Such a link is read from the directory of the document that holds it,
//! unless it starts with `/`: then it is read as it stands. Whether anything
//! is there is for the caller to find out; what the answer means is decided
//! here.

use vstd::prelude::*;
use vstd::string::StringExecFns;
use crate::classify::Route;
use crate::link::{LinkRef, LinkTag};
use crate::text::{chars_of, has_prefix};
use crate::verdict::{LinkVerdict, VerdictView};

verus! {

/// How many characters of `path` name its directory: all up to the last `/`,
/// that `/` included, and none where `path` holds no `/`.
pub open spec fn directory_len(path: Seq<char>) -> nat
    decreases path.len(),
{
    if path.len() == 0 {
        0
    } else if path.last() == '/' {
        path.len()
    } else {
        directory_len(path.drop_last())
    }
}

/// The directory part of `path`, empty or ending with `/`.
pub open spec fn directory_of(path: Seq<char>) -> Seq<char> {
    path.subrange(0, directory_len(path) as int)
}

/// The path at which to look for the target of `url`, a link of the document `path`.
pub open spec fn target_of(path: Seq<char>, url: Seq<char>) -> Seq<char> {
    if "/"@.is_prefix_of(url) {
        url
    } else {
        directory_of(path) + url
    }
}

/// The directory part is the longest start of the path that is empty or ends with `/`.
pub proof fn lemma_directory_is_longest(path: Seq<char>)
    ensures
        directory_len(path) <= path.len(),
        directory_len(path) > 0 ==> path[directory_len(path) - 1] == '/',
        forall|i: int| directory_len(path) <= i < path.len() ==> path[i] != '/',
    decreases path.len(),
{
    if path.len() > 0 && path.last() != '/' {
        let shorter = path.drop_last();
        lemma_directory_is_longest(shorter);
        assert forall|i: int| directory_len(path) <= i < path.len() implies path[i] != '/' by {
            if i < shorter.len() {
                assert(shorter[i] == path[i]);
            }
        }
    }
}

/// Finds the end of the directory part of `path`.
fn directory_end(path: &Vec<char>) -> (end: usize)
    ensures
        end == directory_len(path@),
{
    let mut end: usize = path.len();
    assert(path@.take(end as int) == path@);
    while end > 0
        invariant
            end <= path.len(),
            directory_len(path@) == directory_len(path@.take(end as int)),
        decreases end,
    {
        if path[end - 1] == '/' {
            assert(path@.take(end as int).last() == '/');
            return end;
        }
        assert(path@.take(end as int).drop_last() == path@.take(end - 1));
        end -= 1;
    }
    0
}

/// The path at which to look for the target of `link`.
pub fn internal_target(link: &LinkTag) -> (target: String)
    ensures
        target@ == target_of(link@.path, link@.url),
{
    if has_prefix(&chars_of(link.url.as_str()), "/") {
        link.url.clone()
    } else {
        let path = chars_of(link.path.as_str());
        let end = directory_end(&path);
        proof {
            lemma_directory_is_longest(path@);
        }
        let mut target = link.path.as_str().substring_char(0, end).to_owned();
        target.append(link.url.as_str());
        target
    }
}

/// The verdict on a link that needs no probe. `found` says whether the target
/// of a path was found; for every other route it is not read. A link that is
/// to be probed gets no verdict here.
pub open spec fn local_verdict(link: LinkRef, route: Route, found: bool) -> Option<VerdictView> {
    match route {
        Route::Ignored => Some(VerdictView::Ignored { link }),
        Route::ShouldBeRelative => Some(VerdictView::ShouldBeRelative { link }),
        Route::Forbidden => Some(VerdictView::DeadInternal { link }),
        Route::Internal => Some(
            if found {
                VerdictView::Alive { link, status: None }
            } else {
                VerdictView::DeadInternal { link }
            },
        ),
        Route::External => None,
    }
}

/// The model of an optional verdict.
pub open spec fn verdict_view(verdict: Option<LinkVerdict>) -> Option<VerdictView> {
    match verdict {
        Some(v) => Some(v@),
        None => None,
    }
}

/// Gives the verdict on a link that went `route` and needs no probe: ignored,
/// flagged as one that should be relative, dead for its forbidden prefix, or,
/// for a path, alive where `found` and dead where not. For a link that is to
/// be probed the result is `None`.
pub fn settle(link: LinkTag, route: Route, found: bool) -> (verdict: Option<LinkVerdict>)
    ensures
        verdict_view(verdict) == local_verdict(link@, route, found),
{
    match route {
        Route::Ignored => Some(LinkVerdict::Ignored { link }),
        Route::ShouldBeRelative => Some(LinkVerdict::ShouldBeRelative { link }),
        Route::Forbidden => Some(LinkVerdict::DeadInternal { link }),
        Route::Internal => {
            if found {
                Some(LinkVerdict::Alive { link, status: None })
            } else {
                Some(LinkVerdict::DeadInternal { link })
            }
        },
        Route::External => None,
    }
}

/// The verdict on a path: alive where its target was found, dead where not.
pub fn resolve_internal(link: LinkTag, found: bool) -> (verdict: LinkVerdict)
    ensures
        Some(verdict@) == local_verdict(link@, Route::Internal, found),
{
    if found {
        LinkVerdict::Alive { link, status: None }
    } else {
        LinkVerdict::DeadInternal { link }
    }
}

} // verus!
