//! The links of one document.
//!
//! The markup is read by `pulldown_cmark`. Its events are taken over one for
//! one, and the links are then gathered from them in the order in which they
//! stand in the document.

use vstd::prelude::*;
use pulldown_cmark::{Event, Options, Parser, Tag};
use crate::link::{LinkRef, LinkTag};

verus! {

/// The model of a [`MarkupEvent`].
pub enum MarkupEventView {
    LinkStart { url: Seq<char>, title: Seq<char> },
    Other,
}

/// What the link checker reads of one event of the markup parser.
#[derive(Debug, PartialEq, Eq)]
pub enum MarkupEvent {
    /// A link starts here; `url` is its destination and `title` its title.
    LinkStart { url: String, title: String },
    /// Any other event.
    Other,
}

impl View for MarkupEvent {
    type V = MarkupEventView;

    open spec fn view(&self) -> MarkupEventView {
        match self {
            MarkupEvent::LinkStart { url, title } => MarkupEventView::LinkStart {
                url: url@,
                title: title@,
            },
            MarkupEvent::Other => MarkupEventView::Other,
        }
    }
}

impl DeepView for MarkupEvent {
    type V = MarkupEventView;

    open spec fn deep_view(&self) -> MarkupEventView {
        self@
    }
}

/// The events that the markup parser gives for a document, with no extension
/// switched on.
pub uninterp spec fn markup_events(document: Seq<char>) -> Seq<MarkupEventView>;

/// Runs `pulldown_cmark::Parser::new_ext` over `document` with empty options
/// and walks the parser to its end. Each event is taken over as it comes: the
/// start of a link with its destination and title, every other event as
/// `Other`. Believed, not proved: the parser returns for every text, and what
/// it gives depends on the text alone.
#[verifier::external_body]
fn parse_markup(document: &str) -> (events: Vec<MarkupEvent>)
    ensures
        events.deep_view() == markup_events(document@),
{
    let mut events: Vec<MarkupEvent> = Vec::new();
    for event in Parser::new_ext(document, Options::empty()) {
        events.push(match event {
            Event::Start(Tag::Link(_, url, title)) => MarkupEvent::LinkStart {
                url: url.to_string(),
                title: title.to_string(),
            },
            _ => MarkupEvent::Other,
        });
    }
    events
}

/// The links that start in `events`, in order, each marked with the document `path`.
pub open spec fn links_in(events: Seq<MarkupEventView>, path: Seq<char>) -> Seq<LinkRef>
    decreases events.len(),
{
    if events.len() == 0 {
        Seq::empty()
    } else {
        let before = links_in(events.drop_last(), path);
        match events.last() {
            MarkupEventView::LinkStart { url, title } => before.push(LinkRef { url, title, path }),
            MarkupEventView::Other => before,
        }
    }
}

/// Gathers the links that start in `events`, in order, for the document `path`.
pub fn collect_links(events: &Vec<MarkupEvent>, path: &str) -> (links: Vec<LinkTag>)
    ensures
        links.deep_view() == links_in(events.deep_view(), path@),
{
    let mut links: Vec<LinkTag> = Vec::new();
    let mut i: usize = 0;
    while i < events.len()
        invariant
            i <= events.len(),
            links.deep_view() == links_in(events.deep_view().take(i as int), path@),
        decreases events.len() - i,
    {
        proof {
            let seen = events.deep_view().take(i + 1);
            assert(seen.drop_last() == events.deep_view().take(i as int));
            assert(seen.last() == events@[i as int]@);
        }
        let ghost before = links.deep_view();
        match &events[i] {
            MarkupEvent::LinkStart { url, title } => {
                let link = LinkTag::new(url.clone(), title.clone(), path.to_owned());
                links.push(link);
                assert(links.deep_view() == before.push(link@));
            },
            MarkupEvent::Other => {},
        }
        i += 1;
    }
    assert(events.deep_view().take(events.len() as int) == events.deep_view());
    links
}

/// The links of `document`, in the order in which they stand in it, each
/// marked with `path`, the document's own path.
pub fn get_document_link(document: &str, path: String) -> (links: Vec<LinkTag>)
    ensures
        links.deep_view() == links_in(markup_events(document@), path@),
{
    let events = parse_markup(document);
    collect_links(&events, path.as_str())
}

/// Every gathered link names the document it was gathered for, and no more
/// links are gathered than there are events.
pub proof fn lemma_links_carry_path(events: Seq<MarkupEventView>, path: Seq<char>)
    ensures
        links_in(events, path).len() <= events.len(),
        forall|i: int| 0 <= i < links_in(events, path).len() ==> (#[trigger] links_in(events, path)[i]).path == path,
    decreases events.len(),
{
    if events.len() > 0 {
        lemma_links_carry_path(events.drop_last(), path);
    }
}

} // verus!
