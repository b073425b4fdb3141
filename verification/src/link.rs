//! A link as it was found in a document.

use vstd::prelude::*;

verus! {

/// The model of a link: what it points at, its title, and the document that holds it.
pub struct LinkRef {
    pub url: Seq<char>,
    pub title: Seq<char>,
    pub path: Seq<char>,
}

/// One link of one document. `url` is kept as it was written, `title` may be
/// empty, and `path` names the document that holds the link.
#[derive(Debug, PartialEq, Eq)]
pub struct LinkTag {
    pub url: String,
    pub title: String,
    pub path: String,
}

impl View for LinkTag {
    type V = LinkRef;

    open spec fn view(&self) -> LinkRef {
        LinkRef { url: self.url@, title: self.title@, path: self.path@ }
    }
}

impl DeepView for LinkTag {
    type V = LinkRef;

    open spec fn deep_view(&self) -> LinkRef {
        self@
    }
}

impl Clone for LinkTag {
    fn clone(&self) -> (copy: Self)
        ensures
            copy == *self,
    {
        LinkTag { url: self.url.clone(), title: self.title.clone(), path: self.path.clone() }
    }
}

impl LinkTag {
    pub fn new(url: String, title: String, path: String) -> (link: Self)
        ensures
            link.url == url,
            link.title == title,
            link.path == path,
    {
        Self { url, title, path }
    }
}

} // verus!
