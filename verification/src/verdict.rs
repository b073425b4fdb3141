//! What became of a link.

use vstd::prelude::*;
use crate::link::{LinkRef, LinkTag};

verus! {

/// The model of a [`LinkVerdict`].
pub enum VerdictView {
    Alive { link: LinkRef, status: Option<u32> },
    DeadInternal { link: LinkRef },
    DeadExternal { link: LinkRef, status: Option<u32> },
    ShouldBeRelative { link: LinkRef },
    Ignored { link: LinkRef },
}

/// The verdict on one link. A verdict does not change once it is given.
#[derive(Debug, PartialEq, Eq)]
pub enum LinkVerdict {
    /// The link leads somewhere. `status` is the answer of the server for a
    /// link that was probed, and `None` for a path that was found on disk.
    Alive { link: LinkTag, status: Option<u32> },
    /// The link is a path that leads nowhere, or it has the forbidden prefix.
    DeadInternal { link: LinkTag },
    /// The probe of the link failed. `status` is the answer of the server, or
    /// `None` where no answer came.
    DeadExternal { link: LinkTag, status: Option<u32> },
    /// The link names the repository itself and should have been relative.
    ShouldBeRelative { link: LinkTag },
    /// The link is not checked.
    Ignored { link: LinkTag },
}

impl VerdictView {
    /// The link that the verdict is about.
    pub open spec fn link(self) -> LinkRef {
        match self {
            VerdictView::Alive { link, .. } => link,
            VerdictView::DeadInternal { link } => link,
            VerdictView::DeadExternal { link, .. } => link,
            VerdictView::ShouldBeRelative { link } => link,
            VerdictView::Ignored { link } => link,
        }
    }

    /// The answer of the server, where the verdict holds one.
    pub open spec fn status(self) -> Option<u32> {
        match self {
            VerdictView::Alive { status, .. } => status,
            VerdictView::DeadExternal { status, .. } => status,
            _ => None,
        }
    }

    /// The verdict came from a probe over the network.
    pub open spec fn was_probed(self) -> bool {
        match self {
            VerdictView::Alive { status, .. } => status is Some,
            VerdictView::DeadExternal { .. } => true,
            _ => false,
        }
    }
}

impl View for LinkVerdict {
    type V = VerdictView;

    open spec fn view(&self) -> VerdictView {
        match self {
            LinkVerdict::Alive { link, status } => VerdictView::Alive { link: link@, status: *status },
            LinkVerdict::DeadInternal { link } => VerdictView::DeadInternal { link: link@ },
            LinkVerdict::DeadExternal { link, status } => VerdictView::DeadExternal {
                link: link@,
                status: *status,
            },
            LinkVerdict::ShouldBeRelative { link } => VerdictView::ShouldBeRelative { link: link@ },
            LinkVerdict::Ignored { link } => VerdictView::Ignored { link: link@ },
        }
    }
}

impl DeepView for LinkVerdict {
    type V = VerdictView;

    open spec fn deep_view(&self) -> VerdictView {
        self@
    }
}

impl Clone for LinkVerdict {
    fn clone(&self) -> (copy: Self)
        ensures
            copy == *self,
    {
        match self {
            LinkVerdict::Alive { link, status } => LinkVerdict::Alive {
                link: link.clone(),
                status: *status,
            },
            LinkVerdict::DeadInternal { link } => LinkVerdict::DeadInternal { link: link.clone() },
            LinkVerdict::DeadExternal { link, status } => LinkVerdict::DeadExternal {
                link: link.clone(),
                status: *status,
            },
            LinkVerdict::ShouldBeRelative { link } => LinkVerdict::ShouldBeRelative {
                link: link.clone(),
            },
            LinkVerdict::Ignored { link } => LinkVerdict::Ignored { link: link.clone() },
        }
    }
}

impl LinkVerdict {
    /// The link that the verdict is about.
    pub fn link(&self) -> (link: &LinkTag)
        ensures
            link@ == self@.link(),
    {
        match self {
            LinkVerdict::Alive { link, .. } => link,
            LinkVerdict::DeadInternal { link } => link,
            LinkVerdict::DeadExternal { link, .. } => link,
            LinkVerdict::ShouldBeRelative { link } => link,
            LinkVerdict::Ignored { link } => link,
        }
    }

    /// The answer of the server, where the verdict holds one.
    pub fn status(&self) -> (status: Option<u32>)
        ensures
            status == self@.status(),
    {
        match self {
            LinkVerdict::Alive { status, .. } => *status,
            LinkVerdict::DeadExternal { status, .. } => *status,
            _ => None,
        }
    }

    /// Whether the verdict puts the link on one of the two lists of dead links.
    pub fn is_dead(&self) -> (dead: bool)
        ensures
            dead == (self@ is DeadInternal || self@ is DeadExternal),
    {
        match self {
            LinkVerdict::DeadInternal { .. } => true,
            LinkVerdict::DeadExternal { .. } => true,
            _ => false,
        }
    }
}

} // verus!
