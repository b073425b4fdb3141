//! What the answer to a probe means.
//!
//! A probe is one request for a remote address. It ends with the status that
//! the server gave, or without one where no answer came: the name was not
//! found, the connection was refused, the time ran out.

use vstd::prelude::*;
use crate::link::{LinkRef, LinkTag};
use crate::verdict::{LinkVerdict, VerdictView};

verus! {

/// Why a remote link counts as dead.
#[derive(Debug, Clone, Copy, PartialEq, Eq, Structural)]
pub enum LinkCheckError {
    /// No answer came, or the server's status says that the page is not there.
    CannotGetLink,
}

/// The statuses that say that the page is there.
pub open spec fn is_success(status: u16) -> bool {
    200 <= status <= 399
}

/// What [`judge_response`] gives for a response.
pub open spec fn judged(response: Option<u16>) -> Result<u32, LinkCheckError> {
    match response {
        Some(status) => if is_success(status) {
            Ok(status as u32)
        } else {
            Err(LinkCheckError::CannotGetLink)
        },
        None => Err(LinkCheckError::CannotGetLink),
    }
}

/// Judges the end of a probe: `response` is the status that came, or `None`
/// where none came. A status from 200 to 399 is handed back; everything else
/// is an error.
pub fn judge_response(response: Option<u16>) -> (r: Result<u32, LinkCheckError>)
    ensures
        r == judged(response),
{
    match response {
        Some(status) => {
            if 200 <= status && status <= 399 {
                Ok(status as u32)
            } else {
                Err(LinkCheckError::CannotGetLink)
            }
        },
        None => Err(LinkCheckError::CannotGetLink),
    }
}

/// The verdict on a remote link whose probe ended with `response`.
pub open spec fn probe_verdict(link: LinkRef, response: Option<u16>) -> VerdictView {
    match response {
        Some(status) => if is_success(status) {
            VerdictView::Alive { link, status: Some(status as u32) }
        } else {
            VerdictView::DeadExternal { link, status: Some(status as u32) }
        },
        None => VerdictView::DeadExternal { link, status: None },
    }
}

/// Gives the verdict on a remote link whose probe ended with `response`: alive
/// with the status where it is from 200 to 399, dead with the status where it
/// is another, dead without a status where none came.
pub fn external_verdict(link: LinkTag, response: Option<u16>) -> (verdict: LinkVerdict)
    ensures
        verdict@ == probe_verdict(link@, response),
{
    match response {
        Some(status) => match judge_response(response) {
            Ok(code) => LinkVerdict::Alive { link, status: Some(code) },
            Err(_) => LinkVerdict::DeadExternal { link, status: Some(status as u32) },
        },
        None => LinkVerdict::DeadExternal { link, status: None },
    }
}

/// The verdict of a probe says whether the probe succeeded, and holds the
/// status that came.
pub proof fn lemma_probe_verdict_follows_judgement(link: LinkRef, response: Option<u16>)
    ensures
        probe_verdict(link, response).link() == link,
        probe_verdict(link, response).was_probed(),
        probe_verdict(link, response) is Alive <==> judged(response) is Ok,
        probe_verdict(link, response) is DeadExternal <==> judged(response) is Err,
        probe_verdict(link, response).status() == match response {
            Some(status) => Some(status as u32),
            None => None,
        },
{
}

} // verus!
