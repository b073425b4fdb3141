//! Link checking for trees of Markdown documents: which files are documents,
//! which links they hold, where each link is to be checked, and what the
//! answer of each check means.

pub mod classify;
pub mod extract;
pub mod link;
pub mod probe;
pub mod report;
pub mod resolve;
pub mod session;
pub mod text;
pub mod verdict;
pub mod walk;

