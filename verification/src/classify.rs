//! Where a link goes to be checked.
//!
//! The rules are tried in a fixed order and the first that applies decides:
//!
//! 1. a link that starts with `#` stays inside its document and is ignored;
//! 2. a link that starts with the address of the repository itself should have
//!    been written as a relative link, and is flagged as such;
//! 3. a link that starts with the prefix that needs a login is ignored;
//! 4. a link that starts with the forbidden prefix is dead without a look at the disk;
//! 5. a link that starts with `..` or `/` is a path, to be found on disk;
//! 6. a link that starts with `http://` or `https://` and does not hold
//!    `localhost` is probed over the network;
//! 7. every other link is ignored.
//!
//! A prefix that is empty switches its rule off.

use vstd::prelude::*;
use crate::link::LinkTag;
use crate::text::{chars_of, has_part, has_prefix, occurs_in};

verus! {

/// The model of a [`Config`].
pub struct ConfigView {
    pub forbidden_link_prefix: Seq<char>,
    pub current_repo_url: Seq<char>,
    pub requires_gh_auth: Seq<char>,
}

/// The three prefixes that a run is configured with. An empty one is switched off.
#[derive(Debug, PartialEq, Eq)]
pub struct Config {
    pub forbidden_link_prefix: String,
    pub current_repo_url: String,
    pub requires_gh_auth: String,
}

impl View for Config {
    type V = ConfigView;

    open spec fn view(&self) -> ConfigView {
        ConfigView {
            forbidden_link_prefix: self.forbidden_link_prefix@,
            current_repo_url: self.current_repo_url@,
            requires_gh_auth: self.requires_gh_auth@,
        }
    }
}

impl Clone for Config {
    fn clone(&self) -> (copy: Self)
        ensures
            copy == *self,
    {
        Config {
            forbidden_link_prefix: self.forbidden_link_prefix.clone(),
            current_repo_url: self.current_repo_url.clone(),
            requires_gh_auth: self.requires_gh_auth.clone(),
        }
    }
}

impl Config {
    pub fn new(forbidden_link_prefix: String, current_repo_url: String, requires_gh_auth: String) -> (config: Self)
        ensures
            config.forbidden_link_prefix == forbidden_link_prefix,
            config.current_repo_url == current_repo_url,
            config.requires_gh_auth == requires_gh_auth,
    {
        Config { forbidden_link_prefix, current_repo_url, requires_gh_auth }
    }

    /// The configuration with every prefix switched off.
    pub fn disabled() -> (config: Self)
        ensures
            config@.forbidden_link_prefix.len() == 0,
            config@.current_repo_url.len() == 0,
            config@.requires_gh_auth.len() == 0,
    {
        Config {
            forbidden_link_prefix: String::new(),
            current_repo_url: String::new(),
            requires_gh_auth: String::new(),
        }
    }
}

/// Where a link goes.
#[derive(Debug, Clone, Copy, PartialEq, Eq, Structural)]
pub enum Route {
    /// Nothing is checked and nothing is reported.
    Ignored,
    /// Reported as a link that should have been relative; nothing is checked.
    ShouldBeRelative,
    /// Reported as a dead internal link; nothing is checked.
    Forbidden,
    /// To be found on disk.
    Internal,
    /// To be probed over the network.
    External,
}

/// A configured prefix is switched on and `url` starts with it.
pub open spec fn prefix_applies(prefix: Seq<char>, url: Seq<char>) -> bool {
    prefix.len() > 0 && prefix.is_prefix_of(url)
}

/// `url` names a place inside its own document.
pub open spec fn is_fragment(url: Seq<char>) -> bool {
    "#"@.is_prefix_of(url)
}

/// `url` is written as a path.
pub open spec fn is_local_path(url: Seq<char>) -> bool {
    ".."@.is_prefix_of(url) || "/"@.is_prefix_of(url)
}

/// `url` names a page on another machine.
pub open spec fn is_remote(url: Seq<char>) -> bool {
    &&& "http://"@.is_prefix_of(url) || "https://"@.is_prefix_of(url)
    &&& !occurs_in("localhost"@, url)
}

/// The route of a link under a configuration: the first rule that applies decides.
pub open spec fn route_of(url: Seq<char>, config: ConfigView) -> Route {
    if is_fragment(url) {
        Route::Ignored
    } else if prefix_applies(config.current_repo_url, url) {
        Route::ShouldBeRelative
    } else if prefix_applies(config.requires_gh_auth, url) {
        Route::Ignored
    } else if prefix_applies(config.forbidden_link_prefix, url) {
        Route::Forbidden
    } else if is_local_path(url) {
        Route::Internal
    } else if is_remote(url) {
        Route::External
    } else {
        Route::Ignored
    }
}

/// Whether the rule of a configured prefix applies to the characters `url`.
fn rule_applies(prefix: &str, url: &Vec<char>) -> (r: bool)
    ensures
        r == prefix_applies(prefix@, url@),
{
    !prefix.is_empty() && has_prefix(url, prefix)
}

/// Decides where `link` goes under `config`.
pub fn classify(link: &LinkTag, config: &Config) -> (route: Route)
    ensures
        route == route_of(link@.url, config@),
{
    let url = chars_of(link.url.as_str());
    if has_prefix(&url, "#") {
        Route::Ignored
    } else if rule_applies(config.current_repo_url.as_str(), &url) {
        Route::ShouldBeRelative
    } else if rule_applies(config.requires_gh_auth.as_str(), &url) {
        Route::Ignored
    } else if rule_applies(config.forbidden_link_prefix.as_str(), &url) {
        Route::Forbidden
    } else if has_prefix(&url, "..") || has_prefix(&url, "/") {
        Route::Internal
    } else if (has_prefix(&url, "http://") || has_prefix(&url, "https://")) && !has_part(
        &url,
        "localhost",
    ) {
        Route::External
    } else {
        Route::Ignored
    }
}

/// `url` is ignored: it is a fragment, or it needs a login, or no rule speaks of it.
pub open spec fn goes_ignored(url: Seq<char>, config: ConfigView) -> bool {
    ||| is_fragment(url)
    ||| !prefix_applies(config.current_repo_url, url) && prefix_applies(config.requires_gh_auth, url)
    ||| {
        &&& !prefix_applies(config.current_repo_url, url)
        &&& !prefix_applies(config.forbidden_link_prefix, url)
        &&& !is_local_path(url)
        &&& !is_remote(url)
    }
}

/// `url` is flagged as a link that should have been relative.
pub open spec fn goes_should_be_relative(url: Seq<char>, config: ConfigView) -> bool {
    !is_fragment(url) && prefix_applies(config.current_repo_url, url)
}

/// No earlier rule than the forbidden prefix takes `url`.
pub open spec fn reaches_forbidden_rule(url: Seq<char>, config: ConfigView) -> bool {
    &&& !is_fragment(url)
    &&& !prefix_applies(config.current_repo_url, url)
    &&& !prefix_applies(config.requires_gh_auth, url)
}

/// `url` is dead because of the forbidden prefix.
pub open spec fn goes_forbidden(url: Seq<char>, config: ConfigView) -> bool {
    reaches_forbidden_rule(url, config) && prefix_applies(config.forbidden_link_prefix, url)
}

/// `url` is looked up on disk.
pub open spec fn goes_internal(url: Seq<char>, config: ConfigView) -> bool {
    &&& reaches_forbidden_rule(url, config)
    &&& !prefix_applies(config.forbidden_link_prefix, url)
    &&& is_local_path(url)
}

/// `url` is probed over the network.
pub open spec fn goes_external(url: Seq<char>, config: ConfigView) -> bool {
    &&& reaches_forbidden_rule(url, config)
    &&& !prefix_applies(config.forbidden_link_prefix, url)
    &&& is_remote(url)
}

/// 1 for a condition that holds, 0 for one that does not.
pub open spec fn one_if(condition: bool) -> int {
    if condition {
        1
    } else {
        0
    }
}

/// A fragment, a path and a remote address begin differently, so no link is two of them.
pub proof fn lemma_shapes_exclude_each_other(url: Seq<char>)
    ensures
        !(is_fragment(url) && is_local_path(url)),
        !(is_fragment(url) && is_remote(url)),
        !(is_local_path(url) && is_remote(url)),
{
    reveal_strlit("#");
    reveal_strlit("..");
    reveal_strlit("/");
    reveal_strlit("http://");
    reveal_strlit("https://");
    if is_fragment(url) {
        assert(url.subrange(0, 1)[0] == '#');
    }
    if ".."@.is_prefix_of(url) {
        assert(url.subrange(0, 2)[0] == '.');
    }
    if "/"@.is_prefix_of(url) {
        assert(url.subrange(0, 1)[0] == '/');
    }
    if "http://"@.is_prefix_of(url) {
        assert(url.subrange(0, 7)[0] == 'h');
    }
    if "https://"@.is_prefix_of(url) {
        assert(url.subrange(0, 8)[0] == 'h');
    }
}

/// Every link has exactly one of the five outcomes, and it is the one that
/// [`route_of`] gives: no link is classified twice and none is dropped.
pub proof fn lemma_exactly_one_route(url: Seq<char>, config: ConfigView)
    ensures
        one_if(goes_ignored(url, config)) + one_if(goes_should_be_relative(url, config)) + one_if(
            goes_forbidden(url, config),
        ) + one_if(goes_internal(url, config)) + one_if(goes_external(url, config)) == 1,
        goes_ignored(url, config) <==> route_of(url, config) == Route::Ignored,
        goes_should_be_relative(url, config) <==> route_of(url, config) == Route::ShouldBeRelative,
        goes_forbidden(url, config) <==> route_of(url, config) == Route::Forbidden,
        goes_internal(url, config) <==> route_of(url, config) == Route::Internal,
        goes_external(url, config) <==> route_of(url, config) == Route::External,
{
    lemma_shapes_exclude_each_other(url);
}

/// A link that starts with the repository's own address and looks like a
/// remote address is flagged as one that should have been relative: it is
/// never probed.
pub proof fn lemma_current_repo_precedes_probe(url: Seq<char>, config: ConfigView)
    requires
        prefix_applies(config.current_repo_url, url),
        "http://"@.is_prefix_of(url) || "https://"@.is_prefix_of(url),
    ensures
        route_of(url, config) == Route::ShouldBeRelative,
{
    reveal_strlit("#");
    reveal_strlit("http://");
    reveal_strlit("https://");
    if is_fragment(url) {
        assert(url.subrange(0, 1)[0] == '#');
        if "http://"@.is_prefix_of(url) {
            assert(url.subrange(0, 7)[0] == 'h');
        } else {
            assert(url.subrange(0, 8)[0] == 'h');
        }
    }
}

/// A fragment is ignored under every configuration.
pub proof fn lemma_fragment_is_ignored(url: Seq<char>, config: ConfigView)
    requires
        is_fragment(url),
    ensures
        route_of(url, config) == Route::Ignored,
{
}

} // verus!
