//! One run of the checker, step by step.
//!
//! A session is told what was observed and keeps what follows from it. The
//! caller does what only it can do: it looks for paths on disk and sends the
//! requests. The session decides which links need that, and sees to it that no
//! remote address is probed twice.
//!
//! The remote links are kept in the order in which they were first met, each
//! with the state of its probe. A link is entered and marked as met in one
//! step, [`Session::enter`], so two callers that hold the same address cannot
//! both be told to probe it.

use vstd::prelude::*;
use crate::classify::{
    classify, is_fragment, lemma_current_repo_precedes_probe, prefix_applies, route_of, Config,
    ConfigView, Route,
};
use crate::link::{LinkRef, LinkTag};
use crate::probe::{external_verdict, probe_verdict};
use crate::report::{belongs, lemma_listed_links, listed, report_of, Listing, Report};
use crate::resolve::{local_verdict, settle};
use crate::verdict::{LinkVerdict, VerdictView};

verus! {

/// The state of the probe of one remote address.
#[derive(Debug, Clone, Copy, PartialEq, Eq, Structural)]
pub enum Probe {
    /// The probe was handed out and has not come back.
    Pending,
    /// The probe ended with this answer: a status, or none.
    Done(Option<u16>),
}

/// The model of an entry of the list of remote links.
pub struct ProbeEntryView {
    pub link: LinkRef,
    pub state: Probe,
}

/// A remote link that was first met under its address, and the state of its probe.
#[derive(Debug, PartialEq, Eq)]
pub struct ProbeEntry {
    pub link: LinkTag,
    pub state: Probe,
}

impl View for ProbeEntry {
    type V = ProbeEntryView;

    open spec fn view(&self) -> ProbeEntryView {
        ProbeEntryView { link: self.link@, state: self.state }
    }
}

impl DeepView for ProbeEntry {
    type V = ProbeEntryView;

    open spec fn deep_view(&self) -> ProbeEntryView {
        self@
    }
}

/// The model of a [`Session`].
pub struct SessionView {
    pub config: ConfigView,
    pub settled: Seq<VerdictView>,
    pub probes: Seq<ProbeEntryView>,
}

/// Some entry of `probes` has the address `url`.
pub open spec fn met(probes: Seq<ProbeEntryView>, url: Seq<char>) -> bool {
    exists|i: int| 0 <= i < probes.len() && (#[trigger] probes[i]).link.url == url
}

/// The entry of `probes` with the address `url` is at `at`.
pub open spec fn stands_at(probes: Seq<ProbeEntryView>, url: Seq<char>, at: int) -> bool {
    0 <= at < probes.len() && probes[at].link.url == url
}

/// A verdict that the configuration allows for a link that needs no probe.
pub open spec fn admissible(verdict: VerdictView, config: ConfigView) -> bool {
    exists|found: bool|
        Some(verdict) == #[trigger] local_verdict(
            verdict.link(),
            route_of(verdict.link().url, config),
            found,
        )
}

impl SessionView {
    /// What holds of every session: each verdict given without a probe is one
    /// that the configuration allows for its link, each remote link is one that
    /// the configuration sends to be probed, and no address is entered twice.
    pub open spec fn wf(self) -> bool {
        &&& forall|i: int|
            0 <= i < self.settled.len() ==> admissible(#[trigger] self.settled[i], self.config)
        &&& forall|i: int|
            0 <= i < self.probes.len() ==> route_of(
                (#[trigger] self.probes[i]).link.url,
                self.config,
            ) == Route::External
        &&& forall|i: int, j: int|
            0 <= i < j < self.probes.len() ==> (#[trigger] self.probes[i]).link.url != (
            #[trigger] self.probes[j]).link.url
    }

    /// The session after it was told of a link that needs no probe. `found`
    /// is read for a path only. Told of a remote link, the session stays as it is.
    pub open spec fn settle(self, link: LinkRef, found: bool) -> SessionView {
        match local_verdict(link, route_of(link.url, self.config), found) {
            Some(verdict) => SessionView { settled: self.settled.push(verdict), ..self },
            None => self,
        }
    }

    /// Whether a probe is due for `link`: it is a remote link whose address was not met.
    pub open spec fn is_fresh(self, link: LinkRef) -> bool {
        route_of(link.url, self.config) == Route::External && !met(self.probes, link.url)
    }

    /// The session after `link` was offered for a probe.
    pub open spec fn enter(self, link: LinkRef) -> SessionView {
        if self.is_fresh(link) {
            SessionView {
                probes: self.probes.push(ProbeEntryView { link, state: Probe::Pending }),
                ..self
            }
        } else {
            self
        }
    }

    /// Whether an answer for `url` is awaited.
    pub open spec fn awaits(self, url: Seq<char>) -> bool {
        exists|i: int| stands_at(self.probes, url, i) && (#[trigger] self.probes[i]).state == Probe::Pending
    }

    /// The session after the probe of `url` ended with `response`. An answer
    /// that is not awaited changes nothing.
    pub open spec fn record(self, url: Seq<char>, response: Option<u16>) -> SessionView {
        if self.awaits(url) {
            let at = choose|i: int|
                stands_at(self.probes, url, i) && (#[trigger] self.probes[i]).state == Probe::Pending;
            SessionView {
                probes: self.probes.update(
                    at,
                    ProbeEntryView { link: self.probes[at].link, state: Probe::Done(response) },
                ),
                ..self
            }
        } else {
            self
        }
    }

    /// No probe is awaited.
    pub open spec fn is_complete(self) -> bool {
        forall|i: int| 0 <= i < self.probes.len() ==> (#[trigger] self.probes[i]).state != Probe::Pending
    }

    /// All verdicts of the session: those given without a probe, in the order
    /// in which they were given, then those of the probes that ended, in the
    /// order in which their links were first met.
    pub open spec fn verdicts(self) -> Seq<VerdictView> {
        self.settled + probe_verdicts(self.probes)
    }
}

/// The verdicts of the probes that ended, in the order of the entries.
pub open spec fn probe_verdicts(probes: Seq<ProbeEntryView>) -> Seq<VerdictView>
    decreases probes.len(),
{
    if probes.len() == 0 {
        Seq::empty()
    } else {
        let before = probe_verdicts(probes.drop_last());
        match probes.last().state {
            Probe::Pending => before,
            Probe::Done(response) => before.push(probe_verdict(probes.last().link, response)),
        }
    }
}

/// One run of the checker.
pub struct Session {
    config: Config,
    settled: Vec<LinkVerdict>,
    probes: Vec<ProbeEntry>,
}

impl View for Session {
    type V = SessionView;

    closed spec fn view(&self) -> SessionView {
        SessionView {
            config: self.config@,
            settled: self.settled.deep_view(),
            probes: self.probes.deep_view(),
        }
    }
}

impl Session {
    /// Starts a run under `config`, with nothing observed.
    pub fn new(config: Config) -> (session: Session)
        ensures
            session@.wf(),
            session@.config == config@,
            session@.settled.len() == 0,
            session@.probes.len() == 0,
    {
        Session { config, settled: Vec::new(), probes: Vec::new() }
    }

    /// The configuration of the run.
    pub fn config(&self) -> (config: &Config)
        ensures
            config@ == self@.config,
    {
        &self.config
    }

    /// Where `link` goes in this run.
    pub fn route(&self, link: &LinkTag) -> (route: Route)
        ensures
            route == route_of(link@.url, self@.config),
    {
        classify(link, &self.config)
    }

    /// Tells the session of a link that needs no probe, and returns the route
    /// of the link. For a path, `found` says whether its target is there; for
    /// any other link it is not read. The verdict is kept. A remote link gets
    /// no verdict here and leaves the session as it was.
    pub fn settle(&mut self, link: LinkTag, found: bool) -> (route: Route)
        requires
            old(self)@.wf(),
        ensures
            final(self)@.wf(),
            final(self)@ == old(self)@.settle(link@, found),
            route == route_of(link@.url, old(self)@.config),
    {
        let route = classify(&link, &self.config);
        let ghost before = self.settled.deep_view();
        let ghost shown = link@;
        match settle(link, route, found) {
            Some(verdict) => {
                self.settled.push(verdict);
                proof {
                    assert(self.settled.deep_view() =~= before.push(verdict@));
                    assert(verdict@.link() == shown);
                    assert(admissible(verdict@, self.config@));
                    assert forall|i: int| 0 <= i < self.settled.deep_view().len() implies admissible(
                        #[trigger] self.settled.deep_view()[i],
                        self.config@,
                    ) by {
                        if i < before.len() {
                            assert(self.settled.deep_view()[i] == old(self)@.settled[i]);
                        } else {
                            assert(self.settled.deep_view()[i] == verdict@);
                        }
                    }
                }
            },
            None => {},
        }
        route
    }

    /// Where the entry with the address `url` stands, if there is one.
    fn find(&self, url: &str) -> (at: Option<usize>)
        ensures
            match at {
                Some(i) => stands_at(self@.probes, url@, i as int),
                None => !met(self@.probes, url@),
            },
    {
        let wanted = url.to_owned();
        let mut i: usize = 0;
        while i < self.probes.len()
            invariant
                i <= self.probes.len(),
                wanted@ == url@,
                forall|j: int| 0 <= j < i ==> (#[trigger] self.probes.deep_view()[j]).link.url != url@,
            decreases self.probes.len() - i,
        {
            if self.probes[i].link.url == wanted {
                return Some(i);
            }
            i += 1;
        }
        None
    }

    /// Offers `link` for a probe and says whether the caller is to probe it.
    /// That is so for a remote link whose address was not met before; the
    /// address then counts as met. Every other link leaves the session as it was.
    pub fn enter(&mut self, link: &LinkTag) -> (fresh: bool)
        requires
            old(self)@.wf(),
        ensures
            final(self)@.wf(),
            final(self)@ == old(self)@.enter(link@),
            fresh == old(self)@.is_fresh(link@),
    {
        match classify(link, &self.config) {
            Route::External => {},
            _ => {
                return false;
            },
        }
        if self.find(link.url.as_str()).is_some() {
            return false;
        }
        let ghost before = self.probes.deep_view();
        let entry = ProbeEntry { link: link.clone(), state: Probe::Pending };
        self.probes.push(entry);
        proof {
            assert(self.probes.deep_view() =~= before.push(entry@));
        }
        true
    }

    /// Tells the session how the probe of `url` ended, and says whether the
    /// answer was awaited. `response` is the status that came, or `None` where
    /// none came. An answer for an address that was not handed out, or that
    /// has its answer already, changes nothing.
    pub fn record(&mut self, url: &str, response: Option<u16>) -> (awaited: bool)
        requires
            old(self)@.wf(),
        ensures
            final(self)@.wf(),
            final(self)@ == old(self)@.record(url@, response),
            awaited == old(self)@.awaits(url@),
    {
        match self.find(url) {
            Some(at) => {
                let ghost before = self.probes.deep_view();
                proof {
                    assert forall|i: int| stands_at(before, url@, i) implies i == at by {
                        if i < at {
                            assert(before[i].link.url != before[at as int].link.url);
                        } else if at < i {
                            assert(before[at as int].link.url != before[i].link.url);
                        }
                    }
                }
                match self.probes[at].state {
                    Probe::Pending => {
                        let link = self.probes[at].link.clone();
                        self.probes.set(at, ProbeEntry { link, state: Probe::Done(response) });
                        proof {
                            let entry = ProbeEntryView {
                                link: before[at as int].link,
                                state: Probe::Done(response),
                            };
                            assert(self.probes.deep_view() =~= before.update(at as int, entry));
                            assert(stands_at(before, url@, at as int) && before[at as int].state
                                == Probe::Pending);
                        }
                        true
                    },
                    Probe::Done(_) => false,
                }
            },
            None => false,
        }
    }

    /// Whether every probe that was handed out has its answer.
    pub fn is_complete(&self) -> (complete: bool)
        ensures
            complete == self@.is_complete(),
    {
        let mut i: usize = 0;
        while i < self.probes.len()
            invariant
                i <= self.probes.len(),
                forall|j: int| 0 <= j < i ==> (#[trigger] self.probes.deep_view()[j]).state != Probe::Pending,
            decreases self.probes.len() - i,
        {
            match self.probes[i].state {
                Probe::Pending => {
                    assert(self.probes.deep_view()[i as int].state == Probe::Pending);
                    return false;
                },
                Probe::Done(_) => {},
            }
            i += 1;
        }
        true
    }

    /// All verdicts of the run so far.
    pub fn verdicts(&self) -> (verdicts: Vec<LinkVerdict>)
        ensures
            verdicts.deep_view() == self@.verdicts(),
    {
        let mut verdicts: Vec<LinkVerdict> = Vec::new();
        let mut i: usize = 0;
        while i < self.settled.len()
            invariant
                i <= self.settled.len(),
                verdicts.deep_view() == self.settled.deep_view().take(i as int),
            decreases self.settled.len() - i,
        {
            let ghost before = verdicts.deep_view();
            let verdict = self.settled[i].clone();
            verdicts.push(verdict);
            assert(verdicts.deep_view() =~= before.push(verdict@));
            i += 1;
        }
        assert(self.settled.deep_view().take(self.settled.len() as int) == self.settled.deep_view());
        let mut k: usize = 0;
        while k < self.probes.len()
            invariant
                k <= self.probes.len(),
                verdicts.deep_view() == self.settled.deep_view() + probe_verdicts(
                    self.probes.deep_view().take(k as int),
                ),
            decreases self.probes.len() - k,
        {
            proof {
                let done = self.probes.deep_view().take(k + 1);
                assert(done.drop_last() == self.probes.deep_view().take(k as int));
                assert(done.last() == self.probes@[k as int]@);
            }
            match self.probes[k].state {
                Probe::Pending => {},
                Probe::Done(response) => {
                    let ghost before = verdicts.deep_view();
                    let verdict = external_verdict(self.probes[k].link.clone(), response);
                    verdicts.push(verdict);
                    assert(verdicts.deep_view() =~= before.push(verdict@));
                },
            }
            k += 1;
        }
        assert(self.probes.deep_view().take(self.probes.len() as int) == self.probes.deep_view());
        verdicts
    }

    /// The report of the run. There is none while a probe is awaited.
    pub fn report(&self) -> (report: Option<Report>)
        ensures
            report is Some <==> self@.is_complete(),
            report matches Some(r) ==> r@ == report_of(self@.verdicts()),
    {
        if self.is_complete() {
            let verdicts = self.verdicts();
            Some(Report::from_verdicts(&verdicts))
        } else {
            None
        }
    }
}

/// The session after the links were offered for a probe, one after the other.
pub open spec fn enter_all(session: SessionView, links: Seq<LinkRef>) -> SessionView
    decreases links.len(),
{
    if links.len() == 0 {
        session
    } else {
        enter_all(session, links.drop_last()).enter(links.last())
    }
}

/// How often the address `url` is handed out for a probe while the links are
/// offered, one after the other.
pub open spec fn probes_issued(session: SessionView, links: Seq<LinkRef>, url: Seq<char>) -> nat
    decreases links.len(),
{
    if links.len() == 0 {
        0
    } else {
        let earlier = probes_issued(session, links.drop_last(), url);
        if links.last().url == url && enter_all(session, links.drop_last()).is_fresh(links.last()) {
            earlier + 1
        } else {
            earlier
        }
    }
}

/// Some link of `links` has the address `url`.
pub open spec fn refers_to(links: Seq<LinkRef>, url: Seq<char>) -> bool {
    exists|i: int| 0 <= i < links.len() && (#[trigger] links[i]).url == url
}

/// Telling the session of a link that needs no probe keeps it well formed.
pub proof fn lemma_settle_keeps_wf(session: SessionView, link: LinkRef, found: bool)
    requires
        session.wf(),
    ensures
        session.settle(link, found).wf(),
{
    let told = session.settle(link, found);
    match local_verdict(link, route_of(link.url, session.config), found) {
        Some(verdict) => {
            assert(verdict.link() == link);
            assert(admissible(verdict, session.config));
            assert forall|i: int| 0 <= i < told.settled.len() implies admissible(
                #[trigger] told.settled[i],
                told.config,
            ) by {
                if i < session.settled.len() {
                    assert(told.settled[i] == session.settled[i]);
                }
            }
        },
        None => {},
    }
}

/// Offering a link keeps the session well formed.
pub proof fn lemma_enter_keeps_wf(session: SessionView, link: LinkRef)
    requires
        session.wf(),
    ensures
        session.enter(link).wf(),
{
    let entered = session.enter(link);
    if session.is_fresh(link) {
        assert forall|i: int, j: int| 0 <= i < j < entered.probes.len() implies (
        #[trigger] entered.probes[i]).link.url != (#[trigger] entered.probes[j]).link.url by {
            assert(entered.probes[i] == session.probes[i]);
            if j < session.probes.len() {
                assert(entered.probes[j] == session.probes[j]);
            }
        }
        assert forall|i: int| 0 <= i < entered.probes.len() implies route_of(
            (#[trigger] entered.probes[i]).link.url,
            entered.config,
        ) == Route::External by {
            if i < session.probes.len() {
                assert(entered.probes[i] == session.probes[i]);
            }
        }
    }
}

/// Recording the end of a probe keeps the session well formed.
pub proof fn lemma_record_keeps_wf(session: SessionView, url: Seq<char>, response: Option<u16>)
    requires
        session.wf(),
    ensures
        session.record(url, response).wf(),
{
    let recorded = session.record(url, response);
    if session.awaits(url) {
        assert forall|i: int| 0 <= i < recorded.probes.len() implies (
        #[trigger] recorded.probes[i]).link.url == session.probes[i].link.url by {}
        assert forall|i: int, j: int| 0 <= i < j < recorded.probes.len() implies (
        #[trigger] recorded.probes[i]).link.url != (#[trigger] recorded.probes[j]).link.url by {
            assert(session.probes[i].link.url != session.probes[j].link.url);
        }
        assert forall|i: int| 0 <= i < recorded.probes.len() implies route_of(
            (#[trigger] recorded.probes[i]).link.url,
            recorded.config,
        ) == Route::External by {
            assert(route_of(session.probes[i].link.url, session.config) == Route::External);
        }
    }
}

/// However often an address is offered, it is handed out for a probe at most
/// once. It is handed out exactly once where it was not met before, the
/// configuration sends it to be probed, and one of the links has it. After
/// that it counts as met, and the list of remote links holds it once.
pub proof fn lemma_one_probe_per_address(session: SessionView, links: Seq<LinkRef>, url: Seq<char>)
    requires
        session.wf(),
    ensures
        enter_all(session, links).wf(),
        enter_all(session, links).config == session.config,
        enter_all(session, links).settled == session.settled,
        probes_issued(session, links, url) <= 1,
        probes_issued(session, links, url) == 1 <==> {
            &&& !met(session.probes, url)
            &&& route_of(url, session.config) == Route::External
            &&& refers_to(links, url)
        },
        met(enter_all(session, links).probes, url) <==> {
            ||| met(session.probes, url)
            ||| route_of(url, session.config) == Route::External && refers_to(links, url)
        },
    decreases links.len(),
{
    if links.len() > 0 {
        let shorter = links.drop_last();
        let last = links.last();
        let before = enter_all(session, shorter);
        let after = before.enter(last);
        lemma_one_probe_per_address(session, shorter, url);
        lemma_enter_keeps_wf(before, last);
        if refers_to(shorter, url) {
            let i = choose|i: int| 0 <= i < shorter.len() && (#[trigger] shorter[i]).url == url;
            assert(links[i].url == url);
        }
        if refers_to(links, url) && !refers_to(shorter, url) {
            let i = choose|i: int| 0 <= i < links.len() && (#[trigger] links[i]).url == url;
            if i < shorter.len() {
                assert(shorter[i].url == url);
            }
            assert(last.url == url);
        }
        if last.url == url {
            assert(links[links.len() - 1].url == url);
        }
        if met(before.probes, url) {
            let k = choose|k: int| 0 <= k < before.probes.len() && (#[trigger] before.probes[k]).link.url == url;
            if before.is_fresh(last) {
                assert(after.probes[k] == before.probes[k]);
            }
            assert(met(after.probes, url));
        }
        if before.is_fresh(last) && last.url == url {
            assert(after.probes[before.probes.len() as int].link.url == url);
            assert(met(after.probes, url));
        }
        if met(after.probes, url) && !met(before.probes, url) {
            let k = choose|k: int| 0 <= k < after.probes.len() && (#[trigger] after.probes[k]).link.url == url;
            if k < before.probes.len() {
                assert(before.probes[k] == after.probes[k]);
            }
        }
    }
}

/// Offering a link a second time changes nothing, and no probe is handed out for it.
pub proof fn lemma_enter_twice(session: SessionView, link: LinkRef)
    ensures
        !session.enter(link).is_fresh(link),
        session.enter(link).enter(link) == session.enter(link),
{
    let entered = session.enter(link);
    if session.is_fresh(link) {
        assert(entered.probes[session.probes.len() as int].link.url == link.url);
    } else if met(session.probes, link.url) {
        assert(met(entered.probes, link.url));
    }
}

/// Every verdict of a probe comes from an entry whose probe ended, and is the
/// verdict that the answer calls for.
pub proof fn lemma_probe_verdicts_origin(probes: Seq<ProbeEntryView>, k: int)
    requires
        0 <= k < probe_verdicts(probes).len(),
    ensures
        exists|i: int, response: Option<u16>|
            0 <= i < probes.len() && (#[trigger] probes[i]).state == Probe::Done(response)
                && probe_verdicts(probes)[k] == #[trigger] probe_verdict(probes[i].link, response),
    decreases probes.len(),
{
    let shorter = probes.drop_last();
    let before = probe_verdicts(shorter);
    if k < before.len() {
        lemma_probe_verdicts_origin(shorter, k);
        let (i, response) = choose|i: int, response: Option<u16>|
            0 <= i < shorter.len() && (#[trigger] shorter[i]).state == Probe::Done(response)
                && before[k] == #[trigger] probe_verdict(shorter[i].link, response);
        assert(probes[i] == shorter[i]);
        assert(probe_verdicts(probes)[k] == before[k]);
    } else {
        let i = probes.len() - 1;
        match probes.last().state {
            Probe::Pending => {},
            Probe::Done(response) => {
                assert(probes[i].state == Probe::Done(response));
                assert(probe_verdicts(probes)[k] == probe_verdict(probes[i].link, response));
            },
        }
    }
}

/// The lists of the report follow the routes: a link on the list of visited
/// links or of dead remote links was sent to be probed, a link on the list of
/// dead internal links was sent to the disk or had the forbidden prefix, and a
/// link on the list of those that should be relative was flagged as such.
pub proof fn lemma_lists_follow_routes(session: SessionView, listing: Listing, link: LinkRef)
    requires
        session.wf(),
        listed(session.verdicts(), listing).contains(link),
    ensures
        match listing {
            Listing::Visited => route_of(link.url, session.config) == Route::External,
            Listing::DeadExternal => route_of(link.url, session.config) == Route::External,
            Listing::DeadInternal => {
                ||| route_of(link.url, session.config) == Route::Forbidden
                ||| route_of(link.url, session.config) == Route::Internal
            },
            Listing::ShouldBeRelative => route_of(link.url, session.config)
                == Route::ShouldBeRelative,
        },
{
    let verdicts = session.verdicts();
    lemma_listed_links(verdicts, listing);
    let i = choose|i: int|
        0 <= i < verdicts.len() && belongs(#[trigger] verdicts[i], listing) && verdicts[i].link()
            == link;
    if i < session.settled.len() {
        assert(verdicts[i] == session.settled[i]);
        assert(admissible(session.settled[i], session.config));
    } else {
        let k = i - session.settled.len();
        assert(verdicts[i] == probe_verdicts(session.probes)[k]);
        lemma_probe_verdicts_origin(session.probes, k);
        let (at, response) = choose|at: int, response: Option<u16>|
            0 <= at < session.probes.len() && (#[trigger] session.probes[at]).state == Probe::Done(
                response,
            ) && probe_verdicts(session.probes)[k] == #[trigger] probe_verdict(
                session.probes[at].link,
                response,
            );
        assert(route_of(session.probes[at].link.url, session.config) == Route::External);
    }
}

/// No fragment stands on a list of dead links.
pub proof fn lemma_fragments_are_never_dead(session: SessionView)
    requires
        session.wf(),
    ensures
        forall|link: LinkRef| #[trigger]
            report_of(session.verdicts()).dead_internal.contains(link) ==> !is_fragment(link.url),
        forall|link: LinkRef| #[trigger]
            report_of(session.verdicts()).dead_external.contains(link) ==> !is_fragment(link.url),
{
    assert forall|link: LinkRef| #[trigger]
        report_of(session.verdicts()).dead_internal.contains(link) implies !is_fragment(
        link.url,
    ) by {
        lemma_lists_follow_routes(session, Listing::DeadInternal, link);
    }
    assert forall|link: LinkRef| #[trigger]
        report_of(session.verdicts()).dead_external.contains(link) implies !is_fragment(
        link.url,
    ) by {
        lemma_lists_follow_routes(session, Listing::DeadExternal, link);
    }
}

/// A link that starts with the repository's own address and looks like a
/// remote address is never probed and never on the list of dead remote
/// links; told of it, the session puts it on the list of links that should be
/// relative.
pub proof fn lemma_repository_links_are_flagged(session: SessionView, link: LinkRef, found: bool)
    requires
        session.wf(),
        prefix_applies(session.config.current_repo_url, link.url),
        "http://"@.is_prefix_of(link.url) || "https://"@.is_prefix_of(link.url),
    ensures
        !session.is_fresh(link),
        !report_of(session.verdicts()).visited.contains(link),
        !report_of(session.verdicts()).dead_external.contains(link),
        report_of(session.settle(link, found).verdicts()).should_be_relative.contains(link),
{
    lemma_current_repo_precedes_probe(link.url, session.config);
    if report_of(session.verdicts()).visited.contains(link) {
        lemma_lists_follow_routes(session, Listing::Visited, link);
    }
    if report_of(session.verdicts()).dead_external.contains(link) {
        lemma_lists_follow_routes(session, Listing::DeadExternal, link);
    }
    let told = session.settle(link, found);
    let verdicts = told.verdicts();
    let at = session.settled.len() as int;
    assert(told.settled[at] == VerdictView::ShouldBeRelative { link });
    assert(verdicts[at] == told.settled[at]);
    assert(belongs(verdicts[at], Listing::ShouldBeRelative) && verdicts[at].link() == link);
    lemma_listed_links(verdicts, Listing::ShouldBeRelative);
}

/// What the session holds does not depend on whether it is first told of a
/// link that needs no probe and then offered another link, or the other way round.
pub proof fn lemma_settle_commutes_with_enter(
    session: SessionView,
    told: LinkRef,
    found: bool,
    offered: LinkRef,
)
    ensures
        session.settle(told, found).enter(offered) == session.enter(offered).settle(told, found),
{
}

/// What the session holds does not depend on whether it is first told of a
/// link that needs no probe and then of the end of a probe, or the other way round.
pub proof fn lemma_settle_commutes_with_record(
    session: SessionView,
    told: LinkRef,
    found: bool,
    url: Seq<char>,
    response: Option<u16>,
)
    ensures
        session.settle(told, found).record(url, response) == session.record(url, response).settle(
            told,
            found,
        ),
{
}

/// The entry of an address is found at one place only.
proof fn lemma_one_place(session: SessionView, url: Seq<char>, i: int, j: int)
    requires
        session.wf(),
        stands_at(session.probes, url, i),
        stands_at(session.probes, url, j),
    ensures
        i == j,
{
    if i < j {
        assert(session.probes[i].link.url != session.probes[j].link.url);
    } else if j < i {
        assert(session.probes[j].link.url != session.probes[i].link.url);
    }
}

/// After the end of a probe was recorded, the entry of the address holds the
/// answer, the links stay where they were, and every other entry is as before.
pub proof fn lemma_record_fills_one_entry(session: SessionView, url: Seq<char>, response: Option<u16>)
    requires
        session.wf(),
    ensures
        session.record(url, response).probes.len() == session.probes.len(),
        forall|i: int|
            0 <= i < session.probes.len() ==> (#[trigger] session.record(url, response).probes[i])
                == if session.probes[i].link.url == url && session.probes[i].state == Probe::Pending {
                ProbeEntryView { link: session.probes[i].link, state: Probe::Done(response) }
            } else {
                session.probes[i]
            },
{
    let recorded = session.record(url, response);
    if session.awaits(url) {
        let at = choose|i: int|
            stands_at(session.probes, url, i) && (#[trigger] session.probes[i]).state
                == Probe::Pending;
        assert forall|i: int| 0 <= i < session.probes.len() implies (#[trigger] recorded.probes[i])
            == if session.probes[i].link.url == url && session.probes[i].state == Probe::Pending {
            ProbeEntryView { link: session.probes[i].link, state: Probe::Done(response) }
        } else {
            session.probes[i]
        } by {
            if session.probes[i].link.url == url {
                lemma_one_place(session, url, i, at);
            }
        }
    } else {
        assert forall|i: int| 0 <= i < session.probes.len() implies !(session.probes[i].link.url
            == url && (#[trigger] session.probes[i]).state == Probe::Pending) by {
            if session.probes[i].link.url == url && session.probes[i].state == Probe::Pending {
                assert(stands_at(session.probes, url, i));
            }
        }
    }
}

/// What the session holds does not depend on the order in which the probes
/// of two addresses end.
pub proof fn lemma_records_commute(
    session: SessionView,
    first: Seq<char>,
    first_response: Option<u16>,
    second: Seq<char>,
    second_response: Option<u16>,
)
    requires
        session.wf(),
        first != second,
    ensures
        session.record(first, first_response).record(second, second_response) == session.record(
            second,
            second_response,
        ).record(first, first_response),
{
    let a = session.record(first, first_response);
    let b = session.record(second, second_response);
    lemma_record_keeps_wf(session, first, first_response);
    lemma_record_keeps_wf(session, second, second_response);
    lemma_record_fills_one_entry(session, first, first_response);
    lemma_record_fills_one_entry(session, second, second_response);
    lemma_record_fills_one_entry(a, second, second_response);
    lemma_record_fills_one_entry(b, first, first_response);
    let ab = a.record(second, second_response);
    let ba = b.record(first, first_response);
    assert(ab.probes =~= ba.probes);
}

/// What the session holds does not depend on whether a link is offered
/// before or after the probe of another address ends.
pub proof fn lemma_enter_commutes_with_record(
    session: SessionView,
    offered: LinkRef,
    url: Seq<char>,
    response: Option<u16>,
)
    requires
        session.wf(),
        offered.url != url,
    ensures
        session.enter(offered).record(url, response) == session.record(url, response).enter(
            offered,
        ),
{
    let entered = session.enter(offered);
    let recorded = session.record(url, response);
    lemma_enter_keeps_wf(session, offered);
    lemma_record_keeps_wf(session, url, response);
    lemma_record_fills_one_entry(session, url, response);
    lemma_record_fills_one_entry(entered, url, response);
    if met(session.probes, offered.url) {
        let k = choose|k: int|
            0 <= k < session.probes.len() && (#[trigger] session.probes[k]).link.url == offered.url;
        assert(recorded.probes[k].link.url == offered.url);
    }
    if met(recorded.probes, offered.url) {
        let k = choose|k: int|
            0 <= k < recorded.probes.len() && (#[trigger] recorded.probes[k]).link.url
                == offered.url;
        assert(session.probes[k].link.url == offered.url);
    }
    assert(entered.record(url, response).probes =~= recorded.enter(offered).probes);
}

} // verus!
