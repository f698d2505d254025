//! The crawl engine: frontier, visited set, and the per-URL step.
//!
//! The engine is a state machine. The host loop asks it for the next URL
//! to fetch, performs the fetch, and hands the outcome back; every
//! decision in between — the idempotent skip of visited URLs, link
//! filtering, resolution, scoping, failure classification, and the
//! sentinel discipline — is made here and verified. The messages the
//! engine instructs the loop to send are tracked as ghost state, so the
//! sentinel and duplicate-freedom laws are theorems about every run.

use vstd::prelude::*;
use crate::html::filter_denied;
use crate::html::find_links;
use crate::html::hrefs_of;
use crate::messages::ChannelMessage;
use crate::messages::found_urls_distinct;
use crate::messages::found_urls_in;
use crate::messages::no_done;
use crate::messages::sentinel_final;
use crate::scope::ScopeRule;
use crate::scope::in_scope;
use crate::text::str_eq;
use crate::urls::host_of;
use crate::urls::resolve_url;
use crate::urls::resolved;
use crate::urls::url_domain;

verus! {

/// The outcome of one fetch, as the host loop reports it: a page body,
/// an HTTP failure status, or a transport error with no status at all.
pub enum FetchEvent {
    Body(String),
    HttpStatus(u16),
    NetworkError,
}

/// Why a run aborted.
#[derive(Debug)]
pub enum CrawlError {
    /// The root URL names no domain, so no scope rule can be formed.
    NoRootDomain,
    /// A link on a fetched page did not resolve against the page's URL;
    /// the variant carries the offending href.
    BadLink(String),
    /// A fetch failed with something other than "not found"; the variant
    /// carries the URL and the HTTP status, if there was one.
    FetchFailed(String, Option<u16>),
}

/// What the host loop must do after handing the engine a fetch outcome.
pub enum StepOutcome {
    /// Keep crawling.
    Continue,
    /// Send `Found` with this URL on the channel, then keep crawling.
    Report(String),
    /// Abort the run.
    Failed(CrawlError),
}

/// Where the engine stands in its `Init -> Running -> Draining -> Done`
/// life, with the fatal abort as a terminal state of its own.
#[derive(Clone, Copy, PartialEq, Eq, Structural)]
pub enum Phase {
    /// Ready to hand out the next URL.
    Ready,
    /// A URL has been handed out and awaits its fetch outcome.
    Fetching,
    /// The frontier is exhausted; the sentinel is still owed.
    Drained,
    /// The sentinel has been issued; the run is complete.
    Finished,
    /// The run aborted on a fatal error.
    Failed,
}

/// A URL fit for the frontier: it names a domain, and that domain is in
/// scope under the rule that held when it was discovered.
pub open spec fn frontier_entry_ok(rule: ScopeRule, u: Seq<char>) -> bool {
    host_of(u) matches Some(d) && in_scope(rule, d)
}

/// Every URL of `s` is fit for the frontier under `rule`.
pub open spec fn entries_ok(rule: ScopeRule, s: Seq<Seq<char>>) -> bool {
    forall|i: int| 0 <= i < s.len() ==> frontier_entry_ok(rule, #[trigger] s[i])
}

/// No element of `s` occurs twice.
pub open spec fn no_dups(s: Seq<Seq<char>>) -> bool {
    forall|i: int, j: int| 0 <= i < j < s.len() ==> s[i] != s[j]
}

/// The frontier additions that one fetched page yields: its links (with
/// denied targets already dropped) resolved against the page's own URL,
/// kept when they name an in-scope domain and are not yet visited, in
/// link order. `None` when some link fails to resolve, which aborts the
/// run.
pub open spec fn process_links(
    rule: ScopeRule,
    base: Seq<char>,
    visited: Seq<Seq<char>>,
    links: Seq<Seq<char>>,
) -> Option<Seq<Seq<char>>>
    decreases links.len(),
{
    if links.len() == 0 {
        Some(Seq::empty())
    } else {
        match resolved(base, links.first()) {
            Option::None => None,
            Option::Some(abs) => match process_links(rule, base, visited, links.drop_first()) {
                Option::None => None,
                Option::Some(rest) => {
                    let keep = host_of(abs) matches Some(d) && in_scope(rule, d)
                        && !visited.contains(abs);
                    if keep {
                        Some(seq![abs] + rest)
                    } else {
                        Some(rest)
                    }
                },
            },
        }
    }
}

/// The crawl engine's whole state.
pub struct Engine {
    rule: ScopeRule,
    frontier: Vec<String>,
    visited: Vec<String>,
    current: Option<String>,
    phase: Phase,
    emitted: Ghost<Seq<ChannelMessage>>,
}

impl Engine {
    /// The scope rule the engine was built with; it never changes.
    pub closed spec fn rule_spec(self) -> ScopeRule {
        self.rule
    }

    /// The URLs awaiting a visit, oldest first; the engine pops from the
    /// end, so traversal is depth-first.
    pub closed spec fn frontier_urls(self) -> Seq<Seq<char>> {
        self.frontier.deep_view()
    }

    /// The URLs already fetched, in fetch order.
    pub closed spec fn visited_urls(self) -> Seq<Seq<char>> {
        self.visited.deep_view()
    }

    /// The URL handed out for fetching and not yet classified, if any.
    pub closed spec fn current_url(self) -> Option<Seq<char>> {
        self.current.deep_view()
    }

    /// The engine's phase.
    pub closed spec fn phase(self) -> Phase {
        self.phase
    }

    /// The messages the engine has instructed the host loop to send, in
    /// order.
    pub closed spec fn emitted(self) -> Seq<ChannelMessage> {
        self.emitted@
    }

    /// The engine's invariant: no URL is visited twice; every queued URL
    /// was in scope when discovered; the URL out for fetching is fresh;
    /// the sentinel is issued exactly once, last, and only when the run
    /// completes; and reported URLs are visited and pairwise distinct.
    pub closed spec fn wf(self) -> bool {
        &&& no_dups(self.visited_urls())
        &&& entries_ok(self.rule_spec(), self.frontier_urls())
        &&& (self.phase is Fetching <==> self.current_url() is Some)
        &&& (self.current_url() matches Some(u) ==> !self.visited_urls().contains(u)
            && frontier_entry_ok(self.rule_spec(), u))
        &&& ((self.phase is Drained || self.phase is Finished) ==> self.frontier_urls().len()
            == 0)
        &&& (self.phase is Finished ==> sentinel_final(self.emitted()))
        &&& (!(self.phase is Finished) ==> no_done(self.emitted()))
        &&& found_urls_in(self.emitted(), self.visited_urls())
        &&& found_urls_distinct(self.emitted())
    }

    /// The engine's phase, readable by the host loop.
    pub fn current_phase(&self) -> (r: Phase)
        ensures
            r == self.phase(),
    {
        self.phase
    }

    /// Builds an engine for a run from the root URL: the scope rule is
    /// the root's domain plus the optional fuzzy substring, the frontier
    /// holds the root alone, and nothing is visited or emitted yet. Fails
    /// exactly when the root URL names no domain.
    pub fn new(root_url: String, fuzzy: Option<String>) -> (r: Result<Engine, CrawlError>)
        ensures
            match r {
                Result::Ok(e) => {
                    &&& e.wf()
                    &&& host_of(root_url@) matches Some(d) && e.rule_spec().root_domain@ == d
                    &&& e.rule_spec().fuzzy == fuzzy
                    &&& e.frontier_urls() == seq![root_url@]
                    &&& e.visited_urls() == Seq::<Seq<char>>::empty()
                    &&& e.phase() is Ready
                    &&& e.emitted() == Seq::<ChannelMessage>::empty()
                },
                Result::Err(err) => err is NoRootDomain && host_of(root_url@) is None,
            },
    {
        match url_domain(root_url.as_str()) {
            Option::None => Err(CrawlError::NoRootDomain),
            Option::Some(domain) => {
                let rule = ScopeRule { root_domain: domain, fuzzy };
                let mut frontier: Vec<String> = Vec::new();
                frontier.push(root_url);
                let engine = Engine {
                    rule,
                    frontier,
                    visited: Vec::new(),
                    current: None,
                    phase: Phase::Ready,
                    emitted: Ghost(Seq::empty()),
                };
                proof {
                    assert(engine.frontier_urls() =~= seq![root_url@]);
                    assert(engine.visited_urls() =~= Seq::<Seq<char>>::empty());
                    assert forall|q: int|
                        0 <= q < engine.frontier_urls().len() implies frontier_entry_ok(
                        engine.rule_spec(),
                        #[trigger] engine.frontier_urls()[q],
                    ) by {
                        assert(engine.frontier_urls()[q] == root_url@);
                    }
                }
                Ok(engine)
            },
        }
    }

    /// Pops frontier entries until one is found that has not been visited
    /// yet — the idempotent skip: a re-discovered URL is discarded
    /// without a fetch and without a report — and hands it out for
    /// fetching. `None` means the frontier is exhausted and the run moves
    /// to its draining phase.
    pub fn next_to_fetch(&mut self) -> (r: Option<String>)
        requires
            old(self).wf(),
            old(self).phase() is Ready,
        ensures
            final(self).wf(),
            final(self).rule_spec() == old(self).rule_spec(),
            final(self).visited_urls() == old(self).visited_urls(),
            final(self).emitted() == old(self).emitted(),
            match r {
                Option::Some(u) => {
                    &&& final(self).phase() is Fetching
                    &&& final(self).current_url() == Some(u@)
                    &&& old(self).frontier_urls().contains(u@)
                    &&& !old(self).visited_urls().contains(u@)
                    &&& exists|k: int|
                        0 <= k < old(self).frontier_urls().len() && u@ == old(
                            self,
                        ).frontier_urls()[k] && final(self).frontier_urls() == old(
                            self,
                        ).frontier_urls().subrange(0, k) && (forall|j: int|
                            k < j < old(self).frontier_urls().len() ==> old(
                                self,
                            ).visited_urls().contains(#[trigger] old(self).frontier_urls()[j]))
                },
                Option::None => {
                    &&& final(self).phase() is Drained
                    &&& final(self).frontier_urls().len() == 0
                    &&& forall|j: int|
                        0 <= j < old(self).frontier_urls().len() ==> old(
                            self,
                        ).visited_urls().contains(#[trigger] old(self).frontier_urls()[j])
                },
            },
    {
        loop
            invariant
                self.wf(),
                self.phase is Ready,
                self.rule_spec() == old(self).rule_spec(),
                self.visited_urls() == old(self).visited_urls(),
                self.emitted() == old(self).emitted(),
                self.frontier_urls() == old(self).frontier_urls().subrange(
                    0,
                    self.frontier_urls().len() as int,
                ),
                self.frontier_urls().len() <= old(self).frontier_urls().len(),
                forall|j: int|
                    self.frontier_urls().len() <= j < old(self).frontier_urls().len() ==> old(
                        self,
                    ).visited_urls().contains(#[trigger] old(self).frontier_urls()[j]),
            decreases self.frontier@.len(),
        {
            let ghost pre = self.frontier.deep_view();
            match self.frontier.pop() {
                Option::None => {
                    self.phase = Phase::Drained;
                    return None;
                },
                Option::Some(u) => {
                    proof {
                        assert(self.frontier.deep_view() =~= pre.subrange(0, pre.len() - 1));
                        assert(self.frontier_urls() =~= old(self).frontier_urls().subrange(
                            0,
                            self.frontier_urls().len() as int,
                        ));
                        assert(u@ == pre[pre.len() - 1]);
                        assert(u@ == old(self).frontier_urls()[pre.len() - 1]);
                    }
                    if !contains_url(&self.visited, &u) {
                        self.current = Some(u.clone());
                        self.phase = Phase::Fetching;
                        proof {
                            let k = self.frontier_urls().len() as int;
                            assert(0 <= k < old(self).frontier_urls().len() && u@ == old(
                                self,
                            ).frontier_urls()[k] && self.frontier_urls() == old(
                                self,
                            ).frontier_urls().subrange(0, k) && (forall|j: int|
                                k < j < old(self).frontier_urls().len() ==> old(
                                    self,
                                ).visited_urls().contains(
                                    #[trigger] old(self).frontier_urls()[j],
                                )));
                            assert(old(self).frontier_urls().contains(u@));
                        }
                        return Some(u);
                    }
                },
            }
        }
    }

    /// Takes the URL that is out for fetching, leaving none.
    fn take_current(&mut self) -> (u: String)
        requires
            old(self).current_url() is Some,
        ensures
            u@ == old(self).current_url()->Some_0,
            final(self).current_url() is None,
            final(self).rule == old(self).rule,
            final(self).frontier == old(self).frontier,
            final(self).visited == old(self).visited,
            final(self).phase == old(self).phase,
            final(self).emitted@ == old(self).emitted@,
    {
        let mut taken: Option<String> = None;
        core::mem::swap(&mut self.current, &mut taken);
        match taken {
            Option::Some(u) => u,
            Option::None => vstd::pervasive::unreached(),
        }
    }

    /// Classifies the outcome of fetching the URL handed out last.
    ///
    /// A page body has its links extracted, filtered, resolved against
    /// the page's own URL and scoped; the new in-scope, unvisited ones
    /// join the frontier in link order, and a link that fails to resolve
    /// aborts the run. A "not found" status is the terminal
    /// classification of the URL: the engine instructs the host loop to
    /// report it. Any other failure aborts the run. In every case but the
    /// abort the URL joins the visited set.
    pub fn handle_fetch(&mut self, event: FetchEvent) -> (r: StepOutcome)
        requires
            old(self).wf(),
            old(self).phase() is Fetching,
        ensures
            final(self).wf(),
            final(self).rule_spec() == old(self).rule_spec(),
            final(self).current_url() is None,
            ({
                let u = old(self).current_url()->Some_0;
                match event {
                    FetchEvent::Body(html) => match process_links(
                        old(self).rule_spec(),
                        u,
                        old(self).visited_urls(),
                        filter_denied(hrefs_of(html@)),
                    ) {
                        Option::Some(adds) => {
                            &&& r is Continue
                            &&& final(self).phase() is Ready
                            &&& final(self).visited_urls() == old(self).visited_urls().push(u)
                            &&& final(self).frontier_urls() == old(self).frontier_urls() + adds
                            &&& final(self).emitted() == old(self).emitted()
                        },
                        Option::None => {
                            &&& r matches StepOutcome::Failed(e) && e matches CrawlError::BadLink(
                                href,
                            ) && resolved(u, href@) is None && filter_denied(
                                hrefs_of(html@),
                            ).contains(href@)
                            &&& final(self).phase() is Failed
                            &&& final(self).visited_urls() == old(self).visited_urls()
                            &&& final(self).emitted() == old(self).emitted()
                        },
                    },
                    FetchEvent::HttpStatus(status) => if status == 404 {
                        &&& r matches StepOutcome::Report(ru) && ru@ == u
                        &&& final(self).phase() is Ready
                        &&& final(self).visited_urls() == old(self).visited_urls().push(u)
                        &&& final(self).frontier_urls() == old(self).frontier_urls()
                        &&& final(self).emitted().len() == old(self).emitted().len() + 1
                        &&& final(self).emitted().drop_last() == old(self).emitted()
                        &&& final(self).emitted().last() is Found
                        &&& final(self).emitted().last()->Found_0@ == u
                    } else {
                        &&& r matches StepOutcome::Failed(e) && e matches CrawlError::FetchFailed(
                            url,
                            st,
                        ) && url@ == u && st == Some(status)
                        &&& final(self).phase() is Failed
                        &&& final(self).visited_urls() == old(self).visited_urls()
                        &&& final(self).emitted() == old(self).emitted()
                    },
                    FetchEvent::NetworkError => {
                        &&& r matches StepOutcome::Failed(e) && e matches CrawlError::FetchFailed(
                            url,
                            st,
                        ) && url@ == u && st is None
                        &&& final(self).phase() is Failed
                        &&& final(self).visited_urls() == old(self).visited_urls()
                        &&& final(self).emitted() == old(self).emitted()
                    },
                }
            }),
    {
        let u = self.take_current();
        match event {
            FetchEvent::Body(html) => {
                let links = find_links(html.as_str());
                let ghost lv = links.deep_view();
                let ghost vis = self.visited.deep_view();
                let mut adds: Vec<String> = Vec::new();
                let n = links.len();
                let mut i: usize = 0;
                proof {
                    assert(lv.skip(0) =~= lv);
                }
                while i < n
                    invariant
                        n == links@.len(),
                        lv == links.deep_view(),
                        lv == filter_denied(hrefs_of(html@)),
                        event is Body,
                        html == event->Body_0,
                        vis == self.visited.deep_view(),
                        i <= n,
                        u@ == old(self).current_url()->Some_0,
                        self.rule == old(self).rule,
                        self.frontier == old(self).frontier,
                        self.visited == old(self).visited,
                        self.phase == old(self).phase,
                        self.emitted@ == old(self).emitted@,
                        self.current_url() is None,
                        old(self).wf(),
                        old(self).phase() is Fetching,
                        match process_links(self.rule, u@, vis, lv.skip(i as int)) {
                            Option::None => process_links(self.rule, u@, vis, lv) is None,
                            Option::Some(rest) => process_links(self.rule, u@, vis, lv) == Some(
                                adds.deep_view() + rest,
                            ),
                        },
                    decreases n - i,
                {
                    let ghost pre_adds = adds.deep_view();
                    let link = &links[i];
                    proof {
                        assert(lv[i as int] == link@);
                        assert(lv.skip(i as int).first() == link@);
                        assert(lv.skip(i as int).drop_first() =~= lv.skip(i + 1));
                    }
                    match resolve_url(u.as_str(), link.as_str()) {
                        Option::None => {
                            self.phase = Phase::Failed;
                            proof {
                                assert(process_links(self.rule, u@, vis, lv.skip(i as int))
                                    is None);
                                assert(process_links(self.rule, u@, vis, lv) is None);
                                assert(lv.contains(link@));
                            }
                            return StepOutcome::Failed(CrawlError::BadLink(link.clone()));
                        },
                        Option::Some(abs) => {
                            let keep = match url_domain(abs.as_str()) {
                                Option::None => false,
                                Option::Some(domain) => self.rule.admits(domain.as_str())
                                    && !contains_url(&self.visited, &abs),
                            };
                            if keep {
                                adds.push(abs);
                                proof {
                                    assert(adds.deep_view() =~= pre_adds.push(
                                        resolved(u@, link@)->Some_0,
                                    ));
                                    assert(pre_adds.push(resolved(u@, link@)->Some_0) + (
                                    process_links(self.rule, u@, vis, lv.skip(i + 1))->Some_0)
                                        =~= pre_adds + (seq![resolved(u@, link@)->Some_0]
                                        + (process_links(self.rule, u@, vis, lv.skip(i + 1))
                                            ->Some_0)));
                                }
                            }
                        },
                    }
                    i += 1;
                }
                proof {
                    assert(lv.skip(n as int) =~= Seq::<Seq<char>>::empty());
                    assert(adds.deep_view() + Seq::<Seq<char>>::empty() =~= adds.deep_view());
                }
                let ghost pre_frontier = self.frontier.deep_view();
                let ghost pre_visited = self.visited.deep_view();
                let ghost added = adds.deep_view();
                self.frontier.append(&mut adds);
                self.visited.push(u);
                self.phase = Phase::Ready;
                proof {
                    assert(self.frontier.deep_view() =~= pre_frontier + added);
                    assert(self.visited.deep_view() =~= pre_visited.push(u@));
                    lemma_visit_preserves(old(self).emitted@, pre_visited, u@);
                    assert(pre_frontier == old(self).frontier_urls());
                    assert(entries_ok(self.rule, pre_frontier));
                    lemma_process_links_entries(self.rule, u@, vis, lv);
                    assert(process_links(self.rule, u@, vis, lv) == Some(added));
                    assert(entries_ok(self.rule, added));
                    lemma_entries_ok_concat(self.rule, pre_frontier, added);
                }
                StepOutcome::Continue
            },
            FetchEvent::HttpStatus(status) => {
                if status == 404 {
                    let reported = u.clone();
                    let ghost pre_visited = self.visited.deep_view();
                    proof {
                        self.emitted@ = self.emitted@.push(ChannelMessage::Found(reported));
                        assert(self.emitted@.drop_last() =~= old(self).emitted@);
                    }
                    self.visited.push(u);
                    self.phase = Phase::Ready;
                    proof {
                        assert(self.visited.deep_view() =~= pre_visited.push(reported@));
                        lemma_report_preserves(old(self).emitted@, pre_visited, reported);
                    }
                    StepOutcome::Report(reported)
                } else {
                    self.phase = Phase::Failed;
                    StepOutcome::Failed(CrawlError::FetchFailed(u, Some(status)))
                }
            },
            FetchEvent::NetworkError => {
                self.phase = Phase::Failed;
                StepOutcome::Failed(CrawlError::FetchFailed(u, None))
            },
        }
    }

    /// Issues the completion sentinel once the frontier is exhausted; the
    /// run is complete and nothing follows the sentinel.
    pub fn finish(&mut self) -> (msg: ChannelMessage)
        requires
            old(self).wf(),
            old(self).phase() is Drained,
        ensures
            final(self).wf(),
            msg is Done,
            final(self).phase() is Finished,
            final(self).rule_spec() == old(self).rule_spec(),
            final(self).visited_urls() == old(self).visited_urls(),
            final(self).emitted() == old(self).emitted().push(ChannelMessage::Done),
            sentinel_final(final(self).emitted()),
    {
        self.phase = Phase::Finished;
        proof {
            self.emitted@ = self.emitted@.push(ChannelMessage::Done);
            assert(self.emitted@.drop_last() =~= old(self).emitted@);
        }
        ChannelMessage::Done
    }
}

/// No duplicate visits: in every reachable engine state, a URL stands in
/// the visited set at most once. Together with `next_to_fetch`, which
/// only hands out URLs not yet in the visited set, and `handle_fetch`,
/// which adds the handed-out URL to it, this means every URL is fetched
/// at most once in a run.
pub proof fn lemma_no_duplicate_visits(e: Engine)
    requires
        e.wf(),
    ensures
        forall|i: int, j: int|
            0 <= i < j < e.visited_urls().len() ==> e.visited_urls()[i] != e.visited_urls()[j],
{
}

/// Scope monotonicity: every URL standing in the frontier satisfied the
/// scope rule at the time it was discovered. The rule never changes
/// within a run — every engine method keeps `rule_spec` — so no later
/// choice of fuzzy substring can retroactively affect an already-queued
/// URL.
pub proof fn lemma_scope_monotonicity(e: Engine, i: int)
    requires
        e.wf(),
        0 <= i < e.frontier_urls().len(),
    ensures
        frontier_entry_ok(e.rule_spec(), e.frontier_urls()[i]),
{
}

/// Sentinel finality: once a run has completed, the sentinel is the last
/// instructed message and stands nowhere else; before completion it has
/// never been instructed at all.
pub proof fn lemma_sentinel_finality(e: Engine)
    requires
        e.wf(),
    ensures
        e.phase() is Finished ==> sentinel_final(e.emitted()),
        !(e.phase() is Finished) ==> no_done(e.emitted()),
{
}

/// Idempotent skip: however often a URL is re-discovered through further
/// links, no two `Found` messages of a run carry the same URL, so no
/// duplicate failure record can ever be produced; and every reported URL
/// is one that was actually visited.
pub proof fn lemma_idempotent_skip(e: Engine)
    requires
        e.wf(),
    ensures
        found_urls_distinct(e.emitted()),
        found_urls_in(e.emitted(), e.visited_urls()),
{
}

/// Membership of a URL in a vector of URLs, compared character for
/// character.
fn contains_url(v: &Vec<String>, u: &String) -> (r: bool)
    ensures
        r == v.deep_view().contains(u@),
{
    let n = v.len();
    let mut i: usize = 0;
    while i < n
        invariant
            n == v@.len(),
            i <= n,
            forall|j: int| 0 <= j < i ==> v.deep_view()[j] != u@,
        decreases n - i,
    {
        if str_eq(v[i].as_str(), u.as_str()) {
            proof {
                assert(v.deep_view()[i as int] == u@);
            }
            return true;
        }
        i += 1;
    }
    proof {
        assert(!v.deep_view().contains(u@));
    }
    false
}

/// Fitness of frontier entries survives concatenation.
proof fn lemma_entries_ok_concat(rule: ScopeRule, a: Seq<Seq<char>>, b: Seq<Seq<char>>)
    requires
        entries_ok(rule, a),
        entries_ok(rule, b),
    ensures
        entries_ok(rule, a + b),
{
    assert forall|i: int| 0 <= i < (a + b).len() implies frontier_entry_ok(
        rule,
        #[trigger] (a + b)[i],
    ) by {
        if i < a.len() {
            assert((a + b)[i] == a[i]);
        } else {
            assert((a + b)[i] == b[i - a.len()]);
        }
    }
}

/// Every addition a page yields is fit for the frontier: it resolved,
/// it names a domain, and that domain is in scope.
proof fn lemma_process_links_entries(
    rule: ScopeRule,
    base: Seq<char>,
    visited: Seq<Seq<char>>,
    links: Seq<Seq<char>>,
)
    ensures
        process_links(rule, base, visited, links) matches Some(adds) ==> entries_ok(rule, adds),
    decreases links.len(),
{
    if links.len() > 0 {
        match resolved(base, links.first()) {
            Option::None => {},
            Option::Some(abs) => {
                lemma_process_links_entries(rule, base, visited, links.drop_first());
                match process_links(rule, base, visited, links.drop_first()) {
                    Option::None => {},
                    Option::Some(rest) => {
                        if host_of(abs) matches Some(d) && in_scope(rule, d) && !visited.contains(
                            abs,
                        ) {
                            assert forall|i: int| 0 <= i < (seq![abs] + rest).len()
                                implies frontier_entry_ok(
                                rule,
                                #[trigger] (seq![abs] + rest)[i],
                            ) by {
                                if i == 0 {
                                    assert((seq![abs] + rest)[i] == abs);
                                } else {
                                    assert((seq![abs] + rest)[i] == rest[i - 1]);
                                }
                            }
                        }
                    },
                }
            },
        }
    }
}

/// Membership in a sequence of URLs survives appending one more.
proof fn lemma_contains_push(s: Seq<Seq<char>>, x: Seq<char>, y: Seq<char>)
    requires
        s.contains(x),
    ensures
        s.push(y).contains(x),
{
    let i = choose|i: int| 0 <= i < s.len() && s[i] == x;
    assert(s.push(y)[i] == x);
}

/// Visiting a fresh URL keeps every invariant that ties the emitted
/// messages to the visited set.
proof fn lemma_visit_preserves(msgs: Seq<ChannelMessage>, visited: Seq<Seq<char>>, u: Seq<char>)
    requires
        no_dups(visited),
        !visited.contains(u),
        found_urls_in(msgs, visited),
    ensures
        no_dups(visited.push(u)),
        found_urls_in(msgs, visited.push(u)),
{
    let v2 = visited.push(u);
    assert forall|i: int, j: int| 0 <= i < j < v2.len() implies v2[i] != v2[j] by {
        if j < visited.len() {
            assert(v2[i] == visited[i] && v2[j] == visited[j]);
        } else {
            assert(v2[j] == u && v2[i] == visited[i]);
            assert(visited.contains(visited[i]));
        }
    }
    assert forall|i: int|
        0 <= i < msgs.len() && (#[trigger] msgs[i]) is Found implies v2.contains(
        msgs[i]->Found_0@,
    ) by {
        lemma_contains_push(visited, msgs[i]->Found_0@, u);
    }
}

/// Reporting a fresh URL and visiting it keeps the sentinel and
/// duplicate-freedom invariants on the emitted messages.
proof fn lemma_report_preserves(msgs: Seq<ChannelMessage>, visited: Seq<Seq<char>>, ru: String)
    requires
        no_dups(visited),
        !visited.contains(ru@),
        found_urls_in(msgs, visited),
        found_urls_distinct(msgs),
        no_done(msgs),
    ensures
        no_dups(visited.push(ru@)),
        no_done(msgs.push(ChannelMessage::Found(ru))),
        found_urls_in(msgs.push(ChannelMessage::Found(ru)), visited.push(ru@)),
        found_urls_distinct(msgs.push(ChannelMessage::Found(ru))),
{
    let m2 = msgs.push(ChannelMessage::Found(ru));
    let v2 = visited.push(ru@);
    lemma_visit_preserves(msgs, visited, ru@);
    assert forall|i: int| 0 <= i < m2.len() implies !((#[trigger] m2[i]) is Done) by {
        if i < msgs.len() {
            assert(m2[i] == msgs[i]);
        } else {
            assert(m2[i] == ChannelMessage::Found(ru));
        }
    }
    assert forall|i: int|
        0 <= i < m2.len() && (#[trigger] m2[i]) is Found implies v2.contains(
        m2[i]->Found_0@,
    ) by {
        if i < msgs.len() {
            assert(m2[i] == msgs[i]);
        } else {
            assert(m2[i]->Found_0@ == ru@);
            assert(v2[visited.len() as int] == ru@);
        }
    }
    assert forall|i: int, j: int|
        0 <= i < j < m2.len() && (#[trigger] m2[i]) is Found && (#[trigger] m2[j])
            is Found implies m2[i]->Found_0@ != m2[j]->Found_0@ by {
        if j < msgs.len() {
            assert(m2[i] == msgs[i] && m2[j] == msgs[j]);
        } else {
            assert(m2[j]->Found_0@ == ru@);
            assert(m2[i] == msgs[i]);
            assert(visited.contains(msgs[i]->Found_0@));
        }
    }
}

} // verus!
