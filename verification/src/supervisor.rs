//! The supervisor: the channel's single consumer.
//!
//! The supervisor runs concurrently with the crawl engine and decides
//! when the whole run is over. Each turn of its loop races the next
//! channel message against an external cancellation signal; the decision
//! taken on whatever arrives first is made here and verified. The events
//! the supervisor has observed are kept as ghost state, so that what the
//! record list contains — and that nothing is observed after the
//! sentinel — are theorems about every run.

use vstd::prelude::*;
use crate::messages::ChannelMessage;
use crate::messages::FailureRecord;

verus! {

/// What one turn of the supervising loop observed: a channel message, an
/// unexpectedly closed channel, or the cancellation signal.
pub enum SupervisorEvent {
    Message(ChannelMessage),
    Closed,
    Cancelled,
}

/// How a run ended.
#[derive(Clone, Copy, PartialEq, Eq, Structural, Debug)]
pub enum Termination {
    /// The sentinel arrived: the expected, clean path.
    Clean,
    /// The channel closed without a sentinel: the engine aborted;
    /// unexpected but non-fatal.
    ChannelClosed,
    /// The external cancellation signal fired; partial results are valid.
    Cancelled,
}

/// The event reports one more broken link and lets the loop go on.
pub open spec fn found_event(e: SupervisorEvent) -> bool {
    e matches SupervisorEvent::Message(m) && m is Found
}

/// The URL a reporting event carries.
pub open spec fn event_url(e: SupervisorEvent) -> Seq<char> {
    (e->Message_0)->Found_0@
}

/// The event stops the loop with the given termination.
pub open spec fn terminal_for(e: SupervisorEvent, t: Termination) -> bool {
    match t {
        Termination::Clean => e matches SupervisorEvent::Message(m) && m is Done,
        Termination::ChannelClosed => e is Closed,
        Termination::Cancelled => e is Cancelled,
    }
}

/// The URLs of the reporting events among `events`, in order.
pub open spec fn found_urls(events: Seq<SupervisorEvent>) -> Seq<Seq<char>>
    decreases events.len(),
{
    if events.len() == 0 {
        Seq::empty()
    } else {
        let rest = found_urls(events.drop_last());
        if found_event(events.last()) {
            rest.push(event_url(events.last()))
        } else {
            rest
        }
    }
}

/// The URLs of a record list, in order.
pub open spec fn record_urls(records: Seq<FailureRecord>) -> Seq<Seq<char>> {
    Seq::new(records.len(), |i: int| records[i].url@)
}

/// The supervisor's state: the failure records accumulated so far and,
/// once the loop has stopped, why it stopped.
pub struct Supervisor {
    records: Vec<FailureRecord>,
    outcome: Option<Termination>,
    observed: Ghost<Seq<SupervisorEvent>>,
}

impl Supervisor {
    /// The records accumulated so far, in arrival order.
    pub closed spec fn records_seq(self) -> Seq<FailureRecord> {
        self.records@
    }

    /// Why the loop stopped, if it has.
    pub closed spec fn outcome_spec(self) -> Option<Termination> {
        self.outcome
    }

    /// The events observed so far, in arrival order.
    pub closed spec fn observed_events(self) -> Seq<SupervisorEvent> {
        self.observed@
    }

    /// The loop has stopped and observes nothing further.
    pub open spec fn finished(self) -> bool {
        self.outcome_spec() is Some
    }

    /// The supervisor's invariant: the record list holds exactly the
    /// URLs of the reports observed so far; while the loop runs every
    /// observation so far was a report; once it has stopped, the one
    /// stopping event stands last; and titles stay absent.
    pub closed spec fn wf(self) -> bool {
        &&& record_urls(self.records_seq()) == found_urls(self.observed_events())
        &&& (forall|i: int|
            0 <= i < self.records_seq().len() ==> (#[trigger] self.records_seq()[i]).title
                is None)
        &&& match self.outcome_spec() {
            Option::None => forall|i: int|
                0 <= i < self.observed_events().len() ==> found_event(
                    #[trigger] self.observed_events()[i],
                ),
            Option::Some(t) => self.observed_events().len() > 0 && terminal_for(
                self.observed_events().last(),
                t,
            ) && (forall|i: int|
                0 <= i < self.observed_events().len() - 1 ==> found_event(
                    #[trigger] self.observed_events()[i],
                )),
        }
    }

    /// A supervisor that has observed nothing.
    pub fn new() -> (r: Supervisor)
        ensures
            r.wf(),
            !r.finished(),
            r.records_seq() == Seq::<FailureRecord>::empty(),
            r.observed_events() == Seq::<SupervisorEvent>::empty(),
    {
        let s = Supervisor { records: Vec::new(), outcome: None, observed: Ghost(Seq::empty()) };
        proof {
            assert(s.records_seq() =~= Seq::<FailureRecord>::empty());
            assert(record_urls(s.records_seq()) =~= found_urls(s.observed_events()));
        }
        s
    }

    /// One turn of the supervising loop. A reported URL is appended as a
    /// failure record and the loop goes on; the sentinel, a closed
    /// channel, or the cancellation signal each stop the loop, keeping
    /// exactly the records accumulated so far — cancellation never loses
    /// or invents a partial record.
    pub fn step(&mut self, event: SupervisorEvent) -> (proceed: bool)
        requires
            old(self).wf(),
            !old(self).finished(),
        ensures
            final(self).wf(),
            proceed == !final(self).finished(),
            final(self).observed_events() == old(self).observed_events().push(event),
            match event {
                SupervisorEvent::Message(m) => match m {
                    ChannelMessage::Found(u) => {
                        &&& proceed
                        &&& final(self).records_seq().len() == old(self).records_seq().len() + 1
                        &&& final(self).records_seq().drop_last() == old(self).records_seq()
                        &&& final(self).records_seq().last().url == u
                        &&& final(self).records_seq().last().title is None
                    },
                    ChannelMessage::Done => {
                        &&& !proceed
                        &&& final(self).outcome_spec() == Some(Termination::Clean)
                        &&& final(self).records_seq() == old(self).records_seq()
                    },
                },
                SupervisorEvent::Closed => {
                    &&& !proceed
                    &&& final(self).outcome_spec() == Some(Termination::ChannelClosed)
                    &&& final(self).records_seq() == old(self).records_seq()
                },
                SupervisorEvent::Cancelled => {
                    &&& !proceed
                    &&& final(self).outcome_spec() == Some(Termination::Cancelled)
                    &&& final(self).records_seq() == old(self).records_seq()
                },
            },
    {
        proof {
            self.observed@ = self.observed@.push(event);
            assert(self.observed@.drop_last() =~= old(self).observed@);
            assert forall|i: int|
                0 <= i < self.observed@.len() - 1 implies found_event(
                #[trigger] self.observed@[i],
            ) by {
                assert(self.observed@[i] == old(self).observed@[i]);
            }
        }
        match event {
            SupervisorEvent::Message(ChannelMessage::Found(u)) => {
                let ghost pre = self.records@;
                self.records.push(FailureRecord { url: u, title: None });
                proof {
                    assert(self.records@.drop_last() =~= pre);
                    assert forall|i: int|
                        0 <= i < self.records@.len() implies (#[trigger] self.records@[i]).title
                        is None by {
                        if i < pre.len() {
                            assert(self.records@[i] == pre[i]);
                        }
                    }
                    assert(record_urls(self.records@) =~= record_urls(pre).push(u@));
                }
                true
            },
            SupervisorEvent::Message(ChannelMessage::Done) => {
                self.outcome = Some(Termination::Clean);
                false
            },
            SupervisorEvent::Closed => {
                self.outcome = Some(Termination::ChannelClosed);
                false
            },
            SupervisorEvent::Cancelled => {
                self.outcome = Some(Termination::Cancelled);
                false
            },
        }
    }

    /// Why the loop stopped, if it has.
    pub fn termination(&self) -> (r: Option<Termination>)
        ensures
            r == self.outcome_spec(),
    {
        self.outcome
    }

    /// Hands the accumulated records onward to persistence.
    pub fn into_records(self) -> (r: Vec<FailureRecord>)
        ensures
            r@ == self.records_seq(),
    {
        self.records
    }
}

/// Sentinel finality, as the consumer sees it: when a run ends cleanly,
/// the sentinel is the last event the supervisor ever observed, every
/// earlier observation was a report — no report is observed after the
/// sentinel — and a finished supervisor refuses further observations.
pub proof fn lemma_done_observed_last(s: Supervisor)
    requires
        s.wf(),
        s.outcome_spec() == Some(Termination::Clean),
    ensures
        s.observed_events().len() > 0,
        terminal_for(s.observed_events().last(), Termination::Clean),
        forall|i: int|
            0 <= i < s.observed_events().len() - 1 ==> found_event(
                #[trigger] s.observed_events()[i],
            ),
{
}

/// The record list never lags or leads the observations: in every
/// reachable supervisor state it holds exactly the URLs of the reports
/// observed so far, in order — so stopping on cancellation keeps exactly
/// the records accumulated by then, with no partial extra record.
pub proof fn lemma_records_match_observations(s: Supervisor)
    requires
        s.wf(),
    ensures
        record_urls(s.records_seq()) == found_urls(s.observed_events()),
{
}

} // verus!
