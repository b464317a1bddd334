//! The collector and responder loops: the shared metric registry, the
//! fail-fast startup over configured counters, the per-tick update rule,
//! and the two tasks' stop-flag decisions.
//!
//! Two long-lived tasks share the registry and one cooperative stop flag:
//! the collector is the sole writer, the responder snapshots and serves.
//! The waiting, sleeping and serving happen outside the library; every
//! decision both loops make is a function here, so that a set stop flag
//! stops each task at its very next decision.

use vstd::prelude::*;

use crate::error::PdhError;
use crate::query::FormattedValue;
use crate::query::PdhCounter;
use crate::query::PdhQuery;
use crate::query::ValueKind;
use crate::stream::CounterStream;

verus! {

/// One metric: a name fixed at startup, an instance label fixed at startup
/// (empty when the path was not wildcard-expanded), and the most recent
/// reading, absent until the first successful tick.
pub struct MetricEntry {
    /// The metric's name.
    pub name: String,
    /// The instance label, or empty for none.
    pub instance: String,
    /// The most recent reading, if any tick has succeeded yet.
    pub value: Option<FormattedValue>,
}

/// The shared registry: one entry per configured counter, created at
/// startup, never added to or removed from afterwards. The collector is the
/// only writer; the responder reads a snapshot.
pub struct MetricRegistry {
    /// The entries, in configuration order.
    pub entries: Vec<MetricEntry>,
}

impl MetricRegistry {
    /// A registry with one unpopulated entry per configured (name,
    /// instance label) pair, in configuration order.
    pub fn new(labels: &Vec<(String, String)>) -> (r: Self)
        ensures
            r.entries@.len() == labels@.len(),
            forall|k: int|
                0 <= k < labels@.len() ==> (#[trigger] r.entries@[k]).name == labels@[k].0
                    && r.entries@[k].instance == labels@[k].1 && r.entries@[k].value is None,
    {
        let mut entries: Vec<MetricEntry> = Vec::new();
        let mut i: usize = 0;
        while i < labels.len()
            invariant
                i <= labels@.len(),
                entries@.len() == i,
                forall|k: int|
                    0 <= k < i ==> (#[trigger] entries@[k]).name == labels@[k].0
                        && entries@[k].instance == labels@[k].1 && entries@[k].value is None,
            decreases labels@.len() - i,
        {
            let name = labels[i].0.clone();
            let instance = labels[i].1.clone();
            entries.push(MetricEntry { name, instance, value: None });
            i += 1;
        }
        MetricRegistry { entries }
    }

    /// How many entries the registry holds; fixed for the process lifetime.
    pub fn len(&self) -> (r: usize)
        ensures
            r == self.entries@.len(),
    {
        self.entries.len()
    }

    /// Writes one reading into one entry, touching nothing else.
    pub fn set_value(&mut self, i: usize, v: FormattedValue)
        requires
            i < old(self).entries@.len(),
        ensures
            final(self).entries@.len() == old(self).entries@.len(),
            final(self).entries@[i as int].name == old(self).entries@[i as int].name,
            final(self).entries@[i as int].instance == old(self).entries@[i as int].instance,
            final(self).entries@[i as int].value == Some(v),
            forall|k: int|
                0 <= k < old(self).entries@.len() && k != i ==> final(self).entries@[k] == old(
                    self,
                ).entries@[k],
    {
        let name = self.entries[i].name.clone();
        let instance = self.entries[i].instance.clone();
        let entry = MetricEntry { name, instance, value: Some(v) };
        self.entries[i] = entry;
    }

    /// A by-value copy of every entry, for the responder to render from: a
    /// reader holds only the snapshot, never the registry.
    pub fn snapshot(&self) -> (r: Vec<MetricEntry>)
        ensures
            r@.len() == self.entries@.len(),
            forall|k: int|
                0 <= k < r@.len() ==> (#[trigger] r@[k]).name == self.entries@[k].name
                    && r@[k].instance == self.entries@[k].instance && r@[k].value
                    == self.entries@[k].value,
    {
        let mut r: Vec<MetricEntry> = Vec::new();
        let mut i: usize = 0;
        while i < self.entries.len()
            invariant
                i <= self.entries@.len(),
                r@.len() == i,
                forall|k: int|
                    0 <= k < i ==> (#[trigger] r@[k]).name == self.entries@[k].name
                        && r@[k].instance == self.entries@[k].instance && r@[k].value
                        == self.entries@[k].value,
            decreases self.entries@.len() - i,
        {
            let name = self.entries[i].name.clone();
            let instance = self.entries[i].instance.clone();
            let value = self.entries[i].value;
            r.push(MetricEntry { name, instance, value });
            i += 1;
        }
        r
    }
}

/// Applies one tick's outcomes, one per entry in configuration order: an
/// entry whose stream succeeded takes the new reading, an entry whose
/// stream failed keeps its prior value, and names and labels never change.
pub fn apply_tick(registry: &mut MetricRegistry, outcomes: &Vec<Result<FormattedValue, PdhError>>)
    requires
        outcomes@.len() == old(registry).entries@.len(),
    ensures
        final(registry).entries@.len() == old(registry).entries@.len(),
        forall|k: int|
            0 <= k < outcomes@.len() ==> {
                &&& (#[trigger] final(registry).entries@[k]).name
                    == old(registry).entries@[k].name
                &&& final(registry).entries@[k].instance == old(registry).entries@[k].instance
                &&& (outcomes@[k] is Ok ==> final(registry).entries@[k].value == Some(
                    outcomes@[k]->Ok_0,
                ))
                &&& (outcomes@[k] is Err ==> final(registry).entries@[k].value == old(
                    registry,
                ).entries@[k].value)
            },
{
    let mut i: usize = 0;
    while i < outcomes.len()
        invariant
            outcomes@.len() == old(registry).entries@.len(),
            i <= outcomes@.len(),
            registry.entries@.len() == old(registry).entries@.len(),
            forall|k: int|
                i <= k < outcomes@.len() ==> #[trigger] registry.entries@[k] == old(
                    registry,
                ).entries@[k],
            forall|k: int|
                0 <= k < i ==> {
                    &&& (#[trigger] registry.entries@[k]).name == old(registry).entries@[k].name
                    &&& registry.entries@[k].instance == old(registry).entries@[k].instance
                    &&& (outcomes@[k] is Ok ==> registry.entries@[k].value == Some(
                        outcomes@[k]->Ok_0,
                    ))
                    &&& (outcomes@[k] is Err ==> registry.entries@[k].value == old(
                        registry,
                    ).entries@[k].value)
                },
        decreases outcomes@.len() - i,
    {
        match &outcomes[i] {
            Ok(v) => {
                registry.set_value(i, *v);
            },
            Err(_) => {},
        }
        i += 1;
    }
}

/// The first attach failure among the configured pairs, in configuration
/// order, if any pair failed to attach.
pub open spec fn spec_first_attach_error(outcomes: Seq<Result<PdhCounter, PdhError>>) -> Option<
    PdhError,
>
    decreases outcomes.len(),
{
    if outcomes.len() == 0 {
        None
    } else {
        match outcomes[0] {
            Err(e) => Some(e),
            Ok(_) => spec_first_attach_error(outcomes.drop_first()),
        }
    }
}

/// Builds the collector's fixed set of streams from the attach outcome of
/// every configured pair, fail-fast: one stream per pair, in order, with
/// the given pacing and representation — or the first attach failure, with
/// no streams at all, since a misconfigured path is a deployment error.
pub fn build_streams<'a>(
    query: &'a PdhQuery,
    kind: ValueKind,
    delay_ms: Option<u64>,
    attach_outcomes: Vec<Result<PdhCounter, PdhError>>,
) -> (r: Result<Vec<CounterStream<'a>>, PdhError>)
    requires
        forall|k: int|
            0 <= k < attach_outcomes@.len() && attach_outcomes@[k] is Ok ==> (
            #[trigger] attach_outcomes@[k])->Ok_0.query == query.handle,
    ensures
        spec_first_attach_error(attach_outcomes@) matches Some(e) ==> r == Err::<
            Vec<CounterStream<'a>>,
            PdhError,
        >(e),
        spec_first_attach_error(attach_outcomes@) is None ==> r is Ok
            && r->Ok_0@.len() == attach_outcomes@.len() && forall|k: int|
            0 <= k < attach_outcomes@.len() ==> (#[trigger] r->Ok_0@[k]).wf()
                && r->Ok_0@[k].counter == attach_outcomes@[k]->Ok_0 && r->Ok_0@[k].delay_ms
                == delay_ms && r->Ok_0@[k].kind == kind && r->Ok_0@[k].query == query,
{
    let ghost outs = attach_outcomes@;
    let mut remaining = attach_outcomes;
    let mut streams: Vec<CounterStream<'a>> = Vec::new();
    proof {
        assert(outs.skip(0) =~= outs);
    }
    while remaining.len() > 0
        invariant
            outs == attach_outcomes@,
            streams@.len() + remaining@.len() == outs.len(),
            remaining@ == outs.skip(streams@.len() as int),
            spec_first_attach_error(outs) == spec_first_attach_error(remaining@),
            forall|k: int|
                0 <= k < outs.len() && outs[k] is Ok ==> (#[trigger] outs[k])->Ok_0.query
                    == query.handle,
            forall|k: int| 0 <= k < streams@.len() ==> #[trigger] outs[k] is Ok,
            forall|k: int|
                0 <= k < streams@.len() ==> (#[trigger] streams@[k]).wf() && streams@[k].counter
                    == outs[k]->Ok_0 && streams@[k].delay_ms == delay_ms && streams@[k].kind
                    == kind && streams@[k].query == query,
        decreases remaining@.len(),
    {
        let ghost done = streams@.len() as int;
        proof {
            assert(remaining@[0] == outs[done]);
            assert(remaining@.drop_first() =~= outs.skip(done + 1));
        }
        let ghost before = remaining@;
        let head = remaining.remove(0);
        match head {
            Err(e) => {
                proof {
                    assert(before[0] == Err::<PdhCounter, PdhError>(e));
                    assert(spec_first_attach_error(before) == Some(e));
                }
                return Err(e);
            },
            Ok(counter) => {
                let stream = CounterStream::new(query, counter, kind);
                let stream = match delay_ms {
                    Some(d) => stream.with_delay(d),
                    None => stream,
                };
                streams.push(stream);
            },
        }
    }
    proof {
        assert(remaining@.len() == 0);
        assert(spec_first_attach_error(remaining@) is None);
    }
    Ok(streams)
}

/// The responder task's control states.
#[derive(Clone, Copy, Debug, PartialEq, Eq, Structural)]
pub enum ResponderState {
    /// Waiting, with a short bounded timeout, for an incoming request.
    WaitingForRequest,
    /// Serving one request from a registry snapshot.
    Handling,
    /// Exited after observing the stop flag.
    Stopped,
}

/// What one bounded wait for a request reported.
#[derive(Clone, Copy, Debug, PartialEq, Eq, Structural)]
pub enum WaitOutcome {
    /// A request arrived.
    Request,
    /// The wait timed out with no request.
    TimedOut,
    /// The wait failed; the failure is logged and waiting resumes.
    Failed,
}

/// What the responder does next.
#[derive(Clone, Copy, Debug, PartialEq, Eq, Structural)]
pub enum ResponderAction {
    /// Wait again, with the short bounded timeout.
    Wait,
    /// Snapshot the registry, render it, and reply.
    Reply,
    /// Exit the task without error.
    Exit,
}

/// The responder's decision function.
pub open spec fn spec_responder_step(stop: bool, event: WaitOutcome) -> (
    ResponderState,
    ResponderAction,
) {
    if stop {
        (ResponderState::Stopped, ResponderAction::Exit)
    } else {
        match event {
            WaitOutcome::Request => (ResponderState::Handling, ResponderAction::Reply),
            WaitOutcome::TimedOut => (
                ResponderState::WaitingForRequest,
                ResponderAction::Wait,
            ),
            WaitOutcome::Failed => (ResponderState::WaitingForRequest, ResponderAction::Wait),
        }
    }
}

/// Decides the responder's next move from the stop flag and the last wait's
/// outcome: the stop flag wins over everything, a request is served, and a
/// timeout or failed wait loops back to waiting. The wait's bound is what
/// keeps the flag checked promptly even under no traffic.
pub fn responder_step(stop: bool, event: WaitOutcome) -> (r: (ResponderState, ResponderAction))
    ensures
        r == spec_responder_step(stop, event),
        stop ==> r == (ResponderState::Stopped, ResponderAction::Exit),
{
    if stop {
        (ResponderState::Stopped, ResponderAction::Exit)
    } else {
        match event {
            WaitOutcome::Request => (ResponderState::Handling, ResponderAction::Reply),
            WaitOutcome::TimedOut => (ResponderState::WaitingForRequest, ResponderAction::Wait),
            WaitOutcome::Failed => (ResponderState::WaitingForRequest, ResponderAction::Wait),
        }
    }
}

/// The collector task's control states.
#[derive(Clone, Copy, Debug, PartialEq, Eq, Structural)]
pub enum CollectorState {
    /// Reading every configured stream once, in order.
    Polling,
    /// Sleeping out the configured interval before the next tick.
    Sleeping,
    /// Exited after observing the stop flag.
    Stopped,
}

/// What the collector does next.
#[derive(Clone, Copy, Debug, PartialEq, Eq, Structural)]
pub enum CollectorAction {
    /// Pull every stream once and apply the outcomes to the registry.
    PollAll,
    /// Sleep out the configured interval.
    Sleep,
    /// Exit the task without error.
    Exit,
}

/// The collector's decision function.
pub open spec fn spec_collector_step(stop: bool, state: CollectorState) -> (
    CollectorState,
    CollectorAction,
) {
    if stop {
        (CollectorState::Stopped, CollectorAction::Exit)
    } else {
        match state {
            CollectorState::Polling => (CollectorState::Sleeping, CollectorAction::PollAll),
            CollectorState::Sleeping => (CollectorState::Polling, CollectorAction::Sleep),
            CollectorState::Stopped => (CollectorState::Stopped, CollectorAction::Exit),
        }
    }
}

/// Decides the collector's next move from the stop flag and its state: the
/// stop flag wins over everything; otherwise a tick's poll and the
/// interval's sleep alternate. Driving every poll and every sleep through
/// this decision is what checks the flag both before and after sleeping.
pub fn collector_step(stop: bool, state: CollectorState) -> (r: (CollectorState, CollectorAction))
    ensures
        r == spec_collector_step(stop, state),
        stop ==> r == (CollectorState::Stopped, CollectorAction::Exit),
{
    if stop {
        (CollectorState::Stopped, CollectorAction::Exit)
    } else {
        match state {
            CollectorState::Polling => (CollectorState::Sleeping, CollectorAction::PollAll),
            CollectorState::Sleeping => (CollectorState::Polling, CollectorAction::Sleep),
            CollectorState::Stopped => (CollectorState::Stopped, CollectorAction::Exit),
        }
    }
}

/// Law: once the stop flag is set, each task's very next decision — in any
/// state, on any event — is to stop and exit. Each task makes a decision at
/// least once per bounded wait or sleep, so both tasks terminate within one
/// check interval of the flag being set.
pub proof fn lemma_stop_halts_both_tasks(event: WaitOutcome, state: CollectorState)
    ensures
        spec_responder_step(true, event) == (ResponderState::Stopped, ResponderAction::Exit),
        spec_collector_step(true, state) == (CollectorState::Stopped, CollectorAction::Exit),
{
}

} // verus!
