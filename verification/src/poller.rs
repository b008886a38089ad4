//! The change poller: what one round of observations does to the registry
//! and which events it sends on their way to the observers.

use vstd::prelude::*;
use crate::channel::offer;
use crate::processor::{records_after, settled_status, target_id};
use crate::protocol::{Command, CommandResponse, ResponseView};
use crate::registry::{Registry, well_formed, with_status};
use crate::resource::ResourceView;
use crate::state::State;
use crate::status::Status;
use crate::wire::{encoded_response, serialize_ws};

verus! {

/// How many seconds lie between two rounds of the poller.
pub const POLL_INTERVAL_SECS: u64 = 5;

/// The status that whoever runs the resources reports for one of them.
#[derive(Clone, Copy, Debug, PartialEq, Eq, Structural)]
pub struct Observation {
    pub id: u64,
    pub status: Status,
}

/// One event of a round and whether the queue took it.
#[derive(Debug, PartialEq, Eq)]
pub struct Published {
    pub event: CommandResponse,
    pub queued: bool,
}

/// What one round did.
#[derive(Debug, PartialEq, Eq)]
pub struct TickReport {
    /// The events of the round, in the order of the observations that caused
    /// them.
    pub published: Vec<Published>,
    /// How many observations were recorded.
    pub applied: usize,
    /// Whether the round stopped early because an event could not be encoded.
    pub halted: bool,
}

/// Whether an observation is news: it names a resource that exists and
/// reports a status other than the recorded one.
pub open spec fn is_news(records: Seq<ResourceView>, observation: Observation) -> bool {
    observation.id < records.len() && records[observation.id as int].status != observation.status
}

/// The records after an observation was recorded at time `now`. One that
/// names no resource changes nothing.
pub open spec fn records_observed(
    records: Seq<ResourceView>,
    observation: Observation,
    now: u64,
) -> Seq<ResourceView> {
    if observation.id < records.len() {
        with_status(records, observation.id as int, observation.status, now)
    } else {
        records
    }
}

/// The event that tells of an observation: the resource's id and its
/// snapshot as recorded with the observation.
pub open spec fn event_of(
    records: Seq<ResourceView>,
    observation: Observation,
    now: u64,
) -> ResponseView {
    ResponseView::ResourceUpdated(
        observation.id,
        records_observed(records, observation, now)[observation.id as int],
    )
}

/// What one round comes to, as a mathematical value.
pub struct TickView {
    pub records: Seq<ResourceView>,
    pub events: Seq<ResponseView>,
    pub applied: nat,
    pub halted: bool,
}

/// What a round of observations comes to. The observations are recorded in
/// order. Each one that is news gives one event. The round stops after the
/// first observation whose event the codec cannot write: that observation is
/// recorded, its event is lost, and the rest are left for the next round.
pub open spec fn tick(
    records: Seq<ResourceView>,
    observations: Seq<Observation>,
    now: u64,
) -> TickView
    decreases observations.len(),
{
    if observations.len() == 0 {
        TickView { records: records, events: Seq::empty(), applied: 0, halted: false }
    } else {
        let first = observations[0];
        let news = is_news(records, first);
        let event = event_of(records, first, now);
        let next = records_observed(records, first, now);
        if news && encoded_response(event) is None {
            TickView { records: next, events: Seq::empty(), applied: 1, halted: true }
        } else {
            let rest = tick(next, observations.drop_first(), now);
            TickView {
                records: rest.records,
                events: if news {
                    seq![event] + rest.events
                } else {
                    rest.events
                },
                applied: rest.applied + 1,
                halted: rest.halted,
            }
        }
    }
}

/// The events of a report, in the same order.
pub open spec fn events_of(published: Seq<Published>) -> Seq<ResponseView> {
    published.map_values(|p: Published| p.event@)
}

/// Records one observation at time `now` and returns the event it gives, if
/// it is news.
pub fn observe(registry: &mut Registry, observation: Observation, now: u64) -> (event: Option<
    CommandResponse,
>)
    ensures
        well_formed(old(registry)@),
        well_formed(final(registry)@),
        final(registry)@ == records_observed(old(registry)@, observation, now),
        event is Some <==> is_news(old(registry)@, observation),
        event is Some ==> event->Some_0@ == event_of(old(registry)@, observation, now),
{
    match registry.set_status(observation.id, observation.status, now) {
        Err(_) => None,
        Ok(previous) => {
            if previous == observation.status {
                None
            } else {
                match registry.get(observation.id) {
                    Ok(snapshot) => Some(CommandResponse::ResourceUpdated(observation.id, snapshot)),
                    Err(_) => None,
                }
            }
        },
    }
}

/// Runs one round of the poller: records the observations in order, and for
/// each one that is news encodes the event and puts it on the state's queue.
/// A queue that does not take an event stops nothing. An event that cannot
/// be encoded ends the round.
pub fn update_servers(state: &mut State, observations: &Vec<Observation>, now: u64) -> (report:
    TickReport)
    ensures
        well_formed(old(state).registry@),
        well_formed(final(state).registry@),
        final(state).tx == old(state).tx,
        final(state).registry@ == tick(old(state).registry@, observations@, now).records,
        events_of(report.published@) == tick(old(state).registry@, observations@, now).events,
        report.applied == tick(old(state).registry@, observations@, now).applied,
        report.halted == tick(old(state).registry@, observations@, now).halted,
{
    let ghost whole = tick(state.registry@, observations@, now);
    let mut published: Vec<Published> = Vec::new();
    let mut halted: bool = false;
    let mut i: usize = 0;
    let _ = state.registry.len();
    proof {
        assert(observations@.skip(0) =~= observations@);
        assert(events_of(published@) =~= Seq::empty());
    }
    while i < observations.len() && !halted
        invariant
            i <= observations@.len(),
            well_formed(state.registry@),
            state.tx == old(state).tx,
            whole == tick(old(state).registry@, observations@, now),
            !halted ==> ({
                let rest = tick(state.registry@, observations@.skip(i as int), now);
                &&& whole.records == rest.records
                &&& whole.events == events_of(published@) + rest.events
                &&& whole.applied == i + rest.applied
                &&& whole.halted == rest.halted
            }),
            halted ==> ({
                &&& whole.records == state.registry@
                &&& whole.events == events_of(published@)
                &&& whole.applied == i
                &&& whole.halted
            }),
        decreases observations@.len() - i, if halted { 0int } else { 1int },
    {
        let observation: Observation = observations[i];
        let ghost before = state.registry@;
        let ghost pending = observations@.skip(i as int);
        let ghost sent = events_of(published@);
        proof {
            assert(pending[0] == observation);
            assert(pending.drop_first() =~= observations@.skip(i + 1));
        }
        match observe(&mut state.registry, observation, now) {
            None => {},
            Some(event) => {
                match serialize_ws(&event) {
                    Err(_) => {
                        halted = true;
                    },
                    Ok(bytes) => {
                        let queued: bool = offer(&state.tx, bytes);
                        published.push(Published { event, queued });
                        proof {
                            assert(events_of(published@) =~= sent.push(
                                event_of(before, observation, now),
                            ));
                            let rest = tick(state.registry@, observations@.skip(i + 1), now);
                            assert(sent + (seq![event_of(before, observation, now)] + rest.events)
                                =~= events_of(published@) + rest.events);
                        }
                    },
                }
            },
        }
        i = i + 1;
    }
    proof {
        if !halted {
            assert(observations@.skip(i as int) =~= Seq::empty());
            assert(events_of(published@) + Seq::<ResponseView>::empty() =~= events_of(published@));
        }
    }
    TickReport { published, applied: i, halted }
}

/// A round in which nothing is news gives no event and leaves every recorded
/// status as it was.
pub proof fn lemma_quiet_round_gives_no_event(
    records: Seq<ResourceView>,
    observations: Seq<Observation>,
    now: u64,
)
    requires
        well_formed(records),
        forall|k: int|
            0 <= k < observations.len() ==> (#[trigger] observations[k]).id < records.len()
                ==> records[observations[k].id as int].status == observations[k].status,
    ensures
        tick(records, observations, now).events.len() == 0,
        !tick(records, observations, now).halted,
        tick(records, observations, now).applied == observations.len(),
        tick(records, observations, now).records.len() == records.len(),
        forall|i: int|
            0 <= i < records.len() ==> (#[trigger] tick(records, observations, now).records[i]).status
                == records[i].status,
    decreases observations.len(),
{
    if observations.len() > 0 {
        let first = observations[0];
        let next = records_observed(records, first, now);
        let later = observations.drop_first();
        assert(!is_news(records, first));
        assert forall|k: int| 0 <= k < later.len() && (#[trigger] later[k]).id < next.len() implies
            next[later[k].id as int].status == later[k].status by {
            assert(later[k] == observations[k + 1]);
        }
        lemma_quiet_round_gives_no_event(next, later, now);
    }
}

/// One observation that is news gives exactly one event, and that event
/// carries the id that was observed and the resource as the registry now
/// holds it, with the observed status. The one exception is an event that
/// the codec cannot write: the round stops and gives none.
pub proof fn lemma_news_gives_one_event(
    records: Seq<ResourceView>,
    observation: Observation,
    now: u64,
)
    requires
        well_formed(records),
        is_news(records, observation),
    ensures
        event_of(records, observation, now) matches ResponseView::ResourceUpdated(id, snapshot)
            && id == observation.id && snapshot.id == observation.id && snapshot.status
            == observation.status && snapshot == tick(
            records,
            seq![observation],
            now,
        ).records[id as int],
        tick(records, seq![observation], now).halted <==> encoded_response(
            event_of(records, observation, now),
        ) is None,
        tick(records, seq![observation], now).events == if tick(
            records,
            seq![observation],
            now,
        ).halted {
            Seq::empty()
        } else {
            seq![event_of(records, observation, now)]
        },
{
    let single = seq![observation];
    let next = records_observed(records, observation, now);
    assert(single.drop_first() =~= Seq::empty());
    assert(tick(next, single.drop_first(), now).events =~= Seq::empty());
    assert(seq![event_of(records, observation, now)] + Seq::<ResponseView>::empty() =~= seq![
        event_of(records, observation, now),
    ]);
}

/// A start of a `Running` resource and a stop of a `Stopped` one cause no
/// event: whatever the poller observes afterwards, it records and publishes
/// exactly what it would have without the command.
pub proof fn lemma_settled_commands_cause_no_event(
    records: Seq<ResourceView>,
    command: Command,
    observations: Seq<Observation>,
    now: u64,
    later: u64,
)
    requires
        well_formed(records),
        target_id(command) matches Some(id) && id < records.len() && records[id as int].status
            == settled_status(command),
    ensures
        tick(records_after(records, command, now), observations, later) == tick(
            records,
            observations,
            later,
        ),
{
}

} // verus!
