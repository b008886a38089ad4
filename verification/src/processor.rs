//! The command processor: what each command does to the registry, what it
//! answers, and what it asks of whoever runs the resources.

use vstd::prelude::*;
use crate::protocol::{Command, CommandResponse, ErrorKind, ResponseView};
use crate::registry::{Registry, well_formed, with_status};
use crate::resource::{Resource, ResourceView};
use crate::status::Status;

verus! {

/// A request to whoever runs the resources. The processor only decides that
/// it is due; the caller carries it out after the registry has been updated.
#[derive(Clone, Copy, Debug, PartialEq, Eq, Structural)]
pub enum Directive {
    /// Begin starting the resource with this id.
    BeginStart(u64),
    /// Begin stopping the resource with this id.
    BeginStop(u64),
}

/// What running a command produced.
#[derive(Debug, PartialEq, Eq)]
pub struct Outcome {
    /// The reply owed to the observer that sent the command.
    pub response: CommandResponse,
    /// What the caller must now ask of whoever runs the resources, if anything.
    pub directive: Option<Directive>,
}

/// The status a command moves its resource to: `Starting` for a start,
/// `Stopping` for a stop.
pub open spec fn target_status(command: Command) -> Status {
    match command {
        Command::StopResource(_) => Status::Stopping,
        _ => Status::Starting,
    }
}

/// The status in which a command finds nothing to do: a start finds the
/// resource `Running`, a stop finds it `Stopped`.
pub open spec fn settled_status(command: Command) -> Status {
    match command {
        Command::StopResource(_) => Status::Stopped,
        _ => Status::Running,
    }
}

/// The id a command names, if it names one.
pub open spec fn target_id(command: Command) -> Option<u64> {
    match command {
        Command::ListResources => None,
        Command::StartResource(id) => Some(id),
        Command::StopResource(id) => Some(id),
    }
}

/// Whether a command changes the registry: it names a resource that exists
/// and that is not yet in the state the command aims at.
pub open spec fn takes_effect(records: Seq<ResourceView>, command: Command) -> bool {
    match target_id(command) {
        None => false,
        Some(id) => id < records.len() && records[id as int].status != settled_status(command),
    }
}

/// The records after a command ran at time `now`.
pub open spec fn records_after(
    records: Seq<ResourceView>,
    command: Command,
    now: u64,
) -> Seq<ResourceView> {
    if takes_effect(records, command) {
        with_status(records, target_id(command)->Some_0 as int, target_status(command), now)
    } else {
        records
    }
}

/// The reply to a command that ran at time `now`.
pub open spec fn response_to(
    records: Seq<ResourceView>,
    command: Command,
    now: u64,
) -> ResponseView {
    match target_id(command) {
        None => ResponseView::ResourceList(records),
        Some(id) => if id < records.len() {
            ResponseView::ResourceUpdated(id, records_after(records, command, now)[id as int])
        } else {
            ResponseView::Error(ErrorKind::ResourceNotFound)
        },
    }
}

/// What a command asks of whoever runs the resources.
pub open spec fn directive_for(records: Seq<ResourceView>, command: Command) -> Option<
    Directive,
> {
    if takes_effect(records, command) {
        match command {
            Command::StopResource(id) => Some(Directive::BeginStop(id)),
            Command::StartResource(id) => Some(Directive::BeginStart(id)),
            Command::ListResources => None,
        }
    } else {
        None
    }
}

/// Answers a command that only reads, for a caller that shares the registry
/// with other readers. Returns the reply for `ListResources`, and `None` for
/// a start or a stop, which need the registry to themselves.
pub fn answer_query(command: Command, registry: &Registry) -> (reply: Option<CommandResponse>)
    ensures
        well_formed(registry@),
        command == Command::ListResources ==> reply is Some && reply->Some_0@
            == ResponseView::ResourceList(registry@),
        command != Command::ListResources ==> reply is None,
{
    match command {
        Command::ListResources => Some(CommandResponse::ResourceList(registry.list())),
        _ => {
            let _ = registry.len();
            None
        },
    }
}

/// Runs one command against the registry at time `now`.
///
/// `ListResources` answers with a snapshot of every resource. A start or a
/// stop of an id that no resource has answers `ResourceNotFound` and changes
/// nothing. A start of a `Running` resource and a stop of a `Stopped` one
/// change nothing, ask nothing, and answer with the resource as it is. Any
/// other start or stop records `Starting` or `Stopping` at once, answers with
/// the resource as it now is, and hands back the directive to begin the
/// transition.
pub fn run_command(command: Command, registry: &mut Registry, now: u64) -> (outcome: Outcome)
    ensures
        well_formed(old(registry)@),
        well_formed(final(registry)@),
        final(registry)@ == records_after(old(registry)@, command, now),
        outcome.response@ == response_to(old(registry)@, command, now),
        outcome.directive == directive_for(old(registry)@, command),
{
    match command {
        Command::ListResources => Outcome {
            response: CommandResponse::ResourceList(registry.list()),
            directive: None,
        },
        Command::StartResource(id) => transition(
            registry,
            id,
            Status::Running,
            Status::Starting,
            Directive::BeginStart(id),
            now,
        ),
        Command::StopResource(id) => transition(
            registry,
            id,
            Status::Stopped,
            Status::Stopping,
            Directive::BeginStop(id),
            now,
        ),
    }
}

/// Moves the resource `id` to `target` unless it is already `settled`.
fn transition(
    registry: &mut Registry,
    id: u64,
    settled: Status,
    target: Status,
    directive: Directive,
    now: u64,
) -> (outcome: Outcome)
    ensures
        well_formed(old(registry)@),
        well_formed(final(registry)@),
        ({
            let before = old(registry)@;
            let after = final(registry)@;
            if id >= before.len() {
                &&& after == before
                &&& outcome.response@ == ResponseView::Error(ErrorKind::ResourceNotFound)
                &&& outcome.directive is None
            } else if before[id as int].status == settled {
                &&& after == before
                &&& outcome.response@ == ResponseView::ResourceUpdated(id, before[id as int])
                &&& outcome.directive is None
            } else {
                &&& after == with_status(before, id as int, target, now)
                &&& outcome.response@ == ResponseView::ResourceUpdated(id, after[id as int])
                &&& outcome.directive == Some(directive)
            }
        }),
{
    match registry.get(id) {
        Err(kind) => Outcome { response: CommandResponse::Error(kind), directive: None },
        Ok(current) => {
            if current.status == settled {
                Outcome { response: CommandResponse::ResourceUpdated(id, current), directive: None }
            } else {
                let _ = registry.set_status(id, target, now);
                let updated: Resource = Resource {
                    id: current.id,
                    config: current.config,
                    status: target,
                    observed_at: now,
                };
                Outcome {
                    response: CommandResponse::ResourceUpdated(id, updated),
                    directive: Some(directive),
                }
            }
        },
    }
}

/// Commands reach exactly the resources that exist: for an id below the
/// registry's length a start or a stop answers with the snapshot of that very
/// resource, and for any other id it answers `ResourceNotFound`, leaves the
/// registry as it was and asks nothing.
pub proof fn lemma_commands_resolve_ids(records: Seq<ResourceView>, id: u64, now: u64)
    requires
        well_formed(records),
    ensures
        forall|command: Command|
            #![trigger response_to(records, command, now)]
            target_id(command) == Some(id) && id < records.len() ==> {
                &&& response_to(records, command, now) matches ResponseView::ResourceUpdated(
                    answered,
                    snapshot,
                )
                &&& answered == id
                &&& snapshot.id == id
                &&& snapshot == records_after(records, command, now)[id as int]
            },
        forall|command: Command|
            #![trigger response_to(records, command, now)]
            target_id(command) == Some(id) && id >= records.len() ==> {
                &&& response_to(records, command, now) == ResponseView::Error(
                    ErrorKind::ResourceNotFound,
                )
                &&& records_after(records, command, now) == records
                &&& directive_for(records, command) is None
            },
{
}

/// Starting a `Running` resource and stopping a `Stopped` one do nothing: the
/// registry stays as it was, nothing is asked of whoever runs the resources,
/// and the answer is the resource as it is. Running the same command again
/// gives the same answer.
pub proof fn lemma_settled_commands_are_idempotent(
    records: Seq<ResourceView>,
    command: Command,
    now: u64,
    later: u64,
)
    requires
        well_formed(records),
        target_id(command) matches Some(id) && id < records.len() && records[id as int].status
            == settled_status(command),
    ensures
        records_after(records, command, now) == records,
        directive_for(records, command) is None,
        response_to(records, command, now) == ResponseView::ResourceUpdated(
            target_id(command)->Some_0,
            records[target_id(command)->Some_0 as int],
        ),
        response_to(records_after(records, command, now), command, later) == response_to(
            records,
            command,
            now,
        ),
{
}

/// No command adds, removes or renumbers a resource.
pub proof fn lemma_commands_keep_the_registry_well_formed(
    records: Seq<ResourceView>,
    command: Command,
    now: u64,
)
    requires
        well_formed(records),
    ensures
        well_formed(records_after(records, command, now)),
        records_after(records, command, now).len() == records.len(),
        forall|i: int|
            0 <= i < records.len() ==> (#[trigger] records_after(records, command, now)[i]).config
                == records[i].config,
{
}

} // verus!
