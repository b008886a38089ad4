use mined::poller::{observe, update_servers, Observation, Published, TickReport};
use mined::protocol::CommandResponse;
use mined::registry::Registry;
use mined::resource::Resource;
use mined::state::{Config, State};
use mined::status::Status;
use mined::wire::{decode_response, serialize_ws};
use tokio::sync::mpsc::{unbounded_channel, UnboundedReceiver};

fn state_of_three() -> (State, UnboundedReceiver<Vec<u8>>) {
    let (tx, rx) = unbounded_channel::<Vec<u8>>();
    let config = Config {
        version: 1,
        servers: vec!["a".to_string(), "b".to_string(), "c".to_string()],
    };
    (State::new(config, tx), rx)
}

fn row(id: u64, config: &str, status: Status, observed_at: u64) -> Resource {
    Resource { id, config: config.to_string(), status, observed_at }
}

fn queued(rx: &mut UnboundedReceiver<Vec<u8>>) -> Vec<CommandResponse> {
    let mut got = Vec::new();
    while let Ok(bytes) = rx.try_recv() {
        got.push(decode_response(&bytes).unwrap());
    }
    got
}

#[test]
fn observe_reports_a_changed_status() {
    let mut registry = Registry::new(&vec!["a".to_string(), "b".to_string()]);
    let event = observe(&mut registry, Observation { id: 1, status: Status::Running }, 30);
    assert_eq!(event, Some(CommandResponse::ResourceUpdated(1, row(1, "b", Status::Running, 30))));
    assert_eq!(registry.get(1), Ok(row(1, "b", Status::Running, 30)));
    assert_eq!(registry.get(0), Ok(row(0, "a", Status::Stopped, 0)));
}

#[test]
fn observe_keeps_quiet_about_an_unchanged_status() {
    let mut registry = Registry::new(&vec!["a".to_string(), "b".to_string()]);
    let event = observe(&mut registry, Observation { id: 0, status: Status::Stopped }, 30);
    assert_eq!(event, None);
    assert_eq!(registry.get(0), Ok(row(0, "a", Status::Stopped, 30)));
}

#[test]
fn observe_ignores_an_unknown_resource() {
    let mut registry = Registry::new(&vec!["a".to_string(), "b".to_string()]);
    let before = registry.list();
    assert_eq!(observe(&mut registry, Observation { id: 2, status: Status::Running }, 30), None);
    assert_eq!(observe(&mut registry, Observation { id: u64::MAX, status: Status::Running }, 30), None);
    assert_eq!(registry.list(), before);
}

#[test]
fn a_round_publishes_one_event_per_change() {
    let (mut state, mut rx) = state_of_three();
    let observations = vec![
        Observation { id: 0, status: Status::Stopped },
        Observation { id: 1, status: Status::Running },
        Observation { id: 2, status: Status::Starting },
    ];
    let report = update_servers(&mut state, &observations, 5);
    let first = CommandResponse::ResourceUpdated(1, row(1, "b", Status::Running, 5));
    let second = CommandResponse::ResourceUpdated(2, row(2, "c", Status::Starting, 5));
    assert_eq!(
        report,
        TickReport {
            published: vec![
                Published { event: CommandResponse::ResourceUpdated(1, row(1, "b", Status::Running, 5)), queued: true },
                Published { event: CommandResponse::ResourceUpdated(2, row(2, "c", Status::Starting, 5)), queued: true },
            ],
            applied: 3,
            halted: false,
        }
    );
    assert_eq!(queued(&mut rx), vec![first, second]);
    assert_eq!(
        state.registry.list(),
        vec![
            row(0, "a", Status::Stopped, 5),
            row(1, "b", Status::Running, 5),
            row(2, "c", Status::Starting, 5),
        ]
    );
}

#[test]
fn a_quiet_round_publishes_nothing() {
    let (mut state, mut rx) = state_of_three();
    let observations = vec![
        Observation { id: 0, status: Status::Stopped },
        Observation { id: 1, status: Status::Stopped },
        Observation { id: 2, status: Status::Stopped },
    ];
    let report = update_servers(&mut state, &observations, 5);
    assert_eq!(report, TickReport { published: Vec::new(), applied: 3, halted: false });
    assert_eq!(queued(&mut rx), Vec::<CommandResponse>::new());
}

#[test]
fn an_empty_round_does_nothing() {
    let (mut state, mut rx) = state_of_three();
    let before = state.registry.list();
    let report = update_servers(&mut state, &Vec::new(), 5);
    assert_eq!(report, TickReport { published: Vec::new(), applied: 0, halted: false });
    assert_eq!(state.registry.list(), before);
    assert_eq!(queued(&mut rx), Vec::<CommandResponse>::new());
}

#[test]
fn a_round_handles_repeated_and_unknown_ids() {
    let (mut state, mut rx) = state_of_three();
    let observations = vec![
        Observation { id: 1, status: Status::Starting },
        Observation { id: 9, status: Status::Running },
        Observation { id: 1, status: Status::Running },
        Observation { id: 1, status: Status::Running },
    ];
    let report = update_servers(&mut state, &observations, 8);
    assert_eq!(report.applied, 4);
    assert!(!report.halted);
    let events: Vec<CommandResponse> = queued(&mut rx);
    assert_eq!(
        events,
        vec![
            CommandResponse::ResourceUpdated(1, row(1, "b", Status::Starting, 8)),
            CommandResponse::ResourceUpdated(1, row(1, "b", Status::Running, 8)),
        ]
    );
    assert_eq!(report.published.len(), 2);
    assert_eq!(state.registry.get(1), Ok(row(1, "b", Status::Running, 8)));
}

#[test]
fn a_round_goes_on_when_the_queue_is_closed() {
    let (mut state, rx) = state_of_three();
    drop(rx);
    let observations = vec![
        Observation { id: 0, status: Status::Running },
        Observation { id: 2, status: Status::Running },
    ];
    let report = update_servers(&mut state, &observations, 2);
    assert_eq!(
        report,
        TickReport {
            published: vec![
                Published { event: CommandResponse::ResourceUpdated(0, row(0, "a", Status::Running, 2)), queued: false },
                Published { event: CommandResponse::ResourceUpdated(2, row(2, "c", Status::Running, 2)), queued: false },
            ],
            applied: 2,
            halted: false,
        }
    );
    assert_eq!(state.registry.get(2), Ok(row(2, "c", Status::Running, 2)));
}

#[test]
fn queued_events_are_the_encoded_responses() {
    let (mut state, mut rx) = state_of_three();
    update_servers(&mut state, &vec![Observation { id: 0, status: Status::Stopping }], 11);
    let bytes = rx.try_recv().unwrap();
    let expected =
        serialize_ws(&CommandResponse::ResourceUpdated(0, row(0, "a", Status::Stopping, 11))).unwrap();
    assert_eq!(bytes, expected);
    assert!(rx.try_recv().is_err());
}
