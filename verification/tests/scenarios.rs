use mined::connection::{Connection, Frame, Step};
use mined::hub::{Delivery, Hub};
use mined::poller::{update_servers, Observation};
use mined::processor::Directive;
use mined::protocol::{Command, CommandResponse, ErrorKind};
use mined::resource::Resource;
use mined::state::{Config, State};
use mined::status::Status;
use mined::wire::{decode_response, encode_command};
use tokio::sync::mpsc::{unbounded_channel, UnboundedReceiver};

fn daemon() -> (State, UnboundedReceiver<Vec<u8>>, Hub) {
    let (tx, rx) = unbounded_channel::<Vec<u8>>();
    let config = Config {
        version: 1,
        servers: vec!["lobby".to_string(), "survival".to_string(), "creative".to_string()],
    };
    (State::new(config, tx), rx, Hub::new())
}

fn observer(hub: &mut Hub) -> (Connection, UnboundedReceiver<Vec<u8>>) {
    let (tx, rx) = unbounded_channel::<Vec<u8>>();
    let mut connection = Connection::new(tx);
    connection.open(hub);
    (connection, rx)
}

fn inbox(rx: &mut UnboundedReceiver<Vec<u8>>) -> Vec<CommandResponse> {
    let mut got = Vec::new();
    while let Ok(bytes) = rx.try_recv() {
        got.push(decode_response(&bytes).unwrap());
    }
    got
}

fn pump(queue: &mut UnboundedReceiver<Vec<u8>>, hub: &mut Hub) -> Vec<Vec<Delivery>> {
    let mut reports = Vec::new();
    while let Ok(bytes) = queue.try_recv() {
        reports.push(hub.broadcast(&bytes));
    }
    reports
}

fn res(id: u64, config: &str, status: Status, observed_at: u64) -> Resource {
    Resource { id, config: config.to_string(), status, observed_at }
}

#[test]
fn start_is_answered_at_once_and_its_completion_is_broadcast() {
    let (mut state, mut queue, mut hub) = daemon();
    let (mut alice, mut alice_rx) = observer(&mut hub);
    let (_bob, mut bob_rx) = observer(&mut hub);
    let (_carol, mut carol_rx) = observer(&mut hub);

    let start = Frame::Binary(encode_command(Command::StartResource(1)).unwrap());
    let step = alice.receive(&start, &mut state.registry, 100);
    assert!(matches!(
        step,
        Step::Replied { delivered: true, directive: Some(Directive::BeginStart(1)) }
    ));
    assert_eq!(
        inbox(&mut alice_rx),
        vec![CommandResponse::ResourceUpdated(1, res(1, "survival", Status::Starting, 100))]
    );
    assert_eq!(inbox(&mut bob_rx), Vec::<CommandResponse>::new());

    let observations = vec![
        Observation { id: 0, status: Status::Stopped },
        Observation { id: 1, status: Status::Running },
        Observation { id: 2, status: Status::Stopped },
    ];
    let report = update_servers(&mut state, &observations, 105);
    assert_eq!(report.published.len(), 1);
    let reports = pump(&mut queue, &mut hub);
    assert_eq!(
        reports,
        vec![vec![
            Delivery { handle: 0, delivered: true },
            Delivery { handle: 1, delivered: true },
            Delivery { handle: 2, delivered: true },
        ]]
    );
    let news = CommandResponse::ResourceUpdated(1, res(1, "survival", Status::Running, 105));
    assert_eq!(inbox(&mut alice_rx), vec![news.clone()]);
    assert_eq!(inbox(&mut bob_rx), vec![news.clone()]);
    assert_eq!(inbox(&mut carol_rx), vec![news]);
}

#[test]
fn stop_of_an_unknown_id_is_refused_and_nothing_changes() {
    let (mut state, mut queue, mut hub) = daemon();
    let (mut alice, mut alice_rx) = observer(&mut hub);
    let before = state.registry.list();
    let stop = Frame::Binary(encode_command(Command::StopResource(5)).unwrap());
    let step = alice.receive(&stop, &mut state.registry, 20);
    assert!(matches!(step, Step::Replied { delivered: true, directive: None }));
    assert_eq!(inbox(&mut alice_rx), vec![CommandResponse::Error(ErrorKind::ResourceNotFound)]);
    assert_eq!(state.registry.list(), before);
    assert!(queue.try_recv().is_err());
}

#[test]
fn a_listing_reaches_only_the_observer_that_asked() {
    let (mut state, mut queue, mut hub) = daemon();
    let (mut alice, mut alice_rx) = observer(&mut hub);
    let (_bob, mut bob_rx) = observer(&mut hub);
    let list = Frame::Binary(encode_command(Command::ListResources).unwrap());
    let step = alice.receive(&list, &mut state.registry, 20);
    assert!(matches!(step, Step::Replied { delivered: true, directive: None }));
    assert_eq!(
        inbox(&mut alice_rx),
        vec![CommandResponse::ResourceList(vec![
            res(0, "lobby", Status::Stopped, 0),
            res(1, "survival", Status::Stopped, 0),
            res(2, "creative", Status::Stopped, 0),
        ])]
    );
    assert_eq!(inbox(&mut bob_rx), Vec::<CommandResponse>::new());
    assert!(queue.try_recv().is_err());
    assert_eq!(pump(&mut queue, &mut hub), Vec::<Vec<Delivery>>::new());
}

#[test]
fn an_idle_start_causes_no_event() {
    let (mut state, mut queue, mut hub) = daemon();
    let (mut alice, mut alice_rx) = observer(&mut hub);
    let (_bob, mut bob_rx) = observer(&mut hub);
    update_servers(&mut state, &vec![Observation { id: 0, status: Status::Running }], 1);
    pump(&mut queue, &mut hub);
    inbox(&mut alice_rx);
    inbox(&mut bob_rx);

    let start = Frame::Binary(encode_command(Command::StartResource(0)).unwrap());
    let step = alice.receive(&start, &mut state.registry, 2);
    assert!(matches!(step, Step::Replied { delivered: true, directive: None }));
    assert_eq!(
        inbox(&mut alice_rx),
        vec![CommandResponse::ResourceUpdated(0, res(0, "lobby", Status::Running, 1))]
    );
    let report = update_servers(&mut state, &vec![Observation { id: 0, status: Status::Running }], 3);
    assert_eq!(report.published.len(), 0);
    assert!(queue.try_recv().is_err());
    assert_eq!(inbox(&mut bob_rx), Vec::<CommandResponse>::new());
}

#[test]
fn a_departed_observer_is_pruned_by_the_next_broadcast() {
    let (mut state, mut queue, mut hub) = daemon();
    let (_alice, mut alice_rx) = observer(&mut hub);
    let (_bob, bob_rx) = observer(&mut hub);
    drop(bob_rx);
    update_servers(&mut state, &vec![Observation { id: 2, status: Status::Running }], 9);
    let reports = pump(&mut queue, &mut hub);
    assert_eq!(
        reports,
        vec![vec![Delivery { handle: 0, delivered: true }, Delivery { handle: 1, delivered: false }]]
    );
    assert_eq!(hub.len(), 1);
    assert!(!hub.contains(1));
    assert_eq!(
        inbox(&mut alice_rx),
        vec![CommandResponse::ResourceUpdated(2, res(2, "creative", Status::Running, 9))]
    );
}
