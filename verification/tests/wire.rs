use mined::protocol::{Command, CommandResponse, ErrorKind};
use mined::resource::Resource;
use mined::status::Status;
use mined::wire::{
    command_from_envelope, command_to_envelope, decode_command, decode_response, encode_command,
    resource_from_row, resource_to_row, response_from_envelope, response_to_envelope, serialize_ws,
    WebsocketError,
};

fn res(id: u64, config: &str, status: Status, observed_at: u64) -> Resource {
    Resource { id, config: config.to_string(), status, observed_at }
}

fn sample_responses() -> Vec<CommandResponse> {
    vec![
        CommandResponse::ResourceList(Vec::new()),
        CommandResponse::ResourceList(vec![
            res(0, "alpha", Status::Stopped, 0),
            res(1, "", Status::Starting, 1),
            res(2, "g\u{e4}mma \u{1f600}", Status::Running, u64::MAX),
            res(3, "delta", Status::Stopping, 1 << 40),
        ]),
        CommandResponse::ResourceUpdated(1, res(1, "beta", Status::Running, 99)),
        CommandResponse::ResourceUpdated(u64::MAX, res(7, "x", Status::Stopping, 300)),
        CommandResponse::Error(ErrorKind::ResourceNotFound),
    ]
}

fn sample_commands() -> Vec<Command> {
    vec![
        Command::ListResources,
        Command::StartResource(0),
        Command::StartResource(23),
        Command::StartResource(24),
        Command::StartResource(255),
        Command::StartResource(256),
        Command::StartResource(65535),
        Command::StartResource(65536),
        Command::StartResource(u32::MAX as u64),
        Command::StartResource(u32::MAX as u64 + 1),
        Command::StartResource(u64::MAX),
        Command::StopResource(0),
        Command::StopResource(5),
        Command::StopResource(u64::MAX),
    ]
}

#[test]
fn commands_have_their_envelopes() {
    assert_eq!(command_to_envelope(Command::ListResources), (0u8, 0u64, Vec::new()));
    assert_eq!(command_to_envelope(Command::StartResource(7)), (1u8, 7u64, Vec::new()));
    assert_eq!(command_to_envelope(Command::StopResource(9)), (2u8, 9u64, Vec::new()));
}

#[test]
fn envelopes_are_read_as_commands() {
    assert_eq!(command_from_envelope(&(0, 0, Vec::new())), Some(Command::ListResources));
    assert_eq!(command_from_envelope(&(1, 4, Vec::new())), Some(Command::StartResource(4)));
    assert_eq!(command_from_envelope(&(2, 4, Vec::new())), Some(Command::StopResource(4)));
}

#[test]
fn envelopes_of_no_command_are_refused() {
    assert_eq!(command_from_envelope(&(0, 1, Vec::new())), None);
    assert_eq!(command_from_envelope(&(3, 0, Vec::new())), None);
    assert_eq!(command_from_envelope(&(255, 0, Vec::new())), None);
    let row = (0u64, "a".to_string(), 0u8, 0u64);
    assert_eq!(command_from_envelope(&(0, 0, vec![row.clone()])), None);
    assert_eq!(command_from_envelope(&(1, 2, vec![row])), None);
}

#[test]
fn command_envelopes_round_trip() {
    for command in sample_commands() {
        assert_eq!(command_from_envelope(&command_to_envelope(command)), Some(command));
    }
}

#[test]
fn resources_have_their_rows() {
    let row = resource_to_row(&res(4, "delta", Status::Running, 17));
    assert_eq!(row, (4u64, "delta".to_string(), 2u8, 17u64));
    assert_eq!(resource_from_row(&row), Some(res(4, "delta", Status::Running, 17)));
    assert_eq!(resource_from_row(&(4, "delta".to_string(), 4, 17)), None);
}

#[test]
fn responses_have_their_envelopes() {
    assert_eq!(
        response_to_envelope(&CommandResponse::ResourceList(vec![
            res(0, "a", Status::Stopped, 1),
            res(1, "b", Status::Stopping, 2),
        ])),
        (3u8, 0u64, vec![(0u64, "a".to_string(), 0u8, 1u64), (1u64, "b".to_string(), 3u8, 2u64)])
    );
    assert_eq!(
        response_to_envelope(&CommandResponse::ResourceUpdated(6, res(6, "f", Status::Starting, 5))),
        (4u8, 6u64, vec![(6u64, "f".to_string(), 1u8, 5u64)])
    );
    assert_eq!(
        response_to_envelope(&CommandResponse::Error(ErrorKind::ResourceNotFound)),
        (5u8, 0u64, Vec::new())
    );
}

#[test]
fn envelopes_of_no_response_are_refused() {
    let good = (0u64, "a".to_string(), 0u8, 0u64);
    let bad = (0u64, "a".to_string(), 9u8, 0u64);
    assert_eq!(response_from_envelope(&(3, 1, Vec::new())), None);
    assert_eq!(response_from_envelope(&(3, 0, vec![good.clone(), bad.clone()])), None);
    assert_eq!(response_from_envelope(&(4, 0, Vec::new())), None);
    assert_eq!(response_from_envelope(&(4, 0, vec![good.clone(), good.clone()])), None);
    assert_eq!(response_from_envelope(&(4, 0, vec![bad])), None);
    assert_eq!(response_from_envelope(&(5, 1, Vec::new())), None);
    assert_eq!(response_from_envelope(&(5, 0, vec![good])), None);
    assert_eq!(response_from_envelope(&(0, 0, Vec::new())), None);
    assert_eq!(response_from_envelope(&(6, 0, Vec::new())), None);
}

#[test]
fn response_envelopes_round_trip() {
    for response in sample_responses() {
        assert_eq!(response_from_envelope(&response_to_envelope(&response)), Some(response));
    }
}

#[test]
fn commands_are_encoded_as_cbor_arrays() {
    assert_eq!(encode_command(Command::ListResources).unwrap(), vec![0x83, 0x00, 0x00, 0x80]);
    assert_eq!(encode_command(Command::StartResource(1)).unwrap(), vec![0x83, 0x01, 0x01, 0x80]);
    assert_eq!(
        encode_command(Command::StopResource(500)).unwrap(),
        vec![0x83, 0x02, 0x19, 0x01, 0xf4, 0x80]
    );
}

#[test]
fn responses_are_encoded_as_cbor_arrays() {
    assert_eq!(
        serialize_ws(&CommandResponse::Error(ErrorKind::ResourceNotFound)).unwrap(),
        vec![0x83, 0x05, 0x00, 0x80]
    );
    assert_eq!(
        serialize_ws(&CommandResponse::ResourceUpdated(1, res(1, "ab", Status::Running, 24)))
            .unwrap(),
        vec![0x83, 0x04, 0x01, 0x81, 0x84, 0x01, 0x62, 0x61, 0x62, 0x02, 0x18, 0x18]
    );
    assert_eq!(
        serialize_ws(&CommandResponse::ResourceList(Vec::new())).unwrap(),
        vec![0x83, 0x03, 0x00, 0x80]
    );
}

#[test]
fn cbor_bytes_are_decoded_as_commands() {
    assert_eq!(decode_command(&[0x83, 0x00, 0x00, 0x80]).unwrap(), Command::ListResources);
    assert_eq!(decode_command(&[0x83, 0x01, 0x07, 0x80]).unwrap(), Command::StartResource(7));
    assert_eq!(
        decode_command(&[0x83, 0x02, 0x19, 0x01, 0xf4, 0x80]).unwrap(),
        Command::StopResource(500)
    );
}

#[test]
fn encoded_commands_round_trip() {
    for command in sample_commands() {
        let bytes = encode_command(command).unwrap();
        assert_eq!(decode_command(&bytes).unwrap(), command);
    }
}

#[test]
fn encoded_responses_round_trip() {
    for response in sample_responses() {
        let bytes = serialize_ws(&response).unwrap();
        assert_eq!(decode_response(&bytes).unwrap(), response);
    }
}

#[test]
fn bytes_that_are_no_envelope_give_parse_errors() {
    let inputs: Vec<Vec<u8>> = vec![
        Vec::new(),
        vec![0xff],
        vec![0x83, 0x00, 0x00],
        vec![0x83, 0x00, 0x00, 0x80, 0x00],
        vec![0x82, 0x00, 0x00],
        vec![0x83, 0x19, 0x01, 0x00, 0x00, 0x80],
        vec![0x63, 0x61, 0x62, 0x63],
    ];
    for bytes in inputs {
        assert!(matches!(decode_command(&bytes), Err(WebsocketError::ParseError(_))));
        assert!(matches!(decode_response(&bytes), Err(WebsocketError::ParseError(_))));
    }
}

#[test]
fn envelopes_of_the_other_direction_are_malformed() {
    let response = serialize_ws(&CommandResponse::Error(ErrorKind::ResourceNotFound)).unwrap();
    assert!(matches!(decode_command(&response), Err(WebsocketError::Malformed)));
    let command = encode_command(Command::StartResource(3)).unwrap();
    assert!(matches!(decode_response(&command), Err(WebsocketError::Malformed)));
    assert!(matches!(decode_command(&[0x83, 0x00, 0x01, 0x80]), Err(WebsocketError::Malformed)));
    assert!(matches!(decode_command(&[0x83, 0x09, 0x00, 0x80]), Err(WebsocketError::Malformed)));
}

#[test]
fn error_messages_say_what_went_wrong() {
    assert_eq!(WebsocketError::NotBinary.message(), "not a binary websocket message");
    assert_eq!(WebsocketError::Malformed.message(), "unknown websocket message");
    let error = decode_command(&[0xff]).unwrap_err();
    let text = error.message();
    let prefix = "failed to parse/serialize websocket message: ";
    assert!(text.starts_with(prefix));
    assert!(text.len() > prefix.len());
    match serde_cbor::from_slice::<u8>(&[0xff]) {
        Err(same) => assert_eq!(text, format!("{}{}", prefix, same)),
        Ok(_) => panic!("0xff alone is no CBOR value"),
    }
}
