//! The wire format: how commands and responses are laid out in an envelope,
//! and how an envelope becomes bytes and bytes an envelope.
//!
//! The layout is this library's own and is verified here. Turning an envelope
//! into CBOR bytes and back is the codec's work.

use vstd::prelude::*;
use vstd::string::StringExecFns;
use crate::cbor::{
    Envelope, EnvelopeView, Row, RowView, cbor_decoding, cbor_encoding, envelope_view, from_slice,
    row_views, to_vec,
};
use crate::protocol::{Command, CommandResponse, ErrorKind, ResponseView};
use crate::resource::{Resource, ResourceView, views};
use crate::status::Status;

verus! {

/// The tag of a `ListResources` command.
pub const TAG_LIST: u8 = 0;

/// The tag of a `StartResource` command; the argument is the id.
pub const TAG_START: u8 = 1;

/// The tag of a `StopResource` command; the argument is the id.
pub const TAG_STOP: u8 = 2;

/// The tag of a `ResourceList` response; one row per resource.
pub const TAG_RESOURCE_LIST: u8 = 3;

/// The tag of a `ResourceUpdated` response; the argument is the id, the one
/// row is the snapshot.
pub const TAG_RESOURCE_UPDATED: u8 = 4;

/// The tag of an `Error` response; the argument is the number of the error.
pub const TAG_ERROR: u8 = 5;

/// The number of `ErrorKind::ResourceNotFound`.
pub const ERROR_RESOURCE_NOT_FOUND: u64 = 0;

/// Why an inbound frame gave no reply.
#[derive(Debug)]
pub enum WebsocketError {
    /// The frame was not a binary one.
    NotBinary,
    /// The codec refused: the bytes are no CBOR envelope, or the envelope
    /// could not be written.
    ParseError(serde_cbor::Error),
    /// The bytes are a CBOR envelope, but not of a message that was asked for.
    Malformed,
}

impl WebsocketError {
    /// A line for the log that says what went wrong. For `ParseError` the
    /// line ends with the codec's own words: the text that the error
    /// displays.
    pub fn message(&self) -> (text: String)
        ensures
            match *self {
                WebsocketError::NotBinary => text@ == "not a binary websocket message"@,
                WebsocketError::Malformed => text@ == "unknown websocket message"@,
                WebsocketError::ParseError(error) => exists|detail: String|
                    #[trigger] vstd::string::to_string_from_display_ensures::<serde_cbor::Error>(
                        &error,
                        detail,
                    ) && text@ == "failed to parse/serialize websocket message: "@ + detail@,
            },
    {
        match self {
            WebsocketError::NotBinary => "not a binary websocket message".to_owned(),
            WebsocketError::Malformed => "unknown websocket message".to_owned(),
            WebsocketError::ParseError(error) => {
                let mut text: String = "failed to parse/serialize websocket message: ".to_owned();
                let detail: String = error.to_string();
                text.append(detail.as_str());
                text
            },
        }
    }
}

// ---------------------------------------------------------------------
// The layout, as mathematics
// ---------------------------------------------------------------------
/// The envelope of a command.
pub open spec fn command_envelope(command: Command) -> EnvelopeView {
    match command {
        Command::ListResources => (TAG_LIST, 0u64, Seq::empty()),
        Command::StartResource(id) => (TAG_START, id, Seq::empty()),
        Command::StopResource(id) => (TAG_STOP, id, Seq::empty()),
    }
}

/// The command that an envelope holds, if it holds one. A command has no
/// rows, and a listing has the argument 0.
pub open spec fn envelope_command(envelope: EnvelopeView) -> Option<Command> {
    let (tag, argument, rows) = envelope;
    if rows.len() != 0 {
        None
    } else if tag == TAG_LIST && argument == 0 {
        Some(Command::ListResources)
    } else if tag == TAG_START {
        Some(Command::StartResource(argument))
    } else if tag == TAG_STOP {
        Some(Command::StopResource(argument))
    } else {
        None
    }
}

/// The row of a resource.
pub open spec fn resource_row(resource: ResourceView) -> RowView {
    (resource.id, resource.config, resource.status.spec_code(), resource.observed_at)
}

/// Whether a row holds a resource: its third item is the number of a status.
pub open spec fn row_is_resource(row: RowView) -> bool {
    Status::spec_from_code(row.2) is Some
}

/// The resource that a row holds. It is meaningful where `row_is_resource`.
pub open spec fn row_resource(row: RowView) -> ResourceView {
    ResourceView {
        id: row.0,
        config: row.1,
        status: Status::spec_from_code(row.2)->Some_0,
        observed_at: row.3,
    }
}

/// Whether every row holds a resource.
pub open spec fn rows_are_resources(rows: Seq<RowView>) -> bool {
    forall|i: int| 0 <= i < rows.len() ==> row_is_resource(#[trigger] rows[i])
}

/// The number that stands for an error on the wire.
pub open spec fn error_code(kind: ErrorKind) -> u64 {
    match kind {
        ErrorKind::ResourceNotFound => ERROR_RESOURCE_NOT_FOUND,
    }
}

/// The envelope of a response.
pub open spec fn response_envelope(response: ResponseView) -> EnvelopeView {
    match response {
        ResponseView::ResourceList(list) => (
            TAG_RESOURCE_LIST,
            0u64,
            list.map_values(|r: ResourceView| resource_row(r)),
        ),
        ResponseView::ResourceUpdated(id, snapshot) => (
            TAG_RESOURCE_UPDATED,
            id,
            seq![resource_row(snapshot)],
        ),
        ResponseView::Error(kind) => (TAG_ERROR, error_code(kind), Seq::empty()),
    }
}

/// The response that an envelope holds, if it holds one. A list has the
/// argument 0 and only rows that hold resources; an update has exactly one
/// such row; an error has no rows and the number of an error.
pub open spec fn envelope_response(envelope: EnvelopeView) -> Option<ResponseView> {
    let (tag, argument, rows) = envelope;
    if tag == TAG_RESOURCE_LIST && argument == 0 && rows_are_resources(rows) {
        Some(ResponseView::ResourceList(rows.map_values(|row: RowView| row_resource(row))))
    } else if tag == TAG_RESOURCE_UPDATED && rows.len() == 1 && row_is_resource(rows[0]) {
        Some(ResponseView::ResourceUpdated(argument, row_resource(rows[0])))
    } else if tag == TAG_ERROR && rows.len() == 0 && argument == ERROR_RESOURCE_NOT_FOUND {
        Some(ResponseView::Error(ErrorKind::ResourceNotFound))
    } else {
        None
    }
}

/// The bytes of a command, or `None` where the codec cannot write it.
pub open spec fn encoded_command(command: Command) -> Option<Seq<u8>> {
    let (tag, argument, rows) = command_envelope(command);
    cbor_encoding(tag, argument, rows)
}

/// The bytes of a response, or `None` where the codec cannot write it.
pub open spec fn encoded_response(response: ResponseView) -> Option<Seq<u8>> {
    let (tag, argument, rows) = response_envelope(response);
    cbor_encoding(tag, argument, rows)
}

/// The command that bytes hold, if they hold one.
pub open spec fn decoded_command(bytes: Seq<u8>) -> Option<Command> {
    match cbor_decoding(bytes) {
        Some(envelope) => envelope_command(envelope),
        None => None,
    }
}

/// The response that bytes hold, if they hold one.
pub open spec fn decoded_response(bytes: Seq<u8>) -> Option<ResponseView> {
    match cbor_decoding(bytes) {
        Some(envelope) => envelope_response(envelope),
        None => None,
    }
}

// ---------------------------------------------------------------------
// The layout, as code
// ---------------------------------------------------------------------
/// Lays a command out in an envelope.
pub fn command_to_envelope(command: Command) -> (envelope: Envelope)
    ensures
        envelope_view(envelope) == command_envelope(command),
{
    let envelope: Envelope = match command {
        Command::ListResources => (TAG_LIST, 0u64, Vec::new()),
        Command::StartResource(id) => (TAG_START, id, Vec::new()),
        Command::StopResource(id) => (TAG_STOP, id, Vec::new()),
    };
    assert(row_views(envelope.2@) =~= Seq::empty());
    envelope
}

/// Reads the command that an envelope holds; `None` where it holds none.
pub fn command_from_envelope(envelope: &Envelope) -> (command: Option<Command>)
    ensures
        command == envelope_command(envelope_view(*envelope)),
{
    let tag: u8 = envelope.0;
    let argument: u64 = envelope.1;
    if envelope.2.len() != 0 {
        None
    } else if tag == TAG_LIST && argument == 0 {
        Some(Command::ListResources)
    } else if tag == TAG_START {
        Some(Command::StartResource(argument))
    } else if tag == TAG_STOP {
        Some(Command::StopResource(argument))
    } else {
        None
    }
}

/// Lays a resource out in a row.
pub fn resource_to_row(resource: &Resource) -> (row: Row)
    ensures
        (row.0, row.1@, row.2, row.3) == resource_row(resource@),
{
    (resource.id, resource.config.clone(), resource.status.code(), resource.observed_at)
}

/// Reads the resource that a row holds; `None` where its third item is the
/// number of no status.
pub fn resource_from_row(row: &Row) -> (resource: Option<Resource>)
    ensures
        if row_is_resource((row.0, row.1@, row.2, row.3)) {
            resource matches Some(read) && read@ == row_resource((row.0, row.1@, row.2, row.3))
        } else {
            resource is None
        },
{
    match Status::from_code(row.2) {
        Some(status) => Some(
            Resource { id: row.0, config: row.1.clone(), status, observed_at: row.3 },
        ),
        None => None,
    }
}

/// Lays a response out in an envelope.
pub fn response_to_envelope(response: &CommandResponse) -> (envelope: Envelope)
    ensures
        envelope_view(envelope) == response_envelope(response@),
{
    match response {
        CommandResponse::ResourceList(list) => {
            let mut rows: Vec<Row> = Vec::new();
            let mut i: usize = 0;
            while i < list.len()
                invariant
                    i <= list@.len(),
                    rows@.len() == i,
                    forall|k: int|
                        0 <= k < i ==> ({
                            let row = #[trigger] rows@[k];
                            (row.0, row.1@, row.2, row.3) == resource_row(list@[k]@)
                        }),
                decreases list@.len() - i,
            {
                let row: Row = resource_to_row(&list[i]);
                rows.push(row);
                i = i + 1;
            }
            assert(row_views(rows@) =~= views(list@).map_values(
                |r: ResourceView| resource_row(r),
            ));
            (TAG_RESOURCE_LIST, 0u64, rows)
        },
        CommandResponse::ResourceUpdated(id, snapshot) => {
            let mut rows: Vec<Row> = Vec::new();
            rows.push(resource_to_row(snapshot));
            assert(row_views(rows@) =~= seq![resource_row(snapshot@)]);
            (TAG_RESOURCE_UPDATED, *id, rows)
        },
        CommandResponse::Error(kind) => {
            let rows: Vec<Row> = Vec::new();
            assert(row_views(rows@) =~= Seq::empty());
            match kind {
                ErrorKind::ResourceNotFound => (TAG_ERROR, ERROR_RESOURCE_NOT_FOUND, rows),
            }
        },
    }
}

/// Reads the response that an envelope holds; `None` where it holds none.
pub fn response_from_envelope(envelope: &Envelope) -> (response: Option<CommandResponse>)
    ensures
        match envelope_response(envelope_view(*envelope)) {
            Some(expected) => response matches Some(read) && read@ == expected,
            None => response is None,
        },
{
    let tag: u8 = envelope.0;
    let argument: u64 = envelope.1;
    let rows: &Vec<Row> = &envelope.2;
    let ghost row_seq = row_views(rows@);
    if tag == TAG_RESOURCE_LIST {
        if argument != 0 {
            return None;
        }
        let mut list: Vec<Resource> = Vec::new();
        let mut i: usize = 0;
        while i < rows.len()
            invariant
                i <= rows@.len(),
                row_seq == row_views(rows@),
                envelope_view(*envelope) == (TAG_RESOURCE_LIST, 0u64, row_seq),
                list@.len() == i,
                forall|k: int| 0 <= k < i ==> row_is_resource(#[trigger] row_seq[k]),
                forall|k: int| 0 <= k < i ==> (#[trigger] list@[k])@ == row_resource(row_seq[k]),
            decreases rows@.len() - i,
        {
            match resource_from_row(&rows[i]) {
                Some(resource) => {
                    list.push(resource);
                },
                None => {
                    assert(!row_is_resource(row_seq[i as int]));
                    return None;
                },
            }
            i = i + 1;
        }
        assert(views(list@) =~= row_seq.map_values(|row: RowView| row_resource(row)));
        Some(CommandResponse::ResourceList(list))
    } else if tag == TAG_RESOURCE_UPDATED {
        if rows.len() != 1 {
            return None;
        }
        match resource_from_row(&rows[0]) {
            Some(snapshot) => Some(CommandResponse::ResourceUpdated(argument, snapshot)),
            None => None,
        }
    } else if tag == TAG_ERROR && rows.len() == 0 && argument == ERROR_RESOURCE_NOT_FOUND {
        Some(CommandResponse::Error(ErrorKind::ResourceNotFound))
    } else {
        None
    }
}

// ---------------------------------------------------------------------
// Bytes
// ---------------------------------------------------------------------
/// Turns a command into the bytes of one message. It succeeds wherever the
/// codec can write the command's envelope, and the bytes are such that
/// [`decode_command`] reads the same command back from them.
pub fn encode_command(command: Command) -> (encoded: Result<Vec<u8>, WebsocketError>)
    ensures
        match encoded_command(command) {
            Some(expected) => {
                &&& encoded matches Ok(bytes) && bytes@ == expected
                &&& decoded_command(expected) == Some(command)
            },
            None => encoded matches Err(WebsocketError::ParseError(_)),
        },
{
    let envelope: Envelope = command_to_envelope(command);
    proof {
        lemma_command_envelope_round_trip(command, envelope_view(envelope));
    }
    match to_vec(&envelope) {
        Ok(bytes) => Ok(bytes),
        Err(error) => Err(WebsocketError::ParseError(error)),
    }
}

/// Reads a command from the bytes of one message. Fails with `ParseError`
/// where the bytes are no envelope, and with `Malformed` where the envelope
/// holds no command.
pub fn decode_command(bytes: &[u8]) -> (decoded: Result<Command, WebsocketError>)
    ensures
        match cbor_decoding(bytes@) {
            None => decoded matches Err(WebsocketError::ParseError(_)),
            Some(envelope) => match envelope_command(envelope) {
                None => decoded matches Err(WebsocketError::Malformed),
                Some(command) => decoded matches Ok(read) && read == command,
            },
        },
{
    match from_slice(bytes) {
        Err(error) => Err(WebsocketError::ParseError(error)),
        Ok(envelope) => match command_from_envelope(&envelope) {
            Some(command) => Ok(command),
            None => Err(WebsocketError::Malformed),
        },
    }
}

/// Turns a response into the bytes of one message. It succeeds wherever the
/// codec can write the response's envelope, and the bytes are such that
/// [`decode_response`] reads the same response back from them.
pub fn serialize_ws(response: &CommandResponse) -> (encoded: Result<Vec<u8>, WebsocketError>)
    ensures
        match encoded_response(response@) {
            Some(expected) => {
                &&& encoded matches Ok(bytes) && bytes@ == expected
                &&& decoded_response(expected) == Some(response@)
            },
            None => encoded matches Err(WebsocketError::ParseError(_)),
        },
{
    let envelope: Envelope = response_to_envelope(response);
    proof {
        lemma_response_envelope_round_trip(response@, envelope_view(envelope));
    }
    match to_vec(&envelope) {
        Ok(bytes) => Ok(bytes),
        Err(error) => Err(WebsocketError::ParseError(error)),
    }
}

/// Reads a response from the bytes of one message. Fails with `ParseError`
/// where the bytes are no envelope, and with `Malformed` where the envelope
/// holds no response.
pub fn decode_response(bytes: &[u8]) -> (decoded: Result<CommandResponse, WebsocketError>)
    ensures
        match cbor_decoding(bytes@) {
            None => decoded matches Err(WebsocketError::ParseError(_)),
            Some(envelope) => match envelope_response(envelope) {
                None => decoded matches Err(WebsocketError::Malformed),
                Some(response) => decoded matches Ok(read) && read@ == response,
            },
        },
{
    match from_slice(bytes) {
        Err(error) => Err(WebsocketError::ParseError(error)),
        Ok(envelope) => match response_from_envelope(&envelope) {
            Some(response) => Ok(response),
            None => Err(WebsocketError::Malformed),
        },
    }
}

// ---------------------------------------------------------------------
// Laws
// ---------------------------------------------------------------------
/// Laying a command out in an envelope and reading it back gives the same
/// command, and no other envelope is read as that command.
pub proof fn lemma_command_envelope_round_trip(command: Command, envelope: EnvelopeView)
    ensures
        envelope_command(command_envelope(command)) == Some(command),
        envelope_command(envelope) == Some(command) ==> envelope =~~= command_envelope(command),
{
}

/// Laying a response out in an envelope and reading it back gives the same
/// response, and no other envelope is read as that response.
pub proof fn lemma_response_envelope_round_trip(response: ResponseView, envelope: EnvelopeView)
    ensures
        envelope_response(response_envelope(response)) == Some(response),
        envelope_response(envelope) == Some(response) ==> envelope == response_envelope(response),
{
    let laid = response_envelope(response);
    match response {
        ResponseView::ResourceList(list) => {
            assert forall|i: int| 0 <= i < laid.2.len() implies row_is_resource(
                #[trigger] laid.2[i],
            ) by {
                Status::lemma_code_round_trip(list[i].status, 0);
            }
            assert(laid.2.map_values(|row: RowView| row_resource(row)) =~= list) by {
                assert forall|i: int| 0 <= i < list.len() implies row_resource(laid.2[i])
                    == list[i] by {
                    Status::lemma_code_round_trip(list[i].status, 0);
                }
            }
        },
        ResponseView::ResourceUpdated(id, snapshot) => {
            Status::lemma_code_round_trip(snapshot.status, 0);
            assert(laid.2[0] == resource_row(snapshot));
        },
        ResponseView::Error(kind) => {},
    }
    if envelope_response(envelope) == Some(response) {
        lemma_rows_are_canonical(envelope.2);
        assert(envelope.2 =~= response_envelope(response).2);
    }
}

/// A row that holds a resource is the row of that resource.
proof fn lemma_rows_are_canonical(rows: Seq<RowView>)
    ensures
        forall|i: int|
            0 <= i < rows.len() && row_is_resource(#[trigger] rows[i]) ==> resource_row(
                row_resource(rows[i]),
            ) == rows[i],
{
    assert forall|i: int| 0 <= i < rows.len() && row_is_resource(#[trigger] rows[i]) implies
        resource_row(row_resource(rows[i])) == rows[i] by {
        let status = Status::spec_from_code(rows[i].2)->Some_0;
        Status::lemma_code_round_trip(status, rows[i].2);
    }
}

} // verus!
