//! The connection handler: what one observer's connection does with each
//! thing that arrives on it, from its opening to its end.

use vstd::prelude::*;
use tokio::sync::mpsc::UnboundedSender;
use crate::cbor::cbor_decoding;
use crate::channel::{duplicate, offer};
use crate::hub::{Hub, is_registered, lemma_unregister_removes_only_that_handle};
use crate::processor::{
    Directive, Outcome, answer_query, directive_for, records_after, response_to, run_command,
};
use crate::protocol::{Command, ResponseView};
use crate::registry::{Registry, well_formed};
use crate::resource::ResourceView;
use crate::wire::{
    WebsocketError, decode_command, decoded_command, encoded_response, envelope_command,
    serialize_ws,
};

verus! {

/// One inbound frame, as far as this library reads it: the bytes of a binary
/// frame, or the fact that the frame was of another sort.
#[derive(Clone, Debug, PartialEq, Eq)]
pub enum Frame {
    Binary(Vec<u8>),
    Other,
}

/// What serving one frame came to.
#[derive(Debug)]
pub struct Served {
    /// The bytes of the reply, or why there is none.
    pub reply: Result<Vec<u8>, WebsocketError>,
    /// What the caller must now ask of whoever runs the resources. A command
    /// that ran asks it even where its reply could not be encoded.
    pub directive: Option<Directive>,
}

/// The command that a frame holds, if it holds one.
pub open spec fn frame_command(frame: Frame) -> Option<Command> {
    match frame {
        Frame::Binary(bytes) => decoded_command(bytes@),
        Frame::Other => None,
    }
}

/// The records after a frame was served at time `now`: those after its
/// command, or the same where it holds none.
pub open spec fn served_records(
    records: Seq<ResourceView>,
    frame: Frame,
    now: u64,
) -> Seq<ResourceView> {
    match frame_command(frame) {
        Some(command) => records_after(records, command, now),
        None => records,
    }
}

/// What serving a frame asks of whoever runs the resources.
pub open spec fn served_directive(records: Seq<ResourceView>, frame: Frame) -> Option<Directive> {
    match frame_command(frame) {
        Some(command) => directive_for(records, command),
        None => None,
    }
}

/// The bytes of the reply to a frame served at time `now`; `None` where the
/// frame holds no command or the codec cannot write the reply.
pub open spec fn served_reply(records: Seq<ResourceView>, frame: Frame, now: u64) -> Option<
    Seq<u8>,
> {
    match frame_command(frame) {
        Some(command) => encoded_response(response_to(records, command, now)),
        None => None,
    }
}

/// Whether `reply` is what a frame served at time `now` is owed. A frame that
/// is not binary is owed `NotBinary`; bytes that are no envelope, `ParseError`;
/// an envelope that holds no command, `Malformed`; a command, the bytes of
/// its response, or `ParseError` where the codec cannot write them.
pub open spec fn is_reply_to(
    reply: Result<Vec<u8>, WebsocketError>,
    records: Seq<ResourceView>,
    frame: Frame,
    now: u64,
) -> bool {
    match frame {
        Frame::Other => reply matches Err(WebsocketError::NotBinary),
        Frame::Binary(bytes) => match cbor_decoding(bytes@) {
            None => reply matches Err(WebsocketError::ParseError(_)),
            Some(envelope) => match envelope_command(envelope) {
                None => reply matches Err(WebsocketError::Malformed),
                Some(command) => match encoded_response(response_to(records, command, now)) {
                    Some(expected) => reply matches Ok(bytes) && bytes@ == expected,
                    None => reply matches Err(WebsocketError::ParseError(_)),
                },
            },
        },
    }
}

/// Serves one inbound frame at time `now`: reads the command it holds, runs
/// it against the registry, and encodes the reply.
///
/// Where the frame holds no command, the registry is not touched and nothing
/// is asked of whoever runs the resources. A reply that the codec cannot
/// write is reported after the command ran: its directive still stands.
pub fn serve_ws(frame: &Frame, registry: &mut Registry, now: u64) -> (served: Served)
    ensures
        well_formed(old(registry)@),
        well_formed(final(registry)@),
        final(registry)@ == served_records(old(registry)@, *frame, now),
        served.directive == served_directive(old(registry)@, *frame),
        is_reply_to(served.reply, old(registry)@, *frame, now),
{
    let _ = registry.len();
    match frame {
        Frame::Other => Served { reply: Err(WebsocketError::NotBinary), directive: None },
        Frame::Binary(bytes) => {
            match decode_command(bytes.as_slice()) {
                Err(error) => Served { reply: Err(error), directive: None },
                Ok(command) => {
                    let outcome: Outcome = run_command(command, registry, now);
                    Served { reply: serialize_ws(&outcome.response), directive: outcome.directive }
                },
            }
        },
    }
}

/// Where a connection stands.
#[derive(Clone, Copy, Debug, PartialEq, Eq, Structural)]
pub enum Phase {
    /// Accepted, not yet known to the hub.
    Connected,
    /// Known to the hub and served.
    Registered,
    /// Ended. A connection never leaves this phase.
    Closed,
}

/// What receiving one frame came to.
#[derive(Debug)]
pub enum Step {
    /// The frame held a command, the command ran, and its reply was offered
    /// to this connection's own channel and to no other.
    Replied {
        /// Whether the channel took the reply.
        delivered: bool,
        /// What the caller must now ask of whoever runs the resources.
        directive: Option<Directive>,
    },
    /// The frame gave no reply. The connection stays open; the caller logs
    /// the reason and carries out the directive, if there is one.
    Discarded { reason: WebsocketError, directive: Option<Directive> },
    /// The connection is not being served, so the frame was not looked at.
    Ignored,
}

/// One observer's connection.
pub struct Connection {
    phase: Phase,
    handle: u64,
    tx: UnboundedSender<Vec<u8>>,
}

impl Connection {
    /// The phase the connection is in.
    pub closed spec fn spec_phase(&self) -> Phase {
        self.phase
    }

    /// The handle under which the hub knows the connection. It is meaningful
    /// while the phase is `Registered`.
    pub closed spec fn spec_handle(&self) -> u64 {
        self.handle
    }

    /// The connection's own outbound channel.
    pub closed spec fn spec_channel(&self) -> UnboundedSender<Vec<u8>> {
        self.tx
    }

    /// A connection that was just accepted, with its outbound channel.
    pub fn new(tx: UnboundedSender<Vec<u8>>) -> (connection: Connection)
        ensures
            connection.spec_phase() == Phase::Connected,
            connection.spec_channel() == tx,
    {
        Connection { phase: Phase::Connected, handle: 0, tx }
    }

    /// The phase the connection is in.
    pub fn phase(&self) -> (phase: Phase)
        ensures
            phase == self.spec_phase(),
    {
        self.phase
    }

    /// The handle under which the hub knows the connection, while it is
    /// registered.
    pub fn handle(&self) -> (handle: Option<u64>)
        ensures
            handle == (if self.spec_phase() == Phase::Registered {
                Some(self.spec_handle())
            } else {
                None
            }),
    {
        match self.phase {
            Phase::Registered => Some(self.handle),
            _ => None,
        }
    }

    /// Makes the connection known to the hub, so that broadcasts reach it.
    /// A connection in phase `Connected` becomes `Registered` under a fresh
    /// handle; where the hub has no handle left it becomes `Closed`. In any
    /// other phase nothing changes.
    pub fn open(&mut self, hub: &mut Hub)
        ensures
            old(hub)@.well_formed(),
            final(hub)@.well_formed(),
            final(self).spec_channel() == old(self).spec_channel(),
            old(self).spec_phase() != Phase::Connected ==> {
                &&& final(self).spec_phase() == old(self).spec_phase()
                &&& final(self).spec_handle() == old(self).spec_handle()
                &&& final(hub)@ == old(hub)@
            },
            old(self).spec_phase() == Phase::Connected && old(hub)@.next_handle == u64::MAX ==> {
                &&& final(self).spec_phase() == Phase::Closed
                &&& final(hub)@ == old(hub)@
            },
            old(self).spec_phase() == Phase::Connected && old(hub)@.next_handle < u64::MAX ==> {
                &&& final(self).spec_phase() == Phase::Registered
                &&& final(self).spec_handle() == old(hub)@.next_handle
                &&& exists|channel: UnboundedSender<Vec<u8>>|
                    final(hub)@ == #[trigger] old(hub)@.registered(channel)
            },
    {
        let _ = hub.len();
        match self.phase {
            Phase::Connected => {
                match hub.register(duplicate(&self.tx)) {
                    Some(handle) => {
                        self.handle = handle;
                        self.phase = Phase::Registered;
                    },
                    None => {
                        self.phase = Phase::Closed;
                    },
                }
            },
            _ => {},
        }
    }

    /// Receives one inbound frame at time `now`. A registered connection
    /// serves it as [`serve_ws`] does and offers the reply to its own
    /// channel, which is the only channel it can reach: the step is `Replied`
    /// exactly where the frame is owed a reply, and `Discarded` with the
    /// reason otherwise. In any other phase the frame is ignored. The phase
    /// never changes here: a frame that gives no reply leaves the connection
    /// open.
    pub fn receive(&mut self, frame: &Frame, registry: &mut Registry, now: u64) -> (step: Step)
        ensures
            well_formed(old(registry)@),
            well_formed(final(registry)@),
            final(self).spec_phase() == old(self).spec_phase(),
            final(self).spec_handle() == old(self).spec_handle(),
            final(self).spec_channel() == old(self).spec_channel(),
            old(self).spec_phase() != Phase::Registered ==> {
                &&& step is Ignored
                &&& final(registry)@ == old(registry)@
            },
            old(self).spec_phase() == Phase::Registered ==> {
                &&& final(registry)@ == served_records(old(registry)@, *frame, now)
                &&& match step {
                    Step::Replied { delivered, directive } => {
                        &&& served_reply(old(registry)@, *frame, now) is Some
                        &&& directive == served_directive(old(registry)@, *frame)
                    },
                    Step::Discarded { reason, directive } => {
                        &&& is_reply_to(Err(reason), old(registry)@, *frame, now)
                        &&& directive == served_directive(old(registry)@, *frame)
                    },
                    Step::Ignored => false,
                }
            },
    {
        let _ = registry.len();
        match self.phase {
            Phase::Registered => {
                let served: Served = serve_ws(frame, registry, now);
                match served.reply {
                    Ok(bytes) => {
                        let delivered: bool = offer(&self.tx, bytes);
                        Step::Replied { delivered, directive: served.directive }
                    },
                    Err(reason) => Step::Discarded { reason, directive: served.directive },
                }
            },
            _ => Step::Ignored,
        }
    }

    /// Receives one inbound frame for a caller that shares the registry with
    /// other readers. A registered connection whose frame holds
    /// `ListResources` serves it: the reply is offered to its own channel.
    /// Otherwise this returns `None` and does nothing, and the frame is for
    /// [`Connection::receive`].
    pub fn receive_query(&self, frame: &Frame, registry: &Registry) -> (step: Option<Step>)
        ensures
            well_formed(registry@),
            step is Some <==> self.spec_phase() == Phase::Registered && frame_command(*frame)
                == Some(Command::ListResources),
            step matches Some(taken) ==> match taken {
                Step::Replied { delivered, directive } => {
                    &&& encoded_response(ResponseView::ResourceList(registry@)) is Some
                    &&& directive is None
                },
                Step::Discarded { reason, directive } => {
                    &&& encoded_response(ResponseView::ResourceList(registry@)) is None
                    &&& reason is ParseError
                    &&& directive is None
                },
                Step::Ignored => false,
            },
    {
        let _ = registry.len();
        match self.phase {
            Phase::Registered => {},
            _ => {
                return None;
            },
        }
        let command: Command = match frame {
            Frame::Other => {
                return None;
            },
            Frame::Binary(bytes) => match decode_command(bytes.as_slice()) {
                Ok(command) => command,
                Err(_) => {
                    return None;
                },
            },
        };
        match answer_query(command, registry) {
            None => None,
            Some(response) => match serialize_ws(&response) {
                Ok(bytes) => {
                    let delivered: bool = offer(&self.tx, bytes);
                    Some(Step::Replied { delivered, directive: None })
                },
                Err(reason) => Some(Step::Discarded { reason, directive: None }),
            },
        }
    }

    /// Ends the connection, on a transport error or when the observer left.
    /// A registered connection is removed from the hub. The connection is
    /// `Closed` afterwards, whatever it was before.
    pub fn close(&mut self, hub: &mut Hub)
        ensures
            old(hub)@.well_formed(),
            final(hub)@.well_formed(),
            final(self).spec_phase() == Phase::Closed,
            final(self).spec_channel() == old(self).spec_channel(),
            old(self).spec_phase() == Phase::Registered ==> {
                &&& final(hub)@ == old(hub)@.unregistered(old(self).spec_handle())
                &&& !is_registered(final(hub)@.subscribers, old(self).spec_handle())
            },
            old(self).spec_phase() != Phase::Registered ==> final(hub)@ == old(hub)@,
    {
        let _ = hub.len();
        match self.phase {
            Phase::Registered => {
                let _ = hub.unregister(self.handle);
                proof {
                    lemma_unregister_removes_only_that_handle(old(hub)@, self.handle, 0);
                }
            },
            _ => {},
        }
        self.phase = Phase::Closed;
    }
}

} // verus!
