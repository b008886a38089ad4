//! The values that observers and the daemon exchange.

use vstd::prelude::*;
use crate::resource::{Resource, ResourceView, views};

verus! {

/// What an observer may ask for.
#[derive(Clone, Copy, Debug, PartialEq, Eq, Structural)]
pub enum Command {
    /// Ask for a snapshot of every resource.
    ListResources,
    /// Ask that the resource with this id be started.
    StartResource(u64),
    /// Ask that the resource with this id be stopped.
    StopResource(u64),
}

/// Why a command was not carried out.
#[derive(Clone, Copy, Debug, PartialEq, Eq, Structural)]
pub enum ErrorKind {
    /// The command named an id that no resource has.
    ResourceNotFound,
}

/// What the daemon tells an observer: the reply to a command, or the news of
/// a change.
#[derive(Clone, Debug, PartialEq, Eq)]
pub enum CommandResponse {
    /// A snapshot of every resource, in id order.
    ResourceList(Vec<Resource>),
    /// The id of one resource and its snapshot.
    ResourceUpdated(u64, Resource),
    /// The command failed.
    Error(ErrorKind),
}

/// What a [`CommandResponse`] is, as a mathematical value.
pub enum ResponseView {
    ResourceList(Seq<ResourceView>),
    ResourceUpdated(u64, ResourceView),
    Error(ErrorKind),
}

impl View for CommandResponse {
    type V = ResponseView;

    open spec fn view(&self) -> ResponseView {
        match self {
            CommandResponse::ResourceList(list) => ResponseView::ResourceList(views(list@)),
            CommandResponse::ResourceUpdated(id, snapshot) => ResponseView::ResourceUpdated(
                *id,
                snapshot@,
            ),
            CommandResponse::Error(kind) => ResponseView::Error(*kind),
        }
    }
}

} // verus!
