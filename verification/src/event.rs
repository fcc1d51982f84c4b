//! What one step of the machine may hand to the outside.
use vstd::prelude::*;
use crate::error::{Error, ErrorView};
use crate::node::{NodeKind, NodeView};

verus! {

/// The slot a step writes its event to, if it has one.
pub type Event = Option<EventKind>;

/// What an [`EventKind`] holds.
pub enum EventView {
    Node(NodeView),
    Failure(ErrorView),
    Done,
}

/// What a caller is handed for one event: a node, an error, or the end.
pub type ItemView = Option<Result<NodeView, ErrorView>>;

/// Describes the possible events that can occur.
#[derive(Debug, Clone, PartialEq, Eq)]
pub enum EventKind {
    Node(NodeKind),
    Failure(Error),
    Done,
}

impl View for EventKind {
    type V = EventView;

    open spec fn view(&self) -> EventView {
        match *self {
            EventKind::Node(node) => EventView::Node(node@),
            EventKind::Failure(err) => EventView::Failure(err@),
            EventKind::Done => EventView::Done,
        }
    }
}

/// What an event slot holds.
pub open spec fn slot_view(slot: Event) -> Option<EventView> {
    match slot {
        Some(event) => Some(event@),
        None => None,
    }
}

/// What an item handed to a caller holds.
pub open spec fn item_view(item: Option<Result<NodeKind, Error>>) -> ItemView {
    match item {
        Some(Ok(node)) => Some(Ok(node@)),
        Some(Err(err)) => Some(Err(err@)),
        None => None,
    }
}

/// An event as the caller sees it: a node is handed on, a failure is handed
/// on unless it is the repeat of an earlier one, and both that repeat and the
/// end of the document end the sequence.
pub open spec fn transposed(event: EventView) -> ItemView {
    match event {
        EventView::Node(node) => Some(Ok(node)),
        EventView::Failure(err) => if err.kind is RepeatFailure {
            None
        } else {
            Some(Err(err))
        },
        EventView::Done => None,
    }
}

impl EventKind {
    /// Converts an event into the equivalent Option/Result nesting.
    pub fn transpose(self) -> (r: Option<Result<NodeKind, Error>>)
        ensures
            item_view(r) == transposed(self@),
    {
        match self {
            Self::Node(node) => Some(Ok(node)),
            Self::Failure(err) => {
                if err.is_repeat() {
                    None
                } else {
                    Some(Err(err))
                }
            },
            Self::Done => None,
        }
    }
}

impl From<NodeKind> for EventKind {
    fn from(node: NodeKind) -> (r: Self) {
        Self::Node(node)
    }
}

impl vstd::std_specs::convert::FromSpecImpl<NodeKind> for EventKind {
    open spec fn obeys_from_spec() -> bool {
        true
    }

    open spec fn from_spec(node: NodeKind) -> Self {
        EventKind::Node(node)
    }
}

impl From<Error> for EventKind {
    fn from(err: Error) -> (r: Self) {
        Self::Failure(err)
    }
}

impl vstd::std_specs::convert::FromSpecImpl<Error> for EventKind {
    open spec fn obeys_from_spec() -> bool {
        true
    }

    open spec fn from_spec(err: Error) -> Self {
        EventKind::Failure(err)
    }
}

impl From<()> for EventKind {
    fn from(unit: ()) -> (r: Self) {
        Self::Done
    }
}

impl vstd::std_specs::convert::FromSpecImpl<()> for EventKind {
    open spec fn obeys_from_spec() -> bool {
        true
    }

    open spec fn from_spec(unit: ()) -> Self {
        EventKind::Done
    }
}

} // verus!
