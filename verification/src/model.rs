//! The scanner as a state machine over plain values: what each phase does to
//! the bytes ahead, which phase follows, and what is handed out on the way.
use vstd::prelude::*;
use crate::error::{plain, ErrorView, KindView};
use crate::event::{transposed, EventView, ItemView};
use crate::node::NodeView;
use crate::scanner::ScanView;
use crate::states::{
    lemma_leading, ByteClass,
    colon_next, failure_reported, indent_recorded, key_checked, line_closed, line_end_next,
    line_start_next, map_key_next, map_start_next, map_value_next, map_whitespace_next,
    scalar_next, start_next, text_gathered, value_gathered, whitespace_skipped, Marker,
};

verus! {

/// A phase together with the data it holds.
pub enum PhaseView {
    Start,
    LineStart,
    LineEnd,
    /// Gathering text; holds the text gathered so far.
    AmbiguousScalar(Seq<u8>),
    /// At a colon; holds the text gathered before it.
    AmbiguousColon(Seq<u8>),
    /// Holds the scalar.
    ScalarLiteral(Seq<u8>),
    /// Holds the indentation floor at entry and the key as gathered.
    MapStart(usize, Seq<u8>),
    MapVerifyKey(usize, Seq<u8>),
    MapWhiteSpace(usize),
    /// Holds the indentation floor at entry and the value gathered so far.
    MapValue(usize, Seq<u8>),
    Done,
    /// Holds the error until it has been reported.
    Failure(Option<ErrorView>),
}

/// A machine: its phase and its cursor.
pub struct MachineView {
    pub phase: PhaseView,
    pub scan: ScanView,
}

/// What driving a phase once comes to.
pub struct Driven {
    /// The phase with the data it holds afterwards.
    pub phase: PhaseView,
    /// The cursor afterwards.
    pub scan: ScanView,
    /// The event that was handed out, if any.
    pub event: Option<EventView>,
    /// The phase that is to follow, or the error that ends the run.
    pub result: Result<Marker, ErrorView>,
}

/// The second step of a phase, taken only where the first went well.
pub open spec fn and_next(
    first: Result<(), ErrorView>,
    second: Result<Marker, ErrorView>,
) -> Result<Marker, ErrorView> {
    match first {
        Ok(_) => second,
        Err(err) => Err(err),
    }
}

/// Driving the phase of `m` once. The two terminal phases are not driven.
pub open spec fn driven(m: MachineView) -> Driven {
    match m.phase {
        PhaseView::Start => Driven {
            phase: m.phase,
            scan: m.scan,
            event: None,
            result: start_next(m.scan),
        },
        PhaseView::LineStart => {
            let (scan, recorded) = indent_recorded(m.scan);
            Driven {
                phase: m.phase,
                scan,
                event: None,
                result: and_next(recorded, line_start_next(scan)),
            }
        },
        PhaseView::LineEnd => {
            let (scan, closed) = line_closed(m.scan);
            Driven {
                phase: m.phase,
                scan,
                event: None,
                result: and_next(closed, line_end_next(scan)),
            }
        },
        PhaseView::AmbiguousScalar(scratch) => {
            let (gathered, scan, result) = text_gathered(scratch, m.scan);
            Driven { phase: PhaseView::AmbiguousScalar(gathered), scan, event: None, result }
        },
        PhaseView::AmbiguousColon(_) => {
            let (scan, result) = colon_next(m.scan);
            Driven { phase: m.phase, scan, event: None, result }
        },
        PhaseView::ScalarLiteral(scalar) => match scalar_next(m.scan) {
            Ok(marker) => Driven {
                phase: PhaseView::ScalarLiteral(Seq::empty()),
                scan: m.scan,
                event: Some(EventView::Node(NodeView::ScalarPlain(scalar))),
                result: Ok(marker),
            },
            Err(err) => Driven { phase: m.phase, scan: m.scan, event: None, result: Err(err) },
        },
        PhaseView::MapStart(_, _) => Driven {
            phase: m.phase,
            scan: m.scan,
            event: None,
            result: map_start_next(m.scan),
        },
        PhaseView::MapVerifyKey(floor, key) => {
            let (checked, result) = key_checked(key);
            match result {
                Ok(_) => Driven {
                    phase: PhaseView::MapVerifyKey(floor, Seq::empty()),
                    scan: m.scan,
                    event: Some(EventView::Node(NodeView::Key(checked))),
                    result: map_key_next(m.scan),
                },
                Err(err) => Driven {
                    phase: PhaseView::MapVerifyKey(floor, checked),
                    scan: m.scan,
                    event: None,
                    result: Err(err),
                },
            }
        },
        PhaseView::MapWhiteSpace(_) => {
            let (scan, skipped) = whitespace_skipped(m.scan);
            Driven {
                phase: m.phase,
                scan,
                event: None,
                result: and_next(skipped, map_whitespace_next(scan)),
            }
        },
        PhaseView::MapValue(floor, value) => {
            let (gathered, scan, result) = value_gathered(value, m.scan);
            match result {
                Ok(_) => Driven {
                    phase: PhaseView::MapValue(floor, Seq::empty()),
                    scan,
                    event: Some(EventView::Node(NodeView::ScalarPlain(gathered))),
                    result: map_value_next(scan),
                },
                Err(err) => Driven {
                    phase: PhaseView::MapValue(floor, gathered),
                    scan,
                    event: None,
                    result: Err(err),
                },
            }
        },
        PhaseView::Done => Driven {
            phase: m.phase,
            scan: m.scan,
            event: None,
            result: Ok(Marker::Done),
        },
        PhaseView::Failure(_) => Driven {
            phase: m.phase,
            scan: m.scan,
            event: None,
            result: Ok(Marker::Done),
        },
    }
}

/// The phase that follows `phase` on `marker`, if the pair is a legal
/// transition. `floor` is the tracker's floor at that moment.
pub open spec fn successor(phase: PhaseView, marker: Marker, floor: usize) -> Option<PhaseView> {
    match (phase, marker) {
        (PhaseView::Start, Marker::LineStart) => Some(PhaseView::LineStart),
        (PhaseView::Start, Marker::Done) => Some(PhaseView::Done),
        (PhaseView::LineStart, Marker::LineEnd) => Some(PhaseView::LineEnd),
        (PhaseView::LineStart, Marker::AmbiguousScalar) => Some(
            PhaseView::AmbiguousScalar(Seq::empty()),
        ),
        (PhaseView::LineStart, Marker::Done) => Some(PhaseView::Done),
        (PhaseView::LineEnd, Marker::LineStart) => Some(PhaseView::LineStart),
        (PhaseView::LineEnd, Marker::Done) => Some(PhaseView::Done),
        (PhaseView::AmbiguousScalar(scratch), Marker::AmbiguousColon) => Some(
            PhaseView::AmbiguousColon(scratch),
        ),
        (PhaseView::AmbiguousScalar(scratch), Marker::ScalarLiteral) => Some(
            PhaseView::ScalarLiteral(scratch),
        ),
        (PhaseView::AmbiguousColon(scratch), Marker::AmbiguousScalar) => Some(
            PhaseView::AmbiguousScalar(scratch),
        ),
        (PhaseView::AmbiguousColon(scratch), Marker::MapStart) => Some(
            PhaseView::MapStart(floor, scratch),
        ),
        (PhaseView::ScalarLiteral(_), Marker::Done) => Some(PhaseView::Done),
        (PhaseView::MapStart(entry, scratch), Marker::MapVerifyKey) => Some(
            PhaseView::MapVerifyKey(entry, scratch),
        ),
        (PhaseView::MapVerifyKey(entry, _), Marker::MapWhiteSpace) => Some(
            PhaseView::MapWhiteSpace(entry),
        ),
        (PhaseView::MapWhiteSpace(entry), Marker::MapValue) => Some(
            PhaseView::MapValue(entry, Seq::empty()),
        ),
        (PhaseView::MapValue(_, _), Marker::LineEnd) => Some(PhaseView::LineEnd),
        (PhaseView::MapValue(_, _), Marker::Done) => Some(PhaseView::Done),
        _ => None,
    }
}

/// The machine after a phase was driven: in the phase that the marker asks
/// for, or failed, with the error of the phase or, for a marker that the
/// phase may not give, with the error of an illegal transition.
pub open spec fn transition(d: Driven) -> MachineView {
    MachineView {
        phase: match d.result {
            Ok(marker) => match successor(d.phase, marker, d.scan.track.floor) {
                Some(next) => next,
                None => PhaseView::Failure(Some(plain(KindView::IllegalTransition))),
            },
            Err(err) => PhaseView::Failure(Some(err)),
        },
        scan: d.scan,
    }
}

/// One step of the machine: the machine afterwards and the event handed out,
/// if any. A finished machine stays finished and says so at every step. A
/// failed machine reports its error at the first step and the repeat of a
/// failure at every later one.
pub open spec fn step_view(m: MachineView) -> (MachineView, Option<EventView>) {
    match m.phase {
        PhaseView::Done => (m, Some(EventView::Done)),
        PhaseView::Failure(held) => (
            MachineView { phase: PhaseView::Failure(None), scan: m.scan },
            Some(EventView::Failure(failure_reported(held))),
        ),
        _ => {
            let d = driven(m);
            (transition(d), d.event)
        },
    }
}

/// Whether the machine has come to rest: it is finished or has failed.
pub open spec fn at_rest(m: MachineView) -> bool {
    m.phase is Done || m.phase is Failure
}

/// How far a phase is from the end of its line's work: each move that
/// consumes no byte leads to a phase of lower rank.
pub open spec fn rank(phase: PhaseView) -> nat {
    match phase {
        PhaseView::Start => 13,
        PhaseView::LineStart => 12,
        PhaseView::AmbiguousScalar(_) => 10,
        PhaseView::AmbiguousColon(_) => 9,
        PhaseView::ScalarLiteral(_) => 8,
        PhaseView::MapStart(_, _) => 7,
        PhaseView::MapVerifyKey(_, _) => 6,
        PhaseView::MapWhiteSpace(_) => 5,
        PhaseView::MapValue(_, _) => 4,
        PhaseView::LineEnd => 3,
        PhaseView::Failure(Some(_)) => 2,
        PhaseView::Done => 1,
        PhaseView::Failure(None) => 0,
    }
}

/// What is left for a machine to do: it falls with every step of a machine
/// that has not come to rest.
pub open spec fn measure(m: MachineView) -> nat {
    16 * m.scan.rest.len() + rank(m.phase)
}

/// Every step of a machine that has not come to rest brings it closer to
/// rest: it consumes a byte, or leads to a phase of lower rank. No step
/// touches anything but the bytes ahead and the tracker.
pub proof fn lemma_step_descends(m: MachineView)
    requires
        !at_rest(m),
    ensures
        measure(step_view(m).0) < measure(m),
        step_view(m).0.scan.rest.len() <= m.scan.rest.len(),
        step_view(m).0.scan.failure == m.scan.failure,
{
    lemma_leading(m.scan.rest, ByteClass::Blank);
    lemma_leading(m.scan.rest, ByteClass::Text);
    lemma_leading(m.scan.rest, ByteClass::Inline);
}

/// Drives the machine until a step hands out an event, and gives the
/// machine afterwards together with what the caller is handed for that event.
pub open spec fn advance(m: MachineView) -> (MachineView, ItemView)
    decreases measure(m),
{
    let (next, event) = step_view(m);
    match event {
        Some(event) => (next, transposed(event)),
        None => if at_rest(m) {
            (next, None)
        } else {
            proof {
                lemma_step_descends(m);
            }
            advance(next)
        },
    }
}

/// Whether the sequence of a machine has ended: it is finished, or it has
/// failed and reported its error.
pub open spec fn ended(m: MachineView) -> bool {
    m.phase is Done || m.phase == PhaseView::Failure(None)
}

/// An item brings the machine closer to rest, and the end of the sequence
/// leaves it where every further drive yields the end again.
pub proof fn lemma_advance_descends(m: MachineView)
    ensures
        advance(m).1 is Some ==> measure(advance(m).0) < measure(m),
        advance(m).1 is None ==> ended(advance(m).0),
        ended(m) ==> advance(m) == (m, None::<Result<NodeView, ErrorView>>),
        advance(m).0.scan.rest.len() <= m.scan.rest.len(),
        advance(m).0.scan.failure == m.scan.failure,
    decreases measure(m),
{
    let (next, event) = step_view(m);
    if event is None && !at_rest(m) {
        lemma_step_descends(m);
        lemma_advance_descends(next);
    } else if !at_rest(m) {
        lemma_step_descends(m);
    }
}

/// Everything that a machine hands to its caller, in order, up to the end of
/// the sequence.
pub open spec fn items(m: MachineView) -> Seq<Result<NodeView, ErrorView>>
    decreases measure(m),
{
    let (next, item) = advance(m);
    match item {
        Some(item) => {
            proof {
                lemma_advance_descends(m);
            }
            seq![item] + items(next)
        },
        None => Seq::empty(),
    }
}

/// The machine as it is left when its sequence has ended.
pub open spec fn drained(m: MachineView) -> MachineView
    decreases measure(m),
{
    let (next, item) = advance(m);
    match item {
        Some(_) => {
            proof {
                lemma_advance_descends(m);
            }
            drained(next)
        },
        None => next,
    }
}

} // verus!
