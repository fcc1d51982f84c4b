//! An incremental scanner for a small, indentation-aware, YAML-like format.
//! A document is a sequence of lines; a line is a bare scalar or a mapping
//! entry `key: value`. The scanner is driven one node at a time and hands
//! out keys and plain scalars, then ends, or reports one error and ends.
use vstd::prelude::*;

pub mod error;
pub mod event;
pub mod grammar;
pub mod laws;
pub mod lines;
pub mod machine;
pub mod model;
pub mod node;
pub mod scanner;
pub mod source;
pub mod states;

use crate::error::{Error, ErrorKind, ErrorView};
use crate::event::{item_view, slot_view, Event, EventView};
use crate::machine::StateMachine;
use crate::model::{
    advance, at_rest, drained, items, lemma_advance_descends, lemma_step_descends, measure,
    step_view, MachineView, PhaseView,
};
use crate::node::{NodeKind, NodeView};
use crate::scanner::{track_start, Active, ScanView};
use crate::source::Source;
use crate::states::{
    AmbiguousColon, AmbiguousScalar, Done, Failure, LineEnd, LineStart, MapStart, MapValue,
    MapVerifyKey, MapWhiteSpace, Marker, ScalarLiteral, Start,
};

verus! {

/// The machine before it has read anything of a document that consists of
/// `bytes` and ends in `failure`, if that is not `None`.
pub open spec fn initial(bytes: Seq<u8>, failure: Option<Seq<char>>) -> MachineView {
    MachineView {
        phase: PhaseView::Start,
        scan: ScanView { rest: bytes, failure, track: track_start() },
    }
}

/// State machine handle, this struct operates the state machine
/// and exposes an higher level interface
#[derive(Debug)]
pub struct Handle {
    machine: State,
}

impl View for Handle {
    type V = MachineView;

    closed spec fn view(&self) -> MachineView {
        self.machine@
    }
}

impl Handle {
    /// Whether the handle's machine is sound.
    pub closed spec fn wf(&self) -> bool {
        self.machine.wf()
    }

    /// Initialize a new parse handle
    pub fn new(stream: Source) -> (r: Self)
        ensures
            r.wf(),
            r@ == initial(stream.remaining(), stream.failure()),
    {
        Self { machine: State::new(stream) }
    }

    /// Cycles the state machine, returning the next YAML node
    pub fn next_node(&mut self) -> (r: Option<Result<NodeKind, Error>>)
        requires
            old(self).wf(),
        ensures
            final(self).wf(),
            (final(self)@, item_view(r)) == advance(old(self)@),
    {
        // The machine is taken out here and put back before every return
        let mut machine = State::new(Source::new(Vec::new()));
        core::mem::swap(&mut self.machine, &mut machine);
        loop
            invariant
                machine.wf(),
                advance(machine@) == advance(old(self)@),
            decreases measure(machine@),
        {
            let ghost before = machine@;
            let mut output: Event = None;
            machine = machine.step(&mut output);
            proof {
                if !at_rest(before) {
                    lemma_step_descends(before);
                }
            }
            if let Some(event) = output {
                let node = event.transpose();
                core::mem::swap(&mut self.machine, &mut machine);
                return node;
            }
        }
    }

    /// The same as [`Handle::next_node`]: the next item of the sequence.
    pub fn next(&mut self) -> (r: Option<Result<NodeKind, Error>>)
        requires
            old(self).wf(),
        ensures
            final(self).wf(),
            (final(self)@, item_view(r)) == advance(old(self)@),
    {
        self.next_node()
    }

    /// Drives the machine to the end of its sequence and returns every item
    /// on the way, in order.
    pub fn collect(&mut self) -> (r: Vec<Result<NodeKind, Error>>)
        requires
            old(self).wf(),
        ensures
            final(self).wf(),
            results_view(r@) == items(old(self)@),
            final(self)@ == drained(old(self)@),
    {
        let mut out: Vec<Result<NodeKind, Error>> = Vec::new();
        loop
            invariant
                self.wf(),
                results_view(out@) + items(self@) == items(old(self)@),
                drained(self@) == drained(old(self)@),
            decreases measure(self@),
        {
            let ghost before = self@;
            proof {
                lemma_advance_descends(before);
            }
            match self.next_node() {
                Some(item) => {
                    proof {
                        assert(results_view(out@.push(item)) == results_view(out@) + seq![
                            result_view(item),
                        ]);
                        assert(results_view(out@.push(item)) + items(self@) == results_view(out@)
                            + (seq![result_view(item)] + items(self@)));
                    }
                    out.push(item);
                },
                None => {
                    proof {
                        assert(results_view(out@) + Seq::empty() == results_view(out@));
                    }
                    return out;
                },
            }
        }
    }

    /// The indentation of every line that has been started, oldest first.
    pub fn history(&self) -> (r: &[usize])
        ensures
            r@ == self@.scan.track.history,
    {
        self.machine.history()
    }
}

/// What one item of a collected sequence holds.
pub open spec fn result_view(item: Result<NodeKind, Error>) -> Result<NodeView, ErrorView> {
    match item {
        Ok(node) => Ok(node@),
        Err(err) => Err(err@),
    }
}

/// What a collected sequence holds.
pub open spec fn results_view(list: Seq<Result<NodeKind, Error>>) -> Seq<
    Result<NodeView, ErrorView>,
> {
    Seq::new(list.len(), |i: int| result_view(list[i]))
}

/// Contains all legal states of the machine
/// and controls the legal transitions between them
#[derive(Debug)]
pub enum State {
    Start(StateMachine<Start>),
    LineStart(StateMachine<LineStart, Active>),
    LineEnd(StateMachine<LineEnd>),
    // Ambiguous
    AmbiguousScalar(StateMachine<AmbiguousScalar>),
    AmbiguousColon(StateMachine<AmbiguousColon>),
    // Scalar
    ScalarLiteral(StateMachine<ScalarLiteral>),
    // Map
    MapStart(StateMachine<MapStart>),
    MapVerifyKey(StateMachine<MapVerifyKey>),
    MapWhiteSpace(StateMachine<MapWhiteSpace>),
    MapValue(StateMachine<MapValue>),
    // Exit
    Done(StateMachine<Done>),
    Failure(StateMachine<Failure>),
}

impl View for State {
    type V = MachineView;

    open spec fn view(&self) -> MachineView {
        match *self {
            State::Start(st) => st@,
            State::LineStart(st) => st@,
            State::LineEnd(st) => st@,
            State::AmbiguousScalar(st) => st@,
            State::AmbiguousColon(st) => st@,
            State::ScalarLiteral(st) => st@,
            State::MapStart(st) => st@,
            State::MapVerifyKey(st) => st@,
            State::MapWhiteSpace(st) => st@,
            State::MapValue(st) => st@,
            State::Done(st) => st@,
            State::Failure(st) => st@,
        }
    }
}

/// What one step comes to, given what the event slot held before: a step
/// that hands out no event leaves the slot as it was.
pub open spec fn stepped(m: MachineView, slot: Option<EventView>) -> (
    MachineView,
    Option<EventView>,
) {
    let (next, event) = step_view(m);
    (
        next,
        match event {
            Some(event) => Some(event),
            None => slot,
        },
    )
}

impl State {
    /// Whether the machine's cursor is sound.
    pub open spec fn wf(&self) -> bool {
        match *self {
            State::Start(st) => st.scan.wf(),
            State::LineStart(st) => st.scan.wf(),
            State::LineEnd(st) => st.scan.wf(),
            State::AmbiguousScalar(st) => st.scan.wf(),
            State::AmbiguousColon(st) => st.scan.wf(),
            State::ScalarLiteral(st) => st.scan.wf(),
            State::MapStart(st) => st.scan.wf(),
            State::MapVerifyKey(st) => st.scan.wf(),
            State::MapWhiteSpace(st) => st.scan.wf(),
            State::MapValue(st) => st.scan.wf(),
            State::Done(st) => st.scan.wf(),
            State::Failure(st) => st.scan.wf(),
        }
    }

    /// Initialize new binding
    pub fn new(stream: Source) -> (r: Self)
        ensures
            r.wf(),
            r@ == initial(stream.remaining(), stream.failure()),
    {
        Self::Start(StateMachine::new(stream))
    }

    /// Moves the machine forward one step.
    /// Each state's driver is passed an event handle
    /// which it can use to return collected output (if any.)
    pub fn step(self, output: &mut Event) -> (r: Self)
        requires
            self.wf(),
        ensures
            r.wf(),
            (r@, slot_view(*final(output))) == stepped(self@, slot_view(*old(output))),
    {
        match self {
            Self::Start(st) => Self::step_start(st, output),
            Self::LineStart(st) => Self::step_line_start(st, output),
            Self::LineEnd(st) => Self::step_line_end(st, output),
            Self::AmbiguousScalar(st) => Self::step_ambiguous_scalar(st, output),
            Self::AmbiguousColon(st) => Self::step_ambiguous_colon(st, output),
            Self::ScalarLiteral(st) => Self::step_scalar_literal(st, output),
            Self::MapStart(st) => Self::step_map_start(st, output),
            Self::MapVerifyKey(st) => Self::step_map_verify_key(st, output),
            Self::MapWhiteSpace(st) => Self::step_map_white_space(st, output),
            Self::MapValue(st) => Self::step_map_value(st, output),
            Self::Done(st) => Self::Done(st.cycle(output)),
            Self::Failure(st) => Self::Failure(st.cycle(output)),
        }
    }

    /// One step of a machine in the phase `Start`.
    fn step_start(st: StateMachine<Start>, output: &mut Event) -> (r: Self)
        requires
            st.scan.wf(),
        ensures
            r.wf(),
            (r@, slot_view(*final(output))) == stepped(st@, slot_view(*old(output))),
    {
        let mut st = st;
        match st.drive(output) {
            Ok(Marker::LineStart) => Self::LineStart(StateMachine::from(st)),
            Ok(Marker::Done) => Self::Done(StateMachine::from(st)),
            Err(e) => Self::Failure(StateMachine::from((e, st))),
            _ => Self::Failure(
                StateMachine::from((Error::from(ErrorKind::IllegalTransition), st)),
            ),
        }
    }

    /// One step of a machine in the phase `LineStart`.
    fn step_line_start(st: StateMachine<LineStart, Active>, output: &mut Event) -> (r: Self)
        requires
            st.scan.wf(),
        ensures
            r.wf(),
            (r@, slot_view(*final(output))) == stepped(st@, slot_view(*old(output))),
    {
        let mut st = st;
        match st.drive(output) {
            Ok(Marker::LineEnd) => Self::LineEnd(StateMachine::from(st)),
            Ok(Marker::AmbiguousScalar) => Self::AmbiguousScalar(StateMachine::from(st)),
            Ok(Marker::Done) => Self::Done(StateMachine::from(st)),
            Err(e) => Self::Failure(StateMachine::from((e, st))),
            _ => Self::Failure(
                StateMachine::from((Error::from(ErrorKind::IllegalTransition), st)),
            ),
        }
    }

    /// One step of a machine in the phase `LineEnd`.
    fn step_line_end(st: StateMachine<LineEnd>, output: &mut Event) -> (r: Self)
        requires
            st.scan.wf(),
        ensures
            r.wf(),
            (r@, slot_view(*final(output))) == stepped(st@, slot_view(*old(output))),
    {
        let mut st = st;
        match st.drive(output) {
            Ok(Marker::LineStart) => Self::LineStart(StateMachine::from(st)),
            Ok(Marker::Done) => Self::Done(StateMachine::from(st)),
            Err(e) => Self::Failure(StateMachine::from((e, st))),
            _ => Self::Failure(
                StateMachine::from((Error::from(ErrorKind::IllegalTransition), st)),
            ),
        }
    }

    /// One step of a machine in the phase `AmbiguousScalar`.
    fn step_ambiguous_scalar(st: StateMachine<AmbiguousScalar>, output: &mut Event) -> (r: Self)
        requires
            st.scan.wf(),
        ensures
            r.wf(),
            (r@, slot_view(*final(output))) == stepped(st@, slot_view(*old(output))),
    {
        let mut st = st;
        match st.drive(output) {
            Ok(Marker::AmbiguousColon) => Self::AmbiguousColon(StateMachine::from(st)),
            Ok(Marker::ScalarLiteral) => Self::ScalarLiteral(StateMachine::from(st)),
            Err(e) => Self::Failure(StateMachine::from((e, st))),
            _ => Self::Failure(
                StateMachine::from((Error::from(ErrorKind::IllegalTransition), st)),
            ),
        }
    }

    /// One step of a machine in the phase `AmbiguousColon`.
    fn step_ambiguous_colon(st: StateMachine<AmbiguousColon>, output: &mut Event) -> (r: Self)
        requires
            st.scan.wf(),
        ensures
            r.wf(),
            (r@, slot_view(*final(output))) == stepped(st@, slot_view(*old(output))),
    {
        let mut st = st;
        match st.drive(output) {
            Ok(Marker::AmbiguousScalar) => Self::AmbiguousScalar(StateMachine::from(st)),
            Ok(Marker::MapStart) => Self::MapStart(StateMachine::from(st)),
            Err(e) => Self::Failure(StateMachine::from((e, st))),
            _ => Self::Failure(
                StateMachine::from((Error::from(ErrorKind::IllegalTransition), st)),
            ),
        }
    }

    /// One step of a machine in the phase `ScalarLiteral`.
    fn step_scalar_literal(st: StateMachine<ScalarLiteral>, output: &mut Event) -> (r: Self)
        requires
            st.scan.wf(),
        ensures
            r.wf(),
            (r@, slot_view(*final(output))) == stepped(st@, slot_view(*old(output))),
    {
        let mut st = st;
        match st.drive(output) {
            Ok(Marker::Done) => Self::Done(StateMachine::from(st)),
            Err(e) => Self::Failure(StateMachine::from((e, st))),
            _ => Self::Failure(
                StateMachine::from((Error::from(ErrorKind::IllegalTransition), st)),
            ),
        }
    }

    /// One step of a machine in the phase `MapStart`.
    fn step_map_start(st: StateMachine<MapStart>, output: &mut Event) -> (r: Self)
        requires
            st.scan.wf(),
        ensures
            r.wf(),
            (r@, slot_view(*final(output))) == stepped(st@, slot_view(*old(output))),
    {
        let mut st = st;
        match st.drive(output) {
            Ok(Marker::MapVerifyKey) => Self::MapVerifyKey(StateMachine::from(st)),
            Err(e) => Self::Failure(StateMachine::from((e, st))),
            _ => Self::Failure(
                StateMachine::from((Error::from(ErrorKind::IllegalTransition), st)),
            ),
        }
    }

    /// One step of a machine in the phase `MapVerifyKey`.
    fn step_map_verify_key(st: StateMachine<MapVerifyKey>, output: &mut Event) -> (r: Self)
        requires
            st.scan.wf(),
        ensures
            r.wf(),
            (r@, slot_view(*final(output))) == stepped(st@, slot_view(*old(output))),
    {
        let mut st = st;
        match st.drive(output) {
            Ok(Marker::MapWhiteSpace) => Self::MapWhiteSpace(StateMachine::from(st)),
            Err(e) => Self::Failure(StateMachine::from((e, st))),
            _ => Self::Failure(
                StateMachine::from((Error::from(ErrorKind::IllegalTransition), st)),
            ),
        }
    }

    /// One step of a machine in the phase `MapWhiteSpace`.
    fn step_map_white_space(st: StateMachine<MapWhiteSpace>, output: &mut Event) -> (r: Self)
        requires
            st.scan.wf(),
        ensures
            r.wf(),
            (r@, slot_view(*final(output))) == stepped(st@, slot_view(*old(output))),
    {
        let mut st = st;
        match st.drive(output) {
            Ok(Marker::MapValue) => Self::MapValue(StateMachine::from(st)),
            Err(e) => Self::Failure(StateMachine::from((e, st))),
            _ => Self::Failure(
                StateMachine::from((Error::from(ErrorKind::IllegalTransition), st)),
            ),
        }
    }

    /// One step of a machine in the phase `MapValue`.
    fn step_map_value(st: StateMachine<MapValue>, output: &mut Event) -> (r: Self)
        requires
            st.scan.wf(),
        ensures
            r.wf(),
            (r@, slot_view(*final(output))) == stepped(st@, slot_view(*old(output))),
    {
        let mut st = st;
        match st.drive(output) {
            Ok(Marker::LineEnd) => Self::LineEnd(StateMachine::from(st)),
            Ok(Marker::Done) => Self::Done(StateMachine::from(st)),
            Err(e) => Self::Failure(StateMachine::from((e, st))),
            _ => Self::Failure(
                StateMachine::from((Error::from(ErrorKind::IllegalTransition), st)),
            ),
        }
    }

    /// The indentation of every line that has been started, oldest first.
    pub fn history(&self) -> (r: &[usize])
        ensures
            r@ == self@.scan.track.history,
    {
        match self {
            State::Start(st) => st.scan.history(),
            State::LineStart(st) => st.scan.history(),
            State::LineEnd(st) => st.scan.history(),
            State::AmbiguousScalar(st) => st.scan.history(),
            State::AmbiguousColon(st) => st.scan.history(),
            State::ScalarLiteral(st) => st.scan.history(),
            State::MapStart(st) => st.scan.history(),
            State::MapVerifyKey(st) => st.scan.history(),
            State::MapWhiteSpace(st) => st.scan.history(),
            State::MapValue(st) => st.scan.history(),
            State::Done(st) => st.scan.history(),
            State::Failure(st) => st.scan.history(),
        }
    }
}

} // verus!
