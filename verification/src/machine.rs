//! The machine in each of its phases: the phase's data together with the
//! cursor, how the phase is driven, and the moves from phase to phase.
use vstd::prelude::*;
use crate::error::{outcome, Error, ErrorView};
use crate::event::{slot_view, Event, EventKind, EventView};
use crate::model::{driven, MachineView, PhaseView};
use crate::node::NodeKind;
use crate::scanner::{track_start, Active, Inactive, Scan, ScanView};
use crate::source::Source;
use crate::states::{
    failure_reported, AmbiguousColon, AmbiguousScalar, Done, Failure, LineEnd, LineStart,
    MapStart, MapValue, MapVerifyKey, MapWhiteSpace, Marker, ScalarLiteral, Start,
};

verus! {

/// A machine in the phase `S`.
#[derive(Debug)]
pub struct StateMachine<S = Start, INDENT = Inactive> {
    // Current state
    pub state: S,
    // Byte iter
    pub scan: Scan<INDENT>,
}

/// Whether `after`, the event slot and `result` are what driving `before`
/// once comes to. A drive that hands out no event leaves the slot as it was.
pub open spec fn drive_matches(
    before: MachineView,
    after: MachineView,
    slot_before: Option<EventView>,
    slot_after: Option<EventView>,
    result: Result<Marker, ErrorView>,
) -> bool {
    let d = driven(before);
    &&& after.phase == d.phase
    &&& after.scan == d.scan
    &&& result == d.result
    &&& slot_after == match d.event {
        Some(event) => Some(event),
        None => slot_before,
    }
}

/// Empties `dest` and returns what it held.
pub fn take(dest: &mut Vec<u8>) -> (r: Vec<u8>)
    ensures
        r == *old(dest),
        final(dest)@ == Seq::<u8>::empty(),
{
    let mut held: Vec<u8> = Vec::new();
    core::mem::swap(dest, &mut held);
    held
}

impl View for StateMachine<Start> {
    type V = MachineView;

    open spec fn view(&self) -> MachineView {
        MachineView { phase: PhaseView::Start, scan: self.scan@ }
    }
}

impl View for StateMachine<LineStart, Active> {
    type V = MachineView;

    open spec fn view(&self) -> MachineView {
        MachineView { phase: PhaseView::LineStart, scan: self.scan@ }
    }
}

impl View for StateMachine<LineEnd> {
    type V = MachineView;

    open spec fn view(&self) -> MachineView {
        MachineView { phase: PhaseView::LineEnd, scan: self.scan@ }
    }
}

impl View for StateMachine<AmbiguousScalar> {
    type V = MachineView;

    open spec fn view(&self) -> MachineView {
        MachineView { phase: PhaseView::AmbiguousScalar(self.state.scratch@), scan: self.scan@ }
    }
}

impl View for StateMachine<AmbiguousColon> {
    type V = MachineView;

    open spec fn view(&self) -> MachineView {
        MachineView { phase: PhaseView::AmbiguousColon(self.state.scratch@), scan: self.scan@ }
    }
}

impl View for StateMachine<ScalarLiteral> {
    type V = MachineView;

    open spec fn view(&self) -> MachineView {
        MachineView { phase: PhaseView::ScalarLiteral(self.state.scalar@), scan: self.scan@ }
    }
}

impl View for StateMachine<MapStart> {
    type V = MachineView;

    open spec fn view(&self) -> MachineView {
        MachineView {
            phase: PhaseView::MapStart(self.state.indent_floor, self.state.scratch@),
            scan: self.scan@,
        }
    }
}

impl View for StateMachine<MapVerifyKey> {
    type V = MachineView;

    open spec fn view(&self) -> MachineView {
        MachineView {
            phase: PhaseView::MapVerifyKey(self.state.indent_floor, self.state.key@),
            scan: self.scan@,
        }
    }
}

impl View for StateMachine<MapWhiteSpace> {
    type V = MachineView;

    open spec fn view(&self) -> MachineView {
        MachineView { phase: PhaseView::MapWhiteSpace(self.state.indent_floor), scan: self.scan@ }
    }
}

impl View for StateMachine<MapValue> {
    type V = MachineView;

    open spec fn view(&self) -> MachineView {
        MachineView {
            phase: PhaseView::MapValue(self.state.indent_floor, self.state.value@),
            scan: self.scan@,
        }
    }
}

impl View for StateMachine<Done> {
    type V = MachineView;

    open spec fn view(&self) -> MachineView {
        MachineView { phase: PhaseView::Done, scan: self.scan@ }
    }
}

impl View for StateMachine<Failure> {
    type V = MachineView;

    open spec fn view(&self) -> MachineView {
        MachineView { phase: PhaseView::Failure(self.state@), scan: self.scan@ }
    }
}

impl StateMachine<Start> {
    /// A machine before the first byte of `stream`.
    pub fn new(stream: Source) -> (r: Self)
        ensures
            r.scan.wf(),
            r@ == (MachineView {
                phase: PhaseView::Start,
                scan: ScanView {
                    rest: stream.remaining(),
                    failure: stream.failure(),
                    track: track_start(),
                },
            }),
    {
        StateMachine { state: Start, scan: Scan::new(stream) }
    }
}

/// The character for the digit `d`.
pub open spec fn digit(d: nat) -> char {
    ((48 + d) as u8) as char
}

/// The number `n` in decimal digits.
pub open spec fn decimal(n: nat) -> Seq<char>
    decreases n,
{
    if n < 10 {
        seq![digit(n)]
    } else {
        decimal(n / 10).push(digit(n % 10))
    }
}

/// The numbers of `list` in decimal digits, with a comma and a space between
/// one and the next.
pub open spec fn listed(list: Seq<usize>) -> Seq<char>
    decreases list.len(),
{
    if list.len() == 0 {
        Seq::empty()
    } else if list.len() == 1 {
        decimal(list[0] as nat)
    } else {
        listed(list.drop_last()) + ", "@ + decimal(list.last() as nat)
    }
}

/// What a finished machine says of itself.
pub open spec fn finished_text(history: Seq<usize>) -> Seq<char> {
    "Finished! Indent history: ["@ + listed(history) + "]"@
}

/// Appends `n` in decimal digits.
fn push_decimal(out: &mut String, n: usize)
    ensures
        final(out)@ == old(out)@ + decimal(n as nat),
    decreases n,
{
    if n >= 10 {
        push_decimal(out, n / 10);
    }
    let d: u8 = (n % 10) as u8;
    out.push((48 + d) as char);
    proof {
        if n >= 10 {
            assert(old(out)@ + decimal(n as nat) == (old(out)@ + decimal((n / 10) as nat)).push(
                digit((n % 10) as nat),
            ));
        } else {
            assert(old(out)@ + decimal(n as nat) == old(out)@.push(digit(n as nat)));
        }
    }
}

impl StateMachine<Done> {
    /// The machine's last word: the indentation of every line that was read.
    pub fn done(&self) -> (r: String)
        ensures
            r@ == finished_text(self@.scan.track.history),
    {
        let history = self.scan.history();
        let mut out = "Finished! Indent history: [".to_string();
        let ghost head = out@;
        let mut i: usize = 0;
        while i < history.len()
            invariant
                i <= history.len(),
                head == "Finished! Indent history: ["@,
                history@ == self@.scan.track.history,
                out@ == head + listed(history@.take(i as int)),
            decreases history.len() - i,
        {
            let ghost before = out@;
            if i > 0 {
                out.push_str(", ");
            }
            push_decimal(&mut out, history[i]);
            proof {
                let next = history@.take(i + 1);
                assert(next.drop_last() == history@.take(i as int));
                assert(next.last() == history@[i as int]);
                if i > 0 {
                    assert(out@ == head + (listed(history@.take(i as int)) + ", "@ + decimal(
                        history@[i as int] as nat,
                    )));
                } else {
                    assert(listed(history@.take(0)) == Seq::<char>::empty());
                    assert(out@ == head + decimal(history@[0] as nat));
                }
            }
            i += 1;
        }
        proof {
            assert(history@.take(history.len() as int) == history@);
        }
        out.push_str("]");
        out
    }

    /// A finished machine stays as it is and says at every step that it is
    /// finished.
    pub fn cycle(self, output: &mut Event) -> (r: Self)
        ensures
            r == self,
            slot_view(*final(output)) == Some(EventView::Done),
    {
        *output = Some(EventKind::from(()));
        self
    }
}

impl StateMachine<Failure> {
    /// A failed machine hands out its error once, and from then on the
    /// repeat of a failure.
    pub fn cycle(self, output: &mut Event) -> (r: Self)
        ensures
            r.scan == self.scan,
            r@ == (MachineView { phase: PhaseView::Failure(None), scan: self@.scan }),
            slot_view(*final(output)) == Some(EventView::Failure(failure_reported(self.state@))),
    {
        let mut machine = self;
        let err = machine.state.error();
        *output = Some(EventKind::from(err));
        machine
    }
}

/* State Drivers */
/* ============= */
impl StateMachine<Start> {
    pub fn drive(&mut self, output: &mut Event) -> (r: Result<Marker, Error>)
        requires
            old(self).scan.wf(),
        ensures
            final(self).scan.wf(),
            drive_matches(
                old(self)@,
                final(self)@,
                slot_view(*old(output)),
                slot_view(*final(output)),
                outcome(r),
            ),
    {
        self.state.find_next(&mut self.scan)
    }
}

impl StateMachine<LineStart, Active> {
    pub fn drive(&mut self, output: &mut Event) -> (r: Result<Marker, Error>)
        requires
            old(self).scan.wf(),
        ensures
            final(self).scan.wf(),
            drive_matches(
                old(self)@,
                final(self)@,
                slot_view(*old(output)),
                slot_view(*final(output)),
                outcome(r),
            ),
    {
        match self.state.update_indent(&mut self.scan) {
            Ok(_) => self.state.find_next(&mut self.scan),
            Err(e) => Err(e),
        }
    }
}

impl StateMachine<LineEnd> {
    pub fn drive(&mut self, output: &mut Event) -> (r: Result<Marker, Error>)
        requires
            old(self).scan.wf(),
        ensures
            final(self).scan.wf(),
            drive_matches(
                old(self)@,
                final(self)@,
                slot_view(*old(output)),
                slot_view(*final(output)),
                outcome(r),
            ),
    {
        match self.state.close_line(&mut self.scan) {
            Ok(_) => self.state.find_next(&mut self.scan),
            Err(e) => Err(e),
        }
    }
}

/* Ambiguous Drivers */
impl StateMachine<AmbiguousScalar> {
    pub fn drive(&mut self, output: &mut Event) -> (r: Result<Marker, Error>)
        requires
            old(self).scan.wf(),
        ensures
            final(self).scan.wf(),
            drive_matches(
                old(self)@,
                final(self)@,
                slot_view(*old(output)),
                slot_view(*final(output)),
                outcome(r),
            ),
    {
        self.state.find_next(&mut self.scan)
    }
}

impl StateMachine<AmbiguousColon> {
    pub fn drive(&mut self, output: &mut Event) -> (r: Result<Marker, Error>)
        requires
            old(self).scan.wf(),
        ensures
            final(self).scan.wf(),
            drive_matches(
                old(self)@,
                final(self)@,
                slot_view(*old(output)),
                slot_view(*final(output)),
                outcome(r),
            ),
    {
        self.state.find_next(&mut self.scan)
    }
}

/* Scalar Drivers */
impl StateMachine<ScalarLiteral> {
    pub fn drive(&mut self, output: &mut Event) -> (r: Result<Marker, Error>)
        requires
            old(self).scan.wf(),
        ensures
            final(self).scan.wf(),
            drive_matches(
                old(self)@,
                final(self)@,
                slot_view(*old(output)),
                slot_view(*final(output)),
                outcome(r),
            ),
    {
        match self.state.find_next(&mut self.scan) {
            Ok(m) => {
                let scalar = take(&mut self.state.scalar);
                *output = Some(EventKind::from(NodeKind::ScalarPlain(scalar)));
                Ok(m)
            },
            Err(e) => Err(e),
        }
    }
}

/* Map Drivers */
impl StateMachine<MapStart> {
    pub fn drive(&mut self, output: &mut Event) -> (r: Result<Marker, Error>)
        requires
            old(self).scan.wf(),
        ensures
            final(self).scan.wf(),
            drive_matches(
                old(self)@,
                final(self)@,
                slot_view(*old(output)),
                slot_view(*final(output)),
                outcome(r),
            ),
    {
        self.state.find_next(&mut self.scan)
    }
}

impl StateMachine<MapVerifyKey> {
    pub fn drive(&mut self, output: &mut Event) -> (r: Result<Marker, Error>)
        requires
            old(self).scan.wf(),
        ensures
            final(self).scan.wf(),
            drive_matches(
                old(self)@,
                final(self)@,
                slot_view(*old(output)),
                slot_view(*final(output)),
                outcome(r),
            ),
    {
        match self.state.parse_key(&mut self.scan) {
            Ok(_) => {
                *output = Some(EventKind::from(NodeKind::Key(take(&mut self.state.key))));
                self.state.find_next(&mut self.scan)
            },
            Err(e) => Err(e),
        }
    }
}

impl StateMachine<MapWhiteSpace> {
    pub fn drive(&mut self, output: &mut Event) -> (r: Result<Marker, Error>)
        requires
            old(self).scan.wf(),
        ensures
            final(self).scan.wf(),
            drive_matches(
                old(self)@,
                final(self)@,
                slot_view(*old(output)),
                slot_view(*final(output)),
                outcome(r),
            ),
    {
        match self.state.parse_whitespace(&mut self.scan) {
            Ok(_) => self.state.find_next(&mut self.scan),
            Err(e) => Err(e),
        }
    }
}

impl StateMachine<MapValue> {
    pub fn drive(&mut self, output: &mut Event) -> (r: Result<Marker, Error>)
        requires
            old(self).scan.wf(),
        ensures
            final(self).scan.wf(),
            drive_matches(
                old(self)@,
                final(self)@,
                slot_view(*old(output)),
                slot_view(*final(output)),
                outcome(r),
            ),
    {
        match self.state.parse_value(&mut self.scan) {
            Ok(_) => {
                *output = Some(EventKind::from(NodeKind::ScalarPlain(take(&mut self.state.value))));
                self.state.find_next(&mut self.scan)
            },
            Err(e) => Err(e),
        }
    }
}

/* Legal state transitions */
/* ======================= */
impl From<StateMachine<Start>> for StateMachine<LineStart, Active> {
    fn from(prev: StateMachine<Start>) -> (r: Self)
        ensures
            r.scan.wf() == prev.scan.wf(),
            r@ == (MachineView { phase: PhaseView::LineStart, scan: prev.scan@ }),
    {
        Self { state: LineStart, scan: prev.scan.activate() }
    }
}

/// What `from` gives is stated by its `ensures`.
impl vstd::std_specs::convert::FromSpecImpl<StateMachine<Start>>
    for StateMachine<LineStart, Active> {
    open spec fn obeys_from_spec() -> bool {
        false
    }

    open spec fn from_spec(prev: StateMachine<Start>) -> Self {
        arbitrary()
    }
}

impl From<StateMachine<LineStart, Active>> for StateMachine<LineEnd> {
    fn from(prev: StateMachine<LineStart, Active>) -> (r: Self)
        ensures
            r.scan.wf() == prev.scan.wf(),
            r@ == (MachineView { phase: PhaseView::LineEnd, scan: prev.scan@ }),
    {
        Self { state: LineEnd, scan: prev.scan.deactivate() }
    }
}

/// What `from` gives is stated by its `ensures`.
impl vstd::std_specs::convert::FromSpecImpl<StateMachine<LineStart, Active>>
    for StateMachine<LineEnd> {
    open spec fn obeys_from_spec() -> bool {
        false
    }

    open spec fn from_spec(prev: StateMachine<LineStart, Active>) -> Self {
        arbitrary()
    }
}

impl From<StateMachine<LineStart, Active>> for StateMachine<AmbiguousScalar> {
    fn from(prev: StateMachine<LineStart, Active>) -> (r: Self)
        ensures
            r.scan.wf() == prev.scan.wf(),
            r@ == (MachineView {
                phase: PhaseView::AmbiguousScalar(Seq::empty()),
                scan: prev.scan@,
            }),
    {
        Self { state: AmbiguousScalar { scratch: Vec::new() }, scan: prev.scan.deactivate() }
    }
}

/// What `from` gives is stated by its `ensures`.
impl vstd::std_specs::convert::FromSpecImpl<StateMachine<LineStart, Active>>
    for StateMachine<AmbiguousScalar> {
    open spec fn obeys_from_spec() -> bool {
        false
    }

    open spec fn from_spec(prev: StateMachine<LineStart, Active>) -> Self {
        arbitrary()
    }
}

impl From<StateMachine<LineEnd>> for StateMachine<LineStart, Active> {
    fn from(prev: StateMachine<LineEnd>) -> (r: Self)
        ensures
            r.scan.wf() == prev.scan.wf(),
            r@ == (MachineView { phase: PhaseView::LineStart, scan: prev.scan@ }),
    {
        Self { state: LineStart, scan: prev.scan.activate() }
    }
}

/// What `from` gives is stated by its `ensures`.
impl vstd::std_specs::convert::FromSpecImpl<StateMachine<LineEnd>>
    for StateMachine<LineStart, Active> {
    open spec fn obeys_from_spec() -> bool {
        false
    }

    open spec fn from_spec(prev: StateMachine<LineEnd>) -> Self {
        arbitrary()
    }
}

/* Ambiguous */
impl From<StateMachine<AmbiguousScalar>> for StateMachine<AmbiguousColon> {
    fn from(prev: StateMachine<AmbiguousScalar>) -> (r: Self)
        ensures
            r.scan.wf() == prev.scan.wf(),
            r@ == (MachineView {
                phase: PhaseView::AmbiguousColon(prev.state.scratch@),
                scan: prev.scan@,
            }),
    {
        Self { state: AmbiguousColon::from(prev.state), scan: prev.scan }
    }
}

/// What `from` gives is stated by its `ensures`.
impl vstd::std_specs::convert::FromSpecImpl<StateMachine<AmbiguousScalar>>
    for StateMachine<AmbiguousColon> {
    open spec fn obeys_from_spec() -> bool {
        false
    }

    open spec fn from_spec(prev: StateMachine<AmbiguousScalar>) -> Self {
        arbitrary()
    }
}

impl From<StateMachine<AmbiguousScalar>> for StateMachine<ScalarLiteral> {
    fn from(prev: StateMachine<AmbiguousScalar>) -> (r: Self)
        ensures
            r.scan.wf() == prev.scan.wf(),
            r@ == (MachineView {
                phase: PhaseView::ScalarLiteral(prev.state.scratch@),
                scan: prev.scan@,
            }),
    {
        Self { state: ScalarLiteral::from(prev.state), scan: prev.scan }
    }
}

/// What `from` gives is stated by its `ensures`.
impl vstd::std_specs::convert::FromSpecImpl<StateMachine<AmbiguousScalar>>
    for StateMachine<ScalarLiteral> {
    open spec fn obeys_from_spec() -> bool {
        false
    }

    open spec fn from_spec(prev: StateMachine<AmbiguousScalar>) -> Self {
        arbitrary()
    }
}

impl From<StateMachine<AmbiguousColon>> for StateMachine<AmbiguousScalar> {
    fn from(prev: StateMachine<AmbiguousColon>) -> (r: Self)
        ensures
            r.scan.wf() == prev.scan.wf(),
            r@ == (MachineView {
                phase: PhaseView::AmbiguousScalar(prev.state.scratch@),
                scan: prev.scan@,
            }),
    {
        Self { state: AmbiguousScalar::from(prev.state), scan: prev.scan }
    }
}

/// What `from` gives is stated by its `ensures`.
impl vstd::std_specs::convert::FromSpecImpl<StateMachine<AmbiguousColon>>
    for StateMachine<AmbiguousScalar> {
    open spec fn obeys_from_spec() -> bool {
        false
    }

    open spec fn from_spec(prev: StateMachine<AmbiguousColon>) -> Self {
        arbitrary()
    }
}

impl From<StateMachine<AmbiguousColon>> for StateMachine<MapStart> {
    fn from(prev: StateMachine<AmbiguousColon>) -> (r: Self)
        ensures
            r.scan.wf() == prev.scan.wf(),
            r@ == (MachineView {
                phase: PhaseView::MapStart(prev.scan@.track.floor, prev.state.scratch@),
                scan: prev.scan@,
            }),
    {
        let state = MapStart::extend_from(prev.scan.floor(), prev.state.scratch);
        Self { state, scan: prev.scan }
    }
}

/// What `from` gives is stated by its `ensures`.
impl vstd::std_specs::convert::FromSpecImpl<StateMachine<AmbiguousColon>>
    for StateMachine<MapStart> {
    open spec fn obeys_from_spec() -> bool {
        false
    }

    open spec fn from_spec(prev: StateMachine<AmbiguousColon>) -> Self {
        arbitrary()
    }
}

/* Map */
impl From<StateMachine<MapStart>> for StateMachine<MapVerifyKey> {
    fn from(prev: StateMachine<MapStart>) -> (r: Self)
        ensures
            r.scan.wf() == prev.scan.wf(),
            r@ == (MachineView {
                phase: PhaseView::MapVerifyKey(prev.state.indent_floor, prev.state.scratch@),
                scan: prev.scan@,
            }),
    {
        Self { state: MapVerifyKey::from(prev.state), scan: prev.scan }
    }
}

/// What `from` gives is stated by its `ensures`.
impl vstd::std_specs::convert::FromSpecImpl<StateMachine<MapStart>> for StateMachine<MapVerifyKey> {
    open spec fn obeys_from_spec() -> bool {
        false
    }

    open spec fn from_spec(prev: StateMachine<MapStart>) -> Self {
        arbitrary()
    }
}

impl From<StateMachine<MapVerifyKey>> for StateMachine<MapWhiteSpace> {
    fn from(prev: StateMachine<MapVerifyKey>) -> (r: Self)
        ensures
            r.scan.wf() == prev.scan.wf(),
            r@ == (MachineView {
                phase: PhaseView::MapWhiteSpace(prev.state.indent_floor),
                scan: prev.scan@,
            }),
    {
        Self { state: MapWhiteSpace::from(prev.state), scan: prev.scan }
    }
}

/// What `from` gives is stated by its `ensures`.
impl vstd::std_specs::convert::FromSpecImpl<StateMachine<MapVerifyKey>>
    for StateMachine<MapWhiteSpace> {
    open spec fn obeys_from_spec() -> bool {
        false
    }

    open spec fn from_spec(prev: StateMachine<MapVerifyKey>) -> Self {
        arbitrary()
    }
}

impl From<StateMachine<MapWhiteSpace>> for StateMachine<MapValue> {
    fn from(prev: StateMachine<MapWhiteSpace>) -> (r: Self)
        ensures
            r.scan.wf() == prev.scan.wf(),
            r@ == (MachineView {
                phase: PhaseView::MapValue(prev.state.indent_floor, Seq::empty()),
                scan: prev.scan@,
            }),
    {
        Self { state: MapValue::from(prev.state), scan: prev.scan }
    }
}

/// What `from` gives is stated by its `ensures`.
impl vstd::std_specs::convert::FromSpecImpl<StateMachine<MapWhiteSpace>>
    for StateMachine<MapValue> {
    open spec fn obeys_from_spec() -> bool {
        false
    }

    open spec fn from_spec(prev: StateMachine<MapWhiteSpace>) -> Self {
        arbitrary()
    }
}

impl From<StateMachine<MapValue>> for StateMachine<LineEnd> {
    fn from(prev: StateMachine<MapValue>) -> (r: Self)
        ensures
            r.scan.wf() == prev.scan.wf(),
            r@ == (MachineView { phase: PhaseView::LineEnd, scan: prev.scan@ }),
    {
        Self { state: LineEnd, scan: prev.scan }
    }
}

/// What `from` gives is stated by its `ensures`.
impl vstd::std_specs::convert::FromSpecImpl<StateMachine<MapValue>> for StateMachine<LineEnd> {
    open spec fn obeys_from_spec() -> bool {
        false
    }

    open spec fn from_spec(prev: StateMachine<MapValue>) -> Self {
        arbitrary()
    }
}

/* Into Failure */
impl<S> From<(Error, StateMachine<S>)> for StateMachine<Failure> {
    fn from(pair: (Error, StateMachine<S>)) -> (r: Self)
        ensures
            r.scan.wf() == pair.1.scan.wf(),
            r@ == (MachineView { phase: PhaseView::Failure(Some(pair.0@)), scan: pair.1.scan@ }),
    {
        StateMachine { state: Failure::from(pair.0), scan: pair.1.scan }
    }
}

/// What `from` gives is stated by its `ensures`.
impl<S> vstd::std_specs::convert::FromSpecImpl<(Error, StateMachine<S>)> for StateMachine<Failure> {
    open spec fn obeys_from_spec() -> bool {
        false
    }

    open spec fn from_spec(pair: (Error, StateMachine<S>)) -> Self {
        arbitrary()
    }
}

impl<S> From<(Error, StateMachine<S, Active>)> for StateMachine<Failure> {
    fn from(pair: (Error, StateMachine<S, Active>)) -> (r: Self)
        ensures
            r.scan.wf() == pair.1.scan.wf(),
            r@ == (MachineView { phase: PhaseView::Failure(Some(pair.0@)), scan: pair.1.scan@ }),
    {
        StateMachine { state: Failure::from(pair.0), scan: pair.1.scan.deactivate() }
    }
}

/// What `from` gives is stated by its `ensures`.
impl<S> vstd::std_specs::convert::FromSpecImpl<(Error, StateMachine<S, Active>)>
    for StateMachine<Failure> {
    open spec fn obeys_from_spec() -> bool {
        false
    }

    open spec fn from_spec(pair: (Error, StateMachine<S, Active>)) -> Self {
        arbitrary()
    }
}

/* Into Done */
impl From<StateMachine<Start>> for StateMachine<Done> {
    fn from(prev: StateMachine<Start>) -> (r: Self)
        ensures
            r.scan.wf() == prev.scan.wf(),
            r@ == (MachineView { phase: PhaseView::Done, scan: prev.scan@ }),
    {
        Self { state: Done, scan: prev.scan }
    }
}

/// What `from` gives is stated by its `ensures`.
impl vstd::std_specs::convert::FromSpecImpl<StateMachine<Start>> for StateMachine<Done> {
    open spec fn obeys_from_spec() -> bool {
        false
    }

    open spec fn from_spec(prev: StateMachine<Start>) -> Self {
        arbitrary()
    }
}

impl From<StateMachine<LineEnd>> for StateMachine<Done> {
    fn from(prev: StateMachine<LineEnd>) -> (r: Self)
        ensures
            r.scan.wf() == prev.scan.wf(),
            r@ == (MachineView { phase: PhaseView::Done, scan: prev.scan@ }),
    {
        Self { state: Done, scan: prev.scan }
    }
}

/// What `from` gives is stated by its `ensures`.
impl vstd::std_specs::convert::FromSpecImpl<StateMachine<LineEnd>> for StateMachine<Done> {
    open spec fn obeys_from_spec() -> bool {
        false
    }

    open spec fn from_spec(prev: StateMachine<LineEnd>) -> Self {
        arbitrary()
    }
}

impl From<StateMachine<ScalarLiteral>> for StateMachine<Done> {
    fn from(prev: StateMachine<ScalarLiteral>) -> (r: Self)
        ensures
            r.scan.wf() == prev.scan.wf(),
            r@ == (MachineView { phase: PhaseView::Done, scan: prev.scan@ }),
    {
        Self { state: Done, scan: prev.scan }
    }
}

/// What `from` gives is stated by its `ensures`.
impl vstd::std_specs::convert::FromSpecImpl<StateMachine<ScalarLiteral>> for StateMachine<Done> {
    open spec fn obeys_from_spec() -> bool {
        false
    }

    open spec fn from_spec(prev: StateMachine<ScalarLiteral>) -> Self {
        arbitrary()
    }
}

impl From<StateMachine<MapValue>> for StateMachine<Done> {
    fn from(prev: StateMachine<MapValue>) -> (r: Self)
        ensures
            r.scan.wf() == prev.scan.wf(),
            r@ == (MachineView { phase: PhaseView::Done, scan: prev.scan@ }),
    {
        Self { state: Done, scan: prev.scan }
    }
}

/// What `from` gives is stated by its `ensures`.
impl vstd::std_specs::convert::FromSpecImpl<StateMachine<MapValue>> for StateMachine<Done> {
    open spec fn obeys_from_spec() -> bool {
        false
    }

    open spec fn from_spec(prev: StateMachine<MapValue>) -> Self {
        arbitrary()
    }
}

impl From<StateMachine<LineStart, Active>> for StateMachine<Done> {
    fn from(prev: StateMachine<LineStart, Active>) -> (r: Self)
        ensures
            r.scan.wf() == prev.scan.wf(),
            r@ == (MachineView { phase: PhaseView::Done, scan: prev.scan@ }),
    {
        Self { state: Done, scan: prev.scan.deactivate() }
    }
}

/// What `from` gives is stated by its `ensures`.
impl vstd::std_specs::convert::FromSpecImpl<StateMachine<LineStart, Active>>
    for StateMachine<Done> {
    open spec fn obeys_from_spec() -> bool {
        false
    }

    open spec fn from_spec(prev: StateMachine<LineStart, Active>) -> Self {
        arbitrary()
    }
}

} // verus!
