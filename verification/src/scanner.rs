//! The lookahead cursor over a byte source, and the indentation tracker that
//! travels with it.
use vstd::prelude::*;
use crate::error::{outcome, ErrData, Error, ErrorView, KindView};
use crate::source::{feed, Feed, Source};

verus! {

/// Marks a tracker, or the cursor that holds it, as recording indentation.
#[derive(Debug, Default)]
pub struct Active;

/// Marks a tracker, or the cursor that holds it, as at rest.
#[derive(Debug, Default)]
pub struct Inactive;

/// What an indentation tracker holds.
pub struct TrackView {
    /// Whether the floor is kept from rising.
    pub clamp: bool,
    pub floor: usize,
    pub previous: usize,
    pub current: usize,
    /// Every indentation recorded so far, oldest first.
    pub history: Seq<usize>,
}

/// The tracker that a machine starts with: nothing recorded, the floor at
/// zero and free to rise.
pub open spec fn track_start() -> TrackView {
    TrackView { clamp: false, floor: 0, previous: 0, current: 0, history: Seq::empty() }
}

/// The tracker after recording the indentation `new`: it joins the history,
/// becomes the current indentation, the former current one becomes the
/// previous one, and the floor rises to it if it is higher and the floor is
/// not clamped.
pub open spec fn track_updated(track: TrackView, new: usize) -> TrackView {
    TrackView {
        clamp: track.clamp,
        floor: if !track.clamp && new > track.floor {
            new
        } else {
            track.floor
        },
        previous: track.current,
        current: new,
        history: track.history.push(new),
    }
}

/// The indentation recorded last, or zero before the first.
pub open spec fn latest(history: Seq<usize>) -> usize {
    if history.len() >= 1 {
        history[history.len() - 1]
    } else {
        0
    }
}

/// The indentation recorded before the last, or zero where there is none.
pub open spec fn before_latest(history: Seq<usize>) -> usize {
    if history.len() >= 2 {
        history[history.len() - 2]
    } else {
        0
    }
}

/// Recording an indentation keeps the counters in step with the history:
/// the current indentation is the one recorded last, the previous one is the
/// one recorded before it, and the history has grown by that one entry.
pub proof fn law_update_keeps_counters(track: TrackView, new: usize)
    requires
        track_wf(track),
    ensures
        track_wf(track_updated(track, new)),
        track_updated(track, new).current == new,
        track_updated(track, new).previous == track.current,
        track_updated(track, new).history.len() == track.history.len() + 1,
        track.history.is_prefix_of(track_updated(track, new).history),
{
}

/// Recording an indentation never lowers the floor. A clamped floor stays
/// where it is; an unclamped one rises to the new indentation if that is
/// higher.
pub proof fn law_floor_never_falls(track: TrackView, new: usize)
    ensures
        track_updated(track, new).floor >= track.floor,
        track_updated(track, new).clamp == track.clamp,
        track.clamp ==> track_updated(track, new).floor == track.floor,
        !track.clamp ==> track_updated(track, new).floor == (if new > track.floor {
            new
        } else {
            track.floor
        }),
{
}

#[derive(Debug)]
pub struct IndentTrack<S = Inactive> {
    // Flags
    state: S,
    clamp_floor: bool,
    // Values
    floor: usize,
    previous: usize,
    current: usize,
    // Misc
    history: Vec<usize>,
}

impl<S> View for IndentTrack<S> {
    type V = TrackView;

    closed spec fn view(&self) -> TrackView {
        TrackView {
            clamp: self.clamp_floor,
            floor: self.floor,
            previous: self.previous,
            current: self.current,
            history: self.history@,
        }
    }
}

/// Whether the current and the previous indentation are the two that were
/// recorded last.
pub open spec fn track_wf(track: TrackView) -> bool {
    &&& track.current == latest(track.history)
    &&& track.previous == before_latest(track.history)
}

impl<S> IndentTrack<S> {
    /// Whether the tracker's counters agree with its history.
    pub open spec fn wf(&self) -> bool {
        track_wf(self@)
    }

    pub fn current(&self) -> (r: usize)
        ensures
            r == self@.current,
    {
        self.current
    }

    pub fn previous(&self) -> (r: usize)
        ensures
            r == self@.previous,
    {
        self.previous
    }

    pub fn floor(&self) -> (r: usize)
        ensures
            r == self@.floor,
    {
        self.floor
    }

    pub fn history(&self) -> (r: &[usize])
        ensures
            r@ == self@.history,
    {
        self.history.as_slice()
    }

    pub fn clamp(&mut self)
        ensures
            final(self)@ == (TrackView { clamp: true, ..old(self)@ }),
    {
        self.clamp_floor = true;
    }

    pub fn unclamp(&mut self)
        ensures
            final(self)@ == (TrackView { clamp: false, ..old(self)@ }),
    {
        self.clamp_floor = false;
    }
}

impl IndentTrack<Active> {
    pub fn update(&mut self, new: usize)
        ensures
            final(self)@ == track_updated(old(self)@, new),
    {
        let raise = !self.clamp_floor && new > self.floor;
        let shifted = self.current;
        self.history.push(new);
        self.previous = shifted;
        self.current = new;
        if raise {
            self.floor = new;
        }
    }

    pub fn deactivate(self) -> (r: IndentTrack<Inactive>)
        ensures
            r@ == self@,
    {
        IndentTrack {
            state: Inactive,
            clamp_floor: self.clamp_floor,
            floor: self.floor,
            previous: self.previous,
            current: self.current,
            history: self.history,
        }
    }
}

impl IndentTrack<Inactive> {
    pub fn activate(self) -> (r: IndentTrack<Active>)
        ensures
            r@ == self@,
    {
        IndentTrack {
            state: Active,
            clamp_floor: self.clamp_floor,
            floor: self.floor,
            previous: self.previous,
            current: self.current,
            history: self.history,
        }
    }
}

impl Default for IndentTrack {
    fn default() -> (r: Self)
        ensures
            r@ == track_start(),
    {
        Self {
            state: Inactive,
            clamp_floor: false,
            floor: 0,
            previous: 0,
            current: 0,
            history: Vec::new(),
        }
    }
}

/// A cursor over a byte source that looks one byte ahead, together with the
/// indentation tracker.
#[derive(Debug)]
pub struct Scan<S = Inactive> {
    ch: Option<u8>,
    iter: Source,
    indent: IndentTrack<S>,
}

impl<S> Scan<S> {
    /// Whether the cursor is sound: the byte it holds came from its source,
    /// and its tracker's counters agree with the tracker's history.
    pub closed spec fn wf(&self) -> bool {
        &&& self.ch is Some ==> self.iter.remaining().len() < usize::MAX
        &&& self.indent.wf()
    }

    /// What is left to consume fits in memory.
    pub proof fn lemma_rest_fits(&self)
        requires
            self.wf(),
        ensures
            self.rest().len() <= usize::MAX,
            track_wf(self.track()),
    {
        self.iter.lemma_remaining_fits();
    }

    /// The byte that was looked at and not consumed yet, if there is one.
    pub closed spec fn cached(&self) -> Option<u8> {
        self.ch
    }

    /// The bytes that are still to be consumed: the byte looked at, if any,
    /// and then what the source has left.
    pub closed spec fn rest(&self) -> Seq<u8> {
        match self.ch {
            Some(b) => seq![b] + self.iter.remaining(),
            None => self.iter.remaining(),
        }
    }

    /// The report of the failure that the input ends in, if it ends in one.
    pub closed spec fn failure(&self) -> Option<Seq<char>> {
        self.iter.failure()
    }

    /// How many bytes the cursor has taken from its source.
    pub closed spec fn pulled(&self) -> nat {
        self.iter.pulled()
    }

    /// The state of the indentation tracker.
    pub closed spec fn track(&self) -> TrackView {
        self.indent@
    }

    /// Takes the next byte: the one looked at, if any, else a fresh one from
    /// the source.
    pub fn next(&mut self) -> (r: Result<Option<u8>, Error>)
        requires
            old(self).wf(),
        ensures
            final(self).wf(),
            outcome(r) == looked(old(self)@),
            final(self).rest() == (if old(self).rest().len() > 0 {
                old(self).rest().drop_first()
            } else {
                old(self).rest()
            }),
            final(self).failure() == old(self).failure(),
            final(self).track() == old(self).track(),
            final(self).cached() is None,
            final(self).pulled() == old(self).pulled() + fresh(old(self).cached(), old(self)@),
    {
        match self.ch {
            Some(b) => {
                self.ch = None;
                assert((seq![b] + self.iter.remaining()).drop_first() == self.iter.remaining());
                Ok(Some(b))
            },
            None => match self.iter.next_byte() {
                Ok(Some(b)) => Ok(Some(b)),
                Ok(None) => Ok(None),
                Err(report) => Err(Error::from(ErrData::from_io(report))),
            },
        }
    }

    /// Looks at the next byte without consuming it. Looking again yields the
    /// same byte and takes nothing more from the source.
    pub fn peak(&mut self) -> (r: Result<Option<u8>, Error>)
        requires
            old(self).wf(),
        ensures
            final(self).wf(),
            outcome(r) == looked(old(self)@),
            final(self).rest() == old(self).rest(),
            final(self).failure() == old(self).failure(),
            final(self).track() == old(self).track(),
            final(self).cached() == (if old(self).rest().len() > 0 {
                Some(old(self).rest()[0])
            } else {
                None
            }),
            final(self).pulled() == old(self).pulled() + fresh(old(self).cached(), old(self)@),
    {
        proof {
            self.iter.lemma_remaining_fits();
        }
        match self.ch {
            Some(b) => Ok(Some(b)),
            None => match self.iter.next_byte() {
                Ok(Some(b)) => {
                    self.ch = Some(b);
                    assert(seq![b] + self.iter.remaining() == old(self).iter.remaining());
                    Ok(Some(b))
                },
                Ok(None) => Ok(None),
                Err(report) => Err(Error::from(ErrData::from_io(report))),
            },
        }
    }

    /// Consumes the byte that was looked at. Where none was looked at,
    /// nothing is consumed.
    pub fn discard(&mut self)
        requires
            old(self).wf(),
        ensures
            final(self).wf(),
            final(self).cached() is None,
            final(self).rest() == (if old(self).cached() is Some {
                old(self).rest().drop_first()
            } else {
                old(self).rest()
            }),
            final(self).failure() == old(self).failure(),
            final(self).track() == old(self).track(),
            final(self).pulled() == old(self).pulled(),
    {
        proof {
            if self.ch is Some {
                assert((seq![self.ch->Some_0] + self.iter.remaining()).drop_first()
                    == self.iter.remaining());
            }
        }
        self.ch = None;
    }

    pub fn current(&self) -> (r: usize)
        ensures
            r == self.track().current,
    {
        self.indent.current()
    }

    pub fn previous(&self) -> (r: usize)
        ensures
            r == self.track().previous,
    {
        self.indent.previous()
    }

    pub fn floor(&self) -> (r: usize)
        ensures
            r == self.track().floor,
    {
        self.indent.floor()
    }

    pub fn history(&self) -> (r: &[usize])
        ensures
            r@ == self.track().history,
    {
        self.indent.history()
    }

    pub fn clamp(&mut self)
        requires
            old(self).wf(),
        ensures
            final(self).wf(),
            final(self).track() == (TrackView { clamp: true, ..old(self).track() }),
            final(self).rest() == old(self).rest(),
            final(self).cached() == old(self).cached(),
            final(self).failure() == old(self).failure(),
            final(self).pulled() == old(self).pulled(),
    {
        self.indent.clamp()
    }

    pub fn unclamp(&mut self)
        requires
            old(self).wf(),
        ensures
            final(self).wf(),
            final(self).track() == (TrackView { clamp: false, ..old(self).track() }),
            final(self).rest() == old(self).rest(),
            final(self).cached() == old(self).cached(),
            final(self).failure() == old(self).failure(),
            final(self).pulled() == old(self).pulled(),
    {
        self.indent.unclamp()
    }
}

/// What a cursor holds, as far as the scanner's rules read it.
pub struct ScanView {
    /// The bytes that are still to be consumed.
    pub rest: Seq<u8>,
    /// The report of the failure that the input ends in, if it ends in one.
    pub failure: Option<Seq<char>>,
    /// The state of the indentation tracker.
    pub track: TrackView,
}

impl<S> View for Scan<S> {
    type V = ScanView;

    open spec fn view(&self) -> ScanView {
        ScanView { rest: self.rest(), failure: self.failure(), track: self.track() }
    }
}

/// What a look at the bytes ahead yields: the next byte, nothing at the
/// clean end of the input, or the error for the failure that the input ends
/// in.
pub open spec fn looked(scan: ScanView) -> Result<Option<u8>, ErrorView> {
    match feed(scan.rest, scan.failure) {
        Feed::Byte(b) => Ok(Some(b)),
        Feed::End => Ok(None),
        Feed::Fault(report) => Err(source_failure(report)),
    }
}

/// How many bytes a look takes from the source: one where a byte is ahead
/// and the cursor does not hold it yet, else none.
pub open spec fn fresh(cached: Option<u8>, scan: ScanView) -> nat {
    if cached is None && scan.rest.len() > 0 {
        1
    } else {
        0
    }
}

/// The error that a failure of the source is reported as.
pub open spec fn source_failure(report: Seq<char>) -> ErrorView {
    ErrorView { kind: KindView::Io(report), context: None }
}

impl Scan<Active> {
    /// Records the indentation of the line that starts here.
    pub fn update_indent(&mut self, new: usize)
        requires
            old(self).wf(),
        ensures
            final(self).wf(),
            final(self).track() == track_updated(old(self).track(), new),
            final(self).rest() == old(self).rest(),
            final(self).cached() == old(self).cached(),
            final(self).failure() == old(self).failure(),
            final(self).pulled() == old(self).pulled(),
    {
        self.indent.update(new);
    }

    pub fn deactivate(self) -> (r: Scan<Inactive>)
        ensures
            r.wf() == self.wf(),
            r.track() == self.track(),
            r.rest() == self.rest(),
            r.cached() == self.cached(),
            r.failure() == self.failure(),
            r.pulled() == self.pulled(),
    {
        Scan { ch: self.ch, iter: self.iter, indent: self.indent.deactivate() }
    }
}

impl Scan<Inactive> {
    /// A cursor at the start of `iter`, with a tracker that has recorded
    /// nothing.
    pub fn new(iter: Source) -> (r: Self)
        ensures
            r.wf(),
            r.rest() == iter.remaining(),
            r.failure() == iter.failure(),
            r.pulled() == iter.pulled(),
            r.cached() is None,
            r.track() == track_start(),
    {
        Self { ch: None, iter, indent: IndentTrack::default() }
    }

    pub fn activate(self) -> (r: Scan<Active>)
        ensures
            r.wf() == self.wf(),
            r.track() == self.track(),
            r.rest() == self.rest(),
            r.cached() == self.cached(),
            r.failure() == self.failure(),
            r.pulled() == self.pulled(),
    {
        Scan { ch: self.ch, iter: self.iter, indent: self.indent.activate() }
    }
}

} // verus!
