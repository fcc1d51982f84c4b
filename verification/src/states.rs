//! The phases of the scanner. Each phase looks at the bytes ahead, consumes
//! what belongs to it, and names the phase that follows with a [`Marker`].
use vstd::prelude::*;
use crate::error::{bad_char, expected, outcome, plain, Error, ErrorKind, ErrorView, KindView};
use crate::scanner::{source_failure, track_updated, Active, Scan, ScanView};
use crate::source::{feed, Feed};

verus! {

pub const TAB: u8 = 9;

pub const LINE_FEED: u8 = 10;

pub const CARRIAGE_RETURN: u8 = 13;

pub const SPACE: u8 = 32;

pub const COLON: u8 = 58;

/// A space or a tab.
pub open spec fn blank(c: u8) -> bool {
    c == TAB || c == SPACE
}

/// An ASCII letter.
pub open spec fn letter(c: u8) -> bool {
    (97 <= c && c <= 122) || (65 <= c && c <= 90)
}

/// A line feed or a carriage return.
pub open spec fn line_break(c: u8) -> bool {
    c == LINE_FEED || c == CARRIAGE_RETURN
}

/// The classes of bytes that the phases consume in runs.
pub enum ByteClass {
    /// Spaces and tabs.
    Blank,
    /// Letters, spaces and tabs: what a key or a scalar is made of.
    Text,
    /// Everything but line feed and carriage return.
    Inline,
}

pub open spec fn in_class(c: u8, class: ByteClass) -> bool {
    match class {
        ByteClass::Blank => blank(c),
        ByteClass::Text => letter(c) || blank(c),
        ByteClass::Inline => !line_break(c),
    }
}

/// How many bytes at the start of `s` belong to `class`.
pub open spec fn leading(s: Seq<u8>, class: ByteClass) -> nat
    decreases s.len(),
{
    if s.len() > 0 && in_class(s[0], class) {
        1 + leading(s.drop_first(), class)
    } else {
        0
    }
}

/// `s` without the blanks at its end.
pub open spec fn trimmed(s: Seq<u8>) -> Seq<u8>
    decreases s.len(),
{
    if s.len() > 0 && blank(s.last()) {
        trimmed(s.drop_last())
    } else {
        s
    }
}

/// The run at the start of `s` ends within `s`, holds only bytes of the
/// class, and is followed by a byte that is not of the class.
pub proof fn lemma_leading(s: Seq<u8>, class: ByteClass)
    ensures
        leading(s, class) <= s.len(),
        forall|i: int| 0 <= i < leading(s, class) ==> in_class(#[trigger] s[i], class),
        leading(s, class) < s.len() ==> !in_class(s[leading(s, class) as int], class),
    decreases s.len(),
{
    if s.len() > 0 && in_class(s[0], class) {
        let tail = s.drop_first();
        lemma_leading(tail, class);
        assert forall|i: int| 0 <= i < leading(s, class) implies in_class(
            #[trigger] s[i],
            class,
        ) by {
            if i > 0 {
                assert(s[i] == tail[i - 1]);
            }
        }
        if leading(s, class) < s.len() {
            assert(s[leading(s, class) as int] == tail[leading(tail, class) as int]);
        }
    }
}

/// A prefix of `n` bytes of the class that is followed by the end or by a
/// byte that is not of the class is the whole run.
pub proof fn lemma_leading_is(s: Seq<u8>, class: ByteClass, n: nat)
    requires
        n <= s.len(),
        forall|i: int| 0 <= i < n ==> in_class(#[trigger] s[i], class),
        n < s.len() ==> !in_class(s[n as int], class),
    ensures
        leading(s, class) == n,
    decreases n,
{
    if n > 0 {
        let tail = s.drop_first();
        assert(in_class(s[0], class));
        assert forall|i: int| 0 <= i < n - 1 implies in_class(#[trigger] tail[i], class) by {
            assert(tail[i] == s[i + 1]);
        }
        if n - 1 < tail.len() {
            assert(tail[n - 1] == s[n as int]);
        }
        lemma_leading_is(tail, class, (n - 1) as nat);
    }
}

#[derive(Debug, Clone, Copy, PartialEq, Eq)]
pub enum Marker {
    // Base
    Start,
    LineEnd,
    LineStart,
    Done,
    // Ambiguous
    AmbiguousScalar,
    AmbiguousColon,
    // Map
    MapStart,
    MapVerifyKey,
    MapWhiteSpace,
    MapValue,
    MapEnd,
    // Scalar
    ScalarLiteral,
}

pub fn is_whitespace(c: &u8) -> (r: bool)
    ensures
        r == blank(*c),
{
    *c == TAB || *c == SPACE
}

pub fn is_letter(c: u8) -> (r: bool)
    ensures
        r == letter(c),
{
    (97 <= c && c <= 122) || (65 <= c && c <= 90)
}

/// The cursor `scan` moved on by `n` bytes.
pub open spec fn advanced(scan: ScanView, n: int) -> ScanView {
    ScanView { rest: scan.rest.skip(n), ..scan }
}

/// What lies ahead of a cursor.
pub open spec fn ahead(scan: ScanView) -> Feed {
    feed(scan.rest, scan.failure)
}

/* Base */

/// The phase before the first byte.
#[derive(Debug, Default)]
pub struct Start;

/// What follows the start: a line if there is any byte, the end if there is none.
pub open spec fn start_next(scan: ScanView) -> Result<Marker, ErrorView> {
    match ahead(scan) {
        Feed::Byte(_) => Ok(Marker::LineStart),
        Feed::End => Ok(Marker::Done),
        Feed::Fault(report) => Err(source_failure(report)),
    }
}

impl Start {
    pub fn find_next(&self, iter: &mut Scan) -> (r: Result<Marker, Error>)
        requires
            old(iter).wf(),
        ensures
            final(iter).wf(),
            final(iter)@ == old(iter)@,
            outcome(r) == start_next(old(iter)@),
    {
        match iter.peak() {
            Ok(Some(_)) => Ok(Marker::LineStart),
            Ok(None) => Ok(Marker::Done),
            Err(e) => Err(e),
        }
    }
}

/// The phase at the first byte of a line: it counts the indentation.
#[derive(Debug, Default)]
pub struct LineStart;

/// What follows the indentation of a line: the line's end if the line is
/// blank, its content if it has any, the end of the document if nothing
/// follows.
pub open spec fn line_start_next(scan: ScanView) -> Result<Marker, ErrorView> {
    match ahead(scan) {
        Feed::Byte(c) => if line_break(c) {
            Ok(Marker::LineEnd)
        } else {
            Ok(Marker::AmbiguousScalar)
        },
        Feed::End => Ok(Marker::Done),
        Feed::Fault(report) => Err(source_failure(report)),
    }
}

/// Counting the indentation consumes the blanks at the start of the line and
/// yields their number, unless the source fails right after them.
pub open spec fn indent_counted(scan: ScanView) -> (ScanView, Result<usize, ErrorView>) {
    let n = leading(scan.rest, ByteClass::Blank);
    let after = advanced(scan, n as int);
    (
        after,
        match ahead(after) {
            Feed::Fault(report) => Err(source_failure(report)),
            _ => Ok(n as usize),
        },
    )
}

/// Recording the indentation counts it and, if that went well, hands the
/// count to the tracker.
pub open spec fn indent_recorded(scan: ScanView) -> (ScanView, Result<(), ErrorView>) {
    let (after, counted) = indent_counted(scan);
    match counted {
        Ok(n) => (ScanView { track: track_updated(after.track, n), ..after }, Ok(())),
        Err(err) => (after, Err(err)),
    }
}

impl LineStart {
    pub fn find_next(&self, iter: &mut Scan<Active>) -> (r: Result<Marker, Error>)
        requires
            old(iter).wf(),
        ensures
            final(iter).wf(),
            final(iter)@ == old(iter)@,
            outcome(r) == line_start_next(old(iter)@),
    {
        match iter.peak() {
            Ok(Some(c)) => {
                if c == LINE_FEED || c == CARRIAGE_RETURN {
                    Ok(Marker::LineEnd)
                } else {
                    Ok(Marker::AmbiguousScalar)
                }
            },
            Ok(None) => Ok(Marker::Done),
            Err(e) => Err(e),
        }
    }

    pub fn update_indent(&self, iter: &mut Scan<Active>) -> (r: Result<(), Error>)
        requires
            old(iter).wf(),
        ensures
            final(iter).wf(),
            (final(iter)@, outcome(r)) == indent_recorded(old(iter)@),
    {
        match self.count_indent(iter) {
            Ok(indent) => {
                iter.update_indent(indent);
                Ok(())
            },
            Err(e) => Err(e),
        }
    }

    pub fn count_indent(&self, iter: &mut Scan<Active>) -> (r: Result<usize, Error>)
        requires
            old(iter).wf(),
        ensures
            final(iter).wf(),
            (final(iter)@, outcome(r)) == indent_counted(old(iter)@),
    {
        let ghost start = iter@;
        let mut count: usize = 0;
        proof {
            iter.lemma_rest_fits();
            lemma_leading(start.rest, ByteClass::Blank);
            assert(start.rest.skip(0) == start.rest);
        }
        loop
            invariant
                iter.wf(),
                start == old(iter)@,
                iter@ == advanced(start, count as int),
                count + leading(iter@.rest, ByteClass::Blank) == leading(
                    start.rest,
                    ByteClass::Blank,
                ),
                leading(start.rest, ByteClass::Blank) <= usize::MAX,
                count <= start.rest.len(),
            decreases iter@.rest.len(),
        {
            match iter.peak() {
                Ok(Some(c)) => {
                    if is_whitespace(&c) {
                        iter.discard();
                        proof {
                            assert(start.rest.skip(count as int).drop_first() == start.rest.skip(
                                count + 1,
                            ));
                        }
                        count += 1;
                    } else {
                        return Ok(count);
                    }
                },
                Ok(None) => {
                    return Ok(count);
                },
                Err(e) => {
                    return Err(e);
                },
            }
        }
    }
}

/// Moving on by one byte after `k` bytes is moving on by `k + 1`.
pub proof fn lemma_skip_step(s: Seq<u8>, k: int)
    requires
        0 <= k < s.len(),
    ensures
        s.skip(k).drop_first() == s.skip(k + 1),
        s.skip(k)[0] == s[k],
{
    assert(s.skip(k).drop_first() =~= s.skip(k + 1));
}

/// The phase at the end of a line: it consumes the line terminator.
#[derive(Debug, Default)]
pub struct LineEnd;

/// Closing a line consumes everything up to and including the next line
/// feed, or carriage return and line feed. A carriage return that no line
/// feed follows is an error, and so is the end of the input before any
/// terminator.
pub open spec fn line_closed(scan: ScanView) -> (ScanView, Result<(), ErrorView>) {
    let k = leading(scan.rest, ByteClass::Inline) as int;
    let at = advanced(scan, k);
    match ahead(at) {
        Feed::Byte(c) => if c == LINE_FEED {
            (advanced(scan, k + 1), Ok(()))
        } else {
            let past = advanced(scan, k + 1);
            match ahead(past) {
                Feed::Byte(d) => if d == LINE_FEED {
                    (advanced(scan, k + 2), Ok(()))
                } else {
                    (past, Err(plain(KindView::SoloCarriageReturn)))
                },
                Feed::End => (past, Err(plain(KindView::SoloCarriageReturn))),
                Feed::Fault(report) => (past, Err(source_failure(report))),
            }
        },
        Feed::End => (at, Err(bad_char(KindView::InvalidEOL, LINE_FEED))),
        Feed::Fault(report) => (at, Err(source_failure(report))),
    }
}

/// What follows a closed line: another line if a letter or a blank comes,
/// the end of the document if nothing comes.
pub open spec fn line_end_next(scan: ScanView) -> Result<Marker, ErrorView> {
    match ahead(scan) {
        Feed::Byte(c) => if letter(c) || blank(c) {
            Ok(Marker::LineStart)
        } else {
            Err(bad_char(KindView::InvalidChar, c))
        },
        Feed::End => Ok(Marker::Done),
        Feed::Fault(report) => Err(source_failure(report)),
    }
}

impl LineEnd {
    pub fn find_next(&self, iter: &mut Scan) -> (r: Result<Marker, Error>)
        requires
            old(iter).wf(),
        ensures
            final(iter).wf(),
            final(iter)@ == old(iter)@,
            outcome(r) == line_end_next(old(iter)@),
    {
        match iter.peak() {
            Ok(Some(c)) => {
                if is_letter(c) || is_whitespace(&c) {
                    Ok(Marker::LineStart)
                } else {
                    Err(Error::from(ErrorKind::InvalidChar.with_context(c)))
                }
            },
            Ok(None) => Ok(Marker::Done),
            Err(e) => Err(e),
        }
    }

    pub fn close_line(&self, iter: &mut Scan) -> (r: Result<(), Error>)
        requires
            old(iter).wf(),
        ensures
            final(iter).wf(),
            (final(iter)@, outcome(r)) == line_closed(old(iter)@),
    {
        let ghost start = iter@;
        let ghost mut k: int = 0;
        proof {
            lemma_leading(start.rest, ByteClass::Inline);
            assert(start.rest.skip(0) == start.rest);
        }
        loop
            invariant
                iter.wf(),
                start == old(iter)@,
                0 <= k <= start.rest.len(),
                iter@ == advanced(start, k),
                k + leading(iter@.rest, ByteClass::Inline) == leading(
                    start.rest,
                    ByteClass::Inline,
                ),
            decreases iter@.rest.len(),
        {
            match iter.peak() {
                Ok(Some(c)) => {
                    proof {
                        lemma_skip_step(start.rest, k);
                    }
                    iter.discard();
                    if c == LINE_FEED {
                        return Ok(());
                    } else if c == CARRIAGE_RETURN {
                        match iter.peak() {
                            Ok(Some(d)) => {
                                if d == LINE_FEED {
                                    proof {
                                        lemma_skip_step(start.rest, k + 1);
                                    }
                                    iter.discard();
                                    return Ok(());
                                } else {
                                    return Err(Error::from(ErrorKind::SoloCarriageReturn));
                                }
                            },
                            Ok(None) => {
                                return Err(Error::from(ErrorKind::SoloCarriageReturn));
                            },
                            Err(e) => {
                                return Err(e);
                            },
                        }
                    } else {
                        proof {
                            k = k + 1;
                        }
                    }
                },
                Ok(None) => {
                    return Err(Error::from(ErrorKind::InvalidEOL.with_context(LINE_FEED)));
                },
                Err(e) => {
                    return Err(e);
                },
            }
        }
    }
}

/* Ambiguous */

/// The phase that gathers text which may turn out a key or a scalar.
#[derive(Debug, Default)]
pub struct AmbiguousScalar {
    pub scratch: Vec<u8>,
}

/// Gathering text consumes the letters and blanks ahead into the scratch
/// buffer. A colon after them may end a key, the end of the input ends a
/// scalar, and any other byte is not accepted.
pub open spec fn text_gathered(scratch: Seq<u8>, scan: ScanView) -> (
    Seq<u8>,
    ScanView,
    Result<Marker, ErrorView>,
) {
    let n = leading(scan.rest, ByteClass::Text) as int;
    let after = advanced(scan, n);
    (
        scratch + scan.rest.take(n),
        after,
        match ahead(after) {
            Feed::Byte(c) => if c == COLON {
                Ok(Marker::AmbiguousColon)
            } else {
                Err(bad_char(KindView::InvalidChar, c))
            },
            Feed::End => Ok(Marker::ScalarLiteral),
            Feed::Fault(report) => Err(source_failure(report)),
        },
    )
}

impl AmbiguousScalar {
    pub fn find_next(&mut self, iter: &mut Scan) -> (r: Result<Marker, Error>)
        requires
            old(iter).wf(),
        ensures
            final(iter).wf(),
            (final(self).scratch@, final(iter)@, outcome(r)) == text_gathered(
                old(self).scratch@,
                old(iter)@,
            ),
    {
        let ghost start = iter@;
        let ghost held = self.scratch@;
        let ghost mut n: int = 0;
        proof {
            lemma_leading(start.rest, ByteClass::Text);
            assert(start.rest.skip(0) == start.rest);
            assert(held + start.rest.take(0) == held);
        }
        loop
            invariant
                iter.wf(),
                start == old(iter)@,
                held == old(self).scratch@,
                0 <= n <= start.rest.len(),
                iter@ == advanced(start, n),
                self.scratch@ == held + start.rest.take(n),
                n + leading(iter@.rest, ByteClass::Text) == leading(start.rest, ByteClass::Text),
            decreases iter@.rest.len(),
        {
            match iter.peak() {
                Ok(Some(ch)) => {
                    if is_whitespace(&ch) || is_letter(ch) {
                        iter.discard();
                        self.scratch.push(ch);
                        proof {
                            lemma_skip_step(start.rest, n);
                            assert(held + start.rest.take(n + 1) == (held + start.rest.take(
                                n,
                            )).push(ch));
                            n = n + 1;
                        }
                    } else if ch == COLON {
                        return Ok(Marker::AmbiguousColon);
                    } else {
                        return Err(Error::from(ErrorKind::InvalidChar.with_context(ch)));
                    }
                },
                Ok(None) => {
                    return Ok(Marker::ScalarLiteral);
                },
                Err(e) => {
                    return Err(e);
                },
            }
        }
    }
}

impl From<AmbiguousScalar> for AmbiguousColon {
    fn from(prev: AmbiguousScalar) -> (r: Self)
        ensures
            r.scratch == prev.scratch,
    {
        Self { scratch: prev.scratch }
    }
}

impl vstd::std_specs::convert::FromSpecImpl<AmbiguousScalar> for AmbiguousColon {
    open spec fn obeys_from_spec() -> bool {
        true
    }

    open spec fn from_spec(prev: AmbiguousScalar) -> Self {
        AmbiguousColon { scratch: prev.scratch }
    }
}

/// The phase at a colon that follows gathered text: the colon ends a key if
/// a blank follows it.
#[derive(Debug)]
pub struct AmbiguousColon {
    pub scratch: Vec<u8>,
}

/// At a colon: the colon is consumed; if a blank follows, the blank is
/// consumed too and a mapping starts; if a letter follows, the text goes on.
/// Anything else after the colon, and anything but a colon to begin with, is
/// an error.
pub open spec fn colon_next(scan: ScanView) -> (ScanView, Result<Marker, ErrorView>) {
    match ahead(scan) {
        Feed::Byte(c) => if c == COLON {
            let past = advanced(scan, 1);
            match ahead(past) {
                Feed::Byte(d) => if blank(d) {
                    (advanced(scan, 2), Ok(Marker::MapStart))
                } else if letter(d) {
                    (past, Ok(Marker::AmbiguousScalar))
                } else {
                    (past, Err(bad_char(KindView::InvalidChar, d)))
                },
                Feed::End => (past, Err(plain(KindView::InvalidEOF))),
                Feed::Fault(report) => (past, Err(source_failure(report))),
            }
        } else {
            (scan, Err(expected(KindView::InvalidChar, seq![COLON], c)))
        },
        Feed::End => (scan, Err(plain(KindView::InvalidEOF))),
        Feed::Fault(report) => (scan, Err(source_failure(report))),
    }
}

impl AmbiguousColon {
    pub fn find_next(&mut self, iter: &mut Scan) -> (r: Result<Marker, Error>)
        requires
            old(iter).wf(),
        ensures
            final(iter).wf(),
            final(self).scratch == old(self).scratch,
            (final(iter)@, outcome(r)) == colon_next(old(iter)@),
    {
        proof {
            assert(iter@.rest.skip(0) == iter@.rest);
        }
        match iter.peak() {
            Ok(Some(c)) => {
                if c == COLON {
                    proof {
                        lemma_skip_step(iter@.rest, 0);
                    }
                    iter.discard();
                    match iter.peak() {
                        Ok(Some(d)) => {
                            if is_whitespace(&d) {
                                proof {
                                    lemma_skip_step(old(iter)@.rest, 1);
                                }
                                iter.discard();
                                Ok(Marker::MapStart)
                            } else if is_letter(d) {
                                Ok(Marker::AmbiguousScalar)
                            } else {
                                Err(Error::from(ErrorKind::InvalidChar.with_context(d)))
                            }
                        },
                        Ok(None) => Err(Error::from(ErrorKind::InvalidEOF)),
                        Err(e) => Err(e),
                    }
                } else {
                    let good: Vec<u8> = vec![COLON];
                    assert(good@ =~= seq![COLON]);
                    Err(Error::from(ErrorKind::InvalidChar.with_context((good, c))))
                }
            },
            Ok(None) => Err(Error::from(ErrorKind::InvalidEOF)),
            Err(e) => Err(e),
        }
    }
}

impl From<AmbiguousColon> for AmbiguousScalar {
    fn from(prev: AmbiguousColon) -> (r: Self)
        ensures
            r.scratch == prev.scratch,
    {
        Self { scratch: prev.scratch }
    }
}

impl vstd::std_specs::convert::FromSpecImpl<AmbiguousColon> for AmbiguousScalar {
    open spec fn obeys_from_spec() -> bool {
        true
    }

    open spec fn from_spec(prev: AmbiguousColon) -> Self {
        AmbiguousScalar { scratch: prev.scratch }
    }
}

/* Exit */

/// The phase after the last byte.
#[derive(Debug, Default)]
pub struct Done;

/// The phase after an error. It holds the error until it has been reported.
#[derive(Debug)]
pub struct Failure(pub Option<Error>);

impl View for Failure {
    type V = Option<ErrorView>;

    open spec fn view(&self) -> Option<ErrorView> {
        match self.0 {
            Some(err) => Some(err@),
            None => None,
        }
    }
}

/// The error that a failed machine reports: the one it holds, or, once that
/// has been reported, the repeat of a failure.
pub open spec fn failure_reported(held: Option<ErrorView>) -> ErrorView {
    match held {
        Some(err) => err,
        None => plain(KindView::RepeatFailure),
    }
}

impl Failure {
    pub fn error(&mut self) -> (r: Error)
        ensures
            final(self)@ is None,
            r@ == failure_reported(old(self)@),
    {
        match self.0.take() {
            Some(err) => err,
            None => Error::from(ErrorKind::RepeatFailure),
        }
    }
}

impl From<Error> for Failure {
    fn from(e: Error) -> (r: Self)
        ensures
            r.0 == Some(e),
    {
        Self(Some(e))
    }
}

impl vstd::std_specs::convert::FromSpecImpl<Error> for Failure {
    open spec fn obeys_from_spec() -> bool {
        true
    }

    open spec fn from_spec(e: Error) -> Self {
        Failure(Some(e))
    }
}

/* Scalar */

/// The phase that holds a finished scalar.
#[derive(Debug, Default)]
pub struct ScalarLiteral {
    pub scalar: Vec<u8>,
}

/// What follows a scalar: only the end of the document. A byte after a
/// scalar means the machine is in a state it should not be in.
pub open spec fn scalar_next(scan: ScanView) -> Result<Marker, ErrorView> {
    match ahead(scan) {
        Feed::Byte(c) => Err(bad_char(KindView::StateViolation, c)),
        Feed::End => Ok(Marker::Done),
        Feed::Fault(report) => Err(source_failure(report)),
    }
}

impl ScalarLiteral {
    pub fn find_next(&self, iter: &mut Scan) -> (r: Result<Marker, Error>)
        requires
            old(iter).wf(),
        ensures
            final(iter).wf(),
            final(iter)@ == old(iter)@,
            outcome(r) == scalar_next(old(iter)@),
    {
        match iter.peak() {
            Ok(Some(c)) => Err(Error::from(ErrorKind::StateViolation.with_context(c))),
            Ok(None) => Ok(Marker::Done),
            Err(e) => Err(e),
        }
    }
}

impl From<AmbiguousScalar> for ScalarLiteral {
    fn from(prev: AmbiguousScalar) -> (r: Self)
        ensures
            r.scalar == prev.scratch,
    {
        Self { scalar: prev.scratch }
    }
}

impl vstd::std_specs::convert::FromSpecImpl<AmbiguousScalar> for ScalarLiteral {
    open spec fn obeys_from_spec() -> bool {
        true
    }

    open spec fn from_spec(prev: AmbiguousScalar) -> Self {
        ScalarLiteral { scalar: prev.scratch }
    }
}

/* Map */

/// The phase at the start of a mapping entry: it holds the indentation floor
/// at entry and the text gathered so far, which is the key.
#[derive(Debug)]
pub struct MapStart {
    pub indent_floor: usize,
    pub scratch: Vec<u8>,
}

/// What follows the start of a mapping: the check of its key, provided the
/// input goes on.
pub open spec fn map_start_next(scan: ScanView) -> Result<Marker, ErrorView> {
    match ahead(scan) {
        Feed::Byte(_) => Ok(Marker::MapVerifyKey),
        Feed::End => Err(plain(KindView::EOFMapping)),
        Feed::Fault(report) => Err(source_failure(report)),
    }
}

impl MapStart {
    pub fn find_next(&self, iter: &mut Scan) -> (r: Result<Marker, Error>)
        requires
            old(iter).wf(),
        ensures
            final(iter).wf(),
            final(iter)@ == old(iter)@,
            outcome(r) == map_start_next(old(iter)@),
    {
        match iter.peak() {
            Ok(Some(_)) => Ok(Marker::MapVerifyKey),
            Ok(None) => Err(Error::from(ErrorKind::EOFMapping)),
            Err(e) => Err(e),
        }
    }

    pub fn new(current_floor: usize) -> (r: Self)
        ensures
            r.indent_floor == current_floor,
            r.scratch@ == Seq::<u8>::empty(),
    {
        Self { indent_floor: current_floor, scratch: Vec::new() }
    }

    pub fn extend_from(current_floor: usize, buffer: Vec<u8>) -> (r: Self)
        ensures
            r.indent_floor == current_floor,
            r.scratch == buffer,
    {
        Self { indent_floor: current_floor, scratch: buffer }
    }
}

impl From<MapStart> for MapVerifyKey {
    fn from(prev: MapStart) -> (r: Self)
        ensures
            r.indent_floor == prev.indent_floor,
            r.key == prev.scratch,
    {
        Self { indent_floor: prev.indent_floor, key: prev.scratch }
    }
}

impl vstd::std_specs::convert::FromSpecImpl<MapStart> for MapVerifyKey {
    open spec fn obeys_from_spec() -> bool {
        true
    }

    open spec fn from_spec(prev: MapStart) -> Self {
        MapVerifyKey { indent_floor: prev.indent_floor, key: prev.scratch }
    }
}

/// The phase that checks and trims the key of a mapping entry.
#[derive(Debug)]
pub struct MapVerifyKey {
    pub indent_floor: usize,
    pub key: Vec<u8>,
}

/// What follows a checked key: the blanks before the value, provided the
/// input goes on.
pub open spec fn map_key_next(scan: ScanView) -> Result<Marker, ErrorView> {
    match ahead(scan) {
        Feed::Byte(_) => Ok(Marker::MapWhiteSpace),
        Feed::End => Err(plain(KindView::EOFMapping)),
        Feed::Fault(report) => Err(source_failure(report)),
    }
}

/// Checking a key: its first byte that is neither a letter nor a blank is an
/// error, and the key stays as it is; a key without such a byte loses the
/// blanks at its end.
pub open spec fn key_checked(key: Seq<u8>) -> (Seq<u8>, Result<(), ErrorView>) {
    let n = leading(key, ByteClass::Text) as int;
    if n < key.len() {
        (key, Err(bad_char(KindView::InvalidChar, key[n])))
    } else {
        (trimmed(key), Ok(()))
    }
}

impl MapVerifyKey {
    pub fn find_next(&self, iter: &mut Scan) -> (r: Result<Marker, Error>)
        requires
            old(iter).wf(),
        ensures
            final(iter).wf(),
            final(iter)@ == old(iter)@,
            outcome(r) == map_key_next(old(iter)@),
    {
        match iter.peak() {
            Ok(Some(_)) => Ok(Marker::MapWhiteSpace),
            Ok(None) => Err(Error::from(ErrorKind::EOFMapping)),
            Err(e) => Err(e),
        }
    }

    pub fn parse_key(&mut self, iter: &mut Scan) -> (r: Result<(), Error>)
        ensures
            *final(iter) == *old(iter),
            final(self).indent_floor == old(self).indent_floor,
            (final(self).key@, outcome(r)) == key_checked(old(self).key@),
    {
        let mut i: usize = 0;
        while i < self.key.len()
            invariant
                i <= self.key.len(),
                *self == *old(self),
                *iter == *old(iter),
                forall|j: int| 0 <= j < i ==> in_class(#[trigger] self.key@[j], ByteClass::Text),
            decreases self.key.len() - i,
        {
            let ch = self.key[i];
            if !(is_letter(ch) || is_whitespace(&ch)) {
                proof {
                    lemma_leading_is(self.key@, ByteClass::Text, i as nat);
                }
                return Err(Error::from(ErrorKind::InvalidChar.with_context(ch)));
            }
            i += 1;
        }
        proof {
            lemma_leading_is(self.key@, ByteClass::Text, i as nat);
        }
        while !self.key.is_empty() && is_whitespace(&self.key[self.key.len() - 1])
            invariant
                *iter == *old(iter),
                self.indent_floor == old(self).indent_floor,
                trimmed(self.key@) == trimmed(old(self).key@),
            decreases self.key.len(),
        {
            proof {
                assert(self.key@.drop_last() == self.key@.take(self.key.len() - 1));
            }
            self.key.pop();
        }
        Ok(())
    }
}

impl From<MapVerifyKey> for MapWhiteSpace {
    fn from(prev: MapVerifyKey) -> (r: Self)
        ensures
            r.indent_floor == prev.indent_floor,
    {
        Self { indent_floor: prev.indent_floor }
    }
}

impl vstd::std_specs::convert::FromSpecImpl<MapVerifyKey> for MapWhiteSpace {
    open spec fn obeys_from_spec() -> bool {
        true
    }

    open spec fn from_spec(prev: MapVerifyKey) -> Self {
        MapWhiteSpace { indent_floor: prev.indent_floor }
    }
}

/// The phase between the colon of a mapping entry and its value.
#[derive(Debug)]
pub struct MapWhiteSpace {
    pub indent_floor: usize,
}

/// The text of the error for a value that does not start with a letter.
pub open spec fn unclear_fail_text() -> Seq<char> {
    "Unclear fail state"@
}

/// What follows the blanks before a value: the value, if a letter comes.
/// Nothing else can start a value.
pub open spec fn map_whitespace_next(scan: ScanView) -> Result<Marker, ErrorView> {
    match ahead(scan) {
        Feed::Byte(c) => if letter(c) {
            Ok(Marker::MapValue)
        } else {
            Err(plain(KindView::Message(unclear_fail_text())))
        },
        Feed::End => Err(plain(KindView::Message(unclear_fail_text()))),
        Feed::Fault(report) => Err(source_failure(report)),
    }
}

/// Skipping the blanks before a value consumes them. The byte after them
/// must be a letter, unless the input ends there.
pub open spec fn whitespace_skipped(scan: ScanView) -> (ScanView, Result<(), ErrorView>) {
    let n = leading(scan.rest, ByteClass::Blank) as int;
    let after = advanced(scan, n);
    (
        after,
        match ahead(after) {
            Feed::Byte(c) => if letter(c) {
                Ok(())
            } else {
                Err(bad_char(KindView::InvalidChar, c))
            },
            Feed::End => Ok(()),
            Feed::Fault(report) => Err(source_failure(report)),
        },
    )
}

impl MapWhiteSpace {
    pub fn find_next(&self, iter: &mut Scan) -> (r: Result<Marker, Error>)
        requires
            old(iter).wf(),
        ensures
            final(iter).wf(),
            final(iter)@ == old(iter)@,
            outcome(r) == map_whitespace_next(old(iter)@),
    {
        match iter.peak() {
            Ok(Some(c)) => {
                if is_letter(c) {
                    Ok(Marker::MapValue)
                } else {
                    Err(Error::from(ErrorKind::Message("Unclear fail state".to_string())))
                }
            },
            Ok(None) => Err(Error::from(ErrorKind::Message("Unclear fail state".to_string()))),
            Err(e) => Err(e),
        }
    }

    pub fn parse_whitespace(&self, iter: &mut Scan) -> (r: Result<(), Error>)
        requires
            old(iter).wf(),
        ensures
            final(iter).wf(),
            (final(iter)@, outcome(r)) == whitespace_skipped(old(iter)@),
    {
        let ghost start = iter@;
        let ghost mut n: int = 0;
        proof {
            lemma_leading(start.rest, ByteClass::Blank);
            assert(start.rest.skip(0) == start.rest);
        }
        loop
            invariant
                iter.wf(),
                start == old(iter)@,
                0 <= n <= start.rest.len(),
                iter@ == advanced(start, n),
                n + leading(iter@.rest, ByteClass::Blank) == leading(
                    start.rest,
                    ByteClass::Blank,
                ),
            decreases iter@.rest.len(),
        {
            match iter.peak() {
                Ok(Some(c)) => {
                    if is_whitespace(&c) {
                        iter.discard();
                        proof {
                            lemma_skip_step(start.rest, n);
                            n = n + 1;
                        }
                    } else if is_letter(c) {
                        return Ok(());
                    } else {
                        return Err(Error::from(ErrorKind::InvalidChar.with_context(c)));
                    }
                },
                Ok(None) => {
                    return Ok(());
                },
                Err(e) => {
                    return Err(e);
                },
            }
        }
    }
}

impl From<MapWhiteSpace> for MapValue {
    fn from(prev: MapWhiteSpace) -> (r: Self)
        ensures
            r.indent_floor == prev.indent_floor,
            r.value@ == Seq::<u8>::empty(),
    {
        Self { indent_floor: prev.indent_floor, value: Vec::new() }
    }
}

/// What `from` gives is stated by its `ensures`.
impl vstd::std_specs::convert::FromSpecImpl<MapWhiteSpace> for MapValue {
    open spec fn obeys_from_spec() -> bool {
        false
    }

    open spec fn from_spec(prev: MapWhiteSpace) -> Self {
        arbitrary()
    }
}

/// The phase that gathers the value of a mapping entry.
#[derive(Debug)]
pub struct MapValue {
    pub indent_floor: usize,
    pub value: Vec<u8>,
}

/// What follows a value: the end of its line, or the end of the document.
pub open spec fn map_value_next(scan: ScanView) -> Result<Marker, ErrorView> {
    match ahead(scan) {
        Feed::Byte(c) => if line_break(c) {
            Ok(Marker::LineEnd)
        } else {
            Err(expected(KindView::InvalidChar, seq![LINE_FEED, CARRIAGE_RETURN], c))
        },
        Feed::End => Ok(Marker::Done),
        Feed::Fault(report) => Err(source_failure(report)),
    }
}

/// Gathering a value consumes the letters and blanks ahead into the value.
/// What follows them must be a line break or the end of the input.
pub open spec fn value_gathered(value: Seq<u8>, scan: ScanView) -> (
    Seq<u8>,
    ScanView,
    Result<(), ErrorView>,
) {
    let n = leading(scan.rest, ByteClass::Text) as int;
    let after = advanced(scan, n);
    (
        value + scan.rest.take(n),
        after,
        match ahead(after) {
            Feed::Byte(c) => if line_break(c) {
                Ok(())
            } else {
                Err(bad_char(KindView::ScalarInvalid, c))
            },
            Feed::End => Ok(()),
            Feed::Fault(report) => Err(source_failure(report)),
        },
    )
}

impl MapValue {
    pub fn find_next(&self, iter: &mut Scan) -> (r: Result<Marker, Error>)
        requires
            old(iter).wf(),
        ensures
            final(iter).wf(),
            final(iter)@ == old(iter)@,
            outcome(r) == map_value_next(old(iter)@),
    {
        match iter.peak() {
            Ok(Some(c)) => {
                if c == LINE_FEED || c == CARRIAGE_RETURN {
                    Ok(Marker::LineEnd)
                } else {
                    let good: Vec<u8> = vec![LINE_FEED, CARRIAGE_RETURN];
                    Err(Error::from(ErrorKind::InvalidChar.with_context((good, c))))
                }
            },
            Ok(None) => Ok(Marker::Done),
            Err(e) => Err(e),
        }
    }

    pub fn parse_value(&mut self, iter: &mut Scan) -> (r: Result<(), Error>)
        requires
            old(iter).wf(),
        ensures
            final(iter).wf(),
            final(self).indent_floor == old(self).indent_floor,
            (final(self).value@, final(iter)@, outcome(r)) == value_gathered(
                old(self).value@,
                old(iter)@,
            ),
    {
        let ghost start = iter@;
        let ghost held = self.value@;
        let ghost mut n: int = 0;
        proof {
            lemma_leading(start.rest, ByteClass::Text);
            assert(start.rest.skip(0) == start.rest);
            assert(held + start.rest.take(0) == held);
        }
        loop
            invariant
                iter.wf(),
                start == old(iter)@,
                held == old(self).value@,
                self.indent_floor == old(self).indent_floor,
                0 <= n <= start.rest.len(),
                iter@ == advanced(start, n),
                self.value@ == held + start.rest.take(n),
                n + leading(iter@.rest, ByteClass::Text) == leading(start.rest, ByteClass::Text),
            decreases iter@.rest.len(),
        {
            match iter.peak() {
                Ok(Some(ch)) => {
                    if is_whitespace(&ch) || is_letter(ch) {
                        iter.discard();
                        self.value.push(ch);
                        proof {
                            lemma_skip_step(start.rest, n);
                            assert(held + start.rest.take(n + 1) == (held + start.rest.take(
                                n,
                            )).push(ch));
                            n = n + 1;
                        }
                    } else if ch == LINE_FEED || ch == CARRIAGE_RETURN {
                        return Ok(());
                    } else {
                        return Err(Error::from(ErrorKind::ScalarInvalid.with_context(ch)));
                    }
                },
                Ok(None) => {
                    return Ok(());
                },
                Err(e) => {
                    return Err(e);
                },
            }
        }
    }
}

} // verus!
