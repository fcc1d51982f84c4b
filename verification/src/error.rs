//! Errors of the scanner: a kind, an optional context, and the category a
//! kind belongs to.
use vstd::prelude::*;
use vstd::std_specs::convert::IntoSpec;

verus! {

/// Appending a string slice: the result reads as the old contents followed
/// by the slice (`String::push_str`).
pub assume_specification[ String::push_str ](s: &mut String, t: &str)
    ensures
        final(s)@ == old(s)@ + t@,
;

/// Appending one character: the result reads as the old contents followed
/// by that character (`String::push`).
pub assume_specification[ String::push ](s: &mut String, c: char)
    ensures
        final(s)@ == old(s)@.push(c),
;

/// What a [`Context`] holds.
pub enum ContextView {
    Generic(Seq<char>),
    BadChar(u8),
    ExpectedMultipleChar(Seq<u8>, u8),
}

/// What an [`ErrorKind`] holds.
pub enum KindView {
    Message(Seq<char>),
    Io(Seq<char>),
    RepeatFailure,
    IllegalTransition,
    StateViolation,
    InvalidChar,
    ScalarInvalid,
    EOFMapping,
    InvalidEOL,
    InvalidEOF,
    SoloCarriageReturn,
}

/// What an [`Error`] holds: its kind and, where one was attached, its context.
pub struct ErrorView {
    pub kind: KindView,
    pub context: Option<ContextView>,
}

/// The error of `kind` without a context.
pub open spec fn plain(kind: KindView) -> ErrorView {
    ErrorView { kind, context: None }
}

/// The error of `kind` that names the byte `ch` as the one not accepted.
pub open spec fn bad_char(kind: KindView, ch: u8) -> ErrorView {
    ErrorView { kind, context: Some(ContextView::BadChar(ch)) }
}

/// The error of `kind` that names the bytes `good` as acceptable and the
/// byte `ch` as the one found.
pub open spec fn expected(kind: KindView, good: Seq<u8>, ch: u8) -> ErrorView {
    ErrorView { kind, context: Some(ContextView::ExpectedMultipleChar(good, ch)) }
}

/// What a fallible result holds, with the error by its view.
pub open spec fn outcome<T>(r: Result<T, Error>) -> Result<T, ErrorView> {
    match r {
        Ok(value) => Ok(value),
        Err(err) => Err(err@),
    }
}

/// The broad class of an error.
#[derive(Debug, Clone, Copy, PartialEq, Eq)]
pub enum Category {
    Io,
    State,
    Data,
}

/// The category of each kind: a failure of the source is `Io`, a broken
/// invariant of the machine is `State`, everything else is malformed input.
pub open spec fn category_of(kind: KindView) -> Category {
    match kind {
        KindView::Io(_) => Category::Io,
        KindView::IllegalTransition
        | KindView::StateViolation
        | KindView::EOFMapping
        | KindView::RepeatFailure => Category::State,
        _ => Category::Data,
    }
}

/// The text a kind is rendered as.
pub open spec fn kind_text(kind: KindView) -> Seq<char> {
    match kind {
        KindView::Message(msg) => msg,
        KindView::Io(msg) => "IO error: "@ + msg,
        KindView::RepeatFailure => "Attempted to drive an already failed parser"@,
        KindView::IllegalTransition => {
            "Parser attempted an illegal state transition... this is a bug"@
        },
        KindView::StateViolation => "Parser encountered an unexpected or invalid state"@,
        KindView::InvalidChar => "Parser encountered an invalid character"@,
        KindView::ScalarInvalid => "Parser encountered an invalid scalar"@,
        KindView::EOFMapping => "Parser encountered an unexpected EOF while parsing a mapping"@,
        KindView::InvalidEOL => "Parser encountered an invalid EOL"@,
        KindView::InvalidEOF => "Parser encountered an invalid EOF"@,
        KindView::SoloCarriageReturn => "Parser encountered a solo carriage return"@,
    }
}

/// Every byte of `good` in single quotes, each followed by a comma and a space.
pub open spec fn quoted_list(good: Seq<u8>) -> Seq<char>
    decreases good.len(),
{
    if good.len() == 0 {
        Seq::<char>::empty()
    } else {
        quoted_list(good.drop_last()) + "'"@ + seq![good.last() as char] + "', "@
    }
}

/// The text a context is rendered as.
pub open spec fn context_text(cxt: ContextView) -> Seq<char> {
    match cxt {
        ContextView::Generic(text) => text,
        ContextView::BadChar(ch) => "Bad char: '"@ + seq![ch as char] + "'"@,
        ContextView::ExpectedMultipleChar(good, bad) => if good.len() == 0 {
            "Bad char: '"@ + seq![bad as char] + "'"@
        } else if good.len() == 1 {
            "Expected: '"@ + seq![good[0] as char] + "' got: '"@ + seq![bad as char] + "'"@
        } else {
            "Expected one of: ["@ + quoted_list(good) + "] got: "@ + seq![bad as char]
        },
    }
}

/// The text an error is rendered as: its kind, then a space and its context
/// where it has one.
pub open spec fn error_text(err: ErrorView) -> Seq<char> {
    match err.context {
        Some(cxt) => kind_text(err.kind) + " "@ + context_text(cxt),
        None => kind_text(err.kind),
    }
}

/// What went wrong, without the circumstances.
#[derive(Debug, Clone, PartialEq, Eq)]
pub enum ErrorKind {
    Message(String),
    /// The byte source failed; the text is the source's own report.
    Io(String),
    /// Returned when a parser that has already failed is driven again.
    RepeatFailure,
    IllegalTransition,
    StateViolation,
    InvalidChar,
    ScalarInvalid,
    EOFMapping,
    InvalidEOL,
    InvalidEOF,
    SoloCarriageReturn,
}

impl View for ErrorKind {
    type V = KindView;

    open spec fn view(&self) -> KindView {
        match *self {
            ErrorKind::Message(msg) => KindView::Message(msg@),
            ErrorKind::Io(msg) => KindView::Io(msg@),
            ErrorKind::RepeatFailure => KindView::RepeatFailure,
            ErrorKind::IllegalTransition => KindView::IllegalTransition,
            ErrorKind::StateViolation => KindView::StateViolation,
            ErrorKind::InvalidChar => KindView::InvalidChar,
            ErrorKind::ScalarInvalid => KindView::ScalarInvalid,
            ErrorKind::EOFMapping => KindView::EOFMapping,
            ErrorKind::InvalidEOL => KindView::InvalidEOL,
            ErrorKind::InvalidEOF => KindView::InvalidEOF,
            ErrorKind::SoloCarriageReturn => KindView::SoloCarriageReturn,
        }
    }
}

impl ErrorKind {
    /// Attaches a context to this kind.
    pub fn with_context<T: Into<Context>>(self, cxt: T) -> (r: ErrData)
        ensures
            T::obeys_into_spec() ==> r@ == (ErrorView {
                kind: self@,
                context: Some(cxt.into_spec()@),
            }),
    {
        ErrData::new(self, Some(cxt.into()))
    }

    /// Renders the kind as text.
    pub fn to_string(&self) -> (r: String)
        ensures
            r@ == kind_text(self@),
    {
        match self {
            ErrorKind::Message(msg) => msg.clone(),
            ErrorKind::Io(msg) => {
                let mut out = "IO error: ".to_string();
                out.push_str(msg.as_str());
                out
            },
            ErrorKind::RepeatFailure => "Attempted to drive an already failed parser".to_string(),
            ErrorKind::IllegalTransition => {
                "Parser attempted an illegal state transition... this is a bug".to_string()
            },
            ErrorKind::StateViolation => {
                "Parser encountered an unexpected or invalid state".to_string()
            },
            ErrorKind::InvalidChar => "Parser encountered an invalid character".to_string(),
            ErrorKind::ScalarInvalid => "Parser encountered an invalid scalar".to_string(),
            ErrorKind::EOFMapping => {
                "Parser encountered an unexpected EOF while parsing a mapping".to_string()
            },
            ErrorKind::InvalidEOL => "Parser encountered an invalid EOL".to_string(),
            ErrorKind::InvalidEOF => "Parser encountered an invalid EOF".to_string(),
            ErrorKind::SoloCarriageReturn => {
                "Parser encountered a solo carriage return".to_string()
            },
        }
    }
}

/// The circumstances of an error.
#[derive(Debug, Clone, PartialEq, Eq)]
pub enum Context {
    Generic(String),
    /// The byte that was not accepted.
    BadChar(u8),
    /// The bytes that would have been accepted, and the byte that was found.
    ExpectedMultipleChar(Vec<u8>, u8),
}

impl View for Context {
    type V = ContextView;

    open spec fn view(&self) -> ContextView {
        match *self {
            Context::Generic(text) => ContextView::Generic(text@),
            Context::BadChar(ch) => ContextView::BadChar(ch),
            Context::ExpectedMultipleChar(good, bad) => ContextView::ExpectedMultipleChar(
                good@,
                bad,
            ),
        }
    }
}

impl Context {
    /// A context of free text.
    pub fn generic(text: &str) -> (r: Self)
        ensures
            r@ == ContextView::Generic(text@),
    {
        Context::Generic(text.to_string())
    }

    /// Renders the context as text.
    pub fn to_string(&self) -> (r: String)
        ensures
            r@ == context_text(self@),
    {
        match self {
            Context::Generic(text) => text.clone(),
            Context::BadChar(ch) => bad_char_text(*ch),
            Context::ExpectedMultipleChar(good, bad) => {
                if good.len() == 0 {
                    bad_char_text(*bad)
                } else if good.len() == 1 {
                    let mut out = "Expected: '".to_string();
                    out.push(good[0] as char);
                    out.push_str("' got: '");
                    out.push(*bad as char);
                    out.push_str("'");
                    out
                } else {
                    let mut out = "Expected one of: [".to_string();
                    let mut i: usize = 0;
                    while i < good.len()
                        invariant
                            i <= good.len(),
                            out@ == "Expected one of: ["@ + quoted_list(good@.take(i as int)),
                        decreases good.len() - i,
                    {
                        out.push_str("'");
                        out.push(good[i] as char);
                        out.push_str("', ");
                        proof {
                            let next = good@.take(i + 1);
                            assert(next.drop_last() == good@.take(i as int));
                            assert(next.last() == good@[i as int]);
                        }
                        i += 1;
                    }
                    proof {
                        assert(good@.take(good.len() as int) == good@);
                    }
                    out.push_str("] got: ");
                    out.push(*bad as char);
                    out
                }
            },
        }
    }
}

/// The text for one byte that was not accepted.
fn bad_char_text(ch: u8) -> (r: String)
    ensures
        r@ == "Bad char: '"@ + seq![ch as char] + "'"@,
{
    let mut out = "Bad char: '".to_string();
    out.push(ch as char);
    out.push_str("'");
    out
}

impl From<u8> for Context {
    fn from(ch: u8) -> (r: Self)
        ensures
            r@ == ContextView::BadChar(ch),
    {
        Context::BadChar(ch)
    }
}

impl vstd::std_specs::convert::FromSpecImpl<u8> for Context {
    open spec fn obeys_from_spec() -> bool {
        true
    }

    open spec fn from_spec(ch: u8) -> Self {
        Context::BadChar(ch)
    }
}

impl From<(Vec<u8>, u8)> for Context {
    fn from(pair: (Vec<u8>, u8)) -> (r: Self)
        ensures
            r@ == ContextView::ExpectedMultipleChar(pair.0@, pair.1),
    {
        Context::ExpectedMultipleChar(pair.0, pair.1)
    }
}

impl vstd::std_specs::convert::FromSpecImpl<(Vec<u8>, u8)> for Context {
    open spec fn obeys_from_spec() -> bool {
        true
    }

    open spec fn from_spec(pair: (Vec<u8>, u8)) -> Self {
        Context::ExpectedMultipleChar(pair.0, pair.1)
    }
}

/// A kind together with its optional context.
#[derive(Debug, Clone, PartialEq, Eq)]
pub struct ErrData {
    err: ErrorKind,
    cxt: Option<Context>,
}

impl View for ErrData {
    type V = ErrorView;

    closed spec fn view(&self) -> ErrorView {
        ErrorView {
            kind: self.err@,
            context: match self.cxt {
                Some(cxt) => Some(cxt@),
                None => None,
            },
        }
    }
}

impl ErrData {
    pub fn new(err: ErrorKind, cxt: Option<Context>) -> (r: Self)
        ensures
            r@.kind == err@,
            match cxt {
                Some(c) => r@.context == Some(c@),
                None => r@.context is None,
            },
    {
        Self { err, cxt }
    }

    /// Replaces the context, keeping the kind.
    pub fn with_context<T: Into<Context>>(self, cxt: T) -> (r: Self)
        ensures
            T::obeys_into_spec() ==> r@ == (ErrorView {
                kind: self@.kind,
                context: Some(cxt.into_spec()@),
            }),
    {
        Self::new(self.err, Some(cxt.into()))
    }

    /// The error for a failure of the byte source, given the source's report.
    pub fn from_io(report: String) -> (r: Self)
        ensures
            r@ == (ErrorView { kind: KindView::Io(report@), context: None }),
    {
        Self::new(ErrorKind::Io(report), None)
    }
}

/// An error of the scanner.
#[derive(Debug, Clone, PartialEq, Eq)]
pub struct Error {
    inner: Box<ErrData>,
}

impl View for Error {
    type V = ErrorView;

    closed spec fn view(&self) -> ErrorView {
        self.inner@
    }
}

impl Error {
    pub fn categorize(&self) -> (r: Category)
        ensures
            r == category_of(self@.kind),
    {
        match self.inner.err {
            ErrorKind::Io(_) => Category::Io,
            ErrorKind::Message(_)
            | ErrorKind::InvalidChar
            | ErrorKind::ScalarInvalid
            | ErrorKind::SoloCarriageReturn
            | ErrorKind::InvalidEOL
            | ErrorKind::InvalidEOF => Category::Data,
            ErrorKind::IllegalTransition
            | ErrorKind::StateViolation
            | ErrorKind::EOFMapping
            | ErrorKind::RepeatFailure => Category::State,
        }
    }

    pub fn kind(&self) -> (r: &ErrorKind)
        ensures
            r@ == self@.kind,
    {
        &self.inner.err
    }

    pub fn context(&self) -> (r: Option<&Context>)
        ensures
            match r {
                Some(cxt) => self@.context == Some(cxt@),
                None => self@.context is None,
            },
    {
        match &self.inner.cxt {
            Some(cxt) => Some(cxt),
            None => None,
        }
    }

    /// Whether this is the error of driving a parser that had already failed.
    pub fn is_repeat(&self) -> (r: bool)
        ensures
            r == (self@.kind is RepeatFailure),
    {
        match self.inner.err {
            ErrorKind::RepeatFailure => true,
            _ => false,
        }
    }

    /// Renders the error as text: the kind, then the context where there is one.
    pub fn to_string(&self) -> (r: String)
        ensures
            r@ == error_text(self@),
    {
        let mut out = self.inner.err.to_string();
        match &self.inner.cxt {
            Some(cxt) => {
                out.push_str(" ");
                let tail = cxt.to_string();
                out.push_str(tail.as_str());
            },
            None => {},
        }
        out
    }

    /// The error of `kind`, without a context.
    pub closed spec fn plain(kind: ErrorKind) -> Error {
        Error { inner: Box::new(ErrData { err: kind, cxt: None }) }
    }

    /// The error that holds `err`.
    pub closed spec fn boxed(err: ErrData) -> Error {
        Error { inner: Box::new(err) }
    }
}

impl From<ErrorKind> for Error {
    fn from(kind: ErrorKind) -> (r: Self)
        ensures
            r@ == (ErrorView { kind: kind@, context: None }),
    {
        Self { inner: Box::new(ErrData { err: kind, cxt: None }) }
    }
}

impl vstd::std_specs::convert::FromSpecImpl<ErrorKind> for Error {
    open spec fn obeys_from_spec() -> bool {
        true
    }

    open spec fn from_spec(kind: ErrorKind) -> Self {
        Error::plain(kind)
    }
}

impl From<ErrData> for Error {
    fn from(err: ErrData) -> (r: Self)
        ensures
            r@ == err@,
    {
        Self { inner: Box::new(err) }
    }
}

impl vstd::std_specs::convert::FromSpecImpl<ErrData> for Error {
    open spec fn obeys_from_spec() -> bool {
        true
    }

    open spec fn from_spec(err: ErrData) -> Self {
        Error::boxed(err)
    }
}

} // verus!
