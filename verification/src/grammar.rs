//! What the scanner makes of the documents of its grammar: a bare scalar,
//! mapping entries one to a line, and the bytes that the grammar has no
//! place for.
use vstd::prelude::*;
use crate::error::{bad_char, plain, ErrorView, KindView};
use crate::event::EventView;
use crate::initial;
use crate::laws::{all_text, lemma_advance_event, lemma_advance_silent};
use crate::model::{
    advance, drained, items, lemma_advance_descends, lemma_step_descends, step_view,
    MachineView, PhaseView,
};
use crate::node::NodeView;
use crate::scanner::{track_updated, ScanView};
use crate::states::{
    blank, in_class, leading, lemma_leading, lemma_leading_is, letter, line_break, trimmed,
    ByteClass, CARRIAGE_RETURN, COLON, LINE_FEED,
};

verus! {

/// `s` without the blanks at its start and at its end.
pub open spec fn trim(s: Seq<u8>) -> Seq<u8> {
    trimmed(s.skip(leading(s, ByteClass::Blank) as int))
}

/// A document that is one line of letters and blanks with at least one
/// letter, and no line break, gives one scalar: the line without the blanks
/// at its start. Nothing else is handed out, and the machine is left
/// finished.
pub proof fn law_bare_scalar_line(line: Seq<u8>)
    requires
        all_text(line),
        leading(line, ByteClass::Blank) < line.len(),
    ensures
        items(initial(line, None)) == seq![
            Ok::<NodeView, ErrorView>(
                NodeView::ScalarPlain(line.skip(leading(line, ByteClass::Blank) as int)),
            ),
        ],
        drained(initial(line, None)).phase is Done,
{
    let m0 = initial(line, None);
    let n = leading(line, ByteClass::Blank) as int;
    lemma_leading(line, ByteClass::Blank);
    let body = line.skip(n);
    assert(body[0] == line[n]);
    assert(in_class(line[n], ByteClass::Text));
    // before the first byte
    let m1 = step_view(m0).0;
    assert(m1.phase is LineStart && m1.scan.rest == line);
    lemma_advance_silent(m0);
    // the indentation
    let m2 = step_view(m1).0;
    assert(m2.phase == PhaseView::AmbiguousScalar(Seq::empty()));
    assert(m2.scan.rest == body);
    lemma_advance_silent(m1);
    // the text
    assert forall|i: int| 0 <= i < body.len() implies in_class(
        #[trigger] body[i],
        ByteClass::Text,
    ) by {
        assert(body[i] == line[n + i]);
    }
    lemma_leading_is(body, ByteClass::Text, body.len());
    assert(body.take(body.len() as int) == body);
    assert(Seq::<u8>::empty() + body == body);
    let m3 = step_view(m2).0;
    assert(m3.scan.rest.len() == 0);
    assert(m3.phase == PhaseView::ScalarLiteral(body));
    lemma_advance_silent(m2);
    // the scalar
    let m4 = step_view(m3).0;
    assert(m4.phase is Done);
    assert(step_view(m3).1 == Some(EventView::Node(NodeView::ScalarPlain(body))));
    lemma_advance_event(m3);
    assert(advance(m0) == (m4, Some(Ok::<NodeView, ErrorView>(NodeView::ScalarPlain(body)))));
    lemma_advance_descends(m4);
    assert(items(m4) == Seq::<Result<NodeView, ErrorView>>::empty());
    assert(items(m0) == seq![Ok::<NodeView, ErrorView>(NodeView::ScalarPlain(body))] + items(m4));
    assert(drained(m4) == m4);
    assert(drained(m0) == drained(m4));
}

/// A document that is one line of letters and blanks that ends in a letter,
/// and in no line break, gives that line without the blanks around it, and
/// nothing else.
pub proof fn law_bare_scalar_trimmed(line: Seq<u8>)
    requires
        line.len() > 0,
        all_text(line),
        letter(line.last()),
    ensures
        items(initial(line, None)) == seq![
            Ok::<NodeView, ErrorView>(NodeView::ScalarPlain(trim(line))),
        ],
        drained(initial(line, None)).phase is Done,
{
    let n = leading(line, ByteClass::Blank) as int;
    lemma_leading(line, ByteClass::Blank);
    assert(n < line.len()) by {
        if n == line.len() {
            assert(in_class(line[line.len() - 1], ByteClass::Blank));
        }
    }
    assert(line.skip(n).last() == line.last());
    law_bare_scalar_line(line);
}

/// A byte that is neither a letter, a blank, a line break nor a colon, met
/// while a scalar is read on the first line, gives one error that names the
/// byte, and no node.
pub proof fn law_foreign_byte_in_scalar(
    text: Seq<u8>,
    ch: u8,
    tail: Seq<u8>,
    failure: Option<Seq<char>>,
)
    requires
        all_text(text),
        !letter(ch),
        !blank(ch),
        !line_break(ch),
        ch != COLON,
    ensures
        items(initial(text + seq![ch] + tail, failure)) == seq![
            Err::<NodeView, ErrorView>(bad_char(KindView::InvalidChar, ch)),
        ],
{
    let doc = text + seq![ch] + tail;
    let m0 = initial(doc, failure);
    let n = leading(doc, ByteClass::Blank) as int;
    lemma_leading(doc, ByteClass::Blank);
    assert(doc[text.len() as int] == ch);
    assert(n <= text.len()) by {
        if n > text.len() {
            assert(in_class(doc[text.len() as int], ByteClass::Blank));
        }
    }
    let body = doc.skip(n);
    let k = text.len() - n;
    assert forall|i: int| 0 <= i < k implies in_class(#[trigger] body[i], ByteClass::Text) by {
        assert(body[i] == text[n + i]);
    }
    assert(body[k] == ch);
    lemma_leading_is(body, ByteClass::Text, k as nat);
    assert(!line_break(body[0])) by {
        if k > 0 {
            assert(in_class(body[0], ByteClass::Text));
        }
    }
    let m1 = step_view(m0).0;
    assert(m1.phase is LineStart && m1.scan.rest == doc);
    lemma_advance_silent(m0);
    let m2 = step_view(m1).0;
    assert(m2.scan.rest == body);
    assert(m2.phase == PhaseView::AmbiguousScalar(Seq::empty()));
    lemma_advance_silent(m1);
    let m3 = step_view(m2).0;
    assert(body.skip(k)[0] == ch);
    let err = bad_char(KindView::InvalidChar, ch);
    assert(m3.phase == PhaseView::Failure(Some(err)));
    lemma_advance_silent(m2);
    let m4 = step_view(m3).0;
    lemma_advance_event(m3);
    assert(advance(m0) == (m4, Some(Err::<NodeView, ErrorView>(err))));
    lemma_advance_descends(m4);
    assert(items(m4) == Seq::<Result<NodeView, ErrorView>>::empty());
    assert(items(m0) == seq![Err::<NodeView, ErrorView>(err)] + items(m4));
}

/// At the end of a line, a carriage return that nothing follows gives the
/// error of a solo carriage return, and no node.
pub proof fn law_solo_carriage_return(m: MachineView)
    requires
        m.phase is LineEnd,
        m.scan.rest == seq![CARRIAGE_RETURN],
        m.scan.failure is None,
    ensures
        items(m) == seq![Err::<NodeView, ErrorView>(plain(KindView::SoloCarriageReturn))],
{
    let rest = m.scan.rest;
    lemma_leading_is(rest, ByteClass::Inline, 0);
    assert(rest.skip(0) == rest);
    assert(rest.skip(1).len() == 0);
    let err = plain(KindView::SoloCarriageReturn);
    let m1 = step_view(m).0;
    assert(m1.phase == PhaseView::Failure(Some(err)));
    lemma_advance_silent(m);
    let m2 = step_view(m1).0;
    lemma_advance_event(m1);
    assert(advance(m) == (m2, Some(Err::<NodeView, ErrorView>(err))));
    lemma_advance_descends(m2);
    assert(items(m2) == Seq::<Result<NodeView, ErrorView>>::empty());
    assert(items(m) == seq![Err::<NodeView, ErrorView>(err)] + items(m2));
}

/// Whether `s` is made of blanks only.
pub open spec fn all_blank(s: Seq<u8>) -> bool {
    forall|i: int| 0 <= i < s.len() ==> blank(#[trigger] s[i])
}

/// Where bytes of a class are followed by the end or by a byte that is not
/// of the class, the run at the start is those bytes, and what follows the
/// run is the rest.
pub proof fn lemma_leading_concat(a: Seq<u8>, b: Seq<u8>, class: ByteClass)
    requires
        forall|i: int| 0 <= i < a.len() ==> in_class(#[trigger] a[i], class),
        b.len() > 0 ==> !in_class(b[0], class),
    ensures
        leading(a + b, class) == a.len(),
        (a + b).skip(a.len() as int) == b,
        (a + b).take(a.len() as int) == a,
{
    let s = a + b;
    assert forall|i: int| 0 <= i < a.len() implies in_class(#[trigger] s[i], class) by {
        assert(s[i] == a[i]);
    }
    if b.len() > 0 {
        assert(s[a.len() as int] == b[0]);
    }
    lemma_leading_is(s, class, a.len());
    assert(s.skip(a.len() as int) =~= b);
    assert(s.take(a.len() as int) =~= a);
}

/// The start of a line that holds more than blanks: the blanks are
/// consumed and counted, the count is recorded, and the text begins.
pub proof fn lemma_indent_step(m: MachineView, indent: Seq<u8>, body: Seq<u8>)
    requires
        m.phase is LineStart,
        m.scan.rest == indent + body,
        indent.len() <= usize::MAX,
        all_blank(indent),
        body.len() > 0,
        !blank(body[0]),
        !line_break(body[0]),
    ensures
        step_view(m) == (
            MachineView {
                phase: PhaseView::AmbiguousScalar(Seq::empty()),
                scan: ScanView {
                    rest: body,
                    failure: m.scan.failure,
                    track: track_updated(m.scan.track, indent.len() as usize),
                },
            },
            None::<EventView>,
        ),
{
    assert forall|i: int| 0 <= i < indent.len() implies in_class(
        #[trigger] indent[i],
        ByteClass::Blank,
    ) by {}
    lemma_leading_concat(indent, body, ByteClass::Blank);
}

/// Text that a colon follows: the text joins what was gathered before, and
/// the machine stands at the colon.
pub proof fn lemma_text_step(m: MachineView, text: Seq<u8>, tail: Seq<u8>)
    requires
        m.phase is AmbiguousScalar,
        m.scan.rest == text + tail,
        all_text(text),
        tail.len() > 0,
        tail[0] == COLON,
    ensures
        step_view(m) == (
            MachineView {
                phase: PhaseView::AmbiguousColon(m.phase->AmbiguousScalar_0 + text),
                scan: ScanView { rest: tail, ..m.scan },
            },
            None::<EventView>,
        ),
{
    lemma_leading_concat(text, tail, ByteClass::Text);
}

/// A colon that a blank follows: both are consumed, and a mapping starts
/// whose key is the text gathered before the colon.
pub proof fn lemma_colon_step(m: MachineView, sep: u8, tail: Seq<u8>)
    requires
        m.phase is AmbiguousColon,
        m.scan.rest == seq![COLON, sep] + tail,
        blank(sep),
    ensures
        step_view(m) == (
            MachineView {
                phase: PhaseView::MapStart(m.scan.track.floor, m.phase->AmbiguousColon_0),
                scan: ScanView { rest: tail, ..m.scan },
            },
            None::<EventView>,
        ),
{
    let rest = m.scan.rest;
    assert(rest[0] == COLON && rest[1] == sep);
    assert(rest.skip(0) == rest);
    assert(rest.skip(1)[0] == sep);
    assert(rest.skip(2) =~= tail);
}

/// The start of a mapping where the input goes on: the key is handed out
/// without the blanks at its end, and the machine stands before the value.
pub proof fn lemma_key_steps(m: MachineView)
    requires
        m.phase is MapStart,
        all_text(m.phase->MapStart_1),
        m.scan.rest.len() > 0,
    ensures
        advance(m) == (
            MachineView { phase: PhaseView::MapWhiteSpace(m.phase->MapStart_0), scan: m.scan },
            Some(Ok::<NodeView, ErrorView>(NodeView::Key(trimmed(m.phase->MapStart_1)))),
        ),
{
    let key = m.phase->MapStart_1;
    let checking = step_view(m).0;
    assert(checking.phase == PhaseView::MapVerifyKey(m.phase->MapStart_0, key));
    lemma_advance_silent(m);
    lemma_leading_is(key, ByteClass::Text, key.len());
    lemma_advance_event(checking);
}

/// The blanks before a value that starts with a letter: they are consumed,
/// and the value begins.
pub proof fn lemma_pad_step(m: MachineView, pad: Seq<u8>, tail: Seq<u8>)
    requires
        m.phase is MapWhiteSpace,
        m.scan.rest == pad + tail,
        all_blank(pad),
        tail.len() > 0,
        letter(tail[0]),
    ensures
        step_view(m) == (
            MachineView {
                phase: PhaseView::MapValue(m.phase->MapWhiteSpace_0, Seq::empty()),
                scan: ScanView { rest: tail, ..m.scan },
            },
            None::<EventView>,
        ),
{
    assert forall|i: int| 0 <= i < pad.len() implies in_class(
        #[trigger] pad[i],
        ByteClass::Blank,
    ) by {}
    lemma_leading_concat(pad, tail, ByteClass::Blank);
}

/// A value that a line break or the clean end of the input follows: it is
/// handed out as it stands, joined to what was gathered before, and the
/// machine stands at the end of the line, or is finished.
pub proof fn lemma_value_step(m: MachineView, value: Seq<u8>, more: Seq<u8>)
    requires
        m.phase is MapValue,
        m.scan.rest == value + more,
        all_text(value),
        more.len() > 0 ==> line_break(more[0]),
        more.len() == 0 ==> m.scan.failure is None,
    ensures
        step_view(m) == (
            MachineView {
                phase: if more.len() > 0 {
                    PhaseView::LineEnd
                } else {
                    PhaseView::Done
                },
                scan: ScanView { rest: more, ..m.scan },
            },
            Some(EventView::Node(NodeView::ScalarPlain(m.phase->MapValue_1 + value))),
        ),
{
    lemma_leading_concat(value, more, ByteClass::Text);
}

/// A line that holds a mapping entry, read from its first byte: blanks, a
/// key of letters and blanks that starts with a letter, a colon, a blank,
/// more blanks, and a value of letters and blanks that starts with a letter.
/// The first drive hands out the key without the blanks at its end, the
/// second hands out the value as it stands, and the machine is left at the
/// end of the line with the indentation recorded.
pub proof fn lemma_entry_line(
    m: MachineView,
    indent: Seq<u8>,
    key: Seq<u8>,
    sep: u8,
    pad: Seq<u8>,
    value: Seq<u8>,
    more: Seq<u8>,
)
    requires
        m.phase is LineStart,
        m.scan.rest == indent + (key + (seq![COLON, sep] + (pad + (value + more)))),
        indent.len() <= usize::MAX,
        all_blank(indent),
        all_text(key),
        key.len() > 0 ==> letter(key[0]),
        blank(sep),
        all_blank(pad),
        all_text(value),
        value.len() > 0,
        letter(value[0]),
        more.len() > 0 ==> line_break(more[0]),
        more.len() == 0 ==> m.scan.failure is None,
    ensures
        advance(m).1 == Some(Ok::<NodeView, ErrorView>(NodeView::Key(trimmed(key)))),
        advance(advance(m).0).1 == Some(Ok::<NodeView, ErrorView>(NodeView::ScalarPlain(value))),
        advance(advance(m).0).0 == (MachineView {
            phase: if more.len() > 0 {
                PhaseView::LineEnd
            } else {
                PhaseView::Done
            },
            scan: ScanView {
                rest: more,
                failure: m.scan.failure,
                track: track_updated(m.scan.track, indent.len() as usize),
            },
        }),
{
    let r4 = value + more;
    let r3 = pad + r4;
    let r2 = seq![COLON, sep] + r3;
    let r1 = key + r2;
    assert(r4[0] == value[0]);
    assert(r2[0] == COLON);
    assert(r1[0] == (if key.len() > 0 {
        key[0]
    } else {
        COLON
    }));
    lemma_indent_step(m, indent, r1);
    let ma = step_view(m).0;
    lemma_advance_silent(m);
    lemma_text_step(ma, key, r2);
    assert(Seq::<u8>::empty() + key == key);
    let mb = step_view(ma).0;
    lemma_advance_silent(ma);
    lemma_colon_step(mb, sep, r3);
    let mc = step_view(mb).0;
    lemma_advance_silent(mb);
    lemma_key_steps(mc);
    let me = advance(mc).0;
    assert(advance(m) == advance(mc));
    lemma_pad_step(me, pad, r4);
    let mf = step_view(me).0;
    lemma_advance_silent(me);
    lemma_value_step(mf, value, more);
    assert(Seq::<u8>::empty() + value == value);
    lemma_advance_event(mf);
}

/// The end of a line that is closed by a line feed, or by a carriage
/// return and a line feed: the terminator is consumed, and the machine
/// stands at the start of the next line, or is finished where nothing
/// follows.
pub proof fn lemma_line_end_step(m: MachineView, ending: Seq<u8>, more: Seq<u8>)
    requires
        m.phase is LineEnd,
        m.scan.rest == ending + more,
        ending == seq![LINE_FEED] || ending == seq![CARRIAGE_RETURN, LINE_FEED],
        more.len() > 0 ==> letter(more[0]) || blank(more[0]),
        more.len() == 0 ==> m.scan.failure is None,
    ensures
        step_view(m) == (
            MachineView {
                phase: if more.len() > 0 {
                    PhaseView::LineStart
                } else {
                    PhaseView::Done
                },
                scan: ScanView { rest: more, ..m.scan },
            },
            None::<EventView>,
        ),
{
    let rest = m.scan.rest;
    assert(rest[0] == ending[0]);
    lemma_leading_is(rest, ByteClass::Inline, 0);
    assert(rest.skip(0) == rest);
    if ending.len() == 1 {
        assert(rest.skip(1) =~= more);
    } else {
        assert(rest[1] == ending[1]);
        assert(rest.skip(1)[0] == LINE_FEED);
        assert(rest.skip(2) =~= more);
    }
}

/// A line that holds a mapping entry, in its parts.
pub struct EntryLine {
    /// The blanks before the key.
    pub indent: Seq<u8>,
    /// The key, as far as the colon.
    pub key: Seq<u8>,
    /// The blank after the colon.
    pub sep: u8,
    /// The further blanks before the value.
    pub pad: Seq<u8>,
    /// The value, as far as the end of the line.
    pub value: Seq<u8>,
    /// What ends the line.
    pub ending: Seq<u8>,
}

/// The bytes of an entry line.
pub open spec fn entry_bytes(line: EntryLine) -> Seq<u8> {
    line.indent + (line.key + (seq![COLON, line.sep] + (line.pad + (line.value + line.ending))))
}

/// Whether the parts of an entry line are what they are called: the key is
/// made of letters and blanks and starts with a letter if it is not empty,
/// the value is made of letters and blanks and starts with a letter, and
/// the line ends with a line feed, with a carriage return and a line feed,
/// or with nothing.
pub open spec fn entry_line(line: EntryLine) -> bool {
    &&& line.indent.len() <= usize::MAX
    &&& all_blank(line.indent)
    &&& all_text(line.key)
    &&& line.key.len() > 0 ==> letter(line.key[0])
    &&& blank(line.sep)
    &&& all_blank(line.pad)
    &&& all_text(line.value)
    &&& line.value.len() > 0
    &&& letter(line.value[0])
    &&& (line.ending.len() == 0 || line.ending == seq![LINE_FEED] || line.ending == seq![
        CARRIAGE_RETURN,
        LINE_FEED,
    ])
}

/// Whether `lines` are the lines of a document of mapping entries: each is
/// an entry line, each but the last ends with a terminator, and each but the
/// first starts with a letter or a blank.
pub open spec fn entry_lines(lines: Seq<EntryLine>) -> bool {
    forall|i: int|
        0 <= i < lines.len() ==> {
            &&& entry_line(#[trigger] lines[i])
            &&& i + 1 < lines.len() ==> lines[i].ending.len() > 0
            &&& i > 0 ==> lines[i].indent.len() + lines[i].key.len() > 0
        }
}

/// The bytes of a document of entry lines.
pub open spec fn document(lines: Seq<EntryLine>) -> Seq<u8>
    decreases lines.len(),
{
    if lines.len() == 0 {
        Seq::empty()
    } else {
        entry_bytes(lines[0]) + document(lines.drop_first())
    }
}

/// What a document of entry lines gives: for each line its key without the
/// blanks at the end, and then its value.
pub open spec fn entry_nodes(lines: Seq<EntryLine>) -> Seq<Result<NodeView, ErrorView>>
    decreases lines.len(),
{
    if lines.len() == 0 {
        Seq::empty()
    } else {
        seq![
            Ok::<NodeView, ErrorView>(NodeView::Key(trimmed(lines[0].key))),
            Ok::<NodeView, ErrorView>(NodeView::ScalarPlain(lines[0].value)),
        ] + entry_nodes(lines.drop_first())
    }
}

/// A machine at the start of the first of some entry lines hands out the
/// key and the value of each, and finishes.
pub proof fn lemma_entry_lines(m: MachineView, lines: Seq<EntryLine>)
    requires
        m.phase is LineStart,
        m.scan.failure is None,
        lines.len() > 0,
        entry_lines(lines),
        m.scan.rest == document(lines),
    ensures
        items(m) == entry_nodes(lines),
        drained(m).phase is Done,
    decreases lines.len(),
{
    let line = lines[0];
    let others = lines.drop_first();
    let more = line.ending + document(others);
    assert(entry_line(line));
    assert forall|i: int| 0 <= i < others.len() implies {
        &&& entry_line(#[trigger] others[i])
        &&& i + 1 < others.len() ==> others[i].ending.len() > 0
        &&& i > 0 ==> others[i].indent.len() + others[i].key.len() > 0
    } by {
        assert(others[i] == lines[i + 1]);
    }
    if others.len() == 0 {
        assert(document(others) =~= Seq::<u8>::empty());
    } else {
        assert(line.ending.len() > 0);
    }
    if line.ending.len() > 0 {
        assert(more[0] == line.ending[0]);
    }
    assert(m.scan.rest == line.indent + (line.key + (seq![COLON, line.sep] + (line.pad + (line.value
        + more))))) by {
        assert(line.value + line.ending + document(others) =~= line.value + more);
        assert(m.scan.rest =~= line.indent + (line.key + (seq![COLON, line.sep] + (line.pad + (
        line.value + more)))));
    }
    lemma_entry_line(m, line.indent, line.key, line.sep, line.pad, line.value, more);
    lemma_advance_descends(m);
    let m1 = advance(m).0;
    lemma_advance_descends(m1);
    let m2 = advance(m1).0;
    let first = seq![
        Ok::<NodeView, ErrorView>(NodeView::Key(trimmed(line.key))),
        Ok::<NodeView, ErrorView>(NodeView::ScalarPlain(line.value)),
    ];
    assert(items(m1) == seq![advance(m1).1->Some_0] + items(m2));
    assert(items(m) == seq![advance(m).1->Some_0] + items(m1));
    assert(items(m) =~= first + items(m2));
    assert(drained(m1) == drained(m2));
    assert(drained(m) == drained(m1));
    if more.len() == 0 {
        lemma_advance_descends(m2);
        assert(items(m2) =~= entry_nodes(others));
    } else {
        let tail = document(others);
        if others.len() > 0 {
            let next = others[0];
            assert(entry_line(next));
            assert(others[0] == lines[1]);
            assert(entry_bytes(next).len() > 0);
            assert(tail[0] == entry_bytes(next)[0]);
            assert(entry_bytes(next)[0] == (if next.indent.len() > 0 {
                next.indent[0]
            } else {
                next.key[0]
            }));
            if next.indent.len() == 0 {
                assert(in_class(next.key[0], ByteClass::Text));
            }
        }
        lemma_line_end_step(m2, line.ending, tail);
        let m3 = step_view(m2).0;
        if others.len() > 0 {
            lemma_advance_silent(m2);
            lemma_step_descends(m2);
            lemma_entry_lines(m3, others);
            assert(items(m2) == items(m3));
            assert(drained(m2) == drained(m3));
        } else {
            lemma_advance_silent(m2);
            lemma_advance_descends(m3);
            assert(items(m2) =~= entry_nodes(others));
            assert(drained(m2) == m3);
        }
    }
}

/// A document of mapping entries, one to a line, gives the key and the
/// value of each entry in turn, each key without the blanks at its end and
/// each value as it stands, and then the sequence ends with the machine
/// finished.
pub proof fn law_mapping_document(lines: Seq<EntryLine>)
    requires
        entry_lines(lines),
    ensures
        items(initial(document(lines), None)) == entry_nodes(lines),
        drained(initial(document(lines), None)).phase is Done,
{
    let m = initial(document(lines), None);
    if lines.len() == 0 {
        lemma_advance_event(step_view(m).0);
        lemma_advance_silent(m);
        assert(items(m) =~= entry_nodes(lines));
    } else {
        assert(entry_line(lines[0]));
        assert(entry_bytes(lines[0]).len() > 0);
        let start = step_view(m).0;
        assert(start.phase is LineStart);
        lemma_advance_silent(m);
        lemma_entry_lines(start, lines);
        assert(items(m) == items(start));
        assert(drained(m) == drained(start));
    }
}

} // verus!
