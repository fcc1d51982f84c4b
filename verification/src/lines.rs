//! The tracker's history against the lines of the document.
use vstd::prelude::*;
use crate::initial;
use crate::laws::{
    lemma_advance_sound, lemma_initial_sound, lemma_step_live, lemma_step_sound, live, sound,
};
use crate::model::{
    advance, at_rest, drained, ended, lemma_advance_descends, lemma_step_descends, measure,
    step_view, MachineView, PhaseView,
};
use crate::states::{leading, lemma_leading, lemma_leading_is, ByteClass, LINE_FEED};

verus! {

/// What follows the first line feed of `s`; nothing if `s` has none.
pub open spec fn after_feed(s: Seq<u8>) -> Seq<u8>
    decreases s.len(),
{
    if s.len() == 0 {
        s
    } else if s[0] == LINE_FEED {
        s.drop_first()
    } else {
        after_feed(s.drop_first())
    }
}

/// What follows the first line feed is shorter than the whole.
pub proof fn lemma_after_feed_shorter(s: Seq<u8>)
    ensures
        after_feed(s).len() <= s.len(),
        s.len() > 0 ==> after_feed(s).len() < s.len(),
    decreases s.len(),
{
    if s.len() > 0 && s[0] != LINE_FEED {
        lemma_after_feed_shorter(s.drop_first());
    }
}

/// The number of blanks at the start of every line of `s`, first line first.
/// A line ends with a line feed; what follows the last line feed is a line
/// if it is not empty.
pub open spec fn line_indents(s: Seq<u8>) -> Seq<nat>
    decreases s.len(),
{
    if s.len() == 0 {
        Seq::empty()
    } else {
        proof {
            lemma_after_feed_shorter(s);
        }
        seq![leading(s, ByteClass::Blank)] + line_indents(after_feed(s))
    }
}

/// Past `n` bytes that are no line feeds, the first line feed is the same.
pub proof fn lemma_after_feed_skip(s: Seq<u8>, n: int)
    requires
        0 <= n <= s.len(),
        forall|i: int| 0 <= i < n ==> #[trigger] s[i] != LINE_FEED,
    ensures
        after_feed(s.skip(n)) == after_feed(s),
    decreases n,
{
    if n == 0 {
        assert(s.skip(0) == s);
    } else {
        let tail = s.drop_first();
        assert(s[0] != LINE_FEED);
        assert forall|i: int| 0 <= i < n - 1 implies #[trigger] tail[i] != LINE_FEED by {
            assert(tail[i] == s[i + 1]);
        }
        lemma_after_feed_skip(tail, n - 1);
        assert(tail.skip(n - 1) == s.skip(n));
    }
}

/// The indentations that a machine has recorded.
pub open spec fn recorded(m: MachineView) -> Seq<nat> {
    m.scan.track.history.map_values(|n: usize| n as nat)
}

/// The indentations that a machine is still to record.
pub open spec fn lines_ahead(m: MachineView) -> Seq<nat> {
    match m.phase {
        PhaseView::Start => line_indents(m.scan.rest),
        PhaseView::LineStart => line_indents(m.scan.rest),
        PhaseView::Done => Seq::empty(),
        PhaseView::Failure(_) => Seq::empty(),
        _ => line_indents(after_feed(m.scan.rest)),
    }
}

/// Whether the machine has recorded the indentation of each line of a
/// document that it has begun, where `all` are the indentations of all the
/// document's lines.
pub open spec fn lines_kept(m: MachineView, all: Seq<nat>) -> bool {
    &&& m.scan.rest.len() <= usize::MAX
    &&& recorded(m).is_prefix_of(all)
    &&& !(m.phase is Failure) ==> recorded(m) + lines_ahead(m) == all
}

/// A step of a sound machine keeps the record of the lines.
pub proof fn lemma_step_lines(m: MachineView, all: Seq<nat>)
    requires
        sound(m),
        lines_kept(m, all),
        !at_rest(m),
    ensures
        lines_kept(step_view(m).0, all),
{
    let rest = m.scan.rest;
    let next = step_view(m).0;
    lemma_leading(rest, ByteClass::Blank);
    lemma_leading(rest, ByteClass::Text);
    lemma_leading(rest, ByteClass::Inline);
    lemma_step_live(m);
    match m.phase {
        PhaseView::Start => {},
        PhaseView::LineStart => {
            let n = leading(rest, ByteClass::Blank);
            lemma_after_feed_skip(rest, n as int);
            if !(next.phase is Failure) {
                assert(recorded(next) == recorded(m).push(n)) by {
                    assert(recorded(next) =~= recorded(m).push(n));
                }
                assert(recorded(m).push(n) + line_indents(after_feed(rest)) == recorded(m) + (
                seq![n] + line_indents(after_feed(rest))));
                if next.phase is Done {
                    assert(after_feed(next.scan.rest) == next.scan.rest);
                }
            }
        },
        PhaseView::LineEnd => {
            assert(rest.skip(0) == rest);
            lemma_leading_is(rest, ByteClass::Inline, 0);
            if !(next.phase is Failure) {
                let tail = rest.drop_first();
                assert(rest.skip(1) == tail);
                if rest[0] == LINE_FEED {
                    assert(after_feed(rest) == tail);
                } else {
                    assert(tail[0] == LINE_FEED);
                    assert(rest.skip(2) == tail.drop_first());
                    assert(after_feed(tail) == tail.drop_first());
                    assert(after_feed(rest) == after_feed(tail));
                }
                assert(next.scan.rest == after_feed(rest));
            }
        },
        PhaseView::AmbiguousScalar(_) => {
            lemma_after_feed_skip(rest, leading(rest, ByteClass::Text) as int);
        },
        PhaseView::AmbiguousColon(_) => {
            assert(rest.skip(0) == rest);
            if !(next.phase is Failure) {
                assert(rest.skip(1)[0] == rest[1]);
                lemma_after_feed_skip(rest, 1);
                if next.phase is MapStart {
                    lemma_after_feed_skip(rest, 2);
                }
            }
        },
        PhaseView::MapWhiteSpace(_) => {
            lemma_after_feed_skip(rest, leading(rest, ByteClass::Blank) as int);
        },
        PhaseView::MapValue(_, _) => {
            lemma_after_feed_skip(rest, leading(rest, ByteClass::Text) as int);
        },
        _ => {},
    }
}

/// A drive of a sound machine keeps the record of the lines.
pub proof fn lemma_advance_lines(m: MachineView, all: Seq<nat>)
    requires
        sound(m),
        live(m),
        lines_kept(m, all),
    ensures
        lines_kept(advance(m).0, all),
    decreases measure(m),
{
    if !at_rest(m) {
        lemma_step_sound(m);
        lemma_step_live(m);
        lemma_step_descends(m);
        lemma_step_lines(m, all);
        let (next, event) = step_view(m);
        if event is None {
            lemma_advance_lines(next, all);
        }
    }
}

/// A sound machine that is driven to the end of its sequence keeps the
/// record of the lines.
pub proof fn lemma_drained_lines(m: MachineView, all: Seq<nat>)
    requires
        sound(m),
        live(m) || ended(m),
        lines_kept(m, all),
    ensures
        lines_kept(drained(m), all),
    decreases measure(m),
{
    lemma_advance_descends(m);
    if !ended(m) {
        lemma_advance_lines(m, all);
        lemma_advance_sound(m);
        let (next, item) = advance(m);
        if item is Some {
            lemma_drained_lines(next, all);
        }
    }
}

/// When a document has been read to its end, the tracker's history holds one
/// entry for each line, and each entry is the number of blanks at the start
/// of its line. When reading stopped at an error, the history holds these
/// numbers for the lines that were begun.
pub proof fn law_history_holds_line_indents(bytes: Seq<u8>, failure: Option<Seq<char>>)
    requires
        bytes.len() <= usize::MAX,
    ensures
        recorded(drained(initial(bytes, failure))).is_prefix_of(line_indents(bytes)),
        drained(initial(bytes, failure)).phase is Done ==> recorded(
            drained(initial(bytes, failure)),
        ) == line_indents(bytes),
{
    let m = initial(bytes, failure);
    let all = line_indents(bytes);
    lemma_initial_sound(bytes, failure);
    assert(recorded(m) =~= Seq::<nat>::empty());
    assert(recorded(m) + all == all);
    lemma_drained_lines(m, all);
    let end = drained(m);
    if end.phase is Done {
        assert(recorded(end) + Seq::<nat>::empty() == recorded(end));
    }
}

} // verus!
