//! What holds of every machine: how its sequence ends, what it may hand
//! out, and what its steps do to the tracker. All of it is proved over the
//! model of the machine.
use vstd::prelude::*;
use crate::error::ErrorView;
use crate::event::{transposed, EventView};
use crate::initial;
use crate::model::{
    advance, at_rest, drained, ended, items, lemma_advance_descends, lemma_step_descends,
    measure, step_view, MachineView, PhaseView,
};
use crate::node::{node_text, NodeView};
use crate::scanner::track_wf;
use crate::source::Feed;
use crate::states::{
    ahead, blank, in_class, leading, lemma_leading, lemma_leading_is, line_break, trimmed,
    ByteClass, COLON,
};

verus! {

/// A step that hands out no event is passed over by a drive.
pub proof fn lemma_advance_silent(m: MachineView)
    requires
        !at_rest(m),
        step_view(m).1 is None,
    ensures
        advance(m) == advance(step_view(m).0),
{
}

/// A step that hands out an event ends a drive.
pub proof fn lemma_advance_event(m: MachineView)
    requires
        step_view(m).1 is Some,
    ensures
        advance(m) == (step_view(m).0, transposed(step_view(m).1->Some_0)),
{
}

/// Whether the machine has failed and not yet reported its error.
pub open spec fn pending(m: MachineView) -> bool {
    m.phase matches PhaseView::Failure(Some(err)) && !(err.kind is RepeatFailure)
}

/// Whether the machine is running, or has failed and not yet said so.
pub open spec fn live(m: MachineView) -> bool {
    !(m.phase is Failure) || pending(m)
}

/// A step of a running machine leaves it running, or failed with an error
/// that is still to be reported. It finishes only at the clean end of the
/// input.
pub proof fn lemma_step_live(m: MachineView)
    requires
        !at_rest(m),
    ensures
        live(step_view(m).0),
        step_view(m).1 matches Some(event) ==> event is Node,
        step_view(m).0.phase is Done ==> step_view(m).0.scan.rest.len() == 0
            && m.scan.failure is None,
{
    lemma_leading(m.scan.rest, ByteClass::Blank);
    lemma_leading(m.scan.rest, ByteClass::Text);
    lemma_leading(m.scan.rest, ByteClass::Inline);
}

/// What a drive of a live machine hands out tells where the machine is left:
/// after a node it is still live, after an error it has failed for good, and
/// at the end of the sequence it is finished.
pub proof fn lemma_advance_live(m: MachineView)
    requires
        live(m),
    ensures
        advance(m).1 matches Some(Ok(_)) ==> live(advance(m).0) && !at_rest(m),
        advance(m).1 matches Some(Err(_)) ==> advance(m).0.phase == PhaseView::Failure(None),
        advance(m).1 is None ==> advance(m).0.phase is Done,
        advance(m).0.phase is Done && !(m.phase is Done) ==> advance(m).0.scan.rest.len() == 0
            && m.scan.failure is None,
    decreases measure(m),
{
    if !at_rest(m) {
        lemma_step_live(m);
        lemma_step_descends(m);
        let (next, event) = step_view(m);
        if event is None {
            lemma_advance_live(next);
        }
    }
}

/// Once a machine has handed out an error, its sequence has ended: every
/// further drive yields the end of the sequence and no second error, and
/// leaves the machine as it is.
pub proof fn law_error_is_reported_once(m: MachineView)
    requires
        advance(m).1 matches Some(Err(_)),
    ensures
        ended(advance(m).0),
        advance(advance(m).0) == (advance(m).0, None::<Result<NodeView, ErrorView>>),
        items(advance(m).0) == Seq::<Result<NodeView, ErrorView>>::empty(),
    decreases measure(m),
{
    let (next, event) = step_view(m);
    if event is None && !at_rest(m) {
        lemma_step_descends(m);
        law_error_is_reported_once(next);
    }
    lemma_advance_descends(advance(m).0);
}

/// Once the sequence of a machine has ended, it stays ended: every further
/// drive yields the end again and leaves the machine as it is.
pub proof fn law_end_is_final(m: MachineView)
    requires
        advance(m).1 is None,
    ensures
        ended(advance(m).0),
        advance(advance(m).0) == (advance(m).0, None::<Result<NodeView, ErrorView>>),
{
    lemma_advance_descends(m);
    lemma_advance_descends(advance(m).0);
}

/// Whether every item of `list` is a node.
pub open spec fn all_nodes(list: Seq<Result<NodeView, ErrorView>>) -> bool {
    forall|i: int| 0 <= i < list.len() ==> (#[trigger] list[i]) is Ok
}

/// A machine ends either finished or failed, never both, and stays so. It
/// ends finished exactly if it handed out no error, and then it has consumed
/// the whole input, which ended cleanly.
pub proof fn law_done_or_failure(m: MachineView)
    requires
        live(m),
    ensures
        ended(drained(m)),
        step_view(drained(m)).0 == drained(m),
        drained(m).phase is Done <==> all_nodes(items(m)),
        drained(m).phase is Done && !(m.phase is Done) ==> drained(m).scan.rest.len() == 0
            && m.scan.failure is None,
    decreases measure(m),
{
    lemma_advance_live(m);
    lemma_advance_descends(m);
    let (next, item) = advance(m);
    match item {
        Some(Ok(node)) => {
            law_done_or_failure(next);
            lemma_advance_descends(next);
            let rest = items(next);
            assert(items(m) == seq![item->Some_0] + rest);
            if all_nodes(rest) {
                assert forall|i: int| 0 <= i < items(m).len() implies (#[trigger] items(
                    m,
                )[i]) is Ok by {
                    if i > 0 {
                        assert(items(m)[i] == rest[i - 1]);
                    }
                }
            } else {
                let i = choose|i: int| 0 <= i < rest.len() && !((#[trigger] rest[i]) is Ok);
                assert(items(m)[i + 1] == rest[i]);
            }
        },
        Some(Err(err)) => {
            lemma_advance_descends(next);
            assert(items(m)[0] is Err);
        },
        None => {},
    }
}

/// Reading a document ends with the machine finished or failed, never both.
/// It ends finished exactly if no error was handed out, and then the whole
/// document has been consumed and it ended cleanly.
pub proof fn law_document_done_or_failure(bytes: Seq<u8>, failure: Option<Seq<char>>)
    ensures
        ended(drained(initial(bytes, failure))),
        drained(initial(bytes, failure)).phase is Done <==> all_nodes(
            items(initial(bytes, failure)),
        ),
        drained(initial(bytes, failure)).phase is Done ==> failure is None && drained(
            initial(bytes, failure),
        ).scan.rest.len() == 0,
{
    law_done_or_failure(initial(bytes, failure));
}

/// Every error in what a machine hands out is the last item: after an error
/// nothing follows.
pub proof fn law_error_is_last(m: MachineView, i: int)
    requires
        0 <= i < items(m).len(),
        items(m)[i] is Err,
    ensures
        i == items(m).len() - 1,
    decreases measure(m),
{
    lemma_advance_descends(m);
    let (next, item) = advance(m);
    if i == 0 {
        law_error_is_reported_once(m);
    } else {
        assert(items(m)[i] == items(next)[i - 1]);
        law_error_is_last(next, i - 1);
    }
}

/// Whether `line` is made of letters and blanks only.
pub open spec fn all_text(line: Seq<u8>) -> bool {
    forall|i: int| 0 <= i < line.len() ==> in_class(#[trigger] line[i], ByteClass::Text)
}

/// What is left of `s` without the blanks at its end is the start of `s`,
/// and does not end in a blank.
pub proof fn lemma_trimmed(s: Seq<u8>)
    ensures
        trimmed(s).len() <= s.len(),
        trimmed(s) == s.take(trimmed(s).len() as int),
        trimmed(s).len() > 0 ==> !blank(trimmed(s).last()),
        forall|i: int| trimmed(s).len() <= i < s.len() ==> blank(#[trigger] s[i]),
    decreases s.len(),
{
    if s.len() > 0 && blank(s.last()) {
        let front = s.drop_last();
        lemma_trimmed(front);
        assert(front.take(trimmed(front).len() as int) == s.take(trimmed(front).len() as int));
        assert forall|i: int| trimmed(s).len() <= i < s.len() implies blank(#[trigger] s[i]) by {
            if i < front.len() {
                assert(s[i] == front[i]);
            }
        }
    } else {
        assert(s.take(s.len() as int) == s);
    }
}

/// Whether the machine is in a state that a run from the start of a
/// document can be in: what it holds is made of letters and blanks, it
/// stands where its phase is entered, and the error it holds, if it holds
/// one, is none that only a broken machine gives.
pub open spec fn sound(m: MachineView) -> bool {
    match m.phase {
        PhaseView::Start => true,
        PhaseView::LineStart => m.scan.rest.len() > 0,
        PhaseView::LineEnd => ahead(m.scan) matches Feed::Byte(c) && line_break(c),
        PhaseView::AmbiguousScalar(scratch) => all_text(scratch),
        PhaseView::AmbiguousColon(scratch) => all_text(scratch) && ahead(m.scan) == Feed::Byte(
            COLON,
        ),
        PhaseView::ScalarLiteral(scalar) => all_text(scalar) && ahead(m.scan) is End,
        PhaseView::MapStart(_, scratch) => all_text(scratch),
        PhaseView::MapVerifyKey(_, key) => all_text(key) && ahead(m.scan) is Byte,
        PhaseView::MapWhiteSpace(_) => true,
        PhaseView::MapValue(_, value) => all_text(value),
        PhaseView::Done => true,
        PhaseView::Failure(Some(err)) => !broken(err),
        PhaseView::Failure(None) => true,
    }
}

/// Whether `err` is an error that only a broken machine gives: an illegal
/// transition, a state that should not be, or the repeat of a failure.
pub open spec fn broken(err: ErrorView) -> bool {
    err.kind is IllegalTransition || err.kind is StateViolation || err.kind is RepeatFailure
}

/// Whether an event is one that a sound machine hands out: a node whose text
/// is made of letters and blanks, or an error that is not the machine's own
/// fault.
pub open spec fn fair(item: Result<NodeView, ErrorView>) -> bool {
    match item {
        Ok(node) => all_text(node_text(node)),
        Err(err) => !broken(err),
    }
}

/// A step of a sound machine leaves it sound, and the node that it hands
/// out, if any, is made of letters and blanks.
pub proof fn lemma_step_sound(m: MachineView)
    requires
        sound(m),
        !at_rest(m),
    ensures
        sound(step_view(m).0),
        step_view(m).1 matches Some(EventView::Node(node)) ==> all_text(node_text(node)),
{
    let rest = m.scan.rest;
    lemma_leading(rest, ByteClass::Blank);
    lemma_leading(rest, ByteClass::Text);
    lemma_leading(rest, ByteClass::Inline);
    match m.phase {
        PhaseView::AmbiguousScalar(scratch) => {
            let n = leading(rest, ByteClass::Text) as int;
            let gathered = scratch + rest.take(n);
            assert forall|i: int| 0 <= i < gathered.len() implies in_class(
                #[trigger] gathered[i],
                ByteClass::Text,
            ) by {
                if i >= scratch.len() {
                    assert(gathered[i] == rest[i - scratch.len()]);
                } else {
                    assert(gathered[i] == scratch[i]);
                }
            }
        },
        PhaseView::AmbiguousColon(scratch) => {
            assert(rest.skip(0) == rest);
        },
        PhaseView::MapVerifyKey(_, key) => {
            lemma_leading(key, ByteClass::Text);
            lemma_leading_is(key, ByteClass::Text, key.len());
            lemma_trimmed(key);
            assert forall|i: int| 0 <= i < trimmed(key).len() implies in_class(
                #[trigger] trimmed(key)[i],
                ByteClass::Text,
            ) by {
                assert(trimmed(key)[i] == key[i]);
            }
        },
        PhaseView::MapValue(_, value) => {
            let n = leading(rest, ByteClass::Text) as int;
            let gathered = value + rest.take(n);
            assert forall|i: int| 0 <= i < gathered.len() implies in_class(
                #[trigger] gathered[i],
                ByteClass::Text,
            ) by {
                if i >= value.len() {
                    assert(gathered[i] == rest[i - value.len()]);
                } else {
                    assert(gathered[i] == value[i]);
                }
            }
        },
        _ => {},
    }
}

/// A machine at the start of a document is sound.
pub proof fn lemma_initial_sound(bytes: Seq<u8>, failure: Option<Seq<char>>)
    ensures
        sound(initial(bytes, failure)),
        live(initial(bytes, failure)),
{
}

/// A drive of a sound machine leaves it sound and hands out a fair item.
pub proof fn lemma_advance_sound(m: MachineView)
    requires
        sound(m),
        live(m),
    ensures
        sound(advance(m).0),
        live(advance(m).0) || ended(advance(m).0),
        advance(m).1 matches Some(item) ==> fair(item),
    decreases measure(m),
{
    if !at_rest(m) {
        lemma_step_sound(m);
        lemma_step_live(m);
        lemma_step_descends(m);
        let (next, event) = step_view(m);
        if event is None {
            lemma_advance_sound(next);
        }
    }
}

/// Whatever the document, the machine never makes an illegal transition and
/// never finds itself in a state that should not be: of all it hands out,
/// each node is made of letters and blanks, and no error is the machine's
/// own fault.
pub proof fn law_machine_is_sound(bytes: Seq<u8>, failure: Option<Seq<char>>, i: int)
    requires
        0 <= i < items(initial(bytes, failure)).len(),
    ensures
        fair(items(initial(bytes, failure))[i]),
{
    lemma_initial_sound(bytes, failure);
    lemma_items_fair(initial(bytes, failure), i);
}

/// Every item that a sound machine hands out is fair.
pub proof fn lemma_items_fair(m: MachineView, i: int)
    requires
        sound(m),
        live(m),
        0 <= i < items(m).len(),
    ensures
        fair(items(m)[i]),
    decreases measure(m),
{
    lemma_advance_sound(m);
    lemma_advance_descends(m);
    let (next, item) = advance(m);
    if i > 0 {
        assert(items(m)[i] == items(next)[i - 1]);
        if ended(next) {
            lemma_advance_descends(next);
        } else {
            lemma_items_fair(next, i - 1);
        }
    }
}

/// No step lowers the floor, drops anything from the history or lets the
/// counters fall out of step with it. Only the start of a line records an
/// indentation, and it records one.
pub proof fn law_step_keeps_track(m: MachineView)
    requires
        track_wf(m.scan.track),
    ensures
        track_wf(step_view(m).0.scan.track),
        step_view(m).0.scan.track.floor >= m.scan.track.floor,
        step_view(m).0.scan.track.clamp == m.scan.track.clamp,
        m.scan.track.history.is_prefix_of(step_view(m).0.scan.track.history),
        !(m.phase is LineStart) ==> step_view(m).0.scan.track == m.scan.track,
        m.phase is LineStart ==> step_view(m).0.scan.track.history.len()
            <= m.scan.track.history.len() + 1,
{
}

} // verus!
