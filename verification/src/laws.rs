//! Run-wide guarantees of the rewrite, proved of the model.
//!
//! Each law speaks of a valid trace: the steps an actual driver can take,
//! in the order it can take them.  `feeds_of` lists the structural events
//! the run consumed; `walk` re-reads the scope and anchor state from those
//! events alone, so the laws can point at any position of the stream.

use vstd::prelude::*;

use crate::anchor::SkipView;
use crate::anchor::initial_skip;
use crate::anchor::observe_result;
use crate::event::EventView;
use crate::event::translatable_tag;
use crate::model::StepView;
use crate::model::replacement;
use crate::model::run;
use crate::model::step_ok;
use crate::model::step_state;
use crate::model::valid_trace;

verus! {

/// The structural events a trace consumed, in order.
pub open spec fn feeds_of(tr: Seq<StepView>) -> Seq<EventView>
    decreases tr.len(),
{
    if tr.len() == 0 {
        Seq::empty()
    } else {
        let rest = feeds_of(tr.drop_last());
        match tr.last() {
            StepView::Feed { ev } => rest.push(ev),
            StepView::Decide { .. } => rest,
        }
    }
}

/// The part of the state that the consumed events alone determine.
#[verifier::ext_equal]
pub struct WalkState {
    pub in_scope: bool,
    pub skip: SkipView,
    pub skip_current: bool,
}

/// How one structural event moves the scope and anchor state.
pub open spec fn walk_step(w: WalkState, ev: EventView) -> WalkState {
    match ev {
        EventView::Open { name, attrs } => {
            if name == translatable_tag() {
                match observe_result(w.skip, attrs) {
                    Some((sk, skip_now)) => WalkState {
                        in_scope: true,
                        skip: sk,
                        skip_current: skip_now,
                    },
                    None => w,
                }
            } else {
                w
            }
        },
        EventView::Close { name } => {
            if name == translatable_tag() {
                WalkState { in_scope: false, skip_current: false, ..w }
            } else {
                w
            }
        },
        _ => w,
    }
}

/// The scope and anchor state after consuming `evs`.
pub open spec fn walk(anchor: Option<Seq<char>>, evs: Seq<EventView>) -> WalkState
    decreases evs.len(),
{
    if evs.len() == 0 {
        WalkState { in_scope: false, skip: initial_skip(anchor), skip_current: false }
    } else {
        walk_step(walk(anchor, evs.drop_last()), evs.last())
    }
}

/// Whether the text at position `i` of the consumed events is one the
/// driver asks a decision for: a text inside a translatable element that
/// is not being skipped.
pub open spec fn prompted_at(anchor: Option<Seq<char>>, c: Seq<EventView>, i: int) -> bool {
    let w = walk(anchor, c.take(i));
    c[i] is Text && w.in_scope && !w.skip_current
}

/// How the event written at position `i` relates to the one consumed
/// there: a prompted text becomes some text; everything else is written
/// through unchanged.
pub open spec fn out_matches_at(
    anchor: Option<Seq<char>>,
    c: Seq<EventView>,
    out: Seq<EventView>,
    i: int,
) -> bool {
    if prompted_at(anchor, c, i) {
        out[i] is Text
    } else {
        out[i] == c[i]
    }
}

/// The alignment of a run with the events it consumed: each consumed
/// event has produced exactly one written event, in order, except the one
/// text still waiting for a decision or dropped by a quit.
pub open spec fn aligned(anchor: Option<Seq<char>>, tr: Seq<StepView>) -> bool {
    let m = run(anchor, tr);
    let c = feeds_of(tr);
    &&& m.out.len() + (if m.pending is Some {
        1int
    } else {
        0int
    }) + (if m.done {
        1int
    } else {
        0int
    }) == c.len()
    &&& WalkState { in_scope: m.in_scope, skip: m.skip, skip_current: m.skip_current } == walk(
        anchor,
        c,
    )
    &&& (m.pending is Some ==> c.len() > 0 && c.last() == EventView::Text { text: m.pending->0 }
        && prompted_at(anchor, c, c.len() - 1))
    &&& (m.done ==> c.len() > 0 && prompted_at(anchor, c, c.len() - 1))
    &&& forall|i: int| 0 <= i < m.out.len() ==> out_matches_at(anchor, c, m.out, i)
}

/// Consuming one more event walks one more step.
proof fn lemma_walk_snoc(anchor: Option<Seq<char>>, evs: Seq<EventView>, ev: EventView)
    ensures
        walk(anchor, evs.push(ev)) == walk_step(walk(anchor, evs), ev),
{
    assert(evs.push(ev).drop_last() =~= evs);
    assert(evs.push(ev).last() == ev);
}

/// Every valid run is aligned with what it consumed.
pub proof fn lemma_aligned(anchor: Option<Seq<char>>, tr: Seq<StepView>)
    requires
        valid_trace(anchor, tr),
    ensures
        aligned(anchor, tr),
    decreases tr.len(),
{
    if tr.len() == 0 {
        assert(feeds_of(tr) =~= Seq::<EventView>::empty());
        assert(walk(anchor, feeds_of(tr)) == WalkState {
            in_scope: false,
            skip: initial_skip(anchor),
            skip_current: false,
        });
    } else {
        let tr0 = tr.drop_last();
        let st = tr.last();
        lemma_aligned(anchor, tr0);
        let m0 = run(anchor, tr0);
        let m = run(anchor, tr);
        let c0 = feeds_of(tr0);
        let c = feeds_of(tr);
        assert(m == step_state(m0, st));
        assert(step_ok(m0, st));
        match st {
            StepView::Feed { ev } => {
                assert(c == c0.push(ev));
                lemma_walk_snoc(anchor, c0, ev);
                assert(m0.out.len() == c0.len());
                assert forall|i: int| 0 <= i < m0.out.len() implies out_matches_at(
                    anchor,
                    c,
                    m.out,
                    i,
                ) by {
                    assert(out_matches_at(anchor, c0, m0.out, i));
                    assert(c.take(i) =~= c0.take(i));
                    assert(c[i] == c0[i]);
                    assert(m.out[i] == m0.out[i]);
                }
                if m.out.len() > m0.out.len() {
                    let i = m0.out.len() as int;
                    assert(c.take(i) =~= c0);
                    assert(out_matches_at(anchor, c, m.out, i));
                }
            },
            StepView::Decide { candidate, decision } => {
                assert(c == c0);
                assert(m0.pending is Some);
                if decision is Quit {
                } else {
                    assert(m.out == m0.out.push(
                        EventView::Text {
                            text: replacement(m0.pending->0, candidate, decision),
                        },
                    ));
                    assert forall|i: int| 0 <= i < m0.out.len() implies out_matches_at(
                        anchor,
                        c,
                        m.out,
                        i,
                    ) by {
                        assert(out_matches_at(anchor, c0, m0.out, i));
                        assert(m.out[i] == m0.out[i]);
                    }
                    assert(m0.out.len() == c0.len() - 1);
                    assert(out_matches_at(anchor, c, m.out, m0.out.len() as int));
                }
            },
        }
    }
}

/// The events of `s` that are not text, in order.
pub open spec fn non_text(s: Seq<EventView>) -> Seq<EventView>
    decreases s.len(),
{
    if s.len() == 0 {
        Seq::empty()
    } else if s.last() is Text {
        non_text(s.drop_last())
    } else {
        non_text(s.drop_last()).push(s.last())
    }
}

/// Appending one event to a sequence appends it to its non-text part
/// exactly when it is not a text.
proof fn lemma_non_text_push(s: Seq<EventView>, e: EventView)
    ensures
        non_text(s.push(e)) == if e is Text {
            non_text(s)
        } else {
            non_text(s).push(e)
        },
{
    assert(s.push(e).drop_last() =~= s);
    assert(s.push(e).last() == e);
}

/// Structural fidelity: the non-text events a valid run writes are
/// exactly the non-text events it consumed, in the same order.
pub proof fn lemma_structural_fidelity(anchor: Option<Seq<char>>, tr: Seq<StepView>)
    requires
        valid_trace(anchor, tr),
    ensures
        non_text(run(anchor, tr).out) == non_text(feeds_of(tr)),
    decreases tr.len(),
{
    if tr.len() == 0 {
        assert(run(anchor, tr).out =~= Seq::<EventView>::empty());
        assert(feeds_of(tr) =~= Seq::<EventView>::empty());
    } else {
        let tr0 = tr.drop_last();
        let st = tr.last();
        lemma_structural_fidelity(anchor, tr0);
        let m0 = run(anchor, tr0);
        let c0 = feeds_of(tr0);
        match st {
            StepView::Feed { ev } => {
                lemma_non_text_push(c0, ev);
                if run(anchor, tr).out.len() > m0.out.len() {
                    lemma_non_text_push(m0.out, ev);
                }
            },
            StepView::Decide { candidate, decision } => {
                if !(decision is Quit) {
                    lemma_non_text_push(
                        m0.out,
                        EventView::Text { text: replacement(m0.pending->0, candidate, decision) },
                    );
                }
            },
        }
    }
}

/// Text locality: a written event can differ from the consumed one at its
/// position only if that consumed event was a text inside a translatable
/// element.
pub proof fn lemma_text_locality(anchor: Option<Seq<char>>, tr: Seq<StepView>, i: int)
    requires
        valid_trace(anchor, tr),
        0 <= i < run(anchor, tr).out.len(),
        !(feeds_of(tr)[i] is Text && walk(anchor, feeds_of(tr).take(i)).in_scope),
    ensures
        i < feeds_of(tr).len(),
        run(anchor, tr).out[i] == feeds_of(tr)[i],
{
    lemma_aligned(anchor, tr);
    assert(out_matches_at(anchor, feeds_of(tr), run(anchor, tr).out, i));
}

/// While the scope is open and the anchor is still being sought, the
/// current element is one being skipped.
proof fn lemma_seeking_skips(anchor: Option<Seq<char>>, evs: Seq<EventView>)
    ensures
        walk(anchor, evs).in_scope && walk(anchor, evs).skip is Seeking ==> walk(
            anchor,
            evs,
        ).skip_current,
    decreases evs.len(),
{
    if evs.len() > 0 {
        lemma_seeking_skips(anchor, evs.drop_last());
    }
}

/// Anchor correctness: a translatable text consumed while the anchor was
/// still being sought is written through verbatim, and no decision (hence
/// no translation) is requested for it.
pub proof fn lemma_anchor_correctness(anchor: Option<Seq<char>>, tr: Seq<StepView>, i: int)
    requires
        valid_trace(anchor, tr),
        0 <= i < feeds_of(tr).len(),
        feeds_of(tr)[i] is Text,
        walk(anchor, feeds_of(tr).take(i)).in_scope,
        walk(anchor, feeds_of(tr).take(i)).skip is Seeking,
    ensures
        !prompted_at(anchor, feeds_of(tr), i),
        i < run(anchor, tr).out.len() ==> run(anchor, tr).out[i] == feeds_of(tr)[i],
{
    lemma_aligned(anchor, tr);
    lemma_seeking_skips(anchor, feeds_of(tr).take(i));
    if i < run(anchor, tr).out.len() {
        assert(out_matches_at(anchor, feeds_of(tr), run(anchor, tr).out, i));
    }
}

/// A prefix of a valid trace is valid.
pub proof fn lemma_valid_trace_take(anchor: Option<Seq<char>>, tr: Seq<StepView>, k: int)
    requires
        valid_trace(anchor, tr),
        0 <= k <= tr.len(),
    ensures
        valid_trace(anchor, tr.take(k)),
    decreases tr.len(),
{
    if k == tr.len() {
        assert(tr.take(k) =~= tr);
    } else {
        assert(tr.drop_last().take(k) =~= tr.take(k));
        lemma_valid_trace_take(anchor, tr.drop_last(), k);
    }
}

/// One more step of a trace runs that step.
pub proof fn lemma_run_take_succ(anchor: Option<Seq<char>>, tr: Seq<StepView>, k: int)
    requires
        0 <= k < tr.len(),
    ensures
        run(anchor, tr.take(k + 1)) == step_state(run(anchor, tr.take(k)), tr[k]),
{
    assert(tr.take(k + 1).drop_last() =~= tr.take(k));
    assert(tr.take(k + 1).last() == tr[k]);
}

/// Decision honoring: each decision other than Quit writes exactly one
/// text, and it is the candidate on Accept, the typed replacement on
/// Manual, and the waiting original on Skip.
pub proof fn lemma_decision_honoring(anchor: Option<Seq<char>>, tr: Seq<StepView>, k: int)
    requires
        valid_trace(anchor, tr),
        0 <= k < tr.len(),
        tr[k] is Decide,
        tr[k]->decision !is Quit,
    ensures
        run(anchor, tr.take(k)).pending is Some,
        run(anchor, tr.take(k + 1)).out == run(anchor, tr.take(k)).out.push(
            EventView::Text {
                text: replacement(
                    run(anchor, tr.take(k)).pending->0,
                    tr[k]->candidate,
                    tr[k]->decision,
                ),
            },
        ),
{
    lemma_valid_trace_take(anchor, tr, k + 1);
    lemma_run_take_succ(anchor, tr, k);
    assert(tr.take(k + 1).drop_last() =~= tr.take(k));
    assert(tr.take(k + 1).last() == tr[k]);
}

/// Termination on Quit: a run is done only because its very last step was
/// a Quit decision, which wrote nothing; the text that was waiting is
/// dropped and nothing follows it.
pub proof fn lemma_quit_is_final(anchor: Option<Seq<char>>, tr: Seq<StepView>)
    requires
        valid_trace(anchor, tr),
        run(anchor, tr).done,
    ensures
        tr.len() > 0,
        tr.last() is Decide,
        tr.last()->decision is Quit,
        run(anchor, tr).out == run(anchor, tr.drop_last()).out,
        run(anchor, tr).pending is None,
{
}

/// Round trip: when every decision of a valid run accepts a candidate
/// equal to the text that was waiting, the run writes back exactly the
/// events it consumed.
pub proof fn lemma_identity_round_trip(anchor: Option<Seq<char>>, tr: Seq<StepView>)
    requires
        valid_trace(anchor, tr),
        forall|k: int|
            0 <= k < tr.len() && tr[k] is Decide ==> tr[k]->decision is Accept && run(
                anchor,
                tr.take(k),
            ).pending == Some(tr[k]->candidate),
    ensures
        run(anchor, tr).out == feeds_of(tr).take(run(anchor, tr).out.len() as int),
    decreases tr.len(),
{
    if tr.len() == 0 {
        assert(run(anchor, tr).out =~= feeds_of(tr).take(0));
    } else {
        let tr0 = tr.drop_last();
        let st = tr.last();
        assert(forall|k: int|
            0 <= k < tr0.len() && tr0[k] is Decide ==> tr0[k] == tr[k] && tr0.take(k) =~= tr.take(
                k,
            ));
        lemma_identity_round_trip(anchor, tr0);
        lemma_aligned(anchor, tr0);
        let m0 = run(anchor, tr0);
        let m = run(anchor, tr);
        let c0 = feeds_of(tr0);
        let c = feeds_of(tr);
        match st {
            StepView::Feed { ev } => {
                assert(c == c0.push(ev));
                assert(m0.out.len() == c0.len());
                assert(m.out =~= c.take(m.out.len() as int));
            },
            StepView::Decide { candidate, decision } => {
                assert(tr.take(tr.len() - 1) =~= tr0);
                assert(decision is Accept);
                assert(m0.pending == Some(candidate));
                assert(c0.last() == EventView::Text { text: candidate });
                assert(m0.out.len() == c0.len() - 1);
                assert(m.out == m0.out.push(EventView::Text { text: candidate }));
                assert(m.out =~= c.take(m.out.len() as int));
            },
        }
    }
}

} // verus!
