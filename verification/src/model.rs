//! The mathematical model of a rewrite run.
//!
//! A run is a trace of steps: feeding one structural event, or deciding
//! the fate of the text that is waiting for a decision.  The model state
//! carries everything the rewrite remembers; the executable driver is
//! proved to follow these transitions exactly, and the run-wide laws are
//! proved of the model alone.

use vstd::prelude::*;

use crate::anchor::SkipView;
use crate::anchor::initial_skip;
use crate::anchor::observe_result;
use crate::anchor::attr_lookup;
use crate::event::EventView;
use crate::event::key_attr_name;
use crate::event::translatable_tag;

verus! {

/// The operator's disposition of one prompted text.
#[verifier::ext_equal]
pub enum DecisionView {
    /// Use the machine-translated candidate.
    Accept,
    /// Use a replacement the operator typed.
    Manual { text: Seq<char> },
    /// Keep the original text.
    Skip,
    /// End the walk; the waiting text is never written.
    Quit,
}

/// One step of a run.
#[verifier::ext_equal]
pub enum StepView {
    /// One structural event arrives from the source.
    Feed { ev: EventView },
    /// The waiting text is decided, given the candidate shown.
    Decide { candidate: Seq<char>, decision: DecisionView },
}

/// Everything a run remembers between steps.
#[verifier::ext_equal]
pub struct ModelState {
    /// Inside a translatable element.
    pub in_scope: bool,
    /// The skip anchor state.
    pub skip: SkipView,
    /// The current translatable element is passed through without prompting.
    pub skip_current: bool,
    /// A translatable text waiting for a decision, if any.
    pub pending: Option<Seq<char>>,
    /// The operator quit: the run accepts no further step.
    pub done: bool,
    /// The events written so far, in order.
    pub out: Seq<EventView>,
}

/// The state a run starts in.
pub open spec fn init_state(anchor: Option<Seq<char>>) -> ModelState {
    ModelState {
        in_scope: false,
        skip: initial_skip(anchor),
        skip_current: false,
        pending: None,
        done: false,
        out: Seq::empty(),
    }
}

/// Whether feeding `ev` succeeds: an opening translatable tag must carry a
/// `Key` attribute; every other event is always accepted.
pub open spec fn feed_ok(s: ModelState, ev: EventView) -> bool {
    match ev {
        EventView::Open { name, attrs } => name == translatable_tag() ==> attr_lookup(
            attrs,
            key_attr_name(),
        ) is Some,
        _ => true,
    }
}

/// The state after feeding one structural event.
///
/// Every event but a prompted text is written through unchanged, in order.
/// A text inside a translatable element that is not being skipped is not
/// written yet: it becomes the pending text, to be decided next.
pub open spec fn feed_state(s: ModelState, ev: EventView) -> ModelState {
    match ev {
        EventView::Open { name, attrs } => {
            if name == translatable_tag() {
                match observe_result(s.skip, attrs) {
                    Some((sk, skip_now)) => ModelState {
                        in_scope: true,
                        skip: sk,
                        skip_current: skip_now,
                        out: s.out.push(ev),
                        ..s
                    },
                    None => s,
                }
            } else {
                ModelState { out: s.out.push(ev), ..s }
            }
        },
        EventView::Close { name } => {
            if name == translatable_tag() {
                ModelState {
                    in_scope: false,
                    skip_current: false,
                    out: s.out.push(ev),
                    ..s
                }
            } else {
                ModelState { out: s.out.push(ev), ..s }
            }
        },
        EventView::Text { text } => {
            if s.in_scope && !s.skip_current {
                ModelState { pending: Some(text), ..s }
            } else {
                ModelState { out: s.out.push(ev), ..s }
            }
        },
        EventView::Other { .. } => ModelState { out: s.out.push(ev), ..s },
    }
}

/// The text a decision writes in place of the pending original.
pub open spec fn replacement(original: Seq<char>, candidate: Seq<char>, d: DecisionView) -> Seq<
    char,
>
    recommends
        d !is Quit,
{
    match d {
        DecisionView::Accept => candidate,
        DecisionView::Manual { text } => text,
        DecisionView::Skip => original,
        DecisionView::Quit => original,
    }
}

/// The state after deciding the pending text.
pub open spec fn decide_state(s: ModelState, candidate: Seq<char>, d: DecisionView) -> ModelState {
    match s.pending {
        Some(original) => match d {
            DecisionView::Quit => ModelState { pending: None, done: true, ..s },
            _ => ModelState {
                pending: None,
                out: s.out.push(EventView::Text { text: replacement(original, candidate, d) }),
                ..s
            },
        },
        None => s,
    }
}

/// Whether a step may be taken from `s`: nothing after quitting, events
/// only while no text waits, decisions only while one does, and feeding
/// must succeed.
pub open spec fn step_ok(s: ModelState, st: StepView) -> bool {
    &&& !s.done
    &&& match st {
        StepView::Feed { ev } => s.pending is None && feed_ok(s, ev),
        StepView::Decide { .. } => s.pending is Some,
    }
}

/// The state one step leads to.
pub open spec fn step_state(s: ModelState, st: StepView) -> ModelState {
    match st {
        StepView::Feed { ev } => feed_state(s, ev),
        StepView::Decide { candidate, decision } => decide_state(s, candidate, decision),
    }
}

/// The state a whole trace leads to.
pub open spec fn run(anchor: Option<Seq<char>>, tr: Seq<StepView>) -> ModelState
    decreases tr.len(),
{
    if tr.len() == 0 {
        init_state(anchor)
    } else {
        step_state(run(anchor, tr.drop_last()), tr.last())
    }
}

/// Whether every step of a trace was allowed where it was taken.
pub open spec fn valid_trace(anchor: Option<Seq<char>>, tr: Seq<StepView>) -> bool
    decreases tr.len(),
{
    tr.len() == 0 || {
        &&& valid_trace(anchor, tr.drop_last())
        &&& step_ok(run(anchor, tr.drop_last()), tr.last())
    }
}

/// Extending a trace by one step runs that step last; a step allowed at
/// the end keeps the trace valid.
pub proof fn lemma_run_snoc(anchor: Option<Seq<char>>, tr: Seq<StepView>, st: StepView)
    ensures
        run(anchor, tr.push(st)) == step_state(run(anchor, tr), st),
        valid_trace(anchor, tr) && step_ok(run(anchor, tr), st) ==> valid_trace(
            anchor,
            tr.push(st),
        ),
{
    assert(tr.push(st).drop_last() =~= tr);
    assert(tr.push(st).last() == st);
}

} // verus!
