//! The rewrite driver: a single forward walk over the event stream.
//!
//! The driver consumes structural events one at a time.  Non-translatable
//! events are written through unchanged.  A text inside a translatable
//! element is either passed through (while the skip anchor has not been
//! reached) or held back until the caller obtains a candidate translation,
//! asks the operator, and hands the decision in.  The caller drives the
//! loop; every transition the driver makes is the model's.

use vstd::prelude::*;

use crate::anchor::SkipState;
use crate::anchor::anchor_view;
use crate::event::EventView;
use crate::event::StructuralEvent;
use crate::event::events_view;
use crate::event::is_translatable_tag;
use crate::event::lemma_events_view_push;
use crate::model::DecisionView;
use crate::model::ModelState;
use crate::model::StepView;
use crate::model::decide_state;
use crate::model::feed_ok;
use crate::model::feed_state;
use crate::model::init_state;
use crate::model::lemma_run_snoc;
use crate::model::run;
use crate::model::step_ok;
use crate::model::valid_trace;
use crate::rewrite_error::RewriteError;

verus! {

/// The operator's disposition of one prompted text.
pub enum Decision {
    /// Use the machine-translated candidate.
    Accept,
    /// Use this replacement the operator typed.
    Manual { text: String },
    /// Keep the original text.
    Skip,
    /// End the walk; the waiting text is never written.
    Quit,
}

impl View for Decision {
    type V = DecisionView;

    open spec fn view(&self) -> DecisionView {
        match self {
            Decision::Accept => DecisionView::Accept,
            Decision::Manual { text } => DecisionView::Manual { text: text@ },
            Decision::Skip => DecisionView::Skip,
            Decision::Quit => DecisionView::Quit,
        }
    }
}

/// What one fed event asks of the caller.
pub enum StepAction {
    /// The event was written through; feed the next one.
    Written,
    /// A translatable text was written through verbatim because the skip
    /// anchor has not been reached; no candidate is wanted for it.
    Jumped { original: String },
    /// A translatable text is now waiting: obtain a candidate for this
    /// original, ask the operator, and call `resolve`.
    NeedDecision { original: String },
}

/// The rewrite driver.  `output` grows monotonically and is finalized by
/// `into_output` at end of stream or after a quit.
pub struct Rewriter {
    /// The skip anchor state.
    pub skip: SkipState,
    /// Inside a translatable element.
    pub in_scope: bool,
    /// The current translatable element is passed through without prompting.
    pub skip_current: bool,
    /// A translatable text waiting for a decision, if any.
    pub pending: Option<String>,
    /// The operator quit: no further event is accepted.
    pub done: bool,
    /// The events written so far, in order.
    pub output: Vec<StructuralEvent>,
    /// The anchor the run was started with.
    pub anchor: Ghost<Option<Seq<char>>>,
    /// The steps taken so far.
    pub trace: Ghost<Seq<StepView>>,
}

impl Rewriter {
    /// The model state this driver is in.
    pub open spec fn abs(self) -> ModelState {
        ModelState {
            in_scope: self.in_scope,
            skip: self.skip@,
            skip_current: self.skip_current,
            pending: match self.pending {
                Some(p) => Some(p@),
                None => None,
            },
            done: self.done,
            out: events_view(self.output@),
        }
    }

    /// The driver took exactly the steps of its trace, each where the
    /// model allowed it.
    pub open spec fn wf(self) -> bool {
        &&& valid_trace(self.anchor@, self.trace@)
        &&& self.abs() == run(self.anchor@, self.trace@)
    }

    /// A fresh driver, seeking the anchor if one is given.
    pub fn new(anchor: Option<String>) -> (r: Rewriter)
        ensures
            r.wf(),
            r.anchor@ == anchor_view(anchor),
            r.trace@ == Seq::<StepView>::empty(),
            r.abs() == init_state(anchor_view(anchor)),
    {
        let ghost av = anchor_view(anchor);
        let r = Rewriter {
            skip: SkipState::new(anchor),
            in_scope: false,
            skip_current: false,
            pending: None,
            done: false,
            output: Vec::new(),
            anchor: Ghost(av),
            trace: Ghost(Seq::empty()),
        };
        proof {
            assert(r.abs() =~= init_state(av));
        }
        r
    }

    /// Feed one structural event.
    ///
    /// On success the driver has taken exactly the model's feed step, and
    /// the action says whether the caller owes a decision: a prompt is
    /// requested exactly for a text inside a translatable element that is
    /// not being skipped.  On a missing `Key` the driver is unchanged.
    pub fn step(&mut self, ev: StructuralEvent) -> (r: Result<StepAction, RewriteError>)
        requires
            old(self).wf(),
            !old(self).abs().done,
            old(self).abs().pending is None,
        ensures
            match r {
                Ok(action) => {
                    &&& final(self).wf()
                    &&& final(self).anchor@ == old(self).anchor@
                    &&& final(self).trace@ == old(self).trace@.push(StepView::Feed { ev: ev@ })
                    &&& step_ok(old(self).abs(), StepView::Feed { ev: ev@ })
                    &&& final(self).abs() == feed_state(old(self).abs(), ev@)
                    &&& (action is NeedDecision <==> (ev@ is Text && old(self).abs().in_scope
                        && !old(self).abs().skip_current))
                    &&& (action is Jumped <==> (ev@ is Text && old(self).abs().in_scope && old(
                        self,
                    ).abs().skip_current))
                    &&& (action matches StepAction::NeedDecision { original } ==> ev@ matches
                        EventView::Text { text } && original@ == text)
                    &&& (action matches StepAction::Jumped { original } ==> ev@ matches
                        EventView::Text { text } && original@ == text)
                },
                Err(e) => {
                    &&& *final(self) == *old(self)
                    &&& e == RewriteError::MissingKey
                    &&& !feed_ok(old(self).abs(), ev@)
                },
            },
    {
        let ghost pre = self.abs();
        let ghost evg = ev@;
        let ghost st = StepView::Feed { ev: evg };
        let ghost tr0 = self.trace@;
        match ev {
            StructuralEvent::ElementOpen { name, attrs } => {
                if is_translatable_tag(&name) {
                    match self.skip.observe_open(&attrs) {
                        Err(e) => Err(e),
                        Ok(skip_now) => {
                            self.in_scope = true;
                            self.skip_current = skip_now;
                            let ghost out0 = self.output@;
                            let rebuilt = StructuralEvent::ElementOpen { name, attrs };
                            proof {
                                assert(rebuilt@ == evg);
                                lemma_events_view_push(out0, rebuilt);
                            }
                            self.output.push(rebuilt);
                            proof {
                                self.trace@ = tr0.push(st);
                                lemma_run_snoc(self.anchor@, tr0, st);
                                assert(self.abs() =~= feed_state(pre, evg));
                            }
                            Ok(StepAction::Written)
                        },
                    }
                } else {
                    let ghost out0 = self.output@;
                    let rebuilt = StructuralEvent::ElementOpen { name, attrs };
                    proof {
                        assert(rebuilt@ == evg);
                        lemma_events_view_push(out0, rebuilt);
                    }
                    self.output.push(rebuilt);
                    proof {
                        self.trace@ = tr0.push(st);
                        lemma_run_snoc(self.anchor@, tr0, st);
                        assert(self.abs() =~= feed_state(pre, evg));
                    }
                    Ok(StepAction::Written)
                }
            },
            StructuralEvent::ElementClose { name } => {
                if is_translatable_tag(&name) {
                    self.in_scope = false;
                    self.skip_current = false;
                }
                let ghost out0 = self.output@;
                let rebuilt = StructuralEvent::ElementClose { name };
                proof {
                    assert(rebuilt@ == evg);
                    lemma_events_view_push(out0, rebuilt);
                }
                self.output.push(rebuilt);
                proof {
                    self.trace@ = tr0.push(st);
                    lemma_run_snoc(self.anchor@, tr0, st);
                    assert(self.abs() =~= feed_state(pre, evg));
                }
                Ok(StepAction::Written)
            },
            StructuralEvent::TextContent { text } => {
                if self.in_scope && !self.skip_current {
                    let original = text.clone();
                    self.pending = Some(text);
                    proof {
                        self.trace@ = tr0.push(st);
                        lemma_run_snoc(self.anchor@, tr0, st);
                        assert(self.abs() =~= feed_state(pre, evg));
                    }
                    Ok(StepAction::NeedDecision { original })
                } else {
                    let jumped = self.in_scope;
                    let original = text.clone();
                    let ghost out0 = self.output@;
                    let rebuilt = StructuralEvent::TextContent { text };
                    proof {
                        assert(rebuilt@ == evg);
                        lemma_events_view_push(out0, rebuilt);
                    }
                    self.output.push(rebuilt);
                    proof {
                        self.trace@ = tr0.push(st);
                        lemma_run_snoc(self.anchor@, tr0, st);
                        assert(self.abs() =~= feed_state(pre, evg));
                    }
                    if jumped {
                        Ok(StepAction::Jumped { original })
                    } else {
                        Ok(StepAction::Written)
                    }
                }
            },
            StructuralEvent::OtherMarkup { raw } => {
                let ghost out0 = self.output@;
                let rebuilt = StructuralEvent::OtherMarkup { raw };
                proof {
                    assert(rebuilt@ == evg);
                    lemma_events_view_push(out0, rebuilt);
                }
                self.output.push(rebuilt);
                proof {
                    self.trace@ = tr0.push(st);
                    lemma_run_snoc(self.anchor@, tr0, st);
                    assert(self.abs() =~= feed_state(pre, evg));
                }
                Ok(StepAction::Written)
            },
        }
    }

    /// Decide the waiting text, given the candidate that was shown.
    ///
    /// Accept writes the candidate, Manual the typed replacement, Skip the
    /// original; Quit writes nothing and ends the run.
    pub fn resolve(&mut self, candidate: String, decision: Decision)
        requires
            old(self).wf(),
            old(self).abs().pending is Some,
        ensures
            final(self).wf(),
            final(self).anchor@ == old(self).anchor@,
            final(self).trace@ == old(self).trace@.push(StepView::Decide {
                candidate: candidate@,
                decision: decision@,
            }),
            final(self).abs() == decide_state(old(self).abs(), candidate@, decision@),
    {
        let ghost pre = self.abs();
        let ghost candg = candidate@;
        let ghost decg = decision@;
        let ghost st = StepView::Decide { candidate: candg, decision: decg };
        let ghost tr0 = self.trace@;
        match decision {
            Decision::Accept => {
                self.pending = None;
                let ghost out0 = self.output@;
                let written = StructuralEvent::TextContent { text: candidate };
                proof {
                    lemma_events_view_push(out0, written);
                }
                self.output.push(written);
            },
            Decision::Manual { text } => {
                self.pending = None;
                let ghost out0 = self.output@;
                let written = StructuralEvent::TextContent { text };
                proof {
                    lemma_events_view_push(out0, written);
                }
                self.output.push(written);
            },
            Decision::Skip => {
                let original = match &self.pending {
                    Some(p) => p.clone(),
                    None => {
                        proof {
                            assert(false);
                        }
                        String::new()
                    },
                };
                self.pending = None;
                let ghost out0 = self.output@;
                let written = StructuralEvent::TextContent { text: original };
                proof {
                    lemma_events_view_push(out0, written);
                }
                self.output.push(written);
            },
            Decision::Quit => {
                self.pending = None;
                self.done = true;
            },
        }
        proof {
            self.trace@ = tr0.push(st);
            lemma_run_snoc(self.anchor@, tr0, st);
            assert(self.abs() =~= decide_state(pre, candg, decg));
        }
    }

    /// Whether the operator has quit.
    pub fn is_done(&self) -> (r: bool)
        ensures
            r == self.abs().done,
    {
        self.done
    }

    /// Whether a text waits for a decision.
    pub fn has_pending(&self) -> (r: bool)
        ensures
            r == (self.abs().pending is Some),
    {
        match &self.pending {
            Some(_) => true,
            None => false,
        }
    }

    /// Hand the written events out, in the order they were written.
    pub fn into_output(self) -> (r: Vec<StructuralEvent>)
        ensures
            events_view(r@) == self.abs().out,
    {
        self.output
    }
}

} // verus!
