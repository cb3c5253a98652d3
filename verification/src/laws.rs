//! The laws of the tracker, proved against the ghost transition functions
//! that the executable operations are specified by: stack discipline of
//! nested steps, attachment routing, and the shape of the documents that
//! passing and failing outcomes produce.

use vstd::prelude::*;

use crate::context::ContextView;
use crate::context::OutcomeView;
use crate::context::add_attachment_transition;
use crate::context::close_step_view;
use crate::context::details_of;
use crate::context::end_step_transition;
use crate::context::finished_text;
use crate::context::fresh_context_view;
use crate::context::fresh_step_view;
use crate::context::result_view_of;
use crate::context::running_text;
use crate::context::start_step_transition;
use crate::context::status_of;
use crate::context::step_panicked_text;
use crate::models::AttachmentView;
use crate::models::ParameterView;
use crate::models::Status;
use crate::models::StatusDetailsView;
use crate::models::StepView;

verus! {

broadcast use vstd::seq::group_seq_axioms;

/// One step-related call made against a context while a test runs.
pub enum StepEvent {
    Start { name: Seq<char>, parameters: Seq<ParameterView>, at: i64 },
    End { outcome: OutcomeView, at: i64 },
}

/// The transition one step event causes.
pub open spec fn step_event(c: ContextView, e: StepEvent) -> ContextView {
    match e {
        StepEvent::Start { name, parameters, at } => start_step_transition(c, name, parameters, at),
        StepEvent::End { outcome, at } => end_step_transition(c, outcome, at),
    }
}

/// A context folded over a sequence of step events, first event first.
pub open spec fn run_steps(c: ContextView, events: Seq<StepEvent>) -> ContextView
    decreases events.len(),
{
    if events.len() == 0 {
        c
    } else {
        run_steps(step_event(c, events.first()), events.drop_first())
    }
}

/// One step call of a well-nested call sequence: its start data, the nested
/// calls made while it was open, and how and when it ended. A sequence of
/// step calls is well nested exactly when it is the flattening of a forest
/// of these nodes.
pub struct CallNode {
    pub name: Seq<char>,
    pub parameters: Seq<ParameterView>,
    pub start: i64,
    pub children: Seq<CallNode>,
    pub outcome: OutcomeView,
    pub stop: i64,
}

/// The event sequence a forest of calls performs: each call in order,
/// its nested calls between its start and its end.
pub open spec fn events_of_forest(f: Seq<CallNode>) -> Seq<StepEvent>
    decreases f,
{
    if f.len() == 0 {
        Seq::empty()
    } else {
        proof {
            assert(decreases_to!(f => f[0]));
        }
        events_of_call(f.first()) + events_of_forest(f.drop_first())
    }
}

/// The event sequence one call performs: start, the events of its nested
/// calls, end.
pub open spec fn events_of_call(n: CallNode) -> Seq<StepEvent>
    decreases n,
{
    seq![StepEvent::Start { name: n.name, parameters: n.parameters, at: n.start }]
        + events_of_forest(n.children) + seq![StepEvent::End { outcome: n.outcome, at: n.stop }]
}

/// The step one call is recorded as: closed, with the call's own data, and
/// with children that mirror its nested calls.
pub open spec fn step_of_call(n: CallNode) -> StepView
    decreases n,
{
    StepView {
        name: n.name,
        status: status_of(n.outcome),
        status_details: details_of(n.outcome, step_panicked_text()),
        stage: finished_text(),
        start: n.start,
        stop: if n.stop >= n.start {
            n.stop
        } else {
            n.start
        },
        steps: steps_of_forest(n.children),
        attachments: Seq::empty(),
        parameters: n.parameters,
    }
}

/// The steps a forest of calls is recorded as, in call order.
pub open spec fn steps_of_forest(f: Seq<CallNode>) -> Seq<StepView>
    decreases f,
{
    if f.len() == 0 {
        Seq::empty()
    } else {
        proof {
            assert(decreases_to!(f => f[0]));
        }
        seq![step_of_call(f.first())] + steps_of_forest(f.drop_first())
    }
}

/// The recorded forest mirrors the calls one to one: the i-th recorded
/// step is the record of the i-th call, in order; and by `step_of_call`
/// each record's children mirror that call's nested calls, in order.
pub proof fn lemma_steps_of_forest_pointwise(f: Seq<CallNode>)
    ensures
        steps_of_forest(f).len() == f.len(),
        forall|i: int| 0 <= i < f.len() ==> #[trigger] steps_of_forest(f)[i] == step_of_call(f[i]),
    decreases f,
{
    if f.len() > 0 {
        lemma_steps_of_forest_pointwise(f.drop_first());
    }
}

/// Every step on the open stack is still running. This holds of every
/// context the tracker API can produce.
pub open spec fn all_running(c: ContextView) -> bool {
    forall|i: int|
        0 <= i < c.open_steps.len() ==> (#[trigger] c.open_steps[i]).stage == running_text()
}

/// A freshly reset context has no open step at all, so trivially every
/// open step is running.
pub proof fn lemma_fresh_context_all_running(uuid: Seq<char>, suite: Option<Seq<char>>, now: i64)
    ensures
        all_running(fresh_context_view(uuid, suite, now)),
{
}

/// Starting and ending steps keeps every step on the open stack running:
/// a start pushes a running step, an end only pops and edits children.
pub proof fn lemma_step_event_preserves_all_running(c: ContextView, e: StepEvent)
    requires
        all_running(c),
    ensures
        all_running(step_event(c, e)),
{
    let c2 = step_event(c, e);
    assert forall|i: int|
        0 <= i < c2.open_steps.len() implies (#[trigger] c2.open_steps[i]).stage
        == running_text() by {
        match e {
            StepEvent::Start { name, parameters, at } => {
                if i < c.open_steps.len() {
                    assert(c2.open_steps[i] == c.open_steps[i]);
                }
            },
            StepEvent::End { outcome, at } => {
                assert(c2.open_steps[i].stage == c.open_steps[i].stage);
            },
        }
    }
}

/// Registering an attachment keeps every step on the open stack running:
/// it only extends an attachment list.
pub proof fn lemma_attachment_preserves_all_running(c: ContextView, a: AttachmentView)
    requires
        all_running(c),
    ensures
        all_running(add_attachment_transition(c, a)),
{
    let c2 = add_attachment_transition(c, a);
    assert forall|i: int|
        0 <= i < c2.open_steps.len() implies (#[trigger] c2.open_steps[i]).stage
        == running_text() by {
        assert(c2.open_steps[i].stage == c.open_steps[i].stage);
    }
}

/// Folding a context over two event sequences in a row is folding it over
/// their concatenation.
pub proof fn lemma_run_steps_append(c: ContextView, a: Seq<StepEvent>, b: Seq<StepEvent>)
    ensures
        run_steps(c, a + b) == run_steps(run_steps(c, a), b),
    decreases a.len(),
{
    if a.len() == 0 {
        assert(a + b =~= b);
    } else {
        assert((a + b).first() == a.first());
        assert((a + b).drop_first() =~= a.drop_first() + b);
        lemma_run_steps_append(step_event(c, a.first()), a.drop_first(), b);
    }
}

/// The heart of the stack discipline: running the events of a forest of
/// well-nested calls appends exactly the records of those calls — to the
/// test's top level when no step is open, else to the children of the
/// innermost open step. Everything else in the context stays as it was.
pub proof fn lemma_run_forest(c: ContextView, f: Seq<CallNode>)
    requires
        all_running(c),
    ensures
        c.open_steps.len() == 0 ==> run_steps(c, events_of_forest(f)) == (ContextView {
            finished: c.finished + steps_of_forest(f),
            ..c
        }),
        c.open_steps.len() > 0 ==> run_steps(c, events_of_forest(f)) == (ContextView {
            open_steps: c.open_steps.update(
                c.open_steps.len() - 1,
                StepView {
                    steps: c.open_steps.last().steps + steps_of_forest(f),
                    ..c.open_steps.last()
                },
            ),
            ..c
        }),
    decreases f,
{
    if f.len() == 0 {
        assert(run_steps(c, events_of_forest(f)) == c);
        if c.open_steps.len() == 0 {
            assert(c.finished + steps_of_forest(f) =~= c.finished);
            assert(ContextView { finished: c.finished + steps_of_forest(f), ..c } =~= c);
        } else {
            let last = c.open_steps.last();
            assert(last.steps + steps_of_forest(f) =~= last.steps);
            assert(StepView { steps: last.steps + steps_of_forest(f), ..last } =~= last);
            assert(c.open_steps.update(c.open_steps.len() - 1, last) =~= c.open_steps);
            assert(ContextView {
                open_steps: c.open_steps.update(
                    c.open_steps.len() - 1,
                    StepView { steps: last.steps + steps_of_forest(f), ..last },
                ),
                ..c
            } =~= c);
        }
    } else {
        let n = f.first();
        let rest = f.drop_first();
        let ev_start: Seq<StepEvent> = seq![
            StepEvent::Start { name: n.name, parameters: n.parameters, at: n.start },
        ];
        let ev_children = events_of_forest(n.children);
        let ev_end: Seq<StepEvent> = seq![StepEvent::End { outcome: n.outcome, at: n.stop }];
        let ev_n = events_of_call(n);
        let ev_rest = events_of_forest(rest);
        assert(events_of_forest(f) == ev_n + ev_rest);
        assert(ev_n == ev_start + ev_children + ev_end);

        // Run the start event alone.
        let c1 = step_event(c, ev_start.first());
        assert(ev_start.drop_first() =~= Seq::<StepEvent>::empty());
        assert(run_steps(c1, ev_start.drop_first()) == c1);
        assert(run_steps(c, ev_start) == c1);
        let fresh = fresh_step_view(n.name, n.parameters, n.start);
        assert(c1.open_steps == c.open_steps.push(fresh));
        assert(all_running(c1)) by {
            assert forall|i: int|
                0 <= i < c1.open_steps.len() implies (#[trigger] c1.open_steps[i]).stage
                == running_text() by {
                if i < c.open_steps.len() {
                    assert(c1.open_steps[i] == c.open_steps[i]);
                }
            }
        }

        // Run the nested calls inside the freshly opened step.
        assert(decreases_to!(f => f[0]));
        assert(f[0] == n);
        lemma_run_forest(c1, n.children);
        let c2 = run_steps(c1, ev_children);
        let filled = StepView { steps: fresh.steps + steps_of_forest(n.children), ..fresh };
        assert(c2 == ContextView {
            open_steps: c1.open_steps.update(c1.open_steps.len() - 1, filled),
            ..c1
        });
        assert(c2.open_steps =~= c.open_steps.push(filled));

        // Run the end event: the filled step closes as the call's record.
        let c3 = step_event(c2, ev_end.first());
        assert(ev_end.drop_first() =~= Seq::<StepEvent>::empty());
        assert(run_steps(c3, ev_end.drop_first()) == c3);
        assert(run_steps(c2, ev_end) == c3);
        let closed = close_step_view(c2.open_steps.last(), n.outcome, n.stop);
        assert(c2.open_steps.last() == filled);
        assert(closed =~= step_of_call(n)) by {
            assert(fresh.steps + steps_of_forest(n.children) =~= steps_of_forest(n.children));
        }
        assert(c2.open_steps.drop_last() =~= c.open_steps);

        // Stitch the three runs together, then run the remaining calls.
        lemma_run_steps_append(c, ev_start, ev_children);
        lemma_run_steps_append(c, ev_start + ev_children, ev_end);
        assert(ev_start + ev_children + ev_end == (ev_start + ev_children) + ev_end);
        assert(run_steps(c, ev_n) == c3) by {
            assert(run_steps(c, ev_start + ev_children) == c2);
        }
        lemma_run_steps_append(c, ev_n, ev_rest);
        assert(run_steps(c, events_of_forest(f)) == run_steps(c3, ev_rest));
        assert(decreases_to!(f => f.drop_first()));

        if c.open_steps.len() == 0 {
            assert(c3 == ContextView {
                open_steps: c2.open_steps.drop_last(),
                finished: c2.finished.push(closed),
                ..c2
            });
            assert(all_running(c3)) by {
                assert(c3.open_steps =~= c.open_steps);
            }
            assert(c3.open_steps.len() == 0);
            lemma_run_forest(c3, rest);
            assert(run_steps(c3, ev_rest) == ContextView {
                finished: c3.finished + steps_of_forest(rest),
                ..c3
            });
            assert(c3.finished + steps_of_forest(rest) =~= c.finished + steps_of_forest(f)) by {
                assert(steps_of_forest(f) == seq![step_of_call(n)] + steps_of_forest(rest));
            }
            assert(run_steps(c, events_of_forest(f)) =~= ContextView {
                finished: c.finished + steps_of_forest(f),
                ..c
            });
        } else {
            let parent = c.open_steps.last();
            assert(c2.open_steps.drop_last().last() == parent);
            assert(parent.stage == running_text());
            let parent1 = StepView { steps: parent.steps.push(closed), ..parent };
            assert(c3 == ContextView {
                open_steps: c2.open_steps.drop_last().update(
                    c2.open_steps.drop_last().len() - 1,
                    parent1,
                ),
                ..c2
            });
            assert(c3.open_steps =~= c.open_steps.update(c.open_steps.len() - 1, parent1));
            assert(all_running(c3)) by {
                assert forall|i: int|
                    0 <= i < c3.open_steps.len() implies (#[trigger] c3.open_steps[i]).stage
                    == running_text() by {
                    if i < c.open_steps.len() - 1 {
                        assert(c3.open_steps[i] == c.open_steps[i]);
                    } else {
                        assert(c3.open_steps[i] == parent1);
                    }
                }
            }
            assert(c3.open_steps.len() == c.open_steps.len());
            lemma_run_forest(c3, rest);
            let parent2 = StepView {
                steps: c3.open_steps.last().steps + steps_of_forest(rest),
                ..c3.open_steps.last()
            };
            assert(run_steps(c3, ev_rest) == ContextView {
                open_steps: c3.open_steps.update(c3.open_steps.len() - 1, parent2),
                ..c3
            });
            let target = StepView {
                steps: parent.steps + steps_of_forest(f),
                ..parent
            };
            assert(parent2 =~= target) by {
                assert(c3.open_steps.last() == parent1);
                assert(steps_of_forest(f) == seq![step_of_call(n)] + steps_of_forest(rest));
                assert(parent.steps.push(closed) + steps_of_forest(rest) =~= parent.steps
                    + steps_of_forest(f));
            }
            assert(c3.open_steps.update(c3.open_steps.len() - 1, parent2) =~= c.open_steps.update(
                c.open_steps.len() - 1,
                target,
            ));
            assert(run_steps(c, events_of_forest(f)) =~= ContextView {
                open_steps: c.open_steps.update(c.open_steps.len() - 1, target),
                ..c
            });
        }
    }
}

/// Stack discipline: for every sequence of well-nested step calls — every
/// forest of call nodes, whose flattening is exactly the event sequence the
/// tracker sees — running the events on a context with no open step yields
/// top-level steps that mirror the calls: one record per call in call
/// order, each record's children mirroring its call's nested calls in
/// order (`step_of_call`), with sibling order preserved throughout.
pub proof fn theorem_step_nesting(c: ContextView, f: Seq<CallNode>)
    requires
        c.open_steps.len() == 0,
    ensures
        run_steps(c, events_of_forest(f)) == (ContextView {
            finished: c.finished + steps_of_forest(f),
            ..c
        }),
        run_steps(c, events_of_forest(f)).finished.len() == c.finished.len() + f.len(),
        forall|i: int|
            0 <= i < f.len() ==> run_steps(c, events_of_forest(f)).finished[c.finished.len() + i]
                == #[trigger] step_of_call(f[i]),
{
    lemma_run_forest(c, f);
    lemma_steps_of_forest_pointwise(f);
}

/// Attachment routing: an attachment registered while steps are open lands
/// on the innermost open step, leaving every outer step and the test's own
/// attachments untouched; one registered with no step open lands on the
/// test itself.
pub proof fn theorem_attachment_routing(c: ContextView, a: AttachmentView)
    ensures
        c.open_steps.len() > 0 ==> {
            let c2 = add_attachment_transition(c, a);
            &&& c2.open_steps.len() == c.open_steps.len()
            &&& c2.open_steps.last().attachments == c.open_steps.last().attachments.push(a)
            &&& c2.open_steps.last() == (StepView {
                attachments: c.open_steps.last().attachments.push(a),
                ..c.open_steps.last()
            })
            &&& forall|i: int|
                0 <= i < c.open_steps.len() - 1 ==> #[trigger] c2.open_steps[i] == c.open_steps[i]
            &&& c2.attachments == c.attachments
            &&& c2.finished == c.finished
        },
        c.open_steps.len() == 0 ==> add_attachment_transition(c, a) == (ContextView {
            attachments: c.attachments.push(a),
            ..c
        }),
{
}

/// An empty passing test: ending a freshly started test with a passing
/// outcome and nothing recorded yields a passed document with no steps, no
/// attachments, no failure detail, and a stop time no earlier than its
/// start.
pub proof fn theorem_empty_passing_test(
    uuid: Seq<char>,
    suite: Option<Seq<char>>,
    started: i64,
    name: Seq<char>,
    history_id: Seq<char>,
    stopped: i64,
)
    ensures
        ({
            let r = result_view_of(
                fresh_context_view(uuid, suite, started),
                name,
                OutcomeView::Passed,
                history_id,
                stopped,
            );
            &&& r.status == Status::Passed
            &&& r.status_details is None
            &&& r.steps == Seq::<StepView>::empty()
            &&& r.attachments == Seq::<AttachmentView>::empty()
            &&& r.stop - r.start >= 0
            &&& r.name == name
            &&& r.uuid == uuid
        }),
{
}

/// A failing outcome that carries a message yields a failed status whose
/// detail message is that message, verbatim, for steps and tests alike.
pub proof fn theorem_failure_message(message: Seq<char>, generic: Seq<char>)
    ensures
        status_of(OutcomeView::FailedWithMessage(message)) == Status::Failed,
        details_of(OutcomeView::FailedWithMessage(message), generic) == Some(
            StatusDetailsView { message: Some(message), trace: None },
        ),
{
}

} // verus!
