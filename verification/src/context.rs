//! The execution-context tracker: the live, mutable state of one in-flight
//! test. A context owns a stack of open steps, the list of finished
//! top-level steps, and the attachments registered directly on the test.
//!
//! Each mutating operation is specified against a ghost transition function
//! over `ContextView`, so the whole life of a test is a fold of those
//! transitions; the laws module proves the stack discipline from them.

use vstd::prelude::*;
use vstd::string::StrSliceExecFns;
use vstd::string::StringExecFns;

use crate::attachment::AttachmentType;
use crate::attachment::IntoAttachment;
use crate::models::Attachment;
use crate::models::AttachmentView;
use crate::models::Label;
use crate::models::LabelView;
use crate::models::Parameter;
use crate::models::ParameterView;
use crate::models::ResultView;
use crate::models::Status;
use crate::models::StatusDetails;
use crate::models::StatusDetailsView;
use crate::models::StepView;
use crate::models::TestResult;
use crate::models::TestStep;
use crate::models::attachments_view;
use crate::models::labels_view;
use crate::models::parameters_view;
use crate::models::steps_view;
use crate::models::lemma_attachments_view_push;
use crate::models::lemma_labels_view_push;
use crate::models::lemma_steps_view_drop_last;
use crate::models::lemma_steps_view_pointwise;
use crate::models::lemma_steps_view_push;
use crate::models::lemma_steps_view_update;

verus! {

broadcast use vstd::std_specs::vec::group_vec_axioms;

/// How a test or step ended: cleanly, with an error carrying a usable
/// message, or with an error whose shape carried no message at all.
#[derive(Debug)]
pub enum Outcome {
    Passed,
    FailedWithMessage(String),
    FailedUnknown,
}

/// Ghost mirror of `Outcome`.
pub enum OutcomeView {
    Passed,
    FailedWithMessage(Seq<char>),
    FailedUnknown,
}

impl View for Outcome {
    type V = OutcomeView;

    open spec fn view(&self) -> OutcomeView {
        match self {
            Outcome::Passed => OutcomeView::Passed,
            Outcome::FailedWithMessage(m) => OutcomeView::FailedWithMessage(m@),
            Outcome::FailedUnknown => OutcomeView::FailedUnknown,
        }
    }
}

/// The live state of one in-flight test. Create one per execution unit and
/// pass it through the instrumented call chain; no state is shared.
#[derive(Debug)]
pub struct TestContext {
    /// The per-run identity of the test, fresh at every `start_test`.
    pub uuid: String,
    /// When the test started, in milliseconds.
    pub start: i64,
    /// The suite this test is grouped under, if any.
    pub suite: Option<String>,
    /// The stack of currently open steps, innermost last.
    pub open_steps: Vec<TestStep>,
    /// The finished top-level steps, in the order they closed.
    pub finished_steps: Vec<TestStep>,
    /// The attachments registered while no step was open.
    pub attachments: Vec<Attachment>,
}

/// Ghost mirror of `TestContext`.
#[verifier::ext_equal]
pub struct ContextView {
    pub uuid: Seq<char>,
    pub start: i64,
    pub suite: Option<Seq<char>>,
    pub open_steps: Seq<StepView>,
    pub finished: Seq<StepView>,
    pub attachments: Seq<AttachmentView>,
}

impl View for TestContext {
    type V = ContextView;

    open spec fn view(&self) -> ContextView {
        ContextView {
            uuid: self.uuid@,
            start: self.start,
            suite: match self.suite {
                Some(s) => Some(s@),
                None => None,
            },
            open_steps: steps_view(self.open_steps@),
            finished: steps_view(self.finished_steps@),
            attachments: attachments_view(self.attachments@),
        }
    }
}

/// The stage string of a step still in progress.
pub open spec fn running_text() -> Seq<char> {
    "running"@
}

/// The stage string of a step or test that has ended.
pub open spec fn finished_text() -> Seq<char> {
    "finished"@
}

/// The message recorded when a step fails without a usable message.
pub open spec fn step_panicked_text() -> Seq<char> {
    "Step panicked"@
}

/// The message recorded when a test fails without a usable message.
pub open spec fn test_panicked_text() -> Seq<char> {
    "Test panicked"@
}

/// A step just opened: running, with no children, no attachments and no
/// stop time yet.
pub open spec fn fresh_step_view(name: Seq<char>, parameters: Seq<ParameterView>, now: i64) -> StepView {
    StepView {
        name: name,
        status: Status::Passed,
        status_details: None,
        stage: running_text(),
        start: now,
        stop: 0,
        steps: Seq::empty(),
        attachments: Seq::empty(),
        parameters: parameters,
    }
}

/// The status assigned from an outcome: `Passed` without an error,
/// `Failed` otherwise.
pub open spec fn status_of(outcome: OutcomeView) -> Status {
    match outcome {
        OutcomeView::Passed => Status::Passed,
        OutcomeView::FailedWithMessage(m) => Status::Failed,
        OutcomeView::FailedUnknown => Status::Failed,
    }
}

/// The failure detail assigned from an outcome: string messages are used
/// verbatim, any other error shape collapses to the given generic message,
/// and a passing outcome carries no detail.
pub open spec fn details_of(outcome: OutcomeView, generic: Seq<char>) -> Option<StatusDetailsView> {
    match outcome {
        OutcomeView::Passed => None,
        OutcomeView::FailedWithMessage(m) => Some(
            StatusDetailsView { message: Some(m), trace: None },
        ),
        OutcomeView::FailedUnknown => Some(
            StatusDetailsView { message: Some(generic), trace: None },
        ),
    }
}

/// The closed form of a step: stop clamped to never precede start, stage
/// finished, status and detail taken from the outcome.
pub open spec fn close_step_view(s: StepView, outcome: OutcomeView, now: i64) -> StepView {
    StepView {
        status: status_of(outcome),
        status_details: details_of(outcome, step_panicked_text()),
        stage: finished_text(),
        stop: if now >= s.start {
            now
        } else {
            s.start
        },
        ..s
    }
}

/// A context freshly reset for a new test: new identity, new start time,
/// the given suite, and nothing recorded yet.
pub open spec fn fresh_context_view(uuid: Seq<char>, suite: Option<Seq<char>>, now: i64) -> ContextView {
    ContextView {
        uuid: uuid,
        start: now,
        suite: suite,
        open_steps: Seq::empty(),
        finished: Seq::empty(),
        attachments: Seq::empty(),
    }
}

/// What `start_step` does to a context: push a fresh running step onto the
/// stack of open steps.
pub open spec fn start_step_transition(
    c: ContextView,
    name: Seq<char>,
    parameters: Seq<ParameterView>,
    now: i64,
) -> ContextView {
    ContextView { open_steps: c.open_steps.push(fresh_step_view(name, parameters, now)), ..c }
}

/// What `end_step` does to a context: pop and close the innermost open
/// step, then route it. A step whose parent is still running becomes that
/// parent's newest child; a step with no parent left is queued as a
/// top-level step; popping an empty stack is a no-op. A closed step whose
/// parent is no longer running is treated as top-level (a defensive rule
/// for a stack that lost its discipline; it cannot arise through this API).
pub open spec fn end_step_transition(c: ContextView, outcome: OutcomeView, now: i64) -> ContextView {
    if c.open_steps.len() == 0 {
        c
    } else {
        let closed = close_step_view(c.open_steps.last(), outcome, now);
        let rest = c.open_steps.drop_last();
        if rest.len() == 0 {
            ContextView { open_steps: rest, finished: c.finished.push(closed), ..c }
        } else if rest.last().stage == running_text() {
            let parent = rest.last();
            let extended = StepView { steps: parent.steps.push(closed), ..parent };
            ContextView { open_steps: rest.update(rest.len() - 1, extended), ..c }
        } else {
            ContextView { open_steps: rest, finished: c.finished.push(closed), ..c }
        }
    }
}

/// What ending a test does to steps still open: each is closed with the
/// test's own outcome and stop time, innermost first, so a step that the
/// caller never closed still reaches the document instead of being lost.
pub open spec fn close_all_transition(c: ContextView, outcome: OutcomeView, now: i64) -> ContextView
    decreases c.open_steps.len(),
{
    if c.open_steps.len() == 0 {
        c
    } else {
        proof {
            assert(end_step_transition(c, outcome, now).open_steps.len() == c.open_steps.len()
                - 1);
        }
        close_all_transition(end_step_transition(c, outcome, now), outcome, now)
    }
}

/// Closing the dangling steps touches only the step lists: identity, start
/// time, suite and the test's own attachments stay as they were, no open
/// step survives, and a context with no open step is left unchanged.
pub proof fn lemma_close_all_keeps_rest(c: ContextView, outcome: OutcomeView, now: i64)
    ensures
        close_all_transition(c, outcome, now).uuid == c.uuid,
        close_all_transition(c, outcome, now).start == c.start,
        close_all_transition(c, outcome, now).suite == c.suite,
        close_all_transition(c, outcome, now).attachments == c.attachments,
        close_all_transition(c, outcome, now).open_steps.len() == 0,
        c.open_steps.len() == 0 ==> close_all_transition(c, outcome, now) == c,
    decreases c.open_steps.len(),
{
    if c.open_steps.len() > 0 {
        lemma_close_all_keeps_rest(end_step_transition(c, outcome, now), outcome, now);
    }
}

/// What registering an attachment does to a context: the record lands on
/// the innermost open step if any step is open, otherwise on the test.
pub open spec fn add_attachment_transition(c: ContextView, a: AttachmentView) -> ContextView {
    if c.open_steps.len() == 0 {
        ContextView { attachments: c.attachments.push(a), ..c }
    } else {
        let top = c.open_steps.last();
        let extended = StepView { attachments: top.attachments.push(a), ..top };
        ContextView { open_steps: c.open_steps.update(c.open_steps.len() - 1, extended), ..c }
    }
}

/// The labels of a finished test: a single `suite` label when suite
/// metadata was set, none otherwise.
pub open spec fn suite_labels(suite: Option<Seq<char>>) -> Seq<LabelView> {
    match suite {
        Some(s) => seq![LabelView { name: "suite"@, value: s }],
        None => Seq::empty(),
    }
}

/// The document assembled by `end_test` from a context whose dangling
/// steps were already closed, the test name, the outcome, a history
/// identity and the stop time (clamped to never precede the start).
pub open spec fn result_view_of(
    c: ContextView,
    name: Seq<char>,
    outcome: OutcomeView,
    history_id: Seq<char>,
    now: i64,
) -> ResultView {
    ResultView {
        uuid: c.uuid,
        history_id: history_id,
        name: name,
        description: None,
        status: status_of(outcome),
        status_details: details_of(outcome, test_panicked_text()),
        stage: finished_text(),
        start: c.start,
        stop: if now >= c.start {
            now
        } else {
            c.start
        },
        labels: suite_labels(c.suite),
        parameters: Seq::empty(),
        links: Seq::empty(),
        steps: c.finished,
        attachments: c.attachments,
    }
}

/// The suite a test is grouped under: an explicit suite name wins, else a
/// module path with each `::` turned into `.`, else nothing.
pub open spec fn suite_of(suite: Option<Seq<char>>, module: Option<Seq<char>>) -> Option<
    Seq<char>,
> {
    match suite {
        Some(s) => Some(s),
        None => match module {
            Some(p) => Some(dotted(p)),
            None => None,
        },
    }
}

/// A module path with each non-overlapping occurrence of `::` replaced by
/// `.`, scanning left to right.
pub open spec fn dotted(s: Seq<char>) -> Seq<char>
    decreases s.len(),
{
    if s.len() >= 2 && s[0] == ':' && s[1] == ':' {
        seq!['.'] + dotted(s.skip(2))
    } else if s.len() > 0 {
        seq![s[0]] + dotted(s.skip(1))
    } else {
        Seq::empty()
    }
}

/// Relies on uuid::Uuid::new_v4 and its Display implementation: a freshly
/// generated random (version 4) identifier rendered in the hyphenated
/// form, which is always 36 characters. The value is random, so nothing
/// more is claimed of it.
#[verifier::external_body]
fn fresh_id() -> (r: String)
    ensures
        r@.len() == 36,
{
    uuid::Uuid::new_v4().to_string()
}

/// Relies on chrono::Utc::now and DateTime::timestamp_millis: the current
/// wall-clock time in milliseconds since the epoch. The clock is outside
/// the program, so nothing is claimed of the value.
#[verifier::external_body]
fn now_millis() -> i64 {
    chrono::Utc::now().timestamp_millis()
}

/// A separator at position `i` contributes one dot and consumes two
/// characters of the remaining path.
proof fn lemma_dotted_step_sep(s: Seq<char>, i: int)
    requires
        0 <= i,
        i + 1 < s.len(),
        s[i] == ':',
        s[i + 1] == ':',
    ensures
        dotted(s.skip(i)) == seq!['.'] + dotted(s.skip(i + 2)),
{
    let t = s.skip(i);
    assert(t.len() >= 2);
    assert(t[0] == ':' && t[1] == ':');
    assert(t.skip(2) =~= s.skip(i + 2));
}

/// Any other character at position `i` is kept and consumes one character
/// of the remaining path.
proof fn lemma_dotted_step_char(s: Seq<char>, i: int)
    requires
        0 <= i < s.len(),
        !(i + 1 < s.len() && s[i] == ':' && s[i + 1] == ':'),
    ensures
        dotted(s.skip(i)) == seq![s[i]] + dotted(s.skip(i + 1)),
{
    let t = s.skip(i);
    assert(t.len() > 0);
    assert(t[0] == s[i]);
    assert(t.len() >= 2 ==> t[1] == s[i + 1]);
    assert(t.skip(1) =~= s.skip(i + 1));
}

/// Turns a module path into a suite name: every non-overlapping occurrence
/// of `::`, scanning left to right, becomes `.`.
fn dotted_path(path: &str) -> (r: String)
    ensures
        r@ == dotted(path@),
{
    let n = path.unicode_len();
    let mut out = String::new();
    let mut i: usize = 0;
    proof {
        assert(path@.skip(0) =~= path@);
        assert(out@ + dotted(path@.skip(0)) =~= dotted(path@));
    }
    while i < n
        invariant
            i <= n,
            n == path@.len(),
            out@ + dotted(path@.skip(i as int)) == dotted(path@),
        decreases n - i,
    {
        if i + 1 < n && path.get_char(i) == ':' && path.get_char(i + 1) == ':' {
            proof {
                lemma_dotted_step_sep(path@, i as int);
                reveal_strlit(".");
                assert("."@ =~= seq!['.']);
            }
            let ghost out0 = out@;
            out = out.concat(".");
            proof {
                assert(out@ + dotted(path@.skip(i as int + 2)) =~= out0 + dotted(
                    path@.skip(i as int),
                ));
            }
            i = i + 2;
        } else {
            let piece = path.substring_char(i, i + 1);
            proof {
                lemma_dotted_step_char(path@, i as int);
                assert(piece@ =~= seq![path@[i as int]]);
            }
            let ghost out0 = out@;
            out = out.concat(piece);
            proof {
                assert(out@ + dotted(path@.skip(i as int + 1)) =~= out0 + dotted(
                    path@.skip(i as int),
                ));
            }
            i = i + 1;
        }
    }
    proof {
        assert(path@.skip(n as int) =~= Seq::<char>::empty());
        assert(out@ + dotted(path@.skip(n as int)) =~= out@);
    }
    out
}

impl TestContext {
    /// A fresh context with a new identity, the current time as its start,
    /// and nothing recorded.
    pub fn new() -> (r: TestContext)
        ensures
            r@ == fresh_context_view(r@.uuid, None, r.start),
            r@.uuid.len() == 36,
    {
        let r = TestContext {
            uuid: fresh_id(),
            start: now_millis(),
            suite: None,
            open_steps: Vec::new(),
            finished_steps: Vec::new(),
            attachments: Vec::new(),
        };
        proof {
            lemma_steps_view_pointwise(r.open_steps@);
            lemma_steps_view_pointwise(r.finished_steps@);
            assert(steps_view(r.open_steps@) =~= Seq::<StepView>::empty());
            assert(steps_view(r.finished_steps@) =~= Seq::<StepView>::empty());
            assert(attachments_view(r.attachments@) =~= Seq::<AttachmentView>::empty());
        }
        r
    }
}

/// Begins a new test: resets the whole context to a fresh state with a new
/// identity. Must be called before any step or attachment operation. The
/// test name enters the document at `end_test`, which takes it again.
pub fn start_test(ctx: &mut TestContext, name: &str)
    ensures
        final(ctx)@ == fresh_context_view(final(ctx)@.uuid, None, final(ctx).start),
        final(ctx)@.uuid.len() == 36,
{
    start_test_with_context(ctx, name, None, None);
}

/// Begins a new test grouped under an explicitly named suite.
pub fn start_test_with_suite(ctx: &mut TestContext, name: &str, suite: Option<&str>)
    ensures
        final(ctx)@ == fresh_context_view(
            final(ctx)@.uuid,
            match suite {
                Some(s) => Some(s@),
                None => None,
            },
            final(ctx).start,
        ),
        final(ctx)@.uuid.len() == 36,
{
    start_test_with_context(ctx, name, suite, None);
}

/// Begins a new test: an explicit suite name wins; otherwise a module path
/// is turned into a suite name by replacing `::` with `.`.
#[allow(unused_variables)]
pub fn start_test_with_context(
    ctx: &mut TestContext,
    name: &str,
    suite: Option<&str>,
    module: Option<&str>,
)
    ensures
        final(ctx)@ == fresh_context_view(
            final(ctx)@.uuid,
            suite_of(
                match suite {
                    Some(s) => Some(s@),
                    None => None,
                },
                match module {
                    Some(p) => Some(p@),
                    None => None,
                },
            ),
            final(ctx).start,
        ),
        final(ctx)@.uuid.len() == 36,
{
    let fresh = TestContext::new();
    *ctx = fresh;
    match suite {
        Some(s) => {
            ctx.suite = Some(s.to_owned());
        },
        None => {
            match module {
                Some(p) => {
                    ctx.suite = Some(dotted_path(p));
                },
                None => {},
            }
        },
    }
}

/// Opens a new step with no parameters: it becomes the innermost open step.
pub fn start_step(ctx: &mut TestContext, name: &str)
    ensures
        exists|t: i64|
            final(ctx)@ == start_step_transition(
                old(ctx)@,
                name@,
                Seq::<ParameterView>::empty(),
                t,
            ),
        final(ctx)@.open_steps.len() == old(ctx)@.open_steps.len() + 1,
        final(ctx)@.open_steps.last().name == name@,
        final(ctx)@.open_steps.last().stage == running_text(),
{
    start_step_with_params(ctx, name, Vec::new());
    proof {
        assert(parameters_view(Seq::<Parameter>::empty()) =~= Seq::<ParameterView>::empty());
    }
}

/// Opens a new step with the given parameters: it becomes the innermost
/// open step, identified implicitly by its stack position.
pub fn start_step_with_params(ctx: &mut TestContext, name: &str, parameters: Vec<Parameter>)
    ensures
        exists|t: i64|
            final(ctx)@ == start_step_transition(
                old(ctx)@,
                name@,
                parameters_view(parameters@),
                t,
            ),
{
    let now = now_millis();
    start_step_with_params_at(ctx, name, parameters, now);
}

/// Opens a new step with the given parameters and an explicit start time.
pub fn start_step_with_params_at(
    ctx: &mut TestContext,
    name: &str,
    parameters: Vec<Parameter>,
    now: i64,
)
    ensures
        final(ctx)@ == start_step_transition(old(ctx)@, name@, parameters_view(parameters@), now),
{
    let ghost params_v = parameters_view(parameters@);
    let step = TestStep {
        name: name.to_owned(),
        status: Status::Passed,
        status_details: None,
        stage: "running".to_owned(),
        start: now,
        stop: 0,
        steps: Vec::new(),
        attachments: Vec::new(),
        parameters: parameters,
    };
    proof {
        assert(steps_view(step.steps@) =~= Seq::<StepView>::empty());
        assert(attachments_view(step.attachments@) =~= Seq::<AttachmentView>::empty());
        assert(step@ == fresh_step_view(name@, params_v, now));
        lemma_steps_view_push(ctx.open_steps@, step);
    }
    ctx.open_steps.push(step);
}

/// Closes the innermost open step with the given outcome, stamping the
/// current time as its stop time, and routes it to its parent step or to
/// the top level of the test. Without an open step this is a no-op.
pub fn end_step(ctx: &mut TestContext, outcome: &Outcome)
    ensures
        exists|t: i64| final(ctx)@ == end_step_transition(old(ctx)@, outcome@, t),
        old(ctx)@.open_steps.len() == 0 ==> final(ctx)@ == old(ctx)@,
        old(ctx)@.open_steps.len() > 0 ==> final(ctx)@.open_steps.len() == old(
            ctx,
        )@.open_steps.len() - 1,
{
    let now = now_millis();
    end_step_at(ctx, outcome, now);
}

/// Closes the innermost open step with the given outcome and an explicit
/// stop time (clamped to never precede the step's start), and routes it:
/// to its parent's children while the parent is still running, else to the
/// top level. Without an open step this is a no-op.
pub fn end_step_at(ctx: &mut TestContext, outcome: &Outcome, now: i64)
    ensures
        final(ctx)@ == end_step_transition(old(ctx)@, outcome@, now),
{
    let ghost open0 = ctx.open_steps@;
    proof {
        lemma_steps_view_pointwise(open0);
    }
    let popped = ctx.open_steps.pop();
    match popped {
        None => {
        },
        Some(step) => {
            let mut step = step;
            proof {
                lemma_steps_view_drop_last(open0);
            }
            step.stop = if now >= step.start {
                now
            } else {
                step.start
            };
            step.stage = "finished".to_owned();
            step.status = match outcome {
                Outcome::Passed => Status::Passed,
                Outcome::FailedWithMessage(_) => Status::Failed,
                Outcome::FailedUnknown => Status::Failed,
            };
            step.status_details = match outcome {
                Outcome::Passed => None,
                Outcome::FailedWithMessage(m) => Some(
                    StatusDetails { message: Some(m.clone()), trace: None },
                ),
                Outcome::FailedUnknown => Some(
                    StatusDetails { message: Some("Step panicked".to_owned()), trace: None },
                ),
            };
            proof {
                assert(step@ == close_step_view(old(ctx)@.open_steps.last(), outcome@, now));
            }
            if ctx.open_steps.is_empty() {
                proof {
                    lemma_steps_view_push(ctx.finished_steps@, step);
                }
                ctx.finished_steps.push(step);
            } else {
                let ghost open1 = ctx.open_steps@;
                let running: String = "running".to_owned();
                let mut parent = ctx.open_steps.pop().unwrap();
                proof {
                    lemma_steps_view_pointwise(open1);
                    lemma_steps_view_drop_last(open1);
                }
                if parent.stage == running {
                    proof {
                        lemma_steps_view_push(parent.steps@, step);
                    }
                    parent.steps.push(step);
                    proof {
                        lemma_steps_view_push(ctx.open_steps@, parent);
                        lemma_steps_view_update(open1, open1.len() - 1, parent);
                        assert(steps_view(ctx.open_steps@.push(parent)) =~= steps_view(
                            open1.update(open1.len() - 1, parent),
                        ));
                    }
                    ctx.open_steps.push(parent);
                } else {
                    proof {
                        lemma_steps_view_push(ctx.open_steps@, parent);
                        assert(steps_view(ctx.open_steps@.push(parent)) =~= steps_view(open1));
                        lemma_steps_view_push(ctx.finished_steps@, step);
                    }
                    ctx.open_steps.push(parent);
                    ctx.finished_steps.push(step);
                }
            }
        },
    }
}

/// An attachment ready for the persistence layer: the raw bytes to write,
/// and the storage reference (the fresh file name) already embedded in the
/// document. The recorder never touches storage itself; its caller hands
/// this value to the sink.
#[derive(Debug)]
pub struct AttachmentFile {
    pub source: String,
    pub bytes: Vec<u8>,
}

/// A fresh storage reference: a new 36-character identity, a dot, and the
/// given file extension.
fn fresh_source(extension: &str) -> (r: String)
    ensures
        exists|id: Seq<char>| id.len() == 36 && r@ == id + "."@ + extension@,
{
    let id = fresh_id();
    let ghost id_v = id@;
    let with_dot = id.concat(".");
    let r = with_dot.concat(extension);
    proof {
        assert(id_v.len() == 36 && r@ == id_v + "."@ + extension@);
    }
    r
}

/// Appends the attachment record to the innermost open step, or to the
/// test itself when no step is open.
fn record_attachment(ctx: &mut TestContext, attachment: Attachment)
    ensures
        final(ctx)@ == add_attachment_transition(old(ctx)@, attachment@),
{
    let ghost att_v = attachment@;
    if ctx.open_steps.is_empty() {
        proof {
            lemma_attachments_view_push(ctx.attachments@, attachment);
        }
        ctx.attachments.push(attachment);
    } else {
        let ghost open0 = ctx.open_steps@;
        let mut top = ctx.open_steps.pop().unwrap();
        proof {
            lemma_steps_view_pointwise(open0);
            lemma_steps_view_drop_last(open0);
            lemma_attachments_view_push(top.attachments@, attachment);
        }
        top.attachments.push(attachment);
        proof {
            lemma_steps_view_push(ctx.open_steps@, top);
            lemma_steps_view_update(open0, open0.len() - 1, top);
            assert(steps_view(ctx.open_steps@.push(top)) =~= steps_view(
                open0.update(open0.len() - 1, top),
            ));
            assert(top@ == (StepView {
                attachments: old(ctx)@.open_steps.last().attachments.push(att_v),
                ..old(ctx)@.open_steps.last()
            }));
        }
        ctx.open_steps.push(top);
    }
}

/// Registers an attachment under its payload's own classification: the
/// record lands on the innermost open step, or on the test itself when no
/// step is open. The returned file carries the payload bytes and the fresh
/// storage reference for the persistence layer.
pub fn add_attachment<T: IntoAttachment>(ctx: &mut TestContext, name: &str, content: T) -> (file:
    AttachmentFile)
    ensures
        final(ctx)@ == add_attachment_transition(
            old(ctx)@,
            AttachmentView {
                name: name@,
                source: file.source@,
                attachment_type: content.spec_attachment_type().spec_mime_type(),
            },
        ),
        exists|id: Seq<char>|
            id.len() == 36 && file.source@ == id + "."@
                + content.spec_attachment_type().spec_extension(),
        content.spec_bytes() is Some ==> file.bytes@ == content.spec_bytes()->0,
{
    let attachment_type = content.attachment_type();
    add_attachment_with_type(ctx, name, content, attachment_type)
}

/// Registers an attachment under an explicitly chosen classification,
/// overriding the payload's own; otherwise exactly `add_attachment`.
pub fn add_attachment_with_type<T: IntoAttachment>(
    ctx: &mut TestContext,
    name: &str,
    content: T,
    attachment_type: AttachmentType,
) -> (file: AttachmentFile)
    ensures
        final(ctx)@ == add_attachment_transition(
            old(ctx)@,
            AttachmentView {
                name: name@,
                source: file.source@,
                attachment_type: attachment_type.spec_mime_type(),
            },
        ),
        exists|id: Seq<char>|
            id.len() == 36 && file.source@ == id + "."@ + attachment_type.spec_extension(),
        content.spec_bytes() is Some ==> file.bytes@ == content.spec_bytes()->0,
{
    let bytes = content.into_bytes();
    let source = fresh_source(attachment_type.extension());
    let record = Attachment {
        name: name.to_owned(),
        source: source.clone(),
        attachment_type: attachment_type.mime_type().to_owned(),
    };
    record_attachment(ctx, record);
    AttachmentFile { source, bytes }
}

/// Ends the test: derives status and failure detail from the outcome
/// exactly as `end_step` does, stamps the current time as the stop time,
/// draws a fresh history identity, closes any step still open with the
/// test's own outcome (so nothing recorded is lost), and assembles the
/// full document. The context is consumed; a later test starts fresh.
pub fn end_test(ctx: TestContext, name: &str, outcome: &Outcome) -> (r: TestResult)
    ensures
        exists|hid: Seq<char>, t: i64|
            hid.len() == 36 && r@ == result_view_of(
                close_all_transition(ctx@, outcome@, t),
                name@,
                outcome@,
                hid,
                t,
            ),
        r@.uuid == ctx@.uuid,
        r@.name == name@,
        r.status == status_of(outcome@),
        r@.status_details == details_of(outcome@, test_panicked_text()),
        r@.stage == finished_text(),
        r@.labels == suite_labels(ctx@.suite),
        ctx@.open_steps.len() == 0 ==> r@.steps == ctx@.finished,
        r@.attachments == ctx@.attachments,
        r@.description is None,
        r@.parameters == Seq::<ParameterView>::empty(),
        r@.links == Seq::<crate::models::LinkView>::empty(),
        r@.history_id.len() == 36,
        r.stop >= r.start,
        r.start == ctx.start,
{
    let stop = now_millis();
    let history_id = fresh_id();
    let r = end_test_at(ctx, name, outcome, history_id, stop);
    proof {
        lemma_close_all_keeps_rest(ctx@, outcome@, stop);
    }
    r
}

/// Assembles the finished document from a context with an explicit history
/// identity and stop time: the deterministic core of `end_test`. Steps
/// still open are first closed, innermost out, with the test's outcome and
/// stop time.
pub fn end_test_at(
    ctx: TestContext,
    name: &str,
    outcome: &Outcome,
    history_id: String,
    now: i64,
) -> (r: TestResult)
    ensures
        r@ == result_view_of(
            close_all_transition(ctx@, outcome@, now),
            name@,
            outcome@,
            history_id@,
            now,
        ),
{
    let ghost ctx0 = ctx@;
    let mut ctx = ctx;
    while ctx.open_steps.len() > 0
        invariant
            close_all_transition(ctx@, outcome@, now) == close_all_transition(
                ctx0,
                outcome@,
                now,
            ),
        decreases ctx.open_steps.len(),
    {
        let ghost before = ctx@;
        proof {
            lemma_steps_view_pointwise(ctx.open_steps@);
        }
        end_step_at(&mut ctx, outcome, now);
        proof {
            lemma_steps_view_pointwise(ctx.open_steps@);
            assert(before.open_steps.len() > 0);
            assert(close_all_transition(before, outcome@, now) == close_all_transition(
                ctx@,
                outcome@,
                now,
            ));
        }
    }
    proof {
        lemma_steps_view_pointwise(ctx.open_steps@);
        assert(ctx@.open_steps.len() == 0);
        lemma_close_all_keeps_rest(ctx@, outcome@, now);
        assert(ctx@ == close_all_transition(ctx0, outcome@, now));
    }
    let ghost ctx_v = ctx@;
    let TestContext { uuid, start, suite, finished_steps, attachments, .. } = ctx;
    let status = match outcome {
        Outcome::Passed => Status::Passed,
        Outcome::FailedWithMessage(_) => Status::Failed,
        Outcome::FailedUnknown => Status::Failed,
    };
    let status_details = match outcome {
        Outcome::Passed => None,
        Outcome::FailedWithMessage(m) => Some(
            StatusDetails { message: Some(m.clone()), trace: None },
        ),
        Outcome::FailedUnknown => Some(
            StatusDetails { message: Some("Test panicked".to_owned()), trace: None },
        ),
    };
    let mut labels: Vec<Label> = Vec::new();
    match suite {
        Some(s) => {
            let label = Label { name: "suite".to_owned(), value: s };
            proof {
                lemma_labels_view_push(labels@, label);
            }
            labels.push(label);
        },
        None => {},
    }
    proof {
        assert(labels_view(Seq::<Label>::empty()) =~= Seq::<LabelView>::empty());
        assert(labels_view(labels@) =~= suite_labels(ctx_v.suite));
    }
    let stop = if now >= start {
        now
    } else {
        start
    };
    let r = TestResult {
        uuid,
        history_id,
        name: name.to_owned(),
        description: None,
        status,
        status_details,
        stage: "finished".to_owned(),
        start,
        stop,
        labels,
        parameters: Vec::new(),
        links: Vec::new(),
        steps: finished_steps,
        attachments,
    };
    proof {
        assert(parameters_view(r.parameters@) =~= Seq::<ParameterView>::empty());
        assert(crate::models::links_view(r.links@) =~= Seq::<crate::models::LinkView>::empty());
    }
    r
}

} // verus!
