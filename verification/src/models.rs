//! The result-document entity graph: statuses, failure details, attachments,
//! steps, labels, links, parameters, and the finished `TestResult`.
//!
//! Each executable type has a ghost mirror (`...View`) over `Seq<char>` and
//! `Seq<_>` so that contracts can speak of the documents mathematically.

use vstd::prelude::*;
use vstd::string::StringExecFns;

verus! {

broadcast use vstd::std_specs::vec::group_vec_axioms;

/// The terminal outcome of a test or step.
#[derive(Clone, Copy, Debug, PartialEq, Eq, Structural)]
pub enum Status {
    Passed,
    Failed,
    Broken,
    Skipped,
}

/// Structured failure detail: a human-readable message and an optional trace.
#[derive(Debug)]
pub struct StatusDetails {
    pub message: Option<String>,
    pub trace: Option<String>,
}

/// A registered attachment: a display name, the opaque storage reference
/// (the file name the persistence layer will use), and the MIME type string.
#[derive(Debug)]
pub struct Attachment {
    pub name: String,
    pub source: String,
    pub attachment_type: String,
}

/// A named value shown with a step or test.
#[derive(Debug)]
pub struct Parameter {
    pub name: String,
    pub value: String,
}

/// A named grouping tag on a test result (for example the suite name).
#[derive(Debug)]
pub struct Label {
    pub name: String,
    pub value: String,
}

/// A named external link on a test result.
#[derive(Debug)]
pub struct Link {
    pub name: String,
    pub url: String,
    pub link_type: String,
}

/// One step of a test: steps nest arbitrarily deep, and a step owns its
/// children, attachments and parameters exclusively.
#[derive(Debug)]
pub struct TestStep {
    pub name: String,
    pub status: Status,
    pub status_details: Option<StatusDetails>,
    pub stage: String,
    pub start: i64,
    pub stop: i64,
    pub steps: Vec<TestStep>,
    pub attachments: Vec<Attachment>,
    pub parameters: Vec<Parameter>,
}

/// The finished, immutable record of one completed test.
#[derive(Debug)]
pub struct TestResult {
    pub uuid: String,
    pub history_id: String,
    pub name: String,
    pub description: Option<String>,
    pub status: Status,
    pub status_details: Option<StatusDetails>,
    pub stage: String,
    pub start: i64,
    pub stop: i64,
    pub labels: Vec<Label>,
    pub parameters: Vec<Parameter>,
    pub links: Vec<Link>,
    pub steps: Vec<TestStep>,
    pub attachments: Vec<Attachment>,
}

impl TestResult {
    /// The file name this document is persisted under: the wire contract
    /// other tools read fixes it as the identity followed by
    /// `-result.json`.
    pub fn file_name(&self) -> (r: String)
        ensures
            r@ == self.uuid@ + "-result.json"@,
    {
        self.uuid.clone().concat("-result.json")
    }
}

/// Ghost mirror of `StatusDetails`.
pub struct StatusDetailsView {
    pub message: Option<Seq<char>>,
    pub trace: Option<Seq<char>>,
}

/// Ghost mirror of `Attachment`.
pub struct AttachmentView {
    pub name: Seq<char>,
    pub source: Seq<char>,
    pub attachment_type: Seq<char>,
}

/// Ghost mirror of `Parameter`.
pub struct ParameterView {
    pub name: Seq<char>,
    pub value: Seq<char>,
}

/// Ghost mirror of `Label`.
pub struct LabelView {
    pub name: Seq<char>,
    pub value: Seq<char>,
}

/// Ghost mirror of `Link`.
pub struct LinkView {
    pub name: Seq<char>,
    pub url: Seq<char>,
    pub link_type: Seq<char>,
}

/// Ghost mirror of `TestStep`: the step tree as a mathematical value.
#[verifier::ext_equal]
pub struct StepView {
    pub name: Seq<char>,
    pub status: Status,
    pub status_details: Option<StatusDetailsView>,
    pub stage: Seq<char>,
    pub start: i64,
    pub stop: i64,
    pub steps: Seq<StepView>,
    pub attachments: Seq<AttachmentView>,
    pub parameters: Seq<ParameterView>,
}

/// Ghost mirror of `TestResult`.
#[verifier::ext_equal]
pub struct ResultView {
    pub uuid: Seq<char>,
    pub history_id: Seq<char>,
    pub name: Seq<char>,
    pub description: Option<Seq<char>>,
    pub status: Status,
    pub status_details: Option<StatusDetailsView>,
    pub stage: Seq<char>,
    pub start: i64,
    pub stop: i64,
    pub labels: Seq<LabelView>,
    pub parameters: Seq<ParameterView>,
    pub links: Seq<LinkView>,
    pub steps: Seq<StepView>,
    pub attachments: Seq<AttachmentView>,
}

impl View for StatusDetails {
    type V = StatusDetailsView;

    open spec fn view(&self) -> StatusDetailsView {
        StatusDetailsView {
            message: match self.message {
                Some(m) => Some(m@),
                None => None,
            },
            trace: match self.trace {
                Some(t) => Some(t@),
                None => None,
            },
        }
    }
}

impl View for Attachment {
    type V = AttachmentView;

    open spec fn view(&self) -> AttachmentView {
        AttachmentView { name: self.name@, source: self.source@, attachment_type: self.attachment_type@ }
    }
}

impl View for Parameter {
    type V = ParameterView;

    open spec fn view(&self) -> ParameterView {
        ParameterView { name: self.name@, value: self.value@ }
    }
}

impl View for Label {
    type V = LabelView;

    open spec fn view(&self) -> LabelView {
        LabelView { name: self.name@, value: self.value@ }
    }
}

impl View for Link {
    type V = LinkView;

    open spec fn view(&self) -> LinkView {
        LinkView { name: self.name@, url: self.url@, link_type: self.link_type@ }
    }
}

/// The ghost mirror of an optional `StatusDetails` value.
pub open spec fn details_view(details: Option<StatusDetails>) -> Option<StatusDetailsView> {
    match details {
        Some(d) => Some(d@),
        None => None,
    }
}

/// The ghost mirror of a sequence of attachments.
pub open spec fn attachments_view(s: Seq<Attachment>) -> Seq<AttachmentView> {
    Seq::new(s.len(), |i: int| s[i]@)
}

/// The ghost mirror of a sequence of parameters.
pub open spec fn parameters_view(s: Seq<Parameter>) -> Seq<ParameterView> {
    Seq::new(s.len(), |i: int| s[i]@)
}

/// The ghost mirror of a sequence of labels.
pub open spec fn labels_view(s: Seq<Label>) -> Seq<LabelView> {
    Seq::new(s.len(), |i: int| s[i]@)
}

/// The ghost mirror of a sequence of links.
pub open spec fn links_view(s: Seq<Link>) -> Seq<LinkView> {
    Seq::new(s.len(), |i: int| s[i]@)
}

impl View for TestStep {
    type V = StepView;

    open spec fn view(&self) -> StepView
        decreases *self,
    {
        proof {
            assert(decreases_to!(*self => self.steps));
            assert(decreases_to!(self.steps => self.steps@));
        }
        StepView {
            name: self.name@,
            status: self.status,
            status_details: details_view(self.status_details),
            stage: self.stage@,
            start: self.start,
            stop: self.stop,
            steps: steps_view(self.steps@),
            attachments: attachments_view(self.attachments@),
            parameters: parameters_view(self.parameters@),
        }
    }
}

/// The ghost mirror of a sequence of steps. Written recursively, last step
/// first, so that the mutual recursion with `TestStep::view` carries an
/// evident termination measure; `lemma_steps_view_pointwise` recovers the
/// pointwise reading.
pub open spec fn steps_view(s: Seq<TestStep>) -> Seq<StepView>
    decreases s,
{
    if s.len() == 0 {
        Seq::empty()
    } else {
        steps_view(s.drop_last()).push(s.last()@)
    }
}

/// `steps_view` is the pointwise mirror: it keeps the length and mirrors
/// each step in place.
pub broadcast proof fn lemma_steps_view_pointwise(s: Seq<TestStep>)
    ensures
        #[trigger] steps_view(s).len() == s.len(),
        forall|i: int| 0 <= i < s.len() ==> #[trigger] steps_view(s)[i] == s[i]@,
    decreases s,
{
    if s.len() == 0 {
        assert(steps_view(s) =~= Seq::<StepView>::empty());
    } else {
        lemma_steps_view_pointwise(s.drop_last());
        assert(steps_view(s) == steps_view(s.drop_last()).push(s.last()@));
        assert forall|i: int| 0 <= i < s.len() implies #[trigger] steps_view(s)[i] == s[i]@ by {
            if i < s.len() - 1 {
                assert(s.drop_last()[i] == s[i]);
                assert(steps_view(s)[i] == steps_view(s.drop_last())[i]);
            } else {
                assert(s[i] == s.last());
            }
        }
    }
}

/// Mirroring commutes with appending one step.
pub proof fn lemma_steps_view_push(s: Seq<TestStep>, x: TestStep)
    ensures
        steps_view(s.push(x)) == steps_view(s).push(x@),
{
    assert(s.push(x).drop_last() =~= s);
    assert(s.push(x).last() == x);
}

/// Mirroring commutes with dropping the last step.
pub proof fn lemma_steps_view_drop_last(s: Seq<TestStep>)
    requires
        s.len() > 0,
    ensures
        steps_view(s.drop_last()) == steps_view(s).drop_last(),
{
    lemma_steps_view_pointwise(s);
    lemma_steps_view_pointwise(s.drop_last());
    assert(steps_view(s.drop_last()) =~= steps_view(s).drop_last());
}

/// Mirroring commutes with replacing one step in place.
pub proof fn lemma_steps_view_update(s: Seq<TestStep>, i: int, x: TestStep)
    requires
        0 <= i < s.len(),
    ensures
        steps_view(s.update(i, x)) == steps_view(s).update(i, x@),
{
    lemma_steps_view_pointwise(s);
    lemma_steps_view_pointwise(s.update(i, x));
    assert(steps_view(s.update(i, x)) =~= steps_view(s).update(i, x@));
}

/// Mirroring commutes with appending one attachment.
pub proof fn lemma_attachments_view_push(s: Seq<Attachment>, a: Attachment)
    ensures
        attachments_view(s.push(a)) == attachments_view(s).push(a@),
{
    assert(attachments_view(s.push(a)) =~= attachments_view(s).push(a@));
}

/// Mirroring commutes with appending one label.
pub proof fn lemma_labels_view_push(s: Seq<Label>, l: Label)
    ensures
        labels_view(s.push(l)) == labels_view(s).push(l@),
{
    assert(labels_view(s.push(l)) =~= labels_view(s).push(l@));
}

impl View for TestResult {
    type V = ResultView;

    open spec fn view(&self) -> ResultView {
        ResultView {
            uuid: self.uuid@,
            history_id: self.history_id@,
            name: self.name@,
            description: match self.description {
                Some(d) => Some(d@),
                None => None,
            },
            status: self.status,
            status_details: details_view(self.status_details),
            stage: self.stage@,
            start: self.start,
            stop: self.stop,
            labels: labels_view(self.labels@),
            parameters: parameters_view(self.parameters@),
            links: links_view(self.links@),
            steps: steps_view(self.steps@),
            attachments: attachments_view(self.attachments@),
        }
    }
}

} // verus!
