//! Recorder for structured test-result documents.
//!
//! A `TestContext` tracks one in-flight test: its identity, a stack of open
//! steps, and the attachments registered so far. When the test ends, the
//! accumulated state is assembled into an immutable `TestResult` document
//! that a persistence layer can write out for report generators to consume.

pub mod attachment;
pub mod context;
pub mod laws;
pub mod models;

pub use context::AttachmentFile;
pub use context::Outcome;
pub use context::TestContext;
pub use context::add_attachment;
pub use context::add_attachment_with_type;
pub use context::end_step;
pub use context::end_step_at;
pub use context::end_test;
pub use context::end_test_at;
pub use context::start_step;
pub use context::start_step_with_params;
pub use context::start_step_with_params_at;
pub use context::start_test;
pub use context::start_test_with_context;
pub use context::start_test_with_suite;

pub use attachment::AttachmentType;
pub use attachment::IntoAttachment;
pub use attachment::TypedAttachment;

pub use models::Attachment;
pub use models::Label;
pub use models::Link;
pub use models::Parameter;
pub use models::Status;
pub use models::StatusDetails;
pub use models::TestResult;
pub use models::TestStep;
