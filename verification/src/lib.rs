//! Normalization core of an error-reporting client.
//!
//! Given a captured error event (exception backtraces, contextual scope,
//! platform label) this library produces the cleaned event that is handed to
//! a transport for delivery: ambient scope data is merged into the event,
//! trailing capture-machinery frames are trimmed off each backtrace, and
//! every frame is classified as application or library code.
//!
//! Preparation is total: every operation tolerates absent optional fields
//! and never fails.

pub mod classify;
pub mod kvmap;
pub mod merge;
pub mod model;
pub mod options;
pub mod prepare;
pub mod tables;
pub mod text;
pub mod trim;

pub use classify::classify_stacktrace;
pub use merge::merge_scope;
pub use model::{Breadcrumb, Event, Exception, Frame, Scope, Stacktrace, User};
pub use options::ClientOptions;
pub use prepare::prepare_event;
pub use trim::trim_stacktrace;
