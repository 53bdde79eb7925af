//! Request tracing and session quotas for anchor services.
//!
//! - [`request_context`] carries trace context through sub-operations, HTTP
//!   headers, webhook payloads and audit entries.
//! - [`session_quota`] limits how many operations a session may perform, on the
//!   entries that [`quota_ledger`] holds.
//! - [`text`] holds the text primitives that both the formats and their
//!   contracts are made of.
//! - [`text_laws`], [`trace_laws`] and [`quota_laws`] state and prove what holds of the
//!   library as a whole.

pub mod errors;
pub mod quota_laws;
pub mod quota_ledger;
pub mod request_context;
pub mod session_quota;
pub mod text;
pub mod text_laws;
pub mod trace_laws;
