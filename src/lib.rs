//! Content-addressed aggregation of failure reports: each distinct diagnostic
//! text gets one durable record with an occurrence counter and one live
//! notification.
pub mod identity;
pub mod store;
pub mod report;
pub mod laws;
pub mod fields;
