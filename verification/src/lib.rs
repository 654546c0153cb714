//! A concurrent job registry with lifecycle expiry.
//!
//! The registry accepts requests to start asynchronous units of work,
//! assigns each a unique random identifier, stores a handle to the live
//! job record, answers lookups by identifier, and forgets every entry a
//! fixed retention window after its creation, whether or not the job has
//! finished. Worker launch failures leave the registry untouched; the
//! worker's own failures are recorded in the job's handle, never surfaced
//! through the registry.
//!
//! The hosting layer serializes access to the registry and performs the
//! actual launch of the external tool; every decision the registry makes
//! is verified here against the mathematical table in
//! [`registry::JobManager::table`].

pub mod job;
pub mod laws;
pub mod registry;
