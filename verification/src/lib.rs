//! Publish-and-review pipeline for a content-addressed application repository.
//!
//! The library rewrites a build's published appstream metadata to embed
//! trust, pricing and provenance facts, and validates a build against a set
//! of structural and policy checks whose outcomes drive a small review
//! state machine.  All repository, network and subprocess work is performed
//! by the caller; the logic that decides what to write and what to report
//! lives here and is verified.

pub mod compress;
pub mod config;
pub mod diagnostics;
pub mod editor;
pub mod job_utils;
pub mod moderation;
pub mod publish;
pub mod storefront;
pub mod review;
pub mod review_files;
pub mod strutil;
pub mod utils;
pub mod validation;
pub mod xml;
