//! Semantic-versioning impact analysis of API changes.
//!
//! Given discrete change events between two versions of a library's public
//! surface — each an addition, a removal, or a modification of one exported
//! item, tagged with a source span — this crate classifies every event on a
//! four-step severity scale and aggregates the events into an ordered,
//! deduplicated set together with the worst severity seen.

pub mod category;
pub mod change_set;
pub mod changes;
pub mod span;
