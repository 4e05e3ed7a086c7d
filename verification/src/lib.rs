//! A per-author post store: every peer owns an append-only timeline of posts,
//! and submissions are admitted only under the author's own name and only
//! under an identifier that the timeline has not seen.
//!
//! [`rules`] states what a submission does, over plain values; [`laws`]
//! proves what follows from that. [`Timelines`] is the store itself and
//! [`Action`] the request that a caller hands to it; their contracts are the
//! rule. The store is a value: a submission makes a new snapshot and leaves
//! the snapshots that others hold as they are.

pub mod action;
pub mod laws;
pub mod order;
pub mod outside;
pub mod peer;
pub mod post;
pub mod rules;
pub mod store;
pub mod timeline;

pub use crate::action::Action;
pub use crate::peer::PeerId;
pub use crate::post::{Post, PostId, Timestamp};
pub use crate::rules::SubmitError;
pub use crate::store::Timelines;
pub use crate::timeline::Timeline;
