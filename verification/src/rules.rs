//! The reconciliation rule, stated over plain values: which submissions a
//! store admits and what it holds afterwards.
//!
//! Of the policies one could choose, this library takes the strict pair. A
//! post whose claimed author is not the peer it is filed under is rejected,
//! never relabelled. A post whose identifier the timeline already holds is
//! rejected, never written over the earlier one.

use vstd::prelude::*;

use crate::post::{PostId, PostView, Timestamp};
use crate::timeline::TimelineView;

verus! {

/// What a store holds at one point in time: for each peer that has a
/// timeline, that timeline.
pub type Snapshot = Map<Seq<u8>, TimelineView>;

/// Why a submission was rejected.
#[derive(Clone, Copy, Debug, PartialEq, Eq, Structural)]
pub enum SubmitError {
    /// The post claims an author other than the peer it was filed under.
    AuthorshipMismatch,
    /// The timeline already holds a post with this identifier.
    DuplicatePost,
}

/// The posts filed under `target`: none where `target` has no timeline.
pub open spec fn history_of(store: Snapshot, target: Seq<u8>) -> Map<PostId, PostView> {
    if store.contains_key(target) {
        store[target].history
    } else {
        Map::empty()
    }
}

/// The timestamp that the post under `id` in the timeline of `target`
/// carries.
pub open spec fn stamp_of(store: Snapshot, target: Seq<u8>, id: PostId) -> Timestamp {
    history_of(store, target)[id].timestamp
}

/// Whether `store` admits `post` under `target`, and if not, why. The
/// author is judged first.
pub open spec fn verdict(store: Snapshot, target: Seq<u8>, post: PostView) -> Result<
    (),
    SubmitError,
> {
    if post.author != target {
        Err(SubmitError::AuthorshipMismatch)
    } else if history_of(store, target).contains_key(post.id) {
        Err(SubmitError::DuplicatePost)
    } else {
        Ok(())
    }
}

/// `store` with `post` filed under `target` and stamped with `now`.
pub open spec fn filed(
    store: Snapshot,
    target: Seq<u8>,
    post: PostView,
    now: Timestamp,
) -> Snapshot {
    store.insert(
        target,
        TimelineView {
            author: target,
            history: history_of(store, target).insert(post.id, post.stamped(now)),
        },
    )
}

/// The store after the submission of `post` under `target` at time `now`:
/// `post` is filed if it is admitted, and nothing changes if it is not.
pub open spec fn submit(
    store: Snapshot,
    target: Seq<u8>,
    post: PostView,
    now: Timestamp,
) -> Snapshot {
    if verdict(store, target, post) is Ok {
        filed(store, target, post, now)
    } else {
        store
    }
}

/// What holds of every store: its peers are finitely many, and each
/// timeline stands under its own author, is consistent and holds at least
/// one post.
pub open spec fn store_inv(store: Snapshot) -> bool {
    &&& store.dom().finite()
    &&& forall|peer: Seq<u8>| #[trigger]
        store.contains_key(peer) ==> {
            &&& store[peer].author == peer
            &&& store[peer].consistent()
            &&& store[peer].history.len() > 0
        }
}

} // verus!
