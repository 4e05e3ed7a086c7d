//! What follows from the reconciliation rule, proved over the plain values
//! that the store's operations are stated in. Each law speaks of
//! [`submit`], which is what `Timelines::record` does to a store.

use vstd::prelude::*;

use crate::post::{PostId, PostView, Timestamp};
use crate::rules::{history_of, stamp_of, store_inv, submit, verdict, Snapshot, SubmitError};

verus! {

/// A submission, admitted or not, leaves a store that keeps the invariant of
/// stores: every timeline stands under its own author, every post in it
/// names that author and stands under its own identifier, and no timeline
/// is empty.
pub proof fn law_invariant_kept(store: Snapshot, target: Seq<u8>, post: PostView, now: Timestamp)
    requires
        store_inv(store),
    ensures
        store_inv(submit(store, target, post, now)),
{
    let next = submit(store, target, post, now);
    if verdict(store, target, post) is Ok {
        // Every peer but `target` has the timeline it had, and the timeline
        // of `target` has grown by a post that names `target`.
        assert forall|peer: Seq<u8>| #[trigger] next.contains_key(peer) implies next[peer].author
            == peer && next[peer].consistent() && next[peer].history.len() > 0 by {
            if peer != target {
                assert(store.contains_key(peer));
            }
        }
    }
}

/// A post that claims another author than the peer it is filed under is
/// rejected for that, and the store stays as it was: the post does not
/// appear under that peer, and a peer without a timeline still has none.
pub proof fn law_foreign_author_rejected(
    store: Snapshot,
    target: Seq<u8>,
    post: PostView,
    now: Timestamp,
)
    requires
        post.author != target,
    ensures
        verdict(store, target, post) == Err::<(), SubmitError>(SubmitError::AuthorshipMismatch),
        submit(store, target, post, now) == store,
{
}

/// A post that is held is never written over: whatever is submitted under
/// its peer with its identifier, the store stays as it was.
pub proof fn law_held_post_stays(store: Snapshot, target: Seq<u8>, post: PostView, now: Timestamp)
    requires
        history_of(store, target).contains_key(post.id),
    ensures
        verdict(store, target, post) is Err,
        submit(store, target, post, now) == store,
{
}

/// Of two submissions under one peer with one identifier, the second
/// changes nothing, whatever it says and whenever it comes, and the text
/// held under the identifier is the text of the first. This holds where the
/// first is admitted, and it is then held with the time of its own filing;
/// it also holds where the store held that text under the identifier before.
pub proof fn law_first_submission_stays(
    store: Snapshot,
    target: Seq<u8>,
    first: PostView,
    second: PostView,
    then: Timestamp,
    later: Timestamp,
)
    requires
        second.id == first.id,
        verdict(store, target, first) is Ok || (history_of(store, target).contains_key(first.id)
            && history_of(store, target)[first.id].content == first.content),
    ensures
        ({
            let once = submit(store, target, first, then);
            let twice = submit(once, target, second, later);
            &&& twice == once
            &&& history_of(twice, target).contains_key(first.id)
            &&& history_of(twice, target)[first.id].content == first.content
            &&& verdict(store, target, first) is Ok ==> history_of(twice, target)[first.id]
                == first.stamped(then)
        }),
{
}

/// A post that is sent again changes nothing, whenever it arrives: what the
/// first submission left, admitted or not, is what the store holds.
pub proof fn law_retransmission_changes_nothing(
    store: Snapshot,
    target: Seq<u8>,
    post: PostView,
    then: Timestamp,
    later: Timestamp,
)
    ensures
        submit(submit(store, target, post, then), target, post, later) == submit(
            store,
            target,
            post,
            then,
        ),
{
}

/// A post that is admitted is held with the time of its filing, whatever
/// time it came with, and otherwise as it came; a time that it came with
/// and that lies before its filing is not the time it is held with.
pub proof fn law_stamped_on_filing(
    store: Snapshot,
    target: Seq<u8>,
    post: PostView,
    now: Timestamp,
)
    requires
        verdict(store, target, post) is Ok,
    ensures
        ({
            let next = submit(store, target, post, now);
            &&& history_of(next, target).contains_key(post.id)
            &&& history_of(next, target)[post.id] == post.stamped(now)
            &&& stamp_of(next, target, post.id) == now
            &&& post.timestamp.before(now) ==> stamp_of(next, target, post.id) != post.timestamp
        }),
{
}

/// A post filed under its own author, for a peer that had no timeline, is
/// admitted and begins one: the store gains that one peer, whose timeline
/// names the peer as its author and holds that one post.
pub proof fn law_first_post_begins_timeline(
    store: Snapshot,
    target: Seq<u8>,
    post: PostView,
    now: Timestamp,
)
    requires
        store.dom().finite(),
        !store.contains_key(target),
        post.author == target,
    ensures
        verdict(store, target, post) is Ok,
        ({
            let next = submit(store, target, post, now);
            &&& next.dom() == store.dom().insert(target)
            &&& next.len() == store.len() + 1
            &&& next[target].author == target
            &&& next[target].history == Map::<_, PostView>::empty().insert(
                post.id,
                post.stamped(now),
            )
            &&& next[target].history.len() == 1
        }),
{
}

/// A submission under one peer leaves every other peer as it was: with the
/// same timeline, or with none.
pub proof fn law_other_peers_untouched(
    store: Snapshot,
    target: Seq<u8>,
    post: PostView,
    now: Timestamp,
    other: Seq<u8>,
)
    requires
        other != target,
    ensures
        submit(store, target, post, now).contains_key(other) == store.contains_key(other),
        submit(store, target, post, now)[other] == store[other],
        history_of(submit(store, target, post, now), other) == history_of(store, other),
{
}

/// Submissions under different peers, or with different identifiers, do not
/// interact: in whichever order the two arrive, the store ends up the same.
pub proof fn law_unrelated_submissions_commute(
    store: Snapshot,
    peer_a: Seq<u8>,
    post_a: PostView,
    time_a: Timestamp,
    peer_b: Seq<u8>,
    post_b: PostView,
    time_b: Timestamp,
)
    requires
        peer_a != peer_b || post_a.id != post_b.id,
    ensures
        submit(submit(store, peer_a, post_a, time_a), peer_b, post_b, time_b) == submit(
            submit(store, peer_b, post_b, time_b),
            peer_a,
            post_a,
            time_a,
        ),
{
    let a_first = submit(submit(store, peer_a, post_a, time_a), peer_b, post_b, time_b);
    let b_first = submit(submit(store, peer_b, post_b, time_b), peer_a, post_a, time_a);
    // Neither submission changes whether the other is admitted.
    assert(verdict(submit(store, peer_a, post_a, time_a), peer_b, post_b) == verdict(
        store,
        peer_b,
        post_b,
    ));
    assert(verdict(submit(store, peer_b, post_b, time_b), peer_a, post_a) == verdict(
        store,
        peer_a,
        post_a,
    ));
    if verdict(store, peer_a, post_a) is Ok && verdict(store, peer_b, post_b) is Ok {
        if peer_a == peer_b {
            assert(a_first[peer_a].history =~= b_first[peer_a].history);
        }
        assert(a_first =~= b_first);
    }
}

/// Timelines only grow: a post that a store holds is still held, and held
/// unchanged, after any submission.
pub proof fn law_append_only(
    store: Snapshot,
    target: Seq<u8>,
    post: PostView,
    now: Timestamp,
    peer: Seq<u8>,
    held: PostId,
)
    requires
        history_of(store, peer).contains_key(held),
    ensures
        history_of(submit(store, target, post, now), peer).contains_key(held),
        history_of(submit(store, target, post, now), peer)[held] == history_of(store, peer)[held],
{
}

} // verus!
