//! Actions on the store.

use std::rc::Rc;
use vstd::prelude::*;

use crate::peer::PeerId;
use crate::post::{Post, PostView, Timestamp};
use crate::rules::{stamp_of, submit, Snapshot};
use crate::store::Timelines;

verus! {

/// A request to change the store.
#[derive(Debug, PartialEq)]
pub enum Action {
    /// Submit the post under the peer.
    CreatePost(PeerId, Post),
}

/// What an action asks for, as plain values.
pub enum ActionView {
    CreatePost(Seq<u8>, PostView),
}

impl ActionView {
    /// What the store holds after the action was applied at the time `now`.
    pub open spec fn effect(self, store: Snapshot, now: Timestamp) -> Snapshot {
        match self {
            ActionView::CreatePost(target, post) => submit(store, target, post, now),
        }
    }

    /// The timestamp that the action's post carries in `store`.
    pub open spec fn stamp_in(self, store: Snapshot) -> Timestamp {
        match self {
            ActionView::CreatePost(target, post) => stamp_of(store, target, post.id),
        }
    }
}

impl View for Action {
    type V = ActionView;

    open spec fn view(&self) -> ActionView {
        match self {
            Action::CreatePost(id, post) => ActionView::CreatePost(id@, post@),
        }
    }
}

impl Action {
    /// Applies the action at the time `now` and returns the new snapshot. A
    /// submission that is rejected leaves the snapshot as it was. Snapshots
    /// that others still hold are not touched: a shared store is copied
    /// before it is changed.
    pub fn apply_at(self, timelines: Rc<Timelines>, now: Timestamp) -> (next: Rc<Timelines>)
        requires
            timelines.wf(),
        ensures
            next.wf(),
            next@ == self@.effect(timelines@, now),
    {
        let mut state = own(timelines);
        match self {
            Action::CreatePost(id, post) => {
                let _ = state.record(&id, post, now);
            },
        }
        Rc::new(state)
    }

    /// Applies the action at the present time, as [`Action::apply_at`] does
    /// with the reading of the clock for `now`.
    pub fn apply(self, timelines: Rc<Timelines>) -> (next: Rc<Timelines>)
        requires
            timelines.wf(),
        ensures
            next.wf(),
            next@ == self@.effect(timelines@, self@.stamp_in(next@)),
    {
        let mut state = own(timelines);
        match self {
            Action::CreatePost(id, post) => {
                let _ = state.create_post(&id, post);
            },
        }
        Rc::new(state)
    }
}

impl Clone for Action {
    fn clone(&self) -> (copy: Action)
        ensures
            copy@ == self@,
    {
        match self {
            Action::CreatePost(id, post) => Action::CreatePost(id.clone(), post.clone()),
        }
    }
}

/// The store behind `timelines` as a value of its own: the store itself
/// where nobody else holds it, a copy where somebody does.
fn own(timelines: Rc<Timelines>) -> (state: Timelines)
    ensures
        state@ == timelines@,
        timelines.wf() ==> state.wf(),
{
    match Rc::try_unwrap(timelines) {
        Ok(state) => state,
        Err(shared) => (*shared).clone(),
    }
}

} // verus!
