//! One author's timeline.

use std::collections::HashMap;
use vstd::prelude::*;
use vstd::std_specs::iter::IteratorSpec;

use crate::peer::PeerId;
use crate::post::{Post, PostId, PostView};

verus! {

/// What a timeline holds, as plain values.
pub struct TimelineView {
    pub author: Seq<u8>,
    pub history: Map<PostId, PostView>,
}

impl TimelineView {
    /// Every post stands under its own identifier and names the timeline's
    /// author, and the posts are finitely many.
    pub open spec fn consistent(self) -> bool {
        &&& self.history.dom().finite()
        &&& forall|id: PostId| #[trigger]
            self.history.contains_key(id) ==> self.history[id].id == id && self.history[id].author
                == self.author
    }
}

/// One author's append-only collection of posts, each under its identifier.
#[derive(Debug, PartialEq)]
pub struct Timeline {
    author: PeerId,
    history: HashMap<u128, Post>,
}

impl View for Timeline {
    type V = TimelineView;

    closed spec fn view(&self) -> TimelineView {
        TimelineView {
            author: self.author@,
            history: Map::new(
                |id: PostId| self.history@.contains_key(id.0),
                |id: PostId| self.history@[id.0]@,
            ),
        }
    }
}

impl Timeline {
    /// The timeline's invariant: what it holds is consistent.
    pub open spec fn wf(&self) -> bool {
        self@.consistent()
    }

    /// The timeline holds as many posts as its map has keys, and finitely
    /// many.
    proof fn lemma_len(&self)
        ensures
            self@.history.dom().finite(),
            self@.history.len() == self.history@.len(),
    {
        let keys = self.history@.dom();
        let ids = self@.history.dom();
        let wrap = |key: u128| PostId(key);
        assert(ids =~= keys.map(wrap)) by {
            assert forall|id: PostId| ids.contains(id) implies keys.map(wrap).contains(id) by {
                assert(keys.contains(id.0) && wrap(id.0) == id);
            }
        }
        vstd::set_lib::lemma_map_size(keys, ids, wrap);
    }

    /// An empty timeline for `author`.
    pub fn new(author: PeerId) -> (timeline: Timeline)
        ensures
            timeline.wf(),
            timeline@ == (TimelineView { author: author@, history: Map::empty() }),
    {
        let timeline = Timeline { author, history: HashMap::new() };
        assert(timeline@.history =~= Map::empty());
        timeline
    }

    /// The peer whose posts these are.
    pub fn author(&self) -> (author: &PeerId)
        ensures
            author@ == self@.author,
    {
        &self.author
    }

    /// The number of posts.
    pub fn len(&self) -> (n: usize)
        ensures
            n == self@.history.len(),
    {
        proof {
            self.lemma_len();
        }
        self.history.len()
    }

    /// Whether a post stands under `id`.
    pub fn contains(&self, id: PostId) -> (found: bool)
        ensures
            found == self@.history.contains_key(id),
    {
        self.history.contains_key(&id.0)
    }

    /// The post that stands under `id`, if there is one.
    pub fn get(&self, id: PostId) -> (found: Option<&Post>)
        ensures
            match found {
                Some(post) => self@.history.contains_key(id) && post@ == self@.history[id],
                None => !self@.history.contains_key(id),
            },
    {
        self.history.get(&id.0)
    }

    /// All posts of the timeline, each once, in no particular order.
    pub fn posts(&self) -> (posts: Vec<&Post>)
        requires
            self.wf(),
        ensures
            posts@.len() == self@.history.len(),
            forall|i: int|
                0 <= i < posts@.len() ==> self@.history.contains_key((#[trigger] posts@[i])@.id)
                    && self@.history[posts@[i]@.id] == posts@[i]@,
            forall|id: PostId|
                self@.history.contains_key(id) ==> exists|i: int|
                    0 <= i < posts@.len() && (#[trigger] posts@[i])@ == self@.history[id],
    {
        let mut posts: Vec<&Post> = Vec::new();
        for entry in it: self.history.iter()
            invariant
                posts@.len() == it.index(),
                forall|j: int| 0 <= j < posts@.len() ==> posts@[j] == it.seq()[j].1,
        {
            posts.push(entry.1);
        }
        proof {
            let entries = self.history.iter().remaining();
            self.lemma_len();
            assert forall|i: int| 0 <= i < posts@.len() implies self@.history.contains_key(
                (#[trigger] posts@[i])@.id,
            ) && self@.history[posts@[i]@.id] == posts@[i]@ by {
                let key = *entries[i].0;
                assert(self@.history.contains_key(PostId(key)));
            }
            assert forall|id: PostId| self@.history.contains_key(id) implies exists|i: int|
                0 <= i < posts@.len() && (#[trigger] posts@[i])@ == self@.history[id] by {
                let i = entries.index_of((&id.0, &self.history@[id.0]));
                assert(posts@[i]@ == self@.history[id]);
            }
        }
        posts
    }

    /// Files `post` under its identifier.
    pub(crate) fn insert(&mut self, post: Post)
        requires
            old(self).wf(),
            post@.author == old(self)@.author,
            !old(self)@.history.contains_key(post@.id),
        ensures
            final(self).wf(),
            final(self)@ == (TimelineView {
                author: old(self)@.author,
                history: old(self)@.history.insert(post@.id, post@),
            }),
    {
        let key = post.id().0;
        self.history.insert(key, post);
        assert(self@.history =~= old(self)@.history.insert(post@.id, post@));
    }
}

impl Clone for Timeline {
    fn clone(&self) -> (copy: Timeline)
        ensures
            copy@ == self@,
    {
        Timeline { author: self.author.clone(), history: self.history.clone() }
    }
}

} // verus!
