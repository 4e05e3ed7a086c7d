//! The store: every peer's timeline, and the one operation that changes it.

use vstd::prelude::*;

use crate::laws::law_invariant_kept;
use crate::outside::utc_now;
use crate::order::{
    ascending, lemma_ascending_unique, lemma_precedes_irreflexive, lemma_precedes_total,
    lemma_precedes_transitive, precedes,
};
use crate::peer::PeerId;
use crate::post::{Post, Timestamp};
use crate::rules::{history_of, stamp_of, store_inv, submit, verdict, Snapshot, SubmitError};
use crate::timeline::{Timeline, TimelineView};

verus! {

/// The timelines of all peers that have ever had a post recorded.
///
/// They are kept in the dictionary order of their authors. So each peer has
/// one place, and two stores that hold the same timelines keep them in the
/// same order: stores that hold the same are equal.
#[derive(Debug, PartialEq)]
pub struct Timelines {
    inner: Vec<Timeline>,
}

impl View for Timelines {
    type V = Snapshot;

    closed spec fn view(&self) -> Snapshot {
        Map::new(
            |peer: Seq<u8>| self.authors().contains(peer),
            |peer: Seq<u8>| self.entries()[self.authors().index_of(peer)],
        )
    }
}

impl Timelines {
    /// What the timelines hold, in the order in which they are kept.
    pub closed spec fn entries(&self) -> Seq<TimelineView> {
        Seq::new(self.inner@.len(), |i: int| self.inner@[i]@)
    }

    /// The authors of the timelines, in the order in which they are kept.
    pub closed spec fn authors(&self) -> Seq<Seq<u8>> {
        Seq::new(self.inner@.len(), |i: int| self.inner@[i]@.author)
    }

    /// The timelines are kept in the dictionary order of their authors.
    pub closed spec fn ordered(&self) -> bool {
        ascending(self.authors())
    }

    /// The store's invariant: the timelines are kept in order, and what the
    /// store holds is what every store holds.
    pub open spec fn wf(&self) -> bool {
        self.ordered() && store_inv(self@)
    }

    /// No author is kept twice.
    proof fn lemma_distinct(&self)
        requires
            self.ordered(),
        ensures
            self.authors().no_duplicates(),
    {
        let authors = self.authors();
        assert forall|i: int, j: int|
            0 <= i < authors.len() && 0 <= j < authors.len() && i != j implies authors[i]
            != authors[j] by {
            // One of the two stands before the other, and nothing stands
            // before itself.
            if i < j {
                assert(precedes(authors[i], authors[j]));
            } else {
                assert(precedes(authors[j], authors[i]));
            }
            lemma_precedes_irreflexive(authors[i]);
        }
    }

    /// The timeline at position `i` stands under its author in the view.
    proof fn lemma_view_at(&self, i: int)
        requires
            self.ordered(),
            0 <= i < self.inner@.len(),
        ensures
            self@.contains_key(self.authors()[i]),
            self@[self.authors()[i]] == self.inner@[i]@,
    {
        self.lemma_distinct();
        assert(self.authors().index_of(self.authors()[i]) == i);
    }

    /// The peers of the view are the authors that are kept.
    proof fn lemma_peers(&self)
        ensures
            self@.dom() == self.authors().to_set(),
            self@.dom().finite(),
    {
        vstd::seq_lib::seq_to_set_is_finite(self.authors());
    }

    /// Stores that hold the same keep it in the same order.
    pub proof fn lemma_same_view_same_entries(&self, other: &Timelines)
        requires
            self.ordered(),
            other.ordered(),
            self@ == other@,
        ensures
            self.entries() == other.entries(),
    {
        // Both keep the peers of the one view in ascending order, so both
        // keep the same authors in the same places.
        self.lemma_peers();
        other.lemma_peers();
        lemma_ascending_unique(self.authors(), other.authors());
        assert forall|i: int| 0 <= i < self.entries().len() implies self.entries()[i]
            == other.entries()[i] by {
            self.lemma_view_at(i);
            other.lemma_view_at(i);
        }
    }

    /// Putting a timeline in the place of one with the same author changes
    /// that one entry.
    proof fn lemma_replace(before: Timelines, after: Timelines, i: int)
        requires
            before.ordered(),
            0 <= i < before.inner@.len(),
            after.inner@ == before.inner@.update(i, after.inner@[i]),
            after.inner@[i]@.author == before.inner@[i]@.author,
        ensures
            after.ordered(),
            after@ == before@.insert(before.inner@[i]@.author, after.inner@[i]@),
    {
        let peer = before.authors()[i];
        let next = before@.insert(peer, after.inner@[i]@);
        assert(after.authors() =~= before.authors());
        assert forall|other: Seq<u8>| after@.contains_key(other) implies #[trigger] after@[other]
            == next[other] by {
            let j = after.authors().index_of(other);
            after.lemma_view_at(j);
            before.lemma_view_at(j);
        }
    }

    /// Putting in a timeline where its author belongs in the order adds that
    /// one entry.
    proof fn lemma_insert(before: Timelines, after: Timelines, at: int, timeline: Timeline)
        requires
            before.ordered(),
            0 <= at <= before.inner@.len(),
            forall|j: int|
                0 <= j < at ==> precedes(#[trigger] before.authors()[j], timeline@.author),
            forall|j: int|
                at <= j < before.inner@.len() ==> precedes(
                    timeline@.author,
                    #[trigger] before.authors()[j],
                ),
            after.inner@ == before.inner@.insert(at, timeline),
        ensures
            after.ordered(),
            after@ == before@.insert(timeline@.author, timeline@),
    {
        let peer = timeline@.author;
        let next = before@.insert(peer, timeline@);
        assert(after.authors() =~= before.authors().insert(at, peer));
        assert forall|i: int, j: int| 0 <= i < j < after.authors().len() implies precedes(
            #[trigger] after.authors()[i],
            #[trigger] after.authors()[j],
        ) by {
            // Both stood in this order before, or one of them is the new
            // author, which was put where it belongs.
            let i0 = if i < at { i } else { i - 1 };
            let j0 = if j < at { j } else { j - 1 };
            if i != at && j != at {
                assert(precedes(before.authors()[i0], before.authors()[j0]));
            }
        }
        assert forall|other: Seq<u8>| after@.contains_key(other) implies next.contains_key(other)
            && #[trigger] after@[other] == next[other] by {
            let j = after.authors().index_of(other);
            after.lemma_view_at(j);
            if j != at {
                before.lemma_view_at(if j < at { j } else { j - 1 });
            }
        }
        assert forall|other: Seq<u8>| next.contains_key(other) implies after@.contains_key(
            other,
        ) by {
            if other == peer {
                assert(after.authors()[at] == peer);
            } else {
                let j = before.authors().index_of(other);
                let j1 = if j < at { j } else { j + 1 };
                assert(after.authors()[j1] == other);
            }
        }
    }

    /// A store without timelines.
    pub fn new() -> (store: Timelines)
        ensures
            store.wf(),
            store@ == Map::<Seq<u8>, TimelineView>::empty(),
    {
        let store = Timelines { inner: Vec::new() };
        proof {
            store.lemma_peers();
            assert(store@ =~= Map::<Seq<u8>, TimelineView>::empty());
        }
        store
    }

    /// The number of peers that have a timeline.
    pub fn len(&self) -> (n: usize)
        requires
            self.wf(),
        ensures
            n == self@.len(),
    {
        proof {
            self.lemma_peers();
            self.lemma_distinct();
            self.authors().unique_seq_to_set();
        }
        self.inner.len()
    }

    /// Where the timeline of `id` is kept, or where it belongs if `id` has
    /// none: the place after all authors that stand before `id`.
    fn search(&self, id: &PeerId) -> (place: (usize, bool))
        requires
            self.ordered(),
        ensures
            place.0 <= self.inner@.len(),
            forall|j: int| 0 <= j < place.0 ==> precedes(#[trigger] self.authors()[j], id@),
            place.1 ==> place.0 < self.inner@.len() && self.authors()[place.0 as int] == id@
                && self@.contains_key(id@) && self@[id@] == self.inner@[place.0 as int]@,
            !place.1 ==> !self@.contains_key(id@) && forall|j: int|
                place.0 <= j < self.inner@.len() ==> precedes(id@, #[trigger] self.authors()[j]),
    {
        let mut low: usize = 0;
        let mut high: usize = self.inner.len();
        while low < high
            invariant
                self.ordered(),
                low <= high <= self.inner@.len(),
                forall|j: int| 0 <= j < low ==> precedes(#[trigger] self.authors()[j], id@),
                forall|j: int|
                    high <= j < self.inner@.len() ==> !precedes(#[trigger] self.authors()[j], id@),
            decreases high - low,
        {
            let middle = low + (high - low) / 2;
            if self.inner[middle].author().precedes(id) {
                assert forall|j: int| 0 <= j <= middle implies precedes(
                    #[trigger] self.authors()[j],
                    id@,
                ) by {
                    if j < middle {
                        let at_middle = self.authors()[middle as int];
                        lemma_precedes_transitive(self.authors()[j], at_middle, id@);
                    }
                }
                low = middle + 1;
            } else {
                assert forall|j: int| middle <= j < self.inner@.len() implies !precedes(
                    #[trigger] self.authors()[j],
                    id@,
                ) by {
                    if j > middle && precedes(self.authors()[j], id@) {
                        let at_middle = self.authors()[middle as int];
                        lemma_precedes_transitive(at_middle, self.authors()[j], id@);
                    }
                }
                high = middle;
            }
        }
        let found = low < self.inner.len() && self.inner[low].author() == id;
        proof {
            if found {
                self.lemma_view_at(low as int);
            } else {
                assert forall|j: int| low <= j < self.inner@.len() implies precedes(
                    id@,
                    #[trigger] self.authors()[j],
                ) by {
                    let at_low = self.authors()[low as int];
                    lemma_precedes_total(at_low, id@);
                    if j > low {
                        lemma_precedes_transitive(id@, at_low, self.authors()[j]);
                    }
                }
                if self@.contains_key(id@) {
                    let j = self.authors().index_of(id@);
                    assert(self.authors()[j] == id@);
                    lemma_precedes_irreflexive(id@);
                }
            }
        }
        (low, found)
    }

    /// The timeline of `id`, if it has one.
    pub fn get(&self, id: &PeerId) -> (found: Option<&Timeline>)
        requires
            self.wf(),
        ensures
            match found {
                Some(timeline) => self@.contains_key(id@) && timeline@ == self@[id@]
                    && timeline.wf(),
                None => !self@.contains_key(id@),
            },
    {
        let (at, found) = self.search(id);
        if found {
            Some(&self.inner[at])
        } else {
            None
        }
    }

    /// The timeline of `id` for writing, begun empty if `id` has none yet.
    /// What is written into it stands in the store afterwards, under `id`
    /// as long as it keeps its author.
    fn get_mut(&mut self, id: &PeerId) -> (timeline: &mut Timeline)
        requires
            old(self).wf(),
        ensures
            timeline.wf(),
            timeline@.author == id@,
            timeline@.history == history_of(old(self)@, id@),
            final(timeline)@.author == id@ ==> final(self).ordered()
                && final(self)@ == old(self)@.insert(id@, final(timeline)@),
    {
        let (at, found) = self.search(id);
        if !found {
            let empty = Timeline::new(id.clone());
            self.inner.insert(at, empty);
            proof {
                Self::lemma_insert(*old(self), *self, at as int, empty);
            }
        }
        proof {
            let before = *self;
            assert forall|after: Timelines|
                after.inner@ == before.inner@.update(at as int, after.inner@[at as int])
                    && after.inner@[at as int]@.author == id@ implies #[trigger] after.ordered()
                && after@ == old(self)@.insert(id@, after.inner@[at as int]@) by {
                Self::lemma_replace(before, after, at as int);
            }
        }
        &mut self.inner[at]
    }

    /// Records the submission of `post` under `id`: at the time `at` where
    /// one is given, else at the time that the clock shows when the post is
    /// filed. The clock is read for a post that is admitted, and not
    /// otherwise.
    fn file(&mut self, id: &PeerId, post: Post, at: Option<Timestamp>) -> (outcome: Result<
        (),
        SubmitError,
    >)
        requires
            old(self).wf(),
        ensures
            final(self).wf(),
            outcome == verdict(old(self)@, id@, post@),
            final(self)@ == submit(
                old(self)@,
                id@,
                post@,
                match at {
                    Some(now) => now,
                    None => stamp_of(final(self)@, id@, post@.id),
                },
            ),
    {
        proof {
            assert forall|now: Timestamp| #[trigger]
                store_inv(submit(old(self)@, id@, post@, now)) by {
                law_invariant_kept(old(self)@, id@, post@, now);
            }
        }
        // The author must be who the post says it is.
        if !(post.author() == id) {
            return Err(SubmitError::AuthorshipMismatch);
        }
        let mut post = post;
        let timeline = self.get_mut(id);
        // A post that is held is not written over.
        if timeline.contains(post.id()) {
            return Err(SubmitError::DuplicatePost);
        }
        let now = match at {
            Some(now) => now,
            None => utc_now(),
        };
        post.set_timestamp(now);
        timeline.insert(post);
        Ok(())
    }

    /// Records the submission of `post` under `id` at the time `now`.
    ///
    /// The post is admitted if it claims `id` as its author and the timeline
    /// of `id` holds no post with its identifier yet; it is then filed with
    /// `now` as its timestamp, whatever timestamp it came with, in a
    /// timeline that is begun if `id` had none. A post that is not admitted
    /// changes nothing.
    pub fn record(&mut self, id: &PeerId, post: Post, now: Timestamp) -> (outcome: Result<
        (),
        SubmitError,
    >)
        requires
            old(self).wf(),
        ensures
            final(self).wf(),
            outcome == verdict(old(self)@, id@, post@),
            final(self)@ == submit(old(self)@, id@, post@, now),
    {
        self.file(id, post, Some(now))
    }

    /// Records the submission of `post` under `id` at the present time: as
    /// [`Timelines::record`] does, with the time that the clock shows when
    /// the post is filed.
    pub fn create_post(&mut self, id: &PeerId, post: Post) -> (outcome: Result<(), SubmitError>)
        requires
            old(self).wf(),
        ensures
            final(self).wf(),
            outcome == verdict(old(self)@, id@, post@),
            final(self)@ == submit(
                old(self)@,
                id@,
                post@,
                stamp_of(final(self)@, id@, post@.id),
            ),
    {
        self.file(id, post, None)
    }
}

impl Default for Timelines {
    fn default() -> (store: Timelines)
        ensures
            store.wf(),
            store@ == Map::<Seq<u8>, TimelineView>::empty(),
    {
        Timelines::new()
    }
}

impl Clone for Timelines {
    fn clone(&self) -> (copy: Timelines)
        ensures
            copy@ == self@,
            self.wf() ==> copy.wf(),
    {
        let copy = Timelines { inner: self.inner.clone() };
        proof {
            assert forall|i: int| 0 <= i < self.inner@.len() implies copy.inner@[i]@
                == self.inner@[i]@ by {
            }
            assert(copy.authors() =~= self.authors());
        }
        copy
    }
}

} // verus!
