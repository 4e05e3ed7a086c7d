use std::collections::BTreeMap;

use timeline::{PeerId, Post, PostId, SubmitError, Timelines, Timestamp};

/// Numbers that look random and are the same on every run.
struct Numbers(u64);

impl Numbers {
    fn next(&mut self, below: u64) -> u64 {
        self.0 = self
            .0
            .wrapping_mul(6364136223846793005)
            .wrapping_add(1442695040888963407);
        (self.0 >> 33) % below
    }

    /// A short byte string from a small alphabet, so that peers recur.
    fn peer(&mut self) -> Vec<u8> {
        let len = self.next(4);
        (0..len).map(|_| self.next(3) as u8 * 100).collect()
    }
}

type Model = BTreeMap<Vec<u8>, BTreeMap<u128, (String, Timestamp)>>;

fn assert_same(store: &Timelines, model: &Model) {
    assert_eq!(store.len(), model.len());
    for (peer, history) in model {
        let id = PeerId::from_bytes(peer.clone());
        let timeline = store.get(&id).unwrap();
        assert_eq!(timeline.author(), &id);
        assert_eq!(timeline.len(), history.len());
        assert_eq!(timeline.posts().len(), history.len());
        for post in timeline.posts() {
            let (content, stamp) = &history[&post.id().0];
            assert_eq!(post.content(), content);
            assert_eq!(post.timestamp(), *stamp);
            assert_eq!(post.author(), &id);
        }
        for (key, (content, stamp)) in history {
            let post = timeline.get(PostId(*key)).unwrap();
            assert_eq!(post.id(), PostId(*key));
            assert_eq!(post.content(), content);
            assert_eq!(post.timestamp(), *stamp);
        }
    }
}

#[test]
fn store_agrees_with_a_plain_map_on_many_submissions() {
    let mut numbers = Numbers(0x2545_F491_4F6C_DD1D);
    let mut store = Timelines::new();
    let mut model = Model::new();
    let mut admitted = 0;
    let mut forged = 0;
    let mut repeated = 0;

    for step in 0..3000i64 {
        let target = numbers.peer();
        let author = if numbers.next(4) == 0 { numbers.peer() } else { target.clone() };
        let key = numbers.next(12) as u128;
        let content = format!("post {step}");
        let now = Timestamp { secs: step, nanos: numbers.next(1_000_000_000) as u32 };
        let post = Post::from_parts(
            PostId(key),
            PeerId::from_bytes(author.clone()),
            content.clone(),
            Timestamp { secs: -1, nanos: 0 },
        );

        let outcome = store.record(&PeerId::from_bytes(target.clone()), post, now);

        let expected = if author != target {
            forged += 1;
            Err(SubmitError::AuthorshipMismatch)
        } else if model.get(&target).map_or(false, |history| history.contains_key(&key)) {
            repeated += 1;
            Err(SubmitError::DuplicatePost)
        } else {
            admitted += 1;
            model.entry(target).or_default().insert(key, (content, now));
            Ok(())
        };
        assert_eq!(outcome, expected);
        if step % 250 == 0 {
            assert_same(&store, &model);
        }
    }

    assert_same(&store, &model);
    assert!(admitted > 100 && forged > 100 && repeated > 100);
    assert!(store.get(&PeerId::from_bytes(vec![1])).is_none());
}

#[test]
fn the_order_of_arrival_does_not_show() {
    let mut numbers = Numbers(7);
    let mut posts = Vec::new();
    for key in 0..200u128 {
        let peer = PeerId::from_bytes(numbers.peer());
        let post = Post::from_parts(
            PostId(key),
            peer.clone(),
            format!("{key}"),
            Timestamp { secs: 0, nanos: 0 },
        );
        posts.push((peer, post));
    }
    let at = Timestamp { secs: 5, nanos: 5 };

    let mut forwards = Timelines::new();
    for (peer, post) in posts.iter() {
        assert_eq!(forwards.record(peer, post.clone(), at), Ok(()));
    }
    let mut backwards = Timelines::new();
    for (peer, post) in posts.iter().rev() {
        assert_eq!(backwards.record(peer, post.clone(), at), Ok(()));
    }

    assert_eq!(forwards, backwards);
}
