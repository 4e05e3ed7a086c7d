//! Posts, their identifiers and their timestamps.

use vstd::prelude::*;

use crate::outside::{is_random_uuid, random_uuid, utc_now};
use crate::peer::PeerId;

verus! {

/// The identifier of a post: 128 bits, chosen by whoever created the post.
#[derive(Clone, Copy, Debug, PartialEq, Eq, Hash, Structural)]
pub struct PostId(pub u128);

/// An instant: whole seconds since 1970-01-01 00:00:00 UTC and the
/// nanoseconds that have passed since that second began.
#[derive(Clone, Copy, Debug, PartialEq, Eq, Hash, Structural)]
pub struct Timestamp {
    pub secs: i64,
    pub nanos: u32,
}

impl Timestamp {
    /// Whether `self` lies strictly before `other`.
    pub open spec fn before(self, other: Timestamp) -> bool {
        self.secs < other.secs || (self.secs == other.secs && self.nanos < other.nanos)
    }

    /// Compares two instants.
    pub fn is_before(&self, other: &Timestamp) -> (earlier: bool)
        ensures
            earlier == self.before(*other),
    {
        self.secs < other.secs || (self.secs == other.secs && self.nanos < other.nanos)
    }
}

/// What a post says, as plain values.
pub struct PostView {
    pub id: PostId,
    pub author: Seq<u8>,
    pub content: Seq<char>,
    pub timestamp: Timestamp,
}

impl PostView {
    /// The same post carrying `now` as its timestamp.
    pub open spec fn stamped(self, now: Timestamp) -> PostView {
        PostView { timestamp: now, ..self }
    }
}

/// A single content item: an identifier, the author it claims, its text and
/// the time it carries.
#[derive(Debug, PartialEq)]
pub struct Post {
    id: PostId,
    author: PeerId,
    content: String,
    timestamp: Timestamp,
}

impl View for Post {
    type V = PostView;

    closed spec fn view(&self) -> PostView {
        PostView {
            id: self.id,
            author: self.author@,
            content: self.content@,
            timestamp: self.timestamp,
        }
    }
}

impl Post {
    /// Creates a post ready for submission: `author` is the author it
    /// claims, its identifier is a fresh random UUID and its timestamp is
    /// the time of its creation. Nothing is validated here; the store
    /// validates on submission, and puts its own timestamp on the post.
    pub fn new(author: PeerId, content: String) -> (post: Post)
        ensures
            post@.author == author@,
            post@.content == content@,
            is_random_uuid(post@.id.0),
    {
        let timestamp = utc_now();
        let id = PostId(random_uuid());
        Post::from_parts(id, author, content, timestamp)
    }

    /// Builds a post from all four of its parts.
    pub fn from_parts(id: PostId, author: PeerId, content: String, timestamp: Timestamp) -> (post:
        Post)
        ensures
            post@ == (PostView { id, author: author@, content: content@, timestamp }),
    {
        Post { id, author, content, timestamp }
    }

    /// The post's identifier.
    pub fn id(&self) -> (id: PostId)
        ensures
            id == self@.id,
    {
        self.id
    }

    /// The author that the post claims.
    pub fn author(&self) -> (author: &PeerId)
        ensures
            author@ == self@.author,
    {
        &self.author
    }

    /// The post's text.
    pub fn content(&self) -> (content: &String)
        ensures
            content@ == self@.content,
    {
        &self.content
    }

    /// The time that the post carries.
    pub fn timestamp(&self) -> (timestamp: Timestamp)
        ensures
            timestamp == self@.timestamp,
    {
        self.timestamp
    }

    /// Replaces the post's text and leaves the rest as it is.
    pub fn set_content(&mut self, content: String)
        ensures
            final(self)@ == (PostView { content: content@, ..old(self)@ }),
    {
        self.content = content;
    }

    /// Replaces the post's timestamp and leaves the rest as it is.
    pub fn set_timestamp(&mut self, timestamp: Timestamp)
        ensures
            final(self)@ == old(self)@.stamped(timestamp),
    {
        self.timestamp = timestamp;
    }
}

impl Clone for Post {
    fn clone(&self) -> (copy: Post)
        ensures
            copy@ == self@,
    {
        Post {
            id: self.id,
            author: self.author.clone(),
            content: self.content.clone(),
            timestamp: self.timestamp,
        }
    }
}

} // verus!
