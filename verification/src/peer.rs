//! Peer identifiers.

use vstd::prelude::*;

use crate::order::{agree, precedes};

verus! {

/// The identifier of a participant: an opaque byte string handed out by the
/// identity system. Two identifiers name the same peer exactly when their
/// bytes agree.
#[derive(Debug, Eq, Hash)]
pub struct PeerId {
    bytes: Vec<u8>,
}

impl View for PeerId {
    type V = Seq<u8>;

    closed spec fn view(&self) -> Seq<u8> {
        self.bytes@
    }
}

impl PeerId {
    /// Wraps the bytes of an identifier.
    pub fn from_bytes(bytes: Vec<u8>) -> (id: PeerId)
        ensures
            id@ == bytes@,
    {
        PeerId { bytes }
    }

    /// The bytes of the identifier.
    pub fn as_bytes(&self) -> (bytes: &Vec<u8>)
        ensures
            bytes@ == self@,
    {
        &self.bytes
    }

    /// Whether this identifier stands before `other` in dictionary order.
    pub fn precedes(&self, other: &PeerId) -> (before: bool)
        ensures
            before == precedes(self@, other@),
    {
        let mut i: usize = 0;
        while i < self.bytes.len() && i < other.bytes.len()
            invariant
                agree(self@, other@, i as int),
            decreases self.bytes.len() - i,
        {
            if self.bytes[i] != other.bytes[i] {
                return self.bytes[i] < other.bytes[i];
            }
            i += 1;
        }
        i < other.bytes.len()
    }
}

impl Clone for PeerId {
    fn clone(&self) -> (copy: PeerId)
        ensures
            copy@ == self@,
    {
        PeerId { bytes: self.bytes.clone() }
    }
}

impl PartialEq for PeerId {
    fn eq(&self, other: &PeerId) -> (same: bool) {
        if self.bytes.len() != other.bytes.len() {
            return false;
        }
        let mut i: usize = 0;
        while i < self.bytes.len()
            invariant
                i <= self.bytes.len(),
                self.bytes.len() == other.bytes.len(),
                forall|j: int| 0 <= j < i ==> self.bytes@[j] == other.bytes@[j],
            decreases self.bytes.len() - i,
        {
            if self.bytes[i] != other.bytes[i] {
                return false;
            }
            i += 1;
        }
        assert(self.bytes@ =~= other.bytes@);
        true
    }
}

impl vstd::std_specs::cmp::PartialEqSpecImpl for PeerId {
    open spec fn obeys_eq_spec() -> bool {
        true
    }

    open spec fn eq_spec(&self, other: &PeerId) -> bool {
        self@ == other@
    }
}

} // verus!
