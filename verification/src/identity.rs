//! Identities of players and content hashes of records, as raw bytes.
//!
//! The engine never looks inside an identity: it only asks whether two of
//! them are the same. Every contract therefore speaks of an identity through
//! its view, the sequence of its bytes.

use vstd::prelude::*;

verus! {

/// Whether two byte strings hold the same bytes.
pub fn bytes_equal(a: &Vec<u8>, b: &Vec<u8>) -> (same: bool)
    ensures
        same == (a@ == b@),
{
    if a.len() != b.len() {
        return false;
    }
    let mut i: usize = 0;
    while i < a.len()
        invariant
            a.len() == b.len(),
            i <= a.len(),
            forall|k: int| 0 <= k < i ==> a@[k] == b@[k],
        decreases a.len() - i,
    {
        if a[i] != b[i] {
            return false;
        }
        i += 1;
    }
    assert(a@ =~= b@);
    true
}

/// The public key under which a player signs records.
#[derive(Clone, Debug, PartialEq, Eq, Hash)]
pub struct AgentKey {
    pub bytes: Vec<u8>,
}

impl View for AgentKey {
    type V = Seq<u8>;

    open spec fn view(&self) -> Seq<u8> {
        self.bytes@
    }
}

impl DeepView for AgentKey {
    type V = Seq<u8>;

    open spec fn deep_view(&self) -> Seq<u8> {
        self.bytes@
    }
}

impl AgentKey {
    pub fn new(bytes: Vec<u8>) -> (key: AgentKey)
        ensures
            key@ == bytes@,
    {
        AgentKey { bytes }
    }

    /// Whether both keys name the same player.
    pub fn same_as(&self, other: &AgentKey) -> (same: bool)
        ensures
            same == (self@ == other@),
    {
        bytes_equal(&self.bytes, &other.bytes)
    }

    /// A copy of the key.
    pub fn duplicate(&self) -> (copy: AgentKey)
        ensures
            copy@ == self@,
    {
        AgentKey { bytes: self.bytes.clone() }
    }
}

/// The content hash under which the store holds a record.
#[derive(Clone, Debug, PartialEq, Eq, Hash)]
pub struct RecordHash {
    pub bytes: Vec<u8>,
}

impl View for RecordHash {
    type V = Seq<u8>;

    open spec fn view(&self) -> Seq<u8> {
        self.bytes@
    }
}

impl DeepView for RecordHash {
    type V = Seq<u8>;

    open spec fn deep_view(&self) -> Seq<u8> {
        self.bytes@
    }
}

impl RecordHash {
    pub fn new(bytes: Vec<u8>) -> (hash: RecordHash)
        ensures
            hash@ == bytes@,
    {
        RecordHash { bytes }
    }

    /// Whether both hashes name the same record.
    pub fn same_as(&self, other: &RecordHash) -> (same: bool)
        ensures
            same == (self@ == other@),
    {
        bytes_equal(&self.bytes, &other.bytes)
    }

    /// A copy of the hash.
    pub fn duplicate(&self) -> (copy: RecordHash)
        ensures
            copy@ == self@,
    {
        RecordHash { bytes: self.bytes.clone() }
    }
}

/// A copy of a list of keys.
pub fn duplicate_keys(keys: &Vec<AgentKey>) -> (copy: Vec<AgentKey>)
    ensures
        copy.deep_view() == keys.deep_view(),
{
    let mut copy: Vec<AgentKey> = Vec::new();
    let mut i: usize = 0;
    while i < keys.len()
        invariant
            i <= keys.len(),
            copy.len() == i,
            forall|k: int| 0 <= k < i ==> copy@[k]@ == keys@[k]@,
        decreases keys.len() - i,
    {
        copy.push(keys[i].duplicate());
        i += 1;
    }
    assert(copy.deep_view() =~= keys.deep_view());
    copy
}

/// A copy of a byte string.
pub fn duplicate_bytes(bytes: &Vec<u8>) -> (copy: Vec<u8>)
    ensures
        copy@ == bytes@,
{
    bytes.clone()
}

/// A copy of an optional hash.
pub fn duplicate_optional_hash(hash: &Option<RecordHash>) -> (copy: Option<RecordHash>)
    ensures
        copy.deep_view() == hash.deep_view(),
{
    match hash {
        Some(h) => Some(h.duplicate()),
        None => None,
    }
}

/// `i` is the first position at which `keys` holds `key`.
pub open spec fn is_first_position(keys: Seq<Seq<u8>>, key: Seq<u8>, i: int) -> bool {
    &&& 0 <= i < keys.len()
    &&& keys[i] == key
    &&& forall|j: int| 0 <= j < i ==> keys[j] != key
}

/// The first position at which `keys` holds `key`, if it holds it at all.
pub open spec fn first_position(keys: Seq<Seq<u8>>, key: Seq<u8>) -> Option<int> {
    if exists|i: int| is_first_position(keys, key, i) {
        Some(choose|i: int| is_first_position(keys, key, i))
    } else {
        None
    }
}

/// A key has at most one first position.
pub proof fn lemma_first_position_is_unique(keys: Seq<Seq<u8>>, key: Seq<u8>, i: int)
    requires
        is_first_position(keys, key, i),
    ensures
        first_position(keys, key) == Some(i),
{
    let chosen = choose|j: int| is_first_position(keys, key, j);
    if chosen < i {
        assert(keys[chosen] != key);
    } else if i < chosen {
        assert(keys[i] != key);
    }
}

} // verus!
