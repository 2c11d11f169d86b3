//! The mathematical model of a slab: the keyed store that the agent keeps its
//! transfers and its sockets in.
use vstd::prelude::*;

verus! {

/// The type of the slab crate's store. Nothing is known of its inside.
#[verifier::external_type_specification]
#[verifier::external_body]
#[verifier::reject_recursive_types(T)]
pub struct ExSlab<T>(slab::Slab<T>);

/// What a slab holds, and which keys it will hand out again.
#[verifier::ext_equal]
pub struct SlabModel<V> {
    /// The occupied keys and the value that each of them holds.
    pub entries: Map<usize, V>,
    /// The keys that were handed out once and are free now. The last one is
    /// handed out first.
    pub vacant: Seq<usize>,
}

impl<V> SlabModel<V> {
    /// The slab that holds nothing and has handed out no key.
    pub open spec fn empty() -> SlabModel<V> {
        SlabModel { entries: Map::empty(), vacant: Seq::empty() }
    }

    /// Whether no key is occupied.
    pub open spec fn is_empty(self) -> bool {
        self.entries == Map::<usize, V>::empty()
    }

    /// How many keys were handed out at least once.
    pub open spec fn allocated(self) -> nat {
        self.entries.dom().len() + self.vacant.len()
    }

    /// The key that the next insertion gets: the one vacated last, or else the
    /// smallest that was never handed out.
    pub open spec fn next_key(self) -> int {
        if self.vacant.len() > 0 {
            self.vacant.last() as int
        } else {
            self.allocated() as int
        }
    }

    /// The slab after the insertion of `value`.
    pub open spec fn insert(self, value: V) -> SlabModel<V> {
        SlabModel {
            entries: self.entries.insert(self.next_key() as usize, value),
            vacant: if self.vacant.len() > 0 {
                self.vacant.drop_last()
            } else {
                self.vacant
            },
        }
    }

    /// The slab after the removal of the occupied key `key`.
    pub open spec fn remove(self, key: usize) -> SlabModel<V> {
        SlabModel { entries: self.entries.remove(key), vacant: self.vacant.push(key) }
    }

    /// The slab after the value under the occupied key `key` became `value`.
    pub open spec fn update(self, key: usize, value: V) -> SlabModel<V> {
        SlabModel { entries: self.entries.insert(key, value), vacant: self.vacant }
    }

    /// Exactly the keys below `allocated` were handed out; each of them is
    /// either occupied or vacant, and listed as vacant once.
    pub open spec fn wf(self) -> bool {
        &&& self.entries.dom().finite()
        &&& self.vacant.no_duplicates()
        &&& forall|k: usize| #[trigger] self.vacant.contains(k) ==> !self.entries.contains_key(k)
        &&& forall|k: usize| #[trigger] self.entries.contains_key(k) ==> k < self.allocated()
        &&& forall|k: usize| #[trigger] self.vacant.contains(k) ==> k < self.allocated()
    }
}

/// The empty slab is well formed.
pub proof fn lemma_empty_wf<V>()
    ensures
        SlabModel::<V>::empty().wf(),
        SlabModel::<V>::empty().next_key() == 0,
{
}

/// The key of the next insertion is not occupied.
pub proof fn lemma_next_key_is_free<V>(s: SlabModel<V>, key: usize)
    requires
        s.wf(),
        s.next_key() == key,
    ensures
        !s.entries.contains_key(key),
{
    if s.vacant.len() > 0 {
        assert(s.vacant.contains(s.vacant.last()));
    }
}

/// Insertion keeps a slab well formed.
pub proof fn lemma_insert_wf<V>(s: SlabModel<V>, value: V)
    requires
        s.wf(),
        0 <= s.next_key() <= usize::MAX,
    ensures
        s.insert(value).wf(),
        s.insert(value).entries[s.next_key() as usize] == value,
{
    let key = s.next_key() as usize;
    let t = s.insert(value);
    lemma_next_key_is_free(s, key);
    assert(t.entries.dom() =~= s.entries.dom().insert(key));
    if s.vacant.len() > 0 {
        assert(s.vacant.contains(s.vacant.last()));
        assert(t.allocated() == s.allocated());
        assert forall|k: usize| #[trigger] t.vacant.contains(k) implies s.vacant.contains(k)
            && k != key by {
            let i = t.vacant.index_of(k);
            assert(s.vacant[i] == k);
        }
    } else {
        assert(t.allocated() == s.allocated() + 1);
    }
}

/// Removal of an occupied key keeps a slab well formed.
pub proof fn lemma_remove_wf<V>(s: SlabModel<V>, key: usize)
    requires
        s.wf(),
        s.entries.contains_key(key),
    ensures
        s.remove(key).wf(),
        s.remove(key).next_key() == key,
{
    let t = s.remove(key);
    assert(t.entries.dom() =~= s.entries.dom().remove(key));
    assert(t.allocated() == s.allocated());
    assert(!s.vacant.contains(key));
    assert forall|k: usize| #[trigger] t.vacant.contains(k) implies k == key
        || s.vacant.contains(k) by {
        let i = t.vacant.index_of(k);
        if i < s.vacant.len() {
            assert(s.vacant[i] == k);
        }
    }
    assert forall|i: int, j: int|
        0 <= i < t.vacant.len() && 0 <= j < t.vacant.len() && i != j implies t.vacant[i]
        != t.vacant[j] by {
        if i < s.vacant.len() && j < s.vacant.len() {
        } else if i < s.vacant.len() {
            assert(s.vacant.contains(s.vacant[i]));
        } else {
            assert(s.vacant.contains(s.vacant[j]));
        }
    }
}

/// A new value under an occupied key keeps a slab well formed.
pub proof fn lemma_update_wf<V>(s: SlabModel<V>, key: usize, value: V)
    requires
        s.wf(),
        s.entries.contains_key(key),
    ensures
        s.update(key, value).wf(),
{
    assert(s.update(key, value).entries.dom() =~= s.entries.dom());
}

} // verus!
