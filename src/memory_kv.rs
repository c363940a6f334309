//! A fixed table from DNS names to IPv4 addresses, with the lookup that a
//! table-backed DNS handler makes.
use vstd::prelude::*;

use crate::resolver::ARecord;

verus! {

/// Time to live, in seconds, of the records answered from a table.
pub const TABLE_RECORD_TTL: u32 = 60;

/// The map that a list of entries gives, a later entry overriding an earlier
/// one with the same name.
pub open spec fn entries_map(s: Seq<(String, [u8; 4])>) -> Map<Seq<char>, [u8; 4]>
    decreases s.len(),
{
    if s.len() == 0 {
        Map::empty()
    } else {
        entries_map(s.drop_last()).insert(s.last().0@, s.last().1)
    }
}

/// A table from names to IPv4 addresses.
pub struct MemoryKV {
    store: Vec<(String, [u8; 4])>,
}

impl View for MemoryKV {
    type V = Map<Seq<char>, [u8; 4]>;

    closed spec fn view(&self) -> Map<Seq<char>, [u8; 4]> {
        entries_map(self.store@)
    }
}

/// Where no entry after `i` has the name `k`, the map after replacing entry `i`
/// by `(k, v)` maps `k` to `v` and is otherwise unchanged.
proof fn lemma_entries_update(s: Seq<(String, [u8; 4])>, i: int, e: (String, [u8; 4]))
    requires
        0 <= i < s.len(),
        s[i].0@ == e.0@,
        forall|j: int| i < j < s.len() ==> (#[trigger] s[j]).0@ != e.0@,
    ensures
        entries_map(s.update(i, e)) == entries_map(s).insert(e.0@, e.1),
    decreases s.len(),
{
    let u = s.update(i, e);
    if i == s.len() - 1 {
        assert(u.drop_last() =~= s.drop_last());
        assert(entries_map(u) =~= entries_map(s).insert(e.0@, e.1));
    } else {
        assert(u.drop_last() =~= s.drop_last().update(i, e));
        assert(s.last() == s[s.len() - 1]);
        lemma_entries_update(s.drop_last(), i, e);
        assert(entries_map(u) =~= entries_map(s).insert(e.0@, e.1));
    }
}

/// The entry of `s` for `k` that `entries_map` keeps is the last one, where the
/// entries from `i` on do not name `k`.
proof fn lemma_entries_prefix(s: Seq<(String, [u8; 4])>, i: int, k: Seq<char>)
    requires
        0 <= i <= s.len(),
        forall|j: int| i <= j < s.len() ==> (#[trigger] s[j]).0@ != k,
    ensures
        entries_map(s).contains_key(k) == entries_map(s.take(i)).contains_key(k),
        entries_map(s).contains_key(k) ==> entries_map(s)[k] == entries_map(s.take(i))[k],
    decreases s.len() - i,
{
    if i < s.len() {
        assert(s.take(i + 1).drop_last() =~= s.take(i));
        assert(s.take(i + 1).last() == s[i]);
        lemma_entries_prefix(s, i + 1, k);
    } else {
        assert(s.take(i) =~= s);
    }
}

impl MemoryKV {
    pub fn new() -> (r: MemoryKV)
        ensures
            r@ == Map::<Seq<char>, [u8; 4]>::empty(),
    {
        MemoryKV { store: Vec::new() }
    }

    /// The index of the last entry named `key`.
    fn last_index_of(&self, key: &str) -> (r: Option<usize>)
        ensures
            match r {
                Some(i) => i < self.store@.len() && self.store@[i as int].0@ == key@
                    && forall|j: int| i < j < self.store@.len() ==> (#[trigger] self.store@[j]).0@ != key@,
                None => forall|j: int| 0 <= j < self.store@.len() ==> (#[trigger] self.store@[j]).0@ != key@,
            },
    {
        let target = String::from_str(key);
        let mut i: usize = self.store.len();
        while i > 0
            invariant
                i <= self.store@.len(),
                target@ == key@,
                forall|j: int| i <= j < self.store@.len() ==> (#[trigger] self.store@[j]).0@ != key@,
            decreases i,
        {
            if self.store[i - 1].0.eq(&target) {
                return Some(i - 1);
            }
            i = i - 1;
        }
        None
    }

    pub fn set(&mut self, key: String, value: [u8; 4])
        ensures
            final(self)@ == old(self)@.insert(key@, value),
    {
        match self.last_index_of(key.as_str()) {
            Some(i) => {
                proof { lemma_entries_update(self.store@, i as int, (key, value)); }
                self.store.set(i, (key, value));
            },
            None => {
                self.store.push((key, value));
                assert(self.store@.drop_last() =~= old(self).store@);
            },
        }
    }

    pub fn get(&self, key: &str) -> (r: Option<[u8; 4]>)
        ensures
            r == (if self@.contains_key(key@) { Some(self@[key@]) } else { None::<[u8; 4]> }),
    {
        match self.last_index_of(key) {
            Some(i) => {
                proof {
                    lemma_entries_prefix(self.store@, i + 1, key@);
                    assert(self.store@.take(i + 1).drop_last() =~= self.store@.take(i as int));
                    assert(self.store@.take(i + 1).last() == self.store@[i as int]);
                }
                Some(self.store[i].1)
            },
            None => {
                proof {
                    lemma_entries_prefix(self.store@, 0, key@);
                    assert(self.store@.take(0) =~= Seq::<(String, [u8; 4])>::empty());
                }
                None
            },
        }
    }

    pub fn clear(&mut self)
        ensures
            final(self)@ == Map::<Seq<char>, [u8; 4]>::empty(),
    {
        self.store = Vec::new();
    }

    /// The record that the table answers for the query name `name`: its address,
    /// with a time to live of a minute; none where the name is not in the table.
    pub fn matched_record(&self, name: &str) -> (r: Option<ARecord>)
        ensures
            match r {
                Some(rec) => self@.contains_key(name@) && rec.address == self@[name@] && rec.ttl == TABLE_RECORD_TTL,
                None => !self@.contains_key(name@),
            },
    {
        match self.get(name) {
            Some(address) => Some(ARecord { address, ttl: TABLE_RECORD_TTL }),
            None => None,
        }
    }
}

} // verus!
