//! An in-memory key-value store with the interface of the node's chain-state
//! database (string keys, byte values).

use vstd::prelude::*;

verus! {

/// An in-memory key-value store from string keys to byte values. It holds
/// what the node's state database holds for the modules that use it; it is
/// not written to disk.
pub struct Storage {
    entries: Vec<(String, Vec<u8>)>,
    contents: Ghost<Map<Seq<char>, Seq<u8>>>,
}

/// `entries` holds each key at most once and lists exactly the bindings of
/// `contents`.
spec fn entries_match(entries: Seq<(String, Vec<u8>)>, contents: Map<Seq<char>, Seq<u8>>) -> bool {
    &&& forall|i: int, j: int|
        0 <= i < j < entries.len() ==> #[trigger] entries[i].0@ != #[trigger] entries[j].0@
    &&& forall|i: int|
        0 <= i < entries.len() ==> contents.contains_key(#[trigger] entries[i].0@)
            && contents[entries[i].0@] == entries[i].1@
    &&& forall|k: Seq<char>|
        #[trigger] contents.contains_key(k) ==> exists|i: int|
            0 <= i < entries.len() && #[trigger] entries[i].0@ == k
}

impl View for Storage {
    type V = Map<Seq<char>, Seq<u8>>;

    closed spec fn view(&self) -> Map<Seq<char>, Seq<u8>> {
        self.contents@
    }
}

impl Storage {
    /// Each key occurs at most once, every entry is recorded in the contents
    /// map, and every key of the map has an entry.
    #[verifier::type_invariant]
    closed spec fn well_formed(self) -> bool {
        entries_match(self.entries@, self.contents@)
    }

    /// An empty store.
    pub fn new() -> (s: Self)
        ensures
            s@ == Map::<Seq<char>, Seq<u8>>::empty(),
    {
        Storage { entries: Vec::new(), contents: Ghost(Map::empty()) }
    }

    /// Position of `key` among the entries, if it is stored.
    fn find(&self, key: &String) -> (r: Option<usize>)
        ensures
            match r {
                Some(i) => i < self.entries@.len() && self.entries@[i as int].0@ == key@,
                None => !self@.contains_key(key@),
            },
    {
        proof {
            use_type_invariant(self);
        }
        let mut i: usize = 0;
        while i < self.entries.len()
            invariant
                i <= self.entries@.len(),
                forall|j: int| 0 <= j < i ==> self.entries@[j].0@ != key@,
            decreases self.entries@.len() - i,
        {
            if self.entries[i].0 == *key {
                return Some(i);
            }
            i = i + 1;
        }
        proof {
            if self@.contains_key(key@) {
                let j = choose|j: int| 0 <= j < self.entries@.len() && #[trigger] self.entries@[j].0@ == key@;
                assert(self.entries@[j].0@ == key@);
            }
        }
        None
    }

    /// The value stored under `key`, if any.
    pub fn get(&self, key: &String) -> (r: Option<Vec<u8>>)
        ensures
            r is Some == self@.contains_key(key@),
            r matches Some(v) ==> v@ == self@[key@],
    {
        proof {
            use_type_invariant(self);
        }
        match self.find(key) {
            Some(i) => {
                let v = self.entries[i].1.clone();
                assert(v@ =~= self.entries@[i as int].1@);
                Some(v)
            },
            None => None,
        }
    }

    /// Stores `value` under `key`, replacing what was there.
    pub fn put(&mut self, key: String, value: Vec<u8>)
        ensures
            final(self)@ == old(self)@.insert(key@, value@),
    {
        let pos = self.find(&key);
        let mut taken = Storage::new();
        std::mem::swap(self, &mut taken);
        proof {
            use_type_invariant(&taken);
        }
        let ghost old_entries = taken.entries@;
        let ghost new_contents = taken.contents@.insert(key@, value@);
        let Storage { mut entries, contents: _ } = taken;
        match pos {
            Some(i) => {
                assert(old_entries[i as int].0@ == key@);
                entries.set(i, (key, value));
                assert forall|a: int, b: int|
                    0 <= a < b < entries@.len() implies #[trigger] entries@[a].0@
                        != #[trigger] entries@[b].0@ by {
                    assert(old_entries[a].0@ != old_entries[b].0@);
                }
                assert forall|a: int| 0 <= a < entries@.len() implies new_contents.contains_key(
                    #[trigger] entries@[a].0@,
                ) && new_contents[entries@[a].0@] == entries@[a].1@ by {
                    if a != i {
                        assert(old_entries[a].0@ != old_entries[i as int].0@);
                    }
                }
                assert forall|k: Seq<char>| #[trigger] new_contents.contains_key(k) implies exists|j: int|
                    0 <= j < entries@.len() && #[trigger] entries@[j].0@ == k by {
                    if k != entries@[i as int].0@ {
                        let j = choose|j: int| 0 <= j < old_entries.len() && #[trigger] old_entries[j].0@ == k;
                        assert(entries@[j].0@ == k);
                    }
                }
            },
            None => {
                assert forall|a: int| 0 <= a < old_entries.len() implies #[trigger] old_entries[a].0@
                    != key@ by {
                    assert(taken.contents@.contains_key(old_entries[a].0@));
                }
                entries.push((key, value));
                assert forall|a: int, b: int|
                    0 <= a < b < entries@.len() implies #[trigger] entries@[a].0@
                        != #[trigger] entries@[b].0@ by {
                    if b < old_entries.len() {
                        assert(old_entries[a].0@ != old_entries[b].0@);
                    } else {
                        assert(old_entries[a].0@ != key@);
                    }
                }
                assert forall|a: int| 0 <= a < entries@.len() implies new_contents.contains_key(
                    #[trigger] entries@[a].0@,
                ) && new_contents[entries@[a].0@] == entries@[a].1@ by {
                    if a < old_entries.len() {
                        assert(old_entries[a].0@ != key@);
                    }
                }
                assert forall|k: Seq<char>| #[trigger] new_contents.contains_key(k) implies exists|j: int|
                    0 <= j < entries@.len() && #[trigger] entries@[j].0@ == k by {
                    if k != entries@[old_entries.len() as int].0@ {
                        let j = choose|j: int| 0 <= j < old_entries.len() && #[trigger] old_entries[j].0@ == k;
                        assert(entries@[j].0@ == k);
                    }
                }
            },
        }
        assert(entries_match(entries@, new_contents));
        *self = Storage { entries, contents: Ghost(new_contents) };
    }
}

} // verus!
