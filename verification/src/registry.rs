//! Named byte blobs (scripts, textures), each name at most once.

use vstd::prelude::*;

verus! {

/// The longest blob that can be stored: one whose base64 text still has a
/// length that fits in a `usize`.
pub open spec fn max_blob_len() -> nat {
    (usize::MAX / 4 * 3) as nat
}

/// A map from names to byte blobs.
pub struct FileMap {
    entries: Vec<(String, Vec<u8>)>,
}

impl FileMap {
    #[verifier::type_invariant]
    spec fn inv(self) -> bool {
        &&& forall|i: int, j: int|
            0 <= i < j < self.entries@.len() ==> #[trigger] self.entries@[i].0@
                != #[trigger] self.entries@[j].0@
        &&& forall|i: int|
            0 <= i < self.entries@.len() ==> #[trigger] self.entries@[i].1@.len() <= max_blob_len()
    }

    spec fn holds(self, k: Seq<char>, i: int) -> bool {
        0 <= i < self.entries@.len() && self.entries@[i].0@ == k
    }

    /// The blobs by name.
    pub closed spec fn view(&self) -> Map<Seq<char>, Seq<u8>> {
        Map::new(
            |k: Seq<char>| exists|i: int| self.holds(k, i),
            |k: Seq<char>| self.entries@[choose|i: int| self.holds(k, i)].1@,
        )
    }

    /// The names held, in the order they came in.
    pub closed spec fn names(&self) -> Seq<Seq<char>> {
        self.entries@.map_values(|e: (String, Vec<u8>)| e.0@)
    }

    proof fn lemma_names(self)
        requires
            self.inv(),
        ensures
            self.names().no_duplicates(),
            self.names().len() == self@.dom().len(),
            forall|k: Seq<char>| self@.contains_key(k) <==> self.names().contains(k),
    {
        self.lemma_dom_len();
        let names = self.names();
        assert forall|i: int, j: int| 0 <= i < names.len() && 0 <= j < names.len() && i != j implies names[i] != names[j] by {
            if i < j {
                assert(self.entries@[i].0@ != self.entries@[j].0@);
            } else {
                assert(self.entries@[j].0@ != self.entries@[i].0@);
            }
        }
        assert forall|k: Seq<char>| self@.contains_key(k) <==> names.contains(k) by {
            if self@.contains_key(k) {
                let i = choose|i: int| self.holds(k, i);
                assert(names[i] == k);
            }
            if names.contains(k) {
                let i = choose|i: int| 0 <= i < names.len() && names[i] == k;
                assert(self.holds(k, i));
            }
        }
    }

    proof fn lemma_at(self, i: int)
        requires
            self.inv(),
            0 <= i < self.entries@.len(),
        ensures
            self@.contains_key(self.entries@[i].0@),
            self@[self.entries@[i].0@] == self.entries@[i].1@,
    {
        let k = self.entries@[i].0@;
        assert(self.holds(k, i));
        let j = choose|j: int| self.holds(k, j);
        if i < j {
            assert(self.entries@[i].0@ != self.entries@[j].0@);
        } else if j < i {
            assert(self.entries@[j].0@ != self.entries@[i].0@);
        }
    }

    /// An empty map.
    pub fn new() -> (r: Self)
        ensures
            r@ == Map::<Seq<char>, Seq<u8>>::empty(),
            r.names().len() == 0,
    {
        let r = FileMap { entries: Vec::new() };
        assert(r@ =~= Map::<Seq<char>, Seq<u8>>::empty());
        r
    }

    /// How many names the map holds. The names are held once each, and
    /// [`Self::names`] lists exactly the map's names.
    pub fn len(&self) -> (r: usize)
        ensures
            r == self@.dom().len(),
            r == self.names().len(),
            self.names().no_duplicates(),
            forall|k: Seq<char>| self@.contains_key(k) <==> self.names().contains(k),
    {
        proof {
            use_type_invariant(self);
            self.lemma_dom_len();
            self.lemma_names();
        }
        self.entries.len()
    }

    proof fn lemma_dom_len(self)
        requires
            self.inv(),
        ensures
            self@.dom().finite(),
            self@.dom().len() == self.entries@.len(),
    {
        let names = self.entries@.map_values(|e: (String, Vec<u8>)| e.0@);
        assert forall|i: int, j: int| 0 <= i < j < names.len() implies names[i] != names[j] by {
            assert(self.entries@[i].0@ != self.entries@[j].0@);
        }
        names.unique_seq_to_set();
        assert(self@.dom() =~= names.to_set()) by {
            assert forall|k: Seq<char>| self@.dom().contains(k) implies names.to_set().contains(k) by {
                let i = choose|i: int| self.holds(k, i);
                assert(names[i] == k);
            }
            assert forall|k: Seq<char>| names.to_set().contains(k) implies self@.dom().contains(k) by {
                let i = choose|i: int| 0 <= i < names.len() && names[i] == k;
                assert(self.holds(k, i));
            }
        }
    }

    /// Whether the map holds no name.
    pub fn is_empty(&self) -> (r: bool)
        ensures
            r == (self@.dom().len() == 0),
    {
        self.len() == 0
    }

    /// Where `name` is held, if it is.
    fn position(&self, name: &String) -> (r: Option<usize>)
        ensures
            r is None ==> forall|i: int| 0 <= i < self.entries@.len() ==> self.entries@[i].0@ != name@,
            r matches Some(i) ==> i < self.entries@.len() && self.entries@[i as int].0@ == name@,
    {
        let mut i: usize = 0;
        while i < self.entries.len()
            invariant
                i <= self.entries@.len(),
                forall|j: int| 0 <= j < i ==> self.entries@[j].0@ != name@,
            decreases self.entries@.len() - i,
        {
            if self.entries[i].0 == *name {
                return Some(i);
            }
            i = i + 1;
        }
        None
    }

    /// The blob held under `name`.
    pub fn get(&self, name: &String) -> (r: Option<&Vec<u8>>)
        ensures
            r is Some <==> self@.contains_key(name@),
            r matches Some(d) ==> d@ == self@[name@] && d@.len() <= max_blob_len(),
    {
        proof {
            use_type_invariant(self);
        }
        match self.position(name) {
            Some(i) => {
                proof {
                    self.lemma_at(i as int);
                }
                Some(&self.entries[i].1)
            },
            None => {
                assert(!self@.contains_key(name@));
                None
            },
        }
    }

    /// The `i`-th name held and its blob, in the order the names came in.
    pub fn entry(&self, i: usize) -> (r: (&String, &Vec<u8>))
        requires
            i < self@.dom().len(),
        ensures
            r.0@ == self.names()[i as int],
            self@.contains_key(r.0@),
            self@[r.0@] == r.1@,
    {
        proof {
            use_type_invariant(self);
            self.lemma_dom_len();
            self.lemma_at(i as int);
        }
        (&self.entries[i].0, &self.entries[i].1)
    }

    /// Stores `data` under `name`, in place of what was stored there.
    pub fn insert(&mut self, name: String, data: Vec<u8>)
        requires
            data@.len() <= max_blob_len(),
        ensures
            final(self)@ == old(self)@.insert(name@, data@),
            old(self)@.contains_key(name@) ==> final(self).names() == old(self).names(),
            !old(self)@.contains_key(name@) ==> final(self).names() == old(self).names().push(name@),
    {
        proof {
            use_type_invariant(&*self);
        }
        let ghost old_self = *self;
        let ghost old_map = self@;
        let pos = self.position(&name);
        let mut entries: Vec<(String, Vec<u8>)> = Vec::new();
        std::mem::swap(&mut entries, &mut self.entries);
        let ghost es = entries@;
        let ghost k = name@;
        let ghost v = data@;
        match pos {
            Some(i) => {
                entries.set(i, (name, data));
            },
            None => {
                entries.push((name, data));
            },
        }
        let ghost new_es = entries@;
        self.entries = entries;
        proof {
            if pos is Some {
                assert(old_self.holds(k, pos->0 as int));
                assert(self.names() =~= old_self.names());
            } else {
                assert(forall|i: int| !old_self.holds(k, i));
                assert(self.names() =~= old_self.names().push(k));
            }
            assert forall|j: int| 0 <= j < new_es.len() && new_es[j].0@ != k implies new_es[j] == es[j] by {
            }
            assert forall|j: int| 0 <= j < new_es.len() && new_es[j].0@ == k implies new_es[j].1@ == v by {
                if pos is Some {
                    if j != pos->0 as int {
                        assert(es[j].0@ == k);
                        if j < pos->0 as int {
                            assert(es[j].0@ != es[pos->0 as int].0@);
                        } else {
                            assert(es[pos->0 as int].0@ != es[j].0@);
                        }
                    }
                }
            }
            assert(self@ =~= old_map.insert(k, v)) by {
                assert forall|q: Seq<char>| #[trigger] self@.contains_key(q) == old_map.insert(k, v).contains_key(q) by {
                    if q == k {
                        if pos is Some {
                            assert(self.holds(q, pos->0 as int));
                        } else {
                            assert(self.holds(q, es.len() as int));
                        }
                    } else {
                        if self@.contains_key(q) {
                            let j = choose|j: int| self.holds(q, j);
                            assert(new_es[j] == es[j]);
                            assert(j < es.len());
                            assert(old_self.holds(q, j));
                        }
                        if old_map.contains_key(q) {
                            let j = choose|j: int| old_self.holds(q, j);
                            if pos is Some {
                                assert(j != pos->0 as int);
                            }
                            assert(new_es[j].0@ == q);
                            assert(self.holds(q, j));
                        }
                    }
                }
                assert forall|q: Seq<char>| #[trigger] self@.contains_key(q) implies self@[q] == old_map.insert(k, v)[q] by {
                    let j = choose|j: int| self.holds(q, j);
                    if q == k {
                    } else {
                        assert(new_es[j] == es[j]);
                        let jo = choose|i: int| old_self.holds(q, i);
                        assert(old_map[q] == es[jo].1@);
                        if j < jo {
                            assert(es[j].0@ != es[jo].0@);
                        } else if jo < j {
                            assert(es[jo].0@ != es[j].0@);
                        }
                    }
                }
            }
        }
    }
}

} // verus!
