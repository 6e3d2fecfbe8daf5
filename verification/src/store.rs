//! A keyed byte store with overwrite semantics: the model of the storage
//! the upload handler commits to. Writing under an existing name fully
//! replaces that name's content; no duplicate or versioned copy is kept.

use vstd::prelude::*;

verus! {

/// One stored blob: its destination name and its content.
pub struct StoreEntry {
    pub name: Vec<u8>,
    pub bytes: Vec<u8>,
}

/// The map a sequence of entries denotes; a later entry shadows an earlier
/// one of the same name.
pub open spec fn map_of(s: Seq<StoreEntry>) -> Map<Seq<u8>, Seq<u8>>
    decreases s.len(),
{
    if s.len() == 0 {
        Map::empty()
    } else {
        map_of(s.drop_last()).insert(s.last().name@, s.last().bytes@)
    }
}

/// A named blob store. Its view is the map from names to contents; the
/// entries carry each name at most once.
pub struct Store {
    entries: Vec<StoreEntry>,
}

impl View for Store {
    type V = Map<Seq<u8>, Seq<u8>>;

    closed spec fn view(&self) -> Map<Seq<u8>, Seq<u8>> {
        map_of(self.entries@)
    }
}

/// No two entries carry the same name.
pub open spec fn unique_names(s: Seq<StoreEntry>) -> bool {
    forall|i: int, j: int| 0 <= i < j < s.len() ==> s[i].name@ != s[j].name@
}

/// A name that no entry carries is not in the denoted map.
proof fn lemma_absent_name(s: Seq<StoreEntry>, k: Seq<u8>)
    requires
        forall|i: int| 0 <= i < s.len() ==> s[i].name@ != k,
    ensures
        !map_of(s).contains_key(k),
    decreases s.len(),
{
    if s.len() > 0 {
        lemma_absent_name(s.drop_last(), k);
    }
}

/// Every entry's name maps to that entry's content.
proof fn lemma_present_name(s: Seq<StoreEntry>, i: int)
    requires
        unique_names(s),
        0 <= i < s.len(),
    ensures
        map_of(s).contains_key(s[i].name@),
        map_of(s)[s[i].name@] == s[i].bytes@,
    decreases s.len(),
{
    if i == s.len() - 1 {
    } else {
        lemma_present_name(s.drop_last(), i);
    }
}

/// Removing an entry removes exactly its name from the denoted map.
proof fn lemma_remove_entry(s: Seq<StoreEntry>, i: int)
    requires
        unique_names(s),
        0 <= i < s.len(),
    ensures
        map_of(s.remove(i)) == map_of(s).remove(s[i].name@),
    decreases s.len(),
{
    if i == s.len() - 1 {
        assert(s.remove(i) =~= s.drop_last());
        assert(forall|j: int| 0 <= j < s.drop_last().len() ==> s.drop_last()[j].name@ != s[i].name@);
        lemma_absent_name(s.drop_last(), s[i].name@);
        assert(map_of(s).remove(s[i].name@) =~= map_of(s.drop_last()));
    } else {
        assert(s.remove(i).drop_last() =~= s.drop_last().remove(i));
        assert(s.remove(i).last() == s.last());
        lemma_remove_entry(s.drop_last(), i);
        assert(map_of(s.remove(i)) == map_of(s.drop_last().remove(i)).insert(
            s.last().name@,
            s.last().bytes@,
        ));
        assert(s[i].name@ != s.last().name@);
        assert(map_of(s.drop_last()).remove(s[i].name@).insert(s.last().name@, s.last().bytes@)
            =~= map_of(s.drop_last()).insert(s.last().name@, s.last().bytes@).remove(s[i].name@));
    }
}

/// With unique names, the store holds exactly as many blobs as entries.
proof fn lemma_entry_count(s: Seq<StoreEntry>)
    requires
        unique_names(s),
    ensures
        map_of(s).dom().finite(),
        map_of(s).dom().len() == s.len(),
    decreases s.len(),
{
    if s.len() == 0 {
        assert(map_of(s).dom() =~= Set::<Seq<u8>>::empty());
    } else {
        lemma_entry_count(s.drop_last());
        assert(forall|j: int| 0 <= j < s.drop_last().len() ==> s.drop_last()[j].name@
            != s.last().name@);
        lemma_absent_name(s.drop_last(), s.last().name@);
        assert(map_of(s).dom() =~= map_of(s.drop_last()).dom().insert(s.last().name@));
    }
}

impl Store {
    /// The store's internal invariant.
    pub closed spec fn wf(&self) -> bool {
        unique_names(self.entries@)
    }

    /// An empty store.
    pub fn new() -> (r: Store)
        ensures
            r.wf(),
            r@ == Map::<Seq<u8>, Seq<u8>>::empty(),
    {
        Store { entries: Vec::new() }
    }

    /// How many names hold a blob.
    pub fn count(&self) -> (r: usize)
        requires
            self.wf(),
        ensures
            r == self@.dom().len(),
    {
        proof {
            lemma_entry_count(self.entries@);
        }
        self.entries.len()
    }

    /// The content stored under `name`, if any.
    pub fn get(&self, name: &Vec<u8>) -> (r: Option<&Vec<u8>>)
        requires
            self.wf(),
        ensures
            match r {
                Some(b) => self@.contains_key(name@) && b@ == self@[name@],
                None => !self@.contains_key(name@),
            },
    {
        let mut i: usize = 0;
        while i < self.entries.len()
            invariant
                self.wf(),
                i <= self.entries@.len(),
                forall|j: int| 0 <= j < i ==> self.entries@[j].name@ != name@,
            decreases self.entries@.len() - i,
        {
            if crate::scan::bytes_eq(&self.entries[i].name, name) {
                proof {
                    lemma_present_name(self.entries@, i as int);
                }
                return Some(&self.entries[i].bytes);
            }
            i = i + 1;
        }
        proof {
            lemma_absent_name(self.entries@, name@);
        }
        None
    }

    /// Writes `bytes` under `name`, fully replacing any existing content at
    /// that name.
    pub fn write(&mut self, name: Vec<u8>, bytes: Vec<u8>)
        requires
            old(self).wf(),
        ensures
            final(self).wf(),
            final(self)@ == old(self)@.insert(name@, bytes@),
    {
        let mut i: usize = 0;
        while i < self.entries.len()
            invariant
                self.wf(),
                i <= self.entries@.len(),
                self.entries@ == old(self).entries@,
                forall|j: int| 0 <= j < i ==> self.entries@[j].name@ != name@,
            decreases self.entries@.len() - i,
        {
            if crate::scan::bytes_eq(&self.entries[i].name, &name) {
                proof {
                    lemma_remove_entry(self.entries@, i as int);
                }
                let ghost pre = self.entries@;
                self.entries.remove(i);
                proof {
                    assert(unique_names(self.entries@)) by {
                        assert(forall|a: int, b: int|
                            0 <= a < b < self.entries@.len() ==> self.entries@[a].name@
                                != self.entries@[b].name@);
                    }
                    assert(forall|j: int| 0 <= j < self.entries@.len() ==> self.entries@[j].name@
                        != name@);
                }
                let ghost mid = self.entries@;
                self.entries.push(StoreEntry { name, bytes });
                proof {
                    assert(self.entries@.drop_last() =~= mid);
                    assert(map_of(self.entries@) == map_of(mid).insert(name@, bytes@));
                    assert(map_of(pre).remove(name@).insert(name@, bytes@) =~= map_of(pre).insert(
                        name@,
                        bytes@,
                    ));
                }
                return;
            }
            i = i + 1;
        }
        proof {
            lemma_absent_name(self.entries@, name@);
        }
        let ghost mid = self.entries@;
        self.entries.push(StoreEntry { name, bytes });
        proof {
            assert(self.entries@.drop_last() =~= mid);
            assert(map_of(self.entries@) == map_of(mid).insert(name@, bytes@));
        }
    }
}

/// Writing the same name twice leaves exactly the second content: the first
/// write is fully shadowed, with no duplicate or versioned copy.
pub proof fn lemma_second_write_wins(
    st: Map<Seq<u8>, Seq<u8>>,
    name: Seq<u8>,
    first: Seq<u8>,
    second: Seq<u8>,
)
    ensures
        st.insert(name, first).insert(name, second) == st.insert(name, second),
        st.insert(name, first).insert(name, second)[name] == second,
{
    assert(st.insert(name, first).insert(name, second) =~= st.insert(name, second));
}

} // verus!
