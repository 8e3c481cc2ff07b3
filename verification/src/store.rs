//! The in-memory store of marks, its four operations, and the translation
//! to and from the serialized form kept in the store file.
//!
//! A store is a mapping from a lowercased name to a path; its mathematical
//! model is a `Map<Seq<char>, Seq<char>>`, reached through the store's view.

use vstd::prelude::*;

use crate::codec::{entries_from_json, entries_to_json, json_of, marks_of_json};
use crate::error::MarkError;

verus! {

/// What `str::to_lowercase` returns for the given characters.
pub uninterp spec fn lower_of(s: Seq<char>) -> Seq<char>;

/// Relies on `str::to_lowercase`: the result depends on the characters alone.
#[verifier::external_body]
fn lowercase(s: &str) -> (r: String)
    ensures
        r@ == lower_of(s@),
{
    s.to_lowercase()
}

/// The mapping that a sequence of `(name, path)` entries denotes; a later
/// entry wins over an earlier one with the same name.
pub open spec fn as_map(entries: Seq<(String, String)>) -> Map<Seq<char>, Seq<char>>
    decreases entries.len(),
{
    if entries.len() == 0 {
        Map::empty()
    } else {
        as_map(entries.drop_last()).insert(entries.last().0@, entries.last().1@)
    }
}

/// Every entry carries a name no other entry has.
pub open spec fn keys_distinct(entries: Seq<(String, String)>) -> bool {
    forall|i: int, j: int|
        0 <= i < j < entries.len() ==> (#[trigger] entries[i]).0@ != (#[trigger] entries[j]).0@
}

/// What recalling `name` in a store with mapping `m` resolves to: the path
/// stored under the lowercase form of `name`, if any.
pub open spec fn recall_spec(m: Map<Seq<char>, Seq<char>>, name: Seq<char>) -> Option<Seq<char>> {
    if m.contains_key(lower_of(name)) {
        Some(m[lower_of(name)])
    } else {
        None
    }
}

/// The key a missed lookup reports: the reserved default name is described
/// in words rather than echoed back.
pub open spec fn missing_key(name: Seq<char>) -> Seq<char> {
    if name == "default"@ {
        "the default path"@
    } else {
        name
    }
}

/// A sequence of listed pairs shows exactly the mapping `m`: every pair is
/// in `m`, every key of `m` appears, and no name appears twice.
pub open spec fn lists_map(pairs: Seq<(String, String)>, m: Map<Seq<char>, Seq<char>>) -> bool {
    &&& forall|i: int|
        0 <= i < pairs.len() ==> m.contains_pair((#[trigger] pairs[i]).0@, pairs[i].1@)
    &&& forall|k: Seq<char>|
        #[trigger] m.contains_key(k) ==> exists|i: int|
            0 <= i < pairs.len() && (#[trigger] pairs[i]).0@ == k
    &&& keys_distinct(pairs)
}

/// Builds the store that a just-read store file holds. `None` stands for a
/// missing file and yields the empty store; contents that are not a valid
/// serialized store are rejected with `DeserializeError`.
pub fn load_marks(contents: Option<&str>) -> (r: Result<MarkStore, MarkError>)
    ensures
        contents is None ==> (r matches Ok(st) && st.wf() && st@ == Map::<
            Seq<char>,
            Seq<char>,
        >::empty()),
        contents matches Some(s) ==> {
            &&& (r is Ok <==> marks_of_json(s@) is Some)
            &&& (r matches Ok(st) ==> st.wf() && Some(st@) == marks_of_json(s@))
            &&& (r is Err ==> r matches Err(MarkError::DeserializeError))
        },
{
    match contents {
        None => Ok(MarkStore::new()),
        Some(s) => match entries_from_json(s) {
            Ok(v) => Ok(MarkStore::from_entries(v)),
            Err(_) => Err(MarkError::DeserializeError),
        },
    }
}

/// The persistent mapping from mark names to paths.
pub struct MarkStore {
    entries: Vec<(String, String)>,
}

impl View for MarkStore {
    type V = Map<Seq<char>, Seq<char>>;

    closed spec fn view(&self) -> Map<Seq<char>, Seq<char>> {
        as_map(self.entries@)
    }
}

proof fn lemma_as_map_contains(entries: Seq<(String, String)>, k: Seq<char>)
    ensures
        as_map(entries).contains_key(k) <==> (exists|i: int|
            0 <= i < entries.len() && (#[trigger] entries[i]).0@ == k),
    decreases entries.len(),
{
    if entries.len() > 0 {
        lemma_as_map_contains(entries.drop_last(), k);
        if entries.last().0@ == k {
            assert(entries[entries.len() - 1].0@ == k);
        } else if exists|i: int| 0 <= i < entries.len() && (#[trigger] entries[i]).0@ == k {
            let i = choose|i: int| 0 <= i < entries.len() && (#[trigger] entries[i]).0@ == k;
            assert(entries.drop_last()[i].0@ == k);
        }
    }
}

proof fn lemma_as_map_get(entries: Seq<(String, String)>, i: int)
    requires
        keys_distinct(entries),
        0 <= i < entries.len(),
    ensures
        as_map(entries).contains_key(entries[i].0@),
        as_map(entries)[entries[i].0@] == entries[i].1@,
    decreases entries.len(),
{
    if i < entries.len() - 1 {
        lemma_as_map_get(entries.drop_last(), i);
        assert(entries.drop_last()[i] == entries[i]);
        assert(entries.last().0@ != entries[i].0@);
    }
}

proof fn lemma_as_map_remove_at(entries: Seq<(String, String)>, i: int)
    requires
        keys_distinct(entries),
        0 <= i < entries.len(),
    ensures
        keys_distinct(entries.remove(i)),
        as_map(entries.remove(i)) == as_map(entries).remove(entries[i].0@),
    decreases entries.len(),
{
    let k = entries[i].0@;
    assert forall|a: int, b: int| 0 <= a < b < entries.remove(i).len() implies (#[trigger] entries
        .remove(i)[a]).0@ != (#[trigger] entries.remove(i)[b]).0@ by {
        let a0 = if a < i {
            a
        } else {
            a + 1
        };
        let b0 = if b < i {
            b
        } else {
            b + 1
        };
        assert(entries.remove(i)[a] == entries[a0]);
        assert(entries.remove(i)[b] == entries[b0]);
    }
    if i == entries.len() - 1 {
        assert(entries.remove(i) =~= entries.drop_last());
        lemma_as_map_contains(entries.drop_last(), k);
        assert(!as_map(entries.drop_last()).contains_key(k));
        assert(as_map(entries).remove(k) =~= as_map(entries.drop_last()));
    } else {
        let d = entries.drop_last();
        lemma_as_map_remove_at(d, i);
        assert(entries.remove(i).drop_last() =~= d.remove(i));
        assert(entries.remove(i).last() == entries.last());
        assert(d[i] == entries[i]);
        assert(entries.last().0@ != k);
        assert(as_map(d).remove(k).insert(entries.last().0@, entries.last().1@) =~= as_map(
            d,
        ).insert(entries.last().0@, entries.last().1@).remove(k));
    }
}

impl MarkStore {
    /// The store's internal consistency: no name is stored twice.
    pub closed spec fn wf(&self) -> bool {
        keys_distinct(self.entries@)
    }

    /// A store with no marks at all.
    pub fn new() -> (r: MarkStore)
        ensures
            r.wf(),
            r@ == Map::<Seq<char>, Seq<char>>::empty(),
    {
        MarkStore { entries: Vec::new() }
    }

    /// A store over entries already known to carry distinct names, as the
    /// deserializer hands them out.
    pub(crate) fn from_entries(entries: Vec<(String, String)>) -> (r: MarkStore)
        requires
            keys_distinct(entries@),
        ensures
            r.wf(),
            r@ == as_map(entries@),
    {
        MarkStore { entries }
    }

    /// Drops the entry stored under exactly `key`, if any, and reports that
    /// no entry carries `key` any more.
    fn remove_entry(&mut self, key: &String)
        requires
            old(self).wf(),
        ensures
            final(self).wf(),
            final(self)@ == old(self)@.remove(key@),
            forall|i: int|
                0 <= i < final(self).entries@.len() ==> (#[trigger] final(self).entries@[i]).0@
                    != key@,
    {
        let n = self.entries.len();
        let mut idx: usize = 0;
        while idx < n
            invariant
                self == old(self),
                self.wf(),
                n == self.entries@.len(),
                idx <= n,
                forall|j: int| 0 <= j < idx ==> (#[trigger] self.entries@[j]).0@ != key@,
            decreases n - idx,
        {
            if self.entries[idx].0 == *key {
                proof {
                    lemma_as_map_remove_at(self.entries@, idx as int);
                }
                let ghost pre = self.entries@;
                self.entries.remove(idx);
                proof {
                    assert forall|i: int| 0 <= i < self.entries@.len() implies (#[trigger] self
                        .entries@[i]).0@ != key@ by {
                        let i0 = if i < idx as int {
                            i
                        } else {
                            i + 1
                        };
                        assert(self.entries@[i] == pre[i0]);
                    }
                }
                return ;
            }
            idx += 1;
        }
        proof {
            lemma_as_map_contains(self.entries@, key@);
            assert(as_map(self.entries@).remove(key@) =~= as_map(self.entries@));
        }
    }

    /// Sets `name` (normalized to lowercase) to `path`, silently replacing
    /// whatever the name pointed at before.
    pub fn mark(&mut self, name: &str, path: String)
        requires
            old(self).wf(),
        ensures
            final(self).wf(),
            final(self)@ == old(self)@.insert(lower_of(name@), path@),
    {
        let key = lowercase(name);
        let ghost k = key@;
        self.remove_entry(&key);
        let ghost pre = self.entries@;
        self.entries.push((key, path));
        proof {
            assert(self.entries@.drop_last() =~= pre);
            assert(self.entries@.last().0@ == k);
            assert(as_map(self.entries@) == as_map(pre).insert(k, path@));
            assert(old(self)@.remove(k).insert(k, path@) =~= old(self)@.insert(k, path@));
            assert forall|i: int, j: int| 0 <= i < j < self.entries@.len() implies (
            #[trigger] self.entries@[i]).0@ != (#[trigger] self.entries@[j]).0@ by {
                if j < self.entries@.len() - 1 {
                    assert(pre[i] == self.entries@[i]);
                    assert(pre[j] == self.entries@[j]);
                } else {
                    assert(pre[i] == self.entries@[i]);
                }
            }
        }
    }

    /// Looks `name` up under its lowercase form: the stored path on a hit,
    /// `NoPathSet` on a miss.
    pub fn recall(&self, name: &str) -> (r: Result<String, MarkError>)
        requires
            self.wf(),
        ensures
            recall_spec(self@, name@) matches Some(p) ==> (r matches Ok(found) && found@ == p),
            recall_spec(self@, name@) is None ==> (r matches Err(e) && e matches MarkError::NoPathSet {
                key,
            } && key@ == missing_key(name@)),
    {
        let key = lowercase(name);
        let n = self.entries.len();
        let mut idx: usize = 0;
        while idx < n
            invariant
                self.wf(),
                n == self.entries@.len(),
                idx <= n,
                key@ == lower_of(name@),
                forall|j: int| 0 <= j < idx ==> (#[trigger] self.entries@[j]).0@ != key@,
            decreases n - idx,
        {
            if self.entries[idx].0 == key {
                proof {
                    lemma_as_map_get(self.entries@, idx as int);
                }
                return Ok(self.entries[idx].1.clone());
            }
            idx += 1;
        }
        proof {
            lemma_as_map_contains(self.entries@, key@);
        }
        if name.to_owned() == "default".to_owned() {
            Err(MarkError::NoPathSet { key: "the default path".to_owned() })
        } else {
            Err(MarkError::NoPathSet { key: name.to_owned() })
        }
    }

    /// Removes the mark under `name`'s lowercase form (a silent no-op when
    /// it is absent), or every mark at once when `all` is set.
    pub fn clear(&mut self, name: &str, all: bool)
        requires
            old(self).wf(),
        ensures
            final(self).wf(),
            all ==> final(self)@ == Map::<Seq<char>, Seq<char>>::empty(),
            !all ==> final(self)@ == old(self)@.remove(lower_of(name@)),
    {
        if all {
            self.entries.clear();
        } else {
            let key = lowercase(name);
            self.remove_entry(&key);
        }
    }

    /// Every mark currently stored, as `(name, path)` pairs in no promised
    /// order.
    pub fn list(&self) -> (r: Vec<(String, String)>)
        requires
            self.wf(),
        ensures
            lists_map(r@, self@),
    {
        let mut out: Vec<(String, String)> = Vec::new();
        let n = self.entries.len();
        let mut idx: usize = 0;
        while idx < n
            invariant
                self.wf(),
                n == self.entries@.len(),
                idx <= n,
                out@.len() == idx as int,
                forall|j: int| 0 <= j < idx ==> #[trigger] out@[j] == self.entries@[j],
            decreases n - idx,
        {
            let name = self.entries[idx].0.clone();
            let path = self.entries[idx].1.clone();
            out.push((name, path));
            idx += 1;
        }
        proof {
            assert forall|i: int| 0 <= i < out@.len() implies self@.contains_pair(
                (#[trigger] out@[i]).0@,
                out@[i].1@,
            ) by {
                lemma_as_map_get(self.entries@, i);
            }
            assert forall|k: Seq<char>| #[trigger] self@.contains_key(k) implies exists|i: int|
                0 <= i < out@.len() && (#[trigger] out@[i]).0@ == k by {
                lemma_as_map_contains(self.entries@, k);
                let i = choose|i: int|
                    0 <= i < self.entries@.len() && (#[trigger] self.entries@[i]).0@ == k;
                assert(out@[i].0@ == k);
            }
        }
        out
    }

    /// The serialized form of the store, as written back to the store file;
    /// loading it again yields exactly this store's mapping (the persisted
    /// round trip).
    pub fn to_json(&self) -> (r: String)
        ensures
            r@ == json_of(self@),
            marks_of_json(r@) == Some(self@),
    {
        entries_to_json(&self.entries)
    }
}

} // verus!
