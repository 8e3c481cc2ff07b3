//! How the store's operations interact, stated over the store's
//! mathematical model (the mapping a store's view denotes, `lower_of` for
//! normalization, `recall_spec` for lookups) and proved once for every
//! store, name and path. `mark` puts a store's mapping through
//! `insert(lower_of(name), path)` and `clear` through `remove` or
//! emptying, so each law speaks about every run of those operations.

use vstd::prelude::*;

use crate::store::{lower_of, recall_spec};

verus! {

/// Round trip: marking a name and recalling it straight after yields the
/// path just stored, whatever the store held before.
pub proof fn lemma_mark_then_recall(
    m: Map<Seq<char>, Seq<char>>,
    name: Seq<char>,
    path: Seq<char>,
)
    ensures
        recall_spec(m.insert(lower_of(name), path), name) == Some(path),
{
}

/// Recalling a name whose lowercase form was never marked misses; the
/// store's `recall` then answers `NoPathSet`.
pub proof fn lemma_recall_unset(m: Map<Seq<char>, Seq<char>>, name: Seq<char>)
    ensures
        !m.contains_key(lower_of(name)) ==> recall_spec(m, name) is None,
{
}

/// Lookups are case-insensitive: two names with the same lowercase form
/// always recall the same mark.
pub proof fn lemma_recall_case_insensitive(
    m: Map<Seq<char>, Seq<char>>,
    name_a: Seq<char>,
    name_b: Seq<char>,
)
    ensures
        lower_of(name_a) == lower_of(name_b) ==> recall_spec(m, name_a) == recall_spec(m, name_b),
{
}

/// Clearing one name removes only that name: its own lookup then misses,
/// and every other name resolves exactly as before.
pub proof fn lemma_clear_one(m: Map<Seq<char>, Seq<char>>, name: Seq<char>, other: Seq<char>)
    ensures
        recall_spec(m.remove(lower_of(name)), name) is None,
        lower_of(other) != lower_of(name) ==> recall_spec(m.remove(lower_of(name)), other)
            == recall_spec(m, other),
{
}

/// Clearing everything leaves the empty mapping: every later lookup
/// misses, and there is nothing left to list.
pub proof fn lemma_clear_all(name: Seq<char>)
    ensures
        recall_spec(Map::<Seq<char>, Seq<char>>::empty(), name) is None,
        Map::<Seq<char>, Seq<char>>::empty().dom() =~= Set::<Seq<char>>::empty(),
{
}

/// Re-marking an existing name overwrites it: the later path wins.
pub proof fn lemma_remark_overwrites(
    m: Map<Seq<char>, Seq<char>>,
    name: Seq<char>,
    first: Seq<char>,
    second: Seq<char>,
)
    ensures
        recall_spec(m.insert(lower_of(name), first).insert(lower_of(name), second), name) == Some(
            second,
        ),
{
}

/// After marking two names with distinct lowercase forms in an empty
/// store, the mapping holds exactly those two pairs, so listing shows
/// exactly them.
pub proof fn lemma_two_marks(
    name_a: Seq<char>,
    path_a: Seq<char>,
    name_b: Seq<char>,
    path_b: Seq<char>,
)
    ensures
        lower_of(name_a) != lower_of(name_b) ==> {
            let m = Map::<Seq<char>, Seq<char>>::empty().insert(lower_of(name_a), path_a).insert(
                lower_of(name_b),
                path_b,
            );
            &&& m.dom() == set![lower_of(name_a), lower_of(name_b)]
            &&& m[lower_of(name_a)] == path_a
            &&& m[lower_of(name_b)] == path_b
        },
{
    if lower_of(name_a) != lower_of(name_b) {
        let m = Map::<Seq<char>, Seq<char>>::empty().insert(lower_of(name_a), path_a).insert(
            lower_of(name_b),
            path_b,
        );
        assert(m.dom() =~= set![lower_of(name_a), lower_of(name_b)]);
    }
}

} // verus!
