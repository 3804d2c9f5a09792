//! Named values in order, of which the last one of a name counts.

use vstd::prelude::*;

verus! {

/// The place of the last value of that name, or -1 where there is none.
pub open spec fn find_last<T>(entries: Seq<(Seq<char>, T)>, name: Seq<char>) -> int
    decreases entries.len(),
{
    if entries.len() == 0 {
        -1
    } else if entries.last().0 == name {
        entries.len() - 1
    } else {
        find_last(entries.drop_last(), name)
    }
}

/// The last value of that name.
pub open spec fn lookup<T>(entries: Seq<(Seq<char>, T)>, name: Seq<char>) -> Option<T> {
    let i = find_last(entries, name);
    if 0 <= i < entries.len() {
        Some(entries[i].1)
    } else {
        None
    }
}

/// The place found is one of that name with no later one of that name.
pub proof fn lemma_find_last<T>(entries: Seq<(Seq<char>, T)>, name: Seq<char>)
    ensures
        -1 <= find_last(entries, name) < entries.len(),
        find_last(entries, name) >= 0 ==> entries[find_last(entries, name)].0 == name,
        forall|i: int|
            find_last(entries, name) < i < entries.len() ==> (#[trigger] entries[i]).0 != name,
    decreases entries.len(),
{
    if entries.len() > 0 && entries.last().0 != name {
        lemma_find_last(entries.drop_last(), name);
        assert forall|i: int| find_last(entries, name) < i < entries.len() implies (
        #[trigger] entries[i]).0 != name by {
            if i < entries.len() - 1 {
                assert(entries.drop_last()[i] == entries[i]);
            }
        }
    }
}

/// Of values of one name the one that comes last counts, and values of other names
/// make no difference.
pub proof fn later_names_win<T>(
    entries: Seq<(Seq<char>, T)>,
    added: Seq<char>,
    value: T,
    name: Seq<char>,
)
    ensures
        lookup(Seq::<(Seq<char>, T)>::empty(), name) is None,
        added == name ==> lookup(entries.push((added, value)), name) == Some(value),
        added != name ==> lookup(entries.push((added, value)), name) == lookup(entries, name),
{
    let longer = entries.push((added, value));
    assert(longer.drop_last() =~= entries);
    lemma_find_last(entries, name);
}

} // verus!
