//! Entries filed under text keys, kept in a vector in the order in which
//! their keys were first written.

use vstd::prelude::*;
use crate::laws::lemma_slot_is;
use crate::model::{has_key, keys_distinct, put, slot};

verus! {

/// The place of the entry filed under `key`, if there is one.
pub(crate) fn find<V: DeepView>(entries: &Vec<(String, V)>, key: &String) -> (found: Option<usize>)
    requires
        keys_distinct(entries.deep_view()),
    ensures
        found is Some <==> has_key(entries.deep_view(), key@),
        found matches Some(i) ==> i < entries.len() && i == slot(entries.deep_view(), key@),
{
    let mut i: usize = 0;
    while i < entries.len()
        invariant
            i <= entries.len(),
            keys_distinct(entries.deep_view()),
            forall|j: int| 0 <= j < i ==> (#[trigger] entries.deep_view()[j]).0 != key@,
        decreases entries.len() - i,
    {
        if entries[i].0 == *key {
            proof {
                lemma_slot_is(entries.deep_view(), key@, i as int);
            }
            return Some(i);
        }
        i += 1;
    }
    None
}

/// Files `value` under `key`: in the place of what was there, or else at the end.
pub(crate) fn file<V: DeepView>(entries: &mut Vec<(String, V)>, key: String, value: V)
    requires
        keys_distinct(old(entries).deep_view()),
    ensures
        final(entries).deep_view() == put(old(entries).deep_view(), key@, value.deep_view()),
        keys_distinct(final(entries).deep_view()),
{
    let ghost before = entries.deep_view();
    match find(entries, &key) {
        Some(i) => {
            entries[i] = (key, value);
            assert(entries.deep_view() =~= before.update(i as int, (key@, value.deep_view())));
        },
        None => {
            entries.push((key, value));
            assert(entries.deep_view() =~= before.push((key@, value.deep_view())));
        },
    }
}

} // verus!
