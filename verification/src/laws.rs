//! Laws that relate the operations of the registry to each other.
//!
//! Each law is stated over the model, in the terms in which the contracts
//! of the operations are stated, so that it holds of every registry and of
//! every run of the operations.

use vstd::prelude::*;
use crate::error::RegistryError;
use crate::model::{
    as_map, copy_step, create_step, distinct_throughout, filed, get, has_key, keys_distinct,
    lines_of, listing, lookup, may_copy, put, replay, revised, settled, shelf_of, slot, stored,
    total,
    update_step, well_formed, write_step, Line, MutationView, OverrideView, RegistryView, Shelf,
    Write,
};

verus! {

/// Where no key occurs twice, an entry's place is decided by its key.
pub proof fn lemma_slot_is<V>(entries: Seq<(Seq<char>, V)>, key: Seq<char>, i: int)
    requires
        keys_distinct(entries),
        0 <= i < entries.len(),
        entries[i].0 == key,
    ensures
        has_key(entries, key),
        slot(entries, key) == i,
        lookup(entries, key) == Some(entries[i].1),
{
    let s = slot(entries, key);
    if s < i {
        assert(entries[s].0 != entries[i].0);
    } else if i < s {
        assert(entries[i].0 != entries[s].0);
    }
}

/// Filing under a key keeps the keys distinct, makes that key lead to what
/// was filed, and leaves every other key leading where it led.
pub proof fn lemma_lookup_after_put<V>(
    entries: Seq<(Seq<char>, V)>,
    key: Seq<char>,
    value: V,
    other: Seq<char>,
)
    requires
        keys_distinct(entries),
    ensures
        keys_distinct(put(entries, key, value)),
        lookup(put(entries, key, value), other) == (if other == key {
            Some(value)
        } else {
            lookup(entries, other)
        }),
{
    let filed = put(entries, key, value);
    let place = if has_key(entries, key) {
        slot(entries, key)
    } else {
        entries.len() as int
    };
    assert(filed[place] == (key, value));
    assert forall|i: int| 0 <= i < filed.len() && i != place implies #[trigger] filed[i]
        == entries[i] && filed[i].0 != key by {}
    assert(keys_distinct(filed));
    if other == key {
        lemma_slot_is(filed, key, place);
    } else if has_key(entries, other) {
        lemma_slot_is(filed, other, slot(entries, other));
    } else if has_key(filed, other) {
        assert(entries[slot(filed, other)].0 == other);
    }
}

/// Filing twice under one key is filing the second value once.
pub proof fn lemma_put_twice<V>(entries: Seq<(Seq<char>, V)>, key: Seq<char>, first: V, second: V)
    requires
        keys_distinct(entries),
    ensures
        put(put(entries, key, first), key, second) == put(entries, key, second),
{
    let once = put(entries, key, first);
    let place = if has_key(entries, key) {
        slot(entries, key)
    } else {
        entries.len() as int
    };
    lemma_lookup_after_put(entries, key, first, key);
    assert(once[place] == (key, first));
    lemma_slot_is(once, key, place);
    assert(put(once, key, second) =~= put(entries, key, second));
}

/// Storing a mutation keeps the registry well formed, makes its author and
/// identifier lead to it, and leaves every other mutation as it was.
pub proof fn lemma_get_after_store(
    reg: RegistryView,
    author: Seq<char>,
    id: Seq<char>,
    mutation: MutationView,
    other_author: Seq<char>,
    other_id: Seq<char>,
)
    requires
        distinct_throughout(reg),
    ensures
        distinct_throughout(stored(reg, author, id, mutation)),
        well_formed(reg) ==> well_formed(stored(reg, author, id, mutation)),
        get(stored(reg, author, id, mutation), other_author, other_id) == (if other_author
            == author && other_id == id {
            Some(mutation)
        } else {
            get(reg, other_author, other_id)
        }),
{
    let shelf = shelf_of(reg, author);
    assert(keys_distinct(shelf)) by {
        if has_key(reg, author) {
            assert(shelf == reg[slot(reg, author)].1);
        }
    }
    let new_shelf = put(shelf, id, mutation);
    let next = put(reg, author, new_shelf);
    lemma_lookup_after_put(shelf, id, mutation, other_id);
    lemma_lookup_after_put(reg, author, new_shelf, other_author);
    assert forall|i: int| 0 <= i < next.len() implies keys_distinct((#[trigger] next[i]).1) by {
        if i < reg.len() && next[i] == reg[i] {
        } else {
            assert(next[i].1 == new_shelf);
        }
    }
}

/// Storing is inserting: read as a map, the registry after a mutation was
/// stored is the registry before with that mutation under its author and
/// identifier.
pub proof fn lemma_store_is_insert(
    reg: RegistryView,
    author: Seq<char>,
    id: Seq<char>,
    mutation: MutationView,
)
    requires
        distinct_throughout(reg),
    ensures
        as_map(stored(reg, author, id, mutation)) == as_map(reg).insert((author, id), mutation),
{
    let after = as_map(stored(reg, author, id, mutation));
    let inserted = as_map(reg).insert((author, id), mutation);
    assert forall|key: (Seq<char>, Seq<char>)| #[trigger]
        after.dom().contains(key) == inserted.dom().contains(key) by {
        lemma_get_after_store(reg, author, id, mutation, key.0, key.1);
    }
    assert forall|key: (Seq<char>, Seq<char>)| after.dom().contains(key) implies #[trigger]
        after[key] == inserted[key] by {
        lemma_get_after_store(reg, author, id, mutation, key.0, key.1);
    }
    assert(after =~= inserted);
}

/// Storing a mutation changes the shelf of its author and no other.
pub proof fn lemma_shelf_after_store(
    reg: RegistryView,
    author: Seq<char>,
    id: Seq<char>,
    mutation: MutationView,
    other_author: Seq<char>,
)
    requires
        distinct_throughout(reg),
        other_author != author,
    ensures
        shelf_of(stored(reg, author, id, mutation), other_author) == shelf_of(reg, other_author),
{
    lemma_lookup_after_put(reg, author, put(shelf_of(reg, author), id, mutation), other_author);
}

/// Every write that goes through leaves the registry well formed.
pub proof fn lemma_writes_keep_well_formed(reg: RegistryView, caller: Seq<char>, write: Write)
    requires
        well_formed(reg),
        write_step(reg, caller, write) is Ok,
    ensures
        well_formed(write_step(reg, caller, write)->Ok_0),
{
    match write {
        Write::Create { author, id, mutation } => {
            lemma_get_after_store(reg, author, id, mutation, author, id);
        },
        Write::Update { author, id, description, overrides } => {
            if get(reg, author, id) is Some {
                let now = revised(get(reg, author, id)->0, description, overrides);
                lemma_get_after_store(reg, author, id, now, author, id);
            }
        },
        Write::Copy { source_author, source_id, target_author, target_id } => {
            let now = revised(
                get(reg, target_author, target_id)->0,
                None,
                Some(get(reg, source_author, source_id)->0.overrides),
            );
            lemma_get_after_store(reg, target_author, target_id, now, target_author, target_id);
        },
    }
}

/// Nobody writes for another: whatever write a caller asks for, and
/// whatever comes of it, the shelf of every other author stays as it was,
/// entry for entry.
pub proof fn lemma_nobody_writes_for_another(
    reg: RegistryView,
    caller: Seq<char>,
    write: Write,
    other_author: Seq<char>,
)
    requires
        well_formed(reg),
        other_author != caller,
    ensures
        write_step(reg, caller, write) matches Ok(next) ==> shelf_of(next, other_author)
            == shelf_of(reg, other_author),
{
    match write {
        Write::Create { author, id, mutation } => {
            if caller == author {
                lemma_shelf_after_store(reg, author, id, mutation, other_author);
            }
        },
        Write::Update { author, id, description, overrides } => {
            if caller == author && get(reg, author, id) is Some {
                let now = revised(get(reg, author, id)->0, description, overrides);
                lemma_shelf_after_store(reg, author, id, now, other_author);
            }
        },
        Write::Copy { source_author, source_id, target_author, target_id } => {
            if write_step(reg, caller, write) is Ok {
                let now = revised(
                    get(reg, target_author, target_id)->0,
                    None,
                    Some(get(reg, source_author, source_id)->0.overrides),
                );
                lemma_shelf_after_store(reg, target_author, target_id, now, other_author);
            }
        },
    }
}

/// Nothing is ever removed: what an author and an identifier lead to before
/// a write, they lead to something after it.
pub proof fn lemma_nothing_is_removed(
    reg: RegistryView,
    caller: Seq<char>,
    write: Write,
    author: Seq<char>,
    id: Seq<char>,
)
    requires
        well_formed(reg),
        get(reg, author, id) is Some,
    ensures
        write_step(reg, caller, write) matches Ok(next) ==> get(next, author, id) is Some,
{
    match write {
        Write::Create { author: written, id: under, mutation } => {
            lemma_get_after_store(reg, written, under, mutation, author, id);
        },
        Write::Update { author: written, id: under, description, overrides } => {
            if get(reg, written, under) is Some {
                let now = revised(get(reg, written, under)->0, description, overrides);
                lemma_get_after_store(reg, written, under, now, author, id);
            }
        },
        Write::Copy { source_author, source_id, target_author, target_id } => {
            if write_step(reg, caller, write) is Ok {
                let now = revised(
                    get(reg, target_author, target_id)->0,
                    None,
                    Some(get(reg, source_author, source_id)->0.overrides),
                );
                lemma_get_after_store(reg, target_author, target_id, now, author, id);
            }
        },
    }
}

/// A created mutation can be read back: after a create that was not
/// refused, its author and identifier lead to exactly the description and
/// overrides given, whatever was filed there before; the registry stays
/// well formed and every other mutation is as it was.
pub proof fn lemma_create_then_get(
    reg: RegistryView,
    caller: Seq<char>,
    author: Seq<char>,
    id: Seq<char>,
    mutation: MutationView,
    other_author: Seq<char>,
    other_id: Seq<char>,
)
    requires
        well_formed(reg),
        create_step(reg, caller, author, id, mutation) is Ok,
    ensures
        well_formed(create_step(reg, caller, author, id, mutation)->Ok_0),
        get(create_step(reg, caller, author, id, mutation)->Ok_0, author, id) == Some(mutation),
        other_author != author || other_id != id ==> get(
            create_step(reg, caller, author, id, mutation)->Ok_0,
            other_author,
            other_id,
        ) == get(reg, other_author, other_id),
{
    lemma_get_after_store(reg, author, id, mutation, author, id);
    lemma_get_after_store(reg, author, id, mutation, other_author, other_id);
}

/// Create overwrites: of two creates under one author and identifier, the
/// second decides what is read back, and the first leaves no trace: the
/// registry is the one that the second create alone would have made.
pub proof fn lemma_create_overwrites(
    reg: RegistryView,
    author: Seq<char>,
    id: Seq<char>,
    first: MutationView,
    second: MutationView,
)
    requires
        well_formed(reg),
    ensures
        create_step(reg, author, author, id, first) is Ok,
        create_step(create_step(reg, author, author, id, first)->Ok_0, author, author, id, second)
            == create_step(reg, author, author, id, second),
        get(
            create_step(
                create_step(reg, author, author, id, first)->Ok_0,
                author,
                author,
                id,
                second,
            )->Ok_0,
            author,
            id,
        ) == Some(second),
{
    let shelf = shelf_of(reg, author);
    assert(keys_distinct(shelf)) by {
        if has_key(reg, author) {
            assert(shelf == reg[slot(reg, author)].1);
        }
    }
    lemma_lookup_after_put(reg, author, put(shelf, id, first), author);
    lemma_put_twice(shelf, id, first, second);
    lemma_put_twice(reg, author, put(shelf, id, first), put(shelf, id, second));
    lemma_get_after_store(reg, author, id, second, author, id);
}

/// A stranger is refused: a create or an update whose caller is not the
/// author, and a copy whose caller is not the author of the target, is
/// refused with `PermissionDenied`, whatever else is given, and the
/// registry after it is the registry before it.
pub proof fn lemma_stranger_is_refused(
    reg: RegistryView,
    caller: Seq<char>,
    author: Seq<char>,
    id: Seq<char>,
    mutation: MutationView,
    description: Option<Seq<char>>,
    overrides: Option<Seq<OverrideView>>,
    source_author: Seq<char>,
    source_id: Seq<char>,
)
    requires
        caller != author,
    ensures
        create_step(reg, caller, author, id, mutation) == Err::<RegistryView, RegistryError>(
            RegistryError::PermissionDenied,
        ),
        update_step(reg, caller, author, id, description, overrides) == Err::<
            RegistryView,
            RegistryError,
        >(RegistryError::PermissionDenied),
        copy_step(reg, caller, source_author, source_id, author, id) == Err::<
            RegistryView,
            RegistryError,
        >(RegistryError::PermissionDenied),
        settled(reg, create_step(reg, caller, author, id, mutation)) == reg,
        settled(reg, update_step(reg, caller, author, id, description, overrides)) == reg,
        settled(reg, copy_step(reg, caller, source_author, source_id, author, id)) == reg,
{
}

/// An update replaces what it is given and keeps the rest: after an update
/// by the author of an existing mutation, a given description stands in
/// place of the old one and a given list of overrides in place of the old
/// list, and a part that was not given is as before. The registry stays
/// well formed and every other mutation is as it was.
pub proof fn lemma_update_then_get(
    reg: RegistryView,
    author: Seq<char>,
    id: Seq<char>,
    description: Option<Seq<char>>,
    overrides: Option<Seq<OverrideView>>,
    other_author: Seq<char>,
    other_id: Seq<char>,
)
    requires
        well_formed(reg),
        get(reg, author, id) is Some,
    ensures
        update_step(reg, author, author, id, description, overrides) is Ok,
        well_formed(update_step(reg, author, author, id, description, overrides)->Ok_0),
        get(update_step(reg, author, author, id, description, overrides)->Ok_0, author, id)
            == Some(
            MutationView {
                description: if description is Some {
                    description->0
                } else {
                    get(reg, author, id)->0.description
                },
                overrides: if overrides is Some {
                    overrides->0
                } else {
                    get(reg, author, id)->0.overrides
                },
            },
        ),
        other_author != author || other_id != id ==> get(
            update_step(reg, author, author, id, description, overrides)->Ok_0,
            other_author,
            other_id,
        ) == get(reg, other_author, other_id),
{
    let now = revised(get(reg, author, id)->0, description, overrides);
    lemma_get_after_store(reg, author, id, now, author, id);
    lemma_get_after_store(reg, author, id, now, other_author, other_id);
}

/// An update of what is not there does nothing: it is not refused, it
/// leaves the registry as it was, and so it creates no entry.
pub proof fn lemma_update_of_nothing(
    reg: RegistryView,
    author: Seq<char>,
    id: Seq<char>,
    description: Option<Seq<char>>,
    overrides: Option<Seq<OverrideView>>,
)
    requires
        get(reg, author, id) is None,
    ensures
        update_step(reg, author, author, id, description, overrides) == Ok::<
            RegistryView,
            RegistryError,
        >(reg),
        settled(reg, update_step(reg, author, author, id, description, overrides)) == reg,
        get(
            settled(reg, update_step(reg, author, author, id, description, overrides)),
            author,
            id,
        ) is None,
{
}

/// As the rule for copying stands, whoever owns the target may copy from
/// any source, their own or another author's.
pub proof fn lemma_owner_of_target_may_copy(
    caller: Seq<char>,
    source_author: Seq<char>,
    target_author: Seq<char>,
)
    requires
        caller == target_author,
    ensures
        may_copy(caller, source_author, target_author),
{
}

/// A copy gives the target the overrides of the source and nothing else:
/// where both exist, after a copy by the author of the target the target
/// has its old description and the overrides of the source. The registry
/// stays well formed and every other mutation is as it was.
pub proof fn lemma_copy_then_get(
    reg: RegistryView,
    source_author: Seq<char>,
    source_id: Seq<char>,
    target_author: Seq<char>,
    target_id: Seq<char>,
    other_author: Seq<char>,
    other_id: Seq<char>,
)
    requires
        well_formed(reg),
        get(reg, source_author, source_id) is Some,
        get(reg, target_author, target_id) is Some,
    ensures
        copy_step(reg, target_author, source_author, source_id, target_author, target_id) is Ok,
        well_formed(
            copy_step(reg, target_author, source_author, source_id, target_author, target_id)->Ok_0,
        ),
        get(
            copy_step(reg, target_author, source_author, source_id, target_author, target_id)->Ok_0,
            target_author,
            target_id,
        ) == Some(
            MutationView {
                description: get(reg, target_author, target_id)->0.description,
                overrides: get(reg, source_author, source_id)->0.overrides,
            },
        ),
        other_author != target_author || other_id != target_id ==> get(
            copy_step(reg, target_author, source_author, source_id, target_author, target_id)->Ok_0,
            other_author,
            other_id,
        ) == get(reg, other_author, other_id),
{
    lemma_owner_of_target_may_copy(target_author, source_author, target_author);
    let target = get(reg, target_author, target_id)->0;
    let source = get(reg, source_author, source_id)->0;
    let now = revised(target, None, Some(source.overrides));
    lemma_get_after_store(reg, target_author, target_id, now, target_author, target_id);
    lemma_get_after_store(reg, target_author, target_id, now, other_author, other_id);
}

/// A copy by a caller who may copy is refused with `SourceNotFound` where
/// there is no source, whether or not there is a target, and with
/// `TargetNotFound` where there is a source and no target. Either way the
/// registry after it is the registry before it.
pub proof fn lemma_copy_refusals(
    reg: RegistryView,
    caller: Seq<char>,
    source_author: Seq<char>,
    source_id: Seq<char>,
    target_author: Seq<char>,
    target_id: Seq<char>,
)
    requires
        may_copy(caller, source_author, target_author),
    ensures
        get(reg, source_author, source_id) is None ==> copy_step(
            reg,
            caller,
            source_author,
            source_id,
            target_author,
            target_id,
        ) == Err::<RegistryView, RegistryError>(RegistryError::SourceNotFound),
        get(reg, source_author, source_id) is Some && get(reg, target_author, target_id) is None
            ==> copy_step(reg, caller, source_author, source_id, target_author, target_id) == Err::<
            RegistryView,
            RegistryError,
        >(RegistryError::TargetNotFound),
        get(reg, source_author, source_id) is None || get(reg, target_author, target_id) is None
            ==> settled(
            reg,
            copy_step(reg, caller, source_author, source_id, target_author, target_id),
        ) == reg,
{
}

/// The listing of the whole registry has one line for each mutation on each
/// shelf: its length is the sum of the lengths of the shelves.
pub proof fn lemma_listing_length(reg: RegistryView)
    ensures
        listing(reg).len() == total(reg),
    decreases reg.len(),
{
    if reg.len() > 0 {
        lemma_listing_length(reg.drop_last());
    }
}

/// The shelves that are summed up are the shelves that the authors' names
/// lead to: each author of the registry has the shelf that stands beside
/// the name.
pub proof fn lemma_shelf_of_author(reg: RegistryView, i: int)
    requires
        well_formed(reg),
        0 <= i < reg.len(),
    ensures
        shelf_of(reg, reg[i].0) == reg[i].1,
{
    lemma_slot_is(reg, reg[i].0, i);
}

/// All but the last author of a well-formed registry make a well-formed
/// registry, in which their names lead to the same shelves.
proof fn lemma_without_last(reg: RegistryView)
    requires
        well_formed(reg),
        reg.len() > 0,
    ensures
        well_formed(reg.drop_last()),
        !has_key(reg.drop_last(), reg.last().0),
        lookup(reg, reg.last().0) == Some(reg.last().1),
        forall|author: Seq<char>| #[trigger]
            has_key(reg.drop_last(), author) ==> lookup(reg, author) == lookup(
                reg.drop_last(),
                author,
            ),
        forall|author: Seq<char>| #[trigger]
            has_key(reg, author) ==> author == reg.last().0 || has_key(reg.drop_last(), author),
{
    let init = reg.drop_last();
    let last = reg.len() - 1;
    assert forall|i: int| 0 <= i < init.len() implies #[trigger] init[i] == reg[i] by {}
    assert(keys_distinct(init));
    assert forall|i: int| 0 <= i < init.len() implies keys_distinct((#[trigger] init[i]).1) by {
        assert(init[i] == reg[i]);
    }
    if has_key(init, reg.last().0) {
        let i = slot(init, reg.last().0);
        assert(reg[i].0 != reg[last].0);
    }
    lemma_slot_is(reg, reg.last().0, last);
    assert forall|author: Seq<char>| #[trigger] has_key(init, author) implies lookup(reg, author)
        == lookup(init, author) by {
        let i = slot(init, author);
        assert(reg[i] == init[i]);
        lemma_slot_is(reg, author, i);
    }
    assert forall|author: Seq<char>| #[trigger] has_key(reg, author) implies author
        == reg.last().0 || has_key(init, author) by {
        let i = slot(reg, author);
        if i < last {
            assert(init[i].0 == author);
        }
    }
}

/// The listing of the whole registry holds each mutation once: every line
/// gives an author, an identifier and the mutation that the two lead to; no
/// two lines give the same author and identifier; and every mutation that
/// an author and an identifier lead to has its line.
pub proof fn lemma_listing_holds_each_once(reg: RegistryView)
    requires
        well_formed(reg),
    ensures
        forall|k: int|
            0 <= k < listing(reg).len() ==> get(
                reg,
                (#[trigger] listing(reg)[k]).0,
                listing(reg)[k].1,
            ) == Some(listing(reg)[k].2),
        forall|k: int, l: int|
            0 <= k < l < listing(reg).len() ==> (#[trigger] listing(reg)[k]).0 != (
            #[trigger] listing(reg)[l]).0 || listing(reg)[k].1 != listing(reg)[l].1,
        forall|author: Seq<char>, id: Seq<char>|
            (#[trigger] get(reg, author, id)) is Some ==> exists|k: int|
                0 <= k < listing(reg).len() && #[trigger] listing(reg)[k] == (
                    author,
                    id,
                    get(reg, author, id)->0,
                ),
    decreases reg.len(),
{
    if reg.len() > 0 {
        let init = reg.drop_last();
        let name = reg.last().0;
        let shelf = reg.last().1;
        let lines = listing(reg);
        let early = listing(init);
        let late = lines_of(name, shelf);
        lemma_without_last(reg);
        lemma_listing_holds_each_once(init);
        assert(keys_distinct(shelf)) by {
            assert(shelf == reg[reg.len() - 1].1);
        }
        assert forall|k: int| 0 <= k < lines.len() implies get(
            reg,
            (#[trigger] lines[k]).0,
            lines[k].1,
        ) == Some(lines[k].2) && (k < early.len() <==> has_key(init, lines[k].0)) && (k
            >= early.len() ==> lines[k].0 == name && lines[k].1 == shelf[k - early.len()].0) by {
            if k < early.len() {
                assert(lines[k] == early[k]);
                assert(get(init, early[k].0, early[k].1) is Some);
                assert(has_key(init, early[k].0));
            } else {
                let j = k - early.len();
                assert(lines[k] == late[j]);
                lemma_slot_is(shelf, shelf[j].0, j);
            }
        }
        assert forall|k: int, l: int| 0 <= k < l < lines.len() implies (#[trigger] lines[k]).0 != (
        #[trigger] lines[l]).0 || lines[k].1 != lines[l].1 by {
            if l < early.len() {
                assert(lines[k] == early[k] && lines[l] == early[l]);
            } else if k >= early.len() {
                assert(shelf[k - early.len()].0 != shelf[l - early.len()].0);
            }
        }
        assert forall|author: Seq<char>, id: Seq<char>| (#[trigger] get(reg, author, id))
            is Some implies exists|k: int|
            0 <= k < lines.len() && #[trigger] lines[k] == (author, id, get(reg, author, id)->0) by {
            assert(has_key(reg, author));
            if author == name {
                let j = slot(shelf, id);
                assert(lines[early.len() + j] == late[j]);
            } else {
                assert(has_key(init, author));
                assert(get(init, author, id) is Some);
                let k = choose|k: int|
                    0 <= k < early.len() && #[trigger] early[k] == (
                        author,
                        id,
                        get(init, author, id)->0,
                    );
                assert(lines[k] == early[k]);
            }
        }
    }
}

/// Storing the lines of one sequence and then those of another is storing
/// the lines of the two put together.
proof fn lemma_filed_in_two(reg: RegistryView, early: Seq<Line>, late: Seq<Line>)
    ensures
        filed(reg, early + late) == filed(filed(reg, early), late),
    decreases late.len(),
{
    if late.len() == 0 {
        assert(early + late =~= early);
    } else {
        lemma_filed_in_two(reg, early, late.drop_last());
        assert((early + late).drop_last() =~= early + late.drop_last());
    }
}

/// Storing the first `n` lines of a new author's shelf puts the first `n`
/// entries of that shelf at the end of the registry.
proof fn lemma_filed_shelf(reg: RegistryView, author: Seq<char>, shelf: Shelf, n: int)
    requires
        distinct_throughout(reg),
        !has_key(reg, author),
        keys_distinct(shelf),
        1 <= n <= shelf.len(),
    ensures
        filed(reg, lines_of(author, shelf.take(n))) == reg.push((author, shelf.take(n))),
    decreases n,
{
    let lines = lines_of(author, shelf.take(n));
    let entry = shelf[n - 1];
    assert(lines.last() == (author, entry.0, entry.1));
    if n == 1 {
        assert(lines.drop_last() =~= Seq::<Line>::empty());
        assert(filed(reg, lines.drop_last()) == reg);
        assert(!has_key(shelf_of(reg, author), entry.0));
        assert(put(shelf_of(reg, author), entry.0, entry.1) =~= shelf.take(1));
        assert(stored(reg, author, entry.0, entry.1) =~= reg.push((author, shelf.take(1))));
    } else {
        lemma_filed_shelf(reg, author, shelf, n - 1);
        assert(lines.drop_last() =~= lines_of(author, shelf.take(n - 1)));
        let so_far = reg.push((author, shelf.take(n - 1)));
        assert(keys_distinct(so_far));
        lemma_slot_is(so_far, author, reg.len() as int);
        if has_key(shelf.take(n - 1), entry.0) {
            let j = slot(shelf.take(n - 1), entry.0);
            assert(shelf[j].0 != shelf[n - 1].0);
        }
        assert(put(shelf.take(n - 1), entry.0, entry.1) =~= shelf.take(n));
        assert(stored(so_far, author, entry.0, entry.1) =~= reg.push((author, shelf.take(n))));
    }
}

/// A registry can be rebuilt from its listing: storing the lines of the
/// listing one after another in an empty registry gives the registry that
/// was listed, shelf for shelf and in the same order.
pub proof fn lemma_replay_of_listing(reg: RegistryView)
    requires
        well_formed(reg),
    ensures
        replay(listing(reg)) == reg,
    decreases reg.len(),
{
    if reg.len() == 0 {
        assert(reg =~= Seq::empty());
    } else {
        let init = reg.drop_last();
        let author = reg.last().0;
        let shelf = reg.last().1;
        lemma_without_last(reg);
        lemma_replay_of_listing(init);
        lemma_filed_in_two(Seq::empty(), listing(init), lines_of(author, shelf));
        assert(keys_distinct(shelf) && shelf.len() > 0) by {
            assert(shelf == reg[reg.len() - 1].1);
        }
        lemma_filed_shelf(init, author, shelf, shelf.len() as int);
        assert(shelf.take(shelf.len() as int) =~= shelf);
        assert(init.push((author, shelf)) =~= reg);
    }
}

/// An author under whom nothing can be read has an empty shelf: the list of
/// that author's mutations is empty.
pub proof fn lemma_nothing_written_nothing_listed(reg: RegistryView, author: Seq<char>)
    requires
        forall|id: Seq<char>| get(reg, author, id) is None,
    ensures
        shelf_of(reg, author) == Seq::<(Seq<char>, MutationView)>::empty(),
{
    let shelf = shelf_of(reg, author);
    if shelf.len() > 0 {
        assert(has_key(shelf, shelf[0].0));
        assert(get(reg, author, shelf[0].0) is Some);
    }
    assert(shelf =~= Seq::empty());
}

} // verus!
