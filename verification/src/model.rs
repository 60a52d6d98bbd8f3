//! The mathematical model of the registry.
//!
//! A registry is a sequence of authors, each with a shelf: the sequence of
//! that author's mutations under their identifiers. Both sequences keep the
//! order in which their keys were first written, and no key occurs twice in
//! either. Reading them as maps gives the registry its meaning; reading them
//! as sequences gives the order in which the listings come out.

use vstd::prelude::*;
use crate::error::RegistryError;

verus! {

/// What an override is: two texts.
pub struct OverrideView {
    pub from_src: Seq<char>,
    pub to_src: Seq<char>,
}

/// What a mutation is: a text and a sequence of overrides.
pub struct MutationView {
    pub description: Seq<char>,
    pub overrides: Seq<OverrideView>,
}

/// One author's mutations, each under its identifier.
pub type Shelf = Seq<(Seq<char>, MutationView)>;

/// The whole registry: each author with their shelf.
pub type RegistryView = Seq<(Seq<char>, Shelf)>;

/// One line of the listing of the whole registry: author, identifier, mutation.
pub type Line = (Seq<char>, Seq<char>, MutationView);

/// Whether some entry is filed under `key`.
pub open spec fn has_key<V>(entries: Seq<(Seq<char>, V)>, key: Seq<char>) -> bool {
    exists|i: int| 0 <= i < entries.len() && (#[trigger] entries[i]).0 == key
}

/// The place of an entry filed under `key`, where there is one.
pub open spec fn slot<V>(entries: Seq<(Seq<char>, V)>, key: Seq<char>) -> int {
    choose|i: int| 0 <= i < entries.len() && (#[trigger] entries[i]).0 == key
}

/// What is filed under `key`, if anything.
pub open spec fn lookup<V>(entries: Seq<(Seq<char>, V)>, key: Seq<char>) -> Option<V> {
    if has_key(entries, key) {
        Some(entries[slot(entries, key)].1)
    } else {
        None
    }
}

/// Files `value` under `key`: in the place of what was there, or else at the end.
pub open spec fn put<V>(entries: Seq<(Seq<char>, V)>, key: Seq<char>, value: V) -> Seq<
    (Seq<char>, V),
> {
    if has_key(entries, key) {
        entries.update(slot(entries, key), (key, value))
    } else {
        entries.push((key, value))
    }
}

/// No key is used by two entries.
pub open spec fn keys_distinct<V>(entries: Seq<(Seq<char>, V)>) -> bool {
    forall|i: int, j: int|
        0 <= i < j < entries.len() ==> (#[trigger] entries[i]).0 != (#[trigger] entries[j]).0
}

/// No author occurs twice, and on no shelf does an identifier occur twice.
pub open spec fn distinct_throughout(reg: RegistryView) -> bool {
    &&& keys_distinct(reg)
    &&& forall|i: int| 0 <= i < reg.len() ==> keys_distinct((#[trigger] reg[i]).1)
}

/// The invariant of a registry: no author occurs twice, on no shelf does an
/// identifier occur twice, and no shelf is empty. (An author enters the
/// registry with a first mutation, and nothing is ever removed.)
pub open spec fn well_formed(reg: RegistryView) -> bool {
    &&& distinct_throughout(reg)
    &&& forall|i: int| 0 <= i < reg.len() ==> (#[trigger] reg[i]).1.len() > 0
}

/// The shelf of `author`; empty for an author who never wrote.
pub open spec fn shelf_of(reg: RegistryView, author: Seq<char>) -> Shelf {
    match lookup(reg, author) {
        Some(shelf) => shelf,
        None => Seq::empty(),
    }
}

/// The mutation that `author` keeps under `id`, if any.
pub open spec fn get(reg: RegistryView, author: Seq<char>, id: Seq<char>) -> Option<
    MutationView,
> {
    lookup(shelf_of(reg, author), id)
}

/// The registry read as a map: what each author and identifier lead to.
pub open spec fn as_map(reg: RegistryView) -> Map<(Seq<char>, Seq<char>), MutationView> {
    Map::new(
        |key: (Seq<char>, Seq<char>)| get(reg, key.0, key.1) is Some,
        |key: (Seq<char>, Seq<char>)| get(reg, key.0, key.1)->0,
    )
}

/// The registry with `mutation` filed under `author` and `id`, in the place
/// of what was there before, if anything was.
pub open spec fn stored(
    reg: RegistryView,
    author: Seq<char>,
    id: Seq<char>,
    mutation: MutationView,
) -> RegistryView {
    put(reg, author, put(shelf_of(reg, author), id, mutation))
}

/// A mutation with those of its two parts replaced that are given.
pub open spec fn revised(
    mutation: MutationView,
    description: Option<Seq<char>>,
    overrides: Option<Seq<OverrideView>>,
) -> MutationView {
    MutationView {
        description: match description {
            Some(d) => d,
            None => mutation.description,
        },
        overrides: match overrides {
            Some(o) => o,
            None => mutation.overrides,
        },
    }
}

/// Whether a copy of overrides also needs the caller to own the source.
/// As it stands, owning the target is enough.
pub const COPY_NEEDS_SOURCE_OWNER: bool = false;

/// Who may copy overrides from a mutation of `source_author` into one of
/// `target_author`.
pub open spec fn may_copy(
    caller: Seq<char>,
    source_author: Seq<char>,
    target_author: Seq<char>,
) -> bool {
    caller == target_author && (COPY_NEEDS_SOURCE_OWNER ==> caller == source_author)
}

/// What creating a mutation does: refused unless the caller is the author;
/// otherwise the mutation is filed, over what was there.
pub open spec fn create_step(
    reg: RegistryView,
    caller: Seq<char>,
    author: Seq<char>,
    id: Seq<char>,
    mutation: MutationView,
) -> Result<RegistryView, RegistryError> {
    if caller != author {
        Err(RegistryError::PermissionDenied)
    } else {
        Ok(stored(reg, author, id, mutation))
    }
}

/// What updating a mutation does: refused unless the caller is the author;
/// nothing where there is no such mutation; otherwise the given parts are
/// replaced.
pub open spec fn update_step(
    reg: RegistryView,
    caller: Seq<char>,
    author: Seq<char>,
    id: Seq<char>,
    description: Option<Seq<char>>,
    overrides: Option<Seq<OverrideView>>,
) -> Result<RegistryView, RegistryError> {
    if caller != author {
        Err(RegistryError::PermissionDenied)
    } else {
        match get(reg, author, id) {
            Some(mutation) => Ok(
                stored(reg, author, id, revised(mutation, description, overrides)),
            ),
            None => Ok(reg),
        }
    }
}

/// What copying overrides does: refused unless the caller may copy; then
/// refused unless the source exists; then refused unless the target exists;
/// otherwise the target takes the overrides of the source and keeps its
/// description.
pub open spec fn copy_step(
    reg: RegistryView,
    caller: Seq<char>,
    source_author: Seq<char>,
    source_id: Seq<char>,
    target_author: Seq<char>,
    target_id: Seq<char>,
) -> Result<RegistryView, RegistryError> {
    if !may_copy(caller, source_author, target_author) {
        Err(RegistryError::PermissionDenied)
    } else {
        match get(reg, source_author, source_id) {
            None => Err(RegistryError::SourceNotFound),
            Some(source) => match get(reg, target_author, target_id) {
                None => Err(RegistryError::TargetNotFound),
                Some(target) => Ok(
                    stored(
                        reg,
                        target_author,
                        target_id,
                        revised(target, None, Some(source.overrides)),
                    ),
                ),
            },
        }
    }
}

/// The registry after a write was asked for: the new one where the write
/// went through, the old one where it was refused.
pub open spec fn settled(
    reg: RegistryView,
    step: Result<RegistryView, RegistryError>,
) -> RegistryView {
    match step {
        Ok(next) => next,
        Err(_) => reg,
    }
}

/// A write that a caller may ask for.
pub enum Write {
    /// File `mutation` under `author` and `id`.
    Create { author: Seq<char>, id: Seq<char>, mutation: MutationView },
    /// Replace the given parts of the mutation under `author` and `id`.
    Update {
        author: Seq<char>,
        id: Seq<char>,
        description: Option<Seq<char>>,
        overrides: Option<Seq<OverrideView>>,
    },
    /// Give the mutation under `target_author` and `target_id` the overrides
    /// of the one under `source_author` and `source_id`.
    Copy {
        source_author: Seq<char>,
        source_id: Seq<char>,
        target_author: Seq<char>,
        target_id: Seq<char>,
    },
}

/// What a write does when `caller` asks for it.
pub open spec fn write_step(reg: RegistryView, caller: Seq<char>, write: Write) -> Result<
    RegistryView,
    RegistryError,
> {
    match write {
        Write::Create { author, id, mutation } => create_step(reg, caller, author, id, mutation),
        Write::Update { author, id, description, overrides } => update_step(
            reg,
            caller,
            author,
            id,
            description,
            overrides,
        ),
        Write::Copy { source_author, source_id, target_author, target_id } => copy_step(
            reg,
            caller,
            source_author,
            source_id,
            target_author,
            target_id,
        ),
    }
}

/// A shelf as lines of the listing: each entry with its author in front.
pub open spec fn lines_of(author: Seq<char>, shelf: Shelf) -> Seq<Line> {
    Seq::new(shelf.len(), |j: int| (author, shelf[j].0, shelf[j].1))
}

/// The listing of the whole registry: the shelves one after another.
pub open spec fn listing(reg: RegistryView) -> Seq<Line>
    decreases reg.len(),
{
    if reg.len() == 0 {
        Seq::empty()
    } else {
        listing(reg.drop_last()) + lines_of(reg.last().0, reg.last().1)
    }
}

/// The registry that comes of storing in `reg` the mutations of `lines` one
/// after another, each under its author and identifier.
pub open spec fn filed(reg: RegistryView, lines: Seq<Line>) -> RegistryView
    decreases lines.len(),
{
    if lines.len() == 0 {
        reg
    } else {
        stored(filed(reg, lines.drop_last()), lines.last().0, lines.last().1, lines.last().2)
    }
}

/// The registry that comes of storing the mutations of `lines` one after
/// another in an empty registry.
pub open spec fn replay(lines: Seq<Line>) -> RegistryView {
    filed(Seq::empty(), lines)
}

/// How many mutations the registry holds: the sum of the lengths of the shelves.
pub open spec fn total(reg: RegistryView) -> nat
    decreases reg.len(),
{
    if reg.len() == 0 {
        0
    } else {
        total(reg.drop_last()) + reg.last().1.len()
    }
}

} // verus!
