//! The registry and its operations.

use vstd::prelude::*;
use crate::error::RegistryError;
use crate::keyed::{file, find};
use crate::model::{
    copy_step, create_step, distinct_throughout, get, has_key, lines_of, listing, may_copy, put,
    replay, revised, settled, shelf_of, slot, stored, total, update_step, well_formed,
    MutationView, RegistryView, COPY_NEEDS_SOURCE_OWNER,
};
use crate::record::{Mutation, Override};

verus! {

/// The registry: every author's mutations, each under its identifier.
///
/// Anybody may read. A write names the caller on whose behalf it is made,
/// and is refused unless that caller is the author whose mutations it
/// changes. Nothing is ever removed.
pub struct MutationRegistry {
    authors: Vec<(String, Vec<(String, Mutation)>)>,
}

impl View for MutationRegistry {
    type V = RegistryView;

    closed spec fn view(&self) -> RegistryView {
        self.authors.deep_view()
    }
}

/// The place of `author`'s shelf, which is set up empty at the end if the
/// author has none yet.
fn shelf_place(
    authors: &mut Vec<(String, Vec<(String, Mutation)>)>,
    author: String,
) -> (place: usize)
    requires
        distinct_throughout(old(authors).deep_view()),
    ensures
        distinct_throughout(final(authors).deep_view()),
        final(authors).deep_view() == (if has_key(old(authors).deep_view(), author@) {
            old(authors).deep_view()
        } else {
            old(authors).deep_view().push((author@, Seq::empty()))
        }),
        place < final(authors).len(),
        place == slot(final(authors).deep_view(), author@),
        has_key(final(authors).deep_view(), author@),
        final(authors).deep_view()[place as int].1 == shelf_of(old(authors).deep_view(), author@),
{
    let ghost before = authors.deep_view();
    match find(authors, &author) {
        Some(place) => place,
        None => {
            let place = authors.len();
            let ghost name = author@;
            authors.push((author, Vec::new()));
            proof {
                let after = authors.deep_view();
                assert(after[place as int].1 =~= Seq::empty());
                assert(after =~= before.push((name, Seq::empty())));
                crate::laws::lemma_slot_is(after, name, place as int);
            }
            place
        },
    }
}

/// Files `mutation` under `author` and `id`, over what was there before, if
/// anything was.
fn store(
    authors: &mut Vec<(String, Vec<(String, Mutation)>)>,
    author: String,
    id: String,
    mutation: Mutation,
)
    requires
        well_formed(old(authors).deep_view()),
    ensures
        well_formed(final(authors).deep_view()),
        final(authors).deep_view() == stored(old(authors).deep_view(), author@, id@, mutation@),
{
    let ghost before = authors.deep_view();
    let place = shelf_place(authors, author);
    let ghost between = authors.deep_view();
    file(&mut authors[place].1, id, mutation);
    proof {
        let after = authors.deep_view();
        assert(after =~= between.update(
            place as int,
            (author@, put(shelf_of(before, author@), id@, mutation@)),
        ));
        assert(after =~= stored(before, author@, id@, mutation@));
    }
}

/// The places of `author`'s shelf and, on it, of the mutation under `id`,
/// where there is such a mutation.
fn locate(
    authors: &Vec<(String, Vec<(String, Mutation)>)>,
    author: &String,
    id: &String,
) -> (found: Option<(usize, usize)>)
    requires
        distinct_throughout(authors.deep_view()),
    ensures
        found is Some <==> get(authors.deep_view(), author@, id@) is Some,
        found matches Some((i, j)) ==> {
            &&& i < authors.len()
            &&& has_key(authors.deep_view(), author@)
            &&& i == slot(authors.deep_view(), author@)
            &&& j < authors[i as int].1.len()
            &&& has_key(authors.deep_view()[i as int].1, id@)
            &&& j == slot(authors.deep_view()[i as int].1, id@)
            &&& get(authors.deep_view(), author@, id@) == Some(authors[i as int].1[j as int].1@)
        },
{
    match find(authors, author) {
        Some(i) => {
            assert(authors.deep_view()[i as int].1 == authors[i as int].1.deep_view());
            match find(&authors[i].1, id) {
                Some(j) => Some((i, j)),
                None => None,
            }
        },
        None => None,
    }
}

/// Adds to `lines` a copy of each entry of `shelf`, in order, with a copy of
/// `author` in front.
fn append_lines(
    lines: &mut Vec<(String, String, Mutation)>,
    author: &String,
    shelf: &Vec<(String, Mutation)>,
)
    ensures
        final(lines).deep_view() == old(lines).deep_view() + lines_of(author@, shelf.deep_view()),
{
    let ghost before = lines.deep_view();
    let ghost added = lines_of(author@, shelf.deep_view());
    let mut j: usize = 0;
    while j < shelf.len()
        invariant
            j <= shelf.len(),
            added == lines_of(author@, shelf.deep_view()),
            lines.deep_view() == before + added.take(j as int),
        decreases shelf.len() - j,
    {
        let ghost so_far = lines.deep_view();
        lines.push((author.clone(), shelf[j].0.clone(), shelf[j].1.clone()));
        assert(lines.deep_view() =~= so_far.push(added[j as int]));
        assert(before + added.take(j + 1) =~= (before + added.take(j as int)).push(
            added[j as int],
        ));
        j += 1;
    }
    assert(added.take(shelf.len() as int) =~= added);
}

/// Whether `caller` may copy overrides from a mutation of `source_author`
/// into one of `target_author`.
pub fn may_copy_overrides(
    caller: &String,
    source_author: &String,
    target_author: &String,
) -> (allowed: bool)
    ensures
        allowed == may_copy(caller@, source_author@, target_author@),
{
    *caller == *target_author && (!COPY_NEEDS_SOURCE_OWNER || *caller == *source_author)
}

impl MutationRegistry {
    #[verifier::type_invariant]
    spec fn sound(&self) -> bool {
        well_formed(self.authors.deep_view())
    }

    /// A registry that holds nothing.
    pub fn new() -> (reg: Self)
        ensures
            reg@ == RegistryView::empty(),
    {
        let reg = MutationRegistry { authors: Vec::new() };
        assert(reg.authors.deep_view() =~= RegistryView::empty());
        reg
    }

    /// The registry that comes of filing the mutations of `lines` one after
    /// another in an empty registry, each under its author and identifier:
    /// from the listing of a registry, that registry again.
    pub fn restore(lines: &Vec<(String, String, Mutation)>) -> (reg: Self)
        ensures
            reg@ == replay(lines.deep_view()),
            well_formed(reg@),
    {
        let ghost all = lines.deep_view();
        let mut authors: Vec<(String, Vec<(String, Mutation)>)> = Vec::new();
        assert(authors.deep_view() =~= replay(all.take(0)));
        let mut k: usize = 0;
        while k < lines.len()
            invariant
                k <= lines.len(),
                all == lines.deep_view(),
                well_formed(authors.deep_view()),
                authors.deep_view() == replay(all.take(k as int)),
            decreases lines.len() - k,
        {
            store(&mut authors, lines[k].0.clone(), lines[k].1.clone(), lines[k].2.clone());
            proof {
                let upto = all.take(k + 1);
                assert(upto.drop_last() =~= all.take(k as int));
                assert(upto.last() == all[k as int]);
            }
            k += 1;
        }
        assert(all.take(lines.len() as int) =~= all);
        MutationRegistry { authors }
    }

    /// Files a mutation under `author_id` and `mutation_id` on behalf of
    /// `caller`, over whatever was filed there before.
    ///
    /// Refused with `PermissionDenied`, and nothing changes, unless `caller`
    /// is `author_id`. Otherwise the answer is `true`.
    pub fn create_mutation(
        &mut self,
        caller: &String,
        author_id: String,
        mutation_id: String,
        description: String,
        overrides: Vec<Override>,
    ) -> (result: Result<bool, RegistryError>)
        ensures
            well_formed(final(self)@),
            final(self)@ == settled(
                old(self)@,
                create_step(
                    old(self)@,
                    caller@,
                    author_id@,
                    mutation_id@,
                    (MutationView { description: description@, overrides: overrides.deep_view() }),
                ),
            ),
            result == (match create_step(
                old(self)@,
                caller@,
                author_id@,
                mutation_id@,
                (MutationView { description: description@, overrides: overrides.deep_view() }),
            ) {
                Ok(_) => Ok::<bool, RegistryError>(true),
                Err(refusal) => Err::<bool, RegistryError>(refusal),
            }),
    {
        proof {
            use_type_invariant(&*self);
        }
        if !(*caller == author_id) {
            return Err(RegistryError::PermissionDenied);
        }
        let mut authors = Vec::new();
        core::mem::swap(&mut authors, &mut self.authors);
        store(&mut authors, author_id, mutation_id, Mutation { description, overrides });
        self.authors = authors;
        Ok(true)
    }

    /// Replaces, on behalf of `caller`, those parts of the mutation under
    /// `author_id` and `mutation_id` that are given, and keeps the others.
    ///
    /// Refused with `PermissionDenied` unless `caller` is `author_id`. Where
    /// there is no such mutation, nothing changes and nothing is refused.
    pub fn update_mutation(
        &mut self,
        caller: &String,
        author_id: String,
        mutation_id: String,
        description: Option<String>,
        overrides: Option<Vec<Override>>,
    ) -> (result: Result<(), RegistryError>)
        ensures
            well_formed(final(self)@),
            final(self)@ == settled(
                old(self)@,
                update_step(
                    old(self)@,
                    caller@,
                    author_id@,
                    mutation_id@,
                    description.deep_view(),
                    overrides.deep_view(),
                ),
            ),
            result == (match update_step(
                old(self)@,
                caller@,
                author_id@,
                mutation_id@,
                description.deep_view(),
                overrides.deep_view(),
            ) {
                Ok(_) => Ok::<(), RegistryError>(()),
                Err(refusal) => Err::<(), RegistryError>(refusal),
            }),
    {
        proof {
            use_type_invariant(&*self);
        }
        if !(*caller == author_id) {
            return Err(RegistryError::PermissionDenied);
        }
        let ghost before = self@;
        match locate(&self.authors, &author_id, &mutation_id) {
            Some((i, j)) => {
                let mut authors = Vec::new();
                core::mem::swap(&mut authors, &mut self.authors);
                let ghost was = authors[i as int].1[j as int].1@;
                if let Some(text) = description {
                    authors[i].1[j].1.description = text;
                }
                if let Some(rules) = overrides {
                    authors[i].1[j].1.overrides = rules;
                }
                proof {
                    let now = revised(was, description.deep_view(), overrides.deep_view());
                    let after = authors.deep_view();
                    assert(after[i as int].1 =~= before[i as int].1.update(
                        j as int,
                        (mutation_id@, now),
                    ));
                    assert(after =~= stored(before, author_id@, mutation_id@, now));
                }
                self.authors = authors;
            },
            None => {},
        }
        Ok(())
    }

    /// Gives, on behalf of `caller`, the mutation under `target_author_id`
    /// and `target_mutation_id` the overrides of the mutation under
    /// `source_author_id` and `source_mutation_id`. The target keeps its
    /// description.
    ///
    /// Refused with `PermissionDenied` unless `caller` may copy, which is to
    /// say unless `caller` is `target_author_id`: whose the source is does
    /// not matter. Then refused with `SourceNotFound` if there is no source,
    /// and then with `TargetNotFound` if there is no target.
    pub fn copy_overrides(
        &mut self,
        caller: &String,
        source_author_id: String,
        source_mutation_id: String,
        target_author_id: String,
        target_mutation_id: String,
    ) -> (result: Result<(), RegistryError>)
        ensures
            well_formed(final(self)@),
            final(self)@ == settled(
                old(self)@,
                copy_step(
                    old(self)@,
                    caller@,
                    source_author_id@,
                    source_mutation_id@,
                    target_author_id@,
                    target_mutation_id@,
                ),
            ),
            result == (match copy_step(
                old(self)@,
                caller@,
                source_author_id@,
                source_mutation_id@,
                target_author_id@,
                target_mutation_id@,
            ) {
                Ok(_) => Ok::<(), RegistryError>(()),
                Err(refusal) => Err::<(), RegistryError>(refusal),
            }),
    {
        proof {
            use_type_invariant(&*self);
        }
        if !may_copy_overrides(caller, &source_author_id, &target_author_id) {
            return Err(RegistryError::PermissionDenied);
        }
        let ghost before = self@;
        let rules = match locate(&self.authors, &source_author_id, &source_mutation_id) {
            Some((i, j)) => {
                let rules = self.authors[i].1[j].1.overrides.clone();
                assert(rules.deep_view() =~= self.authors[i as int].1[j as int].1.overrides
                    .deep_view());
                rules
            },
            None => {
                return Err(RegistryError::SourceNotFound);
            },
        };
        match locate(&self.authors, &target_author_id, &target_mutation_id) {
            Some((i, j)) => {
                let mut authors = Vec::new();
                core::mem::swap(&mut authors, &mut self.authors);
                let ghost was = authors[i as int].1[j as int].1@;
                authors[i].1[j].1.overrides = rules;
                proof {
                    let now = revised(was, None, Some(rules.deep_view()));
                    let after = authors.deep_view();
                    assert(after[i as int].1 =~= before[i as int].1.update(
                        j as int,
                        (target_mutation_id@, now),
                    ));
                    assert(after =~= stored(before, target_author_id@, target_mutation_id@, now));
                }
                self.authors = authors;
                Ok(())
            },
            None => Err(RegistryError::TargetNotFound),
        }
    }

    /// The mutation under `author_id` and `mutation_id`, if there is one.
    /// Anybody may ask.
    pub fn get_mutation(&self, author_id: String, mutation_id: String) -> (found: Option<Mutation>)
        ensures
            found.deep_view() == get(self@, author_id@, mutation_id@),
            well_formed(self@),
    {
        proof {
            use_type_invariant(self);
        }
        match locate(&self.authors, &author_id, &mutation_id) {
            Some((i, j)) => Some(self.authors[i].1[j].1.clone()),
            None => None,
        }
    }

    /// Every mutation with its author and identifier: author by author in
    /// the order in which they first wrote, and for each author the
    /// mutations in the order in which their identifiers were first used.
    /// Anybody may ask.
    pub fn get_all_mutations(&self) -> (listed: Vec<(String, String, Mutation)>)
        ensures
            listed.deep_view() == listing(self@),
            listed.len() == total(self@),
            well_formed(self@),
    {
        proof {
            use_type_invariant(self);
        }
        let ghost reg = self@;
        let mut listed: Vec<(String, String, Mutation)> = Vec::new();
        assert(listed.deep_view() =~= listing(reg.take(0)));
        let mut i: usize = 0;
        while i < self.authors.len()
            invariant
                i <= self.authors.len(),
                reg == self.authors.deep_view(),
                listed.deep_view() == listing(reg.take(i as int)),
            decreases self.authors.len() - i,
        {
            append_lines(&mut listed, &self.authors[i].0, &self.authors[i].1);
            proof {
                let upto = reg.take(i + 1);
                assert(upto.drop_last() =~= reg.take(i as int));
                assert(upto.last() == reg[i as int]);
            }
            i += 1;
        }
        proof {
            assert(reg.take(self.authors.len() as int) =~= reg);
            crate::laws::lemma_listing_length(reg);
        }
        listed
    }

    /// The mutations of `author_id`, each with its identifier, in the order
    /// in which the identifiers were first used; none for an author who
    /// never wrote. Anybody may ask.
    pub fn get_mutations_by_author(&self, author_id: String) -> (listed: Vec<(String, Mutation)>)
        ensures
            listed.deep_view() == shelf_of(self@, author_id@),
            well_formed(self@),
    {
        proof {
            use_type_invariant(self);
        }
        let mut listed: Vec<(String, Mutation)> = Vec::new();
        match find(&self.authors, &author_id) {
            Some(i) => {
                let shelf = &self.authors[i].1;
                let ghost wanted = shelf.deep_view();
                assert(wanted == self@[i as int].1);
                let mut j: usize = 0;
                assert(listed.deep_view() =~= wanted.take(0));
                while j < shelf.len()
                    invariant
                        j <= shelf.len(),
                        wanted == shelf.deep_view(),
                        listed.deep_view() == wanted.take(j as int),
                    decreases shelf.len() - j,
                {
                    let ghost so_far = listed.deep_view();
                    listed.push((shelf[j].0.clone(), shelf[j].1.clone()));
                    assert(listed.deep_view() =~= so_far.push(wanted[j as int]));
                    assert(wanted.take(j + 1) =~= wanted.take(j as int).push(wanted[j as int]));
                    j += 1;
                }
                assert(wanted.take(shelf.len() as int) =~= wanted);
            },
            None => {
                assert(listed.deep_view() =~= Seq::empty());
            },
        }
        listed
    }
}

impl Default for MutationRegistry {
    /// A registry that holds nothing.
    fn default() -> (reg: Self)
        ensures
            reg@ == RegistryView::empty(),
    {
        MutationRegistry::new()
    }
}

} // verus!
