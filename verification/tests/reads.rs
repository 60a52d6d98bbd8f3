use mutation_registry::record::{Mutation, Override};
use mutation_registry::registry::MutationRegistry;

fn text(s: &str) -> String {
    s.to_string()
}

fn rule(from: &str, to: &str) -> Override {
    Override { from_src: text(from), to_src: text(to) }
}

fn mutation(description: &str, overrides: Vec<Override>) -> Mutation {
    Mutation { description: text(description), overrides }
}

fn create(reg: &mut MutationRegistry, author: &str, id: &str, description: &str) {
    let made = reg.create_mutation(
        &text(author),
        text(author),
        text(id),
        text(description),
        vec![rule(id, description)],
    );
    assert_eq!(made, Ok(true));
}

fn three_authors() -> MutationRegistry {
    let mut reg = MutationRegistry::new();
    create(&mut reg, "bob.near", "b1", "first of bob");
    create(&mut reg, "alice.near", "a1", "first of alice");
    create(&mut reg, "bob.near", "b2", "second of bob");
    create(&mut reg, "carol.near", "c1", "first of carol");
    create(&mut reg, "alice.near", "a2", "second of alice");
    create(&mut reg, "bob.near", "b3", "third of bob");
    reg
}

#[test]
fn a_new_registry_holds_nothing() {
    let reg = MutationRegistry::new();
    assert!(reg.get_all_mutations().is_empty());
    assert!(reg.get_mutations_by_author(text("alice.near")).is_empty());
    assert_eq!(reg.get_mutation(text("alice.near"), text("m")), None);
    let reg = MutationRegistry::default();
    assert!(reg.get_all_mutations().is_empty());
}

#[test]
fn get_of_a_missing_mutation_is_none() {
    let reg = three_authors();
    assert_eq!(reg.get_mutation(text("alice.near"), text("b1")), None);
    assert_eq!(reg.get_mutation(text("dave.near"), text("a1")), None);
    assert_eq!(reg.get_mutation(text("alice.near"), text("")), None);
}

#[test]
fn by_author_lists_in_order_of_first_use() {
    let reg = three_authors();
    assert_eq!(
        reg.get_mutations_by_author(text("bob.near")),
        vec![
            (text("b1"), mutation("first of bob", vec![rule("b1", "first of bob")])),
            (text("b2"), mutation("second of bob", vec![rule("b2", "second of bob")])),
            (text("b3"), mutation("third of bob", vec![rule("b3", "third of bob")])),
        ]
    );
    assert_eq!(
        reg.get_mutations_by_author(text("carol.near")),
        vec![(text("c1"), mutation("first of carol", vec![rule("c1", "first of carol")]))]
    );
}

#[test]
fn by_author_is_empty_for_an_author_without_mutations() {
    let reg = three_authors();
    assert_eq!(reg.get_mutations_by_author(text("dave.near")), vec![]);
    assert_eq!(reg.get_mutations_by_author(text("")), vec![]);
}

#[test]
fn all_lists_author_by_author() {
    let reg = three_authors();
    let all = reg.get_all_mutations();
    let keys: Vec<(String, String)> =
        all.iter().map(|line| (line.0.clone(), line.1.clone())).collect();
    assert_eq!(
        keys,
        vec![
            (text("bob.near"), text("b1")),
            (text("bob.near"), text("b2")),
            (text("bob.near"), text("b3")),
            (text("alice.near"), text("a1")),
            (text("alice.near"), text("a2")),
            (text("carol.near"), text("c1")),
        ]
    );
    assert_eq!(all[3usize].2, mutation("first of alice", vec![rule("a1", "first of alice")]));
}

#[test]
fn all_is_as_long_as_the_lists_by_author_together() {
    let reg = three_authors();
    let by_author: usize = reg.get_mutations_by_author(text("alice.near")).len()
        + reg.get_mutations_by_author(text("bob.near")).len()
        + reg.get_mutations_by_author(text("carol.near")).len();
    assert_eq!(by_author, 6usize);
    assert_eq!(reg.get_all_mutations().len(), by_author);
}

#[test]
fn all_holds_each_mutation_once_and_as_get_gives_it() {
    let reg = three_authors();
    let all = reg.get_all_mutations();
    for (k, line) in all.iter().enumerate() {
        assert_eq!(reg.get_mutation(line.0.clone(), line.1.clone()).as_ref(), Some(&line.2));
        for later in all.iter().skip(k + 1usize) {
            assert!(line.0 != later.0 || line.1 != later.1);
        }
    }
}

#[test]
fn overwriting_and_updating_keep_the_place_in_the_listing() {
    let mut reg = three_authors();
    create(&mut reg, "bob.near", "b1", "first of bob, again");
    let done = reg.update_mutation(
        &text("alice.near"),
        text("alice.near"),
        text("a1"),
        Some(text("first of alice, updated")),
        None,
    );
    assert_eq!(done, Ok(()));
    let done = reg.copy_overrides(
        &text("carol.near"),
        text("bob.near"),
        text("b2"),
        text("carol.near"),
        text("c1"),
    );
    assert_eq!(done, Ok(()));
    let all = reg.get_all_mutations();
    let told: Vec<(String, String, String)> = all
        .iter()
        .map(|line| (line.0.clone(), line.1.clone(), line.2.description.clone()))
        .collect();
    assert_eq!(
        told,
        vec![
            (text("bob.near"), text("b1"), text("first of bob, again")),
            (text("bob.near"), text("b2"), text("second of bob")),
            (text("bob.near"), text("b3"), text("third of bob")),
            (text("alice.near"), text("a1"), text("first of alice, updated")),
            (text("alice.near"), text("a2"), text("second of alice")),
            (text("carol.near"), text("c1"), text("first of carol")),
        ]
    );
    assert_eq!(all[5usize].2.overrides, vec![rule("b2", "second of bob")]);
}

#[test]
fn what_is_read_is_a_copy() {
    let reg = three_authors();
    let mut found = reg.get_mutation(text("alice.near"), text("a1")).unwrap();
    found.description = text("changed outside");
    found.overrides.clear();
    assert_eq!(
        reg.get_mutation(text("alice.near"), text("a1")),
        Some(mutation("first of alice", vec![rule("a1", "first of alice")]))
    );
}

#[test]
fn a_clone_of_a_mutation_equals_it() {
    let given = mutation("d", vec![rule("a", "b"), rule("c", "d")]);
    let copy = given.clone();
    assert_eq!(copy, given);
    assert_eq!(rule("a", "b").clone(), rule("a", "b"));
}

#[test]
fn restore_of_a_listing_gives_the_registry_again() {
    let reg = three_authors();
    let again = MutationRegistry::restore(&reg.get_all_mutations());
    assert_eq!(again.get_all_mutations(), reg.get_all_mutations());
    assert_eq!(
        again.get_mutations_by_author(text("bob.near")),
        reg.get_mutations_by_author(text("bob.near"))
    );
    assert_eq!(
        again.get_mutation(text("carol.near"), text("c1")),
        Some(mutation("first of carol", vec![rule("c1", "first of carol")]))
    );
}

#[test]
fn restore_lets_a_later_line_overwrite_an_earlier_one() {
    let lines = vec![
        (text("alice.near"), text("m"), mutation("one", vec![])),
        (text("bob.near"), text("m"), mutation("two", vec![])),
        (text("alice.near"), text("m"), mutation("three", vec![rule("a", "b")])),
    ];
    let reg = MutationRegistry::restore(&lines);
    assert_eq!(
        reg.get_all_mutations(),
        vec![
            (text("alice.near"), text("m"), mutation("three", vec![rule("a", "b")])),
            (text("bob.near"), text("m"), mutation("two", vec![])),
        ]
    );
    assert!(MutationRegistry::restore(&vec![]).get_all_mutations().is_empty());
}
