use mutation_registry::error::RegistryError;
use mutation_registry::record::{Mutation, Override};
use mutation_registry::registry::{may_copy_overrides, MutationRegistry};

fn text(s: &str) -> String {
    s.to_string()
}

fn rule(from: &str, to: &str) -> Override {
    Override { from_src: text(from), to_src: text(to) }
}

fn mutation(description: &str, overrides: Vec<Override>) -> Mutation {
    Mutation { description: text(description), overrides }
}

fn with_dark_mode() -> MutationRegistry {
    let mut reg = MutationRegistry::new();
    let made = reg.create_mutation(
        &text("alice.near"),
        text("alice.near"),
        text("dark-mode"),
        text("Dark theme"),
        vec![rule("app/light.css", "alice.near/dark.css")],
    );
    assert_eq!(made, Ok(true));
    reg
}

#[test]
fn create_then_get_returns_what_was_given() {
    let reg = with_dark_mode();
    assert_eq!(
        reg.get_mutation(text("alice.near"), text("dark-mode")),
        Some(mutation("Dark theme", vec![rule("app/light.css", "alice.near/dark.css")]))
    );
}

#[test]
fn create_answers_true() {
    let mut reg = MutationRegistry::new();
    let made =
        reg.create_mutation(&text("bob.near"), text("bob.near"), text("m"), text(""), vec![]);
    assert_eq!(made, Ok(true));
    assert_eq!(reg.get_mutation(text("bob.near"), text("m")), Some(mutation("", vec![])));
}

#[test]
fn create_keeps_the_order_of_overrides() {
    let mut reg = MutationRegistry::new();
    let rules = vec![rule("c", "3"), rule("a", "1"), rule("b", "2"), rule("a", "1")];
    let made = reg.create_mutation(
        &text("alice.near"),
        text("alice.near"),
        text("m"),
        text("d"),
        rules,
    );
    assert_eq!(made, Ok(true));
    let found = reg.get_mutation(text("alice.near"), text("m")).unwrap();
    assert_eq!(
        found.overrides,
        vec![rule("c", "3"), rule("a", "1"), rule("b", "2"), rule("a", "1")]
    );
}

#[test]
fn create_twice_overwrites() {
    let mut reg = with_dark_mode();
    let again = reg.create_mutation(
        &text("alice.near"),
        text("alice.near"),
        text("dark-mode"),
        text("Darker theme"),
        vec![rule("app/light.css", "alice.near/darker.css"), rule("app/logo.svg", "alice.near/logo.svg")],
    );
    assert_eq!(again, Ok(true));
    assert_eq!(
        reg.get_mutation(text("alice.near"), text("dark-mode")),
        Some(mutation(
            "Darker theme",
            vec![
                rule("app/light.css", "alice.near/darker.css"),
                rule("app/logo.svg", "alice.near/logo.svg")
            ]
        ))
    );
    assert_eq!(reg.get_all_mutations().len(), 1usize);
}

#[test]
fn create_for_another_author_is_refused() {
    let mut reg = with_dark_mode();
    let refused = reg.create_mutation(
        &text("mallory.near"),
        text("alice.near"),
        text("dark-mode"),
        text("Defaced"),
        vec![],
    );
    assert_eq!(refused, Err(RegistryError::PermissionDenied));
    assert_eq!(
        reg.get_mutation(text("alice.near"), text("dark-mode")),
        Some(mutation("Dark theme", vec![rule("app/light.css", "alice.near/dark.css")]))
    );
    let refused = reg.create_mutation(
        &text("mallory.near"),
        text("alice.near"),
        text("planted"),
        text("Planted"),
        vec![],
    );
    assert_eq!(refused, Err(RegistryError::PermissionDenied));
    assert_eq!(reg.get_mutation(text("alice.near"), text("planted")), None);
    assert_eq!(reg.get_mutation(text("mallory.near"), text("planted")), None);
    assert_eq!(reg.get_all_mutations().len(), 1usize);
}

#[test]
fn create_for_an_unknown_author_by_another_is_refused() {
    let mut reg = MutationRegistry::new();
    let refused =
        reg.create_mutation(&text("a.near"), text("b.near"), text("m"), text("d"), vec![]);
    assert_eq!(refused, Err(RegistryError::PermissionDenied));
    assert!(reg.get_all_mutations().is_empty());
    assert!(reg.get_mutations_by_author(text("b.near")).is_empty());
}

#[test]
fn the_same_id_lives_apart_under_two_authors() {
    let mut reg = with_dark_mode();
    let made = reg.create_mutation(
        &text("bob.near"),
        text("bob.near"),
        text("dark-mode"),
        text("Bob's dark theme"),
        vec![],
    );
    assert_eq!(made, Ok(true));
    assert_eq!(
        reg.get_mutation(text("alice.near"), text("dark-mode")),
        Some(mutation("Dark theme", vec![rule("app/light.css", "alice.near/dark.css")]))
    );
    assert_eq!(
        reg.get_mutation(text("bob.near"), text("dark-mode")),
        Some(mutation("Bob's dark theme", vec![]))
    );
}

#[test]
fn update_of_the_description_keeps_the_overrides() {
    let mut reg = with_dark_mode();
    let done = reg.update_mutation(
        &text("alice.near"),
        text("alice.near"),
        text("dark-mode"),
        Some(text("Night theme")),
        None,
    );
    assert_eq!(done, Ok(()));
    assert_eq!(
        reg.get_mutation(text("alice.near"), text("dark-mode")),
        Some(mutation("Night theme", vec![rule("app/light.css", "alice.near/dark.css")]))
    );
}

#[test]
fn update_of_the_overrides_keeps_the_description() {
    let mut reg = with_dark_mode();
    let done = reg.update_mutation(
        &text("alice.near"),
        text("alice.near"),
        text("dark-mode"),
        None,
        Some(vec![rule("x", "y"), rule("z", "w")]),
    );
    assert_eq!(done, Ok(()));
    assert_eq!(
        reg.get_mutation(text("alice.near"), text("dark-mode")),
        Some(mutation("Dark theme", vec![rule("x", "y"), rule("z", "w")]))
    );
}

#[test]
fn update_of_both_parts_replaces_both() {
    let mut reg = with_dark_mode();
    let done = reg.update_mutation(
        &text("alice.near"),
        text("alice.near"),
        text("dark-mode"),
        Some(text("Night theme")),
        Some(vec![]),
    );
    assert_eq!(done, Ok(()));
    assert_eq!(
        reg.get_mutation(text("alice.near"), text("dark-mode")),
        Some(mutation("Night theme", vec![]))
    );
}

#[test]
fn update_of_neither_part_changes_nothing() {
    let mut reg = with_dark_mode();
    let done =
        reg.update_mutation(&text("alice.near"), text("alice.near"), text("dark-mode"), None, None);
    assert_eq!(done, Ok(()));
    assert_eq!(
        reg.get_mutation(text("alice.near"), text("dark-mode")),
        Some(mutation("Dark theme", vec![rule("app/light.css", "alice.near/dark.css")]))
    );
}

#[test]
fn update_of_a_missing_mutation_does_nothing() {
    let mut reg = with_dark_mode();
    let done = reg.update_mutation(
        &text("alice.near"),
        text("alice.near"),
        text("nonexistent"),
        Some(text("d")),
        Some(vec![rule("a", "b")]),
    );
    assert_eq!(done, Ok(()));
    assert_eq!(reg.get_mutation(text("alice.near"), text("nonexistent")), None);
    assert_eq!(reg.get_all_mutations().len(), 1usize);
}

#[test]
fn update_for_an_author_who_never_wrote_does_nothing() {
    let mut reg = with_dark_mode();
    let done = reg.update_mutation(
        &text("bob.near"),
        text("bob.near"),
        text("dark-mode"),
        Some(text("d")),
        None,
    );
    assert_eq!(done, Ok(()));
    assert_eq!(reg.get_mutation(text("bob.near"), text("dark-mode")), None);
    assert!(reg.get_mutations_by_author(text("bob.near")).is_empty());
    assert_eq!(reg.get_all_mutations().len(), 1usize);
}

#[test]
fn update_for_another_author_is_refused() {
    let mut reg = with_dark_mode();
    let refused = reg.update_mutation(
        &text("mallory.near"),
        text("alice.near"),
        text("dark-mode"),
        Some(text("Defaced")),
        Some(vec![]),
    );
    assert_eq!(refused, Err(RegistryError::PermissionDenied));
    assert_eq!(
        reg.get_mutation(text("alice.near"), text("dark-mode")),
        Some(mutation("Dark theme", vec![rule("app/light.css", "alice.near/dark.css")]))
    );
}

#[test]
fn update_of_a_missing_mutation_for_another_author_is_refused() {
    let mut reg = with_dark_mode();
    let refused = reg.update_mutation(
        &text("mallory.near"),
        text("alice.near"),
        text("nonexistent"),
        None,
        None,
    );
    assert_eq!(refused, Err(RegistryError::PermissionDenied));
}

fn with_source_and_target() -> MutationRegistry {
    let mut reg = with_dark_mode();
    let made = reg.create_mutation(
        &text("bob.near"),
        text("bob.near"),
        text("my-theme"),
        text("Bob's theme"),
        vec![rule("old", "older")],
    );
    assert_eq!(made, Ok(true));
    reg
}

#[test]
fn copy_replaces_the_overrides_and_keeps_the_description() {
    let mut reg = with_source_and_target();
    let done = reg.copy_overrides(
        &text("bob.near"),
        text("alice.near"),
        text("dark-mode"),
        text("bob.near"),
        text("my-theme"),
    );
    assert_eq!(done, Ok(()));
    assert_eq!(
        reg.get_mutation(text("bob.near"), text("my-theme")),
        Some(mutation("Bob's theme", vec![rule("app/light.css", "alice.near/dark.css")]))
    );
    assert_eq!(
        reg.get_mutation(text("alice.near"), text("dark-mode")),
        Some(mutation("Dark theme", vec![rule("app/light.css", "alice.near/dark.css")]))
    );
}

#[test]
fn copy_within_one_author() {
    let mut reg = with_dark_mode();
    let made = reg.create_mutation(
        &text("alice.near"),
        text("alice.near"),
        text("second"),
        text("Second"),
        vec![],
    );
    assert_eq!(made, Ok(true));
    let done = reg.copy_overrides(
        &text("alice.near"),
        text("alice.near"),
        text("dark-mode"),
        text("alice.near"),
        text("second"),
    );
    assert_eq!(done, Ok(()));
    assert_eq!(
        reg.get_mutation(text("alice.near"), text("second")),
        Some(mutation("Second", vec![rule("app/light.css", "alice.near/dark.css")]))
    );
}

#[test]
fn copy_onto_itself_changes_nothing() {
    let mut reg = with_dark_mode();
    let done = reg.copy_overrides(
        &text("alice.near"),
        text("alice.near"),
        text("dark-mode"),
        text("alice.near"),
        text("dark-mode"),
    );
    assert_eq!(done, Ok(()));
    assert_eq!(
        reg.get_mutation(text("alice.near"), text("dark-mode")),
        Some(mutation("Dark theme", vec![rule("app/light.css", "alice.near/dark.css")]))
    );
}

#[test]
fn copy_by_the_owner_of_the_source_alone_is_refused() {
    let mut reg = with_source_and_target();
    let refused = reg.copy_overrides(
        &text("alice.near"),
        text("alice.near"),
        text("dark-mode"),
        text("bob.near"),
        text("my-theme"),
    );
    assert_eq!(refused, Err(RegistryError::PermissionDenied));
    assert_eq!(
        reg.get_mutation(text("bob.near"), text("my-theme")),
        Some(mutation("Bob's theme", vec![rule("old", "older")]))
    );
}

#[test]
fn copy_by_a_stranger_is_refused_before_anything_is_looked_up() {
    let mut reg = with_source_and_target();
    let refused = reg.copy_overrides(
        &text("mallory.near"),
        text("nobody.near"),
        text("nothing"),
        text("bob.near"),
        text("nothing"),
    );
    assert_eq!(refused, Err(RegistryError::PermissionDenied));
}

#[test]
fn copy_from_a_missing_source_is_refused() {
    let mut reg = with_source_and_target();
    let refused = reg.copy_overrides(
        &text("bob.near"),
        text("alice.near"),
        text("nonexistent"),
        text("bob.near"),
        text("my-theme"),
    );
    assert_eq!(refused, Err(RegistryError::SourceNotFound));
    assert_eq!(
        reg.get_mutation(text("bob.near"), text("my-theme")),
        Some(mutation("Bob's theme", vec![rule("old", "older")]))
    );
    let refused = reg.copy_overrides(
        &text("bob.near"),
        text("nobody.near"),
        text("dark-mode"),
        text("bob.near"),
        text("my-theme"),
    );
    assert_eq!(refused, Err(RegistryError::SourceNotFound));
}

#[test]
fn copy_into_a_missing_target_is_refused_and_creates_none() {
    let mut reg = with_source_and_target();
    let refused = reg.copy_overrides(
        &text("bob.near"),
        text("alice.near"),
        text("dark-mode"),
        text("bob.near"),
        text("nonexistent"),
    );
    assert_eq!(refused, Err(RegistryError::TargetNotFound));
    assert_eq!(reg.get_mutation(text("bob.near"), text("nonexistent")), None);
    let refused = reg.copy_overrides(
        &text("carol.near"),
        text("alice.near"),
        text("dark-mode"),
        text("carol.near"),
        text("dark-mode"),
    );
    assert_eq!(refused, Err(RegistryError::TargetNotFound));
    assert!(reg.get_mutations_by_author(text("carol.near")).is_empty());
    assert_eq!(reg.get_all_mutations().len(), 2usize);
}

#[test]
fn copy_with_neither_source_nor_target_reports_the_source() {
    let mut reg = with_source_and_target();
    let refused = reg.copy_overrides(
        &text("bob.near"),
        text("alice.near"),
        text("nonexistent"),
        text("bob.near"),
        text("nonexistent"),
    );
    assert_eq!(refused, Err(RegistryError::SourceNotFound));
}

#[test]
fn the_owner_of_the_target_may_copy_from_anybody() {
    assert!(may_copy_overrides(&text("bob.near"), &text("alice.near"), &text("bob.near")));
    assert!(may_copy_overrides(&text("bob.near"), &text("bob.near"), &text("bob.near")));
    assert!(!may_copy_overrides(&text("alice.near"), &text("alice.near"), &text("bob.near")));
    assert!(!may_copy_overrides(&text("mallory.near"), &text("alice.near"), &text("bob.near")));
}

#[test]
fn each_refusal_has_its_message() {
    assert_eq!(RegistryError::PermissionDenied.message(), "Mutations: permission denied");
    assert_eq!(RegistryError::SourceNotFound.message(), "Source mutation not found");
    assert_eq!(RegistryError::TargetNotFound.message(), "Target mutation not found");
}
