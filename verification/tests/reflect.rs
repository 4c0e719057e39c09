use arcane::es::event::codegen::{has_different_types_with_same_name_and_revision, Meta, Reflect};

struct AllUnique;

impl Reflect for AllUnique {
    const META: &'static [Meta] = &[("A", "a", "1"), ("B", "b", "2"), ("C", "c", "3")];
}

struct SameTypes;

impl Reflect for SameTypes {
    const META: &'static [Meta] = &[("A", "a", "1"), ("A", "a", "1"), ("A", "b", "1")];
}

struct SameTypesEmptyRevision;

impl Reflect for SameTypesEmptyRevision {
    const META: &'static [Meta] = &[("A", "a", ""), ("A", "a", ""), ("A", "b", "")];
}

struct DifferentTypes;

impl Reflect for DifferentTypes {
    const META: &'static [Meta] = &[("A", "a", "1"), ("B", "a", "1"), ("A", "b", "1")];
}

struct OneEmptyRevision;

impl Reflect for OneEmptyRevision {
    const META: &'static [Meta] = &[("A", "a", "1"), ("B", "a", ""), ("A", "b", "1")];
}

struct DifferentTypesNoRevisions;

impl Reflect for DifferentTypesNoRevisions {
    const META: &'static [Meta] = &[("A", "a", ""), ("B", "a", ""), ("A", "b", "1")];
}

#[test]
fn no_when_all_events_are_unique() {
    assert!(!has_different_types_with_same_name_and_revision::<AllUnique>());
}

#[test]
fn no_when_has_same_types_with_same_name_and_revision() {
    assert!(!has_different_types_with_same_name_and_revision::<SameTypes>());
}

#[test]
fn no_when_has_same_types_with_same_name_and_empty_revision() {
    assert!(!has_different_types_with_same_name_and_revision::<SameTypesEmptyRevision>());
}

#[test]
fn yes_when_has_different_types_and_same_name_and_revision() {
    assert!(has_different_types_with_same_name_and_revision::<DifferentTypes>());
}

#[test]
fn yes_when_one_type_with_empty_revision_and_same_name() {
    assert!(!has_different_types_with_same_name_and_revision::<OneEmptyRevision>());
}

#[test]
fn yes_when_has_different_types_with_same_names_without_revisions() {
    assert!(has_different_types_with_same_name_and_revision::<DifferentTypesNoRevisions>());
}
