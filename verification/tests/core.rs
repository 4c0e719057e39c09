use arcane::codegen::common::{parse_non_zero_u16, OptionExt};
use arcane::codegen::error::{DeriveError, IntErrorKind};
use arcane::codegen::unique_events::has_duplicates;
use arcane::es::event::codegen::{concat_slices, has_conflicting_entries};
use arcane::es::event::reflect;
use arcane::es::event::{
    Concrete, Event, Initial, Initialized, Name, Revisable, Sourced, Sourcing, Static, Version,
};
use arcane::event as plain;

#[test]
fn version_accepts_non_zero_values_only() {
    assert_eq!(Version::try_new(1i32).map(Version::get), Some(1));
    assert_eq!(Version::try_new(65535u32).map(Version::get), Some(65535));
    assert_eq!(Version::try_new(7u64).map(Version::get), Some(7));
    assert!(Version::try_new(0u16).is_none());
    assert!(Version::try_new(-1i32).is_none());
    assert!(Version::try_new(65536u32).is_none());
}

#[test]
fn version_equality_and_order_follow_values() {
    let (a, b) = (Version::new_unchecked(2), Version::new_unchecked(5));
    assert!(a < b);
    assert_eq!(a, Version::try_new(2u8).unwrap());
    assert_ne!(a, b);
    assert_eq!(b.get(), 5);
}

#[test]
fn conflicts_are_found_in_any_slice() {
    assert!(has_conflicting_entries(&[("A", "a", "1"), ("B", "a", "1")]));
    assert!(has_conflicting_entries(&[("B", "a", "1"), ("A", "a", "1")]));
    assert!(!has_conflicting_entries(&[("A", "a", "1"), ("A", "a", "1")]));
}

#[test]
fn concat_slices_concatenates_in_order() {
    let input: &[&[u8]] = &[&[1, 2], &[], &[3], &[4, 5, 6]];
    let out: [u8; 6] = concat_slices(input);
    assert_eq!(out, [1, 2, 3, 4, 5, 6]);
}

#[test]
fn has_duplicates_finds_different_types_with_same_name_and_version() {
    assert!(!has_duplicates([("A", "a", 1), ("B", "b", 1), ("A", "a", 1)]));
    assert!(has_duplicates([("A", "a", 1), ("B", "b", 1), ("C", "a", 1)]));
    assert!(!has_duplicates([("A", "a", 1), ("C", "a", 2)]));
    assert!(!has_duplicates::<0>([]));
}

#[test]
fn parses_non_zero_u16_as_the_standard_library() {
    assert_eq!(parse_non_zero_u16("1"), Ok(1));
    assert_eq!(parse_non_zero_u16("007"), Ok(7));
    assert_eq!(parse_non_zero_u16("+7"), Ok(7));
    assert_eq!(parse_non_zero_u16("65535"), Ok(65535));
    assert_eq!(parse_non_zero_u16(""), Err(IntErrorKind::Empty));
    assert_eq!(parse_non_zero_u16("+"), Err(IntErrorKind::InvalidDigit));
    assert_eq!(parse_non_zero_u16("-1"), Err(IntErrorKind::InvalidDigit));
    assert_eq!(parse_non_zero_u16("12a"), Err(IntErrorKind::InvalidDigit));
    assert_eq!(parse_non_zero_u16("0"), Err(IntErrorKind::Zero));
    assert_eq!(parse_non_zero_u16("65536"), Err(IntErrorKind::PosOverflow));
    assert_eq!(parse_non_zero_u16("999999a"), Err(IntErrorKind::PosOverflow));
    for s in ["1", "007", "+7", "65535", "", "+", "-1", "12a", "0", "65536", "999999a", "+0"] {
        let std = s.parse::<std::num::NonZeroU16>().map(|n| n.get()).map_err(|e| e.to_string());
        let ours = parse_non_zero_u16(s).map_err(|k| k.message().to_string());
        assert_eq!(ours, std, "parsing {:?}", s);
    }
}

#[test]
fn none_or_else_maps_the_value_into_an_error() {
    assert_eq!(None::<u8>.none_or_else(|v| v + 1), Ok::<(), u8>(()));
    assert_eq!(Some(2u8).none_or_else(|v| v + 1), Err(3));
}

#[test]
fn error_messages_describe_the_error() {
    assert_eq!(DeriveError::UnknownArgument("foo".to_string()).message(), "unknown `foo` attribute argument");
    assert_eq!(DeriveError::DuplicatedArgument.message(), "duplicated attribute argument found");
    assert_eq!(DeriveError::InvalidInt(IntErrorKind::Zero).message(), "number would be zero for non-zero type");
}

struct Created;

impl Static for Created {
    const NAME: Name = "created";
}

impl Concrete for Created {
    type Revision = &'static str;
    const REVISION: &'static str = "2";
}

impl reflect::Static for Created {
    const NAMES: &'static [Name] = &["created", "named"];
}

impl reflect::Concrete for Created {
    const REVISIONS: &'static [&'static str] = &["1"];
}

#[test]
fn static_events_have_their_name_and_revision() {
    assert_eq!(Created.name(), "created");
    assert_eq!(Created.revision(), "2");
}

#[test]
fn names_and_revisions_are_zipped() {
    assert_eq!(<Created as reflect::Concrete>::names_and_revisions_iter(), vec![("created", "1")]);
}

/// Number of the events applied to a state.
#[derive(Clone, Copy, Debug, PartialEq)]
struct Counter(u32);

impl Sourced<Created> for Counter {
    fn sourced(&self, _: &Created) -> Self {
        Counter(self.0 + 1)
    }

    fn apply(&mut self, _: &Created) {
        self.0 += 1;
    }
}

impl Initialized<Created> for Counter {
    fn initial(_: &Created) -> Self {
        Counter(1)
    }

    fn init(_: &Created) -> Self {
        Counter(1)
    }
}

#[test]
fn sourcing_an_absent_state_keeps_it_absent() {
    let mut state: Option<Counter> = None;
    state.apply(&Created);
    assert_eq!(state, None);
}

#[test]
fn sourcing_a_present_state_applies_the_event() {
    let mut state = Some(Counter(3));
    state.apply(&Created);
    assert_eq!(state, Some(Counter(4)));
}

#[test]
fn initial_event_initializes_any_state() {
    let mut state: Option<Counter> = None;
    state.apply(&Initial(Created));
    assert_eq!(state, Some(Counter(1)));
    state.apply(&Initial(Created));
    assert_eq!(state, Some(Counter(1)));
}

#[test]
fn apply_to_is_apply_reversed() {
    let mut by_apply = Some(Counter(7));
    by_apply.apply(&Created);
    let mut by_apply_to = Some(Counter(7));
    Created.apply_to(&mut by_apply_to);
    assert_eq!(by_apply, by_apply_to);
}

#[test]
fn initial_is_made_from_an_event() {
    let initial: Initial<u8> = Initial::from(5);
    assert_eq!(initial.0, 5);
}

struct Legacy;

impl plain::Versioned for Legacy {
    fn event_type() -> &'static str {
        "legacy"
    }

    fn ver() -> u16 {
        3
    }
}

impl plain::Sourced<Legacy> for Counter {
    fn sourced(&self, _: &Legacy) -> Self {
        Counter(self.0 * 2)
    }

    fn apply(&mut self, _: &Legacy) {
        self.0 *= 2;
    }
}

impl plain::Initialized<Legacy> for Counter {
    fn initial(_: &Legacy) -> Self {
        Counter(10)
    }

    fn init(_: &Legacy) -> Self {
        Counter(10)
    }
}

#[test]
fn versioned_events_are_events() {
    assert_eq!(plain::Event::event_type(&Legacy), "legacy");
    assert_eq!(plain::Event::ver(&Legacy), 3);
}

#[test]
fn plain_sourcing_of_optional_states() {
    let mut state: Option<Counter> = None;
    plain::Sourced::apply(&mut state, &Legacy);
    assert_eq!(state, None);
    plain::Sourced::apply(&mut state, &plain::Initial(Legacy));
    assert_eq!(state, Some(Counter(10)));
    plain::Sourced::apply(&mut state, &Legacy);
    assert_eq!(state, Some(Counter(20)));
}

#[test]
fn events_source_states_as_trait_objects() {
    let mut state = Option::<Counter>::None;
    let ev = Initial(Created);
    let ev: &dyn Sourcing<Option<Counter>> = &ev;
    Sourced::apply(&mut state, ev);
    assert_eq!(state, Some(Counter(1)));
    let ev: &dyn Sourcing<Option<Counter>> = &Created;
    Sourced::apply(&mut state, ev);
    assert_eq!(state, Some(Counter(2)));
}
