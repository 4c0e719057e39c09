use std::convert::Infallible;

use arcane::es::event::adapter::strategy::{self, Customize, Splitter};
use arcane::es::event::adapter::{Adapt, Adapted, Adapter, Returning, TransformedStream, Transformer};
use arcane::es::event::Initial;
use vstd::seq::Seq;

#[derive(Clone, Copy, Debug, PartialEq)]
struct ChatEvent;

#[derive(Clone, Copy, Debug, PartialEq)]
struct FileEvent;

#[derive(Clone, Copy, Debug, PartialEq)]
struct FileEventV1;

impl From<FileEventV1> for FileEvent {
    fn from(_: FileEventV1) -> Self {
        FileEvent
    }
}

#[derive(Clone, Copy, Debug, PartialEq)]
enum RepositoryEvent {
    FileV1(FileEventV1),
    File(FileEvent),
    Chat(ChatEvent),
}

#[derive(Clone, Copy, Debug, PartialEq)]
enum FileDomainEvent {
    File(FileEvent),
}

impl From<FileEvent> for FileDomainEvent {
    fn from(ev: FileEvent) -> Self {
        FileDomainEvent::File(ev)
    }
}

#[derive(Clone, Copy, Debug)]
struct FileAdapter;

impl Returning for FileAdapter {
    type Error = Infallible;
    type Transformed = FileDomainEvent;
}

impl Adapt<FileEvent> for FileAdapter {
    type Strategy = strategy::AsIs;
}

impl Adapt<FileEventV1> for FileAdapter {
    type Strategy = strategy::Into<FileEvent>;
}

impl Adapt<ChatEvent> for FileAdapter {
    type Strategy = strategy::Skip;
}

/// Converts the outputs of a variant's transformation into those of the enum.
fn into_domain<T, E>(out: Vec<Result<T, E>>) -> Vec<Result<FileDomainEvent, Infallible>>
where
    FileDomainEvent: From<T>,
    Infallible: From<E>,
{
    out.into_iter().map(|r| r.map(FileDomainEvent::from).map_err(Infallible::from)).collect()
}

/// What `#[derive(Event)]` generates for `RepositoryEvent`: each variant is
/// transformed by the strategy of its event.
impl<'a> Transformer<RepositoryEvent, ()> for Adapted<&'a FileAdapter> {
    type Error = Infallible;
    type Transformed = FileDomainEvent;

    fn transforms(&self, _: RepositoryEvent, _: &(), _: Seq<Result<FileDomainEvent, Infallible>>) -> bool {
        true
    }

    fn transform(&self, event: RepositoryEvent, context: &()) -> Vec<Result<FileDomainEvent, Infallible>> {
        match event {
            RepositoryEvent::FileV1(ev) => into_domain(Transformer::<FileEventV1, ()>::transform(self, ev, context)),
            RepositoryEvent::File(ev) => into_domain(Transformer::<FileEvent, ()>::transform(self, ev, context)),
            RepositoryEvent::Chat(ev) => into_domain(Transformer::<ChatEvent, ()>::transform(self, ev, context)),
        }
    }
}

#[test]
fn transforms_repository_events_into_file_domain_ones() {
    let events = vec![
        RepositoryEvent::FileV1(FileEventV1),
        RepositoryEvent::File(FileEvent),
        RepositoryEvent::Chat(ChatEvent),
    ];

    let transformed = FileAdapter.transform_all(events, &());

    let transformed: Vec<FileDomainEvent> = transformed.into_iter().map(|r| r.unwrap()).collect();
    assert_eq!(transformed, vec![FileDomainEvent::File(FileEvent), FileDomainEvent::File(FileEvent)]);
}

#[test]
fn transforms_nothing_out_of_no_events() {
    let transformed = FileAdapter.transform_all(Vec::<RepositoryEvent>::new(), &());
    assert!(transformed.is_empty());
}

#[test]
fn skips_every_skipped_event() {
    let events = vec![RepositoryEvent::Chat(ChatEvent), RepositoryEvent::Chat(ChatEvent)];
    assert!(FileAdapter.transform_all(events, &()).is_empty());
}

#[test]
fn stream_yields_converted_events_one_by_one() {
    let adapter = FileAdapter;
    let events = vec![RepositoryEvent::Chat(ChatEvent), RepositoryEvent::FileV1(FileEventV1)];
    let mut stream = TransformedStream::new(&adapter, events, &());
    assert_eq!(stream.next().map(|r| r.unwrap()), Some(FileDomainEvent::File(FileEvent)));
    assert!(stream.next().is_none());
    assert!(stream.next().is_none());
}

/// Number carried by split and custom events.
#[derive(Clone, Copy, Debug, PartialEq)]
struct Amount(u8);

/// Adapter splitting an [`Amount`] into units and counting with a custom
/// strategy.
#[derive(Clone, Copy, Debug)]
struct Units;

impl Returning for Units {
    type Error = String;
    type Transformed = Amount;
}

impl Splitter<Amount, Amount> for Units {
    fn splits(&self, _: Amount, _: Seq<Amount>) -> bool {
        true
    }

    fn split(&self, event: Amount) -> Vec<Amount> {
        (0..event.0).map(|_| Amount(1)).collect()
    }
}

impl Adapt<Amount> for Units {
    type Strategy = strategy::Split<Amount>;
}

#[test]
fn split_strategy_yields_every_part() {
    let out = Units.transform_all(vec![Amount(2), Amount(0), Amount(1)], &());
    let out: Vec<Amount> = out.into_iter().map(|r| r.unwrap()).collect();
    assert_eq!(out, vec![Amount(1), Amount(1), Amount(1)]);
}

/// Adapter rejecting events bigger than its context.
#[derive(Clone, Copy, Debug)]
struct Limited;

impl Customize<Amount, u8> for Limited {
    type Error = String;
    type Transformed = Amount;

    fn customizes(&self, _: Amount, _: &u8, _: Seq<Result<Amount, String>>) -> bool {
        true
    }

    fn transform(&self, event: Amount, context: &u8) -> Vec<Result<Amount, String>> {
        if event.0 > *context {
            vec![Err(format!("{} is over {}", event.0, context))]
        } else {
            vec![Ok(event)]
        }
    }
}

impl Returning for Limited {
    type Error = String;
    type Transformed = Amount;
}

impl Adapt<Amount> for Limited {
    type Strategy = strategy::Custom;
}

#[test]
fn custom_strategy_uses_the_context() {
    let out = Limited.transform_all(vec![Amount(1), Amount(5), Amount(3)], &3u8);
    assert_eq!(out, vec![Ok(Amount(1)), Err("5 is over 3".to_string()), Ok(Amount(3))]);
}

/// Adapter marking its events as initial ones.
#[derive(Clone, Copy, Debug)]
struct Initializing;

impl Returning for Initializing {
    type Error = Infallible;
    type Transformed = Initial<FileEvent>;
}

impl Adapt<FileEventV1> for Initializing {
    type Strategy = strategy::Initialized<strategy::Into<FileEvent>>;
}

#[test]
fn initialized_strategy_wraps_converted_events() {
    let out = Initializing.transform_all(vec![FileEventV1], &());
    assert_eq!(out.len(), 1);
    match &out[0] {
        Ok(Initial(ev)) => assert_eq!(*ev, FileEvent),
        Err(_) => panic!("expected a converted event"),
    }
}

#[test]
fn stream_converts_events_pushed_as_they_arrive() {
    let adapter = FileAdapter;
    let mut stream = TransformedStream::new(&adapter, vec![], &());
    assert!(stream.next().is_none());
    stream.push_event(RepositoryEvent::File(FileEvent));
    stream.push_event(RepositoryEvent::Chat(ChatEvent));
    assert_eq!(stream.next().map(|r| r.unwrap()), Some(FileDomainEvent::File(FileEvent)));
    assert!(stream.next().is_none());
    stream.push_event(RepositoryEvent::FileV1(FileEventV1));
    assert_eq!(stream.next().map(|r| r.unwrap()), Some(FileDomainEvent::File(FileEvent)));
    assert!(stream.next().is_none());
}

#[test]
fn converting_two_runs_is_converting_their_concatenation() {
    let first = vec![Amount(2), Amount(0)];
    let second = vec![Amount(1), Amount(3)];
    let mut separately = Units.transform_all(first.clone(), &());
    separately.extend(Units.transform_all(second.clone(), &()));
    let together = Units.transform_all([first, second].concat(), &());
    assert_eq!(together, separately);
}
