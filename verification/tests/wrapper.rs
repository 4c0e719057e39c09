use std::convert::Infallible;

use arcane::es::adapter::strategy::{self, as_is, custom, initialized, into, skip, Splitter};
use arcane::es::adapter::{Returning, WithStrategy, Wrapper, Transformer};
use arcane::es::event::Initial;
use vstd::seq::Seq;

#[derive(Clone, Copy, Debug, PartialEq)]
struct Old(u8);

#[derive(Clone, Copy, Debug, PartialEq)]
struct New(u8);

impl From<Old> for New {
    fn from(old: Old) -> Self {
        New(old.0 + 100)
    }
}

#[derive(Clone, Copy, Debug, PartialEq)]
struct Batch(u8);

#[derive(Clone, Copy, Debug, PartialEq)]
struct Dropped;

#[derive(Debug)]
struct Migration;

impl Returning for Migration {
    type Error = String;
    type Transformed = New;
}

impl WithStrategy<Old> for Migration {
    type Strategy = strategy::Into<New>;
}

impl WithStrategy<New> for Migration {
    type Strategy = strategy::AsIs;
}

impl WithStrategy<Batch> for Migration {
    type Strategy = strategy::Split<New>;
}

impl WithStrategy<Dropped> for Migration {
    type Strategy = strategy::Skip;
}

impl Splitter<Batch, New> for Migration {
    fn splits(&self, _: Batch, _: Seq<New>) -> bool {
        true
    }

    fn split(&self, event: Batch) -> Vec<New> {
        (1..=event.0).map(New).collect()
    }
}

#[test]
fn wrapper_transforms_with_the_chosen_strategy() {
    let wrapper = Wrapper(Migration);
    let out: Vec<Result<New, Infallible>> = Transformer::<Old, ()>::transform(&wrapper, Old(1), &());
    assert_eq!(out, vec![Ok(New(101))]);
    let out: Vec<Result<New, Infallible>> = Transformer::<New, ()>::transform(&wrapper, New(5), &());
    assert_eq!(out, vec![Ok(New(5))]);
    let out: Vec<Result<New, Infallible>> = Transformer::<Batch, ()>::transform(&wrapper, Batch(3), &());
    assert_eq!(out, vec![Ok(New(1)), Ok(New(2)), Ok(New(3))]);
    let out: Vec<Result<New, String>> = Transformer::<Dropped, ()>::transform(&wrapper, Dropped, &());
    assert!(out.is_empty());
}

#[derive(Debug)]
struct Bootstrap;

impl Returning for Bootstrap {
    type Error = String;
    type Transformed = Initial<New>;
}

impl WithStrategy<Old> for Bootstrap {
    type Strategy = strategy::Initialized<strategy::Into<New>>;
}

impl WithStrategy<New> for Bootstrap {
    type Strategy = initialized::Initialized<as_is::AsIs>;
}

impl WithStrategy<Batch> for Bootstrap {
    type Strategy = into::Into<Old, as_is::AsIs>;
}

impl WithStrategy<Dropped> for Bootstrap {
    type Strategy = skip::Skip;
}

impl From<Batch> for Old {
    fn from(batch: Batch) -> Self {
        Old(batch.0)
    }
}

#[test]
fn wrapper_composes_strategies() {
    let wrapper = Wrapper(Bootstrap);
    let out = Transformer::<Old, ()>::transform(&wrapper, Old(2), &());
    assert_eq!(out.len(), 1);
    assert!(matches!(out[0], Ok(Initial(New(102)))));
    let out = Transformer::<New, ()>::transform(&wrapper, New(9), &());
    assert!(matches!(out[..], [Ok(Initial(New(9)))]));
    let out: Vec<Result<Old, String>> = Transformer::<Batch, ()>::transform(&wrapper, Batch(4), &());
    assert_eq!(out, vec![Ok(Old(4))]);
    let out = Transformer::<Dropped, ()>::transform(&wrapper, Dropped, &());
    assert!(out.is_empty());
}

#[derive(Debug)]
struct Capped;

impl custom::Customize<New> for Capped {
    type Context = u8;
    type Error = String;
    type Transformed = New;

    fn customizes(&self, _: New, _: &u8, _: Seq<Result<New, String>>) -> bool {
        true
    }

    fn transform(&self, event: New, context: &u8) -> Vec<Result<New, String>> {
        if event.0 > *context {
            vec![Err("over the cap".to_string())]
        } else {
            vec![Ok(event), Ok(event)]
        }
    }
}

impl WithStrategy<New> for Capped {
    type Strategy = custom::Custom;
}

#[test]
fn custom_strategy_chooses_its_context() {
    let wrapper = Wrapper(Capped);
    let out = Transformer::<New, u8>::transform(&wrapper, New(3), &5);
    assert_eq!(out, vec![Ok(New(3)), Ok(New(3))]);
    let out = Transformer::<New, u8>::transform(&wrapper, New(6), &5);
    assert_eq!(out, vec![Err("over the cap".to_string())]);
}
