//! `#[derive(adapter::Transformer)]` macro implementation.

use vstd::prelude::*;

use crate::codegen::args::names_view;
use crate::codegen::error::{Argument, DeriveError};
use crate::codegen::input::{self, Data, DeriveInput, GenericParam};

verus! {

/// Arguments of the `#[event(transformer(...))]` attribute, as written.
#[derive(Clone, Debug, Default)]
pub struct TransformerAttrs {
    /// Type to derive the `Transformer` on.
    pub adapter: Option<String>,
    /// The `Transformer::Transformed` type (`into` or `transformed`).
    pub transformed: Option<String>,
    /// The `Transformer::Context` type (`context` or `ctx`).
    pub context: Option<String>,
    /// The `Transformer::Error` type (`err` or `error`).
    pub error: Option<String>,
}

impl TransformerAttrs {
    /// Names of the arguments nested in `transformer(...)`, in the order of the
    /// fields: `adapter`, `into` or `transformed`, `context` or `ctx`, `err` or
    /// `error`.
    pub fn arg_names() -> (res: Vec<Vec<&'static str>>)
        ensures
            names_view(res@) == seq![seq!["adapter"@], seq!["into"@, "transformed"@], seq!["context"@, "ctx"@], seq!["err"@, "error"@]],
    {
        let res = vec![vec!["adapter"], vec!["into", "transformed"], vec!["context", "ctx"], vec!["err", "error"]];
        assert(names_view(res@) =~~= seq![seq!["adapter"@], seq!["into"@, "transformed"@], seq!["context"@, "ctx"@], seq!["err"@, "error"@]]);
        res
    }
}

/// Helper attributes of `#[derive(adapter::Transformer)]` macro.
#[derive(Clone, Debug, Default)]
pub struct Attrs {
    /// The nested `transformer(...)` arguments.
    pub transformer: Option<TransformerAttrs>,
}

impl Attrs {
    /// Names of the arguments of `#[event(...)]`: `transformer`.
    pub fn arg_names() -> (res: Vec<Vec<&'static str>>)
        ensures
            names_view(res@) == seq![seq!["transformer"@]],
    {
        let res = vec![vec!["transformer"]];
        assert(names_view(res@) =~~= seq![seq!["transformer"@]]);
        res
    }

    /// Whether these attributes are acceptable, and if not, which required
    /// argument is the first one absent.
    pub open spec fn validity(&self) -> Result<(), DeriveError> {
        match self.transformer {
            None => Err(DeriveError::MissingArgument(Argument::EventTransformer)),
            Some(t) => if t.adapter is None {
                Err(DeriveError::MissingArgument(Argument::TransformerAdapter))
            } else if t.transformed is None {
                Err(DeriveError::MissingArgument(Argument::TransformerTransformed))
            } else if t.context is None {
                Err(DeriveError::MissingArgument(Argument::TransformerContext))
            } else if t.error is None {
                Err(DeriveError::MissingArgument(Argument::TransformerError))
            } else {
                Ok(())
            },
        }
    }

    /// Checks these attributes.
    pub fn validate(&self) -> (res: Result<(), DeriveError>)
        ensures
            res == self.validity(),
    {
        match &self.transformer {
            None => Err(DeriveError::MissingArgument(Argument::EventTransformer)),
            Some(t) => if t.adapter.is_none() {
                Err(DeriveError::MissingArgument(Argument::TransformerAdapter))
            } else if t.transformed.is_none() {
                Err(DeriveError::MissingArgument(Argument::TransformerTransformed))
            } else if t.context.is_none() {
                Err(DeriveError::MissingArgument(Argument::TransformerContext))
            } else if t.error.is_none() {
                Err(DeriveError::MissingArgument(Argument::TransformerError))
            } else {
                Ok(())
            },
        }
    }
}

/// Variant of the transformed enum: its name and the type of its field.
#[derive(Clone, Debug)]
pub struct TransformedVariant {
    /// Name of the variant.
    pub ident: String,
    /// Type of the single field of the variant.
    pub ty: String,
}

/// Representation of an enum to implement `Transformer` for, used for code
/// generation.
#[derive(Clone, Debug)]
pub struct Definition {
    /// Name of the enum.
    pub ident: String,
    /// Generic parameters of the enum.
    pub generics: Vec<GenericParam>,
    /// Variants of the enum.
    pub variants: Vec<TransformedVariant>,
    /// Type to implement `Transformer` on.
    pub adapter: String,
    /// The `Transformer::Transformed` type.
    pub transformed: String,
    /// The `Transformer::Context` type.
    pub context: String,
    /// The `Transformer::Error` type.
    pub error: String,
}

/// Why `#[derive(adapter::Transformer)]` refuses `input`, if it does: its
/// attributes, then it not being an enum, having no variants, or a variant
/// without exactly one field.
pub open spec fn error_of(input: DeriveInput<Attrs, ()>) -> Option<DeriveError> {
    match input.attrs.validity() {
        Err(e) => Some(e),
        Ok(_) => match input.data {
            Data::Enum(variants) => if variants@.len() == 0 {
                Some(DeriveError::NoVariants)
            } else if exists|i: int|
                0 <= i < variants@.len() && #[trigger] variants@[i].field_count() != 1 {
                Some(DeriveError::VariantFieldCount)
            } else {
                None
            },
            _ => Some(DeriveError::EnumOnly),
        },
    }
}

/// Whether `def` is what `#[derive(adapter::Transformer)]` makes of `input`:
/// every variant with the type of its field, and the attributes' types.
pub open spec fn is_definition_of(def: Definition, input: DeriveInput<Attrs, ()>) -> bool {
    match (input.data, input.attrs.transformer) {
        (Data::Enum(variants), Some(t)) => {
            &&& def.ident == input.ident
            &&& def.generics == input.generics
            &&& def.variants@.len() == variants@.len()
            &&& forall|i: int|
                0 <= i < variants@.len() ==> #[trigger] def.variants@[i].ident == variants@[i].ident
                    && def.variants@[i].ty == variants@[i].field_types@[0]
            &&& t.adapter == Some(def.adapter)
            &&& t.transformed == Some(def.transformed)
            &&& t.context == Some(def.context)
            &&& t.error == Some(def.error)
        },
        _ => false,
    }
}

impl Definition {
    /// Validates the `input` of `#[derive(adapter::Transformer)]`.
    pub fn try_from(input: DeriveInput<Attrs, ()>) -> (res: Result<Self, DeriveError>)
        ensures
            match res {
                Ok(def) => error_of(input) is None && is_definition_of(def, input),
                Err(e) => error_of(input) == Some(e),
            },
    {
        if let Err(e) = input.attrs.validate() {
            return Err(e);
        }
        let DeriveInput { ident, generics, attrs, data } = input;
        let mut variants = match data {
            Data::Enum(variants) => variants,
            _ => return Err(DeriveError::EnumOnly),
        };
        if variants.len() == 0 {
            return Err(DeriveError::NoVariants);
        }
        let ghost all = variants@;
        let total = variants.len();
        let mut i: usize = 0;
        while i < total
            invariant
                total == all.len(),
                i <= total,
                variants@ == all,
                input.data matches Data::Enum(vs) && vs@ == all,
                input.attrs.validity() is Ok,
                forall|k: int| 0 <= k < i ==> #[trigger] all[k].field_count() == 1,
            decreases total - i,
        {
            if variants[i].field_types.len() != 1 {
                assert(all[i as int].field_count() != 1);
                return Err(DeriveError::VariantFieldCount);
            }
            i += 1;
        }
        let mut out: Vec<TransformedVariant> = Vec::new();
        while variants.len() > 0
            invariant
                out@.len() + variants@.len() == total,
                total == all.len(),
                variants@ == all.skip(out@.len() as int),
                input.data matches Data::Enum(vs) && vs@ == all,
                input.attrs.validity() is Ok,
                input.attrs == attrs,
                input.ident == ident,
                input.generics == generics,
                forall|k: int| 0 <= k < total ==> #[trigger] all[k].field_count() == 1,
                forall|k: int|
                    0 <= k < out@.len() ==> #[trigger] out@[k].ident == all[k].ident
                        && out@[k].ty == all[k].field_types@[0],
            decreases variants@.len(),
        {
            let ghost n = out@.len() as int;
            assert(all.skip(n)[0] == all[n]);
            let v = variants.remove(0);
            assert(v == all[n]);
            assert(all[n].field_count() == 1);
            assert(variants@ =~= all.skip(n + 1));
            let input::Variant { ident, fields: _, field_names: _, field_types, attrs: _ } = v;
            let mut field_types = field_types;
            let ty = field_types.remove(0);
            out.push(TransformedVariant { ident, ty });
        }
        let TransformerAttrs { adapter, transformed, context, error } = attrs.transformer.unwrap();
        Ok(
            Definition {
                ident,
                generics,
                variants: out,
                adapter: adapter.unwrap(),
                transformed: transformed.unwrap(),
                context: context.unwrap(),
                error: error.unwrap(),
            },
        )
    }
}

/// Side of a `future::Either` a stream is put on.
#[derive(Clone, Copy, Debug, PartialEq, Eq)]
pub enum EitherSide {
    /// `left_stream()`.
    Left,
    /// `right_stream()`.
    Right,
}

/// The slot of a right-nested chain of `n` `future::Either`s of streams, one
/// slot per variant, into which the wrappers `ws`, applied innermost first,
/// put a stream; [`None`] if they do not fit the chain.
///
/// Slot `k` below the last is the left side after `k` right sides; the last
/// slot is the right side after all the others.
pub open spec fn slot_of(ws: Seq<EitherSide>, n: nat) -> Option<int> {
    if n > 0 && ws.len() == n - 1 && forall|j: int| 0 <= j < ws.len() ==> #[trigger] ws[j] is Right {
        Some(n - 1)
    } else if 1 <= ws.len() < n && ws[0] is Left && forall|j: int|
        1 <= j < ws.len() ==> #[trigger] ws[j] is Right {
        Some(ws.len() - 1)
    } else {
        None
    }
}


/// Type of the stream that transforms an event of the enum: the stream of
/// one variant's event type, or a `future::Either` of two such types.
#[derive(Debug, PartialEq, Eq)]
pub enum StreamType {
    /// The stream transforming the event type, mapped into the enum's
    /// results.
    Mapped(String),
    /// `future::Either<Left, Right>`.
    Either(Box<StreamType>, Box<StreamType>),
}

/// The `future::Either`s of the streams of the event types `tys`, nested to
/// the right in declaration order: `Either<S0, Either<S1, .. Sn>>`.
pub open spec fn either_chain(tys: Seq<String>) -> StreamType
    decreases tys.len(),
{
    if tys.len() <= 1 {
        StreamType::Mapped(tys[0])
    } else {
        StreamType::Either(
            Box::new(StreamType::Mapped(tys[0])),
            Box::new(either_chain(tys.drop_first())),
        )
    }
}

/// The part of `chain` that a stream put by the wrappers `ws`, applied
/// innermost first, stands for; [`None`] if they do not fit `chain`.
pub open spec fn slot_type(chain: StreamType, ws: Seq<EitherSide>) -> Option<StreamType>
    decreases ws.len(),
{
    if ws.len() == 0 {
        Some(chain)
    } else {
        match chain {
            StreamType::Either(left, right) => match ws.last() {
                EitherSide::Left => slot_type(*left, ws.drop_last()),
                EitherSide::Right => slot_type(*right, ws.drop_last()),
            },
            StreamType::Mapped(_) => None,
        }
    }
}

/// The wrappers putting a stream into slot `i` of a chain of `tys.len()`
/// slots put it exactly where the chain of `tys` holds the stream of `tys[i]`.
pub proof fn lemma_slot_holds_its_variant(tys: Seq<String>, ws: Seq<EitherSide>, i: int)
    requires
        0 <= i < tys.len(),
        slot_of(ws, tys.len()) == Some(i),
    ensures
        slot_type(either_chain(tys), ws) == Some(StreamType::Mapped(tys[i])),
    decreases tys.len(),
{
    let n = tys.len();
    if n == 1 {
        assert(ws.len() == 0);
        assert(either_chain(tys) == StreamType::Mapped(tys[0]));
    } else if ws.len() == 1 && ws[0] is Left {
        assert(ws.last() is Left);
        assert(ws.drop_last().len() == 0);
        if i != 0 {
            assert(ws[0] is Right);
        }
        assert(slot_type(StreamType::Mapped(tys[0]), ws.drop_last()) == Some(StreamType::Mapped(tys[0])));
    } else {
        let rest = ws.drop_last();
        assert(ws.last() is Right) by {
            if ws.len() == n - 1 && forall|j: int| 0 <= j < ws.len() ==> #[trigger] ws[j] is Right {
                assert(ws[ws.len() - 1] is Right);
            } else {
                assert(ws[ws.len() - 1] is Right);
            }
        }
        assert(slot_of(rest, (n - 1) as nat) == Some(i - 1)) by {
            if ws.len() == n - 1 && forall|j: int| 0 <= j < ws.len() ==> #[trigger] ws[j] is Right {
                assert(forall|j: int| 0 <= j < rest.len() ==> #[trigger] rest[j] is Right) by {
                    assert forall|j: int| 0 <= j < rest.len() implies #[trigger] rest[j] is Right by {
                        assert(rest[j] == ws[j]);
                    }
                }
            } else {
                assert(rest[0] == ws[0]);
                assert forall|j: int| 1 <= j < rest.len() implies #[trigger] rest[j] is Right by {
                    assert(rest[j] == ws[j]);
                }
            }
        }
        let tail = tys.drop_first();
        lemma_slot_holds_its_variant(tail, rest, i - 1);
        assert(tail[i - 1] == tys[i]);
        assert(either_chain(tys) == StreamType::Either(
            Box::new(StreamType::Mapped(tys[0])),
            Box::new(either_chain(tail)),
        ));
    }
}

impl Definition {
    /// Type of the stream that transforms an event of the enum: the streams of
    /// the variants' event types, nested into `future::Either`s to the right
    /// in declaration order.
    pub fn transformed_stream(&self) -> (res: StreamType)
        requires
            self.variants@.len() > 0,
        ensures
            res == either_chain(self.variants@.map_values(|v: TransformedVariant| v.ty)),
    {
        let ghost tys = self.variants@.map_values(|v: TransformedVariant| v.ty);
        let n = self.variants.len();
        let mut acc = StreamType::Mapped(self.variants[n - 1].ty.clone());
        let mut i: usize = n - 1;
        proof {
            assert(tys.subrange(i as int, n as int).len() == 1);
            assert(tys.subrange(i as int, n as int)[0] == tys[i as int]);
        }
        while i > 0
            invariant
                n == self.variants@.len(),
                tys == self.variants@.map_values(|v: TransformedVariant| v.ty),
                i < n,
                acc == either_chain(tys.subrange(i as int, n as int)),
            decreases i,
        {
            i -= 1;
            let ty = self.variants[i].ty.clone();
            proof {
                let sub = tys.subrange(i as int, n as int);
                assert(sub.drop_first() =~= tys.subrange(i as int + 1, n as int));
                assert(sub[0] == tys[i as int]);
            }
            acc = StreamType::Either(Box::new(StreamType::Mapped(ty)), Box::new(acc));
        }
        assert(tys.subrange(0, n as int) =~= tys);
        acc
    }

    /// Wrappers to apply, innermost first, to the stream transforming the
    /// `i`-th variant, putting it into the `i`-th slot of the chain of
    /// `future::Either`s over all the variants' streams.
    pub fn stream_wrappers(&self, i: usize) -> (res: Vec<EitherSide>)
        requires
            i < self.variants@.len(),
        ensures
            slot_of(res@, self.variants@.len()) == Some(i as int),
    {
        let n = self.variants.len();
        let mut res: Vec<EitherSide> = Vec::new();
        if i + 1 < n {
            res.push(EitherSide::Left);
        }
        let mut k: usize = 0;
        while k < i
            invariant
                k <= i,
                i < n,
                n == self.variants@.len(),
                res@.len() == k + (if i + 1 < n { 1int } else { 0int }),
                i + 1 < n ==> res@[0] is Left,
                forall|j: int|
                    (if i + 1 < n { 1int } else { 0int }) <= j < res@.len() ==> #[trigger] res@[j] is Right,
            decreases i - k,
        {
            res.push(EitherSide::Right);
            k += 1;
        }
        res
    }
}

} // verus!
