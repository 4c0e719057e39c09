//! `#[derive(Event)]` macro on enums.

pub mod variant;

use vstd::prelude::*;

use crate::codegen::args::names_view;
use crate::codegen::error::DeriveError;
use crate::codegen::input::{self, Data, DeriveInput, GenericParam};

pub use self::variant::{Attrs as VariantAttrs, Sourcing as VariantEventSourcing, Variant};
use self::variant::Sourcing;
use self::variant::variant_of;

verus! {

/// Attributes of the `#[derive(Event)]` macro placed on an enum.
#[derive(Clone, Copy, Debug, Default)]
pub struct Attrs {
    /// Whether the enum should be treated as an `event::Revisable` (`rev` or
    /// `revision`).
    pub revision: bool,
}

impl Attrs {
    /// Names of the arguments of `#[event(...)]` on an enum: `rev` or
    /// `revision`.
    pub fn arg_names() -> (res: Vec<Vec<&'static str>>)
        ensures
            names_view(res@) == seq![seq!["rev"@, "revision"@]],
    {
        let res = vec![vec!["rev", "revision"]];
        assert(names_view(res@) =~~= seq![seq!["rev"@, "revision"@]]);
        res
    }
}

/// Representation of an enum implementing `Event` (and `event::Revisable`,
/// optionally), used for the code generation.
#[derive(Clone, Debug)]
pub struct Definition {
    /// Name of this enum's type.
    pub ident: String,
    /// Generic parameters of this enum's type.
    pub generics: Vec<GenericParam>,
    /// Non-ignored [`Variant`]s of this enum.
    pub variants: Vec<Variant>,
    /// Whether this enum has any variants marked with `#[event(ignore)]`.
    pub has_ignored_variants: bool,
    /// Whether this enum should implement `event::Revisable`.
    pub is_revisable: bool,
}

/// The non-ignored variants of `variants`, or the error of the first one
/// refused.
pub open spec fn variants_of(variants: Seq<input::Variant<VariantAttrs>>) -> Result<
    Seq<Variant>,
    DeriveError,
>
    decreases variants.len(),
{
    if variants.len() == 0 {
        Ok(Seq::empty())
    } else {
        match variants_of(variants.drop_last()) {
            Err(e) => Err(e),
            Ok(kept) => match variant_of(variants.last()) {
                Err(e) => Err(e),
                Ok(None) => Ok(kept),
                Ok(Some(v)) => Ok(kept.push(v)),
            },
        }
    }
}

/// A single variant is kept, dropped or refused as the validation of that
/// variant says.
pub proof fn lemma_variants_of_single(v: input::Variant<VariantAttrs>)
    ensures
        variants_of(seq![v]) == match variant_of(v) {
            Err(e) => Err(e),
            Ok(None) => Ok(Seq::<Variant>::empty()),
            Ok(Some(kept)) => Ok(seq![kept]),
        },
{
    let one = seq![v];
    assert(one.drop_last() =~= Seq::<input::Variant<VariantAttrs>>::empty());
    assert(one.last() == v);
    assert(variants_of(one.drop_last()) == Ok::<Seq<Variant>, DeriveError>(Seq::empty()));
    if let Ok(Some(kept)) = variant_of(v) {
        assert(Seq::<Variant>::empty().push(kept) =~= seq![kept]);
    }
}

/// Variants are validated one after another, in order: for two lists of
/// variants, one after the other, the first refused one gives the error, and
/// if none is refused the kept variants are those of the first list followed by
/// those of the second.
pub proof fn lemma_variants_of_append(a: Seq<input::Variant<VariantAttrs>>, b: Seq<input::Variant<VariantAttrs>>)
    ensures
        variants_of(a + b) == match variants_of(a) {
            Err(e) => Err(e),
            Ok(ka) => match variants_of(b) {
                Err(e) => Err(e),
                Ok(kb) => Ok(ka + kb),
            },
        },
    decreases b.len(),
{
    if b.len() == 0 {
        assert(a + b =~= a);
        if let Ok(ka) = variants_of(a) {
            assert(ka + Seq::<Variant>::empty() =~= ka);
        }
    } else {
        lemma_variants_of_append(a, b.drop_last());
        assert((a + b).drop_last() =~= a + b.drop_last());
        assert((a + b).last() == b.last());
        if let Ok(ka) = variants_of(a) {
            if let Ok(kb) = variants_of(b.drop_last()) {
                if let Ok(Some(kept)) = variant_of(b.last()) {
                    assert(ka + kb.push(kept) =~= (ka + kb).push(kept));
                }
            }
        }
    }
}

/// Why `#[derive(Event)]` refuses `input`, if it does: it is not an enum, a
/// variant is refused, or no variant is left once the ignored ones are
/// dropped.
pub open spec fn error_of(input: DeriveInput<Attrs, VariantAttrs>) -> Option<DeriveError> {
    match input.data {
        Data::Enum(variants) => match variants_of(variants@) {
            Err(e) => Some(e),
            Ok(kept) => if kept.len() == 0 {
                Some(DeriveError::NoNonIgnoredVariants)
            } else {
                None
            },
        },
        _ => Some(DeriveError::OnlyEnums),
    }
}

/// Whether `def` is what `#[derive(Event)]` makes of the enum `input`.
pub open spec fn is_definition_of(def: Definition, input: DeriveInput<Attrs, VariantAttrs>) -> bool {
    match input.data {
        Data::Enum(variants) => {
            &&& variants_of(variants@) == Ok::<Seq<Variant>, DeriveError>(def.variants@)
            &&& def.ident == input.ident
            &&& def.generics == input.generics
            &&& def.has_ignored_variants == (def.variants@.len() < variants@.len())
            &&& def.is_revisable == input.attrs.revision
        },
        _ => false,
    }
}

impl Definition {
    /// Validates the `input` of `#[derive(Event)]` on an enum.
    pub fn try_from(input: DeriveInput<Attrs, VariantAttrs>) -> (res: Result<Self, DeriveError>)
        ensures
            match res {
                Ok(def) => error_of(input) is None && is_definition_of(def, input),
                Err(e) => error_of(input) == Some(e),
            },
    {
        let DeriveInput { ident, generics, attrs, data } = input;
        let mut variants = match data {
            Data::Enum(variants) => variants,
            _ => return Err(DeriveError::OnlyEnums),
        };
        let ghost all = variants@;
        assert(input.data matches Data::Enum(vs) && vs@ == all);
        let total = variants.len();
        let mut kept: Vec<Variant> = Vec::new();
        let mut i: usize = 0;
        while i < total
            invariant
                total == all.len(),
                i <= total,
                input.data matches Data::Enum(vs) && vs@ == all,
                variants@ == all.skip(i as int),
                variants_of(all.take(i as int)) == Ok::<Seq<Variant>, DeriveError>(kept@),
                kept@.len() <= i,
            decreases total - i,
        {
            let v = variants.remove(0);
            proof {
                assert(v == all[i as int]);
                assert(all.take(i as int + 1).drop_last() =~= all.take(i as int));
                assert(variants@ =~= all.skip(i as int + 1));
            }
            match Variant::parse(v) {
                Err(e) => {
                    proof {
                        assert(all.take(i as int + 1).last() == all[i as int]);
                        assert(variants_of(all.take(i as int + 1)) == Err::<Seq<Variant>, DeriveError>(e));
                        lemma_variants_of_error(all, i as int + 1);
                    }
                    return Err(e);
                },
                Ok(None) => {},
                Ok(Some(parsed)) => kept.push(parsed),
            }
            i += 1;
        }
        proof {
            assert(all.take(total as int) =~= all);
        }
        if kept.len() == 0 {
            return Err(DeriveError::NoNonIgnoredVariants);
        }
        let has_ignored_variants = kept.len() < total;
        Ok(
            Definition {
                ident,
                generics,
                variants: kept,
                has_ignored_variants,
                is_revisable: attrs.revision,
            },
        )
    }
}

/// Once a prefix of `variants` is refused, all of them are, for the same
/// reason.
proof fn lemma_variants_of_error(variants: Seq<input::Variant<VariantAttrs>>, i: int)
    requires
        0 <= i <= variants.len(),
        variants_of(variants.take(i)) is Err,
    ensures
        variants_of(variants) == variants_of(variants.take(i)),
    decreases variants.len(),
{
    if i == variants.len() {
        assert(variants.take(i) =~= variants);
    } else {
        assert(variants.drop_last().take(i) =~= variants.take(i));
        lemma_variants_of_error(variants.drop_last(), i);
    }
}

/// A generic argument standing for a generic parameter in `const` contexts.
#[derive(Clone, Debug, PartialEq, Eq)]
pub enum TrivialArg {
    /// `'static` for a lifetime parameter.
    StaticLifetime,
    /// `()` for a type parameter.
    Unit,
    /// The const parameter itself, as written.
    Const(String),
}

/// Whether `arg` is what stands for `param` in `const` contexts.
pub open spec fn substitutes(param: GenericParam, arg: TrivialArg) -> bool {
    match (param, arg) {
        (GenericParam::Lifetime(_), TrivialArg::StaticLifetime) => true,
        (GenericParam::Type(_), TrivialArg::Unit) => true,
        (GenericParam::Const(c), TrivialArg::Const(d)) => c@ == d@,
        _ => false,
    }
}

/// Names of the type parameters among `generics`, in order.
pub open spec fn type_param_names(generics: Seq<GenericParam>) -> Seq<Seq<char>>
    decreases generics.len(),
{
    if generics.len() == 0 {
        Seq::empty()
    } else {
        match generics.last() {
            GenericParam::Type(name) => type_param_names(generics.drop_last()).push(name@),
            _ => type_param_names(generics.drop_last()),
        }
    }
}

/// A single parameter has its own name among the type parameters' names if it
/// is a type parameter, and none otherwise.
pub proof fn lemma_type_param_names_single(param: GenericParam)
    ensures
        type_param_names(seq![param]) == match param {
            GenericParam::Type(name) => seq![name@],
            _ => Seq::<Seq<char>>::empty(),
        },
{
    let one = seq![param];
    assert(one.drop_last() =~= Seq::<GenericParam>::empty());
    assert(one.last() == param);
    assert(type_param_names(one.drop_last()) == Seq::<Seq<char>>::empty());
    match param {
        GenericParam::Type(name) => {
            assert(Seq::<Seq<char>>::empty().push(name@) =~= seq![name@]);
        },
        _ => {},
    }
}

/// The type parameters' names of two lists of parameters, one after the
/// other, are those of the first list followed by those of the second: the
/// names keep the order of the parameters.
pub proof fn lemma_type_param_names_append(a: Seq<GenericParam>, b: Seq<GenericParam>)
    ensures
        type_param_names(a + b) == type_param_names(a) + type_param_names(b),
    decreases b.len(),
{
    if b.len() == 0 {
        assert(a + b =~= a);
        assert(type_param_names(a) + type_param_names(b) =~= type_param_names(a));
    } else {
        lemma_type_param_names_append(a, b.drop_last());
        assert((a + b).drop_last() =~= a + b.drop_last());
        assert((a + b).last() == b.last());
        match b.last() {
            GenericParam::Type(name) => {
                assert(type_param_names(a) + type_param_names(b) =~= (type_param_names(a)
                    + type_param_names(b.drop_last())).push(name@));
            },
            _ => {},
        }
    }
}

impl Definition {
    /// Substitutes the provided generic parameters with trivial arguments:
    /// lifetimes with `'static`, types with `()`, consts with themselves.
    pub fn substitute_generics_trivially(generics: &Vec<GenericParam>) -> (res: Vec<TrivialArg>)
        ensures
            res@.len() == generics@.len(),
            forall|i: int| 0 <= i < res@.len() ==> #[trigger] substitutes(generics@[i], res@[i]),
    {
        let mut res: Vec<TrivialArg> = Vec::new();
        let mut i: usize = 0;
        while i < generics.len()
            invariant
                i <= generics@.len(),
                res@.len() == i,
                forall|k: int| 0 <= k < i ==> #[trigger] substitutes(generics@[k], res@[k]),
            decreases generics@.len() - i,
        {
            let arg = match &generics[i] {
                GenericParam::Lifetime(_) => TrivialArg::StaticLifetime,
                GenericParam::Type(_) => TrivialArg::Unit,
                GenericParam::Const(c) => TrivialArg::Const(c.clone()),
            };
            res.push(arg);
            i += 1;
        }
        res
    }

    /// Names of the type parameters to shadow with `type T = ();` aliases in
    /// `const` contexts.
    pub fn shadow_generics_trivially(generics: &Vec<GenericParam>) -> (res: Vec<String>)
        ensures
            res@.map_values(|s: String| s@) == type_param_names(generics@),
    {
        let mut res: Vec<String> = Vec::new();
        let mut i: usize = 0;
        while i < generics.len()
            invariant
                i <= generics@.len(),
                res@.map_values(|s: String| s@) == type_param_names(generics@.take(i as int)),
            decreases generics@.len() - i,
        {
            proof {
                assert(generics@.take(i as int + 1).drop_last() =~= generics@.take(i as int));
            }
            match &generics[i] {
                GenericParam::Type(name) => {
                    let ghost prev = res@;
                    res.push(name.clone());
                    assert(res@.map_values(|s: String| s@) =~= prev.map_values(|s: String| s@).push(
                        name@,
                    ));
                },
                _ => {},
            }
            i += 1;
        }
        assert(generics@.take(generics@.len() as int) =~= generics@);
        res
    }
}

/// Variants are kept but for the ignored ones: fewer are kept exactly when
/// some are ignored.
proof fn lemma_fewer_kept_iff_ignored(variants: Seq<input::Variant<VariantAttrs>>)
    requires
        variants_of(variants) is Ok,
    ensures
        variants_of(variants)->Ok_0.len() <= variants.len(),
        variants_of(variants)->Ok_0.len() < variants.len() <==> exists|i: int|
            0 <= i < variants.len() && #[trigger] variants[i].attrs.ignore,
    decreases variants.len(),
{
    if variants.len() > 0 {
        let rest = variants.drop_last();
        lemma_fewer_kept_iff_ignored(rest);
        if variants.last().attrs.ignore {
            assert(variants[variants.len() - 1].attrs.ignore);
        } else {
            assert forall|i: int| 0 <= i < variants.len() && #[trigger] variants[i].attrs.ignore implies (
            0 <= i < rest.len() && rest[i].attrs.ignore) by {
                if i == variants.len() - 1 {
                    assert(variants[i] == variants.last());
                }
            }
            assert forall|i: int| 0 <= i < rest.len() && #[trigger] rest[i].attrs.ignore implies (
            0 <= i < variants.len() && variants[i].attrs.ignore) by {
                assert(rest[i] == variants[i]);
            }
        }
    }
}

/// An accepted enum is flagged as having ignored variants exactly when some of
/// its variants are marked with `#[event(ignore)]`.
pub proof fn lemma_ignored_variants_flagged(def: Definition, input: DeriveInput<Attrs, VariantAttrs>)
    requires
        is_definition_of(def, input),
    ensures
        def.has_ignored_variants <==> (input.data matches Data::Enum(vs) && exists|i: int|
            0 <= i < vs@.len() && #[trigger] vs@[i].attrs.ignore),
{
    if let Data::Enum(vs) = input.data {
        lemma_fewer_kept_iff_ignored(vs@);
    }
}

/// One arm of the blanket `event::Sourced` impl of an enum: the variant, the
/// type of the event it holds, and whether that event is applied as an
/// `event::Initial` one.
#[derive(Clone, Debug)]
pub struct SourcedArm {
    /// Name of the variant.
    pub variant: String,
    /// Type of the event held by the variant.
    pub event_ty: String,
    /// Whether the event is applied wrapped into `event::Initial`.
    pub via_initial: bool,
}

/// What the `event::Revisable` impl of an enum is made of: the revision type,
/// that of its first variant's event, and the event types that must be
/// revisable, with revisions convertible into it.
#[derive(Clone, Debug)]
pub struct RevisablePlan {
    /// Type of the event whose revision type the enum takes.
    pub revision_of: String,
    /// Types of the events of all the variants, in order.
    pub bounded: Vec<String>,
}

/// Whether `arm` is the arm of the blanket `event::Sourced` impl for `v`.
pub open spec fn is_arm_of(arm: SourcedArm, v: Variant) -> bool {
    &&& arm.variant == v.ident
    &&& arm.event_ty == v.ty
    &&& arm.via_initial == (v.sourcing == Sourcing::Initialized)
}

impl Definition {
    /// The arms of the blanket `event::Sourced` impl, one per variant, in
    /// order: `#[event(init)]` variants are applied as `event::Initial`
    /// events, the others as they are.
    pub fn sourced_arms(&self) -> (res: Vec<SourcedArm>)
        ensures
            res@.len() == self.variants@.len(),
            forall|i: int| 0 <= i < res@.len() ==> is_arm_of(#[trigger] res@[i], self.variants@[i]),
    {
        let mut res: Vec<SourcedArm> = Vec::new();
        let mut i: usize = 0;
        while i < self.variants.len()
            invariant
                i <= self.variants@.len(),
                res@.len() == i,
                forall|k: int| 0 <= k < i ==> is_arm_of(#[trigger] res@[k], self.variants@[k]),
            decreases self.variants@.len() - i,
        {
            let v = &self.variants[i];
            let via_initial = match v.sourcing {
                Sourcing::Initialized => true,
                Sourcing::Sourced => false,
            };
            res.push(SourcedArm { variant: v.ident.clone(), event_ty: v.ty.clone(), via_initial });
            i += 1;
        }
        res
    }

    /// What the `event::Revisable` impl is made of, if the enum is revisable.
    pub fn revisable_plan(&self) -> (res: Option<RevisablePlan>)
        requires
            self.variants@.len() > 0,
        ensures
            res is Some == self.is_revisable,
            res matches Some(p) ==> p.revision_of == self.variants@[0].ty && p.bounded@
                == self.variants@.map_values(|v: Variant| v.ty),
    {
        if !self.is_revisable {
            return None;
        }
        let mut bounded: Vec<String> = Vec::new();
        let mut i: usize = 0;
        while i < self.variants.len()
            invariant
                i <= self.variants@.len(),
                bounded@ == self.variants@.take(i as int).map_values(|v: Variant| v.ty),
            decreases self.variants@.len() - i,
        {
            let ghost prev = bounded@;
            bounded.push(self.variants[i].ty.clone());
            proof {
                assert(self.variants@.take(i as int + 1) =~= self.variants@.take(i as int).push(
                    self.variants@[i as int],
                ));
                assert(bounded@ =~= self.variants@.take(i as int + 1).map_values(
                    |v: Variant| v.ty,
                ));
            }
            i += 1;
        }
        assert(self.variants@.take(self.variants@.len() as int) =~= self.variants@);
        Some(RevisablePlan { revision_of: self.variants[0].ty.clone(), bounded })
    }
}

} // verus!
