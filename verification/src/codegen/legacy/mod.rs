//! `#[derive(Event)]` macro on enums of versioned events, each variant
//! holding a single event and possibly ignored.

pub mod glue;
pub mod versioned;

use vstd::prelude::*;

use crate::codegen::args::names_view;
use crate::codegen::error::DeriveError;
use crate::codegen::input::{Data, DeriveInput, Fields, GenericParam, Variant};

verus! {

/// Helper attributes of `#[derive(Event)]` macro placed on an enum variant.
#[derive(Clone, Copy, Debug, Default)]
pub struct VariantAttrs {
    /// Whether to ignore this enum variant for code generation (`ignore` or
    /// `skip`).
    pub ignore: bool,
}

impl VariantAttrs {
    /// Names of the arguments of `#[event(...)]` on a variant: `ignore` or
    /// `skip`.
    pub fn arg_names() -> (res: Vec<Vec<&'static str>>)
        ensures
            names_view(res@) == seq![seq!["ignore"@, "skip"@]],
    {
        let res = vec![vec!["ignore", "skip"]];
        assert(names_view(res@) =~~= seq![seq!["ignore"@, "skip"@]]);
        res
    }
}

/// Representation of an enum implementing `Event`, used for code generation.
#[derive(Clone, Debug)]
pub struct Definition {
    /// Name of this enum's type.
    pub ident: String,
    /// Generic parameters of this enum's type.
    pub generics: Vec<GenericParam>,
    /// Single-field variants of this enum to consider in code generation.
    pub variants: Vec<Variant<VariantAttrs>>,
    /// Whether this enum has variants marked with `#[event(ignore)]`.
    pub has_ignored_variants: bool,
}

/// What the validation makes of `variant`: nothing if it is ignored, an error
/// if it is not a tuple variant of exactly one field, else the variant itself.
pub open spec fn variant_of(variant: Variant<VariantAttrs>) -> Result<
    Option<Variant<VariantAttrs>>,
    DeriveError,
> {
    if variant.attrs.ignore {
        Ok(None)
    } else if variant.field_count() != 1 {
        Err(DeriveError::VariantFieldCount)
    } else if variant.fields != Fields::Unnamed {
        Err(DeriveError::TupleVariantsOnly)
    } else {
        Ok(Some(variant))
    }
}

/// The variants of `variants` kept for code generation, or the error of the
/// first one refused.
pub open spec fn variants_of(variants: Seq<Variant<VariantAttrs>>) -> Result<
    Seq<Variant<VariantAttrs>>,
    DeriveError,
>
    decreases variants.len(),
{
    if variants.len() == 0 {
        Ok(Seq::empty())
    } else {
        match variants_of(variants.drop_last()) {
            Err(e) => Err(e),
            Ok(kept) => match variant_of(variants.last()) {
                Err(e) => Err(e),
                Ok(None) => Ok(kept),
                Ok(Some(v)) => Ok(kept.push(v)),
            },
        }
    }
}

/// A single variant is kept, dropped or refused as the validation of that
/// variant says.
pub proof fn lemma_variants_of_single(v: Variant<VariantAttrs>)
    ensures
        variants_of(seq![v]) == match variant_of(v) {
            Err(e) => Err(e),
            Ok(None) => Ok(Seq::<Variant<VariantAttrs>>::empty()),
            Ok(Some(kept)) => Ok(seq![kept]),
        },
{
    let one = seq![v];
    assert(one.drop_last() =~= Seq::<Variant<VariantAttrs>>::empty());
    assert(one.last() == v);
    assert(variants_of(one.drop_last()) == Ok::<Seq<Variant<VariantAttrs>>, DeriveError>(Seq::empty()));
    if let Ok(Some(kept)) = variant_of(v) {
        assert(Seq::<Variant<VariantAttrs>>::empty().push(kept) =~= seq![kept]);
    }
}

/// Variants are validated one after another, in order: for two lists of
/// variants, one after the other, the first refused one gives the error, and
/// if none is refused the kept variants are those of the first list followed by
/// those of the second.
pub proof fn lemma_variants_of_append(a: Seq<Variant<VariantAttrs>>, b: Seq<Variant<VariantAttrs>>)
    ensures
        variants_of(a + b) == match variants_of(a) {
            Err(e) => Err(e),
            Ok(ka) => match variants_of(b) {
                Err(e) => Err(e),
                Ok(kb) => Ok(ka + kb),
            },
        },
    decreases b.len(),
{
    if b.len() == 0 {
        assert(a + b =~= a);
        if let Ok(ka) = variants_of(a) {
            assert(ka + Seq::<Variant<VariantAttrs>>::empty() =~= ka);
        }
    } else {
        lemma_variants_of_append(a, b.drop_last());
        assert((a + b).drop_last() =~= a + b.drop_last());
        assert((a + b).last() == b.last());
        if let Ok(ka) = variants_of(a) {
            if let Ok(kb) = variants_of(b.drop_last()) {
                if let Ok(Some(kept)) = variant_of(b.last()) {
                    assert(ka + kb.push(kept) =~= (ka + kb).push(kept));
                }
            }
        }
    }
}

/// Why `#[derive(Event)]` refuses `input`, if it does: it is not an enum, or
/// one of its variants is refused.
pub open spec fn error_of<A>(input: DeriveInput<A, VariantAttrs>) -> Option<DeriveError> {
    match input.data {
        Data::Enum(variants) => match variants_of(variants@) {
            Err(e) => Some(e),
            Ok(_) => None,
        },
        _ => Some(DeriveError::EnumOnlyUseVersioned),
    }
}

/// Whether `def` is what `#[derive(Event)]` makes of the enum `input`.
pub open spec fn is_definition_of<A>(def: Definition, input: DeriveInput<A, VariantAttrs>) -> bool {
    match input.data {
        Data::Enum(variants) => {
            &&& variants_of(variants@) == Ok::<Seq<Variant<VariantAttrs>>, DeriveError>(
                def.variants@,
            )
            &&& def.ident == input.ident
            &&& def.generics == input.generics
            &&& def.has_ignored_variants == (def.variants@.len() < variants@.len())
        },
        _ => false,
    }
}

/// Once a prefix of `variants` is refused, all of them are, for the same
/// reason.
proof fn lemma_variants_of_error(variants: Seq<Variant<VariantAttrs>>, i: int)
    requires
        0 <= i <= variants.len(),
        variants_of(variants.take(i)) is Err,
    ensures
        variants_of(variants) == variants_of(variants.take(i)),
    decreases variants.len(),
{
    if i == variants.len() {
        assert(variants.take(i) =~= variants);
    } else {
        assert(variants.drop_last().take(i) =~= variants.take(i));
        lemma_variants_of_error(variants.drop_last(), i);
    }
}

impl Definition {
    /// Validates the given `variant`: returns it unless it is ignored.
    pub fn parse_variant(variant: Variant<VariantAttrs>) -> (res: Result<
        Option<Variant<VariantAttrs>>,
        DeriveError,
    >)
        ensures
            res == variant_of(variant),
            variant.attrs.ignore ==> res == Ok::<Option<Variant<VariantAttrs>>, DeriveError>(None),
            !variant.attrs.ignore && variant.field_types@.len() != 1 ==> res == Err::<
                Option<Variant<VariantAttrs>>,
                DeriveError,
            >(DeriveError::VariantFieldCount),
            !variant.attrs.ignore && variant.field_types@.len() == 1 && variant.fields
                != Fields::Unnamed ==> res == Err::<Option<Variant<VariantAttrs>>, DeriveError>(
                DeriveError::TupleVariantsOnly,
            ),
            !variant.attrs.ignore && variant.field_types@.len() == 1 && variant.fields
                == Fields::Unnamed ==> res == Ok::<Option<Variant<VariantAttrs>>, DeriveError>(
                Some(variant),
            ),
    {
        if variant.attrs.ignore {
            return Ok(None);
        }
        if variant.field_types.len() != 1 {
            return Err(DeriveError::VariantFieldCount);
        }
        if !matches!(variant.fields, Fields::Unnamed) {
            return Err(DeriveError::TupleVariantsOnly);
        }
        Ok(Some(variant))
    }

    /// Validates the `input` of `#[derive(Event)]`.
    pub fn try_from<A>(input: DeriveInput<A, VariantAttrs>) -> (res: Result<Self, DeriveError>)
        ensures
            match res {
                Ok(def) => error_of(input) is None && is_definition_of(def, input),
                Err(e) => error_of(input) == Some(e),
            },
    {
        let DeriveInput { ident, generics, attrs: _, data } = input;
        let mut variants = match data {
            Data::Enum(variants) => variants,
            _ => return Err(DeriveError::EnumOnlyUseVersioned),
        };
        let ghost all = variants@;
        assert(input.data matches Data::Enum(vs) && vs@ == all);
        let total = variants.len();
        let mut kept: Vec<Variant<VariantAttrs>> = Vec::new();
        let mut i: usize = 0;
        while i < total
            invariant
                total == all.len(),
                i <= total,
                input.data matches Data::Enum(vs) && vs@ == all,
                variants@ == all.skip(i as int),
                variants_of(all.take(i as int)) == Ok::<Seq<Variant<VariantAttrs>>, DeriveError>(
                    kept@,
                ),
            decreases total - i,
        {
            let v = variants.remove(0);
            proof {
                assert(v == all[i as int]);
                assert(all.take(i as int + 1).drop_last() =~= all.take(i as int));
                assert(all.take(i as int + 1).last() == all[i as int]);
                assert(variants@ =~= all.skip(i as int + 1));
            }
            match Self::parse_variant(v) {
                Err(e) => {
                    proof {
                        lemma_variants_of_error(all, i as int + 1);
                    }
                    return Err(e);
                },
                Ok(None) => {},
                Ok(Some(parsed)) => kept.push(parsed),
            }
            i += 1;
        }
        proof {
            assert(all.take(total as int) =~= all);
            lemma_fewer_kept_iff_ignored(all);
        }
        let has_ignored_variants = kept.len() < total;
        Ok(Definition { ident, generics, variants: kept, has_ignored_variants })
    }
}

/// Variants are kept but for the ignored ones: fewer are kept exactly when
/// some are ignored.
proof fn lemma_fewer_kept_iff_ignored(variants: Seq<Variant<VariantAttrs>>)
    requires
        variants_of(variants) is Ok,
    ensures
        variants_of(variants)->Ok_0.len() <= variants.len(),
        variants_of(variants)->Ok_0.len() < variants.len() <==> exists|i: int|
            0 <= i < variants.len() && #[trigger] variants[i].attrs.ignore,
    decreases variants.len(),
{
    if variants.len() > 0 {
        let rest = variants.drop_last();
        lemma_fewer_kept_iff_ignored(rest);
        if variants.last().attrs.ignore {
            assert(variants[variants.len() - 1].attrs.ignore);
        } else {
            assert forall|i: int| 0 <= i < variants.len() && #[trigger] variants[i].attrs.ignore implies (
            0 <= i < rest.len() && rest[i].attrs.ignore) by {
                if i == variants.len() - 1 {
                    assert(variants[i] == variants.last());
                }
            }
            assert forall|i: int| 0 <= i < rest.len() && #[trigger] rest[i].attrs.ignore implies (
            0 <= i < variants.len() && variants[i].attrs.ignore) by {
                assert(rest[i] == variants[i]);
            }
        }
    }
}

/// An accepted enum is flagged as having ignored variants exactly when some of
/// its variants are marked with `#[event(ignore)]`.
pub proof fn lemma_ignored_variants_flagged<A>(def: Definition, input: DeriveInput<A, VariantAttrs>)
    requires
        is_definition_of(def, input),
    ensures
        def.has_ignored_variants <==> (input.data matches Data::Enum(vs) && exists|i: int|
            0 <= i < vs@.len() && #[trigger] vs@[i].attrs.ignore),
{
    if let Data::Enum(vs) = input.data {
        lemma_fewer_kept_iff_ignored(vs@);
    }
}

} // verus!
