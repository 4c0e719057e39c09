//! Variant of an enum deriving `#[derive(Event)]`.

use vstd::prelude::*;

use crate::codegen::args::names_view;
use crate::codegen::error::DeriveError;
use crate::codegen::input::{self, Fields};

verus! {

/// Attributes of `#[derive(Event)]` macro placed on a [`Variant`].
#[derive(Clone, Copy, Debug, Default)]
pub struct Attrs {
    /// Whether this variant initializes the state (`init` or `initial`).
    pub init: bool,
    /// Whether to ignore this variant for code generation (`ignore` or
    /// `skip`).
    pub ignore: bool,
}

impl Attrs {
    /// Names of the arguments of `#[event(...)]` on a variant, in the order of
    /// the fields: `init` or `initial`, then `ignore` or `skip`.
    pub fn arg_names() -> (res: Vec<Vec<&'static str>>)
        ensures
            names_view(res@) == seq![seq!["init"@, "initial"@], seq!["ignore"@, "skip"@]],
    {
        let res = vec![vec!["init", "initial"], vec!["ignore", "skip"]];
        assert(names_view(res@) =~~= seq![seq!["init"@, "initial"@], seq!["ignore"@, "skip"@]]);
        res
    }
}

/// Type of event sourcing the [`Variant`] is using.
#[derive(Clone, Copy, Debug, PartialEq, Eq)]
pub enum Sourcing {
    /// [`Variant`] used as `event::Initialized`.
    Initialized,
    /// [`Variant`] used as `event::Sourced`.
    Sourced,
}

/// Single-fielded variant of the enum deriving `#[derive(Event)]`.
#[derive(Clone, Debug)]
pub struct Variant {
    /// Name of this [`Variant`].
    pub ident: String,
    /// Type of the field of this [`Variant`].
    pub ty: String,
    /// [`Sourcing`] type of this [`Variant`].
    pub sourcing: Sourcing,
}

/// What the validation makes of `variant`: nothing if it's ignored, an error
/// if it is both initial and ignored, or is not a tuple variant of exactly one
/// field.
pub open spec fn variant_of(variant: input::Variant<Attrs>) -> Result<Option<Variant>, DeriveError> {
    if variant.attrs.init && variant.attrs.ignore {
        Err(DeriveError::InitAndIgnore)
    } else if variant.attrs.ignore {
        Ok(None)
    } else if variant.field_count() != 1 {
        Err(DeriveError::VariantFieldCount)
    } else if variant.fields != Fields::Unnamed {
        Err(DeriveError::TupleVariantsOnly)
    } else {
        Ok(
            Some(
                Variant {
                    ident: variant.ident,
                    ty: variant.field_types@[0],
                    sourcing: if variant.attrs.init {
                        Sourcing::Initialized
                    } else {
                        Sourcing::Sourced
                    },
                },
            ),
        )
    }
}

impl Variant {
    /// Validates the given `variant`, and returns a [`Variant`] if it isn't
    /// ignored.
    pub fn parse(variant: input::Variant<Attrs>) -> (res: Result<Option<Self>, DeriveError>)
        ensures
            res == variant_of(variant),
            variant.attrs.init && variant.attrs.ignore ==> res == Err::<Option<Self>, DeriveError>(
                DeriveError::InitAndIgnore,
            ),
            variant.attrs.ignore && !variant.attrs.init ==> res == Ok::<Option<Self>, DeriveError>(
                None,
            ),
            !variant.attrs.ignore && variant.field_types@.len() != 1 ==> res == Err::<
                Option<Self>,
                DeriveError,
            >(DeriveError::VariantFieldCount),
            !variant.attrs.ignore && variant.field_types@.len() == 1 && variant.fields
                != Fields::Unnamed ==> res == Err::<Option<Self>, DeriveError>(
                DeriveError::TupleVariantsOnly,
            ),
            !variant.attrs.ignore && variant.field_types@.len() == 1 && variant.fields
                == Fields::Unnamed ==> (res matches Ok(Some(v)) && v.ident == variant.ident && v.ty
                == variant.field_types@[0] && (v.sourcing == Sourcing::Initialized
                <==> variant.attrs.init)),
    {
        if variant.attrs.init && variant.attrs.ignore {
            return Err(DeriveError::InitAndIgnore);
        }
        if variant.attrs.ignore {
            return Ok(None);
        }
        if variant.field_types.len() != 1 {
            return Err(DeriveError::VariantFieldCount);
        }
        if !matches!(variant.fields, Fields::Unnamed) {
            return Err(DeriveError::TupleVariantsOnly);
        }
        let input::Variant { ident, fields: _, field_names: _, field_types, attrs } = variant;
        let mut field_types = field_types;
        let ty = field_types.remove(0);
        let sourcing = if attrs.init {
            Sourcing::Initialized
        } else {
            Sourcing::Sourced
        };
        Ok(Some(Variant { ident, ty, sourcing }))
    }
}

} // verus!
