//! `#[derive(event::Adapter)]` macro implementation.

use vstd::prelude::*;

use crate::codegen::args::names_view;
use crate::codegen::error::{Argument, DeriveError};
use crate::codegen::input::{DeriveInput, GenericParam};

verus! {

/// Helper attributes of `#[derive(event::Adapter)]` macro.
#[derive(Clone, Debug, Default)]
pub struct Attrs {
    /// The `Returning::Transformed` associated type (`into` or
    /// `transformed`), as written.
    pub transformed: Option<String>,
    /// The `Returning::Error` associated type (`err` or `error`), as written.
    pub error: Option<String>,
}

impl Attrs {
    /// Names of the arguments of `#[adapter(...)]`, in the order of the fields:
    /// `into` or `transformed`, then `err` or `error`.
    pub fn arg_names() -> (res: Vec<Vec<&'static str>>)
        ensures
            names_view(res@) == seq![seq!["into"@, "transformed"@], seq!["err"@, "error"@]],
    {
        let res = vec![vec!["into", "transformed"], vec!["err", "error"]];
        assert(names_view(res@) =~~= seq![seq!["into"@, "transformed"@], seq!["err"@, "error"@]]);
        res
    }
}

/// Representation of a type implementing `Returning`, used for code
/// generation.
#[derive(Clone, Debug)]
pub struct Definition {
    /// Name of this type.
    pub ident: String,
    /// Generic parameters of this type.
    pub generics: Vec<GenericParam>,
    /// The `Returning::Transformed` associated type.
    pub transformed: String,
    /// The `Returning::Error` associated type.
    pub error: String,
}

/// The error type used when none is specified.
pub open spec fn default_error() -> Seq<char> {
    "::std::convert::Infallible"@
}

impl Definition {
    /// Validates the `input` of `#[derive(event::Adapter)]`: `transformed` must
    /// be specified, `error` defaults to `Infallible`.
    pub fn try_from<V>(input: DeriveInput<Attrs, V>) -> (res: Result<Self, DeriveError>)
        ensures
            input.attrs.transformed is None ==> res == Err::<Self, DeriveError>(
                DeriveError::MissingArgument(Argument::AdapterTransformed),
            ),
            input.attrs.transformed matches Some(t) ==> (res matches Ok(def) && def.ident
                == input.ident && def.generics == input.generics && def.transformed == t
                && def.error@ == match input.attrs.error {
                Some(e) => e@,
                None => default_error(),
            }),
    {
        let DeriveInput { ident, generics, attrs, data: _ } = input;
        let Attrs { transformed, error } = attrs;
        let transformed = match transformed {
            Some(t) => t,
            None => return Err(DeriveError::MissingArgument(Argument::AdapterTransformed)),
        };
        let error = match error {
            Some(e) => e,
            None => {
                proof {
                    reveal_strlit("::std::convert::Infallible");
                }
                "::std::convert::Infallible".to_owned()
            },
        };
        Ok(Definition { ident, generics, transformed, error })
    }
}

} // verus!
