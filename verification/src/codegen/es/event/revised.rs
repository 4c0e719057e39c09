//! `#[derive(event::Revised)]` macro implementation.

use vstd::prelude::*;
use vstd::utf8::encode_utf8;

use crate::codegen::common::{non_zero_u16_of, parse_non_zero_u16};
use crate::codegen::args::names_view;
use crate::codegen::error::{Argument, DeriveError};
use crate::codegen::input::{Data, DeriveInput, GenericParam, LitInt};

verus! {

/// Helper attributes of `#[derive(event::Revised)]` macro.
#[derive(Clone, Debug, Default)]
pub struct Attrs {
    /// Value of the `NAME` constant.
    pub name: Option<String>,
    /// Value of the `REVISION` constant (`rev` or `revision`).
    pub revision: Option<LitInt>,
}

impl Attrs {
    /// Names of the arguments of `#[event(...)]`, in the order of the fields:
    /// `name`, then `rev` or `revision`.
    pub fn arg_names() -> (res: Vec<Vec<&'static str>>)
        ensures
            names_view(res@) == seq![seq!["name"@], seq!["rev"@, "revision"@]],
    {
        let res = vec![vec!["name"], vec!["rev", "revision"]];
        assert(names_view(res@) =~~= seq![seq!["name"@], seq!["rev"@, "revision"@]]);
        res
    }

    /// Whether these attributes are acceptable, and if not, why: `name` and
    /// `revision` must be present, in this order, and `revision` must be a
    /// non-zero `u16`.
    pub open spec fn validity(&self) -> Result<(), DeriveError> {
        if self.name is None {
            Err(DeriveError::MissingArgument(Argument::EventName))
        } else if self.revision is None {
            Err(DeriveError::MissingArgument(Argument::EventRevision))
        } else {
            match non_zero_u16_of(encode_utf8(self.revision->0.digits@)) {
                Ok(_) => Ok(()),
                Err(kind) => Err(DeriveError::InvalidInt(kind)),
            }
        }
    }

    /// Checks these attributes.
    pub fn validate(&self) -> (res: Result<(), DeriveError>)
        ensures
            res == self.validity(),
    {
        if self.name.is_none() {
            return Err(DeriveError::MissingArgument(Argument::EventName));
        }
        match &self.revision {
            None => Err(DeriveError::MissingArgument(Argument::EventRevision)),
            Some(lit) => match parse_non_zero_u16(lit.digits.as_str()) {
                Ok(_) => Ok(()),
                Err(kind) => Err(DeriveError::InvalidInt(kind)),
            },
        }
    }
}

/// Representation of a struct implementing `event::Revised`, used for code
/// generation.
#[derive(Clone, Debug)]
pub struct Definition {
    /// Name of this structure's type.
    pub ident: String,
    /// Generic parameters of this structure's type.
    pub generics: Vec<GenericParam>,
    /// Value of the `NAME` constant in the generated code.
    pub event_name: String,
    /// Value of the `REVISION` constant in the generated code.
    pub event_revision: LitInt,
}

/// What `#[derive(event::Revised)]` makes of `input`.
pub open spec fn definition_of<V>(input: DeriveInput<Attrs, V>) -> Result<Definition, DeriveError> {
    if !(input.data is Struct) {
        Err(DeriveError::StructOnlyUseEsEvent)
    } else {
        match input.attrs.validity() {
            Err(e) => Err(e),
            Ok(_) => Ok(
                Definition {
                    ident: input.ident,
                    generics: input.generics,
                    event_name: input.attrs.name->0,
                    event_revision: input.attrs.revision->0,
                },
            ),
        }
    }
}

impl Definition {
    /// Validates the `input` of `#[derive(event::Revised)]`.
    pub fn try_from<V>(input: DeriveInput<Attrs, V>) -> (res: Result<Self, DeriveError>)
        ensures
            res == definition_of(input),
            !(input.data is Struct) ==> res == Err::<Self, DeriveError>(DeriveError::StructOnlyUseEsEvent),
            input.data is Struct && input.attrs.name is None ==> res == Err::<Self, DeriveError>(
                DeriveError::MissingArgument(Argument::EventName),
            ),
            input.data is Struct && input.attrs.name is Some && input.attrs.revision is None ==> res
                == Err::<Self, DeriveError>(DeriveError::MissingArgument(Argument::EventRevision)),
            input.data is Struct && input.attrs.name is Some && input.attrs.revision is Some ==> (
            non_zero_u16_of(encode_utf8(input.attrs.revision->0.digits@)) matches Err(kind) ==> res == Err::<Self, DeriveError>(
                DeriveError::InvalidInt(kind),
            )),
            res is Ok <==> input.data is Struct && input.attrs.name is Some && input.attrs.revision is Some
                && non_zero_u16_of(encode_utf8(input.attrs.revision->0.digits@)) is Ok,
            res matches Ok(d) ==> d.ident == input.ident && d.generics == input.generics
                && input.attrs.name == Some(d.event_name) && input.attrs.revision == Some(d.event_revision),
    {
        if !matches!(input.data, Data::Struct) {
            return Err(DeriveError::StructOnlyUseEsEvent);
        }
        match input.attrs.validate() {
            Err(e) => Err(e),
            Ok(()) => {
                let DeriveInput { ident, generics, attrs, data: _ } = input;
                let Attrs { name, revision } = attrs;
                Ok(
                    Definition {
                        ident,
                        generics,
                        event_name: name.unwrap(),
                        event_revision: revision.unwrap(),
                    },
                )
            },
        }
    }
}

} // verus!
