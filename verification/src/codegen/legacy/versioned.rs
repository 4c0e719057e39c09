//! `#[derive(VersionedEvent)]` macro on structs, checking arguments as a pair.

use vstd::prelude::*;
use vstd::utf8::encode_utf8;

use crate::codegen::common::{non_zero_u16_of, parse_non_zero_u16};
use crate::codegen::args::names_view;
use crate::codegen::error::DeriveError;
use crate::codegen::input::{Data, DeriveInput, GenericParam, LitInt};

verus! {

/// Attributes of the `#[derive(VersionedEvent)]` macro.
#[derive(Clone, Debug, Default)]
pub struct Attrs {
    /// Value of the event's name.
    pub name: Option<String>,
    /// Value of the event's version.
    pub version: Option<LitInt>,
}

impl Attrs {
    /// Names of the arguments of `#[event(...)]`, in the order of the fields:
    /// `name`, then `version`.
    pub fn arg_names() -> (res: Vec<Vec<&'static str>>)
        ensures
            names_view(res@) == seq![seq!["name"@], seq!["version"@]],
    {
        let res = vec![vec!["name"], vec!["version"]];
        assert(names_view(res@) =~~= seq![seq!["name"@], seq!["version"@]]);
        res
    }

    /// Whether these attributes are acceptable, and if not, why: the
    /// `version`, if present, must be a non-zero `u16`, and both arguments
    /// must be present.
    pub open spec fn validity(&self) -> Result<(), DeriveError> {
        match self.version {
            Some(lit) => match non_zero_u16_of(encode_utf8(lit.digits@)) {
                Err(kind) => Err(DeriveError::InvalidInt(kind)),
                Ok(_) => if self.name is None {
                    Err(DeriveError::NameAndVersionExpected)
                } else {
                    Ok(())
                },
            },
            None => Err(DeriveError::NameAndVersionExpected),
        }
    }

    /// Checks these attributes.
    pub fn validate(&self) -> (res: Result<(), DeriveError>)
        ensures
            res == self.validity(),
    {
        match &self.version {
            Some(lit) => match parse_non_zero_u16(lit.digits.as_str()) {
                Err(kind) => Err(DeriveError::InvalidInt(kind)),
                Ok(_) => if self.name.is_none() {
                    Err(DeriveError::NameAndVersionExpected)
                } else {
                    Ok(())
                },
            },
            None => Err(DeriveError::NameAndVersionExpected),
        }
    }
}

/// Definition of the `#[derive(VersionedEvent)]` macro.
#[derive(Clone, Debug)]
pub struct Definitions {
    /// Name of the struct.
    pub ident: String,
    /// Generic parameters of the struct.
    pub generics: Vec<GenericParam>,
    /// The event's name.
    pub event_name: String,
    /// The event's version.
    pub event_ver: LitInt,
}

/// What `#[derive(VersionedEvent)]` makes of `input`.
pub open spec fn definitions_of<V>(input: DeriveInput<Attrs, V>) -> Result<Definitions, DeriveError> {
    if !(input.data is Struct) {
        Err(DeriveError::ExpectedStruct)
    } else {
        match input.attrs.validity() {
            Err(e) => Err(e),
            Ok(_) => Ok(
                Definitions {
                    ident: input.ident,
                    generics: input.generics,
                    event_name: input.attrs.name->0,
                    event_ver: input.attrs.version->0,
                },
            ),
        }
    }
}

impl Definitions {
    /// Validates the `input` of `#[derive(VersionedEvent)]`.
    pub fn try_from<V>(input: DeriveInput<Attrs, V>) -> (res: Result<Self, DeriveError>)
        ensures
            res == definitions_of(input),
    {
        if !matches!(input.data, Data::Struct) {
            return Err(DeriveError::ExpectedStruct);
        }
        match input.attrs.validate() {
            Err(e) => Err(e),
            Ok(()) => {
                let DeriveInput { ident, generics, attrs, data: _ } = input;
                let Attrs { name, version } = attrs;
                Ok(
                    Definitions {
                        ident,
                        generics,
                        event_name: name.unwrap(),
                        event_ver: version.unwrap(),
                    },
                )
            },
        }
    }
}

} // verus!
