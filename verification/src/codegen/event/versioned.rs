//! `#[derive(VersionedEvent)]` macro on structs, checking arguments as a pair.

use vstd::prelude::*;
use vstd::utf8::encode_utf8;

use crate::codegen::common::{non_zero_u16_of, parse_non_zero_u16};
use crate::codegen::args::names_view;
use crate::codegen::error::DeriveError;
use crate::codegen::input::{Data, DeriveInput, GenericParam, LitInt};

verus! {

/// Attributes of the `#[derive(VersionedEvent)]` macro.
#[derive(Clone, Debug, Default)]
pub struct Attrs {
    /// Value of the event's type.
    pub event_type: Option<String>,
    /// Value of the event's version.
    pub version: Option<LitInt>,
}

impl Attrs {
    /// Names of the arguments of `#[event(...)]`, in the order of the fields:
    /// `type`, then `ver` or `version`.
    pub fn arg_names() -> (res: Vec<Vec<&'static str>>)
        ensures
            names_view(res@) == seq![seq!["type"@], seq!["ver"@, "version"@]],
    {
        let res = vec![vec!["type"], vec!["ver", "version"]];
        assert(names_view(res@) =~~= seq![seq!["type"@], seq!["ver"@, "version"@]]);
        res
    }

    /// Whether these attributes are acceptable, and if not, why: the
    /// `version`, if present, must be a non-zero `u16`, and both arguments
    /// must be present.
    pub open spec fn validity(&self) -> Result<(), DeriveError> {
        match self.version {
            Some(lit) => match non_zero_u16_of(encode_utf8(lit.digits@)) {
                Err(kind) => Err(DeriveError::InvalidInt(kind)),
                Ok(_) => if self.event_type is None {
                    Err(DeriveError::TypeAndVersionExpected)
                } else {
                    Ok(())
                },
            },
            None => Err(DeriveError::TypeAndVersionExpected),
        }
    }

    /// Checks these attributes.
    pub fn validate(&self) -> (res: Result<(), DeriveError>)
        ensures
            res == self.validity(),
    {
        match &self.version {
            Some(lit) => match parse_non_zero_u16(lit.digits.as_str()) {
                Err(kind) => Err(DeriveError::InvalidInt(kind)),
                Ok(_) => if self.event_type.is_none() {
                    Err(DeriveError::TypeAndVersionExpected)
                } else {
                    Ok(())
                },
            },
            None => Err(DeriveError::TypeAndVersionExpected),
        }
    }
}

/// Definition of the `#[derive(VersionedEvent)]` macro.
#[derive(Clone, Debug)]
pub struct Definitions {
    /// Name of the struct.
    pub ident: String,
    /// Generic parameters of the struct.
    pub generics: Vec<GenericParam>,
    /// The event's type.
    pub event_type: String,
    /// The event's version.
    pub event_ver: LitInt,
}

/// What `#[derive(VersionedEvent)]` makes of `input`.
pub open spec fn definitions_of<V>(input: DeriveInput<Attrs, V>) -> Result<Definitions, DeriveError> {
    if !(input.data is Struct) {
        Err(DeriveError::ExpectedStruct)
    } else {
        match input.attrs.validity() {
            Err(e) => Err(e),
            Ok(_) => Ok(
                Definitions {
                    ident: input.ident,
                    generics: input.generics,
                    event_type: input.attrs.event_type->0,
                    event_ver: input.attrs.version->0,
                },
            ),
        }
    }
}

impl Definitions {
    /// Validates the `input` of `#[derive(VersionedEvent)]`.
    pub fn try_from<V>(input: DeriveInput<Attrs, V>) -> (res: Result<Self, DeriveError>)
        ensures
            res == definitions_of(input),
            !(input.data is Struct) ==> res == Err::<Self, DeriveError>(DeriveError::ExpectedStruct),
            input.data is Struct && input.attrs.version is None ==> res == Err::<Self, DeriveError>(
                DeriveError::TypeAndVersionExpected,
            ),
            input.data is Struct && input.attrs.version is Some ==> (
            non_zero_u16_of(encode_utf8(input.attrs.version->0.digits@)) matches Err(kind) ==> res == Err::<Self, DeriveError>(
                DeriveError::InvalidInt(kind),
            )),
            input.data is Struct && input.attrs.version is Some && non_zero_u16_of(encode_utf8(input.attrs.version->0.digits@)) is Ok
                && input.attrs.event_type is None ==> res == Err::<Self, DeriveError>(
                DeriveError::TypeAndVersionExpected,
            ),
            res is Ok <==> input.data is Struct && input.attrs.event_type is Some && input.attrs.version is Some
                && non_zero_u16_of(encode_utf8(input.attrs.version->0.digits@)) is Ok,
            res matches Ok(d) ==> d.ident == input.ident && d.generics == input.generics
                && input.attrs.event_type == Some(d.event_type) && input.attrs.version == Some(d.event_ver),
    {
        if !matches!(input.data, Data::Struct) {
            return Err(DeriveError::ExpectedStruct);
        }
        match input.attrs.validate() {
            Err(e) => Err(e),
            Ok(()) => {
                let DeriveInput { ident, generics, attrs, data: _ } = input;
                let Attrs { event_type, version } = attrs;
                Ok(
                    Definitions {
                        ident,
                        generics,
                        event_type: event_type.unwrap(),
                        event_ver: version.unwrap(),
                    },
                )
            },
        }
    }
}

} // verus!
