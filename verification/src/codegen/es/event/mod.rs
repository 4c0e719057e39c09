//! `#[derive(Event)]` macro.

pub mod adapter;
pub mod impl_enum;
pub mod impl_struct;
pub mod revised;
pub mod transformer;
pub mod versioned;

use vstd::prelude::*;

use crate::codegen::error::DeriveError;
use crate::codegen::input::DeriveInput;

verus! {

/// Input of `#[derive(Event)]`, with the helper attributes of its kind.
#[derive(Clone, Debug)]
pub enum Input {
    /// A struct.
    Struct(DeriveInput<impl_struct::Attrs, impl_enum::VariantAttrs>),
    /// An enum.
    Enum(DeriveInput<impl_enum::Attrs, impl_enum::VariantAttrs>),
    /// A union.
    Union,
}

/// What `#[derive(Event)]` generates code for.
#[derive(Clone, Debug)]
pub enum Definition {
    /// A struct.
    Struct(impl_struct::Definition),
    /// An enum.
    Enum(impl_enum::Definition),
}

/// Validates the input of `#[derive(Event)]`: structs and enums are each
/// validated as such, unions are refused.
pub fn derive(input: Input) -> (res: Result<Definition, DeriveError>)
    ensures
        match input {
            Input::Struct(i) => match res {
                Ok(Definition::Struct(def)) => impl_struct::definition_of(i) == Ok::<
                    impl_struct::Definition,
                    DeriveError,
                >(def),
                Ok(Definition::Enum(_)) => false,
                Err(e) => impl_struct::definition_of(i) == Err::<impl_struct::Definition, DeriveError>(
                    e,
                ),
            },
            Input::Enum(i) => match res {
                Ok(Definition::Enum(def)) => impl_enum::error_of(i) is None
                    && impl_enum::is_definition_of(def, i),
                Ok(Definition::Struct(_)) => false,
                Err(e) => impl_enum::error_of(i) == Some(e),
            },
            Input::Union => res == Err::<Definition, DeriveError>(DeriveError::UnionNotSupported),
        },
{
    match input {
        Input::Struct(i) => match impl_struct::Definition::try_from(i) {
            Ok(def) => Ok(Definition::Struct(def)),
            Err(e) => Err(e),
        },
        Input::Enum(i) => match impl_enum::Definition::try_from(i) {
            Ok(def) => Ok(Definition::Enum(def)),
            Err(e) => Err(e),
        },
        Input::Union => Err(DeriveError::UnionNotSupported),
    }
}

} // verus!
