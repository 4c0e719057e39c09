//! Plain model of a `#[derive]` input: what the validation reads of it.

use vstd::prelude::*;

verus! {

/// Kind of the fields of a struct or an enum variant.
#[derive(Clone, Copy, Debug, PartialEq, Eq)]
pub enum Fields {
    /// `{ a: A, .. }`
    Named,
    /// `(A, ..)`
    Unnamed,
    /// No fields at all.
    Unit,
}

/// An enum variant along with its parsed helper attributes `A`.
#[derive(Clone, Debug)]
pub struct Variant<A> {
    /// Name of the variant.
    pub ident: String,
    /// Kind of the variant's fields.
    pub fields: Fields,
    /// Names of the variant's fields, if they are named ones.
    pub field_names: Vec<String>,
    /// Types of the variant's fields, as written.
    pub field_types: Vec<String>,
    /// Helper attributes placed on the variant.
    pub attrs: A,
}

impl<A> Variant<A> {
    /// Number of fields of this variant.
    pub open spec fn field_count(&self) -> nat {
        self.field_types@.len()
    }
}

/// A generic parameter of the deriving type.
#[derive(Clone, Debug, PartialEq, Eq)]
pub enum GenericParam {
    /// A lifetime parameter, named.
    Lifetime(String),
    /// A type parameter, named.
    Type(String),
    /// A const parameter, as written.
    Const(String),
}

/// Kind of the deriving type, with the variants of an enum.
#[derive(Clone, Debug)]
pub enum Data<V> {
    /// A struct.
    Struct,
    /// An enum and its variants.
    Enum(Vec<Variant<V>>),
    /// A union.
    Union,
}

/// The deriving type: its name, generics, parsed container attributes `A`
/// and data with variant attributes `V`.
#[derive(Clone, Debug)]
pub struct DeriveInput<A, V> {
    /// Name of the type.
    pub ident: String,
    /// Generic parameters of the type.
    pub generics: Vec<GenericParam>,
    /// Helper attributes placed on the type.
    pub attrs: A,
    /// Kind of the type.
    pub data: Data<V>,
}

/// An integer literal: as written, and its base-10 digits.
#[derive(Clone, Debug)]
pub struct LitInt {
    /// The literal as written, with its suffix if any.
    pub repr: String,
    /// The base-10 digits of its value, with a leading `-` if negative.
    pub digits: String,
}

} // verus!
