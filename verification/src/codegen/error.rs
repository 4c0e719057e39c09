//! Errors of validating `#[derive]` inputs.

use vstd::prelude::*;
use vstd::string::StringExecFns;

verus! {

/// Kind of a failure to parse the base-10 digits of an integer literal.
#[derive(Clone, Copy, Debug, PartialEq, Eq)]
pub enum IntErrorKind {
    /// There are no digits at all.
    Empty,
    /// Something else than a decimal digit is present.
    InvalidDigit,
    /// The value is too large for the target type.
    PosOverflow,
    /// The value is zero, while the target type is non-zero.
    Zero,
}

impl IntErrorKind {
    /// Human readable description of this error.
    pub open spec fn description(&self) -> Seq<char> {
        match self {
            IntErrorKind::Empty => "cannot parse integer from empty string"@,
            IntErrorKind::InvalidDigit => "invalid digit found in string"@,
            IntErrorKind::PosOverflow => "number too large to fit in target type"@,
            IntErrorKind::Zero => "number would be zero for non-zero type"@,
        }
    }

    /// Human readable description of this error.
    pub fn message(&self) -> (res: &'static str)
        ensures
            res@ == self.description(),
    {
        match self {
            IntErrorKind::Empty => "cannot parse integer from empty string",
            IntErrorKind::InvalidDigit => "invalid digit found in string",
            IntErrorKind::PosOverflow => "number too large to fit in target type",
            IntErrorKind::Zero => "number would be zero for non-zero type",
        }
    }
}

/// Argument of a helper attribute that must be present.
#[derive(Clone, Copy, Debug, PartialEq, Eq)]
pub enum Argument {
    /// `name` of `#[event]`.
    EventName,
    /// `rev` or `revision` of `#[event]`.
    EventRevision,
    /// `ver` or `version` of `#[event]`.
    EventVersion,
    /// `into` or `transformed` of `#[adapter]`.
    AdapterTransformed,
    /// `transformer` of `#[event]`.
    EventTransformer,
    /// `adapter` of `#[event(transformer)]`.
    TransformerAdapter,
    /// `into` or `transformed` of `#[event(transformer)]`.
    TransformerTransformed,
    /// `context` or `ctx` of `#[event(transformer)]`.
    TransformerContext,
    /// `err` or `error` of `#[event(transformer)]`.
    TransformerError,
}

impl Argument {
    /// Human readable description of this argument being absent.
    pub open spec fn absence_description(&self) -> Seq<char> {
        match self {
            Argument::EventName =>
                "`name` argument of `#[event]` attribute is expected to be present, but is absent"@,
            Argument::EventRevision =>
                "either `rev` or `revision` argument of `#[event]` attribute is expected to be present, but is absent"@,
            Argument::EventVersion =>
                "either `ver` or `version` argument of `#[event]` attribute is expected to be present, but is absent"@,
            Argument::AdapterTransformed =>
                "either `into` or `transformed` argument of `#[adapter]` attribute is expected to be present, but is absent"@,
            Argument::EventTransformer =>
                "`transformer` argument of `#[event]` attribute is expected to be present, but is absent"@,
            Argument::TransformerAdapter =>
                "`adapter` argument of `#[event(transformer)]` attribute is expected to be present, but is absent"@,
            Argument::TransformerTransformed =>
                "either `into` or `transformed` argument of `#[event(transformer)]` attribute is expected to be present, but is absent"@,
            Argument::TransformerContext =>
                "either `context` or `ctx` argument of `#[event(transformer)]` attribute is expected to be present, but is absent"@,
            Argument::TransformerError =>
                "either `err` or `error` argument of `#[event(transformer)]` attribute is expected to be present, but is absent"@,
        }
    }

    /// Human readable description of this argument being absent.
    pub fn absence_message(&self) -> (res: &'static str)
        ensures
            res@ == self.absence_description(),
    {
        match self {
            Argument::EventName =>
                "`name` argument of `#[event]` attribute is expected to be present, but is absent",
            Argument::EventRevision =>
                "either `rev` or `revision` argument of `#[event]` attribute is expected to be present, but is absent",
            Argument::EventVersion =>
                "either `ver` or `version` argument of `#[event]` attribute is expected to be present, but is absent",
            Argument::AdapterTransformed =>
                "either `into` or `transformed` argument of `#[adapter]` attribute is expected to be present, but is absent",
            Argument::EventTransformer =>
                "`transformer` argument of `#[event]` attribute is expected to be present, but is absent",
            Argument::TransformerAdapter =>
                "`adapter` argument of `#[event(transformer)]` attribute is expected to be present, but is absent",
            Argument::TransformerTransformed =>
                "either `into` or `transformed` argument of `#[event(transformer)]` attribute is expected to be present, but is absent",
            Argument::TransformerContext =>
                "either `context` or `ctx` argument of `#[event(transformer)]` attribute is expected to be present, but is absent",
            Argument::TransformerError =>
                "either `err` or `error` argument of `#[event(transformer)]` attribute is expected to be present, but is absent",
        }
    }
}

/// Reason why a `#[derive]` input is refused.
#[derive(Clone, Debug, PartialEq, Eq)]
pub enum DeriveError {
    /// A required attribute argument is absent.
    MissingArgument(Argument),
    /// A revision or version literal is not a non-zero `u16`.
    InvalidInt(IntErrorKind),
    /// Unions can't derive events.
    UnionNotSupported,
    /// Only structs are allowed.
    OnlyStructs,
    /// Only enums are allowed.
    OnlyEnums,
    /// Only structs are allowed, enums should derive `arcane::es::Event`.
    StructOnlyUseEsEvent,
    /// Only structs are allowed, enums should derive `arcana::es::Event`.
    StructOnlyUseArcanaEsEvent,
    /// Only enums are allowed, structs should derive a versioned event.
    EnumOnlyUseVersioned,
    /// Only enums are allowed.
    EnumOnly,
    /// Only enums are allowed, structs should derive `arcana::VersionedEvent`.
    ExpectedEnum,
    /// Only structs are allowed, enums should derive `arcana::Event`.
    ExpectedStruct,
    /// An enum variant doesn't have exactly one field.
    VariantFieldCount,
    /// An enum variant doesn't have exactly one field (capitalized message).
    EnumVariantFieldCount,
    /// An enum variant is not a tuple one.
    TupleVariantsOnly,
    /// An enum variant is marked both as initial and as ignored.
    InitAndIgnore,
    /// No enum variant is left once the ignored ones are dropped.
    NoNonIgnoredVariants,
    /// The enum has no variants.
    NoVariants,
    /// An unknown value of the `skip` argument.
    UnknownSkipValue,
    /// `name` and `version` arguments are both required.
    NameAndVersionExpected,
    /// `type` and `version` arguments are both required.
    TypeAndVersionExpected,
    /// An attribute argument is given twice.
    DuplicatedArgument,
    /// An attribute argument of the given name is not known.
    UnknownArgument(String),
    /// Only structs can derive `Event`.
    OnlyStructsCanDerive,
}

impl DeriveError {
    /// Human readable description of this error.
    pub open spec fn description(&self) -> Seq<char> {
        match self {
            DeriveError::MissingArgument(arg) => arg.absence_description(),
            DeriveError::InvalidInt(kind) => kind.description(),
            DeriveError::UnknownArgument(name) =>
                "unknown `"@ + name@ + "` attribute argument"@,
            DeriveError::UnionNotSupported =>
                "union types are not supported"@,
            DeriveError::OnlyStructs =>
                "only structs are allowed"@,
            DeriveError::OnlyEnums =>
                "only enums are allowed"@,
            DeriveError::StructOnlyUseEsEvent =>
                "expected struct only, consider using `arcane::es::Event` for enums"@,
            DeriveError::StructOnlyUseArcanaEsEvent =>
                "expected struct only, consider using `arcana::es::Event` for enums"@,
            DeriveError::EnumOnlyUseVersioned =>
                "expected enum only, consider using `arcana::es::event::Versioned` for structs"@,
            DeriveError::EnumOnly =>
                "expected enum only"@,
            DeriveError::ExpectedEnum =>
                "Expected enum. Consider using arcana::VersionedEvent for structs"@,
            DeriveError::ExpectedStruct =>
                "Expected struct. Consider using arcana::Event for enums"@,
            DeriveError::VariantFieldCount =>
                "enum variants must have exactly 1 field"@,
            DeriveError::EnumVariantFieldCount =>
                "Enum variants must have exactly 1 field"@,
            DeriveError::TupleVariantsOnly =>
                "only tuple struct enum variants allowed"@,
            DeriveError::InitAndIgnore =>
                "`init` and `ignore`/`skip` arguments are mutually exclusive"@,
            DeriveError::NoNonIgnoredVariants =>
                "enum must have at least one non-ignored variant"@,
            DeriveError::NoVariants =>
                "enum must have at least one variant"@,
            DeriveError::UnknownSkipValue =>
                "Unknown value. Allowed values: check_unique_type_and_ver"@,
            DeriveError::NameAndVersionExpected =>
                "`name` and `version` arguments expected"@,
            DeriveError::TypeAndVersionExpected =>
                "`type` and `version` arguments expected"@,
            DeriveError::DuplicatedArgument =>
                "duplicated attribute argument found"@,
            DeriveError::OnlyStructsCanDerive =>
                "Only structs can derive Event"@,
        }
    }

    /// Human readable description of this error.
    pub fn message(&self) -> (res: String)
        ensures
            res@ == self.description(),
    {
        match self {
            DeriveError::MissingArgument(arg) => String::from_str(arg.absence_message()),
            DeriveError::InvalidInt(kind) => String::from_str(kind.message()),
            DeriveError::UnknownArgument(name) =>
                String::from_str("unknown `").concat(name.as_str()).concat("` attribute argument"),
            DeriveError::UnionNotSupported =>
                String::from_str("union types are not supported"),
            DeriveError::OnlyStructs =>
                String::from_str("only structs are allowed"),
            DeriveError::OnlyEnums =>
                String::from_str("only enums are allowed"),
            DeriveError::StructOnlyUseEsEvent =>
                String::from_str("expected struct only, consider using `arcane::es::Event` for enums"),
            DeriveError::StructOnlyUseArcanaEsEvent =>
                String::from_str("expected struct only, consider using `arcana::es::Event` for enums"),
            DeriveError::EnumOnlyUseVersioned =>
                String::from_str("expected enum only, consider using `arcana::es::event::Versioned` for structs"),
            DeriveError::EnumOnly =>
                String::from_str("expected enum only"),
            DeriveError::ExpectedEnum =>
                String::from_str("Expected enum. Consider using arcana::VersionedEvent for structs"),
            DeriveError::ExpectedStruct =>
                String::from_str("Expected struct. Consider using arcana::Event for enums"),
            DeriveError::VariantFieldCount =>
                String::from_str("enum variants must have exactly 1 field"),
            DeriveError::EnumVariantFieldCount =>
                String::from_str("Enum variants must have exactly 1 field"),
            DeriveError::TupleVariantsOnly =>
                String::from_str("only tuple struct enum variants allowed"),
            DeriveError::InitAndIgnore =>
                String::from_str("`init` and `ignore`/`skip` arguments are mutually exclusive"),
            DeriveError::NoNonIgnoredVariants =>
                String::from_str("enum must have at least one non-ignored variant"),
            DeriveError::NoVariants =>
                String::from_str("enum must have at least one variant"),
            DeriveError::UnknownSkipValue =>
                String::from_str("Unknown value. Allowed values: check_unique_type_and_ver"),
            DeriveError::NameAndVersionExpected =>
                String::from_str("`name` and `version` arguments expected"),
            DeriveError::TypeAndVersionExpected =>
                String::from_str("`type` and `version` arguments expected"),
            DeriveError::DuplicatedArgument =>
                String::from_str("duplicated attribute argument found"),
            DeriveError::OnlyStructsCanDerive =>
                String::from_str("Only structs can derive Event"),
        }
    }
}

} // verus!
