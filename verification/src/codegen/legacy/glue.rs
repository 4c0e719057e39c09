//! What the uniqueness glue code of `#[derive(Event)]` on enums is made of:
//! the event types counted, in a form with their generics replaced by default
//! values, and the arguments standing for the enum's own generics.

use vstd::prelude::*;
use vstd::string::StringExecFns;

use crate::codegen::es::event::impl_enum::{substitutes, Definition as EnumDefinition, TrivialArg};
use crate::codegen::input::GenericParam;

use super::Definition;

verus! {

/// A generic argument of a path segment, as written.
#[derive(Clone, Debug, PartialEq, Eq)]
pub enum GenericArg {
    /// A lifetime, such as `'a`.
    Lifetime(String),
    /// A type, such as `T`.
    Type(String),
    /// An associated type binding `Name = Type`: its name and its type.
    AssocType(String, String),
    /// Any other argument (a const, a constraint), as written.
    Other(String),
}

/// Arguments of a path segment.
#[derive(Clone, Debug, PartialEq, Eq)]
pub enum PathArguments {
    /// No arguments.
    Bare,
    /// `<A, B, ..>`.
    AngleBracketed(Vec<GenericArg>),
    /// `(A, B) -> C`: the input types and the output type, if written.
    Parenthesized(Vec<String>, Option<String>),
}

/// A segment of a type path: its name and arguments.
#[derive(Clone, Debug, PartialEq, Eq)]
pub struct PathSegment {
    /// Name of the segment.
    pub ident: String,
    /// Arguments of the segment.
    pub arguments: PathArguments,
}

/// Plain model of a type: a path type with the generic arguments of its
/// segments, or any other type as written.
#[derive(Clone, Debug, PartialEq, Eq)]
pub enum TypeModel {
    /// A path type, by its segments.
    Path(Vec<PathSegment>),
    /// Any other type, as written.
    Other(String),
}

/// Whether `to` is `from` with its default value: lifetimes become `'static`,
/// types and associated types `()`, the other arguments stay.
pub open spec fn arg_defaulted(from: GenericArg, to: GenericArg) -> bool {
    match from {
        GenericArg::Lifetime(_) => to matches GenericArg::Lifetime(l) && l@ == "'static"@,
        GenericArg::Type(_) => to matches GenericArg::Type(t) && t@ == "()"@,
        GenericArg::AssocType(name, _) => to matches GenericArg::AssocType(n, t) && n == name
            && t@ == "()"@,
        GenericArg::Other(_) => to == from,
    }
}

/// Whether the segment `to` is `from` with its generic arguments replaced by
/// default values: angle-bracketed arguments one by one, and `Fn(A, B) -> C`
/// becoming `Fn((), ()) -> ()`.
pub open spec fn segment_defaulted(from: PathSegment, to: PathSegment) -> bool {
    &&& to.ident == from.ident
    &&& match from.arguments {
        PathArguments::Bare => to.arguments == PathArguments::Bare,
        PathArguments::AngleBracketed(args) => to.arguments matches PathArguments::AngleBracketed(
            out,
        ) && out@.len() == args@.len() && forall|i: int|
            0 <= i < args@.len() ==> arg_defaulted(#[trigger] args@[i], out@[i]),
        PathArguments::Parenthesized(inputs, _) => to.arguments matches PathArguments::Parenthesized(
            ins,
            Some(out),
        ) && ins@.len() == inputs@.len() && (forall|j: int|
            0 <= j < ins@.len() ==> (#[trigger] ins@[j])@ == "()"@) && out@ == "()"@,
    }
}

/// Whether `to` is the type `from` with the generic arguments of its path
/// segments replaced by default values; a type that is not a path stays.
pub open spec fn defaulted(from: TypeModel, to: TypeModel) -> bool {
    match from {
        TypeModel::Path(segs) => to matches TypeModel::Path(out) && out@.len() == segs@.len()
            && forall|i: int| 0 <= i < segs@.len() ==> segment_defaulted(#[trigger] segs@[i], out@[i]),
        TypeModel::Other(_) => to == from,
    }
}

/// The default value of the generic argument `arg`.
fn default_arg(arg: &GenericArg) -> (res: GenericArg)
    ensures
        arg_defaulted(*arg, res),
{
    match arg {
        GenericArg::Lifetime(_) => GenericArg::Lifetime(String::from_str("'static")),
        GenericArg::Type(_) => GenericArg::Type(String::from_str("()")),
        GenericArg::AssocType(name, _) => GenericArg::AssocType(
            name.clone(),
            String::from_str("()"),
        ),
        GenericArg::Other(o) => GenericArg::Other(o.clone()),
    }
}

/// The segment `seg` with its generic arguments replaced by default values.
fn default_segment(seg: &PathSegment) -> (res: PathSegment)
    ensures
        segment_defaulted(*seg, res),
{
    let arguments = match &seg.arguments {
        PathArguments::Bare => PathArguments::Bare,
        PathArguments::AngleBracketed(args) => {
            let mut out: Vec<GenericArg> = Vec::new();
            let mut i: usize = 0;
            while i < args.len()
                invariant
                    i <= args@.len(),
                    out@.len() == i,
                    forall|k: int| 0 <= k < i ==> arg_defaulted(#[trigger] args@[k], out@[k]),
                decreases args@.len() - i,
            {
                out.push(default_arg(&args[i]));
                i += 1;
            }
            PathArguments::AngleBracketed(out)
        },
        PathArguments::Parenthesized(inputs, _) => {
            let mut ins: Vec<String> = Vec::new();
            let mut j: usize = 0;
            while j < inputs.len()
                invariant
                    j <= inputs@.len(),
                    ins@.len() == j,
                    forall|k: int| 0 <= k < j ==> (#[trigger] ins@[k])@ == "()"@,
                decreases inputs@.len() - j,
            {
                ins.push(String::from_str("()"));
                j += 1;
            }
            PathArguments::Parenthesized(ins, Some(String::from_str("()")))
        },
    };
    PathSegment { ident: seg.ident.clone(), arguments }
}

/// The type `ty` with the generic arguments of its path segments replaced by
/// default values: lifetimes with `'static`, types and associated types with
/// `()`, and `Fn(A, B) -> C` with `Fn((), ()) -> ()`.
pub fn default_generics(ty: &TypeModel) -> (res: TypeModel)
    ensures
        defaulted(*ty, res),
{
    match ty {
        TypeModel::Path(segs) => {
            let mut out: Vec<PathSegment> = Vec::new();
            let mut i: usize = 0;
            while i < segs.len()
                invariant
                    i <= segs@.len(),
                    out@.len() == i,
                    forall|k: int| 0 <= k < i ==> segment_defaulted(#[trigger] segs@[k], out@[k]),
                decreases segs@.len() - i,
            {
                out.push(default_segment(&segs[i]));
                i += 1;
            }
            TypeModel::Path(out)
        },
        TypeModel::Other(o) => TypeModel::Other(o.clone()),
    }
}

/// What the uniqueness glue code is made of.
#[derive(Clone, Debug)]
pub struct GluePlan {
    /// Types of the events counted, one per kept variant, in order.
    pub counted: Vec<String>,
    /// The same types with their generics replaced by default values.
    pub defaulted: Vec<TypeModel>,
    /// Arguments standing for the enum's own generic parameters.
    pub self_args: Vec<TrivialArg>,
}

/// What the uniqueness glue code of `def` is made of, `generics` being its
/// generic parameters and `field_types` the models of its variants' field
/// types, in order.
pub fn glue_plan(
    def: &Definition,
    generics: &Vec<GenericParam>,
    field_types: &Vec<TypeModel>,
) -> (res: GluePlan)
    requires
        field_types@.len() == def.variants@.len(),
        forall|i: int| 0 <= i < def.variants@.len() ==> #[trigger] def.variants@[i].field_count() == 1,
    ensures
        res.counted@.len() == def.variants@.len(),
        forall|i: int|
            0 <= i < def.variants@.len() ==> #[trigger] res.counted@[i]
                == def.variants@[i].field_types@[0],
        res.defaulted@.len() == field_types@.len(),
        forall|i: int|
            0 <= i < field_types@.len() ==> defaulted(#[trigger] field_types@[i], res.defaulted@[i]),
        res.self_args@.len() == generics@.len(),
        forall|i: int|
            0 <= i < generics@.len() ==> #[trigger] substitutes(generics@[i], res.self_args@[i]),
{
    let mut counted: Vec<String> = Vec::new();
    let mut defaulted_tys: Vec<TypeModel> = Vec::new();
    let mut i: usize = 0;
    while i < def.variants.len()
        invariant
            i <= def.variants@.len(),
            field_types@.len() == def.variants@.len(),
            forall|k: int| 0 <= k < def.variants@.len() ==> #[trigger] def.variants@[k].field_count() == 1,
            counted@.len() == i,
            defaulted_tys@.len() == i,
            forall|k: int| 0 <= k < i ==> #[trigger] counted@[k] == def.variants@[k].field_types@[0],
            forall|k: int| 0 <= k < i ==> defaulted(#[trigger] field_types@[k], defaulted_tys@[k]),
        decreases def.variants@.len() - i,
    {
        assert(def.variants@[i as int].field_count() == 1);
        counted.push(def.variants[i].field_types[0].clone());
        defaulted_tys.push(default_generics(&field_types[i]));
        i += 1;
    }
    let self_args = EnumDefinition::substitute_generics_trivially(generics);
    GluePlan { counted, defaulted: defaulted_tys, self_args }
}

} // verus!
