//! `#[derive(Event)]` macro on enums, with the `skip` argument opting out of
//! the uniqueness check of event types and versions.

pub mod versioned;

use vstd::prelude::*;

use crate::codegen::args::names_view;
use crate::codegen::error::DeriveError;
use crate::codegen::input::{Data, DeriveInput, Fields, GenericParam, Variant};
use crate::es::event::codegen::str_eq;

verus! {

/// Upper bound of the number of events the uniqueness check handles.
pub const MAX_UNIQUE_EVENTS: usize = 100000;

/// Value of the `skip` argument.
#[derive(Clone, Copy, Debug, PartialEq, Eq)]
pub enum SkipAttr {
    /// `skip(check_unique_type_and_ver)` or `skip(unique_event_type_and_ver)`:
    /// no uniqueness check of the event types and versions.
    CheckUniqueTypeAndVer,
}

impl SkipAttr {
    /// What `s` stands for as a value of the `skip` argument.
    pub open spec fn parsed(s: Seq<char>) -> Result<SkipAttr, DeriveError> {
        if s == "check_unique_type_and_ver"@ || s == "unique_event_type_and_ver"@ {
            Ok(SkipAttr::CheckUniqueTypeAndVer)
        } else {
            Err(DeriveError::UnknownSkipValue)
        }
    }

    /// Parses a value of the `skip` argument.
    pub fn from_str(s: &str) -> (res: Result<SkipAttr, DeriveError>)
        ensures
            res == Self::parsed(s@),
    {
        if str_eq(s, "check_unique_type_and_ver") || str_eq(s, "unique_event_type_and_ver") {
            Ok(SkipAttr::CheckUniqueTypeAndVer)
        } else {
            Err(DeriveError::UnknownSkipValue)
        }
    }
}

/// Arguments of the `#[event]` attribute as written, on the enum or on one
/// of its variants.
#[derive(Clone, Debug, Default)]
pub struct RawAttrs {
    /// The value of the `skip` argument, if present.
    pub skip: Option<String>,
}

/// Parsed arguments of the `#[event]` attribute, on the enum or on one of its
/// variants.
#[derive(Clone, Copy, Debug, Default, PartialEq, Eq)]
pub struct Attrs {
    /// The value of the `skip` argument, if present.
    pub skip: Option<SkipAttr>,
}

impl RawAttrs {
    /// Names of the arguments of `#[event(...)]`: `skip`.
    pub fn arg_names() -> (res: Vec<Vec<&'static str>>)
        ensures
            names_view(res@) == seq![seq!["skip"@]],
    {
        let res = vec![vec!["skip"]];
        assert(names_view(res@) =~~= seq![seq!["skip"@]]);
        res
    }

    /// What these arguments parse into.
    pub open spec fn parsed(&self) -> Result<Attrs, DeriveError> {
        match self.skip {
            None => Ok(Attrs { skip: None }),
            Some(s) => match SkipAttr::parsed(s@) {
                Ok(v) => Ok(Attrs { skip: Some(v) }),
                Err(e) => Err(e),
            },
        }
    }

    /// Parses these arguments.
    pub fn parse(&self) -> (res: Result<Attrs, DeriveError>)
        ensures
            res == self.parsed(),
    {
        match &self.skip {
            None => Ok(Attrs { skip: None }),
            Some(s) => match SkipAttr::from_str(s.as_str()) {
                Ok(v) => Ok(Attrs { skip: Some(v) }),
                Err(e) => Err(e),
            },
        }
    }
}

impl Attrs {
    /// Whether the uniqueness check of the event types and versions is
    /// skipped.
    pub fn skip_check_unique_type_and_ver(&self) -> (res: bool)
        ensures
            res == (self.skip matches Some(SkipAttr::CheckUniqueTypeAndVer)),
    {
        match self.skip {
            Some(SkipAttr::CheckUniqueTypeAndVer) => true,
            None => false,
        }
    }
}

/// Definition of the `#[derive(Event)]` macro.
#[derive(Clone, Debug)]
pub struct Definitions {
    /// Name of the enum.
    pub ident: String,
    /// Generic parameters of the enum.
    pub generics: Vec<GenericParam>,
    /// Variants of the enum, with their parsed arguments.
    pub variants: Vec<Variant<Attrs>>,
    /// Parsed arguments placed on the enum.
    pub attrs: Attrs,
}

/// `v` with its arguments replaced by `attrs`.
pub open spec fn with_attrs(v: Variant<RawAttrs>, attrs: Attrs) -> Variant<Attrs> {
    Variant {
        ident: v.ident,
        fields: v.fields,
        field_names: v.field_names,
        field_types: v.field_types,
        attrs,
    }
}

/// `variants` with their arguments parsed, or the error of the first one
/// refused.
pub open spec fn parsed_variants(variants: Seq<Variant<RawAttrs>>) -> Result<
    Seq<Variant<Attrs>>,
    DeriveError,
>
    decreases variants.len(),
{
    if variants.len() == 0 {
        Ok(Seq::empty())
    } else {
        match parsed_variants(variants.drop_last()) {
            Err(e) => Err(e),
            Ok(ps) => match variants.last().attrs.parsed() {
                Err(e) => Err(e),
                Ok(a) => Ok(ps.push(with_attrs(variants.last(), a))),
            },
        }
    }
}

/// Variants are parsed one by one: they are all accepted exactly when the
/// arguments of each of them are, and then each parsed variant is the one at
/// its place, unchanged but for its arguments, which are what its own
/// arguments parse into.
pub proof fn lemma_parsed_variants_each(variants: Seq<Variant<RawAttrs>>)
    ensures
        parsed_variants(variants) is Ok <==> forall|i: int|
            0 <= i < variants.len() ==> (#[trigger] variants[i]).attrs.parsed() is Ok,
        parsed_variants(variants) matches Ok(ps) ==> {
            &&& ps.len() == variants.len()
            &&& forall|i: int|
                #![trigger ps[i]]
                0 <= i < variants.len() ==> {
                    &&& ps[i].ident == variants[i].ident
                    &&& ps[i].fields == variants[i].fields
                    &&& ps[i].field_names == variants[i].field_names
                    &&& ps[i].field_types == variants[i].field_types
                    &&& variants[i].attrs.parsed() == Ok::<Attrs, DeriveError>(ps[i].attrs)
                }
        },
    decreases variants.len(),
{
    if variants.len() > 0 {
        let rest = variants.drop_last();
        let n = rest.len() as int;
        lemma_parsed_variants_each(rest);
        assert forall|i: int| 0 <= i < n implies #[trigger] rest[i] == variants[i] by {}
        assert(variants[n] == variants.last());
        if !(parsed_variants(variants) is Ok) {
            if parsed_variants(rest) is Err {
                let i = choose|i: int| 0 <= i < n && !(rest[i].attrs.parsed() is Ok);
                assert(rest[i] == variants[i]);
            }
        } else {
            assert forall|i: int| 0 <= i < variants.len() implies (
            #[trigger] variants[i]).attrs.parsed() is Ok by {
                if i < n {
                    assert(rest[i] == variants[i]);
                }
            }
        }
    }
}

/// Whether `def` is what `#[derive(Event)]` makes of `input`, and so whether
/// `input` is accepted.
pub open spec fn is_definitions_of(def: Definitions, input: DeriveInput<RawAttrs, RawAttrs>) -> bool {
    match input.data {
        Data::Enum(variants) => {
            &&& forall|i: int| 0 <= i < variants@.len() ==> #[trigger] variants@[i].field_count() == 1
            &&& input.attrs.parsed() == Ok::<Attrs, DeriveError>(def.attrs)
            &&& parsed_variants(variants@) == Ok::<Seq<Variant<Attrs>>, DeriveError>(def.variants@)
            &&& def.ident == input.ident
            &&& def.generics == input.generics
        },
        _ => false,
    }
}

/// Why `#[derive(Event)]` refuses `input`, if it does.
pub open spec fn error_of(input: DeriveInput<RawAttrs, RawAttrs>) -> Option<DeriveError> {
    match input.data {
        Data::Enum(variants) => if exists|i: int|
            0 <= i < variants@.len() && #[trigger] variants@[i].field_count() != 1 {
            Some(DeriveError::EnumVariantFieldCount)
        } else {
            match input.attrs.parsed() {
                Err(e) => Some(e),
                Ok(_) => match parsed_variants(variants@) {
                    Err(e) => Some(e),
                    Ok(_) => None,
                },
            }
        },
        _ => Some(DeriveError::ExpectedEnum),
    }
}

/// Once a prefix of `variants` is refused, all of them are, for the same
/// reason.
proof fn lemma_parsed_variants_error(variants: Seq<Variant<RawAttrs>>, i: int)
    requires
        0 <= i <= variants.len(),
        parsed_variants(variants.take(i)) is Err,
    ensures
        parsed_variants(variants) == parsed_variants(variants.take(i)),
    decreases variants.len(),
{
    if i == variants.len() {
        assert(variants.take(i) =~= variants);
    } else {
        assert(variants.drop_last().take(i) =~= variants.take(i));
        lemma_parsed_variants_error(variants.drop_last(), i);
    }
}

/// Field types of the `variants` that do not skip the uniqueness check, in
/// order.
pub open spec fn checked_types_of(variants: Seq<Variant<Attrs>>) -> Seq<Seq<char>>
    decreases variants.len(),
{
    if variants.len() == 0 {
        Seq::empty()
    } else if variants.last().attrs.skip matches Some(SkipAttr::CheckUniqueTypeAndVer) {
        checked_types_of(variants.drop_last())
    } else {
        checked_types_of(variants.drop_last()).push(variants.last().field_types@[0]@)
    }
}

/// A single variant's field type is checked for uniqueness unless the
/// variant skips the check.
pub proof fn lemma_checked_types_single(v: Variant<Attrs>)
    ensures
        checked_types_of(seq![v]) == if v.attrs.skip matches Some(SkipAttr::CheckUniqueTypeAndVer) {
            Seq::<Seq<char>>::empty()
        } else {
            seq![v.field_types@[0]@]
        },
{
    let one = seq![v];
    assert(one.drop_last() =~= Seq::<Variant<Attrs>>::empty());
    assert(one.last() == v);
    assert(checked_types_of(one.drop_last()) == Seq::<Seq<char>>::empty());
    assert(Seq::<Seq<char>>::empty().push(v.field_types@[0]@) =~= seq![v.field_types@[0]@]);
}

/// The checked field types of two lists of variants, one after the other, are
/// those of the first list followed by those of the second: they keep the
/// order of the variants.
pub proof fn lemma_checked_types_append(a: Seq<Variant<Attrs>>, b: Seq<Variant<Attrs>>)
    ensures
        checked_types_of(a + b) == checked_types_of(a) + checked_types_of(b),
    decreases b.len(),
{
    if b.len() == 0 {
        assert(a + b =~= a);
        assert(checked_types_of(a) + checked_types_of(b) =~= checked_types_of(a));
    } else {
        lemma_checked_types_append(a, b.drop_last());
        assert((a + b).drop_last() =~= a + b.drop_last());
        assert((a + b).last() == b.last());
        if !(b.last().attrs.skip matches Some(SkipAttr::CheckUniqueTypeAndVer)) {
            assert(checked_types_of(a) + checked_types_of(b) =~= (checked_types_of(a)
                + checked_types_of(b.drop_last())).push(b.last().field_types@[0]@));
        }
    }
}

impl Definitions {
    /// Validates the `input` of `#[derive(Event)]`.
    pub fn try_from(input: DeriveInput<RawAttrs, RawAttrs>) -> (res: Result<Self, DeriveError>)
        ensures
            match res {
                Ok(def) => error_of(input) is None && is_definitions_of(def, input),
                Err(e) => error_of(input) == Some(e),
            },
    {
        let DeriveInput { ident, generics, attrs, data } = input;
        let mut variants = match data {
            Data::Enum(variants) => variants,
            _ => return Err(DeriveError::ExpectedEnum),
        };
        let ghost all = variants@;
        assert(input.data matches Data::Enum(vs) && vs@ == all);
        let total = variants.len();
        let mut k: usize = 0;
        while k < total
            invariant
                total == all.len(),
                input.data matches Data::Enum(vs) && vs@ == all,
                variants@ == all,
                k <= total,
                forall|j: int| 0 <= j < k ==> #[trigger] all[j].field_count() == 1,
            decreases total - k,
        {
            if variants[k].field_types.len() != 1 {
                assert(all[k as int].field_count() != 1);
                return Err(DeriveError::EnumVariantFieldCount);
            }
            k += 1;
        }
        let attrs = match attrs.parse() {
            Ok(a) => a,
            Err(e) => return Err(e),
        };
        let mut parsed: Vec<Variant<Attrs>> = Vec::new();
        let mut i: usize = 0;
        while i < total
            invariant
                total == all.len(),
                input.data matches Data::Enum(vs) && vs@ == all,
                forall|j: int| 0 <= j < total ==> #[trigger] all[j].field_count() == 1,
                input.attrs.parsed() == Ok::<Attrs, DeriveError>(attrs),
                i <= total,
                variants@ == all.skip(i as int),
                parsed_variants(all.take(i as int)) == Ok::<Seq<Variant<Attrs>>, DeriveError>(
                    parsed@,
                ),
            decreases total - i,
        {
            let v = variants.remove(0);
            proof {
                assert(v == all[i as int]);
                assert(all.take(i as int + 1).drop_last() =~= all.take(i as int));
                assert(all.take(i as int + 1).last() == all[i as int]);
                assert(variants@ =~= all.skip(i as int + 1));
            }
            match v.attrs.parse() {
                Err(e) => {
                    proof {
                        lemma_parsed_variants_error(all, i as int + 1);
                    }
                    return Err(e);
                },
                Ok(a) => {
                    let Variant { ident, fields, field_names, field_types, attrs: _ } = v;
                    parsed.push(Variant { ident, fields, field_names, field_types, attrs: a });
                },
            }
            i += 1;
        }
        proof {
            assert(all.take(total as int) =~= all);
        }
        Ok(Definitions { ident, generics, variants: parsed, attrs })
    }

    /// How the event held by `v` is bound in a `match` arm: by the name of its
    /// field for a struct-like variant, positionally otherwise.
    pub open spec fn binding_of(v: Variant<Attrs>) -> Option<Seq<char>> {
        if v.fields == Fields::Named && v.field_names@.len() > 0 {
            Some(v.field_names@[0]@)
        } else {
            None
        }
    }

    /// How the event held by each variant is bound in a `match` arm: by the
    /// name of its field for a struct-like variant, positionally otherwise.
    pub fn event_bindings(&self) -> (res: Vec<Option<String>>)
        ensures
            res@.len() == self.variants@.len(),
            forall|i: int|
                0 <= i < res@.len() ==> (match #[trigger] res@[i] {
                    Some(name) => Some(name@),
                    None => None,
                }) == Self::binding_of(self.variants@[i]),
    {
        let mut res: Vec<Option<String>> = Vec::new();
        let mut i: usize = 0;
        while i < self.variants.len()
            invariant
                i <= self.variants@.len(),
                res@.len() == i,
                forall|k: int|
                    0 <= k < i ==> (match #[trigger] res@[k] {
                        Some(name) => Some(name@),
                        None => None,
                    }) == Self::binding_of(self.variants@[k]),
            decreases self.variants@.len() - i,
        {
            let v = &self.variants[i];
            let binding = if matches!(v.fields, Fields::Named) && v.field_names.len() > 0 {
                Some(v.field_names[0].clone())
            } else {
                None
            };
            res.push(binding);
            i += 1;
        }
        res
    }

    /// Field types of the variants whose event types and versions must be
    /// unique: none when the uniqueness check is skipped on the enum, else those of the
    /// variants that do not skip it, in order.
    pub open spec fn checked_types(&self) -> Option<Seq<Seq<char>>> {
        if self.attrs.skip matches Some(SkipAttr::CheckUniqueTypeAndVer) {
            None
        } else {
            Some(checked_types_of(self.variants@))
        }
    }

    /// Field types of the variants whose event types and versions must be
    /// unique, or [`None`] when the uniqueness check is skipped on the enum.
    pub fn unique_event_types(&self) -> (res: Option<Vec<String>>)
        requires
            forall|i: int|
                0 <= i < self.variants@.len() ==> #[trigger] self.variants@[i].field_count() == 1,
        ensures
            res is Some == self.checked_types() is Some,
            res matches Some(tys) ==> tys@.map_values(|s: String| s@)
                == self.checked_types()->0,
    {
        if self.attrs.skip_check_unique_type_and_ver() {
            return None;
        }
        let ghost vs = self.variants@;
        let mut tys: Vec<String> = Vec::new();
        let mut i: usize = 0;
        while i < self.variants.len()
            invariant
                vs == self.variants@,
                i <= vs.len(),
                forall|j: int| 0 <= j < vs.len() ==> #[trigger] vs[j].field_count() == 1,
                tys@.map_values(|s: String| s@) == checked_types_of(vs.take(i as int)),
            decreases vs.len() - i,
        {
            let v = &self.variants[i];
            proof {
                assert(vs.take(i as int + 1).drop_last() =~= vs.take(i as int));
                assert(vs.take(i as int + 1).last() == vs[i as int]);
            }
            if !v.attrs.skip_check_unique_type_and_ver() {
                assert(vs[i as int].field_count() == 1);
                let ty = v.field_types[0].clone();
                let ghost before = tys@;
                tys.push(ty);
                proof {
                    assert(tys@.map_values(|s: String| s@) =~= before.map_values(|s: String| s@).push(
                        ty@,
                    ));
                }
            }
            i += 1;
        }
        proof {
            assert(vs.take(vs.len() as int) =~= vs);
        }
        Some(tys)
    }
}

} // verus!
