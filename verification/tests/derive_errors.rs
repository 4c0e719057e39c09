use arcane::codegen::error::DeriveError;
use arcane::codegen::es::event::adapter as es_adapter;
use arcane::codegen::es::event::impl_enum;
use arcane::codegen::es::event::impl_struct;
use arcane::codegen::es::event::revised;
use arcane::codegen::es::event::transformer;
use arcane::codegen::es::event::versioned as es_versioned;
use arcane::codegen::event as typed_event;
use arcane::codegen::event::versioned as typed_versioned;
use arcane::codegen::input::{Data, DeriveInput, Fields, LitInt, Variant};
use arcane::codegen::legacy;
use arcane::codegen::legacy::versioned as legacy_versioned;

fn lit(digits: &str) -> LitInt {
    LitInt { repr: digits.to_string(), digits: digits.to_string() }
}

fn structure<A, V>(attrs: A) -> DeriveInput<A, V> {
    DeriveInput { ident: "Event".to_string(), generics: vec![], attrs, data: Data::Struct }
}

fn enumeration<A, V>(attrs: A, variants: Vec<Variant<V>>) -> DeriveInput<A, V> {
    DeriveInput {
        ident: "Event".to_string(),
        generics: vec![],
        attrs,
        data: Data::Enum(variants),
    }
}

fn tuple_variant<V>(name: &str, ty: &str, attrs: V) -> Variant<V> {
    Variant {
        ident: name.to_string(),
        fields: Fields::Unnamed,
        field_names: vec![],
        field_types: vec![ty.to_string()],
        attrs,
    }
}

fn unit_variant<V>(name: &str, attrs: V) -> Variant<V> {
    Variant {
        ident: name.to_string(),
        fields: Fields::Unit,
        field_names: vec![],
        field_types: vec![],
        attrs,
    }
}

/// `Event1(Event1)` and `Event2 { event: Event2, second_field: Event3 }`.
fn two_field_variants<V: Clone>(attrs: V) -> Vec<Variant<V>> {
    vec![
        tuple_variant("Event1", "Event1", attrs.clone()),
        Variant {
            ident: "Event2".to_string(),
            fields: Fields::Named,
            field_names: vec!["event".to_string(), "second_field".to_string()],
            field_types: vec!["Event2".to_string(), "Event3".to_string()],
            attrs,
        },
    ]
}

fn message<T>(res: Result<T, DeriveError>) -> String {
    match res {
        Ok(_) => panic!("expected an error"),
        Err(e) => e.message(),
    }
}

fn legacy_versioned_attrs(name: Option<&str>, version: Option<&str>) -> legacy_versioned::Attrs {
    legacy_versioned::Attrs { name: name.map(|n| n.to_string()), version: version.map(lit) }
}

fn typed_versioned_attrs(ty: Option<&str>, version: Option<&str>) -> typed_versioned::Attrs {
    typed_versioned::Attrs { event_type: ty.map(|n| n.to_string()), version: version.map(lit) }
}

fn es_versioned_attrs(name: Option<&str>, version: Option<&str>) -> es_versioned::Attrs {
    es_versioned::Attrs { name: name.map(|n| n.to_string()), version: version.map(lit) }
}

fn revised_attrs(name: Option<&str>, revision: Option<&str>) -> revised::Attrs {
    revised::Attrs { name: name.map(|n| n.to_string()), revision: revision.map(lit) }
}

fn impl_struct_attrs(name: Option<&str>, revision: Option<&str>) -> impl_struct::Attrs {
    impl_struct::Attrs { name: name.map(|n| n.to_string()), revision: revision.map(lit) }
}

fn transformer_attrs(
    adapter: Option<&str>,
    transformed: Option<&str>,
    context: Option<&str>,
    error: Option<&str>,
) -> transformer::Attrs {
    transformer::Attrs {
        transformer: Some(transformer::TransformerAttrs {
            adapter: adapter.map(|s| s.to_string()),
            transformed: transformed.map(|s| s.to_string()),
            context: context.map(|s| s.to_string()),
            error: error.map(|s| s.to_string()),
        }),
    }
}

fn full_transformer_attrs() -> transformer::Attrs {
    transformer_attrs(Some("Adapter"), Some("IntoEvent"), Some("dyn Any"), Some("Infallible"))
}

#[test]
fn mod_errors_on_multiple_fields_in_variant() {
    let input = enumeration((), two_field_variants(legacy::VariantAttrs::default()));
    assert_eq!(
        message(legacy::Definition::try_from(input)),
        "enum variants must have exactly 1 field",
    );

    let input =
        enumeration(typed_event::RawAttrs::default(), two_field_variants(typed_event::RawAttrs::default()));
    assert_eq!(
        message(typed_event::Definitions::try_from(input)),
        "Enum variants must have exactly 1 field",
    );
}

#[test]
fn mod_errors_on_struct() {
    let input = structure::<(), legacy::VariantAttrs>(());
    assert_eq!(
        message(legacy::Definition::try_from(input)),
        "expected enum only, consider using `arcana::es::event::Versioned` for structs",
    );

    let input = structure::<_, typed_event::RawAttrs>(typed_event::RawAttrs::default());
    assert_eq!(
        message(typed_event::Definitions::try_from(input)),
        "Expected enum. Consider using arcana::VersionedEvent for structs",
    );
}

#[test]
fn errors_on_unknown_attribute_value() {
    let skip_unknown = typed_event::RawAttrs { skip: Some("unknown".to_string()) };
    let input = enumeration(
        typed_event::RawAttrs::default(),
        vec![tuple_variant("Event1", "Event1", skip_unknown)],
    );
    assert_eq!(
        message(typed_event::Definitions::try_from(input)),
        "Unknown value. Allowed values: check_unique_type_and_ver",
    );
}

#[test]
fn name_argument_is_expected() {
    let input = structure::<_, ()>(legacy_versioned_attrs(None, Some("1")));
    assert_eq!(
        message(legacy_versioned::Definitions::try_from(input)),
        "`name` and `version` arguments expected",
    );
}

#[test]
fn type_argument_is_expected() {
    let input = structure::<_, ()>(typed_versioned_attrs(None, Some("1")));
    assert_eq!(
        message(typed_versioned::Definitions::try_from(input)),
        "`type` and `version` arguments expected",
    );
}

#[test]
fn versioned_version_argument_is_expected() {
    let input = structure::<_, ()>(legacy_versioned_attrs(Some("event"), None));
    assert_eq!(
        message(legacy_versioned::Definitions::try_from(input)),
        "`name` and `version` arguments expected",
    );

    let input = structure::<_, ()>(typed_versioned_attrs(Some("event"), None));
    assert_eq!(
        message(typed_versioned::Definitions::try_from(input)),
        "`type` and `version` arguments expected",
    );
}

#[test]
fn versioned_errors_on_negative_version() {
    let input = structure::<_, ()>(legacy_versioned_attrs(Some("event"), Some("-1")));
    assert_eq!(
        message(legacy_versioned::Definitions::try_from(input)),
        "invalid digit found in string",
    );

    let input = structure::<_, ()>(typed_versioned_attrs(Some("event"), Some("-1")));
    assert_eq!(
        message(typed_versioned::Definitions::try_from(input)),
        "invalid digit found in string",
    );

    let input = structure::<_, ()>(es_versioned_attrs(Some("event"), Some("-1")));
    assert_eq!(message(es_versioned::Definition::try_from(input)), "invalid digit found in string");
}

#[test]
fn versioned_errors_on_zero_version() {
    let input = structure::<_, ()>(legacy_versioned_attrs(Some("event"), Some("0")));
    assert_eq!(
        message(legacy_versioned::Definitions::try_from(input)),
        "number would be zero for non-zero type",
    );

    let input = structure::<_, ()>(typed_versioned_attrs(Some("event"), Some("0")));
    assert_eq!(
        message(typed_versioned::Definitions::try_from(input)),
        "number would be zero for non-zero type",
    );

    let input = structure::<_, ()>(es_versioned_attrs(Some("event"), Some("0")));
    assert_eq!(
        message(es_versioned::Definition::try_from(input)),
        "number would be zero for non-zero type",
    );
}

#[test]
fn versioned_errors_on_too_big_version() {
    let input = structure::<_, ()>(legacy_versioned_attrs(Some("event"), Some("4294967295")));
    assert_eq!(
        message(legacy_versioned::Definitions::try_from(input)),
        "number too large to fit in target type",
    );

    let input = structure::<_, ()>(typed_versioned_attrs(Some("event"), Some("4294967295")));
    assert_eq!(
        message(typed_versioned::Definitions::try_from(input)),
        "number too large to fit in target type",
    );
}

#[test]
fn errors_on_u16_overflowed_version() {
    let input = structure::<_, ()>(es_versioned_attrs(Some("event"), Some("4294967295")));
    assert_eq!(
        message(es_versioned::Definition::try_from(input)),
        "number too large to fit in target type",
    );
}

#[test]
fn versioned_errors_on_enum() {
    let variants = vec![tuple_variant("Event1", "Event1", ())];
    let input = enumeration(legacy_versioned_attrs(Some("event"), Some("1")), variants.clone());
    assert_eq!(
        message(legacy_versioned::Definitions::try_from(input)),
        "Expected struct. Consider using arcana::Event for enums",
    );

    let input = enumeration(typed_versioned_attrs(Some("event"), Some("1")), variants.clone());
    assert_eq!(
        message(typed_versioned::Definitions::try_from(input)),
        "Expected struct. Consider using arcana::Event for enums",
    );

    let input = enumeration(es_versioned_attrs(Some("event"), Some("1")), variants);
    assert_eq!(
        message(es_versioned::Definition::try_from(input)),
        "expected struct only, consider using `arcana::es::Event` for enums",
    );
}

#[test]
fn versioned_name_arg_is_required() {
    let input = structure::<_, ()>(es_versioned_attrs(None, Some("1")));
    assert_eq!(
        message(es_versioned::Definition::try_from(input)),
        "`name` argument of `#[event]` attribute is expected to be present, but is absent",
    );
}

#[test]
fn version_arg_is_required() {
    let input = structure::<_, ()>(es_versioned_attrs(Some("event"), None));
    assert_eq!(
        message(es_versioned::Definition::try_from(input)),
        "either `ver` or `version` argument of `#[event]` attribute is expected to be present, but is absent",
    );
}

#[test]
fn revised_name_arg_is_required() {
    let input = structure::<_, ()>(revised_attrs(None, Some("1")));
    assert_eq!(
        message(revised::Definition::try_from(input)),
        "`name` argument of `#[event]` attribute is expected to be present, but is absent",
    );
}

#[test]
fn revision_arg_is_required() {
    let input = structure::<_, ()>(revised_attrs(Some("event"), None));
    assert_eq!(
        message(revised::Definition::try_from(input)),
        "either `rev` or `revision` argument of `#[event]` attribute is expected to be present, but is absent",
    );
}

#[test]
fn revised_errors_on_negative_revision() {
    let input = structure::<_, ()>(revised_attrs(Some("event"), Some("-1")));
    assert_eq!(message(revised::Definition::try_from(input)), "invalid digit found in string");
}

#[test]
fn revised_errors_on_zero_revision() {
    let input = structure::<_, ()>(revised_attrs(Some("event"), Some("0")));
    assert_eq!(
        message(revised::Definition::try_from(input)),
        "number would be zero for non-zero type",
    );
}

#[test]
fn revised_errors_on_u16_overflowed_revision() {
    let input = structure::<_, ()>(revised_attrs(Some("event"), Some("4294967295")));
    assert_eq!(
        message(revised::Definition::try_from(input)),
        "number too large to fit in target type",
    );
}

#[test]
fn revised_errors_on_enum() {
    let variants = vec![tuple_variant("Event1", "Event1", ())];
    let input = enumeration(revised_attrs(Some("event"), Some("1")), variants);
    assert_eq!(
        message(revised::Definition::try_from(input)),
        "expected struct only, consider using `arcane::es::Event` for enums",
    );
}

#[test]
fn impl_struct_name_arg_is_required() {
    let input = structure::<_, ()>(impl_struct_attrs(None, Some("1")));
    assert_eq!(
        message(impl_struct::Definition::try_from(input)),
        "`name` argument of `#[event]` attribute is expected to be present, but is absent",
    );
}

#[test]
fn impl_struct_errors_on_negative_revision() {
    let input = structure::<_, ()>(impl_struct_attrs(Some("event"), Some("-1")));
    assert_eq!(message(impl_struct::Definition::try_from(input)), "invalid digit found in string");
}

#[test]
fn impl_struct_errors_on_zero_revision() {
    let input = structure::<_, ()>(impl_struct_attrs(Some("event"), Some("0")));
    assert_eq!(
        message(impl_struct::Definition::try_from(input)),
        "number would be zero for non-zero type",
    );
}

#[test]
fn impl_struct_errors_on_u16_overflowed_revision() {
    let input = structure::<_, ()>(impl_struct_attrs(Some("event"), Some("4294967295")));
    assert_eq!(
        message(impl_struct::Definition::try_from(input)),
        "number too large to fit in target type",
    );
}

#[test]
fn impl_struct_errors_on_enum() {
    let variants = vec![tuple_variant("Event1", "Event1", impl_enum::VariantAttrs::default())];
    let input = enumeration(impl_struct_attrs(Some("event"), Some("1")), variants);
    assert_eq!(message(impl_struct::Definition::try_from(input)), "only structs are allowed");
}

#[test]
fn impl_enum_errors_on_multiple_fields_in_variant() {
    let input = enumeration(
        impl_enum::Attrs::default(),
        two_field_variants(impl_enum::VariantAttrs::default()),
    );
    assert_eq!(
        message(impl_enum::Definition::try_from(input)),
        "enum variants must have exactly 1 field",
    );
}

#[test]
fn impl_enum_errors_on_struct() {
    let input = structure::<_, impl_enum::VariantAttrs>(impl_enum::Attrs::default());
    assert_eq!(message(impl_enum::Definition::try_from(input)), "only enums are allowed");
}

#[test]
fn impl_enum_errors_on_empty_enum() {
    let input = enumeration::<_, impl_enum::VariantAttrs>(impl_enum::Attrs::default(), vec![]);
    assert_eq!(
        message(impl_enum::Definition::try_from(input)),
        "enum must have at least one non-ignored variant",
    );
}

#[test]
fn errors_on_enum_with_ignored_variant_only() {
    let ignored = impl_enum::VariantAttrs { init: false, ignore: true };
    let input = enumeration(impl_enum::Attrs::default(), vec![unit_variant("_NonExhaustive", ignored)]);
    assert_eq!(
        message(impl_enum::Definition::try_from(input)),
        "enum must have at least one non-ignored variant",
    );
}

#[test]
fn errors_on_both_init_and_ignored_variant() {
    let both = impl_enum::VariantAttrs { init: true, ignore: true };
    let input = enumeration(impl_enum::Attrs::default(), vec![tuple_variant("Event1", "Event1", both)]);
    assert_eq!(
        message(impl_enum::Definition::try_from(input)),
        "`init` and `ignore`/`skip` arguments are mutually exclusive",
    );
}

#[test]
fn transformed_arg_is_required() {
    let attrs = es_adapter::Attrs { transformed: None, error: Some("CustomError".to_string()) };
    let input = structure::<_, ()>(attrs);
    assert_eq!(
        message(es_adapter::Definition::try_from(input)),
        "either `into` or `transformed` argument of `#[adapter]` attribute is expected to be present, but is absent",
    );
}

#[test]
fn errors_on_without_adapter_attribute() {
    let attrs = transformer_attrs(None, Some("IntoEvent"), Some("dyn Any"), Some("Infallible"));
    let input = enumeration(attrs, vec![tuple_variant("Event1", "Event1", ()), tuple_variant("Event2", "Event2", ())]);
    assert_eq!(
        message(transformer::Definition::try_from(input)),
        "`adapter` argument of `#[event(transformer)]` attribute is expected to be present, but is absent",
    );
}

#[test]
fn errors_on_without_transformed_attribute() {
    let attrs = transformer_attrs(Some("Adapter"), None, Some("dyn Any"), Some("Infallible"));
    let input = enumeration(attrs, vec![tuple_variant("Event1", "Event1", ()), tuple_variant("Event2", "Event2", ())]);
    assert_eq!(
        message(transformer::Definition::try_from(input)),
        "either `into` or `transformed` argument of `#[event(transformer)]` attribute is expected to be present, but is absent",
    );
}

#[test]
fn errors_on_without_context_attribute() {
    let attrs = transformer_attrs(Some("Adapter"), Some("IntoEvent"), None, Some("Infallible"));
    let input = enumeration(attrs, vec![tuple_variant("Event1", "Event1", ()), tuple_variant("Event2", "Event2", ())]);
    assert_eq!(
        message(transformer::Definition::try_from(input)),
        "either `context` or `ctx` argument of `#[event(transformer)]` attribute is expected to be present, but is absent",
    );
}

#[test]
fn errors_on_without_error_attribute() {
    let attrs = transformer_attrs(Some("Adapter"), Some("IntoEvent"), Some("dyn Any"), None);
    let input = enumeration(attrs, vec![tuple_variant("Event1", "Event1", ()), tuple_variant("Event2", "Event2", ())]);
    assert_eq!(
        message(transformer::Definition::try_from(input)),
        "either `err` or `error` argument of `#[event(transformer)]` attribute is expected to be present, but is absent",
    );
}

#[test]
fn transformer_errors_on_multiple_fields_in_variant() {
    let input = enumeration(full_transformer_attrs(), two_field_variants(()));
    assert_eq!(
        message(transformer::Definition::try_from(input)),
        "enum variants must have exactly 1 field",
    );
}

#[test]
fn transformer_errors_on_struct() {
    let input = structure::<_, ()>(full_transformer_attrs());
    assert_eq!(message(transformer::Definition::try_from(input)), "expected enum only");
}

#[test]
fn transformer_errors_on_empty_enum() {
    let input = enumeration::<_, ()>(full_transformer_attrs(), vec![]);
    assert_eq!(
        message(transformer::Definition::try_from(input)),
        "enum must have at least one variant",
    );
}
