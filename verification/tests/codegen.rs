use arcane::codegen::args::collect_args;
use arcane::codegen::error::DeriveError;
use arcane::codegen::es::event::adapter as es_adapter;
use arcane::codegen::es::event::impl_enum::{self, TrivialArg, VariantEventSourcing};
use arcane::codegen::es::event::impl_struct;
use arcane::codegen::es::event::transformer::{self, EitherSide::Left, EitherSide::Right, StreamType};
use arcane::codegen::es::event::{Definition as EsDefinition, Input};
use arcane::codegen::es::typed::{self, AttrArg};
use arcane::codegen::event::{self as typed_event, SkipAttr};
use arcane::codegen::event::versioned as typed_versioned;
use arcane::codegen::input::{Data, DeriveInput, Fields, GenericParam, LitInt, Variant};
use arcane::codegen::legacy;
use arcane::codegen::legacy::glue::{self, GenericArg, PathArguments, PathSegment, TypeModel};
use arcane::codegen::legacy::versioned as legacy_versioned;

fn lit(digits: &str) -> LitInt {
    LitInt { repr: format!("{}u16", digits), digits: digits.to_string() }
}

fn input<A, V>(attrs: A, data: Data<V>) -> DeriveInput<A, V> {
    DeriveInput { ident: "Event".to_string(), generics: vec![], attrs, data }
}

fn tuple_variant<V>(name: &str, ty: &str, attrs: V) -> Variant<V> {
    Variant {
        ident: name.to_string(),
        fields: Fields::Unnamed,
        field_names: vec![],
        field_types: vec![ty.to_string()],
        attrs,
    }
}

fn named_variant<V>(name: &str, field: &str, ty: &str, attrs: V) -> Variant<V> {
    Variant {
        ident: name.to_string(),
        fields: Fields::Named,
        field_names: vec![field.to_string()],
        field_types: vec![ty.to_string()],
        attrs,
    }
}

fn arg(name: &str, value: &str) -> AttrArg {
    AttrArg { name: name.to_string(), value: value.to_string() }
}

#[test]
fn typed_attrs_take_fqn_and_revision() {
    let attrs = typed::Attrs::parse(vec![arg("fqn", "\"a.b\""), arg("rev", "1")]).unwrap();
    assert_eq!(attrs.fqn.as_deref(), Some("\"a.b\""));
    assert_eq!(attrs.revision.as_deref(), Some("1"));
    let attrs = typed::Attrs::parse(vec![arg("revision", "2")]).unwrap();
    assert_eq!(attrs.fqn, None);
    assert_eq!(attrs.revision.as_deref(), Some("2"));
}

#[test]
fn typed_attrs_refuse_duplicated_arguments() {
    let res = typed::Attrs::parse(vec![arg("rev", "1"), arg("fqn", "\"a\""), arg("revision", "2")]);
    assert_eq!(res.unwrap_err(), DeriveError::DuplicatedArgument);
}

#[test]
fn typed_attrs_refuse_unknown_arguments() {
    let res = typed::Attrs::parse(vec![arg("fqn", "\"a\""), arg("name", "\"b\""), arg("fqn", "\"c\"")]);
    let err = res.unwrap_err();
    assert_eq!(err, DeriveError::UnknownArgument("name".to_string()));
    assert_eq!(err.message(), "unknown `name` attribute argument");
}

#[test]
fn typed_derive_is_for_structs_only() {
    let strukt = input::<(), ()>((), Data::Struct);
    assert!(typed::derive(&strukt, vec![arg("fqn", "\"a\"")]).is_ok());
    let enumeration = input::<(), ()>((), Data::Enum(vec![]));
    let err = typed::derive(&enumeration, vec![]).unwrap_err();
    assert_eq!(err.message(), "Only structs can derive Event");
}

#[test]
fn skip_attr_parses_its_only_value() {
    assert_eq!(SkipAttr::from_str("check_unique_type_and_ver"), Ok(SkipAttr::CheckUniqueTypeAndVer));
    assert_eq!(SkipAttr::from_str("check"), Err(DeriveError::UnknownSkipValue));
}

fn skip() -> typed_event::RawAttrs {
    typed_event::RawAttrs { skip: Some("check_unique_type_and_ver".to_string()) }
}

#[test]
fn unique_check_skips_the_skipped_variants() {
    let variants = vec![
        tuple_variant("Event1", "EventOne", typed_event::RawAttrs::default()),
        named_variant("Event2", "event", "EventTwo", skip()),
        tuple_variant("Event3", "EventThree", typed_event::RawAttrs::default()),
    ];
    let def = typed_event::Definitions::try_from(input(typed_event::RawAttrs::default(), Data::Enum(variants))).unwrap();
    assert_eq!(def.variants.len(), 3);
    assert_eq!(def.unique_event_types(), Some(vec!["EventOne".to_string(), "EventThree".to_string()]));
}

#[test]
fn unique_check_skipped_on_the_container() {
    let variants = vec![tuple_variant("Event1", "EventOne", typed_event::RawAttrs::default())];
    let def = typed_event::Definitions::try_from(input(skip(), Data::Enum(variants))).unwrap();
    assert!(def.attrs.skip_check_unique_type_and_ver());
    assert_eq!(def.unique_event_types(), None);
}

#[test]
fn legacy_derive_drops_ignored_variants() {
    let ignored = legacy::VariantAttrs { ignore: true };
    let variants = vec![
        tuple_variant("Event1", "EventOne", legacy::VariantAttrs::default()),
        named_variant("Event2", "a", "EventTwo", ignored),
        tuple_variant("Event3", "EventThree", legacy::VariantAttrs::default()),
    ];
    let def = legacy::Definition::try_from(input((), Data::Enum(variants))).unwrap();
    let kept: Vec<&str> = def.variants.iter().map(|v| v.ident.as_str()).collect();
    assert_eq!(kept, vec!["Event1", "Event3"]);
    assert!(def.has_ignored_variants);

    let variants = vec![tuple_variant("Event1", "EventOne", legacy::VariantAttrs::default())];
    let def = legacy::Definition::try_from(input((), Data::Enum(variants))).unwrap();
    assert!(!def.has_ignored_variants);
}

#[test]
fn legacy_derive_needs_tuple_variants() {
    let variants = vec![named_variant("Event1", "a", "EventOne", legacy::VariantAttrs::default())];
    let err = legacy::Definition::try_from(input((), Data::Enum(variants))).unwrap_err();
    assert_eq!(err.message(), "only tuple struct enum variants allowed");
}

#[test]
fn versioned_derives_keep_name_and_version() {
    let attrs = legacy_versioned::Attrs { name: Some("event".to_string()), version: Some(lit("1")) };
    let def = legacy_versioned::Definitions::try_from(input::<_, ()>(attrs, Data::Struct)).unwrap();
    assert_eq!(def.event_name, "event");
    assert_eq!(def.event_ver.repr, "1u16");

    let attrs = typed_versioned::Attrs { event_type: Some("event".to_string()), version: Some(lit("2")) };
    let def = typed_versioned::Definitions::try_from(input::<_, ()>(attrs, Data::Struct)).unwrap();
    assert_eq!(def.event_type, "event");
    assert_eq!(def.event_ver.digits, "2");
}

#[test]
fn enum_derive_sources_initial_variants_as_initialized() {
    let init = impl_enum::VariantAttrs { init: true, ignore: false };
    let ignored = impl_enum::VariantAttrs { init: false, ignore: true };
    let variants = vec![
        tuple_variant("Created", "ChatCreated", init),
        tuple_variant("Message", "MessagePosted", impl_enum::VariantAttrs::default()),
        tuple_variant("Unknown", "Unknown", ignored),
    ];
    let event = input(impl_enum::Attrs { revision: true }, Data::Enum(variants));
    let def = match arcane::codegen::es::event::derive(Input::Enum(event)).unwrap() {
        EsDefinition::Enum(def) => def,
        EsDefinition::Struct(_) => panic!("expected an enum definition"),
    };
    assert!(def.is_revisable);
    assert!(def.has_ignored_variants);
    assert_eq!(def.variants.len(), 2);
    assert_eq!(def.variants[0].ty, "ChatCreated");
    assert_eq!(def.variants[0].sourcing, VariantEventSourcing::Initialized);
    assert_eq!(def.variants[1].ident, "Message");
    assert_eq!(def.variants[1].sourcing, VariantEventSourcing::Sourced);
}

#[test]
fn event_derive_refuses_unions() {
    assert_eq!(arcane::codegen::es::event::derive(Input::Union).unwrap_err().message(), "union types are not supported");
}

#[test]
fn generics_are_substituted_trivially() {
    let generics = vec![
        GenericParam::Lifetime("'a".to_string()),
        GenericParam::Type("F".to_string()),
        GenericParam::Const("const N: usize".to_string()),
        GenericParam::Type("C".to_string()),
    ];
    assert_eq!(
        impl_enum::Definition::substitute_generics_trivially(&generics),
        vec![
            TrivialArg::StaticLifetime,
            TrivialArg::Unit,
            TrivialArg::Const("const N: usize".to_string()),
            TrivialArg::Unit,
        ],
    );
    assert_eq!(
        impl_enum::Definition::shadow_generics_trivially(&generics),
        vec!["F".to_string(), "C".to_string()],
    );
}

#[test]
fn struct_derive_keeps_the_revision_as_written() {
    let attrs = impl_struct::Attrs { name: Some("event".to_string()), revision: Some(lit("3")) };
    let def = impl_struct::Definition::try_from(input::<_, ()>(attrs, Data::Struct)).unwrap();
    assert_eq!(def.revision_repr(), "3u16");
    let attrs = impl_struct::Attrs { name: Some("event".to_string()), revision: None };
    let def = impl_struct::Definition::try_from(input::<_, ()>(attrs, Data::Struct)).unwrap();
    assert_eq!(def.revision_repr(), "");
}

#[test]
fn adapter_derive_defaults_to_infallible_error() {
    let attrs = es_adapter::Attrs { transformed: Some("Event".to_string()), error: None };
    let def = es_adapter::Definition::try_from(input::<_, ()>(attrs, Data::Struct)).unwrap();
    assert_eq!(def.transformed, "Event");
    assert_eq!(def.error, "::std::convert::Infallible");

    let attrs = es_adapter::Attrs { transformed: Some("Event".to_string()), error: Some("CustomError".to_string()) };
    let def = es_adapter::Definition::try_from(input::<_, ()>(attrs, Data::Struct)).unwrap();
    assert_eq!(def.error, "CustomError");
}

fn transformer_definition(count: usize) -> transformer::Definition {
    let attrs = transformer::Attrs {
        transformer: Some(transformer::TransformerAttrs {
            adapter: Some("Adapter".to_string()),
            transformed: Some("IntoEvent".to_string()),
            context: Some("dyn Any".to_string()),
            error: Some("Infallible".to_string()),
        }),
    };
    let variants = (0..count).map(|i| tuple_variant(&format!("E{}", i), &format!("Ev{}", i), ())).collect();
    transformer::Definition::try_from(input(attrs, Data::Enum(variants))).unwrap()
}

#[test]
fn transformer_derive_keeps_variants_and_types() {
    let def = transformer_definition(2);
    assert_eq!(def.adapter, "Adapter");
    assert_eq!(def.transformed, "IntoEvent");
    assert_eq!(def.context, "dyn Any");
    assert_eq!(def.error, "Infallible");
    assert_eq!(def.variants[1].ident, "E1");
    assert_eq!(def.variants[1].ty, "Ev1");
}

#[test]
fn transformer_streams_are_put_into_their_either_slots() {
    let single = transformer_definition(1);
    assert_eq!(single.stream_wrappers(0), vec![]);
    let three = transformer_definition(3);
    assert_eq!(three.stream_wrappers(0), vec![Left]);
    assert_eq!(three.stream_wrappers(1), vec![Left, Right]);
    assert_eq!(three.stream_wrappers(2), vec![Right, Right]);
}

#[test]
fn events_are_bound_by_field_name_or_position() {
    let variants = vec![
        tuple_variant("Event1", "EventOne", typed_event::RawAttrs::default()),
        named_variant("Event2", "event", "EventTwo", typed_event::RawAttrs::default()),
    ];
    let def = typed_event::Definitions::try_from(input(typed_event::RawAttrs::default(), Data::Enum(variants))).unwrap();
    assert_eq!(def.event_bindings(), vec![None, Some("event".to_string())]);
}

#[test]
fn documented_skip_value_is_accepted() {
    assert_eq!(SkipAttr::from_str("unique_event_type_and_ver"), Ok(SkipAttr::CheckUniqueTypeAndVer));
    let documented = typed_event::RawAttrs { skip: Some("unique_event_type_and_ver".to_string()) };
    let variants = vec![tuple_variant("Event1", "E1", typed_event::RawAttrs::default())];
    let def = typed_event::Definitions::try_from(input(documented, Data::Enum(variants))).unwrap();
    assert_eq!(def.unique_event_types(), None);
}

fn chat_enum(revision: bool) -> impl_enum::Definition {
    let init = impl_enum::VariantAttrs { init: true, ignore: false };
    let variants = vec![
        tuple_variant("Created", "ChatCreated", init),
        tuple_variant("Message", "MessagePosted", impl_enum::VariantAttrs::default()),
    ];
    match arcane::codegen::es::event::derive(Input::Enum(input(impl_enum::Attrs { revision }, Data::Enum(variants)))).unwrap() {
        EsDefinition::Enum(def) => def,
        EsDefinition::Struct(_) => panic!("expected an enum definition"),
    }
}

#[test]
fn sourced_arms_apply_initial_variants_as_initial() {
    let arms = chat_enum(false).sourced_arms();
    assert_eq!(arms.len(), 2);
    assert_eq!((arms[0].variant.as_str(), arms[0].event_ty.as_str(), arms[0].via_initial), ("Created", "ChatCreated", true));
    assert_eq!((arms[1].variant.as_str(), arms[1].event_ty.as_str(), arms[1].via_initial), ("Message", "MessagePosted", false));
}

#[test]
fn revisable_plan_takes_the_first_revision() {
    assert!(chat_enum(false).revisable_plan().is_none());
    let plan = chat_enum(true).revisable_plan().unwrap();
    assert_eq!(plan.revision_of, "ChatCreated");
    assert_eq!(plan.bounded, vec!["ChatCreated".to_string(), "MessagePosted".to_string()]);
}

#[test]
fn transformed_stream_nests_eithers_to_the_right() {
    let mapped = |s: &str| Box::new(StreamType::Mapped(s.to_string()));
    assert_eq!(transformer_definition(1).transformed_stream(), StreamType::Mapped("Ev0".to_string()));
    assert_eq!(
        transformer_definition(3).transformed_stream(),
        StreamType::Either(mapped("Ev0"), Box::new(StreamType::Either(mapped("Ev1"), mapped("Ev2")))),
    );
}

#[test]
fn default_generics_replace_every_argument() {
    let ty = TypeModel::Path(vec![
        PathSegment { ident: "std".to_string(), arguments: PathArguments::Bare },
        PathSegment {
            ident: "Event".to_string(),
            arguments: PathArguments::AngleBracketed(vec![
                GenericArg::Lifetime("'a".to_string()),
                GenericArg::Type("F".to_string()),
                GenericArg::AssocType("Item".to_string(), "C".to_string()),
                GenericArg::Other("3".to_string()),
            ]),
        },
        PathSegment {
            ident: "Fn".to_string(),
            arguments: PathArguments::Parenthesized(vec!["A".to_string(), "B".to_string()], Some("C".to_string())),
        },
    ]);
    let expected = TypeModel::Path(vec![
        PathSegment { ident: "std".to_string(), arguments: PathArguments::Bare },
        PathSegment {
            ident: "Event".to_string(),
            arguments: PathArguments::AngleBracketed(vec![
                GenericArg::Lifetime("'static".to_string()),
                GenericArg::Type("()".to_string()),
                GenericArg::AssocType("Item".to_string(), "()".to_string()),
                GenericArg::Other("3".to_string()),
            ]),
        },
        PathSegment {
            ident: "Fn".to_string(),
            arguments: PathArguments::Parenthesized(vec!["()".to_string(), "()".to_string()], Some("()".to_string())),
        },
    ]);
    assert_eq!(glue::default_generics(&ty), expected);
    let other = TypeModel::Other("[u8; 3]".to_string());
    assert_eq!(glue::default_generics(&other), other);
}

#[test]
fn glue_plan_counts_kept_variants() {
    let ignored = legacy::VariantAttrs { ignore: true };
    let variants = vec![
        tuple_variant("Event1", "EventOne", legacy::VariantAttrs::default()),
        tuple_variant("Event2", "EventTwo", ignored),
        tuple_variant("Event3", "EventThree < T >", legacy::VariantAttrs::default()),
    ];
    let def = legacy::Definition::try_from(input((), Data::Enum(variants))).unwrap();
    let models = vec![
        TypeModel::Other("EventOne".to_string()),
        TypeModel::Path(vec![PathSegment {
            ident: "EventThree".to_string(),
            arguments: PathArguments::AngleBracketed(vec![GenericArg::Type("T".to_string())]),
        }]),
    ];
    let generics = vec![GenericParam::Type("T".to_string())];
    let plan = glue::glue_plan(&def, &generics, &models);
    assert_eq!(plan.counted, vec!["EventOne".to_string(), "EventThree < T >".to_string()]);
    assert_eq!(plan.defaulted[1], TypeModel::Path(vec![PathSegment {
        ident: "EventThree".to_string(),
        arguments: PathArguments::AngleBracketed(vec![GenericArg::Type("()".to_string())]),
    }]));
    assert_eq!(plan.self_args, vec![TrivialArg::Unit]);
}

#[test]
fn arguments_are_collected_by_name_and_alias() {
    let names = impl_struct::Attrs::arg_names();
    let slots = collect_args(&names, vec![arg("revision", "2"), arg("name", "\"chat\"")]).unwrap();
    assert_eq!(slots, vec![Some("\"chat\"".to_string()), Some("2".to_string())]);
    let err = collect_args(&names, vec![arg("rev", "1"), arg("revision", "2")]).unwrap_err();
    assert_eq!(err, DeriveError::DuplicatedArgument);
    let err = collect_args(&names, vec![arg("name", "\"a\""), arg("ver", "1")]).unwrap_err();
    assert_eq!(err.message(), "unknown `ver` attribute argument");
    let variant = impl_enum::VariantAttrs::arg_names();
    assert_eq!(collect_args(&variant, vec![arg("skip", "")]).unwrap(), vec![None, Some(String::new())]);
    assert_eq!(typed_versioned::Attrs::arg_names(), vec![vec!["type"], vec!["ver", "version"]]);
}
