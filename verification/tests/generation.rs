use std::str::FromStr;

use schema_derive::bound::{bound_generics, plan_bound, BoundPlan};
use schema_derive::diag::{DiagLevel, Diagnostic};
use schema_derive::feature::{Bound, Feature, FeatureKind, Inline, SkipBound, Symbol};
use schema_derive::generics::{join, GenericParam, Generics, ParamKind};
use schema_derive::property::{ComponentSchema, FlattenedMapSchema, Property};
use schema_derive::registry::{Components, RefOr};
use schema_derive::shape::{
    Attributes, Data, EnumSchema, Field, Fields, SchemaVariant, UnitStructVariant, Variant,
};
use schema_derive::symbol::SymbolExpr;
use schema_derive::to_schema::{
    assemble, tokens_or_diagnostic, write_body, write_implementation, Context, ToSchema,
};

fn param(kind: ParamKind, name: &str, bounds: &str, default: Option<&str>) -> GenericParam {
    GenericParam {
        attributes: String::new(),
        kind,
        name: name.to_string(),
        bounds: bounds.to_string(),
        default: default.map(|d| d.to_string()),
    }
}

fn no_generics() -> Generics {
    Generics { params: Vec::new(), predicates: Vec::new() }
}

fn one_type_param() -> Generics {
    Generics { params: vec![param(ParamKind::Type, "T", "", None)], predicates: Vec::new() }
}

fn field(name: Option<&str>, ty: &str) -> Field {
    Field { name: name.map(|n| n.to_string()), ty: ty.to_string(), rule: None }
}

fn context(schema: Result<&str, Diagnostic>, bounded: &[&str]) -> Context {
    Context {
        oapi: "salvo".to_string(),
        schema: schema.map(|s| s.to_string()),
        bounded: bounded.iter().map(|b| b.to_string()).collect(),
    }
}

fn broken(message: &str) -> Diagnostic {
    Diagnostic {
        level: DiagLevel::Error,
        subject: "attr".to_string(),
        message: message.to_string(),
    }
}

const HEAD: &str = " { fn to_schema(components: &mut salvo::oapi::Components) -> salvo::oapi::RefOr<salvo::oapi::schema::Schema> { ";
const TAIL: &str = " } }";

fn registered(variant: &str, symbol: &str) -> String {
    format!(
        "let schema = {}; components.schemas.insert({}, schema.into()); salvo::oapi::RefOr::Ref(salvo::oapi::Ref::new(format!(\"#/components/schemas/{{}}\", {})))",
        variant, symbol, symbol
    )
}

#[test]
fn join_puts_the_separator_between() {
    assert_eq!(join(&Vec::new(), ", "), "");
    assert_eq!(join(&vec!["a".to_string()], ", "), "a");
    assert_eq!(join(&vec!["a".to_string(), "b".to_string(), "c".to_string()], ", "), "a, b, c");
}

#[test]
fn generics_print_as_in_an_impl_header() {
    let generics = Generics {
        params: vec![
            param(ParamKind::Lifetime, "'a", "", None),
            param(ParamKind::Type, "T", "Clone + 'a", Some("String")),
            param(ParamKind::Type, "U", "", Some("i32")),
            param(ParamKind::Const, "N", "usize", Some("3")),
        ],
        predicates: vec!["T: Default".to_string(), "U: 'a".to_string()],
    };
    assert!(generics.has_type_params());
    assert_eq!(generics.impl_generics(), "<'a, T: Clone + 'a, U, const N: usize>");
    assert_eq!(generics.ty_generics(), "<'a, T, U, N>");
    assert_eq!(generics.where_clause(), " where T: Default, U: 'a");
}

#[test]
fn lifetimes_print_first_whatever_their_place() {
    let generics = Generics {
        params: vec![
            param(ParamKind::Type, "T", "'a", None),
            param(ParamKind::Lifetime, "'a", "", None),
            param(ParamKind::Const, "N", "usize", None),
            param(ParamKind::Lifetime, "'b", "'a", None),
        ],
        predicates: Vec::new(),
    };
    assert_eq!(generics.impl_generics(), "<'a, 'b: 'a, T: 'a, const N: usize>");
    assert_eq!(generics.ty_generics(), "<'a, 'b, T, N>");
    assert_eq!(generics.listed(true), vec!["'a", "'b", "T", "N"]);
}

#[test]
fn the_attributes_of_a_parameter_print_where_it_is_declared() {
    let mut gated = param(ParamKind::Type, "T", "Clone", None);
    gated.attributes = "#[cfg(feature = \"x\")]".to_string();
    assert_eq!(gated.declared(), "#[cfg(feature = \"x\")] T: Clone");
    assert_eq!(gated.printed(true), "T");
    let generics = Generics { params: vec![gated], predicates: Vec::new() };
    assert_eq!(generics.impl_generics(), "<#[cfg(feature = \"x\")] T: Clone>");
    assert_eq!(generics.ty_generics(), "<T>");
    let stripped = generics.without_defaults();
    assert_eq!(stripped.params[0].attributes, "#[cfg(feature = \"x\")]");
}

#[test]
fn no_generics_print_as_nothing() {
    let generics = no_generics();
    assert!(!generics.has_type_params());
    assert_eq!(generics.impl_generics(), "");
    assert_eq!(generics.ty_generics(), "");
    assert_eq!(generics.where_clause(), "");
}

#[test]
fn lifetimes_and_consts_are_no_type_params() {
    let generics = Generics {
        params: vec![
            param(ParamKind::Lifetime, "'a", "", None),
            param(ParamKind::Const, "N", "usize", None),
        ],
        predicates: Vec::new(),
    };
    assert!(!generics.has_type_params());
}

#[test]
fn without_defaults_strips_every_default_and_nothing_else() {
    let generics = Generics {
        params: vec![
            param(ParamKind::Type, "T", "Clone", Some("String")),
            param(ParamKind::Const, "N", "usize", Some("3")),
        ],
        predicates: vec!["T: Default".to_string()],
    };
    let stripped = generics.without_defaults();
    assert_eq!(stripped.params.len(), 2);
    assert!(stripped.params.iter().all(|p| p.default.is_none()));
    assert_eq!(stripped.params[0].name, "T");
    assert_eq!(stripped.params[0].bounds, "Clone");
    assert_eq!(stripped.params[0].kind, ParamKind::Type);
    assert_eq!(stripped.params[1].name, "N");
    assert_eq!(stripped.params[1].bounds, "usize");
    assert_eq!(stripped.params[1].kind, ParamKind::Const);
    assert_eq!(stripped.predicates, vec!["T: Default".to_string()]);
    assert_eq!(generics.params[0].default, Some("String".to_string()));
}

#[test]
fn predicates_are_added_behind_those_of_the_type() {
    let generics = Generics { params: Vec::new(), predicates: vec!["A: B".to_string()] };
    let explicit = generics.with_where_predicates("T: Clone, U: Copy");
    assert_eq!(explicit.predicates, vec!["A: B".to_string(), "T: Clone, U: Copy".to_string()]);
    let bound = explicit.with_bound(&vec!["T".to_string(), "U::Item".to_string()], "X + 'static");
    assert_eq!(
        bound.predicates,
        vec![
            "A: B".to_string(),
            "T: Clone, U: Copy".to_string(),
            "T: X + 'static".to_string(),
            "U::Item: X + 'static".to_string(),
        ]
    );
}

#[test]
fn a_union_is_a_classification_error_that_points_at_it() {
    let generics = no_generics();
    let attributes: Attributes = Ok(Vec::new());
    let made = SchemaVariant::new(&Data::Union, &attributes, "Bits", &generics);
    let diag = made.expect_err("a union has no schema");
    assert_eq!(diag.level, DiagLevel::Error);
    assert_eq!(diag.subject, "Bits");
    assert_eq!(
        diag.message,
        "unexpected data type, expected syn::Data::Struct or syn::Data::Enum"
    );
}

#[test]
fn a_unit_struct_is_classified_whatever_its_attributes() {
    let generics = no_generics();
    let data = Data::Struct(Fields::Unit);
    let failed: Attributes = Err(broken("bad attribute"));
    let named: Attributes = Ok(vec![Feature::Symbol(Symbol("S".to_string())), Feature::Inline(Inline(true))]);
    for attributes in [&failed, &named] {
        let variant = SchemaVariant::new(&data, attributes, "Status", &generics).unwrap();
        assert!(matches!(variant, SchemaVariant::Unit(_)));
        assert_eq!(variant.symbol(), &None);
        assert_eq!(variant.inline(), &None);
    }
}

#[test]
fn a_unit_struct_has_nothing_to_pop() {
    let generics = no_generics();
    let data = Data::Struct(Fields::Unit);
    let attributes: Attributes = Ok(vec![Feature::SkipBound(SkipBound(true)), Feature::Bound(Bound("T: A".to_string()))]);
    let mut variant = SchemaVariant::new(&data, &attributes, "Status", &generics).unwrap();
    assert_eq!(variant.pop_skip_bound(), None);
    assert_eq!(variant.pop_bound(), None);
}

#[test]
fn a_positional_struct_pops_symbol_and_inline() {
    let generics = no_generics();
    let data = Data::Struct(Fields::Unnamed(vec![field(None, "i32")]));
    let attributes: Attributes = Ok(vec![
        Feature::RenameAll("camelCase".to_string()),
        Feature::Inline(Inline(true)),
        Feature::Symbol(Symbol("W".to_string())),
        Feature::Other("example".to_string()),
    ]);
    let variant = SchemaVariant::new(&data, &attributes, "Wrapper", &generics).unwrap();
    assert_eq!(variant.symbol(), &Some(Symbol("W".to_string())));
    assert_eq!(variant.inline(), &Some(Inline(true)));
    match variant {
        SchemaVariant::Unnamed(schema) => {
            assert_eq!(schema.struct_name, "Wrapper");
            assert_eq!(schema.fields.len(), 1);
            assert_eq!(schema.fields[0].ty, "i32");
            let left: Vec<FeatureKind> = schema.features.iter().map(|f| f.kind()).collect();
            assert_eq!(left, vec![FeatureKind::RenameAll, FeatureKind::Other]);
        }
        other => panic!("unexpected variant {:?}", other),
    }
}

#[test]
fn a_named_struct_pops_the_renaming_policy_too() {
    let generics = one_type_param();
    let data = Data::Struct(Fields::Named(vec![field(Some("a"), "T"), field(Some("b"), "T")]));
    let attributes: Attributes = Ok(vec![
        Feature::RenameAll("camelCase".to_string()),
        Feature::Bound(Bound("T: Clone".to_string())),
        Feature::Symbol(Symbol("Pair".to_string())),
    ]);
    let variant = SchemaVariant::new(&data, &attributes, "Pair", &generics).unwrap();
    assert_eq!(variant.symbol(), &Some(Symbol("Pair".to_string())));
    assert_eq!(variant.inline(), &None);
    match variant {
        SchemaVariant::Named(schema) => {
            assert_eq!(schema.struct_name, "Pair");
            assert_eq!(schema.rename_all, Some("camelCase".to_string()));
            assert_eq!(schema.fields.len(), 2);
            assert!(schema.generics.is_some());
            let left: Vec<FeatureKind> = schema.features.iter().map(|f| f.kind()).collect();
            assert_eq!(left, vec![FeatureKind::Bound]);
        }
        other => panic!("unexpected variant {:?}", other),
    }
}

#[test]
fn an_enum_is_wrapped_with_its_symbol() {
    let generics = no_generics();
    let variants = vec![
        Variant { name: "On".to_string(), fields: Fields::Unit },
        Variant { name: "Off".to_string(), fields: Fields::Unnamed(vec![field(None, "u8")]) },
    ];
    let data = Data::Enum(variants);
    let attributes: Attributes = Ok(vec![Feature::Symbol(Symbol("Switch".to_string()))]);
    let variant = SchemaVariant::new(&data, &attributes, "Switch", &generics).unwrap();
    assert_eq!(variant.symbol(), &Some(Symbol("Switch".to_string())));
    match variant {
        SchemaVariant::Enum(schema) => {
            assert_eq!(schema.enum_name, "Switch");
            assert_eq!(schema.variants.len(), 2);
            assert!(schema.features.is_empty());
        }
        other => panic!("unexpected variant {:?}", other),
    }
}

#[test]
fn failed_feature_extraction_is_handed_on_unchanged() {
    let generics = no_generics();
    let failed: Attributes = Err(broken("unexpected attribute"));
    let shapes = [
        Data::Struct(Fields::Named(Vec::new())),
        Data::Struct(Fields::Unnamed(Vec::new())),
        Data::Enum(Vec::new()),
    ];
    for data in &shapes {
        let diag = SchemaVariant::new(data, &failed, "Pet", &generics).expect_err("must fail");
        assert_eq!(diag.level, DiagLevel::Error);
        assert_eq!(diag.subject, "attr");
        assert_eq!(diag.message, "unexpected attribute");
    }
    let variants = Vec::new();
    let diag = EnumSchema::new("Pet".to_string(), &variants, &failed).expect_err("must fail");
    assert_eq!(diag.message, "unexpected attribute");
}

#[test]
fn skip_bound_wins_over_bound_and_leaves_it_in_place() {
    let generics = one_type_param();
    let data = Data::Struct(Fields::Named(Vec::new()));
    let attributes: Attributes = Ok(vec![
        Feature::Bound(Bound("T: Clone".to_string())),
        Feature::SkipBound(SkipBound(true)),
    ]);
    let mut variant = SchemaVariant::new(&data, &attributes, "Pair", &generics).unwrap();
    assert!(matches!(plan_bound(&mut variant), BoundPlan::Skip));
    assert_eq!(variant.pop_skip_bound(), None);
    assert_eq!(variant.pop_bound(), Some(Bound("T: Clone".to_string())));
}

#[test]
fn skip_bound_set_to_false_does_not_skip() {
    let generics = one_type_param();
    let data = Data::Struct(Fields::Named(Vec::new()));
    let attributes: Attributes = Ok(vec![
        Feature::SkipBound(SkipBound(false)),
        Feature::Bound(Bound("T: Clone".to_string())),
    ]);
    let mut variant = SchemaVariant::new(&data, &attributes, "Pair", &generics).unwrap();
    match plan_bound(&mut variant) {
        BoundPlan::Explicit(predicates) => assert_eq!(predicates, "T: Clone"),
        other => panic!("unexpected plan {:?}", other),
    }
    assert_eq!(variant.pop_bound(), None);
    let no_features: Attributes = Ok(Vec::new());
    let mut plain = SchemaVariant::new(&data, &no_features, "Pair", &generics).unwrap();
    assert!(matches!(plan_bound(&mut plain), BoundPlan::Default));
}

#[test]
fn each_plan_bounds_the_stripped_generics() {
    let generics = Generics {
        params: vec![param(ParamKind::Type, "T", "", Some("i32"))],
        predicates: vec!["T: Send".to_string()],
    };
    let bounded = vec!["T".to_string()];
    let skip = bound_generics(&BoundPlan::Skip, &generics, &bounded, "salvo");
    assert_eq!(skip.impl_generics(), "<T>");
    assert_eq!(skip.where_clause(), " where T: Send");
    assert!(skip.params[0].default.is_none());
    let explicit =
        bound_generics(&BoundPlan::Explicit("T: Clone".to_string()), &generics, &bounded, "salvo");
    assert_eq!(explicit.where_clause(), " where T: Send, T: Clone");
    let default = bound_generics(&BoundPlan::Default, &generics, &bounded, "salvo");
    assert_eq!(default.where_clause(), " where T: Send, T: salvo::oapi::ToSchema + 'static");
}

#[test]
fn the_unit_schema_is_the_empty_schema() {
    assert_eq!(UnitStructVariant.to_tokens("salvo"), "salvo::oapi::schema::empty()");
    let generics = no_generics();
    let data = Data::Struct(Fields::Unit);
    let attributes: Attributes = Ok(Vec::new());
    let variant = SchemaVariant::new(&data, &attributes, "Status", &generics).unwrap();
    let ignored = Err(broken("no builder ran"));
    assert_eq!(variant.try_to_tokens("salvo", &ignored).unwrap(), "salvo::oapi::schema::empty()");
}

#[test]
fn the_schema_of_a_record_is_what_its_builder_made() {
    let generics = no_generics();
    let data = Data::Struct(Fields::Unnamed(vec![field(None, "i32")]));
    let attributes: Attributes = Ok(Vec::new());
    let variant = SchemaVariant::new(&data, &attributes, "Wrapper", &generics).unwrap();
    let built = Ok("Object::new()".to_string());
    assert_eq!(variant.try_to_tokens("salvo", &built).unwrap(), "Object::new()");
    let failed = Err(broken("no such type"));
    let diag = variant.try_to_tokens("salvo", &failed).expect_err("builder failed");
    assert_eq!(diag.message, "no such type");
    assert_eq!(diag.subject, "attr");
}

#[test]
fn a_written_property_is_its_fragment_whatever_was_rendered() {
    let direct = Property::Schema(ComponentSchema { tokens: "i32::to_schema(components)".to_string() });
    let map = Property::FlattenedMap(FlattenedMapSchema { tokens: "additional()".to_string() });
    for rendered in [Ok("custom::schema()".to_string()), Err(broken("no rendering"))] {
        assert_eq!(direct.try_to_tokens(&rendered).unwrap(), "i32::to_schema(components)");
        assert_eq!(map.try_to_tokens(&rendered).unwrap(), "additional()");
    }
}

#[test]
fn a_property_of_a_feature_is_what_rendering_the_feature_gave() {
    let with = Property::SchemaWith(Feature::Other("schema_with = custom::schema".to_string()));
    let rendered = Ok("custom::schema()".to_string());
    assert_eq!(with.try_to_tokens(&rendered).unwrap(), "custom::schema()");
    let failed = Err(broken("RenameAll does not support `ToTokens`"));
    let diag = with.try_to_tokens(&failed).expect_err("rendering failed");
    assert_eq!(diag, broken("RenameAll does not support `ToTokens`"));
}

#[test]
fn symbol_expressions_are_written_with_a_string_literal() {
    let plain = SymbolExpr::Override("models :: Pet".to_string());
    assert_eq!(
        plain.to_tokens("Pet"),
        "\"models :: Pet\".to_string().replace(\" :: \", \".\")"
    );
    let quoted = SymbolExpr::Override("a\"b\\c".to_string());
    assert_eq!(
        quoted.to_tokens("Pet"),
        "\"a\\\"b\\\\c\".to_string().replace(\" :: \", \".\")"
    );
    let spliced = SymbolExpr::Spliced("Pair".to_string());
    assert_eq!(
        spliced.to_tokens("Pair<T>"),
        "{ let full_name = std::any::type_name::<Pair<T>>(); if let Some((_, args)) = full_name.split_once('<') { format!(\"{}<{}\", \"Pair\", args) } else { full_name.into() } }"
    );
    assert_eq!(
        SymbolExpr::TypeName.to_tokens("Pet"),
        "std::any::type_name::<Pet>().replace(\"::\", \".\")"
    );
}

#[test]
fn symbol_expressions_take_the_literal_as_given() {
    let plain = SymbolExpr::Override("ignored".to_string());
    assert_eq!(plain.to_tokens_with("LIT", "Pet"), "LIT.to_string().replace(\" :: \", \".\")");
    assert_eq!(
        SymbolExpr::TypeName.to_tokens_with("LIT", "Pet<T>"),
        "std::any::type_name::<Pet<T>>().replace(\"::\", \".\")"
    );
}

#[test]
fn the_body_hands_back_or_registers() {
    assert_eq!(write_body("SCHEMA", &None, "salvo"), "SCHEMA.into()");
    assert_eq!(write_body("SCHEMA", &Some("SYM".to_string()), "salvo"), registered("SCHEMA", "SYM"));
}

#[test]
fn the_implementation_wraps_the_body() {
    let signature = Generics {
        params: vec![param(ParamKind::Type, "T", "Clone", None)],
        predicates: vec!["T: Send".to_string()],
    };
    assert_eq!(
        write_implementation("salvo", "Pair", &signature, "<T>", "BODY"),
        format!("impl<T: Clone> salvo::oapi::ToSchema for Pair<T> where T: Send{}BODY{}", HEAD, TAIL)
    );
}

#[test]
fn pair_is_generated_with_a_spliced_symbol_and_the_default_bound() {
    let generics = one_type_param();
    let data = Data::Struct(Fields::Named(vec![field(Some("a"), "T"), field(Some("b"), "T")]));
    let attributes: Attributes =
        Ok(vec![Feature::Inline(Inline(false)), Feature::Symbol(Symbol("Pair".to_string()))]);
    let context = context(Ok("SCHEMA"), &["T"]);
    let to_schema = ToSchema::new(&data, &attributes, "Pair", &generics, &context);
    let symbol = "{ let full_name = std::any::type_name::<Pair<T>>(); if let Some((_, args)) = full_name.split_once('<') { format!(\"{}<{}\", \"Pair\", args) } else { full_name.into() } }";
    assert_eq!(
        to_schema.generate().unwrap(),
        format!(
            "impl<T> salvo::oapi::ToSchema for Pair<T> where T: salvo::oapi::ToSchema + 'static{}{}{}",
            HEAD,
            registered("SCHEMA", symbol),
            TAIL
        )
    );
}

#[test]
fn status_is_generated_to_hand_back_the_empty_schema() {
    let generics = no_generics();
    let data = Data::Struct(Fields::Unit);
    let expected = format!(
        "impl salvo::oapi::ToSchema for Status{}salvo::oapi::schema::empty().into(){}",
        HEAD, TAIL
    );
    let plain: Attributes = Ok(Vec::new());
    let annotated: Attributes = Ok(vec![
        Feature::Inline(Inline(true)),
        Feature::Symbol(Symbol("Other".to_string())),
        Feature::SkipBound(SkipBound(true)),
    ]);
    let failed: Attributes = Err(broken("bad attribute"));
    for attributes in [&plain, &annotated, &failed] {
        for context in [context(Ok("IGNORED"), &[]), context(Err(broken("no builder")), &[])] {
            let to_schema = ToSchema::new(&data, attributes, "Status", &generics, &context);
            assert_eq!(to_schema.generate().unwrap(), expected);
        }
    }
}

#[test]
fn an_inline_wrapper_hands_its_schema_back() {
    let generics = no_generics();
    let data = Data::Struct(Fields::Unnamed(vec![field(None, "i32")]));
    let attributes: Attributes = Ok(vec![Feature::Inline(Inline(true))]);
    let context = context(Ok("<i32 as salvo::oapi::ToSchema>::to_schema(components)"), &[]);
    let to_schema = ToSchema::new(&data, &attributes, "Wrapper", &generics, &context);
    assert_eq!(
        to_schema.generate().unwrap(),
        format!(
            "impl salvo::oapi::ToSchema for Wrapper{}<i32 as salvo::oapi::ToSchema>::to_schema(components).into(){}",
            HEAD, TAIL
        )
    );
}

#[test]
fn an_explicit_name_of_a_plain_type_is_normalized_at_run_time() {
    let generics = no_generics();
    let data = Data::Enum(vec![Variant { name: "A".to_string(), fields: Fields::Unit }]);
    let attributes: Attributes = Ok(vec![Feature::Symbol(Symbol("models :: Kind".to_string()))]);
    let context = context(Ok("SCHEMA"), &[]);
    let to_schema = ToSchema::new(&data, &attributes, "Kind", &generics, &context);
    let symbol = "\"models :: Kind\".to_string().replace(\" :: \", \".\")";
    assert_eq!(
        to_schema.generate().unwrap(),
        format!(
            "impl salvo::oapi::ToSchema for Kind{}{}{}",
            HEAD,
            registered("SCHEMA", symbol),
            TAIL
        )
    );
}

#[test]
fn skip_bound_keeps_the_explicit_bound_out_of_the_signature() {
    let generics = Generics {
        params: vec![param(ParamKind::Type, "T", "Clone", Some("i32"))],
        predicates: vec!["T: Send".to_string()],
    };
    let data = Data::Struct(Fields::Named(vec![field(Some("a"), "T")]));
    let both: Attributes = Ok(vec![
        Feature::Bound(Bound("T: SecretBound".to_string())),
        Feature::SkipBound(SkipBound(true)),
        Feature::Inline(Inline(true)),
    ]);
    let only_skip: Attributes = Ok(vec![Feature::SkipBound(SkipBound(true)), Feature::Inline(Inline(true))]);
    let context = context(Ok("SCHEMA"), &["T"]);
    let with_both = ToSchema::new(&data, &both, "Pair", &generics, &context).generate().unwrap();
    let with_skip = ToSchema::new(&data, &only_skip, "Pair", &generics, &context).generate().unwrap();
    assert_eq!(with_both, with_skip);
    assert!(!with_both.contains("SecretBound"));
    assert_eq!(
        with_both,
        format!(
            "impl<T: Clone> salvo::oapi::ToSchema for Pair<T> where T: Send{}SCHEMA.into(){}",
            HEAD, TAIL
        )
    );
}

#[test]
fn an_explicit_bound_replaces_the_default_bound() {
    let generics = one_type_param();
    let data = Data::Struct(Fields::Named(vec![field(Some("a"), "T")]));
    let attributes: Attributes =
        Ok(vec![Feature::Bound(Bound("T: Clone + Default".to_string())), Feature::Inline(Inline(true))]);
    let context = context(Ok("SCHEMA"), &["T"]);
    let to_schema = ToSchema::new(&data, &attributes, "Pair", &generics, &context);
    assert_eq!(
        to_schema.generate().unwrap(),
        format!(
            "impl<T> salvo::oapi::ToSchema for Pair<T> where T: Clone + Default{}SCHEMA.into(){}",
            HEAD, TAIL
        )
    );
}

#[test]
fn generation_aborts_in_order() {
    let generics = no_generics();
    let failed: Attributes = Err(broken("bad attribute"));
    let fine: Attributes = Ok(Vec::new());
    let no_schema = context(Err(broken("bad field")), &[]);
    let record = Data::Struct(Fields::Named(Vec::new()));

    let union = ToSchema::new(&Data::Union, &failed, "Bits", &generics, &no_schema);
    let diag = union.generate().expect_err("a union has no schema");
    assert_eq!(diag.subject, "Bits");
    assert_eq!(
        diag.message,
        "unexpected data type, expected syn::Data::Struct or syn::Data::Enum"
    );

    let attrs = ToSchema::new(&record, &failed, "Pet", &generics, &no_schema);
    assert_eq!(attrs.generate().expect_err("attributes failed").message, "bad attribute");

    let builder = ToSchema::new(&record, &fine, "Pet", &generics, &no_schema);
    assert_eq!(builder.generate().expect_err("builder failed").message, "bad field");
}

#[test]
fn assemble_takes_a_classified_definition() {
    let generics = no_generics();
    let data = Data::Struct(Fields::Unnamed(vec![field(None, "i32")]));
    let attributes: Attributes = Ok(vec![Feature::Inline(Inline(true))]);
    let context = context(Ok("SCHEMA"), &[]);
    let variant = SchemaVariant::new(&data, &attributes, "Wrapper", &generics).unwrap();
    let plan = assemble(variant, "Wrapper", &generics, &context).unwrap();
    assert_eq!(plan.oapi, "salvo");
    assert_eq!(plan.ident, "Wrapper");
    assert_eq!(plan.ty_generics, "");
    assert!(plan.symbol.is_none());
    assert_eq!(plan.schema, "SCHEMA");
    assert!(plan.signature.params.is_empty());
    assert!(plan.signature.predicates.is_empty());
    assert_eq!(
        plan.render(),
        format!("impl salvo::oapi::ToSchema for Wrapper{}SCHEMA.into(){}", HEAD, TAIL)
    );
}

#[test]
fn the_plan_of_pair_registers_each_instantiation_under_its_own_name() {
    let generics = one_type_param();
    let data = Data::Struct(Fields::Named(vec![field(Some("a"), "T"), field(Some("b"), "T")]));
    let attributes: Attributes =
        Ok(vec![Feature::Inline(Inline(false)), Feature::Symbol(Symbol("Pair".to_string()))]);
    let context = context(Ok("SCHEMA"), &["T"]);
    let plan = ToSchema::new(&data, &attributes, "Pair", &generics, &context).plan().unwrap();
    assert_eq!(plan.ty_generics, "<T>");
    assert_eq!(plan.signature.predicates, vec!["T: salvo::oapi::ToSchema + 'static".to_string()]);
    match &plan.symbol {
        Some(SymbolExpr::Spliced(name)) => assert_eq!(name, "Pair"),
        other => panic!("unexpected symbol {:?}", other),
    }

    let mut components: Components<&str> = Components::new();
    match plan.run("app::Pair<i32>", "pair of i32", &mut components) {
        RefOr::Ref(path) => assert_eq!(path, "#/components/schemas/Pair<i32>"),
        RefOr::T(_) => panic!("a named schema is referred to"),
    }
    match plan.run("app::Pair<alloc::string::String>", "pair of strings", &mut components) {
        RefOr::Ref(path) => {
            assert_eq!(path, "#/components/schemas/Pair<alloc::string::String>")
        }
        RefOr::T(_) => panic!("a named schema is referred to"),
    }
    assert_eq!(components.len(), 2);
    assert_eq!(components.get("Pair<i32>"), Some(&"pair of i32"));
    assert_eq!(components.get("Pair<alloc::string::String>"), Some(&"pair of strings"));
}

#[test]
fn the_plan_of_status_hands_back_the_empty_schema_and_leaves_the_registry() {
    let generics = no_generics();
    let data = Data::Struct(Fields::Unit);
    let attributes: Attributes = Ok(Vec::new());
    let context = context(Err(broken("no builder runs for a unit struct")), &[]);
    let plan = ToSchema::new(&data, &attributes, "Status", &generics, &context).plan().unwrap();
    assert_eq!(plan.schema, "salvo::oapi::schema::empty()");
    assert!(plan.symbol.is_none());

    let mut components: Components<&str> = Components::new();
    components.insert("Other".to_string(), "other");
    match plan.run("app::Status", "empty", &mut components) {
        RefOr::T(schema) => assert_eq!(schema, "empty"),
        RefOr::Ref(_) => panic!("the schema of a unit struct is handed back"),
    }
    assert_eq!(components.len(), 1);
    assert_eq!(components.get("Other"), Some(&"other"));
    assert_eq!(components.get("app.Status"), None);
    assert_eq!(components.get("Status"), None);
}

#[test]
fn the_plan_of_an_annotated_status_is_that_of_a_plain_one() {
    let generics = no_generics();
    let data = Data::Struct(Fields::Unit);
    let context = context(Ok("IGNORED"), &[]);
    let annotated: Attributes = Ok(vec![
        Feature::Symbol(Symbol("Named".to_string())),
        Feature::Inline(Inline(false)),
        Feature::Bound(Bound("T: X".to_string())),
    ]);
    let failed: Attributes = Err(broken("bad attribute"));
    for attributes in [&annotated, &failed] {
        let plan = ToSchema::new(&data, attributes, "Status", &generics, &context).plan().unwrap();
        assert!(plan.symbol.is_none());
        assert_eq!(plan.schema, "salvo::oapi::schema::empty()");
        assert!(plan.signature.predicates.is_empty());
        let mut components: Components<u8> = Components::new();
        assert!(matches!(plan.run("app::Status", 0, &mut components), RefOr::T(0)));
        assert_eq!(components.len(), 0);
    }
}

#[test]
fn a_plan_renders_with_the_literal_it_is_given() {
    let generics = no_generics();
    let data = Data::Enum(Vec::new());
    let attributes: Attributes = Ok(vec![Feature::Symbol(Symbol("Kind".to_string()))]);
    let context = context(Ok("SCHEMA"), &[]);
    let plan = ToSchema::new(&data, &attributes, "Kind", &generics, &context).plan().unwrap();
    assert_eq!(
        plan.render_with("LIT"),
        format!(
            "impl salvo::oapi::ToSchema for Kind{}{}{}",
            HEAD,
            registered("SCHEMA", "LIT.to_string().replace(\" :: \", \".\")"),
            TAIL
        )
    );
    assert_eq!(plan.render(), plan.render_with("\"Kind\""));
}

#[test]
fn the_plan_of_an_inline_wrapper_hands_the_schema_back() {
    let generics = no_generics();
    let data = Data::Struct(Fields::Unnamed(vec![field(None, "i32")]));
    let attributes: Attributes = Ok(vec![Feature::Inline(Inline(true))]);
    let context = context(Ok("<i32 as salvo::oapi::ToSchema>::to_schema(components)"), &[]);
    let plan = ToSchema::new(&data, &attributes, "Wrapper", &generics, &context).plan().unwrap();
    assert!(plan.symbol.is_none());
    assert_eq!(plan.schema, "<i32 as salvo::oapi::ToSchema>::to_schema(components)");

    let mut components: Components<&str> = Components::new();
    match plan.run("app::Wrapper", "schema of i32", &mut components) {
        RefOr::T(schema) => assert_eq!(schema, "schema of i32"),
        RefOr::Ref(_) => panic!("an inline schema is handed back"),
    }
    assert_eq!(components.len(), 0);
    assert_eq!(components.get("app.Wrapper"), None);
}

#[test]
fn running_a_plan_twice_registers_once() {
    let generics = no_generics();
    let data = Data::Enum(vec![Variant { name: "A".to_string(), fields: Fields::Unit }]);
    let attributes: Attributes = Ok(vec![Feature::Symbol(Symbol("models :: Kind".to_string()))]);
    let context = context(Ok("SCHEMA"), &[]);
    let plan = ToSchema::new(&data, &attributes, "Kind", &generics, &context).plan().unwrap();
    let mut components: Components<u32> = Components::new();
    plan.run("app::models::Kind", 5, &mut components);
    assert_eq!(components.len(), 1);
    assert_eq!(components.get("models.Kind"), Some(&5));
    plan.run("app::models::Kind", 5, &mut components);
    assert_eq!(components.len(), 1);
    assert_eq!(components.get("models.Kind"), Some(&5));
}

#[test]
fn the_tokens_are_those_of_the_generated_text() {
    let generics = one_type_param();
    let data = Data::Struct(Fields::Named(vec![field(Some("a"), "T")]));
    let attributes: Attributes = Ok(vec![Feature::Symbol(Symbol("Pair".to_string()))]);
    let context = context(Ok("salvo::oapi::Object::new()"), &["T"]);
    let to_schema = ToSchema::new(&data, &attributes, "Pair", &generics, &context);

    let tokens = to_schema.try_to_tokens().unwrap();
    let text = to_schema.generate().unwrap();
    let expected = proc_macro2::TokenStream::from_str(&text).unwrap();
    assert_eq!(tokens.to_string(), expected.to_string());

    let trees: Vec<String> = tokens.into_iter().map(|tree| tree.to_string()).collect();
    assert_eq!(&trees[..4], &["impl", "<", "T", ">"]);
    assert!(trees.len() > 10);
    assert!(trees.contains(&"ToSchema".to_string()));
}

#[test]
fn text_that_does_not_lex_is_an_error_that_points_at_the_definition() {
    let generics = no_generics();
    let data = Data::Struct(Fields::Unnamed(vec![field(None, "i32")]));
    let attributes: Attributes = Ok(vec![Feature::Inline(Inline(true))]);
    let context = context(Ok("unbalanced ) here"), &[]);
    let to_schema = ToSchema::new(&data, &attributes, "Wrapper", &generics, &context);
    let diag = to_schema.try_to_tokens().expect_err("does not lex");
    assert_eq!(diag.level, DiagLevel::Error);
    assert_eq!(diag.subject, "Wrapper");
    assert_eq!(diag.message, "the generated implementation is not a sequence of tokens");
}

#[test]
fn a_failed_generation_gives_no_tokens() {
    let generics = no_generics();
    let attributes: Attributes = Ok(Vec::new());
    let context = context(Ok("SCHEMA"), &[]);
    let to_schema = ToSchema::new(&Data::Union, &attributes, "Bits", &generics, &context);
    let diag = to_schema.try_to_tokens().expect_err("a union has no schema");
    assert_eq!(diag.subject, "Bits");
    assert_eq!(
        diag.message,
        "unexpected data type, expected syn::Data::Struct or syn::Data::Enum"
    );
}

#[test]
fn the_outcome_of_the_lexer_is_handed_on() {
    let stream = proc_macro2::TokenStream::from_str("impl X for Y {}");
    let done = tokens_or_diagnostic(stream, "Y").unwrap();
    assert_eq!(done.to_string(), "impl X for Y { }");
    let failed = proc_macro2::TokenStream::from_str("impl X for Y {");
    let diag = tokens_or_diagnostic(failed, "Y").expect_err("does not lex");
    assert_eq!(diag.level, DiagLevel::Error);
    assert_eq!(diag.subject, "Y");
    assert_eq!(diag.message, "the generated implementation is not a sequence of tokens");
}

#[test]
fn the_generated_implementation_parses_as_an_impl() {
    let generics = one_type_param();
    let data = Data::Struct(Fields::Named(vec![field(Some("a"), "T")]));
    for attributes in [
        Ok(vec![Feature::Symbol(Symbol("Pair".to_string()))]),
        Ok(vec![Feature::Inline(Inline(true))]),
        Ok(Vec::new()),
    ] {
        let attributes: Attributes = attributes;
        let context = context(Ok("salvo::oapi::Object::new()"), &["T"]);
        let to_schema = ToSchema::new(&data, &attributes, "Pair", &generics, &context);
        let text = to_schema.generate().unwrap();
        let item: syn::ItemImpl = syn::parse_str(&text).expect("an impl block");
        assert_eq!(item.items.len(), 1);
        assert_eq!(item.generics.params.len(), 1);
        assert!(item.generics.where_clause.is_some());
    }
}
