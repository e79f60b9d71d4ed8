use nameres::dispatch::{MethodDef, MethodSig, TraitRegistry};
use nameres::errors::ResolutionError;
use nameres::index::Index;
use nameres::resolver::{resolve_all, NameRef, PatternArgs, ShapeRegistry, VariantShape};
use nameres::samples;
use nameres::symbols::{Namespace, SymbolKind, Visibility};

fn s(text: &str) -> String {
    String::from(text)
}

fn path(segs: &[&str]) -> Vec<String> {
    segs.iter().map(|p| String::from(*p)).collect()
}

/// The enum corpus: `enum SomeEnum { Ints(int, int), ... }`, its variants
/// declared beside it, with their shapes; `arity` picks the declared payload
/// count of `Ints`.
fn enum_corpus(arity: usize) -> (Index, ShapeRegistry, usize) {
    let mut idx = Index::new();
    idx.declare(0, s("SomeEnum"), SymbolKind::Enum, Visibility::Private)
        .unwrap();
    let ints = idx
        .declare(0, s("Ints"), SymbolKind::EnumVariant, Visibility::Private)
        .unwrap();
    let mut shapes = ShapeRegistry::new();
    shapes.add_shape(ints, VariantShape::Positional { arity });
    (idx, shapes, ints)
}

#[test]
fn enum_pattern_with_matching_arity_binds() {
    let (idx, shapes, ints) = enum_corpus(2);
    let reg = TraitRegistry::new();
    let refs = vec![NameRef::EnumPattern {
        scope: 0,
        segments: path(&["Ints"]),
        absolute: false,
        args: PatternArgs::Positional { arity: 2 },
    }];
    let (sites, errors) = resolve_all(&idx, &reg, &shapes, &refs);
    assert_eq!(sites.len(), 1);
    assert_eq!(sites[0].resolved, Some(ints));
    assert!(errors.is_empty());
}

#[test]
fn enum_pattern_against_wider_variant_mismatches() {
    // The same two-binding pattern against a three-field redeclaration.
    let (idx, shapes, _ints) = enum_corpus(3);
    let reg = TraitRegistry::new();
    let refs = vec![NameRef::EnumPattern {
        scope: 0,
        segments: path(&["Ints"]),
        absolute: false,
        args: PatternArgs::Positional { arity: 2 },
    }];
    let (sites, errors) = resolve_all(&idx, &reg, &shapes, &refs);
    assert_eq!(sites[0].resolved, None);
    assert_eq!(errors.len(), 1);
    assert_eq!(errors[0].location, 0);
    assert_eq!(errors[0].error, ResolutionError::PatternArityMismatch);
}

/// The struct-enum corpus: `EnumStruct { a, b }` as a variant with named
/// fields, and the struct `some_fields { field1 }`.
fn named_corpus() -> (Index, ShapeRegistry, usize, usize) {
    let mut idx = Index::new();
    let some_fields = idx
        .declare(0, s("some_fields"), SymbolKind::Struct, Visibility::Private)
        .unwrap();
    let field1 = idx
        .declare(0, s("field1"), SymbolKind::Field, Visibility::Private)
        .unwrap();
    idx.declare(0, s("SomeStructEnum"), SymbolKind::Enum, Visibility::Private)
        .unwrap();
    let enum_struct = idx
        .declare(0, s("EnumStruct"), SymbolKind::EnumVariant, Visibility::Private)
        .unwrap();
    let field_a = idx
        .declare(0, s("a"), SymbolKind::Field, Visibility::Private)
        .unwrap();
    let field_b = idx
        .declare(0, s("b"), SymbolKind::Field, Visibility::Private)
        .unwrap();
    let mut shapes = ShapeRegistry::new();
    shapes.add_shape(some_fields, VariantShape::Named { fields: vec![field1] });
    shapes.add_shape(enum_struct, VariantShape::Named { fields: vec![field_a, field_b] });
    (idx, shapes, some_fields, enum_struct)
}

#[test]
fn struct_pattern_with_declared_fields_binds() {
    let (idx, shapes, some_fields, _) = named_corpus();
    let reg = TraitRegistry::new();
    let refs = vec![NameRef::StructPattern {
        scope: 0,
        segments: path(&["some_fields"]),
        absolute: false,
        fields: path(&["field1"]),
        has_rest: false,
    }];
    let (sites, errors) = resolve_all(&idx, &reg, &shapes, &refs);
    assert_eq!(sites[0].resolved, Some(some_fields));
    assert!(errors.is_empty());
}

#[test]
fn unknown_field_in_a_pattern_is_an_error() {
    let (idx, shapes, _, _) = named_corpus();
    let reg = TraitRegistry::new();
    let refs = vec![NameRef::StructPattern {
        scope: 0,
        segments: path(&["some_fields"]),
        absolute: false,
        fields: path(&["no_such_field"]),
        has_rest: false,
    }];
    let (sites, errors) = resolve_all(&idx, &reg, &shapes, &refs);
    assert_eq!(sites[0].resolved, None);
    assert_eq!(errors[0].error, ResolutionError::UnknownField);
}

#[test]
fn rest_tail_permits_partial_field_coverage() {
    let (idx, shapes, _, enum_struct) = named_corpus();
    let reg = TraitRegistry::new();
    // EnumStruct { a, .. } is fine; EnumStruct { a } alone is not exhaustive.
    let with_rest = NameRef::EnumPattern {
        scope: 0,
        segments: path(&["EnumStruct"]),
        absolute: false,
        args: PatternArgs::Named { fields: path(&["a"]), has_rest: true },
    };
    let without_rest = NameRef::EnumPattern {
        scope: 0,
        segments: path(&["EnumStruct"]),
        absolute: false,
        args: PatternArgs::Named { fields: path(&["a"]), has_rest: false },
    };
    let refs = vec![with_rest, without_rest];
    let (sites, errors) = resolve_all(&idx, &reg, &shapes, &refs);
    assert_eq!(sites[0].resolved, Some(enum_struct));
    assert_eq!(sites[1].resolved, None);
    assert_eq!(errors.len(), 1);
    assert_eq!(errors[0].location, 1);
    assert_eq!(errors[0].error, ResolutionError::PatternArityMismatch);
}

#[test]
fn a_failed_site_does_not_stop_the_pass() {
    let (idx, shapes, some_fields, _) = named_corpus();
    let reg = TraitRegistry::new();
    let refs = vec![
        NameRef::Path { scope: 0, segments: path(&["ghost"]), ns: Namespace::Value, absolute: false },
        NameRef::Path { scope: 0, segments: path(&["some_fields"]), ns: Namespace::Type, absolute: false },
        NameRef::Path { scope: 999, segments: path(&["x"]), ns: Namespace::Value, absolute: false },
    ];
    let (sites, errors) = resolve_all(&idx, &reg, &shapes, &refs);
    assert_eq!(sites.len(), 3);
    assert_eq!(sites[0].resolved, None);
    assert_eq!(sites[1].resolved, Some(some_fields));
    assert_eq!(sites[2].resolved, None);
    assert_eq!(errors.len(), 2);
    assert_eq!(errors[0].location, 0);
    assert_eq!(errors[1].location, 2);
}

#[test]
fn method_and_static_calls_resolve_in_the_pass() {
    let (idx, shapes, some_fields, _) = named_corpus();
    let mut reg = TraitRegistry::new();
    let some_trait: usize = 100;
    reg.add_trait(
        some_trait,
        vec![],
        vec![
            MethodSig { name: s("Method"), symbol: 101, has_default: false },
            MethodSig { name: s("prov"), symbol: 102, has_default: true },
        ],
    );
    reg.add_impl(some_fields, Some(some_trait), vec![MethodDef { name: s("Method"), symbol: 103 }])
        .unwrap();
    let refs = vec![
        NameRef::MethodCall { receiver: some_fields, name: s("Method"), visible: vec![some_trait] },
        NameRef::MethodCall { receiver: some_fields, name: s("prov"), visible: vec![some_trait] },
        NameRef::StaticCall { qualifier: some_trait, name: s("prov") },
    ];
    let (sites, errors) = resolve_all(&idx, &reg, &shapes, &refs);
    assert!(errors.is_empty());
    assert_eq!(sites[0].resolved, Some(103));
    assert_eq!(sites[1].resolved, Some(102));
    assert_eq!(sites[2].resolved, Some(102));
}

#[test]
fn sample_enum_tags_match_the_corpus() {
    assert_eq!(samples::nested_enum::Nest2.tag(), 2);
    assert_eq!(samples::nested_enum::Nest3.tag(), 3);
}

#[test]
fn sample_items_construct() {
    let n = samples::nested_struct { field2: 55 };
    assert_eq!(n.field2, 55);
    let sub = samples::SubStruct { name: s("Bob") };
    assert_eq!(sub.name, "Bob");
    let _unit = samples::st;
    samples::f();
}
