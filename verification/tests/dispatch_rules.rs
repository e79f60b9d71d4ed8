use nameres::dispatch::{MethodDef, MethodSig, MethodTarget, TraitRegistry};
use nameres::errors::ResolutionError;

fn s(text: &str) -> String {
    String::from(text)
}

// Symbol ids used by these tests; any distinct numbers work, since the
// registry cross-references the symbol table by id only.
const SUPER_TRAIT: usize = 1;
const SOME_TRAIT: usize = 2;
const SUB_TRAIT: usize = 3;
const SOME_FIELDS: usize = 10;
const NOFIELDS: usize = 11;
const SIG_METHOD: usize = 20;
const SIG_PROV: usize = 21;
const SIG_STAT2: usize = 22;
const SIG_PROVIDED: usize = 23;
const BODY_METHOD_SF: usize = 30;
const BODY_METHOD_NF: usize = 31;
const BODY_STAT_SF: usize = 32;
const BODY_STAT2_SF: usize = 33;
const BODY_PROVIDED_NF: usize = 34;

fn sig(name: &str, symbol: usize, has_default: bool) -> MethodSig {
    MethodSig { name: s(name), symbol, has_default }
}

fn def(name: &str, symbol: usize) -> MethodDef {
    MethodDef { name: s(name), symbol }
}

/// The trait surface of the corpus: SuperTrait, SomeTrait: SuperTrait with
/// one required method and two defaults, SubTrait: SomeTrait with a default,
/// impls for some_fields and nofields, and an inherent impl on some_fields.
fn corpus_registry() -> TraitRegistry {
    let mut reg = TraitRegistry::new();
    reg.add_trait(SUPER_TRAIT, vec![], vec![]);
    reg.add_trait(
        SOME_TRAIT,
        vec![SUPER_TRAIT],
        vec![
            sig("Method", SIG_METHOD, false),
            sig("prov", SIG_PROV, true),
            sig("stat2", SIG_STAT2, true),
        ],
    );
    reg.add_trait(SUB_TRAIT, vec![SOME_TRAIT], vec![sig("provided_method", SIG_PROVIDED, true)]);
    reg.add_impl(SOME_FIELDS, Some(SOME_TRAIT), vec![def("Method", BODY_METHOD_SF)])
        .unwrap();
    reg.add_impl(SOME_FIELDS, Some(SUPER_TRAIT), vec![]).unwrap();
    reg.add_impl(
        SOME_FIELDS,
        None,
        vec![def("stat", BODY_STAT_SF), def("stat2", BODY_STAT2_SF)],
    )
    .unwrap();
    reg.add_impl(NOFIELDS, Some(SUPER_TRAIT), vec![]).unwrap();
    reg.add_impl(NOFIELDS, Some(SOME_TRAIT), vec![def("Method", BODY_METHOD_NF)])
        .unwrap();
    reg.add_impl(NOFIELDS, Some(SUB_TRAIT), vec![def("provided_method", BODY_PROVIDED_NF)])
        .unwrap();
    reg
}

#[test]
fn default_body_is_used_when_the_impl_omits_the_method() {
    let reg = corpus_registry();
    let r = reg.resolve_method(SOME_FIELDS, &s("prov"), &vec![SOME_TRAIT]);
    match r {
        Ok(MethodTarget::Default { symbol, .. }) => assert_eq!(symbol, SIG_PROV),
        other => panic!("expected the trait's default body, got {:?}", other),
    }
}

#[test]
fn impl_body_wins_over_the_default() {
    let mut reg = corpus_registry();
    // Here the impl of SubTrait for nofields does supply provided_method.
    let r = reg.resolve_method(NOFIELDS, &s("provided_method"), &vec![SUB_TRAIT]);
    match r {
        Ok(MethodTarget::FromImpl { symbol, .. }) => assert_eq!(symbol, BODY_PROVIDED_NF),
        other => panic!("expected the impl's body, got {:?}", other),
    }
    // Once the override is gone, the same call lands on the default.
    reg = TraitRegistry::new();
    reg.add_trait(SOME_TRAIT, vec![], vec![]);
    reg.add_trait(SUB_TRAIT, vec![SOME_TRAIT], vec![sig("provided_method", SIG_PROVIDED, true)]);
    reg.add_impl(NOFIELDS, Some(SUB_TRAIT), vec![]).unwrap();
    let r2 = reg.resolve_method(NOFIELDS, &s("provided_method"), &vec![SUB_TRAIT]);
    match r2 {
        Ok(MethodTarget::Default { symbol, .. }) => assert_eq!(symbol, SIG_PROVIDED),
        other => panic!("expected the default body, got {:?}", other),
    }
}

#[test]
fn concrete_method_resolves_through_the_impl() {
    let reg = corpus_registry();
    let r = reg.resolve_method(SOME_FIELDS, &s("Method"), &vec![SOME_TRAIT]);
    match r {
        Ok(MethodTarget::FromImpl { symbol, .. }) => assert_eq!(symbol, BODY_METHOD_SF),
        other => panic!("expected the impl's body, got {:?}", other),
    }
}

#[test]
fn supertrait_methods_resolve_through_a_subtrait_bound() {
    let reg = corpus_registry();
    // The call site only knows T: SubTrait, yet SomeTrait's method is found.
    let r = reg.resolve_method(NOFIELDS, &s("Method"), &vec![SUB_TRAIT]);
    match r {
        Ok(MethodTarget::FromImpl { symbol, .. }) => assert_eq!(symbol, BODY_METHOD_NF),
        other => panic!("expected the supertrait impl's body, got {:?}", other),
    }
    // And SomeTrait's default as well.
    let r2 = reg.resolve_method(NOFIELDS, &s("prov"), &vec![SUB_TRAIT]);
    match r2 {
        Ok(MethodTarget::Default { symbol, .. }) => assert_eq!(symbol, SIG_PROV),
        other => panic!("expected the supertrait default, got {:?}", other),
    }
}

#[test]
fn unknown_method_is_unresolved() {
    let reg = corpus_registry();
    assert_eq!(
        reg.resolve_method(SOME_FIELDS, &s("no_such"), &vec![SOME_TRAIT]),
        Err(ResolutionError::UnresolvedName)
    );
    // Without any visible trait, even a supplied trait method is out of view.
    assert_eq!(
        reg.resolve_method(SOME_FIELDS, &s("Method"), &vec![]),
        Err(ResolutionError::UnresolvedName)
    );
}

#[test]
fn two_unrelated_defaults_are_ambiguous() {
    let mut reg = TraitRegistry::new();
    reg.add_trait(1, vec![], vec![sig("dup", 40, true)]);
    reg.add_trait(2, vec![], vec![sig("dup", 41, true)]);
    reg.add_impl(SOME_FIELDS, Some(1), vec![]).unwrap();
    reg.add_impl(SOME_FIELDS, Some(2), vec![]).unwrap();
    assert_eq!(
        reg.resolve_method(SOME_FIELDS, &s("dup"), &vec![1, 2]),
        Err(ResolutionError::AmbiguousMethod)
    );
    // Overriding one of them removes the conflict.
    let mut reg2 = TraitRegistry::new();
    reg2.add_trait(1, vec![], vec![sig("dup", 40, true)]);
    reg2.add_trait(2, vec![], vec![sig("dup", 41, true)]);
    reg2.add_impl(SOME_FIELDS, Some(1), vec![def("dup", 42)]).unwrap();
    reg2.add_impl(SOME_FIELDS, Some(2), vec![]).unwrap();
    match reg2.resolve_method(SOME_FIELDS, &s("dup"), &vec![1, 2]) {
        Ok(MethodTarget::FromImpl { symbol, .. }) => assert_eq!(symbol, 42),
        other => panic!("expected the overriding impl, got {:?}", other),
    }
}

#[test]
fn static_call_on_a_type_prefers_the_inherent_method() {
    let reg = corpus_registry();
    match reg.resolve_static(SOME_FIELDS, &s("stat")) {
        Ok(MethodTarget::Inherent { symbol, .. }) => assert_eq!(symbol, BODY_STAT_SF),
        other => panic!("expected the inherent method, got {:?}", other),
    }
    match reg.resolve_static(SOME_FIELDS, &s("stat2")) {
        Ok(MethodTarget::Inherent { symbol, .. }) => assert_eq!(symbol, BODY_STAT2_SF),
        other => panic!("expected the inherent method, got {:?}", other),
    }
}

#[test]
fn static_call_on_a_trait_uses_the_default() {
    let reg = corpus_registry();
    match reg.resolve_static(SOME_TRAIT, &s("stat2")) {
        Ok(MethodTarget::Default { symbol, .. }) => assert_eq!(symbol, SIG_STAT2),
        other => panic!("expected the trait default, got {:?}", other),
    }
}

#[test]
fn duplicate_method_across_merged_blocks_is_refused() {
    let mut reg = TraitRegistry::new();
    reg.add_trait(SOME_TRAIT, vec![], vec![sig("Method", SIG_METHOD, false)]);
    reg.add_impl(SOME_FIELDS, Some(SOME_TRAIT), vec![def("Method", 50)])
        .unwrap();
    // A second block for the same (type, trait) pair may add new methods...
    reg.add_impl(SOME_FIELDS, Some(SOME_TRAIT), vec![def("other", 51)])
        .unwrap();
    // ...but not redeclare one.
    assert_eq!(
        reg.add_impl(SOME_FIELDS, Some(SOME_TRAIT), vec![def("Method", 52)]),
        Err(ResolutionError::DuplicateDeclaration)
    );
}

#[test]
fn supertrait_cycle_is_detected() {
    let mut reg = TraitRegistry::new();
    reg.add_trait(1, vec![2], vec![]);
    reg.add_trait(2, vec![1], vec![]);
    assert_eq!(reg.check_supertraits(), Err(ResolutionError::CyclicSupertrait));
}

#[test]
fn acyclic_supertraits_pass_the_check() {
    let reg = corpus_registry();
    assert_eq!(reg.check_supertraits(), Ok(()));
    // A self-loop is the smallest cycle.
    let mut looped = TraitRegistry::new();
    looped.add_trait(1, vec![1], vec![]);
    assert_eq!(looped.check_supertraits(), Err(ResolutionError::CyclicSupertrait));
}
