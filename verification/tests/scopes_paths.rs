use nameres::errors::ResolutionError;
use nameres::index::Index;
use nameres::scopes::ScopeKind;
use nameres::symbols::{Namespace, SymbolKind, Visibility};

fn s(text: &str) -> String {
    String::from(text)
}

fn path(segs: &[&str]) -> Vec<String> {
    segs.iter().map(|p| String::from(*p)).collect()
}

#[test]
fn declare_then_lookup_returns_the_symbol() {
    let mut idx = Index::new();
    let yy = idx
        .declare(0, s("yy"), SymbolKind::Static, Visibility::Private)
        .unwrap();
    assert_eq!(idx.lookup_in_scope(0, &s("yy"), Namespace::Value), Some(yy));
    assert_eq!(idx.lookup_in_scope(0, &s("yy"), Namespace::Type), None);
}

#[test]
fn duplicate_declaration_is_refused() {
    let mut idx = Index::new();
    let first = idx
        .declare(0, s("st"), SymbolKind::Struct, Visibility::Public)
        .unwrap();
    let second = idx.declare(0, s("st"), SymbolKind::Struct, Visibility::Public);
    assert_eq!(second, Err(ResolutionError::DuplicateDeclaration));
    assert_eq!(idx.lookup_in_scope(0, &s("st"), Namespace::Type), Some(first));
}

#[test]
fn value_and_type_namespaces_are_independent() {
    let mut idx = Index::new();
    let ty = idx
        .declare(0, s("thing"), SymbolKind::Struct, Visibility::Public)
        .unwrap();
    let val = idx
        .declare(0, s("thing"), SymbolKind::Function, Visibility::Public)
        .unwrap();
    assert_ne!(ty, val);
    assert_eq!(idx.lookup_in_scope(0, &s("thing"), Namespace::Type), Some(ty));
    assert_eq!(idx.lookup_in_scope(0, &s("thing"), Namespace::Value), Some(val));
}

#[test]
fn block_shadowing_is_local_to_the_block() {
    let mut idx = Index::new();
    let outer = idx
        .declare(0, s("x"), SymbolKind::Static, Visibility::Private)
        .unwrap();
    let block = idx.new_scope(0, ScopeKind::Block, None);
    let inner = idx
        .declare(block, s("x"), SymbolKind::Static, Visibility::Private)
        .unwrap();
    let p = path(&["x"]);
    assert_eq!(idx.resolve_path(block, &p, Namespace::Value, false), Ok(inner));
    assert_eq!(idx.resolve_path(0, &p, Namespace::Value, false), Ok(outer));
}

#[test]
fn outward_walk_reaches_outer_scopes() {
    let mut idx = Index::new();
    let outer = idx
        .declare(0, s("yy"), SymbolKind::Static, Visibility::Private)
        .unwrap();
    let f_scope = idx.new_scope(0, ScopeKind::Function, None);
    let block = idx.new_scope(f_scope, ScopeKind::Block, None);
    let p = path(&["yy"]);
    assert_eq!(idx.resolve_path(block, &p, Namespace::Value, false), Ok(outer));
}

fn corpus_with_alias() -> (Index, usize) {
    // mod sub { pub mod sub2 { pub struct nested_struct; pub fn hello() } }
    // use sub::sub2 as msalias;
    let mut idx = Index::new();
    let (_sub_sym, sub_scope) = idx
        .declare_module(0, s("sub"), Visibility::Private)
        .unwrap();
    let (_sub2_sym, sub2_scope) = idx
        .declare_module(sub_scope, s("sub2"), Visibility::Public)
        .unwrap();
    let nested = idx
        .declare(sub2_scope, s("nested_struct"), SymbolKind::Struct, Visibility::Public)
        .unwrap();
    idx.declare(sub2_scope, s("hello"), SymbolKind::Function, Visibility::Public)
        .unwrap();
    idx.add_import(0, s("msalias"), path(&["sub", "sub2"]), false)
        .unwrap();
    (idx, nested)
}

#[test]
fn alias_and_direct_path_bind_the_same_symbol() {
    let (idx, nested) = corpus_with_alias();
    let direct = idx.resolve_path(0, &path(&["sub", "sub2", "nested_struct"]), Namespace::Type, false);
    let aliased = idx.resolve_path(0, &path(&["msalias", "nested_struct"]), Namespace::Type, false);
    assert_eq!(direct, Ok(nested));
    assert_eq!(aliased, direct);
}

#[test]
fn alias_works_for_values_too() {
    let (idx, _) = corpus_with_alias();
    let direct = idx.resolve_path(0, &path(&["sub", "sub2", "hello"]), Namespace::Value, false);
    let aliased = idx.resolve_path(0, &path(&["msalias", "hello"]), Namespace::Value, false);
    assert!(direct.is_ok());
    assert_eq!(aliased, direct);
}

#[test]
fn unresolved_path_reports_unresolved_name() {
    let (idx, _) = corpus_with_alias();
    assert_eq!(
        idx.resolve_path(0, &path(&["sub", "nowhere", "x"]), Namespace::Type, false),
        Err(ResolutionError::UnresolvedName)
    );
    assert_eq!(
        idx.resolve_path(0, &path(&["ghost_name"]), Namespace::Value, false),
        Err(ResolutionError::UnresolvedName)
    );
}

#[test]
fn absolute_paths_start_at_the_crate_root() {
    let mut idx = Index::new();
    let root_item = idx
        .declare(0, s("uni"), SymbolKind::Static, Visibility::Private)
        .unwrap();
    let (_m, m_scope) = idx.declare_module(0, s("m"), Visibility::Private).unwrap();
    // The module scope declares its own `uni`; an absolute path skips it.
    let shadow = idx
        .declare(m_scope, s("uni"), SymbolKind::Static, Visibility::Private)
        .unwrap();
    assert_eq!(idx.resolve_path(m_scope, &path(&["uni"]), Namespace::Value, false), Ok(shadow));
    assert_eq!(idx.resolve_path(m_scope, &path(&["uni"]), Namespace::Value, true), Ok(root_item));
}

fn two_glob_corpus() -> Index {
    // mod m1 { pub fn bar() } mod m2 { pub fn bar() } use m1::*; use m2::*;
    let mut idx = Index::new();
    let (_m1, m1_scope) = idx.declare_module(0, s("m1"), Visibility::Private).unwrap();
    let (_m2, m2_scope) = idx.declare_module(0, s("m2"), Visibility::Private).unwrap();
    idx.declare(m1_scope, s("bar"), SymbolKind::Function, Visibility::Public)
        .unwrap();
    idx.declare(m2_scope, s("bar"), SymbolKind::Function, Visibility::Public)
        .unwrap();
    idx.add_import(0, String::new(), path(&["m1"]), true).unwrap();
    idx.add_import(0, String::new(), path(&["m2"]), true).unwrap();
    idx
}

#[test]
fn two_globs_supplying_one_name_are_ambiguous() {
    let idx = two_glob_corpus();
    assert_eq!(
        idx.resolve_path(0, &path(&["bar"]), Namespace::Value, false),
        Err(ResolutionError::AmbiguousGlob)
    );
}

#[test]
fn local_declaration_overrides_glob_ambiguity() {
    let mut idx = two_glob_corpus();
    let local = idx
        .declare(0, s("bar"), SymbolKind::Function, Visibility::Private)
        .unwrap();
    assert_eq!(idx.resolve_path(0, &path(&["bar"]), Namespace::Value, false), Ok(local));
}

#[test]
fn single_glob_supplies_the_name() {
    let mut idx = Index::new();
    let (_m1, m1_scope) = idx.declare_module(0, s("m1"), Visibility::Private).unwrap();
    let bar = idx
        .declare(m1_scope, s("bar"), SymbolKind::Function, Visibility::Public)
        .unwrap();
    idx.declare(m1_scope, s("secret"), SymbolKind::Function, Visibility::Private)
        .unwrap();
    idx.add_import(0, String::new(), path(&["m1"]), true).unwrap();
    assert_eq!(idx.resolve_path(0, &path(&["bar"]), Namespace::Value, false), Ok(bar));
    // A glob brings only public names in.
    assert_eq!(
        idx.resolve_path(0, &path(&["secret"]), Namespace::Value, false),
        Err(ResolutionError::UnresolvedName)
    );
}

#[test]
fn nonglob_import_shadows_glob_import() {
    let mut idx = two_glob_corpus();
    // use m1::bar as bar; (a non-glob import of the same name)
    idx.add_import(0, s("bar"), path(&["m1", "bar"]), false).unwrap();
    let in_m1 = idx.resolve_path(0, &path(&["m1", "bar"]), Namespace::Value, false).unwrap();
    assert_eq!(idx.resolve_path(0, &path(&["bar"]), Namespace::Value, false), Ok(in_m1));
}

#[test]
fn second_nonglob_import_of_a_name_is_refused() {
    let mut idx = Index::new();
    idx.add_import(0, s("my_f"), path(&["sub", "f"]), false).unwrap();
    assert_eq!(
        idx.add_import(0, s("my_f"), path(&["sub", "g"]), false),
        Err(ResolutionError::DuplicateDeclaration)
    );
}

#[test]
fn alias_corpus_of_the_aliases_fixture() {
    // mod sub { pub mod sub2 { pub static g; } pub struct st; pub fn f(); pub static g; }
    let mut idx = Index::new();
    let (_sub, sub_scope) = idx.declare_module(0, s("sub"), Visibility::Private).unwrap();
    let (_sub2, sub2_scope) = idx
        .declare_module(sub_scope, s("sub2"), Visibility::Public)
        .unwrap();
    let g_inner = idx
        .declare(sub2_scope, s("g"), SymbolKind::Static, Visibility::Public)
        .unwrap();
    let st_sym = idx
        .declare(sub_scope, s("st"), SymbolKind::Struct, Visibility::Public)
        .unwrap();
    let f_sym = idx
        .declare(sub_scope, s("f"), SymbolKind::Function, Visibility::Public)
        .unwrap();
    let g_outer = idx
        .declare(sub_scope, s("g"), SymbolKind::Static, Visibility::Public)
        .unwrap();
    idx.add_import(0, s("my_sub2"), path(&["sub", "sub2"]), false).unwrap();
    idx.add_import(0, s("my_st"), path(&["sub", "st"]), false).unwrap();
    idx.add_import(0, s("my_f"), path(&["sub", "f"]), false).unwrap();
    idx.add_import(0, s("my_g"), path(&["sub", "g"]), false).unwrap();
    assert_eq!(idx.resolve_path(0, &path(&["my_sub2", "g"]), Namespace::Value, false), Ok(g_inner));
    assert_eq!(idx.resolve_path(0, &path(&["my_st"]), Namespace::Type, false), Ok(st_sym));
    assert_eq!(idx.resolve_path(0, &path(&["my_f"]), Namespace::Value, false), Ok(f_sym));
    assert_eq!(idx.resolve_path(0, &path(&["my_g"]), Namespace::Value, false), Ok(g_outer));
}
