use vstd::prelude::*;

use crate::errors::ResolutionError;

verus! {

/// A method a trait declares: its name, the symbol of the declaration, and
/// whether the trait supplies a default body.
#[derive(Clone, Debug)]
pub struct MethodSig {
    pub name: String,
    pub symbol: usize,
    pub has_default: bool,
}

/// A method an impl block supplies: its name and the symbol of the supplied
/// body.
#[derive(Clone, Debug)]
pub struct MethodDef {
    pub name: String,
    pub symbol: usize,
}

/// A registered trait: its symbol, the symbols of its direct supertraits,
/// and its method signatures.
#[derive(Clone, Debug)]
pub struct TraitDecl {
    pub symbol: usize,
    pub supertraits: Vec<usize>,
    pub methods: Vec<MethodSig>,
}

/// An impl block: the symbol of the type it targets, the trait it
/// implements (none for an inherent impl), and the methods it supplies.
#[derive(Clone, Debug)]
pub struct ImplBlock {
    pub target_type: usize,
    pub trait_symbol: Option<usize>,
    pub methods: Vec<MethodDef>,
}

/// Where a method call resolved to: an inherent impl's method, a trait
/// impl's concrete method, or a trait's default body. `symbol` is the
/// symbol of the chosen body.
#[derive(Clone, Copy, PartialEq, Eq, Structural, Debug)]
pub enum MethodTarget {
    Inherent { impl_index: usize, symbol: usize },
    FromImpl { impl_index: usize, trait_index: usize, symbol: usize },
    Default { trait_index: usize, symbol: usize },
}

/// The per-crate registry of traits and impl blocks, cross-referenced with
/// the symbol table by symbol id only.
pub struct TraitRegistry {
    pub traits: Vec<TraitDecl>,
    pub impls: Vec<ImplBlock>,
}

/// First position at or after `k` where `xs` holds `v`.
pub open spec fn contains_from(xs: Seq<usize>, k: int, v: usize) -> bool
    decreases xs.len() - k,
{
    if k < 0 || k >= xs.len() {
        false
    } else if xs[k] == v {
        true
    } else {
        contains_from(xs, k + 1, v)
    }
}

/// First signature at or after `k` named `name`.
pub open spec fn sig_from(ms: Seq<MethodSig>, k: int, name: Seq<char>) -> Option<int>
    decreases ms.len() - k,
{
    if k < 0 || k >= ms.len() {
        None
    } else if ms[k].name@ == name {
        Some(k)
    } else {
        sig_from(ms, k + 1, name)
    }
}

/// First supplied method at or after `k` named `name`.
pub open spec fn def_from(ms: Seq<MethodDef>, k: int, name: Seq<char>) -> Option<int>
    decreases ms.len() - k,
{
    if k < 0 || k >= ms.len() {
        None
    } else if ms[k].name@ == name {
        Some(k)
    } else {
        def_from(ms, k + 1, name)
    }
}

/// First registered trait at or after `k` whose symbol is `sym`.
pub open spec fn trait_index_from(ts: Seq<TraitDecl>, k: int, sym: usize) -> Option<int>
    decreases ts.len() - k,
{
    if k < 0 || k >= ts.len() {
        None
    } else if ts[k].symbol == sym {
        Some(k)
    } else {
        trait_index_from(ts, k + 1, sym)
    }
}

/// The registry position of the trait with symbol `sym`.
pub open spec fn trait_index_of(reg: TraitRegistry, sym: usize) -> Option<int> {
    trait_index_from(reg.traits@, 0, sym)
}

/// Direct supertrait edge between registry positions: trait `a` lists trait
/// `b`'s symbol among its supertraits.
pub open spec fn edge(reg: TraitRegistry, a: int, b: int) -> bool {
    &&& 0 <= a < reg.traits@.len()
    &&& 0 <= b < reg.traits@.len()
    &&& contains_from(reg.traits@[a].supertraits@, 0, reg.traits@[b].symbol)
}

/// Reachability along supertrait edges in at most `k` steps.
pub open spec fn reach_in(reg: TraitRegistry, a: int, b: int, k: int) -> bool
    decreases k, 0int, 0int,
{
    if k <= 0 {
        a == b
    } else {
        reach_in(reg, a, b, k - 1) || pred_below(reg, a, b, k - 1, reg.traits@.len() as int)
    }
}

/// Whether some trait position under `c` is reachable from `a` in `k` steps
/// and has a direct edge to `b`: the scan behind one more reachability
/// step.
pub open spec fn pred_below(reg: TraitRegistry, a: int, b: int, k: int, c: int) -> bool
    decreases k, 1int, c,
{
    if k < 0 || c <= 0 {
        false
    } else {
        pred_below(reg, a, b, k, c - 1) || (reach_in(reg, a, c - 1, k) && edge(reg, c - 1, b))
    }
}

/// The supertrait closure: reachability within as many steps as there are
/// traits, which covers every repetition-free supertrait path.
pub open spec fn sup_reach(reg: TraitRegistry, a: int, b: int) -> bool {
    reach_in(reg, a, b, reg.traits@.len() as int)
}

/// Whether the closure of the first `i` visible traits reaches registry
/// position `t`.
pub open spec fn vis_reach_upto(reg: TraitRegistry, visible: Seq<usize>, i: int, t: int) -> bool
    decreases i,
{
    if i <= 0 || i > visible.len() {
        false
    } else {
        vis_reach_upto(reg, visible, i - 1, t) || match trait_index_of(reg, visible[i - 1]) {
            Some(a) => sup_reach(reg, a, t),
            None => false,
        }
    }
}

/// Whether some visible trait's supertrait closure contains position `t`.
pub open spec fn vis_reach(reg: TraitRegistry, visible: Seq<usize>, t: int) -> bool {
    vis_reach_upto(reg, visible, visible.len() as int, t)
}

/// First impl block at or after `k` that implements the trait with symbol
/// `tsym` for the target (any target when `ty` is none).
pub open spec fn impl_of_from(impls: Seq<ImplBlock>, k: int, ty: Option<usize>, tsym: usize) -> Option<int>
    decreases impls.len() - k,
{
    if k < 0 || k >= impls.len() {
        None
    } else if impls[k].trait_symbol == Some(tsym) && (match ty {
        Some(x) => impls[k].target_type == x,
        None => true,
    }) {
        Some(k)
    } else {
        impl_of_from(impls, k + 1, ty, tsym)
    }
}

/// First inherent impl at or after `k` on type `ty` that supplies `name`,
/// with the position of the supplied method.
pub open spec fn inherent_from(reg: TraitRegistry, k: int, ty: usize, name: Seq<char>) -> Option<(int, int)>
    decreases reg.impls@.len() - k,
{
    if k < 0 || k >= reg.impls@.len() {
        None
    } else if reg.impls@[k].trait_symbol is None && reg.impls@[k].target_type == ty && def_from(
        reg.impls@[k].methods@,
        0,
        name,
    ) is Some {
        Some((k, def_from(reg.impls@[k].methods@, 0, name)->0))
    } else {
        inherent_from(reg, k + 1, ty, name)
    }
}

/// Whether impl block `i` is a live trait-method candidate: it implements a
/// visible (or transitively visible) trait for the receiver type and
/// supplies a concrete body for `name`.
pub open spec fn timpl_cond(reg: TraitRegistry, visible: Seq<usize>, ty: Option<usize>, name: Seq<char>, i: int) -> bool {
    &&& 0 <= i < reg.impls@.len()
    &&& match reg.impls@[i].trait_symbol {
        Some(tsym) => match trait_index_of(reg, tsym) {
            Some(t) => vis_reach(reg, visible, t),
            None => false,
        },
        None => false,
    }
    &&& match ty {
        Some(x) => reg.impls@[i].target_type == x,
        None => true,
    }
    &&& def_from(reg.impls@[i].methods@, 0, name) is Some
}

/// The candidate entry impl block `i` contributes when it qualifies:
/// (impl position, trait position, method position).
pub open spec fn timpl_entry(reg: TraitRegistry, name: Seq<char>, i: int) -> (usize, usize, usize) {
    let t = match reg.impls@[i].trait_symbol {
        Some(tsym) => match trait_index_of(reg, tsym) {
            Some(t) => t,
            None => 0,
        },
        None => 0,
    };
    let mp = match def_from(reg.impls@[i].methods@, 0, name) {
        Some(mp) => mp,
        None => 0,
    };
    (i as usize, t as usize, mp as usize)
}

/// The trait-impl candidates among the first `k` impl blocks, in block
/// order.
pub open spec fn timpl_cands(reg: TraitRegistry, visible: Seq<usize>, ty: Option<usize>, name: Seq<char>, k: int) -> Seq<(usize, usize, usize)>
    decreases k,
{
    if k <= 0 {
        Seq::empty()
    } else {
        let rest = timpl_cands(reg, visible, ty, name, k - 1);
        if timpl_cond(reg, visible, ty, name, k - 1) {
            rest.push(timpl_entry(reg, name, k - 1))
        } else {
            rest
        }
    }
}

/// Whether trait position `t` offers a live default for `name`: `t` is in
/// the visible closure, the receiver implements it (some impl block exists,
/// possibly empty), and `t` declares `name` with a default body.
pub open spec fn default_cond(reg: TraitRegistry, visible: Seq<usize>, ty: Option<usize>, name: Seq<char>, t: int) -> bool {
    &&& 0 <= t < reg.traits@.len()
    &&& vis_reach(reg, visible, t)
    &&& impl_of_from(reg.impls@, 0, ty, reg.traits@[t].symbol) is Some
    &&& match sig_from(reg.traits@[t].methods@, 0, name) {
        Some(mp) => reg.traits@[t].methods@[mp].has_default,
        None => false,
    }
}

/// The candidate entry trait position `t` contributes when it qualifies:
/// (trait position, method position).
pub open spec fn default_entry(reg: TraitRegistry, name: Seq<char>, t: int) -> (usize, usize) {
    let mp = match sig_from(reg.traits@[t].methods@, 0, name) {
        Some(mp) => mp,
        None => 0,
    };
    (t as usize, mp as usize)
}

/// The default-body candidates among the first `k` traits, in registry
/// order.
pub open spec fn default_cands(reg: TraitRegistry, visible: Seq<usize>, ty: Option<usize>, name: Seq<char>, k: int) -> Seq<(usize, usize)>
    decreases k,
{
    if k <= 0 {
        Seq::empty()
    } else {
        let rest = default_cands(reg, visible, ty, name, k - 1);
        if default_cond(reg, visible, ty, name, k - 1) {
            rest.push(default_entry(reg, name, k - 1))
        } else {
            rest
        }
    }
}

/// Method resolution, in priority order: an inherent method on the receiver
/// wins; then a concrete body from an impl of a visible trait (supertraits
/// included); then a default body of a visible trait the receiver
/// implements. Two live candidates at the same level are an ambiguity, not
/// an arbitrary pick; no candidate at all is an unresolved name. With `ty`
/// none, the receiver is unconstrained (a trait-qualified static call).
pub open spec fn spec_resolve_method(reg: TraitRegistry, ty: Option<usize>, name: Seq<char>, visible: Seq<usize>) -> Result<
    MethodTarget,
    ResolutionError,
> {
    let inh = match ty {
        Some(x) => inherent_from(reg, 0, x, name),
        None => None,
    };
    match inh {
        Some(e) => Ok(MethodTarget::Inherent {
            impl_index: e.0 as usize,
            symbol: reg.impls@[e.0].methods@[e.1].symbol,
        }),
        None => {
            let tc = timpl_cands(reg, visible, ty, name, reg.impls@.len() as int);
            if tc.len() == 1 {
                Ok(MethodTarget::FromImpl {
                    impl_index: tc[0].0,
                    trait_index: tc[0].1,
                    symbol: reg.impls@[tc[0].0 as int].methods@[tc[0].2 as int].symbol,
                })
            } else if tc.len() >= 2 {
                Err(ResolutionError::AmbiguousMethod)
            } else {
                let dc = default_cands(reg, visible, ty, name, reg.traits@.len() as int);
                if dc.len() == 1 {
                    Ok(MethodTarget::Default {
                        trait_index: dc[0].0,
                        symbol: reg.traits@[dc[0].0 as int].methods@[dc[0].1 as int].symbol,
                    })
                } else if dc.len() >= 2 {
                    Err(ResolutionError::AmbiguousMethod)
                } else {
                    Err(ResolutionError::UnresolvedName)
                }
            }
        },
    }
}

/// The trait symbols of the whole registry, in order: a type-qualified
/// static call may draw on any registered trait.
pub open spec fn all_trait_syms(reg: TraitRegistry) -> Seq<usize> {
    Seq::new(reg.traits@.len(), |i: int| reg.traits@[i].symbol)
}

/// Static (no-receiver) resolution: a trait qualifier confines the search
/// to that trait and its supertraits over any implementing type; a type
/// qualifier runs ordinary method resolution with every trait visible.
pub open spec fn spec_resolve_static(reg: TraitRegistry, qualifier: usize, name: Seq<char>) -> Result<
    MethodTarget,
    ResolutionError,
> {
    if trait_index_of(reg, qualifier) is Some {
        spec_resolve_method(reg, None, name, seq![qualifier])
    } else {
        spec_resolve_method(reg, Some(qualifier), name, all_trait_syms(reg))
    }
}

/// A cycle in the supertrait graph: some edge closes back on a trait that
/// reaches its source.
pub open spec fn has_cycle(reg: TraitRegistry) -> bool {
    exists|a: int, b: int| #[trigger] edge(reg, a, b) && sup_reach(reg, b, a)
}

/// A found supplied method is a real position with the sought name.
pub proof fn lemma_def_from_some(ms: Seq<MethodDef>, k: int, name: Seq<char>)
    requires
        def_from(ms, k, name) is Some,
    ensures
        k <= def_from(ms, k, name)->0 < ms.len(),
        ms[def_from(ms, k, name)->0].name@ == name,
    decreases ms.len() - k,
{
    if !(k < 0 || k >= ms.len()) && !(ms[k].name@ == name) {
        lemma_def_from_some(ms, k + 1, name);
    }
}

/// A found declared signature is a real position with the sought name.
pub proof fn lemma_sig_from_some(ms: Seq<MethodSig>, k: int, name: Seq<char>)
    requires
        sig_from(ms, k, name) is Some,
    ensures
        k <= sig_from(ms, k, name)->0 < ms.len(),
        ms[sig_from(ms, k, name)->0].name@ == name,
    decreases ms.len() - k,
{
    if !(k < 0 || k >= ms.len()) && !(ms[k].name@ == name) {
        lemma_sig_from_some(ms, k + 1, name);
    }
}

/// A found trait position is a real position with the sought symbol.
pub proof fn lemma_trait_index_some(ts: Seq<TraitDecl>, k: int, sym: usize)
    requires
        trait_index_from(ts, k, sym) is Some,
    ensures
        k <= trait_index_from(ts, k, sym)->0 < ts.len(),
        ts[trait_index_from(ts, k, sym)->0].symbol == sym,
    decreases ts.len() - k,
{
    if !(k < 0 || k >= ts.len()) && !(ts[k].symbol == sym) {
        lemma_trait_index_some(ts, k + 1, sym);
    }
}

/// Every collected trait-impl candidate comes from a qualifying impl block
/// and is that block's entry.
pub proof fn lemma_timpl_cands_elems(reg: TraitRegistry, visible: Seq<usize>, ty: Option<usize>, name: Seq<char>, k: int)
    ensures
        forall|x: int|
            0 <= x < timpl_cands(reg, visible, ty, name, k).len() ==> {
                let e = #[trigger] timpl_cands(reg, visible, ty, name, k)[x];
                &&& timpl_cond(reg, visible, ty, name, e.0 as int)
                &&& e == timpl_entry(reg, name, e.0 as int)
            },
    decreases k,
{
    if k > 0 {
        vstd::std_specs::vec::axiom_spec_len(&reg.impls);
        lemma_timpl_cands_elems(reg, visible, ty, name, k - 1);
        let c0 = timpl_cands(reg, visible, ty, name, k - 1);
        let c1 = timpl_cands(reg, visible, ty, name, k);
        assert forall|x: int| 0 <= x < c1.len() implies {
            let e = #[trigger] c1[x];
            &&& timpl_cond(reg, visible, ty, name, e.0 as int)
            &&& e == timpl_entry(reg, name, e.0 as int)
        } by {
            if timpl_cond(reg, visible, ty, name, k - 1) {
                assert(c1 == c0.push(timpl_entry(reg, name, k - 1)));
                if x < c0.len() {
                    assert(c1[x] == c0[x]);
                } else {
                    assert(c1[x] == timpl_entry(reg, name, k - 1));
                    assert(c1[x].0 as int == k - 1);
                }
            } else {
                assert(c1 == c0);
            }
        }
    }
}

/// Every collected default candidate comes from a qualifying trait and is
/// that trait's entry.
pub proof fn lemma_default_cands_elems(reg: TraitRegistry, visible: Seq<usize>, ty: Option<usize>, name: Seq<char>, k: int)
    ensures
        forall|x: int|
            0 <= x < default_cands(reg, visible, ty, name, k).len() ==> {
                let e = #[trigger] default_cands(reg, visible, ty, name, k)[x];
                &&& default_cond(reg, visible, ty, name, e.0 as int)
                &&& e == default_entry(reg, name, e.0 as int)
            },
    decreases k,
{
    if k > 0 {
        vstd::std_specs::vec::axiom_spec_len(&reg.traits);
        lemma_default_cands_elems(reg, visible, ty, name, k - 1);
        let c0 = default_cands(reg, visible, ty, name, k - 1);
        let c1 = default_cands(reg, visible, ty, name, k);
        assert forall|x: int| 0 <= x < c1.len() implies {
            let e = #[trigger] c1[x];
            &&& default_cond(reg, visible, ty, name, e.0 as int)
            &&& e == default_entry(reg, name, e.0 as int)
        } by {
            if default_cond(reg, visible, ty, name, k - 1) {
                assert(c1 == c0.push(default_entry(reg, name, k - 1)));
                if x < c0.len() {
                    assert(c1[x] == c0[x]);
                } else {
                    assert(c1[x] == default_entry(reg, name, k - 1));
                    assert(c1[x].0 as int == k - 1);
                }
            } else {
                assert(c1 == c0);
            }
        }
    }
}

/// Whether impl block `i` is an inherent hit for `ty` and `name`.
pub open spec fn inherent_cond(reg: TraitRegistry, ty: usize, name: Seq<char>, i: int) -> bool {
    &&& 0 <= i < reg.impls@.len()
    &&& reg.impls@[i].trait_symbol is None
    &&& reg.impls@[i].target_type == ty
    &&& def_from(reg.impls@[i].methods@, 0, name) is Some
}

/// Where no impl block qualifies, the inherent search finds nothing.
pub proof fn lemma_inherent_none(reg: TraitRegistry, k: int, ty: usize, name: Seq<char>)
    requires
        forall|i: int| !(#[trigger] inherent_cond(reg, ty, name, i)),
    ensures
        inherent_from(reg, k, ty, name) is None,
    decreases reg.impls@.len() - k,
{
    if 0 <= k < reg.impls@.len() {
        assert(!inherent_cond(reg, ty, name, k));
        lemma_inherent_none(reg, k + 1, ty, name);
    }
}

/// Where no impl block qualifies, no trait-impl candidate is collected.
pub proof fn lemma_timpl_cands_empty(reg: TraitRegistry, visible: Seq<usize>, ty: Option<usize>, name: Seq<char>, k: int)
    requires
        forall|i: int| !(#[trigger] timpl_cond(reg, visible, ty, name, i)),
    ensures
        timpl_cands(reg, visible, ty, name, k).len() == 0,
    decreases k,
{
    if k > 0 {
        assert(!timpl_cond(reg, visible, ty, name, k - 1));
        lemma_timpl_cands_empty(reg, visible, ty, name, k - 1);
    }
}

/// Where exactly one impl block qualifies, it is the one candidate.
pub proof fn lemma_timpl_cands_single(reg: TraitRegistry, visible: Seq<usize>, ty: Option<usize>, name: Seq<char>, k: int, i0: int)
    requires
        0 <= i0 < k,
        timpl_cond(reg, visible, ty, name, i0),
        forall|i: int| i != i0 ==> !(#[trigger] timpl_cond(reg, visible, ty, name, i)),
    ensures
        timpl_cands(reg, visible, ty, name, k) =~= seq![timpl_entry(reg, name, i0)],
    decreases k,
{
    if k - 1 == i0 {
        lemma_timpl_cands_empty_below(reg, visible, ty, name, k - 1, i0);
    } else {
        assert(!timpl_cond(reg, visible, ty, name, k - 1));
        lemma_timpl_cands_single(reg, visible, ty, name, k - 1, i0);
    }
}

proof fn lemma_timpl_cands_empty_below(reg: TraitRegistry, visible: Seq<usize>, ty: Option<usize>, name: Seq<char>, k: int, i0: int)
    requires
        k <= i0,
        forall|i: int| i != i0 ==> !(#[trigger] timpl_cond(reg, visible, ty, name, i)),
    ensures
        timpl_cands(reg, visible, ty, name, k).len() == 0,
    decreases k,
{
    if k > 0 {
        assert(!timpl_cond(reg, visible, ty, name, k - 1));
        lemma_timpl_cands_empty_below(reg, visible, ty, name, k - 1, i0);
    }
}

/// Where no trait qualifies, no default candidate is collected.
pub proof fn lemma_default_cands_empty(reg: TraitRegistry, visible: Seq<usize>, ty: Option<usize>, name: Seq<char>, k: int)
    requires
        forall|t: int| !(#[trigger] default_cond(reg, visible, ty, name, t)),
    ensures
        default_cands(reg, visible, ty, name, k).len() == 0,
    decreases k,
{
    if k > 0 {
        assert(!default_cond(reg, visible, ty, name, k - 1));
        lemma_default_cands_empty(reg, visible, ty, name, k - 1);
    }
}

/// Where exactly one trait qualifies, it is the one default candidate.
pub proof fn lemma_default_cands_single(reg: TraitRegistry, visible: Seq<usize>, ty: Option<usize>, name: Seq<char>, k: int, t0: int)
    requires
        0 <= t0 < k,
        default_cond(reg, visible, ty, name, t0),
        forall|t: int| t != t0 ==> !(#[trigger] default_cond(reg, visible, ty, name, t)),
    ensures
        default_cands(reg, visible, ty, name, k) =~= seq![default_entry(reg, name, t0)],
    decreases k,
{
    if k - 1 == t0 {
        lemma_default_cands_empty_below(reg, visible, ty, name, k - 1, t0);
    } else {
        assert(!default_cond(reg, visible, ty, name, k - 1));
        lemma_default_cands_single(reg, visible, ty, name, k - 1, t0);
    }
}

proof fn lemma_default_cands_empty_below(reg: TraitRegistry, visible: Seq<usize>, ty: Option<usize>, name: Seq<char>, k: int, t0: int)
    requires
        k <= t0,
        forall|t: int| t != t0 ==> !(#[trigger] default_cond(reg, visible, ty, name, t)),
    ensures
        default_cands(reg, visible, ty, name, k).len() == 0,
    decreases k,
{
    if k > 0 {
        assert(!default_cond(reg, visible, ty, name, k - 1));
        lemma_default_cands_empty_below(reg, visible, ty, name, k - 1, t0);
    }
}

/// Trait default fallback: when a visible trait declares `name` with a
/// default body, the receiver implements it, no impl block overrides the
/// method, no inherent method intervenes and no second default competes,
/// resolution lands on that trait's default.
pub proof fn lemma_default_fallback(reg: TraitRegistry, ty: usize, name: Seq<char>, visible: Seq<usize>, t: int)
    requires
        forall|i: int| !(#[trigger] inherent_cond(reg, ty, name, i)),
        forall|i: int| !(#[trigger] timpl_cond(reg, visible, Some(ty), name, i)),
        default_cond(reg, visible, Some(ty), name, t),
        forall|u: int| u != t ==> !(#[trigger] default_cond(reg, visible, Some(ty), name, u)),
    ensures
        spec_resolve_method(reg, Some(ty), name, visible) == Ok::<MethodTarget, ResolutionError>(MethodTarget::Default {
            trait_index: default_entry(reg, name, t).0,
            symbol: reg.traits@[t].methods@[default_entry(reg, name, t).1 as int].symbol,
        }),
{
    vstd::std_specs::vec::axiom_spec_len(&reg.traits);
    lemma_inherent_none(reg, 0, ty, name);
    lemma_timpl_cands_empty(reg, visible, Some(ty), name, reg.impls@.len() as int);
    lemma_default_cands_single(reg, visible, Some(ty), name, reg.traits@.len() as int, t);
    lemma_sig_from_some(reg.traits@[t].methods@, 0, name);
}

/// Override precedence: when one impl block of a visible trait supplies a
/// concrete body for `name` (and no inherent method intervenes), resolution
/// picks that body, never a default.
pub proof fn lemma_override_precedence(reg: TraitRegistry, ty: usize, name: Seq<char>, visible: Seq<usize>, i0: int)
    requires
        forall|i: int| !(#[trigger] inherent_cond(reg, ty, name, i)),
        timpl_cond(reg, visible, Some(ty), name, i0),
        forall|i: int| i != i0 ==> !(#[trigger] timpl_cond(reg, visible, Some(ty), name, i)),
    ensures
        spec_resolve_method(reg, Some(ty), name, visible) == Ok::<MethodTarget, ResolutionError>(MethodTarget::FromImpl {
            impl_index: timpl_entry(reg, name, i0).0,
            trait_index: timpl_entry(reg, name, i0).1,
            symbol: reg.impls@[i0].methods@[timpl_entry(reg, name, i0).2 as int].symbol,
        }),
{
    vstd::std_specs::vec::axiom_spec_len(&reg.impls);
    lemma_inherent_none(reg, 0, ty, name);
    lemma_timpl_cands_single(reg, visible, Some(ty), name, reg.impls@.len() as int, i0);
    lemma_def_from_some(reg.impls@[i0].methods@, 0, name);
}

/// A hit below `c0` stays a hit below any larger bound.
proof fn lemma_pred_below_hit(reg: TraitRegistry, a: int, b: int, k: int, c0: int, c: int)
    requires
        0 <= c0 < c,
        0 <= k,
        reach_in(reg, a, c0, k),
        edge(reg, c0, b),
    ensures
        pred_below(reg, a, b, k, c),
    decreases c,
{
    if c - 1 > c0 {
        lemma_pred_below_hit(reg, a, b, k, c0, c - 1);
    }
}

/// Reachability only grows with the step allowance.
pub proof fn lemma_reach_mono(reg: TraitRegistry, a: int, b: int, k1: int, k2: int)
    requires
        0 <= k1 <= k2,
        reach_in(reg, a, b, k1),
    ensures
        reach_in(reg, a, b, k2),
    decreases k2,
{
    if k2 > k1 {
        lemma_reach_mono(reg, a, b, k1, k2 - 1);
    }
}

/// A direct supertrait is in the closure.
pub proof fn lemma_edge_reach(reg: TraitRegistry, a: int, b: int)
    requires
        edge(reg, a, b),
    ensures
        sup_reach(reg, a, b),
{
    let n = reg.traits@.len() as int;
    lemma_pred_below_hit(reg, a, b, 0, a, n);
    assert(reach_in(reg, a, b, 1));
    lemma_reach_mono(reg, a, b, 1, n);
}

/// A trait reached by one visible entry is reached by the whole set.
proof fn lemma_vis_upto_mono(reg: TraitRegistry, visible: Seq<usize>, j: int, t: int, i: int)
    requires
        0 <= j < i <= visible.len(),
        match trait_index_of(reg, visible[j]) {
            Some(a) => sup_reach(reg, a, t),
            None => false,
        },
    ensures
        vis_reach_upto(reg, visible, i, t),
    decreases i,
{
    if i - 1 > j {
        lemma_vis_upto_mono(reg, visible, j, t, i - 1);
    }
}

/// Supertrait closure: when the call site lists `Sub` among its visible
/// traits and `Sub` names `Super` as a direct supertrait, `Super` counts as
/// visible too, so its methods and defaults are candidates.
pub proof fn lemma_supertrait_closure(reg: TraitRegistry, visible: Seq<usize>, j: int, sub: int, sup: int)
    requires
        0 <= j < visible.len(),
        trait_index_of(reg, visible[j]) == Some(sub),
        edge(reg, sub, sup),
    ensures
        vis_reach(reg, visible, sup),
{
    lemma_edge_reach(reg, sub, sup);
    lemma_vis_upto_mono(reg, visible, j, sup, visible.len() as int);
}

/// The closure at work in a resolution: a call through `Sub` alone reaches
/// `Super`'s default body when the receiver implements it, nothing
/// overrides the method, and no other default competes.
pub proof fn lemma_supertrait_default(reg: TraitRegistry, ty: usize, name: Seq<char>, visible: Seq<usize>, j: int, sub: int, sup: int)
    requires
        0 <= j < visible.len(),
        trait_index_of(reg, visible[j]) == Some(sub),
        edge(reg, sub, sup),
        forall|i: int| !(#[trigger] inherent_cond(reg, ty, name, i)),
        forall|i: int| !(#[trigger] timpl_cond(reg, visible, Some(ty), name, i)),
        impl_of_from(reg.impls@, 0, Some(ty), reg.traits@[sup].symbol) is Some,
        match sig_from(reg.traits@[sup].methods@, 0, name) {
            Some(mp) => reg.traits@[sup].methods@[mp].has_default,
            None => false,
        },
        forall|u: int| u != sup ==> !(#[trigger] default_cond(reg, visible, Some(ty), name, u)),
    ensures
        spec_resolve_method(reg, Some(ty), name, visible) == Ok::<MethodTarget, ResolutionError>(MethodTarget::Default {
            trait_index: default_entry(reg, name, sup).0,
            symbol: reg.traits@[sup].methods@[default_entry(reg, name, sup).1 as int].symbol,
        }),
{
    lemma_supertrait_closure(reg, visible, j, sub, sup);
    assert(default_cond(reg, visible, Some(ty), name, sup));
    lemma_default_fallback(reg, ty, name, visible, sup);
}

/// Whether some method name shared by `a` (at or after `j`) also occurs in
/// `b`: the overlap that makes two merged impl blocks a declaration error.
pub open spec fn share_def_name(a: Seq<MethodDef>, j: int, b: Seq<MethodDef>) -> bool
    decreases a.len() - j,
{
    if j < 0 || j >= a.len() {
        false
    } else {
        def_from(b, 0, a[j].name@) is Some || share_def_name(a, j + 1, b)
    }
}

/// Whether pushing an impl block with the given target, trait and methods
/// would redeclare a method that an earlier block for the same (type,
/// trait) pair already supplies.
pub open spec fn conflict_from(impls: Seq<ImplBlock>, k: int, target: usize, tsym: Option<usize>, ms: Seq<MethodDef>) -> bool
    decreases impls.len() - k,
{
    if k < 0 || k >= impls.len() {
        false
    } else {
        (impls[k].target_type == target && impls[k].trait_symbol == tsym && share_def_name(
            ms,
            0,
            impls[k].methods@,
        )) || conflict_from(impls, k + 1, target, tsym, ms)
    }
}

/// Linear scan for the first supplied method with the given name.
pub fn find_def(ms: &Vec<MethodDef>, name: &String) -> (r: Option<usize>)
    ensures
        match r {
            Some(mp) => def_from(ms@, 0, name@) == Some(mp as int) && (mp as int) < ms@.len(),
            None => def_from(ms@, 0, name@) is None,
        },
{
    let mut i: usize = 0;
    while i < ms.len()
        invariant
            0 <= i <= ms@.len(),
            def_from(ms@, 0, name@) == def_from(ms@, i as int, name@),
        decreases ms@.len() - i,
    {
        if ms[i].name == *name {
            return Some(i);
        }
        i += 1;
    }
    None
}

/// Linear scan for the first declared signature with the given name.
pub fn find_sig(ms: &Vec<MethodSig>, name: &String) -> (r: Option<usize>)
    ensures
        match r {
            Some(mp) => sig_from(ms@, 0, name@) == Some(mp as int) && (mp as int) < ms@.len(),
            None => sig_from(ms@, 0, name@) is None,
        },
{
    let mut i: usize = 0;
    while i < ms.len()
        invariant
            0 <= i <= ms@.len(),
            sig_from(ms@, 0, name@) == sig_from(ms@, i as int, name@),
        decreases ms@.len() - i,
    {
        if ms[i].name == *name {
            return Some(i);
        }
        i += 1;
    }
    None
}

/// Linear scan for a value in a vector of symbol ids.
fn contains_sym(xs: &Vec<usize>, v: usize) -> (r: bool)
    ensures
        r == contains_from(xs@, 0, v),
{
    let mut i: usize = 0;
    while i < xs.len()
        invariant
            0 <= i <= xs@.len(),
            contains_from(xs@, 0, v) == contains_from(xs@, i as int, v),
        decreases xs@.len() - i,
    {
        if xs[i] == v {
            return true;
        }
        i += 1;
    }
    false
}

impl TraitRegistry {
    pub fn new() -> (r: TraitRegistry)
        ensures
            r.traits@.len() == 0,
            r.impls@.len() == 0,
    {
        TraitRegistry { traits: Vec::new(), impls: Vec::new() }
    }

    /// Registers a trait declaration. Forward references among supertraits
    /// are legal: the acyclicity check runs once, after all traits are in.
    pub fn add_trait(&mut self, symbol: usize, supertraits: Vec<usize>, methods: Vec<MethodSig>)
        ensures
            final(self).traits@ == old(self).traits@.push(
                TraitDecl { symbol, supertraits, methods },
            ),
            final(self).impls == old(self).impls,
    {
        self.traits.push(TraitDecl { symbol, supertraits, methods });
    }

    /// Records an impl block. Blocks for the same (type, trait) pair are
    /// kept side by side and act as one merged block; a method name that an
    /// earlier block of the pair already supplies is a declaration error,
    /// and nothing changes.
    pub fn add_impl(&mut self, target_type: usize, trait_symbol: Option<usize>, methods: Vec<MethodDef>) -> (r: Result<
        (),
        ResolutionError,
    >)
        ensures
            match r {
                Ok(()) => {
                    &&& !conflict_from(old(self).impls@, 0, target_type, trait_symbol, methods@)
                    &&& final(self).impls@ == old(self).impls@.push(
                        ImplBlock { target_type, trait_symbol, methods },
                    )
                    &&& final(self).traits == old(self).traits
                },
                Err(e) => {
                    &&& e == ResolutionError::DuplicateDeclaration
                    &&& conflict_from(old(self).impls@, 0, target_type, trait_symbol, methods@)
                    &&& *final(self) == *old(self)
                },
            },
    {
        let mut k: usize = 0;
        while k < self.impls.len()
            invariant
                0 <= k <= self.impls@.len(),
                conflict_from(self.impls@, 0, target_type, trait_symbol, methods@) == conflict_from(
                    self.impls@,
                    k as int,
                    target_type,
                    trait_symbol,
                    methods@,
                ),
            decreases self.impls@.len() - k,
        {
            let same_pair = self.impls[k].target_type == target_type && match (
                self.impls[k].trait_symbol,
                trait_symbol,
            ) {
                (Some(x), Some(y)) => x == y,
                (None, None) => true,
                _ => false,
            };
            if same_pair {
                let mut j: usize = 0;
                while j < methods.len()
                    invariant
                        0 <= j <= methods@.len(),
                        k < self.impls@.len(),
                        self.impls@[k as int].target_type == target_type,
                        self.impls@[k as int].trait_symbol == trait_symbol,
                        conflict_from(self.impls@, 0, target_type, trait_symbol, methods@)
                            == conflict_from(self.impls@, k as int, target_type, trait_symbol, methods@),
                        share_def_name(methods@, 0, self.impls@[k as int].methods@)
                            == share_def_name(methods@, j as int, self.impls@[k as int].methods@),
                    decreases methods@.len() - j,
                {
                    if find_def(&self.impls[k].methods, &methods[j].name).is_some() {
                        proof {
                            assert(share_def_name(methods@, j as int, self.impls@[k as int].methods@));
                            assert(share_def_name(methods@, 0, self.impls@[k as int].methods@));
                            assert(conflict_from(
                                self.impls@,
                                k as int,
                                target_type,
                                trait_symbol,
                                methods@,
                            ));
                        }
                        return Err(ResolutionError::DuplicateDeclaration);
                    }
                    j += 1;
                }
                proof {
                    assert(!share_def_name(methods@, 0, self.impls@[k as int].methods@));
                }
            }
            k += 1;
        }
        self.impls.push(ImplBlock { target_type, trait_symbol, methods });
        Ok(())
    }

    /// Linear scan for the registry position of a trait symbol.
    fn find_trait_index(&self, sym: usize) -> (r: Option<usize>)
        ensures
            match r {
                Some(t) => trait_index_of(*self, sym) == Some(t as int) && (t as int) < self.traits@.len(),
                None => trait_index_of(*self, sym) is None,
            },
    {
        let mut i: usize = 0;
        while i < self.traits.len()
            invariant
                0 <= i <= self.traits@.len(),
                trait_index_of(*self, sym) == trait_index_from(self.traits@, i as int, sym),
            decreases self.traits@.len() - i,
        {
            if self.traits[i].symbol == sym {
                return Some(i);
            }
            i += 1;
        }
        None
    }

    /// Whether trait `a` lists trait `b` as a direct supertrait.
    fn edge_exec(&self, a: usize, b: usize) -> (r: bool)
        requires
            a < self.traits@.len(),
            b < self.traits@.len(),
        ensures
            r == edge(*self, a as int, b as int),
    {
        contains_sym(&self.traits[a].supertraits, self.traits[b].symbol)
    }

    /// One trait's supertrait closure as a row of booleans: `row[b]` says
    /// whether `a` reaches `b` along supertrait edges.
    fn reach_row(&self, a: usize) -> (row: Vec<bool>)
        requires
            a < self.traits@.len(),
        ensures
            row@.len() == self.traits@.len(),
            forall|b: int| 0 <= b < row@.len() ==> row@[b] == sup_reach(*self, a as int, b),
    {
        let n = self.traits.len();
        let mut row: Vec<bool> = vec![false; n];
        row[a] = true;
        proof {
            assert forall|b: int| 0 <= b < n implies row@[b] == reach_in(*self, a as int, b, 0int) by {}
        }
        let mut round: usize = 0;
        while round < n
            invariant
                0 <= round <= n,
                n == self.traits@.len(),
                row@.len() == n,
                forall|b: int| 0 <= b < n ==> row@[b] == reach_in(*self, a as int, b, round as int),
            decreases n - round,
        {
            let mut new_row: Vec<bool> = Vec::new();
            let mut b: usize = 0;
            while b < n
                invariant
                    0 <= b <= n,
                    round < n,
                    n == self.traits@.len(),
                    row@.len() == n,
                    forall|x: int| 0 <= x < n ==> row@[x] == reach_in(*self, a as int, x, round as int),
                    new_row@.len() == b,
                    forall|x: int|
                        0 <= x < b ==> new_row@[x] == reach_in(*self, a as int, x, round as int + 1),
                decreases n - b,
            {
                let mut hit = row[b];
                let mut c: usize = 0;
                while c < n
                    invariant
                        0 <= c <= n,
                        b < n,
                        round < n,
                        n == self.traits@.len(),
                        row@.len() == n,
                        forall|x: int|
                            0 <= x < n ==> row@[x] == reach_in(*self, a as int, x, round as int),
                        hit == (reach_in(*self, a as int, b as int, round as int) || pred_below(
                            *self,
                            a as int,
                            b as int,
                            round as int,
                            c as int,
                        )),
                    decreases n - c,
                {
                    if row[c] && self.edge_exec(c, b) {
                        hit = true;
                    }
                    c += 1;
                }
                proof {
                    assert(hit == reach_in(*self, a as int, b as int, round as int + 1));
                }
                new_row.push(hit);
                b += 1;
            }
            row = new_row;
            round += 1;
        }
        row
    }

    /// The union of the closures of every visible trait, as a row of
    /// booleans over registry positions.
    fn visible_closure(&self, visible: &Vec<usize>) -> (vc: Vec<bool>)
        ensures
            vc@.len() == self.traits@.len(),
            forall|t: int| 0 <= t < vc@.len() ==> vc@[t] == vis_reach(*self, visible@, t),
    {
        let n = self.traits.len();
        let mut vc: Vec<bool> = vec![false; n];
        proof {
            assert forall|t: int| 0 <= t < n implies vc@[t] == vis_reach_upto(*self, visible@, 0, t) by {}
        }
        let mut i: usize = 0;
        while i < visible.len()
            invariant
                0 <= i <= visible@.len(),
                n == self.traits@.len(),
                vc@.len() == n,
                forall|t: int| 0 <= t < n ==> vc@[t] == vis_reach_upto(*self, visible@, i as int, t),
            decreases visible@.len() - i,
        {
            match self.find_trait_index(visible[i]) {
                Some(a) => {
                    let row = self.reach_row(a);
                    let mut t: usize = 0;
                    while t < n
                        invariant
                            0 <= t <= n,
                            i < visible@.len(),
                            n == self.traits@.len(),
                            vc@.len() == n,
                            row@.len() == n,
                            trait_index_of(*self, visible@[i as int]) == Some(a as int),
                            forall|x: int|
                                0 <= x < n ==> row@[x] == sup_reach(*self, a as int, x),
                            forall|x: int|
                                t <= x < n ==> vc@[x] == vis_reach_upto(*self, visible@, i as int, x),
                            forall|x: int|
                                0 <= x < t ==> vc@[x] == vis_reach_upto(
                                    *self,
                                    visible@,
                                    i as int + 1,
                                    x,
                                ),
                        decreases n - t,
                    {
                        let merged = vc[t] || row[t];
                        vc[t] = merged;
                        t += 1;
                    }
                },
                None => {
                    proof {
                        assert forall|t: int| 0 <= t < n implies vc@[t] == vis_reach_upto(
                            *self,
                            visible@,
                            i as int + 1,
                            t,
                        ) by {}
                    }
                },
            }
            i += 1;
        }
        vc
    }

    /// Linear scan for the first inherent impl on `ty` supplying `name`.
    fn find_inherent(&self, ty: usize, name: &String) -> (r: Option<(usize, usize)>)
        ensures
            match r {
                Some(p) => {
                    &&& inherent_from(*self, 0, ty, name@) == Some((p.0 as int, p.1 as int))
                    &&& (p.0 as int) < self.impls@.len()
                    &&& (p.1 as int) < self.impls@[p.0 as int].methods@.len()
                },
                None => inherent_from(*self, 0, ty, name@) is None,
            },
    {
        let mut k: usize = 0;
        while k < self.impls.len()
            invariant
                0 <= k <= self.impls@.len(),
                inherent_from(*self, 0, ty, name@) == inherent_from(*self, k as int, ty, name@),
            decreases self.impls@.len() - k,
        {
            if self.impls[k].trait_symbol.is_none() && self.impls[k].target_type == ty {
                match find_def(&self.impls[k].methods, name) {
                    Some(mp) => {
                        return Some((k, mp));
                    },
                    None => {},
                }
            }
            k += 1;
        }
        None
    }

    /// Linear scan for the first impl of the trait with symbol `tsym` (for
    /// the given target, or any target).
    fn find_impl_of(&self, ty: Option<usize>, tsym: usize) -> (r: Option<usize>)
        ensures
            match r {
                Some(k) => impl_of_from(self.impls@, 0, ty, tsym) == Some(k as int),
                None => impl_of_from(self.impls@, 0, ty, tsym) is None,
            },
    {
        let mut k: usize = 0;
        while k < self.impls.len()
            invariant
                0 <= k <= self.impls@.len(),
                impl_of_from(self.impls@, 0, ty, tsym) == impl_of_from(self.impls@, k as int, ty, tsym),
            decreases self.impls@.len() - k,
        {
            let trait_match = match self.impls[k].trait_symbol {
                Some(x) => x == tsym,
                None => false,
            };
            let target_match = match ty {
                Some(x) => self.impls[k].target_type == x,
                None => true,
            };
            if trait_match && target_match {
                return Some(k);
            }
            k += 1;
        }
        None
    }

    /// Collects the trait-impl candidates, given the visible closure row.
    fn collect_timpl(&self, ty: Option<usize>, name: &String, vc: &Vec<bool>, Ghost(visible): Ghost<Seq<usize>>) -> (tc: Vec<
        (usize, usize, usize),
    >)
        requires
            vc@.len() == self.traits@.len(),
            forall|t: int| 0 <= t < vc@.len() ==> vc@[t] == vis_reach(*self, visible, t),
        ensures
            tc@ == timpl_cands(*self, visible, ty, name@, self.impls@.len() as int),
    {
        let mut tc: Vec<(usize, usize, usize)> = Vec::new();
        let mut k: usize = 0;
        while k < self.impls.len()
            invariant
                0 <= k <= self.impls@.len(),
                vc@.len() == self.traits@.len(),
                forall|t: int| 0 <= t < vc@.len() ==> vc@[t] == vis_reach(*self, visible, t),
                tc@ == timpl_cands(*self, visible, ty, name@, k as int),
            decreases self.impls@.len() - k,
        {
            let mut qualifies = false;
            let mut t_idx: usize = 0;
            match self.impls[k].trait_symbol {
                Some(tsym) => {
                    match self.find_trait_index(tsym) {
                        Some(t) => {
                            if vc[t] {
                                qualifies = true;
                                t_idx = t;
                            }
                        },
                        None => {},
                    }
                },
                None => {},
            }
            if qualifies {
                let target_ok = match ty {
                    Some(x) => self.impls[k].target_type == x,
                    None => true,
                };
                if target_ok {
                    match find_def(&self.impls[k].methods, name) {
                        Some(mp) => {
                            proof {
                                assert(timpl_cond(*self, visible, ty, name@, k as int));
                                assert(timpl_entry(*self, name@, k as int) == (k, t_idx, mp));
                            }
                            tc.push((k, t_idx, mp));
                        },
                        None => {
                            proof {
                                assert(!timpl_cond(*self, visible, ty, name@, k as int));
                            }
                        },
                    }
                } else {
                    proof {
                        assert(!timpl_cond(*self, visible, ty, name@, k as int));
                    }
                }
            } else {
                proof {
                    assert(!timpl_cond(*self, visible, ty, name@, k as int));
                }
            }
            k += 1;
        }
        tc
    }

    /// Collects the default-body candidates, given the visible closure row.
    fn collect_defaults(&self, ty: Option<usize>, name: &String, vc: &Vec<bool>, Ghost(visible): Ghost<Seq<usize>>) -> (dc: Vec<
        (usize, usize),
    >)
        requires
            vc@.len() == self.traits@.len(),
            forall|t: int| 0 <= t < vc@.len() ==> vc@[t] == vis_reach(*self, visible, t),
        ensures
            dc@ == default_cands(*self, visible, ty, name@, self.traits@.len() as int),
    {
        let mut dc: Vec<(usize, usize)> = Vec::new();
        let mut t: usize = 0;
        while t < self.traits.len()
            invariant
                0 <= t <= self.traits@.len(),
                vc@.len() == self.traits@.len(),
                forall|x: int| 0 <= x < vc@.len() ==> vc@[x] == vis_reach(*self, visible, x),
                dc@ == default_cands(*self, visible, ty, name@, t as int),
            decreases self.traits@.len() - t,
        {
            let mut live = false;
            let mut mp_idx: usize = 0;
            if vc[t] {
                if self.find_impl_of(ty, self.traits[t].symbol).is_some() {
                    match find_sig(&self.traits[t].methods, name) {
                        Some(mp) => {
                            if self.traits[t].methods[mp].has_default {
                                live = true;
                                mp_idx = mp;
                            }
                        },
                        None => {},
                    }
                }
            }
            if live {
                proof {
                    assert(default_cond(*self, visible, ty, name@, t as int));
                    assert(default_entry(*self, name@, t as int) == (t, mp_idx));
                }
                dc.push((t, mp_idx));
            } else {
                proof {
                    assert(!default_cond(*self, visible, ty, name@, t as int));
                }
            }
            t += 1;
        }
        dc
    }

    /// Shared resolution body for method calls and static calls.
    fn resolve_with(&self, ty: Option<usize>, name: &String, visible: &Vec<usize>) -> (r: Result<
        MethodTarget,
        ResolutionError,
    >)
        ensures
            r == spec_resolve_method(*self, ty, name@, visible@),
    {
        let inh = match ty {
            Some(x) => self.find_inherent(x, name),
            None => None,
        };
        match inh {
            Some(p) => Ok(MethodTarget::Inherent {
                impl_index: p.0,
                symbol: self.impls[p.0].methods[p.1].symbol,
            }),
            None => {
                let vc = self.visible_closure(visible);
                let tc = self.collect_timpl(ty, name, &vc, Ghost(visible@));
                if tc.len() == 1 {
                    let e = tc[0];
                    proof {
                        lemma_timpl_cands_elems(*self, visible@, ty, name@, self.impls@.len() as int);
                        assert(timpl_cond(*self, visible@, ty, name@, e.0 as int));
                        lemma_def_from_some(self.impls@[e.0 as int].methods@, 0, name@);
                    }
                    Ok(MethodTarget::FromImpl {
                        impl_index: e.0,
                        trait_index: e.1,
                        symbol: self.impls[e.0].methods[e.2].symbol,
                    })
                } else if tc.len() >= 2 {
                    Err(ResolutionError::AmbiguousMethod)
                } else {
                    let dc = self.collect_defaults(ty, name, &vc, Ghost(visible@));
                    if dc.len() == 1 {
                        let e = dc[0];
                        proof {
                            lemma_default_cands_elems(
                                *self,
                                visible@,
                                ty,
                                name@,
                                self.traits@.len() as int,
                            );
                            assert(default_cond(*self, visible@, ty, name@, e.0 as int));
                            lemma_sig_from_some(self.traits@[e.0 as int].methods@, 0, name@);
                        }
                        Ok(MethodTarget::Default {
                            trait_index: e.0,
                            symbol: self.traits[e.0].methods[e.1].symbol,
                        })
                    } else if dc.len() >= 2 {
                        Err(ResolutionError::AmbiguousMethod)
                    } else {
                        Err(ResolutionError::UnresolvedName)
                    }
                }
            },
        }
    }

    /// Resolves `receiver.name(..)`: the inherent method first, then a
    /// concrete body from an impl of a visible trait (supertraits count as
    /// visible), then a default body; two live candidates at one level are
    /// `AmbiguousMethod`.
    pub fn resolve_method(&self, receiver_type: usize, name: &String, visible: &Vec<usize>) -> (r: Result<
        MethodTarget,
        ResolutionError,
    >)
        ensures
            r == spec_resolve_method(*self, Some(receiver_type), name@, visible@),
    {
        self.resolve_with(Some(receiver_type), name, visible)
    }

    /// Resolves `Qualifier::name(..)` without a receiver value, reusing the
    /// same priority rules: a trait qualifier searches that trait and its
    /// supertraits over any implementing type; a type qualifier searches
    /// with every registered trait visible.
    pub fn resolve_static(&self, qualifier: usize, name: &String) -> (r: Result<
        MethodTarget,
        ResolutionError,
    >)
        ensures
            r == spec_resolve_static(*self, qualifier, name@),
    {
        if self.find_trait_index(qualifier).is_some() {
            let mut only: Vec<usize> = Vec::new();
            only.push(qualifier);
            proof {
                assert(only@ =~= seq![qualifier]);
            }
            self.resolve_with(None, name, &only)
        } else {
            let mut all: Vec<usize> = Vec::new();
            let mut i: usize = 0;
            while i < self.traits.len()
                invariant
                    0 <= i <= self.traits@.len(),
                    all@.len() == i,
                    forall|x: int| 0 <= x < i ==> all@[x] == self.traits@[x].symbol,
                decreases self.traits@.len() - i,
            {
                all.push(self.traits[i].symbol);
                i += 1;
            }
            proof {
                assert(all@ =~= all_trait_syms(*self));
            }
            self.resolve_with(Some(qualifier), name, &all)
        }
    }

    /// The one eager structural check: the supertrait graph must be
    /// acyclic, else no resolution priority order is sound. Run once after
    /// all traits are registered, before any method resolution.
    pub fn check_supertraits(&self) -> (r: Result<(), ResolutionError>)
        ensures
            match r {
                Ok(()) => !has_cycle(*self),
                Err(e) => e == ResolutionError::CyclicSupertrait && has_cycle(*self),
            },
    {
        let n = self.traits.len();
        let mut a: usize = 0;
        while a < n
            invariant
                0 <= a <= n,
                n == self.traits@.len(),
                forall|x: int, y: int|
                    0 <= x < a && #[trigger] edge(*self, x, y) ==> !sup_reach(*self, y, x),
            decreases n - a,
        {
            let mut b: usize = 0;
            while b < n
                invariant
                    0 <= b <= n,
                    a < n,
                    n == self.traits@.len(),
                    forall|x: int, y: int|
                        0 <= x < a && #[trigger] edge(*self, x, y) ==> !sup_reach(*self, y, x),
                    forall|y: int|
                        0 <= y < b && #[trigger] edge(*self, a as int, y) ==> !sup_reach(
                            *self,
                            y,
                            a as int,
                        ),
                decreases n - b,
            {
                if self.edge_exec(a, b) {
                    let row = self.reach_row(b);
                    if row[a] {
                        proof {
                            assert(edge(*self, a as int, b as int) && sup_reach(
                                *self,
                                b as int,
                                a as int,
                            ));
                        }
                        return Err(ResolutionError::CyclicSupertrait);
                    }
                }
                b += 1;
            }
            a += 1;
        }
        proof {
            assert forall|x: int, y: int| !(#[trigger] edge(*self, x, y) && sup_reach(*self, y, x)) by {
                if edge(*self, x, y) {
                    assert(0 <= x < n);
                }
            }
        }
        Ok(())
    }
}

} // verus!
