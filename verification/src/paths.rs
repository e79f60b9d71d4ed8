use vstd::prelude::*;

use crate::errors::ResolutionError;
use crate::index::{binding_at, nonglob_from, Index};
use crate::scopes::{ImportEdge, ScopeGraph};
use crate::symbols::{Namespace, SymbolKind, Visibility};

verus! {

/// Outcome of one lookup step. `Missing` means the scope had nothing to say
/// and the walk may continue outward; `Fail` stops the walk with an error.
#[derive(Clone, Copy, PartialEq, Eq, Structural, Debug)]
pub enum Resolution {
    Found(usize),
    Missing,
    Fail(ResolutionError),
}

/// First scope at or after position `k` that is the scope of module `sym`.
pub open spec fn module_scope_from(g: ScopeGraph, k: int, sym: usize) -> Option<int>
    decreases g.len() - k,
{
    if k < 0 || k >= g.len() {
        None
    } else if g.at(k).module_symbol == Some(sym) {
        Some(k)
    } else {
        module_scope_from(g, k + 1, sym)
    }
}

/// The scope that module `sym` owns, if any.
pub open spec fn scope_of_module(g: ScopeGraph, sym: usize) -> Option<int> {
    module_scope_from(g, 0, sym)
}

/// First binding at or after `k` that matches `name` in `ns` and whose
/// symbol is public: what a glob import can see of a module.
pub open spec fn pub_binding_from(idx: Index, bs: Seq<crate::scopes::Binding>, k: int, name: Seq<char>, ns: Namespace) -> Option<usize>
    decreases bs.len() - k,
{
    if k < 0 || k >= bs.len() {
        None
    } else if bs[k].name@ == name && bs[k].ns == ns && bs[k].symbol < idx.table.len()
        && idx.table.sym(bs[k].symbol as int).vis == Visibility::Public {
        Some(bs[k].symbol)
    } else {
        pub_binding_from(idx, bs, k + 1, name, ns)
    }
}

/// What one glob edge of scope `s` contributes for `name` in `ns`: the
/// public binding of the target module, when the edge's path resolves to a
/// module at all.
pub open spec fn glob_contrib(idx: Index, s: int, e: ImportEdge, name: Seq<char>, ns: Namespace, fuel: nat) -> Option<usize>
    decreases fuel, 0int, 0int,
{
    if fuel == 0 {
        None
    } else {
        match resolve_path_spec(idx, s, e.target_path@, Namespace::Type, (fuel - 1) as nat) {
            Resolution::Found(m) => if m < idx.table.len() && idx.table.sym(m as int).kind
                == SymbolKind::Module {
                match scope_of_module(idx.graph, m) {
                    Some(ms) => pub_binding_from(idx, idx.graph.at(ms).bindings@, 0, name, ns),
                    None => None,
                }
            } else {
                None
            },
            _ => None,
        }
    }
}

/// The symbols that the first `k` import edges of scope `s` glob-supply for
/// `name` in `ns`, in edge order.
pub open spec fn glob_hits_upto(idx: Index, s: int, k: int, name: Seq<char>, ns: Namespace, fuel: nat) -> Seq<usize>
    decreases fuel, 0int, k,
{
    if k <= 0 || s < 0 || s >= idx.graph.len() {
        Seq::empty()
    } else {
        let rest = glob_hits_upto(idx, s, k - 1, name, ns, fuel);
        if k > idx.graph.at(s).imports@.len() {
            rest
        } else {
            let e = idx.graph.at(s).imports@[k - 1];
            if e.is_glob {
                match glob_contrib(idx, s, e, name, ns, fuel) {
                    Some(sym) => rest.push(sym),
                    None => rest,
                }
            } else {
                rest
            }
        }
    }
}

/// What one scope has to say about `name` in `ns`, in priority order: a
/// directly declared symbol shadows a non-glob import, which shadows the
/// glob imports; two glob candidates with nothing overriding them are an
/// ambiguity, not an arbitrary pick.
pub open spec fn scope_rules(idx: Index, s: int, name: Seq<char>, ns: Namespace, fuel: nat) -> Resolution
    decreases fuel, 1int, 0int,
{
    if s < 0 || s >= idx.graph.len() {
        Resolution::Missing
    } else {
        match binding_at(idx.graph.at(s).bindings@, name, ns) {
            Some(sym) => Resolution::Found(sym),
            None => match nonglob_from(idx.graph.at(s).imports@, 0, name) {
                Some(k) => if fuel == 0 {
                    Resolution::Fail(ResolutionError::UnresolvedName)
                } else {
                    match resolve_path_spec(
                        idx,
                        s,
                        idx.graph.at(s).imports@[k].target_path@,
                        ns,
                        (fuel - 1) as nat,
                    ) {
                        Resolution::Found(sym) => Resolution::Found(sym),
                        Resolution::Fail(e) => Resolution::Fail(e),
                        Resolution::Missing => Resolution::Fail(ResolutionError::UnresolvedName),
                    }
                },
                None => {
                    let hits = glob_hits_upto(idx, s, idx.graph.at(s).imports@.len() as int, name, ns, fuel);
                    if hits.len() == 0 {
                        Resolution::Missing
                    } else if hits.len() == 1 {
                        Resolution::Found(hits[0])
                    } else {
                        Resolution::Fail(ResolutionError::AmbiguousGlob)
                    }
                },
            },
        }
    }
}

/// Walks outward through the parent links, stopping at the first scope with
/// an answer: the innermost binding shadows everything outside it.
pub open spec fn lookup_scope_chain(idx: Index, s: int, name: Seq<char>, ns: Namespace, fuel: nat) -> Resolution
    decreases fuel, 2int, s,
{
    if s < 0 || s >= idx.graph.len() {
        Resolution::Missing
    } else {
        match scope_rules(idx, s, name, ns, fuel) {
            Resolution::Missing => match idx.graph.at(s).parent {
                Some(p) => if p < s {
                    lookup_scope_chain(idx, p as int, name, ns, fuel)
                } else {
                    Resolution::Missing
                },
                None => Resolution::Missing,
            },
            r => r,
        }
    }
}

/// Steps through the path segments after the first one. Each step re-enters
/// module-declared-symbol lookup only: no outward walk and no imports, since
/// module paths are absolute within the found module.
pub open spec fn walk_segments(idx: Index, sym: usize, segs: Seq<String>, k: int, ns: Namespace) -> Resolution
    decreases segs.len() - k,
{
    if k >= segs.len() {
        Resolution::Found(sym)
    } else if !(sym < idx.table.len() && idx.table.sym(sym as int).kind == SymbolKind::Module) {
        Resolution::Fail(ResolutionError::UnresolvedName)
    } else {
        match scope_of_module(idx.graph, sym) {
            None => Resolution::Fail(ResolutionError::UnresolvedName),
            Some(ms) => {
                let segns = if k == segs.len() - 1 {
                    ns
                } else {
                    Namespace::Type
                };
                match binding_at(idx.graph.at(ms).bindings@, segs[k]@, segns) {
                    Some(next) => walk_segments(idx, next, segs, k + 1, ns),
                    None => Resolution::Fail(ResolutionError::UnresolvedName),
                }
            },
        }
    }
}

/// Resolution of a whole path from scope `s`: the first segment by the
/// outward walk (declared symbols, then non-glob imports, then globs), the
/// remaining segments inside the found module; the last segment is looked
/// up in `ns`, every earlier one among type-like names.
pub open spec fn resolve_path_spec(idx: Index, s: int, segs: Seq<String>, ns: Namespace, fuel: nat) -> Resolution
    decreases fuel, 3int, 0int,
{
    if segs.len() == 0 {
        Resolution::Fail(ResolutionError::UnresolvedName)
    } else {
        let first_ns = if segs.len() == 1 {
            ns
        } else {
            Namespace::Type
        };
        match lookup_scope_chain(idx, s, segs[0]@, first_ns, fuel) {
            Resolution::Found(sym) => if segs.len() == 1 {
                Resolution::Found(sym)
            } else {
                walk_segments(idx, sym, segs, 1, ns)
            },
            Resolution::Missing => Resolution::Fail(ResolutionError::UnresolvedName),
            Resolution::Fail(e) => Resolution::Fail(e),
        }
    }
}

/// Addition capped at the largest machine integer.
pub open spec fn cap_add(a: nat, b: nat) -> nat {
    if a + b <= usize::MAX {
        a + b
    } else {
        usize::MAX as nat
    }
}

/// Capped count of the import edges of the first `k` scopes.
pub open spec fn imports_upto(g: ScopeGraph, k: int) -> nat
    decreases k,
{
    if k <= 0 || k > g.len() {
        0
    } else {
        cap_add(imports_upto(g, k - 1), g.at(k - 1).imports@.len())
    }
}

/// The recursion allowance that public resolution runs with: one more than
/// the number of import edges in the whole graph, so that only a cyclic
/// import chain can exhaust it.
pub open spec fn resolve_fuel(idx: Index) -> nat {
    cap_add(imports_upto(idx.graph, idx.graph.len() as int), 1)
}

/// How a finished walk is reported: an exhausted walk is an unresolved
/// name.
pub open spec fn to_result(r: Resolution) -> Result<usize, ResolutionError> {
    match r {
        Resolution::Found(sym) => Ok(sym),
        Resolution::Missing => Err(ResolutionError::UnresolvedName),
        Resolution::Fail(e) => Err(e),
    }
}

/// The result `resolve_path` is specified against.
pub open spec fn path_result(idx: Index, s: int, segs: Seq<String>, ns: Namespace) -> Result<usize, ResolutionError> {
    to_result(resolve_path_spec(idx, s, segs, ns, resolve_fuel(idx)))
}

/// Shadowing: a scope that itself binds a name answers with that binding,
/// whatever any outer scope binds; and a lookup that starts outside such a
/// scope never sees its binding, because the outward walk only moves toward
/// the root.
pub proof fn lemma_block_shadowing(
    idx: Index,
    b: int,
    o: int,
    name: Seq<char>,
    ns: Namespace,
    sb: usize,
    so: usize,
    fuel: nat,
)
    requires
        idx.wf(),
        0 <= b < idx.graph.len(),
        0 <= o < idx.graph.len(),
        binding_at(idx.graph.at(b).bindings@, name, ns) == Some(sb),
        binding_at(idx.graph.at(o).bindings@, name, ns) == Some(so),
    ensures
        lookup_scope_chain(idx, b, name, ns, fuel) == Resolution::Found(sb),
        lookup_scope_chain(idx, o, name, ns, fuel) == Resolution::Found(so),
{
    assert(scope_rules(idx, b, name, ns, fuel) == Resolution::Found(sb));
    assert(scope_rules(idx, o, name, ns, fuel) == Resolution::Found(so));
}

/// A walk's outcome depends only on the segments still ahead of it.
pub proof fn lemma_walk_shift(
    idx: Index,
    sym: usize,
    u: Seq<String>,
    k: int,
    v: Seq<String>,
    j: int,
    ns: Namespace,
)
    requires
        0 <= k <= u.len(),
        0 <= j <= v.len(),
        u.len() - k == v.len() - j,
        forall|i: int| 0 <= i < u.len() - k ==> #[trigger] u[k + i] == v[j + i],
    ensures
        walk_segments(idx, sym, u, k, ns) == walk_segments(idx, sym, v, j, ns),
    decreases u.len() - k,
{
    if k < u.len() {
        assert(u[k + 0] == v[j + 0]);
        if sym < idx.table.len() && idx.table.sym(sym as int).kind == SymbolKind::Module {
            match scope_of_module(idx.graph, sym) {
                Some(ms) => {
                    let segns = if k == u.len() - 1 {
                        ns
                    } else {
                        Namespace::Type
                    };
                    match binding_at(idx.graph.at(ms).bindings@, u[k]@, segns) {
                        Some(next) => {
                            assert forall|i2: int| 0 <= i2 < u.len() - (k + 1) implies #[trigger] u[k
                                + 1 + i2] == v[j + 1 + i2] by {
                                assert(u[k + (i2 + 1)] == v[j + (i2 + 1)]);
                            }
                            lemma_walk_shift(idx, next, u, k + 1, v, j + 1, ns);
                        },
                        None => {},
                    }
                },
                None => {},
            }
        }
    }
}

/// A segment walk either finds a symbol or fails; it never hands the
/// question back to an outer scope.
pub proof fn lemma_walk_not_missing(idx: Index, sym: usize, segs: Seq<String>, k: int, ns: Namespace)
    ensures
        !(walk_segments(idx, sym, segs, k, ns) is Missing),
    decreases segs.len() - k,
{
    if k < segs.len() && sym < idx.table.len() && idx.table.sym(sym as int).kind
        == SymbolKind::Module {
        match scope_of_module(idx.graph, sym) {
            Some(ms) => {
                let segns = if k == segs.len() - 1 {
                    ns
                } else {
                    Namespace::Type
                };
                match binding_at(idx.graph.at(ms).bindings@, segs[k]@, segns) {
                    Some(next) => {
                        lemma_walk_not_missing(idx, next, segs, k + 1, ns);
                    },
                    None => {},
                }
            },
            None => {},
        }
    }
}

/// Walking a concatenated path is walking the first part among type-like
/// names and then the second part from the module the first part reached.
pub proof fn lemma_walk_append(
    idx: Index,
    sym: usize,
    p: Seq<String>,
    q: Seq<String>,
    k: int,
    ns: Namespace,
)
    requires
        0 <= k <= p.len(),
        q.len() >= 1,
    ensures
        walk_segments(idx, sym, p + q, k, ns) == (match walk_segments(idx, sym, p, k, Namespace::Type) {
            Resolution::Found(m) => walk_segments(idx, m, p + q, p.len() as int, ns),
            r => r,
        }),
    decreases p.len() - k,
{
    let pq = p + q;
    if k >= p.len() {
        assert(walk_segments(idx, sym, p, k, Namespace::Type) == Resolution::Found(sym));
    } else {
        assert(pq[k] == p[k]);
        if sym < idx.table.len() && idx.table.sym(sym as int).kind == SymbolKind::Module {
            match scope_of_module(idx.graph, sym) {
                Some(ms) => {
                    match binding_at(idx.graph.at(ms).bindings@, p[k]@, Namespace::Type) {
                        Some(next) => {
                            lemma_walk_append(idx, next, p, q, k + 1, ns);
                        },
                        None => {},
                    }
                },
                None => {},
            }
        }
    }
}

/// Alias idempotence: a path whose first segment is bound by a non-glob
/// import resolves exactly as the path with the alias replaced by the
/// import's target, at one recursion step less. `use sub::sub2 as msalias`
/// makes `msalias::nested_struct` and `sub::sub2::nested_struct` the same
/// symbol.
pub proof fn lemma_alias_idempotent(
    idx: Index,
    s: int,
    segs: Seq<String>,
    k: int,
    ns: Namespace,
    fuel: nat,
)
    requires
        idx.wf(),
        0 <= s < idx.graph.len(),
        segs.len() >= 2,
        fuel >= 1,
        binding_at(idx.graph.at(s).bindings@, segs[0]@, Namespace::Type) is None,
        nonglob_from(idx.graph.at(s).imports@, 0, segs[0]@) == Some(k),
        0 <= k < idx.graph.at(s).imports@.len(),
        idx.graph.at(s).imports@[k].target_path@.len() >= 1,
    ensures
        resolve_path_spec(idx, s, segs, ns, fuel) == resolve_path_spec(
            idx,
            s,
            idx.graph.at(s).imports@[k].target_path@ + segs.subrange(1, segs.len() as int),
            ns,
            (fuel - 1) as nat,
        ),
{
    let p = idx.graph.at(s).imports@[k].target_path@;
    let q = segs.subrange(1, segs.len() as int);
    let pq = p + q;
    let f1 = (fuel - 1) as nat;
    assert(q.len() == segs.len() - 1);
    assert(pq.len() >= 2);
    assert(pq[0] == p[0]);
    let c = lookup_scope_chain(idx, s, p[0]@, Namespace::Type, f1);
    let r = resolve_path_spec(idx, s, p, Namespace::Type, f1);
    match c {
        Resolution::Found(sym0) => {
            lemma_walk_not_missing(idx, sym0, p, 1, Namespace::Type);
            if p.len() == 1 {
                assert(r == Resolution::Found(sym0));
                assert(walk_segments(idx, sym0, p, 1, Namespace::Type) == Resolution::Found(sym0));
            }
            match r {
                Resolution::Found(m) => {
                    lemma_walk_append(idx, sym0, p, q, 1, ns);
                    assert(walk_segments(idx, sym0, p, 1, Namespace::Type) == Resolution::Found(m));
                    assert forall|i: int| 0 <= i < segs.len() - 1 implies #[trigger] segs[1 + i]
                        == pq[p.len() + i] by {
                        assert(q[i] == segs[1 + i]);
                        assert(pq[p.len() + i] == q[i]);
                    }
                    lemma_walk_shift(idx, m, segs, 1, pq, p.len() as int, ns);
                },
                _ => {
                    lemma_walk_append(idx, sym0, p, q, 1, ns);
                },
            }
        },
        _ => {},
    }
}

/// Two glob imports that both supply a name leave at least that many
/// candidates standing.
proof fn lemma_glob_hits_at_least_one(
    idx: Index,
    s: int,
    name: Seq<char>,
    ns: Namespace,
    fuel: nat,
    k: int,
    k1: int,
)
    requires
        0 <= s < idx.graph.len(),
        0 <= k1 < k <= idx.graph.at(s).imports@.len(),
        idx.graph.at(s).imports@[k1].is_glob,
        glob_contrib(idx, s, idx.graph.at(s).imports@[k1], name, ns, fuel) is Some,
    ensures
        glob_hits_upto(idx, s, k, name, ns, fuel).len() >= 1,
    decreases k,
{
    if k - 1 > k1 {
        lemma_glob_hits_at_least_one(idx, s, name, ns, fuel, k - 1, k1);
    }
}

proof fn lemma_glob_hits_at_least_two(
    idx: Index,
    s: int,
    name: Seq<char>,
    ns: Namespace,
    fuel: nat,
    k: int,
    k1: int,
    k2: int,
)
    requires
        0 <= s < idx.graph.len(),
        0 <= k1 < k2 < k <= idx.graph.at(s).imports@.len(),
        idx.graph.at(s).imports@[k1].is_glob,
        idx.graph.at(s).imports@[k2].is_glob,
        glob_contrib(idx, s, idx.graph.at(s).imports@[k1], name, ns, fuel) is Some,
        glob_contrib(idx, s, idx.graph.at(s).imports@[k2], name, ns, fuel) is Some,
    ensures
        glob_hits_upto(idx, s, k, name, ns, fuel).len() >= 2,
    decreases k,
{
    if k - 1 > k2 {
        lemma_glob_hits_at_least_two(idx, s, name, ns, fuel, k - 1, k1, k2);
    } else {
        lemma_glob_hits_at_least_one(idx, s, name, ns, fuel, k - 1, k1);
    }
}

/// Ambiguous glob: when two distinct glob imports both supply a name, and
/// neither a declaration nor a non-glob import overrides them, the lookup
/// fails with `AmbiguousGlob` rather than picking one of the two.
pub proof fn lemma_ambiguous_glob(
    idx: Index,
    s: int,
    name: Seq<char>,
    ns: Namespace,
    fuel: nat,
    k1: int,
    k2: int,
)
    requires
        idx.wf(),
        0 <= s < idx.graph.len(),
        binding_at(idx.graph.at(s).bindings@, name, ns) is None,
        nonglob_from(idx.graph.at(s).imports@, 0, name) is None,
        0 <= k1 < k2 < idx.graph.at(s).imports@.len(),
        idx.graph.at(s).imports@[k1].is_glob,
        idx.graph.at(s).imports@[k2].is_glob,
        glob_contrib(idx, s, idx.graph.at(s).imports@[k1], name, ns, fuel) is Some,
        glob_contrib(idx, s, idx.graph.at(s).imports@[k2], name, ns, fuel) is Some,
    ensures
        lookup_scope_chain(idx, s, name, ns, fuel) == Resolution::Fail(
            ResolutionError::AmbiguousGlob,
        ),
{
    lemma_glob_hits_at_least_two(
        idx,
        s,
        name,
        ns,
        fuel,
        idx.graph.at(s).imports@.len() as int,
        k1,
        k2,
    );
    assert(scope_rules(idx, s, name, ns, fuel) == Resolution::Fail(ResolutionError::AmbiguousGlob));
}

impl Index {
    /// Linear scan for the scope a module symbol owns.
    fn find_module_scope(&self, sym: usize) -> (r: Option<usize>)
        ensures
            match r {
                Some(u) => scope_of_module(self.graph, sym) == Some(u as int) && (u as int) < self.graph.len(),
                None => scope_of_module(self.graph, sym) is None,
            },
    {
        let mut i: usize = 0;
        while i < self.graph.scopes.len()
            invariant
                0 <= i <= self.graph.len(),
                scope_of_module(self.graph, sym) == module_scope_from(self.graph, i as int, sym),
            decreases self.graph.len() - i,
        {
            if self.graph.scopes[i].module_symbol.is_some() {
                let m = self.graph.scopes[i].module_symbol.unwrap();
                if m == sym {
                    return Some(i);
                }
            }
            i += 1;
        }
        None
    }

    /// Linear scan for the first public binding of `name` in `ns` within the
    /// bindings of scope `ms`.
    fn find_pub_binding(&self, ms: usize, name: &String, ns: Namespace) -> (r: Option<usize>)
        requires
            self.wf(),
            ms < self.graph.len(),
        ensures
            r == pub_binding_from(*self, self.graph.at(ms as int).bindings@, 0, name@, ns),
    {
        let bs = &self.graph.scopes[ms].bindings;
        let mut i: usize = 0;
        while i < bs.len()
            invariant
                0 <= i <= bs@.len(),
                self.wf(),
                ms < self.graph.len(),
                bs == &self.graph.at(ms as int).bindings,
                pub_binding_from(*self, bs@, 0, name@, ns) == pub_binding_from(
                    *self,
                    bs@,
                    i as int,
                    name@,
                    ns,
                ),
            decreases bs@.len() - i,
        {
            if bs[i].name == *name && bs[i].ns == ns {
                let sym = bs[i].symbol;
                if self.table.get(sym).vis == Visibility::Public {
                    return Some(sym);
                }
            }
            i += 1;
        }
        None
    }

    /// The glob candidates of scope `s` for `name`, in edge order.
    fn glob_hits(&self, s: usize, name: &String, ns: Namespace, fuel: usize) -> (hits: Vec<usize>)
        requires
            self.wf(),
            s < self.graph.len(),
        ensures
            hits@ == glob_hits_upto(
                *self,
                s as int,
                self.graph.at(s as int).imports@.len() as int,
                name@,
                ns,
                fuel as nat,
            ),
        decreases fuel, 1int, 0int,
    {
        let mut hits: Vec<usize> = Vec::new();
        let n = self.graph.scopes[s].imports.len();
        let mut k: usize = 0;
        while k < n
            invariant
                0 <= k <= n,
                self.wf(),
                s < self.graph.len(),
                n == self.graph.at(s as int).imports@.len(),
                hits@ == glob_hits_upto(*self, s as int, k as int, name@, ns, fuel as nat),
            decreases n - k,
        {
            let e = &self.graph.scopes[s].imports[k];
            if e.is_glob {
                match self.glob_contrib_exec(s, e, name, ns, fuel) {
                    Some(sym) => {
                        hits.push(sym);
                    },
                    None => {},
                }
            }
            k += 1;
        }
        hits
    }

    /// Executable twin of [`glob_contrib`]: what one glob edge supplies.
    fn glob_contrib_exec(&self, s: usize, e: &ImportEdge, name: &String, ns: Namespace, fuel: usize) -> (r: Option<usize>)
        requires
            self.wf(),
            s < self.graph.len(),
        ensures
            r == glob_contrib(*self, s as int, *e, name@, ns, fuel as nat),
        decreases fuel, 0int, 0int,
    {
        if fuel == 0 {
            return None;
        }
        let tr = self.resolve_path_walk(s, &e.target_path, Namespace::Type, fuel - 1);
        match tr {
            Resolution::Found(m) => {
                if m < self.table.symbols.len() && self.table.get(m).kind == SymbolKind::Module {
                    match self.find_module_scope(m) {
                        Some(ms) => self.find_pub_binding(ms, name, ns),
                        None => None,
                    }
                } else {
                    None
                }
            },
            _ => None,
        }
    }

    /// One scope's answer, in priority order: declared symbol, non-glob
    /// import, glob imports.
    fn scope_rules_walk(&self, s: usize, name: &String, ns: Namespace, fuel: usize) -> (r: Resolution)
        requires
            self.wf(),
            s < self.graph.len(),
        ensures
            r == scope_rules(*self, s as int, name@, ns, fuel as nat),
        decreases fuel, 2int, 0int,
    {
        match crate::index::find_binding(&self.graph.scopes[s].bindings, name, ns) {
            Some(sym) => Resolution::Found(sym),
            None => {
                match crate::index::find_nonglob(&self.graph.scopes[s].imports, name) {
                    Some(k) => {
                        if fuel == 0 {
                            Resolution::Fail(ResolutionError::UnresolvedName)
                        } else {
                            let e = &self.graph.scopes[s].imports[k];
                            let tr = self.resolve_path_walk(s, &e.target_path, ns, fuel - 1);
                            match tr {
                                Resolution::Found(sym) => Resolution::Found(sym),
                                Resolution::Fail(e2) => Resolution::Fail(e2),
                                Resolution::Missing => Resolution::Fail(ResolutionError::UnresolvedName),
                            }
                        }
                    },
                    None => {
                        let hits = self.glob_hits(s, name, ns, fuel);
                        if hits.len() == 0 {
                            Resolution::Missing
                        } else if hits.len() == 1 {
                            Resolution::Found(hits[0])
                        } else {
                            Resolution::Fail(ResolutionError::AmbiguousGlob)
                        }
                    },
                }
            },
        }
    }

    /// The outward walk for one name.
    fn lookup_chain_walk(&self, s: usize, name: &String, ns: Namespace, fuel: usize) -> (r: Resolution)
        requires
            self.wf(),
            s < self.graph.len(),
        ensures
            r == lookup_scope_chain(*self, s as int, name@, ns, fuel as nat),
        decreases fuel, 3int, s,
    {
        let here = self.scope_rules_walk(s, name, ns, fuel);
        match here {
            Resolution::Missing => {
                match self.graph.scopes[s].parent {
                    Some(p) => {
                        if p < s {
                            self.lookup_chain_walk(p, name, ns, fuel)
                        } else {
                            Resolution::Missing
                        }
                    },
                    None => Resolution::Missing,
                }
            },
            r => r,
        }
    }

    /// Walks the segments after the first inside the found module chain.
    fn walk_segments_exec(&self, sym: usize, segs: &Vec<String>, k: usize, ns: Namespace) -> (r: Resolution)
        requires
            self.wf(),
            k <= segs@.len(),
        ensures
            r == walk_segments(*self, sym, segs@, k as int, ns),
    {
        let mut cur = sym;
        let mut i = k;
        while i < segs.len()
            invariant
                k <= i <= segs@.len(),
                self.wf(),
                walk_segments(*self, sym, segs@, k as int, ns) == walk_segments(
                    *self,
                    cur,
                    segs@,
                    i as int,
                    ns,
                ),
            decreases segs@.len() - i,
        {
            if !(cur < self.table.symbols.len()) {
                return Resolution::Fail(ResolutionError::UnresolvedName);
            }
            if !(self.table.get(cur).kind == SymbolKind::Module) {
                return Resolution::Fail(ResolutionError::UnresolvedName);
            }
            match self.find_module_scope(cur) {
                None => {
                    return Resolution::Fail(ResolutionError::UnresolvedName);
                },
                Some(ms) => {
                    let segns = if i == segs.len() - 1 {
                        ns
                    } else {
                        Namespace::Type
                    };
                    match self.lookup_in_scope(ms, &segs[i], segns) {
                        Some(next) => {
                            cur = next;
                        },
                        None => {
                            return Resolution::Fail(ResolutionError::UnresolvedName);
                        },
                    }
                },
            }
            i += 1;
        }
        Resolution::Found(cur)
    }

    /// The full path walk at a given recursion allowance.
    fn resolve_path_walk(&self, s: usize, segs: &Vec<String>, ns: Namespace, fuel: usize) -> (r: Resolution)
        requires
            self.wf(),
            s < self.graph.len(),
        ensures
            r == resolve_path_spec(*self, s as int, segs@, ns, fuel as nat),
        decreases fuel, 4int, 0int,
    {
        if segs.len() == 0 {
            return Resolution::Fail(ResolutionError::UnresolvedName);
        }
        let first_ns = if segs.len() == 1 {
            ns
        } else {
            Namespace::Type
        };
        let first = self.lookup_chain_walk(s, &segs[0], first_ns, fuel);
        match first {
            Resolution::Found(sym) => {
                if segs.len() == 1 {
                    Resolution::Found(sym)
                } else {
                    self.walk_segments_exec(sym, segs, 1, ns)
                }
            },
            Resolution::Missing => Resolution::Fail(ResolutionError::UnresolvedName),
            Resolution::Fail(e) => Resolution::Fail(e),
        }
    }

    /// The recursion allowance the public entry point runs with.
    fn import_fuel(&self) -> (fuel: usize)
        ensures
            fuel as nat == resolve_fuel(*self),
    {
        let mut acc: usize = 0;
        let mut i: usize = 0;
        while i < self.graph.scopes.len()
            invariant
                0 <= i <= self.graph.len(),
                acc as nat == imports_upto(self.graph, i as int),
            decreases self.graph.len() - i,
        {
            let l = self.graph.scopes[i].imports.len();
            if acc <= usize::MAX - l {
                acc = acc + l;
            } else {
                acc = usize::MAX;
            }
            i += 1;
        }
        if acc < usize::MAX {
            acc + 1
        } else {
            acc
        }
    }

    /// Resolves a whole path. An absolute path (one with the explicit
    /// crate-root marker) starts at the root scope; a relative one starts at
    /// `scope` and walks outward. Returns the symbol every segment binds to,
    /// `UnresolvedName` if any segment fails, and `AmbiguousGlob` if two
    /// glob imports supply the first segment with no local override.
    pub fn resolve_path(&self, scope: usize, segs: &Vec<String>, ns: Namespace, absolute: bool) -> (r: Result<
        usize,
        ResolutionError,
    >)
        requires
            self.wf(),
            scope < self.graph.len(),
        ensures
            r == path_result(
                *self,
                if absolute {
                    0int
                } else {
                    scope as int
                },
                segs@,
                ns,
            ),
    {
        let fuel = self.import_fuel();
        let start = if absolute {
            0
        } else {
            scope
        };
        let walk = self.resolve_path_walk(start, segs, ns, fuel);
        match walk {
            Resolution::Found(sym) => Ok(sym),
            Resolution::Missing => Err(ResolutionError::UnresolvedName),
            Resolution::Fail(e) => Err(e),
        }
    }
}

} // verus!
