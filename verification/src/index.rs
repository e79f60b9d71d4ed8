use vstd::prelude::*;

use crate::errors::ResolutionError;
use crate::scopes::{Binding, ImportEdge, Scope, ScopeGraph, ScopeKind};
use crate::symbols::{namespace_of, namespace_of_kind, Namespace, Symbol, SymbolKind, SymbolTable, Visibility};

verus! {

/// First binding in `bs` at or after position `k` that carries `name` in
/// namespace `ns`; lookup stops at the first match and never merges.
pub open spec fn binding_from(bs: Seq<Binding>, k: int, name: Seq<char>, ns: Namespace) -> Option<usize>
    decreases bs.len() - k,
{
    if k < 0 || k >= bs.len() {
        None
    } else if bs[k].name@ == name && bs[k].ns == ns {
        Some(bs[k].symbol)
    } else {
        binding_from(bs, k + 1, name, ns)
    }
}

/// The symbol a scope binds directly under `name` in `ns`, if any.
pub open spec fn binding_at(bs: Seq<Binding>, name: Seq<char>, ns: Namespace) -> Option<usize> {
    binding_from(bs, 0, name, ns)
}

/// First non-glob import edge at or after position `k` whose local name is
/// `name`.
pub open spec fn nonglob_from(imps: Seq<ImportEdge>, k: int, name: Seq<char>) -> Option<int>
    decreases imps.len() - k,
{
    if k < 0 || k >= imps.len() {
        None
    } else if !imps[k].is_glob && imps[k].local_name@ == name {
        Some(k)
    } else {
        nonglob_from(imps, k + 1, name)
    }
}

/// Appending a binding to a scope that does not yet bind `name` makes the
/// new binding the one that lookup finds.
pub proof fn lemma_binding_at_push(bs: Seq<Binding>, b: Binding, name: Seq<char>, ns: Namespace)
    requires
        binding_at(bs, name, ns) is None,
    ensures
        binding_at(bs.push(b), name, ns) == (if b.name@ == name && b.ns == ns {
            Some(b.symbol)
        } else {
            None::<usize>
        }),
{
    lemma_binding_from_push(bs, b, name, ns, 0);
}

proof fn lemma_binding_from_push(bs: Seq<Binding>, b: Binding, name: Seq<char>, ns: Namespace, k: int)
    requires
        0 <= k <= bs.len(),
        binding_from(bs, k, name, ns) is None,
    ensures
        binding_from(bs.push(b), k, name, ns) == (if b.name@ == name && b.ns == ns {
            Some(b.symbol)
        } else {
            None::<usize>
        }),
    decreases bs.len() - k,
{
    if k == bs.len() {
        assert(bs.push(b)[k] == b);
    } else {
        assert(bs.push(b)[k] == bs[k]);
        lemma_binding_from_push(bs, b, name, ns, k + 1);
    }
}

/// Well-formedness survives a change that touches one scope, keeps its
/// parent and module link, only appends bindings whose symbols are in range,
/// and never shrinks the symbol table.
proof fn lemma_wf_after_scope_change(pre: Index, post: Index, scope: int)
    requires
        pre.wf(),
        post.table.wf(),
        post.table.len() >= pre.table.len(),
        post.graph.len() == pre.graph.len(),
        0 <= scope < pre.graph.len(),
        forall|t: int|
            0 <= t < pre.graph.len() && t != scope ==> #[trigger] post.graph.at(t) == pre.graph.at(t),
        post.graph.at(scope).parent == pre.graph.at(scope).parent,
        post.graph.at(scope).module_symbol == pre.graph.at(scope).module_symbol,
        post.graph.at(scope).bindings@.len() >= pre.graph.at(scope).bindings@.len(),
        forall|i: int|
            0 <= i < pre.graph.at(scope).bindings@.len()
                ==> #[trigger] post.graph.at(scope).bindings@[i] == pre.graph.at(scope).bindings@[i],
        forall|i: int|
            pre.graph.at(scope).bindings@.len() <= i < post.graph.at(scope).bindings@.len()
                ==> (#[trigger] post.graph.at(scope).bindings@[i]).symbol < post.table.len(),
    ensures
        post.wf(),
{
    assert(post.graph.at(0).parent == pre.graph.at(0).parent);
    assert forall|i: int| 1 <= i < post.graph.len() implies match (#[trigger] post.graph.scopes@[i]).parent {
        Some(p) => p < i,
        None => false,
    } by {
        assert(post.graph.at(i).parent == pre.graph.at(i).parent);
    }
    assert forall|t: int, b: int|
        0 <= t < post.graph.len() && 0 <= b < post.graph.at(t).bindings@.len() implies (
    #[trigger] post.graph.at(t).bindings@[b]).symbol < post.table.len() by {
        if t != scope {
            assert(post.graph.at(t) == pre.graph.at(t));
            assert(pre.graph.at(t).bindings@[b].symbol < pre.table.len());
        } else {
            if b < pre.graph.at(scope).bindings@.len() {
                assert(post.graph.at(scope).bindings@[b] == pre.graph.at(scope).bindings@[b]);
                assert(pre.graph.at(scope).bindings@[b].symbol < pre.table.len());
            }
        }
    }
    assert forall|t: int| 0 <= t < post.graph.len() implies match (#[trigger] post.graph.at(
        t,
    )).module_symbol {
        Some(m) => m < post.table.len(),
        None => true,
    } by {
        assert(post.graph.at(t).module_symbol == pre.graph.at(t).module_symbol);
        if t != scope {
            assert(post.graph.at(t) == pre.graph.at(t));
        }
    }
}

/// The symbol table and the scope graph of one crate, built by a single pass
/// over its declarations and then read by the resolver.
pub struct Index {
    pub table: SymbolTable,
    pub graph: ScopeGraph,
}

impl Index {
    /// Well-formedness: the table numbers its symbols by position, the scope
    /// tree points outward to smaller indices, and every id a scope holds is
    /// a real symbol.
    pub open spec fn wf(self) -> bool {
        &&& self.table.wf()
        &&& self.graph.wf()
        &&& forall|s: int, b: int|
            0 <= s < self.graph.len() && 0 <= b < self.graph.at(s).bindings@.len()
                ==> (#[trigger] self.graph.at(s).bindings@[b]).symbol < self.table.len()
        &&& forall|s: int|
            0 <= s < self.graph.len() ==> match (#[trigger] self.graph.at(s)).module_symbol {
                Some(m) => m < self.table.len(),
                None => true,
            }
    }

    /// A fresh index: no symbols, and only the crate-root scope.
    pub fn new() -> (idx: Index)
        ensures
            idx.wf(),
            idx.table.len() == 0,
            idx.graph.len() == 1,
            idx.graph.at(0).bindings@.len() == 0,
            idx.graph.at(0).imports@.len() == 0,
    {
        Index { table: SymbolTable::new(), graph: ScopeGraph::new() }
    }

    /// Adds an empty child scope (a block, a function body, or the scope of
    /// a module whose symbol is linked afterwards) and returns its id.
    pub fn new_scope(&mut self, parent: usize, kind: ScopeKind, module_symbol: Option<usize>) -> (s: usize)
        requires
            old(self).wf(),
            parent < old(self).graph.len(),
            old(self).graph.len() < usize::MAX,
            match module_symbol {
                Some(m) => m < old(self).table.len(),
                None => true,
            },
        ensures
            final(self).wf(),
            s == old(self).graph.len(),
            final(self).table == old(self).table,
            final(self).graph.scopes@ == old(self).graph.scopes@.push(
                final(self).graph.at(s as int),
            ),
            final(self).graph.at(s as int).parent == Some(parent),
            final(self).graph.at(s as int).kind == kind,
            final(self).graph.at(s as int).module_symbol == module_symbol,
            final(self).graph.at(s as int).bindings@.len() == 0,
            final(self).graph.at(s as int).imports@.len() == 0,
    {
        let s = self.graph.scopes.len();
        let sc = Scope {
            parent: Some(parent),
            kind,
            module_symbol,
            bindings: Vec::new(),
            imports: Vec::new(),
        };
        let ghost gsc = sc;
        self.graph.scopes.push(sc);
        proof {
            assert(self.graph.scopes@[s as int] == gsc);
            assert(gsc.bindings@.len() == 0);
            let g0 = old(self).graph;
            let g1 = self.graph;
            assert forall|i: int| 1 <= i < g1.len() implies match (#[trigger] g1.scopes@[i]).parent {
                Some(p) => p < i,
                None => false,
            } by {
                if i < g0.len() {
                    assert(g1.scopes@[i] == g0.scopes@[i]);
                }
            }
            assert(g1.scopes@[0] == g0.scopes@[0]);
            assert forall|t: int, b: int|
                0 <= t < g1.len() && 0 <= b < g1.at(t).bindings@.len() implies (#[trigger] g1.at(
                t,
            ).bindings@[b]).symbol < self.table.len() by {
                if t < g0.len() {
                    assert(g1.at(t) == g0.at(t));
                    assert(g0.at(t).bindings@[b].symbol < old(self).table.len());
                } else {
                    assert(g1.at(t) == gsc);
                }
            }
            assert forall|t: int| 0 <= t < g1.len() implies match (#[trigger] g1.at(t)).module_symbol {
                Some(m) => m < self.table.len(),
                None => true,
            } by {
                if t < g0.len() {
                    assert(g1.at(t) == g0.at(t));
                    assert(match g0.at(t).module_symbol {
                        Some(m) => m < old(self).table.len(),
                        None => true,
                    });
                } else {
                    assert(g1.at(t) == gsc);
                }
            }
        }
        s
    }

    /// Declares a symbol in `scope`. The name must be free in the symbol's
    /// namespace there; a second declaration is refused and changes nothing.
    /// On success the fresh symbol is immediately the one that scope-local
    /// lookup returns.
    pub fn declare(
        &mut self,
        scope: usize,
        name: String,
        kind: SymbolKind,
        vis: Visibility,
    ) -> (r: Result<usize, ResolutionError>)
        requires
            old(self).wf(),
            scope < old(self).graph.len(),
            old(self).table.len() < usize::MAX,
        ensures
            final(self).wf(),
            match r {
                Ok(id) => {
                    &&& binding_at(old(self).graph.at(scope as int).bindings@, name@, namespace_of(kind)) is None
                    &&& id == old(self).table.len()
                    &&& final(self).table.symbols@ == old(self).table.symbols@.push(
                        Symbol { id, kind, name, scope, vis },
                    )
                    &&& final(self).graph.len() == old(self).graph.len()
                    &&& final(self).graph.at(scope as int).bindings@ == old(self).graph.at(
                        scope as int,
                    ).bindings@.push(Binding { name, ns: namespace_of(kind), symbol: id })
                    &&& final(self).graph.at(scope as int).parent == old(self).graph.at(scope as int).parent
                    &&& final(self).graph.at(scope as int).kind == old(self).graph.at(scope as int).kind
                    &&& final(self).graph.at(scope as int).module_symbol == old(self).graph.at(
                        scope as int,
                    ).module_symbol
                    &&& final(self).graph.at(scope as int).imports == old(self).graph.at(scope as int).imports
                    &&& forall|t: int|
                        0 <= t < old(self).graph.len() && t != scope
                            ==> final(self).graph.at(t) == old(self).graph.at(t)
                    &&& binding_at(
                        final(self).graph.at(scope as int).bindings@,
                        name@,
                        namespace_of(kind),
                    ) == Some(id)
                },
                Err(e) => {
                    &&& e == ResolutionError::DuplicateDeclaration
                    &&& binding_at(old(self).graph.at(scope as int).bindings@, name@, namespace_of(kind)) is Some
                    &&& *final(self) == *old(self)
                },
            },
    {
        let ns = namespace_of_kind(kind);
        let existing = find_binding(&self.graph.scopes[scope].bindings, &name, ns);
        match existing {
            Some(_) => Err(ResolutionError::DuplicateDeclaration),
            None => {
                let id = self.table.mint(kind, name.clone(), scope, vis);
                proof {
                    lemma_binding_at_push(
                        self.graph.at(scope as int).bindings@,
                        Binding { name, ns, symbol: id },
                        name@,
                        ns,
                    );
                }
                self.graph.scopes[scope].bindings.push(Binding { name, ns, symbol: id });
                proof {
                    lemma_wf_after_scope_change(*old(self), *self, scope as int);
                }
                Ok(id)
            },
        }
    }

    /// Declares a module symbol in `parent_scope` and opens the module's own
    /// scope, linked back to the symbol. Returns the pair (symbol, scope).
    pub fn declare_module(
        &mut self,
        parent_scope: usize,
        name: String,
        vis: Visibility,
    ) -> (r: Result<(usize, usize), ResolutionError>)
        requires
            old(self).wf(),
            parent_scope < old(self).graph.len(),
            old(self).table.len() < usize::MAX,
            old(self).graph.len() < usize::MAX,
        ensures
            final(self).wf(),
            match r {
                Ok(p) => {
                    &&& p.0 == old(self).table.len()
                    &&& p.1 == old(self).graph.len()
                    &&& final(self).graph.len() == old(self).graph.len() + 1
                    &&& final(self).table.len() == old(self).table.len() + 1
                    &&& final(self).table.sym(p.0 as int) == (Symbol {
                        id: p.0,
                        kind: SymbolKind::Module,
                        name,
                        scope: parent_scope,
                        vis,
                    })
                    &&& final(self).graph.at(p.1 as int).module_symbol == Some(p.0)
                    &&& final(self).graph.at(p.1 as int).parent == Some(parent_scope)
                    &&& final(self).graph.at(p.1 as int).bindings@.len() == 0
                    &&& final(self).graph.at(p.1 as int).imports@.len() == 0
                    &&& binding_at(
                        final(self).graph.at(parent_scope as int).bindings@,
                        name@,
                        Namespace::Type,
                    ) == Some(p.0)
                },
                Err(e) => {
                    &&& e == ResolutionError::DuplicateDeclaration
                    &&& *final(self) == *old(self)
                },
            },
    {
        let sym = match self.declare(parent_scope, name, SymbolKind::Module, vis) {
            Ok(sym) => sym,
            Err(e) => {
                return Err(e);
            },
        };
        let sc = self.new_scope(parent_scope, ScopeKind::Module, Some(sym));
        Ok((sym, sc))
    }

    /// Records a `use` edge in `scope`. At most one non-glob import may bind
    /// a given local name per scope; a second one is refused.
    pub fn add_import(
        &mut self,
        scope: usize,
        local_name: String,
        target_path: Vec<String>,
        is_glob: bool,
    ) -> (r: Result<(), ResolutionError>)
        requires
            old(self).wf(),
            scope < old(self).graph.len(),
        ensures
            final(self).wf(),
            match r {
                Ok(()) => {
                    &&& (!is_glob ==> nonglob_from(
                        old(self).graph.at(scope as int).imports@,
                        0,
                        local_name@,
                    ) is None)
                    &&& final(self).table == old(self).table
                    &&& final(self).graph.len() == old(self).graph.len()
                    &&& final(self).graph.at(scope as int).imports@ == old(self).graph.at(
                        scope as int,
                    ).imports@.push(ImportEdge { local_name, target_path, is_glob })
                    &&& final(self).graph.at(scope as int).bindings == old(self).graph.at(scope as int).bindings
                    &&& final(self).graph.at(scope as int).parent == old(self).graph.at(scope as int).parent
                    &&& final(self).graph.at(scope as int).kind == old(self).graph.at(scope as int).kind
                    &&& final(self).graph.at(scope as int).module_symbol == old(self).graph.at(
                        scope as int,
                    ).module_symbol
                    &&& forall|t: int|
                        0 <= t < old(self).graph.len() && t != scope
                            ==> final(self).graph.at(t) == old(self).graph.at(t)
                },
                Err(e) => {
                    &&& e == ResolutionError::DuplicateDeclaration
                    &&& !is_glob
                    &&& nonglob_from(old(self).graph.at(scope as int).imports@, 0, local_name@) is Some
                    &&& *final(self) == *old(self)
                },
            },
    {
        if !is_glob {
            let dup = find_nonglob(&self.graph.scopes[scope].imports, &local_name);
            if dup.is_some() {
                return Err(ResolutionError::DuplicateDeclaration);
            }
        }
        self.graph.scopes[scope].imports.push(ImportEdge { local_name, target_path, is_glob });
        proof {
            lemma_wf_after_scope_change(*old(self), *self, scope as int);
        }
        Ok(())
    }

    /// Scope-local lookup, no outward traversal: the symbol `scope` itself
    /// binds under `name` in `ns`, if any.
    pub fn lookup_in_scope(&self, scope: usize, name: &String, ns: Namespace) -> (r: Option<usize>)
        requires
            self.wf(),
            scope < self.graph.len(),
        ensures
            r == binding_at(self.graph.at(scope as int).bindings@, name@, ns),
    {
        find_binding(&self.graph.scopes[scope].bindings, name, ns)
    }
}

/// Linear scan behind scope-local lookup.
pub fn find_binding(bs: &Vec<Binding>, name: &String, ns: Namespace) -> (r: Option<usize>)
    ensures
        r == binding_at(bs@, name@, ns),
{
    let mut i: usize = 0;
    while i < bs.len()
        invariant
            0 <= i <= bs@.len(),
            binding_at(bs@, name@, ns) == binding_from(bs@, i as int, name@, ns),
        decreases bs@.len() - i,
    {
        if bs[i].name == *name && bs[i].ns == ns {
            return Some(bs[i].symbol);
        }
        i += 1;
    }
    None
}

/// Linear scan for the first non-glob import with the given local name.
pub fn find_nonglob(imps: &Vec<ImportEdge>, name: &String) -> (r: Option<usize>)
    ensures
        match r {
            Some(k) => nonglob_from(imps@, 0, name@) == Some(k as int) && (k as int) < imps@.len(),
            None => nonglob_from(imps@, 0, name@) is None,
        },
{
    let mut i: usize = 0;
    while i < imps.len()
        invariant
            0 <= i <= imps@.len(),
            nonglob_from(imps@, 0, name@) == nonglob_from(imps@, i as int, name@),
        decreases imps@.len() - i,
    {
        if !imps[i].is_glob && imps[i].local_name == *name {
            return Some(i);
        }
        i += 1;
    }
    None
}

} // verus!
