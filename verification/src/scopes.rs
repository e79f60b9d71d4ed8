use vstd::prelude::*;

use crate::symbols::Namespace;

verus! {

#[derive(Clone, Copy, PartialEq, Eq, Structural, Debug)]
pub enum ScopeKind {
    Module,
    Block,
    Function,
}

/// One name bound in one scope: the binding ties the text of the name, the
/// namespace it lives in, and the symbol it denotes.
#[derive(Clone, Debug)]
pub struct Binding {
    pub name: String,
    pub ns: Namespace,
    pub symbol: usize,
}

/// A `use` edge. A non-glob edge binds `local_name` to whatever
/// `target_path` resolves to; a glob edge brings every public name of the
/// target module into the scope under its original name.
#[derive(Clone, Debug)]
pub struct ImportEdge {
    pub local_name: String,
    pub target_path: Vec<String>,
    pub is_glob: bool,
}

/// A lexical region in which names are bound. Scopes form a tree rooted at
/// the crate scope; a child always has a larger index than its parent.
#[derive(Clone, Debug)]
pub struct Scope {
    pub parent: Option<usize>,
    pub kind: ScopeKind,
    /// For a module scope, the symbol of the module it belongs to; the crate
    /// root and block or function scopes carry none.
    pub module_symbol: Option<usize>,
    /// Directly declared names, at most one per (name, namespace) pair.
    pub bindings: Vec<Binding>,
    /// Import edges, in declaration order.
    pub imports: Vec<ImportEdge>,
}

/// The tree of scopes. It owns the scopes and refers to symbols only by id.
pub struct ScopeGraph {
    pub scopes: Vec<Scope>,
}

impl ScopeGraph {
    pub open spec fn len(self) -> nat {
        self.scopes@.len()
    }

    pub open spec fn at(self, s: int) -> Scope {
        self.scopes@[s]
    }

    /// The tree shape: one root without a parent, and every other scope's
    /// parent earlier in the vector, so that walking outward terminates.
    pub open spec fn wf(self) -> bool {
        &&& self.len() > 0
        &&& self.scopes@[0].parent is None
        &&& forall|i: int|
            1 <= i < self.len() ==> match (#[trigger] self.scopes@[i]).parent {
                Some(p) => p < i,
                None => false,
            }
    }

    /// A fresh graph holding only the crate-root scope.
    pub fn new() -> (g: ScopeGraph)
        ensures
            g.wf(),
            g.len() == 1,
            g.at(0).bindings@.len() == 0,
            g.at(0).imports@.len() == 0,
            g.at(0).kind == ScopeKind::Module,
            g.at(0).module_symbol is None,
    {
        let root = Scope {
            parent: None,
            kind: ScopeKind::Module,
            module_symbol: None,
            bindings: Vec::new(),
            imports: Vec::new(),
        };
        let mut scopes: Vec<Scope> = Vec::new();
        scopes.push(root);
        ScopeGraph { scopes }
    }
}

} // verus!
