use vstd::prelude::*;

verus! {

/// What sort of item a symbol stands for.
#[derive(Clone, Copy, PartialEq, Eq, Structural, Debug)]
pub enum SymbolKind {
    Module,
    Struct,
    Enum,
    EnumVariant,
    Trait,
    Function,
    Static,
    Field,
}

/// The two name universes that are tracked independently: a type-like name
/// and a value-like name may share their text without colliding.
#[derive(Clone, Copy, PartialEq, Eq, Structural, Debug)]
pub enum Namespace {
    Type,
    Value,
}

#[derive(Clone, Copy, PartialEq, Eq, Structural, Debug)]
pub enum Visibility {
    Public,
    Private,
}

/// The namespace a symbol of the given kind lives in. Modules, types and
/// traits are type-like; functions, statics, enum variants and fields are
/// value-like.
pub open spec fn namespace_of(kind: SymbolKind) -> Namespace {
    match kind {
        SymbolKind::Module => Namespace::Type,
        SymbolKind::Struct => Namespace::Type,
        SymbolKind::Enum => Namespace::Type,
        SymbolKind::Trait => Namespace::Type,
        SymbolKind::EnumVariant => Namespace::Value,
        SymbolKind::Function => Namespace::Value,
        SymbolKind::Static => Namespace::Value,
        SymbolKind::Field => Namespace::Value,
    }
}

/// Executable twin of [`namespace_of`].
pub fn namespace_of_kind(kind: SymbolKind) -> (ns: Namespace)
    ensures
        ns == namespace_of(kind),
{
    match kind {
        SymbolKind::Module => Namespace::Type,
        SymbolKind::Struct => Namespace::Type,
        SymbolKind::Enum => Namespace::Type,
        SymbolKind::Trait => Namespace::Type,
        SymbolKind::EnumVariant => Namespace::Value,
        SymbolKind::Function => Namespace::Value,
        SymbolKind::Static => Namespace::Value,
        SymbolKind::Field => Namespace::Value,
    }
}

/// A declared item. Created once at declaration time, immutable thereafter,
/// and owned by the symbol table; everything else refers to it by `id`.
#[derive(Clone, Debug)]
pub struct Symbol {
    /// Position of this symbol in the table; stable and unique.
    pub id: usize,
    pub kind: SymbolKind,
    pub name: String,
    /// The scope the symbol was declared in.
    pub scope: usize,
    pub vis: Visibility,
}

/// Flat store of all declared symbols, keyed by position.
pub struct SymbolTable {
    pub symbols: Vec<Symbol>,
}

impl SymbolTable {
    /// Every symbol records its own table position as its id.
    pub open spec fn wf(self) -> bool {
        forall|i: int|
            0 <= i < self.symbols@.len() ==> (#[trigger] self.symbols@[i]).id == i
    }

    pub open spec fn len(self) -> nat {
        self.symbols@.len()
    }

    pub open spec fn sym(self, id: int) -> Symbol {
        self.symbols@[id]
    }

    pub fn new() -> (t: SymbolTable)
        ensures
            t.wf(),
            t.len() == 0,
    {
        SymbolTable { symbols: Vec::new() }
    }

    /// Appends a fresh symbol and returns its id, the next free position.
    pub fn mint(
        &mut self,
        kind: SymbolKind,
        name: String,
        scope: usize,
        vis: Visibility,
    ) -> (id: usize)
        requires
            old(self).wf(),
            old(self).len() < usize::MAX,
        ensures
            final(self).wf(),
            id == old(self).len(),
            final(self).symbols@ == old(self).symbols@.push(
                Symbol { id, kind, name, scope, vis },
            ),
    {
        let id = self.symbols.len();
        self.symbols.push(Symbol { id, kind, name, scope, vis });
        id
    }

    pub fn get(&self, id: usize) -> (s: &Symbol)
        requires
            id < self.len(),
        ensures
            *s == self.sym(id as int),
    {
        &self.symbols[id]
    }
}

} // verus!
