use vstd::prelude::*;

use crate::dispatch::{spec_resolve_method, spec_resolve_static, MethodTarget, TraitRegistry};
use crate::errors::ResolutionError;
use crate::index::Index;
use crate::paths::path_result;
use crate::symbols::{Namespace, SymbolKind};

verus! {

/// The declared payload of a struct or an enum variant: nothing, a count of
/// positional fields, or named fields given by their field symbols.
#[derive(Clone, Debug)]
pub enum VariantShape {
    Unit,
    Positional { arity: usize },
    Named { fields: Vec<usize> },
}

/// The declared shape of one type or enum variant, keyed by its symbol.
#[derive(Clone, Debug)]
pub struct TypeShape {
    pub owner: usize,
    pub shape: VariantShape,
}

/// The declared shapes of the crate's structs and enum variants.
pub struct ShapeRegistry {
    pub shapes: Vec<TypeShape>,
}

/// The payload a pattern writes: nothing, positional bindings, or named
/// fields with an optional `..` tail.
#[derive(Clone, Debug)]
pub enum PatternArgs {
    Unit,
    Positional { arity: usize },
    Named { fields: Vec<String>, has_rest: bool },
}

/// One name occurrence handed over by the front end, already desugared: a
/// path expression, a method call, a static call, or a pattern.
#[derive(Clone, Debug)]
pub enum NameRef {
    Path { scope: usize, segments: Vec<String>, ns: Namespace, absolute: bool },
    MethodCall { receiver: usize, name: String, visible: Vec<usize> },
    StaticCall { qualifier: usize, name: String },
    StructPattern { scope: usize, segments: Vec<String>, absolute: bool, fields: Vec<String>, has_rest: bool },
    EnumPattern { scope: usize, segments: Vec<String>, absolute: bool, args: PatternArgs },
}

/// One resolved (or knowingly unresolved) name occurrence.
#[derive(Clone, Copy, PartialEq, Eq, Structural, Debug)]
pub struct UseSite {
    /// Position of the occurrence in the input sequence.
    pub location: usize,
    /// The symbol the occurrence binds to; none when resolution failed.
    pub resolved: Option<usize>,
}

/// One collected resolution error, tied to the use site it arose at.
#[derive(Clone, Copy, PartialEq, Eq, Structural, Debug)]
pub struct SiteError {
    pub location: usize,
    pub error: ResolutionError,
}

/// First shape at or after `k` declared for symbol `owner`.
pub open spec fn shape_from(ss: Seq<TypeShape>, k: int, owner: usize) -> Option<int>
    decreases ss.len() - k,
{
    if k < 0 || k >= ss.len() {
        None
    } else if ss[k].owner == owner {
        Some(k)
    } else {
        shape_from(ss, k + 1, owner)
    }
}

/// Whether one of the declared field symbols (at or after `k`) is named
/// `name`.
pub open spec fn field_named_from(idx: Index, declared: Seq<usize>, k: int, name: Seq<char>) -> bool
    decreases declared.len() - k,
{
    if k < 0 || k >= declared.len() {
        false
    } else {
        (declared[k] < idx.table.len() && idx.table.sym(declared[k] as int).name@ == name)
            || field_named_from(idx, declared, k + 1, name)
    }
}

/// First pattern field at or after `j` that names no declared field.
pub open spec fn unknown_field_from(idx: Index, declared: Seq<usize>, pats: Seq<String>, j: int) -> Option<int>
    decreases pats.len() - j,
{
    if j < 0 || j >= pats.len() {
        None
    } else if !field_named_from(idx, declared, 0, pats[j]@) {
        Some(j)
    } else {
        unknown_field_from(idx, declared, pats, j + 1)
    }
}

/// The checked outcome of matching named pattern fields against declared
/// field symbols: an unknown field name is `UnknownField`; without a `..`
/// tail the pattern must cover the fields exactly, else the shape does not
/// match.
pub open spec fn named_fields_outcome(idx: Index, declared: Seq<usize>, pats: Seq<String>, has_rest: bool) -> Option<ResolutionError> {
    if unknown_field_from(idx, declared, pats, 0) is Some {
        Some(ResolutionError::UnknownField)
    } else if !has_rest && pats.len() != declared.len() {
        Some(ResolutionError::PatternArityMismatch)
    } else {
        None
    }
}

/// The checked outcome of one pattern against one declared shape: positional
/// payload counts must agree, named fields must exist (and, without `..`, be
/// exhaustive), and the payload style itself must match.
pub open spec fn pattern_outcome(idx: Index, shape: VariantShape, args: PatternArgs) -> Option<ResolutionError> {
    match shape {
        VariantShape::Unit => match args {
            PatternArgs::Unit => None,
            _ => Some(ResolutionError::PatternArityMismatch),
        },
        VariantShape::Positional { arity: da } => match args {
            PatternArgs::Positional { arity: pa } => if da == pa {
                None
            } else {
                Some(ResolutionError::PatternArityMismatch)
            },
            _ => Some(ResolutionError::PatternArityMismatch),
        },
        VariantShape::Named { fields } => match args {
            PatternArgs::Named { fields: pats, has_rest } => named_fields_outcome(
                idx,
                fields@,
                pats@,
                has_rest,
            ),
            _ => Some(ResolutionError::PatternArityMismatch),
        },
    }
}

/// The symbol a resolved method target binds the call to.
pub open spec fn target_symbol(t: MethodTarget) -> usize {
    match t {
        MethodTarget::Inherent { symbol, .. } => symbol,
        MethodTarget::FromImpl { symbol, .. } => symbol,
        MethodTarget::Default { symbol, .. } => symbol,
    }
}

/// What one reference resolves to: the bound symbol, or the error recorded
/// for the site. A failed site stays unresolved and the pass goes on.
pub open spec fn site_outcome(idx: Index, reg: TraitRegistry, shapes: ShapeRegistry, r: NameRef) -> (
    Option<usize>,
    Option<ResolutionError>,
) {
    match r {
        NameRef::Path { scope, segments, ns, absolute } => {
            if !absolute && scope >= idx.graph.len() {
                (None, Some(ResolutionError::UnresolvedName))
            } else {
                match path_result(idx, if absolute { 0int } else { scope as int }, segments@, ns) {
                    Ok(sym) => (Some(sym), None),
                    Err(e) => (None, Some(e)),
                }
            }
        },
        NameRef::MethodCall { receiver, name, visible } => {
            match spec_resolve_method(reg, Some(receiver), name@, visible@) {
                Ok(t) => (Some(target_symbol(t)), None),
                Err(e) => (None, Some(e)),
            }
        },
        NameRef::StaticCall { qualifier, name } => {
            match spec_resolve_static(reg, qualifier, name@) {
                Ok(t) => (Some(target_symbol(t)), None),
                Err(e) => (None, Some(e)),
            }
        },
        NameRef::StructPattern { scope, segments, absolute, fields, has_rest } => {
            if !absolute && scope >= idx.graph.len() {
                (None, Some(ResolutionError::UnresolvedName))
            } else {
                match path_result(
                    idx,
                    if absolute { 0int } else { scope as int },
                    segments@,
                    Namespace::Type,
                ) {
                    Ok(sym) => {
                        if !(sym < idx.table.len() && idx.table.sym(sym as int).kind
                            == SymbolKind::Struct) {
                            (None, Some(ResolutionError::UnresolvedName))
                        } else {
                            match shape_from(shapes.shapes@, 0, sym) {
                                None => (None, Some(ResolutionError::UnresolvedName)),
                                Some(si) => match pattern_outcome(
                                    idx,
                                    shapes.shapes@[si].shape,
                                    PatternArgs::Named { fields, has_rest },
                                ) {
                                    None => (Some(sym), None),
                                    Some(e) => (None, Some(e)),
                                },
                            }
                        }
                    },
                    Err(e) => (None, Some(e)),
                }
            }
        },
        NameRef::EnumPattern { scope, segments, absolute, args } => {
            if !absolute && scope >= idx.graph.len() {
                (None, Some(ResolutionError::UnresolvedName))
            } else {
                match path_result(
                    idx,
                    if absolute { 0int } else { scope as int },
                    segments@,
                    Namespace::Value,
                ) {
                    Ok(sym) => {
                        if !(sym < idx.table.len() && idx.table.sym(sym as int).kind
                            == SymbolKind::EnumVariant) {
                            (None, Some(ResolutionError::UnresolvedName))
                        } else {
                            match shape_from(shapes.shapes@, 0, sym) {
                                None => (None, Some(ResolutionError::UnresolvedName)),
                                Some(si) => match pattern_outcome(idx, shapes.shapes@[si].shape, args) {
                                    None => (Some(sym), None),
                                    Some(e) => (None, Some(e)),
                                },
                            }
                        }
                    },
                    Err(e) => (None, Some(e)),
                }
            }
        },
    }
}

/// The errors the first `k` references give rise to, in input order.
pub open spec fn site_errors_upto(idx: Index, reg: TraitRegistry, shapes: ShapeRegistry, refs: Seq<NameRef>, k: int) -> Seq<SiteError>
    decreases k,
{
    if k <= 0 {
        Seq::empty()
    } else {
        let rest = site_errors_upto(idx, reg, shapes, refs, k - 1);
        match site_outcome(idx, reg, shapes, refs[k - 1]).1 {
            Some(e) => rest.push(SiteError { location: (k - 1) as usize, error: e }),
            None => rest,
        }
    }
}

impl ShapeRegistry {
    pub fn new() -> (r: ShapeRegistry)
        ensures
            r.shapes@.len() == 0,
    {
        ShapeRegistry { shapes: Vec::new() }
    }

    /// Records the declared shape of a struct or an enum variant.
    pub fn add_shape(&mut self, owner: usize, shape: VariantShape)
        ensures
            final(self).shapes@ == old(self).shapes@.push(TypeShape { owner, shape }),
    {
        self.shapes.push(TypeShape { owner, shape });
    }

    /// Linear scan for the shape declared for `owner`.
    fn find_shape(&self, owner: usize) -> (r: Option<usize>)
        ensures
            match r {
                Some(si) => shape_from(self.shapes@, 0, owner) == Some(si as int) && (si as int)
                    < self.shapes@.len(),
                None => shape_from(self.shapes@, 0, owner) is None,
            },
    {
        let mut i: usize = 0;
        while i < self.shapes.len()
            invariant
                0 <= i <= self.shapes@.len(),
                shape_from(self.shapes@, 0, owner) == shape_from(self.shapes@, i as int, owner),
            decreases self.shapes@.len() - i,
        {
            if self.shapes[i].owner == owner {
                return Some(i);
            }
            i += 1;
        }
        None
    }
}

/// Whether the declared field symbols include one named `name`.
fn field_named(idx: &Index, declared: &Vec<usize>, name: &String) -> (r: bool)
    requires
        idx.wf(),
    ensures
        r == field_named_from(*idx, declared@, 0, name@),
{
    let mut k: usize = 0;
    while k < declared.len()
        invariant
            0 <= k <= declared@.len(),
            idx.wf(),
            field_named_from(*idx, declared@, 0, name@) == field_named_from(
                *idx,
                declared@,
                k as int,
                name@,
            ),
        decreases declared@.len() - k,
    {
        if declared[k] < idx.table.symbols.len() {
            if idx.table.get(declared[k]).name == *name {
                return true;
            }
        }
        k += 1;
    }
    false
}

/// The named-fields check: first unknown field, then exhaustiveness.
fn check_named_fields(idx: &Index, declared: &Vec<usize>, pats: &Vec<String>, has_rest: bool) -> (r: Option<
    ResolutionError,
>)
    requires
        idx.wf(),
    ensures
        r == named_fields_outcome(*idx, declared@, pats@, has_rest),
{
    let mut j: usize = 0;
    while j < pats.len()
        invariant
            0 <= j <= pats@.len(),
            idx.wf(),
            unknown_field_from(*idx, declared@, pats@, 0) == unknown_field_from(
                *idx,
                declared@,
                pats@,
                j as int,
            ),
        decreases pats@.len() - j,
    {
        if !field_named(idx, declared, &pats[j]) {
            return Some(ResolutionError::UnknownField);
        }
        j += 1;
    }
    if !has_rest && pats.len() != declared.len() {
        Some(ResolutionError::PatternArityMismatch)
    } else {
        None
    }
}

/// The full pattern-shape check behind struct and enum-variant patterns.
fn check_pattern(idx: &Index, shape: &VariantShape, args: &PatternArgs) -> (r: Option<ResolutionError>)
    requires
        idx.wf(),
    ensures
        r == pattern_outcome(*idx, *shape, *args),
{
    match shape {
        VariantShape::Unit => match args {
            PatternArgs::Unit => None,
            _ => Some(ResolutionError::PatternArityMismatch),
        },
        VariantShape::Positional { arity: da } => match args {
            PatternArgs::Positional { arity: pa } => {
                if *da == *pa {
                    None
                } else {
                    Some(ResolutionError::PatternArityMismatch)
                }
            },
            _ => Some(ResolutionError::PatternArityMismatch),
        },
        VariantShape::Named { fields } => match args {
            PatternArgs::Named { fields: pats, has_rest } => check_named_fields(
                idx,
                fields,
                pats,
                *has_rest,
            ),
            _ => Some(ResolutionError::PatternArityMismatch),
        },
    }
}

/// Resolves one reference; total, and never panics on malformed input.
fn resolve_one(idx: &Index, reg: &TraitRegistry, shapes: &ShapeRegistry, r: &NameRef) -> (out: (
    Option<usize>,
    Option<ResolutionError>,
))
    requires
        idx.wf(),
    ensures
        out == site_outcome(*idx, *reg, *shapes, *r),
{
    match r {
        NameRef::Path { scope, segments, ns, absolute } => {
            if !*absolute && *scope >= idx.graph.scopes.len() {
                (None, Some(ResolutionError::UnresolvedName))
            } else {
                let start = if *absolute {
                    0
                } else {
                    *scope
                };
                match idx.resolve_path(start, segments, *ns, *absolute) {
                    Ok(sym) => (Some(sym), None),
                    Err(e) => (None, Some(e)),
                }
            }
        },
        NameRef::MethodCall { receiver, name, visible } => {
            match reg.resolve_method(*receiver, name, visible) {
                Ok(t) => {
                    let sym = match t {
                        MethodTarget::Inherent { symbol, .. } => symbol,
                        MethodTarget::FromImpl { symbol, .. } => symbol,
                        MethodTarget::Default { symbol, .. } => symbol,
                    };
                    (Some(sym), None)
                },
                Err(e) => (None, Some(e)),
            }
        },
        NameRef::StaticCall { qualifier, name } => {
            match reg.resolve_static(*qualifier, name) {
                Ok(t) => {
                    let sym = match t {
                        MethodTarget::Inherent { symbol, .. } => symbol,
                        MethodTarget::FromImpl { symbol, .. } => symbol,
                        MethodTarget::Default { symbol, .. } => symbol,
                    };
                    (Some(sym), None)
                },
                Err(e) => (None, Some(e)),
            }
        },
        NameRef::StructPattern { scope, segments, absolute, fields, has_rest } => {
            if !*absolute && *scope >= idx.graph.scopes.len() {
                (None, Some(ResolutionError::UnresolvedName))
            } else {
                let start = if *absolute {
                    0
                } else {
                    *scope
                };
                match idx.resolve_path(start, segments, Namespace::Type, *absolute) {
                    Ok(sym) => {
                        let is_struct = sym < idx.table.symbols.len() && idx.table.get(sym).kind
                            == SymbolKind::Struct;
                        if !is_struct {
                            (None, Some(ResolutionError::UnresolvedName))
                        } else {
                            match shapes.find_shape(sym) {
                                None => (None, Some(ResolutionError::UnresolvedName)),
                                Some(si) => {
                                    let declared = &shapes.shapes[si].shape;
                                    let outcome = match declared {
                                        VariantShape::Named { fields: decl } => check_named_fields(
                                            idx,
                                            decl,
                                            fields,
                                            *has_rest,
                                        ),
                                        _ => Some(ResolutionError::PatternArityMismatch),
                                    };
                                    match outcome {
                                        None => (Some(sym), None),
                                        Some(e) => (None, Some(e)),
                                    }
                                },
                            }
                        }
                    },
                    Err(e) => (None, Some(e)),
                }
            }
        },
        NameRef::EnumPattern { scope, segments, absolute, args } => {
            if !*absolute && *scope >= idx.graph.scopes.len() {
                (None, Some(ResolutionError::UnresolvedName))
            } else {
                let start = if *absolute {
                    0
                } else {
                    *scope
                };
                match idx.resolve_path(start, segments, Namespace::Value, *absolute) {
                    Ok(sym) => {
                        let is_variant = sym < idx.table.symbols.len() && idx.table.get(sym).kind
                            == SymbolKind::EnumVariant;
                        if !is_variant {
                            (None, Some(ResolutionError::UnresolvedName))
                        } else {
                            match shapes.find_shape(sym) {
                                None => (None, Some(ResolutionError::UnresolvedName)),
                                Some(si) => {
                                    match check_pattern(idx, &shapes.shapes[si].shape, args) {
                                        None => (Some(sym), None),
                                        Some(e) => (None, Some(e)),
                                    }
                                },
                            }
                        }
                    },
                    Err(e) => (None, Some(e)),
                }
            }
        },
    }
}

/// The reference resolver: one forward pass that gives every reference a use
/// site, resolved where resolution succeeds, and collects one error per
/// failed site. A failed site never stops the pass.
pub fn resolve_all(idx: &Index, reg: &TraitRegistry, shapes: &ShapeRegistry, refs: &Vec<NameRef>) -> (out: (
    Vec<UseSite>,
    Vec<SiteError>,
))
    requires
        idx.wf(),
        refs@.len() < usize::MAX,
    ensures
        out.0@.len() == refs@.len(),
        forall|i: int|
            0 <= i < refs@.len() ==> (#[trigger] out.0@[i]).location == i && out.0@[i].resolved
                == site_outcome(*idx, *reg, *shapes, refs@[i]).0,
        out.1@ == site_errors_upto(*idx, *reg, *shapes, refs@, refs@.len() as int),
{
    let mut sites: Vec<UseSite> = Vec::new();
    let mut errors: Vec<SiteError> = Vec::new();
    let mut i: usize = 0;
    while i < refs.len()
        invariant
            0 <= i <= refs@.len(),
            refs@.len() < usize::MAX,
            idx.wf(),
            sites@.len() == i,
            forall|x: int|
                0 <= x < i ==> (#[trigger] sites@[x]).location == x && sites@[x].resolved
                    == site_outcome(*idx, *reg, *shapes, refs@[x]).0,
            errors@ == site_errors_upto(*idx, *reg, *shapes, refs@, i as int),
        decreases refs@.len() - i,
    {
        let out = resolve_one(idx, reg, shapes, &refs[i]);
        sites.push(UseSite { location: i, resolved: out.0 });
        match out.1 {
            Some(e) => {
                errors.push(SiteError { location: i, error: e });
            },
            None => {},
        }
        i += 1;
    }
    (sites, errors)
}

} // verus!
