use vstd::prelude::*;

verus! {

/// The sample declarations that the tests and the driver rebuild as an item
/// tree and run the resolver over: a struct nested in `sub::sub2`, a struct
/// and a unit struct reached through aliases, an enum with tagged variants,
/// and a do-nothing free function. The samples are written in an older
/// dialect's spelling, lower-case type names included.

/// The struct declared inside `sub::sub2` and reached both directly and
/// through the `msalias` alias.
#[allow(non_camel_case_types)]
#[derive(Clone, Copy, PartialEq, Eq, Structural, Debug)]
pub struct nested_struct {
    pub field2: u32,
}

/// The struct declared in the sub-directory module.
#[derive(Clone, Debug)]
pub struct SubStruct {
    pub name: String,
}

/// The unit struct aliased as `my_st`.
#[allow(non_camel_case_types)]
#[derive(Clone, Copy, PartialEq, Eq, Structural, Debug)]
pub struct st;

/// The enum declared inside `sub::sub2`.
#[allow(non_camel_case_types)]
#[derive(Clone, Copy, PartialEq, Eq, Structural, Debug)]
pub enum nested_enum {
    Nest2,
    Nest3,
}

/// The tag each variant of [`nested_enum`] carries.
pub open spec fn tag_of(e: nested_enum) -> u32 {
    match e {
        nested_enum::Nest2 => 2u32,
        nested_enum::Nest3 => 3u32,
    }
}

impl nested_enum {
    /// The variant's tag value.
    pub fn tag(&self) -> (v: u32)
        ensures
            v == tag_of(*self),
    {
        match self {
            nested_enum::Nest2 => 2,
            nested_enum::Nest3 => 3,
        }
    }
}

/// The free function aliased as `my_f`; it does nothing, and resolving the
/// alias binds calls here.
pub fn f() {
}

} // verus!
