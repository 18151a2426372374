//! Registry metadata: the description of a recorded variable.
use vstd::prelude::*;

use crate::unit::Unit;

verus! {

/// A registered variable: its name, what it records, its unit, and the
/// name of its type.
#[derive(Debug)]
pub struct Variable {
    pub name: String,
    pub description: String,
    pub unit: Unit,
    pub type_: String,
}

impl Variable {
    pub fn new(name: String, description: String, unit: Unit, type_: String) -> (r: Self)
        ensures
            r.name == name,
            r.description == description,
            r.unit == unit,
            r.type_ == type_,
    {
        Variable { name, description, unit, type_ }
    }
}

} // verus!
