//! Measurement units for registry variables.
use vstd::prelude::*;

verus! {

/// The unit a recorded quantity is measured in.
#[derive(Debug, PartialEq, Eq, Clone, Copy, Structural)]
pub enum Unit {
    Dimensionless,
    Bytes,
    Milliseconds,
}

/// The unit's conventional short text.
pub open spec fn unit_text(u: Unit) -> Seq<char> {
    match u {
        Unit::Dimensionless => "1"@,
        Unit::Bytes => "By"@,
        Unit::Milliseconds => "ms"@,
    }
}

impl Unit {
    /// The unit's conventional short text.
    pub fn to_str(&self) -> (r: &str)
        ensures
            r@ == unit_text(*self),
    {
        match self {
            Unit::Dimensionless => "1",
            Unit::Bytes => "By",
            Unit::Milliseconds => "ms",
        }
    }
}

} // verus!
