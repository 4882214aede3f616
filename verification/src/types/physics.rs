//! Physical quantities: scalars, and vectors in space.

use crate::error::{AamlError, ErrorView};
use crate::text::{chars_are, to_chars};
use crate::types::primitive_type::PrimitiveType;
use crate::types::{tuple_verdict, validate_tuple, Type};
use vstd::prelude::*;

verus! {

/// The types of the family `physics`.
#[derive(Debug, Clone, Copy, PartialEq, Eq, Structural)]
pub enum PhysicsTypes {
    Mass,
    Energy,
    Temperature,
    Velocity,
    Acceleration,
    Force,
}

impl PhysicsTypes {
    /// How many numbers a value of the type holds: one for a scalar, three
    /// for a vector.
    pub open spec fn arity(self) -> nat {
        match self {
            PhysicsTypes::Mass => 1,
            PhysicsTypes::Energy => 1,
            PhysicsTypes::Temperature => 1,
            PhysicsTypes::Velocity => 3,
            PhysicsTypes::Acceleration => 3,
            PhysicsTypes::Force => 3,
        }
    }

    /// How many numbers a value of the type holds.
    pub fn components(&self) -> (r: usize)
        ensures
            r == self.arity(),
    {
        match self {
            PhysicsTypes::Mass | PhysicsTypes::Energy | PhysicsTypes::Temperature => 1,
            PhysicsTypes::Velocity | PhysicsTypes::Acceleration | PhysicsTypes::Force => 3,
        }
    }
}

impl Type for PhysicsTypes {
    open spec fn by_name(name: Seq<char>) -> Option<PhysicsTypes> {
        if name == "mass"@ {
            Some(PhysicsTypes::Mass)
        } else if name == "energy"@ {
            Some(PhysicsTypes::Energy)
        } else if name == "temperature"@ {
            Some(PhysicsTypes::Temperature)
        } else if name == "velocity"@ {
            Some(PhysicsTypes::Velocity)
        } else if name == "acceleration"@ {
            Some(PhysicsTypes::Acceleration)
        } else if name == "force"@ {
            Some(PhysicsTypes::Force)
        } else {
            None
        }
    }

    open spec fn base(&self) -> PrimitiveType {
        PrimitiveType::F64
    }

    open spec fn verdict(&self, value: Seq<char>) -> Result<(), ErrorView> {
        tuple_verdict(value, self.arity())
    }

    fn from_name(name: &str) -> (r: Result<PhysicsTypes, AamlError>)
        ensures
            r matches Err(e) ==> e@ == ErrorView::NotFound(name@),
    {
        let v = to_chars(name);
        if chars_are(&v, "mass") {
            Ok(PhysicsTypes::Mass)
        } else if chars_are(&v, "energy") {
            Ok(PhysicsTypes::Energy)
        } else if chars_are(&v, "temperature") {
            Ok(PhysicsTypes::Temperature)
        } else if chars_are(&v, "velocity") {
            Ok(PhysicsTypes::Velocity)
        } else if chars_are(&v, "acceleration") {
            Ok(PhysicsTypes::Acceleration)
        } else if chars_are(&v, "force") {
            Ok(PhysicsTypes::Force)
        } else {
            Err(AamlError::not_found(name))
        }
    }

    fn base_type(&self) -> (r: PrimitiveType) {
        PrimitiveType::F64
    }

    fn validate(&self, value: &str) -> (r: Result<(), AamlError>) {
        validate_tuple(value, self.components())
    }
}

} // verus!
