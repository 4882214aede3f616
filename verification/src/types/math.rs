//! Vectors, quaternions and matrices: tuples of numbers of a fixed size.

use crate::error::{AamlError, ErrorView};
use crate::text::{chars_are, to_chars};
use crate::types::primitive_type::PrimitiveType;
use crate::types::{tuple_verdict, validate_tuple, Type};
use vstd::prelude::*;

verus! {

/// The types of the family `math`.
#[derive(Debug, Clone, Copy, PartialEq, Eq, Structural)]
pub enum MathTypes {
    Vector2,
    Vector3,
    Vector4,
    Quaternion,
    Matrix3x3,
    Matrix4x4,
}

impl MathTypes {
    /// How many numbers a value of the type holds.
    pub open spec fn arity(self) -> nat {
        match self {
            MathTypes::Vector2 => 2,
            MathTypes::Vector3 => 3,
            MathTypes::Vector4 => 4,
            MathTypes::Quaternion => 4,
            MathTypes::Matrix3x3 => 9,
            MathTypes::Matrix4x4 => 16,
        }
    }

    /// How many numbers a value of the type holds.
    pub fn components(&self) -> (r: usize)
        ensures
            r == self.arity(),
    {
        match self {
            MathTypes::Vector2 => 2,
            MathTypes::Vector3 => 3,
            MathTypes::Vector4 | MathTypes::Quaternion => 4,
            MathTypes::Matrix3x3 => 9,
            MathTypes::Matrix4x4 => 16,
        }
    }
}

impl Type for MathTypes {
    open spec fn by_name(name: Seq<char>) -> Option<MathTypes> {
        if name == "vector2"@ {
            Some(MathTypes::Vector2)
        } else if name == "vector3"@ {
            Some(MathTypes::Vector3)
        } else if name == "vector4"@ {
            Some(MathTypes::Vector4)
        } else if name == "quaternion"@ {
            Some(MathTypes::Quaternion)
        } else if name == "matrix3x3"@ {
            Some(MathTypes::Matrix3x3)
        } else if name == "matrix4x4"@ {
            Some(MathTypes::Matrix4x4)
        } else {
            None
        }
    }

    open spec fn base(&self) -> PrimitiveType {
        PrimitiveType::F64
    }

    open spec fn verdict(&self, value: Seq<char>) -> Result<(), ErrorView> {
        tuple_verdict(value, self.arity())
    }

    fn from_name(name: &str) -> (r: Result<MathTypes, AamlError>)
        ensures
            r matches Err(e) ==> e@ == ErrorView::NotFound(name@),
    {
        let v = to_chars(name);
        if chars_are(&v, "vector2") {
            Ok(MathTypes::Vector2)
        } else if chars_are(&v, "vector3") {
            Ok(MathTypes::Vector3)
        } else if chars_are(&v, "vector4") {
            Ok(MathTypes::Vector4)
        } else if chars_are(&v, "quaternion") {
            Ok(MathTypes::Quaternion)
        } else if chars_are(&v, "matrix3x3") {
            Ok(MathTypes::Matrix3x3)
        } else if chars_are(&v, "matrix4x4") {
            Ok(MathTypes::Matrix4x4)
        } else {
            Err(AamlError::not_found(name))
        }
    }

    fn base_type(&self) -> (r: PrimitiveType) {
        PrimitiveType::F64
    }

    fn validate(&self, value: &str) -> (r: Result<(), AamlError>) {
        validate_tuple(value, self.components())
    }
}

} // verus!
