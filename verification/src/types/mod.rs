//! Value types: what a type is, the built-in families, and how a path such
//! as `math::vector3` finds one.

pub mod math;
pub mod physics;
pub mod primitive_type;
pub mod time;

use crate::error::{outcome, AamlError, ErrorView};
use crate::number::{append_decimal, decimal, is_float, is_float_text};
use crate::text::{
    find_path_sep, path_sep_position, same_text, split, split_at_each, to_chars, trim, trimmed,
    views,
};
use crate::types::math::MathTypes;
use crate::types::physics::PhysicsTypes;
use crate::types::primitive_type::PrimitiveType;
use crate::types::time::TimeTypes;
use vstd::prelude::*;
use vstd::string::StringExecFns;

verus! {

/// A rule that a text value meets or fails.
pub trait Type {
    /// The type that `name` stands for.
    spec fn by_name(name: Seq<char>) -> Option<Self> where Self: Sized;

    /// The primitive kind that the type reports as its base.
    spec fn base(&self) -> PrimitiveType;

    /// Whether `value` meets the rule, and the error it gets where not.
    spec fn verdict(&self, value: Seq<char>) -> Result<(), ErrorView>;

    fn from_name(name: &str) -> (r: Result<Self, AamlError>) where Self: Sized
        ensures
            r matches Ok(t) ==> Self::by_name(name@) == Some(t),
            r is Err <==> Self::by_name(name@) is None,
    ;

    fn base_type(&self) -> (r: PrimitiveType)
        ensures
            r == self.base(),
    ;

    fn validate(&self, value: &str) -> (r: Result<(), AamlError>)
        ensures
            outcome(r) == self.verdict(value@),
    ;
}

/// The components of a tuple value: the pieces between its commas, each
/// without the white space around it.
pub open spec fn components(value: Seq<char>) -> Seq<Seq<char>> {
    split(value, ',').map_values(|piece: Seq<char>| trimmed(piece))
}

/// The index of the first of `parts`, at or after `from`, that is no
/// floating-point number, or `parts.len()`.
pub open spec fn first_non_float(parts: Seq<Seq<char>>, from: int) -> int
    decreases parts.len() - from,
{
    if 0 <= from < parts.len() && is_float_text(parts[from]) {
        first_non_float(parts, from + 1)
    } else if from < parts.len() {
        from
    } else {
        parts.len() as int
    }
}

/// The rule of a tuple of `arity` numbers: `value` has exactly `arity`
/// components and each is a floating-point number. A wrong count is
/// reported before a wrong component, and of those the first.
pub open spec fn tuple_verdict(value: Seq<char>, arity: nat) -> Result<(), ErrorView> {
    let parts = components(value);
    let bad = first_non_float(parts, 0);
    if parts.len() != arity {
        Err(
            ErrorView::InvalidValue(
                "Expected "@ + decimal(arity) + " components, got "@ + decimal(parts.len()),
            ),
        )
    } else if bad < parts.len() {
        Err(ErrorView::InvalidValue("Invalid number: "@ + parts[bad]))
    } else {
        Ok(())
    }
}

/// `first_non_float` passes over floating-point numbers only, and stops
/// at the first part that is none.
pub proof fn lemma_first_non_float(parts: Seq<Seq<char>>, from: int)
    requires
        0 <= from <= parts.len(),
    ensures
        from <= first_non_float(parts, from) <= parts.len(),
        forall|i: int| from <= i < first_non_float(parts, from) ==> is_float_text(#[trigger] parts[i]),
        first_non_float(parts, from) < parts.len() ==> !is_float_text(
            parts[first_non_float(parts, from)],
        ),
    decreases parts.len() - from,
{
    if from < parts.len() && is_float_text(parts[from]) {
        lemma_first_non_float(parts, from + 1);
    }
}

/// Holds `value` to the rule of a tuple of `arity` numbers.
pub fn validate_tuple(value: &str, arity: usize) -> (r: Result<(), AamlError>)
    ensures
        outcome(r) == tuple_verdict(value@, arity as nat),
{
    let pieces = split_at_each(value, ',');
    let count = pieces.len();
    assert(components(value@).len() == count) by {
        assert(views(pieces@).len() == count);
    }
    if count != arity {
        let mut message = String::from_str("Expected ");
        append_decimal(&mut message, arity);
        message.append(" components, got ");
        append_decimal(&mut message, count);
        proof {
            assert(message@ =~= "Expected "@ + decimal(arity as nat) + " components, got "@
                + decimal(count as nat));
        }
        return Err(AamlError::InvalidValue(message));
    }
    let mut i: usize = 0;
    while i < count
        invariant
            count == pieces.len(),
            count == arity,
            components(value@).len() == count,
            views(pieces@) == split(value@, ','),
            i <= count,
            first_non_float(components(value@), 0) == first_non_float(components(value@), i as int),
        decreases count - i,
    {
        let part = trim(pieces[i]);
        proof {
            assert(views(pieces@)[i as int] == pieces@[i as int]@);
            assert(components(value@)[i as int] == part@);
        }
        if !is_float(part) {
            let mut message = String::from_str("Invalid number: ");
            message.append(part);
            return Err(AamlError::InvalidValue(message));
        }
        i += 1;
    }
    Ok(())
}

/// A type that is built in: a primitive, or a member of a named family.
#[derive(Clone, Copy, Debug, PartialEq, Eq, Structural)]
pub enum BuiltinType {
    Primitive(PrimitiveType),
    Math(MathTypes),
    Time(TimeTypes),
    Physics(PhysicsTypes),
}

/// The built-in type at `path`. A path without `::` names a primitive.
/// Otherwise what stands before the first `::` names the family, one of
/// `math`, `time` and `physics`, and all that follows it the member.
pub open spec fn builtin(path: Seq<char>) -> Option<BuiltinType> {
    let at = find_path_sep(path, 0);
    let family = path.subrange(0, at);
    let member = path.subrange(at + 2, path.len() as int);
    if at >= path.len() {
        match PrimitiveType::by_name(path) {
            Some(t) => Some(BuiltinType::Primitive(t)),
            None => None,
        }
    } else if family == "math"@ {
        match MathTypes::by_name(member) {
            Some(t) => Some(BuiltinType::Math(t)),
            None => None,
        }
    } else if family == "time"@ {
        match TimeTypes::by_name(member) {
            Some(t) => Some(BuiltinType::Time(t)),
            None => None,
        }
    } else if family == "physics"@ {
        match PhysicsTypes::by_name(member) {
            Some(t) => Some(BuiltinType::Physics(t)),
            None => None,
        }
    } else {
        None
    }
}

impl Type for BuiltinType {
    open spec fn by_name(name: Seq<char>) -> Option<BuiltinType> {
        builtin(name)
    }

    open spec fn base(&self) -> PrimitiveType {
        match self {
            BuiltinType::Primitive(t) => t.base(),
            BuiltinType::Math(t) => t.base(),
            BuiltinType::Time(t) => t.base(),
            BuiltinType::Physics(t) => t.base(),
        }
    }

    open spec fn verdict(&self, value: Seq<char>) -> Result<(), ErrorView> {
        match self {
            BuiltinType::Primitive(t) => t.verdict(value),
            BuiltinType::Math(t) => t.verdict(value),
            BuiltinType::Time(t) => t.verdict(value),
            BuiltinType::Physics(t) => t.verdict(value),
        }
    }

    fn from_name(name: &str) -> (r: Result<BuiltinType, AamlError>) {
        resolve_builtin(name)
    }

    fn base_type(&self) -> (r: PrimitiveType) {
        match self {
            BuiltinType::Primitive(t) => t.base_type(),
            BuiltinType::Math(t) => t.base_type(),
            BuiltinType::Time(t) => t.base_type(),
            BuiltinType::Physics(t) => t.base_type(),
        }
    }

    fn validate(&self, value: &str) -> (r: Result<(), AamlError>) {
        match self {
            BuiltinType::Primitive(t) => t.validate(value),
            BuiltinType::Math(t) => t.validate(value),
            BuiltinType::Time(t) => t.validate(value),
            BuiltinType::Physics(t) => t.validate(value),
        }
    }
}

/// Finds the built-in type at `path`, or fails with a not-found error that
/// names the whole path.
pub fn resolve_builtin(path: &str) -> (r: Result<BuiltinType, AamlError>)
    ensures
        match r {
            Ok(t) => builtin(path@) == Some(t),
            Err(e) => builtin(path@) is None && e@ == ErrorView::NotFound(path@),
        },
{
    let v = to_chars(path);
    let n = v.len();
    let at = path_sep_position(&v);
    let found = if at >= n {
        match PrimitiveType::from_name(path) {
            Ok(t) => Some(BuiltinType::Primitive(t)),
            Err(_) => None,
        }
    } else {
        let family = path.substring_char(0, at);
        let member = path.substring_char(at + 2, n);
        if same_text(family, "math") {
            match MathTypes::from_name(member) {
                Ok(t) => Some(BuiltinType::Math(t)),
                Err(_) => None,
            }
        } else if same_text(family, "time") {
            match TimeTypes::from_name(member) {
                Ok(t) => Some(BuiltinType::Time(t)),
                Err(_) => None,
            }
        } else if same_text(family, "physics") {
            match PhysicsTypes::from_name(member) {
                Ok(t) => Some(BuiltinType::Physics(t)),
                Err(_) => None,
            }
        } else {
            None
        }
    };
    match found {
        Some(t) => Ok(t),
        None => Err(AamlError::not_found(path)),
    }
}

} // verus!
