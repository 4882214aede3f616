//! The primitive kinds of value.

use crate::error::{AamlError, ErrorView};
use crate::number::{is_float, is_float_text, is_hex, is_hex_text, is_i32_text, parse_i32};
use crate::text::{chars_are, chars_are_ignoring_case, same_ignoring_case, to_chars};
use crate::types::Type;
use vstd::prelude::*;

verus! {

/// The primitive kinds.
#[derive(Debug, Clone, Copy, PartialEq, Eq, Structural)]
pub enum PrimitiveType {
    I32,
    F64,
    String,
    Bool,
    Color,
}

/// Whether `value` is one of `true`, `false`, `1` and `0`, in any case of
/// letters.
pub open spec fn is_bool_text(value: Seq<char>) -> bool {
    ||| same_ignoring_case(value, "true"@)
    ||| same_ignoring_case(value, "false"@)
    ||| same_ignoring_case(value, "1"@)
    ||| same_ignoring_case(value, "0"@)
}

/// Whether `value` has the shape of a colour: a `#` and six or eight more
/// characters.
pub open spec fn is_color_shape(value: Seq<char>) -> bool {
    &&& value.len() == 7 || value.len() == 9
    &&& value[0] == '#'
}

/// Whether `value` is a colour: it has the shape of one, and what follows
/// the `#` is a hexadecimal number.
pub open spec fn is_color(value: Seq<char>) -> bool {
    is_color_shape(value) && is_hex_text(value.subrange(1, value.len() as int))
}

impl PrimitiveType {
    /// The name that [`Type::from_name`] knows the kind by.
    pub open spec fn label(self) -> Seq<char> {
        match self {
            PrimitiveType::I32 => "i32"@,
            PrimitiveType::F64 => "f64"@,
            PrimitiveType::String => "string"@,
            PrimitiveType::Bool => "bool"@,
            PrimitiveType::Color => "color"@,
        }
    }

    /// The name of the kind.
    pub fn name(&self) -> (r: &'static str)
        ensures
            r@ == self.label(),
    {
        match self {
            PrimitiveType::I32 => "i32",
            PrimitiveType::F64 => "f64",
            PrimitiveType::String => "string",
            PrimitiveType::Bool => "bool",
            PrimitiveType::Color => "color",
        }
    }
}

impl Type for PrimitiveType {
    open spec fn by_name(name: Seq<char>) -> Option<PrimitiveType> {
        if name == "i32"@ {
            Some(PrimitiveType::I32)
        } else if name == "f64"@ {
            Some(PrimitiveType::F64)
        } else if name == "string"@ {
            Some(PrimitiveType::String)
        } else if name == "bool"@ {
            Some(PrimitiveType::Bool)
        } else if name == "color"@ {
            Some(PrimitiveType::Color)
        } else {
            None
        }
    }

    open spec fn base(&self) -> PrimitiveType {
        *self
    }

    open spec fn verdict(&self, value: Seq<char>) -> Result<(), ErrorView> {
        match self {
            PrimitiveType::I32 => if is_i32_text(value) {
                Ok(())
            } else {
                Err(ErrorView::InvalidValue("Expected i32, got '"@ + value + "'"@))
            },
            PrimitiveType::F64 => if is_float_text(value) {
                Ok(())
            } else {
                Err(ErrorView::InvalidValue("Expected f64, got '"@ + value + "'"@))
            },
            PrimitiveType::String => Ok(()),
            PrimitiveType::Bool => if is_bool_text(value) {
                Ok(())
            } else {
                Err(
                    ErrorView::InvalidValue(
                        "Expected bool (true/false/1/0), got '"@ + value + "'"@,
                    ),
                )
            },
            PrimitiveType::Color => if !is_color_shape(value) {
                Err(
                    ErrorView::InvalidValue(
                        "Expected color in #RRGGBB or #RRGGBBAA format, got '"@ + value + "'"@,
                    ),
                )
            } else if !is_color(value) {
                Err(ErrorView::InvalidValue("Invalid hex color '"@ + value + "'"@))
            } else {
                Ok(())
            },
        }
    }

    fn from_name(name: &str) -> (r: Result<PrimitiveType, AamlError>)
        ensures
            r matches Err(e) ==> e@ == ErrorView::NotFound(name@),
    {
        let v = to_chars(name);
        if chars_are(&v, "i32") {
            Ok(PrimitiveType::I32)
        } else if chars_are(&v, "f64") {
            Ok(PrimitiveType::F64)
        } else if chars_are(&v, "string") {
            Ok(PrimitiveType::String)
        } else if chars_are(&v, "bool") {
            Ok(PrimitiveType::Bool)
        } else if chars_are(&v, "color") {
            Ok(PrimitiveType::Color)
        } else {
            Err(AamlError::not_found(name))
        }
    }

    fn base_type(&self) -> (r: PrimitiveType) {
        *self
    }

    fn validate(&self, value: &str) -> (r: Result<(), AamlError>) {
        match self {
            PrimitiveType::I32 => {
                if parse_i32(value).is_none() {
                    return Err(AamlError::invalid_value("Expected i32, got '", value, "'"));
                }
            },
            PrimitiveType::F64 => {
                if !is_float(value) {
                    return Err(AamlError::invalid_value("Expected f64, got '", value, "'"));
                }
            },
            PrimitiveType::String => {},
            PrimitiveType::Bool => {
                let v = to_chars(value);
                if !(chars_are_ignoring_case(&v, "true") || chars_are_ignoring_case(&v, "false")
                    || chars_are_ignoring_case(&v, "1") || chars_are_ignoring_case(&v, "0")) {
                    return Err(
                        AamlError::invalid_value(
                            "Expected bool (true/false/1/0), got '",
                            value,
                            "'",
                        ),
                    );
                }
            },
            PrimitiveType::Color => {
                let v = to_chars(value);
                let n = v.len();
                if !((n == 7 || n == 9) && v[0] == '#') {
                    return Err(
                        AamlError::invalid_value(
                            "Expected color in #RRGGBB or #RRGGBBAA format, got '",
                            value,
                            "'",
                        ),
                    );
                }
                if !is_hex(value.substring_char(1, n)) {
                    return Err(AamlError::invalid_value("Invalid hex color '", value, "'"));
                }
            },
        }
        Ok(())
    }
}

} // verus!
