//! Dates, durations and the scalar units of time.

use crate::error::{AamlError, ErrorView};
use crate::number::{is_float, is_float_text, is_u32, is_u32_text};
use crate::text::{chars_are, to_chars};
use crate::types::primitive_type::PrimitiveType;
use crate::types::Type;
use vstd::prelude::*;

verus! {

/// The types of the family `time`.
#[derive(Debug, Clone, Copy, PartialEq, Eq, Structural)]
pub enum TimeTypes {
    DateTime,
    Duration,
    Year,
    Day,
    Hour,
    Minute,
}

/// Whether the first ten characters of `value` are a date, `YYYY-MM-DD`:
/// hyphens in the fifth and the eighth place, and an unsigned integer in
/// each of the three groups around them. Whatever follows the date is not
/// looked at.
pub open spec fn starts_with_date(value: Seq<char>) -> bool {
    &&& value.len() >= 10
    &&& value[4] == '-'
    &&& value[7] == '-'
    &&& is_u32_text(value.subrange(0, 4))
    &&& is_u32_text(value.subrange(5, 7))
    &&& is_u32_text(value.subrange(8, 10))
}

/// Whether `value` is a duration: a text that starts with `P`, or a number
/// of seconds.
pub open spec fn is_duration(value: Seq<char>) -> bool {
    (value.len() > 0 && value[0] == 'P') || is_float_text(value)
}

impl Type for TimeTypes {
    open spec fn by_name(name: Seq<char>) -> Option<TimeTypes> {
        if name == "datetime"@ {
            Some(TimeTypes::DateTime)
        } else if name == "duration"@ {
            Some(TimeTypes::Duration)
        } else if name == "year"@ {
            Some(TimeTypes::Year)
        } else if name == "day"@ {
            Some(TimeTypes::Day)
        } else if name == "hour"@ {
            Some(TimeTypes::Hour)
        } else if name == "minute"@ {
            Some(TimeTypes::Minute)
        } else {
            None
        }
    }

    open spec fn base(&self) -> PrimitiveType {
        PrimitiveType::F64
    }

    open spec fn verdict(&self, value: Seq<char>) -> Result<(), ErrorView> {
        match self {
            TimeTypes::DateTime => if value.len() < 10 {
                Err(
                    ErrorView::InvalidValue(
                        "Invalid DateTime '"@ + value
                            + "': expected ISO 8601 format (YYYY-MM-DD or YYYY-MM-DDTHH:MM:SS)"@,
                    ),
                )
            } else if !starts_with_date(value) {
                Err(
                    ErrorView::InvalidValue(
                        "Invalid DateTime '"@ + value + "': expected ISO 8601 format"@,
                    ),
                )
            } else {
                Ok(())
            },
            TimeTypes::Duration => if is_duration(value) {
                Ok(())
            } else {
                Err(
                    ErrorView::InvalidValue(
                        "Invalid Duration '"@ + value
                            + "': expected number (seconds) or ISO 8601 duration"@,
                    ),
                )
            },
            _ => if is_float_text(value) {
                Ok(())
            } else {
                Err(
                    ErrorView::InvalidValue(
                        "Invalid time value '"@ + value + "': expected a number"@,
                    ),
                )
            },
        }
    }

    fn from_name(name: &str) -> (r: Result<TimeTypes, AamlError>)
        ensures
            r matches Err(e) ==> e@ == ErrorView::NotFound(name@),
    {
        let v = to_chars(name);
        if chars_are(&v, "datetime") {
            Ok(TimeTypes::DateTime)
        } else if chars_are(&v, "duration") {
            Ok(TimeTypes::Duration)
        } else if chars_are(&v, "year") {
            Ok(TimeTypes::Year)
        } else if chars_are(&v, "day") {
            Ok(TimeTypes::Day)
        } else if chars_are(&v, "hour") {
            Ok(TimeTypes::Hour)
        } else if chars_are(&v, "minute") {
            Ok(TimeTypes::Minute)
        } else {
            Err(AamlError::not_found(name))
        }
    }

    fn base_type(&self) -> (r: PrimitiveType) {
        PrimitiveType::F64
    }

    fn validate(&self, value: &str) -> (r: Result<(), AamlError>) {
        match self {
            TimeTypes::DateTime => {
                let v = to_chars(value);
                if v.len() < 10 {
                    return Err(
                        AamlError::invalid_value(
                            "Invalid DateTime '",
                            value,
                            "': expected ISO 8601 format (YYYY-MM-DD or YYYY-MM-DDTHH:MM:SS)",
                        ),
                    );
                }
                if v[4] != '-' || v[7] != '-' || !is_u32(value.substring_char(0, 4)) || !is_u32(
                    value.substring_char(5, 7),
                ) || !is_u32(value.substring_char(8, 10)) {
                    return Err(
                        AamlError::invalid_value(
                            "Invalid DateTime '",
                            value,
                            "': expected ISO 8601 format",
                        ),
                    );
                }
                Ok(())
            },
            TimeTypes::Duration => {
                let v = to_chars(value);
                if (v.len() > 0 && v[0] == 'P') || is_float(value) {
                    Ok(())
                } else {
                    Err(
                        AamlError::invalid_value(
                            "Invalid Duration '",
                            value,
                            "': expected number (seconds) or ISO 8601 duration",
                        ),
                    )
                }
            },
            TimeTypes::Year | TimeTypes::Day | TimeTypes::Hour | TimeTypes::Minute => {
                if is_float(value) {
                    Ok(())
                } else {
                    Err(
                        AamlError::invalid_value(
                            "Invalid time value '",
                            value,
                            "': expected a number",
                        ),
                    )
                }
            },
        }
    }
}

} // verus!
