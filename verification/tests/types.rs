use aam_rs::commands::typecm::TypeDefinition;
use aam_rs::error::AamlError;
use aam_rs::types::math::MathTypes;
use aam_rs::types::physics::PhysicsTypes;
use aam_rs::types::primitive_type::PrimitiveType;
use aam_rs::types::time::TimeTypes;
use aam_rs::types::{resolve_builtin, validate_tuple, BuiltinType, Type};

fn invalid(r: Result<(), AamlError>) -> String {
    match r {
        Err(AamlError::InvalidValue(message)) => message,
        other => panic!("expected an invalid value, got {:?}", other),
    }
}

fn not_found<T: std::fmt::Debug>(r: Result<T, AamlError>) -> String {
    match r {
        Err(AamlError::NotFound(name)) => name,
        other => panic!("expected a not-found error, got {:?}", other),
    }
}

#[test]
fn primitive_names() {
    assert_eq!(PrimitiveType::from_name("i32").unwrap(), PrimitiveType::I32);
    assert_eq!(PrimitiveType::from_name("f64").unwrap(), PrimitiveType::F64);
    assert_eq!(PrimitiveType::from_name("string").unwrap(), PrimitiveType::String);
    assert_eq!(PrimitiveType::from_name("bool").unwrap(), PrimitiveType::Bool);
    assert_eq!(PrimitiveType::from_name("color").unwrap(), PrimitiveType::Color);
    assert_eq!(not_found(PrimitiveType::from_name("I32")), "I32");
    assert_eq!(not_found(PrimitiveType::from_name("")), "");
}

#[test]
fn primitive_name_reads_back() {
    for kind in [
        PrimitiveType::I32,
        PrimitiveType::F64,
        PrimitiveType::String,
        PrimitiveType::Bool,
        PrimitiveType::Color,
    ] {
        assert_eq!(PrimitiveType::from_name(kind.name()).unwrap(), kind);
        assert_eq!(kind.base_type(), kind);
    }
}

#[test]
fn integer_rule() {
    let t = PrimitiveType::I32;
    for ok in ["0", "42", "-7", "+5", "2147483647", "-2147483648", "0042"] {
        assert!(t.validate(ok).is_ok(), "{:?}", ok);
    }
    for bad in ["", "+", "-", "1.5", " 1", "1 ", "abc", "2147483648", "-2147483649", "1e3"] {
        assert_eq!(invalid(t.validate(bad)), format!("Expected i32, got '{}'", bad));
    }
}

#[test]
fn float_rule() {
    let t = PrimitiveType::F64;
    for ok in ["0", "1.5", ".5", "5.", "-1e-9", "+2E10", "inf", "-Infinity", "NaN"] {
        assert!(t.validate(ok).is_ok(), "{:?}", ok);
    }
    for bad in ["", ".", "1e", "e1", "1.2.3", " 1", "1,5", "0x1", "infinit"] {
        assert_eq!(invalid(t.validate(bad)), format!("Expected f64, got '{}'", bad));
    }
}

#[test]
fn string_rule_accepts_everything() {
    for any in ["", "x", " # = @ ", "\u{0}"] {
        assert!(PrimitiveType::String.validate(any).is_ok());
    }
}

#[test]
fn bool_rule() {
    let t = PrimitiveType::Bool;
    for ok in ["true", "false", "1", "0", "TRUE", "False", "tRuE"] {
        assert!(t.validate(ok).is_ok(), "{:?}", ok);
    }
    for bad in ["", "yes", "no", "2", " true", "true ", "10", "t"] {
        assert_eq!(
            invalid(t.validate(bad)),
            format!("Expected bool (true/false/1/0), got '{}'", bad)
        );
    }
}

#[test]
fn bool_rule_is_lowercase_match() {
    for text in ["TRUE", "True", "fAlSe", "\u{212a}", "ＴＲＵＥ", "1", "0", "01", "İ"] {
        let lowered = text.to_lowercase();
        let expected = matches!(lowered.as_str(), "true" | "false" | "1" | "0");
        assert_eq!(PrimitiveType::Bool.validate(text).is_ok(), expected, "{:?}", text);
    }
}

#[test]
fn color_rule() {
    let t = PrimitiveType::Color;
    for ok in ["#FF00FF", "#ff00ff", "#000000", "#FF00FF80", "#12345678", "#aBcDeF"] {
        assert!(t.validate(ok).is_ok(), "{:?}", ok);
    }
    for bad in ["#FF00F", "#FF00FF8", "FF00FF0", "", "#", "#FF00FF800", "0#FF00F"] {
        assert_eq!(
            invalid(t.validate(bad)),
            format!("Expected color in #RRGGBB or #RRGGBBAA format, got '{}'", bad)
        );
    }
    for bad in ["#GG0000", "#FF00FZ", "#-F00FF", "#+F00FF", "#+FF00F", "#+1234567", "#FF 0FF", "#12345é"] {
        assert_eq!(invalid(t.validate(bad)), format!("Invalid hex color '{}'", bad));
    }
}

#[test]
fn color_rule_is_shape_and_hex_digits() {
    for text in ["#FF00FF", "#+F00FF", "#++0000", "#-000000", "#+", "#0000000", "#00000000", "#abcdef"] {
        let count = text.chars().count();
        let expected = text.starts_with('#')
            && (count == 7 || count == 9)
            && text[1..].chars().all(|c| c.is_ascii_hexdigit());
        assert_eq!(PrimitiveType::Color.validate(text).is_ok(), expected, "{:?}", text);
    }
    assert!(PrimitiveType::Color.validate("#+FF00F").is_err());
}

#[test]
fn math_names_and_sizes() {
    let cases = [
        ("vector2", MathTypes::Vector2, 2),
        ("vector3", MathTypes::Vector3, 3),
        ("vector4", MathTypes::Vector4, 4),
        ("quaternion", MathTypes::Quaternion, 4),
        ("matrix3x3", MathTypes::Matrix3x3, 9),
        ("matrix4x4", MathTypes::Matrix4x4, 16),
    ];
    for (name, kind, size) in cases {
        assert_eq!(MathTypes::from_name(name).unwrap(), kind);
        assert_eq!(kind.components(), size);
        assert_eq!(kind.base_type(), PrimitiveType::F64);
        let value = vec!["1.5"; size].join(", ");
        assert!(kind.validate(&value).is_ok());
        let short = vec!["1.5"; size - 1].join(",");
        assert_eq!(
            invalid(kind.validate(&short)),
            format!("Expected {} components, got {}", size, size - 1)
        );
    }
    assert_eq!(not_found(MathTypes::from_name("vector5")), "vector5");
}

#[test]
fn vector_rule() {
    let t = MathTypes::Vector3;
    assert!(t.validate("1,2,3").is_ok());
    assert!(t.validate(" 1.0 ,\t-2e3 , .5 ").is_ok());
    assert_eq!(invalid(t.validate("1,2")), "Expected 3 components, got 2");
    assert_eq!(invalid(t.validate("1,2,3,4")), "Expected 3 components, got 4");
    assert_eq!(invalid(t.validate("")), "Expected 3 components, got 1");
    assert_eq!(invalid(t.validate("1, x ,y")), "Invalid number: x");
    assert_eq!(invalid(t.validate("1,,3")), "Invalid number: ");
    assert_eq!(invalid(t.validate("1,2,")), "Invalid number: ");
}

#[test]
fn wrong_count_is_reported_before_wrong_component() {
    assert_eq!(
        invalid(MathTypes::Vector2.validate("x,y,z")),
        "Expected 2 components, got 3"
    );
}

#[test]
fn tuple_rule_with_large_counts() {
    let value = vec!["0"; 12].join(",");
    assert_eq!(invalid(validate_tuple(&value, 100)), "Expected 100 components, got 12");
    assert!(validate_tuple(&value, 12).is_ok());
}

#[test]
fn time_names() {
    assert_eq!(TimeTypes::from_name("datetime").unwrap(), TimeTypes::DateTime);
    assert_eq!(TimeTypes::from_name("duration").unwrap(), TimeTypes::Duration);
    assert_eq!(TimeTypes::from_name("year").unwrap(), TimeTypes::Year);
    assert_eq!(TimeTypes::from_name("day").unwrap(), TimeTypes::Day);
    assert_eq!(TimeTypes::from_name("hour").unwrap(), TimeTypes::Hour);
    assert_eq!(TimeTypes::from_name("minute").unwrap(), TimeTypes::Minute);
    assert_eq!(not_found(TimeTypes::from_name("second")), "second");
    assert_eq!(TimeTypes::DateTime.base_type(), PrimitiveType::F64);
}

#[test]
fn datetime_rule() {
    let t = TimeTypes::DateTime;
    for ok in ["2024-01-15", "2024-01-15T10:30:00", "0000-00-00", "2024-01-15 anything", "+123-+1-+2"] {
        assert!(t.validate(ok).is_ok(), "{:?}", ok);
    }
    for short in ["", "2024-1-15", "2024-01-1"] {
        assert_eq!(
            invalid(t.validate(short)),
            format!(
                "Invalid DateTime '{}': expected ISO 8601 format (YYYY-MM-DD or YYYY-MM-DDTHH:MM:SS)",
                short
            )
        );
    }
    for bad in [
        "2024/01/15",
        "20240-1-15",
        "2024-01015",
        "abcd-01-15",
        "2024-0a-15",
        "2024-01-1x",
        "2024-01--5",
        "-024-01-15",
        "2024-−1-15",
    ] {
        assert_eq!(
            invalid(t.validate(bad)),
            format!("Invalid DateTime '{}': expected ISO 8601 format", bad)
        );
    }
}

#[test]
fn duration_rule() {
    let t = TimeTypes::Duration;
    for ok in ["P1D", "PT5M", "P", "Pnonsense", "12.5", "-3", "1e3"] {
        assert!(t.validate(ok).is_ok(), "{:?}", ok);
    }
    for bad in ["", "p1d", "1h", " P1D"] {
        assert_eq!(
            invalid(t.validate(bad)),
            format!("Invalid Duration '{}': expected number (seconds) or ISO 8601 duration", bad)
        );
    }
}

#[test]
fn scalar_time_rules() {
    for t in [TimeTypes::Year, TimeTypes::Day, TimeTypes::Hour, TimeTypes::Minute] {
        assert!(t.validate("2024").is_ok());
        assert!(t.validate("0.5").is_ok());
        assert_eq!(
            invalid(t.validate("soon")),
            "Invalid time value 'soon': expected a number"
        );
    }
}

#[test]
fn physics_names_and_sizes() {
    let cases = [
        ("mass", PhysicsTypes::Mass, 1),
        ("energy", PhysicsTypes::Energy, 1),
        ("temperature", PhysicsTypes::Temperature, 1),
        ("velocity", PhysicsTypes::Velocity, 3),
        ("acceleration", PhysicsTypes::Acceleration, 3),
        ("force", PhysicsTypes::Force, 3),
    ];
    for (name, kind, size) in cases {
        assert_eq!(PhysicsTypes::from_name(name).unwrap(), kind);
        assert_eq!(kind.components(), size);
        assert_eq!(kind.base_type(), PrimitiveType::F64);
    }
    assert!(PhysicsTypes::Mass.validate(" 12.5 ").is_ok());
    assert_eq!(invalid(PhysicsTypes::Mass.validate("1,2")), "Expected 1 components, got 2");
    assert_eq!(invalid(PhysicsTypes::Mass.validate("heavy")), "Invalid number: heavy");
    assert!(PhysicsTypes::Force.validate("0, -9.81, 0").is_ok());
    assert_eq!(invalid(PhysicsTypes::Force.validate("0,0")), "Expected 3 components, got 2");
    assert_eq!(not_found(PhysicsTypes::from_name("charge")), "charge");
}

#[test]
fn builtin_paths() {
    assert_eq!(resolve_builtin("i32").unwrap(), BuiltinType::Primitive(PrimitiveType::I32));
    assert_eq!(resolve_builtin("color").unwrap(), BuiltinType::Primitive(PrimitiveType::Color));
    assert_eq!(resolve_builtin("math::vector3").unwrap(), BuiltinType::Math(MathTypes::Vector3));
    assert_eq!(resolve_builtin("time::datetime").unwrap(), BuiltinType::Time(TimeTypes::DateTime));
    assert_eq!(
        resolve_builtin("physics::velocity").unwrap(),
        BuiltinType::Physics(PhysicsTypes::Velocity)
    );
    assert_eq!(BuiltinType::from_name("math::quaternion").unwrap(), BuiltinType::Math(MathTypes::Quaternion));
}

#[test]
fn unknown_builtin_paths_name_the_whole_path() {
    for path in [
        "nope",
        "nope::vector3",
        "math::nope",
        "math::",
        "::vector3",
        "math::vector3::x",
        "math:vector3",
        "Math::vector3",
        "vector3",
        "time::vector3",
        "",
        "::",
    ] {
        assert_eq!(not_found(resolve_builtin(path)), path);
    }
}

#[test]
fn builtin_type_applies_the_rule_of_its_member() {
    let vector = resolve_builtin("math::vector3").unwrap();
    assert!(vector.validate("1,2,3").is_ok());
    assert_eq!(invalid(vector.validate("1,2")), "Expected 3 components, got 2");
    assert_eq!(vector.base_type(), PrimitiveType::F64);
    let color = resolve_builtin("color").unwrap();
    assert!(color.validate("#FF00FF").is_ok());
    assert_eq!(color.base_type(), PrimitiveType::Color);
}

#[test]
fn definition_of_a_primitive() {
    let t = TypeDefinition::Primitive("i32".to_string());
    assert!(t.validate("5").is_ok());
    assert_eq!(invalid(t.validate("x")), "Expected i32, got 'x'");
    assert_eq!(t.base_type(), PrimitiveType::I32);
}

#[test]
fn definition_of_an_unknown_primitive_fails_when_used() {
    let t = TypeDefinition::Primitive("integer".to_string());
    assert_eq!(not_found(t.validate("5")), "integer");
    assert_eq!(t.base_type(), PrimitiveType::String);
}

#[test]
fn definition_of_a_builtin() {
    let t = TypeDefinition::Builtin("math::vector2".to_string());
    assert!(t.validate("1, 2").is_ok());
    assert_eq!(invalid(t.validate("1")), "Expected 2 components, got 1");
    assert_eq!(t.base_type(), PrimitiveType::F64);
    let unknown = TypeDefinition::Builtin("maths::vector2".to_string());
    assert_eq!(not_found(unknown.validate("1, 2")), "maths::vector2");
    assert_eq!(unknown.base_type(), PrimitiveType::String);
}

#[test]
fn alias_accepts_everything() {
    let t = TypeDefinition::Alias("anything".to_string());
    assert!(t.validate("").is_ok());
    assert!(t.validate("whatever # = @").is_ok());
    assert_eq!(t.base_type(), PrimitiveType::String);
}

#[test]
fn definition_has_no_name_of_its_own() {
    assert_eq!(
        not_found(TypeDefinition::from_name("i32")),
        "TypeDefinition::from_name not supported"
    );
}

#[test]
fn definition_clones() {
    let t = TypeDefinition::Builtin("time::year".to_string());
    let copy = t.clone();
    assert!(matches!(copy, TypeDefinition::Builtin(ref path) if path == "time::year"));
}
