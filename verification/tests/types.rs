use pascal_frontend::types::{DataType, ObjectKind};

#[test]
fn integer_and_real_are_compatible_both_ways() {
    assert!(DataType::Integer.is_compatible(&DataType::Real));
    assert!(DataType::Real.is_compatible(&DataType::Integer));
    assert!(DataType::Char.is_compatible(&DataType::Char));
    assert!(!DataType::Char.is_compatible(&DataType::String));
    assert!(!DataType::Unknown.is_compatible(&DataType::Unknown));
    assert!(!DataType::Array(0).is_compatible(&DataType::Array(0)));
}

#[test]
fn assignment_widens_in_one_direction_only() {
    assert!(DataType::can_assign(&DataType::Real, &DataType::Integer));
    assert!(!DataType::can_assign(&DataType::Integer, &DataType::Real));
    assert!(DataType::can_assign(&DataType::Boolean, &DataType::Boolean));
    assert!(DataType::can_assign(
        &DataType::UserDefined("t".to_string()),
        &DataType::UserDefined("t".to_string())
    ));
    assert!(!DataType::can_assign(
        &DataType::UserDefined("t".to_string()),
        &DataType::UserDefined("u".to_string())
    ));
    assert!(!DataType::can_assign(&DataType::Void, &DataType::Void));
}

#[test]
fn arithmetic_result_types() {
    assert!(matches!(
        DataType::get_arithmetic_result_type(&DataType::Integer, &DataType::Integer),
        Ok(DataType::Integer)
    ));
    assert!(matches!(
        DataType::get_arithmetic_result_type(&DataType::Integer, &DataType::Real),
        Ok(DataType::Real)
    ));
    assert!(matches!(
        DataType::get_arithmetic_result_type(&DataType::Real, &DataType::Real),
        Ok(DataType::Real)
    ));
    match DataType::get_arithmetic_result_type(&DataType::Boolean, &DataType::Array(12)) {
        Err(message) => assert_eq!(
            message,
            "Arithmetic operation not supported between boolean and array[12]"
        ),
        Ok(_) => panic!("boolean and array allow no arithmetic"),
    }
}

#[test]
fn relational_and_logical_result_types() {
    assert!(matches!(
        DataType::get_relational_result_type(&DataType::Real, &DataType::Integer),
        Ok(DataType::Boolean)
    ));
    match DataType::get_relational_result_type(&DataType::Char, &DataType::Integer) {
        Err(message) => assert_eq!(message, "Cannot compare incompatible types char and integer"),
        Ok(_) => panic!("char and integer cannot be compared"),
    }
    assert!(matches!(
        DataType::get_logical_result_type(&DataType::Boolean, &DataType::Boolean),
        Ok(DataType::Boolean)
    ));
    match DataType::get_logical_result_type(&DataType::Boolean, &DataType::Void) {
        Err(message) => assert_eq!(
            message,
            "Logical operation requires boolean operands, got boolean and void"
        ),
        Ok(_) => panic!("void is no boolean"),
    }
}

#[test]
fn numeric_and_ordinal_types() {
    assert!(DataType::Integer.is_numeric());
    assert!(DataType::Real.is_numeric());
    assert!(!DataType::Boolean.is_numeric());
    assert!(DataType::Integer.is_ordinal());
    assert!(DataType::Char.is_ordinal());
    assert!(DataType::Boolean.is_ordinal());
    assert!(!DataType::Real.is_ordinal());
}

#[test]
fn numeric_codes_and_names() {
    assert_eq!(DataType::Void.to_numeric(), "0");
    assert_eq!(DataType::Integer.to_numeric(), "1");
    assert_eq!(DataType::Real.to_numeric(), "2");
    assert_eq!(DataType::Boolean.to_numeric(), "3");
    assert_eq!(DataType::String.to_numeric(), "4");
    assert_eq!(DataType::Char.to_numeric(), "5");
    assert_eq!(DataType::Array(7).to_numeric(), "7");
    assert_eq!(DataType::Array(1203).to_numeric(), "1203");
    assert_eq!(DataType::UserDefined("t".to_string()).to_numeric(), "6");
    assert_eq!(DataType::Unknown.to_numeric(), "-");
    assert_eq!(DataType::Array(0).name(), "array[0]");
    assert_eq!(DataType::UserDefined("warna".to_string()).name(), "warna");
    assert_eq!(DataType::Unknown.name(), "unknown");
    assert!(DataType::Array(3) == DataType::Array(3));
    assert!(DataType::Array(3) != DataType::Array(4));
    assert!(DataType::UserDefined("t".to_string()) == DataType::UserDefined("t".to_string()));
    assert!(DataType::UserDefined("t".to_string()) != DataType::UserDefined("u".to_string()));
    assert!(DataType::Integer != DataType::Real);
    assert!(DataType::Unknown == DataType::Unknown);
    assert_eq!(ObjectKind::Variable, ObjectKind::Variable);
}
