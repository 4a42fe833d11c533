use column_table::{default_value_column_type, ColumnType, DataType};

fn all_types() -> Vec<ColumnType> {
    vec![
        ColumnType::Text,
        ColumnType::Integer,
        ColumnType::UnsignedInteger,
        ColumnType::Float,
        ColumnType::Bool,
    ]
}

fn one_of_each() -> Vec<DataType> {
    vec![
        DataType::Text("abc".to_string()),
        DataType::Integer(-7),
        DataType::UnsignedInteger(7),
        DataType::Float(1.5f32.to_bits()),
        DataType::Bool(true),
    ]
}

#[test]
fn default_text_is_empty() {
    assert!(default_value_column_type(&ColumnType::Text) == DataType::Text(String::new()));
}

#[test]
fn default_integer_is_zero() {
    assert!(default_value_column_type(&ColumnType::Integer) == DataType::Integer(0));
}

#[test]
fn default_unsigned_integer_is_zero() {
    assert!(
        default_value_column_type(&ColumnType::UnsignedInteger) == DataType::UnsignedInteger(0)
    );
}

#[test]
fn default_float_is_zero() {
    match default_value_column_type(&ColumnType::Float) {
        DataType::Float(bits) => {
            assert_eq!(bits, 0);
            assert_eq!(f32::from_bits(bits), 0.0f32);
            assert!(f32::from_bits(bits).is_sign_positive());
        }
        other => panic!("expected a float, got {:?}", other),
    }
}

#[test]
fn default_bool_is_false() {
    assert!(default_value_column_type(&ColumnType::Bool) == DataType::Bool(false));
}

#[test]
fn default_value_matches_its_own_type_only() {
    for ty in all_types() {
        let cell = default_value_column_type(&ty);
        for other in all_types() {
            assert_eq!(cell.matches(&other), ty == other);
        }
    }
}

#[test]
fn column_type_names_the_variant() {
    let cells = one_of_each();
    let types = all_types();
    for i in 0..cells.len() {
        assert_eq!(cells[i].column_type(), types[i]);
    }
}

#[test]
fn value_matches_exactly_its_variant() {
    let cells = one_of_each();
    let types = all_types();
    for i in 0..cells.len() {
        for j in 0..types.len() {
            assert_eq!(cells[i].matches(&types[j]), i == j);
        }
    }
}

#[test]
fn integer_does_not_match_unsigned_integer() {
    assert!(!DataType::Integer(5).matches(&ColumnType::UnsignedInteger));
    assert!(!DataType::UnsignedInteger(5).matches(&ColumnType::Integer));
}

#[test]
fn float_does_not_match_integer() {
    assert!(!DataType::Float(5.0f32.to_bits()).matches(&ColumnType::Integer));
    assert!(!DataType::Integer(5).matches(&ColumnType::Float));
}

#[test]
fn equal_cells_have_equal_variant_and_content() {
    assert!(DataType::Text("a".to_string()) == DataType::Text("a".to_string()));
    assert!(DataType::Text("a".to_string()) != DataType::Text("b".to_string()));
    assert!(DataType::Integer(3) == DataType::Integer(3));
    assert!(DataType::Integer(3) != DataType::Integer(4));
    assert!(DataType::UnsignedInteger(3) == DataType::UnsignedInteger(3));
    assert!(DataType::UnsignedInteger(3) != DataType::UnsignedInteger(4));
    assert!(DataType::Float(2.5f32.to_bits()) == DataType::Float(2.5f32.to_bits()));
    assert!(DataType::Float(2.5f32.to_bits()) != DataType::Float(2.75f32.to_bits()));
    assert!(DataType::Bool(true) == DataType::Bool(true));
    assert!(DataType::Bool(true) != DataType::Bool(false));
}

#[test]
fn cells_of_different_variants_are_never_equal() {
    let cells = one_of_each();
    for i in 0..cells.len() {
        for j in 0..cells.len() {
            assert_eq!(cells[i] == cells[j], i == j);
        }
    }
    assert!(DataType::Integer(0) != DataType::UnsignedInteger(0));
    assert!(DataType::UnsignedInteger(0) != DataType::Float(0));
    assert!(DataType::Bool(false) != DataType::Integer(0));
}

#[test]
fn clone_keeps_variant_and_content() {
    for cell in one_of_each() {
        let copy = cell.clone();
        assert!(copy == cell);
    }
}

#[test]
fn float_cell_carries_the_bits_of_the_number() {
    let cell = DataType::Float((-0.25f32).to_bits());
    match cell.clone() {
        DataType::Float(bits) => assert_eq!(f32::from_bits(bits), -0.25f32),
        other => panic!("expected a float, got {:?}", other),
    }
}
