use column_table::names::position;
use column_table::{ColumnType, DataType, Row, Schema};

fn name(text: &str) -> String {
    text.to_string()
}

#[test]
fn position_finds_the_name_where_it_stands() {
    let names = vec![name("a"), name("b"), name("c")];
    assert_eq!(position(&names, &name("a")), Some(0));
    assert_eq!(position(&names, &name("c")), Some(2));
    assert_eq!(position(&names, &name("d")), None);
    assert_eq!(position(&Vec::new(), &name("a")), None);
}

#[test]
fn position_is_the_first_occurrence() {
    let names = vec![name("a"), name("b"), name("a")];
    assert_eq!(position(&names, &name("a")), Some(0));
}

#[test]
fn new_schema_has_no_columns() {
    let schema = Schema::new();
    assert_eq!(schema.len(), 0);
    assert_eq!(schema.get(&name("age")), None);
}

#[test]
fn schema_gives_the_declared_type() {
    let mut schema = Schema::new();
    schema.insert(name("age"), ColumnType::UnsignedInteger);
    schema.insert(name("name"), ColumnType::Text);
    assert_eq!(schema.len(), 2);
    assert_eq!(schema.get(&name("age")), Some(ColumnType::UnsignedInteger));
    assert_eq!(schema.get(&name("name")), Some(ColumnType::Text));
    assert_eq!(schema.get(&name("Age")), None);
}

#[test]
fn declaring_a_column_again_replaces_its_type() {
    let mut schema = Schema::new();
    schema.insert(name("age"), ColumnType::UnsignedInteger);
    schema.insert(name("name"), ColumnType::Text);
    schema.insert(name("age"), ColumnType::Integer);
    assert_eq!(schema.len(), 2);
    assert_eq!(schema.get(&name("age")), Some(ColumnType::Integer));
    assert_eq!(schema.get(&name("name")), Some(ColumnType::Text));
}

#[test]
fn new_row_has_no_values() {
    assert_eq!(Row::new().len(), 0);
}

#[test]
fn row_counts_each_column_once() {
    let mut row = Row::new();
    row.insert(name("age"), DataType::UnsignedInteger(5));
    row.insert(name("name"), DataType::Text(name("ann")));
    assert_eq!(row.len(), 2);
    row.insert(name("age"), DataType::UnsignedInteger(6));
    assert_eq!(row.len(), 2);
}
