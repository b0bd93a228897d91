use mapflow::batch::{Batch, Column};
use mapflow::context::ExecutionContext;
use mapflow::error::Error;
use mapflow::expression::{Constant, Expression, FieldExpression};
use mapflow::schema::{DataType, Field, Identifier, ScalarValue, Schema};

fn int_field(name: &str) -> Field {
    Field::new(name.to_string(), DataType::Int64, false)
}

fn flag_field() -> Field {
    Field::new("__retraction".to_string(), DataType::Boolean, false)
}

fn int_column(vals: &[i64]) -> Column {
    Column::new(
        DataType::Int64,
        vals.iter().map(|v| ScalarValue::Int64(*v)).collect(),
    )
}

fn bool_column(vals: &[bool]) -> Column {
    Column::new(
        DataType::Boolean,
        vals.iter().map(|v| ScalarValue::Boolean(*v)).collect(),
    )
}

fn source_schema() -> Schema {
    Schema::new(vec![int_field("a"), int_field("b"), flag_field()])
}

fn three_row_batch() -> Batch {
    Batch::try_new(
        source_schema(),
        vec![
            int_column(&[1, 2, 3]),
            int_column(&[10, 20, 30]),
            bool_column(&[false, false, true]),
        ],
    )
    .unwrap()
}

fn ctx() -> ExecutionContext {
    ExecutionContext::new(false)
}

#[test]
fn field_reference_meta_clones_matching_field() {
    let expr = FieldExpression::new(Identifier::new("b".to_string()));
    let field = expr.field_meta(&Vec::new(), &source_schema()).unwrap();
    assert_eq!(field.name, "b".to_string());
    assert_eq!(field.data_type, DataType::Int64);
    assert!(!field.nullable);
}

#[test]
fn field_reference_returns_exact_column() {
    let batch = three_row_batch();
    let expr = FieldExpression::new(Identifier::new("b".to_string()));
    let col = expr.evaluate(&ctx(), &batch).unwrap();
    assert_eq!(col.data_type, DataType::Int64);
    assert_eq!(
        col.values,
        vec![
            ScalarValue::Int64(10),
            ScalarValue::Int64(20),
            ScalarValue::Int64(30)
        ]
    );
}

#[test]
fn absent_identifier_fails_at_field_meta() {
    let expr = FieldExpression::new(Identifier::new("missing".to_string()));
    let err = expr.field_meta(&Vec::new(), &source_schema()).unwrap_err();
    match err {
        Error::SchemaResolution { name } => assert_eq!(name, "missing".to_string()),
        other => panic!("expected a schema-resolution error, got {:?}", other),
    }
}

#[test]
fn absent_identifier_fails_at_evaluate() {
    let batch = three_row_batch();
    let expr = FieldExpression::new(Identifier::new("missing".to_string()));
    let err = expr.evaluate(&ctx(), &batch).unwrap_err();
    assert!(matches!(err, Error::SchemaResolution { .. }));
}

#[test]
fn constant_int64_over_five_rows() {
    let five_rows = Batch::try_new(
        Schema::new(vec![int_field("a"), flag_field()]),
        vec![
            int_column(&[1, 2, 3, 4, 5]),
            bool_column(&[false; 5]),
        ],
    )
    .unwrap();
    let expr = Constant::new(ScalarValue::Int64(42));
    let field = expr.field_meta(&Vec::new(), five_rows.schema()).unwrap();
    assert_eq!(field.name, String::new());
    assert_eq!(field.data_type, DataType::Int64);
    assert!(!field.nullable);
    let col = expr.evaluate(&ctx(), &five_rows).unwrap();
    assert_eq!(col.data_type, DataType::Int64);
    assert_eq!(col.values, vec![ScalarValue::Int64(42); 5]);
}

#[test]
fn constant_boolean_materializes() {
    let batch = three_row_batch();
    let expr = Constant::new(ScalarValue::Boolean(true));
    let col = expr.evaluate(&ctx(), &batch).unwrap();
    assert_eq!(col.data_type, DataType::Boolean);
    assert_eq!(col.values, vec![ScalarValue::Boolean(true); 3]);
}

#[test]
fn constant_null_descriptor_is_nullable() {
    let expr = Constant::new(ScalarValue::Null);
    let field = expr.field_meta(&Vec::new(), &source_schema()).unwrap();
    assert_eq!(field.name, String::new());
    assert_eq!(field.data_type, DataType::Null);
    assert!(field.nullable);
}

#[test]
fn constant_null_evaluation_is_unsupported() {
    let batch = three_row_batch();
    let expr = Constant::new(ScalarValue::Null);
    let err = expr.evaluate(&ctx(), &batch).unwrap_err();
    match err {
        Error::UnsupportedExpression { data_type } => assert_eq!(data_type, DataType::Null),
        other => panic!("expected an unsupported-expression error, got {:?}", other),
    }
}

#[test]
fn try_new_rejects_column_count_mismatch() {
    let err = Batch::try_new(source_schema(), vec![int_column(&[1])]).unwrap_err();
    assert!(matches!(err, Error::ShapeMismatch));
}

#[test]
fn try_new_rejects_type_mismatch() {
    let err = Batch::try_new(
        source_schema(),
        vec![
            bool_column(&[false]),
            int_column(&[10]),
            bool_column(&[false]),
        ],
    )
    .unwrap_err();
    assert!(matches!(err, Error::ShapeMismatch));
}

#[test]
fn try_new_rejects_row_count_disagreement() {
    let err = Batch::try_new(
        source_schema(),
        vec![
            int_column(&[1, 2]),
            int_column(&[10]),
            bool_column(&[false, false]),
        ],
    )
    .unwrap_err();
    assert!(matches!(err, Error::ShapeMismatch));
}

#[test]
fn try_new_rejects_null_in_non_nullable_column() {
    let bad = Column::new(DataType::Int64, vec![ScalarValue::Int64(1), ScalarValue::Null]);
    let err = Batch::try_new(
        source_schema(),
        vec![bad, int_column(&[10, 20]), bool_column(&[false, false])],
    )
    .unwrap_err();
    assert!(matches!(err, Error::ShapeMismatch));
}

#[test]
fn try_new_accepts_null_in_nullable_column() {
    let schema = Schema::new(vec![
        Field::new("a".to_string(), DataType::Int64, true),
        flag_field(),
    ]);
    let nullable_col = Column::new(
        DataType::Int64,
        vec![ScalarValue::Int64(1), ScalarValue::Null],
    );
    let batch = Batch::try_new(schema, vec![nullable_col, bool_column(&[false, false])]).unwrap();
    assert_eq!(batch.num_rows(), 2);
    assert_eq!(batch.column(0).values[1], ScalarValue::Null);
}
