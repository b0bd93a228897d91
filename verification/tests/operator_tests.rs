use mapflow::batch::{Batch, Column};
use mapflow::context::{BatchSink, ExecutionContext, MetaSink, Metadata};
use mapflow::error::Error;
use mapflow::expression::{AnyExpression, Constant, FieldExpression};
use mapflow::map::MapOperator;
use mapflow::node::{BatchSource, Node};
use mapflow::schema::{DataType, Field, Identifier, ScalarValue, Schema};

fn int_field(name: &str) -> Field {
    Field::new(name.to_string(), DataType::Int64, false)
}

fn flag_field() -> Field {
    Field::new("__retraction".to_string(), DataType::Boolean, false)
}

fn int_column(vals: &[i64]) -> Column {
    Column::new(
        DataType::Int64,
        vals.iter().map(|v| ScalarValue::Int64(*v)).collect(),
    )
}

fn bool_column(vals: &[bool]) -> Column {
    Column::new(
        DataType::Boolean,
        vals.iter().map(|v| ScalarValue::Boolean(*v)).collect(),
    )
}

fn source_schema() -> Schema {
    Schema::new(vec![int_field("a"), int_field("b"), flag_field()])
}

fn three_row_batch() -> Batch {
    Batch::try_new(
        source_schema(),
        vec![
            int_column(&[1, 2, 3]),
            int_column(&[10, 20, 30]),
            bool_column(&[false, false, true]),
        ],
    )
    .unwrap()
}

fn field_ref(name: &str) -> AnyExpression {
    AnyExpression::Field(FieldExpression::new(Identifier::new(name.to_string())))
}

fn int_const(n: i64) -> AnyExpression {
    AnyExpression::Constant(Constant::new(ScalarValue::Int64(n)))
}

fn names(list: &[&str]) -> Vec<Identifier> {
    list.iter()
        .map(|n| Identifier::new(n.to_string()))
        .collect()
}

fn scenario_map() -> MapOperator<BatchSource> {
    let source = BatchSource::new(source_schema(), vec![three_row_batch()], Vec::new());
    MapOperator::new(
        source,
        vec![field_ref("a"), int_const(99)],
        names(&["x", "y"]),
    )
}

fn run(
    map: &MapOperator<BatchSource>,
    cancelled: bool,
) -> (Result<(), Error>, BatchSink, MetaSink) {
    let ctx = ExecutionContext::new(cancelled);
    let mut out = BatchSink::new();
    let mut meta = MetaSink::new();
    let r = map.run(&ctx, &mut out, &mut meta);
    (r, out, meta)
}

#[test]
fn map_schema_renames_in_order_and_appends_flag() {
    let map = scenario_map();
    let schema = map.schema().unwrap();
    let fields = &schema.fields;
    assert_eq!(fields.len(), 3);
    assert_eq!(fields[0].name, "x".to_string());
    assert_eq!(fields[0].data_type, DataType::Int64);
    assert!(!fields[0].nullable);
    assert_eq!(fields[1].name, "y".to_string());
    assert_eq!(fields[1].data_type, DataType::Int64);
    assert!(!fields[1].nullable);
    assert_eq!(fields[2].name, "__retraction".to_string());
    assert_eq!(fields[2].data_type, DataType::Boolean);
    assert!(!fields[2].nullable);
}

#[test]
fn map_end_to_end_scenario() {
    let map = scenario_map();
    let (r, out, _) = run(&map, false);
    r.unwrap();
    assert_eq!(out.batches.len(), 1);
    let batch = &out.batches[0];
    assert_eq!(batch.num_rows(), 3);
    assert_eq!(batch.num_columns(), 3);
    assert_eq!(
        batch.column(0).values,
        vec![
            ScalarValue::Int64(1),
            ScalarValue::Int64(2),
            ScalarValue::Int64(3)
        ]
    );
    assert_eq!(batch.column(1).values, vec![ScalarValue::Int64(99); 3]);
    assert_eq!(
        batch.column(2).values,
        vec![
            ScalarValue::Boolean(false),
            ScalarValue::Boolean(false),
            ScalarValue::Boolean(true)
        ]
    );
}

#[test]
fn map_preserves_row_count_and_flag_column() {
    let map = scenario_map();
    let (r, out, _) = run(&map, false);
    r.unwrap();
    let input = three_row_batch();
    let output = &out.batches[0];
    assert_eq!(output.num_rows(), input.num_rows());
    let in_last = input.column(input.num_columns() - 1);
    let out_last = output.column(output.num_columns() - 1);
    assert_eq!(out_last.data_type, in_last.data_type);
    assert_eq!(out_last.values, in_last.values);
}

#[test]
fn map_run_is_idempotent() {
    let map = scenario_map();
    let (r1, out1, meta1) = run(&map, false);
    let (r2, out2, meta2) = run(&map, false);
    assert!(r1.is_ok());
    assert!(r2.is_ok());
    assert_eq!(out1.batches.len(), out2.batches.len());
    for (b1, b2) in out1.batches.iter().zip(out2.batches.iter()) {
        assert_eq!(b1.num_rows(), b2.num_rows());
        assert_eq!(b1.num_columns(), b2.num_columns());
        for c in 0..b1.num_columns() {
            assert_eq!(b1.column(c).data_type, b2.column(c).data_type);
            assert_eq!(b1.column(c).values, b2.column(c).values);
        }
    }
    assert_eq!(meta1.items, meta2.items);
}

#[test]
fn map_schema_consistent_with_emitted_batches() {
    let map = scenario_map();
    let predicted = map.schema().unwrap();
    let (r, out, _) = run(&map, false);
    r.unwrap();
    let emitted = out.batches[0].schema();
    assert_eq!(emitted.fields.len(), predicted.fields.len());
    for (e, p) in emitted.fields.iter().zip(predicted.fields.iter()) {
        assert_eq!(e.name, p.name);
        assert_eq!(e.data_type, p.data_type);
        assert_eq!(e.nullable, p.nullable);
    }
}

#[test]
fn unknown_field_fails_schema_resolution() {
    let source = BatchSource::new(source_schema(), Vec::new(), Vec::new());
    let map = MapOperator::new(source, vec![field_ref("missing")], names(&["x"]));
    let err = map.schema().unwrap_err();
    match err {
        Error::SchemaResolution { name } => assert_eq!(name, "missing".to_string()),
        other => panic!("expected a schema-resolution error, got {:?}", other),
    }
    let (r, out, _) = run(&map, false);
    assert!(matches!(r, Err(Error::SchemaResolution { .. })));
    assert!(out.batches.is_empty());
}

#[test]
fn output_name_shadowing_the_flag_is_rejected() {
    let source = BatchSource::new(source_schema(), Vec::new(), Vec::new());
    let map = MapOperator::new(
        source,
        vec![field_ref("a"), field_ref("b")],
        names(&["x", "__retraction"]),
    );
    assert!(matches!(map.schema(), Err(Error::NameCollision)));
}

#[test]
fn duplicate_output_names_are_rejected() {
    let source = BatchSource::new(source_schema(), Vec::new(), Vec::new());
    let map = MapOperator::new(
        source,
        vec![field_ref("a"), field_ref("b")],
        names(&["x", "x"]),
    );
    assert!(matches!(map.schema(), Err(Error::NameCollision)));
}

#[test]
fn null_constant_fails_run_with_no_partial_output() {
    let source = BatchSource::new(source_schema(), vec![three_row_batch()], Vec::new());
    let map = MapOperator::new(
        source,
        vec![
            field_ref("a"),
            AnyExpression::Constant(Constant::new(ScalarValue::Null)),
        ],
        names(&["x", "y"]),
    );
    let schema = map.schema().unwrap();
    assert_eq!(schema.fields[1].name, "y".to_string());
    assert_eq!(schema.fields[1].data_type, DataType::Null);
    assert!(schema.fields[1].nullable);
    let (r, out, _) = run(&map, false);
    assert!(matches!(r, Err(Error::UnsupportedExpression { .. })));
    assert!(out.batches.is_empty());
}

#[test]
fn cancelled_context_stops_run_before_any_batch() {
    let map = scenario_map();
    let (r, out, meta) = run(&map, true);
    assert!(matches!(r, Err(Error::Cancelled)));
    assert!(out.batches.is_empty());
    assert!(meta.items.is_empty());
}

#[test]
fn metadata_is_forwarded_unchanged() {
    let source = BatchSource::new(
        source_schema(),
        vec![three_row_batch()],
        vec![Metadata::Watermark(7), Metadata::SchemaChange],
    );
    let map = MapOperator::new(source, vec![field_ref("a")], names(&["x"]));
    let (r, _, meta) = run(&map, false);
    r.unwrap();
    assert_eq!(
        meta.items,
        vec![Metadata::Watermark(7), Metadata::SchemaChange]
    );
}

#[test]
fn map_over_empty_source_emits_nothing() {
    let source = BatchSource::new(source_schema(), Vec::new(), Vec::new());
    let map = MapOperator::new(source, vec![field_ref("a")], names(&["x"]));
    let (r, out, meta) = run(&map, false);
    r.unwrap();
    assert!(out.batches.is_empty());
    assert!(meta.items.is_empty());
}

#[test]
fn map_emits_batches_in_source_order() {
    let first = Batch::try_new(
        source_schema(),
        vec![
            int_column(&[1]),
            int_column(&[10]),
            bool_column(&[false]),
        ],
    )
    .unwrap();
    let second = Batch::try_new(
        source_schema(),
        vec![
            int_column(&[2]),
            int_column(&[20]),
            bool_column(&[true]),
        ],
    )
    .unwrap();
    let source = BatchSource::new(source_schema(), vec![first, second], Vec::new());
    let map = MapOperator::new(source, vec![field_ref("b")], names(&["x"]));
    let (r, out, _) = run(&map, false);
    r.unwrap();
    assert_eq!(out.batches.len(), 2);
    assert_eq!(out.batches[0].column(0).values, vec![ScalarValue::Int64(10)]);
    assert_eq!(out.batches[1].column(0).values, vec![ScalarValue::Int64(20)]);
}

#[test]
fn chained_map_stages_compose() {
    let source = BatchSource::new(source_schema(), vec![three_row_batch()], Vec::new());
    let inner = MapOperator::new(
        source,
        vec![field_ref("b"), field_ref("a")],
        names(&["b2", "a2"]),
    );
    let outer = MapOperator::new(inner, vec![field_ref("a2")], names(&["z"]));
    let schema = outer.schema().unwrap();
    assert_eq!(schema.fields[0].name, "z".to_string());
    assert_eq!(schema.fields[1].name, "__retraction".to_string());
    let ctx = ExecutionContext::new(false);
    let mut out = BatchSink::new();
    let mut meta = MetaSink::new();
    outer.run(&ctx, &mut out, &mut meta).unwrap();
    assert_eq!(out.batches.len(), 1);
    assert_eq!(
        out.batches[0].column(0).values,
        vec![
            ScalarValue::Int64(1),
            ScalarValue::Int64(2),
            ScalarValue::Int64(3)
        ]
    );
}
