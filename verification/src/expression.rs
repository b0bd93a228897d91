//! Expressions: pure per-batch column producers with a data-free metadata
//! side that predicts the produced field.

use vstd::prelude::*;
use crate::batch::{Batch, BatchV, Column, ColumnV, batch_wf, column_matches_field};
use crate::context::ExecutionContext;
use crate::error::{Error, ErrorV, res_view};
use crate::schema::{
    DataType, Field, FieldV, Identifier, ScalarValue, Schema, first_field_index, has_field,
    is_field_index, lemma_field_index_unique, lemma_first_field_index,
};

verus! {

/// A pure function node over batches: `field_meta` predicts the output
/// field from the input schema without touching data, and `evaluate`
/// produces one column over one batch. `spec_field_meta` and
/// `spec_evaluate` state both exactly, as functions of the schema and of
/// the batch alone — evaluation is deterministic.
pub trait Expression {
    /// The field this expression produces over `record_schema`, or the
    /// resolution error.
    spec fn spec_field_meta(&self, record_schema: Seq<FieldV>) -> Result<FieldV, ErrorV>;

    /// The column this expression produces over `batch`, or the evaluation
    /// error.
    spec fn spec_evaluate(&self, batch: BatchV) -> Result<ColumnV, ErrorV>;

    /// Predicts name placeholder, type and nullability without reading
    /// data; `context_schemas` carries enclosing scopes for nested queries.
    fn field_meta(&self, context_schemas: &Vec<Schema>, record_schema: &Schema) -> (r: Result<
        Field,
        Error,
    >)
        ensures
            res_view(r) == self.spec_field_meta(record_schema@),
    ;

    /// Produces one column of exactly the batch's row count.
    fn evaluate(&self, ctx: &ExecutionContext, record: &Batch) -> (r: Result<Column, Error>)
        requires
            batch_wf(record@),
        ensures
            res_view(r) == self.spec_evaluate(record@),
    ;
}

/// An expression that resolves an identifier against the input schema and
/// returns that column of the batch unchanged.
pub struct FieldExpression {
    pub field: Identifier,
}

impl FieldExpression {
    pub fn new(field: Identifier) -> (r: FieldExpression)
        ensures
            r.field@ == field@,
    {
        FieldExpression { field }
    }
}

impl Expression for FieldExpression {
    open spec fn spec_field_meta(&self, record_schema: Seq<FieldV>) -> Result<FieldV, ErrorV> {
        if has_field(record_schema, self.field@) {
            Ok(record_schema[first_field_index(record_schema, self.field@)])
        } else {
            Err(ErrorV::SchemaResolution { name: self.field@ })
        }
    }

    open spec fn spec_evaluate(&self, batch: BatchV) -> Result<ColumnV, ErrorV> {
        if has_field(batch.schema, self.field@) {
            Ok(batch.columns[first_field_index(batch.schema, self.field@)])
        } else {
            Err(ErrorV::SchemaResolution { name: self.field@ })
        }
    }

    fn field_meta(&self, context_schemas: &Vec<Schema>, record_schema: &Schema) -> (r: Result<
        Field,
        Error,
    >) {
        match record_schema.field_with_name(&self.field.name) {
            Some(f) => Ok(f),
            None => Err(Error::SchemaResolution { name: self.field.name.clone() }),
        }
    }

    fn evaluate(&self, ctx: &ExecutionContext, record: &Batch) -> (r: Result<Column, Error>) {
        match record.schema().index_of(&self.field.name) {
            Some(i) => {
                proof {
                    lemma_first_field_index(record@.schema, self.field@);
                    lemma_field_index_unique(
                        record@.schema,
                        self.field@,
                        i as int,
                        first_field_index(record@.schema, self.field@),
                    );
                }
                Ok(record.column(i).clone())
            },
            None => Err(Error::SchemaResolution { name: self.field.name.clone() }),
        }
    }
}

/// The column of `rows` copies of scalar `v`.
pub open spec fn spec_constant_column(v: ScalarValue, rows: nat) -> ColumnV {
    ColumnV { data_type: v.spec_data_type(), values: Seq::new(rows, |i: int| v) }
}

/// An expression that materializes one scalar over the batch's row count.
pub struct Constant {
    pub value: ScalarValue,
}

impl Constant {
    pub fn new(value: ScalarValue) -> (r: Constant)
        ensures
            r.value == value,
    {
        Constant { value }
    }
}

impl Expression for Constant {
    open spec fn spec_field_meta(&self, record_schema: Seq<FieldV>) -> Result<FieldV, ErrorV> {
        Ok(
            FieldV {
                name: Seq::<char>::empty(),
                data_type: self.value.spec_data_type(),
                nullable: self.value is Null,
            },
        )
    }

    open spec fn spec_evaluate(&self, batch: BatchV) -> Result<ColumnV, ErrorV> {
        match self.value {
            ScalarValue::Int64(_) => Ok(spec_constant_column(self.value, batch.rows)),
            ScalarValue::Boolean(_) => Ok(spec_constant_column(self.value, batch.rows)),
            ScalarValue::Null => Err(
                ErrorV::UnsupportedExpression { data_type: DataType::Null },
            ),
        }
    }

    fn field_meta(&self, context_schemas: &Vec<Schema>, record_schema: &Schema) -> (r: Result<
        Field,
        Error,
    >) {
        Ok(Field::new(String::new(), self.value.data_type(), self.value.is_null()))
    }

    fn evaluate(&self, ctx: &ExecutionContext, record: &Batch) -> (r: Result<Column, Error>) {
        if self.value.is_null() {
            return Err(Error::UnsupportedExpression { data_type: DataType::Null });
        }
        let rows = record.num_rows();
        let mut values: Vec<ScalarValue> = Vec::new();
        let mut i: usize = 0;
        while i < rows
            invariant
                i <= rows,
                values@.len() == i,
                forall|k: int| 0 <= k < i ==> values@[k] == self.value,
            decreases rows - i,
        {
            values.push(self.value);
            i += 1;
        }
        proof {
            assert(values@ =~= Seq::new(rows as nat, |k: int| self.value));
        }
        Ok(Column::new(self.value.data_type(), values))
    }
}

/// The closed set of expression variants, so an operator can hold a
/// heterogeneous expression list and dispatch over it.
pub enum AnyExpression {
    Field(FieldExpression),
    Constant(Constant),
}

impl Expression for AnyExpression {
    open spec fn spec_field_meta(&self, record_schema: Seq<FieldV>) -> Result<FieldV, ErrorV> {
        match self {
            AnyExpression::Field(e) => e.spec_field_meta(record_schema),
            AnyExpression::Constant(e) => e.spec_field_meta(record_schema),
        }
    }

    open spec fn spec_evaluate(&self, batch: BatchV) -> Result<ColumnV, ErrorV> {
        match self {
            AnyExpression::Field(e) => e.spec_evaluate(batch),
            AnyExpression::Constant(e) => e.spec_evaluate(batch),
        }
    }

    fn field_meta(&self, context_schemas: &Vec<Schema>, record_schema: &Schema) -> (r: Result<
        Field,
        Error,
    >) {
        match self {
            AnyExpression::Field(e) => e.field_meta(context_schemas, record_schema),
            AnyExpression::Constant(e) => e.field_meta(context_schemas, record_schema),
        }
    }

    fn evaluate(&self, ctx: &ExecutionContext, record: &Batch) -> (r: Result<Column, Error>) {
        match self {
            AnyExpression::Field(e) => e.evaluate(ctx, record),
            AnyExpression::Constant(e) => e.evaluate(ctx, record),
        }
    }
}

/// Law: evaluation is typed as `field_meta` predicts — over a well-shaped
/// batch, a successfully evaluated column matches the predicted field
/// descriptor and has exactly the batch's row count.
pub proof fn lemma_expression_typing(e: &AnyExpression, b: BatchV)
    requires
        batch_wf(b),
        e.spec_field_meta(b.schema) is Ok,
        e.spec_evaluate(b) is Ok,
    ensures
        column_matches_field(e.spec_evaluate(b)->Ok_0, e.spec_field_meta(b.schema)->Ok_0, b.rows),
{
    match e {
        AnyExpression::Field(fe) => {
            lemma_first_field_index(b.schema, fe.field@);
        },
        AnyExpression::Constant(c) => {
        },
    }
}

/// Law: a field reference resolves to the first schema field bearing its
/// identifier, and evaluation returns exactly that column of the batch; an
/// absent identifier fails with the schema-resolution error already at
/// `field_meta` time, and at evaluation alike.
pub proof fn lemma_field_reference_semantics(e: &FieldExpression, b: BatchV)
    ensures
        has_field(b.schema, e.field@) ==> ({
            let i = first_field_index(b.schema, e.field@);
            &&& is_field_index(b.schema, e.field@, i)
            &&& e.spec_field_meta(b.schema) == Ok::<FieldV, ErrorV>(b.schema[i])
            &&& e.spec_evaluate(b) == Ok::<ColumnV, ErrorV>(b.columns[i])
        }),
        !has_field(b.schema, e.field@) ==> {
            &&& e.spec_field_meta(b.schema) == Err::<FieldV, ErrorV>(
                ErrorV::SchemaResolution { name: e.field@ },
            )
            &&& e.spec_evaluate(b) == Err::<ColumnV, ErrorV>(
                ErrorV::SchemaResolution { name: e.field@ },
            )
        },
{
    if has_field(b.schema, e.field@) {
        lemma_first_field_index(b.schema, e.field@);
    }
}

/// Law: the null constant predicts a nullable field of the null type, and
/// its evaluation is unsupported over every batch.
pub proof fn lemma_constant_null(c: &Constant, s: Seq<FieldV>, b: BatchV)
    requires
        c.value is Null,
    ensures
        c.spec_field_meta(s) == Ok::<FieldV, ErrorV>(
            FieldV { name: Seq::<char>::empty(), data_type: DataType::Null, nullable: true },
        ),
        c.spec_evaluate(b) == Err::<ColumnV, ErrorV>(
            ErrorV::UnsupportedExpression { data_type: DataType::Null },
        ),
{
}

/// Law: an integer constant predicts a non-nullable integer field and
/// evaluates, over any batch, to that batch's row count of copies of
/// itself.
pub proof fn lemma_constant_int64(c: &Constant, s: Seq<FieldV>, b: BatchV, n: i64)
    requires
        c.value == ScalarValue::Int64(n),
    ensures
        c.spec_field_meta(s) == Ok::<FieldV, ErrorV>(
            FieldV { name: Seq::<char>::empty(), data_type: DataType::Int64, nullable: false },
        ),
        c.spec_evaluate(b) == Ok::<ColumnV, ErrorV>(
            ColumnV {
                data_type: DataType::Int64,
                values: Seq::new(b.rows, |i: int| ScalarValue::Int64(n)),
            },
        ),
{
}

} // verus!
