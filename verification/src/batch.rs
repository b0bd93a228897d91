//! Columns, batches, and shape conformance between a batch and its schema.

use vstd::prelude::*;
use crate::error::{Error, ErrorV};
use crate::schema::{DataType, Field, FieldV, ScalarValue, Schema};

verus! {

/// Mathematical view of a column.
pub ghost struct ColumnV {
    pub data_type: DataType,
    pub values: Seq<ScalarValue>,
}

/// A typed column of scalar cells; a null cell is the `Null` scalar.
#[derive(Debug)]
pub struct Column {
    pub data_type: DataType,
    pub values: Vec<ScalarValue>,
}

impl View for Column {
    type V = ColumnV;

    open spec fn view(&self) -> ColumnV {
        ColumnV { data_type: self.data_type, values: self.values@ }
    }
}

impl Column {
    pub fn new(data_type: DataType, values: Vec<ScalarValue>) -> (r: Column)
        ensures
            r@ == (ColumnV { data_type: data_type, values: values@ }),
    {
        Column { data_type, values }
    }

    pub fn len(&self) -> (r: usize)
        ensures
            r == self@.values.len(),
    {
        self.values.len()
    }

    pub fn value(&self, i: usize) -> (r: ScalarValue)
        requires
            i < self@.values.len(),
        ensures
            r == self@.values[i as int],
    {
        self.values[i]
    }
}

impl Clone for Column {
    fn clone(&self) -> (r: Column)
        ensures
            r@ == self@,
    {
        let values = self.values.clone();
        proof {
            assert forall|i: int| 0 <= i < values@.len() implies values@[i]
                == self.values@[i] by {
                assert(cloned::<ScalarValue>(self.values@[i], values@[i]));
            };
            assert(values@ =~= self.values@);
        }
        Column { data_type: self.data_type, values }
    }
}

/// A cell is admissible under field `f`: null only where `f` is nullable,
/// otherwise typed exactly as `f` prescribes.
pub open spec fn cell_ok(v: ScalarValue, f: FieldV) -> bool {
    if v is Null {
        f.nullable
    } else {
        v.spec_data_type() == f.data_type
    }
}

/// Column `c` can stand for field `f` in a batch of `rows` rows.
pub open spec fn column_matches_field(c: ColumnV, f: FieldV, rows: nat) -> bool {
    &&& c.data_type == f.data_type
    &&& c.values.len() == rows
    &&& forall|i: int| 0 <= i < c.values.len() ==> cell_ok(c.values[i], f)
}

/// Mathematical view of a batch.
pub ghost struct BatchV {
    pub schema: Seq<FieldV>,
    pub columns: Seq<ColumnV>,
    pub rows: nat,
}

/// The batch is well shaped over its own schema: one column per field, each
/// of the common row count, typed and null-free as its field prescribes.
pub open spec fn batch_wf(b: BatchV) -> bool {
    &&& b.columns.len() == b.schema.len()
    &&& forall|i: int| 0 <= i < b.columns.len() ==> column_matches_field(
        b.columns[i],
        b.schema[i],
        b.rows,
    )
}

/// `b` is a well-shaped batch declared over schema `s`.
pub open spec fn batch_conforms(b: BatchV, s: Seq<FieldV>) -> bool {
    b.schema == s && batch_wf(b)
}

/// The views of a sequence of columns.
pub open spec fn columns_view(cs: Seq<Column>) -> Seq<ColumnV> {
    Seq::new(cs.len(), |i: int| cs[i]@)
}

/// The row count a list of columns determines: that of its first column.
pub open spec fn spec_rows(cs: Seq<Column>) -> nat {
    if cs.len() > 0 {
        cs[0]@.values.len()
    } else {
        0
    }
}

/// An immutable, fixed-row-count set of columns declared over a schema.
/// `try_new` is the validating constructor; consumers may rely on
/// `batch_wf` of everything it returns.
#[derive(Debug)]
pub struct Batch {
    pub schema: Schema,
    pub columns: Vec<Column>,
    pub rows: usize,
}

impl View for Batch {
    type V = BatchV;

    open spec fn view(&self) -> BatchV {
        BatchV {
            schema: self.schema@,
            columns: columns_view(self.columns@),
            rows: self.rows as nat,
        }
    }
}

/// The cell check as executable code.
fn cell_ok_exec(v: &ScalarValue, f: &Field) -> (r: bool)
    ensures
        r == cell_ok(*v, f@),
{
    if v.is_null() {
        f.nullable
    } else {
        v.data_type() == f.data_type
    }
}

impl Batch {
    /// Builds a batch from a schema and an ordered list of columns,
    /// validating shape: column count, per-column type, row-count agreement,
    /// and nullability. Fails with the shape-mismatch error, and only then.
    pub fn try_new(schema: Schema, columns: Vec<Column>) -> (r: Result<Batch, Error>)
        ensures
            ({
                let cand = BatchV {
                    schema: schema@,
                    columns: columns_view(columns@),
                    rows: spec_rows(columns@),
                };
                match r {
                    Ok(b) => b@ == cand && batch_wf(cand),
                    Err(e) => e@ == ErrorV::ShapeMismatch && !batch_wf(cand),
                }
            }),
    {
        let rows: usize = if columns.len() > 0 {
            columns[0].len()
        } else {
            0
        };
        if columns.len() != schema.len() {
            return Err(Error::ShapeMismatch);
        }
        let mut i: usize = 0;
        while i < columns.len()
            invariant
                i <= columns@.len(),
                columns@.len() == schema@.len(),
                rows == spec_rows(columns@),
                forall|k: int| 0 <= k < i ==> column_matches_field(
                    columns@[k]@,
                    schema@[k],
                    rows as nat,
                ),
            decreases columns@.len() - i,
        {
            let col = &columns[i];
            let field = &schema.fields[i];
            if !(col.data_type == field.data_type) {
                proof {
                    assert(!column_matches_field(
                        columns_view(columns@)[i as int],
                        schema@[i as int],
                        spec_rows(columns@),
                    ));
                }
                return Err(Error::ShapeMismatch);
            }
            if col.len() != rows {
                proof {
                    assert(!column_matches_field(
                        columns_view(columns@)[i as int],
                        schema@[i as int],
                        spec_rows(columns@),
                    ));
                }
                return Err(Error::ShapeMismatch);
            }
            let mut j: usize = 0;
            while j < col.len()
                invariant
                    j <= col@.values.len(),
                    i < columns@.len(),
                    columns@.len() == schema@.len(),
                    col@ == columns@[i as int]@,
                    field@ == schema@[i as int],
                    rows == spec_rows(columns@),
                    forall|k: int| 0 <= k < j ==> cell_ok(col@.values[k], field@),
                decreases col@.values.len() - j,
            {
                let v = col.value(j);
                if !cell_ok_exec(&v, field) {
                    proof {
                        assert(!cell_ok(col@.values[j as int], field@));
                        assert(!column_matches_field(
                            columns_view(columns@)[i as int],
                            schema@[i as int],
                            spec_rows(columns@),
                        ));
                    }
                    return Err(Error::ShapeMismatch);
                }
                j += 1;
            }
            proof {
                assert(column_matches_field(columns@[i as int]@, schema@[i as int], rows as nat));
            }
            i += 1;
        }
        Ok(Batch { schema, columns, rows })
    }

    pub fn schema(&self) -> (r: &Schema)
        ensures
            r@ == self@.schema,
    {
        &self.schema
    }

    pub fn num_rows(&self) -> (r: usize)
        ensures
            r == self@.rows,
    {
        self.rows
    }

    pub fn num_columns(&self) -> (r: usize)
        ensures
            r == self@.columns.len(),
    {
        self.columns.len()
    }

    pub fn column(&self, i: usize) -> (r: &Column)
        requires
            i < self@.columns.len(),
        ensures
            r@ == self@.columns[i as int],
    {
        &self.columns[i]
    }
}

impl Clone for Batch {
    fn clone(&self) -> (r: Batch)
        ensures
            r@ == self@,
    {
        let columns = self.columns.clone();
        proof {
            assert forall|i: int| 0 <= i < columns@.len() implies columns@[i]@
                == self.columns@[i]@ by {
                assert(cloned::<Column>(self.columns@[i], columns@[i]));
            };
            assert(columns_view(columns@) =~= columns_view(self.columns@));
        }
        Batch { schema: self.schema.clone(), columns, rows: self.rows }
    }
}

} // verus!
