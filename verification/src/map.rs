//! The map operator: applies a fixed, ordered list of expressions to every
//! incoming batch, renames the produced columns positionally, and preserves
//! the trailing retraction-flag column unchanged.

use vstd::prelude::*;
use crate::batch::{
    Batch, BatchV, Column, ColumnV, batch_conforms, batch_wf, column_matches_field, columns_view,
    spec_rows,
};
use crate::context::{BatchSink, ExecutionContext, MetaSink, Metadata};
use crate::error::{Error, ErrorV, unit_res_view};
use crate::expression::{AnyExpression, Expression, lemma_expression_typing};
use crate::node::Node;
use crate::schema::{
    DataType, Field, FieldV, Identifier, Schema, fields_view, retraction_field,
    retraction_field_name, retraction_name, schema_wf,
};

verus! {

/// `f` renamed to `name`, type and nullability kept.
pub open spec fn spec_rename(f: FieldV, name: Seq<char>) -> FieldV {
    FieldV { name: name, data_type: f.data_type, nullable: f.nullable }
}

/// The views of a sequence of identifiers.
pub open spec fn idents_view(ids: Seq<Identifier>) -> Seq<Seq<char>> {
    Seq::new(ids.len(), |i: int| ids[i]@)
}

/// Chosen output names are valid: pairwise distinct, and none shadows the
/// reserved retraction-flag name.
pub open spec fn names_valid(names: Seq<Seq<char>>) -> bool {
    &&& forall|i: int, j: int| 0 <= i < j < names.len() ==> names[i] != names[j]
    &&& forall|i: int| 0 <= i < names.len() ==> names[i] != retraction_name()
}

/// The renamed field descriptors of `exprs` over source schema `ss`, in
/// order, or the first resolution error.
pub open spec fn spec_meta_fields(
    ss: Seq<FieldV>,
    exprs: Seq<AnyExpression>,
    names: Seq<Seq<char>>,
) -> Result<Seq<FieldV>, ErrorV>
    decreases exprs.len(),
{
    if exprs.len() == 0 {
        Ok(Seq::empty())
    } else {
        match spec_meta_fields(ss, exprs.drop_last(), names) {
            Err(e) => Err(e),
            Ok(fs) => match exprs.last().spec_field_meta(ss) {
                Err(e) => Err(e),
                Ok(f) => Ok(fs.push(spec_rename(f, names[exprs.len() - 1]))),
            },
        }
    }
}

/// The output schema of a map stage: the source schema must have resolved,
/// the chosen names must be valid, every expression must resolve; then the
/// renamed fields in order, followed by the retraction-flag field.
pub open spec fn spec_map_schema(
    src: Result<Seq<FieldV>, ErrorV>,
    exprs: Seq<AnyExpression>,
    names: Seq<Seq<char>>,
) -> Result<Seq<FieldV>, ErrorV> {
    match src {
        Err(e) => Err(e),
        Ok(ss) => if !names_valid(names) {
            Err(ErrorV::NameCollision)
        } else {
            match spec_meta_fields(ss, exprs, names) {
                Err(e) => Err(e),
                Ok(fs) => Ok(fs.push(retraction_field())),
            }
        },
    }
}

/// The evaluated columns of `exprs` over batch `b`, in order, or the first
/// evaluation error.
pub open spec fn spec_eval_columns(exprs: Seq<AnyExpression>, b: BatchV) -> Result<
    Seq<ColumnV>,
    ErrorV,
>
    decreases exprs.len(),
{
    if exprs.len() == 0 {
        Ok(Seq::empty())
    } else {
        match spec_eval_columns(exprs.drop_last(), b) {
            Err(e) => Err(e),
            Ok(cs) => match exprs.last().spec_evaluate(b) {
                Err(e) => Err(e),
                Ok(c) => Ok(cs.push(c)),
            },
        }
    }
}

/// One batch through the map stage: the evaluated columns plus the input's
/// trailing retraction column unchanged, over the precomputed output
/// schema, with the input's row count.
pub open spec fn spec_map_batch(
    exprs: Seq<AnyExpression>,
    out_schema: Seq<FieldV>,
    b: BatchV,
) -> Result<BatchV, ErrorV> {
    match spec_eval_columns(exprs, b) {
        Err(e) => Err(e),
        Ok(cs) => Ok(
            BatchV { schema: out_schema, columns: cs.push(b.columns.last()), rows: b.rows },
        ),
    }
}

/// The batches a map stage emits: inputs transformed 1:1 in order, up to
/// (and excluding) the first input whose transformation fails.
pub open spec fn spec_map_batches(
    exprs: Seq<AnyExpression>,
    out_schema: Seq<FieldV>,
    inputs: Seq<BatchV>,
) -> Seq<BatchV>
    decreases inputs.len(),
{
    if inputs.len() == 0 {
        Seq::empty()
    } else {
        match spec_map_batch(exprs, out_schema, inputs.first()) {
            Err(_) => Seq::empty(),
            Ok(nb) => seq![nb] + spec_map_batches(exprs, out_schema, inputs.drop_first()),
        }
    }
}

/// The result of a map run over `inputs`: the first evaluation error if
/// any transformation fails, else the source's own result.
pub open spec fn spec_map_run_result(
    exprs: Seq<AnyExpression>,
    out_schema: Seq<FieldV>,
    inputs: Seq<BatchV>,
    src_result: Result<(), ErrorV>,
) -> Result<(), ErrorV>
    decreases inputs.len(),
{
    if inputs.len() == 0 {
        src_result
    } else {
        match spec_map_batch(exprs, out_schema, inputs.first()) {
            Err(e) => Err(e),
            Ok(_) => spec_map_run_result(exprs, out_schema, inputs.drop_first(), src_result),
        }
    }
}

/// A resolved field list is positional: one renamed descriptor per
/// expression, in order.
pub proof fn lemma_meta_fields_pointwise(
    ss: Seq<FieldV>,
    exprs: Seq<AnyExpression>,
    names: Seq<Seq<char>>,
)
    requires
        spec_meta_fields(ss, exprs, names) is Ok,
    ensures
        ({
            let fs = spec_meta_fields(ss, exprs, names)->Ok_0;
            &&& fs.len() == exprs.len()
            &&& forall|i: int|
                0 <= i < exprs.len() ==> (#[trigger] exprs[i].spec_field_meta(ss) matches Ok(f)
                    && fs[i] == spec_rename(f, names[i]))
        }),
    decreases exprs.len(),
{
    if exprs.len() > 0 {
        lemma_meta_fields_pointwise(ss, exprs.drop_last(), names);
        let fs = spec_meta_fields(ss, exprs, names)->Ok_0;
        assert forall|i: int|
            0 <= i < exprs.len() implies (#[trigger] exprs[i].spec_field_meta(ss) matches Ok(f)
            && fs[i] == spec_rename(f, names[i])) by {
            if i < exprs.len() - 1 {
                assert(exprs.drop_last()[i] == exprs[i]);
            } else {
                assert(exprs.last() == exprs[i]);
            }
        };
    }
}

/// Once a prefix of the expression list fails to resolve, the whole list
/// fails with that first error.
pub proof fn lemma_meta_fields_err_extends(
    ss: Seq<FieldV>,
    exprs: Seq<AnyExpression>,
    names: Seq<Seq<char>>,
    k: int,
)
    requires
        0 <= k <= exprs.len(),
        spec_meta_fields(ss, exprs.take(k), names) is Err,
    ensures
        spec_meta_fields(ss, exprs, names) == spec_meta_fields(ss, exprs.take(k), names),
    decreases exprs.len() - k,
{
    if k == exprs.len() {
        assert(exprs.take(k) =~= exprs);
    } else {
        assert(exprs.take(k + 1).drop_last() =~= exprs.take(k));
        assert(exprs.take(k + 1).len() == k + 1);
        lemma_meta_fields_err_extends(ss, exprs, names, k + 1);
    }
}

/// A resolved column list is positional: one evaluated column per
/// expression, in order.
pub proof fn lemma_eval_columns_pointwise(exprs: Seq<AnyExpression>, b: BatchV)
    requires
        spec_eval_columns(exprs, b) is Ok,
    ensures
        ({
            let cs = spec_eval_columns(exprs, b)->Ok_0;
            &&& cs.len() == exprs.len()
            &&& forall|i: int|
                0 <= i < exprs.len() ==> (#[trigger] exprs[i].spec_evaluate(b) matches Ok(c)
                    && cs[i] == c)
        }),
    decreases exprs.len(),
{
    if exprs.len() > 0 {
        lemma_eval_columns_pointwise(exprs.drop_last(), b);
        let cs = spec_eval_columns(exprs, b)->Ok_0;
        assert forall|i: int|
            0 <= i < exprs.len() implies (#[trigger] exprs[i].spec_evaluate(b) matches Ok(c)
            && cs[i] == c) by {
            if i < exprs.len() - 1 {
                assert(exprs.drop_last()[i] == exprs[i]);
            } else {
                assert(exprs.last() == exprs[i]);
            }
        };
    }
}

/// Once a prefix of the expression list fails to evaluate, the whole list
/// fails with that first error.
pub proof fn lemma_eval_columns_err_extends(exprs: Seq<AnyExpression>, b: BatchV, k: int)
    requires
        0 <= k <= exprs.len(),
        spec_eval_columns(exprs.take(k), b) is Err,
    ensures
        spec_eval_columns(exprs, b) == spec_eval_columns(exprs.take(k), b),
    decreases exprs.len() - k,
{
    if k == exprs.len() {
        assert(exprs.take(k) =~= exprs);
    } else {
        assert(exprs.take(k + 1).drop_last() =~= exprs.take(k));
        assert(exprs.take(k + 1).len() == k + 1);
        lemma_eval_columns_err_extends(exprs, b, k + 1);
    }
}

/// Law: a resolved map schema holds exactly the expressions' field
/// descriptors renamed positionally, in order, followed by the
/// retraction-flag field — which, over a well-formed source schema, is
/// identical to the source's own trailing field.
pub proof fn lemma_map_schema_fields(
    ss: Seq<FieldV>,
    exprs: Seq<AnyExpression>,
    names: Seq<Seq<char>>,
)
    requires
        spec_map_schema(Ok(ss), exprs, names) is Ok,
    ensures
        ({
            let os = spec_map_schema(Ok(ss), exprs, names)->Ok_0;
            &&& names_valid(names)
            &&& os.len() == exprs.len() + 1
            &&& forall|i: int|
                0 <= i < exprs.len() ==> (#[trigger] exprs[i].spec_field_meta(ss) matches Ok(f)
                    && os[i] == spec_rename(f, names[i]))
            &&& os.last() == retraction_field()
            &&& schema_wf(ss) ==> os.last() == ss.last()
        }),
{
    lemma_meta_fields_pointwise(ss, exprs, names);
}

/// Law: over a well-formed source schema, every conforming batch the map
/// stage transforms successfully yields a batch that conforms to the map's
/// output schema, keeps the input's row count, and carries the input's
/// trailing retraction column unchanged in trailing position.
pub proof fn lemma_map_batch_conforms(
    ss: Seq<FieldV>,
    exprs: Seq<AnyExpression>,
    names: Seq<Seq<char>>,
    b: BatchV,
)
    requires
        schema_wf(ss),
        batch_conforms(b, ss),
        spec_map_schema(Ok(ss), exprs, names) is Ok,
        spec_map_batch(exprs, spec_map_schema(Ok(ss), exprs, names)->Ok_0, b) is Ok,
    ensures
        ({
            let os = spec_map_schema(Ok(ss), exprs, names)->Ok_0;
            let nb = spec_map_batch(exprs, os, b)->Ok_0;
            &&& batch_conforms(nb, os)
            &&& nb.rows == b.rows
            &&& nb.columns.len() == exprs.len() + 1
            &&& nb.columns.last() == b.columns.last()
        }),
{
    let os = spec_map_schema(Ok::<Seq<FieldV>, ErrorV>(ss), exprs, names)->Ok_0;
    let nb = spec_map_batch(exprs, os, b)->Ok_0;
    let cs = spec_eval_columns(exprs, b)->Ok_0;
    lemma_map_schema_fields(ss, exprs, names);
    lemma_eval_columns_pointwise(exprs, b);
    assert forall|i: int| 0 <= i < nb.columns.len() implies column_matches_field(
        #[trigger] nb.columns[i],
        os[i],
        nb.rows,
    ) by {
        if i < exprs.len() {
            lemma_expression_typing(&exprs[i], b);
        } else {
            assert(column_matches_field(b.columns[ss.len() - 1], ss[ss.len() - 1], b.rows));
            assert(b.columns.last() == b.columns[ss.len() - 1]);
        }
    };
}

/// Law: the emitted batches correspond 1:1, in order, to the longest
/// prefix of the inputs that transforms successfully; the next input, if
/// any, is the one that failed.
pub proof fn lemma_map_batches_pointwise(
    exprs: Seq<AnyExpression>,
    os: Seq<FieldV>,
    inputs: Seq<BatchV>,
)
    ensures
        ({
            let outs = spec_map_batches(exprs, os, inputs);
            &&& outs.len() <= inputs.len()
            &&& forall|k: int|
                0 <= k < outs.len() ==> (spec_map_batch(exprs, os, #[trigger] inputs[k]) matches Ok(
                    nb,
                ) && outs[k] == nb)
            &&& (outs.len() < inputs.len() ==> spec_map_batch(
                exprs,
                os,
                inputs[outs.len() as int],
            ) is Err)
        }),
    decreases inputs.len(),
{
    if inputs.len() > 0 {
        lemma_map_batches_pointwise(exprs, os, inputs.drop_first());
        let outs = spec_map_batches(exprs, os, inputs);
        if spec_map_batch(exprs, os, inputs.first()) is Ok {
            let rec = spec_map_batches(exprs, os, inputs.drop_first());
            assert forall|k: int|
                0 <= k < outs.len() implies (spec_map_batch(exprs, os, #[trigger] inputs[k]) matches Ok(
                nb,
            ) && outs[k] == nb) by {
                if k > 0 {
                    assert(inputs.drop_first()[k - 1] == inputs[k]);
                    assert(outs[k] == rec[k - 1]);
                }
            };
            if outs.len() < inputs.len() {
                assert(inputs.drop_first()[rec.len() as int] == inputs[outs.len() as int]);
            }
        }
    }
}

/// Law: a map run's result is the first failing transformation's error —
/// here at position `k` — whatever the source's own result was.
pub proof fn lemma_map_run_result_err(
    exprs: Seq<AnyExpression>,
    os: Seq<FieldV>,
    inputs: Seq<BatchV>,
    src_result: Result<(), ErrorV>,
    k: int,
)
    requires
        0 <= k < inputs.len(),
        forall|m: int| 0 <= m < k ==> spec_map_batch(exprs, os, #[trigger] inputs[m]) is Ok,
        spec_map_batch(exprs, os, inputs[k]) is Err,
    ensures
        spec_map_run_result(exprs, os, inputs, src_result) == Err::<(), ErrorV>(
            spec_map_batch(exprs, os, inputs[k])->Err_0,
        ),
    decreases inputs.len(),
{
    if k > 0 {
        assert(spec_map_batch(exprs, os, inputs[0]) is Ok);
        assert forall|m: int|
            0 <= m < k - 1 implies spec_map_batch(exprs, os, #[trigger] inputs.drop_first()[m]) is Ok by {
            assert(inputs.drop_first()[m] == inputs[m + 1]);
        };
        assert(inputs.drop_first()[k - 1] == inputs[k]);
        lemma_map_run_result_err(exprs, os, inputs.drop_first(), src_result, k - 1);
    }
}

/// Law: when every input transforms, a map run returns the source's own
/// result.
pub proof fn lemma_map_run_result_ok(
    exprs: Seq<AnyExpression>,
    os: Seq<FieldV>,
    inputs: Seq<BatchV>,
    src_result: Result<(), ErrorV>,
)
    requires
        forall|m: int| 0 <= m < inputs.len() ==> spec_map_batch(exprs, os, #[trigger] inputs[m]) is Ok,
    ensures
        spec_map_run_result(exprs, os, inputs, src_result) == src_result,
    decreases inputs.len(),
{
    if inputs.len() > 0 {
        assert forall|m: int|
            0 <= m < inputs.drop_first().len() implies spec_map_batch(
            exprs,
            os,
            #[trigger] inputs.drop_first()[m],
        ) is Ok by {
            assert(inputs.drop_first()[m] == inputs[m + 1]);
        };
        lemma_map_run_result_ok(exprs, os, inputs.drop_first(), src_result);
    }
}

/// Law: schema and run agree — every batch a map stage emits over
/// conforming inputs conforms to the map's own resolved output schema.
pub proof fn lemma_map_outputs_conform(
    ss: Seq<FieldV>,
    exprs: Seq<AnyExpression>,
    names: Seq<Seq<char>>,
    inputs: Seq<BatchV>,
)
    requires
        schema_wf(ss),
        spec_map_schema(Ok(ss), exprs, names) is Ok,
        forall|k: int| 0 <= k < inputs.len() ==> batch_conforms(#[trigger] inputs[k], ss),
    ensures
        ({
            let os = spec_map_schema(Ok(ss), exprs, names)->Ok_0;
            let outs = spec_map_batches(exprs, os, inputs);
            forall|k: int| 0 <= k < outs.len() ==> batch_conforms(#[trigger] outs[k], os)
        }),
{
    let os = spec_map_schema(Ok::<Seq<FieldV>, ErrorV>(ss), exprs, names)->Ok_0;
    let outs = spec_map_batches(exprs, os, inputs);
    lemma_map_batches_pointwise(exprs, os, inputs);
    assert forall|k: int| 0 <= k < outs.len() implies batch_conforms(#[trigger] outs[k], os) by {
        lemma_map_batch_conforms(ss, exprs, names, inputs[k]);
    };
}

/// Checks that the chosen output names are pairwise distinct and none
/// equals the reserved retraction-flag name.
fn names_valid_exec(names: &Vec<Identifier>) -> (r: bool)
    ensures
        r == names_valid(idents_view(names@)),
{
    let rname = retraction_field_name();
    let n = names.len();
    let mut i: usize = 0;
    while i < n
        invariant
            n == names@.len(),
            rname@ == retraction_name(),
            i <= n,
            forall|a: int, b: int|
                0 <= a < b < n && a < i ==> idents_view(names@)[a] != idents_view(names@)[b],
            forall|a: int| 0 <= a < i ==> idents_view(names@)[a] != retraction_name(),
        decreases n - i,
    {
        if names[i].name == rname {
            proof {
                assert(idents_view(names@)[i as int] == retraction_name());
            }
            return false;
        }
        let mut j: usize = i + 1;
        while j < n
            invariant
                n == names@.len(),
                i < n,
                i < j,
                j <= n,
                forall|b: int| i < b < j ==> idents_view(names@)[i as int] != idents_view(
                    names@,
                )[b],
            decreases n - j,
        {
            if names[i].name == names[j].name {
                proof {
                    assert(idents_view(names@)[i as int] == idents_view(names@)[j as int]);
                }
                return false;
            }
            j += 1;
        }
        i += 1;
    }
    true
}

/// A concrete operator: row-wise projection. Applies its expressions to
/// every incoming batch in list order, names the produced columns
/// positionally after its identifiers, and appends the batch's trailing
/// retraction column unchanged. It never filters and never reshapes
/// cardinality, and forwards the source's out-of-band signals untouched.
pub struct MapOperator<S: Node> {
    source: S,
    expressions: Vec<AnyExpression>,
    names: Vec<Identifier>,
}

impl<S: Node> MapOperator<S> {
    #[verifier::type_invariant]
    spec fn inv(self) -> bool {
        self.expressions@.len() == self.names@.len()
    }

    /// Builds a map stage over `source`. `expressions` and `names` pair up
    /// positionally, so equal length is a construction invariant, not a
    /// runtime check.
    pub fn new(source: S, expressions: Vec<AnyExpression>, names: Vec<Identifier>) -> (r:
        MapOperator<S>)
        requires
            expressions@.len() == names@.len(),
        ensures
            r.spec_schema() == spec_map_schema(
                source.spec_schema(),
                expressions@,
                idents_view(names@),
            ),
            forall|c: bool| #[trigger]
                r.spec_batches(c) == spec_map_run_batches(
                    source.spec_schema(),
                    source.spec_batches(false),
                    expressions@,
                    idents_view(names@),
                    c,
                ),
            forall|c: bool| #[trigger]
                r.spec_result(c) == spec_map_run_outcome(
                    source.spec_schema(),
                    source.spec_batches(false),
                    expressions@,
                    idents_view(names@),
                    c,
                    source.spec_result(false),
                ),
            forall|c: bool| #[trigger]
                r.spec_meta(c) == (if c || r.spec_schema() is Err {
                    Seq::<Metadata>::empty()
                } else {
                    source.spec_meta(false)
                }),
    {
        MapOperator { source, expressions, names }
    }
}

/// The batches one run of a map stage pushes, from the source's promises.
pub open spec fn spec_map_run_batches(
    src_schema: Result<Seq<FieldV>, ErrorV>,
    src_batches: Seq<BatchV>,
    exprs: Seq<AnyExpression>,
    names: Seq<Seq<char>>,
    cancelled: bool,
) -> Seq<BatchV> {
    if cancelled {
        Seq::empty()
    } else {
        match spec_map_schema(src_schema, exprs, names) {
            Err(_) => Seq::empty(),
            Ok(os) => spec_map_batches(exprs, os, src_batches),
        }
    }
}

/// The result one run of a map stage returns, from the source's promises.
pub open spec fn spec_map_run_outcome(
    src_schema: Result<Seq<FieldV>, ErrorV>,
    src_batches: Seq<BatchV>,
    exprs: Seq<AnyExpression>,
    names: Seq<Seq<char>>,
    cancelled: bool,
    src_result: Result<(), ErrorV>,
) -> Result<(), ErrorV> {
    if cancelled {
        Err(ErrorV::Cancelled)
    } else {
        match spec_map_schema(src_schema, exprs, names) {
            Err(e) => Err(e),
            Ok(os) => spec_map_run_result(exprs, os, src_batches, src_result),
        }
    }
}

impl<S: Node> Node for MapOperator<S> {
    closed spec fn spec_schema(&self) -> Result<Seq<FieldV>, ErrorV> {
        spec_map_schema(self.source.spec_schema(), self.expressions@, idents_view(self.names@))
    }

    closed spec fn spec_batches(&self, cancelled: bool) -> Seq<BatchV> {
        spec_map_run_batches(
            self.source.spec_schema(),
            self.source.spec_batches(false),
            self.expressions@,
            idents_view(self.names@),
            cancelled,
        )
    }

    closed spec fn spec_meta(&self, cancelled: bool) -> Seq<Metadata> {
        if cancelled || self.spec_schema() is Err {
            Seq::empty()
        } else {
            self.source.spec_meta(false)
        }
    }

    closed spec fn spec_result(&self, cancelled: bool) -> Result<(), ErrorV> {
        spec_map_run_outcome(
            self.source.spec_schema(),
            self.source.spec_batches(false),
            self.expressions@,
            idents_view(self.names@),
            cancelled,
            self.source.spec_result(false),
        )
    }

    fn schema(&self) -> (r: Result<Schema, Error>) {
        proof {
            use_type_invariant(&*self);
        }
        let source_schema = match self.source.schema() {
            Ok(s) => s,
            Err(e) => return Err(e),
        };
        if !names_valid_exec(&self.names) {
            return Err(Error::NameCollision);
        }
        let ghost ss = source_schema@;
        let context_schemas: Vec<Schema> = Vec::new();
        let mut fields: Vec<Field> = Vec::new();
        let mut i: usize = 0;
        proof {
            assert(self.expressions@.take(0) =~= Seq::<AnyExpression>::empty());
            assert(fields_view(fields@) =~= Seq::<FieldV>::empty());
        }
        while i < self.expressions.len()
            invariant
                i <= self.expressions@.len(),
                self.expressions@.len() == self.names@.len(),
                source_schema@ == ss,
                self.source.spec_schema() == Ok::<Seq<FieldV>, ErrorV>(ss),
                names_valid(idents_view(self.names@)),
                spec_meta_fields(ss, self.expressions@.take(i as int), idents_view(self.names@))
                    == Ok::<Seq<FieldV>, ErrorV>(fields_view(fields@)),
                fields_view(fields@).len() == i,
            decreases self.expressions@.len() - i,
        {
            let f = match self.expressions[i].field_meta(&context_schemas, &source_schema) {
                Ok(f) => f,
                Err(e) => {
                    proof {
                        assert(self.expressions@.take(i + 1 as int).drop_last()
                            =~= self.expressions@.take(i as int));
                        assert(self.expressions@.take(i + 1 as int).last()
                            == self.expressions@[i as int]);
                        lemma_meta_fields_err_extends(
                            ss,
                            self.expressions@,
                            idents_view(self.names@),
                            i + 1,
                        );
                    }
                    return Err(e);
                },
            };
            let ghost fields_pre = fields@;
            let new_field = Field::new(self.names[i].name.clone(), f.data_type, f.nullable);
            fields.push(new_field);
            proof {
                assert(self.expressions@.take(i + 1 as int).drop_last() =~= self.expressions@.take(
                    i as int,
                ));
                assert(self.expressions@.take(i + 1 as int).last() == self.expressions@[
                    i as int
                ]);
                assert(idents_view(self.names@)[i as int] == self.names@[i as int]@);
                assert(fields_view(fields@) =~= fields_view(fields_pre).push(new_field@));
            }
            i += 1;
        }
        let ghost metas = fields_view(fields@);
        let retraction = Field::new(retraction_field_name(), DataType::Boolean, false);
        fields.push(retraction);
        let result_schema = Schema::new(fields);
        proof {
            assert(self.expressions@.take(self.expressions@.len() as int) =~= self.expressions@);
            assert(result_schema@ =~= metas.push(retraction_field()));
            lemma_map_schema_fields(ss, self.expressions@, idents_view(self.names@));
            let os = result_schema@;
            assert forall|a: int, b: int| 0 <= a < b < os.len() implies os[a].name != os[b].name by {
                if a < os.len() - 1 {
                    assert(self.expressions@[a].spec_field_meta(ss) is Ok);
                    assert(os[a].name == idents_view(self.names@)[a]);
                }
                if b < os.len() - 1 {
                    assert(self.expressions@[b].spec_field_meta(ss) is Ok);
                    assert(os[b].name == idents_view(self.names@)[b]);
                }
            };
            assert(schema_wf(result_schema@));
        }
        Ok(result_schema)
    }

    fn run(&self, ctx: &ExecutionContext, out: &mut BatchSink, meta: &mut MetaSink) -> (r: Result<
        (),
        Error,
    >) {
        proof {
            use_type_invariant(&*self);
        }
        if ctx.cancelled {
            proof {
                assert(out@ =~= old(out)@ + self.spec_batches(true));
                assert(meta@ =~= old(meta)@ + self.spec_meta(true));
            }
            return Err(Error::Cancelled);
        }
        let output_schema = match self.schema() {
            Ok(s) => s,
            Err(e) => {
                proof {
                    assert(out@ =~= old(out)@ + self.spec_batches(false));
                    assert(meta@ =~= old(meta)@ + self.spec_meta(false));
                }
                return Err(e);
            },
        };
        let ghost os = output_schema@;
        let ghost exprs = self.expressions@;
        let ghost names = idents_view(self.names@);
        let ghost ss = self.source.spec_schema()->Ok_0;
        let mut inner = BatchSink::new();
        let source_result = self.source.run(ctx, &mut inner, meta);
        let ghost sb = self.source.spec_batches(false);
        let ghost sr = self.source.spec_result(false);
        let mut i: usize = 0;
        proof {
            assert(inner@ =~= sb);
            assert(out@ =~= old(out)@ + Seq::<BatchV>::empty());
        }
        while i < inner.len()
            invariant
                i <= inner@.len(),
                inner@ == sb,
                ctx.cancelled == false,
                exprs == self.expressions@,
                names == idents_view(self.names@),
                self.source.spec_schema() == Ok::<Seq<FieldV>, ErrorV>(ss),
                sb == self.source.spec_batches(false),
                sr == self.source.spec_result(false),
                spec_map_schema(Ok(ss), exprs, names) == Ok::<Seq<FieldV>, ErrorV>(os),
                self.spec_schema() == Ok::<Seq<FieldV>, ErrorV>(os),
                schema_wf(os),
                output_schema@ == os,
                forall|k: int| 0 <= k < sb.len() ==> batch_conforms(#[trigger] sb[k], ss),
                sb.len() > 0 ==> schema_wf(ss),
                unit_res_view(source_result) == sr,
                meta@ == old(meta)@ + self.spec_meta(false),
                forall|k: int| 0 <= k < i ==> spec_map_batch(exprs, os, #[trigger] sb[k]) is Ok,
                out@ == old(out)@ + Seq::new(
                    i as nat,
                    |k: int| spec_map_batch(exprs, os, sb[k])->Ok_0,
                ),
            decreases inner@.len() - i,
        {
            let batch = inner.get(i);
            let mut new_columns: Vec<Column> = Vec::new();
            let mut j: usize = 0;
            proof {
                assert(exprs.take(0) =~= Seq::<AnyExpression>::empty());
                assert(columns_view(new_columns@) =~= Seq::<ColumnV>::empty());
            }
            while j < self.expressions.len()
                invariant
                    j <= self.expressions@.len(),
                    exprs == self.expressions@,
                    names == idents_view(self.names@),
                    i < sb.len(),
                    inner@ == sb,
                    batch@ == sb[i as int],
                    batch_wf(batch@),
                    ctx.cancelled == false,
                    self.source.spec_schema() == Ok::<Seq<FieldV>, ErrorV>(ss),
                    sb == self.source.spec_batches(false),
                    sr == self.source.spec_result(false),
                    spec_map_schema(Ok(ss), exprs, names) == Ok::<Seq<FieldV>, ErrorV>(os),
                    self.spec_schema() == Ok::<Seq<FieldV>, ErrorV>(os),
                    schema_wf(os),
                    schema_wf(ss),
                    forall|k: int| 0 <= k < sb.len() ==> batch_conforms(#[trigger] sb[k], ss),
                    meta@ == old(meta)@ + self.spec_meta(false),
                    forall|k: int|
                        0 <= k < i ==> spec_map_batch(exprs, os, #[trigger] sb[k]) is Ok,
                    out@ == old(out)@ + Seq::new(
                        i as nat,
                        |k: int| spec_map_batch(exprs, os, sb[k])->Ok_0,
                    ),
                    spec_eval_columns(exprs.take(j as int), batch@) == Ok::<
                        Seq<ColumnV>,
                        ErrorV,
                    >(columns_view(new_columns@)),
                    columns_view(new_columns@).len() == j,
                decreases self.expressions@.len() - j,
            {
                match self.expressions[j].evaluate(ctx, batch) {
                    Ok(c) => {
                        let ghost cols_pre = new_columns@;
                        new_columns.push(c);
                        proof {
                            assert(exprs.take(j + 1 as int).drop_last() =~= exprs.take(j as int));
                            assert(exprs.take(j + 1 as int).last() == exprs[j as int]);
                            assert(columns_view(new_columns@) =~= columns_view(cols_pre).push(c@));
                        }
                    },
                    Err(e) => {
                        proof {
                            assert(exprs.take(j + 1 as int).drop_last() =~= exprs.take(j as int));
                            assert(exprs.take(j + 1 as int).last() == exprs[j as int]);
                            lemma_eval_columns_err_extends(exprs, batch@, j + 1);
                            assert(spec_map_batch(exprs, os, sb[i as int]) == Err::<BatchV, ErrorV>(
                                e@,
                            ));
                            lemma_map_batches_pointwise(exprs, os, sb);
                            let outs = spec_map_batches(exprs, os, sb);
                            assert(outs.len() == i) by {
                                if outs.len() > i {
                                    assert(spec_map_batch(exprs, os, sb[i as int]) is Ok);
                                }
                                if outs.len() < i {
                                    assert(spec_map_batch(
                                        exprs,
                                        os,
                                        sb[outs.len() as int],
                                    ) is Ok);
                                }
                            };
                            assert(out@ =~= old(out)@ + outs);
                            lemma_map_run_result_err(exprs, os, sb, sr, i as int);
                            lemma_map_outputs_conform(ss, exprs, names, sb);
                        }
                        return Err(e);
                    },
                }
                j += 1;
            }
            proof {
                assert(exprs.take(exprs.len() as int) =~= exprs);
            }
            let ghost cs = columns_view(new_columns@);
            let ncols = batch.num_columns();
            proof {
                assert(batch@.columns.len() == ss.len());
                assert(ncols >= 1);
            }
            let last_col = batch.column(ncols - 1).clone();
            new_columns.push(last_col);
            proof {
                assert(batch@.columns.last() == batch@.columns[ss.len() - 1]);
                assert(columns_view(new_columns@) =~= cs.push(batch@.columns.last()));
                lemma_map_batch_conforms(ss, exprs, names, batch@);
                let nb = spec_map_batch(exprs, os, batch@)->Ok_0;
                assert(nb.columns == columns_view(new_columns@));
                assert(column_matches_field(nb.columns[0], os[0], nb.rows));
                assert(spec_rows(new_columns@) == batch@.rows);
            }
            // The columns were proved conformant above, so construction
            // cannot fail here; the mismatch arm still propagates an error
            // rather than aborting, as the shape contract demands.
            let new_batch = match Batch::try_new(output_schema.clone(), new_columns) {
                Ok(b) => b,
                Err(e) => {
                    return Err(e);
                },
            };
            out.push(new_batch);
            proof {
                assert(new_batch@ == spec_map_batch(exprs, os, sb[i as int])->Ok_0);
                assert(out@ =~= old(out)@ + Seq::new(
                    (i + 1) as nat,
                    |k: int| spec_map_batch(exprs, os, sb[k])->Ok_0,
                ));
            }
            i += 1;
        }
        proof {
            lemma_map_batches_pointwise(exprs, os, sb);
            let outs = spec_map_batches(exprs, os, sb);
            assert(outs.len() == sb.len()) by {
                if outs.len() < sb.len() {
                    assert(spec_map_batch(exprs, os, sb[outs.len() as int]) is Ok);
                }
            };
            assert(outs =~= Seq::new(sb.len(), |k: int| spec_map_batch(exprs, os, sb[k])->Ok_0));
            assert(out@ =~= old(out)@ + outs);
            lemma_map_run_result_ok(exprs, os, sb, sr);
            if sb.len() > 0 {
                lemma_map_outputs_conform(ss, exprs, names, sb);
            }
        }
        source_result
    }
}

} // verus!
