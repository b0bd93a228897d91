//! Operators (nodes) of the push-based execution tree, and the in-memory
//! source that stands at its leaves.

use vstd::prelude::*;
use crate::batch::{Batch, BatchV, batch_conforms};
use crate::context::{BatchSink, ExecutionContext, MetaSink, Metadata, batches_view};
use crate::error::{Error, ErrorV, res_view, unit_res_view};
use crate::schema::{FieldV, Schema, schema_wf};

verus! {

/// A unit of the push-based execution tree.
///
/// The spec functions state the operator's whole observable behaviour as a
/// function of the operator and the cancellation flag alone: the schema it
/// promises, the batches and control signals one `run` pushes, and the
/// result it returns. `run` appends exactly those sequences to its sinks,
/// so two runs of one operator push identical output — and `schema` is
/// consistent with `run`: every pushed batch conforms to the promised
/// schema. Under a cancelled context an operator pushes nothing and
/// propagates the cancellation error.
pub trait Node: Sized {
    /// The schema this operator will produce, or why it cannot resolve.
    spec fn spec_schema(&self) -> Result<Seq<FieldV>, ErrorV>;

    /// The batches one `run` pushes downstream.
    spec fn spec_batches(&self, cancelled: bool) -> Seq<BatchV>;

    /// The out-of-band signals one `run` pushes downstream.
    spec fn spec_meta(&self, cancelled: bool) -> Seq<Metadata>;

    /// The result one `run` returns.
    spec fn spec_result(&self, cancelled: bool) -> Result<(), ErrorV>;

    /// Computes the exact output schema without reading any data; a
    /// well-formed pipeline schema whenever it resolves.
    fn schema(&self) -> (r: Result<Schema, Error>)
        ensures
            res_view(r) == self.spec_schema(),
            r matches Ok(s) ==> schema_wf(s@),
    ;

    /// Drives execution to completion, pushing every produced batch to
    /// `out` and every control signal to `meta`, in order.
    fn run(&self, ctx: &ExecutionContext, out: &mut BatchSink, meta: &mut MetaSink) -> (r: Result<
        (),
        Error,
    >)
        ensures
            final(out)@ == old(out)@ + self.spec_batches(ctx.cancelled),
            final(meta)@ == old(meta)@ + self.spec_meta(ctx.cancelled),
            unit_res_view(r) == self.spec_result(ctx.cancelled),
            forall|k: int|
                0 <= k < self.spec_batches(ctx.cancelled).len() ==> (self.spec_schema() matches Ok(
                    s,
                ) && schema_wf(s) && batch_conforms(
                    #[trigger] self.spec_batches(ctx.cancelled)[k],
                    s,
                )),
            ctx.cancelled ==> self.spec_batches(true) == Seq::<BatchV>::empty() && self.spec_meta(
                true,
            ) == Seq::<Metadata>::empty() && self.spec_result(true) == Err::<(), ErrorV>(
                ErrorV::Cancelled,
            ),
    ;
}

/// Law: what one `run` pushes is a function of the operator and the
/// cancellation flag alone; two runs of the same operator under the same
/// context push identical batch sequences.
pub proof fn lemma_run_deterministic<N: Node>(
    n: &N,
    cancelled: bool,
    first_run: Seq<BatchV>,
    second_run: Seq<BatchV>,
)
    requires
        first_run == n.spec_batches(cancelled),
        second_run == n.spec_batches(cancelled),
    ensures
        first_run == second_run,
{
}

/// An operator that replays a fixed list of batches, then a fixed list of
/// control signals: the in-memory stand-in for a source connector at the
/// leaves of the tree.
pub struct BatchSource {
    schema: Schema,
    batches: Vec<Batch>,
    metadata: Vec<Metadata>,
}

impl BatchSource {
    #[verifier::type_invariant]
    spec fn inv(self) -> bool {
        &&& schema_wf(self.schema@)
        &&& forall|k: int|
            0 <= k < self.batches@.len() ==> batch_conforms(self.batches@[k]@, self.schema@)
    }

    /// Builds a source over `schema` that replays `batches`, then
    /// `metadata`; every batch must conform to the schema.
    pub fn new(schema: Schema, batches: Vec<Batch>, metadata: Vec<Metadata>) -> (r: BatchSource)
        requires
            schema_wf(schema@),
            forall|k: int| 0 <= k < batches@.len() ==> batch_conforms(batches@[k]@, schema@),
        ensures
            r.spec_schema() == Ok::<Seq<FieldV>, ErrorV>(schema@),
            r.spec_batches(false) == batches_view(batches@),
            r.spec_meta(false) == metadata@,
            r.spec_result(false) == Ok::<(), ErrorV>(()),
    {
        BatchSource { schema, batches, metadata }
    }
}

impl Node for BatchSource {
    closed spec fn spec_schema(&self) -> Result<Seq<FieldV>, ErrorV> {
        Ok(self.schema@)
    }

    closed spec fn spec_batches(&self, cancelled: bool) -> Seq<BatchV> {
        if cancelled {
            Seq::empty()
        } else {
            batches_view(self.batches@)
        }
    }

    closed spec fn spec_meta(&self, cancelled: bool) -> Seq<Metadata> {
        if cancelled {
            Seq::empty()
        } else {
            self.metadata@
        }
    }

    closed spec fn spec_result(&self, cancelled: bool) -> Result<(), ErrorV> {
        if cancelled {
            Err(ErrorV::Cancelled)
        } else {
            Ok(())
        }
    }

    fn schema(&self) -> (r: Result<Schema, Error>) {
        proof {
            use_type_invariant(&*self);
        }
        Ok(self.schema.clone())
    }

    fn run(&self, ctx: &ExecutionContext, out: &mut BatchSink, meta: &mut MetaSink) -> (r: Result<
        (),
        Error,
    >) {
        proof {
            use_type_invariant(&*self);
        }
        if ctx.cancelled {
            proof {
                assert(out@ =~= old(out)@ + self.spec_batches(true));
                assert(meta@ =~= old(meta)@ + self.spec_meta(true));
            }
            return Err(Error::Cancelled);
        }
        let mut i: usize = 0;
        proof {
            assert(out@ =~= old(out)@ + batches_view(self.batches@).take(0));
        }
        while i < self.batches.len()
            invariant
                i <= self.batches@.len(),
                self.inv(),
                meta@ == old(meta)@,
                out@ == old(out)@ + batches_view(self.batches@).take(i as int),
            decreases self.batches@.len() - i,
        {
            out.push(self.batches[i].clone());
            proof {
                assert(batches_view(self.batches@).take(i + 1 as int) =~= batches_view(
                    self.batches@,
                ).take(i as int).push(self.batches@[i as int]@));
                assert(out@ =~= old(out)@ + batches_view(self.batches@).take(i + 1 as int));
            }
            i += 1;
        }
        let mut j: usize = 0;
        proof {
            assert(batches_view(self.batches@).take(self.batches@.len() as int) =~= batches_view(
                self.batches@,
            ));
            assert(meta@ =~= old(meta)@ + self.metadata@.take(0));
        }
        while j < self.metadata.len()
            invariant
                j <= self.metadata@.len(),
                out@ == old(out)@ + batches_view(self.batches@),
                meta@ == old(meta)@ + self.metadata@.take(j as int),
            decreases self.metadata@.len() - j,
        {
            meta.push(self.metadata[j]);
            proof {
                assert(self.metadata@.take(j + 1 as int) =~= self.metadata@.take(j as int).push(
                    self.metadata@[j as int],
                ));
                assert(meta@ =~= old(meta)@ + self.metadata@.take(j + 1 as int));
            }
            j += 1;
        }
        proof {
            use_type_invariant(&*self);
            assert(self.metadata@.take(self.metadata@.len() as int) =~= self.metadata@);
        }
        Ok(())
    }
}

} // verus!
