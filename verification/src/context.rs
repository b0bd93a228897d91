//! Execution context, out-of-band control signals, and the sinks that
//! stand downstream of `run`: one for batches, one for metadata.

use vstd::prelude::*;
use crate::batch::{Batch, BatchV, columns_view};

verus! {

/// Query-scoped state passed by reference through every `run` and
/// `evaluate` call; for this core, the cooperative cancellation signal,
/// observed by operators at batch boundaries.
pub struct ExecutionContext {
    pub cancelled: bool,
}

impl ExecutionContext {
    pub fn new(cancelled: bool) -> (r: ExecutionContext)
        ensures
            r.cancelled == cancelled,
    {
        ExecutionContext { cancelled }
    }
}

/// An out-of-band control signal an operator may emit alongside batches,
/// forwarded unchanged through transforming stages.
#[derive(Clone, Copy, PartialEq, Eq, Structural, Debug)]
pub enum Metadata {
    /// A progress watermark of the incremental engine.
    Watermark(u64),
    /// A notification that an upstream schema changed.
    SchemaChange,
}

/// The views of a sequence of batches.
pub open spec fn batches_view(bs: Seq<Batch>) -> Seq<BatchV> {
    Seq::new(bs.len(), |i: int| bs[i]@)
}

/// Receives the batches an operator pushes: the downstream end of one
/// `run` call.
pub struct BatchSink {
    pub batches: Vec<Batch>,
}

impl View for BatchSink {
    type V = Seq<BatchV>;

    open spec fn view(&self) -> Seq<BatchV> {
        batches_view(self.batches@)
    }
}

impl BatchSink {
    pub fn new() -> (r: BatchSink)
        ensures
            r@ == Seq::<BatchV>::empty(),
    {
        let r = BatchSink { batches: Vec::new() };
        proof {
            assert(r@ =~= Seq::<BatchV>::empty());
        }
        r
    }

    /// Receives one produced batch.
    pub fn push(&mut self, batch: Batch)
        ensures
            final(self)@ == old(self)@.push(batch@),
    {
        self.batches.push(batch);
        proof {
            assert(self@ =~= old(self)@.push(batch@));
        }
    }

    pub fn len(&self) -> (r: usize)
        ensures
            r == self@.len(),
    {
        self.batches.len()
    }

    pub fn get(&self, i: usize) -> (r: &Batch)
        requires
            i < self@.len(),
        ensures
            r@ == self@[i as int],
    {
        &self.batches[i]
    }
}

/// Receives the out-of-band signals an operator emits.
pub struct MetaSink {
    pub items: Vec<Metadata>,
}

impl View for MetaSink {
    type V = Seq<Metadata>;

    open spec fn view(&self) -> Seq<Metadata> {
        self.items@
    }
}

impl MetaSink {
    pub fn new() -> (r: MetaSink)
        ensures
            r@ == Seq::<Metadata>::empty(),
    {
        MetaSink { items: Vec::new() }
    }

    /// Receives one control signal.
    pub fn push(&mut self, item: Metadata)
        ensures
            final(self)@ == old(self)@.push(item),
    {
        self.items.push(item);
    }
}

} // verus!
