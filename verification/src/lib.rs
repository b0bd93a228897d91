//! Physical execution core of an incremental query engine: a push-based
//! tree of operators over columnar batches whose rows carry an explicit
//! retraction flag, with schema inference and expression evaluation.

pub mod batch;
pub mod context;
pub mod error;
pub mod expression;
pub mod map;
pub mod node;
pub mod schema;
