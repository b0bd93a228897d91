//! The error taxonomy of the execution core: every operation returns a
//! result the caller must check; nothing here panics or recovers locally.

use vstd::prelude::*;
use crate::schema::DataType;

verus! {

/// Mathematical view of an error.
pub ghost enum ErrorV {
    SchemaResolution { name: Seq<char> },
    NameCollision,
    UnsupportedExpression { data_type: DataType },
    ShapeMismatch,
    Cancelled,
}

/// An execution-core error, surfaced to the caller who decides whether to
/// retry, abort the query, or report.
#[derive(Debug)]
pub enum Error {
    /// A referenced field name does not exist in the relevant schema.
    SchemaResolution { name: String },
    /// A chosen output field name collides with another chosen name or with
    /// the reserved retraction-flag name.
    NameCollision,
    /// An expression has no evaluation rule for this scalar kind.
    UnsupportedExpression { data_type: DataType },
    /// A constructed batch does not conform to its declared schema.
    ShapeMismatch,
    /// The execution context's cancellation signal was observed.
    Cancelled,
}

impl View for Error {
    type V = ErrorV;

    open spec fn view(&self) -> ErrorV {
        match self {
            Error::SchemaResolution { name } => ErrorV::SchemaResolution { name: name@ },
            Error::NameCollision => ErrorV::NameCollision,
            Error::UnsupportedExpression { data_type } => ErrorV::UnsupportedExpression {
                data_type: *data_type,
            },
            Error::ShapeMismatch => ErrorV::ShapeMismatch,
            Error::Cancelled => ErrorV::Cancelled,
        }
    }
}

/// The view of a result, taken on both sides.
pub open spec fn res_view<T: View, E: View>(r: Result<T, E>) -> Result<T::V, E::V> {
    match r {
        Ok(t) => Ok(t@),
        Err(e) => Err(e@),
    }
}

/// The view of a unit result, taken on the error side.
pub open spec fn unit_res_view(r: Result<(), Error>) -> Result<(), ErrorV> {
    match r {
        Ok(u) => Ok(u),
        Err(e) => Err(e@),
    }
}

} // verus!
