//! Shapes the service layer exchanges with its callers: a reference to
//! a stored measurement and the error payload returned to a client.

use vstd::prelude::*;

verus! {

/// Points a caller at the stored measurement its request created.
#[derive(Debug, Clone, Copy, PartialEq, Eq, Structural)]
pub struct MeasurementRef {
    pub id: usize,
}

/// The error payload returned to a client.
#[derive(Debug, Clone)]
pub struct ErrorJson {
    pub error: String,
}

} // verus!
