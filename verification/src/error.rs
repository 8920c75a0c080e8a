//! The error that connectors report.

use crate::model::{fault, ErrorCode, Fault, SparrowError};
use vstd::prelude::*;

verus! {

/// An error of a connector.
#[derive(Debug)]
pub struct ConnectorError {
    pub code: ErrorCode,
    pub message: String,
}

impl View for ConnectorError {
    type V = Fault;

    open spec fn view(&self) -> Fault {
        fault(self.code, self.message@)
    }
}

impl ConnectorError {
    /// An error with a code and a message.
    pub fn new(code: ErrorCode, message: String) -> (r: Self)
        ensures
            r@ == fault(code, message@),
    {
        ConnectorError { code, message }
    }

    /// The error's code.
    pub fn code(&self) -> (r: ErrorCode)
        ensures
            r == self@.code,
    {
        self.code
    }
}

/// A connector error with a fixed message.
pub fn refuse(code: ErrorCode, message: &str) -> (r: ConnectorError)
    ensures
        r@ == fault(code, message@),
{
    ConnectorError::new(code, message.to_owned())
}

/// A connector error as an error of the runtime.
pub fn io(e: ConnectorError) -> (r: SparrowError)
    ensures
        r@ == e@,
{
    SparrowError::new(e.code, e.message)
}

/// A connector result with the error taken by what it says.
pub open spec fn reported<T>(r: Result<T, ConnectorError>) -> Result<T, Fault> {
    match r {
        Ok(v) => Ok(v),
        Err(e) => Err(e@),
    }
}

} // verus!
