//! COM status-code handling.
//!
//! The native shell layer reports outcomes as numeric status values: an
//! `HRESULT` (an `i32`, successful exactly when non-negative) or an
//! unsigned status (`u32`, successful exactly when zero). The extension
//! trait turns either into a `Result` carrying the failing code.

use vstd::prelude::*;

verus! {

/// A failed COM status value.
#[derive(Clone, Copy, Debug, PartialEq, Eq, Structural)]
pub struct ComError {
    /// The raw status value, widened.
    pub code: i64,
}

/// The extension trait for COM status values.
pub trait HresultErrorExt: Sized {
    /// Whether this status value means success.
    spec fn is_success(&self) -> bool;

    /// The raw value, widened, as carried into the error.
    spec fn widened(&self) -> i64;

    /// Turns the status into a `Result`: `Ok` exactly on success, and
    /// otherwise an error holding the value.
    fn err(self) -> (r: Result<(), ComError>)
        ensures
            r is Ok <==> self.is_success(),
            (r matches Err(e) ==> e.code == self.widened()),
    ;
}

/// `HRESULT`: success is a non-negative value.
impl HresultErrorExt for i32 {
    open spec fn is_success(&self) -> bool {
        *self >= 0
    }

    open spec fn widened(&self) -> i64 {
        *self as i64
    }

    fn err(self) -> (r: Result<(), ComError>) {
        if self >= 0 {
            Ok(())
        } else {
            Err(ComError { code: self as i64 })
        }
    }
}

/// An unsigned status (`ULONG`): success is exactly zero.
impl HresultErrorExt for u32 {
    open spec fn is_success(&self) -> bool {
        *self == 0
    }

    open spec fn widened(&self) -> i64 {
        *self as i64
    }

    fn err(self) -> (r: Result<(), ComError>) {
        if self == 0 {
            Ok(())
        } else {
            Err(ComError { code: self as i64 })
        }
    }
}

} // verus!
