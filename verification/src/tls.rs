//! TLS settings: wherever TLS is on, certificates are verified.

use crate::error::{refuse, ConnectorError};
use crate::model::{fault, ErrorCode, Fault};
use vstd::prelude::*;

verus! {

/// TLS settings of a connector.
#[derive(Clone, Copy, Debug, PartialEq, Eq, Structural)]
pub struct TlsConfig {
    pub enabled: bool,
    pub skip_verify: bool,
}

/// The fault for switching verification off.
pub open spec fn skip_verify_fault() -> Fault {
    fault(
        ErrorCode::PolicyDenied,
        "TLS skip_verify is rejected; certificate verification is mandatory when TLS is used"@,
    )
}

impl TlsConfig {
    /// No TLS.
    pub fn disabled() -> (r: Self)
        ensures
            !r.enabled,
            !r.skip_verify,
    {
        TlsConfig { enabled: false, skip_verify: false }
    }

    /// TLS with verification.
    pub fn enabled() -> (r: Self)
        ensures
            r.enabled,
            !r.skip_verify,
    {
        TlsConfig { enabled: true, skip_verify: false }
    }

    /// Refuses to switch verification off.
    pub fn validate(&self) -> (r: Result<(), ConnectorError>)
        ensures
            match r {
                Ok(()) => !self.skip_verify,
                Err(e) => self.skip_verify && e@ == skip_verify_fault(),
            },
    {
        if self.skip_verify {
            return Err(
                refuse(
                    ErrorCode::PolicyDenied,
                    "TLS skip_verify is rejected; certificate verification is mandatory when TLS is used",
                ),
            );
        }
        Ok(())
    }
}

impl Default for TlsConfig {
    fn default() -> (r: Self)
        ensures
            !r.enabled,
            !r.skip_verify,
    {
        TlsConfig::disabled()
    }
}

} // verus!
