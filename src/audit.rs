//! The administrative audit log.
use vstd::prelude::*;

verus! {

/// Records administrative actions; a failed write never fails the request.
pub struct AuditLogger;

} // verus!
