//! Operation selection: from parsed locations to the one bulk operation a
//! command asks for. Only a local source copied to a remote destination is
//! an upload; only a remote prefix may be deleted; every other combination
//! is rejected here, before any I/O could start.

use vstd::prelude::*;

use crate::location::{Location, LocationModel};

verus! {

/// The bulk operation handed to the external transfer collaborator.
#[derive(Debug)]
pub enum Plan {
    Upload { host: Option<String>, bucket: String, base_key: String, local_root: String },
    DeletePrefix { host: Option<String>, bucket: String, key_prefix: String },
}

/// Why a command is rejected before any transfer begins.
#[derive(Clone, Copy, Debug, PartialEq, Eq, Structural)]
pub enum PlanError {
    /// `cp` supports only a local source and a remote destination.
    UnsupportedDirection,
    /// `rm` takes a remote prefix, never a local path.
    NonRemotePrefix,
}

impl PlanError {
    /// A diagnostic line for the user.
    pub fn message(&self) -> (r: &'static str)
        ensures
            *self == PlanError::UnsupportedDirection ==> r@ == "unsupported copy direction: only local to remote is implemented"@,
            *self == PlanError::NonRemotePrefix ==> r@ == "`prefix` must be a remote location"@,
    {
        match self {
            PlanError::UnsupportedDirection => "unsupported copy direction: only local to remote is implemented",
            PlanError::NonRemotePrefix => "`prefix` must be a remote location",
        }
    }
}

/// Decide what a `cp src dest` command does: exactly the local-to-remote
/// direction yields an upload plan carrying the parsed pieces through
/// unchanged; every other direction is rejected.
pub fn plan_copy(src: Location, dest: Location) -> (r: Result<Plan, PlanError>)
    ensures
        r is Ok <==> src@ is Local && dest@ is Remote,
        r is Ok ==> (r->Ok_0 matches Plan::Upload { host, bucket, base_key, local_root } && ({
            let hostv = match host {
                Some(h) => Some(h@),
                None => None,
            };
            &&& dest@ == (LocationModel::Remote { host: hostv, bucket: bucket@, key: base_key@ })
            &&& src@ == (LocationModel::Local { path: local_root@ })
        })),
        r is Err ==> r->Err_0 == PlanError::UnsupportedDirection,
{
    match (src, dest) {
        (Location::Local { path }, Location::Remote { host, bucket, key }) => Ok(
            Plan::Upload { host, bucket, base_key: key, local_root: path },
        ),
        _ => Err(PlanError::UnsupportedDirection),
    }
}

/// Decide what an `rm prefix` command does: exactly a remote prefix yields
/// a delete plan carrying the parsed pieces through unchanged; a local path
/// is rejected.
pub fn plan_remove(prefix: Location) -> (r: Result<Plan, PlanError>)
    ensures
        r is Ok <==> prefix@ is Remote,
        r is Ok ==> (r->Ok_0 matches Plan::DeletePrefix { host, bucket, key_prefix } && ({
            let hostv = match host {
                Some(h) => Some(h@),
                None => None,
            };
            prefix@ == (LocationModel::Remote { host: hostv, bucket: bucket@, key: key_prefix@ })
        })),
        r is Err ==> r->Err_0 == PlanError::NonRemotePrefix,
{
    match prefix {
        Location::Remote { host, bucket, key } => Ok(
            Plan::DeletePrefix { host, bucket, key_prefix: key },
        ),
        Location::Local { .. } => Err(PlanError::NonRemotePrefix),
    }
}

} // verus!
