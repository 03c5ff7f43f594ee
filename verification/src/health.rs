//! The health of what the service depends on.

use vstd::prelude::*;

verus! {

/// Whether a collaborator of the service is in working order.
#[derive(Clone, Copy, Debug, PartialEq, Eq, Structural)]
pub enum ServiceStatus {
    OK,
    NotOk,
}

/// The status of the node, given what its health probe answered: a node that
/// could not be reached is not in working order.
pub fn get_fuel_status(answer: Option<ServiceStatus>) -> (status: ServiceStatus)
    ensures
        status == (match answer {
            Some(reported) => reported,
            None => ServiceStatus::NotOk,
        }),
{
    match answer {
        Some(reported) => reported,
        None => ServiceStatus::NotOk,
    }
}

} // verus!
