//! Types of the `near_workspaces` crate that the library carries through
//! without looking inside them.
use vstd::prelude::*;

verus! {

/// An amount of NEAR, as the sandbox takes it.
#[verifier::external_type_specification]
#[verifier::external_body]
pub struct ExNearToken(near_workspaces::types::NearToken);

/// A deployed contract.
#[verifier::external_type_specification]
#[verifier::external_body]
pub struct ExContract(near_workspaces::Contract);

/// An account of the sandbox.
#[verifier::external_type_specification]
#[verifier::external_body]
pub struct ExAccount(near_workspaces::Account);

/// The sandbox network.
#[verifier::external_type_specification]
#[verifier::external_body]
pub struct ExSandbox(near_workspaces::network::Sandbox);

/// A worker that drives a network.
#[verifier::external_type_specification]
#[verifier::external_body]
#[verifier::reject_recursive_types(T)]
pub struct ExWorker<T: ?Sized>(near_workspaces::Worker<T>);

/// `Clone` for `NearToken`, a `Copy` wrapper of a `u128` whose `Clone` is
/// derived. Claimed: the copy equals the original.
pub assume_specification[ <near_workspaces::types::NearToken as Clone>::clone ](
    t: &near_workspaces::types::NearToken,
) -> (r: near_workspaces::types::NearToken)
    ensures
        r == *t,
;

/// `Clone` for `Contract` (derived; it clones the account handle). Nothing
/// is claimed of the copy.
pub assume_specification[ <near_workspaces::Contract as Clone>::clone ](
    c: &near_workspaces::Contract,
) -> near_workspaces::Contract;

} // verus!
