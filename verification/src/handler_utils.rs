//! Capability markers for the staged request pipeline. A request payload
//! carries one marker per capability; an executor is only reachable on
//! the instantiation whose markers say that every prerequisite stage ran.
//! The store handle itself is passed to the methods that touch the store;
//! its marker records that the handle was obtained.

use vstd::prelude::*;

use crate::auth::UserAuthDetails;

verus! {

/// No store handle has been attached yet.
#[derive(Default, Debug)]
pub struct NoDBClient;

/// A store handle was attached.
#[derive(Debug)]
pub struct WithDBClient;

/// No caller identity has been attached yet.
#[derive(Default, Debug)]
pub struct NoUserDetails;

/// The authenticated caller bound to the request.
pub struct WithUserDetails<'a>(pub &'a UserAuthDetails);

/// Validation has not run yet.
#[derive(Default, Debug)]
pub struct NotValidated;

/// Every structural and store-dependent check has passed.
pub struct Validated;

} // verus!
