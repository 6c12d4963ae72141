//! The first version of the manifest.

pub mod system;
pub mod user;

use vstd::prelude::*;

verus! {

/// What a manifest configures: the whole system or one user.
#[derive(Clone, Debug, PartialEq, Eq)]
pub enum Scope {
    System(system::System),
    User(user::User),
}

} // verus!
