//! The system scope: ports and the users that own what runs.

pub mod uid;

pub use uid::Uid;

use std::collections::BTreeMap;

use vstd::prelude::*;

use crate::common::port::Port;
use crate::common::port::Target;
use crate::common::Id;
use crate::common::ImageOr;

verus! {

/// The system scope of a manifest.
#[derive(Clone, Debug, PartialEq, Eq)]
pub struct System {
    /// Where each port of the system leads.
    pub ports: BTreeMap<Port, Target>,
    /// The users of the system, by name.
    pub users: BTreeMap<Id, UserDef>,
}

/// One user of the system: its id and what it runs.
#[derive(Clone, Debug, PartialEq, Eq)]
pub struct UserDef {
    pub uid: Uid,
    pub manifest: ImageOr<super::user::User>,
}

} // verus!
