//! The user scope: ports, pods and their containers.

use std::collections::BTreeMap;

use vstd::prelude::*;

use crate::common::port::Port;
use crate::common::port::Target;
use crate::common::Id;
use crate::common::Image;
use crate::common::ImageOr;

verus! {

/// The user scope of a manifest.
#[derive(Clone, Debug, PartialEq, Eq)]
pub struct User {
    /// Where each port of the user leads.
    pub ports: BTreeMap<Port, Target>,
    /// The pods of the user, by name.
    pub pods: BTreeMap<Id, Pod>,
}

/// A group of containers that share their ports.
#[derive(Clone, Debug, PartialEq, Eq)]
pub struct Pod {
    /// Where each port of the pod leads.
    pub ports: BTreeMap<Port, Target>,
    /// The containers of the pod, by name.
    pub containers: BTreeMap<Id, ImageOr<Container>>,
}

/// One container and the image it runs.
#[derive(Clone, Debug, PartialEq, Eq)]
pub struct Container {
    pub image: Image,
}

} // verus!
