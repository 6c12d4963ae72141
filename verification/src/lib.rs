//! Value model of a declarative deployment manifest: identifiers, byte-size
//! quantities, port bindings and the tree of scopes built from them.
//!
//! Every value type validates at construction and states, as a contract, the
//! text form it is read from and written to.

pub mod common;
pub mod v1;

use vstd::prelude::*;

verus! {

/// A deployment profile: what to run, as an image or as a manifest.
#[derive(Clone, Debug, PartialEq, Eq)]
pub struct Profile {
    pub manifest: common::ImageOr<Manifest>,
}

/// A manifest, tagged with the version of its layout.
#[derive(Clone, Debug, PartialEq, Eq)]
pub enum Manifest {
    V1(v1::Scope),
}

} // verus!
