//! Numeric user ids.

use std::ops::Deref;

use vstd::prelude::*;

use crate::common::Invalid;

verus! {

/// The lowest id that a manifest may give a user; those below belong to
/// the system.
pub const MIN_UID: u32 = 1000;

/// A user id, never below [`MIN_UID`].
#[derive(Copy, Clone, Debug, PartialEq, Eq, Hash, Structural)]
pub struct Uid(u32);

impl View for Uid {
    type V = u32;

    closed spec fn view(&self) -> u32 {
        self.0
    }
}

impl Uid {
    #[verifier::type_invariant]
    closed spec fn inv(self) -> bool {
        self.0 >= MIN_UID
    }
}

impl TryFrom<u32> for Uid {
    type Error = Invalid<u32>;

    /// Takes `value` as a user id if it is at least [`MIN_UID`], and hands
    /// it back in the error if it is not.
    fn try_from(value: u32) -> (r: Result<Uid, Invalid<u32>>)
        ensures
            match r {
                Ok(uid) => uid@ == value && value >= MIN_UID,
                Err(e) => e.0 == value && value < MIN_UID,
            },
    {
        if value < MIN_UID {
            return Err(Invalid(value));
        }
        Ok(Uid(value))
    }
}

impl vstd::std_specs::convert::TryFromSpecImpl<u32> for Uid {
    open spec fn obeys_try_from_spec() -> bool {
        true
    }

    closed spec fn try_from_spec(value: u32) -> Result<Uid, Invalid<u32>> {
        if value < MIN_UID {
            Err(Invalid(value))
        } else {
            Ok(Uid(value))
        }
    }
}

impl From<Uid> for u32 {
    /// The numeric id.
    fn from(uid: Uid) -> (r: u32)
        ensures
            r == uid@,
            r >= MIN_UID,
    {
        proof {
            use_type_invariant(&uid);
        }
        uid.0
    }
}

impl vstd::std_specs::convert::FromSpecImpl<Uid> for u32 {
    open spec fn obeys_from_spec() -> bool {
        true
    }

    open spec fn from_spec(uid: Uid) -> u32 {
        uid@
    }
}

impl Deref for Uid {
    type Target = u32;

    fn deref(&self) -> (r: &u32)
        ensures
            *r == self@,
            *r >= MIN_UID,
    {
        proof {
            use_type_invariant(self);
        }
        &self.0
    }
}

} // verus!
