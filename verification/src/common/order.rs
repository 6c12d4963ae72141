//! What `==` and `<` mean on the value types. Identifiers are equal and
//! sort as their texts do. Units sort by multiplier, ports by number,
//! protocols in the order they are declared in. Targets are equal field by
//! field and sort by name, then port, then protocol. Sizes are equal and
//! sort by total byte count, whatever unit they are written in.

use std::cmp::Ordering;

use vstd::prelude::*;
use vstd::std_specs::cmp::PartialEqSpecImpl;
use vstd::std_specs::cmp::PartialOrdSpecImpl;

use super::id::Id;
use super::port::Port;
use super::port::Protocol;
use super::port::Target;
use super::size::Size;
use super::text::compare_text;
use super::text::str_eq;
use super::text::text_order;
use super::unit::Unit;

verus! {

impl PartialEq for Id {
    fn eq(&self, other: &Id) -> (r: bool) {
        str_eq(self.as_str(), other.as_str())
    }
}

impl PartialEqSpecImpl for Id {
    open spec fn obeys_eq_spec() -> bool {
        true
    }

    open spec fn eq_spec(&self, other: &Id) -> bool {
        self@ == other@
    }
}

impl PartialEq for Target {
    fn eq(&self, other: &Target) -> (r: bool) {
        let same_port: bool = match (self.port, other.port) {
            (Some(mine), Some(theirs)) => mine.get() == theirs.get(),
            (None, None) => true,
            _ => false,
        };
        let same_prot: bool = match (self.prot, other.prot) {
            (Some(mine), Some(theirs)) => mine == theirs,
            (None, None) => true,
            _ => false,
        };
        str_eq(self.name.as_str(), other.name.as_str()) && same_port && same_prot
    }
}

impl PartialEqSpecImpl for Target {
    open spec fn obeys_eq_spec() -> bool {
        true
    }

    open spec fn eq_spec(&self, other: &Target) -> bool {
        self@ == other@
    }
}

impl PartialOrd for Id {
    fn partial_cmp(&self, other: &Id) -> (r: Option<Ordering>) {
        let order: i8 = compare_text(self.as_str(), other.as_str());
        if order < 0 {
            Some(Ordering::Less)
        } else if order == 0 {
            Some(Ordering::Equal)
        } else {
            Some(Ordering::Greater)
        }
    }
}

impl PartialOrdSpecImpl for Id {
    open spec fn obeys_partial_cmp_spec() -> bool {
        true
    }

    open spec fn partial_cmp_spec(&self, other: &Id) -> Option<Ordering> {
        if text_order(self@, other@) < 0 {
            Some(Ordering::Less)
        } else if text_order(self@, other@) == 0 {
            Some(Ordering::Equal)
        } else {
            Some(Ordering::Greater)
        }
    }
}

impl PartialOrd for Port {
    fn partial_cmp(&self, other: &Port) -> (r: Option<Ordering>) {
        let mine: u16 = self.get();
        let theirs: u16 = other.get();
        if mine < theirs {
            Some(Ordering::Less)
        } else if mine == theirs {
            Some(Ordering::Equal)
        } else {
            Some(Ordering::Greater)
        }
    }
}

impl PartialOrdSpecImpl for Port {
    open spec fn obeys_partial_cmp_spec() -> bool {
        true
    }

    open spec fn partial_cmp_spec(&self, other: &Port) -> Option<Ordering> {
        if self@ < other@ {
            Some(Ordering::Less)
        } else if self@ == other@ {
            Some(Ordering::Equal)
        } else {
            Some(Ordering::Greater)
        }
    }
}

impl PartialOrd for Protocol {
    fn partial_cmp(&self, other: &Protocol) -> (r: Option<Ordering>) {
        let mine: i8 = self.index();
        let theirs: i8 = other.index();
        if mine < theirs {
            Some(Ordering::Less)
        } else if mine == theirs {
            Some(Ordering::Equal)
        } else {
            Some(Ordering::Greater)
        }
    }
}

impl PartialOrdSpecImpl for Protocol {
    open spec fn obeys_partial_cmp_spec() -> bool {
        true
    }

    open spec fn partial_cmp_spec(&self, other: &Protocol) -> Option<Ordering> {
        if self.rank() < other.rank() {
            Some(Ordering::Less)
        } else if self.rank() == other.rank() {
            Some(Ordering::Equal)
        } else {
            Some(Ordering::Greater)
        }
    }
}

impl PartialOrd for Target {
    fn partial_cmp(&self, other: &Target) -> (r: Option<Ordering>) {
        let order: i8 = self.compare(other);
        if order < 0 {
            Some(Ordering::Less)
        } else if order == 0 {
            Some(Ordering::Equal)
        } else {
            Some(Ordering::Greater)
        }
    }
}

impl PartialOrdSpecImpl for Target {
    open spec fn obeys_partial_cmp_spec() -> bool {
        true
    }

    open spec fn partial_cmp_spec(&self, other: &Target) -> Option<Ordering> {
        if self@.order(other@) < 0 {
            Some(Ordering::Less)
        } else if self@.order(other@) == 0 {
            Some(Ordering::Equal)
        } else {
            Some(Ordering::Greater)
        }
    }
}

impl PartialOrd for Unit {
    fn partial_cmp(&self, other: &Unit) -> (r: Option<Ordering>) {
        let mine: usize = self.index();
        let theirs: usize = other.index();
        if mine < theirs {
            Some(Ordering::Less)
        } else if mine == theirs {
            proof {
                self.lemma_rank_orders_multiplier(*other);
            }
            Some(Ordering::Equal)
        } else {
            Some(Ordering::Greater)
        }
    }
}

impl PartialOrdSpecImpl for Unit {
    open spec fn obeys_partial_cmp_spec() -> bool {
        true
    }

    open spec fn partial_cmp_spec(&self, other: &Unit) -> Option<Ordering> {
        if self.multiplier() < other.multiplier() {
            Some(Ordering::Less)
        } else if self.multiplier() == other.multiplier() {
            Some(Ordering::Equal)
        } else {
            Some(Ordering::Greater)
        }
    }
}

impl PartialEq for Size {
    fn eq(&self, other: &Size) -> (r: bool) {
        self.to_bytes() == other.to_bytes()
    }
}

impl PartialEqSpecImpl for Size {
    open spec fn obeys_eq_spec() -> bool {
        true
    }

    open spec fn eq_spec(&self, other: &Size) -> bool {
        self.total() == other.total()
    }
}

impl Eq for Size {

}

impl PartialOrd for Size {
    fn partial_cmp(&self, other: &Size) -> (r: Option<Ordering>) {
        let mine: u64 = self.to_bytes();
        let theirs: u64 = other.to_bytes();
        if mine < theirs {
            Some(Ordering::Less)
        } else if mine == theirs {
            Some(Ordering::Equal)
        } else {
            Some(Ordering::Greater)
        }
    }
}

impl PartialOrdSpecImpl for Size {
    open spec fn obeys_partial_cmp_spec() -> bool {
        true
    }

    open spec fn partial_cmp_spec(&self, other: &Size) -> Option<Ordering> {
        if self.total() < other.total() {
            Some(Ordering::Less)
        } else if self.total() == other.total() {
            Some(Ordering::Equal)
        } else {
            Some(Ordering::Greater)
        }
    }
}

impl PartialEq<u64> for Size {
    fn eq(&self, other: &u64) -> (r: bool) {
        self.to_bytes() == *other
    }
}

impl PartialEqSpecImpl<u64> for Size {
    open spec fn obeys_eq_spec() -> bool {
        true
    }

    open spec fn eq_spec(&self, other: &u64) -> bool {
        self.total() == *other
    }
}

impl PartialEq<Size> for u64 {
    fn eq(&self, other: &Size) -> (r: bool) {
        *self == other.to_bytes()
    }
}

impl PartialEqSpecImpl<Size> for u64 {
    open spec fn obeys_eq_spec() -> bool {
        true
    }

    open spec fn eq_spec(&self, other: &Size) -> bool {
        *self == other.total()
    }
}

impl PartialOrd<u64> for Size {
    fn partial_cmp(&self, other: &u64) -> (r: Option<Ordering>) {
        let mine: u64 = self.to_bytes();
        if mine < *other {
            Some(Ordering::Less)
        } else if mine == *other {
            Some(Ordering::Equal)
        } else {
            Some(Ordering::Greater)
        }
    }
}

impl PartialOrdSpecImpl<u64> for Size {
    open spec fn obeys_partial_cmp_spec() -> bool {
        true
    }

    open spec fn partial_cmp_spec(&self, other: &u64) -> Option<Ordering> {
        if self.total() < *other {
            Some(Ordering::Less)
        } else if self.total() == *other {
            Some(Ordering::Equal)
        } else {
            Some(Ordering::Greater)
        }
    }
}

impl PartialOrd<Size> for u64 {
    fn partial_cmp(&self, other: &Size) -> (r: Option<Ordering>) {
        let theirs: u64 = other.to_bytes();
        if *self < theirs {
            Some(Ordering::Less)
        } else if *self == theirs {
            Some(Ordering::Equal)
        } else {
            Some(Ordering::Greater)
        }
    }
}

impl PartialOrdSpecImpl<Size> for u64 {
    open spec fn obeys_partial_cmp_spec() -> bool {
        true
    }

    open spec fn partial_cmp_spec(&self, other: &Size) -> Option<Ordering> {
        if *self < other.total() {
            Some(Ordering::Less)
        } else if *self == other.total() {
            Some(Ordering::Equal)
        } else {
            Some(Ordering::Greater)
        }
    }
}

} // verus!
