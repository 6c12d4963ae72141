//! The byte-scale units in which a size is written.

use std::str::FromStr;

use vstd::prelude::*;
use vstd::string::*;

use super::size::Size;
use super::size::SizeError;
use super::text::is_digit;
use super::text::is_space;
use super::text::str_eq;
use super::text::trim;
use super::text::trim_end;
use super::text::trim_start;
use super::Invalid;

verus! {

/// A byte-scale multiplier, decimal or binary, from bytes to exabytes.
/// The variants stand in ascending order of their multiplier.
#[derive(Copy, Clone, Debug, PartialEq, Eq, Ord, Hash, Structural)]
pub enum Unit {
    B,
    KB,
    KiB,
    MB,
    MiB,
    GB,
    GiB,
    TB,
    TiB,
    PB,
    PiB,
    EB,
    EiB,
}

/// How many units there are.
pub const UNIT_COUNT: usize = 13;

impl Unit {
    /// The number of bytes in one unit: a power of 1000 or of 1024.
    pub open spec fn multiplier(self) -> nat {
        match self {
            Unit::B => 1,
            Unit::KB => 1_000,
            Unit::KiB => 1_024,
            Unit::MB => 1_000_000,
            Unit::MiB => 1_048_576,
            Unit::GB => 1_000_000_000,
            Unit::GiB => 1_073_741_824,
            Unit::TB => 1_000_000_000_000,
            Unit::TiB => 1_099_511_627_776,
            Unit::PB => 1_000_000_000_000_000,
            Unit::PiB => 1_125_899_906_842_624,
            Unit::EB => 1_000_000_000_000_000_000,
            Unit::EiB => 1_152_921_504_606_846_976,
        }
    }

    /// The place of the unit when all are sorted by multiplier, from 0.
    pub open spec fn rank(self) -> nat {
        match self {
            Unit::B => 0,
            Unit::KB => 1,
            Unit::KiB => 2,
            Unit::MB => 3,
            Unit::MiB => 4,
            Unit::GB => 5,
            Unit::GiB => 6,
            Unit::TB => 7,
            Unit::TiB => 8,
            Unit::PB => 9,
            Unit::PiB => 10,
            Unit::EB => 11,
            Unit::EiB => 12,
        }
    }

    /// The suffix that writes the unit. Bytes are written with none.
    pub open spec fn suffix(self) -> Seq<char> {
        match self {
            Unit::B => seq![],
            Unit::KB => seq!['K', 'B'],
            Unit::KiB => seq!['K', 'i', 'B'],
            Unit::MB => seq!['M', 'B'],
            Unit::MiB => seq!['M', 'i', 'B'],
            Unit::GB => seq!['G', 'B'],
            Unit::GiB => seq!['G', 'i', 'B'],
            Unit::TB => seq!['T', 'B'],
            Unit::TiB => seq!['T', 'i', 'B'],
            Unit::PB => seq!['P', 'B'],
            Unit::PiB => seq!['P', 'i', 'B'],
            Unit::EB => seq!['E', 'B'],
            Unit::EiB => seq!['E', 'i', 'B'],
        }
    }

    /// Whether `text` names this unit: its suffix, or `B` for bytes.
    pub open spec fn is_named_by(self, text: Seq<char>) -> bool {
        text == self.suffix() || (self == Unit::B && text == seq!['B'])
    }

    /// Whether `text` names any unit at all.
    pub open spec fn names_a_unit(text: Seq<char>) -> bool {
        exists|u: Unit| #[trigger] u.is_named_by(text)
    }

    /// Whether this is the unit in which a count of `bytes` is written:
    /// the highest-ranking unit whose multiplier divides the count evenly,
    /// and plain bytes for a count of zero.
    pub open spec fn is_canonical_for(self, bytes: nat) -> bool {
        if bytes == 0 {
            self == Unit::B
        } else {
            &&& bytes % self.multiplier() == 0
            &&& forall|v: Unit| #[trigger] v.rank() > self.rank() ==> bytes % v.multiplier() != 0
        }
    }

    /// The unit in which a count of `bytes` is written, found by trying
    /// the units from the largest down.
    pub open spec fn canonical_for(bytes: nat) -> Unit {
        if bytes == 0 {
            Unit::B
        } else if bytes % Unit::EiB.multiplier() == 0 {
            Unit::EiB
        } else if bytes % Unit::EB.multiplier() == 0 {
            Unit::EB
        } else if bytes % Unit::PiB.multiplier() == 0 {
            Unit::PiB
        } else if bytes % Unit::PB.multiplier() == 0 {
            Unit::PB
        } else if bytes % Unit::TiB.multiplier() == 0 {
            Unit::TiB
        } else if bytes % Unit::TB.multiplier() == 0 {
            Unit::TB
        } else if bytes % Unit::GiB.multiplier() == 0 {
            Unit::GiB
        } else if bytes % Unit::GB.multiplier() == 0 {
            Unit::GB
        } else if bytes % Unit::MiB.multiplier() == 0 {
            Unit::MiB
        } else if bytes % Unit::MB.multiplier() == 0 {
            Unit::MB
        } else if bytes % Unit::KiB.multiplier() == 0 {
            Unit::KiB
        } else if bytes % Unit::KB.multiplier() == 0 {
            Unit::KB
        } else {
            Unit::B
        }
    }

    /// The unit found by trying from the largest down is the canonical
    /// one, and no other is.
    pub proof fn lemma_canonical_for(self, bytes: nat)
        ensures
            self.is_canonical_for(bytes) <==> self == Unit::canonical_for(bytes),
    {
        let found = Unit::canonical_for(bytes);
        assert(found.is_canonical_for(bytes));
        if self.is_canonical_for(bytes) {
            self.lemma_canonical_unique(found, bytes);
        }
    }

    /// At most one unit is canonical for a byte count.
    pub proof fn lemma_canonical_unique(self, other: Unit, bytes: nat)
        requires
            self.is_canonical_for(bytes),
            other.is_canonical_for(bytes),
        ensures
            self == other,
    {
        if bytes != 0 {
            assert(!(other.rank() > self.rank()));
            assert(!(self.rank() > other.rank()));
        }
    }

    /// A text names one unit at most.
    pub proof fn lemma_name_unique(self, other: Unit, text: Seq<char>)
        requires
            self.is_named_by(text),
            other.is_named_by(text),
        ensures
            self == other,
    {
        if text.len() >= 2 {
            assert(self.suffix()[0] == text[0] && other.suffix()[0] == text[0]);
        }
    }

    /// A suffix neither starts with a digit nor starts or ends with white
    /// space, so it is told apart from the magnitude before it and trimming
    /// leaves it as it is.
    pub proof fn lemma_suffix_shape(self)
        ensures
            self.suffix().len() > 0 ==> !is_digit(self.suffix()[0]),
            trim(self.suffix()) == self.suffix(),
    {
        let suffix = self.suffix();
        if suffix.len() > 0 {
            assert(!is_space(suffix[0]));
            assert(!is_space(suffix.last()));
            assert(suffix.last() == 'B');
        }
        assert(trim_start(suffix) == suffix);
        assert(trim_end(suffix) == suffix);
    }

    /// Ranks and multipliers sort the units alike.
    pub proof fn lemma_rank_orders_multiplier(self, other: Unit)
        ensures
            self.rank() < other.rank() <==> self.multiplier() < other.multiplier(),
            self.rank() == other.rank() <==> self == other,
            self.rank() < UNIT_COUNT,
    {
    }

    /// The unit at a given rank.
    pub fn from_rank(rank: usize) -> (r: Unit)
        requires
            rank < UNIT_COUNT,
        ensures
            r.rank() == rank,
    {
        if rank == 0 {
            Unit::B
        } else if rank == 1 {
            Unit::KB
        } else if rank == 2 {
            Unit::KiB
        } else if rank == 3 {
            Unit::MB
        } else if rank == 4 {
            Unit::MiB
        } else if rank == 5 {
            Unit::GB
        } else if rank == 6 {
            Unit::GiB
        } else if rank == 7 {
            Unit::TB
        } else if rank == 8 {
            Unit::TiB
        } else if rank == 9 {
            Unit::PB
        } else if rank == 10 {
            Unit::PiB
        } else if rank == 11 {
            Unit::EB
        } else {
            Unit::EiB
        }
    }

    /// The place of the unit when all are sorted by multiplier, from 0.
    pub fn index(self) -> (r: usize)
        ensures
            r == self.rank(),
    {
        match self {
            Unit::B => 0,
            Unit::KB => 1,
            Unit::KiB => 2,
            Unit::MB => 3,
            Unit::MiB => 4,
            Unit::GB => 5,
            Unit::GiB => 6,
            Unit::TB => 7,
            Unit::TiB => 8,
            Unit::PB => 9,
            Unit::PiB => 10,
            Unit::EB => 11,
            Unit::EiB => 12,
        }
    }

    /// The number of bytes in one unit.
    pub fn bytes(self) -> (r: u64)
        ensures
            r == self.multiplier(),
    {
        match self {
            Unit::B => 1,
            Unit::KB => 1_000,
            Unit::KiB => 1_024,
            Unit::MB => 1_000_000,
            Unit::MiB => 1_048_576,
            Unit::GB => 1_000_000_000,
            Unit::GiB => 1_073_741_824,
            Unit::TB => 1_000_000_000_000,
            Unit::TiB => 1_099_511_627_776,
            Unit::PB => 1_000_000_000_000_000,
            Unit::PiB => 1_125_899_906_842_624,
            Unit::EB => 1_000_000_000_000_000_000,
            Unit::EiB => 1_152_921_504_606_846_976,
        }
    }

    /// The size of `count` units, in its canonical form, or
    /// [`SizeError::Overflow`] when that many bytes do not fit in 64 bits.
    pub fn scaled(self, count: u64) -> (r: Result<Size, SizeError>)
        ensures
            match r {
                Ok(size) => {
                    &&& count * self.multiplier() <= u64::MAX
                    &&& size == Size::of_bytes((count * self.multiplier()) as u64)
                    &&& size.wf()
                    &&& size.total() == count * self.multiplier()
                },
                Err(e) => e is Overflow && count * self.multiplier() > u64::MAX,
            },
    {
        match self.bytes().checked_mul(count) {
            Some(total) => {
                assert(total == count * self.multiplier()) by (nonlinear_arith)
                    requires
                        total == self.multiplier() * count,
                ;
                Ok(Size::from_bytes(total))
            },
            None => {
                assert(count * self.multiplier() > u64::MAX) by (nonlinear_arith)
                    requires
                        self.multiplier() * count > u64::MAX,
                ;
                Err(SizeError::Overflow)
            },
        }
    }
}

impl AsRef<str> for Unit {
    /// The suffix that writes the unit, empty for bytes.
    fn as_ref(&self) -> (r: &str)
        ensures
            r@ == self.suffix(),
    {
        proof {
            reveal_strlit("");
            reveal_strlit("KB");
            reveal_strlit("KiB");
            reveal_strlit("MB");
            reveal_strlit("MiB");
            reveal_strlit("GB");
            reveal_strlit("GiB");
            reveal_strlit("TB");
            reveal_strlit("TiB");
            reveal_strlit("PB");
            reveal_strlit("PiB");
            reveal_strlit("EB");
            reveal_strlit("EiB");
        }
        let r: &'static str = match self {
            Unit::B => "",
            Unit::KB => "KB",
            Unit::KiB => "KiB",
            Unit::MB => "MB",
            Unit::MiB => "MiB",
            Unit::GB => "GB",
            Unit::GiB => "GiB",
            Unit::TB => "TB",
            Unit::TiB => "TiB",
            Unit::PB => "PB",
            Unit::PiB => "PiB",
            Unit::EB => "EB",
            Unit::EiB => "EiB",
        };
        assert(r@ =~= self.suffix());
        r
    }
}

impl FromStr for Unit {
    type Err = Invalid<String>;

    /// Reads a unit from its suffix. The match is exact and case-sensitive;
    /// the empty text and `B` both mean bytes. Any other text comes back
    /// in the error.
    fn from_str(s: &str) -> (r: Result<Unit, Invalid<String>>)
        ensures
            match r {
                Ok(unit) => unit.is_named_by(s@),
                Err(e) => e.0@ == s@ && !Unit::names_a_unit(s@),
            },
    {
        if str_eq(s, "B") {
            proof {
                reveal_strlit("B");
                assert(s@ =~= seq!['B']);
            }
            return Ok(Unit::B);
        }
        let mut rank: usize = 0;
        while rank < UNIT_COUNT
            invariant
                rank <= UNIT_COUNT,
                s@ != "B"@,
                forall|u: Unit| #[trigger] u.rank() < rank ==> u.suffix() != s@,
            decreases UNIT_COUNT - rank,
        {
            let unit: Unit = Unit::from_rank(rank);
            if str_eq(s, unit.as_ref()) {
                return Ok(unit);
            }
            proof {
                assert forall|u: Unit| #[trigger] u.rank() < rank + 1 implies u.suffix() != s@ by {
                    u.lemma_rank_orders_multiplier(unit);
                }
            }
            rank += 1;
        }
        proof {
            reveal_strlit("B");
            assert("B"@ =~= seq!['B']);
            assert forall|u: Unit| !(#[trigger] u.is_named_by(s@)) by {
                u.lemma_rank_orders_multiplier(Unit::B);
                assert(u.rank() < rank);
            }
        }
        Err(Invalid(s.to_owned()))
    }
}

impl Default for Unit {
    fn default() -> (r: Unit)
        ensures
            r == Unit::B,
    {
        Unit::B
    }
}

} // verus!
