//! A quantity of bytes, written with the largest unit that fits it exactly.

use std::str::FromStr;

use vstd::prelude::*;
use vstd::string::*;

use super::text::decimal_digits;
use super::text::decimal_value;
use super::text::format_decimal;
use super::text::digit_run;
use super::text::lemma_decimal_round_trip;
use super::text::lemma_digit_run_of_concat;
use super::text::digit_run_len;
use super::text::trim;
use super::text::trim_bounds;
use super::text::parse_decimal;
use super::unit::Unit;
use super::unit::UNIT_COUNT;

verus! {

/// Why a size could not be read or built.
#[derive(Clone, Debug, PartialEq, Eq)]
pub enum SizeError {
    /// The text is not a run of digits followed by a unit suffix. Holds the
    /// rejected text.
    InvalidFormat(String),
    /// The byte count does not fit in 64 bits.
    Overflow,
}

/// A magnitude and the unit it is counted in. What a size *is* is its
/// total byte count; the pair is only how that count is written.
#[derive(Copy, Clone, Debug, Hash)]
pub struct Size {
    magnitude: u64,
    unit: Unit,
}

impl Size {
    /// The stored magnitude.
    pub closed spec fn magnitude(self) -> nat {
        self.magnitude as nat
    }

    /// The stored unit.
    pub closed spec fn unit(self) -> Unit {
        self.unit
    }

    /// The total byte count: magnitude times the unit's multiplier.
    pub open spec fn total(self) -> nat {
        self.magnitude() * self.unit().multiplier()
    }

    /// A size is well formed when its byte count fits in 64 bits and its
    /// unit is the canonical one for that count. Every size that this
    /// library hands out is.
    pub open spec fn wf(self) -> bool {
        &&& self.total() <= u64::MAX
        &&& self.unit().is_canonical_for(self.total())
    }

    #[verifier::type_invariant]
    closed spec fn inv(self) -> bool {
        self.wf()
    }

    /// The text form: the magnitude in decimal, then the unit's suffix,
    /// with nothing between.
    pub open spec fn text(self) -> Seq<char> {
        decimal_digits(self.magnitude()) + self.unit().suffix()
    }

    /// The size of `bytes` bytes: the canonical unit for the count, and
    /// as many of it as make up the count.
    pub closed spec fn of_bytes(bytes: u64) -> Size {
        let unit = Unit::canonical_for(bytes as nat);
        Size { magnitude: (bytes as nat / unit.multiplier()) as u64, unit }
    }

    /// The size of `bytes` bytes, counted in the largest unit that divides
    /// the count evenly. Zero is counted in bytes.
    pub fn from_bytes(bytes: u64) -> (r: Size)
        ensures
            r == Size::of_bytes(bytes),
            r.wf(),
            r.total() == bytes,
            r.unit() == Unit::canonical_for(bytes as nat),
            r.magnitude() == bytes as nat / r.unit().multiplier(),
    {
        let r = Size::canonical(bytes);
        proof {
            r.unit().lemma_canonical_for(bytes as nat);
            let per = r.unit().multiplier();
            assert(r.magnitude() == bytes as nat / per) by (nonlinear_arith)
                requires
                    per > 0,
                    r.magnitude() * per == bytes,
            ;
        }
        r
    }

    /// Tries the units from the largest down and takes the first that
    /// divides the count evenly.
    fn canonical(bytes: u64) -> (r: Size)
        ensures
            r.wf(),
            r.total() == bytes,
    {
        if bytes == 0 {
            return Size { magnitude: 0, unit: Unit::B };
        }
        let mut rank: usize = UNIT_COUNT;
        while rank > 1
            invariant
                1 <= rank <= UNIT_COUNT,
                bytes != 0,
                forall|v: Unit| #[trigger] v.rank() >= rank ==> bytes as nat % v.multiplier() != 0,
            decreases rank,
        {
            let unit: Unit = Unit::from_rank(rank - 1);
            let per: u64 = unit.bytes();
            if bytes % per == 0 {
                let magnitude: u64 = bytes / per;
                proof {
                    assert(magnitude * per == bytes) by (nonlinear_arith)
                        requires
                            per > 0,
                            bytes % per == 0,
                            magnitude == bytes / per,
                    ;
                    assert forall|v: Unit| #[trigger] v.rank() > unit.rank() implies bytes as nat
                        % v.multiplier() != 0 by {
                        assert(v.rank() >= rank);
                    }
                }
                return Size { magnitude, unit };
            }
            proof {
                assert forall|v: Unit| #[trigger] v.rank() >= rank - 1 implies bytes as nat
                    % v.multiplier() != 0 by {
                    v.lemma_rank_orders_multiplier(unit);
                }
            }
            rank -= 1;
        }
        proof {
            assert forall|v: Unit| #[trigger] v.rank() > Unit::B.rank() implies bytes as nat
                % v.multiplier() != 0 by {
                assert(v.rank() >= rank);
            }
            assert(Unit::B.multiplier() == 1);
            assert((bytes as nat) * 1 == bytes);
        }
        Size { magnitude: bytes, unit: Unit::B }
    }

    /// Whether `text` is `count`, written as a run of decimal digits, and
    /// then the name of `unit`, with or without white space around the name.
    pub open spec fn reads_as(text: Seq<char>, count: nat, unit: Unit) -> bool {
        let n = digit_run_len(text) as int;
        &&& n > 0
        &&& count == decimal_value(text.subrange(0, n))
        &&& unit.is_named_by(trim(text.subrange(n, text.len() as int)))
    }

    /// Whether `r` is what reading `text` gives. A text that reads as
    /// `count` units gives the well-formed size of that many bytes, or
    /// [`SizeError::Overflow`] when they do not fit in 64 bits; any other
    /// text gives [`SizeError::InvalidFormat`] with the text in it.
    pub open spec fn is_reading_of(r: Result<Size, SizeError>, text: Seq<char>) -> bool {
        match r {
            Ok(size) => size.wf() && exists|count: nat, unit: Unit|
                #[trigger] Size::reads_as(text, count, unit) && size.total() == count
                    * unit.multiplier(),
            Err(SizeError::InvalidFormat(raw)) => raw@ == text && !Size::is_readable(text),
            Err(SizeError::Overflow) => exists|count: nat, unit: Unit|
                #[trigger] Size::reads_as(text, count, unit) && count * unit.multiplier()
                    > u64::MAX,
        }
    }

    /// Whether `text` has the form of a size at all.
    pub open spec fn is_readable(text: Seq<char>) -> bool {
        exists|count: nat, unit: Unit| Size::reads_as(text, count, unit)
    }

    /// The total byte count.
    pub fn to_bytes(self) -> (r: u64)
        ensures
            r == self.total(),
            self.wf(),
    {
        proof {
            use_type_invariant(&self);
        }
        let per: u64 = self.unit.bytes();
        assert(self.magnitude * per <= u64::MAX);
        self.magnitude * per
    }

    /// The magnitude as it is written.
    pub fn count(self) -> (r: u64)
        ensures
            r == self.magnitude(),
    {
        self.magnitude
    }

    /// The unit in which the size is written.
    pub fn written_unit(self) -> (r: Unit)
        ensures
            r == self.unit(),
    {
        self.unit
    }

    /// The text form of the size, such as `7KiB`, or `7` for seven bytes.
    pub fn to_string(&self) -> (r: String)
        ensures
            r@ == self.text(),
    {
        let mut out: String = format_decimal(self.magnitude);
        out.append(self.unit.as_ref());
        out
    }
}

impl Default for Size {
    fn default() -> (r: Size)
        ensures
            r.total() == 0,
            r.wf(),
    {
        Size { magnitude: 0, unit: Unit::B }
    }
}

impl Size {
    /// Two well-formed sizes of the same byte count are the same pair of
    /// magnitude and unit: a byte count is written in one way only.
    pub proof fn lemma_canonical_unique(self, other: Size)
        requires
            self.wf(),
            other.wf(),
            self.total() == other.total(),
        ensures
            self == other,
    {
        self.unit().lemma_canonical_unique(other.unit(), self.total());
        let per = self.unit().multiplier();
        assert(self.magnitude() == other.magnitude()) by (nonlinear_arith)
            requires
                per > 0,
                self.magnitude() * per == other.magnitude() * per,
        ;
    }

    /// The size of a byte count is well formed, holds that count and
    /// shows its unit and magnitude.
    pub proof fn lemma_of_bytes(bytes: u64)
        ensures
            Size::of_bytes(bytes).wf(),
            Size::of_bytes(bytes).total() == bytes,
            Size::of_bytes(bytes).unit() == Unit::canonical_for(bytes as nat),
            Size::of_bytes(bytes).magnitude() == bytes as nat / Unit::canonical_for(
                bytes as nat,
            ).multiplier(),
    {
        let unit = Unit::canonical_for(bytes as nat);
        let per = unit.multiplier();
        unit.lemma_canonical_for(bytes as nat);
        assert(bytes as nat % per == 0);
        assert((bytes as nat / per) * per == bytes && bytes as nat / per <= bytes)
            by (nonlinear_arith)
            requires
                per > 0,
                bytes as nat % per == 0,
        ;
    }

    /// Building a size from a byte count keeps the count, and building it
    /// again from the count of the result changes nothing.
    pub proof fn lemma_from_bytes_idempotent(bytes: u64)
        ensures
            Size::of_bytes(bytes).total() == bytes,
            Size::of_bytes(Size::of_bytes(bytes).total() as u64) == Size::of_bytes(bytes),
    {
        Size::lemma_of_bytes(bytes);
    }

    /// A well-formed size is the size of its own byte count, however it
    /// was built.
    pub proof fn lemma_wf_is_of_bytes(self)
        requires
            self.wf(),
        ensures
            self == Size::of_bytes(self.total() as u64),
    {
        Size::lemma_of_bytes(self.total() as u64);
        self.lemma_canonical_unique(Size::of_bytes(self.total() as u64));
    }

    /// A text is read as a size in one way at most.
    pub proof fn lemma_reads_unique(
        text: Seq<char>,
        count: nat,
        unit: Unit,
        other_count: nat,
        other_unit: Unit,
    )
        requires
            Size::reads_as(text, count, unit),
            Size::reads_as(text, other_count, other_unit),
        ensures
            count == other_count,
            unit == other_unit,
    {
        let n = digit_run_len(text) as int;
        unit.lemma_name_unique(other_unit, trim(text.subrange(n, text.len() as int)));
    }

    /// Reading what a well-formed size is written as gives that size,
    /// whatever else the reading could have given.
    pub proof fn lemma_write_then_read(self, read: Result<Size, SizeError>)
        requires
            self.wf(),
            Size::is_reading_of(read, self.text()),
        ensures
            read == Ok::<Size, SizeError>(self),
    {
        let text = self.text();
        self.lemma_text_reads_back();
        assert(Size::is_readable(text));
        match read {
            Ok(size) => {
                let (count, unit) = choose|count: nat, unit: Unit|
                    #[trigger] Size::reads_as(text, count, unit) && size.total() == count
                        * unit.multiplier();
                Size::lemma_reads_unique(text, count, unit, self.magnitude(), self.unit());
                size.lemma_canonical_unique(self);
            },
            Err(SizeError::InvalidFormat(_)) => {},
            Err(SizeError::Overflow) => {
                let (count, unit) = choose|count: nat, unit: Unit|
                    #[trigger] Size::reads_as(text, count, unit) && count * unit.multiplier()
                        > u64::MAX;
                Size::lemma_reads_unique(text, count, unit, self.magnitude(), self.unit());
            },
        }
    }

    /// What a well-formed size is written as reads back as its own
    /// magnitude and unit.
    pub proof fn lemma_text_reads_back(self)
        requires
            self.wf(),
        ensures
            Size::reads_as(self.text(), self.magnitude(), self.unit()),
    {
        let digits = decimal_digits(self.magnitude());
        let suffix = self.unit().suffix();
        let text = self.text();
        lemma_decimal_round_trip(self.magnitude());
        self.unit().lemma_suffix_shape();
        lemma_digit_run_of_concat(digits, suffix);
        let n = digits.len() as int;
        assert(text.subrange(0, n) =~= digits);
        assert(text.subrange(n, text.len() as int) =~= suffix);
    }
}

impl From<u64> for Size {
    fn from(bytes: u64) -> (r: Size) {
        Size::from_bytes(bytes)
    }
}

impl vstd::std_specs::convert::FromSpecImpl<u64> for Size {
    open spec fn obeys_from_spec() -> bool {
        true
    }

    open spec fn from_spec(bytes: u64) -> Size {
        Size::of_bytes(bytes)
    }
}

impl From<Size> for u64 {
    fn from(size: Size) -> (r: u64) {
        size.to_bytes()
    }
}

impl vstd::std_specs::convert::FromSpecImpl<Size> for u64 {
    open spec fn obeys_from_spec() -> bool {
        true
    }

    open spec fn from_spec(size: Size) -> u64 {
        size.total() as u64
    }
}

impl FromStr for Size {
    type Err = SizeError;

    /// Reads a size from its text form: decimal digits, then a unit suffix
    /// that white space may surround. The size that comes back is canonical,
    /// so it may be written in another unit than the text was.
    fn from_str(s: &str) -> (r: Result<Size, SizeError>)
        ensures
            Size::is_reading_of(r, s@),
    {
        let digits: usize = digit_run(s);
        let (from, to) = trim_bounds(s, digits);
        let ghost name = s@.subrange(from as int, to as int);
        let unit: Unit = match Unit::from_str(s.substring_char(from, to)) {
            Ok(unit) => unit,
            Err(_) => {
                assert forall|count: nat, other: Unit| !Size::reads_as(s@, count, other) by {
                    assert(!other.is_named_by(name));
                }
                return Err(SizeError::InvalidFormat(s.to_owned()));
            },
        };
        if digits == 0 {
            return Err(SizeError::InvalidFormat(s.to_owned()));
        }
        let ghost value = decimal_value(s@.subrange(0, digits as int));
        assert(Size::reads_as(s@, value, unit));
        match parse_decimal(s, digits) {
            Some(count) => unit.scaled(count),
            None => {
                assert(value * unit.multiplier() > u64::MAX) by (nonlinear_arith)
                    requires
                        value > u64::MAX,
                        unit.multiplier() >= 1,
                ;
                Err(SizeError::Overflow)
            },
        }
    }
}

} // verus!
