//! The identifier by which manifest entries are named.

use std::borrow::Borrow;
use std::ops::Deref;
use std::str::FromStr;

use vstd::prelude::*;
use vstd::string::*;

use super::text::char_is_digit;
use super::text::char_is_lower;
use super::text::is_digit;
use super::text::is_lower;
use super::Invalid;

verus! {

/// The longest identifier, in characters.
pub const MAX_ID_LEN: usize = 32;

/// A short name: lowercase ASCII letters, digits and hyphens, starting
/// with a letter and ending in a letter or a digit. Checked once, when
/// built. Identifiers sort as their texts do.
#[derive(Debug, Eq, Ord, Hash)]
pub struct Id(String);

impl View for Id {
    type V = Seq<char>;

    closed spec fn view(&self) -> Seq<char> {
        self.0@
    }
}

impl Clone for Id {
    fn clone(&self) -> (r: Id)
        ensures
            r@ == self@,
    {
        proof {
            use_type_invariant(self);
        }
        Id(self.0.clone())
    }
}

impl Id {
    /// A character that may stand inside an identifier.
    pub open spec fn is_id_char(c: char) -> bool {
        is_lower(c) || is_digit(c) || c == '-'
    }

    /// The grammar of identifiers.
    pub open spec fn is_valid(text: Seq<char>) -> bool {
        &&& 1 <= text.len() <= MAX_ID_LEN
        &&& forall|k: int| 0 <= k < text.len() ==> Id::is_id_char(#[trigger] text[k])
        &&& is_lower(text.first())
        &&& is_lower(text.last()) || is_digit(text.last())
    }

    #[verifier::type_invariant]
    closed spec fn inv(self) -> bool {
        Id::is_valid(self.0@)
    }

    /// Holds a text against the grammar.
    fn check(text: &str) -> (r: bool)
        ensures
            r == Id::is_valid(text@),
    {
        let n: usize = text.unicode_len();
        if n < 1 || n > MAX_ID_LEN {
            return false;
        }
        let mut i: usize = 0;
        while i < n
            invariant
                i <= n,
                n == text@.len(),
                forall|k: int| 0 <= k < i ==> Id::is_id_char(#[trigger] text@[k]),
            decreases n - i,
        {
            let c: char = text.get_char(i);
            if !(char_is_lower(c) || char_is_digit(c) || c == '-') {
                return false;
            }
            i += 1;
        }
        let last: char = text.get_char(n - 1);
        char_is_lower(text.get_char(0)) && (char_is_lower(last) || char_is_digit(last))
    }

    /// The text of the identifier, which follows the grammar.
    pub fn as_str(&self) -> (r: &str)
        ensures
            r@ == self@,
            Id::is_valid(self@),
    {
        proof {
            use_type_invariant(self);
        }
        self.0.as_str()
    }

    /// What the grammar turns away and what it lets through: no empty
    /// text, none longer than [`MAX_ID_LEN`], none that starts with a digit
    /// or a hyphen or ends in a hyphen, none with an uppercase letter or an
    /// underscore anywhere; and every single lowercase letter is an
    /// identifier.
    pub proof fn lemma_grammar(text: Seq<char>)
        ensures
            text.len() == 0 ==> !Id::is_valid(text),
            text.len() > MAX_ID_LEN ==> !Id::is_valid(text),
            text.len() > 0 && (is_digit(text.first()) || text.first() == '-') ==> !Id::is_valid(
                text,
            ),
            text.len() > 0 && text.last() == '-' ==> !Id::is_valid(text),
            (exists|k: int|
                0 <= k < text.len() && (0x41 <= #[trigger] text[k] as u32 <= 0x5a || text[k]
                    == '_')) ==> !Id::is_valid(text),
            text.len() == 1 && is_lower(text[0]) ==> Id::is_valid(text),
    {
        if exists|k: int|
            0 <= k < text.len() && (0x41 <= #[trigger] text[k] as u32 <= 0x5a || text[k] == '_') {
            let k = choose|k: int|
                0 <= k < text.len() && (0x41 <= #[trigger] text[k] as u32 <= 0x5a || text[k]
                    == '_');
            assert(!Id::is_id_char(text[k]));
        }
    }

    /// Reading an identifier and writing it again gives the text that was
    /// read: nothing is folded or trimmed on the way. `read` is what
    /// reading `text` gave, `written` the text of the identifier read.
    pub proof fn lemma_round_trip(
        text: Seq<char>,
        read: Result<Id, Invalid<String>>,
        written: Seq<char>,
    )
        requires
            Id::is_reading_of(read, text),
            read is Ok,
            written == read->Ok_0@,
        ensures
            written == text,
    {
    }

    /// Whether `r` is what reading `text` gives: the identifier with that
    /// text where the text follows the grammar, the text itself in the
    /// error where it does not.
    pub open spec fn is_reading_of(r: Result<Id, Invalid<String>>, text: Seq<char>) -> bool {
        match r {
            Ok(id) => id@ == text && Id::is_valid(text),
            Err(e) => e.0@ == text && !Id::is_valid(text),
        }
    }
}

impl TryFrom<String> for Id {
    type Error = Invalid<String>;

    /// Takes `value` as an identifier if it follows the grammar, and hands
    /// it back in the error if it does not. The text is kept as it is.
    fn try_from(value: String) -> (r: Result<Id, Invalid<String>>)
        ensures
            Id::is_reading_of(r, value@),
            r is Err ==> r->Err_0.0 == value,
    {
        if Id::check(value.as_str()) {
            Ok(Id(value))
        } else {
            Err(Invalid(value))
        }
    }
}

impl vstd::std_specs::convert::TryFromSpecImpl<String> for Id {
    open spec fn obeys_try_from_spec() -> bool {
        true
    }

    closed spec fn try_from_spec(value: String) -> Result<Id, Invalid<String>> {
        if Id::is_valid(value@) {
            Ok(Id(value))
        } else {
            Err(Invalid(value))
        }
    }
}

impl From<Id> for String {
    /// Gives up the identifier for its text.
    fn from(id: Id) -> (r: String)
        ensures
            r@ == id@,
    {
        id.0
    }
}

impl vstd::std_specs::convert::FromSpecImpl<Id> for String {
    open spec fn obeys_from_spec() -> bool {
        true
    }

    closed spec fn from_spec(id: Id) -> String {
        id.0
    }
}

impl FromStr for Id {
    type Err = Invalid<String>;

    /// Reads an identifier from a string slice, or hands the text back in
    /// the error when it does not follow the grammar.
    fn from_str(s: &str) -> (r: Result<Id, Invalid<String>>)
        ensures
            Id::is_reading_of(r, s@),
    {
        Id::try_from(s.to_owned())
    }
}

impl Deref for Id {
    type Target = String;

    fn deref(&self) -> (r: &String)
        ensures
            r@ == self@,
    {
        &self.0
    }
}

impl AsRef<str> for Id {
    fn as_ref(&self) -> (r: &str)
        ensures
            ({
                let text: &str = r;
                text@ == self@
            }),
    {
        self.0.as_str()
    }
}

impl AsRef<String> for Id {
    fn as_ref(&self) -> (r: &String)
        ensures
            ({
                let text: &String = r;
                text@ == self@
            }),
    {
        &self.0
    }
}

impl Borrow<str> for Id {
    fn borrow(&self) -> (r: &str)
        ensures
            ({
                let text: &str = r;
                text@ == self@
            }),
    {
        self.0.as_str()
    }
}

} // verus!
