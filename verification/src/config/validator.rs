//! The configuration of a validator.

use vstd::prelude::*;
use vstd::string::StrSliceExecFns;

verus! {

/// Whether `char::is_alphabetic` holds of a character.
pub uninterp spec fn alphabetic(c: char) -> bool;

/// Whether `char::is_whitespace` holds of a character.
pub uninterp spec fn whitespace(c: char) -> bool;

/// Calls `char::is_alphabetic`, which tells the letters of Unicode. The
/// contract names the answer, as [`alphabetic`] of the character.
#[verifier::external_body]
fn is_alphabetic(c: char) -> (answer: bool)
    ensures
        answer == alphabetic(c),
{
    c.is_alphabetic()
}

/// Calls `char::is_whitespace`, which tells the white space of Unicode.
/// The contract names the answer, as [`whitespace`] of the character.
#[verifier::external_body]
fn is_whitespace(c: char) -> (answer: bool)
    ensures
        answer == whitespace(c),
{
    c.is_whitespace()
}

/// What an operator sets for a validator.
#[derive(Debug, Clone)]
pub struct ValidatorConfig {
    /// The city in which the validator runs.
    pub city: String,
}

/// Whether a text is nothing but white space.
pub open spec fn blank(text: Seq<char>) -> bool {
    forall|i: int| 0 <= i < text.len() ==> whitespace(#[trigger] text[i])
}

/// Whether a text is made of letters and white space alone.
pub open spec fn plain(text: Seq<char>) -> bool {
    forall|i: int| 0 <= i < text.len() ==> alphabetic(#[trigger] text[i]) || whitespace(text[i])
}

impl ValidatorConfig {
    /// Checks the configuration: the city is not blank, and is made of
    /// letters and white space alone.
    pub fn validate(&self) -> (outcome: Result<(), String>)
        ensures
            match outcome {
                Ok(()) => !blank(self.city@) && plain(self.city@),
                Err(reason) => if blank(self.city@) {
                    reason@ == "City cannot be empty in validator configuration"@
                } else {
                    !plain(self.city@) && reason@
                        == "City name should only contain letters and spaces"@
                },
            },
    {
        let city = self.city.as_str();
        let len = city.unicode_len();
        let mut all_blank = true;
        let mut all_plain = true;
        let mut i: usize = 0;
        while i < len
            invariant
                i <= len,
                len == city@.len(),
                city@ == self.city@,
                all_blank == blank(city@.take(i as int)),
                all_plain == plain(city@.take(i as int)),
            decreases len - i,
        {
            let c = city.get_char(i);
            let space = is_whitespace(c);
            let letter = is_alphabetic(c);
            proof {
                let before = city@.take(i as int);
                let after = city@.take(i + 1);
                assert(after[i as int] == c);
                assert(forall|j: int| 0 <= j < i ==> before[j] == after[j]);
                if blank(after) {
                    assert(forall|j: int| 0 <= j < i ==> whitespace(#[trigger] before[j])) by {
                        assert(forall|j: int| 0 <= j < i ==> whitespace(#[trigger] after[j]));
                    }
                }
                if plain(after) {
                    assert(forall|j: int|
                        0 <= j < i ==> alphabetic(#[trigger] before[j]) || whitespace(before[j])) by {
                        assert(forall|j: int|
                            0 <= j < i ==> alphabetic(#[trigger] after[j]) || whitespace(after[j]));
                    }
                }
            }
            if !space {
                all_blank = false;
            }
            if !space && !letter {
                all_plain = false;
            }
            i += 1;
        }
        assert(city@.take(len as int) =~= city@);
        ValidatorConfig::verdict(all_blank, all_plain)
    }

    /// The answer for a city that is blank or not, and plain or not: a
    /// blank city is reported first.
    pub fn verdict(is_blank: bool, is_plain: bool) -> (outcome: Result<(), String>)
        ensures
            match outcome {
                Ok(()) => !is_blank && is_plain,
                Err(reason) => if is_blank {
                    reason@ == "City cannot be empty in validator configuration"@
                } else {
                    !is_plain && reason@ == "City name should only contain letters and spaces"@
                },
            },
    {
        if is_blank {
            return Err("City cannot be empty in validator configuration".to_owned());
        }
        if !is_plain {
            return Err("City name should only contain letters and spaces".to_owned());
        }
        Ok(())
    }
}

} // verus!
