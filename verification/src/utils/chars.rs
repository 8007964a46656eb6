//! Classes of characters, and texts built character by character.

use vstd::prelude::*;

verus! {

/// Whether `c` is one of the letters `A` to `Z`.
pub open spec fn is_upper(c: char) -> bool {
    'A' <= c <= 'Z'
}

/// Whether `c` is one of the letters `a` to `z`.
pub open spec fn is_lower(c: char) -> bool {
    'a' <= c <= 'z'
}

/// Whether `c` is one of the digits `0` to `9`.
pub open spec fn is_digit(c: char) -> bool {
    '0' <= c <= '9'
}

/// Whether Unicode counts `c` among the letters and the numbers: what
/// `char::is_alphanumeric` returns for it.
pub uninterp spec fn is_alphanumeric(c: char) -> bool;

/// Whether `c` is neither a letter nor a number.
pub open spec fn is_symbol(c: char) -> bool {
    !is_alphanumeric(c)
}

/// Whether some character of `s` is an upper-case letter.
pub open spec fn has_upper(s: Seq<char>) -> bool {
    exists|i: int| 0 <= i < s.len() && is_upper(#[trigger] s[i])
}

/// Whether some character of `s` is a lower-case letter.
pub open spec fn has_lower(s: Seq<char>) -> bool {
    exists|i: int| 0 <= i < s.len() && is_lower(#[trigger] s[i])
}

/// Whether some character of `s` is a digit.
pub open spec fn has_digit(s: Seq<char>) -> bool {
    exists|i: int| 0 <= i < s.len() && is_digit(#[trigger] s[i])
}

/// Whether some character of `s` is neither a letter nor a number.
pub open spec fn has_symbol(s: Seq<char>) -> bool {
    exists|i: int| 0 <= i < s.len() && is_symbol(#[trigger] s[i])
}

/// Asks `char::is_alphanumeric` whether `c` is a letter or a number.
#[verifier::external_body]
pub(crate) fn alphanumeric(c: char) -> (r: bool)
    ensures
        r == is_alphanumeric(c),
{
    c.is_alphanumeric()
}

/// Appends one character to a text with `String::push`.
#[verifier::external_body]
pub(crate) fn push_char(s: &mut String, c: char)
    ensures
        final(s)@ == old(s)@.push(c),
{
    s.push(c);
}

/// The classes of characters that occur in a text.
#[derive(Clone, Copy, Debug, PartialEq, Eq, Structural)]
pub struct CharClasses {
    pub lower: bool,
    pub upper: bool,
    pub digit: bool,
    pub symbol: bool,
}

impl CharClasses {
    /// How many of the four classes occur.
    pub open spec fn spec_count(self) -> nat {
        ((if self.lower { 1nat } else { 0 }) + (if self.upper { 1nat } else { 0 }) + (if self.digit {
            1nat
        } else {
            0
        }) + (if self.symbol { 1nat } else { 0 })) as nat
    }

    /// How many of the four classes occur.
    pub fn count(&self) -> (n: usize)
        ensures
            n == self.spec_count(),
    {
        let mut n: usize = 0;
        if self.lower {
            n += 1;
        }
        if self.upper {
            n += 1;
        }
        if self.digit {
            n += 1;
        }
        if self.symbol {
            n += 1;
        }
        n
    }
}

/// The classes of characters that occur in `s`.
pub open spec fn classes_of(s: Seq<char>) -> CharClasses {
    CharClasses {
        lower: has_lower(s),
        upper: has_upper(s),
        digit: has_digit(s),
        symbol: has_symbol(s),
    }
}

/// Finds the classes of characters that occur in a text.
pub fn classify(text: &str) -> (found: CharClasses)
    ensures
        found == classes_of(text@),
{
    let n = text.unicode_len();
    let mut found = CharClasses { lower: false, upper: false, digit: false, symbol: false };
    let mut i: usize = 0;
    while i < n
        invariant
            n == text@.len(),
            i <= n,
            found == classes_of(text@.take(i as int)),
        decreases n - i,
    {
        let c = text.get_char(i);
        let ghost before = text@.take(i as int);
        let ghost after = text@.take(i + 1);
        proof {
            assert(after =~= before.push(c));
            assert(after[i as int] == c);
            assert forall|k: int| 0 <= k < before.len() implies before[k] == after[k] by {}
            assert(has_lower(after) == (has_lower(before) || is_lower(c))) by {
                if has_lower(before) {
                    let k = choose|k: int| 0 <= k < before.len() && is_lower(#[trigger] before[k]);
                    assert(is_lower(after[k]));
                }
            }
            assert(has_upper(after) == (has_upper(before) || is_upper(c))) by {
                if has_upper(before) {
                    let k = choose|k: int| 0 <= k < before.len() && is_upper(#[trigger] before[k]);
                    assert(is_upper(after[k]));
                }
            }
            assert(has_digit(after) == (has_digit(before) || is_digit(c))) by {
                if has_digit(before) {
                    let k = choose|k: int| 0 <= k < before.len() && is_digit(#[trigger] before[k]);
                    assert(is_digit(after[k]));
                }
            }
            assert(has_symbol(after) == (has_symbol(before) || is_symbol(c))) by {
                if has_symbol(before) {
                    let k = choose|k: int|
                        0 <= k < before.len() && is_symbol(#[trigger] before[k]);
                    assert(is_symbol(after[k]));
                }
            }
        }
        if 'a' <= c && c <= 'z' {
            found.lower = true;
        }
        if 'A' <= c && c <= 'Z' {
            found.upper = true;
        }
        if '0' <= c && c <= '9' {
            found.digit = true;
        }
        if !alphanumeric(c) {
            found.symbol = true;
        }
        i += 1;
    }
    assert(text@.take(n as int) =~= text@);
    found
}

} // verus!
