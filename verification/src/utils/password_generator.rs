//! Random passwords from a configured set of characters.

use crate::utils::chars::{
    classify, has_digit, has_lower, has_symbol, has_upper, push_char, CharClasses,
};
use vstd::prelude::*;

verus! {

/// Why no password was generated.
#[derive(Debug)]
pub enum PasswordGenError {
    /// The configured length is too small; the text says by how much.
    InvalidLength(String),
    /// Every class of characters is switched off.
    NoCharsetEnabled,
}

impl PasswordGenError {
    /// The error in words.
    pub fn message(&self) -> (text: String)
        ensures
            text@ == match self {
                PasswordGenError::InvalidLength(detail) => "Longueur de mot de passe invalide: "@
                    + detail@,
                PasswordGenError::NoCharsetEnabled => "Aucun jeu de caractères n'est activé"@,
            },
    {
        match self {
            PasswordGenError::InvalidLength(detail) => {
                "Longueur de mot de passe invalide: ".to_owned().concat(detail.as_str())
            },
            PasswordGenError::NoCharsetEnabled => "Aucun jeu de caractères n'est activé".to_owned(),
        }
    }
}

/// The configuration of a password generator.
#[derive(Debug, Clone)]
pub struct PasswordGenerator {
    length: usize,
    use_uppercase: bool,
    use_lowercase: bool,
    use_digits: bool,
    use_symbols: bool,
    exclude_similar: bool,
    exclude_ambiguous: bool,
}

/// A `PasswordGenerator` as a mathematical value.
pub struct PasswordGeneratorView {
    /// The number of characters of a generated password.
    pub length: nat,
    /// Whether the letters `A` to `Z` are drawn from.
    pub uppercase: bool,
    /// Whether the letters `a` to `z` are drawn from.
    pub lowercase: bool,
    /// Whether the digits are drawn from.
    pub digits: bool,
    /// Whether the symbols are drawn from.
    pub symbols: bool,
    /// Whether the characters that look alike (`I`, `l`, `1`, `O`, `o`, `0`)
    /// are left out.
    pub exclude_similar: bool,
    /// Whether the brackets, quotes and punctuation marks are left out of the
    /// symbols.
    pub exclude_ambiguous: bool,
}

impl PasswordGeneratorView {
    /// The upper-case letters that are drawn from.
    pub open spec fn uppercase_set(self) -> Seq<char> {
        if !self.uppercase {
            Seq::empty()
        } else if self.exclude_similar {
            "ABCDEFGHJKLMNPQRSTUVWXYZ"@
        } else {
            "ABCDEFGHIJKLMNOPQRSTUVWXYZ"@
        }
    }

    /// The lower-case letters that are drawn from.
    pub open spec fn lowercase_set(self) -> Seq<char> {
        if !self.lowercase {
            Seq::empty()
        } else if self.exclude_similar {
            "abcdefghijkmnpqrstuvwxyz"@
        } else {
            "abcdefghijklmnopqrstuvwxyz"@
        }
    }

    /// The digits that are drawn from.
    pub open spec fn digit_set(self) -> Seq<char> {
        if !self.digits {
            Seq::empty()
        } else if self.exclude_similar {
            "23456789"@
        } else {
            "0123456789"@
        }
    }

    /// The symbols that are drawn from.
    pub open spec fn symbol_set(self) -> Seq<char> {
        if !self.symbols {
            Seq::empty()
        } else if self.exclude_ambiguous {
            "!@#$%^&*-_=+"@
        } else {
            "!@#$%^&*()-_=+[]{};:'\",.<>/?\\|`~"@
        }
    }

    /// All the characters that are drawn from, class after class.
    pub open spec fn charset(self) -> Seq<char> {
        self.uppercase_set() + self.lowercase_set() + self.digit_set() + self.symbol_set()
    }

    /// Whether at least one class of characters is switched on.
    pub open spec fn any_class(self) -> bool {
        self.uppercase || self.lowercase || self.digits || self.symbols
    }

    /// Whether `password` holds a character of each class that is switched
    /// on.
    pub open spec fn satisfied_by(self, password: Seq<char>) -> bool {
        &&& self.uppercase ==> has_upper(password)
        &&& self.lowercase ==> has_lower(password)
        &&& self.digits ==> has_digit(password)
        &&& self.symbols ==> has_symbol(password)
    }

    /// Whether the candidate at the place `at` is the one to take of
    /// `candidates`: it is the first of them, the last left aside, that holds
    /// a character of each class that is switched on; or it is the last,
    /// where none before it does.
    pub open spec fn chooses(self, candidates: Seq<Seq<char>>, at: int) -> bool {
        &&& 0 <= at < candidates.len()
        &&& forall|j: int| 0 <= j < at ==> !self.satisfied_by(#[trigger] candidates[j])
        &&& at < candidates.len() - 1 ==> self.satisfied_by(candidates[at])
    }

    /// Whether `password` could have been generated: it has the configured
    /// length and each of its characters is one of the set.
    pub open spec fn admits(self, password: Seq<char>) -> bool {
        &&& password.len() == self.length
        &&& forall|i: int| 0 <= i < password.len() ==> self.charset().contains(#[trigger] password[i])
    }
}

/// The least length for which `generate_complex` generates.
pub const MIN_COMPLEX_LENGTH: usize = 8;

/// How often `generate_complex` tries for a password with every class in it.
pub const COMPLEX_ATTEMPTS: usize = 10;

/// Draws a number below `n` with `gen_range` of `rand::Rng`, on the
/// generator that `rand::thread_rng` hands out. The range `0..n` must not be
/// empty; the number is some number of that range.
#[verifier::external_body]
fn random_below(n: usize) -> (r: usize)
    requires
        n > 0,
    ensures
        r < n,
{
    rand::Rng::gen_range(&mut rand::thread_rng(), 0..n)
}

impl View for PasswordGenerator {
    type V = PasswordGeneratorView;

    closed spec fn view(&self) -> PasswordGeneratorView {
        PasswordGeneratorView {
            length: self.length as nat,
            uppercase: self.use_uppercase,
            lowercase: self.use_lowercase,
            digits: self.use_digits,
            symbols: self.use_symbols,
            exclude_similar: self.exclude_similar,
            exclude_ambiguous: self.exclude_ambiguous,
        }
    }
}

/// The configuration that a new generator has: sixteen characters from all
/// four classes, nothing left out.
pub open spec fn default_configuration() -> PasswordGeneratorView {
    PasswordGeneratorView {
        length: 16,
        uppercase: true,
        lowercase: true,
        digits: true,
        symbols: true,
        exclude_similar: false,
        exclude_ambiguous: false,
    }
}

impl Default for PasswordGenerator {
    fn default() -> (g: PasswordGenerator)
        ensures
            g@ == default_configuration(),
    {
        PasswordGenerator {
            length: 16,
            use_uppercase: true,
            use_lowercase: true,
            use_digits: true,
            use_symbols: true,
            exclude_similar: false,
            exclude_ambiguous: false,
        }
    }
}

impl PasswordGenerator {
    /// A generator with the default configuration.
    pub fn new() -> (g: PasswordGenerator)
        ensures
            g@ == default_configuration(),
    {
        PasswordGenerator {
            length: 16,
            use_uppercase: true,
            use_lowercase: true,
            use_digits: true,
            use_symbols: true,
            exclude_similar: false,
            exclude_ambiguous: false,
        }
    }

    /// Sets the number of characters of a generated password.
    pub fn length(self, length: usize) -> (g: PasswordGenerator)
        ensures
            g@ == (PasswordGeneratorView { length: length as nat, ..self@ }),
    {
        PasswordGenerator { length, ..self }
    }

    /// Switches the upper-case letters on or off.
    pub fn uppercase(self, use_uppercase: bool) -> (g: PasswordGenerator)
        ensures
            g@ == (PasswordGeneratorView { uppercase: use_uppercase, ..self@ }),
    {
        PasswordGenerator { use_uppercase, ..self }
    }

    /// Switches the lower-case letters on or off.
    pub fn lowercase(self, use_lowercase: bool) -> (g: PasswordGenerator)
        ensures
            g@ == (PasswordGeneratorView { lowercase: use_lowercase, ..self@ }),
    {
        PasswordGenerator { use_lowercase, ..self }
    }

    /// Switches the digits on or off.
    pub fn digits(self, use_digits: bool) -> (g: PasswordGenerator)
        ensures
            g@ == (PasswordGeneratorView { digits: use_digits, ..self@ }),
    {
        PasswordGenerator { use_digits, ..self }
    }

    /// Switches the symbols on or off.
    pub fn symbols(self, use_symbols: bool) -> (g: PasswordGenerator)
        ensures
            g@ == (PasswordGeneratorView { symbols: use_symbols, ..self@ }),
    {
        PasswordGenerator { use_symbols, ..self }
    }

    /// Leaves the characters that look alike out of the set, or keeps them.
    pub fn exclude_similar(self, exclude: bool) -> (g: PasswordGenerator)
        ensures
            g@ == (PasswordGeneratorView { exclude_similar: exclude, ..self@ }),
    {
        PasswordGenerator { exclude_similar: exclude, ..self }
    }

    /// Leaves the brackets, quotes and punctuation marks out of the symbols,
    /// or keeps them.
    pub fn exclude_ambiguous(self, exclude: bool) -> (g: PasswordGenerator)
        ensures
            g@ == (PasswordGeneratorView { exclude_ambiguous: exclude, ..self@ }),
    {
        PasswordGenerator { exclude_ambiguous: exclude, ..self }
    }

    /// The characters that are drawn from, as a text.
    fn charset(&self) -> (set: String)
        ensures
            set@ == self@.charset(),
            set@.len() > 0 <==> self@.any_class(),
    {
        let mut set = String::new();
        if self.use_uppercase {
            if self.exclude_similar {
                set.append("ABCDEFGHJKLMNPQRSTUVWXYZ");
            } else {
                set.append("ABCDEFGHIJKLMNOPQRSTUVWXYZ");
            }
        }
        assert(set@ =~= self@.uppercase_set());
        if self.use_lowercase {
            if self.exclude_similar {
                set.append("abcdefghijkmnpqrstuvwxyz");
            } else {
                set.append("abcdefghijklmnopqrstuvwxyz");
            }
        }
        assert(set@ =~= self@.uppercase_set() + self@.lowercase_set());
        if self.use_digits {
            if self.exclude_similar {
                set.append("23456789");
            } else {
                set.append("0123456789");
            }
        }
        assert(set@ =~= self@.uppercase_set() + self@.lowercase_set() + self@.digit_set());
        if self.use_symbols {
            if self.exclude_ambiguous {
                set.append("!@#$%^&*-_=+");
            } else {
                set.append("!@#$%^&*()-_=+[]{};:'\",.<>/?\\|`~");
            }
        }
        assert(set@ =~= self@.charset());
        proof {
            reveal_strlit("ABCDEFGHJKLMNPQRSTUVWXYZ");
            reveal_strlit("ABCDEFGHIJKLMNOPQRSTUVWXYZ");
            reveal_strlit("abcdefghijkmnpqrstuvwxyz");
            reveal_strlit("abcdefghijklmnopqrstuvwxyz");
            reveal_strlit("23456789");
            reveal_strlit("0123456789");
            reveal_strlit("!@#$%^&*-_=+");
            reveal_strlit("!@#$%^&*()-_=+[]{};:'\",.<>/?\\|`~");
        }
        set
    }

    /// Generates a password: as many characters as configured, each drawn at
    /// random from the configured set. Fails when the length is zero, and
    /// otherwise when every class is switched off.
    pub fn generate(&self) -> (r: Result<String, PasswordGenError>)
        ensures
            match r {
                Ok(password) => self@.length > 0 && self@.any_class() && self@.admits(password@),
                Err(PasswordGenError::InvalidLength(detail)) => self@.length == 0 && detail@
                    == "La longueur doit être supérieure à 0"@,
                Err(PasswordGenError::NoCharsetEnabled) => self@.length > 0 && !self@.any_class(),
            },
    {
        if self.length == 0 {
            return Err(
                PasswordGenError::InvalidLength("La longueur doit être supérieure à 0".to_owned()),
            );
        }
        let set = self.charset();
        let size = set.as_str().unicode_len();
        if size == 0 {
            return Err(PasswordGenError::NoCharsetEnabled);
        }
        let mut password = String::new();
        let mut i: usize = 0;
        while i < self.length
            invariant
                i <= self.length,
                size == set@.len(),
                size > 0,
                password@.len() == i,
                forall|k: int| 0 <= k < password@.len() ==> set@.contains(#[trigger] password@[k]),
            decreases self.length - i,
        {
            let at = random_below(size);
            let c = set.as_str().get_char(at);
            assert(set@.contains(c)) by {
                assert(set@[at as int] == c);
            }
            push_char(&mut password, c);
            i += 1;
        }
        Ok(password)
    }

    /// Whether `password` holds a character of each class that is switched
    /// on.
    pub fn meets_complexity(&self, password: &str) -> (met: bool)
        ensures
            met == self@.satisfied_by(password@),
    {
        let found = classify(password);
        let enabled = CharClasses {
            lower: self.use_lowercase,
            upper: self.use_uppercase,
            digit: self.use_digits,
            symbol: self.use_symbols,
        };
        let present = CharClasses {
            lower: self.use_lowercase && found.lower,
            upper: self.use_uppercase && found.upper,
            digit: self.use_digits && found.digit,
            symbol: self.use_symbols && found.symbol,
        };
        present.count() == enabled.count()
    }

    /// Chooses among candidates, given in the order in which they were
    /// generated: the first that holds a character of each class that is
    /// switched on, the last candidate left aside; where there is none, the
    /// last candidate. Nothing is chosen of no candidates.
    pub fn choose_complex(&self, candidates: &Vec<String>) -> (at: Option<usize>)
        ensures
            match at {
                Some(i) => self@.chooses(crate::models::text::texts(candidates@), i as int),
                None => candidates@.len() == 0,
            },
    {
        let n = candidates.len();
        if n == 0 {
            return None;
        }
        let mut i: usize = 0;
        while i < n - 1
            invariant
                n == candidates@.len(),
                n > 0,
                i <= n - 1,
                forall|j: int|
                    0 <= j < i ==> !self@.satisfied_by(
                        #[trigger] crate::models::text::texts(candidates@)[j],
                    ),
            decreases n - i,
        {
            if self.meets_complexity(candidates[i].as_str()) {
                return Some(i);
            }
            i += 1;
        }
        Some(i)
    }

    /// Generates a password and prefers one with a character of each class
    /// that is switched on: up to `COMPLEX_ATTEMPTS` candidates are generated,
    /// one after the other, until one of them is such a password; if none of
    /// them is, one more is generated. Of these candidates the one that
    /// `choose_complex` chooses is returned. Fails when every class is
    /// switched off, and otherwise when the length is below
    /// `MIN_COMPLEX_LENGTH`.
    pub fn generate_complex(&self) -> (r: Result<String, PasswordGenError>)
        ensures
            match r {
                Ok(password) => self@.any_class() && self@.length >= MIN_COMPLEX_LENGTH
                    && self@.admits(password@),
                Err(PasswordGenError::NoCharsetEnabled) => !self@.any_class(),
                Err(PasswordGenError::InvalidLength(detail)) => self@.any_class() && self@.length
                    < MIN_COMPLEX_LENGTH && detail@
                    == "La longueur doit être d'au moins 8 caractères pour un mot de passe complexe"@,
            },
    {
        if !self.use_uppercase && !self.use_lowercase && !self.use_digits && !self.use_symbols {
            return Err(PasswordGenError::NoCharsetEnabled);
        }
        if self.length < MIN_COMPLEX_LENGTH {
            return Err(
                PasswordGenError::InvalidLength(
                    "La longueur doit être d'au moins 8 caractères pour un mot de passe complexe".to_owned(),
                ),
            );
        }
        let mut candidates: Vec<String> = Vec::new();
        let mut complex = false;
        while candidates.len() < COMPLEX_ATTEMPTS && !complex
            invariant
                self@.any_class(),
                self@.length >= MIN_COMPLEX_LENGTH,
                candidates@.len() <= COMPLEX_ATTEMPTS,
                complex ==> candidates@.len() > 0,
                forall|j: int|
                    0 <= j < candidates@.len() ==> self@.admits((#[trigger] candidates@[j])@),
            decreases COMPLEX_ATTEMPTS - candidates@.len() + (if complex { 0int } else { 1int }),
        {
            match self.generate() {
                Ok(password) => {
                    complex = self.meets_complexity(password.as_str());
                    candidates.push(password);
                },
                Err(e) => {
                    return Err(e);
                },
            }
        }
        if !complex {
            match self.generate() {
                Ok(password) => {
                    candidates.push(password);
                },
                Err(e) => {
                    return Err(e);
                },
            }
        }
        assert(candidates@.len() > 0);
        assert forall|j: int| 0 <= j < candidates@.len() implies self@.admits(
            (#[trigger] candidates@[j])@,
        ) by {}
        match self.choose_complex(&candidates) {
            Some(at) => {
                assert(self@.admits(candidates@[at as int]@));
                Ok(candidates.remove(at))
            },
            None => vstd::pervasive::unreached(),
        }
    }
}

} // verus!
