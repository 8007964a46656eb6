//! A judgement of how strong a password is.

use crate::models::text::{same_text, texts};
use crate::utils::chars::{classes_of, classify, push_char};
use vstd::prelude::*;

verus! {

/// Why a password could not be analysed.
#[derive(Debug)]
pub enum PasswordAnalysisError {
    AnalysisError(String),
}

impl PasswordAnalysisError {
    /// The error in words.
    pub fn message(&self) -> (text: String)
        ensures
            text@ == match self {
                PasswordAnalysisError::AnalysisError(detail) => "Erreur d'analyse: "@ + detail@,
            },
    {
        match self {
            PasswordAnalysisError::AnalysisError(detail) => {
                "Erreur d'analyse: ".to_owned().concat(detail.as_str())
            },
        }
    }
}

/// How strong a password is, from the weakest to the strongest.
#[derive(Debug, Clone, Copy, PartialEq, Eq, Structural)]
pub enum PasswordStrength {
    VeryWeak,
    Weak,
    Medium,
    Strong,
    VeryStrong,
}

/// The name of a strength.
pub open spec fn label_of(strength: PasswordStrength) -> Seq<char> {
    match strength {
        PasswordStrength::VeryWeak => "Très faible"@,
        PasswordStrength::Weak => "Faible"@,
        PasswordStrength::Medium => "Moyen"@,
        PasswordStrength::Strong => "Fort"@,
        PasswordStrength::VeryStrong => "Très fort"@,
    }
}

impl PasswordStrength {
    /// The name of the strength.
    pub fn label(&self) -> (text: String)
        ensures
            text@ == label_of(*self),
    {
        match self {
            PasswordStrength::VeryWeak => "Très faible".to_owned(),
            PasswordStrength::Weak => "Faible".to_owned(),
            PasswordStrength::Medium => "Moyen".to_owned(),
            PasswordStrength::Strong => "Fort".to_owned(),
            PasswordStrength::VeryStrong => "Très fort".to_owned(),
        }
    }
}

/// What the analysis of a password found.
#[derive(Debug, Clone)]
pub struct PasswordAnalysis {
    pub strength: PasswordStrength,
    /// The score, from 0 to 100.
    pub score: u8,
    /// What is wrong with the password.
    pub issues: Vec<String>,
    /// What would make it stronger.
    pub suggestions: Vec<String>,
}

/// A `PasswordAnalysis` as a mathematical value.
pub struct PasswordAnalysisView {
    pub strength: PasswordStrength,
    pub score: nat,
    pub issues: Seq<Seq<char>>,
    pub suggestions: Seq<Seq<char>>,
}

impl View for PasswordAnalysis {
    type V = PasswordAnalysisView;

    open spec fn view(&self) -> PasswordAnalysisView {
        PasswordAnalysisView {
            strength: self.strength,
            score: self.score as nat,
            issues: texts(self.issues@),
            suggestions: texts(self.suggestions@),
        }
    }
}

/// The character of a digit.
pub open spec fn digit(d: nat) -> char {
    ((48 + d) as u8) as char
}

/// A number in decimal digits.
pub open spec fn decimal(n: nat) -> Seq<char>
    decreases n,
{
    if n < 10 {
        seq![digit(n)]
    } else {
        decimal(n / 10).push(digit(n % 10))
    }
}

/// The first `n` of a list of texts, each on a line of its own behind
/// `mark`.
pub open spec fn marked_lines(mark: Seq<char>, items: Seq<Seq<char>>, n: nat) -> Seq<char>
    decreases n,
{
    if n == 0 || n > items.len() {
        Seq::empty()
    } else {
        marked_lines(mark, items, (n - 1) as nat) + mark + items[n - 1] + seq!['\n']
    }
}

/// A list of texts under a title, or nothing where the list is empty.
pub open spec fn titled_lines(title: Seq<char>, mark: Seq<char>, items: Seq<Seq<char>>) -> Seq<
    char,
> {
    if items.len() == 0 {
        Seq::empty()
    } else {
        title + marked_lines(mark, items, items.len())
    }
}

impl PasswordAnalysisView {
    /// The analysis in words: the strength and the score on the first line,
    /// then what is wrong, then what would help.
    pub open spec fn report(self) -> Seq<char> {
        "Force: "@ + label_of(self.strength) + " (Score: "@ + decimal(self.score) + "/100)\n"@
            + titled_lines("\nProblèmes détectés:\n"@, "  ⚠️  "@, self.issues) + titled_lines(
            "\nSuggestions:\n"@,
            "  💡 "@,
            self.suggestions,
        )
    }
}

/// Writes a number in decimal digits.
fn decimal_text(n: u8) -> (text: String)
    ensures
        text@ == decimal(n as nat),
{
    let mut text = String::new();
    if n >= 100 {
        push_char(&mut text, (48 + n / 100) as char);
    }
    if n >= 10 {
        push_char(&mut text, (48 + (n / 10) % 10) as char);
    }
    push_char(&mut text, (48 + n % 10) as char);
    proof {
        reveal_with_fuel(decimal, 3);
        assert(text@ =~= decimal(n as nat));
    }
    text
}

/// Appends a list of texts under a title to a text, or nothing where the
/// list is empty.
fn append_titled_lines(text: &mut String, title: &str, mark: &str, items: &Vec<String>)
    ensures
        final(text)@ == old(text)@ + titled_lines(title@, mark@, texts(items@)),
{
    if items.len() == 0 {
        assert(text@ =~= old(text)@ + titled_lines(title@, mark@, texts(items@)));
        return ;
    }
    text.append(title);
    let n = items.len();
    let mut i: usize = 0;
    assert(text@ =~= old(text)@ + title@ + marked_lines(mark@, texts(items@), 0));
    while i < n
        invariant
            n == items@.len(),
            i <= n,
            text@ == old(text)@ + title@ + marked_lines(mark@, texts(items@), i as nat),
        decreases n - i,
    {
        let ghost before = text@;
        text.append(mark);
        text.append(items[i].as_str());
        push_char(text, '\n');
        assert(text@ =~= old(text)@ + title@ + marked_lines(mark@, texts(items@), (i + 1) as nat))
            by {
            assert(texts(items@)[i as int] == items@[i as int]@);
            assert(text@ =~= before + mark@ + items@[i as int]@ + seq!['\n']);
        }
        i += 1;
    }
    assert(text@ =~= old(text)@ + titled_lines(title@, mark@, texts(items@)));
}

/// The lower-case form of a text: what `str::to_lowercase` returns for it.
pub uninterp spec fn lowercase_of(text: Seq<char>) -> Seq<char>;

/// Turns a text into lower case with `str::to_lowercase`.
#[verifier::external_body]
fn lowercased(text: &str) -> (lower: String)
    ensures
        lower@ == lowercase_of(text@),
{
    text.to_lowercase()
}

/// The passwords that are known to be in common use.
pub open spec fn common_passwords() -> Seq<Seq<char>> {
    seq![
        "password"@,
        "123456"@,
        "password123"@,
        "admin"@,
        "qwerty"@,
        "letmein"@,
        "welcome"@,
        "monkey"@,
        "1234567890"@,
        "abc123"@,
        "password1"@,
        "123456789"@,
        "welcome123"@,
        "admin123"@,
        "root"@,
        "toor"@,
        "pass"@,
        "test"@,
        "guest"@,
        "user"@,
        "azerty"@,
        "motdepasse"@,
        "secret"@,
        "changeme"@,
        "default"@,
    ]
}

/// Whether the same character stands three times in a row somewhere in `s`.
pub open spec fn has_repetitions(s: Seq<char>) -> bool {
    exists|i: int| 0 <= i && i + 2 < s.len() && #[trigger] repeats_at(s, i)
}

/// Whether the three characters of `s` from `i` on are the same.
pub open spec fn repeats_at(s: Seq<char>, i: int) -> bool {
    s[i] == s[i + 1] && s[i + 1] == s[i + 2]
}

/// The lowest eight bits of the code of a character.
pub open spec fn low_byte(c: char) -> int {
    (c as u32 % 256) as int
}

/// Whether three characters in a row somewhere in `s` count up or down by
/// one, each taken by the lowest eight bits of its code.
pub open spec fn has_sequences(s: Seq<char>) -> bool {
    exists|i: int| 0 <= i && i + 2 < s.len() && #[trigger] runs_at(s, i)
}

/// Whether the three characters of `s` from `i` on count up or down by one.
pub open spec fn runs_at(s: Seq<char>, i: int) -> bool {
    let a = low_byte(s[i]);
    let b = low_byte(s[i + 1]);
    let c = low_byte(s[i + 2]);
    (b == a + 1 && c == b + 1) || (b == a - 1 && c == b - 1)
}

/// What the analysis looks at in a password.
pub struct Findings {
    /// The length of the password in bytes.
    pub bytes: nat,
    /// How many of the four classes of characters occur in it.
    pub classes: nat,
    /// Whether its lower-case form is a password in common use.
    pub common: bool,
    /// Whether a character stands three times in a row in it.
    pub repeats: bool,
    /// Whether three characters in a row count up or down in it.
    pub sequences: bool,
}

/// `score` less `penalty`, and 0 where the penalty is larger.
pub open spec fn less(score: nat, penalty: nat) -> nat {
    if score >= penalty {
        (score - penalty) as nat
    } else {
        0
    }
}

/// The list that holds `text` if `present`, and nothing otherwise.
pub open spec fn when(present: bool, text: Seq<char>) -> Seq<Seq<char>> {
    if present {
        seq![text]
    } else {
        Seq::empty()
    }
}

impl Findings {
    /// What is looked at in `password`, given the passwords in common use.
    pub open spec fn of(password: Seq<char>, common: Seq<Seq<char>>) -> Findings {
        Findings {
            bytes: vstd::utf8::encode_utf8(password).len(),
            classes: classes_of(password).spec_count(),
            common: common.contains(lowercase_of(password)),
            repeats: has_repetitions(password),
            sequences: has_sequences(password),
        }
    }

    /// The points for the length: 20 from 8 bytes on, 10 more from 12 on and
    /// 10 more from 16 on.
    pub open spec fn length_points(self) -> nat {
        if self.bytes >= 16 {
            40
        } else if self.bytes >= 12 {
            30
        } else if self.bytes >= 8 {
            20
        } else {
            0
        }
    }

    /// The points for the classes of characters: 15 for two of them, 25 for
    /// three and 35 for all four.
    pub open spec fn variety_points(self) -> nat {
        if self.classes == 2 {
            15
        } else if self.classes == 3 {
            25
        } else if self.classes == 4 {
            35
        } else {
            0
        }
    }

    /// The score: the points for length and variety, none at all for a
    /// password in common use, less 15 for repetitions and less 10 for
    /// sequences, and never below 0.
    pub open spec fn score(self) -> nat {
        let earned = if self.common {
            0
        } else {
            self.length_points() + self.variety_points()
        };
        let kept = if self.repeats {
            less(earned, 15)
        } else {
            earned
        };
        if self.sequences {
            less(kept, 10)
        } else {
            kept
        }
    }

    /// What is wrong, in the order in which it is looked at.
    pub open spec fn issues(self) -> Seq<Seq<char>> {
        when(self.bytes < 8, "Mot de passe trop court (moins de 8 caractères)"@) + when(
            self.classes == 1,
            "Utilise seulement un type de caractères"@,
        ) + when(self.common, "Mot de passe très commun et facilement devinable"@) + when(
            self.repeats,
            "Contient des répétitions de caractères"@,
        ) + when(self.sequences, "Contient des séquences prévisibles"@)
    }

    /// What would help, in the order in which it is looked at.
    pub open spec fn suggestions(self) -> Seq<Seq<char>> {
        when(self.bytes < 8, "Utilisez au moins 8 caractères"@) + when(
            self.classes == 1,
            "Mélangez majuscules, minuscules, chiffres et symboles"@,
        ) + when(self.classes == 2, "Ajoutez des chiffres et/ou des symboles"@) + when(
            self.classes == 3,
            "Ajoutez des symboles pour plus de sécurité"@,
        ) + when(self.common, "Utilisez le générateur pour créer un mot de passe unique"@) + when(
            self.repeats,
            "Évitez les répétitions comme 'aaa' ou '111'"@,
        ) + when(self.sequences, "Évitez les séquences comme 'abc' ou '123'"@)
    }

    /// The analysis that these findings give.
    pub open spec fn analysis(self) -> PasswordAnalysisView {
        PasswordAnalysisView {
            strength: strength_of(self.score()),
            score: self.score(),
            issues: self.issues(),
            suggestions: self.suggestions(),
        }
    }
}

/// The strength that goes with a score: a new one every 20 points.
pub open spec fn strength_of(score: nat) -> PasswordStrength {
    if score <= 20 {
        PasswordStrength::VeryWeak
    } else if score <= 40 {
        PasswordStrength::Weak
    } else if score <= 60 {
        PasswordStrength::Medium
    } else if score <= 80 {
        PasswordStrength::Strong
    } else {
        PasswordStrength::VeryStrong
    }
}

impl PasswordAnalysis {
    /// The analysis in words: the strength and the score on the first line,
    /// then what is wrong, then what would help.
    pub fn report(&self) -> (text: String)
        ensures
            text@ == self@.report(),
    {
        let mut text = "Force: ".to_owned();
        text.append(self.strength.label().as_str());
        text.append(" (Score: ");
        text.append(decimal_text(self.score).as_str());
        text.append("/100)\n");
        append_titled_lines(&mut text, "\nProblèmes détectés:\n", "  ⚠️  ", &self.issues);
        append_titled_lines(&mut text, "\nSuggestions:\n", "  💡 ", &self.suggestions);
        text
    }
}

/// Appends a text to a list of texts.
fn note(list: &mut Vec<String>, text: &str)
    ensures
        texts(final(list)@) == texts(old(list)@) + seq![text@],
{
    let owned = text.to_owned();
    list.push(owned);
    assert(texts(list@) =~= texts(old(list)@) + seq![text@]);
}

/// Judges passwords against a list of passwords in common use.
pub struct PasswordAnalyzer {
    common_passwords: Vec<String>,
}

impl View for PasswordAnalyzer {
    type V = Seq<Seq<char>>;

    /// The passwords in common use that the analyzer knows.
    closed spec fn view(&self) -> Seq<Seq<char>> {
        texts(self.common_passwords@)
    }
}

impl PasswordAnalyzer {
    /// An analyzer that knows the passwords of `common_passwords`.
    pub fn new() -> (analyzer: PasswordAnalyzer)
        ensures
            analyzer@ == common_passwords(),
    {
        let mut common: Vec<String> = Vec::new();
        note(&mut common, "password");
        note(&mut common, "123456");
        note(&mut common, "password123");
        note(&mut common, "admin");
        note(&mut common, "qwerty");
        note(&mut common, "letmein");
        note(&mut common, "welcome");
        note(&mut common, "monkey");
        note(&mut common, "1234567890");
        note(&mut common, "abc123");
        note(&mut common, "password1");
        note(&mut common, "123456789");
        note(&mut common, "welcome123");
        note(&mut common, "admin123");
        note(&mut common, "root");
        note(&mut common, "toor");
        note(&mut common, "pass");
        note(&mut common, "test");
        note(&mut common, "guest");
        note(&mut common, "user");
        note(&mut common, "azerty");
        note(&mut common, "motdepasse");
        note(&mut common, "secret");
        note(&mut common, "changeme");
        note(&mut common, "default");
        assert(texts(common@) =~= common_passwords());
        PasswordAnalyzer { common_passwords: common }
    }

    /// Whether the lower-case form of `password` is a password in common use.
    pub fn is_common(&self, password: &str) -> (common: bool)
        ensures
            common == self@.contains(lowercase_of(password@)),
    {
        let lower = lowercased(password);
        let n = self.common_passwords.len();
        let mut i: usize = 0;
        while i < n
            invariant
                n == self.common_passwords@.len(),
                i <= n,
                lower@ == lowercase_of(password@),
                forall|j: int| 0 <= j < i ==> (#[trigger] self@[j]) != lower@,
            decreases n - i,
        {
            if same_text(self.common_passwords[i].as_str(), lower.as_str()) {
                assert(self@[i as int] == lower@);
                return true;
            }
            i += 1;
        }
        false
    }

    /// Whether the same character stands three times in a row in `password`.
    pub fn has_repetitions(&self, password: &str) -> (found: bool)
        ensures
            found == has_repetitions(password@),
    {
        let n = password.unicode_len();
        if n < 3 {
            return false;
        }
        let mut i: usize = 0;
        while i + 2 < n
            invariant
                n == password@.len(),
                n >= 3,
                i + 2 <= n,
                forall|j: int| 0 <= j < i ==> !#[trigger] repeats_at(password@, j),
            decreases n - i,
        {
            let a = password.get_char(i);
            let b = password.get_char(i + 1);
            let c = password.get_char(i + 2);
            if a == b && b == c {
                assert(repeats_at(password@, i as int));
                return true;
            }
            i += 1;
        }
        false
    }

    /// Whether three characters in a row count up or down by one in
    /// `password`.
    pub fn has_sequences(&self, password: &str) -> (found: bool)
        ensures
            found == has_sequences(password@),
    {
        let n = password.unicode_len();
        if n < 3 {
            return false;
        }
        let mut i: usize = 0;
        while i + 2 < n
            invariant
                n == password@.len(),
                n >= 3,
                i + 2 <= n,
                forall|j: int| 0 <= j < i ==> !#[trigger] runs_at(password@, j),
            decreases n - i,
        {
            let a: u32 = password.get_char(i) as u32 % 256;
            let b: u32 = password.get_char(i + 1) as u32 % 256;
            let c: u32 = password.get_char(i + 2) as u32 % 256;
            if (b == a + 1 && c == b + 1) || (a == b + 1 && b == c + 1) {
                assert(runs_at(password@, i as int));
                return true;
            }
            i += 1;
        }
        false
    }

    /// Analyses a password: its score, the strength that goes with the score,
    /// what is wrong with it and what would help.
    pub fn analyze(&self, password: &str) -> (analysis: PasswordAnalysis)
        ensures
            analysis@ == Findings::of(password@, self@).analysis(),
    {
        let ghost found = Findings::of(password@, self@);
        let mut score: u8 = 0;
        let mut issues: Vec<String> = Vec::new();
        let mut suggestions: Vec<String> = Vec::new();
        assert(texts(issues@) =~= Seq::empty());
        assert(texts(suggestions@) =~= Seq::empty());

        let bytes = password.as_bytes().len();
        if bytes < 8 {
            note(&mut issues, "Mot de passe trop court (moins de 8 caractères)");
            note(&mut suggestions, "Utilisez au moins 8 caractères");
        } else {
            score += 20;
        }
        if bytes >= 12 {
            score += 10;
        }
        if bytes >= 16 {
            score += 10;
        }
        assert(score == found.length_points());

        let classes = classify(password).count();
        if classes == 1 {
            note(&mut issues, "Utilise seulement un type de caractères");
            note(&mut suggestions, "Mélangez majuscules, minuscules, chiffres et symboles");
        } else if classes == 2 {
            score += 15;
            note(&mut suggestions, "Ajoutez des chiffres et/ou des symboles");
        } else if classes == 3 {
            score += 25;
            note(&mut suggestions, "Ajoutez des symboles pour plus de sécurité");
        } else if classes == 4 {
            score += 35;
        }
        assert(score == found.length_points() + found.variety_points());

        if self.is_common(password) {
            score = 0;
            note(&mut issues, "Mot de passe très commun et facilement devinable");
            note(&mut suggestions, "Utilisez le générateur pour créer un mot de passe unique");
        }
        if self.has_repetitions(password) {
            score = score.saturating_sub(15);
            note(&mut issues, "Contient des répétitions de caractères");
            note(&mut suggestions, "Évitez les répétitions comme 'aaa' ou '111'");
        }
        if self.has_sequences(password) {
            score = score.saturating_sub(10);
            note(&mut issues, "Contient des séquences prévisibles");
            note(&mut suggestions, "Évitez les séquences comme 'abc' ou '123'");
        }
        assert(score == found.score());
        assert(texts(issues@) =~= found.issues());
        assert(texts(suggestions@) =~= found.suggestions());

        let strength = if score <= 20 {
            PasswordStrength::VeryWeak
        } else if score <= 40 {
            PasswordStrength::Weak
        } else if score <= 60 {
            PasswordStrength::Medium
        } else if score <= 80 {
            PasswordStrength::Strong
        } else {
            PasswordStrength::VeryStrong
        };
        PasswordAnalysis { strength, score, issues, suggestions }
    }
}

} // verus!
