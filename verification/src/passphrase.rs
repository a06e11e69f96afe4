//! Passphrase dialog: entering and confirming a passphrase for a key, its
//! validity and strength rating, random generation, and clearing the
//! entered secrets when the dialog closes.

use vstd::prelude::*;
use crate::text::{chars_of, string_from_chars};
use rand::Rng;
use der::zeroize::Zeroize;

verus! {

broadcast use vstd::string::group_string_axioms;

/// What the passphrase protects.
#[derive(Debug, Clone, Copy, PartialEq, Eq, Structural)]
pub enum PassphrasePurpose {
    RootCA,
    IntermediateCA,
    PersonalKeys,
}

/// Title shown for a purpose.
pub open spec fn purpose_title(p: PassphrasePurpose) -> Seq<char> {
    match p {
        PassphrasePurpose::RootCA => "Root CA Passphrase"@,
        PassphrasePurpose::IntermediateCA => "Intermediate CA Passphrase"@,
        PassphrasePurpose::PersonalKeys => "Personal Keys Passphrase"@,
    }
}

/// Explanation shown for a purpose.
pub open spec fn purpose_description(p: PassphrasePurpose) -> Seq<char> {
    match p {
        PassphrasePurpose::RootCA => "This passphrase protects your organization's root certificate authority. Keep it secure!"@,
        PassphrasePurpose::IntermediateCA => "This passphrase protects the intermediate signing certificate."@,
        PassphrasePurpose::PersonalKeys => "This passphrase protects your personal keys."@,
    }
}

impl PassphrasePurpose {
    /// The dialog title for this purpose.
    pub fn title(&self) -> (r: &'static str)
        ensures
            r@ == purpose_title(*self),
    {
        match self {
            PassphrasePurpose::RootCA => "Root CA Passphrase",
            PassphrasePurpose::IntermediateCA => "Intermediate CA Passphrase",
            PassphrasePurpose::PersonalKeys => "Personal Keys Passphrase",
        }
    }

    /// The explanation shown under the title.
    pub fn description(&self) -> (r: &'static str)
        ensures
            r@ == purpose_description(*self),
    {
        match self {
            PassphrasePurpose::RootCA => "This passphrase protects your organization's root certificate authority. Keep it secure!",
            PassphrasePurpose::IntermediateCA => "This passphrase protects the intermediate signing certificate.",
            PassphrasePurpose::PersonalKeys => "This passphrase protects your personal keys.",
        }
    }
}

/// Messages of the dialog.
#[derive(Debug, Clone)]
pub enum PassphraseDialogMessage {
    PassphraseChanged(String),
    PassphraseConfirmChanged(String),
    ToggleVisibility(bool),
    GenerateRandom,
    Submit,
    Cancel,
}

/// State of the passphrase dialog.
#[derive(Debug, Clone)]
pub struct PassphraseDialog {
    pub visible: bool,
    pub passphrase: String,
    pub passphrase_confirm: String,
    pub show_passphrase: bool,
    pub purpose: PassphrasePurpose,
}

/// Length of a passphrase in bytes of UTF-8, as `str::len` reports it.
pub open spec fn byte_len(s: Seq<char>) -> nat {
    (vstd::utf8::encode_utf8(s).len() as usize) as nat
}

/// Minimum passphrase length in bytes.
pub const MIN_PASSPHRASE_BYTES: usize = 12;

/// The passphrase is entered, confirmed, and at least twelve bytes long.
pub open spec fn passphrase_valid(d: PassphraseDialog) -> bool {
    &&& d.passphrase@.len() > 0
    &&& d.passphrase@ == d.passphrase_confirm@
    &&& byte_len(d.passphrase@) >= 12
}

/// What `char::is_lowercase` returns for `c` (Unicode `Lowercase`).
pub uninterp spec fn lowercase_char(c: char) -> bool;

/// What `char::is_uppercase` returns for `c` (Unicode `Uppercase`).
pub uninterp spec fn uppercase_char(c: char) -> bool;

/// What `char::is_alphanumeric` returns for `c` (Unicode `Alphabetic` or `Numeric`).
pub uninterp spec fn alphanumeric_char(c: char) -> bool;

/// `char::is_lowercase`.
#[verifier::external_body]
fn is_lowercase(c: char) -> (r: bool)
    ensures
        r == lowercase_char(c),
{
    c.is_lowercase()
}

/// `char::is_uppercase`.
#[verifier::external_body]
fn is_uppercase(c: char) -> (r: bool)
    ensures
        r == uppercase_char(c),
{
    c.is_uppercase()
}

/// `char::is_alphanumeric`.
#[verifier::external_body]
fn is_alphanumeric(c: char) -> (r: bool)
    ensures
        r == alphanumeric_char(c),
{
    c.is_alphanumeric()
}

/// An ASCII decimal digit.
pub open spec fn ascii_digit(c: char) -> bool {
    '0' <= c && c <= '9'
}

/// Some character of `s` satisfies `p`.
pub open spec fn any_char(s: Seq<char>, p: spec_fn(char) -> bool) -> bool {
    exists|i: int| 0 <= i < s.len() && p(s[i])
}

/// 1 for true, 0 for false.
pub open spec fn one_if(b: bool) -> nat {
    if b { 1 } else { 0 }
}

/// Strength of a passphrase in units of 1/3200: up to 1280 for its length
/// (100 per byte), plus 480 for each of lower case, upper case, ASCII digit
/// and non-alphanumeric character present, at most 3200; 0 when empty.
pub open spec fn strength_score(s: Seq<char>) -> nat {
    if s.len() == 0 {
        0
    } else {
        let length = if byte_len(s) * 100 < 1280 { byte_len(s) * 100 } else { 1280 };
        let variety = 480 * (one_if(any_char(s, |c: char| lowercase_char(c)))
            + one_if(any_char(s, |c: char| uppercase_char(c)))
            + one_if(any_char(s, |c: char| ascii_digit(c)))
            + one_if(any_char(s, |c: char| !alphanumeric_char(c))));
        if length + variety < 3200 { length + variety } else { 3200 }
    }
}

/// The label for a strength score: below 0.3 weak, below 0.6 fair, below
/// 0.8 good, otherwise strong.
pub open spec fn strength_word(score: nat) -> Seq<char> {
    if score < 960 {
        "Weak"@
    } else if score < 1920 {
        "Fair"@
    } else if score < 2560 {
        "Good"@
    } else {
        "Strong"@
    }
}

/// Characters that random passphrases are drawn from.
pub open spec fn random_charset() -> Seq<char> {
    "ABCDEFGHIJKLMNOPQRSTUVWXYZabcdefghijklmnopqrstuvwxyz0123456789!@#$%^&*-_=+"@
}

/// Length of a generated passphrase.
pub const RANDOM_PASSPHRASE_LEN: usize = 24;

/// A generated passphrase: 24 characters, each from the charset.
pub open spec fn is_generated_passphrase(s: Seq<char>) -> bool {
    &&& s.len() == 24
    &&& forall|i: int| 0 <= i < s.len() ==> random_charset().contains(#[trigger] s[i])
}

/// A uniformly drawn index below `bound`: `rand::thread_rng().gen_range(0..bound)`.
/// Only the range of the value is stated; it depends on chance.
#[verifier::external_body]
fn random_index(bound: usize) -> (r: usize)
    requires
        bound > 0,
    ensures
        r < bound,
{
    rand::thread_rng().gen_range(0..bound)
}

/// Overwrites the bytes of `s` with zeros and empties it (`Zeroize::zeroize`
/// for `String`, as re-exported by `der`).
#[verifier::external_body]
fn zeroize_string(s: &mut String)
    ensures
        final(s)@.len() == 0,
{
    s.zeroize();
}

fn byte_length(s: &String) -> (r: usize)
    ensures
        r == byte_len(s@),
{
    s.as_str().len()
}

/// A new random passphrase of 24 characters from the charset.
pub fn generate_random() -> (r: String)
    ensures
        is_generated_passphrase(r@),
{
    let charset_str = "ABCDEFGHIJKLMNOPQRSTUVWXYZabcdefghijklmnopqrstuvwxyz0123456789!@#$%^&*-_=+";
    proof { reveal_strlit("ABCDEFGHIJKLMNOPQRSTUVWXYZabcdefghijklmnopqrstuvwxyz0123456789!@#$%^&*-_=+"); }
    let charset = chars_of(charset_str);
    let mut out: Vec<char> = Vec::new();
    let mut i: usize = 0;
    while i < RANDOM_PASSPHRASE_LEN
        invariant
            charset@ == random_charset(),
            charset@.len() > 0,
            i <= 24,
            out@.len() == i,
            forall|k: int| 0 <= k < out@.len() ==> random_charset().contains(#[trigger] out@[k]),
        decreases 24 - i,
    {
        let idx = random_index(charset.len());
        out.push(charset[idx]);
        assert(random_charset()[idx as int] == out@[i as int]);
        i = i + 1;
    }
    string_from_chars(&out)
}

impl Default for PassphraseDialog {
    fn default() -> (d: Self)
        ensures
            !d.visible,
            d.passphrase@.len() == 0,
            d.passphrase_confirm@.len() == 0,
            !d.show_passphrase,
            d.purpose == PassphrasePurpose::RootCA,
    {
        Self::new()
    }
}

impl PassphraseDialog {
    /// A hidden dialog with empty fields, for the root CA.
    pub fn new() -> (d: Self)
        ensures
            !d.visible,
            d.passphrase@.len() == 0,
            d.passphrase_confirm@.len() == 0,
            !d.show_passphrase,
            d.purpose == PassphrasePurpose::RootCA,
    {
        PassphraseDialog {
            visible: false,
            passphrase: String::new(),
            passphrase_confirm: String::new(),
            show_passphrase: false,
            purpose: PassphrasePurpose::RootCA,
        }
    }

    /// Opens the dialog for `purpose` with empty, hidden fields.
    pub fn show(&mut self, purpose: PassphrasePurpose)
        ensures
            final(self).visible,
            final(self).purpose == purpose,
            final(self).passphrase@.len() == 0,
            final(self).passphrase_confirm@.len() == 0,
            !final(self).show_passphrase,
    {
        self.visible = true;
        self.purpose = purpose;
        self.passphrase = String::new();
        self.passphrase_confirm = String::new();
        self.show_passphrase = false;
    }

    /// Closes the dialog and wipes the entered passphrases.
    pub fn dismiss(&mut self)
        ensures
            !final(self).visible,
            final(self).passphrase@.len() == 0,
            final(self).passphrase_confirm@.len() == 0,
            final(self).purpose == old(self).purpose,
            final(self).show_passphrase == old(self).show_passphrase,
    {
        self.visible = false;
        zeroize_string(&mut self.passphrase);
        zeroize_string(&mut self.passphrase_confirm);
    }

    /// Whether the dialog is shown.
    pub fn is_visible(&self) -> (r: bool)
        ensures
            r == self.visible,
    {
        self.visible
    }

    /// What the passphrase is for.
    pub fn purpose(&self) -> (r: &PassphrasePurpose)
        ensures
            *r == self.purpose,
    {
        &self.purpose
    }

    /// The passphrase, when it is valid.
    pub fn get_passphrase(&self) -> (r: Option<String>)
        ensures
            r is Some <==> passphrase_valid(*self),
            r matches Some(p) ==> p@ == self.passphrase@,
    {
        if self.is_valid() {
            Some(self.passphrase.clone())
        } else {
            None
        }
    }

    /// Entered, confirmed and at least twelve bytes long.
    pub fn is_valid(&self) -> (r: bool)
        ensures
            r == passphrase_valid(*self),
    {
        !self.passphrase.as_str().is_empty() && self.passphrase == self.passphrase_confirm
            && byte_length(&self.passphrase) >= MIN_PASSPHRASE_BYTES
    }

    /// Strength of the passphrase in units of 1/3200 (0 to 3200).
    pub fn strength_score(&self) -> (r: u32)
        ensures
            r == strength_score(self.passphrase@),
    {
        let chars = chars_of(self.passphrase.as_str());
        if chars.len() == 0 {
            return 0;
        }
        let mut has_lower = false;
        let mut has_upper = false;
        let mut has_digit = false;
        let mut has_special = false;
        let mut i: usize = 0;
        while i < chars.len()
            invariant
                chars@ == self.passphrase@,
                i <= chars.len(),
                has_lower == any_char(chars@.take(i as int), |c: char| lowercase_char(c)),
                has_upper == any_char(chars@.take(i as int), |c: char| uppercase_char(c)),
                has_digit == any_char(chars@.take(i as int), |c: char| ascii_digit(c)),
                has_special == any_char(chars@.take(i as int), |c: char| !alphanumeric_char(c)),
            decreases chars.len() - i,
        {
            let c = chars[i];
            let ghost prefix = chars@.take(i as int);
            let ghost next = chars@.take(i + 1);
            assert(next =~= prefix.push(c));
            let lower = is_lowercase(c);
            let upper = is_uppercase(c);
            let digit = '0' <= c && c <= '9';
            let special = !is_alphanumeric(c);
            proof {
                assert(next[i as int] == c);
                assert forall|j: int| 0 <= j < i implies next[j] == prefix[j] by {}
            }
            has_lower = has_lower || lower;
            has_upper = has_upper || upper;
            has_digit = has_digit || digit;
            has_special = has_special || special;
            i = i + 1;
        }
        assert(chars@.take(chars.len() as int) =~= chars@);
        let bytes = byte_length(&self.passphrase);
        let length: u32 = if bytes < 13 { (bytes as u32) * 100 } else { 1280 };
        let mut variety: u32 = 0;
        if has_lower { variety = variety + 480; }
        if has_upper { variety = variety + 480; }
        if has_digit { variety = variety + 480; }
        if has_special { variety = variety + 480; }
        if length + variety < 3200 { length + variety } else { 3200 }
    }

    /// "Weak", "Fair", "Good" or "Strong" for the current passphrase.
    pub fn strength_label(&self) -> (r: &'static str)
        ensures
            r@ == strength_word(strength_score(self.passphrase@)),
    {
        let score = self.strength_score();
        if score < 960 {
            "Weak"
        } else if score < 1920 {
            "Fair"
        } else if score < 2560 {
            "Good"
        } else {
            "Strong"
        }
    }

    /// Applies a message. Submitting and cancelling are handled by the
    /// owner of the dialog, so they change nothing here.
    pub fn update(&mut self, message: PassphraseDialogMessage)
        ensures
            final(self).visible == old(self).visible,
            final(self).purpose == old(self).purpose,
            match message {
                PassphraseDialogMessage::PassphraseChanged(p) => {
                    &&& final(self).passphrase@ == p@
                    &&& final(self).passphrase_confirm@ == old(self).passphrase_confirm@
                    &&& final(self).show_passphrase == old(self).show_passphrase
                },
                PassphraseDialogMessage::PassphraseConfirmChanged(p) => {
                    &&& final(self).passphrase@ == old(self).passphrase@
                    &&& final(self).passphrase_confirm@ == p@
                    &&& final(self).show_passphrase == old(self).show_passphrase
                },
                PassphraseDialogMessage::ToggleVisibility(show) => {
                    &&& final(self).passphrase@ == old(self).passphrase@
                    &&& final(self).passphrase_confirm@ == old(self).passphrase_confirm@
                    &&& final(self).show_passphrase == show
                },
                PassphraseDialogMessage::GenerateRandom => {
                    &&& is_generated_passphrase(final(self).passphrase@)
                    &&& final(self).passphrase_confirm@ == final(self).passphrase@
                    &&& final(self).show_passphrase == old(self).show_passphrase
                },
                _ => {
                    &&& final(self).passphrase@ == old(self).passphrase@
                    &&& final(self).passphrase_confirm@ == old(self).passphrase_confirm@
                    &&& final(self).show_passphrase == old(self).show_passphrase
                },
            },
    {
        match message {
            PassphraseDialogMessage::PassphraseChanged(p) => {
                self.passphrase = p;
            },
            PassphraseDialogMessage::PassphraseConfirmChanged(p) => {
                self.passphrase_confirm = p;
            },
            PassphraseDialogMessage::ToggleVisibility(show) => {
                self.show_passphrase = show;
            },
            PassphraseDialogMessage::GenerateRandom => {
                let random = generate_random();
                self.passphrase = random.clone();
                self.passphrase_confirm = random;
            },
            PassphraseDialogMessage::Submit => {},
            PassphraseDialogMessage::Cancel => {},
        }
    }
}

/// A generated passphrase is always accepted: both fields hold the same 24
/// ASCII characters, which take 24 bytes.
pub proof fn lemma_generated_is_valid(d: PassphraseDialog)
    requires
        is_generated_passphrase(d.passphrase@),
        d.passphrase_confirm@ == d.passphrase@,
    ensures
        passphrase_valid(d),
{
    lemma_ascii_byte_len(d.passphrase@);
}

proof fn lemma_ascii_byte_len(s: Seq<char>)
    requires
        forall|i: int| 0 <= i < s.len() ==> random_charset().contains(#[trigger] s[i]),
        s.len() <= 24,
    ensures
        byte_len(s) == s.len(),
{
    reveal_strlit("ABCDEFGHIJKLMNOPQRSTUVWXYZabcdefghijklmnopqrstuvwxyz0123456789!@#$%^&*-_=+");
    assert forall|i: int| 0 <= i < s.len() implies '\0' <= #[trigger] s[i] <= '\u{7f}' by {
        assert(random_charset().contains(s[i]));
        let k = choose|k: int| 0 <= k < random_charset().len() && random_charset()[k] == s[i];
    }
    assert(vstd::utf8::is_ascii_chars(s));
    vstd::utf8::is_ascii_chars_encode_utf8(s);
}

/// An empty passphrase has strength zero and is rated weak.
pub proof fn lemma_empty_is_weak()
    ensures
        strength_score(Seq::<char>::empty()) == 0,
        strength_word(0) == "Weak"@,
{
}

} // verus!
