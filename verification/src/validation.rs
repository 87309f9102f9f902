//! Input validation for inbound data: free-text messages, platform user ids,
//! and reply tokens, plus masking helpers that make sensitive values safe to
//! log. All checks are character-level and total; the rules each validator
//! enforces are stated as spec functions.

use vstd::prelude::*;
use vstd::string::StringSliceAdditionalSpecFns;

use crate::text::chars_vec;
use crate::text::index_of_char;
use crate::text::lemma_find_char_at;
use crate::text::lower_of;
use crate::text::spec_contains_seq;
use crate::text::spec_find_char;
use crate::text::spec_stars;
use crate::text::star_string;
use crate::text::str_contains;
use crate::text::to_lowercase;

verus! {

/// Why an input was rejected.
#[derive(Debug, Clone, Copy, PartialEq, Eq, Structural)]
pub enum ValidationError {
    TooLong { max_length: usize, actual: usize },
    TooShort { min_length: usize, actual: usize },
    InvalidCharacters,
    Forbidden,
    Empty,
}

/// A Unicode control character: the blocks U+0000 through U+001F and U+007F
/// through U+009F.
pub open spec fn spec_is_control(c: char) -> bool {
    c as u32 <= 0x1F || (0x7F <= c as u32 && c as u32 <= 0x9F)
}

/// A control character other than newline, carriage return, and tab.
pub open spec fn spec_is_bad_control(c: char) -> bool {
    spec_is_control(c) && c != '\n' && c != '\r' && c != '\t'
}

fn is_bad_control(c: char) -> (r: bool)
    ensures
        r == spec_is_bad_control(c),
{
    let u: u32 = c as u32;
    (u <= 0x1F || (0x7F <= u && u <= 0x9F)) && c != '\n' && c != '\r' && c != '\t'
}

/// An ASCII hexadecimal digit.
pub open spec fn spec_is_hexdigit(c: char) -> bool {
    ('0' as u32 <= c as u32 && c as u32 <= '9' as u32) || ('a' as u32 <= c as u32 && c as u32
        <= 'f' as u32) || ('A' as u32 <= c as u32 && c as u32 <= 'F' as u32)
}

fn is_hexdigit(c: char) -> (r: bool)
    ensures
        r == spec_is_hexdigit(c),
{
    let u: u32 = c as u32;
    ('0' as u32 <= u && u <= '9' as u32) || ('a' as u32 <= u && u <= 'f' as u32) || ('A' as u32
        <= u && u <= 'F' as u32)
}

/// An ASCII letter or digit.
pub open spec fn spec_is_ascii_alnum(c: char) -> bool {
    ('0' as u32 <= c as u32 && c as u32 <= '9' as u32) || ('a' as u32 <= c as u32 && c as u32
        <= 'z' as u32) || ('A' as u32 <= c as u32 && c as u32 <= 'Z' as u32)
}

/// A character allowed in a reply token: ASCII alphanumeric, underscore, or
/// hyphen.
pub open spec fn spec_is_token_char(c: char) -> bool {
    spec_is_ascii_alnum(c) || c == '_' || c == '-'
}

fn is_token_char(c: char) -> (r: bool)
    ensures
        r == spec_is_token_char(c),
{
    let u: u32 = c as u32;
    ('0' as u32 <= u && u <= '9' as u32) || ('a' as u32 <= u && u <= 'z' as u32) || ('A' as u32
        <= u && u <= 'Z' as u32) || c == '_' || c == '-'
}

/// The rules a `TextValidator` enforces, as mathematical values.
pub ghost struct TextRules {
    pub max_length: usize,
    pub min_length: usize,
    pub forbidden: Seq<Seq<char>>,
    pub allow_empty: bool,
}

/// The built-in forbidden words.
pub open spec fn spec_default_forbidden() -> Seq<Seq<char>> {
    seq!["spam"@, "垃圾"@, "廣告"@]
}

/// The default rules: up to two thousand characters, empty input allowed,
/// and the built-in forbidden words.
pub open spec fn spec_default_rules() -> TextRules {
    TextRules {
        max_length: 2000,
        min_length: 0,
        forbidden: spec_default_forbidden(),
        allow_empty: true,
    }
}

/// The validation verdict for `text` under rules `r`: emptiness first, then
/// the character-count bounds, then forbidden words looked for anywhere in
/// the lowercased text, then control characters.
pub open spec fn spec_text_validate(r: TextRules, text: Seq<char>) -> Result<(), ValidationError> {
    if text.len() == 0 {
        if r.allow_empty {
            Ok(())
        } else {
            Err(ValidationError::Empty)
        }
    } else if text.len() > r.max_length {
        Err(ValidationError::TooLong { max_length: r.max_length, actual: text.len() as usize })
    } else if text.len() < r.min_length {
        Err(ValidationError::TooShort { min_length: r.min_length, actual: text.len() as usize })
    } else if exists|i: int|
        0 <= i < r.forbidden.len() && spec_contains_seq(lower_of(text), #[trigger] r.forbidden[i]) {
        Err(ValidationError::Forbidden)
    } else if exists|i: int| 0 <= i < text.len() && spec_is_bad_control(#[trigger] text[i]) {
        Err(ValidationError::InvalidCharacters)
    } else {
        Ok(())
    }
}

/// Validates message text against length bounds, forbidden words, and
/// control characters.
pub struct TextValidator {
    max_length: usize,
    min_length: usize,
    forbidden_words: Vec<String>,
    allow_empty: bool,
}

impl View for TextValidator {
    type V = TextRules;

    closed spec fn view(&self) -> TextRules {
        TextRules {
            max_length: self.max_length,
            min_length: self.min_length,
            forbidden: self.forbidden_words@.map_values(|w: String| w@),
            allow_empty: self.allow_empty,
        }
    }
}

impl Default for TextValidator {
    /// The default validator, `spec_default_rules`.
    fn default() -> (r: Self)
        ensures
            r@ == spec_default_rules(),
    {
        let mut forbidden_words: Vec<String> = Vec::new();
        forbidden_words.push(String::from_str("spam"));
        forbidden_words.push(String::from_str("垃圾"));
        forbidden_words.push(String::from_str("廣告"));
        let r = TextValidator { max_length: 2000, min_length: 0, forbidden_words, allow_empty: true };
        proof {
            assert(r@.forbidden =~= spec_default_forbidden());
        }
        r
    }
}

impl TextValidator {
    /// A validator with the default rules.
    pub fn new() -> (r: Self)
        ensures
            r@ == spec_default_rules(),
    {
        Self::default()
    }

    /// The same rules with a new maximum character count.
    pub fn max_length(self, max_length: usize) -> (r: Self)
        ensures
            r@ == (TextRules {
                max_length,
                min_length: self@.min_length,
                forbidden: self@.forbidden,
                allow_empty: self@.allow_empty,
            }),
    {
        TextValidator {
            max_length,
            min_length: self.min_length,
            forbidden_words: self.forbidden_words,
            allow_empty: self.allow_empty,
        }
    }

    /// The same rules with a new minimum character count.
    pub fn min_length(self, min_length: usize) -> (r: Self)
        ensures
            r@ == (TextRules {
                max_length: self@.max_length,
                min_length,
                forbidden: self@.forbidden,
                allow_empty: self@.allow_empty,
            }),
    {
        TextValidator {
            max_length: self.max_length,
            min_length,
            forbidden_words: self.forbidden_words,
            allow_empty: self.allow_empty,
        }
    }

    /// The same rules with one more forbidden word, stored lowercased.
    pub fn add_forbidden_word(self, word: &str) -> (r: Self)
        ensures
            r@ == (TextRules {
                max_length: self@.max_length,
                min_length: self@.min_length,
                forbidden: self@.forbidden.push(lower_of(word@)),
                allow_empty: self@.allow_empty,
            }),
    {
        let mut forbidden_words: Vec<String> = self.forbidden_words;
        forbidden_words.push(to_lowercase(word));
        let r = TextValidator {
            max_length: self.max_length,
            min_length: self.min_length,
            forbidden_words,
            allow_empty: self.allow_empty,
        };
        proof {
            assert(r@.forbidden =~= self@.forbidden.push(lower_of(word@)));
        }
        r
    }

    /// The same rules with emptiness allowed or rejected.
    pub fn allow_empty(self, allow: bool) -> (r: Self)
        ensures
            r@ == (TextRules {
                max_length: self@.max_length,
                min_length: self@.min_length,
                forbidden: self@.forbidden,
                allow_empty: allow,
            }),
    {
        TextValidator {
            max_length: self.max_length,
            min_length: self.min_length,
            forbidden_words: self.forbidden_words,
            allow_empty: allow,
        }
    }

    /// Check `text` against the rules; the verdict is exactly
    /// `spec_text_validate`.
    pub fn validate(&self, text: &str) -> (r: Result<(), ValidationError>)
        ensures
            r == spec_text_validate(self@, text@),
    {
        if text.is_empty() {
            if self.allow_empty {
                return Ok(());
            } else {
                return Err(ValidationError::Empty);
            }
        }
        let text_len: usize = text.unicode_len();
        if text_len > self.max_length {
            return Err(
                ValidationError::TooLong { max_length: self.max_length, actual: text_len },
            );
        }
        if text_len < self.min_length {
            return Err(
                ValidationError::TooShort { min_length: self.min_length, actual: text_len },
            );
        }
        let text_lower: String = to_lowercase(text);
        let nf: usize = self.forbidden_words.len();
        proof {
            assert(self@.forbidden.len() == self.forbidden_words@.len());
        }
        let mut i: usize = 0;
        while i < nf
            invariant
                i <= nf,
                nf == self.forbidden_words@.len(),
                nf == self@.forbidden.len(),
                text@.len() != 0,
                text@.len() <= self@.max_length,
                text@.len() >= self@.min_length,
                text_lower@ == lower_of(text@),
                forall|j: int|
                    0 <= j < i ==> !spec_contains_seq(lower_of(text@), #[trigger] self@.forbidden[j]),
        decreases nf - i,
        {
            if str_contains(text_lower.as_str(), self.forbidden_words[i].as_str()) {
                proof {
                    assert(spec_contains_seq(lower_of(text@), self@.forbidden[i as int]));
                }
                return Err(ValidationError::Forbidden);
            }
            i += 1;
        }
        let cv: Vec<char> = chars_vec(text);
        let n: usize = cv.len();
        let mut k: usize = 0;
        while k < n
            invariant
                k <= n,
                n == text@.len(),
                cv@ == text@,
                text@.len() != 0,
                text@.len() <= self@.max_length,
                text@.len() >= self@.min_length,
                !(exists|j: int|
                    0 <= j < self@.forbidden.len() && spec_contains_seq(
                        lower_of(text@),
                        #[trigger] self@.forbidden[j],
                    )),
                forall|j: int| 0 <= j < k ==> !spec_is_bad_control(#[trigger] text@[j]),
            decreases n - k,
        {
            if is_bad_control(cv[k]) {
                return Err(ValidationError::InvalidCharacters);
            }
            k += 1;
        }
        Ok(())
    }
}

/// The verdict for a platform user id: nonempty, exactly thirty-three bytes
/// on the wire, a literal `U`, then hexadecimal digits.
pub open spec fn spec_validate_user_id(s: Seq<char>) -> Result<(), ValidationError> {
    if s.len() == 0 {
        Err(ValidationError::Empty)
    } else if vstd::utf8::encode_utf8(s).len() != 33 {
        Err(ValidationError::InvalidCharacters)
    } else if s[0] != 'U' {
        Err(ValidationError::InvalidCharacters)
    } else if exists|i: int| 1 <= i < s.len() && !spec_is_hexdigit(#[trigger] s[i]) {
        Err(ValidationError::InvalidCharacters)
    } else {
        Ok(())
    }
}

/// Validates platform user ids.
pub struct UserIdValidator;

impl UserIdValidator {
    /// Check a user id; the verdict is exactly `spec_validate_user_id`.
    pub fn validate(user_id: &str) -> (r: Result<(), ValidationError>)
        ensures
            r == spec_validate_user_id(user_id@),
    {
        if user_id.is_empty() {
            return Err(ValidationError::Empty);
        }
        proof {
            assert(user_id.spec_bytes() == vstd::utf8::encode_utf8(user_id@));
        }
        if user_id.as_bytes().len() != 33 {
            return Err(ValidationError::InvalidCharacters);
        }
        let n: usize = user_id.unicode_len();
        if user_id.get_char(0) != 'U' {
            return Err(ValidationError::InvalidCharacters);
        }
        let mut i: usize = 1;
        while i < n
            invariant
                1 <= i <= n,
                n == user_id@.len(),
                forall|j: int| 1 <= j < i ==> spec_is_hexdigit(#[trigger] user_id@[j]),
            decreases n - i,
        {
            if !is_hexdigit(user_id.get_char(i)) {
                return Err(ValidationError::InvalidCharacters);
            }
            i += 1;
        }
        Ok(())
    }
}

/// The verdict for a reply token: nonempty, between ten and one hundred
/// bytes on the wire, made of ASCII alphanumerics, underscores, and hyphens.
pub open spec fn spec_validate_reply_token(s: Seq<char>) -> Result<(), ValidationError> {
    let byte_len = vstd::utf8::encode_utf8(s).len();
    if s.len() == 0 {
        Err(ValidationError::Empty)
    } else if byte_len < 10 || byte_len > 100 {
        Err(ValidationError::TooLong { max_length: 100, actual: byte_len as usize })
    } else if exists|i: int| 0 <= i < s.len() && !spec_is_token_char(#[trigger] s[i]) {
        Err(ValidationError::InvalidCharacters)
    } else {
        Ok(())
    }
}

/// Validates the reply tokens that correlate replies with inbound events.
pub struct ReplyTokenValidator;

impl ReplyTokenValidator {
    /// Check a reply token; the verdict is exactly
    /// `spec_validate_reply_token`.
    pub fn validate(reply_token: &str) -> (r: Result<(), ValidationError>)
        ensures
            r == spec_validate_reply_token(reply_token@),
    {
        if reply_token.is_empty() {
            return Err(ValidationError::Empty);
        }
        proof {
            assert(reply_token.spec_bytes() == vstd::utf8::encode_utf8(reply_token@));
        }
        let len: usize = reply_token.as_bytes().len();
        if len < 10 || len > 100 {
            return Err(ValidationError::TooLong { max_length: 100, actual: len });
        }
        let n: usize = reply_token.unicode_len();
        let mut i: usize = 0;
        while i < n
            invariant
                i <= n,
                n == reply_token@.len(),
                reply_token@.len() != 0,
                10 <= vstd::utf8::encode_utf8(reply_token@).len() <= 100,
                forall|j: int| 0 <= j < i ==> spec_is_token_char(#[trigger] reply_token@[j]),
            decreases n - i,
        {
            if !is_token_char(reply_token.get_char(i)) {
                return Err(ValidationError::InvalidCharacters);
            }
            i += 1;
        }
        Ok(())
    }
}

/// The masked form of a channel token: all asterisks when short, otherwise
/// its first four characters and a fixed tail.
pub open spec fn spec_mask_channel_token(s: Seq<char>) -> Seq<char> {
    if s.len() <= 8 {
        spec_stars(s.len())
    } else {
        s.subrange(0, 4) + "...****"@
    }
}

/// The masked form of a user id: all asterisks when short, otherwise its
/// first three and last three characters around an ellipsis.
pub open spec fn spec_mask_user_id(s: Seq<char>) -> Seq<char> {
    if s.len() <= 6 {
        spec_stars(s.len())
    } else {
        s.subrange(0, 3) + "..."@ + s.subrange(s.len() - 3, s.len() as int)
    }
}

/// The masked form of an email address, split at its first `@`; an address
/// without one is fully masked.
pub open spec fn spec_mask_email(s: Seq<char>) -> Seq<char> {
    let a = spec_find_char(s, '@');
    if a == s.len() {
        spec_stars(s.len())
    } else if a <= 2 {
        "*@"@ + s.subrange(a, s.len() as int)
    } else {
        s.subrange(0, 1) + "***@"@ + s.subrange(a + 1, s.len() as int)
    }
}

/// The masked form of a phone number: all asterisks when short, otherwise
/// its first two and last two digits around asterisks.
pub open spec fn spec_mask_phone(s: Seq<char>) -> Seq<char> {
    if s.len() <= 4 {
        spec_stars(s.len())
    } else {
        s.subrange(0, 2) + "***"@ + s.subrange(s.len() - 2, s.len() as int)
    }
}

/// Masks sensitive values so they can be logged.
pub struct SensitiveDataMasker;

impl SensitiveDataMasker {
    /// Mask a channel access token, keeping only its first four characters.
    pub fn mask_channel_token(token: &str) -> (r: String)
        ensures
            r@ == spec_mask_channel_token(token@),
    {
        let n: usize = token.unicode_len();
        if n <= 8 {
            star_string(n)
        } else {
            let mut r: String = String::from_str(token.substring_char(0, 4));
            r.append("...****");
            r
        }
    }

    /// Mask a user id, keeping its first three and last three characters.
    pub fn mask_user_id(user_id: &str) -> (r: String)
        ensures
            r@ == spec_mask_user_id(user_id@),
    {
        let n: usize = user_id.unicode_len();
        if n <= 6 {
            star_string(n)
        } else {
            let mut r: String = String::from_str(user_id.substring_char(0, 3));
            r.append("...");
            r.append(user_id.substring_char(n - 3, n));
            r
        }
    }

    /// Mask an email address, keeping at most one character of the local
    /// part and the domain.
    pub fn mask_email(email: &str) -> (r: String)
        ensures
            r@ == spec_mask_email(email@),
    {
        let cv: Vec<char> = chars_vec(email);
        let n: usize = email.unicode_len();
        match index_of_char(&cv, '@') {
            None => {
                proof {
                    lemma_find_char_at(email@, '@', email@.len() as int);
                }
                star_string(n)
            },
            Some(a) => {
                proof {
                    lemma_find_char_at(email@, '@', a as int);
                }
                if a <= 2 {
                    let mut r: String = String::from_str("*@");
                    r.append(email.substring_char(a, n));
                    r
                } else {
                    let mut r: String = String::from_str(email.substring_char(0, 1));
                    r.append("***@");
                    r.append(email.substring_char(a + 1, n));
                    r
                }
            },
        }
    }

    /// Mask a phone number, keeping its first two and last two digits.
    pub fn mask_phone(phone: &str) -> (r: String)
        ensures
            r@ == spec_mask_phone(phone@),
    {
        let n: usize = phone.unicode_len();
        if n <= 4 {
            star_string(n)
        } else {
            let mut r: String = String::from_str(phone.substring_char(0, 2));
            r.append("***");
            r.append(phone.substring_char(n - 2, n));
            r
        }
    }
}

} // verus!
