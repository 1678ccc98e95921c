//! The pattern matcher: a compiled pattern shared read-only by every
//! worker, tested against encoded public keys as raw ASCII bytes.

use vstd::prelude::*;

verus! {

/// Whether a pattern text compiles in the matcher's grammar (byte-oriented,
/// no Unicode case folding): a function of the pattern text alone.
pub uninterp spec fn pattern_valid(p: Seq<char>) -> bool;

/// Whether a compiled pattern matches somewhere within a text: a function of
/// the pattern text and the searched bytes alone.
pub uninterp spec fn pattern_matches(p: Seq<char>, text: Seq<u8>) -> bool;

#[verifier::external_type_specification]
#[verifier::external_body]
pub struct ExRegex(regex::Regex);

/// The error for a pattern that does not compile, carrying the compiler's
/// message.
pub struct PatternError {
    pub message: String,
}

impl PatternError {
    /// The compiler's message, for display by a caller.
    pub fn describe(&self) -> (m: &String)
        ensures
            m@ == self.message@,
    {
        &self.message
    }
}

/// A pattern compiled once before the search begins, then only read.
pub struct Matcher {
    pattern: String,
    re: regex::Regex,
}

impl Matcher {
    /// The pattern text this matcher was compiled from.
    pub closed spec fn pattern(self) -> Seq<char> {
        self.pattern@
    }

    /// Relies on `regex::RegexBuilder::new(..).unicode(false).build()`:
    /// compilation succeeds exactly on the valid patterns, and the stored
    /// regex is the compiled form of the stored pattern text.
    #[verifier::external_body]
    pub fn new(pattern: &str) -> (r: Result<Matcher, PatternError>)
        ensures
            r is Ok <==> pattern_valid(pattern@),
            r matches Ok(m) ==> m.pattern() == pattern@,
    {
        match regex::RegexBuilder::new(pattern).unicode(false).build() {
            Ok(re) => Ok(Matcher { pattern: pattern.to_string(), re }),
            Err(e) => Err(PatternError { message: e.to_string() }),
        }
    }

    /// Relies on `regex::Regex::is_match`: whether the pattern matches
    /// anywhere within the text, a function of pattern and text alone.
    #[verifier::external_body]
    pub fn is_match(&self, text: &Vec<u8>) -> (r: bool)
        requires
            forall|i: int| 0 <= i < text@.len() ==> text@[i] < 128,
        ensures
            r == pattern_matches(self.pattern(), text@),
    {
        self.re.is_match(core::str::from_utf8(text.as_slice()).unwrap_or(""))
    }
}

} // verus!
