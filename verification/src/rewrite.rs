//! The transform engine adapter for the pattern rewrite, and the baseline
//! identity transform.
//!
//! A `PatternRewrite` holds the pattern, the replacement and the match
//! limit fixed at construction; applying it calls the regex engine behind a
//! trusted wrapper whose result is named, so every caller's contract can
//! speak of the rewritten text exactly.

use vstd::prelude::*;

verus! {

/// Whether a pattern is one the regex engine accepts.
pub uninterp spec fn pattern_ok(pat: Seq<char>) -> bool;

/// Whether a byte sequence is well-formed UTF-8.
pub uninterp spec fn is_utf8(text: Seq<u8>) -> bool;

/// The text that the regex engine produces when it replaces matches of
/// `pat` in `text` with `rep`; `limit` 0 replaces every match, any other
/// value only the first `limit` matches.
pub uninterp spec fn rewrite_of(pat: Seq<char>, rep: Seq<char>, limit: nat, text: Seq<u8>) -> Seq<
    u8,
>;

/// Relies on regex::Regex::new: whether a pattern compiles depends on the
/// pattern string alone.
#[verifier::external_body]
fn check_pattern(pat: &str) -> (r: bool)
    ensures
        r == pattern_ok(pat@),
{
    regex::Regex::new(pat).is_ok()
}

/// Relies on regex::Regex::new and regex::Regex::replacen: for a pattern
/// the engine accepts, the replacement output depends only on the pattern,
/// the replacement, the limit and the input text; and on
/// core::str::from_utf8, which accepts exactly the well-formed UTF-8 byte
/// sequences.
#[verifier::external_body]
fn apply_rewrite(pat: &str, rep: &str, limit: usize, text: &[u8]) -> (r: Option<Vec<u8>>)
    requires
        pattern_ok(pat@),
    ensures
        (r is Some) <==> is_utf8(text@),
        r matches Some(out) ==> out@ == rewrite_of(pat@, rep@, limit as nat, text@),
{
    let s = match core::str::from_utf8(text) {
        Ok(s) => s,
        Err(_) => return None,
    };
    match regex::Regex::new(pat) {
        Ok(re) => Some(re.replacen(s, limit, rep).into_owned().into_bytes()),
        Err(_) => None,
    }
}

/// The reason a transform was refused.
#[derive(Clone, Copy, PartialEq, Eq, Structural, Debug)]
pub enum TransformError {
    /// The regex engine does not accept the configured pattern.
    BadPattern,
    /// The input bytes are not well-formed UTF-8.
    NotUtf8,
}

/// A rewrite with its pattern, replacement and match limit fixed at
/// construction.
pub struct PatternRewrite {
    pattern: String,
    replacement: String,
    limit: usize,
}

impl PatternRewrite {
    /// The configured pattern.
    pub closed spec fn spec_pattern(self) -> Seq<char> {
        self.pattern@
    }

    /// The configured replacement.
    pub closed spec fn spec_replacement(self) -> Seq<char> {
        self.replacement@
    }

    /// The configured match limit (0 means all matches).
    pub closed spec fn spec_limit(self) -> nat {
        self.limit as nat
    }

    /// What applying this rewrite to a text yields.
    pub open spec fn spec_transform(self, text: Seq<u8>) -> Seq<u8> {
        rewrite_of(self.spec_pattern(), self.spec_replacement(), self.spec_limit(), text)
    }

    /// Fixes a pattern, a replacement and a match limit. Whether the engine
    /// accepts the pattern surfaces at the first application.
    pub fn new(pattern: String, replacement: String, limit: usize) -> (r: PatternRewrite)
        ensures
            r.spec_pattern() == pattern@,
            r.spec_replacement() == replacement@,
            r.spec_limit() == limit as nat,
    {
        PatternRewrite { pattern, replacement, limit }
    }

    /// Applies the rewrite: replaces matches of the pattern in `text` with
    /// the replacement, up to the limit. Refuses a pattern the engine does
    /// not accept and input that is not UTF-8.
    pub fn transform(&self, text: &[u8]) -> (r: Result<Vec<u8>, TransformError>)
        ensures
            (r is Ok) <==> (pattern_ok(self.spec_pattern()) && is_utf8(text@)),
            r matches Ok(out) ==> out@ == self.spec_transform(text@),
            r == Err::<Vec<u8>, TransformError>(TransformError::BadPattern) <==> !pattern_ok(
                self.spec_pattern(),
            ),
            r == Err::<Vec<u8>, TransformError>(TransformError::NotUtf8) <==> (pattern_ok(
                self.spec_pattern(),
            ) && !is_utf8(text@)),
    {
        if !check_pattern(self.pattern.as_str()) {
            return Err(TransformError::BadPattern);
        }
        match apply_rewrite(
            self.pattern.as_str(),
            self.replacement.as_str(),
            self.limit,
            text,
        ) {
            Some(out) => Ok(out),
            None => Err(TransformError::NotUtf8),
        }
    }
}

/// The pattern of the module's fixed rewrite: a word of exactly four
/// letters.
pub open spec fn default_pattern() -> Seq<char> {
    "\\b\\w{4}\\b"@
}

/// The replacement of the module's fixed rewrite.
pub open spec fn default_replacement() -> Seq<char> {
    "rust"@
}

/// The fixed rewrite the plain boundary entry points use: the first word of
/// exactly four letters becomes "rust".
pub fn default_rewrite() -> (r: PatternRewrite)
    ensures
        r.spec_pattern() == default_pattern(),
        r.spec_replacement() == default_replacement(),
        r.spec_limit() == 1,
{
    PatternRewrite::new(String::from_str("\\b\\w{4}\\b"), String::from_str("rust"), 1)
}

/// The identity transform: the baseline strategy, returning its input
/// unchanged.
pub fn identity(text: &[u8]) -> (r: Vec<u8>)
    ensures
        r@ == text@,
{
    let mut out: Vec<u8> = Vec::new();
    let mut k: usize = 0;
    while k < text.len()
        invariant
            k <= text@.len(),
            out@ == text@.subrange(0, k as int),
        decreases text@.len() - k,
    {
        out.push(text[k]);
        proof {
            assert(out@ =~= text@.subrange(0, k + 1));
        }
        k = k + 1;
    }
    proof {
        assert(out@ =~= text@);
    }
    out
}

/// The computing core of the native rewrite entry point: applies the fixed
/// rewrite to the input text.
pub fn transform(input: &[u8]) -> (r: Result<Vec<u8>, TransformError>)
    ensures
        (r is Ok) <==> (pattern_ok(default_pattern()) && is_utf8(input@)),
        r matches Ok(out) ==> out@ == rewrite_of(
            default_pattern(),
            default_replacement(),
            1,
            input@,
        ),
        r == Err::<Vec<u8>, TransformError>(TransformError::BadPattern) <==> !pattern_ok(
            default_pattern(),
        ),
        r == Err::<Vec<u8>, TransformError>(TransformError::NotUtf8) <==> (pattern_ok(
            default_pattern(),
        ) && !is_utf8(input@)),
{
    let rw = default_rewrite();
    rw.transform(input)
}

/// The computing core of the native no-op entry point: hands back a fresh
/// copy of its input.
pub fn noop(input: &[u8]) -> (r: Vec<u8>)
    ensures
        r@ == input@,
{
    identity(input)
}

} // verus!
