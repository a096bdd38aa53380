use vstd::prelude::*;
use vstd::string::StrSliceExecFns;

verus! {

/// True when a path token is the literal standard-input marker `-`.
pub fn is_stdin_marker(token: &str) -> (r: bool)
    ensures
        r == (token@ == seq!['-']),
{
    if token.unicode_len() == 1 {
        let c = token.get_char(0);
        proof {
            if c == '-' {
                assert(token@ =~= seq!['-']);
            }
        }
        c == '-'
    } else {
        false
    }
}

/// Whether a user pattern parses as glob syntax (wildcards well formed,
/// recursive `**` a whole path component, character ranges closed). The
/// answer depends on the pattern string alone.
pub uninterp spec fn glob_pattern_ok(pattern: Seq<char>) -> bool;

/// Relies on glob::Pattern::new: it checks the pattern's syntax without
/// touching the filesystem and rejects exactly the malformed patterns.
#[verifier::external_body]
fn glob_syntax_is_valid(pattern: &str) -> (r: bool)
    ensures
        r == glob_pattern_ok(pattern@),
{
    glob::Pattern::new(pattern).is_ok()
}

/// What pattern expansion does with one user pattern.
#[derive(Clone, Copy, Debug, PartialEq, Eq, Structural)]
pub enum PatternClass {
    /// The literal stdin marker: emitted verbatim as one token, with no
    /// filesystem interaction.
    StdinMarker,
    /// Well-formed glob syntax (a plain filename is a glob with no
    /// wildcard that matches itself): expanded into path tokens.
    ValidGlob,
    /// Malformed glob syntax: one diagnostic, zero tokens, and sibling
    /// patterns are unaffected.
    MalformedGlob,
}

/// Classifies one user pattern. The stdin marker is recognised before
/// any glob parsing happens.
pub fn classify_pattern(pattern: &str) -> (c: PatternClass)
    ensures
        (c is StdinMarker) == (pattern@ == seq!['-']),
        (c is ValidGlob) == (pattern@ != seq!['-'] && glob_pattern_ok(pattern@)),
        (c is MalformedGlob) == (pattern@ != seq!['-'] && !glob_pattern_ok(pattern@)),
{
    if is_stdin_marker(pattern) {
        PatternClass::StdinMarker
    } else if glob_syntax_is_valid(pattern) {
        PatternClass::ValidGlob
    } else {
        PatternClass::MalformedGlob
    }
}

} // verus!
