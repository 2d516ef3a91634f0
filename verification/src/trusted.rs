//! What this crate takes on trust: contracts for functions of the standard
//! library and of other crates, which Verus believes without proof.

use vstd::prelude::*;

use crate::text::{contains_any, contains_text, texts};

verus! {

/// The lower-case form of a text, as `str::to_lowercase` computes it.
pub uninterp spec fn lowercase_of(text: Seq<char>) -> Seq<char>;

/// Whether a character has the Unicode property `White_Space`, as
/// `char::is_whitespace` reports it.
pub uninterp spec fn unicode_whitespace(c: char) -> bool;

/// Whether a character is alphabetic or numeric in Unicode's terms, as
/// `char::is_alphanumeric` reports it.
pub uninterp spec fn unicode_alphanumeric(c: char) -> bool;

/// `String::push` appends the character to the end of the string.
pub assume_specification[ String::push ](s: &mut String, ch: char)
    ensures
        final(s)@ == old(s)@.push(ch),
;

/// `str::to_lowercase` returns the lower-case form of the slice as a new
/// string; the result depends on the characters of the slice alone.
pub assume_specification[ str::to_lowercase ](s: &str) -> (lower: String)
    ensures
        lower@ == lowercase_of(s@),
;

/// `char::is_whitespace` tells whether the character has the property
/// `White_Space`; the answer depends on the character alone.
pub assume_specification[ char::is_whitespace ](c: char) -> (white: bool)
    ensures
        white == unicode_whitespace(c),
;

/// `char::is_alphanumeric` tells whether the character is alphabetic or
/// numeric; the answer depends on the character alone.
pub assume_specification[ char::is_alphanumeric ](c: char) -> (alnum: bool)
    ensures
        alnum == unicode_alphanumeric(c),
;

/// What `evalexpr::eval_number` makes of an expression that is not
/// `platform_rounded`: the number it evaluates to, as `Display` writes it, or
/// the message of the error.
pub uninterp spec fn evalexpr_number(expression: Seq<char>) -> Result<Seq<char>, Seq<char>>;

/// The matches of a regular expression in a text, as the crate `regex` finds
/// them: the successive non-overlapping matches, from the left, each as the
/// text it covers. `None` where the pattern does not compile.
pub uninterp spec fn regex_matches(pattern: Seq<char>, haystack: Seq<char>) -> Option<
    Seq<Seq<char>>,
>;

/// The longest expression, in characters, that is handed to `evalexpr`. The
/// evaluator calls itself as deep as the expression nests, and an expression
/// can nest as deep as it is long: a run of minus signs does.
pub const MAX_EXPRESSION_CHARS: usize = 256;

/// Names of functions that `evalexpr` has built in and that can panic:
/// absolute value and the two shifts compute on integers without a check for
/// overflow, and `str::substring` cuts a string at byte offsets, which may
/// fall inside a character.
pub open spec fn unchecked_builtins() -> Seq<Seq<char>> {
    seq!["math::abs"@, "shl"@, "shr"@, "str::substring"@]
}

/// Whether an expression holds the sign of exponentiation or the name of a
/// function under `math::`. These `evalexpr` computes with floating-point
/// functions of which the standard library says that their precision varies
/// from platform to platform: what they give is no function of the
/// expression alone.
pub open spec fn platform_rounded(expression: Seq<char>) -> bool {
    contains_text(expression, "^"@) || contains_text(expression, "math::"@)
}

/// Calls `evalexpr::eval_number`, which evaluates the expression in an empty
/// context and takes an integer result for a number too. The number comes
/// back as `Display` writes it, an error as its message. Unless the
/// expression is `platform_rounded`, the outcome depends on the expression
/// alone; of the outcome for one that is, nothing is said. Left out are
/// expressions that hold the name of a built-in function that can panic, and
/// expressions so long that the evaluator's recursion could exhaust the
/// stack.
#[verifier::external_body]
pub(crate) fn eval_number(expression: &str) -> (outcome: Result<String, String>)
    requires
        expression@.len() <= MAX_EXPRESSION_CHARS,
        !contains_any(expression@, unchecked_builtins()),
    ensures
        !platform_rounded(expression@) ==> match outcome {
            Ok(value) => evalexpr_number(expression@) == Ok::<Seq<char>, Seq<char>>(value@),
            Err(message) => evalexpr_number(expression@) == Err::<Seq<char>, Seq<char>>(
                message@,
            ),
        },
{
    match evalexpr::eval_number(expression) {
        Ok(value) => Ok(format!("{}", value)),
        Err(error) => Err(format!("{}", error)),
    }
}

/// Compiles the pattern with `regex::Regex::new` and collects what
/// `Regex::find_iter` yields on the text, each match as the text that
/// `Match::as_str` gives. The outcome depends on pattern and text alone.
#[verifier::external_body]
pub(crate) fn find_matches(pattern: &str, haystack: &str) -> (found: Option<Vec<String>>)
    ensures
        match found {
            Some(matches) => regex_matches(pattern@, haystack@) == Some(texts(matches@)),
            None => regex_matches(pattern@, haystack@) is None,
        },
{
    match regex::Regex::new(pattern) {
        Ok(regex) => Some(regex.find_iter(haystack).map(|m| m.as_str().to_string()).collect()),
        Err(_) => None,
    }
}

} // verus!
