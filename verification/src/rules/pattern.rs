//! Regular expressions.
use vstd::prelude::*;

verus! {

/// `regex::Regex`, a compiled regular expression.
#[verifier::external_type_specification]
#[verifier::external_body]
pub struct ExRegex(regex::Regex);

/// The texts in which a compiled expression finds a match.
pub uninterp spec fn regex_language(re: regex::Regex) -> Set<Seq<char>>;

/// What `regex::Regex::new` makes of a pattern: the texts in which the compiled expression
/// finds a match, or the error's message.
pub uninterp spec fn regex_compile(pattern: Seq<char>) -> Result<Set<Seq<char>>, Seq<char>>;

/// `regex::Regex::new` compiles a pattern, a function of the pattern's text alone.
#[verifier::external_body]
pub(crate) fn compile(pattern: &str) -> (res: Result<regex::Regex, String>)
    ensures
        match res {
            Ok(re) => regex_compile(pattern@) == Ok::<Set<Seq<char>>, Seq<char>>(regex_language(re)),
            Err(message) => regex_compile(pattern@) == Err::<Set<Seq<char>>, Seq<char>>(message@),
        },
{
    match regex::Regex::new(pattern) {
        Ok(re) => Ok(re),
        Err(e) => Err(e.to_string()),
    }
}

/// `regex::Regex::is_match` tells whether the expression finds a match in a text.
#[verifier::external_body]
pub(crate) fn finds(re: &regex::Regex, text: &str) -> (res: bool)
    ensures
        res == regex_language(*re).contains(text@),
{
    re.is_match(text)
}

} // verus!
