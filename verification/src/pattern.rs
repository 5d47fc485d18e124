use vstd::prelude::*;

verus! {

/// The text of capture group 1 of the first match of the regular expression
/// `pattern` in `text` (`regex::Regex::captures`); none when nothing matches or
/// the pattern does not compile.
pub uninterp spec fn regex_first_capture(pattern: Seq<char>, text: Seq<char>) -> Option<Seq<char>>;

/// The texts of all successive non-overlapping matches of `pattern` in `text`
/// (`regex::Regex::find_iter`); none when the pattern does not compile.
pub uninterp spec fn regex_all_matches(pattern: Seq<char>, text: Seq<char>) -> Seq<Seq<char>>;

/// The texts of capture group 1 of all successive non-overlapping matches of
/// `pattern` in `text` (`regex::Regex::captures_iter`), the empty text where the
/// group took no part; none when the pattern does not compile.
pub uninterp spec fn regex_all_captures(pattern: Seq<char>, text: Seq<char>) -> Seq<Seq<char>>;

/// `regex::Regex::captures`: group 1 of the first match.
#[verifier::external_body]
pub(crate) fn first_capture(pattern: &str, text: &str) -> (group: Option<String>)
    ensures
        group.deep_view() == regex_first_capture(pattern@, text@),
{
    let re = match regex::Regex::new(pattern) {
        Ok(r) => r,
        Err(_) => return None,
    };
    re.captures(text).and_then(|c| c.get(1)).map(|m| m.as_str().to_string())
}

/// `regex::Regex::find_iter`: the texts of all matches, in order.
#[verifier::external_body]
pub(crate) fn all_matches(pattern: &str, text: &str) -> (found: Vec<String>)
    ensures
        found.deep_view() == regex_all_matches(pattern@, text@),
{
    let re = match regex::Regex::new(pattern) {
        Ok(r) => r,
        Err(_) => return Vec::new(),
    };
    re.find_iter(text).map(|m| m.as_str().to_string()).collect()
}

/// `regex::Regex::captures_iter`: group 1 of every match, in order.
#[verifier::external_body]
pub(crate) fn all_captures(pattern: &str, text: &str) -> (found: Vec<String>)
    ensures
        found.deep_view() == regex_all_captures(pattern@, text@),
{
    let re = match regex::Regex::new(pattern) {
        Ok(r) => r,
        Err(_) => return Vec::new(),
    };
    re.captures_iter(text).map(|c| c.get(1).map_or(String::new(), |m| m.as_str().to_string())).collect()
}

} // verus!
