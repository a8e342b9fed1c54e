//! Trusted items for the `regex` crate. Positions are
//! counted in characters. Each result is named: it depends on the pattern,
//! the haystack (and the replacement) alone. A pattern that does not compile
//! gives the compiler's error message.

use vstd::prelude::*;
use vstd::string::*;

verus! {

/// What `regex::escape` returns for a string.
pub uninterp spec fn regex_escaped(s: Seq<char>) -> Seq<char>;

/// Calls `regex::escape`. The contract only names the result.
#[verifier::external_body]
pub(crate) fn regex_escape(s: &str) -> (r: String)
    ensures
        r@ == regex_escaped(s@),
{
    regex::escape(s)
}

/// `Regex::new(pattern)` then `Regex::find(hay)`: the error message when the
/// pattern does not compile, else the start and end (in characters) of the
/// leftmost-first match, if any.
pub uninterp spec fn regex_first_match(pattern: Seq<char>, hay: Seq<char>) -> Result<
    Option<(int, int)>,
    Seq<char>,
>;

/// The view of a find result.
pub open spec fn find_view(r: Result<Option<(usize, usize)>, String>) -> Result<
    Option<(int, int)>,
    Seq<char>,
> {
    match r {
        Ok(Some((s, e))) => Ok(Some((s as int, e as int))),
        Ok(None) => Ok(None),
        Err(m) => Err(m@),
    }
}

/// Compiles `pattern` with `Regex::new` and calls `Regex::find` on `hay`;
/// the match's byte offsets are converted to character positions. The
/// contract names the result and states what the crate documents: a match
/// lies within the haystack and does not end before it starts.
#[verifier::external_body]
pub(crate) fn regex_find(pattern: &str, hay: &str) -> (r: Result<Option<(usize, usize)>, String>)
    ensures
        find_view(r) == regex_first_match(pattern@, hay@),
        r matches Ok(Some((s, e))) ==> s <= e <= hay@.len(),
{
    let re = regex::Regex::new(pattern).map_err(|e| e.to_string())?;
    Ok(re.find(hay).map(|m| (hay[..m.start()].chars().count(), hay[..m.end()].chars().count())))
}

/// `Regex::new(pattern)` then `Regex::captures(hay)`: the error message when
/// the pattern does not compile, else whether there is a match and, if so,
/// the text of capture group 1 when it took part in the match.
pub uninterp spec fn regex_first_group(pattern: Seq<char>, hay: Seq<char>) -> Result<
    Option<Option<Seq<char>>>,
    Seq<char>,
>;

/// The view of a captures result.
pub open spec fn group_view(r: Result<Option<Option<String>>, String>) -> Result<
    Option<Option<Seq<char>>>,
    Seq<char>,
> {
    match r {
        Ok(Some(Some(g))) => Ok(Some(Some(g@))),
        Ok(Some(None)) => Ok(Some(None)),
        Ok(None) => Ok(None),
        Err(m) => Err(m@),
    }
}

/// Compiles `pattern` with `Regex::new` and calls `Regex::captures` on
/// `hay`, keeping group 1. The contract only names the result.
#[verifier::external_body]
pub(crate) fn regex_first_group_of(pattern: &str, hay: &str) -> (r: Result<Option<Option<String>>, String>)
    ensures
        group_view(r) == regex_first_group(pattern@, hay@),
{
    let re = regex::Regex::new(pattern).map_err(|e| e.to_string())?;
    Ok(re.captures(hay).map(|c| c.get(1).map(|g| g.as_str().to_string())))
}

/// `Regex::new(pattern)` then `Regex::replace(hay, rep)`: the error message
/// when the pattern does not compile, else the haystack with its first match
/// replaced by `rep`, where `$` references expand to capture groups.
pub uninterp spec fn regex_replaced(pattern: Seq<char>, hay: Seq<char>, rep: Seq<char>) -> Result<
    Seq<char>,
    Seq<char>,
>;

/// The view of a replace result.
pub open spec fn text_view(r: Result<String, String>) -> Result<Seq<char>, Seq<char>> {
    match r {
        Ok(s) => Ok(s@),
        Err(m) => Err(m@),
    }
}

/// Compiles `pattern` with `Regex::new` and calls `Regex::replace`. The
/// contract only names the result.
#[verifier::external_body]
pub(crate) fn regex_replace(pattern: &str, hay: &str, rep: &str) -> (r: Result<String, String>)
    ensures
        text_view(r) == regex_replaced(pattern@, hay@, rep@),
{
    let re = regex::Regex::new(pattern).map_err(|e| e.to_string())?;
    Ok(re.replace(hay, rep).into_owned())
}

} // verus!
