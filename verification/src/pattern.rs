//! Regular expressions, matched by the `regex` crate. The crate's answers are
//! named, not described: the functions here say how the library reads them.

use vstd::prelude::*;

verus! {

/// `regex::Error`, with which the `regex` crate refuses a pattern; nothing
/// is known of what it holds.
#[verifier::external_type_specification]
#[verifier::external_body]
pub struct ExRegexError(regex::Error);

/// Whether `pattern` matches somewhere in `text`, as the `regex` crate
/// decides it; `None` where the crate does not accept the pattern.
pub uninterp spec fn regex_match(pattern: Seq<char>, text: Seq<char>) -> Option<bool>;

/// What group `group` of `pattern` holds in the first match in `text`, as the
/// `regex` crate finds it: the inner `None` where nothing matches or the
/// group took no part, the outer one where the crate does not accept the
/// pattern.
pub uninterp spec fn regex_capture(pattern: Seq<char>, text: Seq<char>, group: nat) -> Option<
    Option<Seq<char>>,
>;

/// What group `group` of `pattern` holds in each of the successive matches in
/// `text` that do not overlap, as the `regex` crate finds them; `None` where
/// the crate does not accept the pattern.
pub uninterp spec fn regex_captures(pattern: Seq<char>, text: Seq<char>, group: nat) -> Option<
    Seq<Option<Seq<char>>>,
>;

/// `Regex::new` and `Regex::is_match` of the `regex` crate: compiles
/// `pattern` and says whether it matches anywhere in `text`. The contract
/// names the answer and claims nothing else of it.
#[verifier::external_body]
fn regex_is_match(pattern: &str, text: &str) -> (r: Result<bool, regex::Error>)
    ensures
        match r {
            Ok(b) => regex_match(pattern@, text@) == Some(b),
            Err(_) => regex_match(pattern@, text@) is None,
        },
{
    let re = regex::Regex::new(pattern)?;
    Ok(re.is_match(text))
}

/// `Regex::new`, `Regex::captures`, `Captures::get` and `Match::as_str` of
/// the `regex` crate: the text of one group in the first match. The contract
/// names the answer and claims nothing else of it.
#[verifier::external_body]
fn regex_first_capture(pattern: &str, text: &str, group: usize) -> (r: Result<
    Option<String>,
    regex::Error,
>)
    ensures
        match r {
            Ok(found) => regex_capture(pattern@, text@, group as nat) == Some(found.deep_view()),
            Err(_) => regex_capture(pattern@, text@, group as nat) is None,
        },
{
    let re = regex::Regex::new(pattern)?;
    Ok(re.captures(text).and_then(|c| c.get(group)).map(|m| m.as_str().to_string()))
}

/// `Regex::new`, `Regex::captures_iter`, `Captures::get` and `Match::as_str`
/// of the `regex` crate: the text of one group in each successive match.
/// The contract names the answer and claims nothing else of it.
#[verifier::external_body]
fn regex_all_captures(pattern: &str, text: &str, group: usize) -> (r: Result<
    Vec<Option<String>>,
    regex::Error,
>)
    ensures
        match r {
            Ok(found) => regex_captures(pattern@, text@, group as nat) == Some(found.deep_view()),
            Err(_) => regex_captures(pattern@, text@, group as nat) is None,
        },
{
    let re = regex::Regex::new(pattern)?;
    Ok(re.captures_iter(text).map(|c| c.get(group).map(|m| m.as_str().to_string())).collect())
}

/// `pattern` is accepted and matches somewhere in `text`.
pub open spec fn pattern_matches(pattern: Seq<char>, text: Seq<char>) -> bool {
    regex_match(pattern, text) == Some(true)
}

/// The text of group `group` in the first match of `pattern` in `text`;
/// `None` where there is none, or the pattern is not accepted.
pub open spec fn captured(pattern: Seq<char>, text: Seq<char>, group: nat) -> Option<Seq<char>> {
    match regex_capture(pattern, text, group) {
        Some(found) => found,
        None => None,
    }
}

/// The texts in `found`, without the places where there is none.
pub open spec fn present(found: Seq<Option<Seq<char>>>) -> Seq<Seq<char>>
    decreases found.len(),
{
    if found.len() == 0 {
        Seq::empty()
    } else {
        match found.last() {
            Some(t) => present(found.drop_last()).push(t),
            None => present(found.drop_last()),
        }
    }
}

/// The texts of group `group` in the successive matches of `pattern` in
/// `text`, for the matches in which the group took part; none where the
/// pattern is not accepted.
pub open spec fn all_captured(pattern: Seq<char>, text: Seq<char>, group: nat) -> Seq<Seq<char>> {
    match regex_captures(pattern, text, group) {
        Some(found) => present(found),
        None => Seq::empty(),
    }
}

/// Whether `pattern` matches somewhere in `text`. A pattern that the `regex`
/// crate does not accept matches nothing.
pub fn is_match(pattern: &str, text: &str) -> (r: bool)
    ensures
        r == pattern_matches(pattern@, text@),
{
    match regex_is_match(pattern, text) {
        Ok(b) => b,
        Err(_) => false,
    }
}

/// The text of one group in the first match of `pattern` in `text`.
pub fn first_capture(pattern: &str, text: &str, group: usize) -> (r: Option<String>)
    ensures
        r.deep_view() == captured(pattern@, text@, group as nat),
{
    match regex_first_capture(pattern, text, group) {
        Ok(found) => found,
        Err(_) => None,
    }
}

/// The texts in `found`, in order, without the places where there is none.
pub fn present_texts(found: Vec<Option<String>>) -> (r: Vec<String>)
    ensures
        r.deep_view() == present(found.deep_view()),
{
    let mut out: Vec<String> = Vec::new();
    let ghost all = found.deep_view();
    let mut i: usize = 0;
    assert(all.take(0) =~= Seq::<Option<Seq<char>>>::empty());
    assert(out.deep_view() =~= Seq::<Seq<char>>::empty());
    while i < found.len()
        invariant
            i <= found.len(),
            all == found.deep_view(),
            out.deep_view() == present(all.take(i as int)),
        decreases found.len() - i,
    {
        let ghost before = out.deep_view();
        proof {
            let next = all.take(i + 1);
            assert(next.drop_last() =~= all.take(i as int));
            assert(next.last() == found@[i as int].deep_view());
        }
        match &found[i] {
            Some(t) => {
                out.push(t.clone());
                assert(out.deep_view() =~= before.push(t@));
            },
            None => {},
        }
        i += 1;
    }
    assert(all.take(found.len() as int) =~= all);
    out
}

/// The texts of one group in the successive matches of `pattern` in `text`.
pub fn all_captures(pattern: &str, text: &str, group: usize) -> (r: Vec<String>)
    ensures
        r.deep_view() == all_captured(pattern@, text@, group as nat),
{
    match regex_all_captures(pattern, text, group) {
        Ok(found) => present_texts(found),
        Err(_) => {
            let out: Vec<String> = Vec::new();
            assert(out.deep_view() =~= Seq::<Seq<char>>::empty());
            out
        },
    }
}

} // verus!
