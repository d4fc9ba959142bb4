//! Regular expressions, compiled by the `regex` crate.
//!
//! What a regular expression matches is named, not restated: the library's
//! contracts speak of these names applied to the pattern text and the haystack.

use vstd::prelude::*;

verus! {

/// The compiled regular expression type of the `regex` crate.
#[verifier::external_type_specification]
#[verifier::external_body]
pub struct ExRegex(regex::Regex);

/// Whether `regex::Regex::new` accepts the pattern.
pub uninterp spec fn regex_compiles(p: Seq<char>) -> bool;

/// The capture groups of the leftmost match of pattern `p` in `t`
/// (`regex::Regex::captures`): `None` when there is no match, otherwise the
/// text of each group, `None` for a group that did not participate.
pub uninterp spec fn regex_captures(p: Seq<char>, t: Seq<char>) -> Option<Seq<Option<Seq<char>>>>;

/// The successive non-overlapping matches of pattern `p` in `t`
/// (`regex::Regex::find_iter`), each as its start byte offset, end byte
/// offset and matched text.
pub uninterp spec fn regex_find_all(p: Seq<char>, t: Seq<char>) -> Seq<(nat, nat, Seq<char>)>;

/// A compiled regular expression with the pattern text it was compiled from.
pub struct Pattern {
    re: regex::Regex,
    source: String,
}

impl Pattern {
    /// The pattern text.
    pub closed spec fn source(&self) -> Seq<char> {
        self.source@
    }
}

/// Views of optional strings.
pub open spec fn opt_views(v: Seq<Option<String>>) -> Seq<Option<Seq<char>>> {
    v.map_values(|o: Option<String>| match o {
        Some(s) => Some(s@),
        None => None,
    })
}

/// Views of match triples.
pub open spec fn match_views(v: Seq<(usize, usize, String)>) -> Seq<(nat, nat, Seq<char>)> {
    v.map_values(|m: (usize, usize, String)| (m.0 as nat, m.1 as nat, m.2@))
}

/// `regex::Regex::new`: compiles `p`; `None` exactly when the crate rejects it.
#[verifier::external_body]
pub fn compile(p: &str) -> (r: Option<Pattern>)
    ensures
        r is Some <==> regex_compiles(p@),
        r matches Some(x) ==> x.source() == p@,
{
    regex::Regex::new(p).ok().map(|re| Pattern { re, source: p.to_string() })
}

/// `regex::Regex::captures`: the capture groups of the leftmost match in `t`.
#[verifier::external_body]
pub fn captures(re: &Pattern, t: &str) -> (r: Option<Vec<Option<String>>>)
    ensures
        r is Some <==> regex_captures(re.source(), t@) is Some,
        r matches Some(g) ==> opt_views(g@) == regex_captures(re.source(), t@).unwrap(),
{
    re.re.captures(t).map(|c| c.iter().map(|m| m.map(|m| m.as_str().to_string())).collect())
}

/// `regex::Regex::find_iter`: all successive non-overlapping matches in `t`.
#[verifier::external_body]
pub fn find_all(re: &Pattern, t: &str) -> (r: Vec<(usize, usize, String)>)
    ensures
        match_views(r@) == regex_find_all(re.source(), t@),
{
    re.re.find_iter(t).map(|m| (m.start(), m.end(), m.as_str().to_string())).collect()
}

/// The text of group `g` of the leftmost match of `p` in `t`, if both exist.
pub open spec fn group_text(p: Seq<char>, t: Seq<char>, g: nat) -> Option<Seq<char>> {
    match regex_captures(p, t) {
        Some(groups) => if g < groups.len() {
            groups[g as int]
        } else {
            None
        },
        None => None,
    }
}

/// The text of group `g` of the leftmost match in `t`.
pub fn capture_group(re: &Pattern, t: &str, g: usize) -> (r: Option<String>)
    ensures
        r is Some <==> group_text(re.source(), t@, g as nat) is Some,
        r matches Some(s) ==> s@ == group_text(re.source(), t@, g as nat).unwrap(),
{
    match captures(re, t) {
        Some(groups) => {
            if g < groups.len() {
                let ghost gv = opt_views(groups@);
                assert(gv[g as int] == match groups@[g as int] {
                    Some(s) => Some(s@),
                    None => None::<Seq<char>>,
                });
                match &groups[g] {
                    Some(s) => Some(s.clone()),
                    None => None,
                }
            } else {
                None
            }
        },
        None => None,
    }
}

} // verus!
