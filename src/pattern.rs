//! Regular expressions, through the `regex` crate: escaping, compiling,
//! replacing and capturing.

use vstd::prelude::*;

verus! {

/// A character that has a meaning in a regular expression.
pub open spec fn is_regex_meta(c: char) -> bool {
    c == '\\' || c == '.' || c == '+' || c == '*' || c == '?' || c == '(' || c == ')' || c == '|'
        || c == '[' || c == ']' || c == '{' || c == '}' || c == '^' || c == '$' || c == '#' || c
        == '&' || c == '-' || c == '~'
}

/// `s` with a backslash before each regular-expression meta character.
pub open spec fn regex_escaped(s: Seq<char>) -> Seq<char>
    decreases s.len(),
{
    if s.len() == 0 {
        Seq::empty()
    } else {
        let prev = regex_escaped(s.drop_last());
        if is_regex_meta(s.last()) {
            prev + seq!['\\', s.last()]
        } else {
            prev.push(s.last())
        }
    }
}

/// Relies on `regex::escape`: a backslash before each meta character.
#[verifier::external_body]
pub(crate) fn escape_meta(s: &str) -> (r: String)
    ensures
        r@ == regex_escaped(s@),
{
    regex::escape(s)
}

#[verifier::external_type_specification]
#[verifier::external_body]
pub struct ExRegex(regex::Regex);

/// Whether `Regex::new` accepts a pattern.
pub uninterp spec fn regex_compiles(pattern: Seq<char>) -> bool;

/// What `Regex::replace_all` makes of `text` with a pattern and a
/// replacement (in which `$name` refers to a capture group).
pub uninterp spec fn regex_replaced(pattern: Seq<char>, text: Seq<char>, rep: Seq<char>) -> Seq<
    char,
>;

/// A compiled regular expression with the pattern it was compiled from; only
/// `compile` makes one.
pub struct CompiledPattern {
    source: String,
    re: regex::Regex,
}

impl CompiledPattern {
    pub closed spec fn source(&self) -> Seq<char> {
        self.source@
    }
}

/// Relies on `regex::Regex::new`: whether a pattern compiles depends on the
/// pattern alone.
#[verifier::external_body]
pub(crate) fn compile(source: &str) -> (r: Option<CompiledPattern>)
    ensures
        r is Some <==> regex_compiles(source@),
        r matches Some(p) ==> p.source() == source@,
{
    match regex::Regex::new(source) {
        Ok(re) => Some(CompiledPattern { source: source.to_string(), re }),
        Err(_) => None,
    }
}

/// Relies on `regex::Regex::replace_all` with a `&str` replacement: the
/// result depends on the pattern, the text and the replacement alone.
#[verifier::external_body]
pub(crate) fn replace_matches(p: &CompiledPattern, text: &str, rep: &str) -> (r: String)
    ensures
        r@ == regex_replaced(p.source(), text@, rep@),
{
    p.re.replace_all(text, rep).into_owned()
}

/// The texts of the groups of the leftmost-first match of a pattern in
/// `text` (group 0 is the whole match; `None` for a group that took no
/// part), or `None` where nothing matches.
pub uninterp spec fn regex_captures(pattern: Seq<char>, text: Seq<char>) -> Option<
    Seq<Option<Seq<char>>>,
>;

pub open spec fn group_views(g: Seq<Option<String>>) -> Seq<Option<Seq<char>>> {
    g.map_values(
        |x: Option<String>|
            match x {
                Some(s) => Some(s@),
                None => None,
            },
    )
}

/// Relies on `regex::Regex::captures` and `Captures::iter`: the groups of
/// the first match depend on the pattern and the text alone.
#[verifier::external_body]
pub(crate) fn captures(p: &CompiledPattern, text: &str) -> (r: Option<Vec<Option<String>>>)
    ensures
        match r {
            Some(g) => regex_captures(p.source(), text@) == Some(group_views(g@)),
            None => regex_captures(p.source(), text@) is None,
        },
{
    p.re.captures(text).map(|caps| caps.iter().map(|m| m.map(|m| m.as_str().to_string())).collect())
}

} // verus!
