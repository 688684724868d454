//! Compiled regular expressions: the boundary to `regex`.

use vstd::prelude::*;

verus! {

/// `regex::Regex`: a compiled regular expression.
#[verifier::external_type_specification]
#[verifier::external_body]
pub struct ExRegex(regex::Regex);

/// A regular expression, compiled once from its source text.
///
/// A value is made by [`Pattern::compile`] alone, so the compiled expression
/// is always the one that `regex::Regex::new` made of the source.
#[derive(Debug)]
pub struct Pattern {
    source: String,
    compiled: regex::Regex,
}

/// Whether `regex::Regex::new` accepts `source`: the text is an expression in
/// the syntax of the crate, and what it compiles to is within the size that
/// the crate allows by default.
pub uninterp spec fn compiles(source: Seq<char>) -> bool;

/// What `regex::Regex::captures` finds of the expression `pattern` in `text`:
/// `None` where the expression does not match, else the groups of the
/// leftmost match in the order of their opening brackets, the whole match
/// first, each with the text it matched or `None` where it took no part.
pub uninterp spec fn captures(pattern: Seq<char>, text: Seq<char>) -> Option<
    Seq<Option<Seq<char>>>,
>;

impl Pattern {
    /// The source text of the expression.
    pub closed spec fn view(&self) -> Seq<char> {
        self.source@
    }

    /// The source text of the expression.
    pub fn source(&self) -> (r: &str)
        ensures
            r@ == self@,
    {
        self.source.as_str()
    }

    /// `regex::Regex::new`: compiles `source` where it accepts it, and else
    /// says why it does not. A compiled pattern remembers the source it was
    /// made from.
    #[verifier::external_body]
    pub(crate) fn compile(source: &str) -> (r: Result<Pattern, regex::Error>)
        ensures
            r is Ok <==> compiles(source@),
            r matches Ok(pattern) ==> pattern@ == source@,
    {
        Ok(Pattern { source: source.to_owned(), compiled: regex::Regex::new(source)? })
    }

    /// `regex::Regex::captures`, with each group that `regex::Captures::iter`
    /// yields turned into the text it matched.
    #[verifier::external_body]
    pub(crate) fn captures(&self, text: &str) -> (r: Option<Vec<Option<String>>>)
        ensures
            match r {
                Some(found) => captures(self@, text@) == Some(
                    Seq::new(
                        found@.len(),
                        |i: int|
                            match found@[i] {
                                Some(group) => Some(group@),
                                None => None,
                            },
                    ),
                ),
                None => captures(self@, text@) is None,
            },
    {
        match self.compiled.captures(text) {
            Some(found) => {
                let mut groups = Vec::new();
                for group in found.iter() {
                    groups.push(group.map(|part| part.as_str().to_owned()));
                }
                Some(groups)
            },
            None => None,
        }
    }
}

} // verus!
