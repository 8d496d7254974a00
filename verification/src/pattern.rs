//! Compiled regular expressions, kept together with the source they were
//! compiled from so that contracts can speak of what a replacement does.

use vstd::prelude::*;

verus! {

#[verifier::external_type_specification]
#[verifier::external_body]
pub struct ExRegex(regex::Regex);

/// Whether `regex::Regex::new` accepts `pattern`.
pub uninterp spec fn regex_compiles(pattern: Seq<char>) -> bool;

/// What `regex::Regex::replace_all` gives for the regex compiled from
/// `pattern`, the text `haystack` and the replacement template `template`
/// (in which `${n}` stands for the text of capture group `n`).
pub uninterp spec fn regex_replaced(pattern: Seq<char>, haystack: Seq<char>, template: Seq<char>) -> Seq<char>;

/// A regular expression and the source it was compiled from. Values are
/// only made by [`TextPattern::compile`], which compiles `compiled` from
/// `source`.
pub struct TextPattern {
    source: String,
    compiled: regex::Regex,
}

impl View for TextPattern {
    type V = Seq<char>;

    closed spec fn view(&self) -> Seq<char> {
        self.source@
    }
}

impl TextPattern {
    /// `regex::Regex::new(source)`: `None` exactly where the regex crate
    /// refuses the pattern; otherwise the compiled pattern, whose view is
    /// `source`.
    #[verifier::external_body]
    pub(crate) fn compile(source: &str) -> (r: Option<TextPattern>)
        ensures
            r is Some <==> regex_compiles(source@),
            r matches Some(p) ==> p@ == source@,
    {
        match regex::Regex::new(source) {
            Ok(compiled) => Some(TextPattern { source: source.to_string(), compiled }),
            Err(_) => None,
        }
    }

    /// `regex::Regex::replace_all(haystack, template)`, made an owned
    /// string: every non-overlapping match, leftmost first, replaced by
    /// the expanded template. The result is named by [`regex_replaced`]
    /// and stated of no given value.
    #[verifier::external_body]
    pub(crate) fn replace_all(&self, haystack: &str, template: &str) -> (r: String)
        ensures
            r@ == regex_replaced(self@, haystack@, template@),
    {
        self.compiled.replace_all(haystack, template).into_owned()
    }
}

} // verus!
