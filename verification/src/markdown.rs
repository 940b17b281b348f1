//! Markdown held as text, with conversion to rendered markup.
//!
//! The conversion itself is an outside library's work; the core treats it as
//! a total, deterministic, side-effect-free function of the input text and
//! imposes no further contract on it.

use vstd::prelude::*;

verus! {

/// The markup that the rendering library produces for the given text. No
/// clause of this crate says what it is on given values: it names the result
/// of a pure outside computation.
pub uninterp spec fn html_of(s: Seq<char>) -> Seq<char>;

/// Relies on pulldown_cmark's `Parser::new_ext` (with all extensions
/// enabled) and `html::push_html`: together a pure conversion of the input
/// text, depending on nothing but its characters.
#[verifier::external_body]
fn render_markdown(content: &str) -> (r: String)
    ensures
        r@ == html_of(content@),
{
    let parser = pulldown_cmark::Parser::new_ext(content, pulldown_cmark::Options::all());
    let mut out = String::new();
    pulldown_cmark::html::push_html(&mut out, parser);
    out
}

/// Markdown text that can be rendered to markup.
pub struct MarkdownParser {
    content: String,
}

impl View for MarkdownParser {
    type V = Seq<char>;

    closed spec fn view(&self) -> Seq<char> {
        self.content@
    }
}

impl MarkdownParser {
    /// Hold the given text.
    pub fn new(content: String) -> (r: Self)
        ensures
            r@ == content@,
    {
        MarkdownParser { content }
    }

    /// The raw text as given.
    pub fn raw_content(&self) -> (r: &str)
        ensures
            r@ == self@,
    {
        self.content.as_str()
    }

    /// The rendered markup of the text.
    pub fn to_html(&self) -> (r: String)
        ensures
            r@ == html_of(self@),
    {
        render_markdown(self.content.as_str())
    }
}

} // verus!
