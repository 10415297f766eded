//! Markdown to HTML, by `pulldown_cmark`.

use vstd::prelude::*;

verus! {

/// The HTML that `pulldown_cmark` writes for a markdown text, parsed with no
/// extension switched on.
pub uninterp spec fn markdown_html(source: Seq<char>) -> Seq<char>;

/// Renders markdown to an HTML fragment.
///
/// Calls `pulldown_cmark::Parser::new_ext` with empty options and hands the
/// parser to `pulldown_cmark::html::push_html`, which appends to an empty
/// string. Not proved: that the result depends on the text alone, which is
/// what naming it claims. Nothing is said of what the HTML looks like.
#[verifier::external_body]
pub(crate) fn render_markdown(source: &str) -> (html: String)
    ensures
        html@ == markdown_html(source@),
{
    let parser = pulldown_cmark::Parser::new_ext(source, pulldown_cmark::Options::empty());
    let mut html = String::new();
    pulldown_cmark::html::push_html(&mut html, parser);
    html
}

} // verus!
