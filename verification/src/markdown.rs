//! Conversion of markdown bodies to HTML fragments.

use vstd::prelude::*;

verus! {

/// The HTML fragment that `pulldown_cmark` produces for the markdown `text`,
/// with the table and strikethrough extensions switched on or off as given.
pub uninterp spec fn markdown_html(text: Seq<char>, tables: bool, strikethrough: bool) -> Seq<char>;

/// The HTML fragment of a page body: markdown with tables and strikethrough.
pub open spec fn page_html(body: Seq<char>) -> Seq<char> {
    markdown_html(body, true, true)
}

/// Runs `pulldown_cmark::Parser::new_ext` over `markdown` and feeds its
/// events to `pulldown_cmark::html::push_html`. Trusted: the result is a
/// function of the text and the two switches alone, and the call returns for
/// every text.
#[verifier::external_body]
fn render_markdown(markdown: &str, tables: bool, strikethrough: bool) -> (html: String)
    ensures
        html@ == markdown_html(markdown@, tables, strikethrough),
{
    let mut options = pulldown_cmark::Options::empty();
    options.set(pulldown_cmark::Options::ENABLE_TABLES, tables);
    options.set(pulldown_cmark::Options::ENABLE_STRIKETHROUGH, strikethrough);
    let parser = pulldown_cmark::Parser::new_ext(markdown, options);
    let mut html = String::new();
    pulldown_cmark::html::push_html(&mut html, parser);
    html
}

/// Converts a page body to its HTML fragment. Never fails: markup that is
/// malformed comes out as literal text.
pub fn markdown_to_html(markdown: &str) -> (html: String)
    ensures
        html@ == page_html(markdown@),
{
    render_markdown(markdown, true, true)
}

/// Conversion is deterministic: whatever two conversions of the same body
/// return, they return the same fragment.
pub proof fn lemma_conversion_deterministic(body: Seq<char>, first: String, second: String)
    requires
        first@ == page_html(body),
        second@ == page_html(body),
    ensures
        first@ == second@,
{
}

} // verus!
