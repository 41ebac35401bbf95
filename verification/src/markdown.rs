//! The Markdown collaborator: a pure text-to-HTML conversion.

use vstd::prelude::*;

verus! {

/// What the Markdown converter returns for a given source text.  The
/// result is a pure function of the text alone.
pub uninterp spec fn md_html_of(src: Seq<char>) -> Seq<char>;

/// Relies on pulldown_cmark (`Parser::new` and `html::push_html`): converts
/// CommonMark text to HTML.  The conversion is total, never fails, and its
/// result depends on the source text alone.
#[verifier::external_body]
pub(crate) fn render_markdown(src: &str) -> (r: String)
    ensures
        r@ == md_html_of(src@),
{
    let parser = pulldown_cmark::Parser::new(src);
    let mut html = String::new();
    pulldown_cmark::html::push_html(&mut html, parser);
    html
}

} // verus!
