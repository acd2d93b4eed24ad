//! The markdown filter: converts markdown text to HTML and adapts the
//! generic HTML tags to the target platform's restricted styling model by
//! a fixed chain of literal substitutions.

use vstd::prelude::*;

use crate::text::replace_all;
use crate::text::spec_replace;

verus! {

/// The HTML that the markdown converter produces for the given text. The
/// conversion is a pure function of the text alone.
pub uninterp spec fn markdown_html(src: Seq<char>) -> Seq<char>;

/// Relies on `pulldown_cmark::Parser::new_ext` (with strikethrough
/// enabled) and `pulldown_cmark::html::push_html`: together they convert
/// markdown text to HTML, and the result depends on the input text alone.
#[verifier::external_body]
fn commonmark_to_html(src: &str) -> (r: String)
    ensures
        r@ == markdown_html(src@),
{
    let options = pulldown_cmark::Options::ENABLE_STRIKETHROUGH;
    let parser = pulldown_cmark::Parser::new_ext(src, options);
    let mut html = String::new();
    pulldown_cmark::html::push_html(&mut html, parser);
    html
}

/// The fixed substitution chain applied to the converted HTML, in order:
/// paragraph tags are removed, `<u>` becomes a styled span, `<pre><code>`
/// blocks (with or without a language class) become styled divs, and the
/// remaining `<code>` tags become styled spans.
pub open spec fn spec_adapt_html(s: Seq<char>) -> Seq<char> {
    let s1 = spec_replace(s, "<p>"@, ""@);
    let s2 = spec_replace(s1, "</p>"@, ""@);
    let s3 = spec_replace(s2, "<u>"@, "<span class=\"cohoard-underline\">"@);
    let s4 = spec_replace(s3, "</u>"@, "</span>"@);
    let s5 = spec_replace(s4, "<pre><code>"@, "<div class=\"cohoard-codeblock\">"@);
    let s6 = spec_replace(
        s5,
        "<pre><code class=\"language-"@,
        "<div class=\"cohoard-codeblock language-"@,
    );
    let s7 = spec_replace(s6, "</code></pre>"@, "</div>"@);
    let s8 = spec_replace(s7, "<code>"@, "<span class=\"cohoard-code\">"@);
    spec_replace(s8, "</code>"@, "</span>"@)
}

/// Converts a markdown string to HTML adapted for the target platform:
/// the markdown conversion followed by the fixed substitution chain.
pub fn markdown_to_html(src: &str) -> (r: String)
    ensures
        r@ == spec_adapt_html(markdown_html(src@)),
{
    proof {
        reveal_strlit("<p>");
        reveal_strlit("</p>");
        reveal_strlit("<u>");
        reveal_strlit("</u>");
        reveal_strlit("<pre><code>");
        reveal_strlit("<pre><code class=\"language-");
        reveal_strlit("</code></pre>");
        reveal_strlit("<code>");
        reveal_strlit("</code>");
    }
    let html = commonmark_to_html(src);
    let s1 = replace_all(html.as_str(), "<p>", "");
    let s2 = replace_all(s1.as_str(), "</p>", "");
    let s3 = replace_all(s2.as_str(), "<u>", "<span class=\"cohoard-underline\">");
    let s4 = replace_all(s3.as_str(), "</u>", "</span>");
    let s5 = replace_all(s4.as_str(), "<pre><code>", "<div class=\"cohoard-codeblock\">");
    let s6 = replace_all(
        s5.as_str(),
        "<pre><code class=\"language-",
        "<div class=\"cohoard-codeblock language-",
    );
    let s7 = replace_all(s6.as_str(), "</code></pre>", "</div>");
    let s8 = replace_all(s7.as_str(), "<code>", "<span class=\"cohoard-code\">");
    replace_all(s8.as_str(), "</code>", "</span>")
}

} // verus!
