//! The Templater: wraps a page's content fragment in the site shell — fixed
//! head assets, a navigation bar, an optional `<h1>` for a non-empty title,
//! an optional date block, the content, and an empty footer. Rendering is
//! pure: the same page always yields the same document string.

use vstd::prelude::*;
use vstd::string::*;

use crate::html::{escape_html, escaped};
use crate::page::{Page, PageView};

verus! {

/// The document up to and including the opening of the head section.
pub open spec fn doc_open() -> Seq<char> {
    "<!DOCTYPE html><html lang=\"en\"><head>"@
}

/// The constant head assets: charset and viewport meta, stylesheet links and
/// the two favicon links. Identical on every page.
pub open spec fn meta_styling_of() -> Seq<char> {
    "<meta charset=\"utf-8\"><meta name=\"viewport\" content=\"width=device-width, initial-scale=1\"><link rel=\"stylesheet\" href=\"/static/style.css\"><link rel=\"stylesheet\" href=\"/static/highlight.github-gist.min.css\"><link rel=\"icon\" size=\"32x32\" type=\"image/png\" href=\"/static/favicon-32x32.png\"><link rel=\"icon\" size=\"16x16\" type=\"image/png\" href=\"/static/favicon-16x16.png\">"@
}

/// The syntax-highlighting script, its activation call, and the start of the
/// body: the wrapper div, the header and the fixed navigation links.
pub open spec fn doc_nav() -> Seq<char> {
    "<script src=\"/static/highlight.min.js\"></script><script>hljs.highlightAll();</script></head><body><div class=\"w\"><header><nav class=\"top-nav\"><a href=\"/\">home</a><a href=\"/posts\">posts</a><a href=\"/blogroll\">blogroll</a></nav>"@
}

/// An `<h1>` for the escaped title, or nothing when the title is empty.
pub open spec fn title_block(title: Seq<char>) -> Seq<char> {
    if title.len() == 0 {
        Seq::empty()
    } else {
        "<h1>"@ + escaped(title) + "</h1>"@
    }
}

/// A date block carrying the raw date string both as a machine-readable
/// attribute and as display text, or nothing when the date is absent. No
/// reformatting or validation of the date happens here.
pub open spec fn date_block(date: Option<Seq<char>>) -> Seq<char> {
    match date {
        Option::None => Seq::empty(),
        Option::Some(d) => "<p class=\"post-meta\"><time datetime=\""@ + escaped(d) + "\">"@
            + escaped(d) + "</time></p>"@,
    }
}

/// The end of the header and the opening of the content container.
pub open spec fn main_open() -> Seq<char> {
    "</header><main aria-label=\"Content\" class=\"page-content\">"@
}

/// The close of the content container, the empty footer placeholder, and the
/// end of the document.
pub open spec fn doc_tail() -> Seq<char> {
    "</main><footer></footer></div></body></html>"@
}

/// The full document a page renders to.
pub open spec fn document_of(p: PageView) -> Seq<char> {
    doc_open() + meta_styling_of() + doc_nav() + title_block(p.title) + date_block(p.date)
        + main_open() + p.content + doc_tail()
}

/// The constant head assets as a string.
pub fn meta_styling() -> (r: String)
    ensures
        r@ == meta_styling_of(),
{
    "<meta charset=\"utf-8\"><meta name=\"viewport\" content=\"width=device-width, initial-scale=1\"><link rel=\"stylesheet\" href=\"/static/style.css\"><link rel=\"stylesheet\" href=\"/static/highlight.github-gist.min.css\"><link rel=\"icon\" size=\"32x32\" type=\"image/png\" href=\"/static/favicon-32x32.png\"><link rel=\"icon\" size=\"16x16\" type=\"image/png\" href=\"/static/favicon-16x16.png\">".to_owned()
}

/// The title block as a string.
fn render_title(title: &str) -> (r: String)
    ensures
        r@ == title_block(title@),
{
    let mut out = String::new();
    if !title.is_empty() {
        out.append("<h1>");
        let e = escape_html(title);
        out.append(e.as_str());
        out.append("</h1>");
    }
    proof {
        assert(out@ =~= title_block(title@));
    }
    out
}

/// The date block as a string.
fn render_date(date: &Option<String>) -> (r: String)
    ensures
        r@ == date_block(crate::opt_str_view(*date)),
{
    let mut out = String::new();
    match date {
        Option::Some(d) => {
            let e = escape_html(d.as_str());
            out.append("<p class=\"post-meta\"><time datetime=\"");
            out.append(e.as_str());
            out.append("\">");
            out.append(e.as_str());
            out.append("</time></p>");
        },
        Option::None => {},
    }
    proof {
        assert(out@ =~= date_block(crate::opt_str_view(*date)));
    }
    out
}

/// Render a page into a full HTML document.
pub fn render_page(page: &Page) -> (r: String)
    ensures
        r@ == document_of(page@),
{
    let mut out = String::new();
    out.append("<!DOCTYPE html><html lang=\"en\"><head>");
    let meta = meta_styling();
    out.append(meta.as_str());
    out.append(
        "<script src=\"/static/highlight.min.js\"></script><script>hljs.highlightAll();</script></head><body><div class=\"w\"><header><nav class=\"top-nav\"><a href=\"/\">home</a><a href=\"/posts\">posts</a><a href=\"/blogroll\">blogroll</a></nav>",
    );
    let title = render_title(page.title.as_str());
    out.append(title.as_str());
    let date = render_date(&page.date);
    out.append(date.as_str());
    out.append("</header><main aria-label=\"Content\" class=\"page-content\">");
    out.append(page.content.as_str());
    out.append("</main><footer></footer></div></body></html>");
    proof {
        assert(out@ =~= document_of(page@));
    }
    out
}

/// Law: the Templater is pure — rendering identical pages produces
/// byte-identical documents.
pub proof fn lemma_render_deterministic(a: PageView, b: PageView)
    requires
        a == b,
    ensures
        document_of(a) == document_of(b),
{
}

} // verus!
