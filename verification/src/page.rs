//! The page data model: one renderable document. A page's content is an
//! already-rendered HTML fragment, produced exactly once at construction and
//! treated as an immutable, already-safe string from then on.

use vstd::prelude::*;

use crate::errors::{FrontMatterIssue, SiteError};
use crate::front_matter::{
    body_html_of, document_body_html, document_prefix, fm_issue, fm_ok, fm_prefix_of, fm_text,
    front_matter_text, get_string, get_string_opt, parse_metadata_entries, spec_lookup,
    toml_entries_of, toml_ok,
};
use crate::opt_str_view;

verus! {

/// One renderable document.
#[derive(Debug)]
pub struct Page {
    /// Required; the empty string is a valid sentinel meaning "no title",
    /// used by synthetic listing pages.
    pub title: String,
    /// The raw metadata string, not parsed into a calendar type; ordering is
    /// lexicographic, calendar-correct only for fixed-width sortable formats.
    pub date: Option<String>,
    pub desc: Option<String>,
    /// URL path segment; empty for synthetic pages not linked by slug.
    pub slug: String,
    /// Already-escaped rendered markup, opaque to everything downstream.
    pub content: String,
    /// Diagnostic-only; never affects rendering.
    pub path: String,
}

/// The abstract value of a page.
pub struct PageView {
    pub title: Seq<char>,
    pub date: Option<Seq<char>>,
    pub desc: Option<Seq<char>>,
    pub slug: Seq<char>,
    pub content: Seq<char>,
    pub path: Seq<char>,
}

impl View for Page {
    type V = PageView;

    open spec fn view(&self) -> PageView {
        PageView {
            title: self.title@,
            date: opt_str_view(self.date),
            desc: opt_str_view(self.desc),
            slug: self.slug@,
            content: self.content@,
            path: self.path@,
        }
    }
}

impl Page {
    /// Parse one source document into a page: check the three-event
    /// front-matter prefix, read the metadata table, extract the required
    /// `title` and the optional `date` and `description` (values of any type
    /// are taken as text), and render the body exactly once. Errors carry the
    /// violated expectation or the missing key; the source path rides along
    /// for diagnostics only.
    pub fn parse(path: String, slug: String, md: &str) -> (r: Result<Page, SiteError>)
        ensures
            ({
                let p = fm_prefix_of(md@);
                let entries = toml_entries_of(fm_text(p));
                match r {
                    Ok(page) => fm_ok(p) && toml_ok(fm_text(p)) && spec_lookup(entries, "title"@)
                        == Option::Some(page@.title) && page@.date == spec_lookup(entries, "date"@)
                        && page@.desc == spec_lookup(entries, "description"@) && page@.slug
                        == slug@ && page@.path == path@ && page@.content == body_html_of(md@),
                    Err(e) => match e {
                        SiteError::MalformedFrontMatter(issue) => if issue is BadTable {
                            fm_ok(p) && !toml_ok(fm_text(p))
                        } else {
                            !fm_ok(p) && issue == fm_issue(p)
                        },
                        SiteError::MissingField(k) => fm_ok(p) && toml_ok(fm_text(p)) && k@
                            == "title"@ && spec_lookup(entries, "title"@) is None,
                        _ => false,
                    },
                }
            }),
    {
        let tokens = document_prefix(md);
        let txt = match front_matter_text(&tokens) {
            Ok(t) => t,
            Err(e) => {
                return Err(e);
            },
        };
        let entries = match parse_metadata_entries(txt.as_str()) {
            Some(en) => en,
            None => {
                return Err(SiteError::MalformedFrontMatter(FrontMatterIssue::BadTable));
            },
        };
        let title = match get_string(&entries, "title") {
            Ok(t) => t,
            Err(e) => {
                return Err(e);
            },
        };
        let date = get_string_opt(&entries, "date");
        let desc = get_string_opt(&entries, "description");
        let content = document_body_html(md);
        Ok(Page { title, date, desc, slug, content, path })
    }
}

} // verus!
