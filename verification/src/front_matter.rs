//! Front-matter extraction. The markdown token stream must begin with exactly
//! three events — a start-of-metadata-block marker, one text event carrying
//! the metadata payload, the block's end marker — checked here as an explicit
//! finite-state contract. The captured text is then read as a structured
//! key/value table whose values are taken verbatim when they are strings and
//! stringified canonically otherwise.

use vstd::prelude::*;
use vstd::string::*;

use pulldown_cmark::{Event, Options, Parser, Tag, TagEnd};

use crate::errors::{FrontMatterIssue, SiteError};
use crate::opt_str_view;
use crate::text::str_eq;

verus! {

/// One classified event from the head of the markdown token stream.
pub enum FmToken {
    /// A start-of-metadata-block marker.
    MetaStart,
    /// A text event with its payload.
    Text(String),
    /// An end-of-metadata-block marker.
    MetaEnd,
    /// Any other event.
    Other,
}

/// The abstract value of a classified event.
pub enum FmTokenView {
    MetaStart,
    Text(Seq<char>),
    MetaEnd,
    Other,
}

impl View for FmToken {
    type V = FmTokenView;

    open spec fn view(&self) -> FmTokenView {
        match self {
            FmToken::MetaStart => FmTokenView::MetaStart,
            FmToken::Text(t) => FmTokenView::Text(t@),
            FmToken::MetaEnd => FmTokenView::MetaEnd,
            FmToken::Other => FmTokenView::Other,
        }
    }
}

/// The abstract values of a classified event sequence.
pub open spec fn tokens_view(s: Seq<FmToken>) -> Seq<FmTokenView> {
    s.map_values(|t: FmToken| t@)
}

/// What the markdown tokenizer yields as the first three events of the
/// document, classified; a pure function of the source text.
pub uninterp spec fn fm_prefix_of(md: Seq<char>) -> Seq<FmTokenView>;

/// The HTML fragment that the document's events after the first three render
/// to; a pure function of the source text.
pub uninterp spec fn body_html_of(md: Seq<char>) -> Seq<char>;

/// Relies on pulldown_cmark's Parser, configured with tables, footnotes,
/// strikethrough, task lists and pluses-delimited metadata blocks: yields the
/// first three events of the token stream, classified into the library's
/// token kinds; the stream is a pure function of the source text.
#[verifier::external_body]
pub fn document_prefix(md: &str) -> (r: Vec<FmToken>)
    ensures
        tokens_view(r@) == fm_prefix_of(md@),
        r@.len() <= 3,
{
    let opts = Options::ENABLE_TABLES | Options::ENABLE_FOOTNOTES | Options::ENABLE_STRIKETHROUGH
        | Options::ENABLE_TASKLISTS | Options::ENABLE_PLUSES_DELIMITED_METADATA_BLOCKS;
    Parser::new_ext(md, opts)
        .take(3)
        .map(|ev| match ev {
            Event::Start(Tag::MetadataBlock(_)) => FmToken::MetaStart,
            Event::Text(t) => FmToken::Text(t.to_string()),
            Event::End(TagEnd::MetadataBlock(_)) => FmToken::MetaEnd,
            _ => FmToken::Other,
        })
        .collect()
}

/// Relies on pulldown_cmark's push_html over the same Parser configuration:
/// renders the events after the first three (the document body once the
/// metadata block is consumed) to an HTML fragment, escaping ordinary text
/// and passing embedded raw HTML through.
#[verifier::external_body]
pub fn document_body_html(md: &str) -> (r: String)
    ensures
        r@ == body_html_of(md@),
{
    let opts = Options::ENABLE_TABLES | Options::ENABLE_FOOTNOTES | Options::ENABLE_STRIKETHROUGH
        | Options::ENABLE_TASKLISTS | Options::ENABLE_PLUSES_DELIMITED_METADATA_BLOCKS;
    let mut parser = Parser::new_ext(md, opts);
    parser.next();
    parser.next();
    parser.next();
    let mut buf = String::new();
    pulldown_cmark::html::push_html(&mut buf, parser);
    buf
}

/// The stream opens with a start-of-metadata-block marker.
pub open spec fn fm_starts(p: Seq<FmTokenView>) -> bool {
    p.len() > 0 && p[0] is MetaStart
}

/// The second event carries the metadata text.
pub open spec fn fm_has_text(p: Seq<FmTokenView>) -> bool {
    p.len() > 1 && p[1] is Text
}

/// The third event closes the metadata block.
pub open spec fn fm_ends(p: Seq<FmTokenView>) -> bool {
    p.len() > 2 && p[2] is MetaEnd
}

/// The three-event front-matter prefix is well-formed.
pub open spec fn fm_ok(p: Seq<FmTokenView>) -> bool {
    fm_starts(p) && fm_has_text(p) && fm_ends(p)
}

/// The metadata payload of a well-formed prefix.
pub open spec fn fm_text(p: Seq<FmTokenView>) -> Seq<char> {
    p[1]->Text_0
}

/// Which of the three expectations a malformed prefix violates first.
pub open spec fn fm_issue(p: Seq<FmTokenView>) -> FrontMatterIssue {
    if !fm_starts(p) {
        FrontMatterIssue::NoStart
    } else if !fm_has_text(p) {
        FrontMatterIssue::NoText
    } else {
        FrontMatterIssue::NoEnd
    }
}

/// The explicit finite-state check over the head of the token stream: expect
/// the block start, then the metadata text, then the block end; anything else
/// is `MalformedFrontMatter` naming the violated expectation.
pub fn front_matter_text(tokens: &Vec<FmToken>) -> (r: Result<String, SiteError>)
    ensures
        match r {
            Ok(txt) => fm_ok(tokens_view(tokens@)) && txt@ == fm_text(tokens_view(tokens@)),
            Err(e) => !fm_ok(tokens_view(tokens@)) && e == SiteError::MalformedFrontMatter(
                fm_issue(tokens_view(tokens@)),
            ),
        },
{
    if tokens.len() < 1 {
        return Err(SiteError::MalformedFrontMatter(FrontMatterIssue::NoStart));
    }
    match &tokens[0] {
        FmToken::MetaStart => {},
        _ => {
            return Err(SiteError::MalformedFrontMatter(FrontMatterIssue::NoStart));
        },
    }
    if tokens.len() < 2 {
        return Err(SiteError::MalformedFrontMatter(FrontMatterIssue::NoText));
    }
    let txt = match &tokens[1] {
        FmToken::Text(t) => t.clone(),
        _ => {
            return Err(SiteError::MalformedFrontMatter(FrontMatterIssue::NoText));
        },
    };
    if tokens.len() < 3 {
        return Err(SiteError::MalformedFrontMatter(FrontMatterIssue::NoEnd));
    }
    match &tokens[2] {
        FmToken::MetaEnd => {},
        _ => {
            return Err(SiteError::MalformedFrontMatter(FrontMatterIssue::NoEnd));
        },
    }
    Ok(txt)
}

/// One key of the metadata table together with the textual form of its
/// value: the string itself for string values, canonical TOML text otherwise.
pub struct MetaEntry {
    pub key: String,
    pub text: String,
}

/// The abstract values of a metadata entry sequence.
pub open spec fn entries_view(s: Seq<MetaEntry>) -> Seq<(Seq<char>, Seq<char>)> {
    s.map_values(|e: MetaEntry| (e.key@, e.text@))
}

/// The text parses as a TOML table.
pub uninterp spec fn toml_ok(s: Seq<char>) -> bool;

/// The entries of the TOML table the text parses to, in table order, each key
/// with its value's textual form.
pub uninterp spec fn toml_entries_of(s: Seq<char>) -> Seq<(Seq<char>, Seq<char>)>;

/// Relies on toml's table parser (`str::parse::<toml::Table>`) and on
/// toml::Value's display form, which is the value's canonical TOML text; a
/// string value is taken verbatim instead.
#[verifier::external_body]
pub fn parse_metadata_entries(txt: &str) -> (r: Option<Vec<MetaEntry>>)
    ensures
        r is Some <==> toml_ok(txt@),
        r matches Some(v) ==> entries_view(v@) == toml_entries_of(txt@),
{
    let table: toml::Table = match txt.parse() { Ok(t) => t, Err(_) => return None };
    let to_entry = |(key, val): (String, toml::Value)| match val {
        toml::Value::String(s) => MetaEntry { key, text: s },
        other => MetaEntry { key, text: other.to_string() },
    };
    Some(table.into_iter().map(to_entry).collect())
}

/// The textual value stored under a key, searching entries in order.
pub open spec fn spec_lookup(entries: Seq<(Seq<char>, Seq<char>)>, key: Seq<char>) -> Option<
    Seq<char>,
>
    decreases entries.len(),
{
    if entries.len() == 0 {
        Option::None
    } else if entries[0].0 == key {
        Option::Some(entries[0].1)
    } else {
        spec_lookup(entries.skip(1), key)
    }
}

/// Get the key's value as text if it is present, no matter what type the
/// value is.
pub fn get_string_opt(entries: &Vec<MetaEntry>, key: &str) -> (r: Option<String>)
    ensures
        opt_str_view(r) == spec_lookup(entries_view(entries@), key@),
{
    let ghost all = entries_view(entries@);
    let mut i: usize = 0;
    proof {
        assert(all.skip(0) =~= all);
    }
    while i < entries.len()
        invariant
            i <= entries.len(),
            all == entries_view(entries@),
            spec_lookup(all, key@) == spec_lookup(all.skip(i as int), key@),
        decreases entries.len() - i,
    {
        proof {
            assert(all.skip(i as int)[0] == all[i as int]);
        }
        if str_eq(entries[i].key.as_str(), key) {
            return Some(entries[i].text.clone());
        }
        proof {
            assert(all.skip(i as int).skip(1) =~= all.skip(i + 1));
        }
        i += 1;
    }
    proof {
        assert(all.skip(i as int).len() == 0);
    }
    None
}

/// Get the key's value as text, no matter what type the value is; a missing
/// key is a `MissingField` error naming the key.
pub fn get_string(entries: &Vec<MetaEntry>, key: &str) -> (r: Result<String, SiteError>)
    ensures
        match r {
            Ok(t) => spec_lookup(entries_view(entries@), key@) == Option::Some(t@),
            Err(e) => spec_lookup(entries_view(entries@), key@) is None && match e {
                SiteError::MissingField(k) => k@ == key@,
                _ => false,
            },
        },
{
    match get_string_opt(entries, key) {
        Some(t) => Ok(t),
        None => Err(SiteError::MissingField(key.to_owned())),
    }
}

} // verus!
