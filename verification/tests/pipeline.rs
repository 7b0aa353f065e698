use site::errors::{FrontMatterIssue, SiteError};
use site::feeds::{aggregate_feeds, blogroll_content, blogroll_page, FeedEntry, FeedResponse,
    FeedTime};
use site::front_matter::{front_matter_text, FmToken};
use site::html::escape_html;
use site::page::Page;
use site::posts::{order_posts, render_posts};
use site::slug::extract_slug;
use site::template::{meta_styling, render_page};
use site::text::feed_url_list;

fn page(title: &str, date: Option<&str>) -> Page {
    Page {
        title: title.to_string(),
        date: date.map(|d| d.to_string()),
        desc: None,
        slug: title.to_string(),
        content: String::new(),
        path: String::new(),
    }
}

#[test]
fn slug_plain_filename() {
    assert_eq!(extract_slug("hello.md").unwrap(), "hello");
}

#[test]
fn slug_dated_filename() {
    assert_eq!(extract_slug("2024-01-01-hello.md").unwrap(), "hello");
}

#[test]
fn slug_date_without_trailing_dash_is_kept() {
    assert_eq!(extract_slug("2024-01-01.md").unwrap(), "2024-01-01");
}

#[test]
fn slug_strips_one_date_prefix_only() {
    assert_eq!(extract_slug("2024-01-01-2025-02-02-x.md").unwrap(), "2025-02-02-x");
}

#[test]
fn slug_md_mid_name_is_not_a_suffix() {
    assert_eq!(extract_slug("a.md.md").unwrap(), "a.md");
    assert!(matches!(extract_slug("a.md.bak"), Err(SiteError::InvalidSlug)));
}

#[test]
fn slug_rejects_non_matching_names() {
    assert!(matches!(extract_slug("hello.txt"), Err(SiteError::InvalidSlug)));
    assert!(matches!(extract_slug("a.mdx"), Err(SiteError::InvalidSlug)));
    assert!(matches!(extract_slug("md"), Err(SiteError::InvalidSlug)));
    assert!(matches!(extract_slug(""), Err(SiteError::InvalidSlug)));
}

#[test]
fn slug_empty_name_is_allowed() {
    assert_eq!(extract_slug(".md").unwrap(), "");
}

#[test]
fn front_matter_string_value_is_verbatim() {
    let md = "+++\ntitle = \"Hello & <World>\"\n+++\nbody";
    let p = Page::parse("p".to_string(), "s".to_string(), md).unwrap();
    assert_eq!(p.title, "Hello & <World>");
}

#[test]
fn front_matter_integer_value_is_stringified() {
    let md = "+++\ntitle = 7\n+++\nbody";
    let p = Page::parse("p".to_string(), "s".to_string(), md).unwrap();
    assert_eq!(p.title, "7");
}

#[test]
fn front_matter_boolean_value_is_stringified() {
    let md = "+++\ntitle = false\n+++\nbody";
    let p = Page::parse("p".to_string(), "s".to_string(), md).unwrap();
    assert_eq!(p.title, "false");
}

#[test]
fn missing_title_fails_with_missing_field() {
    let md = "+++\ndate = \"2024-01-01\"\n+++\nbody";
    match Page::parse("p".to_string(), "s".to_string(), md) {
        Err(SiteError::MissingField(k)) => assert_eq!(k, "title"),
        other => panic!("expected MissingField, got {:?}", other),
    }
}

#[test]
fn missing_date_and_description_yield_none() {
    let md = "+++\ntitle = \"t\"\n+++\nbody";
    let p = Page::parse("p".to_string(), "s".to_string(), md).unwrap();
    assert_eq!(p.date, None);
    assert_eq!(p.desc, None);
}

#[test]
fn document_without_front_matter_is_malformed() {
    let md = "# Hi";
    match Page::parse("p".to_string(), "s".to_string(), md) {
        Err(SiteError::MalformedFrontMatter(issue)) => {
            assert_eq!(issue, FrontMatterIssue::NoStart)
        },
        other => panic!("expected MalformedFrontMatter, got {:?}", other),
    }
}

#[test]
fn invalid_metadata_table_is_malformed() {
    let md = "+++\nnot == toml\n+++\nbody";
    match Page::parse("p".to_string(), "s".to_string(), md) {
        Err(SiteError::MalformedFrontMatter(issue)) => {
            assert_eq!(issue, FrontMatterIssue::BadTable)
        },
        other => panic!("expected MalformedFrontMatter, got {:?}", other),
    }
}

#[test]
fn prefix_check_names_the_violated_expectation() {
    let no_text = vec![FmToken::MetaStart, FmToken::MetaEnd];
    match front_matter_text(&no_text) {
        Err(SiteError::MalformedFrontMatter(issue)) => {
            assert_eq!(issue, FrontMatterIssue::NoText)
        },
        other => panic!("expected MalformedFrontMatter, got {:?}", other),
    }
    let no_end = vec![FmToken::MetaStart, FmToken::Text("t = 1".to_string()), FmToken::Other];
    match front_matter_text(&no_end) {
        Err(SiteError::MalformedFrontMatter(issue)) => {
            assert_eq!(issue, FrontMatterIssue::NoEnd)
        },
        other => panic!("expected MalformedFrontMatter, got {:?}", other),
    }
    let ok = vec![
        FmToken::MetaStart,
        FmToken::Text("t = 1".to_string()),
        FmToken::MetaEnd,
    ];
    assert_eq!(front_matter_text(&ok).unwrap(), "t = 1");
}

#[test]
fn render_of_bare_page_is_exactly_the_shell() {
    let doc = render_page(&page("", None));
    let expected = format!(
        "<!DOCTYPE html><html lang=\"en\"><head>{}\
         <script src=\"/static/highlight.min.js\"></script>\
         <script>hljs.highlightAll();</script></head><body><div class=\"w\"><header>\
         <nav class=\"top-nav\"><a href=\"/\">home</a><a href=\"/posts\">posts</a>\
         <a href=\"/blogroll\">blogroll</a></nav></header>\
         <main aria-label=\"Content\" class=\"page-content\"></main>\
         <footer></footer></div></body></html>",
        meta_styling()
    );
    assert_eq!(doc, expected);
}

#[test]
fn posts_order_descending_dateless_last() {
    let posts = vec![
        page("a", Some("2024-01-01")),
        page("b", None),
        page("c", Some("2024-06-01")),
    ];
    let ordered = order_posts(posts);
    let dates: Vec<Option<String>> = ordered.iter().map(|p| p.date.clone()).collect();
    assert_eq!(
        dates,
        vec![Some("2024-06-01".to_string()), Some("2024-01-01".to_string()), None]
    );
}

#[test]
fn posts_order_is_stable_on_ties() {
    let posts = vec![
        page("first", Some("2024-01-01")),
        page("second", Some("2024-01-01")),
        page("third", Some("2024-02-02")),
    ];
    let ordered = order_posts(posts);
    let titles: Vec<String> = ordered.iter().map(|p| p.title.clone()).collect();
    assert_eq!(titles, vec!["third", "first", "second"]);
}

#[test]
fn render_is_pure() {
    let p = page("Title", Some("2024-01-01"));
    let a = render_page(&p);
    let b = render_page(&p);
    assert_eq!(a, b);
}

#[test]
fn render_empty_title_omits_heading() {
    let p = page("", None);
    let doc = render_page(&p);
    assert!(!doc.contains("<h1>"));
    assert!(!doc.contains("<time"));
    assert!(doc.contains("<nav class=\"top-nav\""));
    assert!(doc.contains("href=\"/posts\""));
    assert!(doc.contains("href=\"/blogroll\""));
}

#[test]
fn render_escapes_title_text() {
    let p = page("a<b>&\"c\"", None);
    let doc = render_page(&p);
    assert!(doc.contains("<h1>a&lt;b&gt;&amp;&quot;c&quot;</h1>"));
}

#[test]
fn escape_replaces_the_four_special_characters() {
    assert_eq!(escape_html("a<b&c>\"d\""), "a&lt;b&amp;c&gt;&quot;d&quot;");
    assert_eq!(escape_html("plain"), "plain");
    assert_eq!(escape_html(""), "");
}

#[test]
fn meta_styling_references_fixed_assets() {
    let m = meta_styling();
    assert!(m.contains("/static/style.css"));
    assert!(m.contains("/static/highlight.github-gist.min.css"));
    assert!(m.contains("favicon-32x32.png"));
    assert!(m.contains("favicon-16x16.png"));
}

#[test]
fn end_to_end_post_document() {
    let slug = extract_slug("2024-03-01-hello.md").unwrap();
    assert_eq!(slug, "hello");
    let md = "+++\ntitle = \"Hello\"\ndate = \"2024-03-01\"\n+++\n# Hi";
    let p = Page::parse("2024-03-01-hello.md".to_string(), slug, md).unwrap();
    assert_eq!(p.title, "Hello");
    assert_eq!(p.date.as_deref(), Some("2024-03-01"));
    let doc = render_page(&p);
    assert!(doc.contains("<h1>Hello</h1>"));
    assert!(doc.contains("<time datetime=\"2024-03-01\">2024-03-01</time>"));
    assert!(doc.contains("<h1>Hi</h1>"));
    assert!(doc.starts_with("<!DOCTYPE html>"));
}

#[test]
fn post_index_lists_ordered_posts() {
    let mut p1 = page("One", Some("2024-05-01"));
    p1.slug = "one".to_string();
    p1.desc = Some("first".to_string());
    let mut p2 = page("Two", None);
    p2.slug = "two".to_string();
    let ordered = order_posts(vec![p2, p1]);
    let doc = render_posts(&ordered);
    let one = doc.find("/posts/one").unwrap();
    let two = doc.find("/posts/two").unwrap();
    assert!(one < two, "dated post must come before the dateless one");
    assert!(doc.contains("<b>One</b></a> (2024-05-01) <br>first</li>"));
    assert!(doc.contains("<b>Two</b></a> () <br></li>"));
}

fn entry(name: &str, feed: &str, secs: Option<i64>) -> FeedEntry {
    FeedEntry {
        title: name.to_string(),
        url: Some(format!("https://{feed}.example.org/{name}")),
        updated: secs.map(|secs| FeedTime { secs, nanos: 0, date: "2024-01-01".to_string() }),
    }
}

#[test]
fn aggregation_takes_three_per_feed_and_orders() {
    let feed_a = vec![
        entry("a1", "a", Some(105)),
        entry("a2", "a", Some(104)),
        entry("a3", "a", Some(103)),
        entry("a4", "a", Some(102)),
        entry("a5", "a", Some(101)),
    ];
    let feed_b = vec![
        entry("b1", "b", Some(200)),
        entry("b2", "b", None),
        entry("b3", "b", None),
        entry("b4", "b", Some(300)),
        entry("b5", "b", Some(301)),
    ];
    let responses = vec![
        FeedResponse { url: "https://a.example.org/feed".to_string(), entries: Some(feed_a) },
        FeedResponse { url: "https://b.example.org/feed".to_string(), entries: Some(feed_b) },
    ];
    let entries = aggregate_feeds(responses).unwrap();
    assert_eq!(entries.len(), 6);
    let titles: Vec<&str> = entries.iter().map(|e| e.title.as_str()).collect();
    assert_eq!(titles, vec!["b1", "a1", "a2", "a3", "b2", "b3"]);
    assert!(entries[4].updated.is_none());
    assert!(entries[5].updated.is_none());
    assert_eq!(entries[0].url.as_deref(), Some("https://b.example.org/b1"));
}

#[test]
fn aggregation_orders_by_nanoseconds_on_equal_seconds() {
    let mut early = entry("early", "a", Some(50));
    let mut late = entry("late", "a", Some(50));
    if let Some(t) = early.updated.as_mut() {
        t.nanos = 1;
    }
    if let Some(t) = late.updated.as_mut() {
        t.nanos = 2;
    }
    let responses = vec![FeedResponse {
        url: "https://a.example.org/feed".to_string(),
        entries: Some(vec![early, late]),
    }];
    let entries = aggregate_feeds(responses).unwrap();
    let titles: Vec<&str> = entries.iter().map(|e| e.title.as_str()).collect();
    assert_eq!(titles, vec!["late", "early"]);
}

#[test]
fn aggregation_fails_on_a_failed_feed() {
    let responses =
        vec![FeedResponse { url: "https://dead.example.org".to_string(), entries: None }];
    match aggregate_feeds(responses) {
        Err(SiteError::FeedFetch(url)) => assert_eq!(url, "https://dead.example.org"),
        other => panic!("expected FeedFetch, got {:?}", other),
    }
}

#[test]
fn aggregation_reports_the_first_failure() {
    let responses = vec![
        FeedResponse {
            url: "https://ok.example.org".to_string(),
            entries: Some(vec![entry("x", "ok", Some(1))]),
        },
        FeedResponse { url: "https://first.example.org".to_string(), entries: None },
        FeedResponse { url: "https://second.example.org".to_string(), entries: None },
    ];
    match aggregate_feeds(responses) {
        Err(SiteError::FeedFetch(url)) => assert_eq!(url, "https://first.example.org"),
        other => panic!("expected FeedFetch, got {:?}", other),
    }
}

#[test]
fn blogroll_renders_domain_and_date() {
    let entries = vec![
        FeedEntry {
            title: "Post".to_string(),
            url: Some("https://blog.example.org/post?x=1".to_string()),
            updated: Some(FeedTime { secs: 0, nanos: 0, date: "2024-03-01".to_string() }),
        },
        FeedEntry { title: "Bare".to_string(), url: None, updated: None },
    ];
    let html = blogroll_content(&entries);
    assert!(html.contains("<a href=\"https://blog.example.org/post?x=1\"><b>Post</b></a> (2024-03-01)<br>blog.example.org</li>"));
    assert!(html.contains("<a href=\"\"><b>Bare</b></a> <br></li>"));
}

#[test]
fn blogroll_page_is_synthetic() {
    let p = blogroll_page(&vec![], "blogroll.txt".to_string());
    assert_eq!(p.title, "");
    assert_eq!(p.slug, "");
    assert_eq!(p.date, None);
    assert_eq!(p.content, "<ul></ul>");
    assert_eq!(p.path, "blogroll.txt");
    let doc = render_page(&p);
    assert!(!doc.contains("<h1>"));
}

#[test]
fn blogroll_document_wraps_the_listing() {
    let entries = vec![FeedEntry {
        title: "Post".to_string(),
        url: Some("https://blog.example.org/p".to_string()),
        updated: None,
    }];
    let p = blogroll_page(&entries, "blogroll.txt".to_string());
    let doc = render_page(&p);
    assert!(doc.contains("<ul><li><a href=\"https://blog.example.org/p\"><b>Post</b></a> <br>blog.example.org</li></ul>"));
}

#[test]
fn url_list_is_split_and_trimmed() {
    let urls = feed_url_list("https://a.example.org\n  https://b.example.org  \n\nhttps://c.example.org\n");
    assert_eq!(
        urls,
        vec![
            "https://a.example.org".to_string(),
            "https://b.example.org".to_string(),
            "".to_string(),
            "https://c.example.org".to_string(),
        ]
    );
    assert_eq!(feed_url_list(""), Vec::<String>::new());
}

#[test]
fn error_messages_name_the_cause() {
    assert_eq!(SiteError::InvalidSlug.message(), "invalid slug");
    assert_eq!(
        SiteError::MissingField("title".to_string()).message(),
        "missing title"
    );
    assert_eq!(
        SiteError::MalformedFrontMatter(FrontMatterIssue::NoStart).message(),
        "expected a metadata block to start"
    );
}
