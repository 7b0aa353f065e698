//! The post index: order the collection of post pages most-recent-first and
//! render the listing fragment. Dates are raw strings compared
//! lexicographically; a post without a date sorts after every dated post.
//! The sort is an insertion sort, so posts with equal dates keep their
//! original order.

use vstd::prelude::*;
use vstd::string::*;

use crate::html::{escape_html, escaped};
use crate::opt_str_view;
use crate::page::{Page, PageView};
use crate::template::{document_of, render_page};
use crate::text::{lemma_lex_asymmetric, lemma_lex_transitive, lemma_lex_trichotomy, lex_lt,
    str_lex_lt};

verus! {

/// The ordering key of optional date strings: an absent date is the minimum
/// value, and present dates compare lexicographically.
pub open spec fn date_lt(a: Option<Seq<char>>, b: Option<Seq<char>>) -> bool {
    match a {
        Option::None => b is Some,
        Option::Some(x) => match b {
            Option::None => false,
            Option::Some(y) => lex_lt(x, y),
        },
    }
}

pub proof fn lemma_date_trichotomy(a: Option<Seq<char>>, b: Option<Seq<char>>)
    ensures
        date_lt(a, b) || date_lt(b, a) || a == b,
{
    if a is Some && b is Some {
        lemma_lex_trichotomy(a->0, b->0);
    }
}

pub proof fn lemma_date_asymmetric(a: Option<Seq<char>>, b: Option<Seq<char>>)
    requires
        date_lt(a, b),
    ensures
        !date_lt(b, a),
{
    if a is Some && b is Some {
        lemma_lex_asymmetric(a->0, b->0);
    }
}

pub proof fn lemma_date_transitive(a: Option<Seq<char>>, b: Option<Seq<char>>, c: Option<
    Seq<char>,
>)
    requires
        date_lt(a, b),
        date_lt(b, c),
    ensures
        date_lt(a, c),
{
    if a is Some && b is Some && c is Some {
        lemma_lex_transitive(a->0, b->0, c->0);
    }
}

/// Compare two optional date strings.
fn date_lt_exec(a: &Option<String>, b: &Option<String>) -> (r: bool)
    ensures
        r == date_lt(opt_str_view(*a), opt_str_view(*b)),
{
    match a {
        Option::None => match b {
            Option::Some(_) => true,
            Option::None => false,
        },
        Option::Some(x) => match b {
            Option::None => false,
            Option::Some(y) => str_lex_lt(x.as_str(), y.as_str()),
        },
    }
}

/// The pages of the sequence that carry the given date, in sequence order.
/// Together with sortedness, preserving this for every date says the sort is
/// stable: ties keep their original order.
pub open spec fn date_filter(s: Seq<Page>, k: Option<Seq<char>>) -> Seq<Page> {
    s.filter(|p: Page| p@.date == k)
}

/// The pages are ordered by date, most recent first, pages without a date
/// after all dated pages.
pub open spec fn sorted_by_date_desc(s: Seq<Page>) -> bool {
    forall|a: int, b: int|
        0 <= a < b < s.len() ==> !date_lt((#[trigger] s[a])@.date, (#[trigger] s[b])@.date)
}

/// Order the posts for the index: descending by date, an absent date sorting
/// as the minimum (so dateless posts come last). The result holds exactly the
/// given pages. An insertion sort: posts with equal dates keep their order.
pub fn order_posts(posts: Vec<Page>) -> (r: Vec<Page>)
    ensures
        r@.to_multiset() == posts@.to_multiset(),
        r@.len() == posts@.len(),
        sorted_by_date_desc(r@),
        forall|k: Option<Seq<char>>| #[trigger] date_filter(r@, k) == date_filter(posts@, k),
{
    broadcast use vstd::seq_lib::to_multiset_remove;
    broadcast use vstd::seq_lib::to_multiset_insert;
    broadcast use vstd::seq_lib::to_multiset_len;
    broadcast use vstd::multiset::group_multiset_axioms;

    let mut v = posts;
    if v.len() == 0 {
        return v;
    }
    let ghost orig = v@;
    let mut i: usize = 1;
    while i < v.len()
        invariant
            1 <= i <= v.len(),
            v@.len() == orig.len(),
            v@.to_multiset() == orig.to_multiset(),
            forall|k: Option<Seq<char>>| #[trigger] date_filter(v@, k) == date_filter(orig, k),
            forall|a: int, b: int|
                0 <= a < b < i ==> !date_lt((#[trigger] v@[a])@.date, (#[trigger] v@[b])@.date),
        decreases v.len() - i,
    {
        let ghost pre = v@;
        let x = v.remove(i);
        let ghost u = v@;
        proof {
            broadcast use vstd::seq_lib::group_to_multiset_ensures;

            assert(u == pre.remove(i as int));
            assert(u.to_multiset() == pre.to_multiset().remove(x));
            assert(pre.to_multiset().contains(x));
        }
        let mut j: usize = i;
        while j > 0 && date_lt_exec(&v[j - 1].date, &x.date)
            invariant
                j <= i,
                i < orig.len(),
                v@ == u,
                u.len() == orig.len() - 1,
                forall|k: int| j <= k < i ==> date_lt((#[trigger] u[k])@.date, x@.date),
            decreases j,
        {
            j -= 1;
        }
        v.insert(j, x);
        proof {
            let w = v@;
            assert(w == u.insert(j as int, x));
            assert(w.to_multiset() == u.to_multiset().insert(x));
            assert(w.to_multiset() =~= pre.to_multiset());
            u.insert_ensures(j as int, x);
            assert forall|a: int, b: int|
                0 <= a < b < i + 1 implies !date_lt(
                (#[trigger] w[a])@.date,
                (#[trigger] w[b])@.date,
            ) by {
                if b < j {
                } else if b == j {
                    // w[b] is the inserted element; everything before the
                    // insertion point is at least as recent.
                    assert(w[a] == u[a]);
                    if date_lt(u[a]@.date, x@.date) {
                        lemma_date_trichotomy(u[j - 1]@.date, x@.date);
                        if u[j - 1]@.date == x@.date {
                            assert(date_lt(u[a]@.date, u[j - 1]@.date));
                        } else {
                            if a < j - 1 {
                                lemma_date_transitive(u[a]@.date, x@.date, u[j - 1]@.date);
                            }
                        }
                        assert(false);
                    }
                } else {
                    // w[b] comes from the shifted tail.
                    assert(w[b] == u[b - 1]);
                    if a < j {
                        assert(w[a] == u[a]);
                    } else if a == j {
                        assert(date_lt(u[b - 1]@.date, x@.date));
                        lemma_date_asymmetric(u[b - 1]@.date, x@.date);
                    } else {
                        assert(w[a] == u[a - 1]);
                    }
                }
            }
            // Stability: the inserted page passes only pages with strictly
            // older dates, so for every date the filtered subsequence is kept.
            assert forall|k: Option<Seq<char>>| #[trigger] date_filter(w, k) == date_filter(
                pre,
                k,
            ) by {
                let pred = |p: Page| p@.date == k;
                let u0 = pre.take(i as int);
                let u1 = pre.skip(i as int + 1);
                let front = u0.take(j as int);
                let mid = u0.skip(j as int);
                assert(pre =~= u0 + (seq![x] + u1));
                assert(u =~= u0 + u1);
                assert(u0 =~= front + mid);
                assert(w =~= front + (seq![x] + (mid + u1)));
                Seq::filter_distributes_over_add(u0, seq![x] + u1, pred);
                Seq::filter_distributes_over_add(seq![x], u1, pred);
                Seq::filter_distributes_over_add(front, mid, pred);
                Seq::filter_distributes_over_add(front, seq![x] + (mid + u1), pred);
                Seq::filter_distributes_over_add(seq![x], mid + u1, pred);
                Seq::filter_distributes_over_add(mid, u1, pred);
                crate::lemma_filter_singleton(x, pred);
                if pred(x) {
                    assert forall|m: int| 0 <= m < mid.len() implies !pred(mid[m]) by {
                        assert(mid[m] == u[j + m]);
                        assert(date_lt(u[j + m]@.date, x@.date));
                        if u[j + m]@.date == x@.date {
                            match x@.date {
                                Option::Some(s) => lemma_lex_asymmetric(s, s),
                                Option::None => {},
                            }
                        }
                    }
                    crate::lemma_filter_all_false(mid, pred);
                }
                assert(date_filter(w, k) =~= date_filter(pre, k));
            }
        }
        i += 1;
    }
    v
}

/// What one post contributes to the index listing: a link to its page with
/// the title in bold, the date in parentheses, and the description on the
/// next line — date and description rendering as empty text when absent.
pub open spec fn post_item(p: PageView) -> Seq<char> {
    "<li><a href=\"/posts/"@ + escaped(p.slug) + "\"><b>"@ + escaped(p.title) + "</b></a> ("@
        + escaped(opt_or_empty(p.date)) + ") <br>"@ + escaped(opt_or_empty(p.desc)) + "</li>"@
}

/// An optional text, or empty text when absent — never a placeholder literal.
pub open spec fn opt_or_empty(o: Option<Seq<char>>) -> Seq<char> {
    match o {
        Option::None => Seq::empty(),
        Option::Some(s) => s,
    }
}

/// The concatenated index entries of the posts, in order.
pub open spec fn post_items(ps: Seq<PageView>) -> Seq<char>
    decreases ps.len(),
{
    if ps.len() == 0 {
        Seq::empty()
    } else {
        post_items(ps.drop_last()) + post_item(ps.last())
    }
}

/// The full post-index document: the listing fragment wrapped in the site
/// shell as a synthetic page with no title, date, description or slug.
pub open spec fn post_index_doc(ps: Seq<PageView>) -> Seq<char> {
    document_of(
        PageView {
            title: Seq::empty(),
            date: Option::None,
            desc: Option::None,
            slug: Seq::empty(),
            content: "<ul>"@ + post_items(ps) + "</ul>"@,
            path: Seq::empty(),
        },
    )
}

/// One index entry as a string.
fn render_post_item(p: &Page) -> (r: String)
    ensures
        r@ == post_item(p@),
{
    let mut out = String::new();
    out.append("<li><a href=\"/posts/");
    let slug = escape_html(p.slug.as_str());
    out.append(slug.as_str());
    out.append("\"><b>");
    let title = escape_html(p.title.as_str());
    out.append(title.as_str());
    out.append("</b></a> (");
    match &p.date {
        Option::Some(d) => {
            let e = escape_html(d.as_str());
            out.append(e.as_str());
        },
        Option::None => {},
    }
    out.append(") <br>");
    match &p.desc {
        Option::Some(d) => {
            let e = escape_html(d.as_str());
            out.append(e.as_str());
        },
        Option::None => {},
    }
    out.append("</li>");
    proof {
        assert(escaped(Seq::<char>::empty()) == Seq::<char>::empty());
        assert(out@ =~= post_item(p@));
    }
    out
}

/// Render the post-index document for the given (already ordered) posts.
pub fn render_posts(posts: &Vec<Page>) -> (r: String)
    ensures
        r@ == post_index_doc(posts@.map_values(|p: Page| p@)),
{
    let ghost views = posts@.map_values(|p: Page| p@);
    let mut content = String::new();
    content.append("<ul>");
    let mut i: usize = 0;
    proof {
        assert(views.take(0) =~= Seq::<PageView>::empty());
    }
    while i < posts.len()
        invariant
            i <= posts.len(),
            views == posts@.map_values(|p: Page| p@),
            content@ == "<ul>"@ + post_items(views.take(i as int)),
        decreases posts.len() - i,
    {
        let item = render_post_item(&posts[i]);
        content.append(item.as_str());
        proof {
            assert(views.take(i + 1).drop_last() =~= views.take(i as int));
            assert(views.take(i + 1).last() == posts@[i as int]@);
        }
        i += 1;
    }
    content.append("</ul>");
    let page = Page {
        title: String::new(),
        date: Option::None,
        desc: Option::None,
        slug: String::new(),
        content,
        path: String::new(),
    };
    let r = render_page(&page);
    proof {
        assert(views.take(posts@.len() as int) =~= views);
        assert(page@.content =~= "<ul>"@ + post_items(views) + "</ul>"@);
        assert(r@ == post_index_doc(views));
    }
    r
}

} // verus!
