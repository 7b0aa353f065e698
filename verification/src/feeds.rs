//! The feed aggregator and blogroll renderer. Each fetched feed contributes
//! its first three entries in the feed's own order; any fetch or parse
//! failure aborts the whole aggregation with the offending URL — no partial
//! results. The accumulated entries are then ordered by update time, most
//! recent first, entries without a time after all timed ones.

use vstd::prelude::*;
use vstd::string::*;

use crate::errors::SiteError;
use crate::html::{escape_html, escaped};
use crate::page::Page;
use crate::posts::opt_or_empty;

verus! {

/// The update instant of a feed entry: the epoch second and the nanosecond
/// within it order entries; the calendar date of the instant is kept as text
/// for display.
#[derive(Debug)]
pub struct FeedTime {
    pub secs: i64,
    pub nanos: u32,
    pub date: String,
}

/// The abstract value of an update instant.
pub struct FeedTimeView {
    pub secs: int,
    pub nanos: int,
    pub date: Seq<char>,
}

impl View for FeedTime {
    type V = FeedTimeView;

    open spec fn view(&self) -> FeedTimeView {
        FeedTimeView { secs: self.secs as int, nanos: self.nanos as int, date: self.date@ }
    }
}

/// One syndicated item: the entry title (possibly empty), the href of the
/// entry's first link if it has any, and the update instant if the source
/// supplies one.
#[derive(Debug)]
pub struct FeedEntry {
    pub title: String,
    pub url: Option<String>,
    pub updated: Option<FeedTime>,
}

/// The abstract value of a feed entry.
pub struct FeedEntryView {
    pub title: Seq<char>,
    pub url: Option<Seq<char>>,
    pub updated: Option<FeedTimeView>,
}

impl View for FeedEntry {
    type V = FeedEntryView;

    open spec fn view(&self) -> FeedEntryView {
        FeedEntryView {
            title: self.title@,
            url: crate::opt_str_view(self.url),
            updated: opt_time_view(self.updated),
        }
    }
}

/// The abstract value of an optional update instant.
pub open spec fn opt_time_view(o: Option<FeedTime>) -> Option<FeedTimeView> {
    match o {
        Option::None => Option::None,
        Option::Some(t) => Option::Some(t@),
    }
}

/// The abstract values of an entry sequence.
pub open spec fn entries_view(s: Seq<FeedEntry>) -> Seq<FeedEntryView> {
    s.map_values(|e: FeedEntry| e@)
}

/// The network authority portion of a URL (scheme and path stripped), or
/// nothing where the text does not parse as an absolute URL; a pure function
/// of the text.
pub uninterp spec fn authority_of(s: Seq<char>) -> Option<Seq<char>>;

/// Relies on url's Url::parse and Url::authority.
#[verifier::external_body]
fn url_authority(s: &str) -> (r: Option<String>)
    ensures
        crate::opt_str_view(r) == authority_of(s@),
{
    url::Url::parse(s).ok().map(|u| u.authority().to_string())
}

/// The ordering key of optional update instants: an absent instant is the
/// minimum value; present instants order by second, then nanosecond.
pub open spec fn updated_lt(a: Option<FeedTimeView>, b: Option<FeedTimeView>) -> bool {
    match a {
        Option::None => b is Some,
        Option::Some(x) => match b {
            Option::None => false,
            Option::Some(y) => x.secs < y.secs || (x.secs == y.secs && x.nanos < y.nanos),
        },
    }
}

/// Compare two optional update instants.
fn updated_lt_exec(a: &Option<FeedTime>, b: &Option<FeedTime>) -> (r: bool)
    ensures
        r == updated_lt(opt_time_view(*a), opt_time_view(*b)),
{
    match a {
        Option::None => match b {
            Option::Some(_) => true,
            Option::None => false,
        },
        Option::Some(x) => match b {
            Option::None => false,
            Option::Some(y) => x.secs < y.secs || (x.secs == y.secs && x.nanos < y.nanos),
        },
    }
}

/// The entries of the sequence that carry the given update instant, in
/// sequence order. Together with sortedness, preserving this for every
/// instant says the sort is stable: ties keep their original order.
pub open spec fn updated_filter(s: Seq<FeedEntry>, k: Option<FeedTimeView>) -> Seq<FeedEntry> {
    s.filter(|e: FeedEntry| e@.updated == k)
}

/// The abstract entries of the sequence that carry the given update instant,
/// in sequence order.
pub open spec fn view_updated_filter(s: Seq<FeedEntryView>, k: Option<FeedTimeView>) -> Seq<
    FeedEntryView,
> {
    s.filter(|e: FeedEntryView| e.updated == k)
}

/// Filtering by update instant commutes with taking abstract values.
proof fn lemma_view_filter(s: Seq<FeedEntry>, k: Option<FeedTimeView>)
    ensures
        entries_view(updated_filter(s, k)) == view_updated_filter(entries_view(s), k),
    decreases s.len(),
{
    reveal(Seq::filter);
    if s.len() == 0 {
        assert(entries_view(updated_filter(s, k)) =~= view_updated_filter(entries_view(s), k));
    } else {
        lemma_view_filter(s.drop_last(), k);
        let x = s.last();
        assert(entries_view(s).drop_last() =~= entries_view(s.drop_last()));
        assert(entries_view(s).last() == x@);
        if x@.updated == k {
            assert(entries_view(updated_filter(s.drop_last(), k).push(x)) =~= entries_view(
                updated_filter(s.drop_last(), k),
            ).push(x@));
        }
        assert(entries_view(updated_filter(s, k)) =~= view_updated_filter(entries_view(s), k));
    }
}

/// The entries are ordered by update instant, most recent first, entries
/// without an instant after all timed ones.
pub open spec fn sorted_by_updated_desc(s: Seq<FeedEntry>) -> bool {
    forall|a: int, b: int|
        0 <= a < b < s.len() ==> !updated_lt((#[trigger] s[a])@.updated, (#[trigger] s[b])@.updated)
}

/// Order the aggregated entries: descending by update instant, an absent
/// instant sorting as the minimum (so untimed entries come last). The result
/// holds exactly the given entries. An insertion sort: entries with equal
/// instants keep their order.
#[verifier::rlimit(50)]
pub fn order_entries(entries: Vec<FeedEntry>) -> (r: Vec<FeedEntry>)
    ensures
        r@.to_multiset() == entries@.to_multiset(),
        entries_view(r@).to_multiset() == entries_view(entries@).to_multiset(),
        r@.len() == entries@.len(),
        sorted_by_updated_desc(r@),
        forall|k: Option<FeedTimeView>| #[trigger] updated_filter(r@, k) == updated_filter(
            entries@,
            k,
        ),
{
    broadcast use vstd::seq_lib::to_multiset_remove;
    broadcast use vstd::seq_lib::to_multiset_insert;
    broadcast use vstd::seq_lib::to_multiset_len;
    broadcast use vstd::multiset::group_multiset_axioms;

    let mut v = entries;
    if v.len() == 0 {
        return v;
    }
    let ghost orig = v@;
    let mut i: usize = 1;
    while i < v.len()
        invariant
            1 <= i <= v.len(),
            v@.len() == orig.len(),
            v@.to_multiset() == orig.to_multiset(),
            entries_view(v@).to_multiset() == entries_view(orig).to_multiset(),
            forall|k: Option<FeedTimeView>| #[trigger] updated_filter(v@, k) == updated_filter(
                orig,
                k,
            ),
            forall|a: int, b: int|
                0 <= a < b < i ==> !updated_lt(
                    (#[trigger] v@[a])@.updated,
                    (#[trigger] v@[b])@.updated,
                ),
        decreases v.len() - i,
    {
        let ghost pre = v@;
        let x = v.remove(i);
        let ghost u = v@;
        proof {
            broadcast use vstd::seq_lib::group_to_multiset_ensures;

            assert(u == pre.remove(i as int));
            assert(u.to_multiset() == pre.to_multiset().remove(x));
            assert(pre.to_multiset().contains(x));
            assert(entries_view(u) =~= entries_view(pre).remove(i as int));
            assert(entries_view(pre)[i as int] == x@);
            assert(entries_view(u).to_multiset() == entries_view(pre).to_multiset().remove(x@));
            assert(entries_view(pre).to_multiset().contains(x@));
        }
        let mut j: usize = i;
        while j > 0 && updated_lt_exec(&v[j - 1].updated, &x.updated)
            invariant
                j <= i,
                i < orig.len(),
                v@ == u,
                u.len() == orig.len() - 1,
                forall|k: int| j <= k < i ==> updated_lt((#[trigger] u[k])@.updated, x@.updated),
            decreases j,
        {
            j -= 1;
        }
        v.insert(j, x);
        proof {
            let w = v@;
            assert(w == u.insert(j as int, x));
            assert(w.to_multiset() == u.to_multiset().insert(x));
            assert(w.to_multiset() =~= pre.to_multiset());
            u.insert_ensures(j as int, x);
            assert(entries_view(w) =~= entries_view(u).insert(j as int, x@));
            assert(entries_view(w).to_multiset() == entries_view(u).to_multiset().insert(x@));
            assert(entries_view(w).to_multiset() =~= entries_view(pre).to_multiset());
            assert forall|a: int, b: int|
                0 <= a < b < i + 1 implies !updated_lt(
                (#[trigger] w[a])@.updated,
                (#[trigger] w[b])@.updated,
            ) by {
                if b < j {
                } else if b == j {
                    assert(w[a] == u[a]);
                    if a < j - 1 {
                        assert(!updated_lt(u[a]@.updated, u[j - 1]@.updated));
                        assert(!updated_lt(u[j - 1]@.updated, x@.updated));
                    }
                } else {
                    assert(w[b] == u[b - 1]);
                    if a < j {
                        assert(w[a] == u[a]);
                    } else if a == j {
                        assert(updated_lt(u[b - 1]@.updated, x@.updated));
                    } else {
                        assert(w[a] == u[a - 1]);
                    }
                }
            }
            // Stability: the inserted entry passes only entries with strictly
            // earlier instants, so for every instant the filtered subsequence
            // is kept.
            assert forall|k: Option<FeedTimeView>| #[trigger] updated_filter(w, k)
                == updated_filter(pre, k) by {
                let pred = |e: FeedEntry| e@.updated == k;
                let u0 = pre.take(i as int);
                let u1 = pre.skip(i as int + 1);
                let front = u0.take(j as int);
                let mid = u0.skip(j as int);
                assert(pre =~= u0 + (seq![x] + u1));
                assert(u =~= u0 + u1);
                assert(u0 =~= front + mid);
                assert(w =~= front + (seq![x] + (mid + u1)));
                Seq::filter_distributes_over_add(u0, seq![x] + u1, pred);
                Seq::filter_distributes_over_add(seq![x], u1, pred);
                Seq::filter_distributes_over_add(front, mid, pred);
                Seq::filter_distributes_over_add(front, seq![x] + (mid + u1), pred);
                Seq::filter_distributes_over_add(seq![x], mid + u1, pred);
                Seq::filter_distributes_over_add(mid, u1, pred);
                crate::lemma_filter_singleton(x, pred);
                if pred(x) {
                    assert forall|m: int| 0 <= m < mid.len() implies !pred(mid[m]) by {
                        assert(mid[m] == u[j + m]);
                        assert(updated_lt(u[j + m]@.updated, x@.updated));
                    }
                    crate::lemma_filter_all_false(mid, pred);
                }
                assert(updated_filter(w, k) =~= updated_filter(pre, k));
            }
        }
        i += 1;
    }
    v
}

/// One fetched feed handed to the aggregator: the URL it came from, and the
/// feed's entries in the feed's own order — or nothing where fetching or
/// parsing the feed failed.
pub struct FeedResponse {
    pub url: String,
    pub entries: Option<Vec<FeedEntry>>,
}

/// The abstract value of a fetched feed.
pub struct FeedResponseView {
    pub url: Seq<char>,
    pub entries: Option<Seq<FeedEntryView>>,
}

impl View for FeedResponse {
    type V = FeedResponseView;

    open spec fn view(&self) -> FeedResponseView {
        FeedResponseView {
            url: self.url@,
            entries: match self.entries {
                Option::None => Option::None,
                Option::Some(es) => Option::Some(entries_view(es@)),
            },
        }
    }
}

/// The abstract values of a response sequence.
pub open spec fn responses_view(rs: Seq<FeedResponse>) -> Seq<FeedResponseView> {
    rs.map_values(|x: FeedResponse| x@)
}

/// The feed was fetched and parsed.
pub open spec fn response_ok(r: FeedResponseView) -> bool {
    r.entries is Some
}

/// The first three entries of a feed, in the feed's own order — fewer where
/// the feed has fewer. The feed is never reordered before truncation.
pub open spec fn taken_entries(es: Seq<FeedEntryView>) -> Seq<FeedEntryView> {
    if es.len() <= 3 {
        es
    } else {
        es.take(3)
    }
}

/// Every feed's taken entries, accumulated in the order the feeds were given.
pub open spec fn all_taken_entries(rs: Seq<FeedResponseView>) -> Seq<FeedEntryView>
    decreases rs.len(),
{
    if rs.len() == 0 {
        Seq::empty()
    } else {
        all_taken_entries(rs.drop_last()) + taken_entries(rs.last().entries->0)
    }
}

/// Aggregate the fetched feeds: take the first three entries of each in feed
/// order, fail the whole aggregation with `FeedFetch` naming the first URL
/// whose fetch or parse failed (no partial results), and order the
/// accumulated entries most recent first.
pub fn aggregate_feeds(responses: Vec<FeedResponse>) -> (r: Result<Vec<FeedEntry>, SiteError>)
    ensures
        ({
            let rs = responses_view(responses@);
            match r {
                Ok(es) => (forall|k: int| 0 <= k < rs.len() ==> response_ok(#[trigger] rs[k]))
                    && entries_view(es@).to_multiset() == all_taken_entries(rs).to_multiset()
                    && sorted_by_updated_desc(es@) && (forall|k: Option<FeedTimeView>|
                    #[trigger] view_updated_filter(entries_view(es@), k) == view_updated_filter(
                        all_taken_entries(rs),
                        k,
                    )),
                Err(e) => match e {
                    SiteError::FeedFetch(url) => exists|k: int|
                        0 <= k < rs.len() && !response_ok(#[trigger] rs[k]) && url@ == rs[k].url
                            && (forall|m: int| 0 <= m < k ==> response_ok(#[trigger] rs[m])),
                    _ => false,
                },
            }
        }),
{
    let ghost rs = responses_view(responses@);
    let mut rest = responses;
    let n = rest.len();
    let mut acc: Vec<FeedEntry> = Vec::new();
    let mut i: usize = 0;
    proof {
        assert(entries_view(acc@) =~= all_taken_entries(rs.take(0)));
        assert(responses_view(rest@) =~= rs.skip(0));
    }
    while rest.len() > 0
        invariant
            rs == responses_view(responses@),
            i <= n,
            n == rs.len(),
            i + rest@.len() == rs.len(),
            responses_view(rest@) == rs.skip(i as int),
            entries_view(acc@) == all_taken_entries(rs.take(i as int)),
            forall|k: int| 0 <= k < i ==> response_ok(#[trigger] rs[k]),
        decreases rest@.len(),
    {
        let ghost held = rest@;
        let resp = rest.remove(0);
        let ghost rv = resp@;
        proof {
            assert(responses_view(held)[0] == rv);
            assert(rv == rs[i as int]);
            assert(rest@ =~= held.skip(1));
            let mapped = responses_view(rest@);
            assert forall|m: int| 0 <= m < mapped.len() implies #[trigger] mapped[m] == rs.skip(
                i as int + 1,
            )[m] by {
                assert(rest@[m] == held[m + 1]);
                assert(responses_view(held)[m + 1] == held[m + 1]@);
                assert(rs.skip(i as int)[m + 1] == rs[i as int + 1 + m]);
            }
            assert(responses_view(rest@) =~= rs.skip(i as int + 1));
        }
        let mut take = match resp.entries {
            Option::Some(es) => es,
            Option::None => {
                let url = resp.url;
                proof {
                    // The failing feed is the witness: everything before it
                    // was fetched and parsed.
                    assert(!response_ok(rs[i as int]));
                    assert(url@ == rs[i as int].url);
                }
                return Err(SiteError::FeedFetch(url));
            },
        };
        let ghost full = take@;
        proof {
            assert(rv.entries == Option::Some(entries_view(full)));
        }
        if take.len() > 3 {
            take.truncate(3);
        }
        proof {
            assert(entries_view(take@) =~= taken_entries(rs[i as int].entries->0));
        }
        acc.append(&mut take);
        proof {
            assert(rs.take(i + 1).drop_last() =~= rs.take(i as int));
            assert(rs.take(i + 1).last() == rs[i as int]);
            assert(entries_view(acc@) =~= all_taken_entries(rs.take(i + 1)));
        }
        i += 1;
    }
    proof {
        assert(rs.take(rs.len() as int) =~= rs);
    }
    let ghost accumulated = acc@;
    let sorted = order_entries(acc);
    proof {
        assert forall|k: Option<FeedTimeView>| #[trigger] view_updated_filter(
            entries_view(sorted@),
            k,
        ) == view_updated_filter(all_taken_entries(rs), k) by {
            lemma_view_filter(sorted@, k);
            lemma_view_filter(accumulated, k);
            assert(updated_filter(sorted@, k) == updated_filter(accumulated, k));
        }
    }
    Ok(sorted)
}

/// The formatted date suffix of an entry: the update instant's calendar date
/// in parentheses, or empty text when the instant is absent.
pub open spec fn paren_date(t: Option<FeedTimeView>) -> Seq<char> {
    match t {
        Option::None => Seq::empty(),
        Option::Some(t) => "("@ + t.date + ")"@,
    }
}

/// What one entry contributes to the blogroll listing: a link with the title
/// in bold, the date suffix, and on the next line the domain of the entry —
/// the URL's authority, or empty text where the URL is absent or unparsable.
pub open spec fn entry_item(e: FeedEntryView) -> Seq<char> {
    "<li><a href=\""@ + escaped(opt_or_empty(e.url)) + "\"><b>"@ + escaped(e.title)
        + "</b></a> "@ + escaped(paren_date(e.updated)) + "<br>"@ + escaped(
        opt_or_empty(authority_of(opt_or_empty(e.url))),
    ) + "</li>"@
}

/// The concatenated blogroll entries, in order.
pub open spec fn entry_items(es: Seq<FeedEntryView>) -> Seq<char>
    decreases es.len(),
{
    if es.len() == 0 {
        Seq::empty()
    } else {
        entry_items(es.drop_last()) + entry_item(es.last())
    }
}

/// One blogroll entry as a string.
fn render_entry_item(e: &FeedEntry) -> (r: String)
    ensures
        r@ == entry_item(e@),
{
    let mut out = String::new();
    out.append("<li><a href=\"");
    let url_str: &str = match &e.url {
        Option::Some(u) => u.as_str(),
        Option::None => "",
    };
    proof {
        reveal_strlit("");
        assert(url_str@ =~= opt_or_empty(e@.url));
    }
    let ue = escape_html(url_str);
    out.append(ue.as_str());
    out.append("\"><b>");
    let te = escape_html(e.title.as_str());
    out.append(te.as_str());
    out.append("</b></a> ");
    match &e.updated {
        Option::Some(t) => {
            let mut d = String::new();
            d.append("(");
            d.append(t.date.as_str());
            d.append(")");
            proof {
                assert(d@ =~= paren_date(e@.updated));
            }
            let de = escape_html(d.as_str());
            out.append(de.as_str());
        },
        Option::None => {},
    }
    out.append("<br>");
    match url_authority(url_str) {
        Option::Some(a) => {
            let ae = escape_html(a.as_str());
            out.append(ae.as_str());
        },
        Option::None => {},
    }
    out.append("</li>");
    proof {
        assert(escaped(Seq::<char>::empty()) == Seq::<char>::empty());
        assert(out@ =~= entry_item(e@));
    }
    out
}

/// The blogroll listing fragment for the given (already ordered) entries.
pub fn blogroll_content(entries: &Vec<FeedEntry>) -> (r: String)
    ensures
        r@ == "<ul>"@ + entry_items(entries_view(entries@)) + "</ul>"@,
{
    let ghost views = entries_view(entries@);
    let mut out = String::new();
    out.append("<ul>");
    let mut i: usize = 0;
    proof {
        assert(views.take(0) =~= Seq::<FeedEntryView>::empty());
    }
    while i < entries.len()
        invariant
            i <= entries.len(),
            views == entries_view(entries@),
            out@ == "<ul>"@ + entry_items(views.take(i as int)),
        decreases entries.len() - i,
    {
        let item = render_entry_item(&entries[i]);
        out.append(item.as_str());
        proof {
            assert(views.take(i + 1).drop_last() =~= views.take(i as int));
            assert(views.take(i + 1).last() == entries@[i as int]@);
        }
        i += 1;
    }
    out.append("</ul>");
    proof {
        assert(views.take(entries@.len() as int) =~= views);
    }
    out
}

/// Assemble the blogroll page: a synthetic page — empty title and slug, no
/// date or description — whose content is the rendered entry list, carrying
/// the feed-list path for diagnostics.
pub fn blogroll_page(entries: &Vec<FeedEntry>, path: String) -> (r: Page)
    ensures
        r@.title == Seq::<char>::empty(),
        r@.date is None,
        r@.desc is None,
        r@.slug == Seq::<char>::empty(),
        r@.content == "<ul>"@ + entry_items(entries_view(entries@)) + "</ul>"@,
        r@.path == path@,
{
    let content = blogroll_content(entries);
    Page {
        title: String::new(),
        date: Option::None,
        desc: Option::None,
        slug: String::new(),
        content,
        path,
    }
}

} // verus!
