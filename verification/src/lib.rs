//! A static-site content pipeline: markdown source documents carrying a
//! front-matter metadata block become full HTML pages, a date-ordered post
//! index, and a blogroll page aggregated from external syndication feeds.

use vstd::prelude::*;

pub mod errors;
pub mod feeds;
pub mod front_matter;
pub mod html;
pub mod page;
pub mod posts;
pub mod slug;
pub mod template;
pub mod text;

verus! {

/// The abstract value of an optional string.
pub open spec fn opt_str_view(o: Option<String>) -> Option<Seq<char>> {
    match o {
        Option::None => Option::None,
        Option::Some(s) => Option::Some(s@),
    }
}

/// Filtering keeps nothing when no element satisfies the predicate.
pub proof fn lemma_filter_all_false<A>(s: Seq<A>, pred: spec_fn(A) -> bool)
    requires
        forall|i: int| 0 <= i < s.len() ==> !pred(s[i]),
    ensures
        s.filter(pred) == Seq::<A>::empty(),
    decreases s.len(),
{
    reveal(Seq::filter);
    if s.len() > 0 {
        lemma_filter_all_false(s.drop_last(), pred);
    }
}

/// Filtering a singleton keeps its element exactly when it satisfies the
/// predicate.
pub proof fn lemma_filter_singleton<A>(x: A, pred: spec_fn(A) -> bool)
    ensures
        pred(x) ==> seq![x].filter(pred) == seq![x],
        !pred(x) ==> seq![x].filter(pred) == Seq::<A>::empty(),
{
    reveal(Seq::filter);
    assert(seq![x].drop_last() =~= Seq::<A>::empty());
    assert(seq![x].last() == x);
    assert(Seq::<A>::empty().filter(pred) == Seq::<A>::empty());
    assert(seq![x].drop_last().filter(pred) == Seq::<A>::empty());
    if pred(x) {
        assert(seq![x].filter(pred) == Seq::<A>::empty().push(x));
        assert(Seq::<A>::empty().push(x) =~= seq![x]);
    }
}

} // verus!
