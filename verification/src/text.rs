//! Plain-text groundwork: lexicographic ordering of character sequences
//! (dates are kept as raw strings and ordered this way), Unicode whitespace,
//! trimming, and splitting the line-delimited feed URL list.

use vstd::prelude::*;
use vstd::string::*;

verus! {

/// Strict lexicographic order on character sequences, by code point. A proper
/// prefix sorts before any of its extensions.
pub open spec fn lex_lt(a: Seq<char>, b: Seq<char>) -> bool
    decreases a.len(),
{
    if b.len() == 0 {
        false
    } else if a.len() == 0 {
        true
    } else if (a[0] as int) < (b[0] as int) {
        true
    } else if (b[0] as int) < (a[0] as int) {
        false
    } else {
        lex_lt(a.skip(1), b.skip(1))
    }
}

/// Two sequences are lexicographically ordered one way or the other, or equal.
pub proof fn lemma_lex_trichotomy(a: Seq<char>, b: Seq<char>)
    ensures
        lex_lt(a, b) || lex_lt(b, a) || a == b,
    decreases a.len(),
{
    if a.len() == 0 && b.len() == 0 {
        assert(a =~= b);
    } else if a.len() > 0 && b.len() > 0 && a[0] == b[0] {
        lemma_lex_trichotomy(a.skip(1), b.skip(1));
        if !lex_lt(a, b) && !lex_lt(b, a) {
            assert(a.skip(1) =~= b.skip(1));
            assert forall|i: int| 0 <= i < a.len() implies a[i] == b[i] by {
                if i > 0 {
                    assert(a.skip(1)[i - 1] == a[i]);
                    assert(b.skip(1)[i - 1] == b[i]);
                }
            }
            assert(a =~= b);
        }
    }
}

/// Lexicographic order is asymmetric.
pub proof fn lemma_lex_asymmetric(a: Seq<char>, b: Seq<char>)
    requires
        lex_lt(a, b),
    ensures
        !lex_lt(b, a),
    decreases a.len(),
{
    if a.len() > 0 && b.len() > 0 && a[0] == b[0] {
        lemma_lex_asymmetric(a.skip(1), b.skip(1));
    }
}

/// Lexicographic order is transitive.
pub proof fn lemma_lex_transitive(a: Seq<char>, b: Seq<char>, c: Seq<char>)
    requires
        lex_lt(a, b),
        lex_lt(b, c),
    ensures
        lex_lt(a, c),
    decreases a.len(),
{
    if a.len() > 0 && b.len() > 0 && c.len() > 0 && a[0] == b[0] && b[0] == c[0] {
        lemma_lex_transitive(a.skip(1), b.skip(1), c.skip(1));
    }
}

/// Compare two strings lexicographically by code point.
pub fn str_lex_lt(a: &str, b: &str) -> (r: bool)
    ensures
        r == lex_lt(a@, b@),
{
    let an = a.unicode_len();
    let bn = b.unicode_len();
    let mut i: usize = 0;
    proof {
        assert(a@.skip(0) =~= a@);
        assert(b@.skip(0) =~= b@);
    }
    loop
        invariant
            i <= an,
            i <= bn,
            an == a@.len(),
            bn == b@.len(),
            lex_lt(a@, b@) == lex_lt(a@.skip(i as int), b@.skip(i as int)),
        decreases an - i,
    {
        if i == bn {
            proof {
                assert(b@.skip(i as int).len() == 0);
            }
            return false;
        }
        if i == an {
            proof {
                assert(a@.skip(i as int).len() == 0);
                assert(b@.skip(i as int).len() > 0);
            }
            return true;
        }
        let ca = a.get_char(i);
        let cb = b.get_char(i);
        proof {
            assert(a@.skip(i as int)[0] == ca);
            assert(b@.skip(i as int)[0] == cb);
        }
        if (ca as u32) < (cb as u32) {
            return true;
        }
        if (cb as u32) < (ca as u32) {
            return false;
        }
        proof {
            assert(a@.skip(i as int).skip(1) =~= a@.skip(i + 1));
            assert(b@.skip(i as int).skip(1) =~= b@.skip(i + 1));
        }
        i += 1;
    }
}

/// Test two strings for equality, character by character.
pub fn str_eq(a: &str, b: &str) -> (r: bool)
    ensures
        r == (a@ == b@),
{
    let an = a.unicode_len();
    let bn = b.unicode_len();
    if an != bn {
        return false;
    }
    let mut i: usize = 0;
    while i < an
        invariant
            i <= an,
            an == a@.len(),
            an == b@.len(),
            forall|j: int| 0 <= j < i ==> a@[j] == b@[j],
        decreases an - i,
    {
        if a.get_char(i) != b.get_char(i) {
            return false;
        }
        i += 1;
    }
    proof {
        assert(a@ =~= b@);
    }
    true
}

/// The character has the Unicode white-space property, the set that
/// surrounding whitespace is trimmed by.
pub open spec fn is_space_char(c: char) -> bool {
    let u = c as int;
    ||| u == 32
    ||| (9 <= u && u <= 13)
    ||| u == 0x85
    ||| u == 0xa0
    ||| u == 0x1680
    ||| (0x2000 <= u && u <= 0x200a)
    ||| u == 0x2028
    ||| u == 0x2029
    ||| u == 0x202f
    ||| u == 0x205f
    ||| u == 0x3000
}

/// The character has the Unicode white-space property.
pub fn is_space(c: char) -> (r: bool)
    ensures
        r == is_space_char(c),
{
    let u = c as u32;
    u == 32 || (9 <= u && u <= 13) || u == 0x85 || u == 0xa0 || u == 0x1680 || (0x2000 <= u && u
        <= 0x200a) || u == 0x2028 || u == 0x2029 || u == 0x202f || u == 0x205f || u == 0x3000
}

/// How many whitespace characters the text begins with.
pub open spec fn space_prefix_len(s: Seq<char>) -> nat
    decreases s.len(),
{
    if s.len() > 0 && is_space_char(s[0]) {
        1 + space_prefix_len(s.skip(1))
    } else {
        0
    }
}

/// How many whitespace characters the text ends with.
pub open spec fn space_suffix_len(s: Seq<char>) -> nat
    decreases s.len(),
{
    if s.len() > 0 && is_space_char(s.last()) {
        1 + space_suffix_len(s.drop_last())
    } else {
        0
    }
}

/// The text with surrounding whitespace removed.
pub open spec fn trimmed(s: Seq<char>) -> Seq<char> {
    if space_prefix_len(s) == s.len() {
        Seq::empty()
    } else {
        s.subrange(space_prefix_len(s) as int, s.len() - space_suffix_len(s))
    }
}

pub proof fn lemma_space_prefix(s: Seq<char>)
    ensures
        space_prefix_len(s) <= s.len(),
        forall|j: int| 0 <= j < space_prefix_len(s) ==> is_space_char(s[j]),
        space_prefix_len(s) < s.len() ==> !is_space_char(s[space_prefix_len(s) as int]),
    decreases s.len(),
{
    if s.len() > 0 && is_space_char(s[0]) {
        lemma_space_prefix(s.skip(1));
        assert forall|j: int| 0 <= j < space_prefix_len(s) implies is_space_char(s[j]) by {
            if j > 0 {
                assert(s.skip(1)[j - 1] == s[j]);
            }
        }
        if space_prefix_len(s) < s.len() {
            assert(s.skip(1)[space_prefix_len(s) - 1] == s[space_prefix_len(s) as int]);
        }
    }
}

pub proof fn lemma_space_suffix(s: Seq<char>)
    ensures
        space_suffix_len(s) <= s.len(),
        forall|j: int| s.len() - space_suffix_len(s) <= j < s.len() ==> is_space_char(s[j]),
        space_suffix_len(s) < s.len() ==> !is_space_char(
            s[s.len() - space_suffix_len(s) - 1],
        ),
    decreases s.len(),
{
    if s.len() > 0 && is_space_char(s.last()) {
        lemma_space_suffix(s.drop_last());
        assert forall|j: int|
            s.len() - space_suffix_len(s) <= j < s.len() implies is_space_char(s[j]) by {
            if j < s.len() - 1 {
                assert(s.drop_last()[j] == s[j]);
            }
        }
        if space_suffix_len(s) < s.len() {
            assert(s.drop_last()[s.len() - space_suffix_len(s) - 1] == s[s.len()
                - space_suffix_len(s) - 1]);
        }
    }
}

/// Remove surrounding whitespace from a string.
pub fn trim_spaces<'a>(s: &'a str) -> (r: &'a str)
    ensures
        r@ == trimmed(s@),
{
    let n = s.unicode_len();
    let mut lo: usize = 0;
    while lo < n && is_space(s.get_char(lo))
        invariant
            lo <= n,
            n == s@.len(),
            forall|j: int| 0 <= j < lo ==> is_space_char(s@[j]),
        decreases n - lo,
    {
        lo += 1;
    }
    proof {
        lemma_space_prefix(s@);
        if lo < n {
            assert(lo == space_prefix_len(s@));
        } else {
            assert(space_prefix_len(s@) == n);
        }
    }
    let mut hi: usize = n;
    while hi > lo && is_space(s.get_char(hi - 1))
        invariant
            lo <= hi <= n,
            n == s@.len(),
            forall|j: int| hi <= j < n ==> is_space_char(s@[j]),
        decreases hi,
    {
        hi -= 1;
    }
    let r = s.substring_char(lo, hi);
    proof {
        lemma_space_suffix(s@);
        if lo < n {
            if hi > lo {
                assert(n - hi == space_suffix_len(s@));
            } else {
                assert(forall|j: int| 0 <= j < n ==> is_space_char(s@[j]));
                assert(space_prefix_len(s@) < n && !is_space_char(
                    s@[space_prefix_len(s@) as int],
                ));
            }
            assert(r@ =~= trimmed(s@));
        } else {
            assert(r@ =~= trimmed(s@));
        }
    }
    r
}

/// Where the first line break sits, or the length if there is none.
pub open spec fn first_nl(s: Seq<char>) -> nat
    decreases s.len(),
{
    if s.len() == 0 {
        0
    } else if s[0] == '\n' {
        0
    } else {
        1 + first_nl(s.skip(1))
    }
}

pub proof fn lemma_first_nl(s: Seq<char>)
    ensures
        first_nl(s) <= s.len(),
        forall|j: int| 0 <= j < first_nl(s) ==> s[j] != '\n',
        first_nl(s) < s.len() ==> s[first_nl(s) as int] == '\n',
    decreases s.len(),
{
    if s.len() > 0 && s[0] != '\n' {
        lemma_first_nl(s.skip(1));
        assert forall|j: int| 0 <= j < first_nl(s) implies s[j] != '\n' by {
            if j > 0 {
                assert(s.skip(1)[j - 1] == s[j]);
            }
        }
        if first_nl(s) < s.len() {
            assert(s.skip(1)[first_nl(s) - 1] == s[first_nl(s) as int]);
        }
    }
}

/// The lines of the text: split at each line break, the final line break
/// optional, an empty text carrying no lines.
pub open spec fn line_split(s: Seq<char>) -> Seq<Seq<char>>
    decreases s.len(),
{
    if s.len() == 0 {
        Seq::empty()
    } else if first_nl(s) >= s.len() {
        seq![s]
    } else {
        seq![s.take(first_nl(s) as int)] + line_split(s.skip(first_nl(s) as int + 1))
    }
}

/// The feed URL list carried by the text: one URL per line, surrounding
/// whitespace trimmed, blank lines kept.
pub open spec fn url_list_of(s: Seq<char>) -> Seq<Seq<char>> {
    line_split(s).map_values(|l: Seq<char>| trimmed(l))
}

/// Split the contents of the feed list file into one trimmed URL per line.
pub fn feed_url_list(text: &str) -> (r: Vec<String>)
    ensures
        r@.map_values(|u: String| u@) == url_list_of(text@),
{
    let n = text.unicode_len();
    let mut out: Vec<String> = Vec::new();
    let mut pos: usize = 0;
    proof {
        assert(out@.map_values(|u: String| u@) =~= Seq::<Seq<char>>::empty());
        assert(text@.skip(0) =~= text@);
    }
    while pos < n
        invariant
            pos <= n,
            n == text@.len(),
            out@.map_values(|u: String| u@) + line_split(text@.skip(pos as int)).map_values(
                |l: Seq<char>| trimmed(l),
            ) =~= url_list_of(text@),
        decreases n - pos,
    {
        let ghost tail = text@.skip(pos as int);
        let mut end: usize = pos;
        while end < n && !(text.get_char(end) == '\n')
            invariant
                pos <= end <= n,
                n == text@.len(),
                forall|j: int| pos <= j < end ==> text@[j] != '\n',
            decreases n - end,
        {
            end += 1;
        }
        proof {
            lemma_first_nl(tail);
            assert(forall|j: int| 0 <= j < end - pos ==> tail[j] == text@[pos + j] && tail[j]
                != '\n');
            if end < n {
                assert(tail[end - pos] == text@[end as int]);
                assert(first_nl(tail) == end - pos);
            } else {
                assert(first_nl(tail) == end - pos);
            }
        }
        let line = text.substring_char(pos, end);
        let t = trim_spaces(line);
        out.push(t.to_owned());
        proof {
            assert(tail.take(first_nl(tail) as int) =~= line@);
        }
        if end < n {
            pos = end + 1;
            proof {
                assert(tail.skip(first_nl(tail) as int + 1) =~= text@.skip(pos as int));
                assert(line_split(tail) =~= seq![line@] + line_split(text@.skip(pos as int)));
            }
        } else {
            pos = n;
            proof {
                assert(tail =~= line@);
                assert(line_split(tail) =~= seq![line@]);
                assert(line_split(text@.skip(pos as int)) =~= Seq::<Seq<char>>::empty());
            }
        }
    }
    proof {
        assert(line_split(text@.skip(pos as int)) =~= Seq::<Seq<char>>::empty());
    }
    out
}

} // verus!
