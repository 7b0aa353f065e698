//! Slug extraction: a source filename of the form `[YYYY-MM-DD-]<name>.md`
//! yields the URL path segment `<name>`. The match is anchored to the whole
//! filename: an optional eleven-character date prefix (four digits, dash, two
//! digits, dash, two digits, dash) is stripped first, and what remains must
//! end in `.md`; anything else is an `InvalidSlug` error.

use vstd::prelude::*;
use vstd::string::*;

use crate::errors::SiteError;

verus! {

/// The character is an ASCII decimal digit.
pub open spec fn is_digit_char(c: char) -> bool {
    48 <= c as int && c as int <= 57
}

/// The text begins with a date prefix `YYYY-MM-DD-`.
pub open spec fn date_prefixed(s: Seq<char>) -> bool {
    &&& s.len() >= 11
    &&& is_digit_char(s[0])
    &&& is_digit_char(s[1])
    &&& is_digit_char(s[2])
    &&& is_digit_char(s[3])
    &&& s[4] == '-'
    &&& is_digit_char(s[5])
    &&& is_digit_char(s[6])
    &&& s[7] == '-'
    &&& is_digit_char(s[8])
    &&& is_digit_char(s[9])
    &&& s[10] == '-'
}

/// The text ends with the suffix `.md`.
pub open spec fn md_suffixed(s: Seq<char>) -> bool {
    &&& s.len() >= 3
    &&& s[s.len() - 3] == '.'
    &&& s[s.len() - 2] == 'm'
    &&& s[s.len() - 1] == 'd'
}

/// The filename with its optional date prefix stripped.
pub open spec fn stem_of(s: Seq<char>) -> Seq<char> {
    if date_prefixed(s) {
        s.skip(11)
    } else {
        s
    }
}

/// The filename matches `[YYYY-MM-DD-]<name>.md` as a whole.
pub open spec fn valid_filename(s: Seq<char>) -> bool {
    md_suffixed(stem_of(s))
}

/// The slug of a valid filename: the stem without its `.md` suffix.
pub open spec fn slug_of(s: Seq<char>) -> Seq<char> {
    stem_of(s).take(stem_of(s).len() - 3)
}

/// The character is an ASCII decimal digit.
fn is_digit(c: char) -> (r: bool)
    ensures
        r == is_digit_char(c),
{
    let u = c as u32;
    48 <= u && u <= 57
}

/// Derive the URL slug from a source filename. Returns the slug exactly when
/// the whole filename matches `[YYYY-MM-DD-]<name>.md`, and `InvalidSlug`
/// otherwise.
pub fn extract_slug(filename: &str) -> (r: Result<String, SiteError>)
    ensures
        match r {
            Ok(slug) => valid_filename(filename@) && slug@ == slug_of(filename@),
            Err(e) => !valid_filename(filename@) && e is InvalidSlug,
        },
{
    let n = filename.unicode_len();
    let dated = n >= 11 && is_digit(filename.get_char(0)) && is_digit(filename.get_char(1))
        && is_digit(filename.get_char(2)) && is_digit(filename.get_char(3))
        && filename.get_char(4) == '-' && is_digit(filename.get_char(5))
        && is_digit(filename.get_char(6)) && filename.get_char(7) == '-'
        && is_digit(filename.get_char(8)) && is_digit(filename.get_char(9))
        && filename.get_char(10) == '-';
    proof {
        assert(dated == date_prefixed(filename@));
    }
    let start: usize = if dated {
        11
    } else {
        0
    };
    if n - start >= 3 {
        if filename.get_char(n - 3) == '.' && filename.get_char(n - 2) == 'm'
            && filename.get_char(n - 1) == 'd' {
            let slug = filename.substring_char(start, n - 3);
            proof {
                assert(slug@ =~= slug_of(filename@));
            }
            return Ok(slug.to_owned());
        }
    }
    proof {
        assert(!valid_filename(filename@));
    }
    Err(SiteError::InvalidSlug)
}

/// Law: a filename `<name>.md` whose whole text carries no date prefix
/// yields the slug `<name>`.
pub proof fn lemma_plain_filename_slug(name: Seq<char>)
    requires
        !date_prefixed(name + ".md"@),
    ensures
        valid_filename(name + ".md"@),
        slug_of(name + ".md"@) == name,
{
    reveal_strlit(".md");
    let f = name + ".md"@;
    assert(f[f.len() - 3] == '.' && f[f.len() - 2] == 'm' && f[f.len() - 1] == 'd');
    assert(slug_of(f) =~= name);
}

/// Law: a filename `YYYY-MM-DD-<name>.md`, for any eleven-character date
/// prefix, yields the slug `<name>`.
pub proof fn lemma_dated_filename_slug(prefix: Seq<char>, name: Seq<char>)
    requires
        prefix.len() == 11,
        date_prefixed(prefix),
    ensures
        valid_filename(prefix + name + ".md"@),
        slug_of(prefix + name + ".md"@) == name,
{
    reveal_strlit(".md");
    let f = prefix + name + ".md"@;
    assert(date_prefixed(f));
    assert(f.skip(11) =~= name + ".md"@);
    let t = f.skip(11);
    let k = name.len() as int;
    assert(t[k] == '.' && t[k + 1] == 'm' && t[k + 2] == 'd');
    assert(slug_of(f) =~= name);
}

/// Law: extraction is idempotent. Re-applying the rule to the produced slug
/// plus a synthetic `.md` suffix returns the same slug, provided the slug
/// does not itself begin like a date prefix.
pub proof fn lemma_slug_extraction_idempotent(f: Seq<char>)
    requires
        valid_filename(f),
        !date_prefixed(slug_of(f) + ".md"@),
    ensures
        valid_filename(slug_of(f) + ".md"@),
        slug_of(slug_of(f) + ".md"@) == slug_of(f),
{
    lemma_plain_filename_slug(slug_of(f));
}

} // verus!
