//! Project slugs, the project marker and where the database lives.
use vstd::prelude::*;

use crate::error::MemError;
use crate::text::{
    ascii_lower, is_ascii_alnum, is_ascii_char, lemma_trim_both_ends, lemma_trim_both_range,
    in_trim_set, is_white_space, trim_back, trim_front, char_is_alphanumeric, char_to_lowercase, push_char, trim_both, trim_set,
    unicode_alphanumeric, unicode_lowercase, TrimSet,
};

verus! {

/// Maximum length, in characters, of a slug produced from a name.
pub const SLUG_MAX_LEN: usize = 48;

/// Maximum length, in characters, of a slug read from the marker.
pub const SLUG_READ_MAX_LEN: usize = 128;

/// Name of the project marker file in the repository root (it holds the slug).
pub const MARKER_FILE: &'static str = ".mem-project";

/// Name of the database file.
pub const DB_FILE: &'static str = "project_context.db";

/// Storage subdirectory inside the user data directory.
pub const DATA_SUBDIR: &'static str = "mem";

/// Directory of the database when no override and no marker are found.
pub const LEGACY_DIR: &'static str = ".memory";

/// Scanning a name from the left, each character given as whether it is
/// alphanumeric and its lowercase mapping: alphanumeric characters are
/// lowered, every run of other characters becomes one `-`. The flag says
/// whether the output ends in a dash that stands for such a run.
pub open spec fn slug_scan(items: Seq<(bool, Seq<char>)>) -> (Seq<char>, bool)
    decreases items.len(),
{
    if items.len() == 0 {
        (Seq::empty(), false)
    } else {
        let (out, prev_dash) = slug_scan(items.drop_last());
        let (alphanumeric, lower) = items.last();
        if alphanumeric {
            (out + lower, false)
        } else if !prev_dash {
            (out.push('-'), true)
        } else {
            (out, prev_dash)
        }
    }
}

/// The slug used when a name yields nothing: `project`.
pub open spec fn fallback_slug() -> Seq<char> {
    seq!['p', 'r', 'o', 'j', 'e', 'c', 't']
}

/// The slug of the scanned characters: scanned, stripped of outer dashes,
/// cut to `SLUG_MAX_LEN` characters and stripped again; `project` when empty.
pub open spec fn slug_of_items(items: Seq<(bool, Seq<char>)>) -> Seq<char> {
    let scanned = slug_scan(items).0;
    let dashless = trim_both(scanned, TrimSet::Dash);
    let cut = if dashless.len() <= SLUG_MAX_LEN {
        dashless
    } else {
        dashless.take(SLUG_MAX_LEN as int)
    };
    let slug = trim_both(cut, TrimSet::Dash);
    if slug.len() == 0 {
        fallback_slug()
    } else {
        slug
    }
}

/// Each character with whether it is alphanumeric and its lowercase mapping
/// (`char::is_alphanumeric`, `char::to_lowercase`).
pub open spec fn name_items(s: Seq<char>) -> Seq<(bool, Seq<char>)> {
    s.map_values(|c: char| (unicode_alphanumeric(c), unicode_lowercase(c)))
}

/// The slug of `name`: its characters, trimmed of white space, scanned.
pub open spec fn slugify_spec(name: Seq<char>) -> Seq<char> {
    slug_of_items(name_items(trim_both(name, TrimSet::WhiteSpace)))
}

/// The views of the scanned characters.
pub open spec fn items_view(items: Seq<(bool, String)>) -> Seq<(bool, Seq<char>)> {
    items.map_values(|it: (bool, String)| (it.0, it.1@))
}

/// The slug of a name whose characters are given, in order, as whether each
/// is alphanumeric and its lowercase mapping.
pub fn slug_from_items(items: &Vec<(bool, String)>) -> (slug: String)
    ensures
        slug@ == slug_of_items(items_view(items@)),
{
    let ghost iv = items_view(items@);
    let mut out = String::new();
    let mut prev_dash = false;
    let mut i: usize = 0;
    while i < items.len()
        invariant
            i <= items.len(),
            iv == items_view(items@),
            (out@, prev_dash) == slug_scan(iv.take(i as int)),
        decreases items.len() - i,
    {
        let (alphanumeric, lower) = &items[i];
        proof {
            assert(iv.take(i + 1).drop_last() =~= iv.take(i as int));
            assert(iv.take(i + 1).last() == (*alphanumeric, lower@));
        }
        if *alphanumeric {
            out.append(lower.as_str());
            prev_dash = false;
        } else if !prev_dash {
            push_char(&mut out, '-');
            prev_dash = true;
        }
        i = i + 1;
    }
    assert(iv.take(items.len() as int) =~= iv);
    let dashless = trim_set(out.as_str(), TrimSet::Dash);
    let len = dashless.unicode_len();
    let cut = if len <= SLUG_MAX_LEN {
        dashless
    } else {
        dashless.substring_char(0, SLUG_MAX_LEN)
    };
    assert(len <= SLUG_MAX_LEN ==> cut@ == dashless@);
    let slug = trim_set(cut, TrimSet::Dash);
    if slug.unicode_len() == 0 {
        let fallback = String::from_str("project");
        proof {
            reveal_strlit("project");
            assert(fallback@ =~= fallback_slug());
        }
        fallback
    } else {
        String::from_str(slug)
    }
}

/// Whether every character of `s` is ASCII.
pub open spec fn ascii_text(s: Seq<char>) -> bool {
    forall|i: int| 0 <= i < s.len() ==> is_ascii_char(#[trigger] s[i])
}

/// Whether `s` holds no ASCII letter or digit.
pub open spec fn no_ascii_alnum(s: Seq<char>) -> bool {
    forall|i: int| 0 <= i < s.len() ==> !is_ascii_alnum(#[trigger] s[i])
}

/// Convert a name into a filesystem-safe slug. Keeps Unicode letters and
/// digits (lowered), replaces runs of other characters with `-`. An empty
/// result becomes `project`. The slug of an ASCII name is made of lowercase
/// ASCII letters, digits and single dashes (`ascii_slug`); one with no ASCII
/// letter or digit is `project`; a name that already has that shape is its
/// own slug, so slugifying an ASCII name twice gives what once gives.
#[verifier::spinoff_prover]
#[verifier::rlimit(30)]
pub fn slugify(name: &str) -> (slug: String)
    ensures
        slug@ == slugify_spec(name@),
        slug@ == fallback_slug() || forall|i: int|
            0 <= i < slug@.len() ==> from_alphanumeric_char(name@, #[trigger] slug@[i]),
        ascii_text(name@) ==> ascii_slug(slug@),
        ascii_text(name@) && no_ascii_alnum(name@) ==> slug@ == fallback_slug(),
        ascii_slug(name@) ==> slug@ == name@,
{
    let trimmed = trim_set(name, TrimSet::WhiteSpace);
    let ghost ascii = ascii_text(name@);
    let ghost blank = ascii_text(name@) && no_ascii_alnum(name@);
    let ghost fixed = ascii_slug(name@);
    proof {
        lemma_trimmed_name(name@);
    }
    let n = trimmed.unicode_len();
    let mut items: Vec<(bool, String)> = Vec::new();
    let mut i: usize = 0;
    while i < n
        invariant
            i <= n,
            n == trimmed@.len(),
            items_view(items@) == name_items(trimmed@.take(i as int)),
            blank ==> ascii,
            fixed ==> ascii && trimmed@ == name@ && ascii_slug(trimmed@),
            fixed ==> items_view(items@) == slug_items(trimmed@.take(i as int)),
            ascii ==> ascii_text(trimmed@),
            blank ==> no_ascii_alnum(trimmed@),
            ascii ==> ascii_items(items_view(items@)),
            blank ==> forall|j: int| 0 <= j < items@.len() ==> !(#[trigger] items@[j]).0,
        decreases n - i,
    {
        let ch = trimmed.get_char(i);
        let alphanumeric = char_is_alphanumeric(ch);
        let lower = char_to_lowercase(ch);
        let ghost before = items@;
        items.push((alphanumeric, lower));
        proof {
            assert(items@.drop_last() =~= before);
            assert(items_view(items@) =~= items_view(before).push((alphanumeric, lower@)));
            assert(name_items(trimmed@.take(i + 1)) =~= name_items(trimmed@.take(i as int)).push(
                (unicode_alphanumeric(ch), unicode_lowercase(ch)),
            ));
            if ascii {
                assert(is_ascii_char(trimmed@[i as int]));
                let iv = items_view(items@);
                assert forall|j: int| 0 <= j < iv.len() && (#[trigger] iv[j]).0 implies iv[j].1.len()
                    == 1 && is_lower_alnum(iv[j].1[0]) by {
                    if j < before.len() {
                        assert(iv[j] == items_view(before)[j]);
                    } else {
                        assert(iv[j] == (alphanumeric, lower@));
                        assert(lower@[0] == ascii_lower(ch));
                    }
                }
            }
            if fixed {
                assert(is_lower_alnum(ch) || ch == '-');
                assert(slug_items(trimmed@.take(i + 1)) =~= slug_items(trimmed@.take(i as int)).push(
                    (ch != '-', seq![ch]),
                ));
                assert(lower@ =~= seq![ch]);
            }
            if blank {
                assert(is_ascii_char(trimmed@[i as int]) && !is_ascii_alnum(trimmed@[i as int]));
                assert(!alphanumeric);
                assert forall|j: int| 0 <= j < items@.len() implies !(#[trigger] items@[j]).0 by {
                    if j < before.len() {
                        assert(items@[j] == before[j]);
                    }
                }
            }
        }
        i = i + 1;
    }
    assert(trimmed@.take(n as int) =~= trimmed@);
    let slug = slug_from_items(&items);
    proof {
        let iv = items_view(items@);
        if blank {
            assert forall|j: int| 0 <= j < iv.len() implies !(#[trigger] iv[j]).0 by {
                assert(iv[j].0 == items@[j].0);
            }
        }
        lemma_slugify_ascii(name@, iv);
        law_slug_chars_from_name(name@);
        assert(slug@ == slugify_spec(name@));
    }
    slug
}

/// A slug that is safe as a single path component: non-empty, not `.` or
/// `..`, at most `SLUG_READ_MAX_LEN` characters, each alphanumeric, `-` or
/// `_`, with `alphanumeric[i]` saying whether the `i`-th is alphanumeric (a
/// missing flag counts as not).
pub open spec fn slug_valid_given(s: Seq<char>, alphanumeric: Seq<bool>) -> bool {
    &&& s.len() > 0
    &&& s != seq!['.']
    &&& s != seq!['.', '.']
    &&& s.len() <= SLUG_READ_MAX_LEN
    &&& forall|i: int|
        0 <= i < s.len() ==> (i < alphanumeric.len() && alphanumeric[i]) || #[trigger] s[i] == '-'
            || s[i] == '_'
}

/// Whether each character is alphanumeric (`char::is_alphanumeric`).
pub open spec fn alphanumeric_flags(s: Seq<char>) -> Seq<bool> {
    s.map_values(|c: char| unicode_alphanumeric(c))
}

/// A slug that is safe as a single path component: non-empty, not `.` or `..`,
/// at most `SLUG_READ_MAX_LEN` characters, all alphanumeric, `-` or `_`.
pub open spec fn slug_valid(s: Seq<char>) -> bool {
    slug_valid_given(s, alphanumeric_flags(s))
}

/// The slug of any name is non-empty, at most `SLUG_MAX_LEN` characters long,
/// and neither starts nor ends with a dash.
pub proof fn law_slug_shape(items: Seq<(bool, Seq<char>)>)
    ensures
        ({
            let slug = slug_of_items(items);
            &&& 0 < slug.len() <= SLUG_MAX_LEN
            &&& slug[0] != '-'
            &&& slug.last() != '-'
        }),
{
    let scanned = slug_scan(items).0;
    let dashless = trim_both(scanned, TrimSet::Dash);
    let cut = if dashless.len() <= SLUG_MAX_LEN {
        dashless
    } else {
        dashless.take(SLUG_MAX_LEN as int)
    };
    lemma_trim_both_ends(cut, TrimSet::Dash);
}

/// `c` is a dash, or one of the characters that some alphanumeric item of
/// `items` lowers to.
pub open spec fn from_alphanumeric_item(items: Seq<(bool, Seq<char>)>, c: char) -> bool {
    c == '-' || exists|j: int| 0 <= j < items.len() && (#[trigger] items[j]).0 && items[j].1.contains(c)
}

/// `c` is a dash, or one of the characters that some alphanumeric character of
/// `name` (`char::is_alphanumeric`) lowers to (`char::to_lowercase`).
pub open spec fn from_alphanumeric_char(name: Seq<char>, c: char) -> bool {
    c == '-' || exists|j: int|
        0 <= j < name.len() && unicode_alphanumeric(#[trigger] name[j]) && unicode_lowercase(
            name[j],
        ).contains(c)
}

proof fn lemma_scan_chars(items: Seq<(bool, Seq<char>)>)
    ensures
        forall|i: int| 0 <= i < slug_scan(items).0.len() ==> from_alphanumeric_item(
            items,
            #[trigger] slug_scan(items).0[i],
        ),
    decreases items.len(),
{
    if items.len() > 0 {
        let prev = items.drop_last();
        lemma_scan_chars(prev);
        let out = slug_scan(prev).0;
        let o2 = slug_scan(items).0;
        let last = items.last();
        assert(last == items[items.len() - 1]);
        assert forall|i: int| 0 <= i < o2.len() implies from_alphanumeric_item(items, #[trigger] o2[i]) by {
            if i < out.len() {
                assert(o2[i] == out[i]);
                if out[i] != '-' {
                    let j = choose|j: int| 0 <= j < prev.len() && (#[trigger] prev[j]).0 && prev[j].1.contains(out[i]);
                    assert(items[j] == prev[j]);
                }
            } else if last.0 {
                let k = i - out.len();
                assert(o2 == out + last.1);
                assert(o2[i] == last.1[k]);
                assert(last.1.contains(o2[i]));
            }
        }
    }
}

proof fn lemma_slug_chars(items: Seq<(bool, Seq<char>)>)
    ensures
        slug_of_items(items) == fallback_slug() || forall|i: int|
            0 <= i < slug_of_items(items).len() ==> from_alphanumeric_item(
                items,
                #[trigger] slug_of_items(items)[i],
            ),
{
    let scanned = slug_scan(items).0;
    lemma_scan_chars(items);
    let r1 = lemma_trim_both_range(scanned, TrimSet::Dash);
    let dashless = trim_both(scanned, TrimSet::Dash);
    let cut = if dashless.len() <= SLUG_MAX_LEN {
        dashless
    } else {
        dashless.take(SLUG_MAX_LEN as int)
    };
    let r2 = lemma_trim_both_range(cut, TrimSet::Dash);
    let slug = trim_both(cut, TrimSet::Dash);
    if slug.len() > 0 {
        assert forall|i: int| 0 <= i < slug.len() implies from_alphanumeric_item(items, #[trigger] slug[i]) by {
            assert(slug[i] == cut[r2.0 + i]);
            assert(cut[r2.0 + i] == dashless[r2.0 + i]);
            assert(dashless[r2.0 + i] == scanned[r1.0 + r2.0 + i]);
        }
    }
}

/// Every character of the slug of any name is a dash or comes from lowering
/// an alphanumeric character of the name, unless the name gives nothing and
/// the slug is `project`. No other character of the name reaches the slug.
pub proof fn law_slug_chars_from_name(name: Seq<char>)
    ensures
        slugify_spec(name) == fallback_slug() || forall|i: int|
            0 <= i < slugify_spec(name).len() ==> from_alphanumeric_char(
                name,
                #[trigger] slugify_spec(name)[i],
            ),
{
    let trimmed = trim_both(name, TrimSet::WhiteSpace);
    let r = lemma_trim_both_range(name, TrimSet::WhiteSpace);
    let items = name_items(trimmed);
    lemma_slug_chars(items);
    let slug = slugify_spec(name);
    if slug != fallback_slug() {
        assert forall|i: int| 0 <= i < slug.len() implies from_alphanumeric_char(name, #[trigger] slug[i]) by {
            assert(from_alphanumeric_item(items, slug[i]));
            if slug[i] != '-' {
                let j = choose|j: int| 0 <= j < items.len() && (#[trigger] items[j]).0 && items[j].1.contains(slug[i]);
                assert(items[j] == (unicode_alphanumeric(trimmed[j]), unicode_lowercase(trimmed[j])));
                assert(trimmed[j] == name[r.0 + j]);
            }
        }
    }
}

/// A lowercase ASCII letter or an ASCII digit.
pub open spec fn is_lower_alnum(c: char) -> bool {
    ('a' <= c && c <= 'z') || ('0' <= c && c <= '9')
}

/// Made of lowercase ASCII letters, digits and dashes, with no two dashes in a row.
pub open spec fn ascii_slug_text(s: Seq<char>) -> bool {
    &&& forall|i: int| 0 <= i < s.len() ==> is_lower_alnum(#[trigger] s[i]) || s[i] == '-'
    &&& forall|i: int, j: int|
        0 <= i && j == i + 1 && j < s.len() ==> !(#[trigger] s[i] == '-' && #[trigger] s[j] == '-')
}

/// Scanned characters as an ASCII name gives them: each alphanumeric one
/// lowers to one lowercase letter or digit.
pub open spec fn ascii_items(items: Seq<(bool, Seq<char>)>) -> bool {
    forall|i: int|
        0 <= i < items.len() && (#[trigger] items[i]).0 ==> items[i].1.len() == 1 && is_lower_alnum(
            items[i].1[0],
        )
}

proof fn lemma_scan_ascii(items: Seq<(bool, Seq<char>)>)
    requires
        ascii_items(items),
    ensures
        ascii_slug_text(slug_scan(items).0),
        slug_scan(items).1 <==> (slug_scan(items).0.len() > 0 && slug_scan(items).0.last() == '-'),
        (forall|i: int| 0 <= i < items.len() ==> !(#[trigger] items[i]).0) ==> forall|i: int|
            0 <= i < slug_scan(items).0.len() ==> #[trigger] slug_scan(items).0[i] == '-',
    decreases items.len(),
{
    if items.len() > 0 {
        let prev = items.drop_last();
        assert forall|i: int| 0 <= i < prev.len() && (#[trigger] prev[i]).0 implies prev[i].1.len()
            == 1 && is_lower_alnum(prev[i].1[0]) by {
            assert(prev[i] == items[i]);
        }
        assert((forall|i: int| 0 <= i < items.len() ==> !(#[trigger] items[i]).0) ==> forall|i: int|
            0 <= i < prev.len() ==> !(#[trigger] prev[i]).0) by {
            if forall|i: int| 0 <= i < items.len() ==> !(#[trigger] items[i]).0 {
                assert forall|i: int| 0 <= i < prev.len() implies !(#[trigger] prev[i]).0 by {
                    assert(prev[i] == items[i]);
                }
            }
        }
        lemma_scan_ascii(prev);
        let out = slug_scan(prev).0;
        let last = items.last();
        assert(last == items[items.len() - 1]);
        if last.0 {
            let o2 = out + last.1;
            assert(o2[out.len() as int] == last.1[0]);
            assert forall|i: int| 0 <= i < o2.len() implies is_lower_alnum(#[trigger] o2[i]) || o2[i]
                == '-' by {
                if i < out.len() {
                    assert(o2[i] == out[i]);
                }
            }
            assert forall|i: int, j: int| 0 <= i && j == i + 1 && j < o2.len() implies !(
            #[trigger] o2[i] == '-' && #[trigger] o2[j] == '-') by {
                if j < out.len() {
                    assert(o2[i] == out[i] && o2[j] == out[j]);
                }
            }
        } else if !slug_scan(prev).1 {
            let o2 = out.push('-');
            assert forall|i: int| 0 <= i < o2.len() implies is_lower_alnum(#[trigger] o2[i]) || o2[i]
                == '-' by {
                if i < out.len() {
                    assert(o2[i] == out[i]);
                }
            }
            assert forall|i: int, j: int| 0 <= i && j == i + 1 && j < o2.len() implies !(
            #[trigger] o2[i] == '-' && #[trigger] o2[j] == '-') by {
                if j < out.len() {
                    assert(o2[i] == out[i] && o2[j] == out[j]);
                } else {
                    assert(o2[i] == out.last());
                }
            }
            assert forall|i: int| 0 <= i < o2.len() && (forall|m: int| 0 <= m < items.len() ==> !(
            #[trigger] items[m]).0) implies #[trigger] o2[i] == '-' by {
                if i < out.len() {
                    assert(o2[i] == out[i]);
                }
            }
        }
    }
}

proof fn lemma_ascii_slug_text_range(s: Seq<char>, a: int, b: int)
    requires
        ascii_slug_text(s),
        0 <= a <= b <= s.len(),
    ensures
        ascii_slug_text(s.subrange(a, b)),
{
    let t = s.subrange(a, b);
    assert forall|i: int| 0 <= i < t.len() implies is_lower_alnum(#[trigger] t[i]) || t[i] == '-' by {
        assert(t[i] == s[a + i]);
    }
    assert forall|i: int, j: int| 0 <= i && j == i + 1 && j < t.len() implies !(#[trigger] t[i] == '-'
        && #[trigger] t[j] == '-') by {
        assert(t[i] == s[a + i] && t[j] == s[a + j]);
    }
}

/// The slug of an ASCII name is made of lowercase ASCII letters, digits and
/// single dashes (besides the shape that every slug has); a name with no
/// ASCII letter or digit gives `project`.
pub proof fn law_ascii_slug(items: Seq<(bool, Seq<char>)>)
    requires
        ascii_items(items),
    ensures
        ascii_slug_text(slug_of_items(items)),
        (forall|i: int| 0 <= i < items.len() ==> !(#[trigger] items[i]).0) ==> slug_of_items(items)
            == fallback_slug(),
{
    let scanned = slug_scan(items).0;
    lemma_scan_ascii(items);
    let r1 = lemma_trim_both_range(scanned, TrimSet::Dash);
    let dashless = trim_both(scanned, TrimSet::Dash);
    lemma_ascii_slug_text_range(scanned, r1.0, r1.1);
    let cut = if dashless.len() <= SLUG_MAX_LEN {
        dashless
    } else {
        dashless.take(SLUG_MAX_LEN as int)
    };
    lemma_ascii_slug_text_range(dashless, 0, cut.len() as int);
    assert(dashless.subrange(0, cut.len() as int) =~= cut);
    let r2 = lemma_trim_both_range(cut, TrimSet::Dash);
    lemma_ascii_slug_text_range(cut, r2.0, r2.1);
    let fb = fallback_slug();
    assert forall|i: int| 0 <= i < fb.len() implies is_lower_alnum(#[trigger] fb[i]) || fb[i] == '-' by {}
    if forall|i: int| 0 <= i < items.len() ==> !(#[trigger] items[i]).0 {
        lemma_trim_both_ends(scanned, TrimSet::Dash);
        if dashless.len() > 0 {
            assert(dashless[0] == scanned[r1.0]);
        }
        assert(dashless.len() == 0);
    }
}

/// The shape of the slug of an ASCII name: non-empty, at most
/// `SLUG_MAX_LEN` characters of lowercase ASCII letters, digits and single
/// dashes, with no dash at either end.
pub open spec fn ascii_slug(s: Seq<char>) -> bool {
    &&& ascii_slug_text(s)
    &&& 0 < s.len() <= SLUG_MAX_LEN
    &&& s[0] != '-'
    &&& s.last() != '-'
}

/// The characters of such a slug as a name gives them to the scan: the
/// letters and digits are alphanumeric and lower to themselves.
pub open spec fn slug_items(s: Seq<char>) -> Seq<(bool, Seq<char>)> {
    s.map_values(|c: char| (c != '-', seq![c]))
}

proof fn lemma_scan_slug_items(s: Seq<char>)
    requires
        ascii_slug_text(s),
    ensures
        slug_scan(slug_items(s)) == (s, s.len() > 0 && s.last() == '-'),
    decreases s.len(),
{
    if s.len() > 0 {
        let p = s.drop_last();
        lemma_ascii_slug_text_range(s, 0, s.len() - 1);
        assert(s.subrange(0, s.len() - 1) =~= p);
        assert(slug_items(s).drop_last() =~= slug_items(p));
        lemma_scan_slug_items(p);
        let c = s.last();
        assert(slug_items(s).last() == (c != '-', seq![c]));
        if c == '-' {
            if p.len() > 0 {
                assert(p.last() == s[s.len() - 2]);
                assert(!(s[s.len() - 2] == '-' && s[s.len() - 1] == '-'));
            }
            assert(p.push('-') =~= s);
        } else {
            assert(p + seq![c] =~= s);
        }
    }
}

proof fn lemma_slugify_ascii(name: Seq<char>, iv: Seq<(bool, Seq<char>)>)
    requires
        ascii_text(name) ==> ascii_items(iv),
        ascii_text(name) && no_ascii_alnum(name) ==> forall|j: int|
            0 <= j < iv.len() ==> !(#[trigger] iv[j]).0,
        ascii_slug(name) ==> iv == slug_items(name),
    ensures
        ascii_text(name) ==> ascii_slug(slug_of_items(iv)),
        ascii_text(name) && no_ascii_alnum(name) ==> slug_of_items(iv) == fallback_slug(),
        ascii_slug(name) ==> slug_of_items(iv) == name,
{
    law_slug_shape(iv);
    if ascii_slug(name) {
        law_ascii_slug_fixed(name);
    }
    if ascii_text(name) {
        law_ascii_slug(iv);
    }
}

proof fn lemma_trimmed_name(name: Seq<char>)
    ensures
        ({
            let trimmed = trim_both(name, TrimSet::WhiteSpace);
            &&& ascii_text(name) ==> ascii_text(trimmed)
            &&& ascii_text(name) && no_ascii_alnum(name) ==> no_ascii_alnum(trimmed)
            &&& ascii_slug(name) ==> ascii_text(name) && trimmed == name
        }),
{
    let trimmed = trim_both(name, TrimSet::WhiteSpace);
    let r = lemma_trim_both_range(name, TrimSet::WhiteSpace);
    assert forall|j: int| 0 <= j < trimmed.len() implies #[trigger] trimmed[j] == name[r.0 + j] by {}
    if ascii_slug(name) {
        lemma_ascii_slug_untrimmed(name);
    }
}

proof fn lemma_ascii_slug_untrimmed(s: Seq<char>)
    requires
        ascii_slug(s),
    ensures
        trim_both(s, TrimSet::WhiteSpace) == s,
        ascii_text(s),
{
    assert(is_lower_alnum(s[0]) || s[0] == '-');
    assert(is_lower_alnum(s.last()) || s.last() == '-');
    assert(!is_white_space(s[0]));
    assert(!is_white_space(s.last()));
    assert(trim_front(s, TrimSet::WhiteSpace) == s);
    assert(trim_back(s, TrimSet::WhiteSpace) == s);
    assert forall|j: int| 0 <= j < s.len() implies is_ascii_char(#[trigger] s[j]) by {
        assert(is_lower_alnum(s[j]) || s[j] == '-');
    }
}

/// A slug of that shape is its own slug: scanning it changes nothing.
pub proof fn law_ascii_slug_fixed(s: Seq<char>)
    requires
        ascii_slug(s),
    ensures
        slug_of_items(slug_items(s)) == s,
{
    lemma_scan_slug_items(s);
    assert(trim_front(s, TrimSet::Dash) == s);
    assert(trim_back(s, TrimSet::Dash) == s);
}

/// Check a slug, given for each of its characters whether it is alphanumeric.
pub fn slug_valid_with(slug: &str, alphanumeric: &Vec<bool>) -> (b: bool)
    ensures
        b == slug_valid_given(slug@, alphanumeric@),
{
    let n = slug.unicode_len();
    if n == 0 {
        return false;
    }
    if n <= 2 && slug.get_char(0) == '.' && (n == 1 || slug.get_char(1) == '.') {
        assert(n == 1 ==> slug@ =~= seq!['.']);
        assert(n == 2 ==> slug@ =~= seq!['.', '.']);
        return false;
    }
    if n > SLUG_READ_MAX_LEN {
        return false;
    }
    let mut i: usize = 0;
    while i < n
        invariant
            i <= n,
            n == slug@.len(),
            forall|j: int|
                0 <= j < i ==> (j < alphanumeric@.len() && alphanumeric@[j]) || #[trigger] slug@[j]
                    == '-' || slug@[j] == '_',
        decreases n - i,
    {
        let c = slug.get_char(i);
        let alnum = i < alphanumeric.len() && alphanumeric[i];
        if !(alnum || c == '-' || c == '_') {
            return false;
        }
        i = i + 1;
    }
    proof {
        if slug@ == seq!['.'] || slug@ == seq!['.', '.'] {
            assert(slug@[0] == '.');
        }
    }
    true
}

/// Check that the slug is safe as a single path component.
pub fn slug_is_valid(slug: &str) -> (b: bool)
    ensures
        b == slug_valid(slug@),
        ascii_slug(slug@) ==> b,
{
    let ghost ascii = ascii_slug(slug@);
    let n = slug.unicode_len();
    let mut flags: Vec<bool> = Vec::new();
    let mut i: usize = 0;
    while i < n
        invariant
            i <= n,
            n == slug@.len(),
            flags@ == alphanumeric_flags(slug@.take(i as int)),
            ascii ==> ascii_slug(slug@),
            ascii ==> forall|j: int| 0 <= j < i ==> (#[trigger] flags@[j] <==> slug@[j] != '-'),
        decreases n - i,
    {
        let c = slug.get_char(i);
        proof {
            if ascii {
                assert(is_lower_alnum(c) || c == '-');
            }
        }
        flags.push(char_is_alphanumeric(c));
        proof {
            assert(alphanumeric_flags(slug@.take(i + 1)) =~= alphanumeric_flags(
                slug@.take(i as int),
            ).push(unicode_alphanumeric(c)));
        }
        i = i + 1;
    }
    assert(slug@.take(n as int) =~= slug@);
    proof {
        if ascii {
            assert(slug@ != seq!['.']) by {
                assert(slug@[0] != '.');
            }
            assert(slug@ != seq!['.', '.']) by {
                assert(slug@[0] != '.');
            }
        }
    }
    slug_valid_with(slug, &flags)
}

/// The slug recorded in a marker file with content `content`: the trimmed
/// content when it is a valid slug, else `CorruptMarker` with that content.
pub fn parse_marker(content: &str) -> (res: Result<String, MemError>)
    ensures
        ({
            let t = trim_both(content@, TrimSet::WhiteSpace);
            match res {
                Ok(s) => slug_valid(t) && s@ == t,
                Err(MemError::CorruptMarker(s)) => !slug_valid(t) && s@ == t,
                Err(_) => false,
            }
        }),
{
    let slug = trim_set(content, TrimSet::WhiteSpace);
    if slug_is_valid(slug) {
        Ok(String::from_str(slug))
    } else {
        Err(MemError::CorruptMarker(String::from_str(slug)))
    }
}

/// The user data directory, as path components: `XDG_DATA_HOME` when it is
/// an absolute path (on Unix: it starts with `/`), else `.local/share` under
/// `HOME`; `None` when neither applies.
pub open spec fn data_home_spec(xdg_data_home: Option<Seq<char>>, home: Option<Seq<char>>) -> Option<
    Seq<Seq<char>>,
> {
    match xdg_data_home {
        Some(x) if x.len() > 0 && x[0] == '/' => Some(seq![x]),
        _ => match home {
            Some(h) => Some(seq![h, LOCAL_DIR@, SHARE_DIR@]),
            None => None,
        },
    }
}

/// Directory under `HOME` that holds user data: `.local`.
pub const LOCAL_DIR: &'static str = ".local";

/// Directory under `.local` that holds user data: `share`.
pub const SHARE_DIR: &'static str = "share";

/// The views of path components.
pub open spec fn components_view(parts: Seq<String>) -> Seq<Seq<char>> {
    parts.map_values(|p: String| p@)
}

/// The user data directory from the values of `XDG_DATA_HOME` and `HOME`.
pub fn data_home(xdg_data_home: Option<&str>, home: Option<&str>) -> (dir: Option<Vec<String>>)
    ensures
        match dir {
            Some(parts) => data_home_spec(
                match xdg_data_home {
                    Some(x) => Some(x@),
                    None => None,
                },
                match home {
                    Some(h) => Some(h@),
                    None => None,
                },
            ) == Some(components_view(parts@)),
            None => data_home_spec(
                match xdg_data_home {
                    Some(x) => Some(x@),
                    None => None,
                },
                match home {
                    Some(h) => Some(h@),
                    None => None,
                },
            ) is None,
        },
{
    if let Some(x) = xdg_data_home {
        if x.unicode_len() > 0 && x.get_char(0) == '/' {
            let mut parts: Vec<String> = Vec::new();
            parts.push(String::from_str(x));
            assert(components_view(parts@) =~= seq![x@]);
            return Some(parts);
        }
    }
    match home {
        Some(h) => {
            let mut parts: Vec<String> = Vec::new();
            parts.push(String::from_str(h));
            parts.push(String::from_str(LOCAL_DIR));
            parts.push(String::from_str(SHARE_DIR));
            assert(components_view(parts@) =~= seq![h@, LOCAL_DIR@, SHARE_DIR@]);
            Some(parts)
        },
        None => None,
    }
}

/// A marker as `init` writes it (the slug and a newline) reads back as the
/// slug, for a valid slug with no white-space character.
pub proof fn law_marker_round_trip(slug: Seq<char>)
    requires
        slug_valid(slug),
        forall|i: int| 0 <= i < slug.len() ==> !is_white_space(#[trigger] slug[i]),
    ensures
        trim_both(slug.push('\n'), TrimSet::WhiteSpace) == slug,
{
    let written = slug.push('\n');
    assert(written[0] == slug[0]);
    assert(!in_trim_set(TrimSet::WhiteSpace, written[0]));
    assert(trim_front(written, TrimSet::WhiteSpace) == written);
    assert(in_trim_set(TrimSet::WhiteSpace, written.last()));
    assert(written.drop_last() =~= slug);
    assert(!in_trim_set(TrimSet::WhiteSpace, slug.last()));
    assert(trim_back(slug, TrimSet::WhiteSpace) == slug);
    assert(trim_back(written, TrimSet::WhiteSpace) == slug);
}

/// Where the database directory is, before it is turned into a path.
#[derive(Debug)]
pub enum DbDir {
    /// The directory named by the override variable.
    Override(String),
    /// `<base>/mem/<slug>`: the user data directory (as path components) and
    /// the project slug.
    Project { base: Vec<String>, slug: String },
    /// `.memory` in the current directory.
    Legacy,
}

/// The override directory: the variable's value when it is set and not empty.
pub fn env_override(env_dir: Option<&str>) -> (res: Option<DbDir>)
    ensures
        match env_dir {
            Some(d) => if d@.len() > 0 {
                res matches Some(DbDir::Override(o)) && o@ == d@
            } else {
                res is None
            },
            None => res is None,
        },
{
    match env_dir {
        Some(d) => {
            if d.unicode_len() > 0 {
                Some(DbDir::Override(String::from_str(d)))
            } else {
                None
            }
        },
        None => None,
    }
}

/// The database directory when there is no override: under the user data
/// directory for a project with a marker, else the legacy `.memory`.
pub fn dir_from_marker(marker_slug: Option<String>, data_home: Option<Vec<String>>) -> (res: Result<
    DbDir,
    MemError,
>)
    ensures
        match marker_slug {
            None => res matches Ok(DbDir::Legacy),
            Some(slug) => match data_home {
                None => res matches Err(MemError::NoDataHome),
                Some(base) => res matches Ok(DbDir::Project { base: b, slug: s }) && b@ == base@
                    && s == slug,
            },
        },
{
    match marker_slug {
        None => Ok(DbDir::Legacy),
        Some(slug) => match data_home {
            None => Err(MemError::NoDataHome),
            Some(base) => Ok(DbDir::Project { base, slug }),
        },
    }
}

/// Why the marker lookup fails: the nearest marker could not be read (with
/// the reading error), or it does not hold a valid slug (the trimmed content).
#[derive(Debug)]
pub enum MarkerError<E> {
    Read(E),
    Corrupt(String),
}

/// The marker lookup from what was found: `found` is the directory of the
/// nearest marker with what reading it gave, or `None` when no marker was
/// found. No marker gives `Ok(None)`; a marker that could not be read gives
/// the reading error; a marker whose trimmed content is a valid slug gives
/// its directory and that slug; any other content is corrupt.
pub fn marker_lookup<P, E>(found: Option<(P, Result<String, E>)>) -> (res: Result<
    Option<(P, String)>,
    MarkerError<E>,
>)
    ensures
        match found {
            None => res matches Ok(None),
            Some((dir, Err(e))) => res matches Err(MarkerError::Read(r)) && r == e,
            Some((dir, Ok(c))) => {
                let t = trim_both(c@, TrimSet::WhiteSpace);
                if slug_valid(t) {
                    res matches Ok(Some((d, s))) && d == dir && s@ == t
                } else {
                    res matches Err(MarkerError::Corrupt(s)) && s@ == t
                }
            },
        },
{
    match found {
        None => Ok(None),
        Some((dir, Err(e))) => Err(MarkerError::Read(e)),
        Some((dir, Ok(content))) => match parse_marker(content.as_str()) {
            Ok(slug) => Ok(Some((dir, slug))),
            Err(MemError::CorruptMarker(t)) => Err(MarkerError::Corrupt(t)),
            Err(_) => Err(MarkerError::Corrupt(String::new())),
        },
    }
}

/// Why the database directory cannot be found: the marker lookup failed
/// (with its own error), or a project has a marker and no user data
/// directory is known.
#[derive(Debug)]
pub enum DbDirError<E> {
    Marker(E),
    NoDataHome,
}

/// The database directory, by precedence: a set, non-empty override wins
/// whatever the marker lookup gave (a failed lookup included); otherwise a
/// failed lookup is the error; otherwise a project with a marker lives under
/// the user data directory (an error when none is known), and a directory
/// without a marker uses the legacy `.memory`. `marker` is the result of the
/// marker lookup from the current directory: the slug of the nearest marker,
/// if any.
pub fn resolve_db_dir_from<E>(
    env_dir: Option<&str>,
    marker: Result<Option<String>, E>,
    data_home: Option<Vec<String>>,
) -> (res: Result<DbDir, DbDirError<E>>)
    ensures
        match env_dir {
            Some(d) if d@.len() > 0 => res matches Ok(DbDir::Override(o)) && o@ == d@,
            _ => match marker {
                Err(e) => res matches Err(DbDirError::Marker(m)) && m == e,
                Ok(None) => res matches Ok(DbDir::Legacy),
                Ok(Some(slug)) => match data_home {
                    None => res matches Err(DbDirError::NoDataHome),
                    Some(base) => res matches Ok(DbDir::Project { base: b, slug: s }) && b@ == base@
                        && s == slug,
                },
            },
        },
{
    if let Some(dir) = env_override(env_dir) {
        return Ok(dir);
    }
    match marker {
        Err(e) => Err(DbDirError::Marker(e)),
        Ok(slug) => match dir_from_marker(slug, data_home) {
            Ok(dir) => Ok(dir),
            Err(_) => Err(DbDirError::NoDataHome),
        },
    }
}

/// The path components of the database directory.
pub open spec fn db_dir_spec(dir: DbDir) -> Seq<Seq<char>> {
    match dir {
        DbDir::Override(d) => seq![d@],
        DbDir::Project { base, slug } => components_view(base@) + seq![DATA_SUBDIR@, slug@],
        DbDir::Legacy => seq![LEGACY_DIR@],
    }
}

/// The path components of the database directory, to be joined in order.
pub fn db_dir_components(dir: &DbDir) -> (parts: Vec<String>)
    ensures
        components_view(parts@) == db_dir_spec(*dir),
{
    let mut parts: Vec<String> = Vec::new();
    match dir {
        DbDir::Override(d) => {
            parts.push(d.clone());
        },
        DbDir::Project { base, slug } => {
            let mut i: usize = 0;
            while i < base.len()
                invariant
                    i <= base.len(),
                    parts@ == base@.take(i as int),
                decreases base.len() - i,
            {
                parts.push(base[i].clone());
                proof {
                    assert(parts@ =~= base@.take(i + 1));
                }
                i = i + 1;
            }
            assert(base@.take(base.len() as int) =~= base@);
            parts.push(String::from_str(DATA_SUBDIR));
            parts.push(slug.clone());
        },
        DbDir::Legacy => {
            parts.push(String::from_str(LEGACY_DIR));
        },
    }
    assert(components_view(parts@) =~= db_dir_spec(*dir));
    parts
}

/// The path components of the database file: the directory, then `project_context.db`.
pub fn db_path(dir: &DbDir) -> (parts: Vec<String>)
    ensures
        components_view(parts@) == db_dir_spec(*dir).push(DB_FILE@),
{
    let mut parts = db_dir_components(dir);
    let ghost before = parts@;
    parts.push(String::from_str(DB_FILE));
    assert(components_view(parts@) =~= components_view(before).push(DB_FILE@));
    parts
}

} // verus!
