//! Tag normalization: the canonical form in which tags are stored and looked up.
use vstd::prelude::*;

use crate::error::MemError;
use crate::text::{lower_all, ascii_lowercase, in_trim_set, trim_both, trim_back, trim_front, trim_set, TrimSet};

verus! {

/// Maximum length of a normalized tag, in characters.
pub const TAG_MAX_LEN: usize = 64;

/// The characters a stored tag may hold: `[a-z0-9._-]`.
pub open spec fn is_tag_char(c: char) -> bool {
    ||| 'a' <= c && c <= 'z'
    ||| '0' <= c && c <= '9'
    ||| c == '.'
    ||| c == '_'
    ||| c == '-'
}

/// Whether `c` may stand in a normalized tag.
pub fn tag_char_is_valid(c: char) -> (b: bool)
    ensures
        b == is_tag_char(c),
{
    ('a' <= c && c <= 'z') || ('0' <= c && c <= '9') || c == '.' || c == '_' || c == '-'
}

/// The tag trimmed of white space and lowered (ASCII).
pub open spec fn tag_normal_form(tag: Seq<char>) -> Seq<char> {
    lower_all(trim_both(tag, TrimSet::WhiteSpace))
}

/// A tag as it may be stored: non-empty, at most `TAG_MAX_LEN` characters,
/// all of `[a-z0-9._-]`.
pub open spec fn tag_is_normal(t: Seq<char>) -> bool {
    &&& 0 < t.len() <= TAG_MAX_LEN
    &&& forall|i: int| 0 <= i < t.len() ==> is_tag_char(#[trigger] t[i])
}

/// The outcome of `normalize_tag` on `tag`, with `res` its result.
pub open spec fn normalize_tag_post(tag: Seq<char>, res: Result<String, MemError>) -> bool {
    let n = tag_normal_form(tag);
    match res {
        Ok(t) => t@ == n && tag_is_normal(n),
        Err(MemError::EmptyTag) => n.len() == 0,
        Err(MemError::TagTooLong(t)) => n.len() > TAG_MAX_LEN && t@ == n,
        Err(MemError::InvalidTag(t)) => {
            &&& 0 < n.len() <= TAG_MAX_LEN
            &&& exists|i: int| 0 <= i < n.len() && !is_tag_char(#[trigger] n[i])
            &&& t@ == tag
        },
        Err(_) => false,
    }
}

/// Normalize and validate a tag: trim, lowercase (ASCII), then check the
/// character set and the length. An empty or invalid tag is an error.
pub fn normalize_tag(tag: &str) -> (res: Result<String, MemError>)
    ensures
        normalize_tag_post(tag@, res),
{
    let trimmed = trim_set(tag, TrimSet::WhiteSpace);
    let normalized = ascii_lowercase(trimmed);
    let n = normalized.as_str().unicode_len();
    if n == 0 {
        return Err(MemError::EmptyTag);
    }
    if n > TAG_MAX_LEN {
        return Err(MemError::TagTooLong(normalized));
    }
    let mut i: usize = 0;
    while i < n
        invariant
            i <= n,
            n == normalized@.len(),
            0 < n <= TAG_MAX_LEN,
            normalized@ == tag_normal_form(tag@),
            forall|j: int| 0 <= j < i ==> is_tag_char(#[trigger] normalized@[j]),
        decreases n - i,
    {
        let c = normalized.as_str().get_char(i);
        if !tag_char_is_valid(c) {
            assert(!is_tag_char(normalized@[i as int]));
            return Err(MemError::InvalidTag(String::from_str(tag)));
        }
        i = i + 1;
    }
    Ok(normalized)
}

/// A normalized tag is its own normal form.
pub proof fn lemma_normal_tag_is_fixed(t: Seq<char>)
    requires
        tag_is_normal(t),
    ensures
        tag_normal_form(t) == t,
{
    assert(!in_trim_set(TrimSet::WhiteSpace, t[0]));
    assert(trim_front(t, TrimSet::WhiteSpace) == t);
    assert(!in_trim_set(TrimSet::WhiteSpace, t.last()));
    assert(trim_back(t, TrimSet::WhiteSpace) == t);
    assert(lower_all(t) =~= t);
}

/// Normalization is idempotent: normalizing an accepted tag again gives it back.
pub proof fn law_normalize_tag_idempotent(tag: Seq<char>)
    requires
        tag_is_normal(tag_normal_form(tag)),
    ensures
        tag_normal_form(tag_normal_form(tag)) == tag_normal_form(tag),
{
    lemma_normal_tag_is_fixed(tag_normal_form(tag));
}

} // verus!
