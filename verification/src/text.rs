//! Character and string helpers shared by the slug, tag and protocol logic.
use vstd::prelude::*;

verus! {

/// The Unicode `White_Space` property (the characters that `str::trim` removes).
pub open spec fn is_white_space(c: char) -> bool {
    let u = c as u32;
    ||| 0x09 <= u <= 0x0D
    ||| u == 0x20
    ||| u == 0x85
    ||| u == 0xA0
    ||| u == 0x1680
    ||| 0x2000 <= u <= 0x200A
    ||| u == 0x2028
    ||| u == 0x2029
    ||| u == 0x202F
    ||| u == 0x205F
    ||| u == 0x3000
}

/// Executable test of the Unicode `White_Space` property.
pub fn white_space(c: char) -> (b: bool)
    ensures
        b == is_white_space(c),
{
    let u = c as u32;
    (0x09 <= u && u <= 0x0D) || u == 0x20 || u == 0x85 || u == 0xA0 || u == 0x1680 || (0x2000
        <= u && u <= 0x200A) || u == 0x2028 || u == 0x2029 || u == 0x202F || u == 0x205F || u
        == 0x3000
}

/// The sets of characters that the trimming helpers strip.
#[derive(Clone, Copy, Debug, PartialEq, Eq)]
pub enum TrimSet {
    /// Unicode white space (as `str::trim`).
    WhiteSpace,
    /// The dash `-` (as `str::trim_matches('-')`).
    Dash,
}

/// Whether `c` belongs to the set.
pub open spec fn in_trim_set(set: TrimSet, c: char) -> bool {
    match set {
        TrimSet::WhiteSpace => is_white_space(c),
        TrimSet::Dash => c == '-',
    }
}

fn in_set(set: TrimSet, c: char) -> (b: bool)
    ensures
        b == in_trim_set(set, c),
{
    match set {
        TrimSet::WhiteSpace => white_space(c),
        TrimSet::Dash => c == '-',
    }
}

/// `s` without its leading characters of `set`.
pub open spec fn trim_front(s: Seq<char>, set: TrimSet) -> Seq<char>
    decreases s.len(),
{
    if s.len() > 0 && in_trim_set(set, s[0]) {
        trim_front(s.drop_first(), set)
    } else {
        s
    }
}

/// `s` without its trailing characters of `set`.
pub open spec fn trim_back(s: Seq<char>, set: TrimSet) -> Seq<char>
    decreases s.len(),
{
    if s.len() > 0 && in_trim_set(set, s.last()) {
        trim_back(s.drop_last(), set)
    } else {
        s
    }
}

/// `s` without its leading and trailing characters of `set`.
pub open spec fn trim_both(s: Seq<char>, set: TrimSet) -> Seq<char> {
    trim_back(trim_front(s, set), set)
}

proof fn lemma_trim_front_skip(s: Seq<char>, set: TrimSet, k: int)
    requires
        0 <= k <= s.len(),
        forall|j: int| 0 <= j < k ==> in_trim_set(set, #[trigger] s[j]),
    ensures
        trim_front(s, set) == trim_front(s.subrange(k, s.len() as int), set),
    decreases k,
{
    if k == 0 {
        assert(s.subrange(0, s.len() as int) =~= s);
    } else {
        assert(in_trim_set(set, s[0]));
        let t = s.drop_first();
        assert forall|j: int| 0 <= j < k - 1 implies in_trim_set(set, #[trigger] t[j]) by {
            assert(t[j] == s[j + 1]);
        }
        lemma_trim_front_skip(t, set, k - 1);
        assert(t.subrange(k - 1, t.len() as int) =~= s.subrange(k, s.len() as int));
    }
}

proof fn lemma_trim_back_skip(s: Seq<char>, set: TrimSet, k: int)
    requires
        0 <= k <= s.len(),
        forall|j: int| k <= j < s.len() ==> in_trim_set(set, #[trigger] s[j]),
    ensures
        trim_back(s, set) == trim_back(s.subrange(0, k), set),
    decreases s.len() - k,
{
    if k == s.len() {
        assert(s.subrange(0, k) =~= s);
    } else {
        assert(in_trim_set(set, s.last()));
        let t = s.drop_last();
        assert forall|j: int| k <= j < t.len() implies in_trim_set(set, #[trigger] t[j]) by {
            assert(t[j] == s[j]);
        }
        lemma_trim_back_skip(t, set, k);
        assert(t.subrange(0, k) =~= s.subrange(0, k));
    }
}

proof fn lemma_trim_front_ends(s: Seq<char>, set: TrimSet)
    ensures
        trim_front(s, set).len() <= s.len(),
        trim_front(s, set).len() > 0 ==> !in_trim_set(set, trim_front(s, set)[0]),
    decreases s.len(),
{
    if s.len() > 0 && in_trim_set(set, s[0]) {
        lemma_trim_front_ends(s.drop_first(), set);
    }
}

proof fn lemma_trim_back_ends(s: Seq<char>, set: TrimSet)
    ensures
        trim_back(s, set).len() <= s.len(),
        trim_back(s, set) =~= s.take(trim_back(s, set).len() as int),
        trim_back(s, set).len() > 0 ==> !in_trim_set(set, trim_back(s, set).last()),
    decreases s.len(),
{
    if s.len() > 0 && in_trim_set(set, s.last()) {
        lemma_trim_back_ends(s.drop_last(), set);
        let r = trim_back(s.drop_last(), set);
        assert(s.drop_last().take(r.len() as int) =~= s.take(r.len() as int));
    } else {
        assert(s.take(s.len() as int) =~= s);
    }
}

proof fn lemma_trim_front_range(s: Seq<char>, set: TrimSet) -> (k: int)
    ensures
        0 <= k <= s.len(),
        trim_front(s, set) == s.subrange(k, s.len() as int),
    decreases s.len(),
{
    if s.len() > 0 && in_trim_set(set, s[0]) {
        let k = lemma_trim_front_range(s.drop_first(), set);
        assert(s.drop_first().subrange(k, s.len() - 1) =~= s.subrange(k + 1, s.len() as int));
        k + 1
    } else {
        assert(s.subrange(0, s.len() as int) =~= s);
        0
    }
}

proof fn lemma_trim_back_range(s: Seq<char>, set: TrimSet) -> (k: int)
    ensures
        0 <= k <= s.len(),
        trim_back(s, set) == s.subrange(0, k),
    decreases s.len(),
{
    if s.len() > 0 && in_trim_set(set, s.last()) {
        let k = lemma_trim_back_range(s.drop_last(), set);
        assert(s.drop_last().subrange(0, k) =~= s.subrange(0, k));
        k
    } else {
        assert(s.subrange(0, s.len() as int) =~= s);
        s.len() as int
    }
}

/// `s` trimmed on both sides is a stretch of `s`: it holds no character that
/// `s` does not hold.
pub proof fn lemma_trim_both_range(s: Seq<char>, set: TrimSet) -> (r: (int, int))
    ensures
        0 <= r.0 <= r.1 <= s.len(),
        trim_both(s, set) == s.subrange(r.0, r.1),
{
    let a = lemma_trim_front_range(s, set);
    let t = trim_front(s, set);
    let b = lemma_trim_back_range(t, set);
    assert(t.subrange(0, b) =~= s.subrange(a, a + b));
    (a, a + b)
}

/// `s` trimmed of `set` on both sides is no longer than `s`, and, when not
/// empty, starts and ends with characters outside `set`.
pub proof fn lemma_trim_both_ends(s: Seq<char>, set: TrimSet)
    ensures
        trim_both(s, set).len() <= s.len(),
        trim_both(s, set).len() > 0 ==> !in_trim_set(set, trim_both(s, set)[0]) && !in_trim_set(
            set,
            trim_both(s, set).last(),
        ),
{
    let t = trim_front(s, set);
    lemma_trim_front_ends(s, set);
    lemma_trim_back_ends(t, set);
    let r = trim_back(t, set);
    if r.len() > 0 {
        assert(r[0] == t.take(r.len() as int)[0]);
    }
}

/// Strip the leading and trailing characters of `set` from `s`
/// (`str::trim` for white space, `str::trim_matches('-')` for dashes).
pub fn trim_set(s: &str, set: TrimSet) -> (r: &str)
    ensures
        r@ == trim_both(s@, set),
{
    let n = s.unicode_len();
    let mut i: usize = 0;
    while i < n && in_set(set, s.get_char(i))
        invariant
            i <= n,
            n == s@.len(),
            forall|j: int| 0 <= j < i ==> in_trim_set(set, #[trigger] s@[j]),
        decreases n - i,
    {
        i = i + 1;
    }
    let mut j: usize = n;
    while j > i && in_set(set, s.get_char(j - 1))
        invariant
            i <= j <= n,
            n == s@.len(),
            forall|k: int| j <= k < n ==> in_trim_set(set, #[trigger] s@[k]),
        decreases j,
    {
        j = j - 1;
    }
    let r = s.substring_char(i, j);
    proof {
        let t = s@.subrange(i as int, n as int);
        lemma_trim_front_skip(s@, set, i as int);
        if i < n {
            assert(!in_trim_set(set, s@[i as int]));
            assert(trim_front(t, set) == t);
        } else {
            assert(t.len() == 0);
        }
        let k = (j - i) as int;
        assert forall|m: int| k <= m < t.len() implies in_trim_set(set, #[trigger] t[m]) by {
            assert(t[m] == s@[m + i]);
        }
        lemma_trim_back_skip(t, set, k);
        let u = t.subrange(0, k);
        assert(u =~= s@.subrange(i as int, j as int));
        if j > i {
            assert(u.last() == s@[j - 1]);
            assert(!in_trim_set(set, u.last()));
        } else {
            assert(u.len() == 0);
        }
    }
    r
}

/// Strip the trailing characters of `set` from `s` (`str::trim_end` for white space).
pub fn trim_end_set(s: &str, set: TrimSet) -> (r: &str)
    ensures
        r@ == trim_back(s@, set),
{
    let n = s.unicode_len();
    let mut j: usize = n;
    while j > 0 && in_set(set, s.get_char(j - 1))
        invariant
            j <= n,
            n == s@.len(),
            forall|k: int| j <= k < n ==> in_trim_set(set, #[trigger] s@[k]),
        decreases j,
    {
        j = j - 1;
    }
    let r = s.substring_char(0, j);
    proof {
        lemma_trim_back_skip(s@, set, j as int);
        assert(r@ =~= s@.subrange(0, j as int));
        if j > 0 {
            assert(r@.last() == s@[j - 1]);
        }
    }
    r
}

/// Whether `needle` occurs in `hay` starting at position `i`.
pub open spec fn occurs_at(hay: Seq<char>, needle: Seq<char>, i: int) -> bool {
    0 <= i && i + needle.len() <= hay.len() && hay.subrange(i, i + needle.len()) == needle
}

/// The position of the first occurrence of `needle` in `hay` (`str::find`).
#[verifier::opaque]
pub open spec fn find_first(hay: Seq<char>, needle: Seq<char>) -> Option<int> {
    if exists|i: int| occurs_at(hay, needle, i) {
        Some(
            choose|i: int|
                occurs_at(hay, needle, i) && forall|j: int| 0 <= j < i ==> !occurs_at(hay, needle, j),
        )
    } else {
        None
    }
}

proof fn lemma_first_occurrence(hay: Seq<char>, needle: Seq<char>, i: int)
    requires
        occurs_at(hay, needle, i),
    ensures
        exists|k: int|
            occurs_at(hay, needle, k) && forall|j: int| 0 <= j < k ==> !occurs_at(hay, needle, j),
    decreases i,
{
    if exists|j: int| 0 <= j < i && occurs_at(hay, needle, j) {
        let j = choose|j: int| 0 <= j < i && occurs_at(hay, needle, j);
        lemma_first_occurrence(hay, needle, j);
    } else {
        assert(forall|j: int| 0 <= j < i ==> !occurs_at(hay, needle, j));
    }
}

/// The position `find_first` gives is an occurrence, with none before it.
pub proof fn lemma_find_first_occurs(hay: Seq<char>, needle: Seq<char>)
    ensures
        match find_first(hay, needle) {
            Some(i) => occurs_at(hay, needle, i) && forall|j: int|
                0 <= j < i ==> !occurs_at(hay, needle, j),
            None => forall|j: int| !occurs_at(hay, needle, j),
        },
{
    reveal(find_first);
    if exists|i: int| occurs_at(hay, needle, i) {
        let i = choose|i: int| occurs_at(hay, needle, i);
        lemma_first_occurrence(hay, needle, i);
    }
}

/// Whether `needle` occurs in `hay` at position `i`.
fn occurs_here(hay: &str, n: usize, needle: &str, m: usize, i: usize) -> (b: bool)
    requires
        n == hay@.len(),
        m == needle@.len(),
        i + m <= n,
    ensures
        b == occurs_at(hay@, needle@, i as int),
{
    let mut k: usize = 0;
    while k < m
        invariant
            k <= m,
            n == hay@.len(),
            m == needle@.len(),
            i + m <= n,
            forall|j: int| 0 <= j < k ==> hay@[i + j] == needle@[j],
        decreases m - k,
    {
        if hay.get_char(i + k) != needle.get_char(k) {
            assert(hay@.subrange(i as int, i + m)[k as int] != needle@[k as int]);
            return false;
        }
        k = k + 1;
    }
    assert(hay@.subrange(i as int, i + m) =~= needle@);
    true
}

/// The first position at which `needle` occurs in `hay` (`str::find`, in characters).
pub fn find_text(hay: &str, needle: &str) -> (r: Option<usize>)
    ensures
        match r {
            Some(i) => find_first(hay@, needle@) == Some(i as int) && occurs_at(
                hay@,
                needle@,
                i as int,
            ),
            None => find_first(hay@, needle@) is None,
        },
{
    reveal(find_first);
    let n = hay.unicode_len();
    let m = needle.unicode_len();
    if m > n {
        return None;
    }
    let last = n - m;
    let mut i: usize = 0;
    loop
        invariant
            i <= last,
            last == n - m,
            m <= n,
            n == hay@.len(),
            m == needle@.len(),
            forall|j: int| 0 <= j < i ==> !occurs_at(hay@, needle@, j),
        decreases last - i,
    {
        if occurs_here(hay, n, needle, m, i) {
            proof {
                reveal(find_first);
                let w = choose|k: int|
                    occurs_at(hay@, needle@, k) && forall|j: int|
                        0 <= j < k ==> !occurs_at(hay@, needle@, j);
                assert(occurs_at(hay@, needle@, i as int));
                assert(w == i);
            }
            return Some(i);
        }
        if i == last {
            proof {
                reveal(find_first);
            }
            return None;
        }
        i = i + 1;
    }
}

/// Append one character to a `String` (`String::push`).
#[verifier::external_body]
pub(crate) fn push_char(s: &mut String, c: char)
    ensures
        final(s)@ == old(s)@.push(c),
{
    s.push(c);
}

/// Whether two strings hold the same characters.
pub fn same_text(a: &str, b: &str) -> (r: bool)
    ensures
        r == (a@ == b@),
{
    let n = a.unicode_len();
    let m = b.unicode_len();
    if n != m {
        return false;
    }
    let mut i: usize = 0;
    while i < n
        invariant
            i <= n,
            n == a@.len(),
            m == b@.len(),
            n == m,
            forall|j: int| 0 <= j < i ==> a@[j] == b@[j],
        decreases n - i,
    {
        if a.get_char(i) != b.get_char(i) {
            return false;
        }
        i = i + 1;
    }
    assert(a@ =~= b@);
    true
}

/// Whether `c` is alphanumeric in the Unicode sense (`char::is_alphanumeric`).
pub uninterp spec fn unicode_alphanumeric(c: char) -> bool;

/// The Unicode lowercase mapping of `c` (the characters `char::to_lowercase` yields).
pub uninterp spec fn unicode_lowercase(c: char) -> Seq<char>;

/// Whether `c` is an ASCII character.
pub open spec fn is_ascii_char(c: char) -> bool {
    c <= '\u{7f}'
}

/// Whether `c` is an ASCII letter or digit.
pub open spec fn is_ascii_alnum(c: char) -> bool {
    ('a' <= c && c <= 'z') || ('A' <= c && c <= 'Z') || ('0' <= c && c <= '9')
}

/// `char::is_alphanumeric`: whether the character is alphabetic or numeric in
/// Unicode. The result is named; of an ASCII character the documentation
/// says that the letters and the digits are the alphanumeric ones.
#[verifier::external_body]
pub(crate) fn char_is_alphanumeric(c: char) -> (b: bool)
    ensures
        b == unicode_alphanumeric(c),
        is_ascii_char(c) ==> (b <==> is_ascii_alnum(c)),
{
    c.is_alphanumeric()
}

/// `char::to_lowercase`, collected into a `String`: the Unicode lowercase
/// mapping of the character, which the documentation says is one or more
/// characters. The mapping is named; of an ASCII character it is the one
/// character that `to_ascii_lowercase` gives.
#[verifier::external_body]
pub(crate) fn char_to_lowercase(c: char) -> (s: String)
    ensures
        s@ == unicode_lowercase(c),
        s@.len() >= 1,
        is_ascii_char(c) ==> s@ == seq![ascii_lower(c)],
{
    c.to_lowercase().to_string()
}

/// ASCII lowercase of one character (`char::to_ascii_lowercase`).
pub open spec fn ascii_lower(c: char) -> char {
    if 'A' <= c && c <= 'Z' {
        ((c as u32) + 32) as char
    } else {
        c
    }
}

/// `c` with an ASCII uppercase letter lowered (`char::to_ascii_lowercase`).
pub fn to_ascii_lower(c: char) -> (r: char)
    ensures
        r == ascii_lower(c),
{
    if 'A' <= c && c <= 'Z' {
        let b = (c as u8) + 32;
        b as char
    } else {
        c
    }
}

/// Every character of `s` lowered (ASCII).
pub open spec fn lower_all(s: Seq<char>) -> Seq<char> {
    s.map_values(|c: char| ascii_lower(c))
}

/// The string `s` with every ASCII uppercase letter lowered (`str::to_ascii_lowercase`).
pub fn ascii_lowercase(s: &str) -> (r: String)
    ensures
        r@ == lower_all(s@),
{
    let n = s.unicode_len();
    let mut out = String::new();
    let mut i: usize = 0;
    while i < n
        invariant
            i <= n,
            n == s@.len(),
            out@ == s@.take(i as int).map_values(|c: char| ascii_lower(c)),
        decreases n - i,
    {
        let c = to_ascii_lower(s.get_char(i));
        push_char(&mut out, c);
        proof {
            assert(s@.take(i + 1).map_values(|c: char| ascii_lower(c)) =~= s@.take(
                i as int,
            ).map_values(|c: char| ascii_lower(c)).push(ascii_lower(s@[i as int])));
        }
        i = i + 1;
    }
    assert(s@.take(n as int) =~= s@);
    out
}

/// The text of `s` in Rust's debug notation (`format!("{:?}", s)`).
pub uninterp spec fn debug_text(s: Seq<char>) -> Seq<char>;

/// `<str as Debug>::fmt` through `format!("{:?}", ..)`: the quoted, escaped
/// form of the string; the escaping is named, not stated.
#[verifier::external_body]
pub(crate) fn debug_quoted(s: &str) -> (r: String)
    ensures
        r@ == debug_text(s@),
{
    format!("{:?}", s)
}

} // verus!
