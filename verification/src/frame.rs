//! Framing of incoming MCP messages: a raw JSON line, or `Content-Length`
//! headers followed by a body. The reading itself is left to the caller.
use vstd::prelude::*;

use crate::error::{decimal_text, digit_char};
use crate::text::{lower_all, ascii_lowercase, trim_both, trim_set, TrimSet};

verus! {

/// The bytes skipped before a message: space, tab, carriage return, newline.
pub open spec fn is_gap_byte(b: u8) -> bool {
    b == 0x20 || b == 0x09 || b == 0x0D || b == 0x0A
}

/// The number of gap bytes at the start of `buf`.
pub fn leading_gap(buf: &[u8]) -> (n: usize)
    ensures
        n <= buf@.len(),
        forall|i: int| 0 <= i < n ==> is_gap_byte(#[trigger] buf@[i]),
        n < buf@.len() ==> !is_gap_byte(buf@[n as int]),
{
    let mut n: usize = 0;
    while n < buf.len() && (buf[n] == 0x20 || buf[n] == 0x09 || buf[n] == 0x0D || buf[n] == 0x0A)
        invariant
            n <= buf@.len(),
            forall|i: int| 0 <= i < n ==> is_gap_byte(#[trigger] buf@[i]),
        decreases buf@.len() - n,
    {
        n = n + 1;
    }
    n
}

/// How a message is framed, after its first non-gap byte.
#[derive(Debug, Clone, Copy, PartialEq, Eq, Structural)]
pub enum Framing {
    /// A JSON object or array on one line.
    JsonLine,
    /// Header lines, an empty line, then a body of `Content-Length` bytes.
    Headers,
}

/// A message that starts with `{` or `[` is a JSON line; any other is framed by headers.
pub fn framing_of(first: u8) -> (f: Framing)
    ensures
        f == (if first == 0x7B || first == 0x5B {
            Framing::JsonLine
        } else {
            Framing::Headers
        }),
{
    if first == 0x7B || first == 0x5B {
        Framing::JsonLine
    } else {
        Framing::Headers
    }
}

/// The value of a string of decimal digits.
pub open spec fn digits_value(s: Seq<char>) -> int
    decreases s.len(),
{
    if s.len() == 0 {
        0
    } else {
        digits_value(s.drop_last()) * 10 + (s.last() as int - '0' as int)
    }
}

/// Whether every character of `s` is an ASCII digit.
pub open spec fn all_digits(s: Seq<char>) -> bool {
    forall|i: int| 0 <= i < s.len() ==> '0' <= #[trigger] s[i] && s[i] <= '9'
}

/// The digits of a `usize` as `str::parse` reads them: an optional `+`, then
/// at least one digit.
pub open spec fn usize_digits(s: Seq<char>) -> Seq<char> {
    if s.len() > 0 && s[0] == '+' {
        s.drop_first()
    } else {
        s
    }
}

/// `str::parse::<usize>`: the number, when `s` is an optional `+` and at least
/// one ASCII digit and the value fits.
pub open spec fn parse_usize_spec(s: Seq<char>) -> Option<usize> {
    let d = usize_digits(s);
    if d.len() > 0 && all_digits(d) && digits_value(d) <= usize::MAX {
        Some(digits_value(d) as usize)
    } else {
        None
    }
}

proof fn lemma_digits_value_nonneg(s: Seq<char>)
    requires
        all_digits(s),
    ensures
        digits_value(s) >= 0,
    decreases s.len(),
{
    if s.len() > 0 {
        lemma_digits_value_nonneg(s.drop_last());
    }
}

proof fn lemma_digits_value_grows(s: Seq<char>, k: int)
    requires
        all_digits(s),
        0 <= k <= s.len(),
    ensures
        digits_value(s.take(k)) <= digits_value(s),
    decreases s.len() - k,
{
    if k < s.len() {
        lemma_digits_value_grows(s, k + 1);
        assert(s.take(k + 1).drop_last() =~= s.take(k));
        lemma_digits_value_nonneg(s.take(k));
        assert(all_digits(s.take(k)));
    } else {
        assert(s.take(k) =~= s);
    }
}

proof fn lemma_digit_char(d: nat)
    requires
        d < 10,
    ensures
        '0' <= digit_char(d) && digit_char(d) <= '9',
        digit_char(d) as int - '0' as int == d,
{
}

proof fn lemma_decimal_text_digits(n: nat)
    ensures
        all_digits(decimal_text(n)),
        decimal_text(n).len() > 0,
        digits_value(decimal_text(n)) == n,
    decreases n,
{
    if n < 10 {
        lemma_digit_char(n);
        let t = decimal_text(n);
        assert(t == seq![digit_char(n)]);
        assert(t.drop_last() =~= Seq::<char>::empty());
        assert(digits_value(t.drop_last()) == 0);
        assert(t.last() == digit_char(n));
        assert(digits_value(t) == digits_value(t.drop_last()) * 10 + (t.last() as int - '0' as int));
    } else {
        lemma_decimal_text_digits(n / 10);
        lemma_digit_char(n % 10);
        let t = decimal_text(n / 10);
        let d = digit_char(n % 10);
        assert(decimal_text(n) == t.push(d));
        assert(t.push(d).drop_last() =~= t);
        assert(t.push(d).last() == d);
        assert(digits_value(t.push(d)) == digits_value(t) * 10 + (d as int - '0' as int));
        assert((n / 10) * 10 + n % 10 == n) by (nonlinear_arith);
        assert forall|i: int| 0 <= i < t.push(d).len() implies '0' <= #[trigger] t.push(d)[i]
            && t.push(d)[i] <= '9' by {
            if i < t.len() {
                assert(t.push(d)[i] == t[i]);
            }
        }
    }
}

/// A length written in decimal is read back as that length: the
/// `Content-Length` a sender writes with `usize::to_string` parses to the
/// same number.
pub proof fn law_content_length_round_trip(n: usize)
    ensures
        parse_usize_spec(decimal_text(n as nat)) == Some(n),
{
    lemma_decimal_text_digits(n as nat);
    let t = decimal_text(n as nat);
    assert('0' <= t[0] && t[0] <= '9');
    assert(usize_digits(t) == t);
}

/// Parse a decimal `usize` as `str::parse::<usize>` does.
#[verifier::rlimit(30)]
pub fn parse_usize(s: &str) -> (r: Option<usize>)
    ensures
        r == parse_usize_spec(s@),
{
    let n = s.unicode_len();
    let start: usize = if n > 0 && s.get_char(0) == '+' {
        1
    } else {
        0
    };
    let ghost d = usize_digits(s@);
    assert(d =~= s@.subrange(start as int, n as int));
    if start == n {
        return None;
    }
    let mut value: usize = 0;
    let mut i: usize = start;
    while i < n
        invariant
            start <= i <= n,
            n == s@.len(),
            d == s@.subrange(start as int, n as int),
            d == usize_digits(s@),
            d.len() > 0,
            all_digits(d.take(i - start)),
            value == digits_value(d.take(i - start)),
        decreases n - i,
    {
        let c = s.get_char(i);
        let ghost k: int = (i - start) as int;
        assert(d[k] == c);
        assert(d.take(k + 1).drop_last() =~= d.take(k));
        assert(d.take(k + 1).last() == c);
        if !('0' <= c && c <= '9') {
            assert(!all_digits(d));
            return None;
        }
        let digit: usize = (c as u32 - '0' as u32) as usize;
        let next = match value.checked_mul(10) {
            Some(v) => v.checked_add(digit),
            None => None,
        };
        match next {
            Some(v) => {
                proof {
                    assert(all_digits(d.take(k + 1)));
                }
                value = v;
            },
            None => {
                proof {
                    assert(all_digits(d.take(k + 1)));
                    if all_digits(d) {
                        lemma_digits_value_grows(d, k + 1);
                    }
                }
                return None;
            },
        }
        i = i + 1;
    }
    assert(d.take(n - start) =~= d);
    Some(value)
}

/// A header line, read without its line ending.
#[derive(Debug)]
pub enum HeaderLine {
    /// The empty line that ends the headers.
    End,
    /// A `Content-Length` header with its value.
    ContentLength(usize),
    /// A `Content-Length` header whose value is not a number; it holds the
    /// trimmed value.
    BadContentLength(String),
    /// Any other header.
    Other,
}

/// The index of the first `:` in `s`, if any.
pub open spec fn first_colon(s: Seq<char>) -> Option<int> {
    if exists|i: int| 0 <= i < s.len() && s[i] == ':' {
        Some(choose|i: int| 0 <= i < s.len() && s[i] == ':' && forall|j: int| 0 <= j < i ==> s[j] != ':')
    } else {
        None
    }
}

/// `line` without its trailing `\r` and `\n` characters.
pub open spec fn strip_line_end(line: Seq<char>) -> Seq<char>
    decreases line.len(),
{
    if line.len() > 0 && (line.last() == '\r' || line.last() == '\n') {
        strip_line_end(line.drop_last())
    } else {
        line
    }
}

/// What a header line says: empty ends the headers; a `Content-Length`
/// header (the name compared without ASCII case) gives the body length.
pub open spec fn header_line_spec(line: Seq<char>, h: HeaderLine) -> bool {
    let l = strip_line_end(line);
    if l.len() == 0 {
        h is End
    } else {
        match first_colon(l) {
            None => h is Other,
            Some(c) => if lower_all(l.take(c)) == "content-length"@ {
                let v = trim_both(l.skip(c + 1), TrimSet::WhiteSpace);
                match parse_usize_spec(v) {
                    Some(n) => h == HeaderLine::ContentLength(n),
                    None => h matches HeaderLine::BadContentLength(t) && t@ == v,
                }
            } else {
                h is Other
            },
        }
    }
}

proof fn lemma_strip_line_end(line: Seq<char>, k: int)
    requires
        0 <= k <= line.len(),
        forall|j: int| k <= j < line.len() ==> (#[trigger] line[j] == '\r' || line[j] == '\n'),
    ensures
        strip_line_end(line) == strip_line_end(line.take(k)),
    decreases line.len() - k,
{
    if k == line.len() {
        assert(line.take(k) =~= line);
    } else {
        let t = line.drop_last();
        assert forall|j: int| k <= j < t.len() implies (#[trigger] t[j] == '\r' || t[j] == '\n') by {
            assert(t[j] == line[j]);
        }
        lemma_strip_line_end(t, k);
        assert(t.take(k) =~= line.take(k));
    }
}

/// Read one header line (with or without its line ending).
pub fn parse_header_line(line: &str) -> (h: HeaderLine)
    ensures
        header_line_spec(line@, h),
{
    let n = line.unicode_len();
    let mut end: usize = n;
    while end > 0 && (line.get_char(end - 1) == '\r' || line.get_char(end - 1) == '\n')
        invariant
            end <= n,
            n == line@.len(),
            forall|j: int| end <= j < n ==> (#[trigger] line@[j] == '\r' || line@[j] == '\n'),
        decreases end,
    {
        end = end - 1;
    }
    let l = line.substring_char(0, end);
    proof {
        lemma_strip_line_end(line@, end as int);
        assert(line@.take(end as int) =~= l@);
        if end > 0 {
            assert(!(l@.last() == '\r' || l@.last() == '\n'));
        }
        assert(strip_line_end(l@) == l@);
    }
    if end == 0 {
        return HeaderLine::End;
    }
    let mut c: usize = 0;
    while c < end && l.get_char(c) != ':'
        invariant
            c <= end,
            end == l@.len(),
            forall|j: int| 0 <= j < c ==> l@[j] != ':',
        decreases end - c,
    {
        c = c + 1;
    }
    if c == end {
        return HeaderLine::Other;
    }
    proof {
        let fc = first_colon(l@);
        assert(l@[c as int] == ':');
        let w = choose|i: int| 0 <= i < l@.len() && l@[i] == ':' && forall|j: int| 0 <= j < i ==> l@[j] != ':';
        assert(0 <= c < l@.len() && l@[c as int] == ':' && forall|j: int| 0 <= j < c ==> l@[j] != ':');
        assert(w == c);
    }
    let name = ascii_lowercase(l.substring_char(0, c));
    proof {
        reveal_strlit("content-length");
    }
    if crate::text::same_text(name.as_str(), "content-length") {
        let value = trim_set(l.substring_char(c + 1, end), TrimSet::WhiteSpace);
        proof {
            assert(l@.subrange(c + 1, end as int) =~= l@.skip(c + 1));
            assert(l@.subrange(0, c as int) =~= l@.take(c as int));
        }
        match parse_usize(value) {
            Some(v) => HeaderLine::ContentLength(v),
            None => HeaderLine::BadContentLength(String::from_str(value)),
        }
    } else {
        proof {
            assert(l@.subrange(0, c as int) =~= l@.take(c as int));
        }
        HeaderLine::Other
    }
}

/// Where reading the headers stands.
#[derive(Debug)]
pub enum HeaderStep {
    /// Read the next header line; the length seen so far, if any.
    Next(Option<usize>),
    /// The headers ended: read a body of this many bytes.
    Body(usize),
    /// The headers ended without a `Content-Length`.
    MissingLength,
    /// A `Content-Length` value is not a number; it holds the value.
    BadLength(String),
}

/// The next step after header line `line`, with `seen` the length given so
/// far (a later `Content-Length` replaces an earlier one).
pub fn header_step(seen: Option<usize>, line: &str) -> (step: HeaderStep)
    ensures
        ({
            let l = strip_line_end(line@);
            if l.len() == 0 {
                match seen {
                    Some(n) => step == HeaderStep::Body(n),
                    None => step is MissingLength,
                }
            } else {
                match first_colon(l) {
                    Some(c) => if lower_all(l.take(c)) == "content-length"@ {
                        let v = trim_both(l.skip(c + 1), TrimSet::WhiteSpace);
                        match parse_usize_spec(v) {
                            Some(n) => step == HeaderStep::Next(Some(n)),
                            None => step matches HeaderStep::BadLength(t) && t@ == v,
                        }
                    } else {
                        step == HeaderStep::Next(seen)
                    },
                    None => step == HeaderStep::Next(seen),
                }
            }
        }),
{
    match parse_header_line(line) {
        HeaderLine::End => match seen {
            Some(n) => HeaderStep::Body(n),
            None => HeaderStep::MissingLength,
        },
        HeaderLine::ContentLength(n) => HeaderStep::Next(Some(n)),
        HeaderLine::BadContentLength(v) => HeaderStep::BadLength(v),
        HeaderLine::Other => HeaderStep::Next(seen),
    }
}

/// A message as it is sent: its JSON text on one line, then a newline (no
/// headers).
pub fn outgoing_frame(body: &str) -> (frame: String)
    ensures
        frame@ == body@.push('\n'),
{
    let mut frame = String::from_str(body);
    crate::text::push_char(&mut frame, '\n');
    frame
}

} // verus!
