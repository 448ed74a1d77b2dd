//! Character-sequence helpers shared by the parsers and the aggregator.
//!
//! Text is modelled as `Seq<char>`, the view of `String` and `&str`. The
//! executable helpers work on character vectors and slices.
use vstd::prelude::*;

verus! {

/// Whitespace as `char::is_whitespace` defines it (the Unicode `White_Space` property).
pub open spec fn is_ws(c: char) -> bool {
    ||| ('\u{9}' <= c && c <= '\u{d}')
    ||| c == ' '
    ||| c == '\u{85}'
    ||| c == '\u{a0}'
    ||| c == '\u{1680}'
    ||| ('\u{2000}' <= c && c <= '\u{200a}')
    ||| c == '\u{2028}'
    ||| c == '\u{2029}'
    ||| c == '\u{202f}'
    ||| c == '\u{205f}'
    ||| c == '\u{3000}'
}

/// Drops leading whitespace.
pub open spec fn trim_start(s: Seq<char>) -> Seq<char>
    decreases s.len(),
{
    if s.len() > 0 && is_ws(s[0]) {
        trim_start(s.drop_first())
    } else {
        s
    }
}

/// Drops trailing whitespace.
pub open spec fn trim_end(s: Seq<char>) -> Seq<char>
    decreases s.len(),
{
    if s.len() > 0 && is_ws(s.last()) {
        trim_end(s.drop_last())
    } else {
        s
    }
}

/// `str::trim`: drops whitespace on both ends.
pub open spec fn trim(s: Seq<char>) -> Seq<char> {
    trim_end(trim_start(s))
}

/// ASCII lowercase of one character; other characters are kept.
pub open spec fn lower_char(c: char) -> char {
    if 'A' <= c && c <= 'Z' {
        ((c as u32) + 32) as char
    } else {
        c
    }
}

/// `to_ascii_lowercase` on text.
pub open spec fn ascii_lower(s: Seq<char>) -> Seq<char> {
    s.map_values(|c: char| lower_char(c))
}

/// `eq_ignore_ascii_case`.
pub open spec fn eq_ignore_case(a: Seq<char>, b: Seq<char>) -> bool {
    ascii_lower(a) == ascii_lower(b)
}

pub open spec fn starts_with(s: Seq<char>, prefix: Seq<char>) -> bool {
    prefix.len() <= s.len() && s.take(prefix.len() as int) == prefix
}

pub open spec fn ends_with(s: Seq<char>, suffix: Seq<char>) -> bool {
    suffix.len() <= s.len() && s.skip(s.len() - suffix.len()) == suffix
}

/// `i` is the first position of `c` in `s`.
pub open spec fn is_first(s: Seq<char>, c: char, i: int) -> bool {
    &&& 0 <= i < s.len()
    &&& s[i] == c
    &&& forall|j: int| 0 <= j < i ==> s[j] != c
}

/// `i` is the last position of `c` in `s`.
pub open spec fn is_last(s: Seq<char>, c: char, i: int) -> bool {
    &&& 0 <= i < s.len()
    &&& s[i] == c
    &&& forall|j: int| i < j < s.len() ==> s[j] != c
}

/// The first position of `c` in `s` (meaningful when `s` contains `c`).
pub open spec fn first_pos(s: Seq<char>, c: char) -> int {
    choose|i: int| is_first(s, c, i)
}

/// The last position of `c` in `s` (meaningful when `s` contains `c`).
pub open spec fn last_pos(s: Seq<char>, c: char) -> int {
    choose|i: int| is_last(s, c, i)
}

/// `str::split_once` with a character delimiter.
pub open spec fn split_once(s: Seq<char>, c: char) -> Option<(Seq<char>, Seq<char>)> {
    if s.contains(c) {
        let i = first_pos(s, c);
        Some((s.take(i), s.skip(i + 1)))
    } else {
        None
    }
}

/// `str::rsplit_once` with a character delimiter.
pub open spec fn rsplit_once(s: Seq<char>, c: char) -> Option<(Seq<char>, Seq<char>)> {
    if s.contains(c) {
        let i = last_pos(s, c);
        Some((s.take(i), s.skip(i + 1)))
    } else {
        None
    }
}

/// `str::split` with a character delimiter: the pieces between the delimiters.
pub open spec fn split(s: Seq<char>, c: char) -> Seq<Seq<char>>
    decreases s.len(),
{
    if s.contains(c) {
        let i = first_pos(s, c);
        if 0 <= i < s.len() {
            seq![s.take(i)] + split(s.skip(i + 1), c)
        } else {
            seq![s]
        }
    } else {
        seq![s]
    }
}

/// The first piece of `split` (what `split(c).next()` yields).
pub open spec fn before_first(s: Seq<char>, c: char) -> Seq<char> {
    match split_once(s, c) {
        Some(parts) => parts.0,
        None => s,
    }
}

/// Drops one trailing `'\r'`.
pub open spec fn strip_cr(s: Seq<char>) -> Seq<char> {
    if s.len() > 0 && s.last() == '\r' {
        s.drop_last()
    } else {
        s
    }
}

/// `str::lines`: pieces split at `'\n'`, each piece that ended with `'\n'` loses one
/// trailing `'\r'`, and an empty piece after the last `'\n'` is not a line.
pub open spec fn lines(s: Seq<char>) -> Seq<Seq<char>> {
    let pieces = split(s, '\n');
    let n = pieces.len();
    let ended = Seq::new((n - 1) as nat, |i: int| strip_cr(pieces[i]));
    if pieces[n - 1].len() == 0 {
        ended
    } else {
        ended.push(pieces[n - 1])
    }
}

pub open spec fn is_digit(c: char) -> bool {
    '0' <= c && c <= '9'
}

pub open spec fn digit_value(c: char) -> nat {
    ((c as u32) - ('0' as u32)) as nat
}

pub open spec fn all_digits(s: Seq<char>) -> bool {
    forall|i: int| 0 <= i < s.len() ==> #[trigger] is_digit(s[i])
}

/// The number a run of decimal digits denotes.
pub open spec fn digits_value(s: Seq<char>) -> nat
    decreases s.len(),
{
    if s.len() == 0 {
        0
    } else {
        digits_value(s.drop_last()) * 10 + digit_value(s.last())
    }
}

/// Why an integer could not be read, as `core::num::IntErrorKind` names it.
#[derive(Debug, Clone, Copy, PartialEq, Eq)]
pub enum IntErrorKind {
    Empty,
    InvalidDigit,
    PosOverflow,
}

/// What `str::parse` gives for an unsigned integer type whose largest value is `max`:
/// an optional leading `'+'`, then one or more decimal digits.
pub open spec fn parse_unsigned(s: Seq<char>, max: nat) -> Result<nat, IntErrorKind> {
    let digits = if s.len() > 0 && s[0] == '+' {
        s.drop_first()
    } else {
        s
    };
    if s.len() == 0 {
        Err(IntErrorKind::Empty)
    } else if digits.len() == 0 || !all_digits(digits) {
        Err(IntErrorKind::InvalidDigit)
    } else if digits_value(digits) > max {
        Err(IntErrorKind::PosOverflow)
    } else {
        Ok(digits_value(digits))
    }
}

/// The decimal digits of a number, without leading zeros ("0" for zero).
pub open spec fn decimal(n: nat) -> Seq<char>
    decreases n,
{
    if n < 10 {
        seq![digit_char(n)]
    } else {
        decimal(n / 10).push(digit_char(n % 10))
    }
}

pub open spec fn digit_char(d: nat) -> char {
    (('0' as u32) + d) as char
}

/// Lexicographic order on text, as `Ord for str` orders it.
pub open spec fn text_le(a: Seq<char>, b: Seq<char>) -> bool
    decreases a.len(),
{
    if a.len() == 0 {
        true
    } else if b.len() == 0 {
        false
    } else if a[0] != b[0] {
        a[0] < b[0]
    } else {
        text_le(a.drop_first(), b.drop_first())
    }
}

// ------------------------------------------------------------------
// Lemmas
// ------------------------------------------------------------------

pub proof fn lemma_first_unique(s: Seq<char>, c: char, i: int)
    requires
        is_first(s, c, i),
    ensures
        s.contains(c),
        first_pos(s, c) == i,
{
    assert(s[i] == c);
    let j = first_pos(s, c);
    assert(is_first(s, c, j));
    if j < i {
        assert(s[j] != c);
    }
    if i < j {
        assert(s[i] != c);
    }
}

pub proof fn lemma_last_unique(s: Seq<char>, c: char, i: int)
    requires
        is_last(s, c, i),
    ensures
        s.contains(c),
        last_pos(s, c) == i,
{
    assert(s[i] == c);
    let j = last_pos(s, c);
    assert(is_last(s, c, j));
    if j < i {
        assert(s[i] != c);
    }
    if i < j {
        assert(s[j] != c);
    }
}

pub proof fn lemma_contains_first(s: Seq<char>, c: char)
    requires
        s.contains(c),
    ensures
        is_first(s, c, first_pos(s, c)),
    decreases s.len(),
{
    let k = choose|k: int| 0 <= k < s.len() && s[k] == c;
    if s[0] == c {
        assert(is_first(s, c, 0));
    } else {
        let t = s.drop_first();
        assert(t[k - 1] == c);
        lemma_contains_first(t, c);
        let i = first_pos(t, c);
        assert forall|j: int| 0 <= j < i + 1 implies s[j] != c by {
            if j > 0 {
                assert(s[j] == t[j - 1]);
            }
        }
        assert(is_first(s, c, i + 1));
    }
}

pub proof fn lemma_contains_last(s: Seq<char>, c: char)
    requires
        s.contains(c),
    ensures
        is_last(s, c, last_pos(s, c)),
    decreases s.len(),
{
    let k = choose|k: int| 0 <= k < s.len() && s[k] == c;
    if s.last() == c {
        assert(is_last(s, c, s.len() - 1));
    } else {
        let t = s.drop_last();
        assert(t[k] == c);
        lemma_contains_last(t, c);
        let i = last_pos(t, c);
        assert forall|j: int| i < j < s.len() implies s[j] != c by {
            if j < s.len() - 1 {
                assert(s[j] == t[j]);
            }
        }
        assert(is_last(s, c, i));
    }
}

pub proof fn lemma_trim_start_skip(s: Seq<char>, i: int)
    requires
        0 <= i <= s.len(),
        forall|j: int| 0 <= j < i ==> is_ws(s[j]),
    ensures
        trim_start(s) == trim_start(s.skip(i)),
    decreases i,
{
    if i > 0 {
        assert(s.drop_first().skip(i - 1) =~= s.skip(i));
        lemma_trim_start_skip(s.drop_first(), i - 1);
    } else {
        assert(s.skip(0) =~= s);
    }
}

pub proof fn lemma_trim_end_take(s: Seq<char>, i: int)
    requires
        0 <= i <= s.len(),
        forall|j: int| i <= j < s.len() ==> is_ws(s[j]),
    ensures
        trim_end(s) == trim_end(s.take(i)),
    decreases s.len() - i,
{
    if i < s.len() {
        assert(s.drop_last().take(i) =~= s.take(i));
        lemma_trim_end_take(s.drop_last(), i);
    } else {
        assert(s.take(i) =~= s);
    }
}

pub proof fn lemma_digits_value_push(s: Seq<char>, c: char)
    ensures
        digits_value(s.push(c)) == digits_value(s) * 10 + digit_value(c),
{
    assert(s.push(c).drop_last() =~= s);
}

// ------------------------------------------------------------------
// Executable helpers
// ------------------------------------------------------------------

/// Collects the characters of a string slice into a vector.
pub fn chars_of(s: &str) -> (out: Vec<char>)
    ensures
        out@ == s@,
{
    let mut out: Vec<char> = Vec::new();
    for c in it: s.chars()
        invariant
            out@ == it.seq().take(it.index() as int),
            it.seq() == s@,
    {
        out.push(c);
    }
    out
}

/// Builds a string from characters (`FromIterator<char> for String`).
#[verifier::external_body]
pub(crate) fn string_from(chars: &[char]) -> (s: String)
    ensures
        s@ == chars@,
{
    chars.iter().collect()
}

/// Copies a slice of characters into a new vector.
pub fn to_vec(s: &[char]) -> (out: Vec<char>)
    ensures
        out@ == s@,
{
    let mut out: Vec<char> = Vec::new();
    let mut i: usize = 0;
    while i < s.len()
        invariant
            i <= s.len(),
            out@ == s@.take(i as int),
        decreases s.len() - i,
    {
        out.push(s[i]);
        i += 1;
        assert(out@ =~= s@.take(i as int));
    }
    assert(s@.take(s.len() as int) =~= s@);
    out
}

/// Characters `lo..hi` of `s` as a new vector.
pub fn slice_of(s: &[char], lo: usize, hi: usize) -> (out: Vec<char>)
    requires
        lo <= hi <= s.len(),
    ensures
        out@ == s@.subrange(lo as int, hi as int),
{
    let mut out: Vec<char> = Vec::new();
    let mut i: usize = lo;
    while i < hi
        invariant
            lo <= i <= hi <= s.len(),
            out@ == s@.subrange(lo as int, i as int),
        decreases hi - i,
    {
        out.push(s[i]);
        i += 1;
        assert(out@ =~= s@.subrange(lo as int, i as int));
    }
    out
}

pub fn is_ws_char(c: char) -> (b: bool)
    ensures
        b == is_ws(c),
{
    ('\u{9}' <= c && c <= '\u{d}') || c == ' ' || c == '\u{85}' || c == '\u{a0}' || c == '\u{1680}'
        || ('\u{2000}' <= c && c <= '\u{200a}') || c == '\u{2028}' || c == '\u{2029}' || c
        == '\u{202f}' || c == '\u{205f}' || c == '\u{3000}'
}

/// The bounds of `s` with whitespace trimmed on both ends.
pub fn trim_bounds(s: &[char]) -> (r: (usize, usize))
    ensures
        r.0 <= r.1 <= s.len(),
        s@.subrange(r.0 as int, r.1 as int) == trim(s@),
{
    let mut lo: usize = 0;
    while lo < s.len() && is_ws_char(s[lo])
        invariant
            lo <= s.len(),
            forall|j: int| 0 <= j < lo ==> is_ws(s@[j]),
        decreases s.len() - lo,
    {
        lo += 1;
    }
    proof {
        lemma_trim_start_skip(s@, lo as int);
        if lo < s.len() {
            assert(s@.skip(lo as int)[0] == s@[lo as int]);
        }
        assert(trim_start(s@.skip(lo as int)) == s@.skip(lo as int));
    }
    let mut hi: usize = s.len();
    while hi > lo && is_ws_char(s[hi - 1])
        invariant
            lo <= hi <= s.len(),
            forall|j: int| hi <= j < s.len() ==> is_ws(s@[j]),
        decreases hi,
    {
        hi -= 1;
    }
    proof {
        let t = s@.skip(lo as int);
        let k = hi - lo;
        assert forall|j: int| k <= j < t.len() implies is_ws(t[j]) by {
            assert(t[j] == s@[j + lo]);
        }
        lemma_trim_end_take(t, k as int);
        assert(t.take(k as int) =~= s@.subrange(lo as int, hi as int));
        let u = s@.subrange(lo as int, hi as int);
        if u.len() > 0 {
            assert(u.last() == s@[hi - 1]);
        }
        assert(trim_end(u) == u);
    }
    (lo, hi)
}

/// `str::trim`, as a new vector.
pub fn trimmed(s: &[char]) -> (out: Vec<char>)
    ensures
        out@ == trim(s@),
{
    let (lo, hi) = trim_bounds(s);
    slice_of(s, lo, hi)
}

pub fn lower_of(c: char) -> (r: char)
    ensures
        r == lower_char(c),
{
    if 'A' <= c && c <= 'Z' {
        assert(c as u32 + 32 <= 'z' as u32);
        let v: u32 = (c as u32) + 32;
        proof {
            assert(v == (c as u32) + 32);
        }
        char_from_ascii(v)
    } else {
        c
    }
}

/// A character from a code point below 128.
pub fn char_from_ascii(v: u32) -> (c: char)
    requires
        v < 128,
    ensures
        c == v as char,
{
    let b: u8 = v as u8;
    b as char
}

/// `to_ascii_lowercase`, as a new vector.
pub fn lowercase(s: &[char]) -> (out: Vec<char>)
    ensures
        out@ == ascii_lower(s@),
{
    let mut out: Vec<char> = Vec::new();
    let mut i: usize = 0;
    while i < s.len()
        invariant
            i <= s.len(),
            out@ == ascii_lower(s@.take(i as int)),
        decreases s.len() - i,
    {
        let c = lower_of(s[i]);
        out.push(c);
        i += 1;
        assert(out@ =~= ascii_lower(s@.take(i as int)));
    }
    assert(s@.take(s.len() as int) =~= s@);
    out
}

/// Equality of two character slices.
pub fn same_text(a: &[char], b: &[char]) -> (r: bool)
    ensures
        r == (a@ == b@),
{
    if a.len() != b.len() {
        return false;
    }
    let mut i: usize = 0;
    while i < a.len()
        invariant
            i <= a.len() == b.len(),
            forall|j: int| 0 <= j < i ==> a@[j] == b@[j],
        decreases a.len() - i,
    {
        if a[i] != b[i] {
            return false;
        }
        i += 1;
    }
    assert(a@ =~= b@);
    true
}

/// Text equality with a literal (given as characters).
pub fn same_str(a: &[char], lit: &str) -> (r: bool)
    ensures
        r == (a@ == lit@),
{
    let b = chars_of(lit);
    same_text(a, b.as_slice())
}

/// `eq_ignore_ascii_case`.
pub fn same_ignore_case(a: &[char], b: &[char]) -> (r: bool)
    ensures
        r == eq_ignore_case(a@, b@),
{
    let la = lowercase(a);
    let lb = lowercase(b);
    same_text(la.as_slice(), lb.as_slice())
}

/// `starts_with`.
pub fn has_prefix(s: &[char], prefix: &[char]) -> (r: bool)
    ensures
        r == starts_with(s@, prefix@),
{
    if prefix.len() > s.len() {
        return false;
    }
    let mut i: usize = 0;
    while i < prefix.len()
        invariant
            i <= prefix.len() <= s.len(),
            forall|j: int| 0 <= j < i ==> s@[j] == prefix@[j],
        decreases prefix.len() - i,
    {
        if s[i] != prefix[i] {
            assert(s@.take(prefix.len() as int)[i as int] != prefix@[i as int]);
            return false;
        }
        i += 1;
    }
    assert(s@.take(prefix.len() as int) =~= prefix@);
    true
}

/// `ends_with`.
pub fn has_suffix(s: &[char], suffix: &[char]) -> (r: bool)
    ensures
        r == ends_with(s@, suffix@),
{
    if suffix.len() > s.len() {
        return false;
    }
    let off = s.len() - suffix.len();
    let mut i: usize = 0;
    while i < suffix.len()
        invariant
            i <= suffix.len() <= s.len(),
            off == s.len() - suffix.len(),
            forall|j: int| 0 <= j < i ==> s@[off + j] == suffix@[j],
        decreases suffix.len() - i,
    {
        if s[off + i] != suffix[i] {
            assert(s@.skip(off as int)[i as int] != suffix@[i as int]);
            return false;
        }
        i += 1;
    }
    assert(s@.skip(off as int) =~= suffix@);
    true
}

/// The first position of `c` in `s`, if any.
pub fn find_char(s: &[char], c: char) -> (r: Option<usize>)
    ensures
        match r {
            Some(i) => is_first(s@, c, i as int) && s@.contains(c) && first_pos(s@, c) == i,
            None => !s@.contains(c),
        },
{
    let mut i: usize = 0;
    while i < s.len()
        invariant
            i <= s.len(),
            forall|j: int| 0 <= j < i ==> s@[j] != c,
        decreases s.len() - i,
    {
        if s[i] == c {
            proof {
                lemma_first_unique(s@, c, i as int);
            }
            return Some(i);
        }
        i += 1;
    }
    None
}

/// The last position of `c` in `s`, if any.
pub fn rfind_char(s: &[char], c: char) -> (r: Option<usize>)
    ensures
        match r {
            Some(i) => is_last(s@, c, i as int) && s@.contains(c) && last_pos(s@, c) == i,
            None => !s@.contains(c),
        },
{
    let mut i: usize = s.len();
    while i > 0
        invariant
            i <= s.len(),
            forall|j: int| i <= j < s.len() ==> s@[j] != c,
        decreases i,
    {
        if s[i - 1] == c {
            proof {
                lemma_last_unique(s@, c, i - 1);
            }
            return Some(i - 1);
        }
        i -= 1;
    }
    None
}

/// `split_once` on a character.
pub fn split_once_at(s: &[char], c: char) -> (r: Option<(Vec<char>, Vec<char>)>)
    ensures
        match r {
            Some(parts) => split_once(s@, c) == Some((parts.0@, parts.1@)),
            None => split_once(s@, c) is None,
        },
{
    match find_char(s, c) {
        Some(i) => {
            assert(i < s.len());
            let a = slice_of(s, 0, i);
            let b = slice_of(s, i + 1, s.len());
            assert(a@ =~= s@.take(i as int));
            assert(b@ =~= s@.skip(i + 1));
            Some((a, b))
        },
        None => None,
    }
}

/// `rsplit_once` on a character.
pub fn rsplit_once_at(s: &[char], c: char) -> (r: Option<(Vec<char>, Vec<char>)>)
    ensures
        match r {
            Some(parts) => rsplit_once(s@, c) == Some((parts.0@, parts.1@)),
            None => rsplit_once(s@, c) is None,
        },
{
    match rfind_char(s, c) {
        Some(i) => {
            assert(i < s.len());
            let a = slice_of(s, 0, i);
            let b = slice_of(s, i + 1, s.len());
            assert(a@ =~= s@.take(i as int));
            assert(b@ =~= s@.skip(i + 1));
            Some((a, b))
        },
        None => None,
    }
}

/// The first piece of `split(c)`.
pub fn first_piece(s: &[char], c: char) -> (out: Vec<char>)
    ensures
        out@ == before_first(s@, c),
{
    match split_once_at(s, c) {
        Some(parts) => parts.0,
        None => to_vec(s),
    }
}

proof fn lemma_split_step(s: Seq<char>, c: char, i: int)
    requires
        is_first(s, c, i),
    ensures
        split(s, c) == seq![s.take(i)] + split(s.skip(i + 1), c),
{
    lemma_first_unique(s, c, i);
}

/// `split(c)`, as a vector of pieces.
pub fn split_all(s: &[char], c: char) -> (out: Vec<Vec<char>>)
    ensures
        out@.len() == split(s@, c).len(),
        forall|k: int| 0 <= k < out@.len() ==> #[trigger] out@[k]@ == split(s@, c)[k],
{
    let mut out: Vec<Vec<char>> = Vec::new();
    let mut start: usize = 0;
    let ghost mut done: Seq<Seq<char>> = Seq::empty();
    let mut i: usize = 0;
    assert(s@.skip(0) =~= s@);
    assert(done + split(s@, c) =~= split(s@, c));
    while i < s.len()
        invariant
            start <= i <= s.len(),
            out@.len() == done.len(),
            forall|k: int| 0 <= k < out@.len() ==> #[trigger] out@[k]@ == done[k],
            forall|j: int| start <= j < i ==> s@[j] != c,
            split(s@, c) == done + split(s@.skip(start as int), c),
        decreases s.len() - i,
    {
        if s[i] == c {
            let piece = slice_of(s, start, i);
            proof {
                let t = s@.skip(start as int);
                let k = i - start;
                assert(is_first(t, c, k as int)) by {
                    assert(t[k as int] == s@[i as int]);
                    assert forall|j: int| 0 <= j < k implies t[j] != c by {
                        assert(t[j] == s@[start + j]);
                    }
                }
                lemma_split_step(t, c, k as int);
                assert(t.take(k as int) =~= piece@);
                assert(t.skip(k + 1) =~= s@.skip(i + 1));
                assert(done + split(t, c) =~= done.push(piece@) + split(s@.skip(i + 1), c));
                done = done.push(piece@);
            }
            out.push(piece);
            start = i + 1;
        }
        i += 1;
    }
    let last = slice_of(s, start, s.len());
    proof {
        let t = s@.skip(start as int);
        assert(t =~= last@);
        assert(!t.contains(c)) by {
            if t.contains(c) {
                let k = choose|k: int| 0 <= k < t.len() && t[k] == c;
                assert(s@[start + k] == c);
            }
        }
        assert(split(t, c) == seq![t]);
        done = done.push(last@);
        assert(split(s@, c) =~= done);
    }
    out.push(last);
    out
}

/// `str::lines`, as a vector of lines.
pub fn lines_of(s: &[char]) -> (out: Vec<Vec<char>>)
    ensures
        out@.len() == lines(s@).len(),
        forall|k: int| 0 <= k < out@.len() ==> #[trigger] out@[k]@ == lines(s@)[k],
{
    let pieces = split_all(s, '\n');
    let ghost sp = split(s@, '\n');
    proof {
        lemma_split_nonempty(s@, '\n');
    }
    let n = pieces.len();
    let mut out: Vec<Vec<char>> = Vec::new();
    let mut k: usize = 0;
    while k + 1 < n
        invariant
            n == pieces@.len() == sp.len(),
            n >= 1,
            k <= n - 1,
            out@.len() == k,
            forall|m: int| 0 <= m < pieces@.len() ==> #[trigger] pieces@[m]@ == sp[m],
            forall|m: int| 0 <= m < k ==> #[trigger] out@[m]@ == strip_cr(sp[m]),
        decreases n - k,
    {
        let p = &pieces[k];
        let line = if p.len() > 0 && p[p.len() - 1] == '\r' {
            slice_of(p.as_slice(), 0, p.len() - 1)
        } else {
            to_vec(p.as_slice())
        };
        proof {
            assert(pieces@[k as int]@ == sp[k as int]);
            if p@.len() > 0 && p@.last() == '\r' {
                assert(line@ =~= p@.drop_last());
            }
        }
        out.push(line);
        k += 1;
    }
    let lastp = &pieces[n - 1];
    if lastp.len() > 0 {
        out.push(to_vec(lastp.as_slice()));
    }
    proof {
        let ended = Seq::new((n - 1) as nat, |i: int| strip_cr(sp[i]));
        assert(pieces@[n - 1]@ == sp[n - 1]);
        if sp[n - 1].len() == 0 {
            assert forall|m: int| 0 <= m < out@.len() implies #[trigger] out@[m]@ == lines(s@)[m] by {
                assert(lines(s@) == ended);
            }
        } else {
            assert forall|m: int| 0 <= m < out@.len() implies #[trigger] out@[m]@ == lines(s@)[m] by {
                assert(lines(s@) == ended.push(sp[n - 1]));
            }
        }
    }
    out
}

pub proof fn lemma_split_nonempty(s: Seq<char>, c: char)
    ensures
        split(s, c).len() >= 1,
    decreases s.len(),
{
    if s.contains(c) {
        lemma_contains_first(s, c);
        let i = first_pos(s, c);
        lemma_split_nonempty(s.skip(i + 1), c);
    }
}

/// Whether every character of `s` is a decimal digit.
pub fn only_digits(s: &[char]) -> (r: bool)
    ensures
        r == all_digits(s@),
{
    let mut i: usize = 0;
    while i < s.len()
        invariant
            i <= s.len(),
            forall|j: int| 0 <= j < i ==> is_digit(s@[j]),
        decreases s.len() - i,
    {
        if !('0' <= s[i] && s[i] <= '9') {
            assert(!is_digit(s@[i as int]));
            return false;
        }
        i += 1;
    }
    true
}

/// The value of a run of digits, or `None` once it exceeds `max`.
fn digits_value_bounded(s: &[char], max: u64) -> (r: Option<u64>)
    requires
        9 <= max,
        all_digits(s@),
    ensures
        match r {
            Some(v) => v as nat == digits_value(s@) && v <= max,
            None => digits_value(s@) > max,
        },
{
    let mut value: u64 = 0;
    let mut i: usize = 0;
    while i < s.len()
        invariant
            9 <= max,
            i <= s.len(),
            all_digits(s@),
            value as nat == digits_value(s@.take(i as int)),
            value <= max,
        decreases s.len() - i,
    {
        let ghost prev = s@.take(i as int);
        assert(is_digit(s@[i as int]));
        let d: u64 = ((s[i] as u32) - ('0' as u32)) as u64;
        proof {
            assert(s@.take(i + 1) =~= prev.push(s@[i as int]));
            lemma_digits_value_push(prev, s@[i as int]);
        }
        if value > (max - d) / 10 {
            assert(value * 10 + d > max) by (nonlinear_arith)
                requires
                    value > (max - d) / 10,
                    d <= 9,
                    9 <= max,
            ;
            proof {
                lemma_digits_value_prefix_grows(s@, i + 1);
            }
            return None;
        }
        assert(value * 10 + d <= max) by (nonlinear_arith)
            requires
                value <= (max - d) / 10,
                d <= 9,
                9 <= max,
        ;
        value = value * 10 + d;
        i += 1;
    }
    assert(s@.take(s.len() as int) =~= s@);
    Some(value)
}

/// The value of a prefix of digits never exceeds the value of the whole run.
pub proof fn lemma_digits_value_prefix_grows(s: Seq<char>, k: int)
    requires
        0 <= k <= s.len(),
    ensures
        digits_value(s.take(k)) <= digits_value(s),
    decreases s.len() - k,
{
    if k < s.len() {
        lemma_digits_value_prefix_grows(s, k + 1);
        let t = s.take(k + 1);
        assert(t.drop_last() =~= s.take(k));
        assert(digits_value(t) == digits_value(s.take(k)) * 10 + digit_value(t.last()));
    } else {
        assert(s.take(k) =~= s);
    }
}

/// Reads an unsigned integer the way `str::parse` does, bounded by `max`.
pub fn parse_unsigned_text(s: &[char], max: u64) -> (r: Result<u64, IntErrorKind>)
    requires
        9 <= max,
    ensures
        match parse_unsigned(s@, max as nat) {
            Ok(v) => r == Ok::<u64, IntErrorKind>(v as u64),
            Err(e) => r == Err::<u64, IntErrorKind>(e),
        },
{
    if s.len() == 0 {
        return Err(IntErrorKind::Empty);
    }
    let start: usize = if s[0] == '+' { 1 } else { 0 };
    let digits = slice_of(s, start, s.len());
    proof {
        if s@[0] == '+' {
            assert(digits@ =~= s@.drop_first());
        } else {
            assert(digits@ =~= s@);
        }
    }
    if digits.len() == 0 || !only_digits(digits.as_slice()) {
        return Err(IntErrorKind::InvalidDigit);
    }
    match digits_value_bounded(digits.as_slice(), max) {
        Some(v) => Ok(v),
        None => Err(IntErrorKind::PosOverflow),
    }
}

/// The decimal digits of `n`.
pub fn decimal_of(n: u128) -> (out: Vec<char>)
    ensures
        out@ == decimal(n as nat),
    decreases n,
{
    if n < 10 {
        let c = char_from_ascii(48 + n as u32);
        let mut v: Vec<char> = Vec::new();
        v.push(c);
        assert(v@ =~= seq![digit_char(n as nat)]);
        v
    } else {
        let mut v = decimal_of(n / 10);
        let c = char_from_ascii(48 + (n % 10) as u32);
        v.push(c);
        v
    }
}

/// Appends `b` to `a`.
pub fn append(a: &mut Vec<char>, b: &[char])
    ensures
        final(a)@ == old(a)@ + b@,
{
    let ghost a0 = a@;
    let mut i: usize = 0;
    while i < b.len()
        invariant
            i <= b.len(),
            a@ == a0 + b@.take(i as int),
        decreases b.len() - i,
    {
        a.push(b[i]);
        i += 1;
        assert(a@ =~= a0 + b@.take(i as int));
    }
    assert(b@.take(b.len() as int) =~= b@);
}

/// Concatenation of two pieces of text.
pub fn concat(a: &[char], b: &[char]) -> (out: Vec<char>)
    ensures
        out@ == a@ + b@,
{
    let mut out = to_vec(a);
    append(&mut out, b);
    out
}

/// `a <= b` in the order of `str`.
pub fn text_le_exec(a: &[char], b: &[char]) -> (r: bool)
    ensures
        r == text_le(a@, b@),
{
    let mut i: usize = 0;
    assert(a@.skip(0) =~= a@);
    assert(b@.skip(0) =~= b@);
    while i < a.len() && i < b.len() && a[i] == b[i]
        invariant
            i <= a.len(),
            i <= b.len(),
            text_le(a@, b@) == text_le(a@.skip(i as int), b@.skip(i as int)),
        decreases a.len() - i,
    {
        proof {
            let x = a@.skip(i as int);
            let y = b@.skip(i as int);
            assert(x.drop_first() =~= a@.skip(i + 1));
            assert(y.drop_first() =~= b@.skip(i + 1));
        }
        i += 1;
    }
    proof {
        let x = a@.skip(i as int);
        let y = b@.skip(i as int);
        if i < a.len() && i < b.len() {
            assert(x[0] == a@[i as int]);
            assert(y[0] == b@[i as int]);
        }
    }
    if i == a.len() {
        true
    } else if i == b.len() {
        false
    } else {
        a[i] < b[i]
    }
}

} // verus!

verus! {

// ------------------------------------------------------------------
// The order of text
// ------------------------------------------------------------------

/// Strictly before, in the order of `str`.
pub open spec fn text_lt(a: Seq<char>, b: Seq<char>) -> bool {
    text_le(a, b) && a != b
}

/// The order of `str` as a relation.
pub open spec fn text_order() -> spec_fn(Seq<char>, Seq<char>) -> bool {
    |a: Seq<char>, b: Seq<char>| text_le(a, b)
}

pub proof fn lemma_text_le_refl(a: Seq<char>)
    ensures
        text_le(a, a),
    decreases a.len(),
{
    if a.len() > 0 {
        lemma_text_le_refl(a.drop_first());
    }
}

pub proof fn lemma_text_le_total(a: Seq<char>, b: Seq<char>)
    ensures
        text_le(a, b) || text_le(b, a),
    decreases a.len(),
{
    if a.len() > 0 && b.len() > 0 && a[0] == b[0] {
        lemma_text_le_total(a.drop_first(), b.drop_first());
    }
}

pub proof fn lemma_text_le_antisym(a: Seq<char>, b: Seq<char>)
    requires
        text_le(a, b),
        text_le(b, a),
    ensures
        a == b,
    decreases a.len(),
{
    if a.len() > 0 && b.len() > 0 {
        lemma_text_le_antisym(a.drop_first(), b.drop_first());
        assert(a =~= seq![a[0]] + a.drop_first());
        assert(b =~= seq![b[0]] + b.drop_first());
    } else {
        assert(a.len() == 0 && b.len() == 0);
        assert(a =~= b);
    }
}

pub proof fn lemma_text_le_trans(a: Seq<char>, b: Seq<char>, c: Seq<char>)
    requires
        text_le(a, b),
        text_le(b, c),
    ensures
        text_le(a, c),
    decreases a.len(),
{
    if a.len() > 0 && b.len() > 0 && c.len() > 0 && a[0] == b[0] && b[0] == c[0] {
        lemma_text_le_trans(a.drop_first(), b.drop_first(), c.drop_first());
    }
}

pub proof fn lemma_text_order_total()
    ensures
        vstd::relations::total_ordering(text_order()),
{
    assert forall|a: Seq<char>| #[trigger] text_order()(a, a) by {
        lemma_text_le_refl(a);
    }
    assert forall|a: Seq<char>, b: Seq<char>|
        #[trigger] text_order()(a, b) && #[trigger] text_order()(b, a) implies a == b by {
        lemma_text_le_antisym(a, b);
    }
    assert forall|a: Seq<char>, b: Seq<char>, c: Seq<char>|
        #[trigger] text_order()(a, b) && #[trigger] text_order()(b, c) implies text_order()(
        a,
        c,
    ) by {
        lemma_text_le_trans(a, b, c);
    }
    assert forall|a: Seq<char>, b: Seq<char>|
        #[trigger] text_order()(a, b) || #[trigger] text_order()(b, a) by {
        lemma_text_le_total(a, b);
    }
}

/// The views of a sequence of character vectors.
pub open spec fn texts_view(v: Seq<Vec<char>>) -> Seq<Seq<char>> {
    v.map_values(|t: Vec<char>| t@)
}

/// Strings made from character vectors, in order.
pub fn string_list(v: &Vec<Vec<char>>) -> (r: Vec<String>)
    ensures
        r.deep_view() == texts_view(v@),
{
    let mut r: Vec<String> = Vec::new();
    let mut i: usize = 0;
    while i < v.len()
        invariant
            i <= v@.len(),
            r.deep_view() == texts_view(v@).take(i as int),
        decreases v@.len() - i,
    {
        let s = string_from(v[i].as_slice());
        let ghost prev = r.deep_view();
        r.push(s);
        proof {
            assert(r.deep_view() =~= prev.push(v@[i as int]@));
            assert(texts_view(v@).take(i + 1) =~= texts_view(v@).take(i as int).push(v@[i as int]@));
        }
        i += 1;
    }
    assert(texts_view(v@).take(v@.len() as int) =~= texts_view(v@));
    r
}

/// Sorts pieces of text in the order of `str` (a stable insertion sort).
pub fn sort_texts(items: Vec<Vec<char>>) -> (out: Vec<Vec<char>>)
    ensures
        vstd::relations::sorted_by(texts_view(out@), text_order()),
        texts_view(out@).to_multiset() == texts_view(items@).to_multiset(),
{
    broadcast use vstd::seq_lib::group_to_multiset_ensures;

    let ghost input = texts_view(items@);
    let mut out: Vec<Vec<char>> = Vec::new();
    let mut items = items;
    // Consume the items from the back so that each one can be moved out.
    let ghost mut taken: Seq<Seq<char>> = Seq::empty();
    proof {
        lemma_text_order_total();
        assert(texts_view(out@) =~= Seq::<Seq<char>>::empty());
    }
    while items.len() > 0
        invariant
            vstd::relations::total_ordering(text_order()),
            vstd::relations::sorted_by(texts_view(out@), text_order()),
            texts_view(out@).to_multiset() == taken.to_multiset(),
            input == texts_view(items@) + taken.reverse(),
        decreases items@.len(),
    {
        let ghost before = texts_view(items@);
        let x = items.pop().unwrap();
        proof {
            assert(texts_view(items@) =~= before.drop_last());
            assert(x@ == before.last());
        }
        let ghost ov = texts_view(out@);
        let mut pos: usize = 0;
        while pos < out.len() && text_le_exec(out[pos].as_slice(), x.as_slice())
            invariant
                pos <= out@.len(),
                ov == texts_view(out@),
                forall|q: int| 0 <= q < pos ==> text_le(#[trigger] ov[q], x@),
            decreases out@.len() - pos,
        {
            pos += 1;
        }
        proof {
            if pos < out@.len() {
                assert(!text_le(ov[pos as int], x@));
                lemma_text_le_total(ov[pos as int], x@);
            }
        }
        out.insert(pos, x);
        proof {
            let nv = texts_view(out@);
            assert(nv =~= ov.insert(pos as int, x@));
            assert forall|a: int, b: int| 0 <= a < b < nv.len() implies text_order()(nv[a], nv[b]) by {
                if b < pos {
                    assert(text_order()(ov[a], ov[b]));
                } else if b == pos {
                    assert(text_le(ov[a], x@));
                } else if a < pos {
                    assert(text_le(ov[a], x@));
                    assert(text_le(x@, ov[pos as int]));
                    if b - 1 > pos {
                        assert(text_order()(ov[pos as int], ov[b - 1]));
                        lemma_text_le_trans(x@, ov[pos as int], ov[b - 1]);
                    }
                    lemma_text_le_trans(ov[a], x@, ov[b - 1]);
                } else if a == pos {
                    assert(text_le(x@, ov[pos as int]));
                    if b - 1 > pos {
                        assert(text_order()(ov[pos as int], ov[b - 1]));
                        lemma_text_le_trans(x@, ov[pos as int], ov[b - 1]);
                    }
                } else {
                    assert(text_order()(ov[a - 1], ov[b - 1]));
                }
            }
            vstd::seq_lib::to_multiset_insert(ov, pos as int, x@);
            vstd::seq_lib::to_multiset_build(taken, x@);
            assert(taken.push(x@).reverse() =~= seq![x@] + taken.reverse());
            assert(before =~= texts_view(items@).push(x@));
            assert(texts_view(items@) + taken.push(x@).reverse() =~= before + taken.reverse());
            taken = taken.push(x@);
        }
    }
    proof {
        assert(input =~= taken.reverse());
        taken.lemma_reverse_to_multiset();
    }
    out
}

} // verus!


verus! {

/// `i` is the first position where `a` is directly followed by `b`.
pub open spec fn is_first_pair(s: Seq<char>, a: char, b: char, i: int) -> bool {
    &&& 0 <= i && i + 1 < s.len()
    &&& s[i] == a && s[i + 1] == b
    &&& forall|j: int| 0 <= j < i ==> !(#[trigger] s[j] == a && s[j + 1] == b)
}

/// `a` directly followed by `b` occurs in `s`.
pub open spec fn has_pair(s: Seq<char>, a: char, b: char) -> bool {
    exists|i: int| 0 <= i && i + 1 < s.len() && #[trigger] s[i] == a && s[i + 1] == b
}

/// `str::split_once` with the two-character delimiter `ab`.
pub open spec fn split_once_pair(s: Seq<char>, a: char, b: char) -> Option<(Seq<char>, Seq<char>)> {
    if has_pair(s, a, b) {
        let i = choose|i: int| is_first_pair(s, a, b, i);
        Some((s.take(i), s.skip(i + 2)))
    } else {
        None
    }
}

pub proof fn lemma_first_pair_unique(s: Seq<char>, a: char, b: char, i: int)
    requires
        is_first_pair(s, a, b, i),
    ensures
        has_pair(s, a, b),
        (choose|j: int| is_first_pair(s, a, b, j)) == i,
{
    let j = choose|j: int| is_first_pair(s, a, b, j);
    assert(is_first_pair(s, a, b, j));
    if j < i {
        assert(!(s[j] == a && s[j + 1] == b));
    }
    if i < j {
        assert(!(s[i] == a && s[i + 1] == b));
    }
}

/// `split_once` with the two-character delimiter `ab`.
pub fn split_once_at_pair(s: &[char], a: char, b: char) -> (r: Option<(Vec<char>, Vec<char>)>)
    ensures
        match r {
            Some(parts) => split_once_pair(s@, a, b) == Some((parts.0@, parts.1@)),
            None => split_once_pair(s@, a, b) is None,
        },
{
    let mut i: usize = 0;
    while i < s.len() && i + 1 < s.len()
        invariant
            i <= s.len(),
            forall|j: int| 0 <= j < i ==> !(#[trigger] s@[j] == a && s@[j + 1] == b),
        decreases s.len() - i,
    {
        if s[i] == a && s[i + 1] == b {
            proof {
                lemma_first_pair_unique(s@, a, b, i as int);
            }
            let x = slice_of(s, 0, i);
            let y = slice_of(s, i + 2, s.len());
            assert(x@ =~= s@.take(i as int));
            assert(y@ =~= s@.skip(i + 2));
            return Some((x, y));
        }
        i += 1;
    }
    proof {
        if has_pair(s@, a, b) {
            let k = choose|k: int| 0 <= k && k + 1 < s@.len() && #[trigger] s@[k] == a && s@[k + 1] == b;
            assert(k < i);
        }
    }
    None
}

/// A decimal numeral has at least one digit, exactly one for numbers below ten.
pub proof fn lemma_decimal_len(n: nat)
    ensures
        decimal(n).len() >= 1,
        (n < 10) == (decimal(n).len() == 1),
    decreases n,
{
    if n >= 10 {
        lemma_decimal_len(n / 10);
    }
}

/// Different numbers have different decimal numerals.
pub proof fn lemma_decimal_injective(a: nat, b: nat)
    requires
        decimal(a) == decimal(b),
    ensures
        a == b,
    decreases a,
{
    lemma_decimal_len(a);
    lemma_decimal_len(b);
    if a < 10 {
        assert(decimal(a)[0] == digit_char(a));
        assert(decimal(b)[0] == digit_char(b));
        assert((digit_char(a) as u32) == 48 + a);
        assert((digit_char(b) as u32) == 48 + b);
    } else {
        assert(decimal(a).drop_last() == decimal(a / 10));
        assert(decimal(b).drop_last() == decimal(b / 10));
        lemma_decimal_injective(a / 10, b / 10);
        assert(decimal(a).last() == digit_char(a % 10));
        assert(decimal(b).last() == digit_char(b % 10));
        assert((digit_char(a % 10) as u32) == 48 + a % 10);
        assert((digit_char(b % 10) as u32) == 48 + b % 10);
    }
}

/// `str::replace` with a non-empty pattern: from left to right, each occurrence of `from`
/// that does not overlap an earlier one becomes `to`.
pub open spec fn replaced(s: Seq<char>, from: Seq<char>, to: Seq<char>) -> Seq<char>
    decreases s.len(),
{
    if from.len() == 0 || s.len() == 0 {
        s
    } else if starts_with(s, from) {
        to + replaced(s.skip(from.len() as int), from, to)
    } else {
        seq![s[0]] + replaced(s.drop_first(), from, to)
    }
}

/// Whether `pat` occurs in `s` at position `i`.
fn occurs_at(s: &[char], i: usize, pat: &[char]) -> (r: bool)
    requires
        i <= s.len(),
    ensures
        r == starts_with(s@.skip(i as int), pat@),
{
    if pat.len() > s.len() - i {
        return false;
    }
    let mut j: usize = 0;
    while j < pat.len()
        invariant
            i <= s.len(),
            pat.len() <= s.len() - i,
            j <= pat.len(),
            forall|q: int| 0 <= q < j ==> s@[i + q] == pat@[q],
        decreases pat.len() - j,
    {
        if s[i + j] != pat[j] {
            assert(s@.skip(i as int)[j as int] == s@[i + j]);
            return false;
        }
        j += 1;
    }
    assert(s@.skip(i as int).take(pat@.len() as int) =~= pat@);
    true
}

/// Replaces each occurrence of `from` with `to` (see [`replaced`]).
pub fn replace_text(s: &[char], from: &[char], to: &[char]) -> (r: Vec<char>)
    requires
        from@.len() > 0,
    ensures
        r@ == replaced(s@, from@, to@),
{
    let mut out: Vec<char> = Vec::new();
    let mut i: usize = 0;
    assert(s@.skip(0) =~= s@);
    while i < s.len()
        invariant
            i <= s.len(),
            from@.len() > 0,
            replaced(s@, from@, to@) == out@ + replaced(s@.skip(i as int), from@, to@),
        decreases s.len() - i,
    {
        let ghost rest = s@.skip(i as int);
        if occurs_at(s, i, from) {
            append(&mut out, to);
            proof {
                assert(rest.skip(from@.len() as int) =~= s@.skip(i + from@.len()));
            }
            i += from.len();
        } else {
            out.push(s[i]);
            proof {
                assert(rest.drop_first() =~= s@.skip(i + 1));
                assert(rest[0] == s@[i as int]);
            }
            i += 1;
        }
    }
    assert(s@.skip(i as int) =~= Seq::<char>::empty());
    assert(out@ + Seq::<char>::empty() =~= out@);
    out
}

} // verus!
