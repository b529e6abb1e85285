//! Character-sequence utilities shared by the rest of the library.
//!
//! Everything here works on the `Seq<char>` view of strings. The Unicode
//! classifications and case mappings come from `std` through small trusted
//! wrappers whose results are named, never re-implemented.

use vstd::prelude::*;

verus! {

// ---------------------------------------------------------------------------
// Named Unicode facts supplied by `std`.
// ---------------------------------------------------------------------------

/// Whether `c` has the Unicode `White_Space` property, as `char::is_whitespace`
/// reports it: tab through carriage return, space, next line, no-break
/// space, ogham space mark, the spaces U+2000 to U+200A, the line and
/// paragraph separators, narrow no-break space, medium mathematical space,
/// and ideographic space.
pub open spec fn spec_is_whitespace(c: char) -> bool {
    let n = c as int;
    ||| 0x9 <= n <= 0xD
    ||| n == 0x20
    ||| n == 0x85
    ||| n == 0xA0
    ||| n == 0x1680
    ||| 0x2000 <= n <= 0x200A
    ||| n == 0x2028
    ||| n == 0x2029
    ||| n == 0x202F
    ||| n == 0x205F
    ||| n == 0x3000
}

/// Whether `c` is alphabetic or numeric (as `char::is_alphanumeric` reports it).
pub uninterp spec fn spec_is_alphanumeric(c: char) -> bool;

/// The characters that `char::to_uppercase` yields for `c`.
pub uninterp spec fn spec_char_to_uppercase(c: char) -> Seq<char>;

/// The characters of `str::to_lowercase` applied to `s`.
pub uninterp spec fn spec_str_to_lowercase(s: Seq<char>) -> Seq<char>;

/// Whether `c` is an ASCII character.
pub open spec fn spec_is_ascii(c: char) -> bool {
    (c as int) < 128
}

/// The ASCII characters with the Unicode `White_Space` property: tab, line
/// feed, vertical tab, form feed, carriage return and space.
pub open spec fn spec_ascii_white_space(c: char) -> bool {
    c == ' ' || ('\t' <= c && c <= '\r')
}

/// Whether `c` is an ASCII letter or digit.
pub open spec fn spec_ascii_alphanumeric(c: char) -> bool {
    ('a' <= c && c <= 'z') || ('A' <= c && c <= 'Z') || ('0' <= c && c <= '9')
}

/// `c` with `a`..`z` turned into `A`..`Z`.
pub open spec fn spec_ascii_upper(c: char) -> char {
    if 'a' <= c && c <= 'z' { ((c as int) - 32) as char } else { c }
}

/// `c` with `A`..`Z` turned into `a`..`z`.
pub open spec fn spec_ascii_lower(c: char) -> char {
    if 'A' <= c && c <= 'Z' { ((c as int) + 32) as char } else { c }
}

/// ASCII letters lowered, everything else kept (`str::to_ascii_lowercase`).
pub open spec fn spec_ascii_lowercase(s: Seq<char>) -> Seq<char> {
    s.map_values(|c: char| spec_ascii_lower(c))
}

/// Calls `char::is_whitespace`, which reports the Unicode `White_Space`
/// property (as its documentation says, from the Unicode Character
/// Database's PropList.txt). The contract states that property, written
/// out above, and repeats its ASCII part: tab through carriage return, and
/// space.
#[verifier::external_body]
pub(crate) fn is_whitespace(c: char) -> (b: bool)
    ensures
        b == spec_is_whitespace(c),
        spec_is_ascii(c) ==> (b <==> spec_ascii_white_space(c)),
{
    c.is_whitespace()
}

/// Calls `char::is_alphanumeric`, which reports whether `c` is Unicode
/// `Alphabetic` or of a numeric general category. The contract ties the
/// answer to the named property of `c`, and for an ASCII character states
/// what those properties hold there: the letters and the digits.
#[verifier::external_body]
pub(crate) fn is_alphanumeric(c: char) -> (b: bool)
    ensures
        b == spec_is_alphanumeric(c),
        spec_is_ascii(c) ==> (b <==> spec_ascii_alphanumeric(c)),
{
    c.is_alphanumeric()
}

/// Calls `char::to_uppercase` and collects the characters it yields. The
/// contract ties the result to the named mapping of `c`, and for an ASCII
/// character states the Unicode mapping there: `a`..`z` become `A`..`Z`,
/// and every other ASCII character, having no upper-case mapping, is
/// yielded unchanged.
#[verifier::external_body]
pub(crate) fn char_to_uppercase(c: char) -> (s: String)
    ensures
        s@ == spec_char_to_uppercase(c),
        spec_is_ascii(c) ==> s@ == seq![spec_ascii_upper(c)],
{
    c.to_uppercase().collect()
}

/// Calls `str::to_lowercase`. The contract ties the result to the named
/// mapping of `s`, and for a string of ASCII characters states the Unicode
/// mapping there: `A`..`Z` become `a`..`z`, everything else is kept.
#[verifier::external_body]
pub(crate) fn str_to_lowercase(s: &str) -> (r: String)
    ensures
        r@ == spec_str_to_lowercase(s@),
        (forall|i: int| 0 <= i < s@.len() ==> spec_is_ascii(#[trigger] s@[i])) ==> r@
            == spec_ascii_lowercase(s@),
{
    s.to_lowercase()
}

/// `String::push`: appends one character.
#[verifier::external_body]
pub(crate) fn push_char(s: &mut String, c: char)
    ensures
        final(s)@ == old(s)@.push(c),
{
    s.push(c)
}

/// `String::pop`: removes the last character, if any.
#[verifier::external_body]
pub(crate) fn pop_char(s: &mut String) -> (r: Option<char>)
    ensures
        old(s)@.len() == 0 ==> r is None && final(s)@ == old(s)@,
        old(s)@.len() > 0 ==> r == Some(old(s)@.last()) && final(s)@ == old(s)@.drop_last(),
{
    s.pop()
}

/// `String::clear`: empties the string.
#[verifier::external_body]
pub(crate) fn clear_string(s: &mut String)
    ensures
        final(s)@ == Seq::<char>::empty(),
{
    s.clear()
}

// ---------------------------------------------------------------------------
// Decimal rendering.
// ---------------------------------------------------------------------------

/// The decimal digit character for `d` (`d < 10`).
pub open spec fn spec_digit_char(d: nat) -> char {
    (48 + d) as char
}

/// Decimal rendering of a natural number, without leading zeros.
pub open spec fn spec_decimal(n: nat) -> Seq<char>
    decreases n,
{
    if n < 10 {
        seq![spec_digit_char(n)]
    } else {
        spec_decimal(n / 10).push(spec_digit_char(n % 10))
    }
}

/// Decimal rendering padded with zeros to at least two characters (`{:02}`).
pub open spec fn spec_decimal2(n: nat) -> Seq<char> {
    if n < 10 {
        seq!['0'] + spec_decimal(n)
    } else {
        spec_decimal(n)
    }
}

/// Decimal rendering of a signed number (`{}`).
pub open spec fn spec_signed_decimal(n: int) -> Seq<char> {
    if n < 0 {
        seq!['-'] + spec_decimal((-n) as nat)
    } else {
        spec_decimal(n as nat)
    }
}

fn digit_char(d: u64) -> (c: char)
    requires
        d < 10,
    ensures
        c == spec_digit_char(d as nat),
{
    let b: u8 = 48u8 + (d as u8);
    b as char
}

/// Renders `n` in decimal.
pub fn u64_to_decimal(n: u64) -> (s: String)
    ensures
        s@ == spec_decimal(n as nat),
    decreases n,
{
    if n < 10 {
        let mut s = String::new();
        push_char(&mut s, digit_char(n));
        s
    } else {
        let mut s = u64_to_decimal(n / 10);
        push_char(&mut s, digit_char(n % 10));
        s
    }
}

/// Renders `n` in decimal.
pub fn usize_to_decimal(n: usize) -> (s: String)
    ensures
        s@ == spec_decimal(n as nat),
{
    u64_to_decimal(n as u64)
}

/// Renders `n` in decimal, zero-padded to two characters.
pub fn u64_to_decimal2(n: u64) -> (s: String)
    ensures
        s@ == spec_decimal2(n as nat),
{
    if n < 10 {
        let mut s = String::new();
        push_char(&mut s, '0');
        let d = u64_to_decimal(n);
        s.append(d.as_str());
        s
    } else {
        u64_to_decimal(n)
    }
}

/// Renders a signed number in decimal.
pub fn i64_to_decimal(n: i64) -> (s: String)
    ensures
        s@ == spec_signed_decimal(n as int),
{
    if n < 0 {
        let mut s = String::new();
        push_char(&mut s, '-');
        let m: u64 = if n == i64::MIN {
            9223372036854775808u64
        } else {
            (-n) as u64
        };
        let d = u64_to_decimal(m);
        s.append(d.as_str());
        s
    } else {
        u64_to_decimal(n as u64)
    }
}

// ---------------------------------------------------------------------------
// Conversions between `str`, `Vec<char>` and `String`.
// ---------------------------------------------------------------------------

/// The characters of `s`, in order.
pub fn chars_of(s: &str) -> (v: Vec<char>)
    ensures
        v@ == s@,
{
    let mut v: Vec<char> = Vec::new();
    for c in it: s.chars()
        invariant
            v@ == it.seq().take(it.index() as int),
    {
        v.push(c);
    }
    v
}

/// A string holding `v[lo..hi]`.
pub fn string_from_range(v: &Vec<char>, lo: usize, hi: usize) -> (s: String)
    requires
        lo <= hi <= v@.len(),
    ensures
        s@ == v@.subrange(lo as int, hi as int),
{
    let mut s = String::new();
    let mut i: usize = lo;
    while i < hi
        invariant
            lo <= i <= hi <= v@.len(),
            s@ == v@.subrange(lo as int, i as int),
        decreases hi - i,
    {
        push_char(&mut s, v[i]);
        i = i + 1;
    }
    s
}

/// A string holding all of `v`.
pub fn string_from_chars(v: &Vec<char>) -> (s: String)
    ensures
        s@ == v@,
{
    let s = string_from_range(v, 0, v.len());
    assert(v@.subrange(0, v@.len() as int) =~= v@);
    s
}

/// A copy of `v`.
pub fn copy_chars(v: &Vec<char>) -> (r: Vec<char>)
    ensures
        r@ == v@,
{
    let mut r: Vec<char> = Vec::new();
    let mut i: usize = 0;
    while i < v.len()
        invariant
            i <= v@.len(),
            r@ == v@.take(i as int),
        decreases v@.len() - i,
    {
        r.push(v[i]);
        assert(v@.take(i + 1) =~= v@.take(i as int).push(v@[i as int]));
        i = i + 1;
    }
    assert(v@.take(v@.len() as int) =~= v@);
    r
}

/// A fresh string equal to `s`.
pub fn str_to_string(s: &str) -> (r: String)
    ensures
        r@ == s@,
{
    let mut r = String::new();
    r.append(s);
    r
}

/// Whether two character sequences are equal.
pub fn chars_eq(a: &Vec<char>, b: &Vec<char>) -> (r: bool)
    ensures
        r == (a@ == b@),
{
    if a.len() != b.len() {
        return false;
    }
    let mut i: usize = 0;
    while i < a.len()
        invariant
            a@.len() == b@.len(),
            i <= a@.len(),
            forall|j: int| 0 <= j < i ==> a@[j] == b@[j],
        decreases a@.len() - i,
    {
        if a[i] != b[i] {
            return false;
        }
        i = i + 1;
    }
    assert(a@ =~= b@);
    true
}

/// Whether two strings are equal.
pub fn str_eq(a: &str, b: &str) -> (r: bool)
    ensures
        r == (a@ == b@),
{
    let av = chars_of(a);
    let bv = chars_of(b);
    chars_eq(&av, &bv)
}

// ---------------------------------------------------------------------------
// Trimming.
// ---------------------------------------------------------------------------

/// `s` without its leading whitespace.
pub open spec fn spec_trim_start(s: Seq<char>) -> Seq<char>
    decreases s.len(),
{
    if s.len() > 0 && spec_is_whitespace(s[0]) {
        spec_trim_start(s.drop_first())
    } else {
        s
    }
}

/// `s` without its trailing whitespace.
pub open spec fn spec_trim_end(s: Seq<char>) -> Seq<char>
    decreases s.len(),
{
    if s.len() > 0 && spec_is_whitespace(s.last()) {
        spec_trim_end(s.drop_last())
    } else {
        s
    }
}

/// `s` without leading and trailing whitespace (`str::trim`).
pub open spec fn spec_trim(s: Seq<char>) -> Seq<char> {
    spec_trim_end(spec_trim_start(s))
}

/// Whether every character of `s` is whitespace.
pub open spec fn spec_all_whitespace(s: Seq<char>) -> bool {
    forall|i: int| 0 <= i < s.len() ==> spec_is_whitespace(#[trigger] s[i])
}

proof fn lemma_trim_start_empty_iff(s: Seq<char>)
    ensures
        spec_trim_start(s).len() == 0 <==> spec_all_whitespace(s),
    decreases s.len(),
{
    if s.len() > 0 && spec_is_whitespace(s[0]) {
        lemma_trim_start_empty_iff(s.drop_first());
        if spec_all_whitespace(s.drop_first()) {
            assert forall|i: int| 0 <= i < s.len() implies spec_is_whitespace(#[trigger] s[i]) by {
                if i > 0 {
                    assert(s[i] == s.drop_first()[i - 1]);
                }
            }
        }
        if spec_all_whitespace(s) {
            assert forall|i: int| 0 <= i < s.drop_first().len() implies spec_is_whitespace(
                #[trigger] s.drop_first()[i],
            ) by {
                assert(s.drop_first()[i] == s[i + 1]);
            }
        }
    } else if s.len() > 0 {
        assert(!spec_is_whitespace(s[0]));
    }
}

/// Trimming gives nothing exactly when every character is whitespace.
pub proof fn lemma_trim_empty_iff_all_whitespace(s: Seq<char>)
    ensures
        spec_trim(s).len() == 0 <==> spec_all_whitespace(s),
{
    lemma_trim_start_empty_iff(s);
    lemma_trim_start_first(s);
    lemma_trim_end_on_trimmed_start(spec_trim_start(s));
}

proof fn lemma_trim_start_first(s: Seq<char>)
    ensures
        spec_trim_start(s).len() > 0 ==> !spec_is_whitespace(spec_trim_start(s)[0]),
    decreases s.len(),
{
    if s.len() > 0 && spec_is_whitespace(s[0]) {
        lemma_trim_start_first(s.drop_first());
    }
}

proof fn lemma_trim_end_on_trimmed_start(s: Seq<char>)
    requires
        s.len() > 0 ==> !spec_is_whitespace(s[0]),
    ensures
        spec_trim_end(s).len() == 0 <==> s.len() == 0,
    decreases s.len(),
{
    if s.len() > 0 && spec_is_whitespace(s.last()) {
        assert(s.len() > 1);
        assert(s.drop_last()[0] == s[0]);
        lemma_trim_end_on_trimmed_start(s.drop_last());
    }
}

proof fn lemma_lower_keeps_whitespace(c: char)
    ensures
        spec_is_whitespace(spec_ascii_lower(c)) == spec_is_whitespace(c),
{
}

proof fn lemma_trim_start_lowercase(s: Seq<char>)
    ensures
        spec_trim_start(spec_ascii_lowercase(s)) == spec_ascii_lowercase(spec_trim_start(s)),
    decreases s.len(),
{
    let m = spec_ascii_lowercase(s);
    if s.len() > 0 {
        lemma_lower_keeps_whitespace(s[0]);
        assert(m[0] == spec_ascii_lower(s[0]));
        if spec_is_whitespace(s[0]) {
            assert(m.drop_first() =~= spec_ascii_lowercase(s.drop_first()));
            lemma_trim_start_lowercase(s.drop_first());
        }
    } else {
        assert(m =~= s);
    }
}

proof fn lemma_trim_end_lowercase(s: Seq<char>)
    ensures
        spec_trim_end(spec_ascii_lowercase(s)) == spec_ascii_lowercase(spec_trim_end(s)),
    decreases s.len(),
{
    let m = spec_ascii_lowercase(s);
    if s.len() > 0 {
        lemma_lower_keeps_whitespace(s.last());
        assert(m.last() == spec_ascii_lower(s.last()));
        if spec_is_whitespace(s.last()) {
            assert(m.drop_last() =~= spec_ascii_lowercase(s.drop_last()));
            lemma_trim_end_lowercase(s.drop_last());
        }
    } else {
        assert(m =~= s);
    }
}

/// Lowering ASCII letters and trimming whitespace can be done in either
/// order: no letter is whitespace.
pub proof fn lemma_trim_ascii_lowercase(s: Seq<char>)
    ensures
        spec_trim(spec_ascii_lowercase(s)) == spec_ascii_lowercase(spec_trim(s)),
{
    lemma_trim_start_lowercase(s);
    lemma_trim_end_lowercase(spec_trim_start(s));
}

/// Trimming drops exactly a whitespace prefix and suffix around text that
/// neither starts nor ends with whitespace.
pub proof fn lemma_trim_around(pre: Seq<char>, x: Seq<char>, suf: Seq<char>)
    requires
        spec_all_whitespace(pre),
        spec_all_whitespace(suf),
        x.len() > 0,
        !spec_is_whitespace(x[0]),
        !spec_is_whitespace(x.last()),
    ensures
        spec_trim(pre + x + suf) == x,
    decreases pre.len() + suf.len(),
{
    if pre.len() > 0 {
        let s = pre + x + suf;
        assert(s[0] == pre[0]);
        assert(s.drop_first() =~= pre.drop_first() + x + suf);
        assert(spec_all_whitespace(pre.drop_first())) by {
            assert forall|i: int| 0 <= i < pre.drop_first().len() implies spec_is_whitespace(
                #[trigger] pre.drop_first()[i],
            ) by {
                assert(pre.drop_first()[i] == pre[i + 1]);
            }
        }
        lemma_trim_around(pre.drop_first(), x, suf);
    } else if suf.len() > 0 {
        let s = pre + x + suf;
        assert(s =~= x + suf);
        assert(spec_trim_start(s) == s) by {
            assert(s[0] == x[0]);
        }
        assert(s.last() == suf.last());
        assert(s.drop_last() =~= x + suf.drop_last());
        assert(spec_all_whitespace(suf.drop_last())) by {
            assert forall|i: int| 0 <= i < suf.drop_last().len() implies spec_is_whitespace(
                #[trigger] suf.drop_last()[i],
            ) by {
                assert(suf.drop_last()[i] == suf[i]);
            }
        }
        lemma_trim_around(pre, x, suf.drop_last());
        assert(pre + x + suf.drop_last() =~= x + suf.drop_last());
        assert(spec_trim_start(x + suf.drop_last()) == x + suf.drop_last()) by {
            assert((x + suf.drop_last())[0] == x[0]);
        }
    } else {
        assert(pre + x + suf =~= x);
        assert(spec_trim_start(x) == x);
        assert(spec_trim_end(x) == x);
    }
}

/// Lowering ASCII letters twice is lowering them once.
pub proof fn lemma_ascii_lowercase_twice(s: Seq<char>)
    ensures
        spec_ascii_lowercase(spec_ascii_lowercase(s)) == spec_ascii_lowercase(s),
{
    assert(spec_ascii_lowercase(spec_ascii_lowercase(s)) =~= spec_ascii_lowercase(s));
}

/// `str::trim`: the characters of `v` without leading and trailing whitespace.
pub fn trim_chars(v: &Vec<char>) -> (r: Vec<char>)
    ensures
        r@ == spec_trim(v@),
{
    let n: usize = v.len();
    let mut i: usize = 0;
    assert(v@.subrange(0, n as int) =~= v@);
    while i < n && is_whitespace(v[i])
        invariant
            i <= n == v@.len(),
            spec_trim_start(v@) == spec_trim_start(v@.subrange(i as int, n as int)),
        decreases n - i,
    {
        assert(v@.subrange(i as int, n as int).drop_first() =~= v@.subrange(i + 1, n as int));
        i = i + 1;
    }
    assert(spec_trim_start(v@) == v@.subrange(i as int, n as int));
    let mut j: usize = n;
    while j > i && is_whitespace(v[j - 1])
        invariant
            i <= j <= n == v@.len(),
            spec_trim(v@) == spec_trim_end(v@.subrange(i as int, j as int)),
        decreases j - i,
    {
        assert(v@.subrange(i as int, j as int).drop_last() =~= v@.subrange(i as int, j - 1));
        j = j - 1;
    }
    let mut r: Vec<char> = Vec::new();
    let mut k: usize = i;
    while k < j
        invariant
            i <= k <= j <= n == v@.len(),
            r@ == v@.subrange(i as int, k as int),
        decreases j - k,
    {
        r.push(v[k]);
        k = k + 1;
    }
    r
}

/// `str::trim` on a string.
pub fn trim(s: &str) -> (r: String)
    ensures
        r@ == spec_trim(s@),
{
    let v = chars_of(s);
    let t = trim_chars(&v);
    string_from_chars(&t)
}

// ---------------------------------------------------------------------------
// Splitting and joining.
// ---------------------------------------------------------------------------

/// Scans `s` left to right, closing a word at each whitespace character:
/// the words found so far, and the word being read.
pub open spec fn spec_words_acc(s: Seq<char>) -> (Seq<Seq<char>>, Seq<char>)
    decreases s.len(),
{
    if s.len() == 0 {
        (Seq::empty(), Seq::empty())
    } else {
        let (words, cur) = spec_words_acc(s.drop_last());
        let c = s.last();
        if spec_is_whitespace(c) {
            if cur.len() > 0 {
                (words.push(cur), Seq::empty())
            } else {
                (words, Seq::empty())
            }
        } else {
            (words, cur.push(c))
        }
    }
}

/// The maximal runs of non-whitespace characters of `s` (`str::split_whitespace`).
pub open spec fn spec_split_whitespace(s: Seq<char>) -> Seq<Seq<char>> {
    let (words, cur) = spec_words_acc(s);
    if cur.len() > 0 {
        words.push(cur)
    } else {
        words
    }
}

/// The views of a sequence of strings.
pub open spec fn strings_view(v: Seq<String>) -> Seq<Seq<char>> {
    v.map_values(|s: String| s@)
}

/// `str::split_whitespace`, on the characters of a string.
pub fn split_whitespace_chars(v: &Vec<char>) -> (words: Vec<Vec<char>>)
    ensures
        words@.map_values(|w: Vec<char>| w@) == spec_split_whitespace(v@),
{
    let mut words: Vec<Vec<char>> = Vec::new();
    let mut cur: Vec<char> = Vec::new();
    let mut i: usize = 0;
    while i < v.len()
        invariant
            i <= v@.len(),
            (words@.map_values(|w: Vec<char>| w@), cur@) == spec_words_acc(v@.take(i as int)),
        decreases v@.len() - i,
    {
        assert(v@.take(i + 1).drop_last() =~= v@.take(i as int));
        let c = v[i];
        if is_whitespace(c) {
            if cur.len() > 0 {
                let done = cur;
                words.push(done);
                cur = Vec::new();
                assert(words@.map_values(|w: Vec<char>| w@) =~= spec_words_acc(
                    v@.take(i + 1),
                ).0);
            }
        } else {
            cur.push(c);
        }
        i = i + 1;
    }
    assert(v@.take(v@.len() as int) =~= v@);
    if cur.len() > 0 {
        words.push(cur);
        assert(words@.map_values(|w: Vec<char>| w@) =~= spec_split_whitespace(v@));
    }
    words
}

/// `list` joined with `sep` between consecutive elements.
pub open spec fn spec_join(list: Seq<Seq<char>>, sep: Seq<char>) -> Seq<char>
    decreases list.len(),
{
    if list.len() == 0 {
        Seq::empty()
    } else if list.len() == 1 {
        list[0]
    } else {
        spec_join(list.drop_last(), sep) + sep + list.last()
    }
}

/// Joins the strings of `list` with `sep` between consecutive elements.
pub fn join(list: &Vec<String>, sep: &str) -> (r: String)
    ensures
        r@ == spec_join(strings_view(list@), sep@),
{
    let mut r = String::new();
    let mut i: usize = 0;
    while i < list.len()
        invariant
            i <= list@.len(),
            r@ == spec_join(strings_view(list@).take(i as int), sep@),
        decreases list@.len() - i,
    {
        assert(strings_view(list@).take(i + 1).drop_last() =~= strings_view(list@).take(i as int));
        if i > 0 {
            r.append(sep);
        }
        r.append(list[i].as_str());
        i = i + 1;
    }
    assert(strings_view(list@).take(list@.len() as int) =~= strings_view(list@));
    r
}

// ---------------------------------------------------------------------------
// Searching.
// ---------------------------------------------------------------------------

/// Whether `pat` occurs in `s` at position `i`.
pub open spec fn spec_occurs_at(s: Seq<char>, pat: Seq<char>, i: int) -> bool {
    0 <= i && i + pat.len() <= s.len() && s.subrange(i, i + pat.len()) == pat
}

/// The first position at or after `from` where `pat` occurs in `s`.
pub open spec fn spec_find_from(s: Seq<char>, pat: Seq<char>, from: int) -> Option<int>
    decreases s.len() + 1 - from,
{
    if from < 0 || from + pat.len() > s.len() {
        None
    } else if spec_occurs_at(s, pat, from) {
        Some(from)
    } else {
        spec_find_from(s, pat, from + 1)
    }
}

/// The first position where `pat` occurs in `s`.
pub open spec fn spec_find(s: Seq<char>, pat: Seq<char>) -> Option<int> {
    spec_find_from(s, pat, 0)
}

/// Whether `pat` occurs anywhere in `s` (`str::contains`).
pub open spec fn spec_contains(s: Seq<char>, pat: Seq<char>) -> bool {
    spec_find(s, pat) is Some
}

/// Whether `s` begins with `prefix` (`str::starts_with`).
pub open spec fn spec_starts_with(s: Seq<char>, prefix: Seq<char>) -> bool {
    prefix.len() <= s.len() && s.subrange(0, prefix.len() as int) == prefix
}

/// A found position is an occurrence, and no earlier position is.
pub proof fn lemma_find_from_sound(s: Seq<char>, pat: Seq<char>, from: int)
    requires
        0 <= from,
    ensures
        spec_find_from(s, pat, from) matches Some(i) ==> from <= i && spec_occurs_at(s, pat, i),
        spec_find_from(s, pat, from) matches Some(i) ==> forall|j: int|
            from <= j < i ==> !spec_occurs_at(s, pat, j),
        spec_find_from(s, pat, from) is None ==> forall|j: int|
            from <= j ==> !spec_occurs_at(s, pat, j),
    decreases s.len() + 1 - from,
{
    if from < 0 || from + pat.len() > s.len() {
    } else if spec_occurs_at(s, pat, from) {
    } else {
        lemma_find_from_sound(s, pat, from + 1);
    }
}

/// Whether `pat` occurs in `v` at position `i`.
fn occurs_at(v: &Vec<char>, pat: &Vec<char>, i: usize) -> (r: bool)
    ensures
        r == spec_occurs_at(v@, pat@, i as int),
{
    if pat.len() > v.len() || i > v.len() - pat.len() {
        return false;
    }
    let n: usize = v.len();
    let mut k: usize = 0;
    while k < pat.len()
        invariant
            n == v@.len(),
            i + pat@.len() <= v@.len(),
            k <= pat@.len(),
            forall|j: int| 0 <= j < k ==> v@[i + j] == pat@[j],
        decreases pat@.len() - k,
    {
        assert(i + k < v@.len());
        if v[i + k] != pat[k] {
            assert(v@.subrange(i as int, i + pat@.len())[k as int] != pat@[k as int]);
            return false;
        }
        k = k + 1;
    }
    assert(v@.subrange(i as int, i + pat@.len()) =~= pat@);
    true
}

/// The first position where `pat` occurs in `v` (`str::find`).
pub fn find(v: &Vec<char>, pat: &Vec<char>) -> (r: Option<usize>)
    ensures
        r matches Some(i) ==> spec_find(v@, pat@) == Some(i as int),
        r is None ==> spec_find(v@, pat@) is None,
{
    if pat.len() > v.len() {
        return None;
    }
    let last: usize = v.len() - pat.len();
    let mut i: usize = 0;
    loop
        invariant
            last + pat@.len() == v@.len(),
            i <= last,
            spec_find(v@, pat@) == spec_find_from(v@, pat@, i as int),
        decreases last - i,
    {
        if occurs_at(v, pat, i) {
            return Some(i);
        }
        if i == last {
            assert(spec_find_from(v@, pat@, i + 1) is None);
            return None;
        }
        i = i + 1;
    }
}

/// Whether `pat` occurs in `v` (`str::contains`).
pub fn contains(v: &Vec<char>, pat: &Vec<char>) -> (r: bool)
    ensures
        r == spec_contains(v@, pat@),
{
    find(v, pat).is_some()
}

/// Whether `v` begins with `prefix` (`str::starts_with`).
pub fn starts_with(v: &Vec<char>, prefix: &Vec<char>) -> (r: bool)
    ensures
        r == spec_starts_with(v@, prefix@),
{
    if prefix.len() > v.len() {
        return false;
    }
    let r = occurs_at(v, prefix, 0);
    r
}

// ---------------------------------------------------------------------------
// Lines.
// ---------------------------------------------------------------------------

/// A line without the carriage return that preceded its newline.
pub open spec fn spec_strip_cr(line: Seq<char>) -> Seq<char> {
    if line.len() > 0 && line.last() == '\r' {
        line.drop_last()
    } else {
        line
    }
}

/// Scans `s`, closing a line at each newline: the lines so far and the open one.
pub open spec fn spec_lines_acc(s: Seq<char>) -> (Seq<Seq<char>>, Seq<char>)
    decreases s.len(),
{
    if s.len() == 0 {
        (Seq::empty(), Seq::empty())
    } else {
        let (done, cur) = spec_lines_acc(s.drop_last());
        if s.last() == '\n' {
            (done.push(spec_strip_cr(cur)), Seq::empty())
        } else {
            (done, cur.push(s.last()))
        }
    }
}

/// The lines of `s` (`str::lines`): split at newlines, a carriage return
/// before a newline dropped, and no empty line after a final newline.
pub open spec fn spec_lines(s: Seq<char>) -> Seq<Seq<char>> {
    let (done, cur) = spec_lines_acc(s);
    if cur.len() > 0 {
        done.push(cur)
    } else {
        done
    }
}

/// `str::lines`, on the characters of a string.
pub fn lines_chars(v: &Vec<char>) -> (lines: Vec<Vec<char>>)
    ensures
        lines@.map_values(|w: Vec<char>| w@) == spec_lines(v@),
{
    let mut done: Vec<Vec<char>> = Vec::new();
    let mut cur: Vec<char> = Vec::new();
    let mut i: usize = 0;
    while i < v.len()
        invariant
            i <= v@.len(),
            (done@.map_values(|w: Vec<char>| w@), cur@) == spec_lines_acc(v@.take(i as int)),
        decreases v@.len() - i,
    {
        assert(v@.take(i + 1).drop_last() =~= v@.take(i as int));
        let c = v[i];
        if c == '\n' {
            let mut line = cur;
            if line.len() > 0 && line[line.len() - 1] == '\r' {
                line.pop();
            }
            let ghost before = done@.map_values(|w: Vec<char>| w@);
            let ghost lv = line@;
            done.push(line);
            assert(done@.map_values(|w: Vec<char>| w@) =~= before.push(lv));
            cur = Vec::new();
        } else {
            cur.push(c);
        }
        i = i + 1;
    }
    assert(v@.take(v@.len() as int) =~= v@);
    if cur.len() > 0 {
        let ghost before = done@.map_values(|w: Vec<char>| w@);
        let ghost cv = cur@;
        done.push(cur);
        assert(done@.map_values(|w: Vec<char>| w@) =~= before.push(cv));
    }
    done
}

} // verus!
