//! Character-level text handling: conversions between strings and character
//! vectors, whitespace, substring search, tokens and decimal numbers.
use vstd::prelude::*;

verus! {

// ---------------------------------------------------------------------------
// Conversions
// ---------------------------------------------------------------------------

/// The characters of `s`, in order.
pub fn str_chars(s: &str) -> (r: Vec<char>)
    ensures
        r@ == s@,
{
    let mut r: Vec<char> = Vec::new();
    for c in it: s.chars()
        invariant
            r@ == it.seq().take(it.index() as int),
    {
        r.push(c);
    }
    r
}

/// `String::push`. The contract claims that the character is appended at
/// the end of the string and nothing else changes.
#[verifier::external_body]
pub(crate) fn push_char(s: &mut String, c: char)
    ensures
        final(s)@ == old(s)@.push(c),
{
    s.push(c);
}

/// The string made of the characters `v[lo..hi]`.
pub fn string_from_chars(v: &Vec<char>, lo: usize, hi: usize) -> (r: String)
    requires
        lo <= hi <= v.len(),
    ensures
        r@ == v@.subrange(lo as int, hi as int),
{
    let mut r = String::new();
    let mut i = lo;
    while i < hi
        invariant
            lo <= i <= hi <= v.len(),
            r@ == v@.subrange(lo as int, i as int),
        decreases hi - i,
    {
        push_char(&mut r, v[i]);
        assert(v@.subrange(lo as int, i + 1) =~= v@.subrange(lo as int, i as int).push(v@[i as int]));
        i = i + 1;
    }
    r
}

/// A copy of `v[lo..hi]`.
pub fn chars_range(v: &Vec<char>, lo: usize, hi: usize) -> (r: Vec<char>)
    requires
        lo <= hi <= v.len(),
    ensures
        r@ == v@.subrange(lo as int, hi as int),
{
    let mut r: Vec<char> = Vec::new();
    let mut i = lo;
    while i < hi
        invariant
            lo <= i <= hi <= v.len(),
            r@ == v@.subrange(lo as int, i as int),
        decreases hi - i,
    {
        r.push(v[i]);
        assert(v@.subrange(lo as int, i + 1) =~= v@.subrange(lo as int, i as int).push(v@[i as int]));
        i = i + 1;
    }
    r
}

/// The concatenation of `a` and `b` as a new string.
pub fn concat_str(a: &str, b: &str) -> (r: String)
    ensures
        r@ == a@ + b@,
{
    let mut r = String::from_str(a);
    r.append(b);
    r
}

/// The concatenation of `a`, `b` and `c` as a new string.
pub fn concat3_str(a: &str, b: &str, c: &str) -> (r: String)
    ensures
        r@ == a@ + b@ + c@,
{
    let mut r = String::from_str(a);
    r.append(b);
    r.append(c);
    r
}

/// Whether two texts are equal.
pub fn str_eq(a: &str, b: &str) -> (r: bool)
    ensures
        r == (a@ == b@),
{
    let x = str_chars(a);
    let y = str_chars(b);
    if x.len() != y.len() {
        return false;
    }
    let mut i: usize = 0;
    while i < x.len()
        invariant
            x@ == a@,
            y@ == b@,
            x.len() == y.len(),
            i <= x.len(),
            forall|j: int| 0 <= j < i ==> x@[j] == y@[j],
        decreases x.len() - i,
    {
        if x[i] != y[i] {
            return false;
        }
        i = i + 1;
    }
    assert(x@ =~= y@);
    true
}

// ---------------------------------------------------------------------------
// Whitespace
// ---------------------------------------------------------------------------

/// The characters with the Unicode `White_Space` property, which is what
/// `char::is_whitespace`, `str::trim` and `str::split_whitespace` use.
pub open spec fn is_white_space(c: char) -> bool {
    ||| ('\u{9}' <= c && c <= '\u{d}')
    ||| c == ' '
    ||| c == '\u{85}'
    ||| c == '\u{a0}'
    ||| c == '\u{1680}'
    ||| ('\u{2000}' <= c && c <= '\u{200a}')
    ||| c == '\u{2028}'
    ||| c == '\u{2029}'
    ||| c == '\u{202f}'
    ||| c == '\u{205f}'
    ||| c == '\u{3000}'
}

pub fn char_is_white_space(c: char) -> (r: bool)
    ensures
        r == is_white_space(c),
{
    ('\u{9}' <= c && c <= '\u{d}') || c == ' ' || c == '\u{85}' || c == '\u{a0}' || c
        == '\u{1680}' || ('\u{2000}' <= c && c <= '\u{200a}') || c == '\u{2028}' || c
        == '\u{2029}' || c == '\u{202f}' || c == '\u{205f}' || c == '\u{3000}'
}

/// A text is blank when it holds whitespace only (its trimmed form is empty).
pub open spec fn is_blank(s: Seq<char>) -> bool {
    forall|i: int| 0 <= i < s.len() ==> is_white_space(#[trigger] s[i])
}

pub fn str_is_blank(s: &str) -> (r: bool)
    ensures
        r == is_blank(s@),
{
    let v = str_chars(s);
    let mut i: usize = 0;
    while i < v.len()
        invariant
            i <= v.len(),
            v@ == s@,
            forall|j: int| 0 <= j < i ==> is_white_space(#[trigger] v@[j]),
        decreases v.len() - i,
    {
        if !char_is_white_space(v[i]) {
            return false;
        }
        i = i + 1;
    }
    true
}

/// The first index at or after `i` that is not whitespace (or the length).
pub open spec fn trim_lo(s: Seq<char>, i: int) -> int
    decreases s.len() - i,
{
    if 0 <= i < s.len() && is_white_space(s[i]) {
        trim_lo(s, i + 1)
    } else {
        i
    }
}

/// The end of `s[lo..j]` once its trailing whitespace is dropped.
pub open spec fn trim_hi(s: Seq<char>, lo: int, j: int) -> int
    decreases j - lo,
{
    if lo < j && j <= s.len() && is_white_space(s[j - 1]) {
        trim_hi(s, lo, j - 1)
    } else {
        j
    }
}

/// `s` without leading and trailing whitespace (`str::trim`).
pub open spec fn trim(s: Seq<char>) -> Seq<char> {
    let lo = trim_lo(s, 0);
    s.subrange(lo, trim_hi(s, lo, s.len() as int))
}

/// `v` without leading and trailing whitespace.
pub fn trim_chars(v: &Vec<char>) -> (r: Vec<char>)
    ensures
        r@ == trim(v@),
{
    let mut lo: usize = 0;
    while lo < v.len() && char_is_white_space(v[lo])
        invariant
            lo <= v.len(),
            trim_lo(v@, 0) == trim_lo(v@, lo as int),
        decreases v.len() - lo,
    {
        lo = lo + 1;
    }
    let mut hi: usize = v.len();
    while lo < hi && char_is_white_space(v[hi - 1])
        invariant
            lo <= hi <= v.len(),
            trim_hi(v@, lo as int, v.len() as int) == trim_hi(v@, lo as int, hi as int),
        decreases hi - lo,
    {
        hi = hi - 1;
    }
    chars_range(v, lo, hi)
}

// ---------------------------------------------------------------------------
// Substring search
// ---------------------------------------------------------------------------

/// `needle` occurs in `hay` starting at index `i`.
pub open spec fn occurs_at(hay: Seq<char>, needle: Seq<char>, i: int) -> bool {
    0 <= i && i + needle.len() <= hay.len() && hay.subrange(i, i + needle.len()) == needle
}

/// The first index at or after `i` where `needle` occurs in `hay`
/// (`str::find` when `i` is 0).
pub open spec fn find_from(hay: Seq<char>, needle: Seq<char>, i: int) -> Option<int>
    decreases hay.len() + 1 - i,
{
    if i < 0 || i + needle.len() > hay.len() {
        None
    } else if occurs_at(hay, needle, i) {
        Some(i)
    } else {
        find_from(hay, needle, i + 1)
    }
}

/// `hay` contains `needle` (`str::contains`).
pub open spec fn contains_text(hay: Seq<char>, needle: Seq<char>) -> bool {
    find_from(hay, needle, 0) is Some
}

/// What `find_from` returns: the first occurrence at or after `i`.
pub proof fn lemma_find_from(hay: Seq<char>, needle: Seq<char>, i: int)
    requires
        0 <= i,
    ensures
        match find_from(hay, needle, i) {
            Some(k) => i <= k && occurs_at(hay, needle, k) && forall|j: int|
                i <= j < k ==> !occurs_at(hay, needle, j),
            None => forall|j: int| i <= j ==> !occurs_at(hay, needle, j),
        },
    decreases hay.len() + 1 - i,
{
    if i + needle.len() > hay.len() {
    } else if occurs_at(hay, needle, i) {
    } else {
        lemma_find_from(hay, needle, i + 1);
    }
}

/// `find_from` gives `k` when `needle` occurs at `k` and nowhere in `i..k`.
pub proof fn lemma_find_from_first(hay: Seq<char>, needle: Seq<char>, i: int, k: int)
    requires
        0 <= i <= k,
        occurs_at(hay, needle, k),
        forall|j: int| i <= j < k ==> !occurs_at(hay, needle, j),
    ensures
        find_from(hay, needle, i) == Some(k),
    decreases k - i,
{
    if i < k {
        lemma_find_from_first(hay, needle, i + 1, k);
    }
}

/// Whether `needle` occurs in `hay` at index `i`.
pub fn chars_occur_at(hay: &Vec<char>, needle: &Vec<char>, i: usize) -> (r: bool)
    ensures
        r == occurs_at(hay@, needle@, i as int),
{
    if i > hay.len() || needle.len() > hay.len() - i {
        return false;
    }
    let mut j: usize = 0;
    while j < needle.len()
        invariant
            i + needle.len() <= hay.len(),
            j <= needle.len(),
            hay@.subrange(i as int, i + j) =~= needle@.subrange(0, j as int),
        decreases needle.len() - j,
    {
        if hay[i + j] != needle[j] {
            assert(hay@.subrange(i as int, i + needle.len())[j as int] != needle@[j as int]);
            return false;
        }
        j = j + 1;
        assert(hay@.subrange(i as int, i + j) =~= needle@.subrange(0, j as int));
    }
    assert(needle@.subrange(0, needle.len() as int) =~= needle@);
    true
}

/// The first index where `needle` occurs in `hay`, as `str::find` gives it.
pub fn find_chars(hay: &Vec<char>, needle: &Vec<char>) -> (r: Option<usize>)
    ensures
        match r {
            Some(k) => find_from(hay@, needle@, 0) == Some(k as int),
            None => find_from(hay@, needle@, 0) is None,
        },
{
    if needle.len() > hay.len() {
        return None;
    }
    let last = hay.len() - needle.len();
    let mut i: usize = 0;
    while i < last
        invariant
            last + needle.len() == hay.len(),
            i <= last,
            find_from(hay@, needle@, 0) == find_from(hay@, needle@, i as int),
        decreases last - i,
    {
        if chars_occur_at(hay, needle, i) {
            return Some(i);
        }
        i = i + 1;
    }
    if chars_occur_at(hay, needle, last) {
        Some(last)
    } else {
        assert(find_from(hay@, needle@, last + 1) is None);
        None
    }
}

/// Whether `hay` contains `needle`.
pub fn chars_contain(hay: &Vec<char>, needle: &Vec<char>) -> (r: bool)
    ensures
        r == contains_text(hay@, needle@),
{
    find_chars(hay, needle).is_some()
}

// ---------------------------------------------------------------------------
// Tokens
// ---------------------------------------------------------------------------

/// The first index at or after `i` that holds no whitespace (or the length).
pub open spec fn skip_white(s: Seq<char>, i: int) -> int
    decreases s.len() - i,
{
    if 0 <= i < s.len() && is_white_space(s[i]) {
        skip_white(s, i + 1)
    } else {
        i
    }
}

/// The first index at or after `i` that holds whitespace (or the length).
pub open spec fn skip_word(s: Seq<char>, i: int) -> int
    decreases s.len() - i,
{
    if 0 <= i < s.len() && !is_white_space(s[i]) {
        skip_word(s, i + 1)
    } else {
        i
    }
}

/// The first whitespace-separated word of `s`, as
/// `s.trim().split_whitespace().next()` gives it.
pub open spec fn first_token(s: Seq<char>) -> Option<Seq<char>> {
    let a = skip_white(s, 0);
    if a >= s.len() {
        None
    } else {
        Some(s.subrange(a, skip_word(s, a)))
    }
}

/// The first whitespace-separated word of `s`.
pub fn first_token_chars(s: &Vec<char>) -> (r: Option<Vec<char>>)
    ensures
        match r {
            Some(t) => first_token(s@) == Some(t@),
            None => first_token(s@) is None,
        },
{
    let mut a: usize = 0;
    while a < s.len() && char_is_white_space(s[a])
        invariant
            a <= s.len(),
            skip_white(s@, 0) == skip_white(s@, a as int),
        decreases s.len() - a,
    {
        a = a + 1;
    }
    if a >= s.len() {
        return None;
    }
    let mut b: usize = a;
    while b < s.len() && !char_is_white_space(s[b])
        invariant
            a <= b <= s.len(),
            skip_word(s@, a as int) == skip_word(s@, b as int),
        decreases s.len() - b,
    {
        b = b + 1;
    }
    Some(chars_range(s, a, b))
}

// ---------------------------------------------------------------------------
// Decimal numbers
// ---------------------------------------------------------------------------

pub open spec fn is_digit(c: char) -> bool {
    '0' <= c && c <= '9'
}

pub open spec fn digit_value(c: char) -> int {
    c as int - '0' as int
}

pub open spec fn all_digits(s: Seq<char>) -> bool {
    forall|i: int| 0 <= i < s.len() ==> is_digit(#[trigger] s[i])
}

/// The number written by the decimal digits `s`.
pub open spec fn digits_value(s: Seq<char>) -> nat
    decreases s.len(),
{
    if s.len() == 0 {
        0
    } else {
        (digits_value(s.drop_last()) * 10 + digit_value(s.last())) as nat
    }
}

/// What `s.parse::<u32>()` gives: an optional `+`, then one or more decimal
/// digits whose value fits in a `u32`.
pub open spec fn parse_u32(s: Seq<char>) -> Option<u32> {
    let d = if s.len() > 0 && s[0] == '+' {
        s.drop_first()
    } else {
        s
    };
    if d.len() > 0 && all_digits(d) && digits_value(d) <= u32::MAX {
        Some(digits_value(d) as u32)
    } else {
        None
    }
}

/// The digit character for `d` in `0..10`.
pub open spec fn digit_char(d: int) -> char {
    if d == 0 {
        '0'
    } else if d == 1 {
        '1'
    } else if d == 2 {
        '2'
    } else if d == 3 {
        '3'
    } else if d == 4 {
        '4'
    } else if d == 5 {
        '5'
    } else if d == 6 {
        '6'
    } else if d == 7 {
        '7'
    } else if d == 8 {
        '8'
    } else {
        '9'
    }
}

/// The decimal form of `n`, without leading zeros (`n.to_string()`).
pub open spec fn decimal(n: nat) -> Seq<char>
    decreases n,
{
    if n < 10 {
        seq![digit_char(n as int)]
    } else {
        decimal(n / 10).push(digit_char((n % 10) as int))
    }
}

proof fn lemma_digits_value_prefix(s: Seq<char>, i: int)
    requires
        0 <= i < s.len(),
        is_digit(s[i]),
    ensures
        digits_value(s.subrange(0, i + 1)) == digits_value(s.subrange(0, i)) * 10 + digit_value(
            s[i],
        ),
{
    assert(s.subrange(0, i + 1).drop_last() =~= s.subrange(0, i));
    assert(s.subrange(0, i + 1).last() == s[i]);
}

proof fn lemma_digits_value_monotone(s: Seq<char>, i: int, j: int)
    requires
        0 <= i <= j <= s.len(),
        all_digits(s),
    ensures
        digits_value(s.subrange(0, i)) <= digits_value(s.subrange(0, j)),
    decreases j - i,
{
    if i < j {
        lemma_digits_value_monotone(s, i, j - 1);
        lemma_digits_value_prefix(s, j - 1);
        assert(is_digit(s[j - 1]));
    }
}

/// The value of `s` read as a `u32`, as `str::parse::<u32>` reads it.
pub fn parse_u32_chars(s: &Vec<char>) -> (r: Option<u32>)
    ensures
        r == parse_u32(s@),
{
    let start: usize = if s.len() > 0 && s[0] == '+' {
        1
    } else {
        0
    };
    let ghost d = if s@.len() > 0 && s@[0] == '+' {
        s@.drop_first()
    } else {
        s@
    };
    assert(d =~= s@.subrange(start as int, s@.len() as int));
    if start >= s.len() {
        return None;
    }
    let mut acc: u64 = 0;
    let mut i: usize = start;
    while i < s.len()
        invariant
            start <= i <= s.len(),
            d =~= s@.subrange(start as int, s@.len() as int),
            d == (if s@.len() > 0 && s@[0] == '+' {
                s@.drop_first()
            } else {
                s@
            }),
            acc <= u32::MAX,
            forall|j: int| 0 <= j < i - start ==> is_digit(#[trigger] d[j]),
            acc == digits_value(d.subrange(0, i - start)),
        decreases s.len() - i,
    {
        let c = s[i];
        if !('0' <= c && c <= '9') {
            assert(!is_digit(d[i - start]));
            return None;
        }
        proof {
            assert(d[i - start] == c);
            lemma_digits_value_prefix(d, i - start);
        }
        let v: u64 = acc * 10 + ((c as u32) - ('0' as u32)) as u64;
        if v > u32::MAX as u64 {
            proof {
                assert(is_digit(d[i - start]));
                if all_digits(d) {
                    lemma_digits_value_monotone(d, i - start + 1, d.len() as int);
                    assert(d.subrange(0, d.len() as int) =~= d);
                }
            }
            return None;
        }
        acc = v;
        i = i + 1;
    }
    assert(d.subrange(0, d.len() as int) =~= d);
    Some(acc as u32)
}

/// The digit character for `d`.
fn digit_char_exec(d: u32) -> (c: char)
    requires
        d < 10,
    ensures
        c == digit_char(d as int),
{
    if d == 0 {
        '0'
    } else if d == 1 {
        '1'
    } else if d == 2 {
        '2'
    } else if d == 3 {
        '3'
    } else if d == 4 {
        '4'
    } else if d == 5 {
        '5'
    } else if d == 6 {
        '6'
    } else if d == 7 {
        '7'
    } else if d == 8 {
        '8'
    } else {
        '9'
    }
}

/// Appends the decimal form of `n` to `s`.
pub fn push_decimal(s: &mut String, n: u32)
    ensures
        final(s)@ == old(s)@ + decimal(n as nat),
    decreases n,
{
    if n >= 10 {
        push_decimal(s, n / 10);
    }
    push_char(s, digit_char_exec(n % 10));
    assert(final(s)@ =~= old(s)@ + decimal(n as nat));
}

/// Reading the decimal form of `n` back gives `n`.
pub proof fn lemma_parse_decimal(n: u32)
    ensures
        parse_u32(decimal(n as nat)) == Some(n),
{
    lemma_decimal_digits(n as nat);
}

proof fn lemma_digit_char(d: int)
    requires
        0 <= d < 10,
    ensures
        is_digit(digit_char(d)),
        digit_value(digit_char(d)) == d,
        digit_char(d) != '+',
{
}

pub proof fn lemma_decimal_digits(n: nat)
    ensures
        decimal(n).len() > 0,
        all_digits(decimal(n)),
        decimal(n)[0] != '+',
        digits_value(decimal(n)) == n,
    decreases n,
{
    lemma_digit_char((n % 10) as int);
    if n < 10 {
        assert(decimal(n).drop_last() =~= Seq::<char>::empty());
        assert(digits_value(Seq::<char>::empty()) == 0);
        assert(decimal(n).last() == digit_char(n as int));
        assert(n % 10 == n);
    } else {
        lemma_decimal_digits(n / 10);
        let d = decimal(n);
        assert(d.drop_last() =~= decimal(n / 10));
        assert(d.last() == digit_char((n % 10) as int));
        assert((n / 10) * 10 + n % 10 == n) by (nonlinear_arith);
        assert(digits_value(d) == digits_value(decimal(n / 10)) * 10 + digit_value(d.last()));
        assert forall|i: int| 0 <= i < d.len() implies is_digit(#[trigger] d[i]) by {
            if i < d.len() - 1 {
                assert(d[i] == decimal(n / 10)[i]);
            }
        }
    }
}

} // verus!
