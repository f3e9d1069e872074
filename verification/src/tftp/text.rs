//! Character-level text helpers shared by the parsers of the library:
//! Unicode whitespace trimming, unsigned decimal parsing, ASCII case folding
//! and UTF-8 decoding of wire bytes.

use vstd::prelude::*;
use vstd::utf8::*;

verus! {

broadcast use vstd::string::group_string_axioms;

/// `char::is_whitespace`: the Unicode `White_Space` property.
pub open spec fn is_ws(c: char) -> bool {
    ||| ('\u{9}' <= c && c <= '\u{d}')
    ||| c == ' '
    ||| c == '\u{85}'
    ||| c == '\u{a0}'
    ||| c == '\u{1680}'
    ||| ('\u{2000}' <= c && c <= '\u{200a}')
    ||| c == '\u{2028}'
    ||| c == '\u{2029}'
    ||| c == '\u{202f}'
    ||| c == '\u{205f}'
    ||| c == '\u{3000}'
}

/// Number of whitespace characters in the run that starts at index `i`.
pub open spec fn ws_front(s: Seq<char>, i: int) -> nat
    decreases s.len() - i,
{
    if 0 <= i < s.len() && is_ws(s[i]) {
        1 + ws_front(s, i + 1)
    } else {
        0
    }
}

/// Number of whitespace characters in the run that ends just before index `j`,
/// not reaching below index `lo`.
pub open spec fn ws_back(s: Seq<char>, lo: int, j: int) -> nat
    decreases j - lo,
{
    if lo < j && 0 < j <= s.len() && is_ws(s[j - 1]) {
        1 + ws_back(s, lo, j - 1)
    } else {
        0
    }
}

/// `str::trim`: `s` without its leading and trailing whitespace.
pub open spec fn trim(s: Seq<char>) -> Seq<char> {
    let a = ws_front(s, 0) as int;
    let b = s.len() - ws_back(s, a, s.len() as int);
    s.subrange(a, b)
}

pub proof fn lemma_ws_front_bound(s: Seq<char>, i: int)
    requires
        0 <= i <= s.len(),
    ensures
        i + ws_front(s, i) <= s.len(),
        forall|k: int| i <= k < i + ws_front(s, i) ==> is_ws(#[trigger] s[k]),
        i + ws_front(s, i) < s.len() ==> !is_ws(s[i + ws_front(s, i)]),
    decreases s.len() - i,
{
    if i < s.len() && is_ws(s[i]) {
        lemma_ws_front_bound(s, i + 1);
    }
}

pub proof fn lemma_ws_back_bound(s: Seq<char>, lo: int, j: int)
    requires
        0 <= lo <= j <= s.len(),
    ensures
        lo <= j - ws_back(s, lo, j),
        forall|k: int| j - ws_back(s, lo, j) <= k < j ==> is_ws(#[trigger] s[k]),
        lo < j - ws_back(s, lo, j) ==> !is_ws(s[j - ws_back(s, lo, j) - 1]),
    decreases j - lo,
{
    if lo < j && is_ws(s[j - 1]) {
        lemma_ws_back_bound(s, lo, j - 1);
    }
}

/// Whether the exec helper below matches `is_ws`.
pub fn char_is_whitespace(c: char) -> (r: bool)
    ensures
        r == is_ws(c),
{
    ('\u{9}' <= c && c <= '\u{d}') || c == ' ' || c == '\u{85}' || c == '\u{a0}' || c == '\u{1680}'
        || ('\u{2000}' <= c && c <= '\u{200a}') || c == '\u{2028}' || c == '\u{2029}' || c
        == '\u{202f}' || c == '\u{205f}' || c == '\u{3000}'
}

/// The characters of `s`, one by one.
pub fn chars_of(s: &str) -> (v: Vec<char>)
    ensures
        v@ == s@,
{
    let mut v: Vec<char> = Vec::new();
    for c in it: s.chars()
        invariant
            it.seq() == s@,
            v@ == it.seq().take(it.index()),
    {
        v.push(c);
    }
    v
}

/// Bounds `(a, b)` of the trimmed part of `v`: `trim(v@) == v@[a..b]`.
pub fn trim_bounds(v: &Vec<char>) -> (r: (usize, usize))
    ensures
        r.0 <= r.1 <= v@.len(),
        r.0 == ws_front(v@, 0),
        r.1 == v@.len() - ws_back(v@, r.0 as int, v@.len() as int),
        trim(v@) == v@.subrange(r.0 as int, r.1 as int),
{
    let n = v.len();
    let mut i: usize = 0;
    while i < n && char_is_whitespace(v[i])
        invariant
            i <= n == v@.len(),
            ws_front(v@, 0) == i + ws_front(v@, i as int),
        decreases n - i,
    {
        i = i + 1;
    }
    let mut j: usize = n;
    while j > i && char_is_whitespace(v[j - 1])
        invariant
            i <= j <= n == v@.len(),
            ws_front(v@, 0) == i,
            ws_back(v@, i as int, n as int) == (n - j) + ws_back(v@, i as int, j as int),
        decreases j - i,
    {
        j = j - 1;
    }
    (i, j)
}


pub open spec fn is_digit(c: char) -> bool {
    '0' <= c && c <= '9'
}

pub open spec fn digit_value(c: char) -> nat {
    (c as int - '0' as int) as nat
}

/// Decimal value of a sequence of digits (most significant first).
pub open spec fn digits_value(s: Seq<char>) -> nat
    decreases s.len(),
{
    if s.len() == 0 {
        0
    } else {
        digits_value(s.drop_last()) * 10 + digit_value(s.last())
    }
}

/// The digits that `str::parse` reads for an unsigned type: one leading `+` is skipped.
pub open spec fn unsigned_digits(s: Seq<char>) -> Seq<char> {
    if s.len() > 0 && s[0] == '+' {
        s.drop_first()
    } else {
        s
    }
}

/// `str::parse::<uN>()` for an unsigned type whose largest value is `max`:
/// an optional `+`, then one or more ASCII digits whose value is at most `max`.
pub open spec fn parse_unsigned(s: Seq<char>, max: nat) -> Option<nat> {
    let d = unsigned_digits(s);
    if d.len() > 0 && (forall|i: int| 0 <= i < d.len() ==> is_digit(#[trigger] d[i]))
        && digits_value(d) <= max {
        Some(digits_value(d))
    } else {
        None
    }
}

proof fn lemma_digits_value_take(s: Seq<char>, i: int)
    requires
        0 <= i < s.len(),
    ensures
        digits_value(s.take(i + 1)) == digits_value(s.take(i)) * 10 + digit_value(s[i]),
{
    assert(s.take(i + 1).drop_last() =~= s.take(i));
}

proof fn lemma_digits_value_monotone(s: Seq<char>, i: int)
    requires
        0 <= i <= s.len(),
    ensures
        digits_value(s.take(i)) <= digits_value(s),
    decreases s.len() - i,
{
    if i < s.len() {
        lemma_digits_value_take(s, i);
        lemma_digits_value_monotone(s, i + 1);
    } else {
        assert(s.take(i) =~= s);
    }
}

/// Parse `v@[lo..hi]` as `str::parse::<uN>()` does for the unsigned type whose
/// largest value is `max`.
pub fn parse_unsigned_range(v: &Vec<char>, lo: usize, hi: usize, max: u64) -> (r: Option<u64>)
    requires
        lo <= hi <= v@.len(),
    ensures
        r matches Some(n) ==> parse_unsigned(v@.subrange(lo as int, hi as int), max as nat)
            == Some(n as nat),
        r is None ==> parse_unsigned(v@.subrange(lo as int, hi as int), max as nat) is None,
{
    let ghost s = v@.subrange(lo as int, hi as int);
    let mut start = lo;
    if lo < hi && v[lo] == '+' {
        start = lo + 1;
    }
    let ghost d = v@.subrange(start as int, hi as int);
    assert(d =~= unsigned_digits(s));
    if start == hi {
        return None;
    }
    let mut acc: u64 = 0;
    let mut i = start;
    while i < hi
        invariant
            lo <= start <= i <= hi <= v@.len(),
            s == v@.subrange(lo as int, hi as int),
            d == v@.subrange(start as int, hi as int),
            d =~= unsigned_digits(s),
            acc as nat == digits_value(d.take(i - start)),
            acc <= max,
            forall|k: int| 0 <= k < i - start ==> is_digit(#[trigger] d[k]),
        decreases hi - i,
    {
        let c = v[i];
        if !('0' <= c && c <= '9') {
            assert(!is_digit(unsigned_digits(s)[i - start]));
            return None;
        }
        let dv = (c as u32 - '0' as u32) as u64;
        proof {
            lemma_digits_value_take(d, i - start);
        }
        if dv > max || acc > (max - dv) / 10 {
            proof {
                assert(acc * 10 + dv > max) by (nonlinear_arith)
                    requires dv > max || acc > (max - dv) / 10, dv <= max || acc >= 0;
                lemma_digits_value_monotone(d, i - start + 1);
            }
            return None;
        }
        assert(acc * 10 + dv <= max) by (nonlinear_arith)
            requires acc <= (max - dv) / 10, dv <= max;
        acc = acc * 10 + dv;
        i = i + 1;
    }
    assert(d.take(i - start) =~= d);
    Some(acc)
}


/// `char::to_ascii_lowercase`.
pub open spec fn ascii_lower_char(c: char) -> char {
    if 'A' <= c && c <= 'Z' {
        ((c as u32) + 32) as char
    } else {
        c
    }
}

/// `str::to_ascii_lowercase`: ASCII letters folded to lower case, all else kept.
pub open spec fn ascii_lower(s: Seq<char>) -> Seq<char> {
    s.map_values(|c: char| ascii_lower_char(c))
}

/// `s` with `'A'..='Z'` mapped to `'a'..='z'` and every other character kept,
/// as `str::to_ascii_lowercase` does.
pub(crate) fn str_to_ascii_lowercase(s: &str) -> (r: String)
    ensures
        r@ == ascii_lower(s@),
{
    let v = chars_of(s);
    let mut r = String::new();
    let mut i: usize = 0;
    while i < v.len()
        invariant
            i <= v@.len(),
            v@ == s@,
            r@ == ascii_lower(s@).take(i as int),
        decreases v.len() - i,
    {
        let c = v[i];
        let lc = if 'A' <= c && c <= 'Z' {
            ((c as u8) + 32) as char
        } else {
            c
        };
        string_push(&mut r, lc);
        assert(r@ =~= ascii_lower(s@).take(i + 1));
        i = i + 1;
    }
    assert(ascii_lower(s@).take(v@.len() as int) =~= ascii_lower(s@));
    r
}

/// Calls `std::str::from_utf8`, which succeeds exactly on valid UTF-8 and
/// then yields the string those bytes encode.
#[verifier::external_body]
pub(crate) fn str_from_utf8(v: &[u8]) -> (r: Option<&str>)
    ensures
        r is Some <==> valid_utf8(v@),
        r matches Some(s) ==> s@ == decode_utf8(v@),
{
    std::str::from_utf8(v).ok()
}

/// Character-wise equality of two strings, decided on their UTF-8 bytes.
pub fn str_eq(a: &str, b: &str) -> (r: bool)
    ensures
        r == (a@ == b@),
{
    broadcast use vstd::utf8::encode_utf8_decode_utf8;

    let x = a.as_bytes();
    let y = b.as_bytes();
    if x.len() != y.len() {
        return false;
    }
    let mut i: usize = 0;
    while i < x.len()
        invariant
            x@.len() == y@.len(),
            x@ == encode_utf8(a@),
            y@ == encode_utf8(b@),
            i <= x@.len(),
            forall|k: int| 0 <= k < i ==> x@[k] == y@[k],
        decreases x.len() - i,
    {
        if x[i] != y[i] {
            return false;
        }
        i = i + 1;
    }
    assert(x@ =~= y@);
    assert(decode_utf8(encode_utf8(a@)) == a@);
    assert(decode_utf8(encode_utf8(b@)) == b@);
    true
}

/// The decimal digit of a value below ten.
pub open spec fn decimal_digit(d: nat) -> char {
    if d == 0 {
        '0'
    } else if d == 1 {
        '1'
    } else if d == 2 {
        '2'
    } else if d == 3 {
        '3'
    } else if d == 4 {
        '4'
    } else if d == 5 {
        '5'
    } else if d == 6 {
        '6'
    } else if d == 7 {
        '7'
    } else if d == 8 {
        '8'
    } else {
        '9'
    }
}

/// Decimal notation of `n`, as `Display` writes an unsigned integer.
pub open spec fn decimal(n: nat) -> Seq<char>
    decreases n,
{
    if n < 10 {
        seq![decimal_digit(n)]
    } else {
        decimal(n / 10).push(decimal_digit(n % 10))
    }
}

/// The decimal digit of `d`.
fn decimal_digit_char(d: u64) -> (c: char)
    requires
        d < 10,
    ensures
        c == decimal_digit(d as nat),
{
    match d {
        0 => '0',
        1 => '1',
        2 => '2',
        3 => '3',
        4 => '4',
        5 => '5',
        6 => '6',
        7 => '7',
        8 => '8',
        _ => '9',
    }
}

/// Append the decimal notation of `n` to `out`.
fn push_decimal(out: &mut String, n: u64)
    ensures
        final(out)@ == old(out)@ + decimal(n as nat),
    decreases n,
{
    if n >= 10 {
        push_decimal(out, n / 10);
    }
    string_push(out, decimal_digit_char(n % 10));
    assert(decimal(n as nat) == if n < 10 {
        seq![decimal_digit(n as nat)]
    } else {
        decimal((n / 10) as nat).push(decimal_digit((n % 10) as nat))
    });
    assert(out@ =~= old(out)@ + decimal(n as nat)) by {
        if n < 10 {
            assert(n % 10 == n);
        }
    }
}

/// The decimal notation of `n`, without sign, padding or leading zeros, as
/// `Display` writes an unsigned integer.
pub(crate) fn u64_to_string(n: u64) -> (r: String)
    ensures
        r@ == decimal(n as nat),
{
    let mut s = String::new();
    push_decimal(&mut s, n);
    assert(s@ =~= decimal(n as nat));
    s
}

/// The characters of `v@[lo..hi]`, copied.
pub fn chars_range(v: &Vec<char>, lo: usize, hi: usize) -> (r: Vec<char>)
    requires
        lo <= hi <= v@.len(),
    ensures
        r@ == v@.subrange(lo as int, hi as int),
{
    vstd::slice::slice_to_vec(&v.as_slice()[lo..hi])
}

/// The characters of `trim(s@)`.
pub fn trimmed_chars(s: &str) -> (r: Vec<char>)
    ensures
        r@ == trim(s@),
{
    let v = chars_of(s);
    let (a, b) = trim_bounds(&v);
    chars_range(&v, a, b)
}


/// Number of consecutive `c` in `s` from index `i` on.
pub open spec fn run_of(s: Seq<char>, c: char, i: int) -> nat
    decreases s.len() - i,
{
    if 0 <= i < s.len() && s[i] == c {
        1 + run_of(s, c, i + 1)
    } else {
        0
    }
}

/// `str::trim_start_matches(c)` for a single character `c`.
pub open spec fn trim_start_char(s: Seq<char>, c: char) -> Seq<char> {
    s.skip(run_of(s, c, 0) as int)
}

/// Leading `/` removed, then leading `\` removed.
pub open spec fn strip_slashes(s: Seq<char>) -> Seq<char> {
    trim_start_char(trim_start_char(s, '/'), '\\')
}

proof fn lemma_run_of_skip(s: Seq<char>, c: char, i: int, k: int)
    requires
        0 <= i <= s.len(),
        0 <= k,
    ensures
        run_of(s.skip(i), c, k) == run_of(s, c, i + k),
    decreases s.len() - i - k,
{
    if k < s.len() - i && s.skip(i)[k] == c {
        lemma_run_of_skip(s, c, i, k + 1);
    }
}

proof fn lemma_run_of_bound(s: Seq<char>, c: char, i: int)
    requires
        0 <= i <= s.len(),
    ensures
        i + run_of(s, c, i) <= s.len(),
    decreases s.len() - i,
{
    if i < s.len() && s[i] == c {
        lemma_run_of_bound(s, c, i + 1);
    }
}

/// A leading `/` is among the slashes that are stripped anyway.
pub proof fn lemma_strip_slashes_leading(r: Seq<char>)
    ensures
        strip_slashes(seq!['/'] + r) == strip_slashes(r),
{
    let s = seq!['/'] + r;
    assert(s.skip(1) =~= r);
    lemma_run_of_skip(s, '/', 1, 0);
    let n = run_of(r, '/', 0);
    assert(run_of(s, '/', 0) == 1 + n);
    lemma_run_of_bound(r, '/', 0);
    assert(s.skip(1 + n as int) =~= r.skip(n as int));
}

/// Index just past the run of `c` that starts at `i`.
fn skip_run(v: &Vec<char>, i: usize, c: char) -> (j: usize)
    requires
        i <= v@.len(),
    ensures
        j == i + run_of(v@, c, i as int),
        j <= v@.len(),
{
    let mut j = i;
    while j < v.len() && v[j] == c
        invariant
            i <= j <= v@.len(),
            run_of(v@, c, i as int) == (j - i) + run_of(v@, c, j as int),
        decreases v.len() - j,
    {
        j = j + 1;
    }
    j
}

/// Index `j` with `v@.skip(j) == strip_slashes(v@.skip(i))`.
pub fn skip_slashes(v: &Vec<char>, i: usize) -> (j: usize)
    requires
        i <= v@.len(),
    ensures
        i <= j <= v@.len(),
        v@.skip(j as int) == strip_slashes(v@.skip(i as int)),
{
    let a = skip_run(v, i, '/');
    let b = skip_run(v, a, '\\');
    proof {
        lemma_run_of_skip(v@, '/', i as int, 0);
        let t = v@.skip(i as int);
        assert(trim_start_char(t, '/') =~= v@.skip(a as int));
        lemma_run_of_skip(v@, '\\', a as int, 0);
        assert(trim_start_char(v@.skip(a as int), '\\') =~= v@.skip(b as int));
    }
    b
}

/// The characters of `s` from index `from` on, as a new string.
pub fn string_from(s: &str, from: usize) -> (r: String)
    requires
        from <= s@.len(),
    ensures
        r@ == s@.skip(from as int),
{
    let n = s.unicode_len();
    s.substring_char(from, n).to_string()
}


/// `str::trim`, as a new string.
pub fn trimmed_string(s: &str) -> (r: String)
    ensures
        r@ == trim(s@),
{
    let v = chars_of(s);
    let (a, b) = trim_bounds(&v);
    s.substring_char(a, b).to_string()
}


/// Whether `pat` occurs in `s` at index `i`.
pub open spec fn occurs_at(s: Seq<char>, pat: Seq<char>, i: int) -> bool {
    0 <= i && i + pat.len() <= s.len() && s.subrange(i, i + pat.len()) == pat
}

/// The first index at or after `i` at which `pat` occurs in `s`.
pub open spec fn find_from(s: Seq<char>, pat: Seq<char>, i: int) -> Option<int>
    decreases s.len() + 1 - i,
{
    if i < 0 || i + pat.len() > s.len() {
        None
    } else if occurs_at(s, pat, i) {
        Some(i)
    } else {
        find_from(s, pat, i + 1)
    }
}

/// `str::find` with a string pattern, counted in characters.
pub open spec fn find(s: Seq<char>, pat: Seq<char>) -> Option<int> {
    find_from(s, pat, 0)
}

/// The first occurrence of `pat` in `v@` at or after `from`.
pub fn find_chars(v: &Vec<char>, pat: &Vec<char>, from: usize) -> (r: Option<usize>)
    requires
        from <= v@.len(),
    ensures
        match r {
            Some(i) => find_from(v@, pat@, from as int) == Some(i as int) && i + pat@.len()
                <= v@.len(),
            None => find_from(v@, pat@, from as int) is None,
        },
{
    let vlen = v.len();
    if pat.len() > vlen {
        return None;
    }
    if pat.len() == 0 {
        assert(v@.subrange(from as int, from as int) =~= pat@);
        return Some(from);
    }
    let last = vlen - pat.len();
    let mut i = from;
    while i <= last
        invariant
            from <= i,
            vlen == v@.len(),
            pat@.len() >= 1,
            last + pat@.len() == v@.len(),
            find_from(v@, pat@, from as int) == find_from(v@, pat@, i as int),
        decreases last + 1 - i,
    {
        let mut k: usize = 0;
        let mut same = true;
        while same && k < pat.len()
            invariant
                k <= pat@.len(),
                i + pat@.len() <= v@.len(),
                vlen == v@.len(),
                same ==> forall|t: int| 0 <= t < k ==> v@[i + t] == pat@[t],
                !same ==> !occurs_at(v@, pat@, i as int),
            decreases pat.len() - k,
        {
            if v[i + k] != pat[k] {
                assert(v@.subrange(i as int, i + pat@.len())[k as int] != pat@[k as int]);
                same = false;
            }
            k = k + 1;
        }
        if same {
            assert(v@.subrange(i as int, i + pat@.len()) =~= pat@);
            return Some(i);
        }
        i = i + 1;
    }
    None
}


/// `str::parse` for an unsigned integer type whose largest value is `max`.
pub fn parse_uint(s: &str, max: u64) -> (r: Option<u64>)
    ensures
        r matches Some(n) ==> parse_unsigned(s@, max as nat) == Some(n as nat),
        r is None ==> parse_unsigned(s@, max as nat) is None,
{
    let v = chars_of(s);
    let r = parse_unsigned_range(&v, 0, v.len(), max);
    assert(v@.subrange(0, v@.len() as int) =~= s@);
    r
}

/// Whether `pat` occurs anywhere in `s` (`str::contains` with a string pattern).
pub open spec fn contains(s: Seq<char>, pat: Seq<char>) -> bool {
    find(s, pat) is Some
}

/// `str::contains` with a string pattern.
pub fn str_contains(s: &str, pat: &str) -> (r: bool)
    ensures
        r == contains(s@, pat@),
{
    let v = chars_of(s);
    let p = chars_of(pat);
    find_chars(&v, &p, 0).is_some()
}

/// Whether `s` begins with `pre`.
pub open spec fn starts_with(s: Seq<char>, pre: Seq<char>) -> bool {
    pre.len() <= s.len() && s.take(pre.len() as int) == pre
}

/// `str::starts_with` with a string pattern.
pub fn str_starts_with(s: &str, pre: &str) -> (r: bool)
    ensures
        r == starts_with(s@, pre@),
{
    let v = chars_of(s);
    let p = chars_of(pre);
    if p.len() > v.len() {
        return false;
    }
    let mut i: usize = 0;
    while i < p.len()
        invariant
            p@.len() <= v@.len(),
            v@ == s@,
            p@ == pre@,
            i <= p@.len(),
            forall|k: int| 0 <= k < i ==> v@[k] == p@[k],
        decreases p.len() - i,
    {
        if v[i] != p[i] {
            assert(s@.take(pre@.len() as int)[i as int] != pre@[i as int]);
            return false;
        }
        i = i + 1;
    }
    assert(s@.take(pre@.len() as int) =~= pre@);
    true
}

/// Calls `String::push`, which appends one character.
#[verifier::external_body]
pub(crate) fn string_push(s: &mut String, c: char)
    ensures
        final(s)@ == old(s)@.push(c),
{
    s.push(c);
}

/// Calls `String::pop`, which removes and returns the last character, or
/// returns `None` and leaves the string as it is when it is empty.
#[verifier::external_body]
pub(crate) fn string_pop(s: &mut String) -> (r: Option<char>)
    ensures
        old(s)@.len() == 0 ==> r is None && final(s)@ == old(s)@,
        old(s)@.len() > 0 ==> r == Some(old(s)@.last()) && final(s)@ == old(s)@.drop_last(),
{
    s.pop()
}

/// The characters of `v`, as a string.
pub fn string_of_chars(v: &Vec<char>) -> (r: String)
    ensures
        r@ == v@,
{
    let mut s = String::new();
    let mut i: usize = 0;
    while i < v.len()
        invariant
            i <= v@.len(),
            s@ == v@.take(i as int),
        decreases v.len() - i,
    {
        string_push(&mut s, v[i]);
        assert(v@.take(i + 1) =~= v@.take(i as int).push(v@[i as int]));
        i = i + 1;
    }
    assert(v@.take(v@.len() as int) =~= v@);
    s
}

/// What `str::to_lowercase` returns: the full Unicode lower-case mapping,
/// which can change the number of characters.
pub uninterp spec fn unicode_lower(s: Seq<char>) -> Seq<char>;

/// Calls `str::to_lowercase`. Its result is a function of the characters of
/// the input alone; what that function is (the Unicode case tables) is not
/// stated here.
#[verifier::external_body]
pub(crate) fn str_to_lowercase(s: &str) -> (r: String)
    ensures
        r@ == unicode_lower(s@),
{
    s.to_lowercase()
}


/// The character sequences of a list of strings.
pub open spec fn views(v: Seq<String>) -> Seq<Seq<char>> {
    v.map_values(|x: String| x@)
}

/// `str::split` on the character `c`, read left to right: the pieces already
/// closed by a `c`, and the piece still open.
pub open spec fn split_fold(s: Seq<char>, c: char) -> (Seq<Seq<char>>, Seq<char>)
    decreases s.len(),
{
    if s.len() == 0 {
        (Seq::empty(), Seq::empty())
    } else {
        let (done, cur) = split_fold(s.drop_last(), c);
        if s.last() == c {
            (done.push(cur), Seq::empty())
        } else {
            (done, cur.push(s.last()))
        }
    }
}

/// The pieces of `s` between occurrences of `c`, as `str::split` yields them:
/// `n` separators give `n + 1` pieces, empty ones included.
pub open spec fn split_char(s: Seq<char>, c: char) -> Seq<Seq<char>> {
    split_fold(s, c).0.push(split_fold(s, c).1)
}

/// The pieces, each trimmed, with the empty ones left out.
pub open spec fn trimmed_nonempty(parts: Seq<Seq<char>>) -> Seq<Seq<char>>
    decreases parts.len(),
{
    if parts.len() == 0 {
        Seq::empty()
    } else {
        let rest = trimmed_nonempty(parts.drop_last());
        if trim(parts.last()).len() == 0 {
            rest
        } else {
            rest.push(trim(parts.last()))
        }
    }
}

/// The items of a comma-separated list: split on `,`, trimmed, empty items dropped.
pub open spec fn list_items(s: Seq<char>) -> Seq<Seq<char>> {
    trimmed_nonempty(split_char(s, ','))
}

/// `trim(v@)`, as a string, when it is not empty.
fn nonempty_trimmed(v: &Vec<char>) -> (r: Option<String>)
    ensures
        trim(v@).len() == 0 ==> r is None,
        trim(v@).len() > 0 ==> (r matches Some(t) && t@ == trim(v@)),
{
    let (a, b) = trim_bounds(v);
    if a < b {
        let t = chars_range(v, a, b);
        Some(string_of_chars(&t))
    } else {
        None
    }
}

/// The items of a comma-separated list.
pub fn split_list(s: &str) -> (r: Vec<String>)
    ensures
        views(r@) == list_items(s@),
{
    let v = chars_of(s);
    let mut out: Vec<String> = Vec::new();
    let mut cur: Vec<char> = Vec::new();
    let mut i: usize = 0;
    while i < v.len()
        invariant
            v@ == s@,
            i <= v@.len(),
            views(out@) == trimmed_nonempty(split_fold(v@.take(i as int), ',').0),
            cur@ == split_fold(v@.take(i as int), ',').1,
        decreases v.len() - i,
    {
        let c = v[i];
        let ghost pre = v@.take(i as int);
        assert(v@.take(i + 1).drop_last() =~= pre);
        assert(v@.take(i + 1).last() == c);
        if c == ',' {
            let ghost done = split_fold(pre, ',').0;
            assert(done.push(cur@).drop_last() =~= done);
            match nonempty_trimmed(&cur) {
                Some(t) => {
                    out.push(t);
                },
                None => {},
            }
            assert(views(out@) =~= trimmed_nonempty(done.push(cur@)));
            cur = Vec::new();
        } else {
            cur.push(c);
        }
        i = i + 1;
    }
    assert(v@.take(v@.len() as int) =~= v@);
    let ghost done = split_fold(v@, ',').0;
    assert(done.push(cur@).drop_last() =~= done);
    match nonempty_trimmed(&cur) {
        Some(t) => {
            out.push(t);
        },
        None => {},
    }
    assert(views(out@) =~= trimmed_nonempty(done.push(cur@)));
    out
}

/// The parts written one after another with `sep` between neighbours.
pub open spec fn join(parts: Seq<Seq<char>>, sep: Seq<char>) -> Seq<char>
    decreases parts.len(),
{
    if parts.len() == 0 {
        Seq::empty()
    } else if parts.len() == 1 {
        parts[0]
    } else {
        join(parts.drop_last(), sep) + sep + parts.last()
    }
}

/// `[String]::join`.
pub fn join_strings(parts: &Vec<String>, sep: &str) -> (r: String)
    ensures
        r@ == join(views(parts@), sep@),
{
    let mut out = String::new();
    let mut i: usize = 0;
    while i < parts.len()
        invariant
            i <= parts@.len(),
            out@ == join(views(parts@.take(i as int)), sep@),
        decreases parts.len() - i,
    {
        let ghost before = views(parts@.take(i as int));
        assert(views(parts@.take(i + 1)).drop_last() =~= before);
        if i > 0 {
            out.append(sep);
        }
        out.append(parts[i].as_str());
        proof {
            if i == 0 {
                assert(out@ =~= views(parts@.take(1))[0]);
            } else {
                assert(out@ =~= join(before, sep@) + sep@ + views(parts@.take(i + 1)).last());
            }
        }
        i = i + 1;
    }
    assert(parts@.take(parts@.len() as int) =~= parts@);
    out
}


/// Lexicographic order of texts by code point, which is the order of `str`
/// (UTF-8 preserves the order of code points): `a` comes no later than `b`.
pub open spec fn lex_le(a: Seq<char>, b: Seq<char>) -> bool
    decreases a.len(),
{
    if a.len() == 0 {
        true
    } else if b.len() == 0 {
        false
    } else if a[0] != b[0] {
        a[0] < b[0]
    } else {
        lex_le(a.drop_first(), b.drop_first())
    }
}

pub proof fn lemma_lex_total(a: Seq<char>, b: Seq<char>)
    ensures
        lex_le(a, b) || lex_le(b, a),
    decreases a.len(),
{
    if a.len() > 0 && b.len() > 0 {
        if a[0] == b[0] {
            lemma_lex_total(a.drop_first(), b.drop_first());
        } else {
            assert(a[0] < b[0] || b[0] < a[0]);
        }
    }
}

pub proof fn lemma_lex_trans(a: Seq<char>, b: Seq<char>, c: Seq<char>)
    requires
        lex_le(a, b),
        lex_le(b, c),
    ensures
        lex_le(a, c),
    decreases a.len(),
{
    if a.len() > 0 && b.len() > 0 && c.len() > 0 && a[0] == b[0] && b[0] == c[0] {
        lemma_lex_trans(a.drop_first(), b.drop_first(), c.drop_first());
    }
}

/// Whether `a` comes no later than `b` in the order of `str`.
pub fn str_lex_le(a: &str, b: &str) -> (r: bool)
    ensures
        r == lex_le(a@, b@),
{
    let x = chars_of(a);
    let y = chars_of(b);
    let mut i: usize = 0;
    assert(a@.skip(0) =~= a@);
    assert(b@.skip(0) =~= b@);
    while i < x.len() && i < y.len() && x[i] == y[i]
        invariant
            x@ == a@,
            y@ == b@,
            i <= x@.len(),
            i <= y@.len(),
            lex_le(a@, b@) == lex_le(a@.skip(i as int), b@.skip(i as int)),
        decreases x.len() - i,
    {
        assert(a@.skip(i as int).drop_first() =~= a@.skip(i + 1));
        assert(b@.skip(i as int).drop_first() =~= b@.skip(i + 1));
        i = i + 1;
    }
    if i == x.len() {
        return true;
    }
    if i == y.len() {
        return false;
    }
    assert(a@.skip(i as int)[0] == x@[i as int]);
    assert(b@.skip(i as int)[0] == y@[i as int]);
    x[i] < y[i]
}


proof fn lemma_digit_value(d: nat)
    requires
        d < 10,
    ensures
        is_digit(decimal_digit(d)),
        digit_value(decimal_digit(d)) == d,
{
}

proof fn lemma_decimal_digits(n: nat)
    ensures
        decimal(n).len() > 0,
        forall|i: int| 0 <= i < decimal(n).len() ==> is_digit(#[trigger] decimal(n)[i]),
        digits_value(decimal(n)) == n,
    decreases n,
{
    if n < 10 {
        lemma_digit_value(n);
        assert(decimal(n) == seq![decimal_digit(n)]);
        assert(decimal(n).drop_last() =~= Seq::<char>::empty());
        assert(digits_value(Seq::<char>::empty()) == 0);
        assert(digits_value(decimal(n)) == digits_value(decimal(n).drop_last()) * 10 + digit_value(
            decimal(n).last(),
        ));
    } else {
        lemma_decimal_digits(n / 10);
        lemma_digit_value(n % 10);
        let d = decimal(n / 10);
        assert(decimal(n).drop_last() =~= d);
        assert(decimal(n).last() == decimal_digit(n % 10));
        assert((n / 10) * 10 + n % 10 == n) by (nonlinear_arith);
        assert(digits_value(decimal(n)) == digits_value(d) * 10 + digit_value(
            decimal_digit(n % 10),
        ));
        assert forall|i: int| 0 <= i < decimal(n).len() implies is_digit(#[trigger] decimal(n)[i]) by {
            if i < d.len() {
                assert(decimal(n)[i] == d[i]);
            }
        }
    }
}

/// Reading back the decimal notation of a number that fits gives the number:
/// `str::parse` undoes `to_string`.
pub proof fn lemma_parse_decimal(n: nat, max: nat)
    requires
        n <= max,
    ensures
        parse_unsigned(decimal(n), max) == Some(n),
{
    lemma_decimal_digits(n);
    assert(unsigned_digits(decimal(n)) == decimal(n)) by {
        assert(is_digit(decimal(n)[0]));
    }
}


/// An item of a comma-separated list that reads back as itself: not empty,
/// no comma, no whitespace at either end.
pub open spec fn plain_item(x: Seq<char>) -> bool {
    &&& x.len() > 0
    &&& !is_ws(x[0])
    &&& !is_ws(x.last())
    &&& forall|i: int| 0 <= i < x.len() ==> #[trigger] x[i] != ','
}

/// Text without the separator only lengthens the piece still open.
pub proof fn lemma_split_fold_plain(s: Seq<char>, t: Seq<char>, c: char)
    requires
        forall|i: int| 0 <= i < t.len() ==> #[trigger] t[i] != c,
    ensures
        split_fold(s + t, c) == (split_fold(s, c).0, split_fold(s, c).1 + t),
    decreases t.len(),
{
    if t.len() == 0 {
        assert(s + t =~= s);
        assert(split_fold(s, c).1 + t =~= split_fold(s, c).1);
    } else {
        lemma_split_fold_plain(s, t.drop_last(), c);
        assert((s + t).drop_last() =~= s + t.drop_last());
        assert((s + t).last() == t.last());
        assert(split_fold(s, c).1 + t =~= (split_fold(s, c).1 + t.drop_last()).push(t.last()));
    }
}

proof fn lemma_trim_plain(x: Seq<char>)
    requires
        x.len() > 0,
        !is_ws(x[0]),
        !is_ws(x.last()),
    ensures
        trim(x) == x,
        trim(seq![' '] + x) == x,
{
    assert(ws_front(x, 0) == 0);
    assert(ws_back(x, 0, x.len() as int) == 0);
    assert(x.subrange(0, x.len() as int) =~= x);
    let y = seq![' '] + x;
    assert(y[1] == x[0]);
    assert(ws_front(y, 1) == 0);
    assert(ws_front(y, 0) == 1);
    assert(y[y.len() - 1] == x.last());
    assert(ws_back(y, 1, y.len() as int) == 0);
    assert(y.subrange(1, y.len() as int) =~= x);
}

/// Splitting a list written with `join(.., ", ")` gives the items back, when
/// each item is plain.
pub proof fn lemma_list_items_join(items: Seq<Seq<char>>)
    requires
        forall|i: int| 0 <= i < items.len() ==> plain_item(#[trigger] items[i]),
    ensures
        list_items(join(items, ", "@)) == items,
    decreases items.len(),
{
    reveal_strlit(", ");
    if items.len() == 0 {
        assert(split_fold(Seq::<char>::empty(), ',') == (Seq::<Seq<char>>::empty(), Seq::<char>::empty()));
        let parts = split_char(Seq::<char>::empty(), ',');
        assert(parts =~= seq![Seq::<char>::empty()]);
        assert(parts.drop_last() =~= Seq::<Seq<char>>::empty());
        assert(trim(Seq::<char>::empty()) =~= Seq::<char>::empty());
        assert(join(items, ", "@) == Seq::<char>::empty());
        assert(trimmed_nonempty(parts.drop_last()) == Seq::<Seq<char>>::empty());
        assert(trimmed_nonempty(parts) == trimmed_nonempty(parts.drop_last()));
        assert(list_items(join(items, ", "@)) =~= items);
    } else if items.len() == 1 {
        let x = items[0];
        lemma_split_fold_plain(Seq::empty(), x, ',');
        assert(Seq::<char>::empty() + x =~= x);
        assert(Seq::<char>::empty() + x =~= x);
        lemma_trim_plain(x);
        let parts = split_char(x, ',');
        assert(parts =~= seq![x]);
        assert(parts.drop_last() =~= Seq::<Seq<char>>::empty());
        assert(join(items, ", "@) == x);
        assert(trimmed_nonempty(parts.drop_last()) == Seq::<Seq<char>>::empty());
        assert(trimmed_nonempty(parts) == trimmed_nonempty(parts.drop_last()).push(x));
        assert(list_items(join(items, ", "@)) =~= items);
    } else {
        let front = items.drop_last();
        let last = items.last();
        lemma_list_items_join(front);
        let j = join(front, ", "@);
        let jc = j.push(',');
        assert(jc.drop_last() =~= j);
        let tail = seq![' '] + last;
        assert forall|i: int| 0 <= i < tail.len() implies #[trigger] tail[i] != ',' by {
            if i > 0 {
                assert(tail[i] == last[i - 1]);
            }
        }
        lemma_split_fold_plain(jc, tail, ',');
        assert(join(items, ", "@) =~= jc + tail);
        assert(Seq::<char>::empty() + tail =~= tail);
        lemma_trim_plain(last);
        let parts = split_char(join(items, ", "@), ',');
        assert(parts =~= split_char(j, ',').push(tail));
        assert(parts.drop_last() =~= split_char(j, ','));
        assert(items =~= front.push(last));
    }
}

} // verus!
