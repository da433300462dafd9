//! Character-level text primitives with their specifications.
//!
//! Every string the shim handles (tmux arguments, format strings, zellij output)
//! is processed as a sequence of `char`s. The executable helpers here work on
//! `Vec<char>` buffers and are proved against short spec functions over
//! `Seq<char>`, so the rest of the crate can state its contracts in terms of
//! those spec functions.
use vstd::prelude::*;
use vstd::string::*;

verus! {

// ---------------------------------------------------------------------------
// Specifications
// ---------------------------------------------------------------------------

/// `char::is_whitespace`: the Unicode `White_Space` property.
pub open spec fn is_ws(c: char) -> bool {
    ||| ('\t' <= c && c <= '\r')
    ||| c == ' '
    ||| c == '\u{85}'
    ||| c == '\u{a0}'
    ||| c == '\u{1680}'
    ||| ('\u{2000}' <= c && c <= '\u{200a}')
    ||| c == '\u{2028}'
    ||| c == '\u{2029}'
    ||| c == '\u{202f}'
    ||| c == '\u{205f}'
    ||| c == '\u{3000}'
}

/// ASCII decimal digit.
pub open spec fn is_digit(c: char) -> bool {
    '0' <= c && c <= '9'
}

/// ASCII letter or digit.
pub open spec fn is_alnum(c: char) -> bool {
    ||| is_digit(c)
    ||| ('a' <= c && c <= 'z')
    ||| ('A' <= c && c <= 'Z')
}

/// The numeric value of an ASCII digit.
pub open spec fn digit_value(c: char) -> int {
    (c as int) - ('0' as int)
}

/// The ASCII digit for `d < 10`.
pub open spec fn digit_char(d: int) -> char {
    (d + ('0' as int)) as char
}

/// Drop leading whitespace.
pub open spec fn trim_start(s: Seq<char>) -> Seq<char>
    decreases s.len(),
{
    if s.len() > 0 && is_ws(s[0]) {
        trim_start(s.drop_first())
    } else {
        s
    }
}

/// Drop trailing whitespace.
pub open spec fn trim_end(s: Seq<char>) -> Seq<char>
    decreases s.len(),
{
    if s.len() > 0 && is_ws(s.last()) {
        trim_end(s.drop_last())
    } else {
        s
    }
}

/// `str::trim`.
pub open spec fn trim(s: Seq<char>) -> Seq<char> {
    trim_end(trim_start(s))
}

/// Every element is an ASCII digit.
pub open spec fn all_digits(s: Seq<char>) -> bool {
    forall|i: int| 0 <= i < s.len() ==> is_digit(#[trigger] s[i])
}

/// The value of a string of decimal digits.
pub open spec fn digits_value(s: Seq<char>) -> int
    decreases s.len(),
{
    if s.len() == 0 {
        0
    } else {
        digits_value(s.drop_last()) * 10 + digit_value(s.last())
    }
}

/// A decimal integer with an optional leading `+` or `-`, as an unbounded integer.
pub open spec fn parse_int(s: Seq<char>) -> Option<int> {
    let neg = s.len() > 0 && s[0] == '-';
    let signed = s.len() > 0 && (s[0] == '-' || s[0] == '+');
    let body = if signed {
        s.drop_first()
    } else {
        s
    };
    if body.len() > 0 && all_digits(body) {
        Some(
            if neg {
                -digits_value(body)
            } else {
                digits_value(body)
            },
        )
    } else {
        None
    }
}

/// `str::parse::<i64>`: a decimal integer that fits in an `i64`.
pub open spec fn parse_i64(s: Seq<char>) -> Option<i64> {
    match parse_int(s) {
        Some(v) => if i64::MIN <= v && v <= i64::MAX {
            Some(v as i64)
        } else {
            None
        },
        None => None,
    }
}

/// The decimal digits of a natural number, most significant first.
pub open spec fn nat_digits(n: nat) -> Seq<char>
    decreases n,
{
    if n < 10 {
        seq![digit_char(n as int)]
    } else {
        nat_digits(n / 10).push(digit_char((n % 10) as int))
    }
}

/// The decimal rendering of an integer (`ToString` on integer types).
pub open spec fn int_str(i: int) -> Seq<char> {
    if i < 0 {
        seq!['-'] + nat_digits((-i) as nat)
    } else {
        nat_digits(i as nat)
    }
}

/// `pat` occurs in `s` at index `i`.
pub open spec fn occurs_at(s: Seq<char>, pat: Seq<char>, i: int) -> bool {
    0 <= i && i + pat.len() <= s.len() && s.subrange(i, i + pat.len()) == pat
}

/// The first occurrence of `pat` in `s` at or after `i`.
pub open spec fn find_from(s: Seq<char>, pat: Seq<char>, i: int) -> Option<int>
    decreases s.len() + 1 - i,
{
    if i < 0 || i + pat.len() > s.len() {
        None
    } else if occurs_at(s, pat, i) {
        Some(i)
    } else {
        find_from(s, pat, i + 1)
    }
}

/// `str::find`: the first occurrence of `pat` in `s`.
pub open spec fn find(s: Seq<char>, pat: Seq<char>) -> Option<int> {
    find_from(s, pat, 0)
}

/// `str::contains`.
pub open spec fn contains(s: Seq<char>, pat: Seq<char>) -> bool {
    find(s, pat) is Some
}

/// The first index of `c` in `s` at or after `i`.
pub open spec fn find_char_from(s: Seq<char>, c: char, i: int) -> Option<int>
    decreases s.len() - i,
{
    if i < 0 || i >= s.len() {
        None
    } else if s[i] == c {
        Some(i)
    } else {
        find_char_from(s, c, i + 1)
    }
}

/// The first index of `c` in `s`.
pub open spec fn find_char(s: Seq<char>, c: char) -> Option<int> {
    find_char_from(s, c, 0)
}

/// `str::strip_prefix`.
pub open spec fn strip_prefix(s: Seq<char>, p: Seq<char>) -> Option<Seq<char>> {
    if p.is_prefix_of(s) {
        Some(s.skip(p.len() as int))
    } else {
        None
    }
}

/// `str::split_once` on a single character: the text before and after the
/// first occurrence of `c`.
pub open spec fn split_once(s: Seq<char>, c: char) -> Option<(Seq<char>, Seq<char>)> {
    match find_char(s, c) {
        Some(i) => Some((s.take(i), s.skip(i + 1))),
        None => None,
    }
}

/// The views of a vector of strings.
pub open spec fn views(v: Seq<String>) -> Seq<Seq<char>> {
    v.map_values(|s: String| s@)
}

/// `sep`-joined concatenation of `parts`.
pub open spec fn join(parts: Seq<Seq<char>>, sep: Seq<char>) -> Seq<char>
    decreases parts.len(),
{
    if parts.len() == 0 {
        seq![]
    } else if parts.len() == 1 {
        parts[0]
    } else {
        join(parts.drop_last(), sep) + sep + parts.last()
    }
}

// ---------------------------------------------------------------------------
// Lemmas
// ---------------------------------------------------------------------------

/// Once `find_from` has passed positions without a match, it is unchanged.
pub proof fn lemma_find_from_step(s: Seq<char>, pat: Seq<char>, i: int)
    requires
        0 <= i,
        i + pat.len() <= s.len(),
        !occurs_at(s, pat, i),
    ensures
        find_from(s, pat, i) == find_from(s, pat, i + 1),
{
}

/// A found index is an occurrence, and nothing earlier (from `i`) is one.
pub proof fn lemma_find_from_sound(s: Seq<char>, pat: Seq<char>, i: int)
    requires
        0 <= i,
    ensures
        match find_from(s, pat, i) {
            Some(k) => occurs_at(s, pat, k) && i <= k && forall|j: int|
                i <= j < k ==> !occurs_at(s, pat, j),
            None => forall|j: int| i <= j ==> !occurs_at(s, pat, j),
        },
    decreases s.len() + 1 - i,
{
    if i + pat.len() > s.len() {
    } else if occurs_at(s, pat, i) {
    } else {
        lemma_find_from_sound(s, pat, i + 1);
    }
}

/// A found index of a character holds it, and nothing earlier (from `i`) does.
pub proof fn lemma_find_char_from_sound(s: Seq<char>, c: char, i: int)
    requires
        0 <= i,
    ensures
        match find_char_from(s, c, i) {
            Some(k) => 0 <= k < s.len() && s[k] == c && i <= k && forall|j: int|
                i <= j < k ==> s[j] != c,
            None => forall|j: int| i <= j < s.len() ==> s[j] != c,
        },
    decreases s.len() - i,
{
    if i >= s.len() {
    } else if s[i] == c {
    } else {
        lemma_find_char_from_sound(s, c, i + 1);
    }
}

// ---------------------------------------------------------------------------
// Conversions between `str`/`String` and character buffers
// ---------------------------------------------------------------------------

/// `String::push` (std's, which vstd leaves unspecified). Believed: the
/// text afterwards is the text before with `c` appended.
#[verifier::external_body]
pub(crate) fn push_char(s: &mut String, c: char)
    ensures
        final(s)@ == old(s)@.push(c),
{
    s.push(c);
}

/// The characters of `s`.
pub fn chars_of(s: &str) -> (v: Vec<char>)
    ensures
        v@ == s@,
{
    let n = s.unicode_len();
    let mut v: Vec<char> = Vec::with_capacity(n);
    let mut it = s.chars();
    let mut i: usize = 0;
    while i < n
        invariant
            n == s@.len(),
            i <= n,
            v@ == s@.take(i as int),
            vstd::std_specs::iter::IteratorSpec::obeys_prophetic_iter_laws(&it),
            vstd::std_specs::iter::IteratorSpec::remaining(&it) == s@.skip(i as int),
        decreases n - i,
    {
        proof {
            broadcast use vstd::string::group_string_axioms;
        }
        let c = it.next();
        match c {
            Some(ch) => {
                v.push(ch);
            },
            None => {},
        }
        i = i + 1;
        assert(v@ == s@.take(i as int));
    }
    assert(s@.take(n as int) == s@);
    v
}

/// The string made of the characters `v`.
pub fn string_of(v: &Vec<char>) -> (s: String)
    ensures
        s@ == v@,
{
    let mut s = String::new();
    let mut i: usize = 0;
    while i < v.len()
        invariant
            i <= v.len(),
            s@ == v@.take(i as int),
        decreases v.len() - i,
    {
        push_char(&mut s, v[i]);
        i = i + 1;
        assert(s@ == v@.take(i as int));
    }
    assert(v@.take(v.len() as int) == v@);
    s
}

// ---------------------------------------------------------------------------
// Executable helpers on character buffers
// ---------------------------------------------------------------------------

/// `char::is_whitespace`.
pub fn is_ws_char(c: char) -> (b: bool)
    ensures
        b == is_ws(c),
{
    ('\t' <= c && c <= '\r') || c == ' ' || c == '\u{85}' || c == '\u{a0}' || c == '\u{1680}'
        || ('\u{2000}' <= c && c <= '\u{200a}') || c == '\u{2028}' || c == '\u{2029}' || c
        == '\u{202f}' || c == '\u{205f}' || c == '\u{3000}'
}

/// `char::is_ascii_digit`.
pub fn is_digit_char(c: char) -> (b: bool)
    ensures
        b == is_digit(c),
{
    '0' <= c && c <= '9'
}

/// `char::is_ascii_alphanumeric`.
pub fn is_alnum_char(c: char) -> (b: bool)
    ensures
        b == is_alnum(c),
{
    ('0' <= c && c <= '9') || ('a' <= c && c <= 'z') || ('A' <= c && c <= 'Z')
}

/// The characters `v[from..to]`.
pub fn slice(v: &Vec<char>, from: usize, to: usize) -> (r: Vec<char>)
    requires
        from <= to <= v.len(),
    ensures
        r@ == v@.subrange(from as int, to as int),
{
    let mut r: Vec<char> = Vec::new();
    let mut i = from;
    while i < to
        invariant
            from <= i <= to <= v.len(),
            r@ == v@.subrange(from as int, i as int),
        decreases to - i,
    {
        r.push(v[i]);
        i = i + 1;
        assert(r@ == v@.subrange(from as int, i as int));
    }
    r
}

/// Append `w` to `v`.
pub fn extend(v: &mut Vec<char>, w: &Vec<char>)
    ensures
        final(v)@ == old(v)@ + w@,
{
    let mut i: usize = 0;
    let ghost start = v@;
    while i < w.len()
        invariant
            i <= w.len(),
            v@ == start + w@.take(i as int),
        decreases w.len() - i,
    {
        v.push(w[i]);
        i = i + 1;
        assert(v@ == start + w@.take(i as int));
    }
    assert(w@.take(w.len() as int) == w@);
}

/// Character-wise equality.
pub fn eq_chars(a: &Vec<char>, b: &Vec<char>) -> (r: bool)
    ensures
        r == (a@ == b@),
{
    if a.len() != b.len() {
        return false;
    }
    let mut i: usize = 0;
    while i < a.len()
        invariant
            a.len() == b.len(),
            i <= a.len(),
            forall|j: int| 0 <= j < i ==> a@[j] == b@[j],
        decreases a.len() - i,
    {
        if a[i] != b[i] {
            return false;
        }
        i = i + 1;
    }
    assert(a@ =~= b@);
    true
}

/// `s` equals the literal `lit`.
pub fn is(s: &Vec<char>, lit: &str) -> (r: bool)
    ensures
        r == (s@ == lit@),
{
    let l = chars_of(lit);
    eq_chars(s, &l)
}

/// `p` occurs in `s` at `i`.
pub fn occurs_at_exec(s: &Vec<char>, pat: &Vec<char>, i: usize) -> (r: bool)
    ensures
        r == occurs_at(s@, pat@, i as int),
{
    if pat.len() > s.len() || i > s.len() - pat.len() {
        return false;
    }
    let mut j: usize = 0;
    while j < pat.len()
        invariant
            i + pat.len() <= s.len(),
            j <= pat.len(),
            forall|k: int| 0 <= k < j ==> s@[i + k] == pat@[k],
        decreases pat.len() - j,
    {
        if s[i + j] != pat[j] {
            assert(s@.subrange(i as int, i + pat.len())[j as int] != pat@[j as int]);
            return false;
        }
        j = j + 1;
    }
    assert(s@.subrange(i as int, i + pat.len()) =~= pat@);
    true
}

/// `p` is a prefix of `s`.
pub fn starts_with(s: &Vec<char>, p: &Vec<char>) -> (r: bool)
    ensures
        r == p@.is_prefix_of(s@),
{
    let r = occurs_at_exec(s, p, 0);
    assert(r == p@.is_prefix_of(s@)) by {
        if p.len() <= s.len() {
            assert(s@.subrange(0, p.len() as int) =~= s@.subrange(0, 0 + p.len()));
        }
    }
    r
}

/// `str::strip_prefix`.
pub fn strip_prefix_exec(s: &Vec<char>, p: &Vec<char>) -> (r: Option<Vec<char>>)
    ensures
        match r {
            Some(v) => strip_prefix(s@, p@) == Some(v@),
            None => strip_prefix(s@, p@) is None,
        },
{
    if starts_with(s, p) {
        let v = slice(s, p.len(), s.len());
        Some(v)
    } else {
        None
    }
}

/// `str::find` from position `from`.
pub fn find_from_exec(s: &Vec<char>, pat: &Vec<char>, from: usize) -> (r: Option<usize>)
    ensures
        match r {
            Some(i) => find_from(s@, pat@, from as int) == Some(i as int),
            None => find_from(s@, pat@, from as int) is None,
        },
{
    if pat.len() > s.len() || from > s.len() - pat.len() {
        return None;
    }
    let mut i = from;
    while i <= s.len() - pat.len()
        invariant
            pat.len() <= s.len(),
            from <= i <= s.len() - pat.len() + 1,
            find_from(s@, pat@, from as int) == find_from(s@, pat@, i as int),
        decreases s.len() - pat.len() + 1 - i,
    {
        if occurs_at_exec(s, pat, i) {
            return Some(i);
        }
        proof {
            lemma_find_from_step(s@, pat@, i as int);
        }
        if i == s.len() - pat.len() {
            assert(find_from(s@, pat@, i + 1) is None);
            return None;
        }
        i = i + 1;
    }
    None
}

/// The first index of `c` at or after `from`.
pub fn find_char_exec(s: &Vec<char>, c: char, from: usize) -> (r: Option<usize>)
    ensures
        match r {
            Some(i) => find_char_from(s@, c, from as int) == Some(i as int),
            None => find_char_from(s@, c, from as int) is None,
        },
{
    let mut i = from;
    if i > s.len() {
        return None;
    }
    while i < s.len()
        invariant
            from <= i <= s.len(),
            find_char_from(s@, c, from as int) == find_char_from(s@, c, i as int),
        decreases s.len() - i,
    {
        if s[i] == c {
            return Some(i);
        }
        i = i + 1;
    }
    None
}

/// `str::contains`.
pub fn contains_exec(s: &Vec<char>, pat: &Vec<char>) -> (r: bool)
    ensures
        r == contains(s@, pat@),
{
    find_from_exec(s, pat, 0).is_some()
}

/// `str::trim`.
pub fn trim_chars(v: &Vec<char>) -> (r: Vec<char>)
    ensures
        r@ == trim(v@),
{
    let n = v.len();
    let mut i: usize = 0;
    assert(v@.subrange(0, n as int) =~= v@);
    while i < n && is_ws_char(v[i])
        invariant
            n == v.len(),
            i <= n,
            trim_start(v@) == trim_start(v@.subrange(i as int, n as int)),
        decreases n - i,
    {
        assert(v@.subrange(i as int, n as int).drop_first() =~= v@.subrange(i + 1, n as int));
        i = i + 1;
    }
    assert(trim_start(v@.subrange(i as int, n as int)) == v@.subrange(i as int, n as int));
    let mut j = n;
    while j > i && is_ws_char(v[j - 1])
        invariant
            n == v.len(),
            i <= j <= n,
            trim_end(v@.subrange(i as int, n as int)) == trim_end(v@.subrange(i as int, j as int)),
        decreases j - i,
    {
        assert(v@.subrange(i as int, j as int).drop_last() =~= v@.subrange(i as int, j - 1));
        j = j - 1;
    }
    slice(v, i, j)
}

/// `str::trim` on a string.
pub fn trim_str(s: &str) -> (r: String)
    ensures
        r@ == trim(s@),
{
    let v = chars_of(s);
    let t = trim_chars(&v);
    string_of(&t)
}

/// The value of the digit `c`.
pub fn digit_of(c: char) -> (d: u32)
    requires
        is_digit(c),
    ensures
        d as int == digit_value(c),
        d < 10,
{
    (c as u32) - ('0' as u32)
}

/// The digit character for `d`.
pub fn digit_for(d: u32) -> (c: char)
    requires
        d < 10,
    ensures
        c == digit_char(d as int),
{
    match d {
        0 => '0',
        1 => '1',
        2 => '2',
        3 => '3',
        4 => '4',
        5 => '5',
        6 => '6',
        7 => '7',
        8 => '8',
        _ => '9',
    }
}

/// Digit strings have a non-negative value.
pub proof fn lemma_digits_value_nonneg(s: Seq<char>)
    requires
        all_digits(s),
    ensures
        digits_value(s) >= 0,
    decreases s.len(),
{
    if s.len() > 0 {
        assert(all_digits(s.drop_last())) by {
            assert forall|i: int| 0 <= i < s.drop_last().len() implies is_digit(
                #[trigger] s.drop_last()[i],
            ) by {
                assert(s.drop_last()[i] == s[i]);
            }
        }
        lemma_digits_value_nonneg(s.drop_last());
        assert(is_digit(s[s.len() - 1]));
    }
}

/// The saturation bound used while accumulating a decimal magnitude (2^63).
pub open spec fn magnitude_cap() -> int {
    9223372036854775808
}

/// `x`, saturated just above the cap.
pub open spec fn capped(x: int) -> int {
    if x <= magnitude_cap() {
        x
    } else {
        magnitude_cap() + 1
    }
}

/// `str::parse::<i64>` on a character buffer.
pub fn parse_i64_chars(v: &Vec<char>) -> (r: Option<i64>)
    ensures
        r == parse_i64(v@),
{
    let n = v.len();
    if n == 0 {
        return None;
    }
    let neg = v[0] == '-';
    let signed = v[0] == '-' || v[0] == '+';
    let start: usize = if signed {
        1
    } else {
        0
    };
    let ghost body = if signed {
        v@.drop_first()
    } else {
        v@
    };
    assert(body =~= v@.subrange(start as int, n as int));
    if start >= n {
        return None;
    }
    let mut acc: u128 = 0;
    let mut i = start;
    assert(v@.subrange(start as int, start as int) =~= Seq::<char>::empty());
    while i < n
        invariant
            n == v.len(),
            start < n,
            start <= i <= n,
            signed == (v@.len() > 0 && (v@[0] == '-' || v@[0] == '+')),
            body == (if signed {
                v@.drop_first()
            } else {
                v@
            }),
            body =~= v@.subrange(start as int, n as int),
            all_digits(v@.subrange(start as int, i as int)),
            acc as int == capped(digits_value(v@.subrange(start as int, i as int))),
        decreases n - i,
    {
        let c = v[i];
        if !is_digit_char(c) {
            assert(body[i - start] == c);
            assert(!all_digits(body));
            assert(signed == (v@.len() > 0 && (v@[0] == '-' || v@[0] == '+')));
            assert(parse_int(v@) is None);
            return None;
        }
        let d = digit_of(c);
        let ghost prev = v@.subrange(start as int, i as int);
        let ghost next = v@.subrange(start as int, i + 1);
        assert(next.drop_last() =~= prev);
        assert(next.last() == c);
        assert(digits_value(next) == digits_value(prev) * 10 + digit_value(c));
        if acc > 9223372036854775808 {
            acc = 9223372036854775809;
        } else {
            acc = acc * 10 + d as u128;
            if acc > 9223372036854775808 {
                acc = 9223372036854775809;
            }
        }
        assert(all_digits(next)) by {
            assert forall|k: int| 0 <= k < next.len() implies is_digit(#[trigger] next[k]) by {
                if k < prev.len() {
                    assert(next[k] == prev[k]);
                }
            }
        }
        i = i + 1;
    }
    proof {
        lemma_digits_value_nonneg(body);
    }
    if neg {
        if acc <= 9223372036854775808 {
            let m = acc as i128;
            Some((0 - m) as i64)
        } else {
            None
        }
    } else {
        if acc <= 9223372036854775807 {
            Some(acc as i64)
        } else {
            None
        }
    }
}

/// `str::parse::<u64>`: decimal digits with an optional leading `+`, whose
/// value fits in a `u64`.
pub open spec fn parse_u64(s: Seq<char>) -> Option<u64> {
    if s.len() > 0 && s[0] == '-' {
        None
    } else {
        match parse_int(s) {
            Some(v) => if 0 <= v && v <= u64::MAX {
                Some(v as u64)
            } else {
                None
            },
            None => None,
        }
    }
}

/// The saturation bound used while accumulating an unsigned magnitude (2^64).
pub open spec fn unsigned_cap() -> int {
    18446744073709551616
}

/// `x`, saturated just above the unsigned cap.
pub open spec fn capped_unsigned(x: int) -> int {
    if x <= unsigned_cap() {
        x
    } else {
        unsigned_cap() + 1
    }
}

/// `str::parse::<u64>` on a string.
pub fn parse_u64_str(s: &str) -> (r: Option<u64>)
    ensures
        r == parse_u64(s@),
{
    let v = chars_of(s);
    let n = v.len();
    if n == 0 {
        return None;
    }
    if v[0] == '-' {
        return None;
    }
    let signed = v[0] == '+';
    let start: usize = if signed {
        1
    } else {
        0
    };
    let ghost body = if signed {
        v@.drop_first()
    } else {
        v@
    };
    assert(body =~= v@.subrange(start as int, n as int));
    if start >= n {
        return None;
    }
    let mut acc: u128 = 0;
    let mut i = start;
    assert(v@.subrange(start as int, start as int) =~= Seq::<char>::empty());
    while i < n
        invariant
            n == v.len(),
            v@ == s@,
            start < n,
            start <= i <= n,
            v@[0] != '-',
            signed == (v@[0] == '+'),
            body == (if signed {
                v@.drop_first()
            } else {
                v@
            }),
            body =~= v@.subrange(start as int, n as int),
            all_digits(v@.subrange(start as int, i as int)),
            acc as int == capped_unsigned(digits_value(v@.subrange(start as int, i as int))),
        decreases n - i,
    {
        let c = v[i];
        if !is_digit_char(c) {
            assert(body[i - start] == c);
            assert(!all_digits(body));
            assert(parse_int(v@) is None);
            return None;
        }
        let d = digit_of(c);
        let ghost prev = v@.subrange(start as int, i as int);
        let ghost next = v@.subrange(start as int, i + 1);
        assert(next.drop_last() =~= prev);
        assert(next.last() == c);
        assert(digits_value(next) == digits_value(prev) * 10 + digit_value(c));
        if acc > 18446744073709551616 {
            acc = 18446744073709551617;
        } else {
            acc = acc * 10 + d as u128;
            if acc > 18446744073709551616 {
                acc = 18446744073709551617;
            }
        }
        assert(all_digits(next)) by {
            assert forall|k: int| 0 <= k < next.len() implies is_digit(#[trigger] next[k]) by {
                if k < prev.len() {
                    assert(next[k] == prev[k]);
                }
            }
        }
        i = i + 1;
    }
    proof {
        lemma_digits_value_nonneg(body);
    }
    if acc <= 18446744073709551615 {
        Some(acc as u64)
    } else {
        None
    }
}

/// `str::parse::<i64>`.
pub fn parse_i64_str(s: &str) -> (r: Option<i64>)
    ensures
        r == parse_i64(s@),
{
    let v = chars_of(s);
    parse_i64_chars(&v)
}

/// Append the decimal digits of `n`.
pub fn push_nat(out: &mut Vec<char>, n: u64)
    ensures
        final(out)@ == old(out)@ + nat_digits(n as nat),
    decreases n,
{
    if n >= 10 {
        push_nat(out, n / 10);
    }
    out.push(digit_for((n % 10) as u32));
}

/// Append the decimal rendering of `n`.
pub fn push_int(out: &mut Vec<char>, n: i64)
    ensures
        final(out)@ == old(out)@ + int_str(n as int),
{
    if n < 0 {
        out.push('-');
        let m: u64 = (0 - (n as i128)) as u64;
        push_nat(out, m);
        assert(final(out)@ =~= old(out)@ + int_str(n as int)) by {
            assert(old(out)@ + int_str(n as int) =~= old(out)@.push('-') + nat_digits(m as nat));
        }
    } else {
        push_nat(out, n as u64);
    }
}

/// `i64::to_string`.
pub fn int_string(n: i64) -> (s: String)
    ensures
        s@ == int_str(n as int),
{
    let mut v: Vec<char> = Vec::new();
    push_int(&mut v, n);
    assert(v@ =~= int_str(n as int));
    string_of(&v)
}

/// The view of an optional string.
pub open spec fn opt_view(o: Option<String>) -> Option<Seq<char>> {
    match o {
        Some(s) => Some(s@),
        None => None,
    }
}

/// `str::split_once` on a character, returning the text before the separator.
pub fn before_char(s: &Vec<char>, c: char) -> (r: Option<Vec<char>>)
    ensures
        match r {
            Some(v) => split_once(s@, c) is Some && v@ == split_once(s@, c).unwrap().0,
            None => split_once(s@, c) is None,
        },
{
    match find_char_exec(s, c, 0) {
        Some(i) => {
            proof {
                lemma_find_char_from_sound(s@, c, 0);
            }
            Some(slice(s, 0, i))
        },
        None => None,
    }
}

/// `c` occurs in `v`.
pub fn has_char(v: &Vec<char>, c: char) -> (b: bool)
    ensures
        b == v@.contains(c),
{
    let mut i: usize = 0;
    while i < v.len()
        invariant
            i <= v.len(),
            forall|j: int| 0 <= j < i ==> v@[j] != c,
        decreases v.len() - i,
    {
        if v[i] == c {
            assert(v@[i as int] == c);
            return true;
        }
        i = i + 1;
    }
    false
}

/// `u64::to_string`.
pub fn uint_string(n: u64) -> (s: String)
    ensures
        s@ == int_str(n as int),
{
    let mut v: Vec<char> = Vec::new();
    push_nat(&mut v, n);
    assert(v@ =~= int_str(n as int));
    string_of(&v)
}

/// A copy of a list of strings.
pub fn clone_strings(v: &[String]) -> (r: Vec<String>)
    ensures
        views(r@) == views(v@),
{
    let mut r: Vec<String> = Vec::new();
    let mut j: usize = 0;
    while j < v.len()
        invariant
            j <= v.len(),
            views(r@) == views(v@).take(j as int),
        decreases v.len() - j,
    {
        let ghost prev = r@;
        let c = v[j].clone();
        assert(c@ == v@[j as int]@);
        r.push(c);
        assert(views(r@) =~= views(prev).push(v@[j as int]@));
        j = j + 1;
        assert(views(v@).take(j as int) =~= views(v@).take(j - 1).push(v@[j - 1]@));
    }
    assert(views(v@).take(v.len() as int) =~= views(v@));
    r
}

/// The `Debug` rendering of a string slice (quoted, with escapes).
pub uninterp spec fn debug_str(s: Seq<char>) -> Seq<char>;

/// `format!("{:?}", s)`: std's `Debug` rendering of a `str`. Believed: the
/// result depends on the text alone.
#[verifier::external_body]
pub(crate) fn debug_quoted(s: &str) -> (r: String)
    ensures
        r@ == debug_str(s@),
{
    format!("{:?}", s)
}

/// The given string slices as owned strings.
pub fn strs(items: &[&str]) -> (r: Vec<String>)
    ensures
        views(r@) == items@.map_values(|s: &str| s@),
{
    let mut r: Vec<String> = Vec::new();
    let mut j: usize = 0;
    while j < items.len()
        invariant
            j <= items.len(),
            views(r@) == items@.take(j as int).map_values(|s: &str| s@),
        decreases items.len() - j,
    {
        let ghost prev = r@;
        r.push(String::from_str(items[j]));
        assert(views(r@) =~= views(prev).push(items@[j as int]@));
        j = j + 1;
        assert(items@.take(j as int).map_values(|s: &str| s@) =~= items@.take(j - 1).map_values(
            |s: &str| s@,
        ).push(items@[j - 1]@));
    }
    assert(items@.take(items.len() as int) =~= items@);
    r
}

/// `a` followed by `b`.
pub fn concat_strings(a: Vec<String>, b: &Vec<String>) -> (r: Vec<String>)
    ensures
        views(r@) == views(a@) + views(b@),
{
    let mut r = a;
    let ghost start = views(r@);
    let mut j: usize = 0;
    while j < b.len()
        invariant
            j <= b.len(),
            views(r@) == start + views(b@).take(j as int),
        decreases b.len() - j,
    {
        let ghost prev = r@;
        let c = b[j].clone();
        r.push(c);
        assert(views(r@) =~= views(prev).push(b@[j as int]@));
        j = j + 1;
        assert(views(b@).take(j as int) =~= views(b@).take(j - 1).push(b@[j - 1]@));
    }
    assert(views(b@).take(b.len() as int) =~= views(b@));
    r
}

/// Trimming twice is trimming once.
pub proof fn lemma_trim_idempotent(s: Seq<char>)
    ensures
        trim(trim(s)) == trim(s),
{
    lemma_trim_start_shape(s);
    lemma_trim_end_shape(trim_start(s));
    let t = trim(s);
    if t.len() > 0 {
        assert(!is_ws(t[0]) && !is_ws(t.last()));
    }
}

proof fn lemma_trim_start_shape(s: Seq<char>)
    ensures
        trim_start(s).len() > 0 ==> !is_ws(trim_start(s)[0]),
        trim_start(s).is_suffix_of(s),
    decreases s.len(),
{
    if s.len() > 0 && is_ws(s[0]) {
        lemma_trim_start_shape(s.drop_first());
        let r = trim_start(s.drop_first());
        assert(s.subrange(s.len() - r.len(), s.len() as int) =~= s.drop_first().subrange(
            s.drop_first().len() - r.len(),
            s.drop_first().len() as int,
        ));
    } else {
        assert(s.subrange(0, s.len() as int) =~= s);
    }
}

proof fn lemma_trim_end_shape(s: Seq<char>)
    ensures
        trim_end(s).len() > 0 ==> !is_ws(trim_end(s).last()),
        trim_end(s).is_prefix_of(s),
        trim_end(s).len() > 0 && s.len() > 0 ==> trim_end(s)[0] == s[0],
    decreases s.len(),
{
    if s.len() > 0 && is_ws(s.last()) {
        lemma_trim_end_shape(s.drop_last());
        let r = trim_end(s.drop_last());
        assert(s.subrange(0, r.len() as int) =~= s.drop_last().subrange(0, r.len() as int));
    } else {
        assert(s.subrange(0, s.len() as int) =~= s);
    }
}

/// A line without its trailing carriage return.
pub open spec fn strip_cr(l: Seq<char>) -> Seq<char> {
    if l.len() > 0 && l.last() == '\r' {
        l.drop_last()
    } else {
        l
    }
}

/// `str::lines` of `s[k..]`: split at `\n` (a `\r` right before it is
/// dropped); a final empty line is not reported.
pub open spec fn lines_from(s: Seq<char>, k: int) -> Seq<Seq<char>>
    decreases s.len() - k,
{
    if k < 0 || k >= s.len() {
        seq![]
    } else {
        match find_char_from(s, '\n', k) {
            None => seq![s.subrange(k, s.len() as int)],
            Some(i) => if k <= i < s.len() {
                seq![strip_cr(s.subrange(k, i))] + lines_from(s, i + 1)
            } else {
                seq![]
            },
        }
    }
}

/// `str::lines`.
pub open spec fn lines(s: Seq<char>) -> Seq<Seq<char>> {
    lines_from(s, 0)
}

/// `str::lines`.
pub fn lines_exec(v: &Vec<char>) -> (r: Vec<Vec<char>>)
    ensures
        r@.map_values(|l: Vec<char>| l@) == lines(v@),
{
    let mut r: Vec<Vec<char>> = Vec::new();
    let mut start: usize = 0;
    while start < v.len()
        invariant
            start <= v.len(),
            lines(v@) == r@.map_values(|l: Vec<char>| l@) + lines_from(v@, start as int),
        decreases v.len() - start,
    {
        let ghost prev = r@.map_values(|l: Vec<char>| l@);
        proof {
            lemma_find_char_from_sound(v@, '\n', start as int);
        }
        match find_char_exec(v, '\n', start) {
            None => {
                let piece = slice(v, start, v.len());
                r.push(piece);
                assert(r@.map_values(|l: Vec<char>| l@) =~= prev + lines_from(v@, start as int));
                assert(lines_from(v@, v.len() as int) =~= Seq::<Seq<char>>::empty());
                start = v.len();
            },
            Some(i) => {
                let mut piece = slice(v, start, i);
                if piece.len() > 0 && piece[piece.len() - 1] == '\r' {
                    piece.pop();
                }
                r.push(piece);
                assert(r@.map_values(|l: Vec<char>| l@) =~= prev.push(
                    strip_cr(v@.subrange(start as int, i as int)),
                ));
                assert(prev + lines_from(v@, start as int) =~= prev.push(
                    strip_cr(v@.subrange(start as int, i as int)),
                ) + lines_from(v@, i + 1));
                start = i + 1;
            },
        }
    }
    assert(lines_from(v@, start as int) =~= Seq::<Seq<char>>::empty());
    assert(r@.map_values(|l: Vec<char>| l@) + Seq::<Seq<char>>::empty() =~= r@.map_values(
        |l: Vec<char>| l@,
    ));
    r
}

proof fn lemma_digit_char(d: int)
    requires
        0 <= d < 10,
    ensures
        digit_value(digit_char(d)) == d,
        is_digit(digit_char(d)),
{
    assert((d + ('0' as int)) as char as int == d + ('0' as int));
}

/// The digits of a natural number are digits and spell its value.
pub proof fn lemma_nat_digits(n: nat)
    ensures
        nat_digits(n).len() > 0,
        all_digits(nat_digits(n)),
        digits_value(nat_digits(n)) == n,
        nat_digits(n)[0] != '-' && nat_digits(n)[0] != '+',
    decreases n,
{
    if n < 10 {
        lemma_digit_char(n as int);
        let s = seq![digit_char(n as int)];
        assert(s.drop_last() =~= Seq::<char>::empty());
        assert(nat_digits(n) == s);
        assert(digits_value(s) == digits_value(s.drop_last()) * 10 + digit_value(s.last()));
    } else {
        lemma_nat_digits(n / 10);
        lemma_digit_char((n % 10) as int);
        let d = nat_digits(n / 10);
        let s = d.push(digit_char((n % 10) as int));
        assert(s.drop_last() =~= d);
        assert forall|i: int| 0 <= i < s.len() implies is_digit(#[trigger] s[i]) by {
            if i < d.len() {
                assert(s[i] == d[i]);
            }
        }
        assert(s[0] == d[0]);
        assert(nat_digits(n) == s);
        assert(digits_value(s) == digits_value(d) * 10 + digit_value(s.last()));
        assert(s.last() == digit_char((n % 10) as int));
        assert(n == (n / 10) * 10 + n % 10);
    }
}

/// Rendering an integer and parsing it back gives the integer.
pub proof fn law_int_roundtrip(i: int)
    ensures
        parse_int(int_str(i)) == Some(i),
{
    if i < 0 {
        let n = (-i) as nat;
        lemma_nat_digits(n);
        let s = seq!['-'] + nat_digits(n);
        assert(s.drop_first() =~= nat_digits(n));
    } else {
        lemma_nat_digits(i as nat);
    }
}

/// Every `i64` survives rendering and `str::parse::<i64>`.
pub proof fn law_i64_roundtrip(n: i64)
    ensures
        parse_i64(int_str(n as int)) == Some(n),
{
    law_int_roundtrip(n as int);
}

} // verus!
