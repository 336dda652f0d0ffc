//! String primitives shared by the rest of the library, with their
//! meaning stated over `Seq<char>`.

use vstd::prelude::*;

verus! {

/// The characters of `s`, in order.
pub fn chars_of(s: &str) -> (v: Vec<char>)
    ensures
        v@ == s@,
{
    let mut v: Vec<char> = Vec::new();
    for c in it: s.chars()
        invariant
            v@ == it.seq().take(it.index() as int),
            it.seq() == s@,
    {
        v.push(c);
    }
    v
}

/// Builds a `String` holding exactly the given characters.
#[verifier::external_body]
pub(crate) fn string_from_chars(v: &[char]) -> (s: String)
    ensures
        s@ == v@,
{
    v.iter().collect()
}

pub open spec fn is_digit(c: char) -> bool {
    '0' <= c <= '9'
}

pub open spec fn digit_value(c: char) -> int {
    c as int - '0' as int
}

pub open spec fn digit_char(d: int) -> char {
    (d + '0' as int) as char
}

pub open spec fn all_digits(s: Seq<char>) -> bool {
    forall|i: int| 0 <= i < s.len() ==> is_digit(#[trigger] s[i])
}

/// The number written by a string of decimal digits.
pub open spec fn digits_value(s: Seq<char>) -> int
    decreases s.len(),
{
    if s.len() == 0 {
        0
    } else {
        digits_value(s.drop_last()) * 10 + digit_value(s.last())
    }
}

fn digit_of(d: u64) -> (c: char)
    requires
        d < 10,
    ensures
        c == digit_char(d as int),
        is_digit(c),
        digit_value(c) == d,
{
    let b: u8 = 48u8 + d as u8;
    b as char
}

fn value_of_digit(c: char) -> (d: u64)
    requires
        is_digit(c),
    ensures
        d == digit_value(c),
        d < 10,
{
    (c as u32 - 48u32) as u64
}


/// Decimal digits of a natural number, most significant first, with no
/// leading zeros (zero itself is written "0").
pub open spec fn nat_digits(m: nat) -> Seq<char>
    decreases m,
{
    if m < 10 {
        seq![digit_char(m as int)]
    } else {
        nat_digits(m / 10).push(digit_char((m % 10) as int))
    }
}

/// How `Display` writes an integer: an optional `-` and its digits.
pub open spec fn decimal(n: int) -> Seq<char> {
    if n < 0 {
        seq!['-'] + nat_digits((-n) as nat)
    } else {
        nat_digits(n as nat)
    }
}

/// How `FromStr` reads a signed integer: an optional `+` or `-`, then one
/// or more decimal digits and nothing else. The range of the target type
/// is checked separately.
pub open spec fn parse_int(s: Seq<char>) -> Option<int> {
    if s.len() > 0 && (s[0] == '+' || s[0] == '-') {
        let rest = s.drop_first();
        if rest.len() > 0 && all_digits(rest) {
            if s[0] == '-' {
                Some(-digits_value(rest))
            } else {
                Some(digits_value(rest))
            }
        } else {
            None
        }
    } else if s.len() > 0 && all_digits(s) {
        Some(digits_value(s))
    } else {
        None
    }
}

pub open spec fn parse_i64_spec(s: Seq<char>) -> Option<i64> {
    match parse_int(s) {
        Some(v) => if i64::MIN <= v <= i64::MAX {
            Some(v as i64)
        } else {
            None
        },
        None => None,
    }
}

pub open spec fn parse_i32_spec(s: Seq<char>) -> Option<i32> {
    match parse_int(s) {
        Some(v) => if i32::MIN <= v <= i32::MAX {
            Some(v as i32)
        } else {
            None
        },
        None => None,
    }
}

proof fn lemma_digit_char(d: int)
    requires
        0 <= d < 10,
    ensures
        is_digit(digit_char(d)),
        digit_value(digit_char(d)) == d,
{
}

proof fn lemma_nat_digits_shape(m: nat)
    ensures
        nat_digits(m).len() > 0,
        all_digits(nat_digits(m)),
        digits_value(nat_digits(m)) == m,
    decreases m,
{
    if m >= 10 {
        lemma_nat_digits_shape(m / 10);
        let d = nat_digits(m / 10);
        let s = d.push(digit_char((m % 10) as int));
        assert(s.drop_last() =~= d);
        lemma_digit_char((m % 10) as int);
        assert(digits_value(s) == digits_value(d) * 10 + (m % 10));
        assert forall|i: int| 0 <= i < s.len() implies is_digit(#[trigger] s[i]) by {
            if i < d.len() {
                assert(s[i] == d[i]);
            }
        }
        assert(m == (m / 10) * 10 + (m % 10));
        assert(nat_digits(m) == s);
    } else {
        lemma_digit_char(m as int);
        assert(nat_digits(m).drop_last() =~= Seq::<char>::empty());
        assert(digits_value(Seq::<char>::empty()) == 0);
    }
}

/// Reading back what `decimal` wrote gives the number again.
pub proof fn lemma_parse_decimal(n: int)
    ensures
        parse_int(decimal(n)) == Some(n),
{
    if n < 0 {
        let m = (-n) as nat;
        lemma_nat_digits_shape(m);
        let s = seq!['-'] + nat_digits(m);
        assert(s.drop_first() =~= nat_digits(m));
    } else {
        lemma_nat_digits_shape(n as nat);
        let d = nat_digits(n as nat);
        assert(is_digit(d[0]));
    }
}

/// Writes `n` in decimal, as `Display` for integers does.
pub fn format_i64(n: i64) -> (s: String)
    ensures
        s@ == decimal(n as int),
{
    let v = decimal_chars(n);
    string_from_chars(v.as_slice())
}

/// The characters `Display` writes for `n`.
pub fn decimal_chars(n: i64) -> (v: Vec<char>)
    ensures
        v@ == decimal(n as int),
{
    let neg = n < 0;
    let mut m: u64 = if neg {
        (-(n as i128)) as u64
    } else {
        n as u64
    };
    let ghost orig: nat = m as nat;
    let mut v: Vec<char> = Vec::new();
    while m >= 10
        invariant
            nat_digits(orig) == nat_digits(m as nat) + v@,
        decreases m,
    {
        let c = digit_of(m % 10);
        proof {
            assert(nat_digits(m as nat) == nat_digits((m / 10) as nat).push(c));
            assert(nat_digits((m / 10) as nat).push(c) + v@ =~= nat_digits((m / 10) as nat) + (
            seq![c] + v@));
        }
        v.insert(0, c);
        m = m / 10;
    }
    let c = digit_of(m);
    proof {
        assert(nat_digits(m as nat) =~= seq![c]);
    }
    v.insert(0, c);
    if neg {
        v.insert(0, '-');
    }
    proof {
        if neg {
            assert(v@ =~= seq!['-'] + nat_digits(orig));
        } else {
            assert(v@ =~= nat_digits(orig));
        }
    }
    v
}

/// Reads a signed 64-bit integer as `i64::from_str` does: `None` for an
/// empty string, a stray character, or a value out of range.
pub fn parse_i64(s: &[char]) -> (r: Option<i64>)
    ensures
        r == parse_i64_spec(s@),
{
    let n = s.len();
    if n == 0 {
        return None;
    }
    let mut start: usize = 0;
    let mut neg = false;
    if s[0] == '+' || s[0] == '-' {
        neg = s[0] == '-';
        start = 1;
        if n == 1 {
            return None;
        }
    }
    let ghost digits = s@.subrange(start as int, n as int);
    let bound: i128 = 0x8000_0000_0000_0000i128;
    let mut acc: i128 = 0;
    let mut big = false;
    let mut i = start;
    while i < n
        invariant
            start <= i <= n,
            n == s@.len(),
            start == 0 || start == 1,
            start == 1 <==> (s@[0] == '+' || s@[0] == '-'),
            neg == (s@[0] == '-'),
            start < n,
            bound == 0x8000_0000_0000_0000i128,
            digits == s@.subrange(start as int, n as int),
            all_digits(digits.take(i - start)),
            !big ==> acc == digits_value(digits.take(i - start)) && 0 <= acc <= bound,
            big ==> digits_value(digits.take(i - start)) > bound,
        decreases n - i,
    {
        let c = s[i];
        if !('0' <= c && c <= '9') {
            proof {
                assert(digits[i - start] == c);
                assert(!all_digits(digits));
                if start == 1 {
                    assert(s@.drop_first() =~= digits);
                } else {
                    assert(s@ =~= digits);
                }
            }
            return None;
        }
        let d = value_of_digit(c);
        proof {
            let p = digits.take(i - start);
            let q = digits.take(i + 1 - start);
            assert(q.drop_last() =~= p);
            assert(q.last() == c);
            assert(digits_value(q) == digits_value(p) * 10 + digit_value(c));
            assert(all_digits(q)) by {
                assert forall|j: int| 0 <= j < q.len() implies is_digit(#[trigger] q[j]) by {
                    if j < p.len() {
                        assert(q[j] == p[j]);
                    }
                }
            }
        }
        if !big {
            assert(acc <= bound);
            let next = acc * 10 + d as i128;
            if next > bound {
                big = true;
            } else {
                acc = next;
            }
        }
        i = i + 1;
    }
    proof {
        assert(digits.take(n - start) =~= digits);
        if start == 1 {
            assert(s@.drop_first() =~= digits);
        } else {
            assert(s@ =~= digits);
        }
    }
    if big {
        return None;
    }
    let v: i128 = if neg {
        -acc
    } else {
        acc
    };
    if v < -0x8000_0000_0000_0000i128 || v > 0x7fff_ffff_ffff_ffffi128 {
        None
    } else {
        Some(v as i64)
    }
}

/// Reads a signed 32-bit integer as `i32::from_str` does.
pub fn parse_i32(s: &[char]) -> (r: Option<i32>)
    ensures
        r == parse_i32_spec(s@),
{
    match parse_i64(s) {
        Some(v) => if -0x8000_0000i64 <= v && v <= 0x7fff_ffffi64 {
            Some(v as i32)
        } else {
            None
        },
        None => None,
    }
}

/// `needle` occurs in `hay` at position `i`.
pub open spec fn occurs_at(hay: Seq<char>, needle: Seq<char>, i: int) -> bool {
    0 <= i && i + needle.len() <= hay.len() && hay.subrange(i, i + needle.len()) == needle
}

/// `str::contains` for a string pattern: some window of `hay` equals
/// `needle` (always true for an empty needle).
pub open spec fn seq_contains(hay: Seq<char>, needle: Seq<char>) -> bool {
    exists|i: int| occurs_at(hay, needle, i)
}

pub open spec fn seq_starts_with(s: Seq<char>, prefix: Seq<char>) -> bool {
    prefix.len() <= s.len() && s.take(prefix.len() as int) == prefix
}

fn matches_at(hay: &[char], needle: &[char], i: usize) -> (b: bool)
    requires
        i + needle@.len() <= hay@.len(),
    ensures
        b == occurs_at(hay@, needle@, i as int),
{
    let n = needle.len();
    let mut j: usize = 0;
    while j < n
        invariant
            n == needle@.len(),
            i + n <= hay.len(),
            j <= n,
            forall|k: int| 0 <= k < j ==> hay@[i + k] == needle@[k],
        decreases n - j,
    {
        if hay[i + j] != needle[j] {
            proof {
                assert(hay@.subrange(i as int, i + n)[j as int] != needle@[j as int]);
            }
            return false;
        }
        j = j + 1;
    }
    proof {
        assert(hay@.subrange(i as int, i + n) =~= needle@);
    }
    true
}

/// Whether `needle` occurs in `hay`.
pub fn contains(hay: &[char], needle: &[char]) -> (b: bool)
    ensures
        b == seq_contains(hay@, needle@),
{
    let h = hay.len();
    let n = needle.len();
    if n > h {
        proof {
            assert forall|i: int| !occurs_at(hay@, needle@, i) by {}
        }
        return false;
    }
    let last = h - n;
    let mut i: usize = 0;
    loop
        invariant
            h == hay@.len(),
            n == needle@.len(),
            n <= h,
            last == h - n,
            i <= last,
            forall|k: int| 0 <= k < i ==> !occurs_at(hay@, needle@, k),
        decreases last - i,
    {
        if matches_at(hay, needle, i) {
            return true;
        }
        if i == last {
            proof {
                assert forall|k: int| !occurs_at(hay@, needle@, k) by {
                    if 0 <= k < i {
                    }
                }
            }
            return false;
        }
        i = i + 1;
    }
}

/// Whether `s` begins with `prefix`.
pub fn starts_with(s: &[char], prefix: &[char]) -> (b: bool)
    ensures
        b == seq_starts_with(s@, prefix@),
{
    if prefix.len() > s.len() {
        return false;
    }
    let b = matches_at(s, prefix, 0);
    proof {
        assert(s@.subrange(0, prefix@.len() as int) =~= s@.take(prefix@.len() as int));
    }
    b
}

/// The `White_Space` property of Unicode, which `char::is_whitespace`
/// tests.
pub open spec fn is_whitespace(c: char) -> bool {
    ||| '\u{9}' <= c <= '\u{d}'
    ||| c == ' '
    ||| c == '\u{85}'
    ||| c == '\u{a0}'
    ||| c == '\u{1680}'
    ||| '\u{2000}' <= c <= '\u{200a}'
    ||| c == '\u{2028}'
    ||| c == '\u{2029}'
    ||| c == '\u{202f}'
    ||| c == '\u{205f}'
    ||| c == '\u{3000}'
}

pub fn is_whitespace_char(c: char) -> (b: bool)
    ensures
        b == is_whitespace(c),
{
    ('\u{9}' <= c && c <= '\u{d}') || c == ' ' || c == '\u{85}' || c == '\u{a0}' || c
        == '\u{1680}' || ('\u{2000}' <= c && c <= '\u{200a}') || c == '\u{2028}' || c
        == '\u{2029}' || c == '\u{202f}' || c == '\u{205f}' || c == '\u{3000}'
}

/// `s` with leading characters satisfying `p` removed.
pub open spec fn drop_leading(s: Seq<char>, p: spec_fn(char) -> bool) -> Seq<char>
    decreases s.len(),
{
    if s.len() > 0 && p(s[0]) {
        drop_leading(s.drop_first(), p)
    } else {
        s
    }
}

/// `s` with trailing characters satisfying `p` removed.
pub open spec fn drop_trailing(s: Seq<char>, p: spec_fn(char) -> bool) -> Seq<char>
    decreases s.len(),
{
    if s.len() > 0 && p(s.last()) {
        drop_trailing(s.drop_last(), p)
    } else {
        s
    }
}

pub open spec fn ws() -> spec_fn(char) -> bool {
    |c: char| is_whitespace(c)
}

/// `str::trim_start`.
pub open spec fn trim_start_spec(s: Seq<char>) -> Seq<char> {
    drop_leading(s, ws())
}

/// `str::trim`: whitespace removed from both ends.
pub open spec fn trim_spec(s: Seq<char>) -> Seq<char> {
    drop_trailing(drop_leading(s, ws()), ws())
}

proof fn lemma_drop_leading_head(s: Seq<char>, p: spec_fn(char) -> bool)
    ensures
        drop_leading(s, p).len() == 0 || !p(drop_leading(s, p)[0]),
    decreases s.len(),
{
    if s.len() > 0 && p(s[0]) {
        lemma_drop_leading_head(s.drop_first(), p);
    }
}

proof fn lemma_drop_trailing_prefix(s: Seq<char>, p: spec_fn(char) -> bool)
    ensures
        drop_trailing(s, p).len() <= s.len(),
        drop_trailing(s, p) == s.take(drop_trailing(s, p).len() as int),
        drop_trailing(s, p).len() == 0 || !p(drop_trailing(s, p).last()),
    decreases s.len(),
{
    if s.len() > 0 && p(s.last()) {
        lemma_drop_trailing_prefix(s.drop_last(), p);
        let r = drop_trailing(s.drop_last(), p);
        assert(s.drop_last().take(r.len() as int) =~= s.take(r.len() as int));
    } else {
        assert(s.take(s.len() as int) =~= s);
    }
}

/// Trimming twice trims once: a trimmed name normalizes to itself.
pub proof fn lemma_trim_idempotent(s: Seq<char>)
    ensures
        trim_spec(trim_spec(s)) == trim_spec(s),
{
    let l = drop_leading(s, ws());
    let t = trim_spec(s);
    lemma_drop_leading_head(s, ws());
    lemma_drop_trailing_prefix(l, ws());
    if t.len() > 0 {
        assert(t[0] == l[0]);
        assert(!is_whitespace(t[0]));
        assert(drop_leading(t, ws()) == t);
        assert(!is_whitespace(t.last()));
        assert(drop_trailing(t, ws()) == t);
    } else {
        assert(drop_leading(t, ws()) == t);
        assert(drop_trailing(t, ws()) == t);
    }
}

/// Index of the first character of `s` at or after `from` that is not
/// whitespace (or `s.len()`).
fn skip_whitespace(s: &[char], from: usize) -> (i: usize)
    requires
        from <= s@.len(),
    ensures
        from <= i <= s@.len(),
        trim_start_spec(s@.skip(from as int)) == s@.skip(i as int),
{
    let n = s.len();
    let mut i = from;
    while i < n && is_whitespace_char(s[i])
        invariant
            from <= i <= n,
            n == s@.len(),
            drop_leading(s@.skip(from as int), ws()) == drop_leading(s@.skip(i as int), ws()),
        decreases n - i,
    {
        proof {
            assert(s@.skip(i as int).drop_first() =~= s@.skip(i + 1));
        }
        i = i + 1;
    }
    proof {
        if i < n {
            assert(s@.skip(i as int)[0] == s@[i as int]);
        }
    }
    i
}

/// Index of the first non-whitespace character at or after `from`, stated
/// through `trim_start_spec`.
pub fn skip_whitespace_from(s: &[char], from: usize) -> (i: usize)
    requires
        from <= s@.len(),
    ensures
        from <= i <= s@.len(),
        trim_start_spec(s@.skip(from as int)) == s@.skip(i as int),
{
    skip_whitespace(s, from)
}

/// `s` with leading whitespace removed.
pub fn trim_start(s: &[char]) -> (r: Vec<char>)
    ensures
        r@ == trim_start_spec(s@),
{
    let i = skip_whitespace(s, 0);
    proof {
        assert(s@.skip(0) =~= s@);
    }
    let mut r: Vec<char> = Vec::new();
    let mut k = i;
    while k < s.len()
        invariant
            i <= k <= s@.len(),
            r@ == s@.subrange(i as int, k as int),
        decreases s@.len() - k,
    {
        r.push(s[k]);
        proof {
            assert(s@.subrange(i as int, k + 1) =~= s@.subrange(i as int, k as int).push(s@[k as int]));
        }
        k = k + 1;
    }
    proof {
        assert(s@.subrange(i as int, s@.len() as int) =~= s@.skip(i as int));
    }
    r
}

/// `s` with whitespace removed from both ends.
pub fn trim(s: &[char]) -> (r: Vec<char>)
    ensures
        r@ == trim_spec(s@),
{
    let mut r = trim_start(s);
    let ghost start = r@;
    while r.len() > 0 && is_whitespace_char(r[r.len() - 1])
        invariant
            drop_trailing(start, ws()) == drop_trailing(r@, ws()),
        decreases r@.len(),
    {
        let ghost before = r@;
        r.pop();
        proof {
            assert(before.drop_last() =~= r@);
        }
    }
    r
}

/// ASCII lowercase of one character; other characters are unchanged.
pub open spec fn ascii_lower(c: char) -> char {
    if 'A' <= c <= 'Z' {
        ((c as int) + 32) as char
    } else {
        c
    }
}

/// `str::to_ascii_lowercase`.
pub open spec fn ascii_lowercase_spec(s: Seq<char>) -> Seq<char> {
    s.map_values(|c: char| ascii_lower(c))
}

pub fn ascii_lowercase(s: &[char]) -> (r: Vec<char>)
    ensures
        r@ == ascii_lowercase_spec(s@),
{
    let mut r: Vec<char> = Vec::new();
    let mut i: usize = 0;
    while i < s.len()
        invariant
            i <= s@.len(),
            r@ == ascii_lowercase_spec(s@.take(i as int)),
        decreases s@.len() - i,
    {
        let c = s[i];
        let l = if 'A' <= c && c <= 'Z' {
            ((c as u32) + 32) as u8 as char
        } else {
            c
        };
        r.push(l);
        proof {
            assert(ascii_lowercase_spec(s@.take(i + 1)) =~= ascii_lowercase_spec(s@.take(i as int)).push(
                ascii_lower(c),
            ));
        }
        i = i + 1;
    }
    proof {
        assert(s@.take(s@.len() as int) =~= s@);
    }
    r
}

/// Unicode lowercase mapping of a string, as `str::to_lowercase` computes
/// it (full case mapping, including context-dependent rules such as the
/// final sigma).
pub uninterp spec fn lowercase(s: Seq<char>) -> Seq<char>;

/// Calls `str::to_lowercase`; the result is named [`lowercase`].
#[verifier::external_body]
pub(crate) fn to_lowercase(s: &str) -> (r: String)
    ensures
        r@ == lowercase(s@),
{
    s.to_lowercase()
}

/// Position of the first `c` in `s`, if any.
pub fn find_char(s: &[char], c: char) -> (r: Option<usize>)
    ensures
        match r {
            Some(i) => i < s.len() && s@[i as int] == c && forall|k: int|
                0 <= k < i ==> s@[k] != c,
            None => forall|k: int| 0 <= k < s@.len() ==> s@[k] != c,
        },
{
    let mut i: usize = 0;
    while i < s.len()
        invariant
            i <= s@.len(),
            forall|k: int| 0 <= k < i ==> s@[k] != c,
        decreases s@.len() - i,
    {
        if s[i] == c {
            return Some(i);
        }
        i = i + 1;
    }
    None
}

/// The characters of `s` from `from` up to (not including) `to`.
pub fn slice_chars(s: &[char], from: usize, to: usize) -> (r: Vec<char>)
    requires
        from <= to <= s@.len(),
    ensures
        r@ == s@.subrange(from as int, to as int),
{
    let mut r: Vec<char> = Vec::new();
    let mut k = from;
    while k < to
        invariant
            from <= k <= to,
            to <= s@.len(),
            r@ == s@.subrange(from as int, k as int),
        decreases to - k,
    {
        r.push(s[k]);
        proof {
            assert(s@.subrange(from as int, k + 1) =~= s@.subrange(from as int, k as int).push(s@[k as int]));
        }
        k = k + 1;
    }
    r
}

/// Whether two character sequences are equal.
pub fn chars_eq(a: &[char], b: &[char]) -> (r: bool)
    ensures
        r == (a@ == b@),
{
    if a.len() != b.len() {
        return false;
    }
    let r = matches_at(a, b, 0);
    proof {
        assert(a@.subrange(0, b@.len() as int) =~= a@);
    }
    r
}

/// `i` is the first position of `c` in `s`.
pub open spec fn is_first(s: Seq<char>, c: char, i: int) -> bool {
    0 <= i < s.len() && s[i] == c && forall|k: int| 0 <= k < i ==> s[k] != c
}

/// `str::split_once` with a character pattern: the text before and after
/// the first `c`, or `None` when `c` does not occur.
pub open spec fn split_once_spec(s: Seq<char>, c: char) -> Option<(Seq<char>, Seq<char>)> {
    if exists|i: int| is_first(s, c, i) {
        let i = choose|i: int| is_first(s, c, i);
        Some((s.take(i), s.skip(i + 1)))
    } else {
        None
    }
}

proof fn lemma_first_unique(s: Seq<char>, c: char, i: int, j: int)
    requires
        is_first(s, c, i),
        is_first(s, c, j),
    ensures
        i == j,
{
    if i < j {
        assert(s[i] != c);
    } else if j < i {
        assert(s[j] != c);
    }
}

/// The split at a known first occurrence.
pub proof fn lemma_split_at_first(s: Seq<char>, c: char, i: int)
    requires
        is_first(s, c, i),
    ensures
        split_once_spec(s, c) == Some((s.take(i), s.skip(i + 1))),
{
    let j = choose|j: int| is_first(s, c, j);
    lemma_first_unique(s, c, i, j);
}

/// Splitting `a + [c] + b` at `c`, when `a` has no `c`, gives back `a`
/// and `b`.
pub proof fn lemma_split_joined(a: Seq<char>, c: char, b: Seq<char>)
    requires
        forall|k: int| 0 <= k < a.len() ==> a[k] != c,
    ensures
        split_once_spec(a + seq![c] + b, c) == Some((a, b)),
{
    let s = a + seq![c] + b;
    assert(is_first(s, c, a.len() as int)) by {
        assert forall|k: int| 0 <= k < a.len() implies s[k] != c by {
            assert(s[k] == a[k]);
        }
    }
    lemma_split_at_first(s, c, a.len() as int);
    assert(s.take(a.len() as int) =~= a);
    assert(s.skip(a.len() as int + 1) =~= b);
}

/// Splits `s` at the first `c`.
pub fn split_once_chars(s: &[char], c: char) -> (r: Option<(Vec<char>, Vec<char>)>)
    ensures
        match r {
            Some((a, b)) => split_once_spec(s@, c) == Some((a@, b@)),
            None => split_once_spec(s@, c) is None,
        },
{
    match find_char(s, c) {
        Some(i) => {
            let a = slice_chars(s, 0, i);
            let b = slice_chars(s, i + 1, s.len());
            proof {
                lemma_split_at_first(s@, c, i as int);
                assert(a@ =~= s@.take(i as int));
                assert(b@ =~= s@.skip(i + 1));
            }
            Some((a, b))
        },
        None => {
            proof {
                assert(!exists|i: int| is_first(s@, c, i));
            }
            None
        },
    }
}

/// `decimal` never writes a colon or any character other than digits and
/// a leading minus sign.
pub proof fn lemma_decimal_chars(n: int)
    ensures
        forall|k: int| 0 <= k < decimal(n).len() ==> is_digit(#[trigger] decimal(n)[k]) || (k
            == 0 && decimal(n)[k] == '-'),
{
    if n < 0 {
        lemma_nat_digits_shape((-n) as nat);
        let d = nat_digits((-n) as nat);
        assert forall|k: int| 0 < k < decimal(n).len() implies is_digit(#[trigger] decimal(n)[k]) by {
            assert(decimal(n)[k] == d[k - 1]);
        }
    } else {
        lemma_nat_digits_shape(n as nat);
    }
}

} // verus!
