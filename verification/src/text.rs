//! Character-level text handling on `Seq<char>`: whitespace, trimming,
//! prefixes, line splitting and decimal integers, with executable versions
//! that work on ranges of a `Vec<char>`.
use vstd::prelude::*;
use vstd::string::*;

verus! {

/// Unicode `White_Space`, as `char::is_whitespace` tests it.
pub open spec fn is_whitespace(c: char) -> bool {
    ||| '\t' <= c <= '\r'
    ||| c == ' '
    ||| c == '\u{85}'
    ||| c == '\u{a0}'
    ||| c == '\u{1680}'
    ||| '\u{2000}' <= c <= '\u{200a}'
    ||| c == '\u{2028}'
    ||| c == '\u{2029}'
    ||| c == '\u{202f}'
    ||| c == '\u{205f}'
    ||| c == '\u{3000}'
}

/// `s` without its leading whitespace.
pub open spec fn trim_start(s: Seq<char>) -> Seq<char>
    decreases s.len(),
{
    if s.len() > 0 && is_whitespace(s[0]) {
        trim_start(s.drop_first())
    } else {
        s
    }
}

/// `s` without its trailing whitespace.
pub open spec fn trim_end(s: Seq<char>) -> Seq<char>
    decreases s.len(),
{
    if s.len() > 0 && is_whitespace(s.last()) {
        trim_end(s.drop_last())
    } else {
        s
    }
}

/// `s` without leading and trailing whitespace.
pub open spec fn trim(s: Seq<char>) -> Seq<char> {
    trim_end(trim_start(s))
}

/// What follows `prefix` in `s`, if `s` starts with it.
pub open spec fn strip_prefix(s: Seq<char>, prefix: Seq<char>) -> Option<Seq<char>> {
    if prefix.len() <= s.len() && s.take(prefix.len() as int) == prefix {
        Some(s.skip(prefix.len() as int))
    } else {
        None
    }
}

/// Index of the first `c` in `s`, or `s.len()` when there is none.
pub open spec fn first_index(s: Seq<char>, c: char) -> nat
    decreases s.len(),
{
    if s.len() == 0 {
        0
    } else if s[0] == c {
        0
    } else {
        1 + first_index(s.drop_first(), c)
    }
}

/// The parts of `s` before and after its first `c`, if it has one.
pub open spec fn split_once(s: Seq<char>, c: char) -> Option<(Seq<char>, Seq<char>)> {
    if first_index(s, c) < s.len() {
        Some((s.take(first_index(s, c) as int), s.skip(first_index(s, c) + 1int)))
    } else {
        None
    }
}

/// `line` without one trailing carriage return.
pub open spec fn strip_cr(line: Seq<char>) -> Seq<char> {
    if line.len() > 0 && line.last() == '\r' {
        line.drop_last()
    } else {
        line
    }
}

/// The lines of `s` as `str::lines` yields them: split at `\n`, a `\r` right
/// before a `\n` removed, and no empty line after a final `\n`.
pub open spec fn lines(s: Seq<char>) -> Seq<Seq<char>>
    decreases s.len(),
{
    if s.len() == 0 {
        Seq::empty()
    } else if first_index(s, '\n') < s.len() {
        seq![strip_cr(s.take(first_index(s, '\n') as int))] + lines(
            s.skip(first_index(s, '\n') + 1int),
        )
    } else {
        seq![s]
    }
}

/// An ASCII decimal digit.
pub open spec fn is_digit(c: char) -> bool {
    '0' <= c <= '9'
}

/// The value of the decimal digits `ds`.
pub open spec fn digits_value(ds: Seq<char>) -> nat
    decreases ds.len(),
{
    if ds.len() == 0 {
        0
    } else {
        digits_value(ds.drop_last()) * 10 + ((ds.last() as int - '0' as int) as nat)
    }
}

/// Every character of `ds` is an ASCII digit.
pub open spec fn all_digits(ds: Seq<char>) -> bool {
    forall|i: int| 0 <= i < ds.len() ==> is_digit(#[trigger] ds[i])
}

/// `s` without its leading sign character, if it has one.
pub open spec fn unsigned_part(s: Seq<char>) -> Seq<char> {
    if s.len() > 0 && (s[0] == '+' || s[0] == '-') {
        s.drop_first()
    } else {
        s
    }
}

/// `s` parsed as an `i32` the way `str::parse::<i32>` does: an optional `+`
/// or `-`, then one or more ASCII digits, the value within range.
pub open spec fn parse_i32(s: Seq<char>) -> Option<i32> {
    let ds = unsigned_part(s);
    let value = if s.len() > 0 && s[0] == '-' {
        -(digits_value(ds) as int)
    } else {
        digits_value(ds) as int
    };
    if ds.len() > 0 && all_digits(ds) && i32::MIN <= value <= i32::MAX {
        Some(value as i32)
    } else {
        None
    }
}

/// The characters of `s`.
pub fn chars_of(s: &str) -> (v: Vec<char>)
    ensures
        v@ == s@,
{
    let n = s.unicode_len();
    let mut v: Vec<char> = Vec::with_capacity(n);
    let mut i: usize = 0;
    while i < n
        invariant
            n == s@.len(),
            0 <= i <= n,
            v@ == s@.take(i as int),
        decreases n - i,
    {
        let c = s.get_char(i);
        v.push(c);
        i = i + 1;
        assert(v@ =~= s@.take(i as int));
    }
    assert(s@.take(n as int) =~= s@);
    v
}


/// Whether `c` is whitespace.
pub fn is_ws(c: char) -> (b: bool)
    ensures
        b == is_whitespace(c),
{
    ('\t' <= c && c <= '\r') || c == ' ' || c == '\u{85}' || c == '\u{a0}' || c == '\u{1680}' || (
    '\u{2000}' <= c && c <= '\u{200a}') || c == '\u{2028}' || c == '\u{2029}' || c == '\u{202f}'
        || c == '\u{205f}' || c == '\u{3000}'
}

/// The range of `v[lo..hi]` that remains after trimming whitespace.
pub fn trim_range(v: &Vec<char>, lo: usize, hi: usize) -> (r: (usize, usize))
    requires
        lo <= hi <= v.len(),
    ensures
        lo <= r.0 <= r.1 <= hi,
        v@.subrange(r.0 as int, r.1 as int) == trim(v@.subrange(lo as int, hi as int)),
{
    let mut a = lo;
    while a < hi && is_ws(v[a])
        invariant
            lo <= a <= hi <= v.len(),
            trim_start(v@.subrange(lo as int, hi as int)) == trim_start(
                v@.subrange(a as int, hi as int),
            ),
        decreases hi - a,
    {
        assert(v@.subrange(a as int, hi as int).drop_first() =~= v@.subrange(
            a + 1,
            hi as int,
        ));
        a = a + 1;
    }
    assert(trim_start(v@.subrange(a as int, hi as int)) == v@.subrange(a as int, hi as int));
    let mut b = hi;
    while b > a && is_ws(v[b - 1])
        invariant
            lo <= a <= b <= hi <= v.len(),
            trim_end(v@.subrange(a as int, hi as int)) == trim_end(
                v@.subrange(a as int, b as int),
            ),
        decreases b - a,
    {
        assert(v@.subrange(a as int, b as int).drop_last() =~= v@.subrange(
            a as int,
            b - 1,
        ));
        b = b - 1;
    }
    (a, b)
}

/// Whether `v[lo..hi]` starts with `prefix`.
pub fn starts_with_at(v: &Vec<char>, lo: usize, hi: usize, prefix: &Vec<char>) -> (b: bool)
    requires
        lo <= hi <= v.len(),
    ensures
        b == strip_prefix(v@.subrange(lo as int, hi as int), prefix@) is Some,
{
    let n = prefix.len();
    if n > hi - lo {
        return false;
    }
    let mut i: usize = 0;
    while i < n
        invariant
            n == prefix@.len(),
            n <= hi - lo,
            lo <= hi <= v.len(),
            0 <= i <= n,
            forall|j: int| 0 <= j < i ==> v@[lo + j] == prefix@[j],
        decreases n - i,
    {
        if v[lo + i] != prefix[i] {
            assert(v@.subrange(lo as int, hi as int).take(n as int)[i as int] != prefix@[i as int]);
            return false;
        }
        i = i + 1;
    }
    assert(v@.subrange(lo as int, hi as int).take(n as int) =~= prefix@);
    true
}

/// Index of the first `c` in `v[lo..hi]`, or `hi`.
pub fn find_char(v: &Vec<char>, lo: usize, hi: usize, c: char) -> (i: usize)
    requires
        lo <= hi <= v.len(),
    ensures
        lo <= i <= hi,
        i - lo == first_index(v@.subrange(lo as int, hi as int), c),
{
    let mut i = lo;
    while i < hi && v[i] != c
        invariant
            lo <= i <= hi <= v.len(),
            first_index(v@.subrange(lo as int, hi as int), c) == (i - lo) + first_index(
                v@.subrange(i as int, hi as int),
                c,
            ),
        decreases hi - i,
    {
        assert(v@.subrange(i as int, hi as int).drop_first() =~= v@.subrange(
            i + 1,
            hi as int,
        ));
        i = i + 1;
    }
    i
}

proof fn lemma_digits_value_push(ds: Seq<char>, c: char)
    ensures
        digits_value(ds.push(c)) == digits_value(ds) * 10 + ((c as int - '0' as int) as nat),
{
    assert(ds.push(c).drop_last() =~= ds);
}

/// `v[lo..hi]` parsed as an `i32`.
pub fn parse_i32_at(v: &Vec<char>, lo: usize, hi: usize) -> (r: Option<i32>)
    requires
        lo <= hi <= v.len(),
    ensures
        r == parse_i32(v@.subrange(lo as int, hi as int)),
{
    let ghost s = v@.subrange(lo as int, hi as int);
    if lo == hi {
        return None;
    }
    let first = v[lo];
    assert(s[0] == first);
    let signed = first == '+' || first == '-';
    let start = if signed {
        lo + 1
    } else {
        lo
    };
    let ghost ds = unsigned_part(s);
    assert(ds =~= v@.subrange(start as int, hi as int));
    if start == hi {
        return None;
    }
    let cap: u64 = 2147483649;
    let mut acc: u64 = 0;
    let mut i = start;
    while i < hi
        invariant
            lo <= start <= i <= hi <= v.len(),
            ds == v@.subrange(start as int, hi as int),
            s == v@.subrange(lo as int, hi as int),
            s.len() > 0,
            ds == unsigned_part(s),
            cap == 2147483649,
            forall|j: int| start <= j < i ==> is_digit(#[trigger] v@[j]),
            acc <= cap,
            acc == (if digits_value(v@.subrange(start as int, i as int)) < cap {
                digits_value(v@.subrange(start as int, i as int))
            } else {
                cap as nat
            }),
        decreases hi - i,
    {
        let c = v[i];
        if !('0' <= c && c <= '9') {
            assert(!is_digit(ds[i - start]));
            return None;
        }
        assert(is_digit(c));
        let d = (c as u32 - '0' as u32) as u64;
        assert(d <= 9);
        proof {
            assert(v@.subrange(start as int, i + 1) =~= v@.subrange(start as int, i as int).push(
                c,
            ));
            lemma_digits_value_push(v@.subrange(start as int, i as int), c);
        }
        let next = acc * 10 + d;
        acc = if next < cap {
            next
        } else {
            cap
        };
        i = i + 1;
    }
    assert(v@.subrange(start as int, hi as int) =~= ds);
    if first == '-' {
        if acc <= 2147483648 {
            let neg = 0i64 - (acc as i64);
            Some(neg as i32)
        } else {
            None
        }
    } else {
        if acc <= 2147483647 {
            Some(acc as i32)
        } else {
            None
        }
    }
}


/// The ASCII digit for `d`.
pub open spec fn digit_char(d: nat) -> char {
    (48 + d) as char
}

/// The decimal digits of `n`, without leading zeros.
pub open spec fn digits_of(n: nat) -> Seq<char>
    decreases n,
{
    if n < 10 {
        seq![digit_char(n)]
    } else {
        digits_of(n / 10).push(digit_char(n % 10))
    }
}

/// `n` written in decimal, as `to_string` writes an integer.
pub open spec fn decimal(n: int) -> Seq<char> {
    if n < 0 {
        seq!['-'] + digits_of((-n) as nat)
    } else {
        digits_of(n as nat)
    }
}

proof fn lemma_digit_char(d: nat)
    requires
        d < 10,
    ensures
        digit_char(d) as int == 48 + d,
        is_digit(digit_char(d)),
{
    assert(((48 + d) as char) as int == 48 + d);
}

proof fn lemma_digits_of(n: nat)
    ensures
        digits_of(n).len() >= 1,
        all_digits(digits_of(n)),
        digits_value(digits_of(n)) == n,
    decreases n,
{
    lemma_digit_char(n % 10);
    assert('0' as int == 48);
    let ds = digits_of(n);
    assert(digits_value(ds) == digits_value(ds.drop_last()) * 10 + ((ds.last() as int - '0' as int) as nat));
    if n < 10 {
        assert(digits_of(n).drop_last() =~= Seq::<char>::empty());
        assert(digits_of(n).last() == digit_char(n));
    } else {
        lemma_digits_of(n / 10);
        let d = digits_of(n / 10);
        assert(digits_of(n).drop_last() =~= d);
        assert(digits_of(n).last() == digit_char(n % 10));
        assert((n / 10) * 10 + n % 10 == n) by (nonlinear_arith);
        assert forall|i: int| 0 <= i < digits_of(n).len() implies is_digit(#[trigger] digits_of(n)[i]) by {
            if i < d.len() {
                assert(digits_of(n)[i] == d[i]);
            }
        }
    }
}

/// Law: an `i32` written in decimal parses back to itself.
pub proof fn lemma_parse_decimal_roundtrip(n: i32)
    ensures
        parse_i32(decimal(n as int)) == Some(n),
{
    let s = decimal(n as int);
    if n < 0 {
        let d = digits_of((-n) as nat);
        lemma_digits_of((-n) as nat);
        assert(s[0] == '-');
        assert(unsigned_part(s) =~= d);
    } else {
        lemma_digits_of(n as nat);
        assert(is_digit(s[0]));
        assert(unsigned_part(s) == s);
    }
}

/// Every character of `decimal(n)` is a digit or `-`; the text is not empty,
/// does not start with whitespace and ends in a digit.
pub proof fn lemma_decimal_chars(n: int)
    ensures
        decimal(n).len() >= 1,
        forall|i: int| 0 <= i < decimal(n).len() ==> is_digit(#[trigger] decimal(n)[i]) || decimal(n)[i] == '-',
        !is_whitespace(decimal(n)[0]),
        is_digit(decimal(n).last()),
{
    let m: nat = if n < 0 {
        (-n) as nat
    } else {
        n as nat
    };
    lemma_digits_of(m);
    let d = digits_of(m);
    if n < 0 {
        let s = seq!['-'] + d;
        assert(decimal(n) == s);
        assert forall|i: int| 0 <= i < s.len() implies is_digit(#[trigger] s[i]) || s[i] == '-' by {
            if i > 0 {
                assert(s[i] == d[i - 1]);
            }
        }
        assert(s.last() == d.last());
    } else {
        assert(decimal(n) == d);
    }
}

/// `first_index` skips a prefix that does not hold `c`.
pub proof fn lemma_first_index_append(a: Seq<char>, b: Seq<char>, c: char)
    requires
        forall|i: int| 0 <= i < a.len() ==> a[i] != c,
    ensures
        first_index(a + b, c) == a.len() + first_index(b, c),
    decreases a.len(),
{
    if a.len() > 0 {
        assert((a + b).drop_first() =~= a.drop_first() + b);
        assert((a + b)[0] == a[0]);
        lemma_first_index_append(a.drop_first(), b, c);
    } else {
        assert(a + b =~= b);
    }
}

/// Trimming leaves a text alone that neither starts nor ends with whitespace.
pub proof fn lemma_trim_identity(s: Seq<char>)
    requires
        s.len() > 0,
        !is_whitespace(s[0]),
        !is_whitespace(s.last()),
    ensures
        trim(s) == s,
{
}

/// Appends `c` to `s` (`String::push`).
#[verifier::external_body]
pub(crate) fn push_char(s: &mut String, c: char)
    ensures
        final(s)@ == old(s)@.push(c),
{
    s.push(c);
}

fn push_digits(s: &mut String, n: u64)
    ensures
        final(s)@ == old(s)@ + digits_of(n as nat),
    decreases n,
{
    if n >= 10 {
        push_digits(s, n / 10);
    }
    let d = (n % 10) as u8;
    let c = (48u8 + d) as char;
    push_char(s, c);
    proof {
        if n >= 10 {
            assert(digits_of(n as nat) == digits_of((n / 10) as nat).push(digit_char((n % 10) as nat)));
        }
    }
    assert(final(s)@ =~= old(s)@ + digits_of(n as nat));
}

/// `n` written in decimal.
pub fn decimal_string(n: i64) -> (s: String)
    requires
        n > i64::MIN,
    ensures
        s@ == decimal(n as int),
{
    let mut s = String::new();
    if n < 0 {
        push_char(&mut s, '-');
        push_digits(&mut s, (-n) as u64);
    } else {
        push_digits(&mut s, n as u64);
    }
    s
}


/// Index of the first whitespace character in `s`, or `s.len()`.
pub open spec fn first_ws(s: Seq<char>) -> nat
    decreases s.len(),
{
    if s.len() == 0 {
        0
    } else if is_whitespace(s[0]) {
        0
    } else {
        1 + first_ws(s.drop_first())
    }
}

pub proof fn lemma_first_ws_bound(s: Seq<char>)
    ensures
        first_ws(s) <= s.len(),
        s.len() > 0 && !is_whitespace(s[0]) ==> first_ws(s) >= 1,
    decreases s.len(),
{
    if s.len() > 0 {
        lemma_first_ws_bound(s.drop_first());
    }
}

/// The whitespace-separated words of `s`, as `str::split_whitespace` yields
/// them.
pub open spec fn words(s: Seq<char>) -> Seq<Seq<char>>
    decreases s.len(),
{
    if s.len() == 0 {
        Seq::empty()
    } else if is_whitespace(s[0]) {
        words(s.drop_first())
    } else {
        proof {
            lemma_first_ws_bound(s);
        }
        seq![s.take(first_ws(s) as int)] + words(s.skip(first_ws(s) as int))
    }
}

/// No character of `s` is whitespace.
pub open spec fn no_whitespace(s: Seq<char>) -> bool {
    forall|i: int| 0 <= i < s.len() ==> !is_whitespace(#[trigger] s[i])
}

/// `first_ws` skips a prefix without whitespace.
pub proof fn lemma_first_ws_append(a: Seq<char>, b: Seq<char>)
    requires
        no_whitespace(a),
    ensures
        first_ws(a + b) == a.len() + first_ws(b),
    decreases a.len(),
{
    if a.len() > 0 {
        assert((a + b).drop_first() =~= a.drop_first() + b);
        assert((a + b)[0] == a[0]);
        assert(no_whitespace(a.drop_first())) by {
            assert forall|i: int| 0 <= i < a.drop_first().len() implies !is_whitespace(
                #[trigger] a.drop_first()[i],
            ) by {
                assert(a.drop_first()[i] == a[i + 1]);
            }
        }
        lemma_first_ws_append(a.drop_first(), b);
    } else {
        assert(a + b =~= b);
    }
}

/// A word without whitespace, followed by nothing or by whitespace, is the
/// first of the words.
pub proof fn lemma_words_lead(w: Seq<char>, r: Seq<char>)
    requires
        w.len() > 0,
        no_whitespace(w),
        r.len() == 0 || is_whitespace(r[0]),
    ensures
        words(w + r) == seq![w] + words(r),
{
    let s = w + r;
    lemma_first_ws_append(w, r);
    assert(s[0] == w[0]);
    assert(first_ws(r) == 0);
    assert(s.take(w.len() as int) =~= w);
    assert(s.skip(w.len() as int) =~= r);
}

/// Law: `words` splits a line of two whitespace-free words joined by a
/// space, followed by nothing or by whitespace, into those two words first.
pub proof fn lemma_words_second(p: Seq<char>, w: Seq<char>, r: Seq<char>)
    requires
        p.len() > 0,
        no_whitespace(p),
        w.len() > 0,
        no_whitespace(w),
        r.len() == 0 || is_whitespace(r[0]),
    ensures
        words(p + seq![' '] + w + r).len() >= 2,
        words(p + seq![' '] + w + r)[0] == p,
        words(p + seq![' '] + w + r)[1] == w,
{
    let rest = seq![' '] + w + r;
    assert(p + seq![' '] + w + r =~= p + rest);
    lemma_words_lead(p, rest);
    assert(rest[0] == ' ');
    assert(rest.drop_first() =~= w + r);
    assert(words(rest) == words(w + r));
    lemma_words_lead(w, r);
}

/// The first whitespace-free position at or after `lo` in `v[lo..hi]`; the
/// words from there are those of the whole range.
pub fn skip_ws(v: &Vec<char>, lo: usize, hi: usize) -> (i: usize)
    requires
        lo <= hi <= v.len(),
    ensures
        lo <= i <= hi,
        i < hi ==> !is_whitespace(v@[i as int]),
        words(v@.subrange(lo as int, hi as int)) == words(v@.subrange(i as int, hi as int)),
{
    let mut i = lo;
    while i < hi && is_ws(v[i])
        invariant
            lo <= i <= hi <= v.len(),
            words(v@.subrange(lo as int, hi as int)) == words(v@.subrange(i as int, hi as int)),
        decreases hi - i,
    {
        assert(v@.subrange(i as int, hi as int).drop_first() =~= v@.subrange(i + 1, hi as int));
        i = i + 1;
    }
    i
}

/// The end of the word that starts at `lo` in `v[lo..hi]`.
pub fn word_end(v: &Vec<char>, lo: usize, hi: usize) -> (j: usize)
    requires
        lo < hi <= v.len(),
        !is_whitespace(v@[lo as int]),
    ensures
        lo < j <= hi,
        words(v@.subrange(lo as int, hi as int)) == seq![v@.subrange(lo as int, j as int)] + words(
            v@.subrange(j as int, hi as int),
        ),
{
    let mut j = lo;
    while j < hi && !is_ws(v[j])
        invariant
            lo <= j <= hi <= v.len(),
            first_ws(v@.subrange(lo as int, hi as int)) == (j - lo) + first_ws(
                v@.subrange(j as int, hi as int),
            ),
        decreases hi - j,
    {
        assert(v@.subrange(j as int, hi as int).drop_first() =~= v@.subrange(j + 1, hi as int));
        j = j + 1;
    }
    let ghost s = v@.subrange(lo as int, hi as int);
    assert(s.take(j - lo) =~= v@.subrange(lo as int, j as int));
    assert(s.skip(j - lo) =~= v@.subrange(j as int, hi as int));
    j
}

/// The lowercase hexadecimal digit for `d`.
pub open spec fn hex_char(d: nat) -> char {
    if d < 10 {
        (48 + d) as char
    } else {
        (87 + d) as char
    }
}

/// The last `width` hexadecimal digits of `n`, zero-padded.
pub open spec fn hex_fixed(n: nat, width: nat) -> Seq<char>
    decreases width,
{
    if width == 0 {
        Seq::empty()
    } else {
        hex_fixed(n / 16, (width - 1) as nat).push(hex_char(n % 16))
    }
}

fn push_hex(s: &mut String, n: u32, width: u32)
    ensures
        final(s)@ == old(s)@ + hex_fixed(n as nat, width as nat),
    decreases width,
{
    if width > 0 {
        push_hex(s, n / 16, width - 1);
        let d = (n % 16) as u8;
        let c = if d < 10 {
            (48u8 + d) as char
        } else {
            (87u8 + d) as char
        };
        push_char(s, c);
    }
    assert(final(s)@ =~= old(s)@ + hex_fixed(n as nat, width as nat));
}

/// `n` in lowercase hexadecimal, zero-padded to eight digits (`{:08x}`).
pub fn hex8_string(n: u32) -> (s: String)
    ensures
        s@ == hex_fixed(n as nat, 8),
{
    let mut s = String::new();
    push_hex(&mut s, n, 8);
    s
}

} // verus!
