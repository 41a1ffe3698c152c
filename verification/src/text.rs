//! Character-sequence helpers shared by the protocol modules: splitting,
//! trimming, decimal numbers, and conversions between `str` and `Vec<char>`.

use vstd::prelude::*;
use vstd::utf8::{decode_utf8, valid_utf8};

verus! {

// ---------------------------------------------------------------------------
// Conversions
// ---------------------------------------------------------------------------

/// Appends one character to a string.
///
/// Calls `String::push`, whose documentation states that it appends the
/// given `char` to the end of the string.
#[verifier::external_body]
fn push_char(s: &mut String, c: char)
    ensures
        final(s)@ == old(s)@.push(c),
{
    s.push(c)
}

/// Decodes UTF-8 text.
///
/// Calls `std::str::from_utf8`, which accepts exactly the well-formed UTF-8
/// byte sequences (no overlong forms, no surrogates), and copies the text.
#[verifier::external_body]
fn utf8_text(bytes: &[u8]) -> (r: Option<String>)
    ensures
        r is Some <==> valid_utf8(bytes@),
        r matches Some(s) ==> s@ == decode_utf8(bytes@),
{
    match std::str::from_utf8(bytes) {
        Ok(s) => Some(s.to_string()),
        Err(_) => None,
    }
}

/// The text that the bytes `bytes` encode in UTF-8, when they are
/// well-formed UTF-8.
pub fn decode_text(bytes: &[u8]) -> (r: Option<String>)
    ensures
        r is Some <==> valid_utf8(bytes@),
        r matches Some(s) ==> s@ == decode_utf8(bytes@),
{
    utf8_text(bytes)
}

/// The characters of `s`, in order.
pub fn to_chars(s: &str) -> (v: Vec<char>)
    ensures
        v@ == s@,
{
    let n = s.unicode_len();
    let mut v: Vec<char> = Vec::new();
    let mut i: usize = 0;
    while i < n
        invariant
            n == s@.len(),
            i <= n,
            v@ == s@.take(i as int),
        decreases n - i,
    {
        let c = s.get_char(i);
        v.push(c);
        i = i + 1;
        assert(v@ =~= s@.take(i as int));
    }
    assert(v@ =~= s@);
    v
}

/// The string made of the characters of `v`, in order.
pub fn from_chars(v: &Vec<char>) -> (s: String)
    ensures
        s@ == v@,
{
    let mut s = String::new();
    let mut i: usize = 0;
    while i < v.len()
        invariant
            i <= v.len(),
            s@ == v@.take(i as int),
        decreases v.len() - i,
    {
        push_char(&mut s, v[i]);
        i = i + 1;
        assert(s@ =~= v@.take(i as int));
    }
    assert(s@ =~= v@);
    s
}

/// Appends the characters of `lit` to `v`.
pub fn extend_with(v: &mut Vec<char>, lit: &str)
    ensures
        final(v)@ == old(v)@ + lit@,
{
    let n = lit.unicode_len();
    let mut i: usize = 0;
    while i < n
        invariant
            n == lit@.len(),
            i <= n,
            v@ == old(v)@ + lit@.take(i as int),
        decreases n - i,
    {
        v.push(lit.get_char(i));
        i = i + 1;
        assert(v@ =~= old(v)@ + lit@.take(i as int));
    }
    assert(lit@.take(n as int) =~= lit@);
}

/// Appends the characters of `w` to `v`.
pub fn extend_chars(v: &mut Vec<char>, w: &Vec<char>)
    ensures
        final(v)@ == old(v)@ + w@,
{
    let mut i: usize = 0;
    while i < w.len()
        invariant
            i <= w.len(),
            v@ == old(v)@ + w@.take(i as int),
        decreases w.len() - i,
    {
        v.push(w[i]);
        i = i + 1;
        assert(v@ =~= old(v)@ + w@.take(i as int));
    }
    assert(w@.take(w.len() as int) =~= w@);
}

/// Whether `v` holds exactly the characters of `lit`.
pub fn equals_literal(v: &Vec<char>, lit: &str) -> (r: bool)
    ensures
        r == (v@ == lit@),
{
    let n = lit.unicode_len();
    if v.len() != n {
        return false;
    }
    let mut i: usize = 0;
    while i < n
        invariant
            n == lit@.len(),
            n == v@.len(),
            i <= n,
            forall|j: int| 0 <= j < i ==> v@[j] == lit@[j],
        decreases n - i,
    {
        if v[i] != lit.get_char(i) {
            return false;
        }
        i = i + 1;
    }
    assert(v@ =~= lit@);
    true
}

/// Whether the sequences `a` and `b` are equal.
pub fn chars_equal(a: &Vec<char>, b: &Vec<char>) -> (r: bool)
    ensures
        r == (a@ == b@),
{
    if a.len() != b.len() {
        return false;
    }
    let mut i: usize = 0;
    while i < a.len()
        invariant
            a.len() == b.len(),
            i <= a.len(),
            forall|j: int| 0 <= j < i ==> a@[j] == b@[j],
        decreases a.len() - i,
    {
        if a[i] != b[i] {
            return false;
        }
        i = i + 1;
    }
    assert(a@ =~= b@);
    true
}

/// Whether `c` occurs in `v`.
pub fn contains_char(v: &Vec<char>, c: char) -> (r: bool)
    ensures
        r == v@.contains(c),
{
    let mut i: usize = 0;
    while i < v.len()
        invariant
            i <= v.len(),
            forall|j: int| 0 <= j < i ==> v@[j] != c,
        decreases v.len() - i,
    {
        if v[i] == c {
            assert(v@[i as int] == c);
            return true;
        }
        i = i + 1;
    }
    false
}

/// Whether `v` begins with the characters of `lit`.
pub fn starts_with_literal(v: &Vec<char>, lit: &str) -> (r: bool)
    ensures
        r == (lit@.len() <= v@.len() && v@.take(lit@.len() as int) == lit@),
{
    let n = lit.unicode_len();
    if v.len() < n {
        return false;
    }
    let mut i: usize = 0;
    while i < n
        invariant
            n == lit@.len(),
            n <= v@.len(),
            i <= n,
            forall|j: int| 0 <= j < i ==> v@[j] == lit@[j],
        decreases n - i,
    {
        if v[i] != lit.get_char(i) {
            assert(v@.take(n as int)[i as int] != lit@[i as int]);
            return false;
        }
        i = i + 1;
    }
    assert(v@.take(n as int) =~= lit@);
    true
}

/// The characters of `v` from position `from` on.
pub fn suffix_from(v: &Vec<char>, from: usize) -> (w: Vec<char>)
    requires
        from <= v.len(),
    ensures
        w@ == v@.skip(from as int),
{
    let mut w: Vec<char> = Vec::new();
    let mut i: usize = from;
    while i < v.len()
        invariant
            from <= i <= v.len(),
            w@ == v@.subrange(from as int, i as int),
        decreases v.len() - i,
    {
        w.push(v[i]);
        i = i + 1;
        assert(w@ =~= v@.subrange(from as int, i as int));
    }
    assert(w@ =~= v@.skip(from as int));
    w
}

/// The characters of `v` at positions `from` up to, not including, `to`.
pub fn slice_of(v: &Vec<char>, from: usize, to: usize) -> (w: Vec<char>)
    requires
        from <= to <= v.len(),
    ensures
        w@ == v@.subrange(from as int, to as int),
{
    let mut w: Vec<char> = Vec::new();
    let mut i: usize = from;
    while i < to
        invariant
            from <= i <= to,
            to <= v.len(),
            w@ == v@.subrange(from as int, i as int),
        decreases to - i,
    {
        w.push(v[i]);
        i = i + 1;
        assert(w@ =~= v@.subrange(from as int, i as int));
    }
    w
}

// ---------------------------------------------------------------------------
// Splitting
// ---------------------------------------------------------------------------

/// The fields of `s` between the occurrences of `sep`, as `str::split` with a
/// one-character pattern yields them: `n` separators give `n + 1` fields,
/// empty ones included.
pub open spec fn split_fields(s: Seq<char>, sep: char) -> Seq<Seq<char>>
    decreases s.len(),
{
    if s.len() == 0 {
        seq![Seq::<char>::empty()]
    } else {
        let init = split_fields(s.drop_last(), sep);
        if s.last() == sep {
            init.push(Seq::<char>::empty())
        } else {
            init.update(init.len() - 1, init.last().push(s.last()))
        }
    }
}

/// Splitting always yields at least one field.
pub proof fn lemma_split_fields_nonempty(s: Seq<char>, sep: char)
    ensures
        split_fields(s, sep).len() >= 1,
    decreases s.len(),
{
    if s.len() > 0 {
        lemma_split_fields_nonempty(s.drop_last(), sep);
    }
}

/// The fields of `v` separated by `sep`; see [`split_fields`].
pub fn split_on(v: &Vec<char>, sep: char) -> (fields: Vec<Vec<char>>)
    ensures
        fields@.map_values(|f: Vec<char>| f@) == split_fields(v@, sep),
{
    let mut done: Vec<Vec<char>> = Vec::new();
    let mut cur: Vec<char> = Vec::new();
    let mut i: usize = 0;
    while i < v.len()
        invariant
            i <= v.len(),
            done@.map_values(|f: Vec<char>| f@).push(cur@) == split_fields(
                v@.take(i as int),
                sep,
            ),
        decreases v.len() - i,
    {
        let ghost before = done@.map_values(|f: Vec<char>| f@).push(cur@);
        proof {
            assert(v@.take(i + 1).drop_last() =~= v@.take(i as int));
            lemma_split_fields_nonempty(v@.take(i as int), sep);
        }
        if v[i] == sep {
            done.push(cur);
            cur = Vec::new();
            assert(done@.map_values(|f: Vec<char>| f@).push(cur@) =~= before.push(
                Seq::<char>::empty(),
            ));
        } else {
            cur.push(v[i]);
            assert(done@.map_values(|f: Vec<char>| f@).push(cur@) =~= before.update(
                before.len() - 1,
                before.last().push(v@[i as int]),
            ));
        }
        i = i + 1;
    }
    assert(v@.take(v.len() as int) =~= v@);
    let ghost before = done@.map_values(|f: Vec<char>| f@).push(cur@);
    done.push(cur);
    assert(done@.map_values(|f: Vec<char>| f@) =~= before);
    done
}

/// Position `i` holds the first occurrence of `sep` in `s`.
pub open spec fn is_first_sep(s: Seq<char>, sep: char, i: int) -> bool {
    &&& 0 <= i < s.len()
    &&& s[i] == sep
    &&& forall|j: int| 0 <= j < i ==> s[j] != sep
}

/// What `str::split_once` with a one-character pattern returns: the text
/// before the first `sep` and the text after it, or nothing when `sep` does
/// not occur.
pub open spec fn split_once(s: Seq<char>, sep: char) -> Option<(Seq<char>, Seq<char>)> {
    if exists|i: int| is_first_sep(s, sep, i) {
        let i = choose|i: int| is_first_sep(s, sep, i);
        Some((s.take(i), s.skip(i + 1)))
    } else {
        None
    }
}

/// The first occurrence of a separator is unique.
pub proof fn lemma_first_sep_unique(s: Seq<char>, sep: char, i: int, j: int)
    requires
        is_first_sep(s, sep, i),
        is_first_sep(s, sep, j),
    ensures
        i == j,
{
}

/// Splitting `a`, `sep`, `b` once on `sep` gives back `a` and `b` when `a`
/// holds no `sep`.
pub proof fn lemma_split_once_join(a: Seq<char>, sep: char, b: Seq<char>)
    requires
        !a.contains(sep),
    ensures
        split_once(a + seq![sep] + b, sep) == Some((a, b)),
{
    let s = a + seq![sep] + b;
    assert(is_first_sep(s, sep, a.len() as int)) by {
        assert forall|j: int| 0 <= j < a.len() implies s[j] != sep by {
            assert(s[j] == a[j]);
        }
    }
    let i = choose|i: int| is_first_sep(s, sep, i);
    lemma_first_sep_unique(s, sep, i, a.len() as int);
    assert(s.take(i) =~= a);
    assert(s.skip(i + 1) =~= b);
}

/// `v` split once at the first `sep`; see [`split_once`].
pub fn split_once_at(v: &Vec<char>, sep: char) -> (r: Option<(Vec<char>, Vec<char>)>)
    ensures
        match (r, split_once(v@, sep)) {
            (Some((a, b)), Some((sa, sb))) => a@ == sa && b@ == sb,
            (None, None) => true,
            _ => false,
        },
{
    let mut i: usize = 0;
    while i < v.len()
        invariant
            i <= v.len(),
            forall|j: int| 0 <= j < i ==> v@[j] != sep,
        decreases v.len() - i,
    {
        if v[i] == sep {
            proof {
                assert(is_first_sep(v@, sep, i as int));
                let k = choose|k: int| is_first_sep(v@, sep, k);
                lemma_first_sep_unique(v@, sep, k, i as int);
            }
            let a = slice_of(v, 0, i);
            let b = suffix_from(v, i + 1);
            assert(a@ =~= v@.take(i as int));
            return Some((a, b));
        }
        i = i + 1;
    }
    None
}

// ---------------------------------------------------------------------------
// Trimming
// ---------------------------------------------------------------------------

/// The characters with the Unicode `White_Space` property, which
/// `char::is_whitespace` tests for.
pub open spec fn is_whitespace(c: char) -> bool {
    let u = c as u32;
    ||| 0x09 <= u <= 0x0d
    ||| u == 0x20
    ||| u == 0x85
    ||| u == 0xa0
    ||| u == 0x1680
    ||| 0x2000 <= u <= 0x200a
    ||| u == 0x2028
    ||| u == 0x2029
    ||| u == 0x202f
    ||| u == 0x205f
    ||| u == 0x3000
}

/// Whether `c` is a whitespace character; see [`is_whitespace`].
pub fn char_is_whitespace(c: char) -> (r: bool)
    ensures
        r == is_whitespace(c),
{
    let u = c as u32;
    (0x09 <= u && u <= 0x0d) || u == 0x20 || u == 0x85 || u == 0xa0 || u == 0x1680 || (0x2000
        <= u && u <= 0x200a) || u == 0x2028 || u == 0x2029 || u == 0x202f || u == 0x205f || u
        == 0x3000
}

/// `s` without its leading whitespace.
pub open spec fn trim_start(s: Seq<char>) -> Seq<char>
    decreases s.len(),
{
    if s.len() > 0 && is_whitespace(s[0]) {
        trim_start(s.drop_first())
    } else {
        s
    }
}

/// `s` without its trailing whitespace.
pub open spec fn trim_end(s: Seq<char>) -> Seq<char>
    decreases s.len(),
{
    if s.len() > 0 && is_whitespace(s.last()) {
        trim_end(s.drop_last())
    } else {
        s
    }
}

/// `s` without leading and trailing whitespace, as `str::trim` returns it.
pub open spec fn trim(s: Seq<char>) -> Seq<char> {
    trim_end(trim_start(s))
}

proof fn lemma_trim_start_at(s: Seq<char>, a: int)
    requires
        0 <= a <= s.len(),
        forall|j: int| 0 <= j < a ==> is_whitespace(s[j]),
        a == s.len() || !is_whitespace(s[a]),
    ensures
        trim_start(s) == s.skip(a),
    decreases a,
{
    if a == 0 {
        assert(s.skip(0) =~= s);
    } else {
        let t = s.drop_first();
        assert forall|j: int| 0 <= j < a - 1 implies is_whitespace(t[j]) by {
            assert(t[j] == s[j + 1]);
        }
        lemma_trim_start_at(t, a - 1);
        assert(t.skip(a - 1) =~= s.skip(a));
    }
}

proof fn lemma_trim_end_at(s: Seq<char>, b: int)
    requires
        0 <= b <= s.len(),
        forall|j: int| b <= j < s.len() ==> is_whitespace(s[j]),
        b == 0 || !is_whitespace(s[b - 1]),
    ensures
        trim_end(s) == s.take(b),
    decreases s.len() - b,
{
    if b == s.len() {
        assert(s.take(b) =~= s);
    } else {
        let t = s.drop_last();
        lemma_trim_end_at(t, b);
        assert(t.take(b) =~= s.take(b));
    }
}

/// `v` without leading and trailing whitespace; see [`trim`].
pub fn trim_chars(v: &Vec<char>) -> (w: Vec<char>)
    ensures
        w@ == trim(v@),
{
    let mut a: usize = 0;
    while a < v.len() && char_is_whitespace(v[a])
        invariant
            a <= v.len(),
            forall|j: int| 0 <= j < a ==> is_whitespace(v@[j]),
        decreases v.len() - a,
    {
        a = a + 1;
    }
    proof {
        lemma_trim_start_at(v@, a as int);
    }
    let mut b: usize = v.len();
    while b > a && char_is_whitespace(v[b - 1])
        invariant
            a <= b <= v.len(),
            forall|j: int| b <= j < v.len() ==> is_whitespace(v@[j]),
        decreases b,
    {
        b = b - 1;
    }
    let ghost t = v@.skip(a as int);
    proof {
        assert forall|j: int| b - a <= j < t.len() implies is_whitespace(t[j]) by {
            assert(t[j] == v@[j + a]);
        }
        if b > a {
            assert(t[b - a - 1] == v@[b - 1]);
        }
        lemma_trim_end_at(t, b - a);
        assert(t.take(b - a) =~= v@.subrange(a as int, b as int));
    }
    slice_of(v, a, b)
}

/// `s` without the carriage returns and line feeds at its end, as
/// `str::trim_end_matches(['\r', '\n'])` returns it.
pub open spec fn trim_line_end(s: Seq<char>) -> Seq<char>
    decreases s.len(),
{
    if s.len() > 0 && (s.last() == '\r' || s.last() == '\n') {
        trim_line_end(s.drop_last())
    } else {
        s
    }
}

/// `v` without the carriage returns and line feeds at its end; see
/// [`trim_line_end`].
pub fn trim_line_end_chars(v: &Vec<char>) -> (w: Vec<char>)
    ensures
        w@ == trim_line_end(v@),
{
    let mut b: usize = v.len();
    assert(v@.take(v.len() as int) =~= v@);
    while b > 0 && (v[b - 1] == '\r' || v[b - 1] == '\n')
        invariant
            b <= v.len(),
            trim_line_end(v@) == trim_line_end(v@.take(b as int)),
        decreases b,
    {
        assert(v@.take(b as int).drop_last() =~= v@.take(b - 1));
        b = b - 1;
    }
    slice_of(v, 0, b)
}

// ---------------------------------------------------------------------------
// Decimal numbers
// ---------------------------------------------------------------------------

/// The ASCII digits, indexed by their value.
pub open spec fn digit_chars() -> Seq<char> {
    seq!['0', '1', '2', '3', '4', '5', '6', '7', '8', '9']
}

/// Whether `c` is an ASCII decimal digit.
pub open spec fn is_digit(c: char) -> bool {
    '0' <= c <= '9'
}

/// The value of the ASCII digit `c`.
pub open spec fn digit_value(c: char) -> nat {
    (c as u32 - '0' as u32) as nat
}

/// The value of the digit string `s`, most significant digit first.
pub open spec fn digits_value(s: Seq<char>) -> nat
    decreases s.len(),
{
    if s.len() == 0 {
        0
    } else {
        digits_value(s.drop_last()) * 10 + digit_value(s.last())
    }
}

/// The decimal representation of `n`, without leading zeros, as `{}`
/// formats an unsigned integer.
pub open spec fn decimal(n: nat) -> Seq<char>
    decreases n,
{
    if n < 10 {
        seq![digit_chars()[n as int]]
    } else {
        decimal(n / 10).push(digit_chars()[(n % 10) as int])
    }
}

/// `s` without one leading `+`, if it has one.
pub open spec fn unsigned_digits(s: Seq<char>) -> Seq<char> {
    if s.len() > 0 && s[0] == '+' {
        s.drop_first()
    } else {
        s
    }
}

/// Every character of `s` is an ASCII digit.
pub open spec fn all_digits(s: Seq<char>) -> bool {
    forall|i: int| 0 <= i < s.len() ==> is_digit(#[trigger] s[i])
}

/// The unsigned 32-bit number that `str::parse::<u32>` reads from `s`: an
/// optional `+`, then one or more ASCII digits whose value fits in 32 bits.
pub open spec fn parse_u32(s: Seq<char>) -> Option<u32> {
    let d = unsigned_digits(s);
    if d.len() > 0 && all_digits(d) && digits_value(d) <= u32::MAX {
        Some(digits_value(d) as u32)
    } else {
        None
    }
}

fn digit_char(d: u64) -> (c: char)
    requires
        d < 10,
    ensures
        c == digit_chars()[d as int],
{
    match d {
        0 => '0',
        1 => '1',
        2 => '2',
        3 => '3',
        4 => '4',
        5 => '5',
        6 => '6',
        7 => '7',
        8 => '8',
        _ => '9',
    }
}

/// Appends the decimal representation of `n` to `v`.
pub fn push_decimal(v: &mut Vec<char>, n: u64)
    ensures
        final(v)@ == old(v)@ + decimal(n as nat),
    decreases n,
{
    if n < 10 {
        v.push(digit_char(n));
        assert(final(v)@ =~= old(v)@ + decimal(n as nat));
    } else {
        push_decimal(v, n / 10);
        v.push(digit_char(n % 10));
        assert(final(v)@ =~= old(v)@ + decimal(n as nat));
    }
}

proof fn lemma_digits_value_prefix(s: Seq<char>, i: int)
    requires
        0 <= i <= s.len(),
    ensures
        digits_value(s.take(i)) <= digits_value(s),
    decreases s.len() - i,
{
    if i < s.len() {
        lemma_digits_value_prefix(s, i + 1);
        assert(s.take(i + 1).drop_last() =~= s.take(i));
    } else {
        assert(s.take(i) =~= s);
    }
}

/// Reads an unsigned 32-bit number from `v`; see [`parse_u32`].
pub fn parse_u32_chars(v: &Vec<char>) -> (r: Option<u32>)
    ensures
        r == parse_u32(v@),
{
    let start: usize = if v.len() > 0 && v[0] == '+' {
        1
    } else {
        0
    };
    let ghost d = v@.skip(start as int);
    assert(d =~= unsigned_digits(v@));
    if start == v.len() {
        return None;
    }
    let mut val: u64 = 0;
    let mut i: usize = start;
    while i < v.len()
        invariant
            start <= i <= v.len(),
            d == v@.skip(start as int),
            d == unsigned_digits(v@),
            forall|j: int| 0 <= j < i - start ==> is_digit(#[trigger] d[j]),
            val == digits_value(d.take(i - start)),
            val <= u32::MAX,
        decreases v.len() - i,
    {
        let c = v[i];
        if c < '0' || c > '9' {
            assert(!is_digit(d[i - start]));
            assert(!all_digits(d));
            return None;
        }
        let dv = (c as u32 - '0' as u32) as u64;
        proof {
            assert(d.take(i - start + 1).drop_last() =~= d.take(i - start));
            assert(d[i - start] == c);
        }
        val = val * 10 + dv;
        if val > 0xffff_ffff {
            proof {
                if all_digits(d) {
                    lemma_digits_value_prefix(d, i - start + 1);
                }
                assert(parse_u32(v@) is None);
            }
            return None;
        }
        i = i + 1;
    }
    assert(d.take(d.len() as int) =~= d);
    assert(all_digits(d));
    Some(val as u32)
}

/// Reading back the decimal representation of a 32-bit number gives the
/// number.
pub proof fn lemma_parse_decimal(n: u32)
    ensures
        parse_u32(decimal(n as nat)) == Some(n),
{
    lemma_decimal_digits(n as nat);
}

proof fn lemma_digit_chars(d: nat)
    requires
        d < 10,
    ensures
        is_digit(digit_chars()[d as int]),
        digit_value(digit_chars()[d as int]) == d,
{
    assert(digit_chars()[0] == '0');
    assert(digit_chars()[1] == '1');
    assert(digit_chars()[2] == '2');
    assert(digit_chars()[3] == '3');
    assert(digit_chars()[4] == '4');
    assert(digit_chars()[5] == '5');
    assert(digit_chars()[6] == '6');
    assert(digit_chars()[7] == '7');
    assert(digit_chars()[8] == '8');
    assert(digit_chars()[9] == '9');
}

proof fn lemma_decimal_digits(n: nat)
    ensures
        decimal(n).len() > 0,
        all_digits(decimal(n)),
        digits_value(decimal(n)) == n,
    decreases n,
{
    if n < 10 {
        lemma_digit_chars(n);
        assert(decimal(n).drop_last() =~= Seq::<char>::empty());
        assert(digits_value(Seq::<char>::empty()) == 0);
        assert(decimal(n).last() == digit_chars()[n as int]);
    } else {
        lemma_digit_chars(n % 10);
        lemma_decimal_digits(n / 10);
        let p = decimal(n / 10);
        assert(decimal(n).drop_last() =~= p);
        assert forall|i: int| 0 <= i < decimal(n).len() implies is_digit(
            #[trigger] decimal(n)[i],
        ) by {
            if i < p.len() {
                assert(decimal(n)[i] == p[i]);
            }
        }
        assert(decimal(n).last() == digit_chars()[(n % 10) as int]);
        assert(digits_value(decimal(n)) == digits_value(p) * 10 + digit_value(digit_chars()[(n % 10) as int]));
    }
}

} // verus!
