//! Text helpers shared by both front ends: building strings, comparing text,
//! rendering integers and decimal literals.

use vstd::prelude::*;
use vstd::utf8::*;
use vstd::std_specs::iter::IteratorSpec;

verus! {

broadcast use vstd::utf8::encode_utf8_decode_utf8;

/// Builds a `String` out of its characters, in order.
///
/// Trusted: std's `FromIterator<char>` for `String`, which yields exactly the
/// characters it is fed, in order.
#[verifier::external_body]
pub(crate) fn string_from_chars(cs: &Vec<char>) -> (s: String)
    ensures
        s@ == cs@,
{
    cs.iter().collect()
}

/// Decodes a byte vector as UTF-8.
///
/// Trusted: std's `String::from_utf8`, which succeeds exactly when the bytes are
/// valid UTF-8 and then holds the characters they encode.
#[verifier::external_body]
pub(crate) fn string_from_utf8(bytes: Vec<u8>) -> (r: Option<String>)
    ensures
        r is Some <==> valid_utf8(bytes@),
        r matches Some(s) ==> s@ == decode_utf8(bytes@),
{
    String::from_utf8(bytes).ok()
}

/// The text that std's `Debug` formatting produces for a string slice: the
/// characters in double quotes, with quotes, backslashes, control characters
/// and some non-printable characters escaped.
pub uninterp spec fn str_debug_text(s: Seq<char>) -> Seq<char>;

/// Renders a string slice the way `{:?}` does.
///
/// Trusted: std's `Debug` for `str`; its result is named `str_debug_text` and
/// depends on the characters alone. The escaping rules themselves are not stated.
#[verifier::external_body]
pub(crate) fn str_debug(s: &str) -> (r: String)
    ensures
        r@ == str_debug_text(s@),
{
    format!("{:?}", s)
}

/// Concatenates two strings.
pub fn concat2(a: &str, b: &str) -> (r: String)
    ensures
        r@ == a@ + b@,
{
    let mut s = String::from_str(a);
    s.append(b);
    s
}

/// Concatenates three strings.
pub fn concat3(a: &str, b: &str, c: &str) -> (r: String)
    ensures
        r@ == a@ + b@ + c@,
{
    let mut s = String::from_str(a);
    s.append(b);
    s.append(c);
    s
}

/// Concatenates four strings.
pub fn concat4(a: &str, b: &str, c: &str, d: &str) -> (r: String)
    ensures
        r@ == a@ + b@ + c@ + d@,
{
    let mut s = String::from_str(a);
    s.append(b);
    s.append(c);
    s.append(d);
    s
}

/// Exact equality of two strings.
pub fn same_text(a: &str, b: &str) -> (r: bool)
    ensures
        r == (a@ == b@),
{
    let x = a.as_bytes();
    let y = b.as_bytes();
    if x.len() != y.len() {
        return false;
    }
    let mut i: usize = 0;
    while i < x.len()
        invariant
            x@ == encode_utf8(a@),
            y@ == encode_utf8(b@),
            x@.len() == y@.len(),
            i <= x@.len(),
            forall|j: int| 0 <= j < i ==> x@[j] == y@[j],
        decreases x@.len() - i,
    {
        if x[i] != y[i] {
            return false;
        }
        i = i + 1;
    }
    assert(x@ =~= y@);
    assert(decode_utf8(encode_utf8(a@)) == a@);
    assert(decode_utf8(encode_utf8(b@)) == b@);
    true
}

/// ASCII lower-casing of a single byte.
pub open spec fn lower_byte(b: u8) -> u8 {
    if 65 <= b <= 90 {
        (b + 32) as u8
    } else {
        b
    }
}

/// ASCII lower-casing of a character; other characters are unchanged.
pub open spec fn lower_char(c: char) -> char {
    if 'A' <= c <= 'Z' {
        ((c as u32) + 32) as char
    } else {
        c
    }
}

/// ASCII lower-casing of every character of a text; other characters are
/// unchanged.
pub open spec fn lower_chars(s: Seq<char>) -> Seq<char> {
    s.map_values(|c: char| lower_char(c))
}

/// ASCII lower-casing of a character.
pub fn ascii_lower_char(c: char) -> (r: char)
    ensures
        r == lower_char(c),
{
    if 'A' <= c && c <= 'Z' {
        let b: u8 = c as u8;
        (b + 32) as char
    } else {
        c
    }
}

/// A copy of a text with its ASCII capitals lowered.
pub fn lower_string(s: &str) -> (r: String)
    ensures
        r@ == lower_chars(s@),
{
    broadcast use vstd::string::axiom_spec_iter;

    let mut chars = s.chars();
    let mut cs: Vec<char> = Vec::new();
    let ghost mut done: Seq<char> = Seq::empty();
    loop
        invariant
            done + chars.remaining() == s@,
            cs@ == lower_chars(done),
            chars.decrease() is Some,
        ensures
            cs@ == lower_chars(s@),
        decreases chars.decrease()->0,
    {
        match chars.next() {
            Some(c) => {
                proof {
                    assert(done.push(c) + chars.remaining() =~= s@);
                    done = done.push(c);
                }
                cs.push(ascii_lower_char(c));
                assert(cs@ =~= lower_chars(done));
            },
            None => {
                assert(done =~= s@);
                break;
            },
        }
    }
    string_from_chars(&cs)
}

/// Two texts match when their UTF-8 encodings agree byte by byte after ASCII
/// lower-casing (the meaning of std's `eq_ignore_ascii_case`).
pub open spec fn ascii_case_eq(a: Seq<char>, b: Seq<char>) -> bool {
    let x = encode_utf8(a);
    let y = encode_utf8(b);
    &&& x.len() == y.len()
    &&& forall|i: int| 0 <= i < x.len() ==> lower_byte(x[i]) == lower_byte(y[i])
}

/// ASCII case-insensitive comparison of two strings.
pub fn eq_ignore_case(a: &str, b: &str) -> (r: bool)
    ensures
        r == ascii_case_eq(a@, b@),
{
    let x = a.as_bytes();
    let y = b.as_bytes();
    if x.len() != y.len() {
        return false;
    }
    let mut i: usize = 0;
    while i < x.len()
        invariant
            x@ == encode_utf8(a@),
            y@ == encode_utf8(b@),
            x@.len() == y@.len(),
            i <= x@.len(),
            forall|j: int| 0 <= j < i ==> lower_byte(x@[j]) == lower_byte(y@[j]),
        decreases x@.len() - i,
    {
        if ascii_lower(x[i]) != ascii_lower(y[i]) {
            return false;
        }
        i = i + 1;
    }
    true
}

/// ASCII lower-casing of a byte.
pub fn ascii_lower(b: u8) -> (r: u8)
    ensures
        r == lower_byte(b),
{
    if 65 <= b && b <= 90 {
        b + 32
    } else {
        b
    }
}

/// The character of a decimal digit value.
pub open spec fn digit_char(d: nat) -> char {
    ((d % 10) + 48) as char
}

/// The decimal digits of a natural number, without leading zeros.
pub open spec fn decimal(n: nat) -> Seq<char>
    decreases n,
{
    if n < 10 {
        seq![digit_char(n)]
    } else {
        decimal(n / 10).push(digit_char(n % 10))
    }
}

/// The decimal text of an integer, with a leading `-` when it is negative.
pub open spec fn signed_decimal(n: int) -> Seq<char> {
    if n < 0 {
        seq!['-'] + decimal((-n) as nat)
    } else {
        decimal(n as nat)
    }
}

fn push_decimal(n: u64, out: &mut Vec<char>)
    ensures
        final(out)@ == old(out)@ + decimal(n as nat),
    decreases n,
{
    if n >= 10 {
        push_decimal(n / 10, out);
    }
    let d = (n % 10) as u8;
    out.push((d + 48) as char);
    proof {
        if n >= 10 {
            assert(decimal(n as nat) == decimal((n / 10) as nat).push(digit_char((n % 10) as nat)));
        }
        assert(((n % 10) as u8 + 48) as char == digit_char((n % 10) as nat));
    }
}

/// Renders an unsigned integer in decimal.
pub fn u64_text(n: u64) -> (s: String)
    ensures
        s@ == decimal(n as nat),
{
    let mut cs: Vec<char> = Vec::new();
    push_decimal(n, &mut cs);
    assert(cs@ =~= decimal(n as nat));
    string_from_chars(&cs)
}

/// Renders a `usize` in decimal.
pub fn usize_text(n: usize) -> (s: String)
    ensures
        s@ == decimal(n as nat),
{
    u64_text(n as u64)
}

/// Renders a signed integer in decimal.
pub fn i64_text(n: i64) -> (s: String)
    ensures
        s@ == signed_decimal(n as int),
{
    let mut cs: Vec<char> = Vec::new();
    if n < 0 {
        cs.push('-');
        let m: u64 = if n == i64::MIN {
            9223372036854775808u64
        } else {
            (-n) as u64
        };
        push_decimal(m, &mut cs);
        assert(cs@ =~= seq!['-'] + decimal((-(n as int)) as nat));
    } else {
        push_decimal(n as u64, &mut cs);
        assert(cs@ =~= decimal(n as nat));
    }
    string_from_chars(&cs)
}


// ---------------------------------------------------------------------------
// Decimal literals
// ---------------------------------------------------------------------------

/// The index of the first `.` at or after `i`, or the length.
pub open spec fn dot_from(t: Seq<char>, i: int) -> int
    decreases t.len() - i,
{
    if i < 0 || i >= t.len() || t[i] == '.' {
        i
    } else {
        dot_from(t, i + 1)
    }
}

/// The index of the first character at or after `i` and before `k` that is
/// not `0`, or `k`.
pub open spec fn skip_zeros_from(t: Seq<char>, i: int, k: int) -> int
    decreases k - i,
{
    if i < 0 || i >= k || t[i] != '0' {
        i
    } else {
        skip_zeros_from(t, i + 1, k)
    }
}

/// Going back from `j`, the index just past the last character before `j` and at
/// or after `lo` that is not `0`, or `lo`.
pub open spec fn trim_zeros_back(t: Seq<char>, lo: int, j: int) -> int
    decreases j - lo,
{
    if j <= lo || t[j - 1] != '0' {
        j
    } else {
        trim_zeros_back(t, lo, j - 1)
    }
}

/// The integral digits of a decimal literal without leading zeros (`0` when
/// there are none).
pub open spec fn literal_int_part(t: Seq<char>) -> Seq<char> {
    let k = dot_from(t, 0);
    let s = t.subrange(skip_zeros_from(t, 0, k), k);
    if s.len() == 0 {
        seq!['0']
    } else {
        s
    }
}

/// The fractional digits of a decimal literal without trailing zeros.
pub open spec fn literal_frac_part(t: Seq<char>) -> Seq<char> {
    let k = dot_from(t, 0);
    if k < t.len() {
        t.subrange(k + 1, trim_zeros_back(t, k + 1, t.len() as int))
    } else {
        seq![]
    }
}

/// The shortest text of the value of a decimal literal: integral part, then the
/// fractional part after a `.` when it is not zero (`3.50` gives `3.5`, `007.0`
/// gives `7`).
pub open spec fn decimal_display(t: Seq<char>) -> Seq<char> {
    let f = literal_frac_part(t);
    if f.len() == 0 {
        literal_int_part(t)
    } else {
        literal_int_part(t) + seq!['.'] + f
    }
}

/// The debugging text of the value of a decimal literal: like
/// [`decimal_display`], with `.0` added to a whole number (`3` gives `3.0`).
pub open spec fn decimal_debug(t: Seq<char>) -> Seq<char> {
    if literal_frac_part(t).len() == 0 {
        literal_int_part(t) + seq!['.', '0']
    } else {
        decimal_display(t)
    }
}

fn chars_between(t: &str, from: usize, to: usize, out: &mut Vec<char>)
    requires
        from <= to <= t@.len(),
    ensures
        final(out)@ == old(out)@ + t@.subrange(from as int, to as int),
{
    let mut i = from;
    while i < to
        invariant
            from <= i <= to <= t@.len(),
            out@ == old(out)@ + t@.subrange(from as int, i as int),
        decreases to - i,
    {
        let c = t.get_char(i);
        out.push(c);
        assert(t@.subrange(from as int, i + 1) =~= t@.subrange(from as int, i as int).push(c));
        i = i + 1;
    }
}

/// The integral and fractional parts of a decimal literal, as in
/// [`literal_int_part`] and [`literal_frac_part`].
pub fn decimal_parts(t: &str) -> (r: (Vec<char>, Vec<char>))
    ensures
        r.0@ == literal_int_part(t@),
        r.1@ == literal_frac_part(t@),
{
    let n = t.unicode_len();
    let mut k: usize = 0;
    while k < n && t.get_char(k) != '.'
        invariant
            n == t@.len(),
            k <= n,
            dot_from(t@, k as int) == dot_from(t@, 0),
        decreases n - k,
    {
        k = k + 1;
    }
    let mut a: usize = 0;
    while a < k && t.get_char(a) == '0'
        invariant
            n == t@.len(),
            k <= n,
            k == dot_from(t@, 0),
            a <= k,
            skip_zeros_from(t@, a as int, k as int) == skip_zeros_from(t@, 0, k as int),
        decreases k - a,
    {
        a = a + 1;
    }
    let mut int_part: Vec<char> = Vec::new();
    if a == k {
        int_part.push('0');
        assert(t@.subrange(a as int, k as int).len() == 0);
        assert(int_part@ =~= seq!['0']);
    } else {
        chars_between(t, a, k, &mut int_part);
        assert(int_part@ =~= t@.subrange(a as int, k as int));
    }
    let mut frac: Vec<char> = Vec::new();
    if k < n {
        let mut j = n;
        while j > k + 1 && t.get_char(j - 1) == '0'
            invariant
                n == t@.len(),
                k < n,
                k + 1 <= j <= n,
                trim_zeros_back(t@, k + 1, j as int) == trim_zeros_back(t@, k + 1, n as int),
            decreases j,
        {
            j = j - 1;
        }
        chars_between(t, k + 1, j, &mut frac);
        assert(frac@ =~= t@.subrange(k + 1, j as int));
    } else {
        assert(frac@ =~= seq![]);
    }
    (int_part, frac)
}

/// Renders a decimal literal as in [`decimal_display`].
pub fn decimal_display_text(t: &str) -> (s: String)
    ensures
        s@ == decimal_display(t@),
{
    let (mut i, f) = decimal_parts(t);
    if f.len() > 0 {
        let ghost i0 = i@;
        i.push('.');
        let mut k: usize = 0;
        while k < f.len()
            invariant
                k <= f@.len(),
                i@ == i0 + seq!['.'] + f@.take(k as int),
            decreases f@.len() - k,
        {
            i.push(f[k]);
            assert(f@.take(k + 1) =~= f@.take(k as int).push(f@[k as int]));
            k = k + 1;
        }
        assert(f@.take(f@.len() as int) =~= f@);
    }
    string_from_chars(&i)
}

/// Renders a decimal literal as in [`decimal_debug`].
pub fn decimal_debug_text(t: &str) -> (s: String)
    ensures
        s@ == decimal_debug(t@),
{
    let (mut i, f) = decimal_parts(t);
    if f.len() == 0 {
        i.push('.');
        i.push('0');
        string_from_chars(&i)
    } else {
        decimal_display_text(t)
    }
}

} // verus!
