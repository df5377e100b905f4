//! Character-level text handling: whitespace trimming, ASCII case folding,
//! decimal rendering and the integer/boolean syntax accepted by the
//! configuration files and the interactive prompts.
use vstd::prelude::*;

verus! {

// ---------------------------------------------------------------------------
// Building strings
// ---------------------------------------------------------------------------

/// Appends one character to a string (`String::push`): the string afterwards
/// is the old one followed by `c`.
#[verifier::external_body]
pub(crate) fn push_char(s: &mut String, c: char)
    ensures
        final(s)@ == old(s)@.push(c),
{
    s.push(c);
}

/// The characters of a string slice, in order.
pub fn chars_of(s: &str) -> (v: Vec<char>)
    ensures
        v@ == s@,
{
    let mut v: Vec<char> = Vec::new();
    for c in it: s.chars()
        invariant
            v@ == it.seq().take(it.index() as int),
            it.seq() == s@,
    {
        v.push(c);
    }
    v
}

/// Appends every character of `cs` to `s`.
pub fn push_chars(s: &mut String, cs: &Vec<char>)
    ensures
        final(s)@ == old(s)@ + cs@,
{
    let n = cs.len();
    for i in 0..n
        invariant
            n == cs@.len(),
            s@ == old(s)@ + cs@.take(i as int),
    {
        push_char(s, cs[i]);
        assert(cs@.take(i + 1) == cs@.take(i as int).push(cs@[i as int]));
    }
    assert(cs@.take(n as int) == cs@);
}

/// A string holding exactly the characters of `cs`.
pub fn string_of(cs: &Vec<char>) -> (s: String)
    ensures
        s@ == cs@,
{
    let mut s = String::new();
    push_chars(&mut s, cs);
    assert(Seq::<char>::empty() + cs@ == cs@);
    s
}

// ---------------------------------------------------------------------------
// Whitespace and trimming
// ---------------------------------------------------------------------------

/// Unicode `White_Space`, the property behind `char::is_whitespace`.
pub open spec fn is_white_space(c: char) -> bool {
    ||| '\u{9}' <= c <= '\u{d}'
    ||| c == ' '
    ||| c == '\u{85}'
    ||| c == '\u{a0}'
    ||| c == '\u{1680}'
    ||| '\u{2000}' <= c <= '\u{200a}'
    ||| c == '\u{2028}'
    ||| c == '\u{2029}'
    ||| c == '\u{202f}'
    ||| c == '\u{205f}'
    ||| c == '\u{3000}'
}

pub fn white_space(c: char) -> (b: bool)
    ensures
        b == is_white_space(c),
{
    ('\u{9}' <= c && c <= '\u{d}') || c == ' ' || c == '\u{85}' || c == '\u{a0}' || c
        == '\u{1680}' || ('\u{2000}' <= c && c <= '\u{200a}') || c == '\u{2028}' || c
        == '\u{2029}' || c == '\u{202f}' || c == '\u{205f}' || c == '\u{3000}'
}

/// `s` without its leading whitespace.
pub open spec fn trim_start(s: Seq<char>) -> Seq<char>
    decreases s.len(),
{
    if s.len() > 0 && is_white_space(s[0]) {
        trim_start(s.drop_first())
    } else {
        s
    }
}

/// `s` without its trailing whitespace.
pub open spec fn trim_end(s: Seq<char>) -> Seq<char>
    decreases s.len(),
{
    if s.len() > 0 && is_white_space(s.last()) {
        trim_end(s.drop_last())
    } else {
        s
    }
}

/// `s` without leading and trailing whitespace (`str::trim`).
pub open spec fn trim(s: Seq<char>) -> Seq<char> {
    trim_end(trim_start(s))
}

/// The characters of `s` with leading and trailing whitespace removed.
pub fn trimmed_chars(s: &str) -> (t: Vec<char>)
    ensures
        t@ == trim(s@),
{
    let v = chars_of(s);
    let n = v.len();
    let mut i: usize = 0;
    assert(v@.subrange(0, n as int) == v@);
    while i < n && white_space(v[i])
        invariant
            i <= n,
            n == v@.len(),
            trim_start(v@) == trim_start(v@.subrange(i as int, n as int)),
        decreases n - i,
    {
        assert(v@.subrange(i as int, n as int).drop_first() == v@.subrange(i + 1, n as int));
        i = i + 1;
    }
    assert(trim_start(v@) == v@.subrange(i as int, n as int));
    let mut j: usize = n;
    while j > i && white_space(v[j - 1])
        invariant
            i <= j <= n,
            n == v@.len(),
            trim(v@) == trim_end(v@.subrange(i as int, j as int)),
        decreases j,
    {
        assert(v@.subrange(i as int, j as int).drop_last() == v@.subrange(i as int, j - 1));
        j = j - 1;
    }
    let mut t: Vec<char> = Vec::new();
    let mut k: usize = i;
    while k < j
        invariant
            i <= k <= j <= n,
            n == v@.len(),
            t@ == v@.subrange(i as int, k as int),
        decreases j - k,
    {
        t.push(v[k]);
        assert(v@.subrange(i as int, k + 1) == v@.subrange(i as int, k as int).push(v@[k as int]));
        k = k + 1;
    }
    t
}

// ---------------------------------------------------------------------------
// ASCII case folding
// ---------------------------------------------------------------------------

pub open spec fn ascii_lower(c: char) -> char {
    if 'A' <= c <= 'Z' {
        ((c as u32) + 32) as char
    } else {
        c
    }
}

/// `str::eq_ignore_ascii_case`: equal after mapping ASCII upper-case letters
/// to lower case.
pub open spec fn eq_ignore_ascii_case(a: Seq<char>, b: Seq<char>) -> bool {
    &&& a.len() == b.len()
    &&& forall|i: int| 0 <= i < a.len() ==> #[trigger] ascii_lower(a[i]) == ascii_lower(b[i])
}

fn lower_char(c: char) -> (r: char)
    ensures
        r == ascii_lower(c),
{
    if 'A' <= c && c <= 'Z' {
        let u: u32 = c as u32;
        let l: u32 = u + 32;
        assert(l <= 0x7a);
        l as u8 as char
    } else {
        c
    }
}

/// Whether the two strings are equal up to ASCII letter case.
pub fn equal_ignoring_ascii_case(a: &str, b: &str) -> (r: bool)
    ensures
        r == eq_ignore_ascii_case(a@, b@),
{
    let va = chars_of(a);
    let vb = chars_of(b);
    if va.len() != vb.len() {
        return false;
    }
    let n = va.len();
    for i in 0..n
        invariant
            n == va@.len(),
            n == vb@.len(),
            va@ == a@,
            vb@ == b@,
            forall|k: int| 0 <= k < i ==> #[trigger] ascii_lower(va@[k]) == ascii_lower(vb@[k]),
    {
        if lower_char(va[i]) != lower_char(vb[i]) {
            assert(!(ascii_lower(a@[i as int]) == ascii_lower(b@[i as int])));
            return false;
        }
    }
    true
}

/// Whether the characters of `a` are exactly those of `b`.
pub fn same_text(a: &Vec<char>, b: &str) -> (r: bool)
    ensures
        r == (a@ == b@),
{
    let vb = chars_of(b);
    if a.len() != vb.len() {
        return false;
    }
    let n = a.len();
    for i in 0..n
        invariant
            n == a@.len(),
            n == vb@.len(),
            vb@ == b@,
            forall|k: int| 0 <= k < i ==> a@[k] == vb@[k],
    {
        if a[i] != vb[i] {
            return false;
        }
    }
    assert(a@ == vb@);
    true
}

/// Whether `a` and `b` hold the same characters.
pub fn str_equal(a: &str, b: &str) -> (r: bool)
    ensures
        r == (a@ == b@),
{
    let va = chars_of(a);
    same_text(&va, b)
}

// ---------------------------------------------------------------------------
// Decimal rendering
// ---------------------------------------------------------------------------

/// The character of a decimal digit `d < 10`.
pub open spec fn digit_char(d: nat) -> char {
    (48 + d) as char
}

/// The decimal representation of `n`, most significant digit first, without
/// leading zeros (as `Display` writes unsigned integers).
pub open spec fn decimal(n: nat) -> Seq<char>
    decreases n,
{
    if n < 10 {
        seq![digit_char(n)]
    } else {
        decimal(n / 10).push(digit_char(n % 10))
    }
}

/// The decimal representation of a signed integer, with a leading `-` for
/// negative values (as `Display` writes signed integers).
pub open spec fn signed_decimal(i: int) -> Seq<char> {
    if i < 0 {
        seq!['-'] + decimal((-i) as nat)
    } else {
        decimal(i as nat)
    }
}

fn digit(d: u64) -> (c: char)
    requires
        d < 10,
    ensures
        c == digit_char(d as nat),
{
    let b: u8 = 48 + d as u8;
    b as char
}

/// Appends the decimal representation of `n`.
pub fn push_decimal(s: &mut String, n: u64)
    ensures
        final(s)@ == old(s)@ + decimal(n as nat),
    decreases n,
{
    if n >= 10 {
        push_decimal(s, n / 10);
    }
    push_char(s, digit(n % 10));
    assert(decimal(n as nat) == if n < 10 {
        seq![digit_char(n as nat)]
    } else {
        decimal((n / 10) as nat).push(digit_char((n % 10) as nat))
    });
}

/// Appends the decimal representation of the signed integer `i`.
pub fn push_signed_decimal(s: &mut String, i: i64)
    ensures
        final(s)@ == old(s)@ + signed_decimal(i as int),
{
    if i < 0 {
        push_char(s, '-');
        let m: i128 = 0 - (i as i128);
        push_decimal(s, m as u64);
        assert(old(s)@.push('-') + decimal((-i) as nat) == old(s)@ + (seq!['-'] + decimal(
            (-i) as nat,
        )));
    } else {
        push_decimal(s, i as u64);
    }
}

/// The decimal representation of `n` as a new string.
pub fn decimal_string(n: u64) -> (s: String)
    ensures
        s@ == decimal(n as nat),
{
    let mut s = String::new();
    push_decimal(&mut s, n);
    assert(Seq::<char>::empty() + decimal(n as nat) == decimal(n as nat));
    s
}

// ---------------------------------------------------------------------------
// Integer syntax (`str::parse` / `from_str_radix` for unsigned integers)
// ---------------------------------------------------------------------------

/// The value of digit character `c` in base `radix` (10 or 16).
pub open spec fn digit_value(c: char, radix: nat) -> Option<nat> {
    if '0' <= c <= '9' && (c as nat) - 48 < radix {
        Some(((c as nat) - 48) as nat)
    } else if radix == 16 && 'a' <= c <= 'f' {
        Some(((c as nat) - 87) as nat)
    } else if radix == 16 && 'A' <= c <= 'F' {
        Some(((c as nat) - 55) as nat)
    } else {
        None
    }
}

pub open spec fn all_digits(s: Seq<char>, radix: nat) -> bool {
    forall|i: int| 0 <= i < s.len() ==> #[trigger] digit_value(s[i], radix) is Some
}

/// The value of a string of digits, most significant first.
pub open spec fn digits_value(s: Seq<char>, radix: nat) -> nat
    decreases s.len(),
{
    if s.len() == 0 {
        0
    } else {
        digits_value(s.drop_last(), radix) * radix + digit_value(s.last(), radix).unwrap()
    }
}

/// What Rust's unsigned integer parsing in base `radix` gives for `s`, for a
/// type whose largest value is `max`: an optional `+`, then one or more
/// digits, whose value must not exceed `max`.
pub open spec fn parse_unsigned(s: Seq<char>, radix: nat, max: nat) -> Option<nat> {
    let digits = if s.len() > 0 && s[0] == '+' {
        s.drop_first()
    } else {
        s
    };
    if digits.len() > 0 && all_digits(digits, radix) && digits_value(digits, radix) <= max {
        Some(digits_value(digits, radix))
    } else {
        None
    }
}

fn digit_of(c: char, radix: u64) -> (r: Option<u64>)
    requires
        radix == 10 || radix == 16,
    ensures
        r matches Some(d) ==> digit_value(c, radix as nat) == Some(d as nat) && d < radix,
        r is None ==> digit_value(c, radix as nat) is None,
{
    if '0' <= c && c <= '9' {
        let d: u64 = (c as u32 - 48) as u64;
        Some(d)
    } else if radix == 16 && 'a' <= c && c <= 'f' {
        Some((c as u32 - 87) as u64)
    } else if radix == 16 && 'A' <= c && c <= 'F' {
        Some((c as u32 - 55) as u64)
    } else {
        None
    }
}

proof fn lemma_digits_value_grows(s: Seq<char>, radix: nat, k: int)
    requires
        0 <= k <= s.len(),
        radix >= 1,
    ensures
        digits_value(s.take(k), radix) <= digits_value(s, radix),
    decreases s.len() - k,
{
    if k < s.len() {
        lemma_digits_value_grows(s, radix, k + 1);
        assert(s.take(k + 1).drop_last() == s.take(k));
        let a = digits_value(s.take(k), radix);
        assert(a <= a * radix) by (nonlinear_arith)
            requires
                radix >= 1,
        ;
    } else {
        assert(s.take(k) == s);
    }
}

/// Parses `s[start..]` as an unsigned integer in base `radix`, not above `max`.
pub fn parse_unsigned_from(s: &Vec<char>, start: usize, radix: u64, max: u64) -> (r: Option<u64>)
    requires
        start <= s@.len(),
        radix == 10 || radix == 16,
        max >= radix,
    ensures
        r matches Some(v) ==> parse_unsigned(s@.subrange(start as int, s@.len() as int), radix as nat, max as nat) == Some(v as nat),
        r is None ==> parse_unsigned(s@.subrange(start as int, s@.len() as int), radix as nat, max as nat) is None,
{
    let n = s.len();
    let ghost whole = s@.subrange(start as int, n as int);
    let mut b = start;
    if b < n && s[b] == '+' {
        b = b + 1;
        assert(whole.drop_first() == s@.subrange(b as int, n as int));
    }
    let ghost digits = s@.subrange(b as int, n as int);
    assert(digits == if whole.len() > 0 && whole[0] == '+' { whole.drop_first() } else { whole });
    if b == n {
        return None;
    }
    let mut acc: u64 = 0;
    let mut i = b;
    while i < n
        invariant
            b <= i <= n,
            n == s@.len(),
            digits == s@.subrange(b as int, n as int),
            whole == s@.subrange(start as int, n as int),
            digits == if whole.len() > 0 && whole[0] == '+' { whole.drop_first() } else { whole },
            radix == 10 || radix == 16,
            all_digits(s@.subrange(b as int, i as int), radix as nat),
            acc as nat == digits_value(s@.subrange(b as int, i as int), radix as nat),
            acc <= max,
            max >= radix,
        decreases n - i,
    {
        let ghost prefix = s@.subrange(b as int, i as int);
        let ghost next = s@.subrange(b as int, i + 1);
        assert(next.drop_last() == prefix);
        assert(next == digits.take(i + 1 - b));
        match digit_of(s[i], radix) {
            None => {
                assert(digits[i - b] == s@[i as int]);
                assert(digit_value(digits[i - b], radix as nat) is None);
                assert(!all_digits(digits, radix as nat));
                return None;
            },
            Some(d) => {
                let limit = (max - d) / radix;
                if acc > limit {
                    proof {
                        assert(acc * radix + d > max) by (nonlinear_arith)
                            requires
                                acc > limit,
                                limit as int == (max - d) as int / (radix as int),
                                radix > 0,
                                d <= max,
                        ;
                        lemma_digits_value_grows(digits, radix as nat, i + 1 - b);
                    }
                    return None;
                }
                proof {
                    assert(acc * radix + d <= max) by (nonlinear_arith)
                        requires
                            acc <= limit,
                            limit as int == (max - d) as int / (radix as int),
                            radix > 0,
                            d <= max,
                    ;
                }
                acc = acc * radix + d;
                assert(all_digits(next, radix as nat)) by {
                    assert forall|k: int| 0 <= k < next.len() implies #[trigger] digit_value(
                        next[k],
                        radix as nat,
                    ) is Some by {
                        if k < prefix.len() {
                            assert(next[k] == prefix[k]);
                        }
                    }
                }
                i = i + 1;
            },
        }
    }
    assert(s@.subrange(b as int, n as int) == digits);
    Some(acc)
}

/// `str::parse::<u8>` on the text `s`.
pub fn parse_u8_text(s: &Vec<char>) -> (r: Option<u8>)
    ensures
        r matches Some(v) ==> parse_unsigned(s@, 10, 255) == Some(v as nat),
        r is None ==> parse_unsigned(s@, 10, 255) is None,
{
    assert(s@.subrange(0, s@.len() as int) == s@);
    match parse_unsigned_from(s, 0, 10, 255) {
        Some(v) => Some(v as u8),
        None => None,
    }
}

/// `str::parse::<u16>` on the text `s`.
pub fn parse_u16_text(s: &Vec<char>) -> (r: Option<u16>)
    ensures
        r matches Some(v) ==> parse_unsigned(s@, 10, 65535) == Some(v as nat),
        r is None ==> parse_unsigned(s@, 10, 65535) is None,
{
    assert(s@.subrange(0, s@.len() as int) == s@);
    match parse_unsigned_from(s, 0, 10, 65535) {
        Some(v) => Some(v as u16),
        None => None,
    }
}

/// `str::parse::<usize>` on the text `s`.
pub fn parse_usize_text(s: &Vec<char>) -> (r: Option<usize>)
    ensures
        r matches Some(v) ==> parse_unsigned(s@, 10, usize::MAX as nat) == Some(v as nat),
        r is None ==> parse_unsigned(s@, 10, usize::MAX as nat) is None,
{
    assert(s@.subrange(0, s@.len() as int) == s@);
    match parse_unsigned_from(s, 0, 10, usize::MAX as u64) {
        Some(v) => Some(v as usize),
        None => None,
    }
}

/// A decimal representation is a non-empty string of digits that starts
/// with a digit and reads back as the number it represents.
pub proof fn lemma_decimal_digits(n: nat)
    ensures
        decimal(n).len() >= 1,
        '0' <= decimal(n)[0] <= '9',
        all_digits(decimal(n), 10),
        digits_value(decimal(n), 10) == n,
    decreases n,
{
    if n >= 10 {
        lemma_decimal_digits(n / 10);
        let d = decimal(n / 10);
        let e = d.push(digit_char(n % 10));
        assert(e.drop_last() == d);
        assert(e[0] == d[0]);
        assert((digit_char(n % 10) as nat) == 48 + n % 10);
        assert(digit_value(e.last(), 10) == Some(n % 10));
        assert(n == (n / 10) * 10 + n % 10);
        assert(decimal(n) == e);
        assert(digits_value(e, 10) == digits_value(d, 10) * 10 + n % 10);
        assert forall|i: int| 0 <= i < e.len() implies #[trigger] digit_value(e[i], 10) is Some by {
            if i < d.len() {
                assert(e[i] == d[i]);
            }
        }
    } else {
        let e = decimal(n);
        assert(e.drop_last() == Seq::<char>::empty());
        assert((digit_char(n) as nat) == 48 + n);
        assert(digits_value(e.drop_last(), 10) == 0);
        assert(digits_value(e, 10) == n);
    }
}

/// Parsing the decimal representation of `n` gives `n` back, whenever `n`
/// fits the parsed type.
pub proof fn law_parse_decimal_round_trip(n: nat, max: nat)
    requires
        n <= max,
    ensures
        parse_unsigned(decimal(n), 10, max) == Some(n),
{
    lemma_decimal_digits(n);
}

} // verus!
