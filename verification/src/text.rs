//! Text that the gateway reads and writes: characters, hexadecimal and decimal numerals.

use vstd::prelude::*;
use vstd::string::*;

verus! {

// ── Characters ───────────────────────────────────────────────────────────────

/// The characters of `s`, one by one.
pub fn chars_of(s: &str) -> (chars: Vec<char>)
    ensures
        chars@ == s@,
{
    let mut chars: Vec<char> = Vec::new();
    for c in it: s.chars()
        invariant
            it.seq() == s@,
            chars@ == s@.take(it.index() as int),
    {
        chars.push(c);
    }
    assert(s@.take(s@.len() as int) == s@);
    chars
}

/// Whether two character sequences are the same.
pub fn chars_equal(a: &Vec<char>, b: &Vec<char>) -> (equal: bool)
    ensures
        equal == (a@ == b@),
{
    assert(a@.subrange(0, a@.len() as int) == a@);
    a.len() == b.len() && chars_match_at(a, 0, b)
}

/// Whether `chars` reads `pattern` from position `from` on.
fn chars_match_at(chars: &Vec<char>, from: usize, pattern: &Vec<char>) -> (matches: bool)
    requires
        from + pattern@.len() <= chars@.len(),
    ensures
        matches == (chars@.subrange(from as int, from + pattern@.len()) == pattern@),
{
    let mut i: usize = 0;
    let total: usize = chars.len();
    while i < pattern.len()
        invariant
            total == chars@.len(),
            from + pattern@.len() <= total,
            i <= pattern@.len(),
            forall|k: int| 0 <= k < i ==> chars@[from + k] == pattern@[k],
        decreases pattern@.len() - i,
    {
        if chars[from + i] != pattern[i] {
            assert(chars@.subrange(from as int, from + pattern@.len())[i as int] != pattern@[i as int]);
            return false;
        }
        i += 1;
    }
    assert(chars@.subrange(from as int, from + pattern@.len()) =~= pattern@);
    true
}

/// Whether `chars` begins with `prefix`.
pub fn starts_with(chars: &Vec<char>, prefix: &str) -> (found: bool)
    ensures
        found == prefix@.is_prefix_of(chars@),
{
    let pattern = chars_of(prefix);
    pattern.len() <= chars.len() && chars_match_at(chars, 0, &pattern)
}

/// Whether `chars` ends with `suffix`.
pub fn ends_with(chars: &Vec<char>, suffix: &str) -> (found: bool)
    ensures
        found == suffix@.is_suffix_of(chars@),
{
    let pattern = chars_of(suffix);
    pattern.len() <= chars.len() && chars_match_at(chars, chars.len() - pattern.len(), &pattern)
}

/// `s` without the run of `c` that ends it.
pub open spec fn without_trailing(s: Seq<char>, c: char) -> Seq<char>
    decreases s.len(),
{
    if s.len() > 0 && s.last() == c {
        without_trailing(s.drop_last(), c)
    } else {
        s
    }
}

/// Drops every `c` at the end of `s`.
pub fn trim_trailing(s: &str, c: char) -> (trimmed: &str)
    ensures
        trimmed@ == without_trailing(s@, c),
{
    let chars = chars_of(s);
    let mut n: usize = chars.len();
    assert(s@.take(n as int) == s@);
    while n > 0 && chars[n - 1] == c
        invariant
            chars@ == s@,
            n <= s@.len(),
            without_trailing(s@, c) == without_trailing(s@.take(n as int), c),
        decreases n,
    {
        assert(s@.take(n as int).drop_last() == s@.take(n - 1));
        n -= 1;
    }
    s.substring_char(0, n)
}

// ── Hexadecimal ──────────────────────────────────────────────────────────────

/// The lower-case hexadecimal digit for `n`, below sixteen.
pub open spec fn hex_digit(n: int) -> char {
    if n < 10 {
        ('0' as int + n) as char
    } else {
        ('a' as int + (n - 10)) as char
    }
}

/// Whether `c` is a hexadecimal digit, of either case.
pub open spec fn is_hex_digit(c: char) -> bool {
    ('0' <= c && c <= '9') || ('a' <= c && c <= 'f') || ('A' <= c && c <= 'F')
}

/// The value of the hexadecimal digit `c`.
pub open spec fn hex_value(c: char) -> int {
    if c <= '9' {
        c as int - '0' as int
    } else if c <= 'F' {
        c as int - 'A' as int + 10
    } else {
        c as int - 'a' as int + 10
    }
}

/// The `i`-th half byte of `bytes`, high half first.
pub open spec fn nibble(bytes: Seq<u8>, i: int) -> int {
    if i % 2 == 0 {
        bytes[i / 2] as int / 16
    } else {
        bytes[i / 2] as int % 16
    }
}

/// Every byte as two lower-case digits, high half first.
pub open spec fn lower_hex(bytes: Seq<u8>) -> Seq<char> {
    Seq::new(2 * bytes.len(), |i: int| hex_digit(nibble(bytes, i)))
}

/// The bytes that a string of hexadecimal digit pairs stands for; nothing for any other string.
pub open spec fn hex_bytes(s: Seq<char>) -> Option<Seq<u8>> {
    if s.len() % 2 == 0 && forall|i: int| 0 <= i < s.len() ==> is_hex_digit(#[trigger] s[i]) {
        Some(
            Seq::new(
                s.len() / 2,
                |i: int| (hex_value(s[2 * i]) * 16 + hex_value(s[2 * i + 1])) as u8,
            ),
        )
    } else {
        None
    }
}

/// Bytes written as lower-case hexadecimal read back as the same bytes.
pub proof fn hex_reads_back(bytes: Seq<u8>)
    ensures
        hex_bytes(lower_hex(bytes)) == Some(bytes),
{
    let s = lower_hex(bytes);
    assert forall|i: int| 0 <= i < s.len() implies is_hex_digit(#[trigger] s[i]) by {
        assert(0 <= bytes[i / 2] as int / 16 < 16);
    }
    let back = hex_bytes(s).unwrap();
    assert forall|i: int| 0 <= i < bytes.len() implies back[i] == bytes[i] by {
        assert((2 * i) / 2 == i && (2 * i) % 2 == 0);
        assert((2 * i + 1) / 2 == i && (2 * i + 1) % 2 == 1);
        let b = bytes[i] as int;
        assert(s[2 * i] == hex_digit(b / 16));
        assert(s[2 * i + 1] == hex_digit(b % 16));
        assert(0 <= b / 16 < 16 && 0 <= b % 16 < 16);
        assert(hex_value(hex_digit(b / 16)) == b / 16);
        assert(hex_value(hex_digit(b % 16)) == b % 16);
        assert((b / 16) * 16 + b % 16 == b);
    }
    assert(back =~= bytes);
}

/// `s` without any number of `0x` in front.
pub open spec fn without_hex_prefix(s: Seq<char>) -> Seq<char>
    decreases s.len(),
{
    if s.len() >= 2 && s[0] == '0' && s[1] == 'x' {
        without_hex_prefix(s.skip(2))
    } else {
        s
    }
}

/// Bytes written as hexadecimal never look as if they had a `0x` in front.
pub proof fn hex_has_no_prefix(bytes: Seq<u8>)
    ensures
        without_hex_prefix(lower_hex(bytes)) == lower_hex(bytes),
        without_hex_prefix(seq!['0', 'x'] + lower_hex(bytes)) == lower_hex(bytes),
{
    let digits = lower_hex(bytes);
    if digits.len() >= 2 {
        assert(0 <= nibble(bytes, 1) < 16);
        assert(digits[1] == hex_digit(nibble(bytes, 1)));
    }
    assert((seq!['0', 'x'] + digits).skip(2) =~= digits);
    assert(without_hex_prefix(seq!['0', 'x'] + digits) == without_hex_prefix(digits));
}

/// Drops every `0x` at the start of `s`.
pub fn trim_hex_prefix(s: &str) -> (trimmed: &str)
    ensures
        trimmed@ == without_hex_prefix(s@),
{
    let chars = chars_of(s);
    let n: usize = chars.len();
    let mut i: usize = 0;
    assert(s@.skip(0) == s@);
    while n - i >= 2 && chars[i] == '0' && chars[i + 1] == 'x'
        invariant
            chars@ == s@,
            n == s@.len(),
            i <= n,
            without_hex_prefix(s@) == without_hex_prefix(s@.skip(i as int)),
        decreases n - i,
    {
        assert(s@.skip(i as int).skip(2) == s@.skip(i + 2));
        i += 2;
    }
    assert(s@.skip(i as int) == s@.subrange(i as int, n as int));
    s.substring_char(i, n)
}

// ── Decimal ──────────────────────────────────────────────────────────────────

/// The decimal digit for `d`, below ten.
pub open spec fn decimal_digit(d: int) -> char {
    ('0' as int + d) as char
}

/// Whether `c` is a decimal digit.
pub open spec fn is_decimal_digit(c: char) -> bool {
    '0' <= c && c <= '9'
}

/// The decimal numeral of `n`, without leading zeros.
pub open spec fn decimal(n: nat) -> Seq<char>
    decreases n,
{
    if n < 10 {
        seq![decimal_digit(n as int)]
    } else {
        decimal(n / 10).push(decimal_digit((n % 10) as int))
    }
}

/// The number that a sequence of decimal digits stands for.
pub open spec fn decimal_value(s: Seq<char>) -> int
    decreases s.len(),
{
    if s.len() == 0 {
        0
    } else {
        decimal_value(s.drop_last()) * 10 + (s.last() as int - '0' as int)
    }
}

/// How many decimal digits `s` begins with.
pub open spec fn leading_digits(s: Seq<char>) -> nat
    decreases s.len(),
{
    if s.len() > 0 && is_decimal_digit(s[0]) {
        1 + leading_digits(s.skip(1))
    } else {
        0
    }
}

/// Why a string is no `u128`.
#[derive(Clone, Copy, Debug, PartialEq, Eq, Structural)]
pub enum ParseU128Error {
    /// There is nothing to read.
    Empty,
    /// Something other than a decimal digit stands where one is due.
    InvalidDigit,
    /// The digits name a number beyond `u128::MAX`.
    Overflow,
}

/// The `u128` that `s` names: an optional `+` and one or more decimal digits.
///
/// Digits that already name too large a number count as an overflow, whatever follows them.
pub open spec fn parsed_u128(s: Seq<char>) -> Result<u128, ParseU128Error> {
    let body = if s.len() > 0 && s[0] == '+' {
        s.skip(1)
    } else {
        s
    };
    let digits = body.take(leading_digits(body) as int);
    if s.len() == 0 {
        Err(ParseU128Error::Empty)
    } else if decimal_value(digits) > u128::MAX {
        Err(ParseU128Error::Overflow)
    } else if digits.len() < body.len() || body.len() == 0 {
        Err(ParseU128Error::InvalidDigit)
    } else {
        Ok(decimal_value(digits) as u128)
    }
}

/// The number that `s` names, or zero where it names none.
pub open spec fn u128_or_zero(s: Seq<char>) -> u128 {
    match parsed_u128(s) {
        Ok(v) => v,
        Err(_) => 0,
    }
}

proof fn lemma_leading_digits(s: Seq<char>, n: nat)
    requires
        n <= s.len(),
        forall|i: int| 0 <= i < n ==> is_decimal_digit(#[trigger] s[i]),
        n < s.len() ==> !is_decimal_digit(s[n as int]),
    ensures
        leading_digits(s) == n,
    decreases n,
{
    if n > 0 {
        assert(is_decimal_digit(s[0]));
        let rest = s.skip(1);
        assert forall|i: int| 0 <= i < n - 1 implies is_decimal_digit(#[trigger] rest[i]) by {
            assert(rest[i] == s[i + 1]);
        }
        lemma_leading_digits(rest, (n - 1) as nat);
    }
}

/// More digits never name a smaller number.
proof fn lemma_decimal_value_grows(s: Seq<char>, n: nat)
    requires
        n <= s.len(),
        forall|i: int| 0 <= i < s.len() ==> is_decimal_digit(#[trigger] s[i]),
    ensures
        0 <= decimal_value(s.take(n as int)) <= decimal_value(s),
    decreases s.len(),
{
    if n == s.len() {
        assert(s.take(n as int) == s);
        if n > 0 {
            lemma_decimal_value_grows(s.drop_last(), (n - 1) as nat);
            assert(is_decimal_digit(s[n - 1]));
        }
    } else {
        assert(s.drop_last().take(n as int) == s.take(n as int));
        lemma_decimal_value_grows(s.drop_last(), n);
        assert(is_decimal_digit(s[s.len() - 1]));
    }
}

/// A decimal numeral is one or more decimal digits, which stand for its number.
pub proof fn decimal_is_digits(n: nat)
    ensures
        decimal(n).len() > 0,
        forall|i: int| 0 <= i < decimal(n).len() ==> is_decimal_digit(#[trigger] decimal(n)[i]),
        decimal_value(decimal(n)) == n,
    decreases n,
{
    if n < 10 {
        assert(decimal(n).drop_last() =~= Seq::<char>::empty());
        assert(decimal_value(decimal(n).drop_last()) == 0);
    } else {
        decimal_is_digits(n / 10);
        assert(decimal(n).drop_last() =~= decimal(n / 10));
        assert(decimal(n).last() == decimal_digit((n % 10) as int));
    }
}

/// A number written in decimal reads back as the same number.
pub proof fn decimal_reads_back(n: u128)
    ensures
        parsed_u128(decimal(n as nat)) == Ok::<u128, ParseU128Error>(n),
{
    let s = decimal(n as nat);
    decimal_is_digits(n as nat);
    assert(is_decimal_digit(s[0]));
    lemma_leading_digits(s, s.len());
    assert(s.take(s.len() as int) == s);
}

fn digit_text(d: u128) -> (s: &'static str)
    requires
        d < 10,
    ensures
        s@ == seq![decimal_digit(d as int)],
{
    proof {
        reveal_strlit("0");
        reveal_strlit("1");
        reveal_strlit("2");
        reveal_strlit("3");
        reveal_strlit("4");
        reveal_strlit("5");
        reveal_strlit("6");
        reveal_strlit("7");
        reveal_strlit("8");
        reveal_strlit("9");
    }
    if d == 0 {
        "0"
    } else if d == 1 {
        "1"
    } else if d == 2 {
        "2"
    } else if d == 3 {
        "3"
    } else if d == 4 {
        "4"
    } else if d == 5 {
        "5"
    } else if d == 6 {
        "6"
    } else if d == 7 {
        "7"
    } else if d == 8 {
        "8"
    } else {
        "9"
    }
}

/// Writes `n` in decimal.
pub fn decimal_string(n: u128) -> (s: String)
    ensures
        s@ == decimal(n as nat),
    decreases n,
{
    if n < 10 {
        String::from_str(digit_text(n))
    } else {
        let mut s = decimal_string(n / 10);
        s.append(digit_text(n % 10));
        assert(s@ =~= decimal(n as nat / 10).push(decimal_digit((n as nat % 10) as int)));
        s
    }
}

/// Reads a `u128` from characters.
pub fn parse_u128_chars(chars: &Vec<char>) -> (parsed: Result<u128, ParseU128Error>)
    ensures
        parsed == parsed_u128(chars@),
{
    let n: usize = chars.len();
    if n == 0 {
        return Err(ParseU128Error::Empty);
    }
    let start: usize = if chars[0] == '+' {
        1
    } else {
        0
    };
    let ghost body = if chars@[0] == '+' {
        chars@.skip(1)
    } else {
        chars@
    };
    let mut value: u128 = 0;
    let mut i: usize = start;
    assert(body.take(0) =~= Seq::<char>::empty());
    while i < n
        invariant
            start <= i <= n,
            n == chars@.len(),
            body == chars@.skip(start as int),
            forall|k: int| 0 <= k < i - start ==> is_decimal_digit(#[trigger] body[k]),
            value == decimal_value(body.take(i - start)),
            n > 0,
            body == (if chars@[0] == '+' {
                chars@.skip(1)
            } else {
                chars@
            }),
        decreases n - i,
    {
        let c = chars[i];
        let ghost k = (i - start) as nat;
        assert(body[k as int] == c);
        if c < '0' || c > '9' {
            proof {
                lemma_leading_digits(body, k);
            }
            return Err(ParseU128Error::InvalidDigit);
        }
        let d: u128 = c as u128 - '0' as u128;
        assert(body.take(k as int + 1).drop_last() =~= body.take(k as int));
        assert(decimal_value(body.take(k as int + 1)) == value * 10 + d);
        if value > (u128::MAX - d) / 10 {
            proof {
                lemma_overflow_stands(body, k + 1);
            }
            return Err(ParseU128Error::Overflow);
        }
        value = value * 10 + d;
        i += 1;
    }
    proof {
        lemma_leading_digits(body, body.len());
        assert(body.take(body.len() as int) == body);
    }
    if start == n {
        Err(ParseU128Error::InvalidDigit)
    } else {
        Ok(value)
    }
}

/// Where the first `n` digits name too large a number, so do all the leading digits.
proof fn lemma_overflow_stands(s: Seq<char>, n: nat)
    requires
        n <= s.len(),
        forall|i: int| 0 <= i < n ==> is_decimal_digit(#[trigger] s[i]),
    ensures
        decimal_value(s.take(n as int)) <= decimal_value(s.take(leading_digits(s) as int)),
{
    lemma_leading_digits_bounds(s, n);
    let all = s.take(leading_digits(s) as int);
    assert(all.take(n as int) == s.take(n as int));
    lemma_decimal_value_grows(all, n);
}

proof fn lemma_leading_digits_bounds(s: Seq<char>, n: nat)
    requires
        n <= s.len(),
        forall|i: int| 0 <= i < n ==> is_decimal_digit(#[trigger] s[i]),
    ensures
        n <= leading_digits(s) <= s.len(),
        forall|i: int| 0 <= i < leading_digits(s) ==> is_decimal_digit(#[trigger] s[i]),
    decreases s.len(),
{
    if s.len() > 0 && is_decimal_digit(s[0]) {
        let rest = s.skip(1);
        let m = if n > 0 {
            (n - 1) as nat
        } else {
            0
        };
        assert forall|i: int| 0 <= i < m implies is_decimal_digit(#[trigger] rest[i]) by {
            assert(rest[i] == s[i + 1]);
        }
        lemma_leading_digits_bounds(rest, m);
        assert forall|i: int| 0 <= i < leading_digits(s) implies is_decimal_digit(#[trigger] s[i]) by {
            if i > 0 {
                assert(s[i] == rest[i - 1]);
            }
        }
    } else if n > 0 {
        assert(is_decimal_digit(s[0]));
    }
}

/// Reads a `u128` from text.
pub fn parse_u128(s: &str) -> (parsed: Result<u128, ParseU128Error>)
    ensures
        parsed == parsed_u128(s@),
{
    parse_u128_chars(&chars_of(s))
}

/// Reads a `u128` from text, taking anything else for zero.
pub fn parse_u128_or_zero(s: &str) -> (value: u128)
    ensures
        value == u128_or_zero(s@),
{
    match parse_u128(s) {
        Ok(value) => value,
        Err(_) => 0,
    }
}

// ── Laws ─────────────────────────────────────────────────────────────────────

/// What is dropped from the end of a string is a run of `c`, and all of it: what remains is the
/// front of the string and does not end with `c`.
pub proof fn trailing_run_is_dropped(s: Seq<char>, c: char)
    ensures
        ({
            let t = without_trailing(s, c);
            &&& t.len() <= s.len()
            &&& t == s.subrange(0, t.len() as int)
            &&& forall|i: int| t.len() <= i < s.len() ==> s[i] == c
            &&& t.len() > 0 ==> t[t.len() - 1] != c
        }),
    decreases s.len(),
{
    if s.len() > 0 && s.last() == c {
        trailing_run_is_dropped(s.drop_last(), c);
        let t = without_trailing(s, c);
        assert(s.drop_last().subrange(0, t.len() as int) =~= s.subrange(0, t.len() as int));
        assert forall|i: int| t.len() <= i < s.len() implies s[i] == c by {
            if i < s.len() - 1 {
                assert(s.drop_last()[i] == s[i]);
            }
        }
    } else {
        assert(s.subrange(0, s.len() as int) =~= s);
    }
}

/// What is dropped from the front of a string is `0x`, as often as it stands there: what remains
/// is the end of the string and does not begin with `0x`.
pub proof fn leading_prefixes_are_dropped(s: Seq<char>)
    ensures
        ({
            let t = without_hex_prefix(s);
            let n = s.len() - t.len();
            &&& 0 <= n && n % 2 == 0
            &&& t == s.subrange(n, s.len() as int)
            &&& forall|i: int|
                0 <= i < n ==> s[i] == (if i % 2 == 0 {
                    '0'
                } else {
                    'x'
                })
            &&& !(t.len() >= 2 && t[0] == '0' && t[1] == 'x')
        }),
    decreases s.len(),
{
    if s.len() >= 2 && s[0] == '0' && s[1] == 'x' {
        let rest = s.skip(2);
        leading_prefixes_are_dropped(rest);
        let t = without_hex_prefix(s);
        let n = s.len() - t.len();
        assert(t == rest.subrange(n - 2, rest.len() as int));
        assert(rest.subrange(n - 2, rest.len() as int) =~= s.subrange(n, s.len() as int));
        assert forall|i: int| 0 <= i < n implies s[i] == (if i % 2 == 0 {
            '0'
        } else {
            'x'
        }) by {
            if i >= 2 {
                assert(rest[i - 2] == s[i]);
            }
        }
    } else {
        assert(s.subrange(0, s.len() as int) =~= s);
    }
}

/// The sixteen digits, in order.
proof fn lemma_hex_digits(n: int)
    requires
        0 <= n < 16,
    ensures
        "0123456789abcdef"@.len() == 16,
        "0123456789ABCDEF"@.len() == 16,
        hex_digit(n) == "0123456789abcdef"@[n],
        forall|c: char|
            (c == "0123456789abcdef"@[n] || c == "0123456789ABCDEF"@[n]) <==> is_hex_digit(c)
                && #[trigger] hex_value(c) == n,
{
    reveal_strlit("0123456789abcdef");
    reveal_strlit("0123456789ABCDEF");
    let lower = "0123456789abcdef"@[n];
    let upper = "0123456789ABCDEF"@[n];
    if n < 10 {
        assert(n == 0 || n == 1 || n == 2 || n == 3 || n == 4 || n == 5 || n == 6 || n == 7 || n
            == 8 || n == 9);
        assert(lower as int == 48 + n && upper as int == 48 + n);
    } else {
        assert(n == 10 || n == 11 || n == 12 || n == 13 || n == 14 || n == 15);
        assert(lower as int == 87 + n && upper as int == 55 + n);
    }
}

/// Bytes are written as two digits each, high half first, out of `0123456789abcdef`.
pub proof fn hex_is_written_by_halves(bytes: Seq<u8>, i: int)
    requires
        0 <= i < bytes.len(),
    ensures
        lower_hex(bytes).len() == 2 * bytes.len(),
        lower_hex(bytes)[2 * i] == "0123456789abcdef"@[bytes[i] as int / 16],
        lower_hex(bytes)[2 * i + 1] == "0123456789abcdef"@[bytes[i] as int % 16],
{
    lemma_hex_digits(bytes[i] as int / 16);
    lemma_hex_digits(bytes[i] as int % 16);
    assert((2 * i) / 2 == i && (2 * i) % 2 == 0);
    assert((2 * i + 1) / 2 == i && (2 * i + 1) % 2 == 1);
}

/// Whether `c` is the hexadecimal digit for `n`, in either case.
pub open spec fn spells(c: char, n: int) -> bool {
    c == "0123456789abcdef"@[n] || c == "0123456789ABCDEF"@[n]
}

/// Text is read as bytes exactly when it is those bytes written as two digits each, high half
/// first, in either case.
pub proof fn hex_is_read_by_halves(s: Seq<char>, bytes: Seq<u8>)
    ensures
        hex_bytes(s) == Some(bytes) <==> {
            &&& s.len() == 2 * bytes.len()
            &&& forall|i: int|
                0 <= i < bytes.len() ==> spells(s[2 * i], #[trigger] bytes[i] as int / 16) && spells(
                    s[2 * i + 1],
                    bytes[i] as int % 16,
                )
        },
{
    let spelled = s.len() == 2 * bytes.len() && forall|i: int|
        0 <= i < bytes.len() ==> spells(s[2 * i], #[trigger] bytes[i] as int / 16) && spells(
            s[2 * i + 1],
            bytes[i] as int % 16,
        );
    if spelled {
        assert forall|i: int| 0 <= i < s.len() implies is_hex_digit(#[trigger] s[i]) by {
            let k = i / 2;
            let b = bytes[k] as int;
            lemma_hex_digits(b / 16);
            lemma_hex_digits(b % 16);
            assert(spells(s[2 * k], b / 16) && spells(s[2 * k + 1], b % 16));
            assert(hex_value(s[2 * k]) == b / 16 && hex_value(s[2 * k + 1]) == b % 16);
            assert(i == 2 * k || i == 2 * k + 1);
        }
        let read = hex_bytes(s).unwrap();
        assert forall|i: int| 0 <= i < bytes.len() implies read[i] == bytes[i] by {
            let b = bytes[i] as int;
            lemma_hex_digits(b / 16);
            lemma_hex_digits(b % 16);
            assert(hex_value(s[2 * i]) == b / 16);
            assert(hex_value(s[2 * i + 1]) == b % 16);
            assert((b / 16) * 16 + b % 16 == b);
        }
        assert(read =~= bytes);
    }
    if hex_bytes(s) == Some(bytes) {
        assert forall|i: int| 0 <= i < bytes.len() implies spells(
            s[2 * i],
            #[trigger] bytes[i] as int / 16,
        ) && spells(s[2 * i + 1], bytes[i] as int % 16) by {
            assert(is_hex_digit(s[2 * i]) && is_hex_digit(s[2 * i + 1]));
            let hi = hex_value(s[2 * i]);
            let lo = hex_value(s[2 * i + 1]);
            assert(0 <= hi < 16 && 0 <= lo < 16);
            assert(bytes[i] == (hi * 16 + lo) as u8);
            assert(bytes[i] as int / 16 == hi && bytes[i] as int % 16 == lo);
            lemma_hex_digits(hi);
            lemma_hex_digits(lo);
        }
    }
}

/// Text that is no string of hexadecimal digit pairs is read as nothing: an odd number of
/// characters, or one that is no digit.
pub proof fn other_text_is_no_hex(s: Seq<char>)
    ensures
        hex_bytes(s) is None <==> s.len() % 2 == 1 || exists|i: int|
            0 <= i < s.len() && !({
                let n = #[trigger] s[i] as int;
                48 <= n <= 57 || 65 <= n <= 70 || 97 <= n <= 102
            }),
{
    if hex_bytes(s) is None && s.len() % 2 == 0 {
        let i = choose|i: int| 0 <= i < s.len() && !is_hex_digit(#[trigger] s[i]);
        assert(!is_hex_digit(s[i]));
    }
}

/// A numeral grows by its last digit: ten times a number and `d` is written as the number and the
/// digit for `d`.
pub proof fn numeral_grows_by_its_last_digit(n: nat, d: nat)
    requires
        d < 10,
    ensures
        decimal(d) == seq!["0123456789"@[d as int]],
        n > 0 ==> decimal(10 * n + d) == decimal(n) + seq!["0123456789"@[d as int]],
{
    reveal_strlit("0123456789");
    assert(d == 0 || d == 1 || d == 2 || d == 3 || d == 4 || d == 5 || d == 6 || d == 7 || d == 8
        || d == 9);
    assert("0123456789"@[d as int] as int == 48 + d);
    if n > 0 {
        assert((10 * n + d) / 10 == n && (10 * n + d) % 10 == d);
        assert(decimal(10 * n + d) =~= decimal(n) + seq!["0123456789"@[d as int]]);
    }
}

/// A number is read one character at a time. Nothing is no number. A digit goes behind what has
/// been read, if that leaves a `u128`; anything else spoils the number, and so does a sign, but
/// for one `+` in front. What is too large stays too large, and what is spoilt stays spoilt.
pub proof fn number_is_read_by_character(s: Seq<char>, c: char)
    ensures
        parsed_u128(s) == Err::<u128, ParseU128Error>(ParseU128Error::Empty) <==> s.len() == 0,
        ({
            let d = c as int - 48;
            let digit = 0 <= d <= 9;
            let next = parsed_u128(s.push(c));
            match parsed_u128(s) {
                Ok(v) => next == (if !digit {
                    Err::<u128, ParseU128Error>(ParseU128Error::InvalidDigit)
                } else if 10 * v + d > u128::MAX {
                    Err(ParseU128Error::Overflow)
                } else {
                    Ok((10 * v + d) as u128)
                }),
                Err(ParseU128Error::Overflow) => next == Err::<u128, ParseU128Error>(
                    ParseU128Error::Overflow,
                ),
                Err(_) => next == (if digit && (s.len() == 0 || s == seq!['+']) {
                    Ok::<u128, ParseU128Error>(d as u128)
                } else {
                    Err(ParseU128Error::InvalidDigit)
                }),
            }
        }),
{
    let t = s.push(c);
    let s_body = if s.len() > 0 && s[0] == '+' {
        s.skip(1)
    } else {
        s
    };
    let t_body = if t[0] == '+' {
        t.skip(1)
    } else {
        t
    };
    lemma_leading_digits_bounds(s_body, 0);
    if s.len() == 0 {
        if c == '+' {
            assert(t_body =~= Seq::<char>::empty());
            assert(decimal_value(t_body.take(0)) == 0);
        } else {
            lemma_leading_digits(
                t_body,
                if is_decimal_digit(c) {
                    1
                } else {
                    0
                },
            );
            assert(t_body.take(1).drop_last() =~= Seq::<char>::empty());
            assert(decimal_value(t_body.take(1).drop_last()) == 0);
            assert(decimal_value(t_body.take(0)) == 0);
        }
    } else {
        assert(t[0] == s[0]);
        assert(t_body =~= s_body.push(c));
        let n = leading_digits(s_body);
        lemma_digits_end(s_body);
        assert(s_body.take(n as int) =~= t_body.take(n as int));
        if n < s_body.len() {
            assert(t_body[n as int] == s_body[n as int]);
            assert forall|i: int| 0 <= i < n implies is_decimal_digit(#[trigger] t_body[i]) by {
                assert(t_body[i] == s_body[i]);
            }
            lemma_leading_digits(t_body, n);
        } else {
            assert forall|i: int| 0 <= i < n implies is_decimal_digit(#[trigger] t_body[i]) by {
                assert(t_body[i] == s_body[i]);
            }
            assert(t_body[n as int] == c);
            if is_decimal_digit(c) {
                lemma_leading_digits(t_body, n + 1);
                assert(t_body.take(n as int + 1) =~= t_body);
                assert(t_body.drop_last() =~= s_body);
                assert(s_body.take(n as int) =~= s_body);
                lemma_decimal_value_grows(s_body, 0);
                assert(decimal_value(t_body) == decimal_value(s_body) * 10 + (c as int - 48));
                if s_body.len() == 0 {
                    assert(s =~= seq!['+']);
                    assert(decimal_value(s_body) == 0);
                }
            } else {
                lemma_leading_digits(t_body, n);
            }
        }
        if s == seq!['+'] {
            assert(s_body =~= Seq::<char>::empty());
            assert(decimal_value(s_body.take(0)) == 0);
        }
    }
}

proof fn lemma_digits_end(s: Seq<char>)
    ensures
        leading_digits(s) < s.len() ==> !is_decimal_digit(s[leading_digits(s) as int]),
    decreases s.len(),
{
    lemma_leading_digits_bounds(s, 0);
    if s.len() > 0 && is_decimal_digit(s[0]) {
        lemma_digits_end(s.skip(1));
    }
}

/// What is no number counts as zero, and a number counts as itself.
pub proof fn unreadable_counts_as_zero(s: Seq<char>)
    ensures
        parsed_u128(s) matches Ok(v) ==> u128_or_zero(s) == v,
        parsed_u128(s) is Err ==> u128_or_zero(s) == 0,
{
}

} // verus!
