use vstd::prelude::*;

verus! {

broadcast use vstd::string::group_string_axioms;

/// The characters of a string, in order.
pub fn chars_of(s: &str) -> (out: Vec<char>)
    ensures
        out@ == s@,
{
    let mut out: Vec<char> = Vec::new();
    for c in it: s.chars()
        invariant
            out@ == it.seq().take(it.index() as int),
            it.seq() == s@,
    {
        out.push(c);
    }
    out
}

// ---------------------------------------------------------------------------
// Splitting on a separator
// ---------------------------------------------------------------------------

/// The pieces of `s` between occurrences of `sep`, as `str::split` yields
/// them: `n` separators give `n + 1` pieces, some possibly empty.
pub open spec fn split_on(s: Seq<char>, sep: char) -> Seq<Seq<char>>
    decreases s.len(),
{
    if s.len() == 0 {
        seq![Seq::empty()]
    } else {
        let parts = split_on(s.drop_last(), sep);
        if s.last() == sep {
            parts.push(Seq::empty())
        } else {
            parts.update(parts.len() - 1, parts.last().push(s.last()))
        }
    }
}

/// There is always at least one piece.
pub proof fn lemma_split_nonempty(s: Seq<char>, sep: char)
    ensures
        split_on(s, sep).len() >= 1,
    decreases s.len(),
{
    if s.len() > 0 {
        lemma_split_nonempty(s.drop_last(), sep);
    }
}

/// Split `s` on `sep`, as `str::split` does.
pub fn split(s: &str, sep: char) -> (out: Vec<String>)
    ensures
        out@.len() == split_on(s@, sep).len(),
        forall|k: int| 0 <= k < out@.len() ==> #[trigger] out@[k]@ == split_on(s@, sep)[k],
{
    let chars = chars_of(s);
    let n = chars.len();
    let mut out: Vec<String> = Vec::new();
    let mut start: usize = 0;
    let mut i: usize = 0;
    while i < n
        invariant
            n == chars@.len(),
            chars@ == s@,
            start <= i <= n,
            split_on(s@.take(i as int), sep).len() == out@.len() + 1,
            forall|k: int|
                0 <= k < out@.len() ==> #[trigger] out@[k]@ == split_on(s@.take(i as int), sep)[k],
            split_on(s@.take(i as int), sep).last() == s@.subrange(start as int, i as int),
        decreases n - i,
    {
        let ghost before = split_on(s@.take(i as int), sep);
        assert(s@.take(i + 1).drop_last() =~= s@.take(i as int));
        assert(s@.take(i + 1).last() == s@[i as int]);
        if chars[i] == sep {
            let piece = s.substring_char(start, i);
            out.push(String::from_str(piece));
            start = i + 1;
            assert(s@.subrange(start as int, start as int) =~= Seq::<char>::empty());
        } else {
            assert(s@.subrange(start as int, i + 1) =~= s@.subrange(start as int, i as int).push(
                s@[i as int],
            ));
        }
        i = i + 1;
    }
    assert(s@.take(n as int) =~= s@);
    let piece = s.substring_char(start, n);
    out.push(String::from_str(piece));
    out
}

// ---------------------------------------------------------------------------
// Trimming whitespace
// ---------------------------------------------------------------------------

/// Characters with the Unicode White_Space property, which is what
/// `char::is_whitespace` tests.
pub open spec fn is_whitespace(c: char) -> bool {
    ||| ('\u{9}' <= c <= '\u{d}')
    ||| c == ' '
    ||| c == '\u{85}'
    ||| c == '\u{a0}'
    ||| c == '\u{1680}'
    ||| ('\u{2000}' <= c <= '\u{200a}')
    ||| c == '\u{2028}'
    ||| c == '\u{2029}'
    ||| c == '\u{202f}'
    ||| c == '\u{205f}'
    ||| c == '\u{3000}'
}

fn whitespace(c: char) -> (b: bool)
    ensures
        b == is_whitespace(c),
{
    ('\u{9}' <= c && c <= '\u{d}') || c == ' ' || c == '\u{85}' || c == '\u{a0}' || c
        == '\u{1680}' || ('\u{2000}' <= c && c <= '\u{200a}') || c == '\u{2028}' || c
        == '\u{2029}' || c == '\u{202f}' || c == '\u{205f}' || c == '\u{3000}'
}

/// `s` without its leading whitespace.
pub open spec fn trim_start(s: Seq<char>) -> Seq<char>
    decreases s.len(),
{
    if s.len() > 0 && is_whitespace(s[0]) {
        trim_start(s.drop_first())
    } else {
        s
    }
}

/// `s` without its trailing whitespace.
pub open spec fn trim_end(s: Seq<char>) -> Seq<char>
    decreases s.len(),
{
    if s.len() > 0 && is_whitespace(s.last()) {
        trim_end(s.drop_last())
    } else {
        s
    }
}

/// `s` without leading and trailing whitespace, as `str::trim` gives it.
pub open spec fn trim(s: Seq<char>) -> Seq<char> {
    trim_end(trim_start(s))
}

/// The bounds `[start, end)` of the trimmed part of `chars`.
fn trim_bounds(chars: &Vec<char>) -> (r: (usize, usize))
    ensures
        r.0 <= r.1 <= chars@.len(),
        chars@.subrange(r.0 as int, r.1 as int) == trim(chars@),
{
    let n = chars.len();
    let mut i: usize = 0;
    assert(chars@.skip(0) =~= chars@);
    while i < n && whitespace(chars[i])
        invariant
            i <= n == chars@.len(),
            trim_start(chars@.skip(i as int)) == trim_start(chars@),
        decreases n - i,
    {
        assert(chars@.skip(i as int).drop_first() =~= chars@.skip(i + 1));
        i = i + 1;
    }
    assert(trim_start(chars@) == chars@.skip(i as int)) by {
        if i == n {
            assert(chars@.skip(i as int) =~= Seq::<char>::empty());
        }
    }
    let mut j: usize = n;
    while j > i && whitespace(chars[j - 1])
        invariant
            i <= j <= n == chars@.len(),
            trim_end(chars@.subrange(i as int, j as int)) == trim(chars@),
        decreases j,
    {
        assert(chars@.subrange(i as int, j as int).drop_last() =~= chars@.subrange(
            i as int,
            j - 1,
        ));
        j = j - 1;
    }
    assert(chars@.skip(i as int) =~= chars@.subrange(i as int, n as int));
    (i, j)
}

// ---------------------------------------------------------------------------
// Unsigned integers as decimal text
// ---------------------------------------------------------------------------

/// Why text is not an unsigned integer, as `core::num::IntErrorKind`
/// distinguishes the cases.
#[derive(Debug, Clone, Copy, PartialEq, Eq, Structural)]
pub enum IntParseError {
    /// The text is empty.
    Empty,
    /// The text holds a character that is not a decimal digit.
    InvalidDigit,
    /// The number does not fit in a `u32`.
    PosOverflow,
}

impl IntParseError {
    /// The message `ParseIntError` displays for this kind.
    pub fn message(&self) -> (s: String)
        ensures
            s@ == match self {
                IntParseError::Empty => "cannot parse integer from empty string"@,
                IntParseError::InvalidDigit => "invalid digit found in string"@,
                IntParseError::PosOverflow => "number too large to fit in target type"@,
            },
    {
        match self {
            IntParseError::Empty => String::from_str("cannot parse integer from empty string"),
            IntParseError::InvalidDigit => String::from_str("invalid digit found in string"),
            IntParseError::PosOverflow => String::from_str(
                "number too large to fit in target type",
            ),
        }
    }
}

pub open spec fn is_digit(c: char) -> bool {
    '0' <= c <= '9'
}

pub open spec fn digit_value(c: char) -> nat {
    (c as u32 - '0' as u32) as nat
}

/// Read the decimal digits of `s` after the value `acc` read so far: the
/// first character that is not a digit is an invalid digit, and a value
/// past `max` an overflow, whichever comes first from the left.
pub open spec fn parse_digits(acc: nat, s: Seq<char>, max: nat) -> Result<nat, IntParseError>
    decreases s.len(),
{
    if s.len() == 0 {
        Ok(acc)
    } else if !is_digit(s[0]) {
        Err(IntParseError::InvalidDigit)
    } else if acc * 10 + digit_value(s[0]) > max {
        Err(IntParseError::PosOverflow)
    } else {
        parse_digits(acc * 10 + digit_value(s[0]), s.drop_first(), max)
    }
}

/// The value of `s` as an unsigned integer of at most `max`, as
/// `from_str` of the unsigned integer types reads it: an optional leading
/// `+`, then at least one decimal digit.
pub open spec fn parse_unsigned(s: Seq<char>, max: nat) -> Result<nat, IntParseError> {
    if s.len() == 0 {
        Err(IntParseError::Empty)
    } else if s.len() == 1 && (s[0] == '+' || s[0] == '-') {
        Err(IntParseError::InvalidDigit)
    } else if s[0] == '+' {
        parse_digits(0, s.drop_first(), max)
    } else {
        parse_digits(0, s, max)
    }
}

/// The value of `s` as `u32::from_str` reads it.
pub open spec fn parse_u32(s: Seq<char>) -> Result<u32, IntParseError> {
    match parse_unsigned(s, u32::MAX as nat) {
        Ok(v) => Ok(v as u32),
        Err(e) => Err(e),
    }
}

/// The value of `s` as `u64::from_str` reads it.
pub open spec fn parse_u64(s: Seq<char>) -> Result<u64, IntParseError> {
    match parse_unsigned(s, u64::MAX as nat) {
        Ok(v) => Ok(v as u64),
        Err(e) => Err(e),
    }
}

/// Parse `chars[start..end]` as an unsigned integer of at most `max`.
fn parse_range(chars: &Vec<char>, start: usize, end: usize, max: u64) -> (r: Result<
    u64,
    IntParseError,
>)
    requires
        start <= end <= chars@.len(),
    ensures
        match (r, parse_unsigned(chars@.subrange(start as int, end as int), max as nat)) {
            (Ok(a), Ok(b)) => a == b,
            (Err(a), Err(b)) => a == b,
            _ => false,
        },
{
    let ghost s = chars@.subrange(start as int, end as int);
    if start == end {
        return Err(IntParseError::Empty);
    }
    if end - start == 1 && (chars[start] == '+' || chars[start] == '-') {
        return Err(IntParseError::InvalidDigit);
    }
    let mut i: usize = start;
    if chars[start] == '+' {
        i = start + 1;
        assert(s.drop_first() =~= chars@.subrange(i as int, end as int));
    } else {
        assert(s =~= chars@.subrange(i as int, end as int));
    }
    let mut acc: u128 = 0;
    while i < end
        invariant
            start <= i <= end <= chars@.len(),
            acc <= max,
            s == chars@.subrange(start as int, end as int),
            parse_digits(acc as nat, chars@.subrange(i as int, end as int), max as nat)
                == parse_unsigned(s, max as nat),
        decreases end - i,
    {
        let c = chars[i];
        let ghost rest = chars@.subrange(i as int, end as int);
        assert(rest.len() > 0 && rest[0] == c);
        if !('0' <= c && c <= '9') {
            assert(parse_digits(acc as nat, rest, max as nat) == Err::<nat, IntParseError>(
                IntParseError::InvalidDigit,
            ));
            return Err(IntParseError::InvalidDigit);
        }
        let d = (c as u32 - '0' as u32) as u128;
        assert(d == digit_value(c));
        if acc * 10 + d > max as u128 {
            assert(parse_digits(acc as nat, rest, max as nat) == Err::<nat, IntParseError>(
                IntParseError::PosOverflow,
            ));
            return Err(IntParseError::PosOverflow);
        }
        acc = acc * 10 + d;
        assert(chars@.subrange(i as int, end as int).drop_first() =~= chars@.subrange(
            i + 1,
            end as int,
        ));
        i = i + 1;
    }
    Ok(acc as u64)
}

/// Parse a trimmed decimal number, as `text.trim().parse::<u32>()` does.
pub fn parse_trimmed_u32(text: &str) -> (r: Result<u32, IntParseError>)
    ensures
        r == parse_u32(trim(text@)),
{
    let chars = chars_of(text);
    let (start, end) = trim_bounds(&chars);
    match parse_range(&chars, start, end, 0xffff_ffff) {
        Ok(v) => Ok(v as u32),
        Err(e) => Err(e),
    }
}

/// Parse the trimmed characters `chars[start..end]`, as
/// `text.trim().parse::<u64>()` does for the text they spell.
pub fn parse_trimmed_u64_range(chars: &Vec<char>, start: usize, end: usize) -> (r: Result<
    u64,
    IntParseError,
>)
    requires
        start <= end <= chars@.len(),
    ensures
        r == parse_u64(trim(chars@.subrange(start as int, end as int))),
{
    let part = vstd::slice::slice_subrange(chars.as_slice(), start, end);
    let piece = vstd::slice::slice_to_vec(part);
    assert(piece@ == chars@.subrange(start as int, end as int));
    let (a, b) = trim_bounds(&piece);
    match parse_range(&piece, a, b, 0xffff_ffff_ffff_ffff) {
        Ok(v) => Ok(v),
        Err(e) => Err(e),
    }
}

/// The decimal digit character of `d`.
pub open spec fn digit_char(d: nat) -> char {
    if d == 0 {
        '0'
    } else if d == 1 {
        '1'
    } else if d == 2 {
        '2'
    } else if d == 3 {
        '3'
    } else if d == 4 {
        '4'
    } else if d == 5 {
        '5'
    } else if d == 6 {
        '6'
    } else if d == 7 {
        '7'
    } else if d == 8 {
        '8'
    } else {
        '9'
    }
}

/// The decimal representation of `n`, without leading zeros.
pub open spec fn decimal(n: nat) -> Seq<char>
    decreases n,
{
    if n < 10 {
        seq![digit_char(n)]
    } else {
        decimal(n / 10).push(digit_char(n % 10))
    }
}

fn digit_str(d: u64) -> (s: &'static str)
    requires
        d < 10,
    ensures
        s@ == seq![digit_char(d as nat)],
{
    proof {
        reveal_strlit("0");
        reveal_strlit("1");
        reveal_strlit("2");
        reveal_strlit("3");
        reveal_strlit("4");
        reveal_strlit("5");
        reveal_strlit("6");
        reveal_strlit("7");
        reveal_strlit("8");
        reveal_strlit("9");
    }
    if d == 0 {
        "0"
    } else if d == 1 {
        "1"
    } else if d == 2 {
        "2"
    } else if d == 3 {
        "3"
    } else if d == 4 {
        "4"
    } else if d == 5 {
        "5"
    } else if d == 6 {
        "6"
    } else if d == 7 {
        "7"
    } else if d == 8 {
        "8"
    } else {
        "9"
    }
}

/// Format `n` in decimal, as `n.to_string()` does for unsigned integers.
pub fn to_decimal(n: u64) -> (s: String)
    ensures
        s@ == decimal(n as nat),
    decreases n,
{
    if n < 10 {
        String::from_str(digit_str(n))
    } else {
        let mut s = to_decimal(n / 10);
        s.append(digit_str(n % 10));
        s
    }
}

/// Every character of a decimal representation is a digit, and there is
/// at least one.
pub proof fn lemma_decimal_digits(n: nat)
    ensures
        decimal(n).len() >= 1,
        forall|i: int| 0 <= i < decimal(n).len() ==> #[trigger] is_digit(decimal(n)[i]),
    decreases n,
{
    if n >= 10 {
        lemma_decimal_digits(n / 10);
    }
}

/// Reading one more digit after a prefix that parsed to `v` multiplies by
/// ten and adds the digit.
proof fn lemma_parse_push(acc: nat, t: Seq<char>, c: char, v: nat, max: nat)
    requires
        acc <= max,
        parse_digits(acc, t, max) == Ok::<nat, IntParseError>(v),
        is_digit(c),
        v * 10 + digit_value(c) <= max,
    ensures
        parse_digits(acc, t.push(c), max) == Ok::<nat, IntParseError>(v * 10 + digit_value(c)),
    decreases t.len(),
{
    reveal_with_fuel(parse_digits, 2);
    if t.len() == 0 {
        assert(v == acc);
        assert(t.push(c)[0] == c);
        assert(t.push(c).drop_first() =~= Seq::<char>::empty());
    } else {
        let next = acc * 10 + digit_value(t[0]);
        assert(is_digit(t[0]));
        assert(next <= max);
        assert(parse_digits(next, t.drop_first(), max) == Ok::<nat, IntParseError>(v));
        assert(t.push(c)[0] == t[0]);
        assert(t.push(c).drop_first() =~= t.drop_first().push(c));
        lemma_parse_push(next, t.drop_first(), c, v, max);
    }
}

proof fn lemma_parse_decimal(n: nat, max: nat)
    requires
        n <= max,
    ensures
        parse_digits(0, decimal(n), max) == Ok::<nat, IntParseError>(n),
    decreases n,
{
    reveal_with_fuel(parse_digits, 2);
    if n < 10 {
        assert(digit_value(digit_char(n)) == n);
        assert(seq![digit_char(n)].drop_first() =~= Seq::<char>::empty());
    } else {
        lemma_parse_decimal(n / 10, max);
        assert(digit_value(digit_char(n % 10)) == n % 10);
        assert((n / 10) * 10 + n % 10 == n);
        lemma_parse_push(0, decimal(n / 10), digit_char(n % 10), n / 10, max);
    }
}

/// A decimal representation is its own trim, and reads back as the number.
pub proof fn lemma_decimal_parses(n: nat, max: nat)
    requires
        n <= max,
    ensures
        trim(decimal(n)) == decimal(n),
        parse_unsigned(decimal(n), max) == Ok::<nat, IntParseError>(n),
{
    lemma_parse_decimal(n, max);
    let d = decimal(n);
    lemma_decimal_digits(n);
    assert(is_digit(d[0]));
    assert(trim_start(d) == d);
    assert(is_digit(d[d.len() - 1]));
    assert(trim_end(d) == d);
}

/// A number written in decimal reads back as the same number: what
/// `to_decimal` writes, `parse_trimmed_u32` reads.
pub proof fn lemma_decimal_roundtrip(n: u32)
    ensures
        parse_u32(trim(decimal(n as nat))) == Ok::<u32, IntParseError>(n),
{
    lemma_decimal_parses(n as nat, u32::MAX as nat);
}

/// The same for 64-bit numbers.
pub proof fn lemma_decimal_roundtrip_u64(n: u64)
    ensures
        parse_u64(trim(decimal(n as nat))) == Ok::<u64, IntParseError>(n),
{
    lemma_decimal_parses(n as nat, u64::MAX as nat);
}

} // verus!
