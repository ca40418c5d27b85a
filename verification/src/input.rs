//! Reading the number that a user types at the client's prompt: the line
//! is trimmed of white space at both ends and read as a decimal `u32`, with
//! an optional leading `+`, as `str::trim` followed by `str::parse::<u32>`
//! does.

use vstd::prelude::*;

verus! {

/// Why a typed line is not a number.
#[derive(Debug, Clone, Copy, PartialEq, Eq, Structural)]
pub enum ParseNumberError {
    /// Nothing but white space was typed.
    Empty,
    /// A character other than a decimal digit was found (a lone sign
    /// counts as one).
    InvalidDigit,
    /// The number does not fit in a `u32`.
    PosOverflow,
}

/// Whether a character has the Unicode `White_Space` property.
pub open spec fn is_white_space(c: char) -> bool {
    let u: u32 = c as u32;
    ||| 0x09 <= u <= 0x0d
    ||| u == 0x20
    ||| u == 0x85
    ||| u == 0xa0
    ||| u == 0x1680
    ||| 0x2000 <= u <= 0x200a
    ||| u == 0x2028
    ||| u == 0x2029
    ||| u == 0x202f
    ||| u == 0x205f
    ||| u == 0x3000
}

/// The text with its leading white space removed.
pub open spec fn trim_start(s: Seq<char>) -> Seq<char>
    decreases s.len(),
{
    if s.len() > 0 && is_white_space(s[0]) {
        trim_start(s.subrange(1, s.len() as int))
    } else {
        s
    }
}

/// The text with its trailing white space removed.
pub open spec fn trim_end(s: Seq<char>) -> Seq<char>
    decreases s.len(),
{
    if s.len() > 0 && is_white_space(s.last()) {
        trim_end(s.drop_last())
    } else {
        s
    }
}

/// The text with white space removed at both ends.
pub open spec fn trim(s: Seq<char>) -> Seq<char> {
    trim_end(trim_start(s))
}

/// Whether a character is an ASCII decimal digit.
pub open spec fn is_decimal_digit(c: char) -> bool {
    '0' <= c <= '9'
}

/// The value of a decimal digit.
pub open spec fn digit_value(c: char) -> nat {
    ((c as u32) - ('0' as u32)) as nat
}

/// Reads a run of decimal digits from left to right: the first character
/// that is not a digit, or the first digit that makes the value exceed
/// `u32::MAX`, decides the error.
pub open spec fn parse_digits(d: Seq<char>) -> Result<u32, ParseNumberError>
    decreases d.len(),
{
    if d.len() == 0 {
        Ok(0)
    } else {
        match parse_digits(d.drop_last()) {
            Err(e) => Err(e),
            Ok(v) => if !is_decimal_digit(d.last()) {
                Err(ParseNumberError::InvalidDigit)
            } else if v * 10 + digit_value(d.last()) > u32::MAX {
                Err(ParseNumberError::PosOverflow)
            } else {
                Ok((v * 10 + digit_value(d.last())) as u32)
            },
        }
    }
}

/// Reads a decimal `u32` with an optional leading `+`.
pub open spec fn parse_u32(t: Seq<char>) -> Result<u32, ParseNumberError> {
    if t.len() == 0 {
        Err(ParseNumberError::Empty)
    } else if t[0] == '+' || t[0] == '-' {
        if t.len() == 1 {
            Err(ParseNumberError::InvalidDigit)
        } else if t[0] == '+' {
            parse_digits(t.subrange(1, t.len() as int))
        } else {
            parse_digits(t)
        }
    } else {
        parse_digits(t)
    }
}

/// Ten to the power `n`.
pub open spec fn pow10(n: nat) -> nat
    decreases n,
{
    if n == 0 {
        1
    } else {
        10 * pow10((n - 1) as nat)
    }
}

/// Whether every character is an ASCII decimal digit `'0'..='9'`.
pub open spec fn all_ascii_digits(d: Seq<char>) -> bool {
    forall|i: int| 0 <= i < d.len() ==> '0' <= #[trigger] d[i] <= '9'
}

/// Whether every character has the `White_Space` property.
pub open spec fn all_white_space(w: Seq<char>) -> bool {
    forall|i: int| 0 <= i < w.len() ==> is_white_space(#[trigger] w[i])
}

/// The value that a run of ASCII digits denotes in decimal positional
/// notation: the sum of `(d[i] as u32 - 0x30) * 10^(k - 1 - i)` over its `k`
/// digits.
pub open spec fn decimal_value(d: Seq<char>) -> nat
    decreases d.len(),
{
    if d.len() == 0 {
        0
    } else {
        ((d[0] as u32) - 0x30) as nat * pow10((d.len() - 1) as nat) + decimal_value(
            d.subrange(1, d.len() as int),
        )
    }
}

/// The positional value of a digit run is ten times the value of the run
/// without its last digit, plus the last digit.
proof fn lemma_decimal_value_last(d: Seq<char>)
    requires
        d.len() > 0,
        all_ascii_digits(d),
    ensures
        decimal_value(d) == 10 * decimal_value(d.drop_last()) + ((d.last() as u32) - 0x30) as nat,
    decreases d.len(),
{
    if d.len() == 1 {
        assert(d.drop_last().len() == 0);
        assert(d.subrange(1, 1).len() == 0);
        assert(decimal_value(d.subrange(1, 1)) == 0);
        assert(decimal_value(d.drop_last()) == 0);
        assert(pow10(0) == 1);
        assert(d.last() == d[0]);
    } else {
        let t = d.subrange(1, d.len() as int);
        assert(all_ascii_digits(t)) by {
            assert forall|i: int| 0 <= i < t.len() implies '0' <= #[trigger] t[i] <= '9' by {
                assert(t[i] == d[i + 1]);
            }
        }
        lemma_decimal_value_last(t);
        let dl = d.drop_last();
        assert(dl.subrange(1, dl.len() as int) == t.drop_last());
        assert(dl[0] == d[0]);
        assert(t.last() == d.last());
        let v0: nat = ((d[0] as u32) - 0x30) as nat;
        let p: nat = pow10((d.len() - 2) as nat);
        assert(pow10((d.len() - 1) as nat) == 10 * p);
        assert(10 * (v0 * p) == v0 * (10 * p)) by (nonlinear_arith);
        assert(decimal_value(dl) == v0 * p + decimal_value(t.drop_last()));
        assert(decimal_value(d) == v0 * (10 * p) + decimal_value(t));
    }
}

/// A run of ASCII digits whose positional value fits in a `u32` is read as
/// that value.
proof fn lemma_parse_digits_decimal(d: Seq<char>)
    requires
        all_ascii_digits(d),
        decimal_value(d) <= u32::MAX,
    ensures
        parse_digits(d) == Ok::<u32, ParseNumberError>(decimal_value(d) as u32),
    decreases d.len(),
{
    if d.len() > 0 {
        lemma_decimal_value_last(d);
        let dl = d.drop_last();
        assert(all_ascii_digits(dl)) by {
            assert forall|i: int| 0 <= i < dl.len() implies '0' <= #[trigger] dl[i] <= '9' by {
                assert(dl[i] == d[i]);
            }
        }
        lemma_parse_digits_decimal(dl);
        assert('0' <= d[d.len() - 1] <= '9');
    }
}

/// Leading white space is removed, and only it.
proof fn lemma_trim_start_white(w: Seq<char>, s: Seq<char>)
    requires
        all_white_space(w),
        s.len() == 0 || !is_white_space(s[0]),
    ensures
        trim_start(w + s) == s,
    decreases w.len(),
{
    if w.len() == 0 {
        assert(w + s == s);
    } else {
        let ws = w + s;
        assert(ws[0] == w[0]);
        let w1 = w.subrange(1, w.len() as int);
        assert(ws.subrange(1, ws.len() as int) == w1 + s);
        assert(all_white_space(w1)) by {
            assert forall|i: int| 0 <= i < w1.len() implies is_white_space(#[trigger] w1[i]) by {
                assert(w1[i] == w[i + 1]);
            }
        }
        lemma_trim_start_white(w1, s);
    }
}

/// Trailing white space is removed, and only it.
proof fn lemma_trim_end_white(s: Seq<char>, w: Seq<char>)
    requires
        all_white_space(w),
        s.len() == 0 || !is_white_space(s.last()),
    ensures
        trim_end(s + w) == s,
    decreases w.len(),
{
    if w.len() == 0 {
        assert(s + w == s);
    } else {
        let sw = s + w;
        assert(sw.last() == w.last());
        let w1 = w.drop_last();
        assert(sw.drop_last() == s + w1);
        assert(all_white_space(w1)) by {
            assert forall|i: int| 0 <= i < w1.len() implies is_white_space(#[trigger] w1[i]) by {
                assert(w1[i] == w[i]);
            }
        }
        lemma_trim_end_white(s, w1);
    }
}

/// A typed line made of white space, then a non-empty run of ASCII digits,
/// then white space is read as the run's decimal value when that value fits
/// in a `u32`, and is refused as too large when it does not. In particular
/// each single digit `c` (with or without a trailing newline) is read as
/// `c as u32 - 0x30`.
pub proof fn lemma_parse_padded_digits(pre: Seq<char>, d: Seq<char>, post: Seq<char>)
    requires
        all_white_space(pre),
        all_white_space(post),
        d.len() > 0,
        all_ascii_digits(d),
    ensures
        decimal_value(d) <= u32::MAX ==> parse_u32(trim(pre + d + post)) == Ok::<
            u32,
            ParseNumberError,
        >(decimal_value(d) as u32),
        decimal_value(d) > u32::MAX ==> parse_u32(trim(pre + d + post)) == Err::<
            u32,
            ParseNumberError,
        >(ParseNumberError::PosOverflow),
        d.len() == 1 ==> decimal_value(d) == ((d[0] as u32) - 0x30) as nat,
{
    assert('0' <= d[0] <= '9');
    assert('0' <= d[d.len() - 1] <= '9');
    assert(!is_white_space(d[0]));
    assert(!is_white_space(d.last()));
    assert(pre + d + post == pre + (d + post));
    assert((d + post)[0] == d[0]);
    lemma_trim_start_white(pre, d + post);
    lemma_trim_end_white(d, post);
    if d.len() == 1 {
        assert(d.subrange(1, 1).len() == 0);
        assert(decimal_value(d.subrange(1, 1)) == 0);
        assert(pow10(0) == 1);
        let v0: nat = ((d[0] as u32) - 0x30) as nat;
        assert(((d.len() - 1) as nat) == 0nat);
        assert(d.subrange(1, d.len() as int) == d.subrange(1, 1));
        assert(decimal_value(d) == v0 * pow10(0) + decimal_value(d.subrange(1, 1)));
        assert(v0 * 1 == v0) by (nonlinear_arith);
    }
    if decimal_value(d) <= u32::MAX {
        lemma_parse_digits_decimal(d);
    } else {
        lemma_parse_digits_overflow(d);
    }
}

/// A run of ASCII digits whose positional value exceeds `u32::MAX` is
/// refused as too large.
proof fn lemma_parse_digits_overflow(d: Seq<char>)
    requires
        all_ascii_digits(d),
        decimal_value(d) > u32::MAX,
    ensures
        parse_digits(d) == Err::<u32, ParseNumberError>(ParseNumberError::PosOverflow),
    decreases d.len(),
{
    lemma_decimal_value_last(d);
    let dl = d.drop_last();
    assert(all_ascii_digits(dl)) by {
        assert forall|i: int| 0 <= i < dl.len() implies '0' <= #[trigger] dl[i] <= '9' by {
            assert(dl[i] == d[i]);
        }
    }
    assert('0' <= d[d.len() - 1] <= '9');
    if decimal_value(dl) <= u32::MAX {
        lemma_parse_digits_decimal(dl);
    } else {
        lemma_parse_digits_overflow(dl);
    }
}

fn is_white_space_char(c: char) -> (r: bool)
    ensures
        r == is_white_space(c),
{
    let u: u32 = c as u32;
    (0x09 <= u && u <= 0x0d) || u == 0x20 || u == 0x85 || u == 0xa0 || u == 0x1680 || (0x2000
        <= u && u <= 0x200a) || u == 0x2028 || u == 0x2029 || u == 0x202f || u == 0x205f || u
        == 0x3000
}

proof fn lemma_trim_start_step(s: Seq<char>, i: int)
    requires
        0 <= i < s.len(),
        is_white_space(s[i]),
    ensures
        trim_start(s.subrange(i, s.len() as int)) == trim_start(s.subrange(i + 1, s.len() as int)),
{
    let t = s.subrange(i, s.len() as int);
    assert(t.subrange(1, t.len() as int) == s.subrange(i + 1, s.len() as int));
}

proof fn lemma_trim_end_step(s: Seq<char>, i: int, j: int)
    requires
        0 <= i < j <= s.len(),
        is_white_space(s[j - 1]),
    ensures
        trim_end(s.subrange(i, j)) == trim_end(s.subrange(i, j - 1)),
{
    let t = s.subrange(i, j);
    assert(t.drop_last() == s.subrange(i, j - 1));
}

proof fn lemma_parse_digits_step(d: Seq<char>, k: int)
    requires
        0 <= k < d.len(),
    ensures
        parse_digits(d.subrange(0, k + 1)) == match parse_digits(d.subrange(0, k)) {
            Err(e) => Err(e),
            Ok(v) => if !is_decimal_digit(d[k]) {
                Err(ParseNumberError::InvalidDigit)
            } else if v * 10 + digit_value(d[k]) > u32::MAX {
                Err(ParseNumberError::PosOverflow)
            } else {
                Ok((v * 10 + digit_value(d[k])) as u32)
            },
        },
{
    let p = d.subrange(0, k + 1);
    assert(p.drop_last() == d.subrange(0, k));
    assert(p.last() == d[k]);
}

/// Reads the number typed on a line, as `line.trim().parse::<u32>()`
/// does: white space is removed at both ends, an optional `+` may lead,
/// and the rest must be decimal digits whose value fits in a `u32`.
pub fn parse_number(line: &str) -> (r: Result<u32, ParseNumberError>)
    ensures
        r == parse_u32(trim(line@)),
        line@.len() > 0 && all_ascii_digits(line@) && decimal_value(line@) <= u32::MAX ==> r
            == Ok::<u32, ParseNumberError>(decimal_value(line@) as u32),
{
    let r = parse_trimmed(line);
    proof {
        if line@.len() > 0 && all_ascii_digits(line@) {
            lemma_parse_padded_digits(Seq::empty(), line@, Seq::empty());
            assert(Seq::<char>::empty() + line@ + Seq::<char>::empty() == line@);
        }
    }
    r
}

/// Trims the line and reads it as a decimal `u32`.
fn parse_trimmed(line: &str) -> (r: Result<u32, ParseNumberError>)
    ensures
        r == parse_u32(trim(line@)),
{
    let n: usize = line.unicode_len();
    let ghost s = line@;
    let mut i: usize = 0;
    assert(s.subrange(0, n as int) == s);
    while i < n && is_white_space_char(line.get_char(i))
        invariant
            i <= n,
            n == s.len(),
            s == line@,
            trim_start(s) == trim_start(s.subrange(i as int, n as int)),
        decreases n - i,
    {
        proof {
            lemma_trim_start_step(s, i as int);
        }
        i = i + 1;
    }
    proof {
        assert(s.subrange(0, n as int) == s);
        if i < n {
            assert(s.subrange(i as int, n as int)[0] == s[i as int]);
        }
    }
    assert(trim_start(s) == s.subrange(i as int, n as int));
    let mut j: usize = n;
    while j > i && is_white_space_char(line.get_char(j - 1))
        invariant
            i <= j <= n,
            n == s.len(),
            s == line@,
            trim(s) == trim_end(s.subrange(i as int, j as int)),
        decreases j - i,
    {
        proof {
            lemma_trim_end_step(s, i as int, j as int);
        }
        j = j - 1;
    }
    let ghost t = s.subrange(i as int, j as int);
    proof {
        if j > i {
            assert(t.last() == s[j - 1]);
        }
    }
    assert(trim(s) == t);
    if i == j {
        return Err(ParseNumberError::Empty);
    }
    let first = line.get_char(i);
    let mut k: usize = i;
    if first == '+' || first == '-' {
        if j - i == 1 {
            return Err(ParseNumberError::InvalidDigit);
        }
        if first == '+' {
            k = i + 1;
        }
    }
    let ghost d = s.subrange(k as int, j as int);
    proof {
        assert(t[0] == first);
        if first == '+' {
            assert(t.subrange(1, t.len() as int) == d);
        } else {
            assert(t == d);
        }
        assert(d.subrange(0, 0) == Seq::<char>::empty());
    }
    let mut value: u32 = 0;
    let mut m: usize = k;
    while m < j
        invariant
            k <= m <= j <= n,
            n == s.len(),
            s == line@,
            d == s.subrange(k as int, j as int),
            parse_u32(trim(line@)) == parse_digits(d),
            parse_digits(d.subrange(0, m - k)) == Ok::<u32, ParseNumberError>(value),
        decreases j - m,
    {
        let c = line.get_char(m);
        proof {
            lemma_parse_digits_step(d, (m - k) as int);
            assert(d[(m - k) as int] == c);
        }
        if !('0' <= c && c <= '9') {
            proof {
                lemma_parse_digits_rest_err(d, (m - k + 1) as int, ParseNumberError::InvalidDigit);
            }
            return Err(ParseNumberError::InvalidDigit);
        }
        let digit: u32 = (c as u32) - ('0' as u32);
        if value > 429496729 || (value == 429496729 && digit > 5) {
            proof {
                lemma_parse_digits_rest_err(d, (m - k + 1) as int, ParseNumberError::PosOverflow);
            }
            return Err(ParseNumberError::PosOverflow);
        }
        value = value * 10 + digit;
        m = m + 1;
    }
    assert(d.subrange(0, m - k) == d);
    Ok(value)
}

/// Once reading the digits has failed, reading more of them fails in the
/// same way.
proof fn lemma_parse_digits_rest_err(d: Seq<char>, k: int, e: ParseNumberError)
    requires
        0 <= k <= d.len(),
        parse_digits(d.subrange(0, k)) == Err::<u32, ParseNumberError>(e),
    ensures
        parse_digits(d) == Err::<u32, ParseNumberError>(e),
    decreases d.len() - k,
{
    if k < d.len() {
        lemma_parse_digits_step(d, k);
        lemma_parse_digits_rest_err(d, k + 1, e);
    } else {
        assert(d.subrange(0, k) == d);
    }
}

} // verus!
