//! The API server's listen address: the port comes from the environment as
//! text and is parsed the way `u16::from_str` documents it, and the address
//! the server binds is `0.0.0.0:{port}`.
use vstd::prelude::*;

verus! {

/// An ASCII decimal digit.
pub open spec fn is_digit(c: char) -> bool {
    '0' <= c && c <= '9'
}

/// The value of a decimal digit.
pub open spec fn digit_value(c: char) -> nat {
    (c as int - '0' as int) as nat
}

/// All characters are decimal digits.
pub open spec fn all_digits(s: Seq<char>) -> bool {
    forall|i: int| 0 <= i < s.len() ==> is_digit(#[trigger] s[i])
}

/// The number that a sequence of decimal digits denotes (leading zeros
/// allowed, the empty sequence denotes 0).
pub open spec fn digits_value(s: Seq<char>) -> nat
    decreases s.len(),
{
    if s.len() == 0 {
        0
    } else {
        digits_value(s.drop_last()) * 10 + digit_value(s.last())
    }
}

/// What `u16::from_str` gives for `s`: an optional `+` followed by at least
/// one decimal digit and nothing else, denoting at most `u16::MAX`; anything
/// else is an error (`None`).
pub open spec fn spec_parse_u16(s: Seq<char>) -> Option<u16> {
    if s.len() == 0 {
        None
    } else {
        let digits = if s[0] == '+' { s.drop_first() } else { s };
        if digits.len() == 0 || !all_digits(digits) || digits_value(digits) > u16::MAX {
            None
        } else {
            Some(digits_value(digits) as u16)
        }
    }
}

/// The digit character for `d < 10`.
pub open spec fn digit_char(d: nat) -> char {
    if d == 0 { '0' }
    else if d == 1 { '1' }
    else if d == 2 { '2' }
    else if d == 3 { '3' }
    else if d == 4 { '4' }
    else if d == 5 { '5' }
    else if d == 6 { '6' }
    else if d == 7 { '7' }
    else if d == 8 { '8' }
    else { '9' }
}

/// The decimal rendering of `n`, without leading zeros.
pub open spec fn decimal(n: nat) -> Seq<char>
    decreases n,
{
    if n < 10 {
        seq![digit_char(n)]
    } else {
        decimal(n / 10) + seq![digit_char(n % 10)]
    }
}

/// The address the API server binds for `port`.
pub open spec fn spec_listen_address(port: u16) -> Seq<char> {
    "0.0.0.0:"@ + decimal(port as nat)
}

/// Parses the `PORT` setting as `u16::from_str` does; `None` where that
/// returns an error.
pub fn parse_port(s: &str) -> (res: Option<u16>)
    ensures
        res == spec_parse_u16(s@),
        res matches Some(v) ==> v as nat == digits_value(
            if s@[0] == '+' { s@.drop_first() } else { s@ },
        ),
{
    proof {
        lemma_parse_u16_value(s@);
    }
    let n = s.unicode_len();
    if n == 0 {
        return None;
    }
    let start: usize = if s.get_char(0) == '+' { 1 } else { 0 };
    if start == n {
        return None;
    }
    let ghost digits = if s@[0] == '+' { s@.drop_first() } else { s@ };
    assert(digits =~= s@.subrange(start as int, n as int));
    let mut i: usize = start;
    let mut value: u32 = 0;
    while i < n
        invariant
            n == s@.len(),
            start < n,
            start <= i <= n,
            digits == (if s@[0] == '+' { s@.drop_first() } else { s@ }),
            digits =~= s@.subrange(start as int, n as int),
            all_digits(s@.subrange(start as int, i as int)),
            value == digits_value(s@.subrange(start as int, i as int)),
            value <= u16::MAX,
        decreases n - i,
    {
        let c = s.get_char(i);
        let ghost prefix = s@.subrange(start as int, i as int);
        let ghost next = s@.subrange(start as int, i + 1);
        assert(next =~= prefix.push(c));
        assert(next.drop_last() =~= prefix);
        if !('0' <= c && c <= '9') {
            assert(digits[i - start] == c);
            assert(!is_digit(digits[i - start]));
            assert(!all_digits(digits));
            return None;
        }
        let d: u32 = (c as u32) - ('0' as u32);
        value = value * 10 + d;
        assert(digit_value(c) == d);
        assert(next.last() == c);
        assert(digits_value(next) == value);
        if value > 65535 {
            proof {
                lemma_digits_value_prefix(digits, (i + 1 - start) as int);
                assert(digits.subrange(0, (i + 1 - start) as int) =~= next);
                assert(digits.len() == 0 || !all_digits(digits) || digits_value(digits) > u16::MAX);
            }
            return None;
        }
        proof {
            assert forall|k: int| 0 <= k < next.len() implies is_digit(#[trigger] next[k]) by {
                if k < prefix.len() {
                    assert(next[k] == prefix[k]);
                }
            }
        }
        i = i + 1;
    }
    assert(s@.subrange(start as int, n as int) =~= digits);
    Some(value as u16)
}

/// The address the API server binds: `0.0.0.0:{port}`.
pub fn listen_address(port: u16) -> (res: String)
    ensures
        res@ == spec_listen_address(port),
        res@.subrange(0, 8) == "0.0.0.0:"@,
        all_digits(res@.subrange(8, res@.len() as int)),
        digits_value(res@.subrange(8, res@.len() as int)) == port as nat,
{
    proof {
        lemma_listen_address_port(port);
    }
    let mut s = String::from_str("0.0.0.0:");
    push_decimal(&mut s, port);
    s
}

/// The one-character string of a decimal digit.
fn digit_str(d: u16) -> (res: &'static str)
    requires
        d < 10,
    ensures
        res@ == seq![digit_char(d as nat)],
{
    if d == 0 { proof { reveal_strlit("0"); } "0" }
    else if d == 1 { proof { reveal_strlit("1"); } "1" }
    else if d == 2 { proof { reveal_strlit("2"); } "2" }
    else if d == 3 { proof { reveal_strlit("3"); } "3" }
    else if d == 4 { proof { reveal_strlit("4"); } "4" }
    else if d == 5 { proof { reveal_strlit("5"); } "5" }
    else if d == 6 { proof { reveal_strlit("6"); } "6" }
    else if d == 7 { proof { reveal_strlit("7"); } "7" }
    else if d == 8 { proof { reveal_strlit("8"); } "8" }
    else { proof { reveal_strlit("9"); } "9" }
}

/// Appends the decimal rendering of `n` to `s`.
fn push_decimal(s: &mut String, n: u16)
    ensures
        final(s)@ == old(s)@ + decimal(n as nat),
    decreases n,
{
    if n >= 10 {
        push_decimal(s, n / 10);
    }
    let ghost before = s@;
    s.append(digit_str(n % 10));
    proof {
        if n >= 10 {
            assert(old(s)@ + decimal(n as nat) =~= old(s)@ + decimal((n / 10) as nat) + seq![digit_char((n % 10) as nat)]);
        } else {
            assert(decimal(n as nat) == seq![digit_char(n as nat)]);
        }
    }
}

/// The value of a digit sequence is at least the value of any prefix.
proof fn lemma_digits_value_prefix(s: Seq<char>, k: int)
    requires
        0 <= k <= s.len(),
    ensures
        digits_value(s) >= digits_value(s.subrange(0, k)),
    decreases s.len() - k,
{
    if k < s.len() {
        lemma_digits_value_prefix(s, k + 1);
        let p = s.subrange(0, k + 1);
        assert(p.drop_last() =~= s.subrange(0, k));
    } else {
        assert(s.subrange(0, k) =~= s);
    }
}

/// The rendering of a digit is that digit.
proof fn lemma_digit_char(d: nat)
    requires
        d < 10,
    ensures
        is_digit(digit_char(d)),
        digit_value(digit_char(d)) == d,
        digit_char(d) != '+',
{
}

/// The decimal rendering is a non-empty sequence of digits that denotes `n`.
pub proof fn lemma_decimal(n: nat)
    ensures
        decimal(n).len() > 0,
        all_digits(decimal(n)),
        digits_value(decimal(n)) == n,
        decimal(n)[0] != '+',
        n > 0 ==> decimal(n)[0] != '0',
    decreases n,
{
    if n < 10 {
        lemma_digit_char(n);
        let d = decimal(n);
        assert(d.drop_last() =~= Seq::<char>::empty());
        assert(digits_value(d.drop_last()) == 0);
        assert(d.last() == digit_char(n));
        assert(digits_value(d) == digits_value(d.drop_last()) * 10 + digit_value(d.last()));
    } else {
        lemma_decimal(n / 10);
        lemma_digit_char(n % 10);
        let d = decimal(n);
        assert(d.drop_last() =~= decimal(n / 10));
        assert(d.last() == digit_char(n % 10));
        assert forall|i: int| 0 <= i < d.len() implies is_digit(#[trigger] d[i]) by {
            if i < decimal(n / 10).len() {
                assert(d[i] == decimal(n / 10)[i]);
            }
        }
        assert(d[0] == decimal(n / 10)[0]);
        assert((n / 10) * 10 + n % 10 == n) by (nonlinear_arith);
        assert(digits_value(d) == digits_value(d.drop_last()) * 10 + digit_value(d.last()));
        assert(digits_value(d.drop_last()) == n / 10);
        assert(digit_value(d.last()) == n % 10);
    }
}

/// Parsing a rendered port gives the port back.
pub proof fn lemma_parse_decimal_roundtrip(port: u16)
    ensures
        spec_parse_u16(decimal(port as nat)) == Some(port),
{
    lemma_decimal(port as nat);
}

/// The listen address is `0.0.0.0:` followed by the port's plain decimal
/// digits (no sign, no leading zero), which parse back to the port.
pub proof fn lemma_listen_address_port(port: u16)
    ensures
        spec_listen_address(port).subrange(0, 8) == "0.0.0.0:"@,
        spec_listen_address(port).len() > 8,
        all_digits(spec_listen_address(port).subrange(8, spec_listen_address(port).len() as int)),
        digits_value(spec_listen_address(port).subrange(8, spec_listen_address(port).len() as int))
            == port as nat,
        port > 0 ==> spec_listen_address(port)[8] != '0',
        spec_parse_u16(spec_listen_address(port).subrange(8, spec_listen_address(port).len() as int))
            == Some(port),
{
    reveal_strlit("0.0.0.0:");
    let a = spec_listen_address(port);
    assert(a.subrange(0, 8) =~= "0.0.0.0:"@);
    assert(a.subrange(8, a.len() as int) =~= decimal(port as nat));
    lemma_decimal(port as nat);
    assert(a[8] == decimal(port as nat)[0]);
    lemma_parse_decimal_roundtrip(port);
}

/// What parses is the number its digits denote, after an optional leading
/// `+`; digits that denote more than `u16::MAX` never parse, and digits that
/// denote at most `u16::MAX` always do.
pub proof fn lemma_parse_u16_value(s: Seq<char>)
    ensures
        ({
            let d = if s.len() > 0 && s[0] == '+' { s.drop_first() } else { s };
            &&& (spec_parse_u16(s) matches Some(v) ==> d.len() > 0 && all_digits(d)
                && v as nat == digits_value(d) && digits_value(d) <= u16::MAX)
            &&& (d.len() > 0 && all_digits(d) && digits_value(d) > u16::MAX ==> spec_parse_u16(s) is None)
            &&& (d.len() > 0 && all_digits(d) && digits_value(d) <= u16::MAX ==> spec_parse_u16(s)
                == Some(digits_value(d) as u16))
            &&& (s.len() > 0 && s[0] == '-' ==> spec_parse_u16(s) is None)
        }),
{
}

} // verus!
