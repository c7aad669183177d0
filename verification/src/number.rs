//! Decimal numbers as text.
use vstd::prelude::*;

verus! {

/// A decimal digit.
pub open spec fn is_digit(c: char) -> bool {
    '0' <= c <= '9'
}

/// The number that a decimal digit stands for.
pub open spec fn digit_value(c: char) -> nat {
    (c as int - '0' as int) as nat
}

/// The decimal digit for `n`.
pub open spec fn digit_char(n: nat) -> char
    recommends
        n < 10,
{
    ('0' as int + n) as char
}

/// Whether `s` is a non-empty run of decimal digits.
pub open spec fn all_digits(s: Seq<char>) -> bool {
    s.len() > 0 && forall|i: int| 0 <= i < s.len() ==> is_digit(#[trigger] s[i])
}

/// The number that a run of decimal digits stands for.
pub open spec fn digits_value(s: Seq<char>) -> nat
    decreases s.len(),
{
    if s.len() == 0 {
        0
    } else {
        digits_value(s.drop_last()) * 10 + digit_value(s.last())
    }
}

/// The number written as `s`: digits, with at most one `+` in front.
pub open spec fn unsigned(s: Seq<char>) -> Option<nat> {
    let digits = if s.len() > 0 && s[0] == '+' {
        s.drop_first()
    } else {
        s
    };
    if all_digits(digits) {
        Some(digits_value(digits))
    } else {
        None
    }
}

/// The number written as `s`, where it is at most `max`.
pub open spec fn unsigned_up_to(s: Seq<char>, max: nat) -> Option<nat> {
    match unsigned(s) {
        Some(n) => if n <= max {
            Some(n)
        } else {
            None
        },
        None => None,
    }
}

/// The number written as `s`: digits, with at most one `+` or `-` in front.
pub open spec fn signed(s: Seq<char>) -> Option<int> {
    if s.len() > 0 && s[0] == '-' {
        if all_digits(s.drop_first()) {
            Some(-digits_value(s.drop_first()))
        } else {
            None
        }
    } else {
        match unsigned(s) {
            Some(n) => Some(n as int),
            None => None,
        }
    }
}

/// The 32-bit number written as `s`.
pub open spec fn signed_32(s: Seq<char>) -> Option<int> {
    match signed(s) {
        Some(n) => if i32::MIN <= n <= i32::MAX {
            Some(n)
        } else {
            None
        },
        None => None,
    }
}

/// `n` in decimal digits, without leading zeros.
pub open spec fn decimal(n: nat) -> Seq<char>
    decreases n,
{
    if n < 10 {
        seq![digit_char(n)]
    } else {
        decimal(n / 10).push(digit_char(n % 10))
    }
}

/// `n` in decimal digits, with `-` in front where it is negative.
pub open spec fn signed_decimal(n: int) -> Seq<char> {
    if n < 0 {
        seq!['-'] + decimal((-n) as nat)
    } else {
        decimal(n as nat)
    }
}

proof fn lemma_digits_value_grows(s: Seq<char>, i: int)
    requires
        0 <= i <= s.len(),
    ensures
        digits_value(s.take(i)) <= digits_value(s),
    decreases s.len(),
{
    if i < s.len() {
        lemma_digits_value_grows(s.drop_last(), i);
        assert(s.drop_last().take(i) == s.take(i));
    } else {
        assert(s.take(i) == s);
    }
}

/// The number that the digits `s` stand for, where they are digits and the
/// number is at most `max`.
fn parse_digits(s: &[char], max: u64) -> (r: Option<u64>)
    ensures
        r matches Some(n) ==> all_digits(s@) && digits_value(s@) == n && n <= max,
        r is None ==> !all_digits(s@) || digits_value(s@) > max,
{
    let n = s.len();
    if n == 0 {
        return None;
    }
    let mut value: u64 = 0;
    for i in 0..n
        invariant
            n == s@.len(),
            value <= max,
            value == digits_value(s@.take(i as int)),
            forall|j: int| 0 <= j < i ==> is_digit(#[trigger] s@[j]),
    {
        let c = s[i];
        if !('0' <= c && c <= '9') {
            assert(!is_digit(s@[i as int]));
            return None;
        }
        let d = c as u32 as u64 - 48;
        proof {
            assert(s@.take(i + 1).drop_last() == s@.take(i as int));
            lemma_digits_value_grows(s@, i + 1);
        }
        if d > max || value > (max - d) / 10 {
            return None;
        }
        value = value * 10 + d;
    }
    assert(s@.take(n as int) == s@);
    Some(value)
}

/// Reads a number that is at most `max`.
#[verifier::allow_in_spec]
pub fn parse_unsigned(s: &[char], max: u64) -> (r: Option<u64>)
    ensures
        r matches Some(n) ==> unsigned_up_to(s@, max as nat) == Some(n as nat),
        r is None ==> unsigned_up_to(s@, max as nat) is None,
    returns
        match unsigned_up_to(s@, max as nat) {
            Some(n) => Some(n as u64),
            None => None,
        },
{
    if s.len() > 0 && s[0] == '+' {
        let digits = vstd::slice::slice_subrange(s, 1, s.len());
        assert(digits@ == s@.drop_first());
        parse_digits(digits, max)
    } else {
        parse_digits(s, max)
    }
}

/// Reads a 32-bit number with a sign.
#[verifier::allow_in_spec]
pub fn parse_i32(s: &[char]) -> (r: Option<i32>)
    ensures
        r matches Some(n) ==> signed_32(s@) == Some(n as int),
        r is None ==> signed_32(s@) is None,
    returns
        match signed_32(s@) {
            Some(n) => Some(n as i32),
            None => None,
        },
{
    if s.len() > 0 && s[0] == '-' {
        let digits = vstd::slice::slice_subrange(s, 1, s.len());
        assert(digits@ == s@.drop_first());
        match parse_digits(digits, 2147483648) {
            Some(n) => Some((0 - n as i64) as i32),
            None => None,
        }
    } else {
        match parse_unsigned(s, 2147483647) {
            Some(n) => Some(n as i32),
            None => None,
        }
    }
}

/// Writes `n` in decimal.
pub fn format_u64(n: u64) -> (r: String)
    ensures
        r@ == decimal(n as nat),
    decreases n,
{
    let d = (n % 10) as u8;
    let mut out = if n < 10 {
        String::new()
    } else {
        format_u64(n / 10)
    };
    out.push((48 + d) as char);
    assert(n < 10 ==> out@ == seq![digit_char(n as nat)]);
    out
}

/// Writes `n` in decimal, with its sign where it is negative.
pub fn format_i32(n: i32) -> (r: String)
    ensures
        r@ == signed_decimal(n as int),
{
    if n < 0 {
        let digits = format_u64((0 - n as i64) as u64);
        let mut out = String::new();
        out.push('-');
        out.append(digits.as_str());
        assert(out@ == seq!['-'] + digits@);
        out
    } else {
        format_u64(n as u64)
    }
}

pub proof fn lemma_decimal_digits(n: nat)
    ensures
        all_digits(decimal(n)),
        digits_value(decimal(n)) == n,
    decreases n,
{
    if n >= 10 {
        lemma_decimal_digits(n / 10);
        assert(decimal(n).drop_last() == decimal(n / 10));
        assert forall|i: int| 0 <= i < decimal(n).len() implies is_digit(
            #[trigger] decimal(n)[i],
        ) by {
            if i < decimal(n).len() - 1 {
                assert(decimal(n)[i] == decimal(n / 10)[i]);
            }
        }
    } else {
        reveal_with_fuel(digits_value, 2);
    }
}

/// What is written of a number reads back as that number.
pub proof fn law_decimal_reads_back(n: nat)
    ensures
        unsigned(decimal(n)) == Some(n),
        signed(decimal(n)) == Some(n as int),
{
    lemma_decimal_digits(n);
    assert(is_digit(decimal(n)[0]));
}

/// What is written of a number with a sign reads back as that number.
pub proof fn law_signed_decimal_reads_back(n: int)
    ensures
        signed(signed_decimal(n)) == Some(n),
{
    if n < 0 {
        lemma_decimal_digits((-n) as nat);
        assert(signed_decimal(n).drop_first() == decimal((-n) as nat));
    } else {
        law_decimal_reads_back(n as nat);
    }
}

/// A number is written in decimal digits, without a zero in front unless it is
/// 0 itself.
pub proof fn law_decimal_has_no_leading_zero(n: nat)
    ensures
        decimal(n).len() > 0,
        forall|i: int| 0 <= i < decimal(n).len() ==> '0' <= #[trigger] decimal(n)[i] <= '9',
        n > 0 ==> decimal(n)[0] != '0',
        n == 0 ==> decimal(n) == seq!['0'],
    decreases n,
{
    lemma_decimal_digits(n);
    assert forall|i: int| 0 <= i < decimal(n).len() implies '0' <= #[trigger] decimal(n)[i]
        <= '9' by {
        assert(is_digit(decimal(n)[i]));
    }
    if n >= 10 {
        law_decimal_has_no_leading_zero(n / 10);
        lemma_decimal_digits(n / 10);
        assert(decimal(n)[0] == decimal(n / 10)[0]);
    }
}

/// How text reads as a number: one digit as itself, a digit more as ten times
/// what precedes it and itself, with a `+` in front as without it, and nothing
/// with any other character.
pub proof fn law_digits_read_as_numbers(s: Seq<char>, c: char)
    ensures
        unsigned(Seq::empty()) is None,
        unsigned(seq![c]) == if '0' <= c <= '9' {
            Some((c as int - 48) as nat)
        } else {
            None::<nat>
        },
        s.len() > 0 && s != seq!['+'] ==> unsigned(s.push(c)) == match unsigned(s) {
            Some(n) => if '0' <= c <= '9' {
                Some((10 * n + (c as int - 48)) as nat)
            } else {
                None::<nat>
            },
            None => None::<nat>,
        },
        '0' <= c <= '9' ==> unsigned(seq!['+', c]) == Some((c as int - 48) as nat),
        !('0' <= c <= '9') ==> unsigned(seq!['+', c]) is None,
{
    assert(seq![c].drop_last() =~= Seq::<char>::empty());
    assert(seq![c].drop_first() =~= Seq::<char>::empty());
    let p = seq!['+', c];
    assert(p.drop_first() =~= seq![c]);
    reveal_with_fuel(digits_value, 2);
    if c == '+' {
        assert(!is_digit(c));
    }
    assert(seq![c][0] == c);
    if s.len() > 0 && s != seq!['+'] {
        let t = s.push(c);
        if s[0] == '+' {
            let d = s.drop_first();
            if d.len() == 0 {
                assert(s =~= seq!['+']);
            }
            assert(t.drop_first() =~= d.push(c));
            lemma_push_digit(d, c);
        } else {
            lemma_push_digit(s, c);
        }
    }
}

proof fn lemma_push_digit(d: Seq<char>, c: char)
    requires
        d.len() > 0,
    ensures
        all_digits(d.push(c)) == (all_digits(d) && is_digit(c)),
        digits_value(d.push(c)) == digits_value(d) * 10 + digit_value(c),
{
    let t = d.push(c);
    assert(t.drop_last() =~= d);
    assert(t[t.len() - 1] == c);
    if all_digits(t) {
        assert forall|i: int| 0 <= i < d.len() implies is_digit(#[trigger] d[i]) by {
            assert(t[i] == d[i]);
        }
    }
}

/// Text reads as a number up to a limit exactly where it reads as a number that
/// is not above the limit, and then as that number.
pub proof fn law_limit_is_kept(s: Seq<char>, max: nat, n: nat)
    ensures
        unsigned_up_to(s, max) == Some(n) <==> (unsigned(s) == Some(n) && n <= max),
        unsigned_up_to(s, max) is None ==> (unsigned(s) matches Some(m) ==> m > max),
{
}

/// A `-` in front of digits makes the number negative; without one, text reads
/// as it does without a sign; and what is kept in 32 bits is what fits.
pub proof fn law_minus_makes_negative(s: Seq<char>, n: int)
    ensures
        signed(seq!['-'] + s) == (if s.len() > 0 && s[0] == '+' {
            None::<int>
        } else {
            match unsigned(s) {
                Some(m) => Some(-m),
                None => None,
            }
        }),
        s.len() == 0 || s[0] != '-' ==> signed(s) == match unsigned(s) {
            Some(m) => Some(m as int),
            None => None::<int>,
        },
        signed_32(s) == Some(n) <==> (signed(s) == Some(n) && -2147483648 <= n <= 2147483647),
        signed_32(s) is None ==> (signed(s) matches Some(m) ==> !(-2147483648 <= m <= 2147483647)),
{
    assert((seq!['-'] + s).drop_first() =~= s);
    if s.len() > 0 && s[0] == '+' {
        assert(!is_digit(s[0]));
    }
}

/// A negative number is written as `-` and what it is without its sign.
pub proof fn law_signed_decimal_has_one_sign(n: nat)
    ensures
        signed_decimal(n as int) == decimal(n),
        n > 0 ==> signed_decimal(-n) == seq!['-'] + decimal(n),
{
}

/// What is written of a number is read as that number, up to the limit.
pub proof fn law_written_number_is_read(s: &[char], n: u64, max: u64, t: &[char], m: i32)
    requires
        s@ == decimal(n as nat),
        t@ == signed_decimal(m as int),
    ensures
        n <= max ==> parse_unsigned(s, max) == Some(n),
        n > max ==> parse_unsigned(s, max) is None,
        parse_i32(t) == Some(m),
{
    law_decimal_reads_back(n as nat);
    law_signed_decimal_reads_back(m as int);
}

} // verus!
