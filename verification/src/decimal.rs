//! Integers written in decimal.

use crate::text::chars_of;
use vstd::prelude::*;

verus! {

/// The decimal digit for a number under ten.
pub open spec fn digit(d: nat) -> char {
    (48 + d) as char
}

/// Whether a character is a decimal digit.
pub open spec fn is_digit(c: char) -> bool {
    '0' <= c <= '9'
}

/// A natural number in decimal, without leading zeros.
pub open spec fn decimal_nat(n: nat) -> Seq<char>
    decreases n,
{
    if n < 10 {
        seq![digit(n)]
    } else {
        decimal_nat(n / 10).push(digit(n % 10))
    }
}

/// An integer in decimal, with a minus sign before a negative one.
pub open spec fn decimal(n: int) -> Seq<char> {
    if n < 0 {
        seq!['-'] + decimal_nat((-n) as nat)
    } else {
        decimal_nat(n as nat)
    }
}

/// Whether a text is a non-empty run of digits.
pub open spec fn all_digits(s: Seq<char>) -> bool {
    s.len() > 0 && forall|i: int| 0 <= i < s.len() ==> is_digit(#[trigger] s[i])
}

/// The number that a run of digits denotes.
pub open spec fn digits_value(s: Seq<char>) -> nat
    decreases s.len(),
{
    if s.len() == 0 {
        0
    } else {
        digits_value(s.drop_last()) * 10 + ((s.last() as u32 - 48) as nat)
    }
}

/// The digits of a number text, behind one optional sign.
pub open spec fn unsigned_part(s: Seq<char>) -> Seq<char> {
    if s.len() > 0 && (s[0] == '+' || s[0] == '-') {
        s.skip(1)
    } else {
        s
    }
}

/// The integer that a text denotes: an optional sign and then digits only.
pub open spec fn signed_value(s: Seq<char>) -> Option<int> {
    if !all_digits(unsigned_part(s)) {
        None
    } else if s[0] == '-' {
        Some(-(digits_value(unsigned_part(s)) as int))
    } else {
        Some(digits_value(unsigned_part(s)) as int)
    }
}

/// The `i64` that a text denotes, if it denotes an integer in range.
pub open spec fn parsed_i64(s: Seq<char>) -> Option<i64> {
    match signed_value(s) {
        Some(n) if i64::MIN <= n <= i64::MAX => Some(n as i64),
        _ => None,
    }
}

/// The `usize` that a text denotes: digits behind an optional plus sign, in
/// range.
pub open spec fn parsed_usize(s: Seq<char>) -> Option<usize> {
    match signed_value(s) {
        Some(n) if s[0] != '-' && n <= usize::MAX => Some(n as usize),
        _ => None,
    }
}

/// A decimal text is a run of digits that denotes the number it was made from.
pub proof fn decimal_nat_value(n: nat)
    ensures
        all_digits(decimal_nat(n)),
        digits_value(decimal_nat(n)) == n,
    decreases n,
{
    if n < 10 {
        assert(decimal_nat(n).drop_last() =~= Seq::<char>::empty());
        assert(digits_value(decimal_nat(n).drop_last()) == 0);
    } else {
        decimal_nat_value(n / 10);
        let head = decimal_nat(n / 10);
        assert(decimal_nat(n).drop_last() =~= head);
        assert forall|i: int| 0 <= i < decimal_nat(n).len() implies is_digit(
            #[trigger] decimal_nat(n)[i],
        ) by {
            if i < head.len() {
                assert(decimal_nat(n)[i] == head[i]);
            }
        }
    }
}

/// Reading a written integer gives the integer back.
pub proof fn written_integers_read_back(n: int)
    ensures
        signed_value(decimal(n)) == Some(n),
{
    if n < 0 {
        decimal_nat_value((-n) as nat);
        assert(unsigned_part(decimal(n)) =~= decimal_nat((-n) as nat));
    } else {
        decimal_nat_value(n as nat);
        assert(is_digit(decimal(n)[0]));
        assert(unsigned_part(decimal(n)) == decimal(n));
    }
}

/// More digits never denote less.
proof fn digits_value_grows(s: Seq<char>, k: int)
    requires
        0 <= k <= s.len(),
        forall|i: int| k <= i < s.len() ==> is_digit(#[trigger] s[i]),
    ensures
        digits_value(s.take(k)) <= digits_value(s),
    decreases s.len() - k,
{
    if k < s.len() {
        digits_value_grows(s, k + 1);
        assert(s.take(k + 1).drop_last() =~= s.take(k));
        assert(is_digit(s[k]));
    } else {
        assert(s.take(k) =~= s);
    }
}

/// The characters of a natural number in decimal, last digit first.
fn reversed_digits(n: u64) -> (v: Vec<char>)
    ensures
        v@.reverse() == decimal_nat(n as nat),
{
    let mut v: Vec<char> = Vec::new();
    let mut rest: u64 = n;
    assert(decimal_nat(rest as nat) + v@.reverse() =~= decimal_nat(n as nat));
    while rest >= 10
        invariant
            decimal_nat(rest as nat) + v@.reverse() == decimal_nat(n as nat),
        decreases rest,
    {
        let d = ((rest % 10) as u8 + 48) as char;
        let ghost before = v@;
        v.push(d);
        proof {
            assert(d == digit((rest % 10) as nat));
            assert(v@.reverse() =~= seq![d] + before.reverse());
            assert(decimal_nat((rest / 10) as nat) + v@.reverse() =~= decimal_nat(rest as nat)
                + before.reverse());
        }
        rest = rest / 10;
    }
    let d = (rest as u8 + 48) as char;
    let ghost before = v@;
    v.push(d);
    proof {
        assert(d == digit(rest as nat));
        assert(v@.reverse() =~= decimal_nat(rest as nat) + before.reverse());
    }
    v
}

/// A natural number in decimal.
pub fn decimal_u64(n: u64) -> (r: String)
    ensures
        r@ == decimal(n as int),
{
    let v = reversed_digits(n);
    let mut r = String::new();
    let mut i: usize = v.len();
    assert(v@.reverse().take(0) =~= Seq::<char>::empty());
    while i > 0
        invariant
            i <= v@.len(),
            r@ == v@.reverse().take(v@.len() - i),
        decreases i,
    {
        i = i - 1;
        r.push(v[i]);
        assert(v@.reverse().take(v@.len() - i) =~= v@.reverse().take(v@.len() - i - 1).push(
            v@[i as int],
        ));
    }
    assert(v@.reverse().take(v@.len() as int) =~= v@.reverse());
    r
}

/// An integer in decimal.
pub fn decimal_i64(n: i64) -> (r: String)
    ensures
        r@ == decimal(n as int),
{
    if n < 0 {
        let magnitude: u64 = (-(n + 1)) as u64 + 1;
        let mut r = String::new();
        r.push('-');
        r.append(decimal_u64(magnitude).as_str());
        assert(r@ =~= seq!['-'] + decimal_nat(magnitude as nat));
        r
    } else {
        decimal_u64(n as u64)
    }
}

/// The number that the digits `v[from..]` denote, if they are digits, there is
/// at least one of them, and the number is at most `max`.
fn read_digits(v: &Vec<char>, from: usize, max: u64) -> (r: Option<u64>)
    requires
        from <= v@.len(),
    ensures
        r == (if all_digits(v@.skip(from as int)) && digits_value(v@.skip(from as int)) <= max {
            Some(digits_value(v@.skip(from as int)) as u64)
        } else {
            None
        }),
{
    let ghost s = v@.skip(from as int);
    if from == v.len() {
        return None;
    }
    // A first pass finds what is not a digit.
    for i in from..v.len()
        invariant
            from <= v@.len(),
            s == v@.skip(from as int),
            forall|j: int| 0 <= j < i - from ==> is_digit(#[trigger] s[j]),
    {
        if !('0' <= v[i] && v[i] <= '9') {
            assert(!is_digit(s[i - from]));
            return None;
        }
        assert(s[i - from] == v@[i as int]);
    }
    let mut acc: u64 = 0;
    for i in from..v.len()
        invariant
            from <= v@.len(),
            s == v@.skip(from as int),
            all_digits(s),
            acc == digits_value(s.take(i - from)),
            acc <= max,
    {
        assert(s[i - from] == v@[i as int]);
        assert(is_digit(s[i - from]));
        let d: u64 = v[i] as u64 - 48;
        let wide: u128 = acc as u128 * 10 + d as u128;
        assert(s.take(i - from + 1).drop_last() =~= s.take(i - from));
        assert(wide == digits_value(s.take(i - from + 1)));
        if wide > max as u128 {
            proof {
                digits_value_grows(s, i - from + 1);
            }
            return None;
        }
        acc = wide as u64;
    }
    assert(s.take(s.len() as int) =~= s);
    Some(acc)
}

/// Reads an `i64`: an optional sign and decimal digits.
pub fn parse_i64(text: &str) -> (r: Option<i64>)
    ensures
        r == parsed_i64(text@),
{
    let v = chars_of(text);
    if v.len() > 0 && v[0] == '-' {
        match read_digits(&v, 1, 0x8000_0000_0000_0000u64) {
            Some(n) => {
                if n == 0x8000_0000_0000_0000u64 {
                    Some(i64::MIN)
                } else {
                    Some(-(n as i64))
                }
            },
            None => None,
        }
    } else {
        let from: usize = if v.len() > 0 && v[0] == '+' {
            1
        } else {
            0
        };
        assert(v@.skip(0) =~= v@);
        assert(v@.skip(from as int) == unsigned_part(text@));
        match read_digits(&v, from, i64::MAX as u64) {
            Some(n) => Some(n as i64),
            None => None,
        }
    }
}

/// Reads a `usize`: decimal digits behind an optional plus sign.
pub fn parse_usize(text: &str) -> (r: Option<usize>)
    ensures
        r == parsed_usize(text@),
{
    let v = chars_of(text);
    if v.len() > 0 && v[0] == '-' {
        return None;
    }
    let from: usize = if v.len() > 0 && v[0] == '+' {
        1
    } else {
        0
    };
    assert(v@.skip(0) =~= v@);
    assert(v@.skip(from as int) == unsigned_part(text@));
    match read_digits(&v, from, usize::MAX as u64) {
        Some(n) => Some(n as usize),
        None => None,
    }
}

// ---------------------------------------------------------------------------
// Laws
// ---------------------------------------------------------------------------

/// A number is written with the digits `0` to `9`, with no zero before the
/// others, and a minus sign only before a negative one.
pub proof fn numbers_are_written_plainly(n: int)
    ensures
        n >= 0 ==> decimal(n).len() > 0 && '0' <= decimal(n)[0] <= '9',
        n >= 10 ==> decimal(n)[0] != '0' && decimal(n).len() > 1,
        0 <= n < 10 ==> decimal(n).len() == 1 && decimal(n)[0] as u32 == 48 + n,
        n >= 10 ==> decimal(n) == decimal(n / 10) + decimal(n % 10),
        n < 0 ==> decimal(n) == seq!['-'] + decimal(-n),
{
    if n >= 0 {
        decimal_nat_value(n as nat);
        assert(is_digit(decimal(n)[0]));
    }
    if n >= 10 {
        no_leading_zero(n as nat);
        assert(decimal(n) =~= decimal(n / 10) + decimal(n % 10));
        decimal_nat_value((n / 10) as nat);
    }
}

proof fn no_leading_zero(n: nat)
    requires
        n > 0,
    ensures
        decimal_nat(n).len() > 0,
        decimal_nat(n)[0] != '0',
    decreases n,
{
    if n >= 10 {
        no_leading_zero(n / 10);
        assert(decimal_nat(n)[0] == decimal_nat(n / 10)[0]);
    }
}

/// Numbers are read digit by digit: one more digit makes ten times as much and
/// that digit, a minus sign before digits makes it negative, a plus sign changes
/// nothing.
pub proof fn numbers_are_read_digit_by_digit(s: Seq<char>, c: char)
    requires
        s.len() > 0,
        forall|i: int| 0 <= i < s.len() ==> '0' <= #[trigger] s[i] <= '9',
        '0' <= c <= '9',
    ensures
        signed_value(s) is Some,
        signed_value(s)->0 >= 0,
        signed_value(seq![c]) == Some(c as u32 - 48),
        signed_value(s.push(c)) == Some(10 * signed_value(s)->0 + (c as u32 - 48)),
        signed_value(seq!['+'] + s) == signed_value(s),
        signed_value(seq!['-'] + s) == Some(-signed_value(s)->0),
{
    let one = seq![c];
    assert(one.drop_last() =~= Seq::<char>::empty());
    assert(digits_value(one.drop_last()) == 0);
    assert(all_digits(one));
    assert(unsigned_part(one) == one);
    assert(all_digits(s));
    assert(unsigned_part(s) == s);
    let t = s.push(c);
    assert(t.drop_last() =~= s);
    assert(all_digits(t)) by {
        assert forall|i: int| 0 <= i < t.len() implies is_digit(#[trigger] t[i]) by {
            if i < s.len() {
                assert(t[i] == s[i]);
            }
        }
    }
    assert(t[0] == s[0]);
    assert(unsigned_part(t) == t);
    assert(unsigned_part(seq!['+'] + s) =~= s);
    assert(unsigned_part(seq!['-'] + s) =~= s);
}

/// Nothing but digits behind one optional sign is a number, and what is out of
/// range is not read.
pub proof fn other_texts_are_no_numbers(s: Seq<char>)
    ensures
        signed_value(s) is Some ==> s.len() > 0 && ('0' <= s[0] <= '9' || (s[0] == '+' || s[0]
            == '-') && s.len() > 1),
        signed_value(s) is Some ==> forall|i: int|
            1 <= i < s.len() ==> '0' <= #[trigger] s[i] <= '9',
        parsed_i64(s) matches Some(n) ==> signed_value(s) == Some(n as int),
        signed_value(s) matches Some(n) ==> (i64::MIN <= n <= i64::MAX <==> parsed_i64(s) is Some),
        parsed_usize(s) matches Some(n) ==> signed_value(s) == Some(n as int) && s[0] != '-',
        signed_value(s) matches Some(n) ==> (parsed_usize(s) is Some <==> s[0] != '-' && n
            <= usize::MAX),
        signed_value(s) is None ==> parsed_i64(s) is None && parsed_usize(s) is None,
{
    let u = unsigned_part(s);
    if signed_value(s) is Some {
        assert(all_digits(u));
        assert(is_digit(u[0]));
        assert forall|i: int| 1 <= i < s.len() implies '0' <= #[trigger] s[i] <= '9' by {
            if u.len() == s.len() {
                assert(is_digit(u[i]));
            } else {
                assert(u[i - 1] == s[i]);
                assert(is_digit(u[i - 1]));
            }
        }
    }
}

} // verus!
