//! Numbers written as decimal and hexadecimal text, and read back.
use vstd::prelude::*;
use vstd::string::*;

use crate::text::to_chars;

verus! {

/// The digit for `d`, in bases up to sixteen.
pub open spec fn digit(d: nat) -> char {
    if d == 0 { '0' } else if d == 1 { '1' } else if d == 2 { '2' } else if d == 3 { '3' }
    else if d == 4 { '4' } else if d == 5 { '5' } else if d == 6 { '6' } else if d == 7 { '7' }
    else if d == 8 { '8' } else if d == 9 { '9' } else if d == 10 { 'a' } else if d == 11 { 'b' }
    else if d == 12 { 'c' } else if d == 13 { 'd' } else if d == 14 { 'e' } else { 'f' }
}

/// `n` in base `base`, without leading zeros.
pub open spec fn digits_of(n: nat, base: nat) -> Seq<char>
    decreases n,
{
    if base < 2 || n < base {
        seq![digit(n)]
    } else {
        proof {
            assert(n / base < n) by (nonlinear_arith)
                requires
                    n >= base,
                    base >= 2,
            ;
        }
        digits_of(n / base, base).push(digit(n % base))
    }
}

/// `n` in decimal.
pub open spec fn decimal(n: nat) -> Seq<char> {
    digits_of(n, 10)
}

/// `n` in decimal, with a minus sign where it is negative.
pub open spec fn decimal_int(n: int) -> Seq<char> {
    if n < 0 {
        seq!['-'] + decimal((-n) as nat)
    } else {
        decimal(n as nat)
    }
}

/// Whether `c` is one of the ten decimal digits.
pub open spec fn is_digit(c: char) -> bool {
    '0' <= c <= '9'
}

/// What the digit `c` counts.
pub open spec fn digit_value(c: char) -> nat {
    (c as int - '0' as int) as nat
}

/// The number that a run of decimal digits denotes.
pub open spec fn value_of(s: Seq<char>) -> nat
    decreases s.len(),
{
    if s.len() == 0 {
        0
    } else {
        value_of(s.drop_last()) * 10 + digit_value(s.last())
    }
}

/// Whether `s` is one or more decimal digits and nothing else.
pub open spec fn all_digits(s: Seq<char>) -> bool {
    s.len() > 0 && forall|i: int| 0 <= i < s.len() ==> is_digit(#[trigger] s[i])
}

/// The number that `s` denotes: decimal digits, with one `+` before them or none.
pub open spec fn read_nat(s: Seq<char>) -> Option<nat> {
    let body = if s.len() > 0 && s[0] == '+' { s.drop_first() } else { s };
    if all_digits(body) {
        Some(value_of(body))
    } else {
        None
    }
}

/// The number that `s` denotes, where it is at most `max`.
pub open spec fn read_up_to(s: Seq<char>, max: nat) -> Option<nat> {
    match read_nat(s) {
        Some(n) => if n <= max { Some(n) } else { None },
        None => None,
    }
}

/// The signed number that `s` denotes, where it fits in 64 bits.
pub open spec fn read_i64(s: Seq<char>) -> Option<int> {
    let n: Option<int> = if s.len() > 0 && s[0] == '-' {
        if all_digits(s.drop_first()) { Some(-(value_of(s.drop_first()) as int)) } else { None }
    } else {
        match read_nat(s) {
            Some(n) => Some(n as int),
            None => None,
        }
    };
    match n {
        Some(k) => if i64::MIN <= k <= i64::MAX { Some(k) } else { None },
        None => None,
    }
}

proof fn lemma_value_monotone(s: Seq<char>, k: int)
    requires
        0 <= k <= s.len(),
    ensures
        value_of(s.take(k)) <= value_of(s),
    decreases s.len(),
{
    if k == s.len() {
        assert(s.take(k) =~= s);
    } else {
        let t = s.drop_last();
        lemma_value_monotone(t, k);
        assert(t.take(k) =~= s.take(k));
    }
}

/// The value of a run of digits ends with the value of its last digit.
proof fn lemma_value_push(s: Seq<char>, c: char)
    ensures
        value_of(s.push(c)) == value_of(s) * 10 + digit_value(c),
{
    assert(s.push(c).drop_last() =~= s);
}

/// A number in decimal is written in digits, at least one, and in no other
/// characters.
pub proof fn decimal_is_digits(n: nat)
    ensures
        all_digits(decimal(n)),
        forall|i: int| 0 <= i < decimal(n).len() ==> !crate::text::is_space(#[trigger] decimal(n)[i]),
    decreases n,
{
    if n >= 10 {
        decimal_is_digits(n / 10);
        assert(is_digit(digit(n % 10)));
        assert(decimal(n) =~= decimal(n / 10).push(digit(n % 10)));
        assert forall|i: int| 0 <= i < decimal(n).len() implies is_digit(
            #[trigger] decimal(n)[i],
        ) && !crate::text::is_space(decimal(n)[i]) by {
            if i < decimal(n / 10).len() {
                assert(decimal(n)[i] == decimal(n / 10)[i]);
            }
        }
    }
}

/// A number in hexadecimal holds digits and letters only.
pub proof fn hex_holds_no_slash(n: nat)
    ensures
        digits_of(n, 16).len() > 0,
        forall|i: int| 0 <= i < digits_of(n, 16).len() ==> #[trigger] digits_of(n, 16)[i] != '/',
    decreases n,
{
    if n >= 16 {
        hex_holds_no_slash(n / 16);
        assert(digits_of(n, 16) =~= digits_of(n / 16, 16).push(digit(n % 16)));
        assert forall|i: int| 0 <= i < digits_of(n, 16).len() implies #[trigger] digits_of(
            n,
            16,
        )[i] != '/' by {
            if i < digits_of(n / 16, 16).len() {
                assert(digits_of(n, 16)[i] == digits_of(n / 16, 16)[i]);
            }
        }
    }
}

/// Writing a number in decimal and reading the text gives the number back.
pub proof fn decimal_reads_back(n: nat)
    ensures
        all_digits(decimal(n)),
        value_of(decimal(n)) == n,
        read_nat(decimal(n)) == Some(n),
    decreases n,
{
    if n < 10 {
        assert(decimal(n) =~= seq![digit(n)]);
        assert(decimal(n).drop_last() =~= Seq::<char>::empty());
        assert(value_of(Seq::<char>::empty()) == 0);
    } else {
        decimal_reads_back(n / 10);
        let head = decimal(n / 10);
        let d = digit(n % 10);
        assert(decimal(n) == head.push(d));
        lemma_value_push(head, d);
        assert forall|i: int| 0 <= i < decimal(n).len() implies is_digit(
            #[trigger] decimal(n)[i],
        ) by {
            if i < head.len() {
                assert(decimal(n)[i] == head[i]);
            }
        }
    }
    assert(is_digit(decimal(n)[0]));
}

/// No number but zero starts with a zero.
pub proof fn decimal_has_no_leading_zero(n: nat)
    ensures
        decimal(n)[0] == '0' <==> n == 0,
        n == 0 ==> decimal(n).len() == 1,
    decreases n,
{
    if n >= 10 {
        decimal_has_no_leading_zero(n / 10);
        decimal_is_digits(n / 10);
        assert(decimal(n) =~= decimal(n / 10).push(digit(n % 10)));
        assert(decimal(n)[0] == decimal(n / 10)[0]);
    }
}

/// Different numbers are written differently in hexadecimal.
pub proof fn hex_tells_numbers_apart(n: nat, m: nat)
    requires
        digits_of(n, 16) == digits_of(m, 16),
    ensures
        n == m,
    decreases n,
{
    if n >= 16 {
        hex_holds_no_slash(n / 16);
    }
    if m >= 16 {
        hex_holds_no_slash(m / 16);
    }
    if n >= 16 && m >= 16 {
        let a = digits_of(n / 16, 16);
        let b = digits_of(m / 16, 16);
        assert(a.push(digit(n % 16)).drop_last() =~= a);
        assert(b.push(digit(m % 16)).drop_last() =~= b);
        assert(a.push(digit(n % 16)).last() == digit(n % 16));
        assert(b.push(digit(m % 16)).last() == digit(m % 16));
        hex_tells_numbers_apart(n / 16, m / 16);
    } else if n < 16 && m < 16 {
        assert(seq![digit(n)][0] == digit(n));
        assert(seq![digit(m)][0] == digit(m));
    } else if n < 16 {
        assert(digits_of(n, 16) == seq![digit(n)]);
        assert(digits_of(m, 16) == digits_of(m / 16, 16).push(digit(m % 16)));
        assert(digits_of(m, 16).len() > 1);
    } else {
        assert(digits_of(m, 16) == seq![digit(m)]);
        assert(digits_of(n, 16) == digits_of(n / 16, 16).push(digit(n % 16)));
        assert(digits_of(n, 16).len() > 1);
    }
}

/// Writing a signed number and reading the text gives the number back.
pub proof fn signed_numbers_read_back(k: i64)
    ensures
        read_i64(decimal_int(k as int)) == Some(k as int),
        k < 0 <==> decimal_int(k as int)[0] == '-',
{
    if k < 0 {
        decimal_reads_back((-(k as int)) as nat);
        assert(decimal_int(k as int).drop_first() =~= decimal((-(k as int)) as nat));
    } else {
        decimal_reads_back(k as nat);
        assert(is_digit(decimal(k as nat)[0]));
    }
}

/// A number is read up to the limit and not beyond it, with a plus sign before
/// it or without.
pub proof fn numbers_are_read_up_to_the_limit(n: nat, max: nat)
    ensures
        n <= max ==> read_up_to(decimal(n), max) == Some(n),
        n > max ==> read_up_to(decimal(n), max) is None,
        n <= max ==> read_up_to(seq!['+'] + decimal(n), max) == Some(n),
{
    decimal_reads_back(n);
    assert((seq!['+'] + decimal(n)).drop_first() =~= decimal(n));
}

/// A text with any other character in it denotes no number, nor does one
/// without a digit.
pub proof fn other_texts_are_no_numbers(s: Seq<char>, i: int, max: nat)
    requires
        s.len() == 0 || (0 <= i < s.len() && !('0' <= s[i] <= '9') && (i == 0 ==> s[i] != '+')),
    ensures
        read_nat(s) is None,
        read_up_to(s, max) is None,
        s.len() == 0 || i > 0 || s[0] != '-' ==> read_i64(s) is None,
{
    if s.len() > 0 {
        if s[0] == '+' || s[0] == '-' {
            assert(i > 0 ==> s.drop_first()[i - 1] == s[i]);
        }
        assert(!is_digit(s[i]));
    }
}

fn digit_char(d: u8) -> (r: char)
    requires
        d < 16,
    ensures
        r == digit(d as nat),
{
    match d {
        0 => '0',
        1 => '1',
        2 => '2',
        3 => '3',
        4 => '4',
        5 => '5',
        6 => '6',
        7 => '7',
        8 => '8',
        9 => '9',
        10 => 'a',
        11 => 'b',
        12 => 'c',
        13 => 'd',
        14 => 'e',
        _ => 'f',
    }
}

fn digits_in(n: u128, base: u128) -> (r: String)
    requires
        2 <= base <= 16,
    ensures
        r@ == digits_of(n as nat, base as nat),
    decreases n,
{
    if n < base {
        let mut r: String = String::new();
        r.push(digit_char(n as u8));
        proof {
            assert(r@ =~= seq![digit(n as nat)]);
        }
        r
    } else {
        let q: u128 = n / base;
        let d: u128 = n % base;
        proof {
            assert(q < n) by (nonlinear_arith)
                requires
                    q == n / base,
                    n >= base,
                    base >= 2,
            ;
        }
        let mut r = digits_in(q, base);
        r.push(digit_char(d as u8));
        r
    }
}

/// `n` in decimal.
pub fn to_decimal(n: u64) -> (r: String)
    ensures
        r@ == decimal(n as nat),
{
    digits_in(n as u128, 10)
}

/// `n` in decimal, with its sign.
pub fn to_decimal_signed(n: i128) -> (r: String)
    requires
        n > i128::MIN,
    ensures
        r@ == decimal_int(n as int),
{
    if n < 0 {
        let m: i128 = -n;
        let d = digits_in(m as u128, 10);
        let mut r: String = String::new();
        r.push('-');
        proof {
            assert(r@ =~= seq!['-']);
        }
        r.append(d.as_str());
        r
    } else {
        digits_in(n as u128, 10)
    }
}

/// `n` in hexadecimal.
pub fn to_hex(n: u128) -> (r: String)
    ensures
        r@ == digits_of(n as nat, 16),
{
    digits_in(n, 16)
}

/// Reads the digits `v[from..]`.
fn read_digits(v: &Vec<char>, from: usize, max: u64) -> (r: Option<u64>)
    requires
        from <= v.len(),
    ensures
        ({
            let body = v@.skip(from as int);
            match r {
                Some(n) => all_digits(body) && value_of(body) == n && n <= max,
                None => !all_digits(body) || value_of(body) > max,
            }
        }),
{
    let ghost body = v@.skip(from as int);
    if from == v.len() {
        return None;
    }
    let mut acc: u128 = 0;
    let mut i: usize = from;
    proof {
        assert(body.take(0) =~= Seq::<char>::empty());
    }
    while i < v.len()
        invariant
            from <= i <= v.len(),
            body == v@.skip(from as int),
            acc <= max,
            acc == value_of(body.take(i - from)),
            forall|k: int| 0 <= k < i - from ==> is_digit(#[trigger] body[k]),
        decreases v.len() - i,
    {
        let c = v[i];
        assert(body[i - from] == c);
        if !('0' <= c && c <= '9') {
            return None;
        }
        let d: u128 = c as u128 - '0' as u128;
        proof {
            assert(body.take(i - from + 1) =~= body.take(i - from).push(c));
            lemma_value_push(body.take(i - from), c);
        }
        acc = acc * 10 + d;
        if acc > max as u128 {
            proof {
                lemma_value_monotone(body, i - from + 1);
            }
            return None;
        }
        i = i + 1;
    }
    proof {
        assert(body.take(body.len() as int) =~= body);
    }
    Some(acc as u64)
}

/// Reads an unsigned number of at most `max`.
pub fn parse_up_to(s: &str, max: u64) -> (r: Option<u64>)
    ensures
        match r {
            Some(n) => read_up_to(s@, max as nat) == Some(n as nat),
            None => read_up_to(s@, max as nat) is None,
        },
{
    let v = to_chars(s);
    if v.len() > 0 && v[0] == '+' {
        proof {
            assert(v@.skip(1) =~= v@.drop_first());
        }
        read_digits(&v, 1, max)
    } else {
        proof {
            assert(v@.skip(0) =~= v@);
        }
        read_digits(&v, 0, max)
    }
}

/// Reads a port or another 16 bit number.
pub fn parse_u16(s: &str) -> (r: Option<u16>)
    ensures
        match r {
            Some(n) => read_up_to(s@, u16::MAX as nat) == Some(n as nat),
            None => read_up_to(s@, u16::MAX as nat) is None,
        },
{
    match parse_up_to(s, 65535) {
        Some(n) => Some(n as u16),
        None => None,
    }
}

/// Reads a signed 64 bit number.
pub fn parse_i64(s: &str) -> (r: Option<i64>)
    ensures
        match r {
            Some(n) => read_i64(s@) == Some(n as int),
            None => read_i64(s@) is None,
        },
{
    let v = to_chars(s);
    if v.len() > 0 && v[0] == '-' {
        proof {
            assert(v@.skip(1) =~= v@.drop_first());
        }
        match read_digits(&v, 1, 0x8000_0000_0000_0000u64) {
            Some(n) => Some((-(n as i128)) as i64),
            None => None,
        }
    } else {
        match parse_up_to(s, 0x7fff_ffff_ffff_ffffu64) {
            Some(n) => Some(n as i64),
            None => None,
        }
    }
}

} // verus!
