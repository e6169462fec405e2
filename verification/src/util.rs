//! Sizes and the startup line, retries with a growing pause, and the records
//! that failures leave behind.
use owo_colors::OwoColorize;
use vstd::prelude::*;
use vstd::string::*;

use crate::error::{OpError, TransferError};
use crate::json::{
    fields_of, json_object, json_object_text, last_written_counts, reads_as, written, JsonField,
    JsonMember,
};
use crate::number::{
    all_digits, decimal, decimal_reads_back, digit, digit_value, is_digit, read_nat, to_decimal,
    value_of,
};
use crate::paths::{bare, file_name, file_name_of, file_stem, joined, stem_of};
use crate::text::{
    cat2, cat3, flush_left, first_pos, has_part, lemma_first_pos, lemma_first_pos_is,
    lemma_part_between, lemma_part_of_part, pad_right, split,
};

verus! {

/// Whether escape sequences were switched on for the console. `answer` says
/// what came of it on Windows; elsewhere nothing has to be switched on, and
/// there is no answer.
pub fn try_enable_ansi_on_windows(answer: Option<bool>) -> (r: bool)
    ensures
        r == (answer == Some(true)),
{
    match answer {
        Some(done) => done,
        None => false,
    }
}

// ---------------------------------------------------------------------------
// Sizes
// ---------------------------------------------------------------------------

/// The quotient rounded to the nearest integer, and to the even one of two
/// that are equally near.
pub open spec fn round_even(num: nat, den: nat) -> nat {
    let q = num / den;
    let r = num % den;
    if 2 * r < den {
        q
    } else if 2 * r > den {
        q + 1
    } else {
        q + q % 2
    }
}

/// The distance between neighbouring values at `n` where 53 significant bits
/// are kept.
pub open spec fn float_step(n: nat) -> nat
    decreases n,
{
    if n < 0x20_0000_0000_0000 {
        1
    } else {
        2 * float_step(n / 2)
    }
}

/// `n` with 53 significant bits.
pub open spec fn as_float(n: nat) -> nat {
    round_even(n, float_step(n)) * float_step(n)
}

/// A number of hundredths, with two places behind the point.
pub open spec fn two_places(h: nat) -> Seq<char> {
    decimal(h / 100) + seq!['.', digit(h / 10 % 10), digit(h % 10)]
}

/// A number of bytes in the largest binary unit that it reaches.
pub open spec fn size_text(bytes: nat) -> Seq<char> {
    let b = as_float(bytes);
    if b >= 0x4000_0000 {
        two_places(round_even(100 * b, 0x4000_0000)) + " GiB"@
    } else if b >= 0x10_0000 {
        two_places(round_even(100 * b, 0x10_0000)) + " MiB"@
    } else if b >= 0x400 {
        two_places(round_even(100 * b, 0x400)) + " KiB"@
    } else {
        decimal(bytes) + " B"@
    }
}

fn rounded(num: u128, den: u128) -> (r: u128)
    requires
        den > 0,
        den < 0x1_0000_0000_0000_0000,
        num < 0x1_0000_0000_0000_0000_0000_0000,
    ensures
        r == round_even(num as nat, den as nat),
        r <= num + 1,
{
    let q: u128 = num / den;
    let rest: u128 = num % den;
    proof {
        assert(q <= num) by (nonlinear_arith)
            requires
                q == num / den,
                den >= 1,
        ;
    }
    if 2 * rest < den {
        q
    } else if 2 * rest > den {
        q + 1
    } else {
        proof {
            assert(q % 2 <= num + 1 - q) by {
                if q == 0 {
                } else {
                    assert(q < num) by (nonlinear_arith)
                        requires
                            q == num / den,
                            q > 0,
                            den >= 2,
                    ;
                }
            }
        }
        q + q % 2
    }
}

proof fn lemma_float_step(n: nat)
    requires
        n <= u64::MAX,
    ensures
        1 <= float_step(n) <= 0x800,
        n < 0x20_0000_0000_0000 ==> float_step(n) == 1,
{
    reveal_with_fuel(float_step, 13);
    let a = n / 2;
    let b = a / 2;
    let c = b / 2;
    let d = c / 2;
    let e = d / 2;
    let f = e / 2;
    let g = f / 2;
    let h = g / 2;
    let i = h / 2;
    let j = i / 2;
    let k = j / 2;
    assert(k < 0x20_0000_0000_0000);
}

fn step_at(n: u64) -> (r: u64)
    ensures
        r == float_step(n as nat),
        1 <= r <= 0x800,
{
    let mut m: u64 = n;
    let mut step: u64 = 1;
    proof {
        lemma_float_step(n as nat);
    }
    while m >= 0x20_0000_0000_0000
        invariant
            1 <= step,
            float_step(n as nat) == step * float_step(m as nat),
            float_step(n as nat) <= 0x800,
        decreases m,
    {
        proof {
            lemma_float_step(m as nat);
            lemma_float_step((m / 2) as nat);
            assert(float_step(m as nat) == 2 * float_step((m / 2) as nat));
            assert(step * (2 * float_step((m / 2) as nat)) == (step * 2) * float_step(
                (m / 2) as nat,
            )) by (nonlinear_arith);
            assert(step * 2 <= 0x800) by (nonlinear_arith)
                requires
                    (step * 2) * float_step((m / 2) as nat) <= 0x800,
                    float_step((m / 2) as nat) >= 1,
            ;
        }
        step = step * 2;
        m = m / 2;
    }
    proof {
        lemma_float_step(m as nat);
        assert(step * 1 == step);
    }
    step
}

fn write_places(h: u128) -> (r: String)
    requires
        h / 100 <= u64::MAX,
    ensures
        r@ == two_places(h as nat),
{
    let mut s = to_decimal((h / 100) as u64);
    s.push('.');
    s.push(digit_char((h / 10 % 10) as u8));
    s.push(digit_char((h % 10) as u8));
    proof {
        assert(s@ =~= two_places(h as nat));
    }
    s
}

fn digit_char(d: u8) -> (c: char)
    requires
        d < 10,
    ensures
        c == digit(d as nat),
{
    match d {
        0 => '0',
        1 => '1',
        2 => '2',
        3 => '3',
        4 => '4',
        5 => '5',
        6 => '6',
        7 => '7',
        8 => '8',
        _ => '9',
    }
}

/// Writes a number of bytes for people, in binary units.
pub fn human_bytes(bytes: u64) -> (r: String)
    ensures
        r@ == size_text(bytes as nat),
{
    let step: u128 = step_at(bytes) as u128;
    let count: u128 = rounded(bytes as u128, step);
    proof {
        assert(count * step <= 0x1_0000_0000_0000_0001 * 0x800) by (nonlinear_arith)
            requires
                count <= 0x1_0000_0000_0000_0001,
                step <= 0x800,
        ;
    }
    let b: u128 = count * step;
    proof {
        assert(b == as_float(bytes as nat));
    }
    if b >= 0x4000_0000 {
        let h: u128 = rounded(100 * b, 0x4000_0000);
        proof {
            lemma_quotient_small(100 * b as nat, 0x4000_0000);
        }
        cat2(write_places(h).as_str(), " GiB")
    } else if b >= 0x10_0000 {
        let h: u128 = rounded(100 * b, 0x10_0000);
        cat2(write_places(h).as_str(), " MiB")
    } else if b >= 0x400 {
        let h: u128 = rounded(100 * b, 0x400);
        cat2(write_places(h).as_str(), " KiB")
    } else {
        cat2(to_decimal(bytes).as_str(), " B")
    }
}

proof fn lemma_quotient_small(num: nat, den: nat)
    requires
        den == 0x4000_0000,
        num <= 100 * 0x1_0000_0000_0000_0001 * 0x800,
    ensures
        round_even(num, den) <= 100 * 0x1_0000_0000_0000,
{
}

/// Below the first unit a size is the plain number of bytes.
pub proof fn small_sizes_are_plain(bytes: u64)
    requires
        bytes < 1024,
    ensures
        size_text(bytes as nat) == decimal(bytes as nat) + " B"@,
{
    large_numbers_keep_their_leading_bits(bytes as nat);
}

/// Rounding gives a nearest integer: it lies within half of the divisor, and
/// where two are equally near it is the even one.
pub proof fn rounding_is_to_the_nearest(num: nat, den: nat)
    requires
        den > 0,
    ensures
        -(den as int) <= 2 * (round_even(num, den) * den - num) <= den,
        2 * (round_even(num, den) * den - num) == den || 2 * (round_even(num, den) * den - num)
            == -(den as int) ==> round_even(num, den) % 2 == 0,
{
    let q = num / den;
    let r = num % den;
    assert(num == q * den + r && r < den) by (nonlinear_arith)
        requires
            den > 0,
            q == num / den,
            r == num % den,
    ;
    assert((q + 1) * den == q * den + den) by (nonlinear_arith);
}

/// Numbers of up to 53 bits are kept as they are. Of a larger one the distance
/// of neighbouring values leaves 53 significant bits, and what is kept lies
/// within half of that distance.
pub proof fn large_numbers_keep_their_leading_bits(n: nat)
    ensures
        n < 0x20_0000_0000_0000 ==> as_float(n) == n,
        n >= 0x20_0000_0000_0000 ==> float_step(n) * 0x10_0000_0000_0000 <= n < float_step(n)
            * 0x20_0000_0000_0000,
        -(float_step(n) as int) <= 2 * (as_float(n) - n) <= float_step(n),
{
    lemma_step_fits(n);
    rounding_is_to_the_nearest(n, float_step(n));
    if n < 0x20_0000_0000_0000 {
        assert(n / 1 == n && n % 1 == 0) by (nonlinear_arith);
    }
}

/// The distance of neighbouring values leaves 53 significant bits.
proof fn lemma_step_fits(n: nat)
    ensures
        float_step(n) >= 1,
        n < 0x20_0000_0000_0000 ==> float_step(n) == 1,
        n >= 0x20_0000_0000_0000 ==> float_step(n) * 0x10_0000_0000_0000 <= n < float_step(n)
            * 0x20_0000_0000_0000,
    decreases n,
{
    if n >= 0x20_0000_0000_0000 {
        lemma_step_fits(n / 2);
        let s = float_step(n / 2);
        assert(float_step(n) == 2 * s);
        assert(2 * s * 0x10_0000_0000_0000 == 2 * (s * 0x10_0000_0000_0000)) by (nonlinear_arith);
        assert(2 * s * 0x20_0000_0000_0000 == 2 * (s * 0x20_0000_0000_0000)) by (nonlinear_arith);
    }
}

/// Hundredths are written with the point before the last two digits: without
/// the point the text reads as the number of hundredths.
pub proof fn hundredths_read_back(h: nat)
    ensures
        ({
            let t = two_places(h);
            let p = t.len() - 3;
            &&& p > 0
            &&& t[p] == '.'
            &&& t.take(p) == decimal(h / 100)
            &&& read_nat(t.take(p) + t.skip(p + 1)) == Some(h)
        }),
{
    let t = two_places(h);
    let whole = decimal(h / 100);
    let p = t.len() - 3;
    decimal_reads_back(h / 100);
    assert(t.take(p) =~= whole);
    let a = digit(h / 10 % 10);
    let b = digit(h % 10);
    let s = whole.push(a).push(b);
    assert(t.take(p) + t.skip(p + 1) =~= s);
    assert(s.drop_last() =~= whole.push(a));
    assert(whole.push(a).drop_last() =~= whole);
    assert(value_of(whole.push(a)) == value_of(whole) * 10 + digit_value(a));
    assert(value_of(s) == value_of(whole.push(a)) * 10 + digit_value(b));
    assert(digit_value(a) == h / 10 % 10);
    assert(digit_value(b) == h % 10);
    assert((h / 100 * 10 + h / 10 % 10) * 10 + h % 10 == h);
    assert(all_digits(s)) by {
        assert forall|i: int| 0 <= i < s.len() implies is_digit(#[trigger] s[i]) by {
            if i < whole.len() {
                assert(s[i] == whole[i]);
            }
        }
    }
    assert(is_digit(s[0]));
}

/// A size is told in the largest binary unit that it reaches, to the nearest
/// hundredth of that unit.
pub proof fn sizes_are_told_to_the_hundredth(bytes: nat)
    requires
        bytes < 0x20_0000_0000_0000,
    ensures
        bytes < 0x400 ==> size_text(bytes) == decimal(bytes) + " B"@,
        0x400 <= bytes < 0x10_0000 ==> exists|h: nat|
            size_text(bytes) == #[trigger] two_places(h) + " KiB"@ && -0x400 <= 2 * (h * 0x400
                - 100 * bytes) <= 0x400,
        0x10_0000 <= bytes < 0x4000_0000 ==> exists|h: nat|
            size_text(bytes) == #[trigger] two_places(h) + " MiB"@ && -0x10_0000 <= 2 * (h
                * 0x10_0000 - 100 * bytes) <= 0x10_0000,
        0x4000_0000 <= bytes ==> exists|h: nat|
            size_text(bytes) == #[trigger] two_places(h) + " GiB"@ && -0x4000_0000 <= 2 * (h
                * 0x4000_0000 - 100 * bytes) <= 0x4000_0000,
{
    large_numbers_keep_their_leading_bits(bytes);
    rounding_is_to_the_nearest(100 * bytes, 0x400);
    rounding_is_to_the_nearest(100 * bytes, 0x10_0000);
    rounding_is_to_the_nearest(100 * bytes, 0x4000_0000);
    let _k = two_places(round_even(100 * bytes, 0x400));
    let _m = two_places(round_even(100 * bytes, 0x10_0000));
    let _g = two_places(round_even(100 * bytes, 0x4000_0000));
}

// ---------------------------------------------------------------------------
// The startup line
// ---------------------------------------------------------------------------

/// `OwoColorize::green` of the `owo-colors` crate, written out. Claimed: the
/// text stands between the sequence that turns the foreground green and the
/// one that restores it.
#[verifier::external_body]
fn green(s: &str) -> (r: String)
    ensures
        r@ == "\u{1b}[32m"@ + s@ + "\u{1b}[39m"@,
{
    format!("{}", OwoColorize::green(&s))
}

/// `OwoColorize::cyan`, written out. Claimed: the text stands between the
/// sequence that turns the foreground cyan and the one that restores it.
#[verifier::external_body]
fn cyan(s: &str) -> (r: String)
    ensures
        r@ == "\u{1b}[36m"@ + s@ + "\u{1b}[39m"@,
{
    format!("{}", OwoColorize::cyan(&s))
}

/// `OwoColorize::yellow`, written out. Claimed: the text stands between the
/// sequence that turns the foreground yellow and the one that restores it.
#[verifier::external_body]
fn yellow(s: &str) -> (r: String)
    ensures
        r@ == "\u{1b}[33m"@ + s@ + "\u{1b}[39m"@,
{
    format!("{}", OwoColorize::yellow(&s))
}

/// `OwoColorize::magenta`, written out. Claimed: the text stands between the
/// sequence that turns the foreground magenta and the one that restores it.
#[verifier::external_body]
fn magenta(s: &str) -> (r: String)
    ensures
        r@ == "\u{1b}[35m"@ + s@ + "\u{1b}[39m"@,
{
    format!("{}", OwoColorize::magenta(&s))
}

/// A field of the startup line: its name and value, filled up to a width.
pub open spec fn header_field(name: Seq<char>, value: Seq<char>, width: nat) -> Seq<char> {
    pad_right(name + value, width)
}

/// A text in the colour with this number, where colours are on.
pub open spec fn tinted(coloured: bool, colour: Seq<char>, s: Seq<char>) -> Seq<char> {
    if coloured {
        colour + s + "\u{1b}[39m"@
    } else {
        s
    }
}

/// The startup line: action, workers, backoff and buffer, four blanks apart.
pub open spec fn header_text(
    coloured: bool,
    action: Seq<char>,
    workers: nat,
    backoff_ms: nat,
    buf_size: nat,
) -> Seq<char> {
    tinted(coloured, "\u{1b}[32m"@, header_field("Action:"@, action, 10)) + "    "@ + tinted(
        coloured,
        "\u{1b}[36m"@,
        header_field("Worker:"@, decimal(workers), 12),
    ) + "    "@ + tinted(
        coloured,
        "\u{1b}[33m"@,
        header_field("Backoff:"@, decimal(backoff_ms) + "ms"@, 12),
    ) + "    "@ + tinted(coloured, "\u{1b}[35m"@, header_field("Buf:"@, size_text(buf_size), 12))
}

/// Builds the startup line.
pub fn startup_header(
    coloured: bool,
    action: &str,
    worker_count: usize,
    backoff_ms: u64,
    buf_size: usize,
) -> (r: String)
    ensures
        r@ == header_text(
            coloured,
            action@,
            worker_count as nat,
            backoff_ms as nat,
            buf_size as nat,
        ),
{
    let mut action_field = flush_left(cat2("Action:", action).as_str(), 10);
    let mut worker_field = flush_left(
        cat2("Worker:", to_decimal(worker_count as u64).as_str()).as_str(),
        12,
    );
    let backoff = cat2(to_decimal(backoff_ms).as_str(), "ms");
    let mut backoff_field = flush_left(cat2("Backoff:", backoff.as_str()).as_str(), 12);
    let mut buffer_field = flush_left(
        cat2("Buf:", human_bytes(buf_size as u64).as_str()).as_str(),
        12,
    );
    if coloured {
        action_field = green(action_field.as_str());
        worker_field = cyan(worker_field.as_str());
        backoff_field = yellow(backoff_field.as_str());
        buffer_field = magenta(buffer_field.as_str());
    }
    let left = cat3(action_field.as_str(), "    ", worker_field.as_str());
    let middle = cat3(left.as_str(), "    ", backoff_field.as_str());
    cat3(middle.as_str(), "    ", buffer_field.as_str())
}

/// The startup line holds its four figures, each behind its name. Where colours
/// are on, each field stands in its own, and the default follows it.
pub proof fn startup_line_holds_the_figures(
    coloured: bool,
    action: Seq<char>,
    workers: nat,
    backoff_ms: nat,
    buf_size: nat,
)
    ensures
        ({
            let line = header_text(coloured, action, workers, backoff_ms, buf_size);
            let start = |colour: Seq<char>|
                if coloured {
                    colour
                } else {
                    Seq::empty()
                };
            &&& has_part(line, start("\u{1b}[32m"@) + "Action:"@ + action)
            &&& has_part(line, start("\u{1b}[36m"@) + "Worker:"@ + decimal(workers))
            &&& has_part(line, start("\u{1b}[33m"@) + "Backoff:"@ + decimal(backoff_ms) + "ms"@)
            &&& has_part(line, start("\u{1b}[35m"@) + "Buf:"@ + size_text(buf_size))
            &&& coloured ==> line.skip(line.len() - "\u{1b}[39m"@.len()) == "\u{1b}[39m"@
        }),
{
    lemma_line_holds_its_fields(
        coloured,
        action,
        decimal(workers),
        decimal(backoff_ms) + "ms"@,
        size_text(buf_size),
    );
    let colour = if coloured {
        "\u{1b}[33m"@
    } else {
        Seq::empty()
    };
    assert(colour + "Backoff:"@ + (decimal(backoff_ms) + "ms"@) =~= colour + "Backoff:"@ + decimal(
        backoff_ms,
    ) + "ms"@);
}

/// The startup line with these values in its fields holds each field.
proof fn lemma_line_holds_its_fields(
    coloured: bool,
    action: Seq<char>,
    workers: Seq<char>,
    wait: Seq<char>,
    size: Seq<char>,
)
    ensures
        ({
            let line = tinted(coloured, "\u{1b}[32m"@, header_field("Action:"@, action, 10))
                + "    "@ + tinted(coloured, "\u{1b}[36m"@, header_field("Worker:"@, workers, 12))
                + "    "@ + tinted(coloured, "\u{1b}[33m"@, header_field("Backoff:"@, wait, 12))
                + "    "@ + tinted(coloured, "\u{1b}[35m"@, header_field("Buf:"@, size, 12));
            let none = Seq::<char>::empty();
            &&& has_part(line, (if coloured { "\u{1b}[32m"@ } else { none }) + "Action:"@ + action)
            &&& has_part(line, (if coloured { "\u{1b}[36m"@ } else { none }) + "Worker:"@ + workers)
            &&& has_part(line, (if coloured { "\u{1b}[33m"@ } else { none }) + "Backoff:"@ + wait)
            &&& has_part(line, (if coloured { "\u{1b}[35m"@ } else { none }) + "Buf:"@ + size)
            &&& coloured ==> line.skip(line.len() - "\u{1b}[39m"@.len()) == "\u{1b}[39m"@
        }),
{
    let none = Seq::<char>::empty();
    let gap = "    "@;
    let t1 = tinted(coloured, "\u{1b}[32m"@, header_field("Action:"@, action, 10));
    let t2 = tinted(coloured, "\u{1b}[36m"@, header_field("Worker:"@, workers, 12));
    let t3 = tinted(coloured, "\u{1b}[33m"@, header_field("Backoff:"@, wait, 12));
    let t4 = tinted(coloured, "\u{1b}[35m"@, header_field("Buf:"@, size, 12));
    lemma_tinted_field(coloured, "\u{1b}[32m"@, "Action:"@, action, 10);
    lemma_tinted_field(coloured, "\u{1b}[36m"@, "Worker:"@, workers, 12);
    lemma_tinted_field(coloured, "\u{1b}[33m"@, "Backoff:"@, wait, 12);
    lemma_tinted_field(coloured, "\u{1b}[35m"@, "Buf:"@, size, 12);
    let two = t1 + gap + t2;
    let three = two + gap + t3;
    let p1 = (if coloured { "\u{1b}[32m"@ } else { none }) + "Action:"@ + action;
    lemma_part_in_a_row(t1, gap, t2, p1);
    lemma_part_in_a_row(two, gap, t3, p1);
    lemma_part_in_a_row(three, gap, t4, p1);
    let p2 = (if coloured { "\u{1b}[36m"@ } else { none }) + "Worker:"@ + workers;
    lemma_part_in_a_row(t1, gap, t2, p2);
    lemma_part_in_a_row(two, gap, t3, p2);
    lemma_part_in_a_row(three, gap, t4, p2);
    let p3 = (if coloured { "\u{1b}[33m"@ } else { none }) + "Backoff:"@ + wait;
    lemma_part_in_a_row(two, gap, t3, p3);
    lemma_part_in_a_row(three, gap, t4, p3);
    let p4 = (if coloured { "\u{1b}[35m"@ } else { none }) + "Buf:"@ + size;
    lemma_part_in_a_row(three, gap, t4, p4);
    if coloured {
        let e = "\u{1b}[39m"@;
        let front = "\u{1b}[35m"@ + header_field("Buf:"@, size, 12);
        lemma_ends_with(three + gap, front, e);
        assert(t4 == front + e);
    }
}

/// A text in a row ends as its last part does.
proof fn lemma_ends_with(a: Seq<char>, b: Seq<char>, end: Seq<char>)
    ensures
        (a + (b + end)).skip((a + (b + end)).len() - end.len()) == end,
{
    assert((a + (b + end)).skip((a + (b + end)).len() - end.len()) =~= end);
}

/// What occurs in one of two texts occurs in both of them in a row.
proof fn lemma_part_in_a_row(a: Seq<char>, gap: Seq<char>, b: Seq<char>, part: Seq<char>)
    requires
        has_part(a, part) || has_part(b, part),
    ensures
        has_part(a + gap + b, part),
{
    let none = Seq::<char>::empty();
    if has_part(a, part) {
        lemma_part_of_part(none, a, gap + b, part);
        assert(none + a + (gap + b) =~= a + gap + b);
    } else {
        lemma_part_of_part(a + gap, b, none, part);
        assert(a + gap + b + none =~= a + gap + b);
    }
}

/// A field of the startup line holds its name and value, behind its colour.
proof fn lemma_tinted_field(
    coloured: bool,
    colour: Seq<char>,
    name: Seq<char>,
    value: Seq<char>,
    width: nat,
)
    ensures
        has_part(
            tinted(coloured, colour, header_field(name, value, width)),
            (if coloured {
                colour
            } else {
                Seq::empty()
            }) + name + value,
        ),
{
    let none = Seq::<char>::empty();
    let field = header_field(name, value, width);
    let fill = field.skip((name + value).len() as int);
    assert(field =~= name + value + fill);
    if coloured {
        let shown = colour + name + value;
        lemma_part_between(none, shown, fill + "\u{1b}[39m"@);
        assert(tinted(coloured, colour, field) =~= none + shown + (fill + "\u{1b}[39m"@));
    } else {
        let shown = none + name + value;
        lemma_part_between(none, shown, fill);
        assert(tinted(coloured, colour, field) =~= none + shown + fill);
    }
}

/// The fields of the startup line stand in columns: without colours a field
/// that is not too long begins where it begins for every other value.
pub proof fn startup_line_stands_in_columns(
    action: Seq<char>,
    workers: nat,
    backoff_ms: nat,
    buf_size: nat,
)
    requires
        action.len() <= 3,
        decimal(workers).len() <= 5,
        decimal(backoff_ms).len() <= 2,
        size_text(buf_size).len() <= 8,
    ensures
        ({
            let line = header_text(false, action, workers, backoff_ms, buf_size);
            &&& line.len() == 58
            &&& line.subrange(14, 21) == "Worker:"@
            &&& line.subrange(30, 38) == "Backoff:"@
            &&& line.subrange(46, 50) == "Buf:"@
        }),
{
    reveal_strlit("Action:");
    reveal_strlit("Worker:");
    reveal_strlit("Backoff:");
    reveal_strlit("Buf:");
    reveal_strlit("ms");
    reveal_strlit("    ");
    let line = header_text(false, action, workers, backoff_ms, buf_size);
    let f1 = header_field("Action:"@, action, 10);
    let f2 = header_field("Worker:"@, decimal(workers), 12);
    let f3 = header_field("Backoff:"@, decimal(backoff_ms) + "ms"@, 12);
    let f4 = header_field("Buf:"@, size_text(buf_size), 12);
    assert(f1.len() == 10 && f2.len() == 12 && f3.len() == 12 && f4.len() == 12);
    assert(line.subrange(14, 21) =~= "Worker:"@);
    assert(line.subrange(30, 38) =~= "Backoff:"@);
    assert(line.subrange(46, 50) =~= "Buf:"@);
}

/// Sets the line that stands above the progress bars. It is coloured where
/// escape sequences were switched on.
pub fn set_startup_header(
    header: &mut String,
    answer: Option<bool>,
    action: &str,
    worker_count: usize,
    backoff_ms: u64,
    buf_size: usize,
)
    ensures
        final(header)@ == header_text(
            answer == Some(true),
            action@,
            worker_count as nat,
            backoff_ms as nat,
            buf_size as nat,
        ),
{
    *header = startup_header(
        try_enable_ansi_on_windows(answer),
        action,
        worker_count,
        backoff_ms,
        buf_size,
    );
}

// ---------------------------------------------------------------------------
// Retries
// ---------------------------------------------------------------------------

/// The base of the pause between two attempts.
pub struct Backoff {
    pub base_ms: u64,
}

/// The pause that applies until another is set.
pub const DEFAULT_BACKOFF_MS: u64 = 100;

impl Backoff {
    pub fn new() -> (r: Self)
        ensures
            r.base_ms == DEFAULT_BACKOFF_MS,
    {
        Backoff { base_ms: DEFAULT_BACKOFF_MS }
    }
}

/// Sets the base of the pause in milliseconds.
pub fn set_backoff_ms(backoff: &mut Backoff, ms: u64)
    ensures
        final(backoff).base_ms == ms,
{
    backoff.base_ms = ms;
}

/// The base of the pause in milliseconds.
pub fn get_backoff_ms(backoff: &Backoff) -> (r: u64)
    ensures
        r == backoff.base_ms,
{
    backoff.base_ms
}

/// The pause after the failed attempt with this number, counted from one: the
/// base times the number, or the longest there is.
pub open spec fn pause(base: nat, attempt: nat) -> nat {
    if base * attempt <= u64::MAX {
        base * attempt
    } else {
        u64::MAX as nat
    }
}

/// Computes the pause after a failed attempt.
pub fn compute_backoff_ms(base: u64, attempt: u64) -> (r: u64)
    ensures
        r == pause(base as nat, attempt as nat),
{
    match base.checked_mul(attempt) {
        Some(ms) => ms,
        None => u64::MAX,
    }
}

/// The first pause is the base, and each further one is longer by the base, up
/// to the longest there is. Without a base there is no pause.
pub proof fn pauses_grow_by_the_base(base: nat, k: nat)
    requires
        base <= u64::MAX,
    ensures
        pause(base, 0) == 0,
        pause(base, 1) == base,
        pause(0, k) == 0,
        pause(base, k) + base <= u64::MAX ==> pause(base, k + 1) == pause(base, k) + base,
        pause(base, k) + base > u64::MAX ==> pause(base, k + 1) == u64::MAX,
{
    assert(base * (k + 1) == base * k + base) by (nonlinear_arith);
    assert(base * 0 == 0 && base * 1 == base && 0 * k == 0) by (nonlinear_arith);
}

/// Where in a transfer an error came up.
#[derive(Debug, Clone, Copy, PartialEq, Eq, Structural)]
pub enum RetryPhase {
    PreTransfer,
    DuringTransfer,
}

impl RetryPhase {
    pub open spec fn text(self) -> Seq<char> {
        match self {
            RetryPhase::PreTransfer => "PreTransfer"@,
            RetryPhase::DuringTransfer => "DuringTransfer"@,
        }
    }

    /// The name of the phase, as records carry it.
    pub fn name(self) -> (r: String)
        ensures
            r@ == self.text(),
    {
        match self {
            RetryPhase::PreTransfer => "PreTransfer".to_owned(),
            RetryPhase::DuringTransfer => "DuringTransfer".to_owned(),
        }
    }
}

/// Whether another attempt is worth it. Of failures that are no transfer
/// errors only those during a transfer are: there they mostly come from the
/// network.
pub open spec fn worth_retrying(e: OpError<Seq<char>>, phase: RetryPhase) -> bool {
    match e {
        OpError::Transfer(t) => match phase {
            RetryPhase::PreTransfer => t.passing_before(),
            RetryPhase::DuringTransfer => t.passing_during(),
        },
        OpError::Other(_) => phase == RetryPhase::DuringTransfer,
    }
}

/// Decides whether another attempt is worth it.
pub fn is_error_retriable_for_phase(e: &OpError, phase: RetryPhase) -> (r: bool)
    ensures
        r == worth_retrying(e@, phase),
{
    match e {
        OpError::Transfer(t) => match phase {
            RetryPhase::PreTransfer => t.is_retriable_pre_transfer(),
            RetryPhase::DuringTransfer => t.is_retriable_during_transfer(),
        },
        OpError::Other(_) => match phase {
            RetryPhase::PreTransfer => false,
            RetryPhase::DuringTransfer => true,
        },
    }
}

/// What to do after a failed attempt.
#[derive(Debug, Clone, Copy, PartialEq, Eq, Structural)]
pub enum RetryStep {
    /// Pause this many milliseconds, and try again.
    Wait(u64),
    /// Try no more.
    GiveUp,
}

/// The state of an operation that is tried again when it fails.
pub struct Retry<S = String> {
    /// How many attempts there may be.
    pub max_retries: usize,
    /// How many attempts have failed.
    pub failed: usize,
    /// Whether it was decided to try no more.
    pub over: bool,
    /// The error of the latest attempt.
    pub last: Option<OpError<S>>,
}

impl View for Retry<String> {
    type V = Retry<Seq<char>>;

    open spec fn view(&self) -> Retry<Seq<char>> {
        Retry {
            max_retries: self.max_retries,
            failed: self.failed,
            over: self.over,
            last: match self.last {
                Some(e) => Some(e@),
                None => None,
            },
        }
    }
}

impl Retry<Seq<char>> {
    pub open spec fn fresh(max_retries: usize) -> Self {
        Retry { max_retries, failed: 0, over: false, last: None }
    }

    pub open spec fn open(self) -> bool {
        !self.over && self.failed < self.max_retries
    }

    pub open spec fn goes_on(self, e: OpError<Seq<char>>, phase: RetryPhase) -> bool {
        worth_retrying(e, phase) && self.failed + 1 < self.max_retries
    }

    pub open spec fn after(self, e: OpError<Seq<char>>, phase: RetryPhase) -> Self {
        Retry {
            max_retries: self.max_retries,
            failed: (self.failed + 1) as usize,
            over: !self.goes_on(e, phase),
            last: Some(e),
        }
    }

    pub open spec fn step(self, e: OpError<Seq<char>>, phase: RetryPhase, base: u64) -> RetryStep {
        if self.goes_on(e, phase) {
            RetryStep::Wait(pause(base as nat, (self.failed + 1) as nat) as u64)
        } else {
            RetryStep::GiveUp
        }
    }

    pub open spec fn error(self) -> OpError<Seq<char>> {
        match self.last {
            Some(e) => e,
            None => OpError::Transfer(TransferError::OperationFailed("operation failed"@)),
        }
    }

    /// The state after a run of failed attempts.
    pub open spec fn after_all(self, errors: Seq<OpError<Seq<char>>>, phase: RetryPhase) -> Self
        decreases errors.len(),
    {
        if errors.len() == 0 {
            self
        } else {
            self.after_all(errors.drop_last(), phase).after(errors.last(), phase)
        }
    }
}

impl Retry {
    /// No attempt has been made yet.
    pub fn new(max_retries: usize) -> (r: Self)
        ensures
            r@ == Retry::<Seq<char>>::fresh(max_retries),
    {
        Retry { max_retries, failed: 0, over: false, last: None }
    }

    /// Whether an attempt is to be made.
    pub fn wants_attempt(&self) -> (r: bool)
        ensures
            r == self@.open(),
    {
        !self.over && self.failed < self.max_retries
    }

    /// Takes in the error of an attempt and says what to do.
    pub fn fail(&mut self, e: OpError, phase: RetryPhase, base_ms: u64) -> (r: RetryStep)
        requires
            old(self)@.open(),
        ensures
            final(self)@ == old(self)@.after(e@, phase),
            r == old(self)@.step(e@, phase, base_ms),
    {
        let again = is_error_retriable_for_phase(&e, phase) && self.max_retries - self.failed > 1;
        self.failed = self.failed + 1;
        self.over = !again;
        self.last = Some(e);
        if again {
            RetryStep::Wait(compute_backoff_ms(base_ms, self.failed as u64))
        } else {
            RetryStep::GiveUp
        }
    }

    /// The error that the operation ends with when no attempt succeeded: that
    /// of the latest attempt.
    pub fn into_error(self) -> (r: OpError)
        ensures
            r@ == self@.error(),
    {
        match self.last {
            Some(e) => e,
            None => OpError::Transfer(
                TransferError::OperationFailed("operation failed".to_owned()),
            ),
        }
    }
}

/// Errors that are worth it are retried until the attempts run out. After `k`
/// of them, fewer than the maximum, another attempt follows; after as many as
/// the maximum none does, and the operation ends with the last error.
pub proof fn passing_errors_use_up_the_attempts(
    max_retries: usize,
    errors: Seq<OpError<Seq<char>>>,
    phase: RetryPhase,
)
    requires
        errors.len() <= max_retries,
        forall|i: int| 0 <= i < errors.len() ==> worth_retrying(#[trigger] errors[i], phase),
    ensures
        ({
            let end = Retry::<Seq<char>>::fresh(max_retries).after_all(errors, phase);
            &&& end.max_retries == max_retries
            &&& end.failed == errors.len()
            &&& end.open() <==> errors.len() < max_retries
            &&& errors.len() > 0 ==> end.error() == errors.last()
        }),
    decreases errors.len(),
{
    if errors.len() > 0 {
        let before = errors.drop_last();
        assert forall|i: int| 0 <= i < before.len() implies worth_retrying(
            #[trigger] before[i],
            phase,
        ) by {
            assert(before[i] == errors[i]);
        }
        passing_errors_use_up_the_attempts(max_retries, before, phase);
        assert(worth_retrying(errors[errors.len() - 1], phase));
    }
}

/// The pause grows in steps of the base: after the `k`-th error in a row that
/// is worth it, it is `k` times the base, or the longest there is.
pub proof fn pauses_grow_in_equal_steps(
    max_retries: usize,
    errors: Seq<OpError<Seq<char>>>,
    phase: RetryPhase,
    base: u64,
)
    requires
        0 < errors.len() < max_retries,
        forall|i: int| 0 <= i < errors.len() ==> worth_retrying(#[trigger] errors[i], phase),
    ensures
        Retry::<Seq<char>>::fresh(max_retries).after_all(errors.drop_last(), phase).step(
            errors.last(),
            phase,
            base,
        ) == RetryStep::Wait(pause(base as nat, errors.len()) as u64),
{
    let before = errors.drop_last();
    assert forall|i: int| 0 <= i < before.len() implies worth_retrying(
        #[trigger] before[i],
        phase,
    ) by {
        assert(before[i] == errors[i]);
    }
    passing_errors_use_up_the_attempts(max_retries, before, phase);
    assert(worth_retrying(errors[errors.len() - 1], phase));
}

/// An error that is not worth it ends the operation at once, with that error.
pub proof fn settled_error_ends_the_attempts(
    state: Retry<Seq<char>>,
    e: OpError<Seq<char>>,
    phase: RetryPhase,
    base: u64,
)
    requires
        state.open(),
        !worth_retrying(e, phase),
    ensures
        state.step(e, phase, base) == RetryStep::GiveUp,
        !state.after(e, phase).open(),
        state.after(e, phase).error() == e,
{
}

/// A failed attempt is counted, its error is kept, and the limit stays. A pause
/// follows just where another attempt does, and it is the base times the number
/// of attempts that have failed by then.
pub proof fn failed_attempts_are_counted(
    state: Retry<Seq<char>>,
    e: OpError<Seq<char>>,
    phase: RetryPhase,
    base: u64,
)
    requires
        state.open(),
    ensures
        ({
            let after = state.after(e, phase);
            let step = state.step(e, phase, base);
            &&& after.failed == state.failed + 1
            &&& after.max_retries == state.max_retries
            &&& after.error() == e
            &&& step is Wait <==> after.open()
            &&& step is Wait <==> worth_retrying(e, phase) && state.failed + 1 < state.max_retries
            &&& base * (state.failed + 1) <= u64::MAX ==> (step matches RetryStep::Wait(ms) ==> ms
                == base * (state.failed + 1))
        }),
{
}

/// As many attempts are made as are allowed, and none where none is. An
/// operation that was never tried ends with an error of its own.
pub proof fn first_attempt_needs_one_allowed(max_retries: usize)
    ensures
        Retry::<Seq<char>>::fresh(max_retries).open() <==> max_retries > 0,
        Retry::<Seq<char>>::fresh(max_retries).failed == 0,
        Retry::<Seq<char>>::fresh(max_retries).max_retries == max_retries,
        Retry::<Seq<char>>::fresh(max_retries).error() is Transfer,
{
}

/// Another attempt is worth it where the failure may pass in that part of the
/// transfer; a failure of another kind may pass while data moves and not before.
pub proof fn attempts_are_worth_it_in_their_phase(t: TransferError<Seq<char>>, m: Seq<char>)
    ensures
        worth_retrying(OpError::Transfer(t), RetryPhase::PreTransfer) <==> t.passing_before(),
        worth_retrying(OpError::Transfer(t), RetryPhase::DuringTransfer) <==> t.passing_during(),
        worth_retrying(OpError::Other(m), RetryPhase::DuringTransfer),
        !worth_retrying(OpError::Other(m), RetryPhase::PreTransfer),
{
}

// ---------------------------------------------------------------------------
// Records of failures and of attempts
// ---------------------------------------------------------------------------

/// The members of the record of a failure.
pub open spec fn failure_record(e: TransferError<Seq<char>>) -> Seq<
    (Seq<char>, JsonField<Seq<char>>),
> {
    seq![("variant"@, JsonField::Text(e.variant()))] + e.details().map_values(
        |d: (Seq<char>, Seq<char>)| (d.0, JsonField::Text(d.1)),
    )
}

fn text_field(name: &str, value: &str) -> (r: (String, JsonField))
    ensures
        r.0@ == name@,
        r.1@ == JsonField::Text(value@),
{
    (name.to_owned(), JsonField::Text(value.to_owned()))
}

fn one(e: &TransferError, first: &str, a: &String) -> (r: Vec<(String, JsonField)>)
    ensures
        fields_of(r@) == seq![
            ("variant"@, JsonField::Text(e@.variant())),
            (first@, JsonField::Text(a@)),
            ("message"@, JsonField::Text(e@.text())),
        ],
{
    let mut v: Vec<(String, JsonField)> = Vec::new();
    v.push(text_field("variant", e.variant_name().as_str()));
    v.push(text_field(first, a.as_str()));
    v.push(text_field("message", e.message().as_str()));
    v
}

fn two(e: &TransferError, a: &String, b: &String) -> (r: Vec<(String, JsonField)>)
    ensures
        fields_of(r@) == seq![
            ("variant"@, JsonField::Text(e@.variant())),
            ("path"@, JsonField::Text(a@)),
            ("error"@, JsonField::Text(b@)),
            ("message"@, JsonField::Text(e@.text())),
        ],
{
    let mut v: Vec<(String, JsonField)> = Vec::new();
    v.push(text_field("variant", e.variant_name().as_str()));
    v.push(text_field("path", a.as_str()));
    v.push(text_field("error", b.as_str()));
    v.push(text_field("message", e.message().as_str()));
    v
}

fn bare_record(e: &TransferError, message: &str) -> (r: Vec<(String, JsonField)>)
    ensures
        fields_of(r@) == seq![
            ("variant"@, JsonField::Text(e@.variant())),
            ("message"@, JsonField::Text(message@)),
        ],
{
    let mut v: Vec<(String, JsonField)> = Vec::new();
    v.push(text_field("variant", e.variant_name().as_str()));
    v.push(text_field("message", message));
    v
}

/// Builds the record of a failure: its kind, what it is about, the message.
pub fn failure_fields(e: &TransferError) -> (r: Vec<(String, JsonField)>)
    ensures
        fields_of(r@) == failure_record(e@),
{
    match e {
        TransferError::InvalidDirection => bare_record(e, e.message().as_str()),
        TransferError::UnsupportedGlobUsage(a) | TransferError::GlobNoMatches(a) => one(
            e,
            "pattern",
            a,
        ),
        TransferError::AliasNotFound(a)
        | TransferError::WorkerNoSession(a)
        | TransferError::WorkerNoSftp(a) => one(e, "alias", a),
        TransferError::RemoteTargetMustBeDir(a)
        | TransferError::RemoteTargetParentMissing(a)
        | TransferError::LocalTargetMustBeDir(a)
        | TransferError::LocalTargetParentMissing(a) => one(e, "path", a),
        TransferError::CreateRemoteDirFailed(a, b) | TransferError::CreateLocalDirFailed(
            a,
            b,
        ) => two(e, a, b),
        TransferError::SftpCreateFailed(a) => one(e, "error", a),
        TransferError::SshNoAddress(a)
        | TransferError::SshSessionCreateFailed(a)
        | TransferError::SshHandshakeFailed(a)
        | TransferError::SshAuthFailed(a)
        | TransferError::WorkerBuildSessionFailed(a) => one(e, "addr", a),
        TransferError::MissingLocalSource(a) | TransferError::DownloadMultipleRemoteSources(
            a,
        ) => one(e, "detail", a),
        TransferError::OperationFailed(a) | TransferError::WorkerIo(a) => bare_record(
            e,
            a.as_str(),
        ),
    }
}

/// The name of the file of failure records: the stem of the given path's last
/// segment, or `failures`.
pub open spec fn failures_file(path: Option<Seq<char>>) -> Seq<char> {
    match path {
        Some(p) => match file_name_of(p) {
            Some(name) => stem_of(name) + ".jsonl"@,
            None => "failures.jsonl"@,
        },
        None => "failures.jsonl"@,
    }
}

/// The file of failure records is named after the given path, with another
/// extension; without a path it has a name of its own.
pub proof fn failures_go_to_the_named_file(dir: Seq<char>, stem: Seq<char>, ext: Seq<char>)
    requires
        dir.len() > 0,
        dir.last() != '/',
        bare(dir) == dir,
        stem.len() > 0,
        !stem.contains('/'),
        !ext.contains('/'),
        !ext.contains('.'),
        ext.len() > 0,
    ensures
        failures_file(Some(dir + seq!['/'] + stem + seq!['.'] + ext)) == stem + ".jsonl"@,
        failures_file(Some(stem + seq!['.'] + ext)) == stem + ".jsonl"@,
        failures_file(None) == "failures.jsonl"@,
{
    let name = stem + seq!['.'] + ext;
    assert(name.last() == ext.last());
    assert(ext.contains(ext.last()));
    assert(name.last() != '.');
    assert(name != seq!['.', '.']) by {
        assert(seq!['.', '.'].last() == '.');
    }
    assert(name != seq!['.']) by {
        assert(seq!['.'].last() == '.');
    }
    assert(!name.contains('/')) by {
        if name.contains('/') {
            let i = name.index_of('/');
            if i < stem.len() {
                assert(stem[i] == '/');
            } else if i > stem.len() {
                assert(ext[i - stem.len() - 1] == '/');
            }
        }
    }
    assert(name[0] != '/') by {
        assert(name.contains(name[0]));
    }
    crate::paths::join_then_split(dir, name);
    crate::paths::name_stands_alone(name);
    assert(joined(dir, name) =~= dir + seq!['/'] + stem + seq!['.'] + ext);
    assert forall|j: int| stem.len() < j < name.len() implies name[j] != '.' by {
        assert(name[j] == ext[j - stem.len() - 1]);
        assert(ext.contains(ext[j - stem.len() - 1]));
    }
    crate::text::lemma_last_pos_is(name, '.', stem.len() as int);
    assert(name.take(stem.len() as int) =~= stem);
}

/// What a run appends to a file of failure records.
pub struct FailureLog {
    /// The name of the file, which lies in the directory of the logs.
    pub file_name: String,
    /// The lines to append.
    pub content: String,
}

proof fn lemma_split_line(content: Seq<char>, line: Seq<char>)
    requires
        split(content, '\n').last() == Seq::<char>::empty(),
        !line.contains('\n'),
    ensures
        split(content + line + seq!['\n'], '\n') == split(content, '\n').drop_last().push(
            line,
        ).push(Seq::empty()),
    decreases content.len(),
{
    let whole = content + line + seq!['\n'];
    lemma_first_pos(content, '\n');
    let p = first_pos(content, '\n') as int;
    reveal_with_fuel(split, 2);
    if p >= content.len() {
        assert(content =~= Seq::<char>::empty());
        assert forall|j: int| 0 <= j < line.len() implies whole[j] != '\n' by {
            assert(whole[j] == line[j]);
            assert(line.contains(line[j]));
        }
        lemma_first_pos_is(whole, '\n', line.len() as int);
        assert(whole.take(line.len() as int) =~= line);
        assert(whole.skip(line.len() as int + 1) =~= Seq::<char>::empty());
        lemma_first_pos_is(Seq::<char>::empty(), '\n', 0);
        assert(split(content, '\n') =~= seq![content]);
        assert(split(whole, '\n') =~= seq![line, Seq::<char>::empty()]);
    } else {
        assert forall|j: int| 0 <= j < p implies whole[j] != '\n' by {
            assert(whole[j] == content[j]);
        }
        lemma_first_pos_is(whole, '\n', p);
        let rest = content.skip(p + 1);
        assert(whole.take(p) =~= content.take(p));
        assert(whole.skip(p + 1) =~= rest + line + seq!['\n']);
        lemma_split_nonempty(rest);
        assert(split(content, '\n') =~= seq![content.take(p)] + split(rest, '\n'));
        assert(split(content, '\n').last() == split(rest, '\n').last());
        lemma_split_line(rest, line);
        assert(split(whole, '\n') =~= seq![content.take(p)] + split(
            rest + line + seq!['\n'],
            '\n',
        ));
        assert(split(content, '\n').drop_last() =~= seq![content.take(p)] + split(
            rest,
            '\n',
        ).drop_last());
    }
}

proof fn lemma_split_nonempty(s: Seq<char>)
    ensures
        split(s, '\n').len() > 0,
{
}

/// The records of failures, one to a line, and the file that they go to. Each
/// line is one JSON object that reads as the record of its failure, and the
/// text ends with a line break.
pub fn write_failures_jsonl(path: Option<&str>, failures: &Vec<TransferError>) -> (r: FailureLog)
    ensures
        r.file_name@ == failures_file(
            match path {
                Some(p) => Some(p@),
                None => None,
            },
        ),
        split(r.content@, '\n') == failures@.map_values(
            |e: TransferError| json_object_text(failure_record(e@)),
        ).push(Seq::empty()),
        forall|i: int|
            0 <= i < failures.len() ==> reads_as(
                #[trigger] split(r.content@, '\n')[i],
                failure_record(failures@[i]@),
            ),
{
    let file = match path {
        Some(p) => match file_name(p) {
            Some(name) => cat2(file_stem(name.as_str()).as_str(), ".jsonl"),
            None => "failures.jsonl".to_owned(),
        },
        None => "failures.jsonl".to_owned(),
    };
    let ghost record = |e: TransferError| json_object_text(failure_record(e@));
    let mut content = String::new();
    let mut i: usize = 0;
    proof {
        lemma_first_pos_is(content@, '\n', 0);
        assert(split(content@, '\n') =~= failures@.take(0).map_values(record).push(Seq::empty()));
    }
    while i < failures.len()
        invariant
            i <= failures.len(),
            record == (|e: TransferError| json_object_text(failure_record(e@))),
            split(content@, '\n') == failures@.take(i as int).map_values(record).push(
                Seq::empty(),
            ),
            forall|j: int|
                0 <= j < i ==> reads_as(
                    json_object_text(failure_record((#[trigger] failures@[j])@)),
                    failure_record(failures@[j]@),
                ),
        decreases failures.len() - i,
    {
        let line = json_object(&failure_fields(&failures[i])).unwrap();
        proof {
            lemma_split_line(content@, line@);
            assert(failures@.take(i + 1).map_values(record) =~= failures@.take(
                i as int,
            ).map_values(record).push(line@));
            assert(split(content@, '\n').drop_last() =~= failures@.take(i as int).map_values(
                record,
            ));
        }
        let ghost before = content@;
        content = cat2(content.as_str(), line.as_str());
        content.push('\n');
        proof {
            assert(content@ =~= before + line@ + seq!['\n']);
        }
        i = i + 1;
    }
    proof {
        assert(failures@.take(i as int) =~= failures@);
        assert forall|j: int| 0 <= j < failures.len() implies reads_as(
            #[trigger] split(content@, '\n')[j],
            failure_record(failures@[j]@),
        ) by {
            assert(split(content@, '\n')[j] == record(failures@[j]));
        }
    }
    FailureLog { file_name: file, content }
}

/// The record of a failure names its kind and holds a message: that of the
/// error, or the reason alone where there is nothing else to tell.
pub proof fn records_name_the_failure(e: TransferError<Seq<char>>)
    ensures
        written(failure_record(e), "variant"@) == Some(JsonMember::Text(e.variant())),
        written(failure_record(e), "message"@) == Some(
            JsonMember::Text(
                match e {
                    TransferError::OperationFailed(m) | TransferError::WorkerIo(m) => m,
                    _ => e.text(),
                },
            ),
        ),
{
    reveal_strlit("variant");
    reveal_strlit("message");
    reveal_strlit("pattern");
    reveal_strlit("alias");
    reveal_strlit("path");
    reveal_strlit("error");
    reveal_strlit("addr");
    reveal_strlit("detail");
    reveal_with_fuel(written, 5);
    let record = failure_record(e);
    assert("variant"@[0] == 'v');
    assert("message"@[0] == 'm');
    assert(record.drop_last().len() == record.len() - 1);
}

/// The kind of a failure can be told from its record: the kinds have names of
/// their own.
#[verifier::rlimit(60)]
pub proof fn kind_is_told_by_the_record(e: TransferError<Seq<char>>)
    ensures
        ({
            let kind = written(failure_record(e), "variant"@);
            &&& e is InvalidDirection <==> kind == Some(JsonMember::Text("InvalidDirection"@))
            &&& e is UnsupportedGlobUsage <==> kind == Some(
                JsonMember::Text("UnsupportedGlobUsage"@),
            )
            &&& e is AliasNotFound <==> kind == Some(JsonMember::Text("AliasNotFound"@))
            &&& e is RemoteTargetMustBeDir <==> kind == Some(
                JsonMember::Text("RemoteTargetMustBeDir"@),
            )
            &&& e is RemoteTargetParentMissing <==> kind == Some(
                JsonMember::Text("RemoteTargetParentMissing"@),
            )
            &&& e is CreateRemoteDirFailed <==> kind == Some(
                JsonMember::Text("CreateRemoteDirFailed"@),
            )
            &&& e is LocalTargetMustBeDir <==> kind == Some(
                JsonMember::Text("LocalTargetMustBeDir"@),
            )
            &&& e is LocalTargetParentMissing <==> kind == Some(
                JsonMember::Text("LocalTargetParentMissing"@),
            )
            &&& e is CreateLocalDirFailed <==> kind == Some(
                JsonMember::Text("CreateLocalDirFailed"@),
            )
            &&& e is GlobNoMatches <==> kind == Some(JsonMember::Text("GlobNoMatches"@))
            &&& e is WorkerNoSession <==> kind == Some(JsonMember::Text("WorkerNoSession"@))
            &&& e is WorkerNoSftp <==> kind == Some(JsonMember::Text("WorkerNoSftp"@))
            &&& e is SftpCreateFailed <==> kind == Some(JsonMember::Text("SftpCreateFailed"@))
            &&& e is SshNoAddress <==> kind == Some(JsonMember::Text("SshNoAddress"@))
            &&& e is SshSessionCreateFailed <==> kind == Some(
                JsonMember::Text("SshSessionCreateFailed"@),
            )
            &&& e is SshHandshakeFailed <==> kind == Some(JsonMember::Text("SshHandshakeFailed"@))
            &&& e is SshAuthFailed <==> kind == Some(JsonMember::Text("SshAuthFailed"@))
            &&& e is WorkerBuildSessionFailed <==> kind == Some(
                JsonMember::Text("WorkerBuildSessionFailed"@),
            )
            &&& e is MissingLocalSource <==> kind == Some(JsonMember::Text("MissingLocalSource"@))
            &&& e is DownloadMultipleRemoteSources <==> kind == Some(
                JsonMember::Text("DownloadMultipleRemoteSources"@),
            )
            &&& e is OperationFailed <==> kind == Some(JsonMember::Text("OperationFailed"@))
            &&& e is WorkerIo <==> kind == Some(JsonMember::Text("WorkerIo"@))
        }),
{
    records_name_the_failure(e);
    lemma_kind_names();
}

/// The names of the kinds of failure differ in length or in the first letter.
proof fn lemma_kind_names()
    ensures
        "InvalidDirection"@.len() == 16 && "InvalidDirection"@[0] == 'I',
        "UnsupportedGlobUsage"@.len() == 20 && "UnsupportedGlobUsage"@[0] == 'U',
        "AliasNotFound"@.len() == 13 && "AliasNotFound"@[0] == 'A',
        "RemoteTargetMustBeDir"@.len() == 21 && "RemoteTargetMustBeDir"@[0] == 'R',
        "RemoteTargetParentMissing"@.len() == 25 && "RemoteTargetParentMissing"@[0] == 'R',
        "CreateRemoteDirFailed"@.len() == 21 && "CreateRemoteDirFailed"@[0] == 'C',
        "LocalTargetMustBeDir"@.len() == 20 && "LocalTargetMustBeDir"@[0] == 'L',
        "LocalTargetParentMissing"@.len() == 24 && "LocalTargetParentMissing"@[0] == 'L',
        "CreateLocalDirFailed"@.len() == 20 && "CreateLocalDirFailed"@[0] == 'C',
        "GlobNoMatches"@.len() == 13 && "GlobNoMatches"@[0] == 'G',
        "WorkerNoSession"@.len() == 15 && "WorkerNoSession"@[0] == 'W',
        "WorkerNoSftp"@.len() == 12 && "WorkerNoSftp"@[0] == 'W',
        "SftpCreateFailed"@.len() == 16 && "SftpCreateFailed"@[0] == 'S',
        "SshNoAddress"@.len() == 12 && "SshNoAddress"@[0] == 'S',
        "SshSessionCreateFailed"@.len() == 22 && "SshSessionCreateFailed"@[0] == 'S',
        "SshHandshakeFailed"@.len() == 18 && "SshHandshakeFailed"@[0] == 'S',
        "SshAuthFailed"@.len() == 13 && "SshAuthFailed"@[0] == 'S',
        "WorkerBuildSessionFailed"@.len() == 24 && "WorkerBuildSessionFailed"@[0] == 'W',
        "MissingLocalSource"@.len() == 18 && "MissingLocalSource"@[0] == 'M',
        "DownloadMultipleRemoteSources"@.len() == 29,
        "OperationFailed"@.len() == 15 && "OperationFailed"@[0] == 'O',
        "WorkerIo"@.len() == 8,
{
    reveal_strlit("InvalidDirection");
    reveal_strlit("UnsupportedGlobUsage");
    reveal_strlit("AliasNotFound");
    reveal_strlit("RemoteTargetMustBeDir");
    reveal_strlit("RemoteTargetParentMissing");
    reveal_strlit("CreateRemoteDirFailed");
    reveal_strlit("LocalTargetMustBeDir");
    reveal_strlit("LocalTargetParentMissing");
    reveal_strlit("CreateLocalDirFailed");
    reveal_strlit("GlobNoMatches");
    reveal_strlit("WorkerNoSession");
    reveal_strlit("WorkerNoSftp");
    reveal_strlit("SftpCreateFailed");
    reveal_strlit("SshNoAddress");
    reveal_strlit("SshSessionCreateFailed");
    reveal_strlit("SshHandshakeFailed");
    reveal_strlit("SshAuthFailed");
    reveal_strlit("WorkerBuildSessionFailed");
    reveal_strlit("MissingLocalSource");
    reveal_strlit("DownloadMultipleRemoteSources");
    reveal_strlit("OperationFailed");
    reveal_strlit("WorkerIo");
}

/// The record of a failure holds what the failure is about, under a name that
/// says what it is.
pub proof fn records_hold_what_failed(e: TransferError<Seq<char>>)
    ensures
        match e {
            TransferError::UnsupportedGlobUsage(a) => written(failure_record(e), "pattern"@)
                == Some(JsonMember::Text(a)),
            TransferError::GlobNoMatches(a) => written(failure_record(e), "pattern"@) == Some(
                JsonMember::Text(a),
            ),
            TransferError::AliasNotFound(a) => written(failure_record(e), "alias"@) == Some(
                JsonMember::Text(a),
            ),
            TransferError::WorkerNoSession(a) => written(failure_record(e), "alias"@) == Some(
                JsonMember::Text(a),
            ),
            TransferError::WorkerNoSftp(a) => written(failure_record(e), "alias"@) == Some(
                JsonMember::Text(a),
            ),
            TransferError::RemoteTargetMustBeDir(a) => written(failure_record(e), "path"@) == Some(
                JsonMember::Text(a),
            ),
            TransferError::RemoteTargetParentMissing(a) => written(failure_record(e), "path"@)
                == Some(JsonMember::Text(a)),
            TransferError::LocalTargetMustBeDir(a) => written(failure_record(e), "path"@) == Some(
                JsonMember::Text(a),
            ),
            TransferError::LocalTargetParentMissing(a) => written(failure_record(e), "path"@)
                == Some(JsonMember::Text(a)),
            TransferError::CreateRemoteDirFailed(a, b) => written(failure_record(e), "path"@)
                == Some(JsonMember::Text(a)) && written(failure_record(e), "error"@) == Some(
                JsonMember::Text(b),
            ),
            TransferError::CreateLocalDirFailed(a, b) => written(failure_record(e), "path"@)
                == Some(JsonMember::Text(a)) && written(failure_record(e), "error"@) == Some(
                JsonMember::Text(b),
            ),
            TransferError::SftpCreateFailed(a) => written(failure_record(e), "error"@) == Some(
                JsonMember::Text(a),
            ),
            TransferError::SshNoAddress(a) => written(failure_record(e), "addr"@) == Some(
                JsonMember::Text(a),
            ),
            TransferError::SshSessionCreateFailed(a) => written(failure_record(e), "addr"@) == Some(
                JsonMember::Text(a),
            ),
            TransferError::SshHandshakeFailed(a) => written(failure_record(e), "addr"@) == Some(
                JsonMember::Text(a),
            ),
            TransferError::SshAuthFailed(a) => written(failure_record(e), "addr"@) == Some(
                JsonMember::Text(a),
            ),
            TransferError::WorkerBuildSessionFailed(a) => written(failure_record(e), "addr"@)
                == Some(JsonMember::Text(a)),
            TransferError::MissingLocalSource(a) => written(failure_record(e), "detail"@) == Some(
                JsonMember::Text(a),
            ),
            TransferError::DownloadMultipleRemoteSources(a) => written(
                failure_record(e),
                "detail"@,
            ) == Some(JsonMember::Text(a)),
            TransferError::InvalidDirection
            | TransferError::OperationFailed(_)
            | TransferError::WorkerIo(_) => failure_record(e).len() == 2,
        },
{
    reveal_strlit("variant");
    reveal_strlit("message");
    reveal_strlit("pattern");
    reveal_strlit("alias");
    reveal_strlit("path");
    reveal_strlit("error");
    reveal_strlit("addr");
    reveal_strlit("detail");
    reveal_with_fuel(written, 5);
    let record = failure_record(e);
    assert("message"@[0] == 'm');
    assert("pattern"@[0] == 'p');
    assert("alias"@[0] == 'a');
    assert("path"@[0] == 'p');
    assert("error"@[0] == 'e');
    assert("addr"@[0] == 'a');
    assert("detail"@[0] == 'd');
    assert(record.drop_last().len() == record.len() - 1);
}

/// The members of the record of an attempt that failed.
pub open spec fn attempt_record(
    ctx: Seq<char>,
    phase: RetryPhase,
    attempt: u64,
    max_retries: u64,
    error: Seq<char>,
    backoff_ms: u64,
) -> Seq<(Seq<char>, JsonField<Seq<char>>)> {
    seq![
        ("ctx"@, JsonField::Text(ctx)),
        ("phase"@, JsonField::Text(phase.text())),
        ("attempt"@, JsonField::Count(attempt)),
        ("max_retries"@, JsonField::Count(max_retries)),
        ("error"@, JsonField::Text(error)),
        ("backoff_ms"@, JsonField::Count(backoff_ms)),
    ]
}

/// The line that a failed attempt leaves in the record of attempts. The pause
/// is zero where no further attempt follows. It reads as the record of the
/// attempt.
pub fn retry_attempt_line(
    ctx: &str,
    phase: RetryPhase,
    attempt: usize,
    max_retries: usize,
    error: &OpError,
    step: RetryStep,
) -> (r: String)
    ensures
        r@ == json_object_text(
            attempt_record(
                ctx@,
                phase,
                attempt as u64,
                max_retries as u64,
                error@.text(),
                match step {
                    RetryStep::Wait(ms) => ms,
                    RetryStep::GiveUp => 0,
                },
            ),
        ) + seq!['\n'],
        reads_as(
            r@.drop_last(),
            attempt_record(
                ctx@,
                phase,
                attempt as u64,
                max_retries as u64,
                error@.text(),
                match step {
                    RetryStep::Wait(ms) => ms,
                    RetryStep::GiveUp => 0,
                },
            ),
        ),
{
    let wait: u64 = match step {
        RetryStep::Wait(ms) => ms,
        RetryStep::GiveUp => 0,
    };
    let mut v: Vec<(String, JsonField)> = Vec::new();
    v.push(text_field("ctx", ctx));
    v.push(text_field("phase", phase.name().as_str()));
    v.push(("attempt".to_owned(), JsonField::Count(attempt as u64)));
    v.push(("max_retries".to_owned(), JsonField::Count(max_retries as u64)));
    v.push(text_field("error", error.message().as_str()));
    v.push(("backoff_ms".to_owned(), JsonField::Count(wait)));
    proof {
        assert(fields_of(v@) =~= attempt_record(
            ctx@,
            phase,
            attempt as u64,
            max_retries as u64,
            error@.text(),
            wait,
        ));
    }
    let mut line = json_object(&v).unwrap();
    let ghost record = line@;
    line.push('\n');
    proof {
        assert(line@.drop_last() =~= record);
    }
    line
}

/// The record of an attempt that failed holds what is known of it, each under
/// its name; the two parts of a transfer have names of their own.
pub proof fn attempts_are_recorded(
    ctx: Seq<char>,
    phase: RetryPhase,
    attempt: u64,
    max_retries: u64,
    error: Seq<char>,
    backoff_ms: u64,
)
    ensures
        ({
            let record = attempt_record(ctx, phase, attempt, max_retries, error, backoff_ms);
            &&& written(record, "ctx"@) == Some(JsonMember::Text(ctx))
            &&& written(record, "attempt"@) == Some(
                JsonMember::<Seq<char>>::Number(Some(attempt)),
            )
            &&& written(record, "max_retries"@) == Some(
                JsonMember::<Seq<char>>::Number(Some(max_retries)),
            )
            &&& written(record, "error"@) == Some(JsonMember::Text(error))
            &&& written(record, "backoff_ms"@) == Some(
                JsonMember::<Seq<char>>::Number(Some(backoff_ms)),
            )
            &&& phase == RetryPhase::PreTransfer <==> written(record, "phase"@) == Some(
                JsonMember::Text("PreTransfer"@),
            )
            &&& phase == RetryPhase::DuringTransfer <==> written(record, "phase"@) == Some(
                JsonMember::Text("DuringTransfer"@),
            )
        }),
{
    let record = attempt_record(ctx, phase, attempt, max_retries, error, backoff_ms);
    reveal_strlit("ctx");
    reveal_strlit("phase");
    reveal_strlit("attempt");
    reveal_strlit("max_retries");
    reveal_strlit("error");
    reveal_strlit("backoff_ms");
    reveal_strlit("PreTransfer");
    reveal_strlit("DuringTransfer");
    assert("ctx"@[0] == 'c');
    assert("phase"@[0] == 'p');
    assert("attempt"@[0] == 'a');
    assert("max_retries"@[0] == 'm');
    assert("error"@[0] == 'e');
    assert("backoff_ms"@[0] == 'b');
    assert("PreTransfer"@[0] == 'P');
    assert("DuringTransfer"@[0] == 'D');
    last_written_counts(record, "ctx"@, 0);
    last_written_counts(record, "phase"@, 1);
    last_written_counts(record, "attempt"@, 2);
    last_written_counts(record, "max_retries"@, 3);
    last_written_counts(record, "error"@, 4);
    last_written_counts(record, "backoff_ms"@, 5);
}

/// The name of the file that holds the record of attempts.
pub fn retry_attempts_file() -> (r: String)
    ensures
        r@ == "retry_attempts.jsonl"@,
{
    "retry_attempts.jsonl".to_owned()
}

} // verus!
