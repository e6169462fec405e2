//! Text as a sequence of characters: searching, trimming, splitting, padding.
use vstd::prelude::*;
use vstd::string::*;

verus! {

/// `String::push` appends one character at the end of the string.
pub assume_specification[ String::push ](s: &mut String, c: char)
    ensures
        final(s)@ == old(s)@.push(c),
;

/// Whether `c` carries the Unicode `White_Space` property.
pub open spec fn is_space(c: char) -> bool {
    ||| '\u{9}' <= c <= '\u{d}'
    ||| c == ' '
    ||| c == '\u{85}'
    ||| c == '\u{a0}'
    ||| c == '\u{1680}'
    ||| '\u{2000}' <= c <= '\u{200a}'
    ||| c == '\u{2028}'
    ||| c == '\u{2029}'
    ||| c == '\u{202f}'
    ||| c == '\u{205f}'
    ||| c == '\u{3000}'
}

/// `s` without its leading white space.
pub open spec fn trim_start(s: Seq<char>) -> Seq<char>
    decreases s.len(),
{
    if s.len() > 0 && is_space(s[0]) {
        trim_start(s.drop_first())
    } else {
        s
    }
}

/// `s` without its trailing white space.
pub open spec fn trim_end(s: Seq<char>) -> Seq<char>
    decreases s.len(),
{
    if s.len() > 0 && is_space(s.last()) {
        trim_end(s.drop_last())
    } else {
        s
    }
}

/// `s` without white space at either end.
pub open spec fn trim(s: Seq<char>) -> Seq<char> {
    trim_end(trim_start(s))
}

/// `s` without the run of `c` that it starts with.
pub open spec fn strip_start(s: Seq<char>, c: char) -> Seq<char>
    decreases s.len(),
{
    if s.len() > 0 && s[0] == c {
        strip_start(s.drop_first(), c)
    } else {
        s
    }
}

/// `s` without the run of `c` that it ends with.
pub open spec fn strip_end(s: Seq<char>, c: char) -> Seq<char>
    decreases s.len(),
{
    if s.len() > 0 && s.last() == c {
        strip_end(s.drop_last(), c)
    } else {
        s
    }
}

/// The position of the first `c` in `s`, or the length of `s` where there is none.
pub open spec fn first_pos(s: Seq<char>, c: char) -> nat
    decreases s.len(),
{
    if s.len() == 0 || s[0] == c {
        0
    } else {
        1 + first_pos(s.drop_first(), c)
    }
}

/// The position of the last `c` in `s`, or -1 where there is none.
pub open spec fn last_pos(s: Seq<char>, c: char) -> int
    decreases s.len(),
{
    if s.len() == 0 {
        -1
    } else if s.last() == c {
        s.len() - 1
    } else {
        last_pos(s.drop_last(), c)
    }
}

/// Whether `part` occurs in `s` as a run of neighbouring characters.
pub open spec fn has_part(s: Seq<char>, part: Seq<char>) -> bool {
    exists|i: int|
        0 <= i <= s.len() - part.len() && #[trigger] s.subrange(i, i + part.len()) == part
}

/// The pieces of `s` between the separators `c`; one piece more than there are separators.
pub open spec fn split(s: Seq<char>, c: char) -> Seq<Seq<char>>
    decreases s.len(),
{
    let p = first_pos(s, c);
    if p >= s.len() {
        seq![s]
    } else {
        seq![s.take(p as int)] + split(s.skip(p as int + 1), c)
    }
}

/// `s` with every `from` written as `to`.
pub open spec fn replace_char(s: Seq<char>, from: char, to: char) -> Seq<char> {
    Seq::new(s.len(), |i: int| if s[i] == from { to } else { s[i] })
}

/// `s` without any `c`.
pub open spec fn remove_char(s: Seq<char>, c: char) -> Seq<char>
    decreases s.len(),
{
    if s.len() == 0 {
        s
    } else if s.last() == c {
        remove_char(s.drop_last(), c)
    } else {
        remove_char(s.drop_last(), c).push(s.last())
    }
}

/// The first line of `s`, without its line ending; `None` where `s` is empty.
pub open spec fn first_line(s: Seq<char>) -> Option<Seq<char>> {
    if s.len() == 0 {
        None
    } else {
        let p = first_pos(s, '\n') as int;
        let line = s.take(p);
        if p < s.len() && line.len() > 0 && line.last() == '\r' {
            Some(line.drop_last())
        } else {
            Some(line)
        }
    }
}

/// `n` blanks.
pub open spec fn blanks(n: nat) -> Seq<char> {
    Seq::new(n, |i: int| ' ')
}

/// `s` with blanks behind it up to a width of `w`.
pub open spec fn pad_right(s: Seq<char>, w: nat) -> Seq<char> {
    if s.len() < w {
        s + blanks((w - s.len()) as nat)
    } else {
        s
    }
}

/// `s` with blanks before it up to a width of `w`.
pub open spec fn pad_left(s: Seq<char>, w: nat) -> Seq<char> {
    if s.len() < w {
        blanks((w - s.len()) as nat) + s
    } else {
        s
    }
}

/// The first `n` characters of `s`, or all of them where there are fewer.
pub open spec fn clip(s: Seq<char>, n: nat) -> Seq<char> {
    if s.len() > n {
        s.take(n as int)
    } else {
        s
    }
}

/// The order of texts: by the first character in which they differ, a text
/// before those that it is a proper beginning of.
pub open spec fn text_less(a: Seq<char>, b: Seq<char>) -> bool
    decreases a.len(),
{
    if b.len() == 0 {
        false
    } else if a.len() == 0 {
        true
    } else if a[0] != b[0] {
        a[0] < b[0]
    } else {
        text_less(a.drop_first(), b.drop_first())
    }
}

// ---------------------------------------------------------------------------
// Lemmas
// ---------------------------------------------------------------------------

pub proof fn lemma_first_pos(s: Seq<char>, c: char)
    ensures
        first_pos(s, c) <= s.len(),
        first_pos(s, c) < s.len() ==> s[first_pos(s, c) as int] == c,
        forall|j: int| 0 <= j < first_pos(s, c) ==> s[j] != c,
        first_pos(s, c) < s.len() <==> s.contains(c),
    decreases s.len(),
{
    if s.len() == 0 || s[0] == c {
        if s.len() > 0 {
            assert(s.contains(s[0]));
        }
    } else {
        let t = s.drop_first();
        lemma_first_pos(t, c);
        assert forall|j: int| 0 <= j < first_pos(s, c) implies s[j] != c by {
            if j > 0 {
                assert(s[j] == t[j - 1]);
            }
        }
        if first_pos(s, c) < s.len() {
            assert(s[first_pos(s, c) as int] == t[first_pos(t, c) as int]);
        }
    }
}

pub proof fn lemma_first_pos_is(s: Seq<char>, c: char, p: int)
    requires
        0 <= p <= s.len(),
        p < s.len() ==> s[p] == c,
        forall|j: int| 0 <= j < p ==> s[j] != c,
    ensures
        first_pos(s, c) == p,
{
    lemma_first_pos(s, c);
    let q = first_pos(s, c) as int;
    if q < p {
        assert(s[q] != c);
    }
    if p < q {
        assert(s[p] != c);
    }
}

pub proof fn lemma_last_pos(s: Seq<char>, c: char)
    ensures
        -1 <= last_pos(s, c) < s.len(),
        last_pos(s, c) >= 0 ==> s[last_pos(s, c)] == c,
        forall|j: int| last_pos(s, c) < j < s.len() ==> s[j] != c,
    decreases s.len(),
{
    if s.len() > 0 && s.last() != c {
        let t = s.drop_last();
        lemma_last_pos(t, c);
        assert forall|j: int| last_pos(s, c) < j < s.len() implies s[j] != c by {
            if j < t.len() {
                assert(s[j] == t[j]);
            }
        }
    }
}

pub proof fn lemma_last_pos_is(s: Seq<char>, c: char, p: int)
    requires
        -1 <= p < s.len(),
        p >= 0 ==> s[p] == c,
        forall|j: int| p < j < s.len() ==> s[j] != c,
    ensures
        last_pos(s, c) == p,
{
    lemma_last_pos(s, c);
    let q = last_pos(s, c);
    if q < p {
        assert(s[p] != c);
    }
    if p < q {
        assert(s[q] != c);
    }
}

pub proof fn lemma_trim_start_is(s: Seq<char>, p: int)
    requires
        0 <= p <= s.len(),
        p < s.len() ==> !is_space(s[p]),
        forall|j: int| 0 <= j < p ==> is_space(s[j]),
    ensures
        trim_start(s) == s.skip(p),
    decreases s.len(),
{
    if p == 0 {
        assert(s.skip(0) =~= s);
    } else {
        let t = s.drop_first();
        assert forall|j: int| 0 <= j < p - 1 implies is_space(t[j]) by {
            assert(t[j] == s[j + 1]);
        }
        lemma_trim_start_is(t, p - 1);
        assert(t.skip(p - 1) =~= s.skip(p));
    }
}

pub proof fn lemma_trim_end_is(s: Seq<char>, p: int)
    requires
        0 <= p <= s.len(),
        p > 0 ==> !is_space(s[p - 1]),
        forall|j: int| p <= j < s.len() ==> is_space(s[j]),
    ensures
        trim_end(s) == s.take(p),
    decreases s.len(),
{
    if p == s.len() {
        assert(s.take(p) =~= s);
    } else {
        let t = s.drop_last();
        lemma_trim_end_is(t, p);
        assert(t.take(p) =~= s.take(p));
    }
}

pub proof fn lemma_strip_start_is(s: Seq<char>, c: char, p: int)
    requires
        0 <= p <= s.len(),
        p < s.len() ==> s[p] != c,
        forall|j: int| 0 <= j < p ==> s[j] == c,
    ensures
        strip_start(s, c) == s.skip(p),
    decreases s.len(),
{
    if p == 0 {
        assert(s.skip(0) =~= s);
    } else {
        let t = s.drop_first();
        assert forall|j: int| 0 <= j < p - 1 implies t[j] == c by {
            assert(t[j] == s[j + 1]);
        }
        lemma_strip_start_is(t, c, p - 1);
        assert(t.skip(p - 1) =~= s.skip(p));
    }
}

pub proof fn lemma_strip_end_is(s: Seq<char>, c: char, p: int)
    requires
        0 <= p <= s.len(),
        p > 0 ==> s[p - 1] != c,
        forall|j: int| p <= j < s.len() ==> s[j] == c,
    ensures
        strip_end(s, c) == s.take(p),
    decreases s.len(),
{
    if p == s.len() {
        assert(s.take(p) =~= s);
    } else {
        let t = s.drop_last();
        lemma_strip_end_is(t, c, p);
        assert(t.take(p) =~= s.take(p));
    }
}

pub proof fn lemma_text_less_irreflexive(a: Seq<char>)
    ensures
        !text_less(a, a),
    decreases a.len(),
{
    if a.len() > 0 {
        lemma_text_less_irreflexive(a.drop_first());
    }
}

pub proof fn lemma_text_less_transitive(a: Seq<char>, b: Seq<char>, c: Seq<char>)
    requires
        text_less(a, b),
        text_less(b, c),
    ensures
        text_less(a, c),
    decreases a.len(),
{
    if a.len() > 0 && b.len() > 0 && c.len() > 0 && a[0] == b[0] && b[0] == c[0] {
        lemma_text_less_transitive(a.drop_first(), b.drop_first(), c.drop_first());
    }
}

pub proof fn lemma_text_less_total(a: Seq<char>, b: Seq<char>)
    ensures
        text_less(a, b) || a == b || text_less(b, a),
    decreases a.len(),
{
    if a.len() == 0 || b.len() == 0 {
        if a.len() == 0 && b.len() == 0 {
            assert(a =~= b);
        }
    } else if a[0] == b[0] {
        lemma_text_less_total(a.drop_first(), b.drop_first());
        if a.drop_first() == b.drop_first() {
            assert(a =~= seq![a[0]] + a.drop_first());
            assert(b =~= seq![b[0]] + b.drop_first());
        }
    }
}

/// A text that is less than another is a different text, and not the greater one.
pub proof fn lemma_text_less_asymmetric(a: Seq<char>, b: Seq<char>)
    requires
        text_less(a, b),
    ensures
        a != b,
        !text_less(b, a),
{
    lemma_text_less_irreflexive(a);
    if text_less(b, a) {
        lemma_text_less_transitive(a, b, a);
    }
}

proof fn lemma_text_less_from(a: Seq<char>, b: Seq<char>, i: int)
    requires
        0 <= i <= a.len(),
        i <= b.len(),
        a.take(i) == b.take(i),
    ensures
        text_less(a, b) == text_less(a.skip(i), b.skip(i)),
    decreases i,
{
    if i == 0 {
        assert(a.skip(0) =~= a);
        assert(b.skip(0) =~= b);
    } else {
        assert(a[0] == a.take(i)[0]);
        assert(b[0] == b.take(i)[0]);
        let a1 = a.drop_first();
        let b1 = b.drop_first();
        assert(a1.take(i - 1) =~= a.take(i).drop_first());
        assert(b1.take(i - 1) =~= b.take(i).drop_first());
        lemma_text_less_from(a1, b1, i - 1);
        assert(a1.skip(i - 1) =~= a.skip(i));
        assert(b1.skip(i - 1) =~= b.skip(i));
    }
}

// ---------------------------------------------------------------------------
// Conversions, comparison, concatenation
// ---------------------------------------------------------------------------

/// The characters of `s`, in order.
pub fn to_chars(s: &str) -> (r: Vec<char>)
    ensures
        r@ == s@,
{
    let mut r: Vec<char> = Vec::new();
    for c in it: s.chars()
        invariant
            it.seq() == s@,
            r@ == s@.take(it.index() as int),
    {
        r.push(c);
        proof {
            assert(s@.take(it.index() as int + 1) =~= s@.take(it.index() as int).push(c));
        }
    }
    proof {
        assert(s@.take(s@.len() as int) =~= s@);
    }
    r
}

/// The text made of `v[from..to]`.
pub fn text_of(v: &Vec<char>, from: usize, to: usize) -> (r: String)
    requires
        from <= to <= v.len(),
    ensures
        r@ == v@.subrange(from as int, to as int),
{
    let mut r: String = String::new();
    let mut i: usize = from;
    while i < to
        invariant
            from <= i <= to <= v.len(),
            r@ == v@.subrange(from as int, i as int),
        decreases to - i,
    {
        r.push(v[i]);
        proof {
            assert(v@.subrange(from as int, i + 1) =~= v@.subrange(from as int, i as int).push(
                v@[i as int],
            ));
        }
        i = i + 1;
    }
    r
}

/// Whether two texts are the same.
pub fn same(a: &str, b: &str) -> (r: bool)
    ensures
        r == (a@ == b@),
{
    a.to_owned() == b.to_owned()
}

/// Whether `a` comes before `b` in the order of texts.
pub fn comes_before(a: &str, b: &str) -> (r: bool)
    ensures
        r == text_less(a@, b@),
{
    let x = to_chars(a);
    let y = to_chars(b);
    let mut i: usize = 0;
    while i < x.len() && i < y.len() && x[i] == y[i]
        invariant
            i <= x.len(),
            i <= y.len(),
            x@ == a@,
            y@ == b@,
            x@.take(i as int) == y@.take(i as int),
        decreases x.len() - i,
    {
        proof {
            assert(x@.take(i + 1) =~= x@.take(i as int).push(x@[i as int]));
            assert(y@.take(i + 1) =~= y@.take(i as int).push(y@[i as int]));
        }
        i = i + 1;
    }
    proof {
        lemma_text_less_from(x@, y@, i as int);
    }
    if i >= y.len() {
        false
    } else if i >= x.len() {
        true
    } else {
        x[i] < y[i]
    }
}

pub fn cat2(a: &str, b: &str) -> (r: String)
    ensures
        r@ == a@ + b@,
{
    let mut r = a.to_owned();
    r.append(b);
    r
}

pub fn cat3(a: &str, b: &str, c: &str) -> (r: String)
    ensures
        r@ == a@ + b@ + c@,
{
    let mut r = a.to_owned();
    r.append(b);
    r.append(c);
    r
}

pub fn cat4(a: &str, b: &str, c: &str, d: &str) -> (r: String)
    ensures
        r@ == a@ + b@ + c@ + d@,
{
    let mut r = cat3(a, b, c);
    r.append(d);
    r
}

pub fn cat5(a: &str, b: &str, c: &str, d: &str, e: &str) -> (r: String)
    ensures
        r@ == a@ + b@ + c@ + d@ + e@,
{
    let mut r = cat4(a, b, c, d);
    r.append(e);
    r
}

// ---------------------------------------------------------------------------
// Searching and trimming
// ---------------------------------------------------------------------------

/// Whether `c` is white space.
pub fn is_white_space(c: char) -> (r: bool)
    ensures
        r == is_space(c),
{
    ('\u{9}' <= c && c <= '\u{d}') || c == ' ' || c == '\u{85}' || c == '\u{a0}' || c == '\u{1680}'
        || ('\u{2000}' <= c && c <= '\u{200a}') || c == '\u{2028}' || c == '\u{2029}' || c
        == '\u{202f}' || c == '\u{205f}' || c == '\u{3000}'
}

/// The position of the first `c` in `v`, or the length of `v`.
pub fn find_char(v: &Vec<char>, c: char) -> (r: usize)
    ensures
        r == first_pos(v@, c),
        r <= v.len(),
{
    let mut i: usize = 0;
    while i < v.len() && v[i] != c
        invariant
            i <= v.len(),
            forall|j: int| 0 <= j < i ==> v@[j] != c,
        decreases v.len() - i,
    {
        i = i + 1;
    }
    proof {
        lemma_first_pos_is(v@, c, i as int);
    }
    i
}

/// The position of the last `c` in `v`.
pub fn rfind_char(v: &Vec<char>, c: char) -> (r: Option<usize>)
    ensures
        match r {
            Some(i) => i == last_pos(v@, c) && i < v.len(),
            None => last_pos(v@, c) == -1,
        },
{
    let mut i: usize = v.len();
    while i > 0 && v[i - 1] != c
        invariant
            i <= v.len(),
            forall|j: int| i <= j < v.len() ==> v@[j] != c,
        decreases i,
    {
        i = i - 1;
    }
    proof {
        lemma_last_pos_is(v@, c, i - 1);
    }
    if i == 0 {
        None
    } else {
        Some(i - 1)
    }
}

/// Whether `c` occurs in `s`.
pub fn contains_char(s: &str, c: char) -> (r: bool)
    ensures
        r == s@.contains(c),
{
    let v = to_chars(s);
    let p = find_char(&v, c);
    proof {
        lemma_first_pos(v@, c);
    }
    p < v.len()
}

/// Whether `s` ends with `c`.
pub fn ends_with_char(s: &str, c: char) -> (r: bool)
    ensures
        r == (s@.len() > 0 && s@.last() == c),
{
    let v = to_chars(s);
    v.len() > 0 && v[v.len() - 1] == c
}

/// Whether `s` starts with `c`.
pub fn starts_with_char(s: &str, c: char) -> (r: bool)
    ensures
        r == (s@.len() > 0 && s@[0] == c),
{
    let v = to_chars(s);
    v.len() > 0 && v[0] == c
}

/// Whether `part` occurs in `s`.
pub fn contains_part(s: &str, part: &str) -> (r: bool)
    ensures
        r == has_part(s@, part@),
{
    let v = to_chars(s);
    let w = to_chars(part);
    if w.len() > v.len() {
        return false;
    }
    let last: usize = v.len() - w.len();
    let mut i: usize = 0;
    while i <= last
        invariant
            v@ == s@,
            w@ == part@,
            last == v.len() - w.len(),
            i <= last + 1,
            forall|k: int| 0 <= k < i ==> #[trigger] s@.subrange(k, k + part@.len()) != part@,
        decreases last + 1 - i,
    {
        let mut j: usize = 0;
        while j < w.len() && v[i + j] == w[j]
            invariant
                v@ == s@,
                w@ == part@,
                last == v.len() - w.len(),
                i <= last,
                j <= w.len(),
                forall|k: int| 0 <= k < j ==> v@[i + k] == w@[k],
            decreases w.len() - j,
        {
            j = j + 1;
        }
        if j == w.len() {
            proof {
                assert(s@.subrange(i as int, i + part@.len()) =~= part@);
            }
            return true;
        }
        proof {
            if s@.subrange(i as int, i + part@.len()) == part@ {
                assert(s@.subrange(i as int, i + part@.len())[j as int] == part@[j as int]);
            }
        }
        if i == last {
            return false;
        }
        i = i + 1;
    }
    false
}

/// `s` without white space at either end.
pub fn trimmed(s: &str) -> (r: String)
    ensures
        r@ == trim(s@),
{
    let v = to_chars(s);
    let mut a: usize = 0;
    while a < v.len() && is_white_space(v[a])
        invariant
            a <= v.len(),
            forall|j: int| 0 <= j < a ==> is_space(v@[j]),
        decreases v.len() - a,
    {
        a = a + 1;
    }
    let mut b: usize = v.len();
    while b > a && is_white_space(v[b - 1])
        invariant
            a <= b <= v.len(),
            forall|j: int| b <= j < v.len() ==> is_space(v@[j]),
        decreases b,
    {
        b = b - 1;
    }
    proof {
        lemma_trim_start_is(v@, a as int);
        let t = v@.skip(a as int);
        lemma_trim_end_is(t, b - a);
        assert(t.take(b - a) =~= v@.subrange(a as int, b as int));
    }
    text_of(&v, a, b)
}

/// `s` without the run of `c` that it starts with.
pub fn without_start(s: &str, c: char) -> (r: String)
    ensures
        r@ == strip_start(s@, c),
{
    let v = to_chars(s);
    let mut a: usize = 0;
    while a < v.len() && v[a] == c
        invariant
            a <= v.len(),
            forall|j: int| 0 <= j < a ==> v@[j] == c,
        decreases v.len() - a,
    {
        a = a + 1;
    }
    proof {
        lemma_strip_start_is(v@, c, a as int);
        assert(v@.skip(a as int) =~= v@.subrange(a as int, v@.len() as int));
    }
    text_of(&v, a, v.len())
}

/// `s` without the run of `c` that it ends with.
pub fn without_end(s: &str, c: char) -> (r: String)
    ensures
        r@ == strip_end(s@, c),
{
    let v = to_chars(s);
    let mut b: usize = v.len();
    while b > 0 && v[b - 1] == c
        invariant
            b <= v.len(),
            forall|j: int| b <= j < v.len() ==> v@[j] == c,
        decreases b,
    {
        b = b - 1;
    }
    proof {
        lemma_strip_end_is(v@, c, b as int);
        assert(v@.take(b as int) =~= v@.subrange(0, b as int));
    }
    text_of(&v, 0, b)
}

/// `s` with every `from` written as `to`.
pub fn with_char_replaced(s: &str, from: char, to: char) -> (r: String)
    ensures
        r@ == replace_char(s@, from, to),
{
    let v = to_chars(s);
    let mut r: String = String::new();
    let mut i: usize = 0;
    while i < v.len()
        invariant
            i <= v.len(),
            v@ == s@,
            r@ == replace_char(s@, from, to).take(i as int),
        decreases v.len() - i,
    {
        if v[i] == from {
            r.push(to);
        } else {
            r.push(v[i]);
        }
        proof {
            let t = replace_char(s@, from, to);
            assert(t.take(i + 1) =~= t.take(i as int).push(t[i as int]));
        }
        i = i + 1;
    }
    proof {
        let t = replace_char(s@, from, to);
        assert(t.take(t.len() as int) =~= t);
    }
    r
}

/// `s` without any `c`.
pub fn without_char(s: &str, c: char) -> (r: String)
    ensures
        r@ == remove_char(s@, c),
{
    let v = to_chars(s);
    let mut r: String = String::new();
    let mut i: usize = 0;
    proof {
        assert(v@.take(0) =~= Seq::<char>::empty());
    }
    while i < v.len()
        invariant
            i <= v.len(),
            v@ == s@,
            r@ == remove_char(v@.take(i as int), c),
        decreases v.len() - i,
    {
        proof {
            assert(v@.take(i + 1).drop_last() =~= v@.take(i as int));
        }
        if v[i] != c {
            r.push(v[i]);
        }
        i = i + 1;
    }
    proof {
        assert(v@.take(v@.len() as int) =~= v@);
    }
    r
}

/// The first line of `s`.
pub fn line_one(s: &str) -> (r: Option<String>)
    ensures
        match r {
            Some(t) => first_line(s@) == Some(t@),
            None => first_line(s@) is None,
        },
{
    let v = to_chars(s);
    if v.len() == 0 {
        return None;
    }
    let p = find_char(&v, '\n');
    proof {
        assert(v@.take(p as int) =~= v@.subrange(0, p as int));
    }
    if p < v.len() && p > 0 && v[p - 1] == '\r' {
        proof {
            assert(v@.take(p as int).drop_last() =~= v@.subrange(0, p - 1));
        }
        Some(text_of(&v, 0, p - 1))
    } else {
        Some(text_of(&v, 0, p))
    }
}

/// The pieces of `s` between the separators `c`.
pub fn split_on(s: &str, c: char) -> (r: Vec<String>)
    ensures
        r@.map_values(|p: String| p@) == split(s@, c),
{
    let v = to_chars(s);
    let mut r: Vec<String> = Vec::new();
    let ghost view = |p: String| p@;
    let mut start: usize = 0;
    let mut i: usize = 0;
    proof {
        assert(v@.skip(0) =~= v@);
        assert(r@.map_values(view) + split(v@, c) =~= split(v@, c));
    }
    while i < v.len()
        invariant
            v@ == s@,
            start <= i <= v.len(),
            forall|j: int| start <= j < i ==> v@[j] != c,
            r@.map_values(view) + split(v@.skip(start as int), c) == split(s@, c),
            view == (|p: String| p@),
        decreases v.len() - i,
    {
        if v[i] == c {
            let piece = text_of(&v, start, i);
            proof {
                let t = v@.skip(start as int);
                assert forall|j: int| 0 <= j < i - start implies t[j] != c by {
                    assert(t[j] == v@[start + j]);
                }
                lemma_first_pos_is(t, c, i - start);
                assert(t.take(i - start) =~= piece@);
                assert(t.skip(i - start + 1) =~= v@.skip(i + 1));
                let before = r@.map_values(view);
                assert(r@.push(piece).map_values(view) =~= before.push(piece@));
                assert(before + (seq![piece@] + split(v@.skip(i + 1), c)) =~= before.push(piece@)
                    + split(v@.skip(i + 1), c));
            }
            r.push(piece);
            start = i + 1;
        }
        i = i + 1;
    }
    let piece = text_of(&v, start, v.len());
    proof {
        let t = v@.skip(start as int);
        assert forall|j: int| 0 <= j < t.len() implies t[j] != c by {
            assert(t[j] == v@[start + j]);
        }
        lemma_first_pos_is(t, c, t.len() as int);
        assert(t =~= piece@);
        assert(r@.push(piece).map_values(view) =~= r@.map_values(view).push(piece@));
        assert(r@.map_values(view) + seq![piece@] =~= r@.map_values(view).push(piece@));
    }
    r.push(piece);
    r
}

// ---------------------------------------------------------------------------
// Widths
// ---------------------------------------------------------------------------

/// `n` blanks.
pub fn make_blanks(n: usize) -> (r: String)
    ensures
        r@ == blanks(n as nat),
{
    let mut r: String = String::new();
    let mut i: usize = 0;
    while i < n
        invariant
            i <= n,
            r@ == blanks(i as nat),
        decreases n - i,
    {
        r.push(' ');
        i = i + 1;
        proof {
            assert(blanks(i as nat) =~= blanks((i - 1) as nat).push(' '));
        }
    }
    r
}

/// The number of characters of `s`.
pub fn char_count(s: &str) -> (n: usize)
    ensures
        n == s@.len(),
{
    to_chars(s).len()
}

/// `s` flush left in a field of `w` characters.
pub fn flush_left(s: &str, w: usize) -> (r: String)
    ensures
        r@ == pad_right(s@, w as nat),
{
    let n = char_count(s);
    if n < w {
        cat2(s, make_blanks(w - n).as_str())
    } else {
        s.to_owned()
    }
}

/// `s` flush right in a field of `w` characters.
pub fn flush_right(s: &str, w: usize) -> (r: String)
    ensures
        r@ == pad_left(s@, w as nat),
{
    let n = char_count(s);
    if n < w {
        cat2(make_blanks(w - n).as_str(), s)
    } else {
        s.to_owned()
    }
}

/// The first `n` characters of `s`.
pub fn clipped(s: &str, n: usize) -> (r: String)
    ensures
        r@ == clip(s@, n as nat),
{
    let v = to_chars(s);
    if v.len() > n {
        proof {
            assert(v@.take(n as int) =~= v@.subrange(0, n as int));
        }
        text_of(&v, 0, n)
    } else {
        s.to_owned()
    }
}

/// `s` without its last character; an empty text stays empty.
pub open spec fn drop_tail(s: Seq<char>) -> Seq<char> {
    if s.len() == 0 {
        s
    } else {
        s.drop_last()
    }
}

/// `s` without its last character.
pub fn without_last(s: &str) -> (r: String)
    ensures
        r@ == drop_tail(s@),
{
    let v = to_chars(s);
    if v.len() == 0 {
        s.to_owned()
    } else {
        let n = v.len() - 1;
        proof {
            assert(v@.drop_last() =~= v@.subrange(0, n as int));
        }
        text_of(&v, 0, n)
    }
}

/// A list of texts, as mathematical values.
pub open spec fn texts(v: Seq<String>) -> Seq<Seq<char>> {
    v.map_values(|s: String| s@)
}

/// A list of one text.
pub fn list1(a: String) -> (r: Vec<String>)
    ensures
        texts(r@) == seq![a@],
{
    let mut v: Vec<String> = Vec::new();
    v.push(a);
    proof {
        assert(texts(v@) =~= seq![a@]);
    }
    v
}

/// A list with a text behind it.
pub fn listed(v: Vec<String>, a: String) -> (r: Vec<String>)
    ensures
        texts(r@) == texts(v@).push(a@),
{
    let mut v = v;
    let ghost before = v@;
    v.push(a);
    proof {
        assert(texts(v@) =~= texts(before).push(a@));
    }
    v
}

/// A text that stands between others occurs in what they make up.
pub proof fn lemma_part_between(a: Seq<char>, part: Seq<char>, b: Seq<char>)
    ensures
        has_part(a + part + b, part),
{
    let s = a + part + b;
    let at = a.len() as int;
    assert(s.subrange(at, at + part.len()) =~= part);
}

/// A text that stands behind another occurs in what they make up.
pub proof fn lemma_part_behind(a: Seq<char>, part: Seq<char>)
    ensures
        has_part(a + part, part),
{
    let s = a + part;
    let at = a.len() as int;
    assert(s.subrange(at, at + part.len()) =~= part);
}

/// What occurs in a text occurs in every text that it is a part of.
pub proof fn lemma_part_of_part(a: Seq<char>, s: Seq<char>, b: Seq<char>, part: Seq<char>)
    requires
        has_part(s, part),
    ensures
        has_part(a + s + b, part),
{
    let i = choose|i: int|
        0 <= i <= s.len() - part.len() && #[trigger] s.subrange(i, i + part.len()) == part;
    let t = a + s + b;
    let at = a.len() + i;
    assert(t.subrange(at, at + part.len()) =~= part);
}

/// Taking white space off the ends adds no character.
pub proof fn lemma_trim_part(s: Seq<char>, c: char)
    ensures
        trim(s).contains(c) ==> s.contains(c),
{
    lemma_trim_start_part(s, c);
    lemma_trim_end_part(trim_start(s), c);
}

proof fn lemma_trim_start_part(s: Seq<char>, c: char)
    ensures
        trim_start(s).contains(c) ==> s.contains(c),
    decreases s.len(),
{
    if s.len() > 0 && is_space(s[0]) {
        lemma_trim_start_part(s.drop_first(), c);
        if s.drop_first().contains(c) {
            let i = s.drop_first().index_of(c);
            assert(s[i + 1] == c);
        }
    }
}

proof fn lemma_trim_end_part(s: Seq<char>, c: char)
    ensures
        trim_end(s).contains(c) ==> s.contains(c),
    decreases s.len(),
{
    if s.len() > 0 && is_space(s.last()) {
        lemma_trim_end_part(s.drop_last(), c);
        if s.drop_last().contains(c) {
            let i = s.drop_last().index_of(c);
            assert(s[i] == c);
        }
    }
}

/// A character that was taken out is gone, and no other comes in.
pub proof fn lemma_remove_char(s: Seq<char>, c: char)
    ensures
        !remove_char(s, c).contains(c),
        forall|d: char| #[trigger] remove_char(s, c).contains(d) ==> s.contains(d),
    decreases s.len(),
{
    if s.len() > 0 {
        lemma_remove_char(s.drop_last(), c);
        let front = remove_char(s.drop_last(), c);
        assert forall|d: char| #[trigger] remove_char(s, c).contains(d) implies s.contains(d) by {
            if front.contains(d) {
                assert(s.drop_last().contains(d));
                let i = s.drop_last().index_of(d);
                assert(s[i] == d);
            } else if s.last() != c {
                let i = remove_char(s, c).index_of(d);
                if i < front.len() {
                    assert(front[i] == d);
                }
                assert(s[s.len() - 1] == d);
            }
        }
        if s.last() != c && remove_char(s, c).contains(c) {
            let i = remove_char(s, c).index_of(c);
            if i < front.len() {
                assert(front[i] == c);
            }
        }
    }
}

// ---------------------------------------------------------------------------
// What holds of texts
// ---------------------------------------------------------------------------

/// Blanks, tabs and line breaks around a text go, and the text stays.
pub proof fn white_space_around_goes(a: Seq<char>, s: Seq<char>, b: Seq<char>)
    requires
        forall|i: int|
            0 <= i < a.len() ==> (#[trigger] a[i] == ' ' || a[i] == '\t' || a[i] == '\n' || a[i]
                == '\r'),
        forall|i: int|
            0 <= i < b.len() ==> (#[trigger] b[i] == ' ' || b[i] == '\t' || b[i] == '\n' || b[i]
                == '\r'),
        s.len() > 0,
        !is_space(s[0]),
        !is_space(s.last()),
    ensures
        trim(a + s + b) == s,
        trim(a) == Seq::<char>::empty(),
{
    let t = a + s + b;
    assert(t[a.len() as int] == s[0]);
    lemma_trim_start_is(t, a.len() as int);
    let u = t.skip(a.len() as int);
    assert(u =~= s + b);
    assert(u[s.len() - 1] == s.last());
    lemma_trim_end_is(u, s.len() as int);
    assert(u.take(s.len() as int) =~= s);
    lemma_trim_start_is(a, a.len() as int);
    assert(a.skip(a.len() as int) =~= Seq::<char>::empty());
}

/// No character that prints in ASCII is white space, nor is anything between
/// white space taken away.
pub proof fn printed_characters_are_kept(s: Seq<char>)
    requires
        forall|i: int| 0 <= i < s.len() ==> '!' <= #[trigger] s[i] <= '~',
    ensures
        trim(s) == s,
{
    if s.len() > 0 {
        assert(!is_space(s[0]));
        assert(!is_space(s[s.len() - 1]));
    }
    lemma_trim_start_is(s, 0);
    assert(s.skip(0) =~= s);
    lemma_trim_end_is(s, s.len() as int);
    assert(s.take(s.len() as int) =~= s);
}

/// A text is split at every separator: what stands before the first is the
/// first piece, and the others are those of what follows it. Without a
/// separator it is one piece.
pub proof fn pieces_stand_between_separators(a: Seq<char>, b: Seq<char>, c: char)
    requires
        !a.contains(c),
    ensures
        split(a + seq![c] + b, c) == seq![a] + split(b, c),
        split(a, c) == seq![a],
{
    let s = a + seq![c] + b;
    assert forall|j: int| 0 <= j < a.len() implies s[j] != c by {
        assert(s[j] == a[j]);
        assert(a.contains(a[j]));
    }
    lemma_first_pos_is(s, c, a.len() as int);
    assert(s.take(a.len() as int) =~= a);
    assert(s.skip(a.len() as int + 1) =~= b);
    assert forall|j: int| 0 <= j < a.len() implies a[j] != c by {
        assert(a.contains(a[j]));
    }
    lemma_first_pos_is(a, c, a.len() as int);
}

/// A replaced character stands nowhere any more, and all others stand where
/// they stood.
pub proof fn replaced_characters_are_gone(s: Seq<char>, from: char, to: char, i: int)
    requires
        0 <= i < s.len(),
    ensures
        replace_char(s, from, to).len() == s.len(),
        s[i] == from ==> replace_char(s, from, to)[i] == to,
        s[i] != from ==> replace_char(s, from, to)[i] == s[i],
{
}

/// A text is padded to the width and no further: it stays, with blanks on one
/// side of it.
pub proof fn padded_texts_have_the_width(s: Seq<char>, w: nat)
    ensures
        s.len() >= w ==> pad_right(s, w) == s && pad_left(s, w) == s,
        s.len() < w ==> pad_right(s, w).len() == w && pad_left(s, w).len() == w,
        pad_right(s, w).take(s.len() as int) == s,
        pad_left(s, w).skip(pad_left(s, w).len() - s.len()) == s,
        forall|i: int| s.len() <= i < pad_right(s, w).len() ==> #[trigger] pad_right(s, w)[i] == ' ',
        forall|i: int|
            0 <= i < pad_left(s, w).len() - s.len() ==> #[trigger] pad_left(s, w)[i] == ' ',
{
    assert(pad_right(s, w).take(s.len() as int) =~= s);
    assert(pad_left(s, w).skip(pad_left(s, w).len() - s.len()) =~= s);
}

/// A text is clipped to its beginning, and only where it is too long.
pub proof fn clipped_texts_are_beginnings(s: Seq<char>, rest: Seq<char>)
    ensures
        clip(s + rest, s.len()) == s,
        clip(s, s.len() + rest.len()) == s,
{
    assert((s + rest).take(s.len() as int) =~= s);
    if rest.len() == 0 {
        assert(s + rest =~= s);
    }
}

/// Taking the last character off a text gives what it was before that was
/// written behind it.
pub proof fn last_character_is_taken_off(s: Seq<char>, c: char)
    ensures
        drop_tail(s.push(c)) == s,
        drop_tail(Seq::<char>::empty()) == Seq::<char>::empty(),
{
    assert(s.push(c).drop_last() =~= s);
}

/// The first line is what stands before the first line break, whichever way
/// that is written; a text without one is a line.
pub proof fn first_line_ends_at_the_break(line: Seq<char>, rest: Seq<char>)
    requires
        !line.contains('\n'),
        line.len() > 0,
        line.last() != '\r',
    ensures
        first_line(line + seq!['\n'] + rest) == Some(line),
        first_line(line + seq!['\r', '\n'] + rest) == Some(line),
        first_line(line) == Some(line),
        first_line(seq!['\n'] + rest) == Some(Seq::<char>::empty()),
{
    assert forall|j: int| 0 <= j < line.len() implies line[j] != '\n' by {
        assert(line.contains(line[j]));
    }
    let a = line + seq!['\n'] + rest;
    lemma_first_pos_is(a, '\n', line.len() as int);
    assert(a.take(line.len() as int) =~= line);
    let b = line + seq!['\r', '\n'] + rest;
    lemma_first_pos_is(b, '\n', line.len() as int + 1);
    assert(b.take(line.len() as int + 1) =~= line.push('\r'));
    assert(line.push('\r').drop_last() =~= line);
    lemma_first_pos_is(line, '\n', line.len() as int);
    assert(line.take(line.len() as int) =~= line);
    let e = seq!['\n'] + rest;
    lemma_first_pos_is(e, '\n', 0);
    assert(e.take(0) =~= Seq::<char>::empty());
}

/// Of two texts that start alike the first character in which they differ
/// decides which comes first; a text comes before those that go on behind it.
pub proof fn first_difference_decides(
    start: Seq<char>,
    a: char,
    b: char,
    x: Seq<char>,
    y: Seq<char>,
)
    ensures
        a < b ==> text_less(start + seq![a] + x, start + seq![b] + y),
        a > b ==> !text_less(start + seq![a] + x, start + seq![b] + y),
        text_less(start, start + seq![a] + x),
        !text_less(start + x, start),
    decreases start.len(),
{
    let s = start + seq![a] + x;
    let t = start + seq![b] + y;
    if start.len() == 0 {
        assert(s[0] == a && t[0] == b);
    } else {
        let rest = start.drop_first();
        first_difference_decides(rest, a, b, x, y);
        assert(s.drop_first() =~= rest + seq![a] + x);
        assert(t.drop_first() =~= rest + seq![b] + y);
        assert((start + x).drop_first() =~= rest + x);
    }
}

/// What occurs in a text parts it into what stands before and behind.
pub proof fn parts_stand_somewhere(s: Seq<char>, part: Seq<char>)
    requires
        has_part(s, part),
    ensures
        exists|i: int|
            0 <= i <= s.len() - part.len() && s == #[trigger] s.take(i) + part + s.skip(
                i + part.len(),
            ),
{
    let i = choose|i: int|
        0 <= i <= s.len() - part.len() && #[trigger] s.subrange(i, i + part.len()) == part;
    assert(s =~= s.take(i) + s.subrange(i, i + part.len()) + s.skip(i + part.len()));
}

/// A character is stripped off an end as often as it stands there, and from
/// nowhere else.
pub proof fn ends_are_stripped(s: Seq<char>, c: char, around: Seq<char>)
    requires
        s.len() > 0,
        s[0] != c,
        s.last() != c,
        forall|i: int| 0 <= i < around.len() ==> #[trigger] around[i] == c,
    ensures
        strip_end(s + around, c) == s,
        strip_start(around + s, c) == s,
{
    let a = s + around;
    assert(a[s.len() - 1] == s.last());
    lemma_strip_end_is(a, c, s.len() as int);
    assert(a.take(s.len() as int) =~= s);
    let b = around + s;
    assert(b[around.len() as int] == s[0]);
    lemma_strip_start_is(b, c, around.len() as int);
    assert(b.skip(around.len() as int) =~= s);
}

} // verus!
