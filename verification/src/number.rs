//! Exact range checks on JSON numbers, including the decimal text of
//! non-integer numbers.
use vstd::prelude::*;
use crate::json::{JsonNumber, JsonNumberV};
use crate::text::{chars_of, digit_value};

verus! {

/// Ten to the power `n`.
pub open spec fn p10(n: nat) -> nat
    decreases n,
{
    if n == 0 {
        1
    } else {
        10 * p10((n - 1) as nat)
    }
}

pub proof fn lemma_p10_mono(a: nat, b: nat)
    requires
        a <= b,
    ensures
        1 <= p10(a) <= p10(b),
    decreases b,
{
    if b > 0 {
        if a < b {
            lemma_p10_mono(a, (b - 1) as nat);
        } else {
            lemma_p10_mono((a - 1) as nat, (b - 1) as nat);
        }
    }
}

pub open spec fn is_digit(c: char) -> bool {
    digit_value(c) is Some
}

/// A non-empty run of decimal digits.
pub open spec fn is_digits(s: Seq<char>) -> bool {
    s.len() > 0 && forall|i: int| 0 <= i < s.len() ==> is_digit(#[trigger] s[i])
}

/// The value of a run of decimal digits.
pub open spec fn digits_value(s: Seq<char>) -> nat
    decreases s.len(),
{
    if s.len() == 0 {
        0
    } else {
        digits_value(s.drop_last()) * 10 + digit_value(s.last()).unwrap()
    }
}

/// The position of the first `a` or `b` in `s`, or its length.
pub open spec fn find2(s: Seq<char>, a: char, b: char) -> nat
    decreases s.len(),
{
    if s.len() == 0 {
        0
    } else if s[0] == a || s[0] == b {
        0
    } else {
        1 + find2(s.drop_first(), a, b)
    }
}

/// The parts of a JSON number text: sign, integer digits, fraction digits,
/// whether a fraction part is written, exponent sign, exponent digits, and
/// whether an exponent is written.
pub struct NumberText {
    pub negative: bool,
    pub int_digits: Seq<char>,
    pub frac_digits: Seq<char>,
    pub has_frac: bool,
    pub exp_negative: bool,
    pub exp_digits: Seq<char>,
    pub has_exp: bool,
}

pub open spec fn number_text(t: Seq<char>) -> NumberText {
    let negative = t.len() > 0 && t[0] == '-';
    let body = if negative { t.drop_first() } else { t };
    let ep = find2(body, 'e', 'E') as int;
    let mant = body.subrange(0, ep);
    let dp = find2(mant, '.', '.') as int;
    let has_exp = ep < body.len();
    let ex = if has_exp { body.subrange(ep + 1, body.len() as int) } else { Seq::empty() };
    let exp_negative = ex.len() > 0 && ex[0] == '-';
    let exp_signed = ex.len() > 0 && (ex[0] == '-' || ex[0] == '+');
    NumberText {
        negative,
        int_digits: mant.subrange(0, dp),
        frac_digits: if dp < mant.len() { mant.subrange(dp + 1, mant.len() as int) } else { Seq::empty() },
        has_frac: dp < mant.len(),
        exp_negative,
        exp_digits: if exp_signed { ex.drop_first() } else { ex },
        has_exp,
    }
}

/// A well-formed number text whose digits fit the exact check: at most 30
/// significant digits and at most 4 exponent digits.
pub open spec fn number_text_supported(p: NumberText) -> bool {
    &&& is_digits(p.int_digits)
    &&& (p.has_frac ==> is_digits(p.frac_digits))
    &&& (p.has_exp ==> is_digits(p.exp_digits))
    &&& p.int_digits.len() + p.frac_digits.len() <= 30
    &&& p.exp_digits.len() <= 4
}

pub open spec fn text_mantissa(p: NumberText) -> nat {
    digits_value(p.int_digits + p.frac_digits)
}

pub open spec fn text_exponent(p: NumberText) -> int {
    (if p.exp_negative { -1int } else { 1int }) * digits_value(p.exp_digits) - p.frac_digits.len()
}

/// `m * 10^e` lies in `[0, 100]` (a negative sign allowed only on zero).
pub open spec fn scaled_in_percent(negative: bool, m: nat, e: int) -> bool {
    &&& (negative ==> m == 0)
    &&& m * p10(if e >= 0 { e as nat } else { 0nat }) <= 100 * p10(if e < 0 { (-e) as nat } else { 0nat })
}

/// A number that is a percentage: its value lies in `[0, 100]`.
pub open spec fn percent_ok(n: JsonNumberV) -> bool {
    match n {
        JsonNumberV::PosInt(u) => u <= 100,
        JsonNumberV::NegInt(i) => 0 <= i <= 100,
        JsonNumberV::Float(t) => {
            let p = number_text(t);
            number_text_supported(p) && scaled_in_percent(p.negative, text_mantissa(p), text_exponent(p))
        },
    }
}

/// Powers of ten up to `10^36`.
pub proof fn lemma_pow10_table()
    ensures
        p10(0) == 1int,
        p10(1) == 10int,
        p10(2) == 100int,
        p10(3) == 1000int,
        p10(4) == 10000int,
        p10(5) == 100000int,
        p10(6) == 1000000int,
        p10(7) == 10000000int,
        p10(8) == 100000000int,
        p10(9) == 1000000000int,
        p10(10) == 10000000000int,
        p10(11) == 100000000000int,
        p10(12) == 1000000000000int,
        p10(13) == 10000000000000int,
        p10(14) == 100000000000000int,
        p10(15) == 1000000000000000int,
        p10(16) == 10000000000000000int,
        p10(17) == 100000000000000000int,
        p10(18) == 1000000000000000000int,
        p10(19) == 10000000000000000000int,
        p10(20) == 100000000000000000000int,
        p10(21) == 1000000000000000000000int,
        p10(22) == 10000000000000000000000int,
        p10(23) == 100000000000000000000000int,
        p10(24) == 1000000000000000000000000int,
        p10(25) == 10000000000000000000000000int,
        p10(26) == 100000000000000000000000000int,
        p10(27) == 1000000000000000000000000000int,
        p10(28) == 10000000000000000000000000000int,
        p10(29) == 100000000000000000000000000000int,
        p10(30) == 1000000000000000000000000000000int,
        p10(31) == 10000000000000000000000000000000int,
        p10(32) == 100000000000000000000000000000000int,
        p10(33) == 1000000000000000000000000000000000int,
        p10(34) == 10000000000000000000000000000000000int,
        p10(35) == 100000000000000000000000000000000000int,
        p10(36) == 1000000000000000000000000000000000000int,
{
    assert(p10(0) == 1int);
    assert(p10(1) == 10int);
    assert(p10(2) == 100int);
    assert(p10(3) == 1000int);
    assert(p10(4) == 10000int);
    assert(p10(5) == 100000int);
    assert(p10(6) == 1000000int);
    assert(p10(7) == 10000000int);
    assert(p10(8) == 100000000int);
    assert(p10(9) == 1000000000int);
    assert(p10(10) == 10000000000int);
    assert(p10(11) == 100000000000int);
    assert(p10(12) == 1000000000000int);
    assert(p10(13) == 10000000000000int);
    assert(p10(14) == 100000000000000int);
    assert(p10(15) == 1000000000000000int);
    assert(p10(16) == 10000000000000000int);
    assert(p10(17) == 100000000000000000int);
    assert(p10(18) == 1000000000000000000int);
    assert(p10(19) == 10000000000000000000int);
    assert(p10(20) == 100000000000000000000int);
    assert(p10(21) == 1000000000000000000000int);
    assert(p10(22) == 10000000000000000000000int);
    assert(p10(23) == 100000000000000000000000int);
    assert(p10(24) == 1000000000000000000000000int);
    assert(p10(25) == 10000000000000000000000000int);
    assert(p10(26) == 100000000000000000000000000int);
    assert(p10(27) == 1000000000000000000000000000int);
    assert(p10(28) == 10000000000000000000000000000int);
    assert(p10(29) == 100000000000000000000000000000int);
    assert(p10(30) == 1000000000000000000000000000000int);
    assert(p10(31) == 10000000000000000000000000000000int);
    assert(p10(32) == 100000000000000000000000000000000int);
    assert(p10(33) == 1000000000000000000000000000000000int);
    assert(p10(34) == 10000000000000000000000000000000000int);
    assert(p10(35) == 100000000000000000000000000000000000int);
    assert(p10(36) == 1000000000000000000000000000000000000int);
}

pub proof fn lemma_find2_bound(s: Seq<char>, a: char, b: char)
    ensures
        find2(s, a, b) <= s.len(),
        find2(s, a, b) < s.len() ==> (s[find2(s, a, b) as int] == a || s[find2(s, a, b) as int] == b),
        forall|i: int| 0 <= i < find2(s, a, b) ==> s[i] != a && s[i] != b,
    decreases s.len(),
{
    if s.len() > 0 && !(s[0] == a || s[0] == b) {
        lemma_find2_bound(s.drop_first(), a, b);
        assert forall|i: int| 0 <= i < find2(s, a, b) implies s[i] != a && s[i] != b by {
            if i > 0 {
                assert(s[i] == s.drop_first()[i - 1]);
            }
        }
        if find2(s, a, b) < s.len() {
            assert(s[find2(s, a, b) as int] == s.drop_first()[find2(s.drop_first(), a, b) as int]);
        }
    }
}

pub fn find_in(s: &Vec<char>, from: usize, to: usize, a: char, b: char) -> (r: usize)
    requires
        from <= to <= s@.len(),
    ensures
        r as int == from + find2(s@.subrange(from as int, to as int), a, b),
        from <= r <= to,
{
    let ghost sub = s@.subrange(from as int, to as int);
    proof {
        lemma_find2_bound(sub, a, b);
    }
    let mut i = from;
    while i < to
        invariant
            from <= i <= to <= s@.len(),
            sub == s@.subrange(from as int, to as int),
            find2(sub, a, b) == (i - from) + find2(s@.subrange(i as int, to as int), a, b),
        decreases to - i,
    {
        let ghost rest = s@.subrange(i as int, to as int);
        assert(rest[0] == s@[i as int]);
        if s[i] == a || s[i] == b {
            return i;
        }
        assert(rest.drop_first() =~= s@.subrange(i + 1, to as int));
        i += 1;
    }
    i
}

proof fn lemma_digits_push(s: Seq<char>, c: char)
    requires
        is_digit(c),
    ensures
        digits_value(s.push(c)) == digits_value(s) * 10 + digit_value(c).unwrap(),
{
    assert(s.push(c).drop_last() =~= s);
}

proof fn lemma_digits_bound(s: Seq<char>)
    requires
        forall|i: int| 0 <= i < s.len() ==> is_digit(#[trigger] s[i]),
    ensures
        digits_value(s) < p10(s.len()),
    decreases s.len(),
{
    if s.len() > 0 {
        let p = s.drop_last();
        assert forall|i: int| 0 <= i < p.len() implies is_digit(#[trigger] p[i]) by {
            assert(p[i] == s[i]);
        }
        lemma_digits_bound(p);
        assert(is_digit(s[s.len() - 1]));
        let d = digit_value(s.last()).unwrap();
        assert(d <= 9);
        assert(p10(s.len()) == 10 * p10((s.len() - 1) as nat));
        assert(digits_value(p) * 10 + d < p10(s.len())) by (nonlinear_arith)
            requires
                digits_value(p) < p10((s.len() - 1) as nat),
                d <= 9,
                p10(s.len()) == 10 * p10((s.len() - 1) as nat),
        ;
    }
}

fn digit_of(c: char) -> (r: Option<u8>)
    ensures
        match r {
            Some(d) => digit_value(c) == Some(d as nat),
            None => digit_value(c) is None,
        },
{
    if c == '0' { Some(0) }
    else if c == '1' { Some(1) }
    else if c == '2' { Some(2) }
    else if c == '3' { Some(3) }
    else if c == '4' { Some(4) }
    else if c == '5' { Some(5) }
    else if c == '6' { Some(6) }
    else if c == '7' { Some(7) }
    else if c == '8' { Some(8) }
    else if c == '9' { Some(9) }
    else { None }
}

/// Accumulates the digits of `s[from..to]` onto `acc`; `None` when one is not a digit.
fn accumulate(s: &Vec<char>, from: usize, to: usize, acc: u128, Ghost(prefix): Ghost<Seq<char>>) -> (r: Option<u128>)
    requires
        from <= to <= s@.len(),
        acc as int == digits_value(prefix),
        forall|i: int| 0 <= i < prefix.len() ==> is_digit(#[trigger] prefix[i]),
        prefix.len() + (to - from) <= 30,
    ensures
        match r {
            Some(v) => {
                &&& forall|i: int| from <= i < to ==> is_digit(#[trigger] s@[i])
                &&& v as int == digits_value(prefix + s@.subrange(from as int, to as int))
            },
            None => exists|i: int| from <= i < to && !is_digit(#[trigger] s@[i]),
        },
{
    let mut v = acc;
    let mut i = from;
    proof {
        assert(prefix + s@.subrange(from as int, from as int) =~= prefix);
    }
    while i < to
        invariant
            from <= i <= to <= s@.len(),
            prefix.len() + (to - from) <= 30,
            forall|k: int| 0 <= k < prefix.len() ==> is_digit(#[trigger] prefix[k]),
            forall|k: int| from <= k < i ==> is_digit(#[trigger] s@[k]),
            v as int == digits_value(prefix + s@.subrange(from as int, i as int)),
        decreases to - i,
    {
        let ghost cur = prefix + s@.subrange(from as int, i as int);
        match digit_of(s[i]) {
            Some(d) => {
                proof {
                    assert forall|k: int| 0 <= k < cur.len() implies is_digit(#[trigger] cur[k]) by {
                        if k >= prefix.len() {
                            assert(cur[k] == s@[from + k - prefix.len()]);
                        }
                    }
                    lemma_digits_bound(cur);
                    lemma_p10_mono(cur.len(), 29);
                    lemma_pow10_table();
                    lemma_digits_push(cur, s@[i as int]);
                    assert(cur.push(s@[i as int]) =~= prefix + s@.subrange(from as int, i + 1));
                }
                v = v * 10 + d as u128;
            },
            None => {
                return None;
            },
        }
        i += 1;
    }
    Some(v)
}

fn pow10(k: u32) -> (r: u128)
    requires
        k <= 36,
    ensures
        r as int == p10(k as nat),
{
    let mut r: u128 = 1;
    let mut i: u32 = 0;
    while i < k
        invariant
            i <= k <= 36,
            r as int == p10(i as nat),
        decreases k - i,
    {
        proof {
            lemma_p10_mono(i as nat, 35);
            lemma_pow10_table();
            assert(p10((i + 1) as nat) == 10 * p10(i as nat));
        }
        r = r * 10;
        i += 1;
    }
    r
}

/// Decides `scaled_in_percent` for a mantissa below `10^30` and a bounded exponent.
fn scaled_check(negative: bool, m: u128, e: i64) -> (r: bool)
    requires
        m < p10(30),
        -20000 <= e <= 20000,
    ensures
        r == scaled_in_percent(negative, m as nat, e as int),
{
    proof {
        lemma_pow10_table();
        lemma_pow10_table();
    }
    if m == 0 {
        return true;
    }
    if negative {
        return false;
    }
    if e >= 0 {
        if e >= 3 {
            proof {
                lemma_p10_mono(3, e as nat);
                lemma_pow10_table();
                assert(m * p10(e as nat) >= p10(e as nat)) by (nonlinear_arith)
                    requires m >= 1, p10(e as nat) >= 0;
            }
            return false;
        }
        let p = pow10(e as u32);
        proof {
            lemma_p10_mono(e as nat, 2);
            lemma_pow10_table();
            assert(m * p <= 1000000000000000000000000000000 * 100) by (nonlinear_arith)
                requires m < 1000000000000000000000000000000, p <= 100;
        }
        return m * p <= 100;
    }
    let k = -e;
    if k >= 31 {
        proof {
            lemma_p10_mono(31, k as nat);
            lemma_pow10_table();
        }
        return true;
    }
    let p = pow10(k as u32);
    proof {
        lemma_p10_mono(k as nat, 30);
    }
    m <= 100 * p
}

/// Whether a JSON number is a percentage in `[0, 100]`.
pub fn is_percent(n: &JsonNumber) -> (r: bool)
    ensures
        r == percent_ok(n@),
{
    match n {
        JsonNumber::PosInt(u) => *u <= 100,
        JsonNumber::NegInt(i) => 0 <= *i && *i <= 100,
        JsonNumber::Float(t) => float_text_is_percent(t.as_str()),
    }
}

struct Layout {
    negative: bool,
    start: usize,
    dp: usize,
    frac_from: usize,
    ep: usize,
    has_frac: bool,
    has_exp: bool,
    exp_negative: bool,
    exp_from: usize,
}

fn layout(cs: &Vec<char>) -> (l: Layout)
    ensures
        l.start <= l.dp <= l.frac_from <= l.ep <= cs@.len(),
        l.exp_from <= cs@.len(),
        l.ep <= l.exp_from,
        ({
            let p = number_text(cs@);
            &&& p.negative == l.negative
            &&& p.has_frac == l.has_frac
            &&& p.has_exp == l.has_exp
            &&& p.exp_negative == l.exp_negative
            &&& p.int_digits == cs@.subrange(l.start as int, l.dp as int)
            &&& p.frac_digits == cs@.subrange(l.frac_from as int, l.ep as int)
            &&& p.exp_digits == cs@.subrange(l.exp_from as int, cs@.len() as int)
        }),
{
    let ghost tv = cs@;
    let ghost p = number_text(tv);
    let len = cs.len();
    let negative = len > 0 && cs[0] == '-';
    let start: usize = if negative { 1 } else { 0 };
    let ghost body = if negative { tv.drop_first() } else { tv };
    proof {
        assert(body =~= cs@.subrange(start as int, len as int));
    }
    let ep = find_in(cs, start, len, 'e', 'E');
    proof {
        lemma_find2_bound(body, 'e', 'E');
        assert(body.subrange(0, ep - start) =~= cs@.subrange(start as int, ep as int));
    }
    let dp = find_in(cs, start, ep, '.', '.');
    let ghost mant = body.subrange(0, ep - start);
    proof {
        lemma_find2_bound(mant, '.', '.');
        assert(mant.subrange(0, dp - start) =~= cs@.subrange(start as int, dp as int));
        assert(p.int_digits =~= cs@.subrange(start as int, dp as int));
    }
    let has_frac = dp < ep;
    let frac_from: usize = if has_frac { dp + 1 } else { ep };
    proof {
        assert(p.frac_digits =~= cs@.subrange(frac_from as int, ep as int));
    }
    let has_exp = ep < len;
    let mut exp_from: usize = if has_exp { ep + 1 } else { len };
    let mut exp_negative = false;
    if has_exp && exp_from < len && (cs[exp_from] == '-' || cs[exp_from] == '+') {
        exp_negative = cs[exp_from] == '-';
        exp_from = exp_from + 1;
    }
    proof {
        if has_exp {
            let ex = body.subrange(ep - start + 1, body.len() as int);
            assert(ex =~= cs@.subrange(ep + 1, len as int));
            if ex.len() > 0 {
                assert(ex[0] == cs@[ep + 1]);
            }
        }
        assert(p.exp_digits =~= cs@.subrange(exp_from as int, len as int));
    }
    Layout { negative, start, dp, frac_from, ep, has_frac, has_exp, exp_negative, exp_from }
}

fn float_text_is_percent(t: &str) -> (r: bool)
    ensures
        r == {
            let p = number_text(t@);
            number_text_supported(p) && scaled_in_percent(p.negative, text_mantissa(p), text_exponent(p))
        },
{
    let cs = chars_of(t);
    let ghost p = number_text(t@);
    let l = layout(&cs);
    let len = cs.len();
    let int_len = l.dp - l.start;
    let frac_len = l.ep - l.frac_from;
    if int_len == 0 || int_len + frac_len > 30 || (l.has_frac && frac_len == 0) || len - l.exp_from > 4
        || (l.has_exp && len == l.exp_from) {
        return false;
    }
    let first = accumulate(&cs, l.start, l.dp, 0, Ghost(Seq::empty()));
    if first.is_none() {
        proof {
            let i = choose|i: int| l.start <= i < l.dp && !is_digit(#[trigger] cs@[i]);
            assert(p.int_digits[i - l.start] == cs@[i]);
        }
        return false;
    }
    let v = first.unwrap();
    proof {
        assert(Seq::<char>::empty() + cs@.subrange(l.start as int, l.dp as int) =~= p.int_digits);
        assert forall|i: int| 0 <= i < p.int_digits.len() implies is_digit(#[trigger] p.int_digits[i]) by {
            assert(p.int_digits[i] == cs@[l.start + i]);
        }
    }
    let second = accumulate(&cs, l.frac_from, l.ep, v, Ghost(p.int_digits));
    if second.is_none() {
        proof {
            let i = choose|i: int| l.frac_from <= i < l.ep && !is_digit(#[trigger] cs@[i]);
            assert(p.frac_digits[i - l.frac_from] == cs@[i]);
        }
        return false;
    }
    let mantissa = second.unwrap();
    proof {
        assert forall|i: int| 0 <= i < p.frac_digits.len() implies is_digit(#[trigger] p.frac_digits[i]) by {
            assert(p.frac_digits[i] == cs@[l.frac_from + i]);
        }
    }
    let third = accumulate(&cs, l.exp_from, len, 0, Ghost(Seq::empty()));
    if third.is_none() {
        proof {
            let i = choose|i: int| l.exp_from <= i < len && !is_digit(#[trigger] cs@[i]);
            assert(p.exp_digits[i - l.exp_from] == cs@[i]);
        }
        return false;
    }
    let exp_value = third.unwrap();
    proof {
        assert(Seq::<char>::empty() + cs@.subrange(l.exp_from as int, len as int) =~= p.exp_digits);
        assert forall|i: int| 0 <= i < p.exp_digits.len() implies is_digit(#[trigger] p.exp_digits[i]) by {
            assert(p.exp_digits[i] == cs@[l.exp_from + i]);
        }
        lemma_digits_bound(p.exp_digits);
        lemma_p10_mono(p.exp_digits.len(), 4);
        lemma_pow10_table();
        let all = p.int_digits + p.frac_digits;
        assert forall|i: int| 0 <= i < all.len() implies is_digit(#[trigger] all[i]) by {
            if i < p.int_digits.len() {
                assert(all[i] == p.int_digits[i]);
            } else {
                assert(all[i] == p.frac_digits[i - p.int_digits.len()]);
            }
        }
        lemma_digits_bound(all);
        lemma_p10_mono(all.len(), 30);
    }
    let ev = exp_value as i64;
    let e: i64 = if l.exp_negative { -ev } else { ev } - frac_len as i64;
    proof {
        assert(cs@.subrange(l.frac_from as int, l.ep as int) =~= p.frac_digits);
        assert(mantissa as nat == text_mantissa(p));
        assert(exp_value as int == digits_value(p.exp_digits));
        assert(e as int == text_exponent(p));
    }
    scaled_check(l.negative, mantissa, e)
}

} // verus!
