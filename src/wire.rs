//! The structured form of a response body, and exact decimal numbers.
use vstd::prelude::*;

verus! {

/// A decimal number `mantissa * 10^(-scale)`, the exact form of a numeric
/// wire value such as a price or an amount.
#[derive(Clone, Copy, Debug, PartialEq, Eq, Structural)]
pub struct Decimal {
    pub mantissa: i128,
    pub scale: u32,
}

/// The generic structured form of a decoded response body.
#[derive(Debug)]
pub enum Wire {
    Null,
    Bool(bool),
    /// A numeral written without fraction that fits `i64`.
    Int(i64),
    /// Any other numeral.
    Num(Decimal),
    Str(String),
    Array(Vec<Wire>),
    Object(Vec<(String, Wire)>),
}

pub open spec fn is_digit(c: char) -> bool {
    '0' <= c && c <= '9'
}

pub open spec fn all_digits(s: Seq<char>) -> bool {
    forall|i: int| 0 <= i < s.len() ==> is_digit(#[trigger] s[i])
}

/// The value of a run of decimal digits, most significant first.
pub open spec fn digits_value(s: Seq<char>) -> nat
    decreases s.len(),
{
    if s.len() == 0 {
        0
    } else {
        digits_value(s.drop_last()) * 10 + ((s.last() as nat) - ('0' as nat)) as nat
    }
}

pub open spec fn pow10(n: nat) -> nat
    decreases n,
{
    if n == 0 {
        1
    } else {
        10 * pow10((n - 1) as nat)
    }
}

/// The most digits a numeral may carry: every such run fits the mantissa.
pub const MAX_DIGITS: usize = 37;

pub open spec fn first_point(b: Seq<char>, i: int) -> bool {
    0 <= i < b.len() && b[i] == '.' && forall|j: int| 0 <= j < i ==> b[j] != '.'
}

/// Where the first fraction point stands in a numeral body, or -1.
pub open spec fn point_at(b: Seq<char>) -> int {
    if exists|i: int| first_point(b, i) {
        choose|i: int| first_point(b, i)
    } else {
        -1
    }
}

/// The numeral without its sign.
pub open spec fn numeral_body(s: Seq<char>) -> Seq<char> {
    if s.len() > 0 && s[0] == '-' {
        s.drop_first()
    } else {
        s
    }
}

/// `-?digits(.digits)?` with at most `MAX_DIGITS` digits in all.
pub open spec fn well_formed_numeral(s: Seq<char>) -> bool {
    let b = numeral_body(s);
    let p = point_at(b);
    if p < 0 {
        b.len() > 0 && all_digits(b) && b.len() <= MAX_DIGITS
    } else {
        0 < p && p < b.len() - 1 && all_digits(b.take(p)) && all_digits(b.skip(p + 1))
            && b.len() - 1 <= MAX_DIGITS
    }
}

/// `m * 10^(-s)` with the trailing zeros of the fraction dropped: the one
/// form of each value in which the scale is 0 or the last digit is not 0.
pub open spec fn strip_zeros(m: nat, s: nat) -> (nat, nat)
    decreases s,
{
    if s > 0 && m % 10 == 0 {
        strip_zeros(m / 10, (s - 1) as nat)
    } else {
        (m, s)
    }
}

/// The decimal that a well-formed numeral denotes, in its stripped form.
pub open spec fn numeral_value(s: Seq<char>) -> (int, nat) {
    let b = numeral_body(s);
    let p = point_at(b);
    let digits = if p < 0 { b } else { b.take(p) + b.skip(p + 1) };
    let scale: nat = if p < 0 { 0 } else { (b.len() - p - 1) as nat };
    let (m, sc) = strip_zeros(digits_value(digits), scale);
    (if s.len() > 0 && s[0] == '-' { -(m as int) } else { m as int }, sc)
}

/// The one form of a decimal: no trailing zero in its fraction.
pub open spec fn stripped(d: Decimal) -> bool {
    d.scale == 0 || d.mantissa % 10 != 0
}

/// Whether two decimals denote the same number.
pub open spec fn same_number(a: Decimal, b: Decimal) -> bool {
    a.mantissa * pow10(b.scale as nat) == b.mantissa * pow10(a.scale as nat)
}

proof fn lemma_pow10_add(a: nat, b: nat)
    ensures
        pow10(a + b) == pow10(a) * pow10(b),
        pow10(a) > 0,
    decreases a,
{
    if a == 0 {
        assert(pow10(0) == 1);
        assert(a + b == b);
    } else {
        lemma_pow10_add((a - 1) as nat, b);
        assert(pow10(a) == 10 * pow10((a - 1) as nat));
        assert(pow10(a + b) == 10 * pow10((a - 1 + b) as nat));
        assert(10 * (pow10((a - 1) as nat) * pow10(b)) == (10 * pow10((a - 1) as nat)) * pow10(b))
            by (nonlinear_arith);
    }
}

proof fn lemma_stripped_ordered(a: Decimal, b: Decimal)
    requires
        stripped(b),
        same_number(a, b),
        a.scale <= b.scale,
    ensures
        a == b,
{
    let k = (b.scale - a.scale) as nat;
    let pa = pow10(a.scale as nat);
    let pk = pow10(k);
    lemma_pow10_add(a.scale as nat, k);
    assert(pow10(b.scale as nat) == pa * pk);
    let am = a.mantissa as int;
    let bm = b.mantissa as int;
    assert(am * (pa * pk) == bm * pa);
    assert(am * pk == bm) by (nonlinear_arith)
        requires am * (pa * pk) == bm * pa, pa > 0;
    if k > 0 {
        assert(pk == 10 * pow10((k - 1) as nat));
        let q = am * pow10((k - 1) as nat);
        assert(bm == 10 * q) by (nonlinear_arith)
            requires am * pk == bm, pk == 10 * pow10((k - 1) as nat), q == am * pow10((k - 1) as nat);
        assert(bm % 10 == 0);
        assert(b.mantissa % 10 == 0);
    }
    assert(k == 0);
    assert(pow10(0) == 1);
    assert(pk == 1);
    assert(am == bm) by (nonlinear_arith)
        requires am * pk == bm, pk == 1;
}

/// Two decimals in stripped form that denote the same number are equal, so
/// the stripped form of a number is unique.
pub proof fn lemma_stripped_unique(a: Decimal, b: Decimal)
    requires
        stripped(a),
        stripped(b),
        same_number(a, b),
    ensures
        a == b,
{
    if a.scale <= b.scale {
        lemma_stripped_ordered(a, b);
    } else {
        lemma_stripped_ordered(b, a);
    }
}

fn strip(m: u128, s: u32) -> (r: (u128, u32))
    ensures
        (r.0 as nat, r.1 as nat) == strip_zeros(m as nat, s as nat),
        r.0 <= m,
        r.1 == 0 || r.0 % 10 != 0,
{
    let mut m2 = m;
    let mut s2 = s;
    while s2 > 0 && m2 % 10 == 0
        invariant
            strip_zeros(m2 as nat, s2 as nat) == strip_zeros(m as nat, s as nat),
            m2 <= m,
        decreases s2,
    {
        m2 = m2 / 10;
        s2 = s2 - 1;
    }
    (m2, s2)
}

proof fn lemma_digits_value_push(s: Seq<char>, c: char)
    ensures
        digits_value(s.push(c)) == digits_value(s) * 10 + ((c as nat) - ('0' as nat)) as nat,
{
    assert(s.push(c).drop_last() =~= s);
}

proof fn lemma_digits_value_concat(a: Seq<char>, b: Seq<char>)
    ensures
        digits_value(a + b) == digits_value(a) * pow10(b.len()) + digits_value(b),
    decreases b.len(),
{
    if b.len() == 0 {
        assert(a + b =~= a);
        assert(pow10(0) == 1);
        assert(digits_value(b) == 0);
    } else {
        let c = b.last();
        lemma_digits_value_concat(a, b.drop_last());
        assert((a + b.drop_last()).push(c) =~= a + b);
        assert(b.drop_last().push(c) =~= b);
        lemma_digits_value_push(a + b.drop_last(), c);
        lemma_digits_value_push(b.drop_last(), c);
        let d = ((c as nat) - ('0' as nat)) as nat;
        let x = digits_value(a);
        let p = pow10(b.drop_last().len());
        let y = digits_value(b.drop_last());
        assert(pow10(b.len()) == 10 * p);
        assert(digits_value(a + b) == digits_value(a + b.drop_last()) * 10 + d);
        assert(digits_value(a + b.drop_last()) == x * p + y);
        assert(digits_value(b) == y * 10 + d);
        assert((x * p + y) * 10 + d == x * (10 * p) + (y * 10 + d)) by (nonlinear_arith);
    }
}

proof fn lemma_pow10_bound(n: nat)
    requires
        n <= MAX_DIGITS,
    ensures
        pow10(n) <= pow10(MAX_DIGITS as nat),
        pow10(MAX_DIGITS as nat) < 0x8000_0000_0000_0000_0000_0000_0000_0000,
    decreases MAX_DIGITS - n,
{
    reveal_with_fuel(pow10, 38);
    if n < MAX_DIGITS {
        lemma_pow10_bound(n + 1);
    }
}

/// Reads the digits of `text` in `[from, to)` after `acc`, which was read from
/// `count` digits before them.
fn read_digits(text: &str, from: usize, to: usize, acc: u128, count: usize) -> (r: Option<(u128, usize)>)
    requires
        from <= to <= text@.len(),
        count <= MAX_DIGITS,
        acc < pow10(count as nat),
    ensures
        r is Some <==> all_digits(text@.subrange(from as int, to as int)) && count + (to - from)
            <= MAX_DIGITS,
        r matches Some((v, c)) ==> v == acc * pow10((to - from) as nat) + digits_value(
            text@.subrange(from as int, to as int),
        ) && c == count + (to - from) && v < pow10(c as nat),
{
    let mut i = from;
    let mut v: u128 = acc;
    let mut c: usize = count;
    assert(pow10(0) == 1);
    assert(text@.subrange(from as int, from as int).len() == 0);
    assert(digits_value(text@.subrange(from as int, from as int)) == 0);
    assert(acc * pow10(0) == acc);
    while i < to
        invariant
            from <= i <= to <= text@.len(),
            c == count + (i - from),
            c <= MAX_DIGITS,
            v < pow10(c as nat),
            all_digits(text@.subrange(from as int, i as int)),
            v == acc * pow10((i - from) as nat) + digits_value(text@.subrange(from as int, i as int)),
        decreases to - i,
    {
        let ch = text.get_char(i);
        if !('0' <= ch && ch <= '9') {
            assert(text@.subrange(from as int, to as int)[i - from] == ch);
            return None;
        }
        if c == MAX_DIGITS {
            assert(text@.subrange(from as int, to as int).take((i - from) as int) =~= text@.subrange(from as int, i as int));
            return None;
        }
        let ghost before = text@.subrange(from as int, i as int);
        proof {
            lemma_pow10_bound(c as nat);
            lemma_pow10_bound((c + 1) as nat);
            assert(text@.subrange(from as int, i + 1) =~= before.push(ch));
            lemma_digits_value_push(before, ch);
            let k = (i - from) as nat;
            assert(pow10(k + 1) == 10 * pow10(k));
            assert(pow10((c + 1) as nat) == 10 * pow10(c as nat));
            assert(v * 10 + 9 < pow10((c + 1) as nat)) by (nonlinear_arith)
                requires v < pow10(c as nat), pow10((c + 1) as nat) == 10 * pow10(c as nat);
            assert((acc * pow10(k) + digits_value(before)) * 10 == acc * pow10(k + 1) + digits_value(before) * 10) by (nonlinear_arith)
                requires pow10(k + 1) == 10 * pow10(k);
        }
        v = v * 10 + (ch as u128 - '0' as u128);
        c = c + 1;
        i = i + 1;
    }
    Some((v, c))
}

/// Parses a JSON numeral of the form `-?digits(.digits)?` into an exact
/// decimal; `None` when the text is not of that form or carries more than
/// `MAX_DIGITS` digits.
pub fn parse_decimal(text: &str) -> (r: Option<Decimal>)
    ensures
        r is Some <==> well_formed_numeral(text@),
        r matches Some(d) ==> (d.mantissa as int, d.scale as nat) == numeral_value(text@),
        r matches Some(d) ==> stripped(d),
{
    let n = text.unicode_len();
    let neg = n > 0 && text.get_char(0) == '-';
    let start: usize = if neg { 1 } else { 0 };
    let ghost b = numeral_body(text@);
    assert(b =~= text@.subrange(start as int, n as int));
    let mut p: usize = start;
    while p < n && text.get_char(p) != '.'
        invariant
            start <= p <= n == text@.len(),
            b =~= text@.subrange(start as int, n as int),
            forall|j: int| 0 <= j < p - start ==> b[j] != '.',
        decreases n - p,
    {
        p = p + 1;
    }
    if p == n {
        assert(!exists|i: int| first_point(b, i));
        if n == start {
            return None;
        }
        match read_digits(text, start, n, 0, 0) {
            None => None,
            Some((v, c)) => {
                proof {
                    lemma_pow10_bound(c as nat);
                    assert(b =~= text@.subrange(start as int, n as int));
                }
                let m = v as i128;
                Some(Decimal { mantissa: if neg { -m } else { m }, scale: 0 })
            },
        }
    } else {
        let ghost q = (p - start) as int;
        assert(first_point(b, q));
        assert(point_at(b) == q) by {
            let k = choose|i: int| first_point(b, i);
            assert(first_point(b, k));
            assert(!(k < q) && !(q < k));
        }
        assert(b.take(q) =~= text@.subrange(start as int, p as int));
        assert(b.skip(q + 1) =~= text@.subrange(p + 1, n as int));
        if p == start || p + 1 == n {
            return None;
        }
        match read_digits(text, start, p, 0, 0) {
            None => None,
            Some((v, c)) => {
                match read_digits(text, p + 1, n, v, c) {
                    None => {
                        assert(!all_digits(b.skip(q + 1)) || b.len() - 1 > MAX_DIGITS);
                        None
                    },
                    Some((w, d)) => {
                        proof {
                            lemma_pow10_bound(d as nat);
                            lemma_digits_value_concat(b.take(q), b.skip(q + 1));
                        }
                        let (w2, d2) = strip(w, (n - p - 1) as u32);
                        let m = w2 as i128;
                        Some(Decimal { mantissa: if neg { -m } else { m }, scale: d2 })
                    },
                }
            },
        }
    }
}

} // verus!
