//! Exact numeric model used for widening and string coercion.
use vstd::prelude::*;

verus! {

/// Bound on the magnitude of the numbers the library compares: every integer value
/// of the protocol's types lies within it.
pub const MAG_BOUND: i128 = 18446744073709551616;

/// The exact value `num / 10^scale`.
pub struct Num {
    pub num: int,
    pub scale: nat,
}

pub open spec fn pow10(n: nat) -> int
    decreases n,
{
    if n == 0 {
        1
    } else {
        10 * pow10((n - 1) as nat)
    }
}

/// `a` scaled to the common denominator of `a` and `b`.
pub open spec fn scaled(a: Num, b: Num) -> int {
    a.num * pow10(b.scale)
}

pub open spec fn num_eq(a: Num, b: Num) -> bool {
    scaled(a, b) == scaled(b, a)
}

pub open spec fn num_lt(a: Num, b: Num) -> bool {
    scaled(a, b) < scaled(b, a)
}

pub open spec fn is_digit(c: char) -> bool {
    '0' <= c && c <= '9'
}

pub open spec fn digit_value(c: char) -> int {
    (c as int) - ('0' as int)
}

pub open spec fn all_digits(t: Seq<char>) -> bool {
    forall|i: int| 0 <= i < t.len() ==> is_digit(#[trigger] t[i])
}

/// Value of a run of decimal digits, most significant first.
pub open spec fn digits_value(t: Seq<char>) -> int
    decreases t.len(),
{
    if t.len() == 0 {
        0
    } else {
        digits_value(t.drop_last()) * 10 + digit_value(t.last())
    }
}

/// Index of the first '.' at or after `i`, or the length when there is none.
pub open spec fn first_dot(t: Seq<char>, i: nat) -> nat
    decreases t.len() - i,
{
    if i >= t.len() {
        t.len()
    } else if t[i as int] == '.' {
        i
    } else {
        first_dot(t, i + 1)
    }
}

/// `f` without its trailing '0' characters.
pub open spec fn trim_zeros(f: Seq<char>) -> Seq<char>
    decreases f.len(),
{
    if f.len() > 0 && f.last() == '0' {
        trim_zeros(f.drop_last())
    } else {
        f
    }
}

/// The number written by `s`: an optional '-', one or more digits, and optionally a '.'
/// followed by one or more digits. Trailing zeros after the point are dropped from the
/// scale, which leaves the value as it is. None where `s` is not so written, or where the
/// value needs a magnitude above `MAG_BOUND` or a scale above `u32::MAX`.
pub open spec fn parse_number(s: Seq<char>) -> Option<Num> {
    let neg = s.len() > 0 && s[0] == '-';
    let body = if neg { s.drop_first() } else { s };
    let d = first_dot(body, 0);
    let int_part = body.take(d as int);
    let frac = if d < body.len() { body.skip((d + 1) as int) } else { Seq::<char>::empty() };
    let tf = trim_zeros(frac);
    let mag = digits_value(int_part) * pow10(tf.len()) + digits_value(tf);
    if int_part.len() == 0 || !all_digits(int_part) || !all_digits(frac)
        || (d < body.len() && frac.len() == 0) || mag > MAG_BOUND || tf.len() > u32::MAX {
        None
    } else {
        Some(Num { num: if neg { -mag } else { mag }, scale: tf.len() })
    }
}

pub proof fn lemma_pow10_pos(n: nat)
    ensures
        pow10(n) >= 1,
    decreases n,
{
    if n > 0 {
        lemma_pow10_pos((n - 1) as nat);
    }
}

pub proof fn lemma_digits_value_bound(t: Seq<char>)
    requires
        all_digits(t),
    ensures
        0 <= digits_value(t) < pow10(t.len()),
    decreases t.len(),
{
    if t.len() > 0 {
        let p = t.drop_last();
        assert(all_digits(p)) by {
            assert forall|i: int| 0 <= i < p.len() implies is_digit(#[trigger] p[i]) by {
                assert(p[i] == t[i]);
            }
        }
        lemma_digits_value_bound(p);
        assert(is_digit(t[t.len() - 1]));
        let v = digits_value(p);
        let q = pow10(p.len());
        assert(v * 10 + digit_value(t.last()) < q * 10) by (nonlinear_arith)
            requires v < q, 0 <= digit_value(t.last()) <= 9;
    }
}

/// The characters of `s`, one by one.
pub fn chars_of(s: &String) -> (r: Vec<char>)
    ensures
        r@ == s@,
{
    let t = s.as_str();
    let n = t.unicode_len();
    let mut r: Vec<char> = Vec::new();
    let mut i: usize = 0;
    while i < n
        invariant
            n == t@.len(),
            t@ == s@,
            i <= n,
            r@ == t@.take(i as int),
        decreases n - i,
    {
        let c = t.get_char(i);
        r.push(c);
        i = i + 1;
        assert(r@ =~= t@.take(i as int));
    }
    assert(r@ =~= t@);
    r
}

/// Whether `t[from..to]` holds only decimal digits.
fn digits_in(t: &Vec<char>, from: usize, to: usize) -> (r: bool)
    requires
        from <= to <= t@.len(),
    ensures
        r == all_digits(t@.subrange(from as int, to as int)),
{
    let mut i: usize = from;
    while i < to
        invariant
            from <= i <= to <= t@.len(),
            all_digits(t@.subrange(from as int, i as int)),
        decreases to - i,
    {
        let c = t[i];
        if !('0' <= c && c <= '9') {
            assert(t@.subrange(from as int, to as int)[i - from] == c);
            return false;
        }
        i = i + 1;
        assert(all_digits(t@.subrange(from as int, i as int))) by {
            let sub = t@.subrange(from as int, i as int);
            assert forall|k: int| 0 <= k < sub.len() implies is_digit(#[trigger] sub[k]) by {
                if k < sub.len() - 1 {
                    assert(sub[k] == t@.subrange(from as int, i - 1)[k]);
                }
            }
        }
    }
    true
}

pub proof fn lemma_pow10_add(a: nat, b: nat)
    ensures
        pow10(a + b) == pow10(a) * pow10(b),
    decreases a,
{
    if a > 0 {
        lemma_pow10_add((a - 1) as nat, b);
        assert(pow10(a + b) == 10 * pow10((a - 1 + b) as nat));
        assert(10 * (pow10((a - 1) as nat) * pow10(b)) == (10 * pow10((a - 1) as nat)) * pow10(b)) by (nonlinear_arith);
    }
}

/// The value of digits written one after the other.
pub proof fn lemma_digits_concat(a: Seq<char>, b: Seq<char>)
    ensures
        digits_value(a + b) == digits_value(a) * pow10(b.len()) + digits_value(b),
    decreases b.len(),
{
    if b.len() == 0 {
        assert(a + b =~= a);
    } else {
        assert((a + b).drop_last() =~= a + b.drop_last());
        assert((a + b).last() == b.last());
        lemma_digits_concat(a, b.drop_last());
        let x = digits_value(a);
        let p = pow10((b.len() - 1) as nat);
        let y = digits_value(b.drop_last());
        assert((x * p + y) * 10 + digit_value(b.last()) == x * (10 * p) + (y * 10 + digit_value(b.last()))) by (nonlinear_arith);
    }
}

/// Accumulates the digits `t[from..to]` onto `acc`, giving up once the value passes
/// `MAG_BOUND`.
fn accumulate_digits(t: &Vec<char>, from: usize, to: usize, acc: i128) -> (r: Option<i128>)
    requires
        from <= to <= t@.len(),
        all_digits(t@.subrange(from as int, to as int)),
        0 <= acc <= MAG_BOUND,
    ensures
        ({
            let v = acc * pow10((to - from) as nat) + digits_value(t@.subrange(from as int, to as int));
            match r {
                Some(x) => x == v && v <= MAG_BOUND,
                None => v > MAG_BOUND,
            }
        }),
{
    let mut r: i128 = acc;
    let mut i: usize = from;
    assert(t@.subrange(from as int, from as int) =~= Seq::<char>::empty());
    while i < to
        invariant
            from <= i <= to <= t@.len(),
            all_digits(t@.subrange(from as int, to as int)),
            0 <= acc <= MAG_BOUND,
            0 <= r <= MAG_BOUND,
            r == acc * pow10((i - from) as nat) + digits_value(t@.subrange(from as int, i as int)),
        decreases to - i,
    {
        let ghost sub = t@.subrange(from as int, i as int);
        let ghost next = t@.subrange(from as int, i + 1);
        assert(next.drop_last() =~= sub);
        assert(t@[i as int] == t@.subrange(from as int, to as int)[i - from]);
        let c = t[i];
        proof {
            let p = pow10((i - from) as nat);
            assert(pow10((i + 1 - from) as nat) == 10 * p);
            assert((acc * p + digits_value(sub)) * 10 + digit_value(c)
                == acc * (10 * p) + (digits_value(sub) * 10 + digit_value(c))) by (nonlinear_arith);
        }
        r = r * 10 + (c as u32 - '0' as u32) as i128;
        i = i + 1;
        if r > MAG_BOUND {
            proof {
                let whole = t@.subrange(from as int, to as int);
                let pre = t@.subrange(from as int, i as int);
                let rest = t@.subrange(i as int, to as int);
                assert(whole =~= pre + rest);
                lemma_digits_concat(pre, rest);
                assert(all_digits(rest)) by {
                    assert forall|k: int| 0 <= k < rest.len() implies is_digit(#[trigger] rest[k]) by {
                        assert(rest[k] == whole[k + i - from]);
                    }
                }
                lemma_digits_value_bound(rest);
                lemma_pow10_add((i - from) as nat, (to - i) as nat);
                lemma_pow10_pos((to - i) as nat);
                let pa = pow10((i - from) as nat);
                let pr = pow10((to - i) as nat);
                let dp = digits_value(pre);
                assert(acc * (pa * pr) + (dp * pr + digits_value(rest)) >= (acc * pa + dp) * pr) by (nonlinear_arith)
                    requires digits_value(rest) >= 0;
                assert((acc * pa + dp) * pr >= acc * pa + dp) by (nonlinear_arith)
                    requires pr >= 1, acc * pa + dp > MAG_BOUND;
            }
            return None;
        }
    }
    Some(r)
}

/// Reads a number from its decimal text, as `parse_number` describes; the result is
/// `(num, scale)`.
pub fn parse_decimal(t: &Vec<char>) -> (r: Option<(i128, u32)>)
    ensures
        match r {
            None => parse_number(t@) is None,
            Some((n, k)) => parse_number(t@) == Some(Num { num: n as int, scale: k as nat })
                && -MAG_BOUND <= n <= MAG_BOUND,
        },
{
    let len = t.len();
    let neg = len > 0 && t[0] == '-';
    let start: usize = if neg { 1 } else { 0 };
    let ghost body = if neg { t@.drop_first() } else { t@ };
    assert(body =~= t@.subrange(start as int, len as int));
    let mut d: usize = start;
    while d < len && t[d] != '.'
        invariant
            start <= d <= len == t@.len(),
            body == t@.subrange(start as int, len as int),
            first_dot(body, 0) == first_dot(body, (d - start) as nat),
        decreases len - d,
    {
        assert(body[d - start] == t@[d as int]);
        d = d + 1;
    }
    assert(first_dot(body, 0) == d - start) by {
        if d < len {
            assert(body[d - start] == t@[d as int]);
        }
    }
    let int_len = d - start;
    let has_dot = d < len;
    let frac_from: usize = if has_dot { d + 1 } else { len };
    let ghost int_part = body.take(int_len as int);
    let ghost frac = if has_dot { body.skip((int_len + 1) as int) } else { Seq::<char>::empty() };
    assert(int_part =~= t@.subrange(start as int, d as int));
    assert(frac =~= t@.subrange(frac_from as int, len as int));
    if int_len == 0 || (has_dot && frac_from == len) {
        return None;
    }
    if !digits_in(t, start, d) || !digits_in(t, frac_from, len) {
        return None;
    }
    let mut e: usize = len;
    assert(frac =~= t@.subrange(frac_from as int, e as int));
    while e > frac_from && t[e - 1] == '0'
        invariant
            frac_from <= e <= len == t@.len(),
            frac == t@.subrange(frac_from as int, len as int),
            trim_zeros(frac) == trim_zeros(t@.subrange(frac_from as int, e as int)),
        decreases e,
    {
        let ghost cur = t@.subrange(frac_from as int, e as int);
        assert(cur.drop_last() =~= t@.subrange(frac_from as int, e - 1));
        e = e - 1;
    }
    let ghost tf = t@.subrange(frac_from as int, e as int);
    assert(trim_zeros(tf) == tf);
    assert(all_digits(tf)) by {
        assert forall|k: int| 0 <= k < tf.len() implies is_digit(#[trigger] tf[k]) by {
            assert(tf[k] == frac[k]);
        }
    }
    proof {
        lemma_digits_value_bound(int_part);
        lemma_digits_value_bound(tf);
        lemma_pow10_pos(tf.len());
    }
    let tf_len = e - frac_from;
    let whole = match accumulate_digits(t, start, d, 0) {
        Some(w) => w,
        None => {
            proof {
                let v = digits_value(int_part);
                let p = pow10(tf.len());
                assert(v * p + digits_value(tf) >= v) by (nonlinear_arith)
                    requires p >= 1, v >= 0, digits_value(tf) >= 0;
            }
            return None;
        },
    };
    if tf_len > u32::MAX as usize {
        return None;
    }
    let mag = match accumulate_digits(t, frac_from, e, whole) {
        Some(m) => m,
        None => {
            return None;
        },
    };
    let num: i128 = if neg { -mag } else { mag };
    Some((num, tf_len as u32))
}

pub open spec fn in_range(n: i128) -> bool {
    -MAG_BOUND <= n <= MAG_BOUND
}

/// Sign of `x - y * 10^d`: -1, 0 or 1.
fn compare_scaled(x: i128, y: i128, d: u32) -> (r: i8)
    requires
        in_range(x),
        in_range(y),
    ensures
        (r == -1) == (x < y * pow10(d as nat)),
        (r == 0) == (x == y * pow10(d as nat)),
        (r == 1) == (x > y * pow10(d as nat)),
{
    let mut t: i128 = y;
    let mut k: u32 = 0;
    while k < d && -MAG_BOUND <= t && t <= MAG_BOUND
        invariant
            k <= d,
            -MAG_BOUND * 10 <= t <= MAG_BOUND * 10,
            t == y * pow10(k as nat),
        decreases d - k,
    {
        proof {
            assert(y * pow10((k + 1) as nat) == (y * pow10(k as nat)) * 10) by (nonlinear_arith)
                requires pow10((k + 1) as nat) == 10 * pow10(k as nat);
        }
        t = t * 10;
        k = k + 1;
    }
    proof {
        lemma_pow10_add(k as nat, (d - k) as nat);
        lemma_pow10_pos((d - k) as nat);
        let q = pow10((d - k) as nat);
        assert(y * pow10(d as nat) == t * q) by (nonlinear_arith)
            requires t == y * pow10(k as nat), pow10(d as nat) == pow10(k as nat) * q;
        if t > MAG_BOUND {
            assert(t * q >= t) by (nonlinear_arith) requires q >= 1, t > 0;
        }
        if t < -MAG_BOUND {
            assert(t * q <= t) by (nonlinear_arith) requires q >= 1, t < 0;
        }
        if k == d {
            assert(q == 1);
        }
    }
    if t > MAG_BOUND {
        -1
    } else if t < -MAG_BOUND {
        1
    } else if x < t {
        -1
    } else if x == t {
        0
    } else {
        1
    }
}

/// Sign of `a - b` for the exact values `a` and `b`: -1, 0 or 1.
pub fn compare_numbers(a: (i128, u32), b: (i128, u32)) -> (r: i8)
    requires
        in_range(a.0),
        in_range(b.0),
    ensures
        ({
            let x = Num { num: a.0 as int, scale: a.1 as nat };
            let y = Num { num: b.0 as int, scale: b.1 as nat };
            &&& (r == -1 <==> num_lt(x, y))
            &&& (r == 0 <==> num_eq(x, y))
            &&& (r == 1 <==> num_lt(y, x))
        }),
{
    if a.1 >= b.1 {
        let d = a.1 - b.1;
        proof {
            lemma_pow10_add(b.1 as nat, d as nat);
            lemma_pow10_pos(b.1 as nat);
            let p = pow10(b.1 as nat);
            let q = pow10(d as nat);
            let u = b.0 as int * q;
            assert(b.0 * pow10(a.1 as nat) == u * p) by (nonlinear_arith)
                requires pow10(a.1 as nat) == p * q, u == b.0 * q;
            assert(a.0 < u ==> a.0 * p < u * p) by (nonlinear_arith) requires p >= 1;
            assert(a.0 > u ==> a.0 * p > u * p) by (nonlinear_arith) requires p >= 1;
        }
        compare_scaled(a.0, b.0, d)
    } else {
        let d = b.1 - a.1;
        proof {
            lemma_pow10_add(a.1 as nat, d as nat);
            lemma_pow10_pos(a.1 as nat);
            let p = pow10(a.1 as nat);
            let q = pow10(d as nat);
            let u = a.0 as int * q;
            assert(a.0 * pow10(b.1 as nat) == u * p) by (nonlinear_arith)
                requires pow10(b.1 as nat) == p * q, u == a.0 * q;
            assert(b.0 < u ==> b.0 * p < u * p) by (nonlinear_arith) requires p >= 1;
            assert(b.0 > u ==> b.0 * p > u * p) by (nonlinear_arith) requires p >= 1;
        }
        let c = compare_scaled(b.0, a.0, d);
        if c == -1 {
            1
        } else if c == 1 {
            -1
        } else {
            0
        }
    }
}

} // verus!
