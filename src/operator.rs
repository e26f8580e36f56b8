//! The filter operators: pure functions over resolved values.
use vstd::prelude::*;

use crate::like::{like_match, like_exec};
use crate::numeric::{
    chars_of, compare_numbers, in_range, num_eq, num_lt, parse_decimal, parse_number, Num,
};
use crate::types::Variant;

verus! {

/// The exact number a numeric value holds; None for other values.
pub open spec fn number_of(v: Variant) -> Option<Num> {
    match v {
        Variant::SByte(x) => Some(Num { num: x as int, scale: 0 }),
        Variant::Byte(x) => Some(Num { num: x as int, scale: 0 }),
        Variant::Int16(x) => Some(Num { num: x as int, scale: 0 }),
        Variant::UInt16(x) => Some(Num { num: x as int, scale: 0 }),
        Variant::Int32(x) => Some(Num { num: x as int, scale: 0 }),
        Variant::UInt32(x) => Some(Num { num: x as int, scale: 0 }),
        Variant::Int64(x) => Some(Num { num: x as int, scale: 0 }),
        Variant::UInt64(x) => Some(Num { num: x as int, scale: 0 }),
        Variant::Decimal(d) => Some(Num { num: d.mantissa as int, scale: d.scale as nat }),
        _ => None,
    }
}

/// The number a string value writes in decimal; None for other values.
pub open spec fn string_number(v: Variant) -> Option<Num> {
    match v {
        Variant::String(s) => parse_number(s@),
        _ => None,
    }
}

/// The pair of numbers two values compare as after widening: both numeric, or one
/// numeric and the other a string holding a decimal number.
pub open spec fn coerced_pair(a: Variant, b: Variant) -> Option<(Num, Num)> {
    match (number_of(a), number_of(b)) {
        (Some(x), Some(y)) => Some((x, y)),
        (Some(x), None) => match string_number(b) {
            Some(y) => Some((x, y)),
            None => None,
        },
        (None, Some(y)) => match string_number(a) {
            Some(x) => Some((x, y)),
            None => None,
        },
        (None, None) => None,
    }
}

/// Equality of two values that do not compare as numbers.
pub open spec fn plain_eq(a: Variant, b: Variant) -> bool {
    match (a, b) {
        (Variant::Empty, Variant::Empty) => true,
        (Variant::Boolean(x), Variant::Boolean(y)) => x == y,
        (Variant::String(x), Variant::String(y)) => x@ == y@,
        _ => false,
    }
}

pub open spec fn values_equal(a: Variant, b: Variant) -> bool {
    match coerced_pair(a, b) {
        Some((x, y)) => num_eq(x, y),
        None => plain_eq(a, b),
    }
}

pub open spec fn equals_spec(a: Variant, b: Variant) -> Variant {
    Variant::Boolean(values_equal(a, b))
}

/// The ordering operators: `Boolean(cmp(a, b))` on values that widen to numbers,
/// Empty otherwise.
pub open spec fn less_than_spec(a: Variant, b: Variant) -> Variant {
    match coerced_pair(a, b) {
        Some((x, y)) => Variant::Boolean(num_lt(x, y)),
        None => Variant::Empty,
    }
}

pub open spec fn less_or_equal_spec(a: Variant, b: Variant) -> Variant {
    match coerced_pair(a, b) {
        Some((x, y)) => Variant::Boolean(num_lt(x, y) || num_eq(x, y)),
        None => Variant::Empty,
    }
}

pub open spec fn greater_than_spec(a: Variant, b: Variant) -> Variant {
    match coerced_pair(a, b) {
        Some((x, y)) => Variant::Boolean(num_lt(y, x)),
        None => Variant::Empty,
    }
}

pub open spec fn greater_or_equal_spec(a: Variant, b: Variant) -> Variant {
    match coerced_pair(a, b) {
        Some((x, y)) => Variant::Boolean(num_lt(y, x) || num_eq(x, y)),
        None => Variant::Empty,
    }
}

pub open spec fn between_spec(v: Variant, lo: Variant, hi: Variant) -> Variant {
    match (coerced_pair(v, lo), coerced_pair(v, hi)) {
        (Some((x, l)), Some((y, h))) => Variant::Boolean(
            (num_lt(l, x) || num_eq(x, l)) && (num_lt(y, h) || num_eq(y, h)),
        ),
        _ => Variant::Empty,
    }
}

/// `c` is the character `w` or its upper-case ASCII form.
pub open spec fn same_letter(c: char, w: char) -> bool {
    c == w || ('A' <= c && c <= 'Z' && (c as u32) + 32 == (w as u32))
}

/// `s` equals the lower-case word `w` when case is ignored.
pub open spec fn equal_ignoring_case(s: Seq<char>, w: Seq<char>) -> bool {
    s.len() == w.len() && forall|i: int| 0 <= i < s.len() ==> same_letter(#[trigger] s[i], w[i])
}

/// The truth a value holds: a Boolean, or a string reading "true"/"false" (in any case)
/// or "1"/"0"; None for anything else.
pub open spec fn truth_of(v: Variant) -> Option<bool> {
    match v {
        Variant::Boolean(b) => Some(b),
        Variant::String(s) => if equal_ignoring_case(s@, seq!['t', 'r', 'u', 'e']) || s@ == seq!['1'] {
            Some(true)
        } else if equal_ignoring_case(s@, seq!['f', 'a', 'l', 's', 'e']) || s@ == seq!['0'] {
            Some(false)
        } else {
            None
        },
        _ => None,
    }
}

pub open spec fn not_spec(v: Variant) -> Variant {
    match truth_of(v) {
        Some(b) => Variant::Boolean(!b),
        None => Variant::Empty,
    }
}

/// Three-valued conjunction: a false side decides, two true sides give true,
/// anything else is unknown (Empty).
pub open spec fn and_spec(a: Variant, b: Variant) -> Variant {
    if truth_of(a) == Some(false) || truth_of(b) == Some(false) {
        Variant::Boolean(false)
    } else if truth_of(a) == Some(true) && truth_of(b) == Some(true) {
        Variant::Boolean(true)
    } else {
        Variant::Empty
    }
}

/// Three-valued disjunction, the dual of `and_spec`.
pub open spec fn or_spec(a: Variant, b: Variant) -> Variant {
    if truth_of(a) == Some(true) || truth_of(b) == Some(true) {
        Variant::Boolean(true)
    } else if truth_of(a) == Some(false) && truth_of(b) == Some(false) {
        Variant::Boolean(false)
    } else {
        Variant::Empty
    }
}

pub open spec fn is_null_spec(v: Variant) -> Variant {
    Variant::Boolean(v is Empty)
}

pub open spec fn in_list_spec(v: Variant, list: Seq<Variant>) -> Variant {
    Variant::Boolean(exists|i: int| 0 <= i < list.len() && values_equal(v, #[trigger] list[i]))
}

pub open spec fn like_spec(s: Variant, p: Variant) -> Variant {
    match (s, p) {
        (Variant::String(t), Variant::String(q)) => Variant::Boolean(like_match(t@, q@)),
        _ => Variant::Empty,
    }
}

/// The bits of an integer value and its width in bytes; signed values are read as
/// their two's-complement bits.
pub open spec fn bits_of(v: Variant) -> Option<(u64, nat)> {
    match v {
        Variant::SByte(x) => Some((x as u8 as u64, 1)),
        Variant::Byte(x) => Some((x as u64, 1)),
        Variant::Int16(x) => Some((x as u16 as u64, 2)),
        Variant::UInt16(x) => Some((x as u64, 2)),
        Variant::Int32(x) => Some((x as u32 as u64, 4)),
        Variant::UInt32(x) => Some((x as u64, 4)),
        Variant::Int64(x) => Some((x as u64, 8)),
        Variant::UInt64(x) => Some((x, 8)),
        _ => None,
    }
}

/// The unsigned value of the given width in bytes.
pub open spec fn unsigned_of_width(bits: u64, width: nat) -> Variant {
    if width == 1 {
        Variant::Byte(bits as u8)
    } else if width == 2 {
        Variant::UInt16(bits as u16)
    } else if width == 4 {
        Variant::UInt32(bits as u32)
    } else {
        Variant::UInt64(bits)
    }
}

pub open spec fn wider(a: nat, b: nat) -> nat {
    if a >= b { a } else { b }
}

pub open spec fn bitwise_or_spec(a: Variant, b: Variant) -> Variant {
    match (bits_of(a), bits_of(b)) {
        (Some((x, wa)), Some((y, wb))) => unsigned_of_width(x | y, wider(wa, wb)),
        _ => Variant::Empty,
    }
}

pub open spec fn bitwise_and_spec(a: Variant, b: Variant) -> Variant {
    match (bits_of(a), bits_of(b)) {
        (Some((x, wa)), Some((y, wb))) => unsigned_of_width(x & y, wider(wa, wb)),
        _ => Variant::Empty,
    }
}

/// The number a numeric value holds, as `(num, scale)`.
fn number(v: &Variant) -> (r: Option<(i128, u32)>)
    ensures
        match r {
            None => number_of(*v) is None,
            Some((n, k)) => number_of(*v) == Some(Num { num: n as int, scale: k as nat })
                && in_range(n),
        },
{
    match v {
        Variant::SByte(x) => Some((*x as i128, 0)),
        Variant::Byte(x) => Some((*x as i128, 0)),
        Variant::Int16(x) => Some((*x as i128, 0)),
        Variant::UInt16(x) => Some((*x as i128, 0)),
        Variant::Int32(x) => Some((*x as i128, 0)),
        Variant::UInt32(x) => Some((*x as i128, 0)),
        Variant::Int64(x) => Some((*x as i128, 0)),
        Variant::UInt64(x) => Some((*x as i128, 0)),
        Variant::Decimal(d) => Some((d.mantissa as i128, d.scale)),
        _ => None,
    }
}

/// The number a string value writes, as `(num, scale)`.
fn string_to_number(v: &Variant) -> (r: Option<(i128, u32)>)
    ensures
        match r {
            None => string_number(*v) is None,
            Some((n, k)) => string_number(*v) == Some(Num { num: n as int, scale: k as nat })
                && in_range(n),
        },
{
    match v {
        Variant::String(s) => {
            let t = chars_of(s);
            parse_decimal(&t)
        },
        _ => None,
    }
}

/// The numbers two values compare as, as `coerced_pair` describes.
fn coerce_pair(a: &Variant, b: &Variant) -> (r: Option<((i128, u32), (i128, u32))>)
    ensures
        match r {
            None => coerced_pair(*a, *b) is None,
            Some((x, y)) => coerced_pair(*a, *b) == Some(
                (Num { num: x.0 as int, scale: x.1 as nat }, Num { num: y.0 as int, scale: y.1 as nat }),
            ) && in_range(x.0) && in_range(y.0),
        },
{
    match (number(a), number(b)) {
        (Some(x), Some(y)) => Some((x, y)),
        (Some(x), None) => match string_to_number(b) {
            Some(y) => Some((x, y)),
            None => None,
        },
        (None, Some(y)) => match string_to_number(a) {
            Some(x) => Some((x, y)),
            None => None,
        },
        (None, None) => None,
    }
}

fn plain_equal(a: &Variant, b: &Variant) -> (r: bool)
    ensures
        r == plain_eq(*a, *b),
{
    match (a, b) {
        (Variant::Empty, Variant::Empty) => true,
        (Variant::Boolean(x), Variant::Boolean(y)) => *x == *y,
        (Variant::String(x), Variant::String(y)) => *x == *y,
        _ => false,
    }
}

fn equal_values(a: &Variant, b: &Variant) -> (r: bool)
    ensures
        r == values_equal(*a, *b),
{
    match coerce_pair(a, b) {
        Some((x, y)) => compare_numbers(x, y) == 0,
        None => plain_equal(a, b),
    }
}

/// Equals: numbers compare after widening, a number equals a string that writes it,
/// other values compare exactly.
pub fn equals(a: &Variant, b: &Variant) -> (r: Variant)
    ensures
        r == equals_spec(*a, *b),
{
    Variant::Boolean(equal_values(a, b))
}

pub fn less_than(a: &Variant, b: &Variant) -> (r: Variant)
    ensures
        r == less_than_spec(*a, *b),
{
    match coerce_pair(a, b) {
        Some((x, y)) => Variant::Boolean(compare_numbers(x, y) < 0),
        None => Variant::Empty,
    }
}

pub fn less_or_equal(a: &Variant, b: &Variant) -> (r: Variant)
    ensures
        r == less_or_equal_spec(*a, *b),
{
    match coerce_pair(a, b) {
        Some((x, y)) => Variant::Boolean(compare_numbers(x, y) <= 0),
        None => Variant::Empty,
    }
}

pub fn greater_than(a: &Variant, b: &Variant) -> (r: Variant)
    ensures
        r == greater_than_spec(*a, *b),
{
    match coerce_pair(a, b) {
        Some((x, y)) => Variant::Boolean(compare_numbers(x, y) > 0),
        None => Variant::Empty,
    }
}

pub fn greater_or_equal(a: &Variant, b: &Variant) -> (r: Variant)
    ensures
        r == greater_or_equal_spec(*a, *b),
{
    match coerce_pair(a, b) {
        Some((x, y)) => Variant::Boolean(compare_numbers(x, y) >= 0),
        None => Variant::Empty,
    }
}

/// Between: `lo <= v <= hi` after widening all three.
pub fn between(v: &Variant, lo: &Variant, hi: &Variant) -> (r: Variant)
    ensures
        r == between_spec(*v, *lo, *hi),
{
    match (coerce_pair(v, lo), coerce_pair(v, hi)) {
        (Some((x, l)), Some((y, h))) => Variant::Boolean(
            compare_numbers(x, l) >= 0 && compare_numbers(y, h) <= 0,
        ),
        _ => Variant::Empty,
    }
}

fn word_is(s: &Vec<char>, w: &Vec<char>) -> (r: bool)
    ensures
        r == equal_ignoring_case(s@, w@),
{
    if s.len() != w.len() {
        return false;
    }
    let mut i: usize = 0;
    while i < s.len()
        invariant
            i <= s@.len() == w@.len(),
            forall|k: int| 0 <= k < i ==> same_letter(#[trigger] s@[k], w@[k]),
        decreases s@.len() - i,
    {
        let c = s[i];
        let d = w[i];
        if !(c == d || ('A' <= c && c <= 'Z' && (c as u32) + 32 == (d as u32))) {
            return false;
        }
        i = i + 1;
    }
    true
}

fn truth(v: &Variant) -> (r: Option<bool>)
    ensures
        r == truth_of(*v),
{
    match v {
        Variant::Boolean(b) => Some(*b),
        Variant::String(s) => {
            let t = chars_of(s);
            let one = vec!['1'];
            let zero = vec!['0'];
            assert(one@ =~= seq!['1']);
            assert(zero@ =~= seq!['0']);
            let yes = vec!['t', 'r', 'u', 'e'];
            let no = vec!['f', 'a', 'l', 's', 'e'];
            assert(yes@ =~= seq!['t', 'r', 'u', 'e']);
            assert(no@ =~= seq!['f', 'a', 'l', 's', 'e']);
            if word_is(&t, &yes) || (t.len() == 1 && t[0] == '1') {
                proof {
                    if !equal_ignoring_case(s@, seq!['t', 'r', 'u', 'e']) {
                        assert(s@ =~= seq!['1']);
                    }
                }
                Some(true)
            } else if word_is(&t, &no) || (t.len() == 1 && t[0] == '0') {
                proof {
                    if !equal_ignoring_case(s@, seq!['f', 'a', 'l', 's', 'e']) {
                        assert(s@ =~= seq!['0']);
                    }
                }
                Some(false)
            } else {
                proof {
                    if s@ == seq!['1'] {
                        assert(t@[0] == '1');
                    }
                    if s@ == seq!['0'] {
                        assert(t@[0] == '0');
                    }
                }
                None
            }
        },
        _ => None,
    }
}

/// Not: negates a value that reads as a truth; Empty otherwise.
pub fn not(v: &Variant) -> (r: Variant)
    ensures
        r == not_spec(*v),
{
    match truth(v) {
        Some(b) => Variant::Boolean(!b),
        None => Variant::Empty,
    }
}

pub fn and(a: &Variant, b: &Variant) -> (r: Variant)
    ensures
        r == and_spec(*a, *b),
{
    let x = truth(a);
    let y = truth(b);
    if x == Some(false) || y == Some(false) {
        Variant::Boolean(false)
    } else if x == Some(true) && y == Some(true) {
        Variant::Boolean(true)
    } else {
        Variant::Empty
    }
}

pub fn or(a: &Variant, b: &Variant) -> (r: Variant)
    ensures
        r == or_spec(*a, *b),
{
    let x = truth(a);
    let y = truth(b);
    if x == Some(true) || y == Some(true) {
        Variant::Boolean(true)
    } else if x == Some(false) && y == Some(false) {
        Variant::Boolean(false)
    } else {
        Variant::Empty
    }
}

pub fn is_null(v: &Variant) -> (r: Variant)
    ensures
        r == is_null_spec(*v),
{
    Variant::Boolean(v.is_empty())
}

/// InList: whether `v` equals any value of `list`.
pub fn in_list(v: &Variant, list: &[Variant]) -> (r: Variant)
    ensures
        r == in_list_spec(*v, list@),
{
    let mut i: usize = 0;
    while i < list.len()
        invariant
            i <= list@.len(),
            forall|k: int| 0 <= k < i ==> !values_equal(*v, #[trigger] list@[k]),
        decreases list@.len() - i,
    {
        if equal_values(v, &list[i]) {
            return Variant::Boolean(true);
        }
        i = i + 1;
    }
    Variant::Boolean(false)
}

pub fn like(s: &Variant, p: &Variant) -> (r: Variant)
    ensures
        r == like_spec(*s, *p),
{
    match (s, p) {
        (Variant::String(t), Variant::String(q)) => Variant::Boolean(like_exec(t, q)),
        _ => Variant::Empty,
    }
}

fn bits(v: &Variant) -> (r: Option<(u64, u8)>)
    ensures
        match r {
            None => bits_of(*v) is None,
            Some((x, w)) => bits_of(*v) == Some((x, w as nat)),
        },
{
    match v {
        Variant::SByte(x) => Some((*x as u8 as u64, 1)),
        Variant::Byte(x) => Some((*x as u64, 1)),
        Variant::Int16(x) => Some((*x as u16 as u64, 2)),
        Variant::UInt16(x) => Some((*x as u64, 2)),
        Variant::Int32(x) => Some((*x as u32 as u64, 4)),
        Variant::UInt32(x) => Some((*x as u64, 4)),
        Variant::Int64(x) => Some((*x as u64, 8)),
        Variant::UInt64(x) => Some((*x, 8)),
        _ => None,
    }
}

fn unsigned_with_width(x: u64, width: u8) -> (r: Variant)
    ensures
        r == unsigned_of_width(x, width as nat),
{
    if width == 1 {
        Variant::Byte(x as u8)
    } else if width == 2 {
        Variant::UInt16(x as u16)
    } else if width == 4 {
        Variant::UInt32(x as u32)
    } else {
        Variant::UInt64(x)
    }
}

/// BitwiseOr: integers widened to the wider unsigned width of the two, then or-ed.
pub fn bitwise_or(a: &Variant, b: &Variant) -> (r: Variant)
    ensures
        r == bitwise_or_spec(*a, *b),
{
    match (bits(a), bits(b)) {
        (Some((x, wa)), Some((y, wb))) => unsigned_with_width(x | y, if wa >= wb { wa } else { wb }),
        _ => Variant::Empty,
    }
}

/// BitwiseAnd: integers widened to the wider unsigned width of the two, then and-ed.
pub fn bitwise_and(a: &Variant, b: &Variant) -> (r: Variant)
    ensures
        r == bitwise_and_spec(*a, *b),
{
    match (bits(a), bits(b)) {
        (Some((x, wa)), Some((y, wb))) => unsigned_with_width(x & y, if wa >= wb { wa } else { wb }),
        _ => Variant::Empty,
    }
}

} // verus!
