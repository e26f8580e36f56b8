use opcua_core::operator::{
    and, between, bitwise_and, bitwise_or, equals, greater_or_equal, greater_than, in_list, is_null, less_or_equal,
    less_than, like, not, or,
};
use opcua_core::types::{Decimal, Variant};

fn s(v: &str) -> Variant {
    Variant::String(v.to_string())
}

fn dec(mantissa: i64, scale: u32) -> Variant {
    Variant::Decimal(Decimal { mantissa, scale })
}

const T: Variant = Variant::Boolean(true);
const F: Variant = Variant::Boolean(false);

#[test]
fn equals_widens_across_integer_types() {
    assert_eq!(equals(&Variant::Byte(200), &Variant::Int64(200)), T);
    assert_eq!(equals(&Variant::SByte(-1), &Variant::UInt64(u64::MAX)), F);
    assert_eq!(equals(&Variant::UInt64(u64::MAX), &Variant::UInt64(u64::MAX)), T);
    assert_eq!(equals(&Variant::Int32(12), &dec(120, 1)), T);
}

#[test]
fn equals_coerces_numeric_strings() {
    assert_eq!(equals(&Variant::Int32(550), &s("550")), T);
    assert_eq!(equals(&s("550"), &Variant::Int32(550)), T);
    assert_eq!(equals(&dec(105, 1), &s("10.50")), T);
    assert_eq!(equals(&Variant::Int32(-7), &s("-7")), T);
    assert_eq!(equals(&Variant::Int32(550), &s("551")), F);
    assert_eq!(equals(&Variant::Int32(550), &s("abc")), F);
    assert_eq!(equals(&Variant::UInt64(1234567890123456789), &s("1234567890123456789")), T);
    assert_eq!(equals(&Variant::UInt64(1111111111111111111), &s("1111111111111111111")), T);
    assert_eq!(equals(&Variant::UInt64(u64::MAX), &s("18446744073709551615")), T);
    assert_eq!(equals(&Variant::Int64(i64::MIN), &s("-9223372036854775808")), T);
    assert_eq!(equals(&Variant::UInt64(u64::MAX), &s("18446744073709551614")), F);
    // leading zeros and trailing fractional zeros leave the value unchanged
    assert_eq!(equals(&Variant::Int32(5), &s("0000000000000000000000005.000000000000000000000")), T);
    // beyond the magnitude of any value held, a string is no number
    assert_eq!(equals(&Variant::Int32(0), &s("100000000000000000000000000")), F);
    // two strings compare as text
    assert_eq!(equals(&s("1.0"), &s("1")), F);
    assert_eq!(equals(&s("abc"), &s("abc")), T);
    assert_eq!(equals(&Variant::Empty, &Variant::Empty), T);
    assert_eq!(equals(&Variant::Empty, &Variant::Int32(0)), F);
}

#[test]
fn equals_is_symmetric_on_examples() {
    let values = vec![Variant::Int32(3), dec(30, 1), s("3"), s("x"), Variant::Boolean(true), Variant::Empty, Variant::UInt16(3)];
    for a in &values {
        for b in &values {
            assert_eq!(equals(a, b), equals(b, a));
        }
    }
}

#[test]
fn less_than_is_antisymmetric_on_examples() {
    let values = vec![Variant::Int32(-3), dec(-25, 1), Variant::UInt64(u64::MAX), Variant::Byte(0), dec(1, 18)];
    for a in &values {
        for b in &values {
            if less_than(a, b) == T {
                assert_eq!(less_than(b, a), F);
            }
        }
    }
    assert_eq!(less_than(&Variant::Int64(i64::MIN), &Variant::UInt64(u64::MAX)), T);
}

#[test]
fn decimals_compare_at_any_scale() {
    assert_eq!(equals(&dec(10, 20), &dec(1, 19)), T);
    assert_eq!(less_than(&dec(1, 19), &dec(2, 19)), T);
    assert_eq!(less_or_equal(&dec(2, 19), &dec(1, 19)), F);
    assert_eq!(greater_than(&dec(1, 4_000_000_000), &Variant::Int32(0)), T);
    assert_eq!(greater_or_equal(&dec(-1, 4_000_000_000), &Variant::Int32(0)), F);
    assert_eq!(between(&dec(1, 19), &Variant::Int32(0), &dec(2, 19)), T);
    assert_eq!(equals(&dec(i64::MAX, 30), &s("0.000000000009223372036854775807")), T);
    assert_eq!(equals(&dec(1, 19), &s("0.00000000000000000010")), T);
    assert_eq!(less_than(&Variant::UInt64(u64::MAX), &dec(i64::MAX, 0)), F);
}

#[test]
fn ordering_of_non_numbers_is_empty() {
    assert_eq!(less_than(&s("a"), &s("b")), Variant::Empty);
    assert_eq!(greater_than(&Variant::Boolean(true), &Variant::Int32(0)), Variant::Empty);
    assert_eq!(less_or_equal(&Variant::Empty, &Variant::Int32(0)), Variant::Empty);
    assert_eq!(greater_or_equal(&Variant::Int32(3), &s("2.5")), T);
}

#[test]
fn between_matches_both_bounds() {
    let v = Variant::Int32(12);
    let lo = dec(115, 1);
    let hi = Variant::UInt16(12);
    assert_eq!(between(&v, &lo, &hi), and(&greater_or_equal(&v, &lo), &less_or_equal(&v, &hi)));
    assert_eq!(between(&v, &lo, &hi), T);
    assert_eq!(between(&s("12.5"), &Variant::Int32(12), &Variant::Int32(13)), T);
    assert_eq!(between(&s("x"), &Variant::Int32(12), &Variant::Int32(13)), Variant::Empty);
}

#[test]
fn three_valued_truth_table() {
    assert_eq!(and(&F, &Variant::Empty), F);
    assert_eq!(and(&T, &Variant::Empty), Variant::Empty);
    assert_eq!(or(&T, &Variant::Empty), T);
    assert_eq!(or(&F, &Variant::Empty), Variant::Empty);
    assert_eq!(and(&s("TRUE"), &s("1")), T);
    assert_eq!(or(&Variant::Int32(1), &F), Variant::Empty);
}

#[test]
fn not_reads_strings_ignoring_case() {
    assert_eq!(not(&s("FaLsE")), T);
    assert_eq!(not(&s("1")), F);
    assert_eq!(not(&s("yes")), Variant::Empty);
    assert_eq!(not(&Variant::Empty), Variant::Empty);
}

#[test]
fn is_null_only_for_empty() {
    assert_eq!(is_null(&Variant::Empty), T);
    assert_eq!(is_null(&s("")), F);
}

#[test]
fn in_list_finds_equal_values() {
    let list = vec![Variant::Int32(11), Variant::Empty, dec(990, 1)];
    assert_eq!(in_list(&Variant::Int32(99), &list), T);
    assert_eq!(in_list(&Variant::Int32(33), &list), F);
    assert_eq!(in_list(&Variant::Empty, &list), T);
    assert_eq!(in_list(&s("11"), &list), T);
}

#[test]
fn like_patterns() {
    assert_eq!(like(&s("Hello world"), &s("[Hh]ello w%")), T);
    assert_eq!(like(&s("hello world"), &s("[Hh]ello w%")), T);
    assert_eq!(like(&s("jello world"), &s("[Hh]ello w%")), F);
    assert_eq!(like(&s("abc"), &s("a_c")), T);
    assert_eq!(like(&s("ac"), &s("a_c")), F);
    assert_eq!(like(&s(""), &s("%")), T);
    assert_eq!(like(&s("abcabc"), &s("%c%c")), T);
    assert_eq!(like(&s("[x"), &s("[x")), T);
    assert_eq!(like(&s("abc"), &s("ab")), F);
    assert_eq!(like(&Variant::Int32(1), &s("%")), Variant::Empty);
}

#[test]
fn bitwise_widens_to_the_wider_type() {
    assert_eq!(bitwise_or(&Variant::Byte(0x0f), &Variant::UInt16(0xf000)), Variant::UInt16(0xf00f));
    assert_eq!(bitwise_and(&Variant::SByte(-1), &Variant::Byte(0x3c)), Variant::Byte(0x3c));
    assert_eq!(bitwise_or(&Variant::Int32(-1), &Variant::UInt64(0)), Variant::UInt64(0xffff_ffff));
    assert_eq!(bitwise_and(&Variant::Int16(0x0ff0), &Variant::UInt32(0xffff_00f0)), Variant::UInt32(0xf0));
    assert_eq!(bitwise_or(&dec(1, 0), &Variant::Byte(1)), Variant::Empty);
}
