use serde_yml::error::Error;
use serde_yml::number::Number;
use std::cmp::Ordering;
use std::hash::{DefaultHasher, Hash, Hasher};

fn integer(i: i64) -> Number {
    Number::from_i64(i)
}

fn float(x: f64) -> Number {
    Number::from_bits(x.to_bits())
}

fn as_f64(n: &Number) -> Option<f64> {
    n.as_f64().map(f64::from_bits)
}

fn to_f64_lossy(n: &Number) -> f64 {
    f64::from_bits(n.to_f64_lossy())
}

fn to_f32_lossy(n: &Number) -> f32 {
    f32::from_bits(n.to_f32_lossy())
}

fn to_string(n: &Number) -> String {
    match n.text() {
        Some(text) => text,
        None => ryu::Buffer::new()
            .format_finite(f64::from_bits(n.as_bits().unwrap()))
            .to_owned(),
    }
}

fn from_str(repr: &str) -> Result<Number, Error> {
    let unpositive = repr.strip_prefix('+').unwrap_or(repr);
    let decimal = unpositive.parse::<f64>().ok().map(f64::to_bits);
    Number::from_str(repr, decimal)
}

#[test]
fn from_i64_values() {
    assert_eq!(integer(-1).as_i64(), Some(-1));
    assert_eq!(integer(0).as_i64(), Some(0));
    assert_eq!(integer(1).as_i64(), Some(1));
    assert_eq!(integer(i64::MAX).as_i64(), Some(i64::MAX));
    assert_eq!(integer(i64::MIN).as_i64(), Some(i64::MIN));
}

#[test]
fn from_u64_values() {
    assert_eq!(Number::from_u64(0).as_u64(), Some(0));
    assert_eq!(Number::from_u64(1).as_u64(), Some(1));
    assert_eq!(Number::from_u64(u64::MAX).as_u64(), Some(u64::MAX));
}

#[test]
fn from_trait_various_types() {
    assert_eq!(Number::from_i64(i64::from(-1i8)).as_i64(), Some(-1));
    assert_eq!(Number::from_u64(u64::from(1u32)).as_u64(), Some(1));
    assert_eq!(Number::from_i64(42isize as i64).as_i64(), Some(42));

    let val = as_f64(&float(f64::from(std::f32::consts::PI))).unwrap();
    let expected = std::f32::consts::PI as f64;
    let eps = 1e-6;
    assert!((val - expected).abs() < eps, "Expected ~{expected}, got {val}");

    assert!(float(f64::NAN).is_nan());
}

#[test]
fn test_parsing_special_float_strings() {
    if let Ok(val) = from_str("inf") {
        assert!(val.is_infinite());
    }
    if let Ok(val) = from_str("-inf") {
        assert!(val.is_infinite());
    }
    if let Ok(val) = from_str(".nan") {
        assert!(val.is_nan());
    }
}

#[test]
fn test_as_i64() {
    assert_eq!(integer(42).as_i64(), Some(42));
    assert_eq!(integer(-42).as_i64(), Some(-42));
    assert_eq!(float(std::f64::consts::PI).as_i64(), None);
}

#[test]
fn test_as_u64() {
    assert_eq!(integer(42).as_u64(), Some(42));
    assert_eq!(integer(-42).as_u64(), None);
    assert_eq!(float(std::f64::consts::PI).as_u64(), None);
}

#[test]
fn test_as_f64() {
    assert_eq!(as_f64(&integer(42)).unwrap(), 42.0);
    assert_eq!(as_f64(&integer(-42)).unwrap(), -42.0);
    let number = float(std::f64::consts::PI);
    assert!((as_f64(&number).unwrap() - std::f64::consts::PI).abs() < f64::EPSILON);
}

#[test]
fn test_is_i64() {
    assert!(integer(42).is_i64());
    assert!(integer(-42).is_i64());
    assert!(!float(std::f64::consts::PI).is_i64());
}

#[test]
fn test_is_u64() {
    assert!(integer(42).is_u64());
    assert!(!integer(-42).is_u64());
    assert!(!float(std::f64::consts::PI).is_u64());
}

#[test]
fn test_is_f64() {
    assert!(!integer(42).is_f64());
    assert!(!integer(-42).is_f64());
    assert!(float(std::f64::consts::PI).is_f64());
}

#[test]
fn test_is_nan() {
    assert!(float(f64::NAN).is_nan());
    assert!(!integer(42).is_nan());
    assert!(!float(std::f64::consts::PI).is_nan());
}

#[test]
fn test_is_infinite() {
    assert!(float(f64::INFINITY).is_infinite());
    assert!(float(-f64::INFINITY).is_infinite());
    assert!(!integer(42).is_infinite());
    assert!(!float(std::f64::consts::PI).is_infinite());
}

#[test]
fn test_is_finite() {
    assert!(!float(f64::INFINITY).is_finite());
    assert!(!float(-f64::INFINITY).is_finite());
    assert!(!float(f64::NAN).is_finite());
    assert!(integer(42).is_finite());
}

#[test]
fn test_display_values() {
    assert_eq!(to_string(&integer(42)), "42");
    assert_eq!(to_string(&integer(-42)), "-42");
    assert_eq!(to_string(&float(f64::NAN)), ".nan");
    assert_eq!(to_string(&float(f64::INFINITY)), ".inf");
    assert_eq!(to_string(&float(-f64::INFINITY)), "-.inf");
    let number = float(std::f64::consts::PI);
    assert!(
        (to_string(&number).parse::<f64>().unwrap() - std::f64::consts::PI).abs() < f64::EPSILON
    );
}

#[test]
fn test_from_str() {
    let number = from_str("42").unwrap();
    assert_eq!(number, integer(42));

    let number = from_str("-42").unwrap();
    assert_eq!(number, integer(-42));

    let number = float(std::f64::consts::PI);
    assert_eq!(number, float(std::f64::consts::PI));

    let result = from_str("invalid");
    assert!(result.is_err());
}

#[test]
fn test_parsing_edge_cases() {
    assert!(from_str("0o777").is_ok());
    assert!(from_str("0xff").is_ok());
    assert!(from_str("0b1010").is_ok());

    assert!(from_str("++1").is_err());
    assert!(from_str("1.2.3").is_err());
    assert!(from_str("0x0x0").is_err());
}

#[test]
fn test_partial_eq() {
    assert_eq!(integer(42), integer(42));
    assert_eq!(integer(-42), integer(-42));
    assert_eq!(float(std::f64::consts::PI), float(std::f64::consts::PI));
    assert_ne!(integer(42), integer(-42));
    assert_ne!(integer(42), float(std::f64::consts::PI));
}

#[test]
fn test_partial_ord() {
    assert_eq!(integer(42).partial_cmp(&integer(42)), Some(Ordering::Equal));
    assert_eq!(integer(-42).partial_cmp(&integer(42)), Some(Ordering::Less));
    assert_eq!(integer(42).partial_cmp(&integer(-42)), Some(Ordering::Greater));
    assert_eq!(
        float(std::f64::consts::PI).partial_cmp(&float(std::f64::consts::PI)),
        Some(Ordering::Equal)
    );
    assert_eq!(
        float(std::f64::consts::PI).partial_cmp(&float(2.71)),
        Some(Ordering::Greater)
    );
    assert_eq!(
        float(f64::NAN).partial_cmp(&float(f64::NAN)),
        Some(Ordering::Equal)
    );
}

#[test]
fn test_number_ordering() {
    assert!(integer(-2) < integer(-1));
    assert!(integer(-1) < integer(0));
    assert!(integer(0) < integer(1));

    assert!(float(-1.0) < float(-0.5));
    assert!(float(-0.5) < float(0.0));
    assert!(float(0.0) < float(0.5));

    assert!(integer(-1) < float(-0.5));
    assert!(integer(1) < float(1.5));

    let nan = float(f64::NAN);
    let inf = float(f64::INFINITY);
    let neg_inf = float(f64::NEG_INFINITY);

    assert!(neg_inf < float(0.0));
    assert!(float(0.0) < inf);
    assert_eq!(nan, nan);
}

#[test]
fn test_hash() {
    let mut hasher = DefaultHasher::new();
    integer(42).hash(&mut hasher);
    let hash1 = hasher.finish();

    let mut hasher = DefaultHasher::new();
    integer(42).hash(&mut hasher);
    let hash2 = hasher.finish();

    assert_eq!(hash1, hash2);
}

#[test]
fn test_number_conversion_edge_cases() {
    let max_i64 = integer(i64::MAX);
    assert_eq!(max_i64.as_i64(), Some(i64::MAX));
    assert_eq!(max_i64.as_u64(), Some(i64::MAX as u64));

    let min_i64 = integer(i64::MIN);
    assert_eq!(min_i64.as_i64(), Some(i64::MIN));
    assert_eq!(min_i64.as_u64(), None);

    let small_float = float(1e-300_f64);
    assert!(small_float.is_finite());

    let neg_zero = float(-0.0_f64);
    let pos_zero = float(0.0_f64);
    assert_eq!(neg_zero, pos_zero);

    let pi = float(std::f64::consts::PI);
    assert!((as_f64(&pi).unwrap() - std::f64::consts::PI).abs() < f64::EPSILON);
}

#[test]
fn test_negative_zero_comparison() {
    let neg_zero = float(-0.0_f64);
    let pos_zero = float(0.0_f64);
    assert_eq!(neg_zero, pos_zero);
    assert_eq!(neg_zero.partial_cmp(&pos_zero), Some(Ordering::Equal));
    assert_eq!(pos_zero.partial_cmp(&neg_zero), Some(Ordering::Equal));
}

#[test]
fn test_out_of_range_float_conversions() {
    let too_large_for_i64 = float(9_223_372_036_854_775_808_f64);
    assert_eq!(too_large_for_i64.as_i64(), None);

    let too_small_for_i64 = float(-9_223_372_036_854_775_809_f64);
    assert_eq!(too_small_for_i64.as_i64(), None);

    let too_large_for_u64 = float(18_446_744_073_709_551_616_f64);
    assert_eq!(too_large_for_u64.as_u64(), None);
}

#[test]
fn test_display_and_parse_round_trip() {
    let test_values = vec![
        integer(0),
        integer(-42),
        integer(42),
        float(std::f64::consts::PI),
        float(f64::NAN),
        float(f64::INFINITY),
        float(-f64::INFINITY),
    ];

    for val in test_values {
        let displayed = to_string(&val);
        if let Ok(parsed) = from_str(&displayed) {
            if val.is_nan() && parsed.is_nan() {
                assert_eq!(val, parsed);
            } else {
                assert_eq!(val, parsed, "Round-trip mismatch for '{displayed}'");
            }
        }
    }
}

#[test]
fn test_large_integers_vs_floats() {
    let int_num = integer(i64::MAX);
    let float_num = float(i64::MAX as f64);
    assert_eq!(int_num.partial_cmp(&float_num), Some(Ordering::Less));
}

#[test]
fn test_to_i32_saturating() {
    assert_eq!(Number::from_u64(123).to_i32_saturating(), 123);
    assert_eq!(
        Number::from_u64((i32::MAX as u64) + 1).to_i32_saturating(),
        i32::MAX
    );
    assert_eq!(Number::from_i64(-123).to_i32_saturating(), -123);
    assert_eq!(
        Number::from_i64(i64::from(i32::MIN) - 1).to_i32_saturating(),
        i32::MIN
    );
    assert_eq!(float(123.999_f64).to_i32_saturating(), 123);
    assert_eq!(float(-45.9_f64).to_i32_saturating(), -45);
    assert_eq!(float((i32::MAX as f64) + 100.0).to_i32_saturating(), i32::MAX);
    assert_eq!(float((i32::MIN as f64) - 100.0).to_i32_saturating(), i32::MIN);
    assert_eq!(float(f64::NAN).to_i32_saturating(), 0);
    assert_eq!(float(f64::INFINITY).to_i32_saturating(), i32::MAX);
    assert_eq!(float(f64::NEG_INFINITY).to_i32_saturating(), i32::MIN);
}

#[test]
fn test_to_u32_saturating() {
    assert_eq!(Number::from_u64(123).to_u32_saturating(), 123);
    assert_eq!(
        Number::from_u64(u64::from(u32::MAX) + 1).to_u32_saturating(),
        u32::MAX
    );
    assert_eq!(Number::from_i64(-123).to_u32_saturating(), 0);
    assert_eq!(float(123.999_f64).to_u32_saturating(), 123);
    assert_eq!(float(-45.9_f64).to_u32_saturating(), 0);
    assert_eq!(float((u32::MAX as f64) + 100.0).to_u32_saturating(), u32::MAX);
    assert_eq!(float(f64::NAN).to_u32_saturating(), 0);
    assert_eq!(float(f64::INFINITY).to_u32_saturating(), u32::MAX);
    assert_eq!(float(f64::NEG_INFINITY).to_u32_saturating(), 0);
}

#[test]
fn test_to_f32_lossy() {
    assert_eq!(to_f32_lossy(&Number::from_u64(123)), 123.0_f32);
    assert_eq!(to_f32_lossy(&Number::from_i64(-123)), -123.0_f32);

    let too_big_float = float(1.0e40_f64);
    assert!(to_f32_lossy(&too_big_float).is_infinite());

    let big_num = Number::from_u64(u64::MAX);
    let val = to_f32_lossy(&big_num);
    assert!(val.is_finite());
    assert!(val > 1e19);

    let f = as_f64(&float(f64::from(std::f32::consts::PI))).unwrap();
    assert!((f - std::f32::consts::PI as f64).abs() < f32::EPSILON as f64);

    assert!(to_f32_lossy(&float(f64::INFINITY)).is_infinite());
    assert!(to_f32_lossy(&float(f64::NEG_INFINITY)).is_infinite());
    assert!(to_f32_lossy(&float(f64::NAN)).is_nan());
}

#[test]
fn test_to_f64_lossy() {
    assert_eq!(to_f64_lossy(&Number::from_u64(123)), 123.0_f64);
    assert_eq!(to_f64_lossy(&Number::from_i64(-123)), -123.0_f64);

    let moderately_large = Number::from_u64(1_000_000_000);
    assert_eq!(to_f64_lossy(&moderately_large), 1_000_000_000.0);

    let huge = Number::from_u64(u64::MAX);
    let val = to_f64_lossy(&huge);
    assert!(!val.is_infinite());
    assert!(val > 1.0e19);

    assert!(to_f64_lossy(&float(f64::INFINITY)).is_infinite());
    assert!(to_f64_lossy(&float(f64::NEG_INFINITY)).is_infinite());
    assert!(to_f64_lossy(&float(f64::NAN)).is_nan());
}

#[test]
fn test_to_i16_saturating() {
    assert_eq!(Number::from_u64(123).to_i16_saturating(), 123);
    assert_eq!(
        Number::from_u64((i16::MAX as u64) + 1).to_i16_saturating(),
        i16::MAX
    );
    assert_eq!(Number::from_i64(-123).to_i16_saturating(), -123);
    assert_eq!(
        Number::from_i64(i64::from(i16::MIN) - 1).to_i16_saturating(),
        i16::MIN
    );
    assert_eq!(float(12.9_f64).to_i16_saturating(), 12);
    assert_eq!(float(-12.9_f64).to_i16_saturating(), -12);
    assert_eq!(float((i16::MAX as f64) + 100.0).to_i16_saturating(), i16::MAX);
    assert_eq!(float((i16::MIN as f64) - 10.0).to_i16_saturating(), i16::MIN);
    assert_eq!(float(f64::NAN).to_i16_saturating(), 0);
}

#[test]
fn test_saturation_boundaries() {
    assert_eq!(integer(i64::MAX).to_i32_saturating(), i32::MAX);
    assert_eq!(integer(-1).to_u32_saturating(), 0);
    assert_eq!(float(f64::NAN).to_i32_saturating(), 0);
    assert_eq!(float(2147483647.9).to_i32_saturating(), i32::MAX);
    assert_eq!(float(-2147483648.9).to_i32_saturating(), i32::MIN);
    assert_eq!(float(4294967295.5).to_u32_saturating(), u32::MAX);
    assert_eq!(float(0.999).to_u32_saturating(), 0);
    assert_eq!(float(5e-324).to_i32_saturating(), 0);
    assert_eq!(float(1e300).to_i16_saturating(), i16::MAX);
    assert_eq!(float(-1e300).to_i16_saturating(), i16::MIN);
    assert_eq!(float(-0.0).to_i32_saturating(), 0);
}

#[test]
fn test_nan_is_canonical() {
    let weird_nan = f64::from_bits(0xfff8_0000_0000_1234);
    assert!(weird_nan.is_nan());
    assert_eq!(float(weird_nan).as_bits(), Some(0x7ff8_0000_0000_0000));
    assert_eq!(float(weird_nan), float(f64::NAN));
}

#[test]
fn test_total_cmp_orders_all_numbers() {
    let ordered = vec![
        integer(i64::MIN),
        integer(-1),
        integer(0),
        Number::from_u64(u64::MAX),
        float(f64::NEG_INFINITY),
        float(-1.5),
        float(0.0),
        float(1e-300),
        float(f64::INFINITY),
        float(f64::NAN),
    ];
    for i in 0..ordered.len() {
        for j in 0..ordered.len() {
            let expected = i.cmp(&j);
            assert_eq!(ordered[i].total_cmp(&ordered[j]), expected, "{i} against {j}");
        }
    }
    assert_eq!(float(-0.0).total_cmp(&float(0.0)), Ordering::Equal);
    assert_eq!(float(f64::NAN).partial_cmp(&float(1.0)), Some(Ordering::Greater));
    assert_eq!(float(1.0).partial_cmp(&float(f64::NAN)), Some(Ordering::Less));
    assert_eq!(float(f64::INFINITY).partial_cmp(&float(f64::NAN)), Some(Ordering::Less));
}

#[test]
fn test_operators_decide_every_pair() {
    let numbers = vec![
        integer(i64::MIN),
        integer(7),
        Number::from_u64(u64::MAX),
        float(f64::NEG_INFINITY),
        float(-0.0),
        float(0.0),
        float(2.5),
        float(f64::INFINITY),
        float(f64::NAN),
    ];
    for a in &numbers {
        for b in &numbers {
            let holding = [a < b, a == b, a > b].iter().filter(|h| **h).count();
            assert_eq!(holding, 1, "{a:?} against {b:?}");
            assert_eq!(a.partial_cmp(b), Some(a.total_cmp(b)));
        }
    }
    assert!(float(f64::NAN) > float(f64::INFINITY));
    assert!(float(f64::NAN) > integer(1) || integer(1) < float(f64::NAN));
    assert!(!(float(f64::NAN) < float(1.0)));
}

#[test]
fn test_parse_errors_by_kind() {
    assert_eq!(from_str("007"), Err(Error::NotANumber));
    assert_eq!(from_str("-01"), Err(Error::NotANumber));
    assert_eq!(from_str("invalid"), Err(Error::NotAFloat));
    assert_eq!(from_str("1.2.3"), Err(Error::NotAFloat));
    assert_eq!(from_str("0x0x0"), Err(Error::NotAFloat));
    assert_eq!(from_str("18446744073709551616"), Err(Error::NotANumber));
    assert_eq!(from_str("-9223372036854775809"), Err(Error::NotANumber));
}

#[test]
fn test_parse_values() {
    assert_eq!(from_str("0xff").unwrap().as_u64(), Some(255));
    assert_eq!(from_str("0o777").unwrap().as_u64(), Some(511));
    assert_eq!(from_str("0b1010").unwrap().as_u64(), Some(10));
    assert_eq!(from_str("-0x10").unwrap().as_i64(), Some(-16));
    assert_eq!(from_str("+17").unwrap().as_u64(), Some(17));
    assert_eq!(from_str("-0").unwrap().as_u64(), Some(0));
    assert_eq!(from_str("18446744073709551615").unwrap().as_u64(), Some(u64::MAX));
    assert_eq!(from_str("-9223372036854775808").unwrap().as_i64(), Some(i64::MIN));
    assert_eq!(from_str("1.5").unwrap().as_bits(), Some(1.5f64.to_bits()));
    assert_eq!(from_str("+.inf").unwrap().as_bits(), Some(f64::INFINITY.to_bits()));
    assert_eq!(from_str("-.INF").unwrap().as_bits(), Some(f64::NEG_INFINITY.to_bits()));
    assert!(from_str(".NaN").unwrap().is_nan());
    assert_eq!(from_str("+-1"), Err(Error::NotAFloat));
    assert_eq!(from_str("1e999"), Err(Error::NotAFloat));
}

#[test]
fn test_integer_text_is_minimal_decimal() {
    assert_eq!(Number::from_u64(u64::MAX).text().unwrap(), "18446744073709551615");
    assert_eq!(integer(i64::MIN).text().unwrap(), "-9223372036854775808");
    assert_eq!(integer(0).text().unwrap(), "0");
    assert_eq!(float(1.5).text(), None);
}

#[test]
fn test_integers_become_the_nearest_floats() {
    let mut unsigned: Vec<u64> = vec![
        0,
        1,
        2,
        3,
        255,
        (1 << 24) - 1,
        1 << 24,
        (1 << 24) + 1,
        (1 << 24) + 2,
        (1 << 24) + 3,
        (1 << 25) + 2,
        (1 << 25) + 6,
        (1 << 53) - 1,
        1 << 53,
        (1 << 53) + 1,
        (1 << 53) + 2,
        (1 << 53) + 3,
        (1 << 54) + 2,
        (1 << 54) + 6,
        (1 << 63) - 1,
        1 << 63,
        (1 << 63) + 1024,
        (1 << 63) + 1025,
        u64::MAX - 2048,
        u64::MAX - 1024,
        u64::MAX - 1023,
        u64::MAX,
    ];
    let mut x: u64 = 0x9e37_79b9_7f4a_7c15;
    for _ in 0..2000 {
        x ^= x << 13;
        x ^= x >> 7;
        x ^= x << 17;
        unsigned.push(x);
        unsigned.push(x >> (x % 64));
    }
    for u in unsigned {
        let n = Number::from_u64(u);
        assert_eq!(n.to_f64_lossy(), (u as f64).to_bits(), "{u} as f64");
        assert_eq!(n.to_f32_lossy(), (u as f32).to_bits(), "{u} as f32");
        let i = u as i64;
        let n = Number::from_i64(i);
        assert_eq!(n.to_f64_lossy(), (i as f64).to_bits(), "{i} as f64");
        assert_eq!(n.to_f32_lossy(), (i as f32).to_bits(), "{i} as f32");
        assert_eq!(n.as_f64(), Some((i as f64).to_bits()));
    }
    assert_eq!(Number::from_i64(i64::MIN).to_f64_lossy(), (i64::MIN as f64).to_bits());
    assert_eq!(Number::from_i64(i64::MIN).to_f32_lossy(), (i64::MIN as f32).to_bits());
}

#[test]
fn test_floats_narrow_to_the_nearest_floats() {
    let mut doubles: Vec<f64> = vec![
        0.0,
        -0.0,
        1.0,
        -1.0,
        0.1,
        1.0e40,
        -1.0e40,
        f64::MAX,
        f64::MIN,
        f64::MIN_POSITIVE,
        5e-324,
        f64::from(f32::MAX),
        f64::from(f32::MAX) * 1.000000001,
        3.4028235677973366e38,
        3.4028235677973362e38,
        f64::from(f32::MIN_POSITIVE),
        f64::from(f32::MIN_POSITIVE) / 2.0,
        f64::from(f32::MIN_POSITIVE) / 3.0,
        1.401298464324817e-45,
        7.006492321624085e-46,
        7.006492321624086e-46,
        7.0064923216240846e-46,
        1e-46,
        1.0000000596046448,
        1.0000000596046447,
        1.000000059604645,
        1.0000001788139343,
        f64::INFINITY,
        f64::NEG_INFINITY,
        std::f64::consts::PI,
    ];
    let mut x: u64 = 0x2545_f491_4f6c_dd1d;
    for _ in 0..4000 {
        x ^= x << 13;
        x ^= x >> 7;
        x ^= x << 17;
        let d = f64::from_bits(x);
        if !d.is_nan() {
            doubles.push(d);
        }
        let near = f64::from_bits((x & 0x800f_ffff_ffff_ffff) | ((896 + (x >> 52) % 260) << 52));
        doubles.push(near);
    }
    for d in doubles {
        let n = Number::from_bits(d.to_bits());
        assert_eq!(n.to_f32_lossy(), (d as f32).to_bits(), "{d:e} as f32");
        assert_eq!(n.to_f64_lossy(), d.to_bits());
    }
    assert!(f32::from_bits(Number::from_bits(f64::NAN.to_bits()).to_f32_lossy()).is_nan());
}
