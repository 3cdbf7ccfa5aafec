//! Cross-algorithm conformance: the Euclidean and the binary
//! algorithm must return the same value for every pair checked.

use gcd_engine::binary_gcd;
use gcd_engine::gcd;

#[test]
fn equality() {
    for num1 in -2000..2000 {
        for num2 in -2000..2000 {
            let gcd_1 = gcd(num1, num2);
            let gcd_2 = binary_gcd(num1, num2);
            if gcd_1 != gcd_2 {
                panic!(
                    "num1: {}, num2: {}, gcd: {}, binary_gcd: {}",
                    num1, num2, gcd_1, gcd_2
                )
            }
            assert!(gcd_1 == binary_gcd(num1, num2));
        }
    }
}

#[test]
fn almost_every_combination_u8() {
    // except for max_value obviously
    for num1 in 0_u8..255 {
        for num2 in 0_u8..255 {
            let gcd_1 = gcd(num1, num2);
            let gcd_2 = binary_gcd(num1, num2);
            if gcd_1 != gcd_2 {
                panic!(
                    "num1: {}, num2: {}, gcd: {}, binary_gcd: {}",
                    num1, num2, gcd_1, gcd_2
                )
            }
            assert!(gcd_1 == binary_gcd(num1, num2));
        }
    }
}

#[test]
fn border_cases() {
    assert!(binary_gcd(i8::MIN, i8::MIN) == i8::MIN);
    assert!(binary_gcd(i8::MIN, i8::MAX) == 1);
    assert!(binary_gcd(i8::MAX, i8::MIN) == 1);
    assert!(binary_gcd(i8::MAX, i8::MAX) == i8::MAX);
}
