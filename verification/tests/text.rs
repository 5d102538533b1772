use repost_detector::root::integer_sqrt;
use repost_detector::text::{contains_phrase, decimal_string, join, two_decimals};

#[test]
fn decimal_numerals() {
    assert_eq!(decimal_string(0), "0");
    assert_eq!(decimal_string(7), "7");
    assert_eq!(decimal_string(10), "10");
    assert_eq!(decimal_string(99), "99");
    assert_eq!(decimal_string(1_000_000), "1000000");
    assert_eq!(decimal_string(1_234_567_890), "1234567890");
    assert_eq!(decimal_string(u32::MAX), "4294967295");
}

#[test]
fn numbers_with_two_decimals() {
    assert_eq!(two_decimals(0), "0.00");
    assert_eq!(two_decimals(5), "0.05");
    assert_eq!(two_decimals(50), "0.50");
    assert_eq!(two_decimals(1234), "12.34");
    assert_eq!(two_decimals(10_000), "100.00");
    assert_eq!(two_decimals(9_877), "98.77");
}

#[test]
fn joining_phrases() {
    let none: Vec<String> = vec![];
    assert_eq!(join(&none, " or "), "");
    assert_eq!(join(&vec!["a".to_string()], " or "), "a");
    assert_eq!(
        join(&vec!["a".to_string(), "b c".to_string(), "".to_string()], " or "),
        "a or b c or "
    );
    assert_eq!(join(&vec!["x".to_string(), "y".to_string()], ""), "xy");
}

#[test]
fn looking_up_a_phrase() {
    let list = vec!["moar".to_string(), "ещё".to_string(), "".to_string()];
    assert!(contains_phrase(&list, &"moar".to_string()));
    assert!(contains_phrase(&list, &"ещё".to_string()));
    assert!(contains_phrase(&list, &"".to_string()));
    assert!(!contains_phrase(&list, &"moa".to_string()));
    assert!(!contains_phrase(&list, &"MOAR".to_string()));
    assert!(!contains_phrase(&vec![], &"moar".to_string()));
}

#[test]
fn integer_square_roots() {
    assert_eq!(integer_sqrt(0), 0);
    assert_eq!(integer_sqrt(1), 1);
    assert_eq!(integer_sqrt(3), 1);
    assert_eq!(integer_sqrt(4), 2);
    assert_eq!(integer_sqrt(15), 3);
    assert_eq!(integer_sqrt(16), 4);
    assert_eq!(integer_sqrt(17), 4);
    assert_eq!(integer_sqrt(195_075_000_000_000_000), 441_672_955);
    assert_eq!(integer_sqrt(130_050_000_000_000_000), 360_624_458);
    assert_eq!(integer_sqrt(u64::MAX), 4_294_967_295);
    for n in 0..2000u64 {
        let r = integer_sqrt(n);
        assert!(r * r <= n && n < (r + 1) * (r + 1));
    }
}
