use blockchain::hashing::{digest_string, HASH_LEN};
use blockchain::text::{push_decimal, to_hex};

fn decimal_of(n: u64) -> String {
    let mut out = String::new();
    push_decimal(&mut out, n);
    out
}

#[test]
fn decimal_of_zero_is_a_single_digit() {
    assert_eq!(decimal_of(0), "0");
}

#[test]
fn decimal_has_no_leading_zeros() {
    assert_eq!(decimal_of(7), "7");
    assert_eq!(decimal_of(10), "10");
    assert_eq!(decimal_of(1005), "1005");
    assert_eq!(decimal_of(1234567890), "1234567890");
}

#[test]
fn decimal_of_the_largest_value() {
    assert_eq!(decimal_of(u64::MAX), "18446744073709551615");
}

#[test]
fn decimal_is_appended_to_what_is_there() {
    let mut out = String::from("n=");
    push_decimal(&mut out, 42);
    push_decimal(&mut out, 0);
    assert_eq!(out, "n=420");
}

#[test]
fn decimal_agrees_with_std_formatting() {
    let mut n: u64 = 1;
    while n < u64::MAX / 3 {
        assert_eq!(decimal_of(n), format!("{}", n));
        assert_eq!(decimal_of(n - 1), format!("{}", n - 1));
        n = n * 3 + 1;
    }
}

#[test]
fn hex_renders_two_lowercase_digits_per_byte() {
    assert_eq!(to_hex(&[0x00, 0x0f, 0xa5, 0xff]), "000fa5ff");
    assert_eq!(to_hex(&[0x10]), "10");
    assert_eq!(to_hex(&[0xde, 0xad, 0xbe, 0xef]), "deadbeef");
}

#[test]
fn hex_of_nothing_is_empty() {
    assert_eq!(to_hex(&[]), "");
}

#[test]
fn hex_covers_every_byte_value() {
    let mut b: u16 = 0;
    while b < 256 {
        assert_eq!(to_hex(&[b as u8]), format!("{:02x}", b));
        b += 1;
    }
}

#[test]
fn digest_of_known_fields() {
    assert_eq!(
        digest_string(1, 1700000000, "hello", "abc", 42),
        "72f1debfac402eb955764b5996c49f2a73c66ecaf60384ad8437f028979d7a4e"
    );
}

#[test]
fn digest_of_the_genesis_fields() {
    assert_eq!(
        digest_string(0, 5, "Genesis Block", "0", 0),
        "c9349cecb705972cc048c49f0a2f99204d1bb7db7d2f7fe389294536e1e0b627"
    );
}

#[test]
fn digest_hashes_the_utf8_bytes_of_the_payload() {
    assert_eq!(
        digest_string(3, 9, "caf\u{e9} \u{2713}", "0", 1),
        "206fd4a5d0cc9cf260cbd5ae2c0b3ed3fccade699d5f187dea541a8c96928adc"
    );
}

#[test]
fn digest_has_fixed_length() {
    assert_eq!(digest_string(0, 0, "", "", 0).len(), HASH_LEN);
    assert_eq!(digest_string(u64::MAX, u64::MAX, "a long payload", "0", u64::MAX).len(), 64);
}

#[test]
fn digest_depends_on_every_field() {
    let base = digest_string(1, 2, "d", "p", 3);
    assert_ne!(digest_string(9, 2, "d", "p", 3), base);
    assert_ne!(digest_string(1, 9, "d", "p", 3), base);
    assert_ne!(digest_string(1, 2, "e", "p", 3), base);
    assert_ne!(digest_string(1, 2, "d", "q", 3), base);
    assert_ne!(digest_string(1, 2, "d", "p", 9), base);
    assert_eq!(digest_string(1, 2, "d", "p", 3), base);
}

#[test]
fn digest_joins_fields_without_separators() {
    assert_eq!(digest_string(1, 23, "x", "y", 0), digest_string(12, 3, "x", "y", 0));
    assert_eq!(digest_string(1, 2, "ab", "c", 0), digest_string(1, 2, "a", "bc", 0));
}
