use raytracer::hex::hex_rgb;

#[test]
fn hex_rgb_reads_lower_and_upper_case() {
    assert_eq!(hex_rgb(b"ffa500"), Some([255, 165, 0]));
    assert_eq!(hex_rgb(b"FFFFFF"), Some([255, 255, 255]));
    assert_eq!(hex_rgb(b"000000"), Some([0, 0, 0]));
    assert_eq!(hex_rgb(b"1a2B3c"), Some([0x1a, 0x2b, 0x3c]));
}

#[test]
fn hex_rgb_takes_a_plus_sign_before_one_digit() {
    assert_eq!(hex_rgb(b"+f0a0b"), Some([15, 10, 11]));
    assert_eq!(hex_rgb(b"0a0b+1"), Some([10, 11, 1]));
    assert_eq!(u8::from_str_radix("+f", 16), Ok(15));
}

#[test]
fn hex_rgb_rejects_a_lone_or_minus_sign() {
    assert_eq!(hex_rgb(b"++0000"), None);
    assert_eq!(hex_rgb(b"-f0000"), None);
    assert_eq!(hex_rgb(b"00f-00"), None);
}

#[test]
fn hex_rgb_rejects_what_is_not_a_byte() {
    assert_eq!(hex_rgb(b"gg0000"), None);
    assert_eq!(hex_rgb(b"00zz00"), None);
    assert_eq!(hex_rgb(b"0000 1"), None);
    assert_eq!(hex_rgb(b"f+0000"), None);
    assert_eq!(hex_rgb(b"-10000"), None);
}
