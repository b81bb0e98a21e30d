use screenie_server::compute_bits_required;
use screenie_server::compute_max_url;
use screenie_server::gen_image_url;
use screenie_server::index;
use screenie_server::ImageUrl;
use screenie_server::OutOfRange;

#[test]
fn encode_pads_to_three_symbols() {
    assert_eq!(ImageUrl(0).encode(), "000");
    assert_eq!(ImageUrl(61).encode(), "00z");
    assert_eq!(ImageUrl(62).encode(), "010");
}

#[test]
fn encode_exact_values() {
    assert_eq!(ImageUrl(12345).encode(), "3D7");
    assert_eq!(ImageUrl(62 * 62 * 62).encode(), "1000");
    assert_eq!(ImageUrl(u64::MAX).encode(), "LygHa16AHYF");
}

#[test]
fn decode_exact_values() {
    assert_eq!(ImageUrl::from_str("000"), Ok(ImageUrl(0)));
    assert_eq!(ImageUrl::from_str("1A2"), Ok(ImageUrl(4466)));
    assert_eq!(ImageUrl::from_str("foo"), Ok(ImageUrl(160754)));
    assert_eq!(ImageUrl::from_str(""), Ok(ImageUrl(0)));
}

#[test]
fn decode_rejects_first_bad_byte() {
    assert_eq!(ImageUrl::from_str("ab!c"), Err(OutOfRange(b'!')));
    assert_eq!(ImageUrl::from_str("bad!name"), Err(OutOfRange(b'!')));
    assert_eq!(ImageUrl::from_str(".png"), Err(OutOfRange(b'.')));
    assert_eq!(ImageUrl::from_str("n\u{e4}me"), Err(OutOfRange(0xc3)));
}

#[test]
fn decode_saturates_on_overflow() {
    assert_eq!(ImageUrl::from_str("zzzzzzzzzzz"), Ok(ImageUrl(u64::MAX)));
    assert_eq!(ImageUrl::from_str("zzzzzzzzzzzzzzzz"), Ok(ImageUrl(u64::MAX)));
}

#[test]
fn decode_encode_round_trip() {
    for v in [0u64, 1, 61, 62, 3843, 3844, 12345, 56800235583, u64::MAX] {
        let s = ImageUrl(v).encode();
        assert_eq!(ImageUrl::from_str(&s), Ok(ImageUrl(v)));
    }
}

#[test]
fn encode_decode_round_trip() {
    for s in ["000", "0Az", "1A2", "zzz", "ABCDEF"] {
        let v = ImageUrl::from_str(s).unwrap();
        let re = v.encode();
        assert_eq!(ImageUrl::from_str(&re), Ok(v));
    }
    assert_eq!(ImageUrl::from_str("0Az").unwrap().encode(), "0Az");
}

#[test]
fn index_finds_alphabet_positions() {
    assert_eq!(index(b'0'), Some(0));
    assert_eq!(index(b'9'), Some(9));
    assert_eq!(index(b'A'), Some(10));
    assert_eq!(index(b'Z'), Some(35));
    assert_eq!(index(b'a'), Some(36));
    assert_eq!(index(b'z'), Some(61));
    assert_eq!(index(b'!'), None);
    assert_eq!(index(b'.'), None);
    assert_eq!(index(b'/'), None);
}

#[test]
fn compute_bits_required_counts_digits() {
    assert_eq!(compute_bits_required(0), 0);
    assert_eq!(compute_bits_required(1), 1);
    assert_eq!(compute_bits_required(61), 1);
    assert_eq!(compute_bits_required(62), 2);
    assert_eq!(compute_bits_required(3843), 2);
    assert_eq!(compute_bits_required(3844), 3);
}

#[test]
fn compute_max_url_is_power_of_base() {
    assert_eq!(compute_max_url(0), 1);
    assert_eq!(compute_max_url(1), 62);
    assert_eq!(compute_max_url(6), 56800235584);
    assert_eq!(compute_max_url(10), 839299365868340224);
}

#[test]
fn gen_image_url_respects_bound() {
    assert_eq!(gen_image_url(1), ImageUrl(0));
    for _ in 0..100 {
        let url = gen_image_url(5);
        assert!(url.0 < 5);
    }
}
