use sarcent::utils::size::bytes_to_gb_string;

fn float_text(size: u64) -> String {
    format!("{:.2} GiB", size as f64 / (1024.0 * 1024.0 * 1024.0))
}

#[test]
fn gb_string_zero() {
    assert_eq!(bytes_to_gb_string(0), "0.00 GiB");
}

#[test]
fn gb_string_one_and_a_half_gib() {
    assert_eq!(bytes_to_gb_string(1610612736), "1.50 GiB");
}

#[test]
fn gb_string_matches_float_formatting() {
    let mut samples: Vec<u64> = vec![
        1, 1023, 1024, 5368709, 10737418, 134217728, 402653184, 671088640, 939524096,
        1073741824, 1073741823, 12345678901, 999999999999, 1 << 52, (1 << 53) - 1, 1 << 53,
        (1 << 53) + 1, (1 << 53) + 3, (1 << 54) + 2, (1 << 54) + 6, u64::MAX, u64::MAX - 1,
        u64::MAX / 3, 18014398509481985, 9223372036854775807, 9223372036854776833,
    ];
    for k in 0..200u64 {
        samples.push(k * 134217728);
        samples.push(k * 5368709 + 7);
        samples.push(k.wrapping_mul(0x9E37_79B9_7F4A_7C15));
    }
    for s in samples {
        assert_eq!(bytes_to_gb_string(s), float_text(s), "size {}", s);
    }
}
