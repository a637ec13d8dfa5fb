use nvme::text::{size_bytes_2_size_human, to_hex_string, u64_to_dec_str};

#[test]
fn human_size_zero() {
    assert_eq!(size_bytes_2_size_human(0), "0.00B");
}

#[test]
fn human_size_one_kib() {
    assert_eq!(size_bytes_2_size_human(1024), "1.00KiB");
}

#[test]
fn human_size_one_and_a_half_kib() {
    assert_eq!(size_bytes_2_size_human(1536), "1.50KiB");
}

#[test]
fn human_size_below_one_kib_uses_bytes() {
    assert_eq!(size_bytes_2_size_human(1), "1.00B");
    assert_eq!(size_bytes_2_size_human(512), "512.00B");
    assert_eq!(size_bytes_2_size_human(1023), "1023.00B");
}

#[test]
fn human_size_larger_units() {
    assert_eq!(size_bytes_2_size_human(1048576), "1.00MiB");
    assert_eq!(size_bytes_2_size_human(1610612736), "1.50GiB");
    assert_eq!(size_bytes_2_size_human(1099511627776), "1.00TiB");
    assert_eq!(size_bytes_2_size_human(u64::MAX), "16.00EiB");
}

#[test]
fn hex_all_zero_is_empty() {
    assert_eq!(to_hex_string(&[]), "");
    assert_eq!(to_hex_string(&[0]), "");
    assert_eq!(to_hex_string(&[0; 16]), "");
}

#[test]
fn hex_nonzero_is_two_lowercase_digits_per_byte() {
    let buf = [0x00u8, 0x01, 0xff, 0xa5];
    let s = to_hex_string(&buf);
    assert_eq!(s, "0001ffa5");
    assert_eq!(s.len(), 2 * buf.len());
    assert!(s.chars().all(|c| c.is_ascii_hexdigit() && !c.is_ascii_uppercase()));
}

#[test]
fn hex_single_byte() {
    assert_eq!(to_hex_string(&[0x0a]), "0a");
}

#[test]
fn decimal_rendering() {
    assert_eq!(u64_to_dec_str(0), "0");
    assert_eq!(u64_to_dec_str(7), "7");
    assert_eq!(u64_to_dec_str(105), "105");
    assert_eq!(u64_to_dec_str(u64::MAX), "18446744073709551615");
}
