use spot_tty::encoding::{b64, cover_cache_file_name};

#[test]
fn b64_matches_the_standard_alphabet_and_padding() {
    assert_eq!(b64(b""), "");
    assert_eq!(b64(b"M"), "TQ==");
    assert_eq!(b64(b"Ma"), "TWE=");
    assert_eq!(b64(b"Man"), "TWFu");
    assert_eq!(b64(b"any carnal pleasure."), "YW55IGNhcm5hbCBwbGVhc3VyZS4=");
    assert_eq!(b64(&[0xff, 0xfe, 0xfd]), "//79");
}

fn djb2(s: &str) -> u64 {
    let mut h: u64 = 5381;
    for b in s.as_bytes() {
        h = h.wrapping_mul(33).wrapping_add(*b as u64);
    }
    h
}

#[test]
fn cover_cache_file_name_is_the_hash_in_hex() {
    let url = "https://i.scdn.co/image/ab67616d00001e02";
    assert_eq!(cover_cache_file_name(url), format!("{:016x}.bin", djb2(url)));
    assert_eq!(cover_cache_file_name(""), "0000000000001505.bin");
    assert_ne!(cover_cache_file_name("a"), cover_cache_file_name("b"));
}
