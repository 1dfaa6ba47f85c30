use watchparty::clock::{now_micros, now_secs, unix_micros, unix_secs};
use watchparty::ids::{hex_lower, new_id, new_peer_id, video_seed_bytes};

#[test]
fn hex_is_two_lowercase_digits_per_byte() {
    assert_eq!(hex_lower(&[0x00, 0x0f, 0xa0, 0xff, 0x3c]), "000fa0ff3c");
    assert_eq!(hex_lower(&[]), "");
}

#[test]
fn ids_from_random_bytes() {
    let b = [0xde, 0xad, 0xbe, 0xef, 0, 1, 2, 3, 4, 5, 6, 7, 8, 9, 10, 11];
    assert_eq!(new_id(Some(b), 1), "deadbeef000102030405060708090a0b");
    assert_eq!(new_peer_id(Some([1, 2, 3, 4, 5, 6, 7, 0xff])), "01020304050607ff");
}

#[test]
fn different_bytes_give_different_ids() {
    assert_ne!(hex_lower(&[0x01, 0x10]), hex_lower(&[0x10, 0x01]));
    assert_ne!(hex_lower(&[0xab]), hex_lower(&[0xba]));
}

#[test]
fn video_fallback_seed_mixes_clock_and_pid() {
    let v = video_seed_bytes(0x0102030405060708, 0x0a0b0c0d);
    assert_eq!(v, vec![8, 7, 6, 5, 4, 3, 2, 1, 0x0d, 0x0c, 0x0b, 0x0a, 0, 0, 0, 0]);
    let neg = video_seed_bytes(-1, 0);
    assert_eq!(neg, vec![0xff; 16]);
    let seed: u128 = (1_700_000_000i64 as u128) ^ ((4242u32 as u128) << 64);
    assert_eq!(video_seed_bytes(1_700_000_000, 4242), seed.to_le_bytes().to_vec());
}

#[test]
fn fallback_ids_have_the_right_shape() {
    let id = new_id(None, 77);
    assert_eq!(id.len(), 32);
    assert!(id.chars().all(|c| c.is_ascii_hexdigit() && !c.is_ascii_uppercase()));
    assert_eq!(&id[16..], "4d00000000000000");
    let pid = new_peer_id(None);
    assert_eq!(pid.len(), 16);
    assert!(pid.chars().all(|c| c.is_ascii_hexdigit() && !c.is_ascii_uppercase()));
}

#[test]
fn clock_conversions() {
    assert_eq!(unix_secs(Some(1_700_000_000)), 1_700_000_000);
    assert_eq!(unix_secs(None), 0);
    assert_eq!(unix_secs(Some(u64::MAX)), -1);
    assert_eq!(unix_micros(Some(5)), 5);
    assert_eq!(unix_micros(None), 0);
    assert_eq!(unix_micros(Some(u128::MAX)), i64::MAX);
    assert!(now_secs() > 1_600_000_000);
    assert!(now_micros() > 1_600_000_000_000_000);
}
