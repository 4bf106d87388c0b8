use cvm_gateway::aes::{
    __encrypt_no_auth, decrypt, decrypt_no_auth, encrypt, encrypt_no_auth, TagStorage,
};

fn hex(s: &str) -> Vec<u8> {
    (0..s.len() / 2).map(|i| u8::from_str_radix(&s[2 * i..2 * i + 2], 16).unwrap()).collect()
}

#[test]
fn gcm_round_trip_restores_plaintext() {
    let plain = vec![0xAAu8; 4096];
    let mut data = plain.clone();
    let mut tag = TagStorage { tag: [0u8; 16] };
    assert!(encrypt(&mut data, &mut tag));
    assert_ne!(data, plain);
    assert_ne!(tag.tag, [0u8; 16]);
    assert!(decrypt(&mut data, &mut tag));
    assert_eq!(data, plain);
}

#[test]
fn gcm_round_trip_for_many_lengths() {
    for len in [0usize, 1, 15, 16, 17, 511, 512, 4096, 65536] {
        let plain: Vec<u8> = (0..len).map(|i| (i * 7 + 3) as u8).collect();
        let mut data = plain.clone();
        let mut tag = TagStorage { tag: [0u8; 16] };
        assert!(encrypt(&mut data, &mut tag));
        assert_eq!(data.len(), len);
        assert!(decrypt(&mut data, &mut tag));
        assert_eq!(data, plain);
    }
}

#[test]
fn gcm_matches_known_answer_for_empty_message() {
    let mut data: Vec<u8> = Vec::new();
    let mut tag = TagStorage { tag: [0u8; 16] };
    assert!(encrypt(&mut data, &mut tag));
    assert_eq!(tag.tag.to_vec(), hex("530f8afbc74536b9a963b4f1c4cb738b"));
}

#[test]
fn gcm_matches_known_answer_for_zero_block() {
    let mut data = vec![0u8; 16];
    let mut tag = TagStorage { tag: [0u8; 16] };
    assert!(encrypt(&mut data, &mut tag));
    assert_eq!(data, hex("cea7403d4d606b6e074ec5d3baf39d18"));
    assert_eq!(tag.tag.to_vec(), hex("d0d1c8a799996bf0265b98b5d48ab919"));
}

#[test]
fn gcm_rejects_any_flipped_ciphertext_bit() {
    let plain = vec![0x5Au8; 64];
    let mut sealed = plain.clone();
    let mut tag = TagStorage { tag: [0u8; 16] };
    assert!(encrypt(&mut sealed, &mut tag));
    for byte in 0..sealed.len() {
        for bit in 0..8 {
            let mut data = sealed.clone();
            data[byte] ^= 1 << bit;
            let forged = data.clone();
            let mut t = tag;
            assert!(!decrypt(&mut data, &mut t));
            assert_eq!(data, forged);
            assert_eq!(t.tag, tag.tag);
        }
    }
}

#[test]
fn gcm_rejects_any_flipped_tag_bit() {
    let plain = vec![0x5Au8; 64];
    let mut sealed = plain.clone();
    let mut tag = TagStorage { tag: [0u8; 16] };
    assert!(encrypt(&mut sealed, &mut tag));
    for byte in 0..16 {
        for bit in 0..8 {
            let mut data = sealed.clone();
            let mut t = tag;
            t.tag[byte] ^= 1 << bit;
            assert!(!decrypt(&mut data, &mut t));
            assert_eq!(data, sealed);
        }
    }
}

#[test]
fn gcm_failure_leaves_data_alone() {
    let mut data = vec![1u8, 2, 3, 4];
    let mut tag = TagStorage { tag: [9u8; 16] };
    assert!(!decrypt(&mut data, &mut tag));
    assert_eq!(data, vec![1u8, 2, 3, 4]);
    assert_eq!(tag.tag, [9u8; 16]);
}

#[test]
fn ecb_matches_known_answer_for_zero_block() {
    let mut data = vec![0u8; 16];
    assert!(encrypt_no_auth(&mut data));
    assert_eq!(data, hex("66e94bd4ef8a2c3b884cfa59ca342b2e"));
    assert!(decrypt_no_auth(&mut data));
    assert_eq!(data, vec![0u8; 16]);
}

#[test]
fn ecb_treats_every_block_alone() {
    let mut data = vec![0u8; 48];
    assert!(encrypt_no_auth(&mut data));
    let block = hex("66e94bd4ef8a2c3b884cfa59ca342b2e");
    assert_eq!(&data[0..16], &block[..]);
    assert_eq!(&data[16..32], &block[..]);
    assert_eq!(&data[32..48], &block[..]);
}

#[test]
fn ecb_round_trip_both_ways() {
    let plain: Vec<u8> = (0..160u32).map(|i| (i * 13 + 1) as u8).collect();
    let mut data = plain.clone();
    assert!(encrypt_no_auth(&mut data));
    assert_ne!(data, plain);
    assert!(decrypt_no_auth(&mut data));
    assert_eq!(data, plain);
    assert!(decrypt_no_auth(&mut data));
    assert!(encrypt_no_auth(&mut data));
    assert_eq!(data, plain);
}

#[test]
fn ecb_refuses_partial_block() {
    for len in [1usize, 15, 17, 31] {
        let plain = vec![7u8; len];
        let mut data = plain.clone();
        assert!(!encrypt_no_auth(&mut data));
        assert_eq!(data, plain);
        assert!(!decrypt_no_auth(&mut data));
        assert_eq!(data, plain);
    }
}

#[test]
fn ecb_accepts_empty_buffer() {
    let mut data: Vec<u8> = Vec::new();
    assert!(encrypt_no_auth(&mut data));
    assert!(__encrypt_no_auth(&mut data, false));
    assert!(data.is_empty());
}

#[test]
fn ecb_direction_flag_selects_cipher() {
    let mut a = vec![3u8; 32];
    let mut b = vec![3u8; 32];
    assert!(__encrypt_no_auth(&mut a, true));
    assert!(encrypt_no_auth(&mut b));
    assert_eq!(a, b);
    let mut c = vec![3u8; 32];
    let mut d = vec![3u8; 32];
    assert!(__encrypt_no_auth(&mut c, false));
    assert!(decrypt_no_auth(&mut d));
    assert_eq!(c, d);
    assert_ne!(a, c);
}
