use soundboard::fingerprint::{fingerprint, same_fingerprint, DIGEST_LEN};

fn hex(digest: &[u8; 16]) -> String {
    let mut out = String::new();
    for byte in digest {
        out.push_str(&format!("{:02x}", byte));
    }
    out
}

#[test]
fn fingerprint_of_empty_input() {
    assert_eq!(hex(&fingerprint(b"")), "d41d8cd98f00b204e9800998ecf8427e");
}

#[test]
fn fingerprint_of_known_inputs() {
    assert_eq!(hex(&fingerprint(b"a")), "0cc175b9c0f1b6a831c399e269772661");
    assert_eq!(hex(&fingerprint(b"abc")), "900150983cd24fb0d6963f7d28e17f72");
    assert_eq!(
        hex(&fingerprint(b"abcdefghijklmnopqrstuvwxyz")),
        "c3fcd3d76192e4007dfb496cca67e13b"
    );
}

#[test]
fn fingerprint_is_not_the_input() {
    let input: [u8; 16] = [7; 16];
    let digest = fingerprint(&input);
    assert_ne!(digest, input);
    assert_eq!(digest.len(), DIGEST_LEN);
}

#[test]
fn fingerprint_agrees_with_the_md5_crate() {
    let data = b"welcome to the sound board";
    assert_eq!(fingerprint(data), md5::compute(data).0);
}

#[test]
fn fingerprint_is_deterministic_and_content_bound() {
    assert_eq!(fingerprint(b"same bytes"), fingerprint(b"same bytes"));
    assert_ne!(fingerprint(b"same bytes"), fingerprint(b"other bytes"));
}

#[test]
fn same_fingerprint_compares_all_bytes() {
    let a = fingerprint(b"x");
    let mut b = a;
    assert!(same_fingerprint(&a, &b));
    b[15] ^= 1;
    assert!(!same_fingerprint(&a, &b));
    b = a;
    b[0] ^= 0x80;
    assert!(!same_fingerprint(&a, &b));
}
