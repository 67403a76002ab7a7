use magicrune::hash::{compute_msg_id, hex_encode, run_id, sha256_bytes, sha256_hex};

#[test]
fn sha256_of_empty_input() {
    assert_eq!(
        sha256_hex(b""),
        "e3b0c44298fc1c149afbf4c8996fb92427ae41e4649b934ca495991b7852b855"
    );
}

#[test]
fn sha256_of_abc() {
    assert_eq!(
        sha256_hex(b"abc"),
        "ba7816bf8f01cfea414140de5dae2223b00361a396177a9cb410ff61f20015ad"
    );
}

#[test]
fn sha256_of_two_blocks() {
    assert_eq!(
        sha256_hex(b"abcdbcdecdefdefgefghfghighijhijkijkljklmklmnlmnomnopnopq"),
        "248d6a61d20638b8e5c026930c3e6039a33ce45964ff2167f6ecedd419db06c1"
    );
}

#[test]
fn sha256_at_padding_boundaries() {
    for n in [55usize, 56, 57, 63, 64, 65, 119, 120, 128] {
        let data = vec![0x61u8; n];
        assert_eq!(sha256_hex(&data), compute_msg_id(&data), "length {}", n);
        assert_eq!(sha256_bytes(&data).len(), 32);
    }
}

#[test]
fn hex_encode_is_lower_case_and_two_digits_per_byte() {
    assert_eq!(hex_encode(&[0x00, 0x0f, 0xa0, 0xff]), "000fa0ff");
    assert_eq!(hex_encode(&[]), "");
}

#[test]
fn test_compute_msg_id() {
    let payload1 = b"test payload";
    let payload2 = b"test payload";
    let payload3 = b"different payload";

    let id1 = compute_msg_id(payload1);
    let id2 = compute_msg_id(payload2);
    let id3 = compute_msg_id(payload3);

    assert_eq!(id1, id2);
    assert_ne!(id1, id3);
    assert!(id1.chars().all(|c| c.is_ascii_hexdigit()));
}

#[test]
fn test_compute_msg_id_empty() {
    let id = compute_msg_id(b"");
    assert!(!id.is_empty());
    assert!(id.chars().all(|c| c.is_ascii_hexdigit()));
}

#[test]
fn compute_msg_id_is_the_sha256_of_the_payload() {
    assert_eq!(
        compute_msg_id(b"abc"),
        "ba7816bf8f01cfea414140de5dae2223b00361a396177a9cb410ff61f20015ad"
    );
}

#[test]
fn run_id_has_prefix_and_digest() {
    let id = run_id(b"abc", None);
    let mut all = b"abc".to_vec();
    all.extend_from_slice(&0u64.to_le_bytes());
    assert_eq!(id, format!("r_{}", sha256_hex(&all)));
    assert_eq!(id.len(), 66);
}

#[test]
fn run_id_same_request_and_seed_is_stable() {
    assert_eq!(run_id(b"{\"cmd\":\"echo hi\"}", Some(42)), run_id(b"{\"cmd\":\"echo hi\"}", Some(42)));
    assert_ne!(run_id(b"{\"cmd\":\"echo hi\"}", Some(42)), run_id(b"{\"cmd\":\"echo hi\"}", Some(43)));
    assert_eq!(run_id(b"x", None), run_id(b"x", Some(0)));
}
