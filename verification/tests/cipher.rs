use torrential::cipher::{encrypt_chunk, join_pieces, CipherStage, CIPHER_BATCH};

const KEY: [u8; 16] = [
    0x00, 0x11, 0x22, 0x33, 0x44, 0x55, 0x66, 0x77, 0x88, 0x99, 0xaa, 0xbb, 0xcc, 0xdd, 0xee, 0xff,
];
const IV: [u8; 16] = [
    0x0f, 0x0e, 0x0d, 0x0c, 0x0b, 0x0a, 0x09, 0x08, 0x07, 0x06, 0x05, 0x04, 0x03, 0x02, 0x01, 0x00,
];

fn hex(bytes: &[u8]) -> String {
    let mut text = String::new();
    for byte in bytes {
        text.push_str(&format!("{:02x}", byte));
    }
    text
}

#[test]
fn single_block_has_the_expected_ciphertext() {
    let body = encrypt_chunk(&KEY, &IV, b"HELLO WORLD!!!!!".to_vec());
    assert_eq!(hex(&body), "7a7b3a7d1c62710e02c98aab6eca029a");
}

#[test]
fn documented_vector_of_the_counter_mode() {
    let key = [0x42u8; 16];
    let iv = [0x24u8; 16];
    let body = encrypt_chunk(&key, &iv, b"hello world! this is my plaintext.".to_vec());
    assert_eq!(
        hex(&body),
        "3357121ebb5a29468bd861467596ce3da59bdee42dcc0614dea955368d8a5dc0cad4"
    );
}

#[test]
fn keystream_runs_over_block_boundaries() {
    let body = encrypt_chunk(&KEY, &IV, vec![0u8; 40]);
    assert_eq!(
        hex(&body),
        "323e7631534226415085ce8a4feb23bbce600bdff4a9274fd02c0ef57c541b31810c7979fdbff783"
    );
}

#[test]
fn ciphertext_is_as_long_as_plaintext() {
    for length in [0usize, 1, 15, 16, 17, 1024, 4097] {
        let body = encrypt_chunk(&KEY, &IV, vec![7u8; length]);
        assert_eq!(body.len(), length);
    }
}

#[test]
fn one_kibibyte_in_one_kibibyte_out() {
    let mut stage = CipherStage::new(KEY, IV);
    let emitted = stage.encrypt_group(&vec![vec![1u8; 512], vec![2u8; 512]]).unwrap();
    assert_eq!(emitted.len(), 1024);
    assert_eq!(stage.position(), 1024);
}

#[test]
fn decrypting_gives_the_plaintext_back() {
    let plaintext: Vec<u8> = (0..1000u32).map(|i| (i % 251) as u8).collect();
    let body = encrypt_chunk(&KEY, &IV, plaintext.clone());
    assert_ne!(body, plaintext);
    assert_eq!(encrypt_chunk(&KEY, &IV, body), plaintext);
}

#[test]
fn streaming_equals_offline_for_any_grouping() {
    let plaintext: Vec<u8> = (0..300u32).map(|i| (i * 7 % 256) as u8).collect();
    let offline = encrypt_chunk(&KEY, &IV, plaintext.clone());
    for size in [1usize, 3, 16, 17, 100, 300] {
        let mut stage = CipherStage::new(KEY, IV);
        let mut streamed = Vec::new();
        for group in plaintext.chunks(size) {
            let pieces: Vec<Vec<u8>> = group.chunks(5).map(|piece| piece.to_vec()).collect();
            streamed.extend(stage.encrypt_group(&pieces).unwrap());
        }
        assert_eq!(streamed, offline);
        assert_eq!(stage.position(), 300);
    }
}

#[test]
fn multi_file_chunk_decrypts_to_the_ranges_in_order() {
    let a = b"ABCDEF";
    let b = b"12345";
    let pieces = vec![a[2..5].to_vec(), b[0..5].to_vec()];
    assert_eq!(join_pieces(&pieces), b"CDE12345".to_vec());
    let iv = [7u8; 16];
    let mut stage = CipherStage::new(KEY, iv);
    let body = stage.encrypt_group(&pieces).unwrap();
    assert_eq!(hex(&body), "d6d3ccdf4120e73e");
    assert_eq!(encrypt_chunk(&KEY, &iv, body), b"CDE12345".to_vec());
}

#[test]
fn an_empty_group_emits_nothing() {
    let mut stage = CipherStage::new(KEY, IV);
    assert_eq!(stage.encrypt_group(&Vec::new()).unwrap(), Vec::<u8>::new());
    assert_eq!(stage.encrypt_group(&vec![Vec::new(), Vec::new()]).unwrap(), Vec::<u8>::new());
    assert_eq!(stage.position(), 0);
}

#[test]
fn batch_is_sixteen_pieces() {
    assert_eq!(CIPHER_BATCH, 16);
}
