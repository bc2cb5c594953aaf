use unshare_scrub::splice::scrub;
use unshare_scrub::supervisor::default_pattern;
use unshare_scrub::words::{bytes_from_words, merge_word, word_bytes, word_from_bytes, words_to_store};

/// Words that `bytes` would leave in `memory` from word 0, merged as the
/// write-back does.
fn write_back(memory: &[u64], bytes: &[u8]) -> Vec<u64> {
    let mut out = memory.to_vec();
    let mut i = 0usize;
    while 8 * i < bytes.len() {
        out[i] = merge_word(bytes, i, memory[i]);
        i += 1;
    }
    out
}

#[test]
fn word_bytes_little_endian() {
    assert_eq!(word_bytes(0x0807060504030201), vec![1, 2, 3, 4, 5, 6, 7, 8]);
    assert_eq!(word_from_bytes(&[1, 2, 3, 4, 5, 6, 7, 8]), 0x0807060504030201);
    assert_eq!(word_from_bytes(&word_bytes(u64::MAX - 5)), u64::MAX - 5);
}

#[test]
fn read_truncates_last_word() {
    let words = [0x0807060504030201u64, 0x100f0e0d0c0b0a09];
    assert_eq!(bytes_from_words(&words, 11), vec![1, 2, 3, 4, 5, 6, 7, 8, 9, 10, 11]);
    assert_eq!(bytes_from_words(&words, 16).len(), 16);
    assert_eq!(bytes_from_words(&words, 0), Vec::<u8>::new());
}

#[test]
fn merge_keeps_resident_high_bytes() {
    let bytes = [0xaau8, 0xbb, 0xcc];
    assert_eq!(merge_word(&bytes, 0, 0x1122334455667788), 0x1122334455ccbbaa);
    let full = [1u8, 2, 3, 4, 5, 6, 7, 8, 9];
    assert_eq!(merge_word(&full, 0, u64::MAX), 0x0807060504030201);
    assert_eq!(merge_word(&full, 1, 0xffff_ffff_ffff_ff00), 0xffff_ffff_ffff_ff09);
}

#[test]
fn read_then_write_back_is_identity() {
    let memory = [0x1122334455667788u64, 0x99aabbccddeeff00, 0x0123456789abcdef];
    for len in [0usize, 1, 7, 8, 9, 13, 16, 17, 23, 24] {
        let count = (len + 7) / 8;
        let bytes = bytes_from_words(&memory[..count], len);
        assert_eq!(write_back(&memory, &bytes), memory.to_vec());
    }
}

#[test]
fn scrub_across_word_boundary_keeps_neighbours() {
    // the pattern starts at odd offset 5 and spans words 0 to 2
    let mut text = b"echo --unshare-pid\0x".to_vec();
    let len = text.len();
    text.resize(24, 0x5a);
    let memory: Vec<u64> = (0..3).map(|i| word_from_bytes(&text[8 * i..8 * i + 8])).collect();
    let mut buf = bytes_from_words(&memory, len);
    assert_eq!(scrub(&mut buf, &default_pattern()), Some(5));
    assert_eq!(buf, b"echo x".to_vec());
    let after = write_back(&memory, &buf);
    let mut expected = b"echo x".to_vec();
    expected.extend_from_slice(&text[6..8]);
    assert_eq!(word_bytes(after[0]), expected);
    assert_eq!(after[1], memory[1]);
    assert_eq!(after[2], memory[2]);
}

#[test]
fn stored_words_of_read_bytes_are_the_words_read() {
    let memory = [0x1122334455667788u64, 0x99aabbccddeeff00, 0x0123456789abcdef];
    for len in [1usize, 5, 8, 12, 16, 21, 24] {
        let count = (len + 7) / 8;
        let bytes = bytes_from_words(&memory[..count], len);
        assert_eq!(words_to_store(&bytes, memory[count - 1]), memory[..count].to_vec());
    }
    assert!(words_to_store(&[], 7).is_empty());
    assert_eq!(words_to_store(&[0xaa], 0x1122334455667788), vec![0x11223344556677aa]);
}
