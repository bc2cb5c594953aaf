use unshare_scrub::splice::{find_subsequence, remove_range, scrub};
use unshare_scrub::supervisor::default_pattern;

#[test]
fn find_returns_leftmost_offset() {
    assert_eq!(find_subsequence(b"abcabc", b"bc"), Some(1));
    assert_eq!(find_subsequence(b"aaaa", b"aa"), Some(0));
    assert_eq!(find_subsequence(b"xyaab", b"ab"), Some(3));
}

#[test]
fn find_returns_none_when_absent() {
    assert_eq!(find_subsequence(b"hello world", b"xyz"), None);
    assert_eq!(find_subsequence(b"", b"a"), None);
    assert_eq!(find_subsequence(b"ab", b"abc"), None);
}

#[test]
fn find_at_start_and_end() {
    let p = default_pattern();
    let mut at_start = p.clone();
    at_start.extend_from_slice(b"tail");
    assert_eq!(find_subsequence(&at_start, &p), Some(0));
    let mut at_end = b"head".to_vec();
    at_end.extend_from_slice(&p);
    assert_eq!(find_subsequence(&at_end, &p), Some(4));
    assert_eq!(find_subsequence(&p, &p), Some(0));
}

#[test]
fn remove_range_cuts_region() {
    let mut b = b"0123456789".to_vec();
    remove_range(&mut b, 2..5);
    assert_eq!(b, b"0156789".to_vec());
    let mut b = b"0123".to_vec();
    remove_range(&mut b, 0..4);
    assert!(b.is_empty());
    let mut b = b"0123".to_vec();
    remove_range(&mut b, 2..2);
    assert_eq!(b, b"0123".to_vec());
    let mut b = b"0123".to_vec();
    remove_range(&mut b, 3..4);
    assert_eq!(b, b"012".to_vec());
}

#[test]
fn scrub_removes_flag_from_write() {
    let mut b = b"hello --unshare-pid\0world\0".to_vec();
    let before = b.len();
    let p = default_pattern();
    assert_eq!(scrub(&mut b, &p), Some(6));
    assert_eq!(b, b"hello world\0".to_vec());
    assert_eq!(before - b.len(), 14);
}

#[test]
fn scrub_scenario_hello_world() {
    let mut b = b"hello --unshare-pid world\0".to_vec();
    let p = default_pattern();
    // the pattern carries its NUL: only a NUL-terminated argument is scrubbed
    assert_eq!(scrub(&mut b, &p), None);
    let mut b = b"hello \0--unshare-pid\0world\0".to_vec();
    assert_eq!(scrub(&mut b, &p), Some(7));
    assert_eq!(b, b"hello \0world\0".to_vec());
}

#[test]
fn scrub_leaves_clean_buffer_unchanged() {
    let mut b = b"plain output\n".to_vec();
    let p = default_pattern();
    assert_eq!(scrub(&mut b, &p), None);
    assert_eq!(b, b"plain output\n".to_vec());
}

#[test]
fn scrub_at_start_and_end() {
    let p = default_pattern();
    let mut b = p.clone();
    b.extend_from_slice(b"rest");
    assert_eq!(scrub(&mut b, &p), Some(0));
    assert_eq!(b, b"rest".to_vec());
    let mut b = b"rest".to_vec();
    b.extend_from_slice(&p);
    assert_eq!(scrub(&mut b, &p), Some(4));
    assert_eq!(b, b"rest".to_vec());
}

#[test]
fn rescan_after_scrub_finds_nothing() {
    let p = default_pattern();
    let mut b = b"bwrap --unshare-pid\0--bind\0".to_vec();
    assert_eq!(scrub(&mut b, &p), Some(6));
    assert_eq!(find_subsequence(&b, &p), None);
    assert_eq!(scrub(&mut b, &p), None);
}

#[test]
fn default_pattern_bytes() {
    assert_eq!(default_pattern(), b"--unshare-pid\0".to_vec());
}

#[test]
fn rescan_after_scrub_can_meet_a_new_occurrence() {
    // cutting the leftmost occurrence joins its two neighbours into another one
    let p = default_pattern();
    let mut b = b"--unshare-pid--unshare-pid\0\0".to_vec();
    assert_eq!(scrub(&mut b, &p), Some(13));
    assert_eq!(b, p);
    assert_eq!(find_subsequence(&b, &p), Some(0));
}
