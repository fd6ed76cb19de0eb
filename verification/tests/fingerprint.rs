use rust_chains::chain::Block;
use rust_chains::digest::hex_string;

fn sample_block() -> Block {
    Block {
        index: 3,
        timestamp: 1_234_567,
        data: "some payload".to_string(),
        previous_hash: "00ff00ff00ff00ff".to_string(),
        hash: String::new(),
    }
}

#[test]
fn fingerprint_is_deterministic() {
    let block = sample_block();
    assert_eq!(block.sign(), block.sign());
    let copy = block.clone();
    assert_eq!(copy.sign(), block.sign());
}

#[test]
fn fingerprint_ignores_the_stored_fingerprint() {
    let mut block = sample_block();
    let before = block.sign();
    block.hash = before.clone();
    assert_eq!(block.sign(), before);
    assert!(block.is_valid());
}

#[test]
fn changing_any_authenticated_field_changes_the_fingerprint() {
    let block = sample_block();
    let baseline = block.sign();

    let mut changed = block.clone();
    changed.index = 4;
    assert_ne!(changed.sign(), baseline);

    let mut changed = block.clone();
    changed.timestamp = 1_234_568;
    assert_ne!(changed.sign(), baseline);

    let mut changed = block.clone();
    changed.data = "some payloaD".to_string();
    assert_ne!(changed.sign(), baseline);

    let mut changed = block.clone();
    changed.previous_hash = "00ff00ff00ff00fe".to_string();
    assert_ne!(changed.sign(), baseline);
}

#[test]
fn fingerprint_handles_empty_and_unicode_payloads() {
    let mut block = sample_block();
    block.data = String::new();
    let empty = block.sign();
    assert_eq!(empty.len(), 16);
    assert_eq!(block.sign(), empty);

    block.data = "p\u{e4}yl\u{f6}ad \u{2713} \u{1f980}".to_string();
    let unicode = block.sign();
    assert_eq!(unicode.len(), 16);
    assert_eq!(block.sign(), unicode);
    assert_ne!(unicode, empty);
}

#[test]
fn payload_and_predecessor_are_kept_apart() {
    // the two texts are length-prefixed, so moving a character from one to
    // the other gives a different fingerprint
    let a = Block {
        index: 0,
        timestamp: 0,
        data: "ab".to_string(),
        previous_hash: "c".to_string(),
        hash: String::new(),
    };
    let b = Block {
        index: 0,
        timestamp: 0,
        data: "a".to_string(),
        previous_hash: "bc".to_string(),
        hash: String::new(),
    };
    assert_ne!(a.sign(), b.sign());
}

#[test]
fn hex_rendering_is_fixed_width() {
    assert_eq!(hex_string(0, 16), "0000000000000000");
    assert_eq!(hex_string(255, 4), "00ff");
    assert_eq!(hex_string(0xdead_beef, 8), "deadbeef");
    assert_eq!(hex_string(0x0123_4567_89ab_cdef, 16), "0123456789abcdef");
    assert_eq!(hex_string(9, 1), "9");
    assert_eq!(hex_string(10, 1), "a");
}
