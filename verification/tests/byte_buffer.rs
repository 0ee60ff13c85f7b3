use ferric_rules_runtime::byte_buffer::ByteBuffer;
use ferric_rules_runtime::engine::FactAssertionResult;
use ferric_rules_runtime::host::FactHandle;

#[test]
fn characters_append_their_utf8_encoding() {
    let mut out = ByteBuffer::new();
    out.push('a');
    out.push('é');
    out.push('€');
    out.push('😀');
    assert_eq!(out.as_bytes(), "aé€😀".as_bytes());
    assert_eq!(out.len(), 1 + 2 + 3 + 4);
    for value in ['\0', '\u{7f}', '\u{80}', '\u{7ff}', '\u{800}', '\u{ffff}', '\u{10000}', '\u{10ffff}'] {
        let mut out = ByteBuffer::new();
        out.push(value);
        let mut expected = [0; 4];
        assert_eq!(out.as_bytes(), value.encode_utf8(&mut expected).as_bytes());
    }
}

#[test]
fn text_and_raw_bytes_append_in_order() {
    let mut out = ByteBuffer::new();
    out.push_str("héllo");
    out.push_bytes(b"\xff\x00");
    out.push_byte(b'!');
    out.push_repeated(b' ', 3);
    out.push_repeated(b'x', 0);
    assert_eq!(out.as_bytes(), b"h\xc3\xa9llo\xff\x00!   ");
}

#[test]
fn fact_handles_round_trip_their_numbers() {
    for raw in [0, 1, 42, u64::MAX] {
        let handle = FactHandle::from_raw(raw);
        assert_eq!(handle.as_raw(), raw);
        assert_eq!(FactHandle::from_raw(handle.as_raw()), handle);
    }
}

#[test]
fn assertion_results_carry_their_fact() {
    let handle = FactHandle::from_raw(7);
    let asserted = FactAssertionResult::Asserted(handle);
    let duplicate = FactAssertionResult::Duplicate(handle);
    assert_eq!(asserted.fact_id(), handle);
    assert_eq!(duplicate.fact_id(), handle);
    assert!(asserted.was_asserted());
    assert!(!duplicate.was_asserted());
}
