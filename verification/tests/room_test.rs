use vc_core::room::{generate_room_code, validate_room_code};

#[test]
fn room_code_scenarios() {
    assert!(validate_room_code("AB12-XY90"));
    assert!(!validate_room_code("ab12-XY90"));
    assert!(!validate_room_code("AB12XY90"));
}

#[test]
fn room_code_rejects_other_shapes() {
    assert!(!validate_room_code(""));
    assert!(!validate_room_code("AB12-XY9"));
    assert!(!validate_room_code("AB12-XY900"));
    assert!(!validate_room_code("AB12_XY90"));
    assert!(!validate_room_code("AB12-XY9é"));
    assert!(!validate_room_code("AB 2-XY90"));
    assert!(!validate_room_code("-AB12XY90"));
}

#[test]
fn generated_codes_validate() {
    for _ in 0..50 {
        let code = generate_room_code();
        assert!(validate_room_code(&code), "generated code failed validation: {}", code);
        assert_eq!(code.len(), 9);
        assert_eq!(code.as_bytes()[4], b'-');
    }
}
