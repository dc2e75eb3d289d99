use diamond::bin_header::{binary_ir, detect_ir, get_ir, FileType};

#[test]
fn framed_ir_is_detected_as_binary() {
    let framed = binary_ir(&[1, 2, 3]);
    assert_eq!(framed, vec![b'E', b'L', b'S', b'I', b'E', 1, 2, 3]);
    assert_eq!(detect_ir(&framed), FileType::Binary);
}

#[test]
fn text_is_detected_as_text() {
    assert_eq!(detect_ir(b"let x = 5;"), FileType::Text);
    assert_eq!(detect_ir(b"ELSI!"), FileType::Text);
}

#[test]
fn get_ir_gives_back_what_was_framed() {
    let body = vec![9u8, 8, 7, 6];
    let framed = binary_ir(&body);
    assert_eq!(get_ir(&framed), &body[..]);
    assert_eq!(get_ir(&binary_ir(&[])), &[] as &[u8]);
}
