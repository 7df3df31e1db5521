use mtsdf::error::ErrorKind;

#[test]
fn error_text_names_kind_and_platform_message() {
    let e = ErrorKind::Init.open("no video device".to_string());
    assert_eq!(e.message(), "error: failed to initialize SDL:\nno video device\n");
    assert_eq!(e.sdl_error(), "no video device");
}

#[test]
fn error_with_own_message() {
    let e = ErrorKind::new("bad font".to_string(), String::new());
    assert_eq!(e.message(), "error: bad font:\n\n");
    assert!(matches!(e.kind(), ErrorKind::Str(s) if s == "bad font"));
}

#[test]
fn headings_of_kinds() {
    assert_eq!(ErrorKind::TransferBufferMap.heading(), "failed to map transfer buffer to memory:");
    assert_eq!(ErrorKind::SubmitCommandBuffer.heading(), "failed to submit gpu command buffer:");
}
