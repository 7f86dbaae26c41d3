use base64::Engine;
use satty::milli::Milli;
use satty::protocol::{
    read_message, write_message, DaemonRequest, DaemonResponse, ProtocolError, ResponseStatus,
    MAX_MESSAGE_SIZE,
};

#[test]
fn test_request_minimal() {
    let req = DaemonRequest::new("/tmp/test.png");
    assert_eq!(req.filename, "/tmp/test.png");
    assert!(req.validate().is_ok());
}

#[test]
fn test_request_full() {
    let req = DaemonRequest {
        filename: "/tmp/test.png".into(),
        output_filename: Some("/tmp/output.png".into()),
        copy_command: Some("wl-copy".into()),
        initial_tool: Some("arrow".into()),
        fullscreen: Some(true),
        early_exit: Some(false),
        corner_roundness: Some(Milli(12000)),
        annotation_size_factor: Some(Milli(1500)),
        default_hide_toolbars: Some(false),
        no_window_decoration: Some(false),
        stdin_data: None,
    };
    assert!(req.validate().is_ok());

    let bytes = req.to_bytes().unwrap();
    let parsed = DaemonRequest::from_bytes(&bytes).unwrap();
    assert_eq!(parsed.filename, req.filename);
    assert_eq!(parsed.output_filename, req.output_filename);
}

#[test]
fn test_request_empty_filename() {
    let req = DaemonRequest::new("");
    assert!(matches!(
        req.validate(),
        Err(ProtocolError::MissingField("filename"))
    ));
}

#[test]
fn test_request_stdin_without_data() {
    let req = DaemonRequest::new("-");
    assert!(req.validate().is_err());
}

#[test]
fn test_request_stdin_with_data() {
    let mut req = DaemonRequest::new("-");
    req.stdin_data = Some(base64::engine::general_purpose::STANDARD.encode(b"fake image data"));
    assert!(req.validate().is_ok());
}

#[test]
fn test_response_ok() {
    let resp = DaemonResponse::ok(42);
    assert_eq!(resp.status, ResponseStatus::Success);
    assert_eq!(resp.window_id, Some(42));

    let bytes = resp.to_bytes().unwrap();
    let parsed = DaemonResponse::from_bytes(&bytes).unwrap();
    assert_eq!(parsed.status, ResponseStatus::Success);
    assert_eq!(parsed.window_id, Some(42));
}

#[test]
fn test_response_error() {
    let resp = DaemonResponse::error("File not found");
    assert_eq!(resp.status, ResponseStatus::Error);
    assert_eq!(resp.message, Some("File not found".into()));
}

#[test]
fn test_message_framing() {
    let data = b"hello world";
    let mut buffer = Vec::new();
    write_message(&mut buffer, data).unwrap();

    let mut pos = 0;
    let read_data = read_message(&buffer, &mut pos).unwrap();
    assert_eq!(read_data, data);
}

#[test]
fn test_message_too_large() {
    let data = vec![0u8; MAX_MESSAGE_SIZE + 1];
    let mut buffer = Vec::new();
    assert!(matches!(
        write_message(&mut buffer, &data),
        Err(ProtocolError::MessageTooLarge(_))
    ));
}

#[test]
fn test_json_with_unknown_fields() {
    // Unknown fields should be ignored (forward compatibility)
    let json = r#"{"filename": "/tmp/test.png", "unknown_field": "value"}"#;
    let req = DaemonRequest::from_bytes(json.as_bytes()).unwrap();
    assert_eq!(req.filename, "/tmp/test.png");
}

#[test]
fn test_unicode_paths() {
    let req = DaemonRequest::new("/tmp/скриншот.png");
    assert!(req.validate().is_ok());

    let bytes = req.to_bytes().unwrap();
    let parsed = DaemonRequest::from_bytes(&bytes).unwrap();
    assert_eq!(parsed.filename, "/tmp/скриншот.png");
}

#[test]
fn test_request_serialization_roundtrip() {
    let request = DaemonRequest {
        filename: "/tmp/image.png".into(),
        output_filename: Some("/tmp/output.png".into()),
        copy_command: Some("wl-copy".into()),
        initial_tool: Some("arrow".into()),
        fullscreen: Some(true),
        early_exit: Some(false),
        corner_roundness: Some(Milli(15000)),
        annotation_size_factor: Some(Milli(2000)),
        default_hide_toolbars: Some(true),
        no_window_decoration: Some(false),
        stdin_data: None,
    };

    let bytes = request.to_bytes().unwrap();
    let parsed = DaemonRequest::from_bytes(&bytes).unwrap();

    assert_eq!(parsed.filename, request.filename);
    assert_eq!(parsed.output_filename, request.output_filename);
    assert_eq!(parsed.copy_command, request.copy_command);
    assert_eq!(parsed.initial_tool, request.initial_tool);
    assert_eq!(parsed.fullscreen, request.fullscreen);
    assert_eq!(parsed.early_exit, request.early_exit);
    assert_eq!(parsed.corner_roundness, request.corner_roundness);
    assert_eq!(
        parsed.annotation_size_factor,
        request.annotation_size_factor
    );
    assert_eq!(parsed.default_hide_toolbars, request.default_hide_toolbars);
    assert_eq!(parsed.no_window_decoration, request.no_window_decoration);
}

#[test]
fn test_response_serialization_roundtrip() {
    // Test Ok response
    let ok_response = DaemonResponse::ok(42);
    let bytes = ok_response.to_bytes().unwrap();
    let parsed = DaemonResponse::from_bytes(&bytes).unwrap();
    assert_eq!(parsed.status, ResponseStatus::Success);
    assert_eq!(parsed.window_id, Some(42));
    assert!(parsed.message.is_none());

    // Test Error response
    let err_response = DaemonResponse::error("Something went wrong");
    let bytes = err_response.to_bytes().unwrap();
    let parsed = DaemonResponse::from_bytes(&bytes).unwrap();
    assert_eq!(parsed.status, ResponseStatus::Error);
    assert!(parsed.window_id.is_none());
    assert_eq!(parsed.message, Some("Something went wrong".into()));
}

#[test]
fn test_invalid_json() {
    let invalid_json = b"not valid json at all";
    let result = DaemonRequest::from_bytes(invalid_json);
    assert!(matches!(result, Err(ProtocolError::InvalidJson)));
}

#[test]
fn test_incomplete_json() {
    let incomplete_json = b"{\"filename\": \"/tmp/test.png\"";
    let result = DaemonRequest::from_bytes(incomplete_json);
    assert!(matches!(result, Err(ProtocolError::InvalidJson)));
}

#[test]
fn test_json_missing_required_field() {
    let json = b"{}";
    let result = DaemonRequest::from_bytes(json);
    // deserialization must fail without a filename
    assert!(result.is_err());
}

#[test]
fn test_json_with_null_optional_fields() {
    let json = r#"{
        "filename": "/tmp/test.png",
        "output_filename": null,
        "copy_command": null
    }"#;
    let result = DaemonRequest::from_bytes(json.as_bytes());
    assert!(result.is_ok());
    let req = result.unwrap();
    assert_eq!(req.filename, "/tmp/test.png");
    assert!(req.output_filename.is_none());
}

#[test]
fn test_message_framing_multiple() {
    // Test multiple messages in sequence
    let mut buffer = Vec::new();

    let data1 = b"first message";
    let data2 = b"second message with more data";
    let data3 = b"third";

    write_message(&mut buffer, data1).unwrap();
    write_message(&mut buffer, data2).unwrap();
    write_message(&mut buffer, data3).unwrap();

    let mut pos = 0;
    assert_eq!(read_message(&buffer, &mut pos).unwrap(), data1);
    assert_eq!(read_message(&buffer, &mut pos).unwrap(), data2);
    assert_eq!(read_message(&buffer, &mut pos).unwrap(), data3);
}

#[test]
fn test_message_framing_empty() {
    let mut buffer = Vec::new();
    write_message(&mut buffer, b"").unwrap();

    let mut pos = 0;
    let result = read_message(&buffer, &mut pos).unwrap();
    assert!(result.is_empty());
}

#[test]
fn test_special_characters_in_paths() {
    let special_paths = [
        "/tmp/file with spaces.png",
        "/tmp/file\twith\ttabs.png",
        "/tmp/file'with'quotes.png",
        "/tmp/file\"with\"doublequotes.png",
        "/tmp/файл.png",
        "/tmp/文件.png",
        "/tmp/ファイル.png",
    ];

    for path in special_paths {
        let req = DaemonRequest::new(path);
        let bytes = req.to_bytes().unwrap();
        let parsed = DaemonRequest::from_bytes(&bytes).unwrap();
        assert_eq!(parsed.filename, path, "Failed for path: {}", path);
    }
}

#[test]
fn test_large_stdin_data() {
    // Test with moderately large base64 data (1MB)
    let image_data = vec![0u8; 1024 * 1024];
    let encoded = base64::engine::general_purpose::STANDARD.encode(&image_data);

    let mut req = DaemonRequest::new("-");
    req.stdin_data = Some(encoded);

    let bytes = req.to_bytes().unwrap();
    assert!(bytes.len() < MAX_MESSAGE_SIZE);

    let parsed = DaemonRequest::from_bytes(&bytes).unwrap();
    assert!(parsed.stdin_data.is_some());
}

#[test]
fn test_connection_closed_on_empty_read() {
    let empty: &[u8] = &[];
    let mut pos = 0;
    let result = read_message(empty, &mut pos);
    assert!(matches!(result, Err(ProtocolError::ConnectionClosed)));
}

#[test]
fn test_oversize_rejected_identically() {
    // A declared length of cap + 1 draws the same error, with the same
    // length, whether it is refused when writing or when reading.
    let too_long = (MAX_MESSAGE_SIZE + 1) as u32;
    let mut stream = Vec::new();
    stream.extend_from_slice(&too_long.to_le_bytes());
    stream.extend_from_slice(b"xyz");
    let mut pos = 0;
    let read_err = read_message(&stream, &mut pos);
    assert!(matches!(
        read_err,
        Err(ProtocolError::MessageTooLarge(n)) if n == MAX_MESSAGE_SIZE + 1
    ));

    let body = vec![0u8; MAX_MESSAGE_SIZE + 1];
    let mut buffer = Vec::new();
    let write_err = write_message(&mut buffer, &body);
    assert!(matches!(
        write_err,
        Err(ProtocolError::MessageTooLarge(n)) if n == MAX_MESSAGE_SIZE + 1
    ));
    assert!(buffer.is_empty());
}

#[test]
fn test_milli_fields_exact_on_the_wire() {
    let mut req = DaemonRequest::new("/tmp/a.png");
    req.corner_roundness = Some(Milli(12345));
    req.annotation_size_factor = Some(Milli(1000));
    let bytes = req.to_bytes().unwrap();
    let text = String::from_utf8(bytes.clone()).unwrap();
    assert!(text.contains("\"corner_roundness\":12.345"));
    assert!(text.contains("\"annotation_size_factor\":1.000"));

    let parsed = DaemonRequest::from_bytes(&bytes).unwrap();
    assert_eq!(parsed.corner_roundness, Some(Milli(12345)));
    assert_eq!(parsed.annotation_size_factor, Some(Milli(1000)));
}

#[test]
fn test_decoder_accepts_spaced_json_and_any_order() {
    let json = "{ \"fullscreen\" : true , \"filename\" : \"/tmp/x.png\" }";
    let req = DaemonRequest::from_bytes(json.as_bytes()).unwrap();
    assert_eq!(req.filename, "/tmp/x.png");
    assert_eq!(req.fullscreen, Some(true));
}

#[test]
fn test_decoder_reads_escapes() {
    let json = "{\"filename\":\"\\u0041\\n\\\"quoted\\\"\"}";
    let req = DaemonRequest::from_bytes(json.as_bytes()).unwrap();
    assert_eq!(req.filename, "A\n\"quoted\"");
}

#[test]
fn test_response_window_id_max_roundtrip() {
    let resp = DaemonResponse::ok(u64::MAX);
    let bytes = resp.to_bytes().unwrap();
    let parsed = DaemonResponse::from_bytes(&bytes).unwrap();
    assert_eq!(parsed.window_id, Some(u64::MAX));
}

#[test]
fn test_protocol_error_messages() {
    assert_eq!(
        ProtocolError::MissingField("filename").message(),
        "Missing required field: filename"
    );
    assert_eq!(ProtocolError::ConnectionClosed.message(), "Connection closed");
    assert_eq!(
        ProtocolError::MessageTooLarge(16777217).message(),
        "Message too large: 16777217 bytes (max 16777216)"
    );
}
