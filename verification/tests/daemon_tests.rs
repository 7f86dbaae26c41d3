use satty::configuration::Configuration;
use satty::daemon::{
    begin_request, complete_request, decode_payload, encode_payload, get_socket_path,
    socket_path_for_uid, DaemonClient, ResourcePlan, WindowSessionManager,
};
use satty::protocol::{DaemonRequest, ResponseStatus};

#[test]
fn test_socket_path_for_uid() {
    assert_eq!(socket_path_for_uid(1000), "/tmp/satty-1000.sock");
    assert_eq!(socket_path_for_uid(0), "/tmp/satty-0.sock");
}

#[test]
fn test_get_socket_path_names_this_user() {
    let path = get_socket_path();
    assert!(path.starts_with("/tmp/satty-"));
    assert!(path.ends_with(".sock"));
}

#[test]
fn test_client_remembers_socket_path() {
    let client = DaemonClient::new("/tmp/satty-7.sock");
    assert_eq!(client.socket_path(), "/tmp/satty-7.sock");
}

#[test]
fn test_frame_request_is_prefix_plus_body() {
    let req = DaemonRequest::new("/tmp/x.png");
    let body = req.to_bytes().unwrap();
    let frame = DaemonClient::frame_request(&req).unwrap();
    assert_eq!(frame.len(), 4 + body.len());
    assert_eq!(&frame[0..4], (body.len() as u32).to_le_bytes());
    assert_eq!(&frame[4..], &body[..]);
}

#[test]
fn test_payload_round_trip() {
    // The encoding visibly differs from the raw bytes and decodes back to
    // exactly them.
    let data = b"fake image data";
    let encoded = encode_payload(data);
    assert_ne!(encoded.as_bytes(), data);

    let mut req = DaemonRequest::new("-");
    req.stdin_data = Some(encoded);
    assert!(req.validate().is_ok());
    let decoded = decode_payload(&req).unwrap();
    assert_eq!(decoded, data);
}

#[test]
fn test_payload_decode_failure_is_an_error_response() {
    let mut req = DaemonRequest::new("-");
    req.stdin_data = Some("not base64 at all!!!".to_string());
    let result = decode_payload(&req);
    let resp = result.unwrap_err();
    assert_eq!(resp.status, ResponseStatus::Error);
    assert_eq!(resp.message.as_deref(), Some("Failed to decode base64 image data"));
}

#[test]
fn test_begin_request_routes_by_filename() {
    let file_req = DaemonRequest::new("/tmp/x.png");
    assert_eq!(begin_request(&file_req).unwrap(), ResourcePlan::FilePath);

    let mut stdin_req = DaemonRequest::new("-");
    stdin_req.stdin_data = Some(encode_payload(b"img"));
    assert_eq!(begin_request(&stdin_req).unwrap(), ResourcePlan::InlinePayload);
}

#[test]
fn test_begin_request_rejects_empty_filename() {
    // An empty filename fails validation before any window work happens.
    let req = DaemonRequest::new("");
    let resp = begin_request(&req).unwrap_err();
    assert_eq!(resp.status, ResponseStatus::Error);
    assert_eq!(resp.window_id, None);
    assert_eq!(resp.message.as_deref(), Some("Missing required field: filename"));
}

#[test]
fn test_begin_request_rejects_stdin_without_payload() {
    let req = DaemonRequest::new("-");
    let resp = begin_request(&req).unwrap_err();
    assert_eq!(resp.status, ResponseStatus::Error);
    assert_eq!(
        resp.message.as_deref(),
        Some("Missing required field: stdin_data (required when filename is '-')")
    );
}

#[test]
fn test_two_requests_get_window_ids_one_and_two() {
    // First accepted request answers window id 1, the second id 2.
    let global = Configuration::default();
    let mut manager = WindowSessionManager::new();

    let req = DaemonRequest::new("/tmp/x.png");
    let (resp, config) = complete_request(&mut manager, &req, Ok(()), &global);
    assert_eq!(resp.status, ResponseStatus::Success);
    assert_eq!(resp.window_id, Some(1));
    assert_eq!(resp.message, None);
    assert_eq!(config.as_ref().unwrap().input_filename, "/tmp/x.png");

    let second = DaemonRequest::new("/tmp/y.png");
    let (resp2, _) = complete_request(&mut manager, &second, Ok(()), &global);
    assert_eq!(resp2.status, ResponseStatus::Success);
    assert_eq!(resp2.window_id, Some(2));
}

#[test]
fn test_failed_resource_does_not_consume_an_id() {
    let global = Configuration::default();
    let mut manager = WindowSessionManager::new();

    let req = DaemonRequest::new("/tmp/missing.png");
    let (resp, config) = complete_request(
        &mut manager,
        &req,
        Err("File not found: /tmp/missing.png".to_string()),
        &global,
    );
    assert_eq!(resp.status, ResponseStatus::Error);
    assert_eq!(resp.window_id, None);
    assert_eq!(resp.message.as_deref(), Some("File not found: /tmp/missing.png"));
    assert!(config.is_none());

    // The next accepted request still gets id 1.
    let ok_req = DaemonRequest::new("/tmp/x.png");
    let (ok_resp, _) = complete_request(&mut manager, &ok_req, Ok(()), &global);
    assert_eq!(ok_resp.window_id, Some(1));
}
