//! Message framing for daemon-client communication.
//!
//! Every message on the wire is a 4-byte little-endian length prefix
//! followed by exactly that many payload bytes. The payload itself is a
//! JSON document (see the `wire` module); the cap of 16 MiB leaves room
//! for base64-encoded images sent through stdin.

use vstd::prelude::*;
use vstd::bytes::{spec_u32_to_le_bytes, spec_u32_from_le_bytes, u32_to_le_bytes, u32_from_le_bytes, lemma_auto_spec_u32_to_from_le_bytes};
use vstd::slice::{slice_subrange, slice_to_vec};
use crate::milli::Milli;
use crate::wire::str_eq;

verus! {

/// Maximum encoded message size in bytes (16 MiB).
pub const MAX_MESSAGE_SIZE: usize = 16 * 1024 * 1024;

/// Size of the length prefix in bytes.
pub const LENGTH_PREFIX_SIZE: usize = 4;

/// Errors of the wire protocol.
#[derive(Debug)]
pub enum ProtocolError {
    /// A message body would exceed [`MAX_MESSAGE_SIZE`]; carries the
    /// offending length.
    MessageTooLarge(usize),
    /// The payload is not a well-formed JSON document of the expected shape.
    InvalidJson,
    /// The payload decoded structurally but a required field is absent.
    MissingField(&'static str),
    /// The peer closed the stream before a full length prefix arrived.
    ConnectionClosed,
    /// The stream ended or failed inside a message body.
    Io,
}

impl ProtocolError {
    /// A human-readable description, as an error report to the client.
    pub fn message(&self) -> (r: String)
        ensures
            match self {
                ProtocolError::MessageTooLarge(n) => r@ == "Message too large: "@
                    + crate::wire::spec_u64_chars(*n as nat) + " bytes (max 16777216)"@,
                ProtocolError::InvalidJson => r@ == "Invalid JSON"@,
                ProtocolError::MissingField(f) => r@ == "Missing required field: "@ + f@,
                ProtocolError::ConnectionClosed => r@ == "Connection closed"@,
                ProtocolError::Io => r@ == "IO error"@,
            },
    {
        match self {
            ProtocolError::MessageTooLarge(n) => {
                let mut s = "Message too large: ".to_owned();
                s.append(crate::wire::u64_string(*n as u64).as_str());
                s.append(" bytes (max 16777216)");
                s
            },
            ProtocolError::InvalidJson => "Invalid JSON".to_owned(),
            ProtocolError::MissingField(f) => {
                let mut s = "Missing required field: ".to_owned();
                s.append(f);
                s
            },
            ProtocolError::ConnectionClosed => "Connection closed".to_owned(),
            ProtocolError::Io => "IO error".to_owned(),
        }
    }
}

/// A request sent by a client to the daemon: the image to annotate and
/// optional per-window overrides. A filename of `"-"` is the stdin
/// sentinel; the image then travels base64-encoded in `stdin_data`.
#[derive(Debug, Clone, PartialEq)]
pub struct DaemonRequest {
    /// Path to the image file, or `"-"` for inline data.
    pub filename: String,
    /// Where a save action writes its output.
    pub output_filename: Option<String>,
    /// Command used to copy to the clipboard.
    pub copy_command: Option<String>,
    /// Name of the tool selected at startup.
    pub initial_tool: Option<String>,
    /// Start in fullscreen mode.
    pub fullscreen: Option<bool>,
    /// Exit after the first save or copy action.
    pub early_exit: Option<bool>,
    /// Corner roundness for shapes, in thousandths.
    pub corner_roundness: Option<Milli>,
    /// Scale factor for annotations, in thousandths.
    pub annotation_size_factor: Option<Milli>,
    /// Hide the toolbars initially.
    pub default_hide_toolbars: Option<bool>,
    /// Present the window without decoration.
    pub no_window_decoration: Option<bool>,
    /// Base64-encoded image bytes; meaningful only with the stdin sentinel.
    pub stdin_data: Option<String>,
}

/// The mathematical content of a request: strings as character sequences,
/// fixed-point values as thousandths.
pub ghost struct DaemonRequestView {
    pub filename: Seq<char>,
    pub output_filename: Option<Seq<char>>,
    pub copy_command: Option<Seq<char>>,
    pub initial_tool: Option<Seq<char>>,
    pub fullscreen: Option<bool>,
    pub early_exit: Option<bool>,
    pub corner_roundness: Option<u32>,
    pub annotation_size_factor: Option<u32>,
    pub default_hide_toolbars: Option<bool>,
    pub no_window_decoration: Option<bool>,
    pub stdin_data: Option<Seq<char>>,
}

pub open spec fn view_opt_string(o: Option<String>) -> Option<Seq<char>> {
    match o {
        Some(s) => Some(s@),
        None => None,
    }
}

pub open spec fn view_opt_milli(o: Option<Milli>) -> Option<u32> {
    match o {
        Some(m) => Some(m.0),
        None => None,
    }
}

impl View for DaemonRequest {
    type V = DaemonRequestView;

    open spec fn view(&self) -> DaemonRequestView {
        DaemonRequestView {
            filename: self.filename@,
            output_filename: view_opt_string(self.output_filename),
            copy_command: view_opt_string(self.copy_command),
            initial_tool: view_opt_string(self.initial_tool),
            fullscreen: self.fullscreen,
            early_exit: self.early_exit,
            corner_roundness: view_opt_milli(self.corner_roundness),
            annotation_size_factor: view_opt_milli(self.annotation_size_factor),
            default_hide_toolbars: self.default_hide_toolbars,
            no_window_decoration: self.no_window_decoration,
            stdin_data: view_opt_string(self.stdin_data),
        }
    }
}

/// A request is semantically valid when it names an input, and, if it names
/// the stdin sentinel, carries the inline data the sentinel promises.
pub open spec fn spec_request_valid(r: DaemonRequestView) -> bool {
    &&& r.filename.len() > 0
    &&& (r.filename == "-"@ ==> r.stdin_data is Some)
}

impl DaemonRequest {
    /// A request for the given input with every override left to the
    /// daemon's defaults.
    pub fn new(filename: &str) -> (r: Self)
        ensures
            r@.filename == filename@,
            r@.output_filename is None,
            r@.copy_command is None,
            r@.initial_tool is None,
            r@.fullscreen is None,
            r@.early_exit is None,
            r@.corner_roundness is None,
            r@.annotation_size_factor is None,
            r@.default_hide_toolbars is None,
            r@.no_window_decoration is None,
            r@.stdin_data is None,
    {
        DaemonRequest {
            filename: filename.to_owned(),
            output_filename: None,
            copy_command: None,
            initial_tool: None,
            fullscreen: None,
            early_exit: None,
            corner_roundness: None,
            annotation_size_factor: None,
            default_hide_toolbars: None,
            no_window_decoration: None,
            stdin_data: None,
        }
    }

    /// Check semantic validity: a `filename` must be present, and the stdin
    /// sentinel demands `stdin_data`. Succeeds exactly on valid requests;
    /// `MissingField` names what is absent.
    pub fn validate(&self) -> (r: Result<(), ProtocolError>)
        ensures
            r is Ok <==> spec_request_valid(self@),
            self@.filename.len() == 0 ==> (r matches Err(ProtocolError::MissingField(f))
                && f@ == "filename"@),
            self@.filename.len() > 0 && self@.filename == "-"@ && self@.stdin_data is None
                ==> (r matches Err(ProtocolError::MissingField(f))
                && f@ == "stdin_data (required when filename is '-')"@),
            self@.filename == "-"@ ==> (r is Ok <==> self@.stdin_data is Some),
    {
        proof {
            reveal_strlit("-");
        }
        if self.filename.as_str().is_empty() {
            return Err(ProtocolError::MissingField("filename"));
        }
        if str_eq(self.filename.as_str(), "-") && self.stdin_data.is_none() {
            return Err(ProtocolError::MissingField("stdin_data (required when filename is '-')"));
        }
        Ok(())
    }
}

/// Whether a response reports success or failure.
#[derive(Debug, Clone, Copy, PartialEq, Eq, Structural)]
pub enum ResponseStatus {
    /// The request was accepted and a window will open.
    Success,
    /// The request was rejected; the message says why.
    Error,
}

/// A response sent by the daemon: on success the identifier of the window
/// being opened, on failure a message.
#[derive(Debug, Clone, PartialEq)]
pub struct DaemonResponse {
    pub status: ResponseStatus,
    /// Present exactly on success.
    pub window_id: Option<u64>,
    /// Present exactly on failure.
    pub message: Option<String>,
}

/// The mathematical content of a response.
pub ghost struct DaemonResponseView {
    pub status: ResponseStatus,
    pub window_id: Option<u64>,
    pub message: Option<Seq<char>>,
}

impl View for DaemonResponse {
    type V = DaemonResponseView;

    open spec fn view(&self) -> DaemonResponseView {
        DaemonResponseView {
            status: self.status,
            window_id: self.window_id,
            message: view_opt_string(self.message),
        }
    }
}

impl DaemonResponse {
    /// A success response carrying the new window's identifier.
    pub fn ok(window_id: u64) -> (r: Self)
        ensures
            r@.status == ResponseStatus::Success,
            r@.window_id == Some(window_id),
            r@.message is None,
    {
        DaemonResponse { status: ResponseStatus::Success, window_id: Some(window_id), message: None }
    }

    /// An error response carrying a message for the client.
    pub fn error(message: &str) -> (r: Self)
        ensures
            r@.status == ResponseStatus::Error,
            r@.window_id is None,
            r@.message == Some(message@),
    {
        DaemonResponse {
            status: ResponseStatus::Error,
            window_id: None,
            message: Some(message.to_owned()),
        }
    }
}

/// A framed message: length prefix followed by the payload bytes.
pub open spec fn spec_frame(data: Seq<u8>) -> Seq<u8> {
    spec_u32_to_le_bytes(data.len() as u32) + data
}

/// What `read_message` returns and how far it advances the cursor,
/// as a function of the input bytes and the starting position.
pub open spec fn spec_read_message(input: Seq<u8>, pos: int) -> (Result<Seq<u8>, ProtocolError>, int) {
    if input.len() - pos < 4 {
        (Err(ProtocolError::ConnectionClosed), pos)
    } else {
        let len = spec_u32_from_le_bytes(input.subrange(pos, pos + 4)) as int;
        if len > MAX_MESSAGE_SIZE {
            (Err(ProtocolError::MessageTooLarge(len as usize)), pos + 4)
        } else if input.len() - (pos + 4) < len {
            (Err(ProtocolError::Io), pos + 4)
        } else {
            (Ok(input.subrange(pos + 4, pos + 4 + len)), pos + 4 + len)
        }
    }
}

/// Append one framed message to `out`: the length prefix, then the body.
///
/// Writes are all-or-nothing: an oversized body is rejected before a
/// single byte is appended.
pub fn write_message(out: &mut Vec<u8>, data: &[u8]) -> (r: Result<(), ProtocolError>)
    ensures
        data@.len() <= MAX_MESSAGE_SIZE ==> {
            &&& r is Ok
            &&& final(out)@ == old(out)@ + spec_frame(data@)
        },
        data@.len() > MAX_MESSAGE_SIZE ==> {
            &&& r == Err::<(), ProtocolError>(ProtocolError::MessageTooLarge(data@.len() as usize))
            &&& final(out)@ == old(out)@
        },
{
    if data.len() > MAX_MESSAGE_SIZE {
        return Err(ProtocolError::MessageTooLarge(data.len()));
    }
    let len: u32 = data.len() as u32;
    proof {
        lemma_auto_spec_u32_to_from_le_bytes();
    }
    let mut prefix = u32_to_le_bytes(len);
    out.append(&mut prefix);
    let mut body = slice_to_vec(data);
    out.append(&mut body);
    assert(out@ == old(out)@ + spec_frame(data@));
    Ok(())
}

/// Read one framed message from `input`, starting at `*pos` and advancing
/// it past what was consumed.
///
/// A stream that ends before a full length prefix is reported as
/// `ConnectionClosed`; a declared length over the cap is rejected as
/// `MessageTooLarge` without touching the body; a body shorter than
/// declared is an `Io` failure.
pub fn read_message(input: &[u8], pos: &mut usize) -> (r: Result<Vec<u8>, ProtocolError>)
    requires
        *old(pos) <= input@.len(),
    ensures
        *final(pos) <= input@.len(),
        (match r {
            Ok(v) => Ok(v@),
            Err(e) => Err(e),
        }, *final(pos) as int) == spec_read_message(input@, *old(pos) as int),
{
    let start = *pos;
    if input.len() - start < 4 {
        return Err(ProtocolError::ConnectionClosed);
    }
    let prefix = slice_subrange(input, start, start + 4);
    let len32 = u32_from_le_bytes(prefix);
    let len = len32 as usize;
    *pos = start + 4;
    if len > MAX_MESSAGE_SIZE {
        return Err(ProtocolError::MessageTooLarge(len));
    }
    if input.len() - (start + 4) < len {
        return Err(ProtocolError::Io);
    }
    let body = slice_subrange(input, start + 4, start + 4 + len);
    *pos = start + 4 + len;
    Ok(slice_to_vec(body))
}

/// Framing round trip: reading a message written at the end of a stream
/// yields exactly the bytes that were written, and consumes the frame.
pub proof fn lemma_framing_round_trip(prefix: Seq<u8>, data: Seq<u8>)
    requires
        data.len() <= MAX_MESSAGE_SIZE,
    ensures
        spec_read_message(prefix + spec_frame(data), prefix.len() as int)
            == (Ok::<Seq<u8>, ProtocolError>(data), (prefix + spec_frame(data)).len() as int),
{
    lemma_auto_spec_u32_to_from_le_bytes();
    let input = prefix + spec_frame(data);
    let pos = prefix.len() as int;
    assert(input.subrange(pos, pos + 4) =~= spec_u32_to_le_bytes(data.len() as u32));
    assert(input.subrange(pos + 4, pos + 4 + data.len()) =~= data);
}

/// An oversized message is rejected with the same error, carrying the same
/// length, whether the check happens when writing or when a reader meets a
/// frame declaring that length.
pub proof fn lemma_oversize_rejected_symmetrically(len: usize, rest: Seq<u8>)
    requires
        MAX_MESSAGE_SIZE < len <= u32::MAX,
    ensures
        forall|data: Seq<u8>| data.len() == len ==> #[trigger] spec_write_message_result(data)
            == Err::<(), ProtocolError>(ProtocolError::MessageTooLarge(len)),
        spec_read_message(spec_u32_to_le_bytes(len as u32) + rest, 0).0
            == Err::<Seq<u8>, ProtocolError>(ProtocolError::MessageTooLarge(len)),
{
    lemma_auto_spec_u32_to_from_le_bytes();
    let input = spec_u32_to_le_bytes(len as u32) + rest;
    assert(input.subrange(0, 4) =~= spec_u32_to_le_bytes(len as u32));
}

/// The result of `write_message`, as a function of the body alone.
pub open spec fn spec_write_message_result(data: Seq<u8>) -> Result<(), ProtocolError> {
    if data.len() > MAX_MESSAGE_SIZE {
        Err(ProtocolError::MessageTooLarge(data.len() as usize))
    } else {
        Ok(())
    }
}

} // verus!
