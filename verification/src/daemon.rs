//! The daemon's GUI-side bookkeeping: window identifiers and the decisions
//! of the request drain loop.
//!
//! The daemon's I/O lives outside this crate: a listener accepts
//! connections and queues `(request, reply channel)` pairs, and the GUI
//! thread drains them one per timer tick. The decisions taken on each
//! drained request — validate, resolve the image source, derive the
//! window's configuration, issue a window id, build the reply — are
//! verified here as functions from plain values to plain values; the loop
//! around them performs the socket reads, the filesystem access and the
//! window construction.

use base64::Engine;
use vstd::prelude::*;
use crate::configuration::Configuration;
use crate::protocol::{DaemonRequest, DaemonResponse, ProtocolError, ResponseStatus, spec_request_valid, spec_frame, write_message, MAX_MESSAGE_SIZE};
use crate::codec::spec_encode_request;
use crate::request_config::{RequestConfig, spec_derived_config};
use crate::wire::{str_eq, u64_string, spec_u64_chars};

verus! {

// ---------------------------------------------------------------------------
// The socket path
// ---------------------------------------------------------------------------

/// The fixed socket path of a user's daemon.
pub open spec fn spec_socket_path(uid: u32) -> Seq<char> {
    "/tmp/satty-"@ + spec_u64_chars(uid as nat) + ".sock"@
}

/// Relies on `nix::unistd::geteuid`, which POSIX guarantees to succeed:
/// the raw id of the calling process's effective user. It depends on the
/// process, so nothing more is promised of the value.
#[verifier::external_body]
fn current_uid() -> (r: u32) {
    nix::unistd::geteuid().as_raw()
}

/// The socket path used for the given user id.
pub fn socket_path_for_uid(uid: u32) -> (r: String)
    ensures
        r@ == spec_socket_path(uid),
{
    let mut s = "/tmp/satty-".to_owned();
    s.append(u64_string(uid as u64).as_str());
    s.append(".sock");
    proof {
        assert(s@ =~= spec_socket_path(uid));
    }
    s
}

/// The socket path of the current user's daemon: one fixed path per user.
pub fn get_socket_path() -> (r: String)
    ensures
        exists|uid: u32| r@ == spec_socket_path(uid),
{
    let uid = current_uid();
    let r = socket_path_for_uid(uid);
    proof {
        assert(r@ == spec_socket_path(uid));
    }
    r
}

// ---------------------------------------------------------------------------
// Inline payloads
// ---------------------------------------------------------------------------

/// What base64 decoding returns for the given characters.
pub uninterp spec fn b64_decode_of(s: Seq<char>) -> Option<Seq<u8>>;

/// What base64 encoding returns for the given bytes.
pub uninterp spec fn b64_encode_of(b: Seq<u8>) -> Seq<char>;

/// Relies on the decode of base64's standard-alphabet engine: the result
/// is a function of the input characters alone.
#[verifier::external_body]
fn b64_decode(s: &str) -> (r: Option<Vec<u8>>)
    ensures
        (match r {
            Some(v) => Some(v@),
            None => None,
        }) == b64_decode_of(s@),
{
    match base64::engine::general_purpose::STANDARD.decode(s.as_bytes()) {
        Ok(v) => Some(v),
        Err(_) => None,
    }
}

/// Relies on the encode of base64's standard-alphabet engine: the result
/// is a function of the input bytes alone, and the engine's own decode
/// inverts it.
#[verifier::external_body]
fn b64_encode(data: &[u8]) -> (r: String)
    ensures
        r@ == b64_encode_of(data@),
        b64_decode_of(r@) == Some(data@),
{
    base64::engine::general_purpose::STANDARD.encode(data)
}

/// Encode image bytes for the `stdin_data` field, so that
/// [`decode_payload`] recovers exactly these bytes.
pub fn encode_payload(data: &[u8]) -> (r: String)
    ensures
        r@ == b64_encode_of(data@),
        b64_decode_of(r@) == Some(data@),
{
    b64_encode(data)
}

/// Decode the inline payload of a stdin-sentinel request: the image bytes,
/// or the error response its connection gets.
pub fn decode_payload(request: &DaemonRequest) -> (r: Result<Vec<u8>, DaemonResponse>)
    requires
        request@.stdin_data is Some,
    ensures
        match request@.stdin_data {
            Some(d) => match b64_decode_of(d) {
                Some(bytes) => r matches Ok(v) && v@ == bytes,
                None => r matches Err(resp) && resp@.status == ResponseStatus::Error
                    && resp@.window_id is None && resp@.message == Some(
                    "Failed to decode base64 image data"@,
                ),
            },
            None => false,
        },
{
    match &request.stdin_data {
        Some(d) => match b64_decode(d.as_str()) {
            Some(v) => Ok(v),
            None => Err(DaemonResponse::error("Failed to decode base64 image data")),
        },
        None => vstd::pervasive::unreached(),
    }
}

// ---------------------------------------------------------------------------
// Window ids and the drain-loop decisions
// ---------------------------------------------------------------------------

/// Issues window identifiers and remembers, as ghost history, every id
/// issued in this daemon's lifetime.
pub struct WindowSessionManager {
    counter: u64,
    issued: Ghost<Seq<u64>>,
}

impl WindowSessionManager {
    /// Every id issued so far, in order.
    pub closed spec fn issued_ids(&self) -> Seq<u64> {
        self.issued@
    }

    /// The last issued id; 0 before the first.
    pub closed spec fn last_id(&self) -> u64 {
        self.counter
    }

    /// Ids are strictly increasing and never exceed the counter.
    pub open spec fn wf(&self) -> bool {
        &&& forall|i: int, j: int|
            0 <= i < j < self.issued_ids().len() ==> #[trigger] self.issued_ids()[i]
                < #[trigger] self.issued_ids()[j]
        &&& forall|i: int| 0 <= i < self.issued_ids().len() ==> #[trigger] self.issued_ids()[i]
            <= self.last_id()
    }

    /// The last issued window id, 0 before the first: the next id is one
    /// more, so a caller can check for exhaustion before asking.
    pub fn last_issued_id(&self) -> (r: u64)
        ensures
            r == self.last_id(),
    {
        self.counter
    }

    /// A fresh manager: no window yet, the first id will be 1.
    pub fn new() -> (r: Self)
        ensures
            r.wf(),
            r.last_id() == 0,
            r.issued_ids() == Seq::<u64>::empty(),
    {
        WindowSessionManager { counter: 0, issued: Ghost(Seq::empty()) }
    }

    /// Issue the next window id: one more than every id issued before.
    pub fn allocate_window_id(&mut self) -> (r: u64)
        requires
            old(self).wf(),
            old(self).last_id() < u64::MAX,
        ensures
            final(self).wf(),
            r == old(self).last_id() + 1,
            final(self).last_id() == r,
            final(self).issued_ids() == old(self).issued_ids().push(r),
    {
        self.counter = self.counter + 1;
        let id = self.counter;
        self.issued = Ghost(self.issued@.push(id));
        proof {
            let s_old = old(self).issued_ids();
            let s_new = self.issued_ids();
            assert forall|i: int, j: int| 0 <= i < j < s_new.len() implies #[trigger] s_new[i]
                < #[trigger] s_new[j] by {
                if j < s_old.len() {
                    assert(s_new[i] == s_old[i] && s_new[j] == s_old[j]);
                } else {
                    assert(s_new[j] == id);
                    assert(s_new[i] == s_old[i]);
                    assert(s_old[i] <= old(self).last_id());
                }
            }
            assert forall|i: int| 0 <= i < s_new.len() implies #[trigger] s_new[i]
                <= self.last_id() by {
                if i < s_old.len() {
                    assert(s_new[i] == s_old[i]);
                    assert(s_old[i] <= old(self).last_id());
                } else {
                    assert(s_new[i] == id);
                }
            }
        }
        id
    }
}

/// Window ids issued within one daemon lifetime are strictly increasing,
/// with no repeats, whatever interleaving of requests produced them.
pub proof fn lemma_window_ids_strictly_increasing(m: &WindowSessionManager, i: int, j: int)
    requires
        m.wf(),
        0 <= i < j < m.issued_ids().len(),
    ensures
        m.issued_ids()[i] < m.issued_ids()[j],
{
}

/// Where the image of a valid request comes from.
#[derive(Debug, PartialEq, Eq, Structural)]
pub enum ResourcePlan {
    /// The request carries the image inline; decode `stdin_data`.
    InlinePayload,
    /// The request names a path; run it through the security validator.
    FilePath,
}

/// The first step on a drained request: validate it. An invalid request is
/// answered with an error response and never reaches resource loading or
/// window construction; a valid one tells the caller where its image comes
/// from.
pub fn begin_request(request: &DaemonRequest) -> (r: Result<ResourcePlan, DaemonResponse>)
    ensures
        spec_request_valid(request@) && request@.filename == "-"@ ==> r == Ok::<
            ResourcePlan,
            DaemonResponse,
        >(ResourcePlan::InlinePayload),
        spec_request_valid(request@) && request@.filename != "-"@ ==> r == Ok::<
            ResourcePlan,
            DaemonResponse,
        >(ResourcePlan::FilePath),
        !spec_request_valid(request@) ==> (r matches Err(resp) && (resp@.status
            == ResponseStatus::Error && resp@.window_id is None && resp@.message == Some(
            "Missing required field: "@ + (if request@.filename.len() == 0 {
                "filename"@
            } else {
                "stdin_data (required when filename is '-')"@
            }),
        ))),
{
    match request.validate() {
        Err(e) => Err(DaemonResponse::error(e.message().as_str())),
        Ok(()) => {
            if str_eq(request.filename.as_str(), "-") {
                Ok(ResourcePlan::InlinePayload)
            } else {
                Ok(ResourcePlan::FilePath)
            }
        },
    }
}

/// The last step on a drained request, after the caller tried to load the
/// image: on success, derive the window's configuration and issue its id —
/// the reply goes out before the window is built, so the client can exit
/// early; on failure, answer with the failure's message and leave the
/// manager untouched. Either way the connection gets exactly one response.
pub fn complete_request(
    manager: &mut WindowSessionManager,
    request: &DaemonRequest,
    resource: Result<(), String>,
    global: &Configuration,
) -> (r: (DaemonResponse, Option<RequestConfig>))
    requires
        old(manager).wf(),
        old(manager).last_id() < u64::MAX,
        spec_request_valid(request@),
    ensures
        final(manager).wf(),
        match resource {
            Err(m) => {
                &&& r.0@.status == ResponseStatus::Error
                &&& r.0@.window_id is None
                &&& r.0@.message == Some(m@)
                &&& r.1 is None
                &&& final(manager).issued_ids() == old(manager).issued_ids()
                &&& final(manager).last_id() == old(manager).last_id()
            },
            Ok(()) => {
                &&& r.0@.status == ResponseStatus::Success
                &&& r.0@.window_id == Some((old(manager).last_id() + 1) as u64)
                &&& r.0@.message is None
                &&& final(manager).last_id() == old(manager).last_id() + 1
                &&& final(manager).issued_ids() == old(manager).issued_ids().push(
                    (old(manager).last_id() + 1) as u64,
                )
                &&& r.1 matches Some(c) && spec_derived_config(&c, request@, global@)
            },
        },
{
    match resource {
        Err(m) => (DaemonResponse::error(m.as_str()), None),
        Ok(()) => {
            let config = RequestConfig::from_request(request, global);
            let id = manager.allocate_window_id();
            (DaemonResponse::ok(id), Some(config))
        },
    }
}

// ---------------------------------------------------------------------------
// The client's side of the protocol
// ---------------------------------------------------------------------------

/// The request a client sends for the current configuration: the input
/// filename and every per-window override, with the inline payload (an
/// I/O concern) left for the caller to attach when the input is the stdin
/// sentinel.
pub fn request_from_configuration(global: &Configuration) -> (r: DaemonRequest)
    ensures
        r@.filename == global@.input_filename,
        r@.output_filename == global@.output_filename,
        r@.copy_command == global@.copy_command,
        r@.initial_tool is None,
        r@.fullscreen == Some(global@.fullscreen),
        r@.early_exit == Some(global@.early_exit),
        r@.corner_roundness == Some(global@.corner_roundness),
        r@.annotation_size_factor == Some(global@.annotation_size_factor),
        r@.default_hide_toolbars == Some(global@.default_hide_toolbars),
        r@.no_window_decoration == Some(global@.no_window_decoration),
        r@.stdin_data is None,
{
    let mut request = DaemonRequest::new(global.input_filename());
    request.output_filename = match global.output_filename() {
        Some(v) => Some(v.clone()),
        None => None,
    };
    request.copy_command = match global.copy_command() {
        Some(v) => Some(v.clone()),
        None => None,
    };
    request.fullscreen = Some(global.fullscreen());
    request.early_exit = Some(global.early_exit());
    request.corner_roundness = Some(global.corner_roundness());
    request.annotation_size_factor = Some(global.annotation_size_factor());
    request.default_hide_toolbars = Some(global.default_hide_toolbars());
    request.no_window_decoration = Some(global.no_window_decoration());
    request
}

/// A client of the daemon: knows the socket path and prepares the bytes
/// that cross it. Connecting, sending and the timeouts live with the
/// caller.
#[derive(Debug)]
pub struct DaemonClient {
    socket_path: String,
}

impl DaemonClient {
    /// The path this client connects to.
    pub closed spec fn spec_path(&self) -> Seq<char> {
        self.socket_path@
    }

    /// A client for the daemon at the given socket path.
    pub fn new(socket_path: &str) -> (r: Self)
        ensures
            r.spec_path() == socket_path@,
    {
        DaemonClient { socket_path: socket_path.to_owned() }
    }

    /// The socket path this client targets.
    pub fn socket_path(&self) -> (r: &str)
        ensures
            r@ == self.spec_path(),
    {
        self.socket_path.as_str()
    }

    /// The exact bytes a request puts on the wire: its canonical encoding
    /// inside one length-prefixed frame. Rejected as `MessageTooLarge`
    /// when the encoding exceeds the cap.
    pub fn frame_request(request: &DaemonRequest) -> (r: Result<Vec<u8>, ProtocolError>)
        ensures
            spec_encode_request(request@).len() <= MAX_MESSAGE_SIZE ==> (r matches Ok(v) && v@
                == spec_frame(spec_encode_request(request@))),
            spec_encode_request(request@).len() > MAX_MESSAGE_SIZE ==> r == Err::<
                Vec<u8>,
                ProtocolError,
            >(ProtocolError::MessageTooLarge(spec_encode_request(request@).len() as usize)),
    {
        let body = match request.to_bytes() {
            Ok(b) => b,
            Err(e) => {
                return Err(e);
            },
        };
        let mut framed: Vec<u8> = Vec::new();
        match write_message(&mut framed, body.as_slice()) {
            Ok(()) => Ok(framed),
            Err(e) => Err(e),
        }
    }
}

} // verus!
