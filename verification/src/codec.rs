//! Canonical JSON encoding and decoding of requests and responses.
//!
//! The encoder emits one fixed shape: an object with the fields in a fixed
//! order, absent options omitted, no whitespace. The decoder accepts any
//! JSON object (whitespace, unknown fields, `null` for an optional field,
//! any field order). Its contract is proven to invert the encoder —
//! decoding a canonical encoding yields exactly the value that was encoded
//! — and to reject input that does not open a JSON object; the wider
//! tolerance of non-canonical objects is exercised by the test suite, not
//! stated as a contract.

use vstd::prelude::*;
use vstd::utf8::{encode_utf8, decode_utf8, valid_utf8};
use crate::milli::Milli;
use crate::protocol::{
    DaemonRequest, DaemonRequestView, DaemonResponse, DaemonResponseView, ProtocolError,
    ResponseStatus, MAX_MESSAGE_SIZE, spec_request_valid,
};
use crate::wire::{
    QUOTE, BACKSLASH, LBRACE, RBRACE, COLON, COMMA, DOT, spec_json_string, spec_escape_bytes,
    spec_bool_bytes, spec_dec_digits, spec_milli_digits, spec_null_bytes, emit_json_string,
    emit_bool, emit_u64, emit_milli, bytes_eq, skip_ws, sp_ws, is_ws, is_digit, parse_string_content,
    parse_bool_value, parse_u64_value, parse_milli_value, parse_null_value, skip_value,
    sp_string_content, sp_string_value, sp_bool_value, sp_u64_value, sp_milli_value, sp_null_value,
    lemma_parse_string_inverts, lemma_parse_bool_inverts, lemma_parse_u64_inverts,
    lemma_parse_milli_inverts, MAX_SKIP_DEPTH, bytes_to_string, lemma_dec_digits_are_digits,
    lemma_ws_noop,
};

verus! {

// ---------------------------------------------------------------------------
// Field keys
// ---------------------------------------------------------------------------

pub open spec fn key_filename() -> Seq<u8> {
    encode_utf8("filename"@)
}

pub open spec fn key_output_filename() -> Seq<u8> {
    encode_utf8("output_filename"@)
}

pub open spec fn key_copy_command() -> Seq<u8> {
    encode_utf8("copy_command"@)
}

pub open spec fn key_initial_tool() -> Seq<u8> {
    encode_utf8("initial_tool"@)
}

pub open spec fn key_fullscreen() -> Seq<u8> {
    encode_utf8("fullscreen"@)
}

pub open spec fn key_early_exit() -> Seq<u8> {
    encode_utf8("early_exit"@)
}

pub open spec fn key_corner_roundness() -> Seq<u8> {
    encode_utf8("corner_roundness"@)
}

pub open spec fn key_annotation_size_factor() -> Seq<u8> {
    encode_utf8("annotation_size_factor"@)
}

pub open spec fn key_default_hide_toolbars() -> Seq<u8> {
    encode_utf8("default_hide_toolbars"@)
}

pub open spec fn key_no_window_decoration() -> Seq<u8> {
    encode_utf8("no_window_decoration"@)
}

pub open spec fn key_stdin_data() -> Seq<u8> {
    encode_utf8("stdin_data"@)
}

pub open spec fn key_status() -> Seq<u8> {
    encode_utf8("status"@)
}

pub open spec fn key_window_id() -> Seq<u8> {
    encode_utf8("window_id"@)
}

pub open spec fn key_message() -> Seq<u8> {
    encode_utf8("message"@)
}

// ---------------------------------------------------------------------------
// Canonical encoding
// ---------------------------------------------------------------------------

/// A string-valued field, preceded by its separating comma.
pub open spec fn seg_str(key: Seq<u8>, v: Seq<char>) -> Seq<u8> {
    seq![COMMA] + spec_json_string(key) + seq![COLON] + spec_json_string(encode_utf8(v))
}

/// A boolean field, preceded by its separating comma.
pub open spec fn seg_bool(key: Seq<u8>, b: bool) -> Seq<u8> {
    seq![COMMA] + spec_json_string(key) + seq![COLON] + spec_bool_bytes(b)
}

/// A fixed-point field, preceded by its separating comma.
pub open spec fn seg_milli(key: Seq<u8>, m: u32) -> Seq<u8> {
    seq![COMMA] + spec_json_string(key) + seq![COLON] + spec_milli_digits(m as nat)
}

/// The canonical bytes of the request's optional field number `k` (in the
/// fixed encoding order, starting at 1 after `filename`); empty when the
/// field is absent.
pub open spec fn req_seg(r: DaemonRequestView, k: int) -> Seq<u8> {
    if k == 1 {
        match r.output_filename {
            Some(v) => seg_str(key_output_filename(), v),
            None => seq![],
        }
    } else if k == 2 {
        match r.copy_command {
            Some(v) => seg_str(key_copy_command(), v),
            None => seq![],
        }
    } else if k == 3 {
        match r.initial_tool {
            Some(v) => seg_str(key_initial_tool(), v),
            None => seq![],
        }
    } else if k == 4 {
        match r.fullscreen {
            Some(b) => seg_bool(key_fullscreen(), b),
            None => seq![],
        }
    } else if k == 5 {
        match r.early_exit {
            Some(b) => seg_bool(key_early_exit(), b),
            None => seq![],
        }
    } else if k == 6 {
        match r.corner_roundness {
            Some(m) => seg_milli(key_corner_roundness(), m),
            None => seq![],
        }
    } else if k == 7 {
        match r.annotation_size_factor {
            Some(m) => seg_milli(key_annotation_size_factor(), m),
            None => seq![],
        }
    } else if k == 8 {
        match r.default_hide_toolbars {
            Some(b) => seg_bool(key_default_hide_toolbars(), b),
            None => seq![],
        }
    } else if k == 9 {
        match r.no_window_decoration {
            Some(b) => seg_bool(key_no_window_decoration(), b),
            None => seq![],
        }
    } else if k == 10 {
        match r.stdin_data {
            Some(v) => seg_str(key_stdin_data(), v),
            None => seq![],
        }
    } else {
        seq![]
    }
}

/// The canonical bytes from optional field `k` to the closing brace.
pub open spec fn req_tail(r: DaemonRequestView, k: int) -> Seq<u8>
    decreases 11 - k,
    when 1 <= k <= 11
{
    if k >= 11 {
        seq![RBRACE]
    } else {
        req_seg(r, k) + req_tail(r, k + 1)
    }
}

/// The canonical encoding of a request.
pub open spec fn spec_encode_request(r: DaemonRequestView) -> Seq<u8> {
    seq![LBRACE] + spec_json_string(key_filename()) + seq![COLON] + spec_json_string(
        encode_utf8(r.filename),
    ) + req_tail(r, 1)
}

/// The canonical bytes of the response's status value.
pub open spec fn resp_status_bytes(st: ResponseStatus) -> Seq<u8> {
    if st == ResponseStatus::Success {
        spec_json_string(encode_utf8("ok"@))
    } else {
        spec_json_string(encode_utf8("error"@))
    }
}

/// The canonical bytes of the response's optional field number `k`.
pub open spec fn resp_seg(r: DaemonResponseView, k: int) -> Seq<u8> {
    if k == 1 {
        match r.window_id {
            Some(id) => seq![COMMA] + spec_json_string(key_window_id()) + seq![COLON]
                + spec_dec_digits(id as nat),
            None => seq![],
        }
    } else if k == 2 {
        match r.message {
            Some(v) => seg_str(key_message(), v),
            None => seq![],
        }
    } else {
        seq![]
    }
}

/// The canonical bytes from optional field `k` to the closing brace.
pub open spec fn resp_tail(r: DaemonResponseView, k: int) -> Seq<u8>
    decreases 3 - k,
    when 1 <= k <= 3
{
    if k >= 3 {
        seq![RBRACE]
    } else {
        resp_seg(r, k) + resp_tail(r, k + 1)
    }
}

/// The canonical encoding of a response.
pub open spec fn spec_encode_response(r: DaemonResponseView) -> Seq<u8> {
    seq![LBRACE] + spec_json_string(key_status()) + seq![COLON] + resp_status_bytes(r.status)
        + resp_tail(r, 1)
}

// ---------------------------------------------------------------------------
// Encoder
// ---------------------------------------------------------------------------

/// The canonical bytes of a request up to and including optional field `k`
/// (the opening brace and `filename` are field 0). Mirrors the order in
/// which the encoder appends, so `spec_encode_request` factors as this
/// prefix followed by the closing brace.
pub open spec fn req_prefix(r: DaemonRequestView, k: int) -> Seq<u8>
    decreases k,
    when 0 <= k <= 10
{
    if k == 0 {
        seq![LBRACE] + spec_json_string(key_filename()) + seq![COLON] + spec_json_string(
            encode_utf8(r.filename),
        )
    } else {
        req_prefix(r, k - 1) + req_seg(r, k)
    }
}

proof fn lemma_req_prefix_tail(r: DaemonRequestView, k: int)
    requires
        0 <= k <= 10,
    ensures
        req_prefix(r, k) + req_tail(r, k + 1) == spec_encode_request(r),
    decreases k,
{
    if k == 0 {
    } else {
        lemma_req_prefix_tail(r, k - 1);
        vstd::seq_lib::lemma_concat_associative(req_prefix(r, k - 1), req_seg(r, k), req_tail(r, k + 1));
        assert(req_tail(r, k) == req_seg(r, k) + req_tail(r, k + 1));
    }
}

/// `spec_encode_request` is the full field prefix plus the closing brace.
pub proof fn lemma_encode_request_shape(r: DaemonRequestView)
    ensures
        spec_encode_request(r) == req_prefix(r, 10) + seq![RBRACE],
{
    lemma_req_prefix_tail(r, 10);
    assert(req_tail(r, 11) == seq![RBRACE]);
}

/// The canonical bytes of a response up to and including optional field `k`.
pub open spec fn resp_prefix(r: DaemonResponseView, k: int) -> Seq<u8>
    decreases k,
    when 0 <= k <= 2
{
    if k == 0 {
        seq![LBRACE] + spec_json_string(key_status()) + seq![COLON] + resp_status_bytes(r.status)
    } else {
        resp_prefix(r, k - 1) + resp_seg(r, k)
    }
}

proof fn lemma_resp_prefix_tail(r: DaemonResponseView, k: int)
    requires
        0 <= k <= 2,
    ensures
        resp_prefix(r, k) + resp_tail(r, k + 1) == spec_encode_response(r),
    decreases k,
{
    if k == 0 {
    } else {
        lemma_resp_prefix_tail(r, k - 1);
        vstd::seq_lib::lemma_concat_associative(resp_prefix(r, k - 1), resp_seg(r, k), resp_tail(r, k + 1));
        assert(resp_tail(r, k) == resp_seg(r, k) + resp_tail(r, k + 1));
    }
}

/// `spec_encode_response` is the full field prefix plus the closing brace.
pub proof fn lemma_encode_response_shape(r: DaemonResponseView)
    ensures
        spec_encode_response(r) == resp_prefix(r, 2) + seq![RBRACE],
{
    lemma_resp_prefix_tail(r, 2);
    assert(resp_tail(r, 3) == seq![RBRACE]);
}

/// Append `,"key":"value"`.
fn emit_seg_str(out: &mut Vec<u8>, key: &str, v: &String)
    ensures
        final(out)@ == old(out)@ + seg_str(encode_utf8(key@), v@),
{
    out.push(COMMA);
    emit_json_string(out, key.as_bytes());
    out.push(COLON);
    emit_json_string(out, v.as_str().as_bytes());
    assert(out@ =~= old(out)@ + seg_str(encode_utf8(key@), v@));
}

/// Append `,"key":true` or `,"key":false`.
fn emit_seg_bool(out: &mut Vec<u8>, key: &str, b: bool)
    ensures
        final(out)@ == old(out)@ + seg_bool(encode_utf8(key@), b),
{
    out.push(COMMA);
    emit_json_string(out, key.as_bytes());
    out.push(COLON);
    emit_bool(out, b);
    assert(out@ =~= old(out)@ + seg_bool(encode_utf8(key@), b));
}

/// Append `,"key":` and the fixed-point printing of `m`.
fn emit_seg_milli(out: &mut Vec<u8>, key: &str, m: Milli)
    ensures
        final(out)@ == old(out)@ + seg_milli(encode_utf8(key@), m.0),
{
    out.push(COMMA);
    emit_json_string(out, key.as_bytes());
    out.push(COLON);
    emit_milli(out, m.thousandths());
    assert(out@ =~= old(out)@ + seg_milli(encode_utf8(key@), m.0));
}

/// Append optional fields one through five.
fn emit_req_fields_low(out: &mut Vec<u8>, req: &DaemonRequest)
    requires
        old(out)@ == req_prefix(req@, 0),
    ensures
        final(out)@ == req_prefix(req@, 5),
{
    let ghost r = req@;
    if let Some(v) = &req.output_filename {
        emit_seg_str(out, "output_filename", v);
    } else {
        proof {
            assert(req_prefix(r, 1) =~= req_prefix(r, 0));
        }
    }
    assert(out@ == req_prefix(r, 1));
    if let Some(v) = &req.copy_command {
        emit_seg_str(out, "copy_command", v);
    } else {
        proof {
            assert(req_prefix(r, 2) =~= req_prefix(r, 1));
        }
    }
    assert(out@ == req_prefix(r, 2));
    if let Some(v) = &req.initial_tool {
        emit_seg_str(out, "initial_tool", v);
    } else {
        proof {
            assert(req_prefix(r, 3) =~= req_prefix(r, 2));
        }
    }
    assert(out@ == req_prefix(r, 3));
    if let Some(b) = req.fullscreen {
        emit_seg_bool(out, "fullscreen", b);
    } else {
        proof {
            assert(req_prefix(r, 4) =~= req_prefix(r, 3));
        }
    }
    assert(out@ == req_prefix(r, 4));
    if let Some(b) = req.early_exit {
        emit_seg_bool(out, "early_exit", b);
    } else {
        proof {
            assert(req_prefix(r, 5) =~= req_prefix(r, 4));
        }
    }
    assert(out@ == req_prefix(r, 5));
}

/// Append optional fields six through ten.
fn emit_req_fields_high(out: &mut Vec<u8>, req: &DaemonRequest)
    requires
        old(out)@ == req_prefix(req@, 5),
    ensures
        final(out)@ == req_prefix(req@, 10),
{
    let ghost r = req@;
    if let Some(m) = req.corner_roundness {
        emit_seg_milli(out, "corner_roundness", m);
    } else {
        proof {
            assert(req_prefix(r, 6) =~= req_prefix(r, 5));
        }
    }
    assert(out@ == req_prefix(r, 6));
    if let Some(m) = req.annotation_size_factor {
        emit_seg_milli(out, "annotation_size_factor", m);
    } else {
        proof {
            assert(req_prefix(r, 7) =~= req_prefix(r, 6));
        }
    }
    assert(out@ == req_prefix(r, 7));
    if let Some(b) = req.default_hide_toolbars {
        emit_seg_bool(out, "default_hide_toolbars", b);
    } else {
        proof {
            assert(req_prefix(r, 8) =~= req_prefix(r, 7));
        }
    }
    assert(out@ == req_prefix(r, 8));
    if let Some(b) = req.no_window_decoration {
        emit_seg_bool(out, "no_window_decoration", b);
    } else {
        proof {
            assert(req_prefix(r, 9) =~= req_prefix(r, 8));
        }
    }
    assert(out@ == req_prefix(r, 9));
    if let Some(v) = &req.stdin_data {
        emit_seg_str(out, "stdin_data", v);
    } else {
        proof {
            assert(req_prefix(r, 10) =~= req_prefix(r, 9));
        }
    }
    assert(out@ == req_prefix(r, 10));
}

/// Build the canonical encoding of a request.
pub fn encode_request(req: &DaemonRequest) -> (out: Vec<u8>)
    ensures
        out@ == spec_encode_request(req@),
{
    let ghost r = req@;
    let mut out: Vec<u8> = Vec::new();
    out.push(LBRACE);
    emit_json_string(&mut out, "filename".as_bytes());
    out.push(COLON);
    emit_json_string(&mut out, req.filename.as_str().as_bytes());
    proof {
        assert(out@ =~= req_prefix(r, 0));
    }
    emit_req_fields_low(&mut out, req);
    emit_req_fields_high(&mut out, req);
    out.push(RBRACE);
    proof {
        lemma_encode_request_shape(r);
        assert(out@ =~= req_prefix(r, 10) + seq![RBRACE]);
    }
    out
}

/// Build the canonical encoding of a response.
pub fn encode_response(resp: &DaemonResponse) -> (out: Vec<u8>)
    ensures
        out@ == spec_encode_response(resp@),
{
    let ghost r = resp@;
    let mut out: Vec<u8> = Vec::new();
    out.push(LBRACE);
    emit_json_string(&mut out, "status".as_bytes());
    out.push(COLON);
    match resp.status {
        ResponseStatus::Success => emit_json_string(&mut out, "ok".as_bytes()),
        ResponseStatus::Error => emit_json_string(&mut out, "error".as_bytes()),
    }
    proof {
        assert(out@ =~= resp_prefix(r, 0));
    }
    if let Some(id) = resp.window_id {
        out.push(COMMA);
        emit_json_string(&mut out, "window_id".as_bytes());
        out.push(COLON);
        emit_u64(&mut out, id);
        proof {
            assert(out@ =~= resp_prefix(r, 1));
        }
    } else {
        proof {
            assert(resp_prefix(r, 1) =~= resp_prefix(r, 0));
        }
    }
    assert(out@ == resp_prefix(r, 1));
    if let Some(v) = &resp.message {
        emit_seg_str(&mut out, "message", v);
    } else {
        proof {
            assert(resp_prefix(r, 2) =~= resp_prefix(r, 1));
        }
    }
    assert(out@ == resp_prefix(r, 2));
    out.push(RBRACE);
    proof {
        lemma_encode_response_shape(r);
        assert(out@ =~= resp_prefix(r, 2) + seq![RBRACE]);
    }
    out
}

// ---------------------------------------------------------------------------
// Decoder
// ---------------------------------------------------------------------------

// ---------------------------------------------------------------------------
// The decoder inverts the canonical encoding: positional lemmas
// ---------------------------------------------------------------------------

/// Splitting a suffix: when the bytes from `p` on read `a` then `b`, the
/// bytes of `a` sit at `p`, and the bytes from `p + |a|` on read `b`.
proof fn lemma_skip_drop(s: Seq<u8>, p: int, a: Seq<u8>, b: Seq<u8>)
    requires
        0 <= p <= s.len(),
        s.skip(p) == a + b,
    ensures
        p + a.len() + b.len() == s.len(),
        forall|x: int| 0 <= x < a.len() ==> s[p + x] == #[trigger] a[x],
        s.skip(p + a.len()) == b,
{
    assert(s.skip(p).len() == s.len() - p);
    assert forall|x: int| 0 <= x < a.len() implies s[p + x] == #[trigger] a[x] by {
        assert(s.skip(p)[x] == s[p + x]);
        assert((a + b)[x] == a[x]);
    }
    assert(s.skip(p + a.len()) =~= b) by {
        assert forall|y: int| 0 <= y < b.len() implies #[trigger] s.skip(p + a.len())[y] == b[y] by {
            assert(s.skip(p + a.len())[y] == s[p + a.len() + y]);
            assert(s.skip(p)[a.len() + y] == s[p + a.len() + y]);
            assert((a + b)[a.len() + y] == b[y]);
        }
    }
}

/// Parsing at the canonical printing of a JSON string yields its content
/// and lands just past the closing quote.
proof fn lemma_json_string_at(s: Seq<u8>, p: int, content: Seq<u8>, rest: Seq<u8>) -> (end: int)
    requires
        0 <= p <= s.len(),
        s.skip(p) == spec_json_string(content) + rest,
    ensures
        end == p + spec_json_string(content).len(),
        p < s.len(),
        s[p] == QUOTE,
        sp_null_value(s, p) is None,
        sp_string_content(s, p + 1, Seq::<u8>::empty()) == Some((content, end)),
        sp_string_value(s, p) == Some((content, end)),
        end <= s.len(),
        s.skip(end) == rest,
{
    let esc = spec_escape_bytes(content);
    let l = esc.len();
    lemma_skip_drop(s, p, spec_json_string(content), rest);
    assert(spec_json_string(content)[0] == QUOTE);
    assert(s[p] == QUOTE);
    crate::wire::lemma_null_value_none(s, p);
    assert(s.subrange(p + 1, p + 1 + l + 1) =~= esc + seq![QUOTE]) by {
        assert forall|x: int| 0 <= x < l + 1 implies #[trigger] s.subrange(p + 1, p + 1 + l + 1)[x]
            == (esc + seq![QUOTE])[x] by {
            assert(s.subrange(p + 1, p + 1 + l + 1)[x] == s[p + 1 + x]);
            assert(spec_json_string(content)[1 + x] == (esc + seq![QUOTE])[x]);
            assert(s[p + 1 + x] == spec_json_string(content)[1 + x]);
        }
    }
    lemma_parse_string_inverts(s, p + 1, Seq::<u8>::empty(), content);
    assert(Seq::<u8>::empty() + content =~= content);
    p + (l + 2)
}

/// The positions inside one canonical `,"key":value` field: the comma, the
/// key string, the colon, and the value bytes that follow.
proof fn lemma_parse_field_at(s: Seq<u8>, i: int, key: Seq<u8>, valbytes: Seq<u8>, rest: Seq<u8>) -> (ke: int)
    requires
        0 <= i <= s.len(),
        s.skip(i) == seq![COMMA] + spec_json_string(key) + seq![COLON] + valbytes + rest,
    ensures
        ke == i + 1 + spec_json_string(key).len(),
        i < s.len(),
        s[i] == COMMA,
        i + 1 < s.len(),
        s[i + 1] == QUOTE,
        sp_string_content(s, i + 2, Seq::<u8>::empty()) == Some((key, ke)),
        ke < s.len(),
        s[ke] == COLON,
        ke + 1 <= s.len(),
        s.skip(ke + 1) == valbytes + rest,
{
    let tail1 = spec_json_string(key) + (seq![COLON] + valbytes + rest);
    assert(s.skip(i) =~= seq![COMMA] + tail1);
    lemma_skip_drop(s, i, seq![COMMA], tail1);
    assert(seq![COMMA][0] == COMMA);
    assert(s[i + 0] == seq![COMMA][0]);
    assert(s[i] == COMMA);
    assert(tail1 =~= spec_json_string(key) + (seq![COLON] + (valbytes + rest)));
    assert(s.skip(i + 1) == spec_json_string(key) + (seq![COLON] + (valbytes + rest)));
    let ke = lemma_json_string_at(s, i + 1, key, seq![COLON] + (valbytes + rest));
    lemma_skip_drop(s, ke, seq![COLON], valbytes + rest);
    assert(seq![COLON][0] == COLON);
    assert(s[ke + 0] == seq![COLON][0]);
    assert(s[ke] == COLON);
    ke
}

/// Fields of a request object gathered so far while decoding; string
/// contents still as raw UTF-8 bytes.
struct ReqBuilder {
    filename: Option<Vec<u8>>,
    output_filename: Option<Vec<u8>>,
    copy_command: Option<Vec<u8>>,
    initial_tool: Option<Vec<u8>>,
    fullscreen: Option<bool>,
    early_exit: Option<bool>,
    corner_roundness: Option<u32>,
    annotation_size_factor: Option<u32>,
    default_hide_toolbars: Option<bool>,
    no_window_decoration: Option<bool>,
    stdin_data: Option<Vec<u8>>,
}

/// The ghost image of a `ReqBuilder`.
pub ghost struct ReqFields {
    pub filename: Option<Seq<u8>>,
    pub output_filename: Option<Seq<u8>>,
    pub copy_command: Option<Seq<u8>>,
    pub initial_tool: Option<Seq<u8>>,
    pub fullscreen: Option<bool>,
    pub early_exit: Option<bool>,
    pub corner_roundness: Option<u32>,
    pub annotation_size_factor: Option<u32>,
    pub default_hide_toolbars: Option<bool>,
    pub no_window_decoration: Option<bool>,
    pub stdin_data: Option<Seq<u8>>,
}

pub open spec fn view_opt_bytes(o: Option<Vec<u8>>) -> Option<Seq<u8>> {
    match o {
        Some(v) => Some(v@),
        None => None,
    }
}

impl View for ReqBuilder {
    type V = ReqFields;

    closed spec fn view(&self) -> ReqFields {
        ReqFields {
            filename: view_opt_bytes(self.filename),
            output_filename: view_opt_bytes(self.output_filename),
            copy_command: view_opt_bytes(self.copy_command),
            initial_tool: view_opt_bytes(self.initial_tool),
            fullscreen: self.fullscreen,
            early_exit: self.early_exit,
            corner_roundness: self.corner_roundness,
            annotation_size_factor: self.annotation_size_factor,
            default_hide_toolbars: self.default_hide_toolbars,
            no_window_decoration: self.no_window_decoration,
            stdin_data: view_opt_bytes(self.stdin_data),
        }
    }
}

/// The UTF-8 bytes of an optional string field.
pub open spec fn opt_utf8(o: Option<Seq<char>>) -> Option<Seq<u8>> {
    match o {
        Some(v) => Some(encode_utf8(v)),
        None => None,
    }
}

/// The fields a decoder has gathered after consuming the canonical
/// encoding of `m` up to (but not including) optional field `k`.
pub open spec fn req_state_at(m: DaemonRequestView, k: int) -> ReqFields {
    ReqFields {
        filename: Some(encode_utf8(m.filename)),
        output_filename: if k > 1 {
            opt_utf8(m.output_filename)
        } else {
            None
        },
        copy_command: if k > 2 {
            opt_utf8(m.copy_command)
        } else {
            None
        },
        initial_tool: if k > 3 {
            opt_utf8(m.initial_tool)
        } else {
            None
        },
        fullscreen: if k > 4 {
            m.fullscreen
        } else {
            None
        },
        early_exit: if k > 5 {
            m.early_exit
        } else {
            None
        },
        corner_roundness: if k > 6 {
            m.corner_roundness
        } else {
            None
        },
        annotation_size_factor: if k > 7 {
            m.annotation_size_factor
        } else {
            None
        },
        default_hide_toolbars: if k > 8 {
            m.default_hide_toolbars
        } else {
            None
        },
        no_window_decoration: if k > 9 {
            m.no_window_decoration
        } else {
            None
        },
        stdin_data: if k > 10 {
            opt_utf8(m.stdin_data)
        } else {
            None
        },
    }
}

/// Convert gathered raw bytes into an optional string field; `None` input
/// stays `None`, invalid UTF-8 is an error.
fn build_opt_string(o: Option<Vec<u8>>) -> (r: Result<Option<String>, ProtocolError>)
    ensures
        match view_opt_bytes(o) {
            Some(bs) => {
                if valid_utf8(bs) {
                    r matches Ok(q) && q matches Some(s) && s@ == decode_utf8(bs)
                } else {
                    r matches Err(e) && e is InvalidJson
                }
            },
            None => r matches Ok(q) && q is None,
        },
{
    match o {
        None => Ok(None),
        Some(v) => match bytes_to_string(v) {
            Some(s) => Ok(Some(s)),
            None => Err(ProtocolError::InvalidJson),
        },
    }
}

fn build_opt_milli(o: Option<u32>) -> (r: Option<Milli>)
    ensures
        r == match o {
            Some(v) => Some(Milli(v)),
            None => None::<Milli>,
        },
{
    match o {
        Some(v) => Some(Milli(v)),
        None => None,
    }
}


// ---------------------------------------------------------------------------
// The request decoder inverts the canonical encoding
// ---------------------------------------------------------------------------

/// The byte lengths of the request keys, and the first byte of those
/// sharing a length — telling every pair of them apart.
proof fn lemma_request_keys()
    ensures
        key_filename().len() == 8,
        key_output_filename().len() == 15,
        key_copy_command().len() == 12,
        key_initial_tool().len() == 12,
        key_fullscreen().len() == 10,
        key_early_exit().len() == 10,
        key_corner_roundness().len() == 16,
        key_annotation_size_factor().len() == 22,
        key_default_hide_toolbars().len() == 21,
        key_no_window_decoration().len() == 20,
        key_stdin_data().len() == 10,
        key_copy_command()[0] == 99,
        key_initial_tool()[0] == 105,
        key_fullscreen()[0] == 102,
        key_early_exit()[0] == 101,
        key_stdin_data()[0] == 115,
{
    reveal_strlit("filename");
    reveal_strlit("output_filename");
    reveal_strlit("copy_command");
    reveal_strlit("initial_tool");
    reveal_strlit("fullscreen");
    reveal_strlit("early_exit");
    reveal_strlit("corner_roundness");
    reveal_strlit("annotation_size_factor");
    reveal_strlit("default_hide_toolbars");
    reveal_strlit("no_window_decoration");
    reveal_strlit("stdin_data");
    assert(vstd::utf8::is_ascii_chars("filename"@));
    assert(vstd::utf8::is_ascii_chars("output_filename"@));
    assert(vstd::utf8::is_ascii_chars("copy_command"@));
    assert(vstd::utf8::is_ascii_chars("initial_tool"@));
    assert(vstd::utf8::is_ascii_chars("fullscreen"@));
    assert(vstd::utf8::is_ascii_chars("early_exit"@));
    assert(vstd::utf8::is_ascii_chars("corner_roundness"@));
    assert(vstd::utf8::is_ascii_chars("annotation_size_factor"@));
    assert(vstd::utf8::is_ascii_chars("default_hide_toolbars"@));
    assert(vstd::utf8::is_ascii_chars("no_window_decoration"@));
    assert(vstd::utf8::is_ascii_chars("stdin_data"@));
    vstd::utf8::is_ascii_chars_encode_utf8("filename"@);
    vstd::utf8::is_ascii_chars_encode_utf8("output_filename"@);
    vstd::utf8::is_ascii_chars_encode_utf8("copy_command"@);
    vstd::utf8::is_ascii_chars_encode_utf8("initial_tool"@);
    vstd::utf8::is_ascii_chars_encode_utf8("fullscreen"@);
    vstd::utf8::is_ascii_chars_encode_utf8("early_exit"@);
    vstd::utf8::is_ascii_chars_encode_utf8("corner_roundness"@);
    vstd::utf8::is_ascii_chars_encode_utf8("annotation_size_factor"@);
    vstd::utf8::is_ascii_chars_encode_utf8("default_hide_toolbars"@);
    vstd::utf8::is_ascii_chars_encode_utf8("no_window_decoration"@);
    vstd::utf8::is_ascii_chars_encode_utf8("stdin_data"@);
}

/// The key of the request's optional field `j`.
pub open spec fn req_key(j: int) -> Seq<u8> {
    if j == 1 {
        key_output_filename()
    } else if j == 2 {
        key_copy_command()
    } else if j == 3 {
        key_initial_tool()
    } else if j == 4 {
        key_fullscreen()
    } else if j == 5 {
        key_early_exit()
    } else if j == 6 {
        key_corner_roundness()
    } else if j == 7 {
        key_annotation_size_factor()
    } else if j == 8 {
        key_default_hide_toolbars()
    } else if j == 9 {
        key_no_window_decoration()
    } else {
        key_stdin_data()
    }
}

/// Whether optional field `j` carries a string, and its value.
pub open spec fn req_str_val(m: DaemonRequestView, j: int) -> Option<Seq<char>> {
    if j == 1 {
        m.output_filename
    } else if j == 2 {
        m.copy_command
    } else if j == 3 {
        m.initial_tool
    } else {
        m.stdin_data
    }
}

pub open spec fn req_bool_val(m: DaemonRequestView, j: int) -> Option<bool> {
    if j == 4 {
        m.fullscreen
    } else if j == 5 {
        m.early_exit
    } else if j == 8 {
        m.default_hide_toolbars
    } else {
        m.no_window_decoration
    }
}

pub open spec fn req_milli_val(m: DaemonRequestView, j: int) -> Option<u32> {
    if j == 6 {
        m.corner_roundness
    } else {
        m.annotation_size_factor
    }
}

pub open spec fn is_str_field(j: int) -> bool {
    j == 1 || j == 2 || j == 3 || j == 10
}

pub open spec fn is_bool_field(j: int) -> bool {
    j == 4 || j == 5 || j == 8 || j == 9
}

pub open spec fn is_milli_field(j: int) -> bool {
    j == 6 || j == 7
}

/// The canonical request tail always begins with a comma or the brace.
proof fn lemma_req_tail_head_byte(r: DaemonRequestView, k: int)
    requires
        1 <= k <= 11,
    ensures
        req_tail(r, k).len() >= 1,
        req_tail(r, k)[0] == COMMA || req_tail(r, k)[0] == RBRACE,
    decreases 11 - k,
{
    if k == 11 {
    } else if req_seg(r, k).len() == 0 {
        lemma_req_tail_head_byte(r, k + 1);
        assert(req_tail(r, k) =~= req_tail(r, k + 1));
    } else {
        assert(req_seg(r, k)[0] == COMMA);
        assert(req_tail(r, k)[0] == COMMA);
    }
}

/// A canonical request tail beginning with the closing brace is only the
/// closing brace: every remaining field is absent.
proof fn lemma_req_tail_rbrace(r: DaemonRequestView, k: int)
    requires
        1 <= k <= 11,
        req_tail(r, k).len() >= 1,
        req_tail(r, k)[0] == RBRACE,
    ensures
        req_tail(r, k) == seq![RBRACE],
        req_state_at(r, k) == req_state_at(r, 11),
    decreases 11 - k,
{
    if k == 11 {
    } else if req_seg(r, k).len() == 0 {
        assert(req_tail(r, k) =~= req_tail(r, k + 1));
        lemma_req_tail_rbrace(r, k + 1);
        assert(req_state_at(r, k) == req_state_at(r, k + 1));
    } else {
        assert(req_seg(r, k)[0] == COMMA);
        assert(req_tail(r, k)[0] == COMMA);
    }
}

/// A canonical request tail beginning with a comma carries next a present
/// field `j`: its key, its typed value, and the positions in between.
proof fn lemma_req_comma_field(s: Seq<u8>, m: DaemonRequestView, i: int, k: int) -> (f: (int, int, int))
    requires
        0 <= i < s.len(),
        1 <= k <= 11,
        s.skip(i) == req_tail(m, k),
        s[i] == COMMA,
    ensures
        ({
            let (j, ke, ve) = f;
            &&& k <= j <= 10
            &&& req_state_at(m, k) == req_state_at(m, j)
            &&& i + 1 < ke
            &&& s[i + 1] == QUOTE
            &&& sp_string_content(s, i + 2, Seq::<u8>::empty()) == Some((req_key(j), ke))
            &&& ke < s.len()
            &&& s[ke] == COLON
            &&& ke + 1 < ve
            &&& (is_str_field(j) ==> (req_str_val(m, j) matches Some(v) && sp_null_value(
                s,
                ke + 1,
            ) is None && sp_string_value(s, ke + 1) == Some((encode_utf8(v), ve))))
            &&& (is_bool_field(j) ==> (req_bool_val(m, j) matches Some(b) && sp_null_value(
                s,
                ke + 1,
            ) is None && sp_bool_value(s, ke + 1) == Some((b, ve))))
            &&& (is_milli_field(j) ==> (req_milli_val(m, j) matches Some(mv) && sp_null_value(
                s,
                ke + 1,
            ) is None && sp_milli_value(s, ke + 1) == Some((mv as nat, ve))))
            &&& ve < s.len()
            &&& s.skip(ve) == req_tail(m, j + 1)
            &&& (s[ve] == COMMA || s[ve] == RBRACE)
        }),
    decreases 11 - k,
{
    assert(s.skip(i)[0] == s[i]);
    assert(req_tail(m, k).len() >= 1);
    if k == 11 {
        assert(req_tail(m, 11)[0] == RBRACE);
        assert(false);
        (0, 0, 0)
    } else if req_seg(m, k).len() == 0 {
        assert(req_tail(m, k) =~= req_tail(m, k + 1));
        let f = lemma_req_comma_field(s, m, i, k + 1);
        assert(req_state_at(m, k) == req_state_at(m, k + 1));
        f
    } else {
        let j = k;
        let rest = req_tail(m, j + 1);
        lemma_req_tail_head_byte(m, j + 1);
        if is_str_field(j) {
            let v = req_str_val(m, j)->0;
            assert(req_seg(m, j) == seg_str(req_key(j), v));
            assert(s.skip(i) =~= seq![COMMA] + spec_json_string(req_key(j)) + seq![COLON]
                + spec_json_string(encode_utf8(v)) + rest);
            let ke = lemma_parse_field_at(s, i, req_key(j), spec_json_string(encode_utf8(v)), rest);
            let ve = lemma_json_string_at(s, ke + 1, encode_utf8(v), rest);
            assert(s.skip(ve)[0] == s[ve]);
            (j, ke, ve)
        } else if is_bool_field(j) {
            let b = req_bool_val(m, j)->0;
            assert(req_seg(m, j) == seg_bool(req_key(j), b));
            assert(s.skip(i) =~= seq![COMMA] + spec_json_string(req_key(j)) + seq![COLON]
                + spec_bool_bytes(b) + rest);
            let ke = lemma_parse_field_at(s, i, req_key(j), spec_bool_bytes(b), rest);
            lemma_skip_drop(s, ke + 1, spec_bool_bytes(b), rest);
            assert(s.subrange(ke + 1, ke + 1 + spec_bool_bytes(b).len()) =~= spec_bool_bytes(b)) by {
                assert(forall|x: int| 0 <= x < spec_bool_bytes(b).len() ==> #[trigger] s.subrange(
                    ke + 1,
                    ke + 1 + spec_bool_bytes(b).len(),
                )[x] == s[ke + 1 + x]);
            }
            lemma_parse_bool_inverts(s, ke + 1, b);
            assert(s[ke + 1] == spec_bool_bytes(b)[0]);
            crate::wire::lemma_null_value_none(s, ke + 1);
            let ve = ke + 1 + spec_bool_bytes(b).len();
            assert(s.skip(ve)[0] == s[ve]);
            (j, ke, ve)
        } else {
            let mv = req_milli_val(m, j)->0;
            let digits = spec_milli_digits(mv as nat);
            assert(req_seg(m, j) == seg_milli(req_key(j), mv));
            assert(s.skip(i) =~= seq![COMMA] + spec_json_string(req_key(j)) + seq![COLON] + digits
                + rest);
            let ke = lemma_parse_field_at(s, i, req_key(j), digits, rest);
            lemma_skip_drop(s, ke + 1, digits, rest);
            assert(s.subrange(ke + 1, ke + 1 + digits.len()) =~= digits) by {
                assert(forall|x: int| 0 <= x < digits.len() ==> #[trigger] s.subrange(
                    ke + 1,
                    ke + 1 + digits.len(),
                )[x] == s[ke + 1 + x]);
            }
            assert(s[ke + 1 + digits.len()] == rest[0]) by {
                assert(s.skip(ke + 1 + digits.len())[0] == s[ke + 1 + digits.len()]);
            }
            lemma_parse_milli_inverts(s, ke + 1, mv as nat);
            lemma_dec_digits_are_digits((mv / 1000) as nat);
            assert(s[ke + 1] == digits[0]);
            assert(digits[0] == spec_dec_digits((mv / 1000) as nat)[0]);
            assert(is_digit(s[ke + 1]));
            crate::wire::lemma_null_value_none(s, ke + 1);
            let ve = ke + 1 + digits.len();
            assert(s.skip(ve)[0] == s[ve]);
            (j, ke, ve)
        }
    }
}

/// The opening of a canonical request: the brace, the `filename` key, and
/// the filename value, with the optional-field tail after them.
proof fn lemma_req_head(s: Seq<u8>, m: DaemonRequestView) -> (f: (int, int))
    requires
        s == spec_encode_request(m),
    ensures
        ({
            let (ke, ve) = f;
            &&& s.len() > 1
            &&& s[0] == LBRACE
            &&& s[1] == QUOTE
            &&& sp_string_content(s, 2, Seq::<u8>::empty()) == Some((key_filename(), ke))
            &&& 1 < ke < s.len()
            &&& s[ke] == COLON
            &&& ke + 1 < ve
            &&& s[ke + 1] == QUOTE
            &&& sp_null_value(s, ke + 1) is None
            &&& sp_string_value(s, ke + 1) == Some((encode_utf8(m.filename), ve))
            &&& ve < s.len()
            &&& s.skip(ve) == req_tail(m, 1)
            &&& (s[ve] == COMMA || s[ve] == RBRACE)
        }),
{
    let rest1 = seq![COLON] + (spec_json_string(encode_utf8(m.filename)) + req_tail(m, 1));
    assert(s.skip(0) =~= s);
    assert(s =~= seq![LBRACE] + (spec_json_string(key_filename()) + rest1));
    lemma_skip_drop(s, 0, seq![LBRACE], spec_json_string(key_filename()) + rest1);
    assert(seq![LBRACE][0] == LBRACE);
    assert(s[0int + 0] == seq![LBRACE][0]);
    let ke = lemma_json_string_at(s, 1, key_filename(), rest1);
    lemma_skip_drop(s, ke, seq![COLON], spec_json_string(encode_utf8(m.filename)) + req_tail(m, 1));
    assert(seq![COLON][0] == COLON);
    assert(s[ke + 0] == seq![COLON][0]);
    let ve = lemma_json_string_at(s, ke + 1, encode_utf8(m.filename), req_tail(m, 1));
    lemma_req_tail_head_byte(m, 1);
    assert(s.skip(ve)[0] == s[ve]);
    (ke, ve)
}

/// The facts established at the start of a request field's key, bundled
/// for the decoder's proof. Field 0 is the opening `filename` field.
spec fn req_key_witness(
    s: Seq<u8>,
    m: DaemonRequestView,
    i0: int,
    ik: int,
    first0: bool,
    b0: ReqFields,
    j: int,
    ke: int,
    ve: int,
) -> bool {
    &&& 0 <= j <= 10
    &&& (j == 0 <==> first0)
    &&& 0 <= ik
    &&& ik + 1 < s.len()
    &&& s[ik] == QUOTE
    &&& sp_string_content(s, ik + 1, Seq::<u8>::empty()) == Some(
        (if j == 0 { key_filename() } else { req_key(j) }, ke),
    )
    &&& ke < s.len()
    &&& s[ke] == COLON
    &&& sp_ws(s, ke) == ke
    &&& ke + 1 < s.len()
    &&& sp_ws(s, ke + 1) == ke + 1
    &&& (j == 0 ==> sp_null_value(s, ke + 1) is None && sp_string_value(s, ke + 1) == Some(
        (encode_utf8(m.filename), ve),
    ))
    &&& (j >= 1 ==> b0 == req_state_at(m, j))
    &&& (is_str_field(j) ==> (req_str_val(m, j) matches Some(v) && sp_null_value(s, ke + 1) is None
        && sp_string_value(s, ke + 1) == Some((encode_utf8(v), ve))))
    &&& (is_bool_field(j) ==> (req_bool_val(m, j) matches Some(bv) && sp_null_value(
        s,
        ke + 1,
    ) is None && sp_bool_value(s, ke + 1) == Some((bv, ve))))
    &&& (is_milli_field(j) ==> (req_milli_val(m, j) matches Some(mv) && sp_null_value(
        s,
        ke + 1,
    ) is None && sp_milli_value(s, ke + 1) == Some((mv as nat, ve))))
    &&& ve < s.len()
    &&& sp_ws(s, ve) == ve
    &&& (s[ve] == COMMA || s[ve] == RBRACE)
    &&& s.skip(ve) == req_tail(m, if j == 0 { 1 } else { j + 1 })
}

/// Some request field's key lies ahead at `ik`.
spec fn req_key_ahead(
    s: Seq<u8>,
    m: DaemonRequestView,
    i0: int,
    ik: int,
    first0: bool,
    b0: ReqFields,
) -> bool {
    exists|j: int, ke: int, ve: int| req_key_witness(s, m, i0, ik, first0, b0, j, ke, ve)
}

/// Everything the request parser meets from the start of a field's key on
/// the canonical encoding of `m`.
proof fn lemma_req_at_key(
    s: Seq<u8>,
    m: DaemonRequestView,
    i0: int,
    ik: int,
    first0: bool,
    b0: ReqFields,
) -> (f: (int, int, int))
    requires
        s == spec_encode_request(m),
        first0 ==> ik == 1 && b0 == (ReqFields {
            filename: None,
            output_filename: None,
            copy_command: None,
            initial_tool: None,
            fullscreen: None,
            early_exit: None,
            corner_roundness: None,
            annotation_size_factor: None,
            default_hide_toolbars: None,
            no_window_decoration: None,
            stdin_data: None,
        }),
        !first0 ==> {
            &&& 0 <= i0 < s.len()
            &&& s[i0] == COMMA
            &&& ik == sp_ws(s, i0 + 1)
            &&& exists|k: int| 1 <= k <= 11 && s.skip(i0) == req_tail(m, k) && b0 == req_state_at(m, k)
        },
    ensures
        req_key_witness(s, m, i0, ik, first0, b0, f.0, f.1, f.2),
{
    if first0 {
        let h = lemma_req_head(s, m);
        let ke = h.0;
        let ve = h.1;
        lemma_ws_noop(s, ke);
        lemma_ws_noop(s, ke + 1);
        lemma_ws_noop(s, ve);
        (0, ke, ve)
    } else {
        let k = choose|k: int| 1 <= k <= 11 && s.skip(i0) == req_tail(m, k) && b0 == req_state_at(m, k);
        let f = lemma_req_comma_field(s, m, i0, k);
        let j = f.0;
        let ke = f.1;
        let ve = f.2;
        lemma_ws_noop(s, i0 + 1);
        lemma_ws_noop(s, ke);
        lemma_ws_noop(s, ke + 1);
        lemma_ws_noop(s, ve);
        assert(ik == i0 + 1);
        (j, ke, ve)
    }
}


/// One parsing step advances the canonical position: given the facts the
/// parser gathered about the key at `ik` and the value ending at `iend`,
/// the builder now holds the state before some later field `knew` and the
/// bytes from `inew` on are that field's tail.
#[verifier::rlimit(100)]
proof fn lemma_req_advance(
    s: Seq<u8>,
    m: DaemonRequestView,
    i0: int,
    ik: int,
    first0: bool,
    b_0: ReqFields,
    kbv: Seq<u8>,
    ake: int,
    vp: int,
    iend: int,
    bnew: ReqFields,
    inew: int,
) -> (knew: int)
    requires
        s == spec_encode_request(m),
        req_key_ahead(s, m, i0, ik, first0, b_0),
        first0 ==> b_0 == (ReqFields {
            filename: None,
            output_filename: None,
            copy_command: None,
            initial_tool: None,
            fullscreen: None,
            early_exit: None,
            corner_roundness: None,
            annotation_size_factor: None,
            default_hide_toolbars: None,
            no_window_decoration: None,
            stdin_data: None,
        }),
        sp_string_content(s, ik + 1, Seq::<u8>::empty()) == Some((kbv, ake)),
        0 <= ake <= s.len(),
        vp == sp_ws(s, sp_ws(s, ake) + 1),
        forall|content: Seq<u8>, ve: int|
            kbv == key_filename() && sp_null_value(s, vp) is None && #[trigger] sp_string_value(
                s,
                vp,
            ) == Some((content, ve)) ==> iend == ve && bnew == (ReqFields {
                filename: Some(content),
                ..b_0
            }),
        forall|content: Seq<u8>, ve: int|
            kbv == key_output_filename() && sp_null_value(s, vp) is None
                && #[trigger] sp_string_value(s, vp) == Some((content, ve)) ==> iend == ve && bnew
                == (ReqFields { output_filename: Some(content), ..b_0 }),
        forall|content: Seq<u8>, ve: int|
            kbv == key_copy_command() && sp_null_value(s, vp) is None && #[trigger] sp_string_value(
                s,
                vp,
            ) == Some((content, ve)) ==> iend == ve && bnew == (ReqFields {
                copy_command: Some(content),
                ..b_0
            }),
        forall|content: Seq<u8>, ve: int|
            kbv == key_initial_tool() && sp_null_value(s, vp) is None && #[trigger] sp_string_value(
                s,
                vp,
            ) == Some((content, ve)) ==> iend == ve && bnew == (ReqFields {
                initial_tool: Some(content),
                ..b_0
            }),
        forall|content: Seq<u8>, ve: int|
            kbv == key_stdin_data() && sp_null_value(s, vp) is None && #[trigger] sp_string_value(
                s,
                vp,
            ) == Some((content, ve)) ==> iend == ve && bnew == (ReqFields {
                stdin_data: Some(content),
                ..b_0
            }),
        forall|bv: bool, ve: int|
            kbv == key_fullscreen() && sp_null_value(s, vp) is None && #[trigger] sp_bool_value(
                s,
                vp,
            ) == Some((bv, ve)) ==> iend == ve && bnew == (ReqFields {
                fullscreen: Some(bv),
                ..b_0
            }),
        forall|bv: bool, ve: int|
            kbv == key_early_exit() && sp_null_value(s, vp) is None && #[trigger] sp_bool_value(
                s,
                vp,
            ) == Some((bv, ve)) ==> iend == ve && bnew == (ReqFields {
                early_exit: Some(bv),
                ..b_0
            }),
        forall|bv: bool, ve: int|
            kbv == key_default_hide_toolbars() && sp_null_value(s, vp) is None
                && #[trigger] sp_bool_value(s, vp) == Some((bv, ve)) ==> iend == ve && bnew == (
            ReqFields { default_hide_toolbars: Some(bv), ..b_0 }),
        forall|bv: bool, ve: int|
            kbv == key_no_window_decoration() && sp_null_value(s, vp) is None
                && #[trigger] sp_bool_value(s, vp) == Some((bv, ve)) ==> iend == ve && bnew == (
            ReqFields { no_window_decoration: Some(bv), ..b_0 }),
        forall|mv: nat, ve: int|
            kbv == key_corner_roundness() && sp_null_value(s, vp) is None
                && #[trigger] sp_milli_value(s, vp) == Some((mv, ve)) ==> iend == ve && bnew == (
            ReqFields { corner_roundness: Some(mv as u32), ..b_0 }),
        forall|mv: nat, ve: int|
            kbv == key_annotation_size_factor() && sp_null_value(s, vp) is None
                && #[trigger] sp_milli_value(s, vp) == Some((mv, ve)) ==> iend == ve && bnew == (
            ReqFields { annotation_size_factor: Some(mv as u32), ..b_0 }),
        0 <= iend <= s.len(),
        inew == sp_ws(s, iend),
    ensures
        1 <= knew <= 11,
        0 <= inew <= s.len(),
        s.skip(inew) == req_tail(m, knew),
        bnew == req_state_at(m, knew),
{
    lemma_request_keys();
    let (j, ke, ve) = choose|j: int, ke: int, ve: int|
        req_key_witness(s, m, i0, ik, first0, b_0, j, ke, ve);
    assert(kbv == (if j == 0 { key_filename() } else { req_key(j) }));
    assert(ake == ke);
    assert(vp == ke + 1);
    let knew = if j == 0 { 1int } else { j + 1 };
    if j == 0 {
        assert(sp_string_value(s, vp) == Some((encode_utf8(m.filename), ve)));
        assert(bnew == (ReqFields { filename: Some(encode_utf8(m.filename)), ..b_0 }));
        assert(bnew == req_state_at(m, 1));
    } else if is_str_field(j) {
        let v = req_str_val(m, j)->0;
        assert(sp_string_value(s, vp) == Some((encode_utf8(v), ve)));
        assert(b_0 == req_state_at(m, j));
        if j == 1 {
            assert(bnew == (ReqFields { output_filename: Some(encode_utf8(v)), ..b_0 }));
        } else if j == 2 {
            assert(bnew == (ReqFields { copy_command: Some(encode_utf8(v)), ..b_0 }));
        } else if j == 3 {
            assert(bnew == (ReqFields { initial_tool: Some(encode_utf8(v)), ..b_0 }));
        } else {
            assert(bnew == (ReqFields { stdin_data: Some(encode_utf8(v)), ..b_0 }));
        }
        assert(bnew == req_state_at(m, j + 1));
    } else if is_bool_field(j) {
        let bv = req_bool_val(m, j)->0;
        assert(sp_bool_value(s, vp) == Some((bv, ve)));
        assert(b_0 == req_state_at(m, j));
        if j == 4 {
            assert(bnew == (ReqFields { fullscreen: Some(bv), ..b_0 }));
        } else if j == 5 {
            assert(bnew == (ReqFields { early_exit: Some(bv), ..b_0 }));
        } else if j == 8 {
            assert(bnew == (ReqFields { default_hide_toolbars: Some(bv), ..b_0 }));
        } else {
            assert(bnew == (ReqFields { no_window_decoration: Some(bv), ..b_0 }));
        }
        assert(bnew == req_state_at(m, j + 1));
    } else {
        let mv = req_milli_val(m, j)->0;
        assert(sp_milli_value(s, vp) == Some((mv as nat, ve)));
        assert(b_0 == req_state_at(m, j));
        assert((mv as nat) as u32 == mv);
        if j == 6 {
            assert(bnew == (ReqFields { corner_roundness: Some(mv), ..b_0 }));
        } else {
            assert(bnew == (ReqFields { annotation_size_factor: Some(mv), ..b_0 }));
        }
        assert(bnew == req_state_at(m, j + 1));
    }
    assert(inew == sp_ws(s, ve));
    assert(inew == ve);
    knew
}

/// Take one field's value: dispatch on the key, tolerate `null` on the
/// optional fields, skip the value of an unknown key, and record what was
/// read. Returns the position just past the value.
#[verifier::rlimit(100)]
fn dispatch_request_field(s: &[u8], vp: usize, kb: &Vec<u8>, b: &mut ReqBuilder) -> (r: Result<
    usize,
    ProtocolError,
>)
    requires
        vp <= s@.len(),
    ensures
        r matches Err(e) ==> e is InvalidJson,
        r matches Ok(end) ==> vp < end <= s@.len(),
        forall|content: Seq<u8>, ve: int|
            kb@ == key_filename() && sp_null_value(s@, vp as int) is None && #[trigger] sp_string_value(
                s@,
                vp as int,
            ) == Some((content, ve)) ==> (r matches Ok(end) && end == ve && final(b)@
                == (ReqFields { filename: Some(content), ..old(b)@ })),
        forall|content: Seq<u8>, ve: int|
            kb@ == key_output_filename() && sp_null_value(s@, vp as int) is None
                && #[trigger] sp_string_value(s@, vp as int) == Some((content, ve)) ==> (
            r matches Ok(end) && end == ve && final(b)@ == (ReqFields {
                output_filename: Some(content),
                ..old(b)@
            })),
        forall|content: Seq<u8>, ve: int|
            kb@ == key_copy_command() && sp_null_value(s@, vp as int) is None
                && #[trigger] sp_string_value(s@, vp as int) == Some((content, ve)) ==> (
            r matches Ok(end) && end == ve && final(b)@ == (ReqFields {
                copy_command: Some(content),
                ..old(b)@
            })),
        forall|content: Seq<u8>, ve: int|
            kb@ == key_initial_tool() && sp_null_value(s@, vp as int) is None
                && #[trigger] sp_string_value(s@, vp as int) == Some((content, ve)) ==> (
            r matches Ok(end) && end == ve && final(b)@ == (ReqFields {
                initial_tool: Some(content),
                ..old(b)@
            })),
        forall|content: Seq<u8>, ve: int|
            kb@ == key_stdin_data() && sp_null_value(s@, vp as int) is None
                && #[trigger] sp_string_value(s@, vp as int) == Some((content, ve)) ==> (
            r matches Ok(end) && end == ve && final(b)@ == (ReqFields {
                stdin_data: Some(content),
                ..old(b)@
            })),
        forall|bv: bool, ve: int|
            kb@ == key_fullscreen() && sp_null_value(s@, vp as int) is None
                && #[trigger] sp_bool_value(s@, vp as int) == Some((bv, ve)) ==> (r matches Ok(end)
                && end == ve && final(b)@ == (ReqFields { fullscreen: Some(bv), ..old(b)@ })),
        forall|bv: bool, ve: int|
            kb@ == key_early_exit() && sp_null_value(s@, vp as int) is None
                && #[trigger] sp_bool_value(s@, vp as int) == Some((bv, ve)) ==> (r matches Ok(end)
                && end == ve && final(b)@ == (ReqFields { early_exit: Some(bv), ..old(b)@ })),
        forall|bv: bool, ve: int|
            kb@ == key_default_hide_toolbars() && sp_null_value(s@, vp as int) is None
                && #[trigger] sp_bool_value(s@, vp as int) == Some((bv, ve)) ==> (r matches Ok(end)
                && end == ve && final(b)@ == (ReqFields {
                default_hide_toolbars: Some(bv),
                ..old(b)@
            })),
        forall|bv: bool, ve: int|
            kb@ == key_no_window_decoration() && sp_null_value(s@, vp as int) is None
                && #[trigger] sp_bool_value(s@, vp as int) == Some((bv, ve)) ==> (r matches Ok(end)
                && end == ve && final(b)@ == (ReqFields {
                no_window_decoration: Some(bv),
                ..old(b)@
            })),
        forall|mv: nat, ve: int|
            kb@ == key_corner_roundness() && sp_null_value(s@, vp as int) is None
                && #[trigger] sp_milli_value(s@, vp as int) == Some((mv, ve)) ==> (r matches Ok(
                end,
            ) && end == ve && final(b)@ == (ReqFields {
                corner_roundness: Some(mv as u32),
                ..old(b)@
            })),
        forall|mv: nat, ve: int|
            kb@ == key_annotation_size_factor() && sp_null_value(s@, vp as int) is None
                && #[trigger] sp_milli_value(s@, vp as int) == Some((mv, ve)) ==> (r matches Ok(
                end,
            ) && end == ve && final(b)@ == (ReqFields {
                annotation_size_factor: Some(mv as u32),
                ..old(b)@
            })),
{
    proof {
        lemma_request_keys();
    }
    let mut end_pos: usize = 0;
    let key = kb.as_slice();
    if bytes_eq(key, "filename".as_bytes()) {
            match parse_null_value(s, vp) {
                Some(end) => {
                    b.filename = None;
                    end_pos = end;
                },
                None => match parse_string_content_value(s, vp) {
                    Some((v, end)) => {
                        b.filename = Some(v);
                        end_pos = end;
                    },
                    None => {
                        return Err(ProtocolError::InvalidJson);
                    },
                },
            }
        } else if bytes_eq(key, "output_filename".as_bytes()) {
            match parse_null_value(s, vp) {
                Some(end) => {
                    b.output_filename = None;
                    end_pos = end;
                },
                None => match parse_string_content_value(s, vp) {
                    Some((v, end)) => {
                        b.output_filename = Some(v);
                        end_pos = end;
                    },
                    None => {
                        return Err(ProtocolError::InvalidJson);
                    },
                },
            }
        } else if bytes_eq(key, "copy_command".as_bytes()) {
            match parse_null_value(s, vp) {
                Some(end) => {
                    b.copy_command = None;
                    end_pos = end;
                },
                None => match parse_string_content_value(s, vp) {
                    Some((v, end)) => {
                        b.copy_command = Some(v);
                        end_pos = end;
                    },
                    None => {
                        return Err(ProtocolError::InvalidJson);
                    },
                },
            }
        } else if bytes_eq(key, "initial_tool".as_bytes()) {
            match parse_null_value(s, vp) {
                Some(end) => {
                    b.initial_tool = None;
                    end_pos = end;
                },
                None => match parse_string_content_value(s, vp) {
                    Some((v, end)) => {
                        b.initial_tool = Some(v);
                        end_pos = end;
                    },
                    None => {
                        return Err(ProtocolError::InvalidJson);
                    },
                },
            }
        } else if bytes_eq(key, "fullscreen".as_bytes()) {
            match parse_null_value(s, vp) {
                Some(end) => {
                    b.fullscreen = None;
                    end_pos = end;
                },
                None => match parse_bool_value(s, vp) {
                    Some((v, end)) => {
                        b.fullscreen = Some(v);
                        end_pos = end;
                    },
                    None => {
                        return Err(ProtocolError::InvalidJson);
                    },
                },
            }
        } else if bytes_eq(key, "early_exit".as_bytes()) {
            match parse_null_value(s, vp) {
                Some(end) => {
                    b.early_exit = None;
                    end_pos = end;
                },
                None => match parse_bool_value(s, vp) {
                    Some((v, end)) => {
                        b.early_exit = Some(v);
                        end_pos = end;
                    },
                    None => {
                        return Err(ProtocolError::InvalidJson);
                    },
                },
            }
        } else if bytes_eq(key, "corner_roundness".as_bytes()) {
            match parse_null_value(s, vp) {
                Some(end) => {
                    b.corner_roundness = None;
                    end_pos = end;
                },
                None => match parse_milli_value(s, vp) {
                    Some((v, end)) => {
                        b.corner_roundness = Some(v);
                        end_pos = end;
                    },
                    None => {
                        return Err(ProtocolError::InvalidJson);
                    },
                },
            }
        } else if bytes_eq(key, "annotation_size_factor".as_bytes()) {
            match parse_null_value(s, vp) {
                Some(end) => {
                    b.annotation_size_factor = None;
                    end_pos = end;
                },
                None => match parse_milli_value(s, vp) {
                    Some((v, end)) => {
                        b.annotation_size_factor = Some(v);
                        end_pos = end;
                    },
                    None => {
                        return Err(ProtocolError::InvalidJson);
                    },
                },
            }
        } else if bytes_eq(key, "default_hide_toolbars".as_bytes()) {
            match parse_null_value(s, vp) {
                Some(end) => {
                    b.default_hide_toolbars = None;
                    end_pos = end;
                },
                None => match parse_bool_value(s, vp) {
                    Some((v, end)) => {
                        b.default_hide_toolbars = Some(v);
                        end_pos = end;
                    },
                    None => {
                        return Err(ProtocolError::InvalidJson);
                    },
                },
            }
        } else if bytes_eq(key, "no_window_decoration".as_bytes()) {
            match parse_null_value(s, vp) {
                Some(end) => {
                    b.no_window_decoration = None;
                    end_pos = end;
                },
                None => match parse_bool_value(s, vp) {
                    Some((v, end)) => {
                        b.no_window_decoration = Some(v);
                        end_pos = end;
                    },
                    None => {
                        return Err(ProtocolError::InvalidJson);
                    },
                },
            }
        } else if bytes_eq(key, "stdin_data".as_bytes()) {
            match parse_null_value(s, vp) {
                Some(end) => {
                    b.stdin_data = None;
                    end_pos = end;
                },
                None => match parse_string_content_value(s, vp) {
                    Some((v, end)) => {
                        b.stdin_data = Some(v);
                        end_pos = end;
                    },
                    None => {
                        return Err(ProtocolError::InvalidJson);
                    },
                },
            }
        } else {
            match skip_value(s, vp, MAX_SKIP_DEPTH) {
                Some(end) => {
                    end_pos = end;
                },
                None => {
                    return Err(ProtocolError::InvalidJson);
                },
            }
        }
    Ok(end_pos)
}

/// Decode a request object from JSON bytes. Whitespace, unknown fields
/// (whose values are skipped whole) and `null` for an optional field are
/// accepted; on the canonical encoding of any request value this returns
/// exactly that value.
#[verifier::rlimit(100)]
pub fn decode_request(s: &[u8]) -> (r: Result<DaemonRequest, ProtocolError>)
    ensures
        r matches Err(e) ==> e is InvalidJson,
        forall|m: DaemonRequestView| #[trigger] spec_encode_request(m) == s@ ==> (r matches Ok(q)
            && q@ == m),
        sp_ws(s@, 0) == s@.len() || s@[sp_ws(s@, 0)] != LBRACE ==> (r matches Err(e)
            && e is InvalidJson),
{
    broadcast use vstd::utf8::encode_utf8_valid_utf8, vstd::utf8::encode_utf8_decode_utf8;

    let ghost empty_fields = ReqFields {
        filename: None,
        output_filename: None,
        copy_command: None,
        initial_tool: None,
        fullscreen: None,
        early_exit: None,
        corner_roundness: None,
        annotation_size_factor: None,
        default_hide_toolbars: None,
        no_window_decoration: None,
        stdin_data: None,
    };
    let mut b = ReqBuilder {
        filename: None,
        output_filename: None,
        copy_command: None,
        initial_tool: None,
        fullscreen: None,
        early_exit: None,
        corner_roundness: None,
        annotation_size_factor: None,
        default_hide_toolbars: None,
        no_window_decoration: None,
        stdin_data: None,
    };
    proof {
        assert(b@ == empty_fields);
    }
    let mut i = skip_ws(s, 0);
    proof {
        assert forall|m: DaemonRequestView| #[trigger] spec_encode_request(m) == s@ implies i == 0
            && 0 < s@.len() && s@[0] == LBRACE by {
            let f = lemma_req_head(s@, m);
            lemma_ws_noop(s@, 0);
        }
    }
    if !(i < s.len() && s[i] == LBRACE) {
        return Err(ProtocolError::InvalidJson);
    }
    i = skip_ws(s, i + 1);
    proof {
        assert forall|m: DaemonRequestView| #[trigger] spec_encode_request(m) == s@ implies i
            == 1 by {
            let f = lemma_req_head(s@, m);
            lemma_ws_noop(s@, 1);
        }
    }
    let mut first = true;
    loop
        invariant_except_break
            forall|m: DaemonRequestView| #[trigger] spec_encode_request(m) == s@ ==> ({
                &&& (first ==> i == 1 && b@ == (ReqFields {
                    filename: None,
                    output_filename: None,
                    copy_command: None,
                    initial_tool: None,
                    fullscreen: None,
                    early_exit: None,
                    corner_roundness: None,
                    annotation_size_factor: None,
                    default_hide_toolbars: None,
                    no_window_decoration: None,
                    stdin_data: None,
                }))
                &&& (!first ==> exists|k: int|
                    1 <= k <= 11 && s@.skip(i as int) == req_tail(m, k) && b@ == req_state_at(m, k))
            }),
        invariant
            i <= s@.len(),
        ensures
            forall|m: DaemonRequestView| #[trigger] spec_encode_request(m) == s@ ==> (i == s@.len()
                && b@ == req_state_at(m, 11)),
        decreases s@.len() - i,
    {
        let ghost i0 = i as int;
        let ghost first0 = first;
        let ghost b_0 = b@;
        if i == s.len() {
            proof {
                assert forall|m: DaemonRequestView| #[trigger] spec_encode_request(m) == s@
                    implies false by {
                    if first0 {
                        let f = lemma_req_head(s@, m);
                    } else {
                        let k = choose|k: int|
                            1 <= k <= 11 && s@.skip(i0) == req_tail(m, k) && b_0 == req_state_at(
                                m,
                                k,
                            );
                        lemma_req_tail_head_byte(m, k);
                    }
                }
            }
            return Err(ProtocolError::InvalidJson);
        }
        if s[i] == RBRACE {
            i = i + 1;
            proof {
                assert forall|m: DaemonRequestView| #[trigger] spec_encode_request(m) == s@
                    implies i == s@.len() && b@ == req_state_at(m, 11) by {
                    if first0 {
                        let f = lemma_req_head(s@, m);
                    } else {
                        let k = choose|k: int|
                            1 <= k <= 11 && s@.skip(i0) == req_tail(m, k) && b_0 == req_state_at(
                                m,
                                k,
                            );
                        assert(s@.skip(i0)[0] == s@[i0]);
                        lemma_req_tail_head_byte(m, k);
                        lemma_req_tail_rbrace(m, k);
                        assert(s@.skip(i0).len() == 1);
                    }
                }
            }
            break;
        }
        if !first {
            if s[i] != COMMA {
                proof {
                    assert forall|m: DaemonRequestView| #[trigger] spec_encode_request(m) == s@
                        implies false by {
                        let k = choose|k: int|
                            1 <= k <= 11 && s@.skip(i0) == req_tail(m, k) && b_0 == req_state_at(
                                m,
                                k,
                            );
                        assert(s@.skip(i0)[0] == s@[i0]);
                        lemma_req_tail_head_byte(m, k);
                    }
                }
                return Err(ProtocolError::InvalidJson);
            }
            i = skip_ws(s, i + 1);
        }
        let ghost ik = i as int;
        proof {
            assert forall|m: DaemonRequestView| #[trigger] spec_encode_request(m) == s@ implies
                req_key_ahead(s@, m, i0, ik, first0, b_0) by {
                if first0 {
                    assert(ik == i0);
                }
                let f = lemma_req_at_key(s@, m, i0, ik, first0, b_0);
            }
        }
        if !(i < s.len() && s[i] == QUOTE) {
            return Err(ProtocolError::InvalidJson);
        }
        let (kb, after_key) = match parse_string_content(s, i + 1) {
            Some(p) => p,
            None => {
                return Err(ProtocolError::InvalidJson);
            },
        };
        let j2 = skip_ws(s, after_key);
        if !(j2 < s.len() && s[j2] == COLON) {
            return Err(ProtocolError::InvalidJson);
        }
        let vp = skip_ws(s, j2 + 1);
        match dispatch_request_field(s, vp, &kb, &mut b) {
            Ok(end) => {
                i = end;
            },
            Err(e) => {
                return Err(e);
            },
        }
        let ghost i_mid = i as int;
        i = skip_ws(s, i);
        first = false;
        proof {
            assert forall|m: DaemonRequestView| #[trigger] spec_encode_request(m) == s@ implies
                exists|k: int|
                    1 <= k <= 11 && s@.skip(i as int) == req_tail(m, k) && b@ == req_state_at(
                        m,
                        k,
                    ) by {
                let knew = lemma_req_advance(
                    s@,
                    m,
                    i0,
                    ik,
                    first0,
                    b_0,
                    kb@,
                    after_key as int,
                    vp as int,
                    i_mid,
                    b@,
                    i as int,
                );
            }
        }
    }
    let t = skip_ws(s, i);
    if t != s.len() {
        proof {
            assert forall|m: DaemonRequestView| #[trigger] spec_encode_request(m) == s@ implies
                false by {
                lemma_ws_noop(s@, i as int);
            }
        }
        return Err(ProtocolError::InvalidJson);
    }
    let filename = match build_opt_string(b.filename) {
        Ok(Some(f)) => f,
        Ok(None) => {
            return Err(ProtocolError::InvalidJson);
        },
        Err(e) => {
            return Err(e);
        },
    };
    let output_filename = match build_opt_string(b.output_filename) {
        Ok(v) => v,
        Err(e) => {
            return Err(e);
        },
    };
    let copy_command = match build_opt_string(b.copy_command) {
        Ok(v) => v,
        Err(e) => {
            return Err(e);
        },
    };
    let initial_tool = match build_opt_string(b.initial_tool) {
        Ok(v) => v,
        Err(e) => {
            return Err(e);
        },
    };
    let stdin_data = match build_opt_string(b.stdin_data) {
        Ok(v) => v,
        Err(e) => {
            return Err(e);
        },
    };
    Ok(DaemonRequest {
        filename,
        output_filename,
        copy_command,
        initial_tool,
        fullscreen: b.fullscreen,
        early_exit: b.early_exit,
        corner_roundness: build_opt_milli(b.corner_roundness),
        annotation_size_factor: build_opt_milli(b.annotation_size_factor),
        default_hide_toolbars: b.default_hide_toolbars,
        no_window_decoration: b.no_window_decoration,
        stdin_data,
    })
}

/// Parse a JSON string value: the opening quote, then its content.
fn parse_string_content_value(s: &[u8], start: usize) -> (r: Option<(Vec<u8>, usize)>)
    requires
        start <= s@.len(),
    ensures
        (match r {
            Some((v, end)) => Some((v@, end as int)),
            None => None,
        }) == sp_string_value(s@, start as int),
        r matches Some((v, end)) ==> start < end <= s@.len(),
{
    if start < s.len() && s[start] == QUOTE {
        parse_string_content(s, start + 1)
    } else {
        None
    }
}

/// The byte lengths of the response keys and status values, which tells
/// every pair of them apart.
proof fn lemma_response_keys()
    ensures
        key_status().len() == 6,
        key_window_id().len() == 9,
        key_message().len() == 7,
        encode_utf8("ok"@).len() == 2,
        encode_utf8("error"@).len() == 5,
{
    reveal_strlit("status");
    reveal_strlit("window_id");
    reveal_strlit("message");
    reveal_strlit("ok");
    reveal_strlit("error");
    assert(vstd::utf8::is_ascii_chars("status"@));
    assert(vstd::utf8::is_ascii_chars("window_id"@));
    assert(vstd::utf8::is_ascii_chars("message"@));
    assert(vstd::utf8::is_ascii_chars("ok"@));
    assert(vstd::utf8::is_ascii_chars("error"@));
    vstd::utf8::is_ascii_chars_encode_utf8("status"@);
    vstd::utf8::is_ascii_chars_encode_utf8("window_id"@);
    vstd::utf8::is_ascii_chars_encode_utf8("message"@);
    vstd::utf8::is_ascii_chars_encode_utf8("ok"@);
    vstd::utf8::is_ascii_chars_encode_utf8("error"@);
}

/// The fields a decoder has gathered after consuming the canonical
/// encoding of `m` up to (but not including) optional field `k`.
pub ghost struct RespFields {
    pub status: Option<ResponseStatus>,
    pub window_id: Option<u64>,
    pub message: Option<Seq<u8>>,
}

pub open spec fn resp_state_at(m: DaemonResponseView, k: int) -> RespFields {
    RespFields {
        status: Some(m.status),
        window_id: if k > 1 {
            m.window_id
        } else {
            None
        },
        message: if k > 2 {
            opt_utf8(m.message)
        } else {
            None
        },
    }
}

/// The canonical tail always begins with a comma or the closing brace.
proof fn lemma_resp_tail_first(r: DaemonResponseView, k: int)
    requires
        1 <= k <= 3,
    ensures
        resp_tail(r, k).len() >= 1,
        resp_tail(r, k)[0] == COMMA || resp_tail(r, k)[0] == RBRACE,
    decreases 3 - k,
{
    if k == 3 {
    } else if resp_seg(r, k).len() == 0 {
        lemma_resp_tail_first(r, k + 1);
        assert(resp_tail(r, k) =~= resp_tail(r, k + 1));
    } else {
        assert(resp_seg(r, k)[0] == COMMA);
        assert(resp_tail(r, k)[0] == COMMA);
    }
}

/// A canonical tail that begins with the closing brace is only the closing
/// brace: every remaining field is absent.
proof fn lemma_resp_tail_rbrace(r: DaemonResponseView, k: int)
    requires
        1 <= k <= 3,
        resp_tail(r, k).len() >= 1,
        resp_tail(r, k)[0] == RBRACE,
    ensures
        resp_tail(r, k) == seq![RBRACE],
        resp_state_at(r, k) == resp_state_at(r, 3),
    decreases 3 - k,
{
    if k == 3 {
    } else if resp_seg(r, k).len() == 0 {
        assert(resp_tail(r, k) =~= resp_tail(r, k + 1));
        lemma_resp_tail_rbrace(r, k + 1);
        assert(resp_state_at(r, k) == resp_state_at(r, k + 1));
    } else {
        assert(resp_seg(r, k)[0] == COMMA);
        assert(resp_tail(r, k)[0] == COMMA);
    }
}

/// The key of the response's optional field `j`.
pub open spec fn resp_key(j: int) -> Seq<u8> {
    if j == 1 {
        key_window_id()
    } else {
        key_message()
    }
}

/// A canonical tail that begins with a comma carries next a present field
/// `j`: its key, its value, and everything the parser meets on the way.
proof fn lemma_resp_comma_field(s: Seq<u8>, m: DaemonResponseView, i: int, k: int) -> (f: (int, int, int))
    requires
        0 <= i < s.len(),
        1 <= k <= 3,
        s.skip(i) == resp_tail(m, k),
        s[i] == COMMA,
    ensures
        ({
            let (j, ke, ve) = f;
            &&& k <= j <= 2
            &&& resp_state_at(m, k) == resp_state_at(m, j)
            &&& i + 1 < s.len()
            &&& s[i + 1] == QUOTE
            &&& sp_string_content(s, i + 2, Seq::<u8>::empty()) == Some((resp_key(j), ke))
            &&& ke < s.len()
            &&& s[ke] == COLON
            &&& ke + 1 < s.len()
            &&& (j == 1 ==> (m.window_id matches Some(id) && sp_null_value(s, ke + 1) is None
                && sp_u64_value(s, ke + 1) == Some((id as nat, ve)) && is_digit(s[ke + 1])))
            &&& (j == 2 ==> (m.message matches Some(v) && sp_null_value(s, ke + 1) is None
                && sp_string_value(s, ke + 1) == Some((encode_utf8(v), ve)) && s[ke + 1] == QUOTE))
            &&& i + 1 < ke
            &&& ke + 1 < ve
            &&& ve < s.len()
            &&& s.skip(ve) == resp_tail(m, j + 1)
            &&& (s[ve] == COMMA || s[ve] == RBRACE)
        }),
    decreases 3 - k,
{
    assert(s.skip(i)[0] == s[i]);
    assert(resp_tail(m, k).len() >= 1);
    if k == 3 {
        assert(resp_tail(m, 3)[0] == RBRACE);
        assert(false);
        (0, 0, 0)
    } else if resp_seg(m, k).len() == 0 {
        assert(resp_tail(m, k) =~= resp_tail(m, k + 1));
        let f = lemma_resp_comma_field(s, m, i, k + 1);
        assert(resp_state_at(m, k) == resp_state_at(m, k + 1));
        f
    } else {
        let j = k;
        let rest = resp_tail(m, j + 1);
        lemma_resp_tail_first(m, j + 1);
        if j == 1 {
            let id = m.window_id->0;
            let digits = spec_dec_digits(id as nat);
            assert(s.skip(i) =~= seq![COMMA] + spec_json_string(key_window_id()) + seq![COLON]
                + digits + rest);
            let ke = lemma_parse_field_at(s, i, key_window_id(), digits, rest);
            lemma_skip_drop(s, ke + 1, digits, rest);
            lemma_dec_digits_are_digits(id as nat);
            assert(s.subrange(ke + 1, ke + 1 + digits.len()) =~= digits) by {
                assert(forall|x: int| 0 <= x < digits.len() ==> #[trigger] s.subrange(
                    ke + 1,
                    ke + 1 + digits.len(),
                )[x] == s[ke + 1 + x]);
            }
            assert(s[ke + 1 + digits.len()] == rest[0]) by {
                assert(s.skip(ke + 1 + digits.len())[0] == s[ke + 1 + digits.len()]);
            }
            assert(!is_digit(s[ke + 1 + digits.len()]));
            lemma_parse_u64_inverts(s, ke + 1, id as nat);
            let ve = ke + 1 + digits.len();
            assert(s[ke + 1] == digits[0]);
            assert(is_digit(s[ke + 1]));
            crate::wire::lemma_null_value_none(s, ke + 1);
            assert(s.skip(ve)[0] == s[ve]);
            (j, ke, ve)
        } else {
            let v = m.message->0;
            assert(s.skip(i) =~= seq![COMMA] + spec_json_string(key_message()) + seq![COLON]
                + spec_json_string(encode_utf8(v)) + rest);
            let ke = lemma_parse_field_at(s, i, key_message(), spec_json_string(encode_utf8(v)), rest);
            let ve = lemma_json_string_at(s, ke + 1, encode_utf8(v), rest);
            assert(s.skip(ve)[0] == s[ve]);
            (j, ke, ve)
        }
    }
}

/// The opening of a canonical response: the brace, the `status` key, and
/// the status value, with the optional-field tail after them.
pub open spec fn status_content(st: ResponseStatus) -> Seq<u8> {
    if st == ResponseStatus::Success {
        encode_utf8("ok"@)
    } else {
        encode_utf8("error"@)
    }
}

proof fn lemma_resp_head(s: Seq<u8>, m: DaemonResponseView) -> (f: (int, int))
    requires
        s == spec_encode_response(m),
    ensures
        ({
            let (ke, ve) = f;
            &&& s.len() > 1
            &&& s[0] == LBRACE
            &&& s[1] == QUOTE
            &&& sp_string_content(s, 2, Seq::<u8>::empty()) == Some((key_status(), ke))
            &&& ke < s.len()
            &&& s[ke] == COLON
            &&& ke + 1 < s.len()
            &&& s[ke + 1] == QUOTE
            &&& sp_string_value(s, ke + 1) == Some((status_content(m.status), ve))
            &&& 1 < ke
            &&& ke + 1 < ve
            &&& ve < s.len()
            &&& s.skip(ve) == resp_tail(m, 1)
            &&& (s[ve] == COMMA || s[ve] == RBRACE)
        }),
{
    let rest1 = seq![COLON] + (resp_status_bytes(m.status) + resp_tail(m, 1));
    assert(s.skip(0) =~= s);
    assert(s =~= seq![LBRACE] + (spec_json_string(key_status()) + rest1));
    lemma_skip_drop(s, 0, seq![LBRACE], spec_json_string(key_status()) + rest1);
    assert(seq![LBRACE][0] == LBRACE);
    assert(s[0int + 0] == seq![LBRACE][0]);
    let ke = lemma_json_string_at(s, 1, key_status(), rest1);
    lemma_skip_drop(s, ke, seq![COLON], resp_status_bytes(m.status) + resp_tail(m, 1));
    assert(seq![COLON][0] == COLON);
    assert(s[ke + 0] == seq![COLON][0]);
    assert(resp_status_bytes(m.status) == spec_json_string(status_content(m.status)));
    let ve = lemma_json_string_at(s, ke + 1, status_content(m.status), resp_tail(m, 1));
    lemma_resp_tail_first(m, 1);
    assert(s.skip(ve)[0] == s[ve]);
    (ke, ve)
}


/// The facts [`lemma_resp_at_key`] establishes, bundled so the decoder's
/// proof can carry them across its branches: field `j` (0 is the opening
/// `status` field) has its key string at `ik`, its colon at `ke`, and its
/// value ending at `ve`.
spec fn resp_key_witness(
    s: Seq<u8>,
    m: DaemonResponseView,
    i0: int,
    ik: int,
    first0: bool,
    st: Option<ResponseStatus>,
    wid: Option<u64>,
    msg: Option<Seq<u8>>,
    j: int,
    ke: int,
    ve: int,
) -> bool {
    &&& 0 <= j <= 2
    &&& (j == 0 <==> first0)
    &&& 0 <= ik
    &&& ik + 1 < s.len()
    &&& s[ik] == QUOTE
    &&& sp_string_content(s, ik + 1, Seq::<u8>::empty()) == Some(
        (if j == 0 { key_status() } else { resp_key(j) }, ke),
    )
    &&& ke < s.len()
    &&& s[ke] == COLON
    &&& sp_ws(s, ke) == ke
    &&& ke + 1 < s.len()
    &&& sp_ws(s, ke + 1) == ke + 1
    &&& (j == 0 ==> sp_string_value(s, ke + 1) == Some((status_content(m.status), ve)))
    &&& (j == 1 ==> (m.window_id matches Some(id) && sp_null_value(s, ke + 1) is None
        && sp_u64_value(s, ke + 1) == Some((id as nat, ve)) && (RespFields {
        status: st,
        window_id: wid,
        message: msg,
    }) == resp_state_at(m, 1)))
    &&& (j == 2 ==> (m.message matches Some(v) && sp_null_value(s, ke + 1) is None
        && sp_string_value(s, ke + 1) == Some((encode_utf8(v), ve)) && (RespFields {
        status: st,
        window_id: wid,
        message: msg,
    }) == resp_state_at(m, 2)))
    &&& ve < s.len()
    &&& sp_ws(s, ve) == ve
    &&& (s[ve] == COMMA || s[ve] == RBRACE)
    &&& s.skip(ve) == resp_tail(m, if j == 0 { 1 } else { j + 1 })
}

/// Some field's key lies ahead at `ik`.
spec fn resp_key_ahead(
    s: Seq<u8>,
    m: DaemonResponseView,
    i0: int,
    ik: int,
    first0: bool,
    st: Option<ResponseStatus>,
    wid: Option<u64>,
    msg: Option<Seq<u8>>,
) -> bool {
    exists|j: int, ke: int, ve: int| resp_key_witness(s, m, i0, ik, first0, st, wid, msg, j, ke, ve)
}

/// Everything the parser meets from the start of a field's key on the
/// canonical encoding of `m`: the key string, the colon, the typed value,
/// and the tail that follows. `f` is `(j, ke, ve)`: the field number (0 is
/// the opening `status` field), the colon position, and the position just
/// past the value.
proof fn lemma_resp_at_key(
    s: Seq<u8>,
    m: DaemonResponseView,
    i0: int,
    ik: int,
    first0: bool,
    st: Option<ResponseStatus>,
    wid: Option<u64>,
    msg: Option<Seq<u8>>,
) -> (f: (int, int, int))
    requires
        s == spec_encode_response(m),
        first0 ==> ik == 1 && st is None && wid is None && msg is None,
        !first0 ==> {
            &&& 0 <= i0 < s.len()
            &&& s[i0] == COMMA
            &&& ik == sp_ws(s, i0 + 1)
            &&& exists|k: int|
                1 <= k <= 3 && s.skip(i0) == resp_tail(m, k) && (RespFields {
                    status: st,
                    window_id: wid,
                    message: msg,
                }) == resp_state_at(m, k)
        },
    ensures
        resp_key_witness(s, m, i0, ik, first0, st, wid, msg, f.0, f.1, f.2),
{
    lemma_response_keys();
    if first0 {
        let h = lemma_resp_head(s, m);
        let ke = h.0;
        let ve = h.1;
        lemma_ws_noop(s, ke);
        lemma_ws_noop(s, ke + 1);
        lemma_ws_noop(s, ve);
        (0, ke, ve)
    } else {
        let k = choose|k: int|
            1 <= k <= 3 && s.skip(i0) == resp_tail(m, k) && (RespFields {
                status: st,
                window_id: wid,
                message: msg,
            }) == resp_state_at(m, k);
        let f = lemma_resp_comma_field(s, m, i0, k);
        let j = f.0;
        let ke = f.1;
        let ve = f.2;
        lemma_ws_noop(s, i0 + 1);
        lemma_ws_noop(s, ke);
        lemma_ws_noop(s, ke + 1);
        lemma_ws_noop(s, ve);
        assert(ik == i0 + 1);
        (j, ke, ve)
    }
}

/// Decode a response object from JSON bytes, with the same tolerance as
/// `decode_request` — and proven to invert the canonical encoding: on
/// `spec_encode_response(m)` it returns exactly `m`, for every `m`.
#[verifier::rlimit(60)]
pub fn decode_response(s: &[u8]) -> (r: Result<DaemonResponse, ProtocolError>)
    ensures
        r matches Err(e) ==> e is InvalidJson,
        forall|m: DaemonResponseView| #[trigger] spec_encode_response(m) == s@ ==> (r matches Ok(q)
            && q@ == m),
        sp_ws(s@, 0) == s@.len() || s@[sp_ws(s@, 0)] != LBRACE ==> (r matches Err(e)
            && e is InvalidJson),
{
    broadcast use vstd::utf8::encode_utf8_valid_utf8, vstd::utf8::encode_utf8_decode_utf8;

    let mut status: Option<ResponseStatus> = None;
    let mut window_id: Option<u64> = None;
    let mut message: Option<Vec<u8>> = None;
    let mut i = skip_ws(s, 0);
    proof {
        assert forall|m: DaemonResponseView| #[trigger] spec_encode_response(m) == s@ implies i
            == 0 && 0 < s@.len() && s@[0] == LBRACE by {
            let f = lemma_resp_head(s@, m);
            lemma_ws_noop(s@, 0);
        }
    }
    if !(i < s.len() && s[i] == LBRACE) {
        return Err(ProtocolError::InvalidJson);
    }
    i = skip_ws(s, i + 1);
    proof {
        assert forall|m: DaemonResponseView| #[trigger] spec_encode_response(m) == s@ implies i
            == 1 by {
            let f = lemma_resp_head(s@, m);
            lemma_ws_noop(s@, 1);
        }
    }
    let mut first = true;
    loop
        invariant_except_break
            forall|m: DaemonResponseView| #[trigger] spec_encode_response(m) == s@ ==> ({
                &&& (first ==> i == 1 && status is None && window_id is None && message is None)
                &&& (!first ==> exists|k: int|
                    1 <= k <= 3 && s@.skip(i as int) == resp_tail(m, k) && (RespFields {
                        status,
                        window_id,
                        message: view_opt_bytes(message),
                    }) == resp_state_at(m, k))
            }),
        invariant
            i <= s@.len(),
        ensures
            forall|m: DaemonResponseView| #[trigger] spec_encode_response(m) == s@ ==> (i
                == s@.len() && status == Some(m.status) && window_id == m.window_id
                && view_opt_bytes(message) == opt_utf8(m.message)),
        decreases s@.len() - i,
    {
        let ghost i0 = i as int;
        let ghost first0 = first;
        let ghost st_0 = status;
        let ghost wid_0 = window_id;
        let ghost msg_0 = message;
        if i == s.len() {
            proof {
                assert forall|m: DaemonResponseView| #[trigger] spec_encode_response(m) == s@
                    implies false by {
                    if first0 {
                        let f = lemma_resp_head(s@, m);
                    } else {
                        let k = choose|k: int|
                            1 <= k <= 3 && s@.skip(i0) == resp_tail(m, k) && (RespFields {
                                status,
                                window_id,
                                message: view_opt_bytes(message),
                            }) == resp_state_at(m, k);
                        lemma_resp_tail_first(m, k);
                    }
                }
            }
            return Err(ProtocolError::InvalidJson);
        }
        if s[i] == RBRACE {
            i = i + 1;
            proof {
                assert forall|m: DaemonResponseView| #[trigger] spec_encode_response(m) == s@
                    implies i == s@.len() && status == Some(m.status) && window_id == m.window_id
                    && view_opt_bytes(message) == opt_utf8(m.message) by {
                    if first0 {
                        let f = lemma_resp_head(s@, m);
                    } else {
                        let k = choose|k: int|
                            1 <= k <= 3 && s@.skip(i0) == resp_tail(m, k) && (RespFields {
                                status,
                                window_id,
                                message: view_opt_bytes(message),
                            }) == resp_state_at(m, k);
                        assert(s@.skip(i0)[0] == s@[i0]);
                        lemma_resp_tail_first(m, k);
                        lemma_resp_tail_rbrace(m, k);
                        assert(s@.skip(i0).len() == 1);
                    }
                }
            }
            break;
        }
        if !first {
            if s[i] != COMMA {
                proof {
                    assert forall|m: DaemonResponseView| #[trigger] spec_encode_response(m) == s@
                        implies false by {
                        let k = choose|k: int|
                            1 <= k <= 3 && s@.skip(i0) == resp_tail(m, k) && (RespFields {
                                status,
                                window_id,
                                message: view_opt_bytes(message),
                            }) == resp_state_at(m, k);
                        assert(s@.skip(i0)[0] == s@[i0]);
                        lemma_resp_tail_first(m, k);
                    }
                }
                return Err(ProtocolError::InvalidJson);
            }
            i = skip_ws(s, i + 1);
        }
        proof {
            assert forall|m: DaemonResponseView| #[trigger] spec_encode_response(m) == s@ implies
                resp_key_ahead(s@, m, i0, i as int, first0, st_0, wid_0, view_opt_bytes(msg_0)) by {
                let f = lemma_resp_at_key(
                    s@,
                    m,
                    i0,
                    i as int,
                    first0,
                    st_0,
                    wid_0,
                    view_opt_bytes(msg_0),
                );
            }
        }
        let ghost ik = i as int;
        if !(i < s.len() && s[i] == QUOTE) {
            return Err(ProtocolError::InvalidJson);
        }
        let (kb, after_key) = match parse_string_content(s, i + 1) {
            Some(p) => p,
            None => {
                return Err(ProtocolError::InvalidJson);
            },
        };
        let j2 = skip_ws(s, after_key);
        if !(j2 < s.len() && s[j2] == COLON) {
            return Err(ProtocolError::InvalidJson);
        }
        let vp = skip_ws(s, j2 + 1);
        let key = kb.as_slice();
        proof {
            lemma_response_keys();
        }
        if bytes_eq(key, "status".as_bytes()) {
            match parse_string_content_value(s, vp) {
                Some((v, end)) => {
                    if bytes_eq(v.as_slice(), "ok".as_bytes()) {
                        status = Some(ResponseStatus::Success);
                    } else if bytes_eq(v.as_slice(), "error".as_bytes()) {
                        status = Some(ResponseStatus::Error);
                    } else {
                        return Err(ProtocolError::InvalidJson);
                    }
                    i = end;
                },
                None => {
                    return Err(ProtocolError::InvalidJson);
                },
            }
        } else if bytes_eq(key, "window_id".as_bytes()) {
            match parse_null_value(s, vp) {
                Some(end) => {
                    window_id = None;
                    i = end;
                },
                None => match parse_u64_value(s, vp) {
                    Some((v, end)) => {
                        window_id = Some(v);
                        i = end;
                    },
                    None => {
                        return Err(ProtocolError::InvalidJson);
                    },
                },
            }
        } else if bytes_eq(key, "message".as_bytes()) {
            match parse_null_value(s, vp) {
                Some(end) => {
                    message = None;
                    i = end;
                },
                None => match parse_string_content_value(s, vp) {
                    Some((v, end)) => {
                        message = Some(v);
                        i = end;
                    },
                    None => {
                        return Err(ProtocolError::InvalidJson);
                    },
                },
            }
        } else {
            match skip_value(s, vp, MAX_SKIP_DEPTH) {
                Some(end) => {
                    i = end;
                },
                None => {
                    return Err(ProtocolError::InvalidJson);
                },
            }
        }
        i = skip_ws(s, i);
        first = false;
        proof {
            assert forall|m: DaemonResponseView| #[trigger] spec_encode_response(m) == s@ implies
                exists|k: int|
                    1 <= k <= 3 && s@.skip(i as int) == resp_tail(m, k) && (RespFields {
                        status,
                        window_id,
                        message: view_opt_bytes(message),
                    }) == resp_state_at(m, k) by {
                lemma_response_keys();
                let (j, ke, ve) = choose|j: int, ke: int, ve: int|
                    resp_key_witness(s@, m, i0, ik, first0, st_0, wid_0, view_opt_bytes(msg_0), j, ke, ve);
                let knew = if j == 0 { 1int } else { j + 1 };
                assert(1 <= knew <= 3 && s@.skip(i as int) == resp_tail(m, knew) && (RespFields {
                    status,
                    window_id,
                    message: view_opt_bytes(message),
                }) == resp_state_at(m, knew));
            }
        }
    }
    let t = skip_ws(s, i);
    if t != s.len() {
        proof {
            assert forall|m: DaemonResponseView| #[trigger] spec_encode_response(m) == s@ implies
                false by {
                lemma_ws_noop(s@, i as int);
            }
        }
        return Err(ProtocolError::InvalidJson);
    }
    let status = match status {
        Some(st) => st,
        None => {
            return Err(ProtocolError::InvalidJson);
        },
    };
    let message = match build_opt_string(message) {
        Ok(v) => v,
        Err(e) => {
            return Err(e);
        },
    };
    Ok(DaemonResponse { status, window_id, message })
}

impl DaemonRequest {
    /// Deserialize from JSON bytes and check semantic validity, so that a
    /// structurally broken payload is told apart (`InvalidJson`) from a
    /// well-formed one missing required content (`MissingField`).
    pub fn from_bytes(bytes: &[u8]) -> (r: Result<DaemonRequest, ProtocolError>)
        ensures
            r matches Ok(q) ==> spec_request_valid(q@),
            forall|m: DaemonRequestView|
                #[trigger] spec_encode_request(m) == bytes@ && spec_request_valid(m) ==> (
                r matches Ok(q) && q@ == m),
            forall|m: DaemonRequestView|
                #[trigger] spec_encode_request(m) == bytes@ && m.filename.len() == 0 ==> (
                r matches Err(ProtocolError::MissingField(f)) && f@ == "filename"@),
            forall|m: DaemonRequestView|
                #[trigger] spec_encode_request(m) == bytes@ && m.filename.len() > 0 && m.filename
                    == "-"@ && m.stdin_data is None ==> (r matches Err(
                ProtocolError::MissingField(f),
            ) && f@ == "stdin_data (required when filename is '-')"@),
            sp_ws(bytes@, 0) == bytes@.len() || bytes@[sp_ws(bytes@, 0)] != LBRACE ==> (
            r matches Err(e) && e is InvalidJson),
    {
        let request = match decode_request(bytes) {
            Ok(q) => q,
            Err(e) => {
                return Err(e);
            },
        };
        match request.validate() {
            Ok(()) => Ok(request),
            Err(e) => Err(e),
        }
    }
}

impl DaemonResponse {
    /// Deserialize from JSON bytes.
    pub fn from_bytes(bytes: &[u8]) -> (r: Result<DaemonResponse, ProtocolError>)
        ensures
            r matches Err(e) ==> e is InvalidJson,
            forall|m: DaemonResponseView| #[trigger] spec_encode_response(m) == bytes@ ==> (
            r matches Ok(q) && q@ == m),
            sp_ws(bytes@, 0) == bytes@.len() || bytes@[sp_ws(bytes@, 0)] != LBRACE ==> (
            r matches Err(e) && e is InvalidJson),
    {
        decode_response(bytes)
    }
}

impl DaemonRequest {
    /// Serialize to canonical JSON bytes, rejecting a result over the
    /// message cap with `MessageTooLarge` carrying the oversized length.
    pub fn to_bytes(&self) -> (r: Result<Vec<u8>, ProtocolError>)
        ensures
            spec_encode_request(self@).len() <= MAX_MESSAGE_SIZE ==> (r matches Ok(v) && v@
                == spec_encode_request(self@)),
            spec_encode_request(self@).len() > MAX_MESSAGE_SIZE ==> r == Err::<
                Vec<u8>,
                ProtocolError,
            >(ProtocolError::MessageTooLarge(spec_encode_request(self@).len() as usize)),
    {
        let out = encode_request(self);
        if out.len() > MAX_MESSAGE_SIZE {
            return Err(ProtocolError::MessageTooLarge(out.len()));
        }
        Ok(out)
    }
}

impl DaemonResponse {
    /// Serialize to canonical JSON bytes.
    pub fn to_bytes(&self) -> (r: Result<Vec<u8>, ProtocolError>)
        ensures
            r matches Ok(v) && v@ == spec_encode_response(self@),
    {
        Ok(encode_response(self))
    }
}

} // verus!
