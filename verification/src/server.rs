//! The OCR service's messages, and the decisions it takes on a request:
//! whether it is well-formed, whether the queue admits it, and how busy the
//! service reports itself.
use vstd::prelude::*;
use vstd::string::*;

use crate::ocr::OcrResult;
use crate::text::{i64_to_decimal, int_to_decimal};

verus! {

/// A recognition request carrying a base64-encoded image.
#[derive(Debug, Clone)]
pub struct OcrRequest {
    pub image_base64: String,
}

/// The reply to a recognition request.
#[derive(Debug, Clone)]
pub struct OcrResponse {
    pub success: bool,
    pub expression: Option<String>,
    pub result: Option<i32>,
    pub equal_symbol: Option<i32>,
    pub operator: Option<i32>,
    pub digit1: Option<i32>,
    pub digit2: Option<i32>,
    pub error: Option<String>,
}

impl OcrResponse {
    /// A successful reply with every part of the recognised expression.
    pub fn success(expr: String, result: i32, equal_symbol: i32, op: i32, d1: i32, d2: i32) -> (r: Self)
        ensures
            r.success,
            r.expression == Some(expr),
            r.result == Some(result),
            r.equal_symbol == Some(equal_symbol),
            r.operator == Some(op),
            r.digit1 == Some(d1),
            r.digit2 == Some(d2),
            r.error is None,
    {
        OcrResponse {
            success: true,
            expression: Some(expr),
            result: Some(result),
            equal_symbol: Some(equal_symbol),
            operator: Some(op),
            digit1: Some(d1),
            digit2: Some(d2),
            error: None,
        }
    }

    /// A failed reply carrying only the message.
    pub fn error(msg: String) -> (r: Self)
        ensures
            !r.success,
            r.expression is None,
            r.result is None,
            r.equal_symbol is None,
            r.operator is None,
            r.digit1 is None,
            r.digit2 is None,
            r.error == Some(msg),
    {
        OcrResponse {
            success: false,
            expression: None,
            result: None,
            equal_symbol: None,
            operator: None,
            digit1: None,
            digit2: None,
            error: Some(msg),
        }
    }

    /// The successful reply for a recognised captcha.
    pub fn from_result(r: OcrResult) -> (out: Self)
        ensures
            out.success,
            out.expression == Some(r.expr),
            out.result == Some(r.result),
            out.equal_symbol == Some(r.equal_symbol.code_spec()),
            out.operator == Some(r.operator.code_spec()),
            out.digit1 == Some(r.digit1),
            out.digit2 == Some(r.digit2),
            out.error is None,
    {
        let e = r.equal_symbol.code();
        let o = r.operator.code();
        OcrResponse::success(r.expr, r.result, e, o, r.digit1, r.digit2)
    }
}

/// The health report of the service.
#[derive(Debug, Clone)]
pub struct HealthResponse {
    pub status: String,
    pub availability_level: String,
    pub reason: Option<String>,
    pub models_loaded: bool,
    pub pool_size: usize,
    pub queue_capacity: usize,
    pub pending_requests: usize,
    pub server_name: Option<String>,
}

pub open spec fn availability_spec(pending: int, queue_capacity: int) -> Seq<char> {
    if pending == 0 {
        "available"@
    } else if pending < queue_capacity * 3 / 4 {
        "busy"@
    } else {
        "overloaded"@
    }
}

/// How loaded the service is: idle is `available`, under three quarters of
/// the queue is `busy`, anything more is `overloaded`.
pub fn availability_level(pending: usize, queue_capacity: usize) -> (r: &'static str)
    requires
        queue_capacity * 3 <= usize::MAX,
    ensures
        r@ == availability_spec(pending as int, queue_capacity as int),
{
    if pending == 0 {
        "available"
    } else if pending < queue_capacity * 3 / 4 {
        "busy"
    } else {
        "overloaded"
    }
}

/// The health status: `healthy` while the queue has room, else `busy`.
pub fn health_status(pending: usize, queue_capacity: usize) -> (r: &'static str)
    ensures
        r@ == (if pending < queue_capacity { "healthy"@ } else { "busy"@ }),
{
    if pending < queue_capacity {
        "healthy"
    } else {
        "busy"
    }
}

/// The queue admits a request while fewer than its capacity are pending.
pub fn admits(pending: usize, queue_capacity: usize) -> (r: bool)
    ensures
        r == (pending < queue_capacity),
{
    pending < queue_capacity
}

/// `a + b` on 64-bit counters, wrapping around as the pool's counters do.
pub open spec fn counter_add(a: u64, b: u64) -> u64 {
    ((a + b) % 0x1_0000_0000_0000_0000) as u64
}

/// The request counters of the OCR pool.
#[derive(Debug, Clone, Copy, PartialEq, Eq, Structural)]
pub struct PoolStats {
    /// Requests admitted and not yet finished.
    pub pending: usize,
    pub total_requests: u64,
    pub success_count: u64,
    pub failure_count: u64,
    /// The time all finished requests took, in milliseconds.
    pub total_response_ms: u64,
}

impl PoolStats {
    pub fn new() -> (r: Self)
        ensures
            r == (PoolStats {
                pending: 0,
                total_requests: 0,
                success_count: 0,
                failure_count: 0,
                total_response_ms: 0,
            }),
    {
        PoolStats { pending: 0, total_requests: 0, success_count: 0, failure_count: 0, total_response_ms: 0 }
    }

    /// A request arrives. It is admitted while fewer than `queue_capacity`
    /// requests are pending; an admitted request is pending and counted,
    /// a refused one changes nothing.
    pub fn try_admit(&mut self, queue_capacity: usize) -> (r: bool)
        ensures
            r == (old(self).pending < queue_capacity),
            r ==> *final(self) == (PoolStats {
                pending: (old(self).pending + 1) as usize,
                total_requests: counter_add(old(self).total_requests, 1),
                ..*old(self)
            }),
            !r ==> *final(self) == *old(self),
    {
        if !admits(self.pending, queue_capacity) {
            return false;
        }
        self.pending = self.pending + 1;
        self.total_requests = self.total_requests.wrapping_add(1);
        true
    }

    /// An admitted request finished after `elapsed_ms`, recognised or not:
    /// it is no longer pending, its time is added, and it counts as a
    /// success or a failure.
    pub fn complete(&mut self, elapsed_ms: u64, recognised: bool)
        requires
            old(self).pending > 0,
        ensures
            final(self).pending == old(self).pending - 1,
            final(self).total_requests == old(self).total_requests,
            final(self).total_response_ms == counter_add(old(self).total_response_ms, elapsed_ms),
            recognised ==> final(self).success_count == counter_add(old(self).success_count, 1)
                && final(self).failure_count == old(self).failure_count,
            !recognised ==> final(self).failure_count == counter_add(old(self).failure_count, 1)
                && final(self).success_count == old(self).success_count,
    {
        self.pending = self.pending - 1;
        self.total_response_ms = self.total_response_ms.wrapping_add(elapsed_ms);
        if recognised {
            self.success_count = self.success_count.wrapping_add(1);
        } else {
            self.failure_count = self.failure_count.wrapping_add(1);
        }
    }
}

/// What the standard base64 engine makes of `text`: the decoded bytes, or
/// the engine's description of the fault.
pub uninterp spec fn base64_decoded(text: Seq<char>) -> Result<Seq<u8>, Seq<char>>;

/// `base64`: `engine::general_purpose::STANDARD.decode(text)`; a refusal
/// is handed back as the text of the engine's `DecodeError`.
#[verifier::external_body]
fn base64_decode(text: &str) -> (r: Result<Vec<u8>, String>)
    ensures
        match r {
            Ok(b) => base64_decoded(text@) == Ok::<Seq<u8>, Seq<char>>(b@),
            Err(m) => base64_decoded(text@) == Err::<Seq<u8>, Seq<char>>(m@),
        },
{
    base64::Engine::decode(&base64::engine::general_purpose::STANDARD, text).map_err(|e| e.to_string())
}

/// HTTP `400 Bad Request`.
pub const STATUS_BAD_REQUEST: u16 = 400;

/// HTTP `422 Unprocessable Entity`.
pub const STATUS_UNPROCESSABLE: u16 = 422;

/// HTTP `503 Service Unavailable`.
pub const STATUS_UNAVAILABLE: u16 = 503;

/// The image of a base64 request, or the status and reply refusing it: an
/// empty image is a bad request; text that does not decode cannot be
/// processed.
pub fn request_image(req: &OcrRequest) -> (r: Result<Vec<u8>, (u16, OcrResponse)>)
    ensures
        req.image_base64@.len() == 0 ==> (r matches Err((s, resp)) && s == STATUS_BAD_REQUEST
            && !resp.success && (resp.error matches Some(m) && m@ == "image_base64 is empty"@)),
        req.image_base64@.len() > 0 ==> match base64_decoded(req.image_base64@) {
            Ok(bytes) => r matches Ok(v) && v@ == bytes,
            Err(fault) => r matches Err((s, resp)) && s == STATUS_UNPROCESSABLE && !resp.success
                && (resp.error matches Some(m) && m@ == "Base64 decode error: "@ + fault),
        },
{
    if req.image_base64.unicode_len() == 0 {
        return Err((STATUS_BAD_REQUEST, OcrResponse::error(String::from_str("image_base64 is empty"))));
    }
    match base64_decode(req.image_base64.as_str()) {
        Ok(b) => Ok(b),
        Err(fault) => {
            let mut m = String::from_str("Base64 decode error: ");
            m.append(fault.as_str());
            Err((STATUS_UNPROCESSABLE, OcrResponse::error(m)))
        },
    }
}

/// The reply to a recognition attempt on an admitted or refused request:
/// a full queue is `503 Queue full`; a recognised captcha is a success;
/// a failed recognition is `422` with its message.
pub fn recognition_reply(admitted: bool, outcome: Result<OcrResult, String>) -> (r: Result<OcrResponse, (u16, OcrResponse)>)
    ensures
        !admitted ==> (r matches Err((s, resp)) && s == STATUS_UNAVAILABLE && !resp.success && (resp.error matches Some(m) && m@ == "Queue full"@)),
        admitted ==> match outcome {
            Ok(x) => r matches Ok(resp) && resp.success && resp.expression == Some(x.expr) && resp.result == Some(x.result),
            Err(e) => r matches Err((s, resp)) && s == STATUS_UNPROCESSABLE && resp.error == Some(e),
        },
{
    if !admitted {
        return Err((STATUS_UNAVAILABLE, OcrResponse::error(String::from_str("Queue full"))));
    }
    match outcome {
        Ok(x) => Ok(OcrResponse::from_result(x)),
        Err(e) => Err((STATUS_UNPROCESSABLE, OcrResponse::error(e))),
    }
}

// ---------------------------------------------------------------------------
// The TCP protocol: an image, then `<END>`; the reply ends with `<END>` too
// ---------------------------------------------------------------------------
/// A request larger than this is refused.
pub const MAX_TCP_REQUEST: usize = 10485760;

pub open spec fn end_marker() -> Seq<u8> {
    seq![60u8, 69u8, 78u8, 68u8, 62u8]
}

/// `<END>` starts at `i` in `buf`.
pub open spec fn marker_at(buf: Seq<u8>, i: int) -> bool {
    0 <= i && i + 5 <= buf.len() && buf.subrange(i, i + 5) == end_marker()
}

/// Where the received bytes stand.
#[derive(Debug, Clone, Copy, PartialEq, Eq, Structural)]
pub enum Frame {
    /// The image is complete: it is the bytes before the first `<END>`.
    Complete(usize),
    /// Too many bytes without `<END>`.
    TooLarge,
    /// Keep reading.
    Incomplete,
}

/// What the bytes received so far amount to: a complete image up to the
/// first `<END>`; otherwise too large past the size limit; otherwise
/// incomplete.
pub fn frame_of(buf: &[u8]) -> (r: Frame)
    ensures
        r matches Frame::Complete(e) ==> marker_at(buf@, e as int) && forall|k: int| 0 <= k < e ==> !#[trigger] marker_at(buf@, k),
        r == Frame::TooLarge ==> buf@.len() > MAX_TCP_REQUEST && forall|k: int| 0 <= k < buf@.len() ==> !#[trigger] marker_at(buf@, k),
        r == Frame::Incomplete ==> buf@.len() <= MAX_TCP_REQUEST && forall|k: int| 0 <= k < buf@.len() ==> !#[trigger] marker_at(buf@, k),
{
    let n = buf.len();
    let mut i: usize = 0;
    while i < n && n - i >= 5
        invariant
            i <= n,
            n == buf@.len(),
            forall|k: int| 0 <= k < i ==> !#[trigger] marker_at(buf@, k),
        decreases n - i,
    {
        if buf[i] == 60u8 && buf[i + 1] == 69u8 && buf[i + 2] == 78u8 && buf[i + 3] == 68u8 && buf[i + 4] == 62u8 {
            assert(buf@.subrange(i as int, i + 5) =~= end_marker());
            return Frame::Complete(i);
        }
        assert(!marker_at(buf@, i as int)) by {
            if marker_at(buf@, i as int) {
                assert(buf@.subrange(i as int, i + 5)[0] == buf@[i as int]);
                assert(buf@.subrange(i as int, i + 5)[1] == buf@[i + 1]);
                assert(buf@.subrange(i as int, i + 5)[2] == buf@[i + 2]);
                assert(buf@.subrange(i as int, i + 5)[3] == buf@[i + 3]);
                assert(buf@.subrange(i as int, i + 5)[4] == buf@[i + 4]);
            }
        }
        i = i + 1;
    }
    if n > MAX_TCP_REQUEST {
        Frame::TooLarge
    } else {
        Frame::Incomplete
    }
}

/// The reply to a TCP request: an empty image and a full queue are errors;
/// a recognised captcha is `expr|result|equals|operator|digit1|digit2`; a
/// failed one is `ERROR:` and its message. Every reply ends with `<END>`.
pub fn tcp_reply(image_empty: bool, admitted: bool, outcome: Result<OcrResult, String>) -> (r: String)
    ensures
        image_empty ==> r@ == "ERROR:Empty image<END>"@,
        !image_empty && !admitted ==> r@ == "ERROR:Server busy<END>"@,
        !image_empty && admitted ==> match outcome {
            Ok(x) => r@ == x.expr@ + "|"@ + int_to_decimal(x.result as int) + "|"@ + int_to_decimal(
                x.equal_symbol.code_spec() as int,
            ) + "|"@ + int_to_decimal(x.operator.code_spec() as int) + "|"@ + int_to_decimal(
                x.digit1 as int,
            ) + "|"@ + int_to_decimal(x.digit2 as int) + "<END>"@,
            Err(e) => r@ == "ERROR:"@ + e@ + "<END>"@,
        },
{
    if image_empty {
        return String::from_str("ERROR:Empty image<END>");
    }
    if !admitted {
        return String::from_str("ERROR:Server busy<END>");
    }
    match outcome {
        Ok(x) => {
            let mut r = x.expr.clone();
            r.append("|");
            let a = i64_to_decimal(x.result as i64);
            r.append(a.as_str());
            r.append("|");
            let b = i64_to_decimal(x.equal_symbol.code() as i64);
            r.append(b.as_str());
            r.append("|");
            let c = i64_to_decimal(x.operator.code() as i64);
            r.append(c.as_str());
            r.append("|");
            let d = i64_to_decimal(x.digit1 as i64);
            r.append(d.as_str());
            r.append("|");
            let e = i64_to_decimal(x.digit2 as i64);
            r.append(e.as_str());
            r.append("<END>");
            r
        },
        Err(e) => {
            let mut r = String::from_str("ERROR:");
            r.append(e.as_str());
            r.append("<END>");
            r
        },
    }
}

} // verus!
