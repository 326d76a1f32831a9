//! Captcha answers: turning what an OCR service recognised (an expression
//! such as `12+34=46`, or a bare answer) into the code the login form wants.
use vstd::prelude::*;
use vstd::string::*;

use crate::text::{
    chars_of, nat_to_decimal, string_of_range, u64_to_decimal, lemma_trim_end_shape, lemma_trim_idempotent, lemma_trim_start_shape, parse_i32,
    parse_i32_spec, rfind_char, rfind_char_exec, trim, trim_end, trim_start, trimmed_range,
};

verus! {

/// The answer part of a recognised captcha expression: the text after the
/// last `=`, trimmed; without any `=` the whole text, trimmed.
pub open spec fn expr_result(e: Seq<char>) -> Seq<char> {
    match rfind_char(e, '=') {
        Some(i) => trim(e.subrange(i + 1, e.len() as int)),
        None => trim(e),
    }
}

proof fn lemma_rfind_none(s: Seq<char>, c: char)
    requires
        forall|k: int| 0 <= k < s.len() ==> #[trigger] s[k] != c,
    ensures
        rfind_char(s, c) is None,
    decreases s.len(),
{
    if s.len() > 0 {
        assert(s.last() == s[s.len() - 1]);
        let t = s.drop_last();
        assert forall|k: int| 0 <= k < t.len() implies #[trigger] t[k] != c by {
            assert(t[k] == s[k]);
        }
        lemma_rfind_none(t, c);
    }
}

proof fn lemma_rfind_last(s: Seq<char>, c: char, i: int)
    requires
        rfind_char(s, c) == Some(i),
    ensures
        0 <= i < s.len(),
        s[i] == c,
        forall|k: int| i < k < s.len() ==> #[trigger] s[k] != c,
    decreases s.len(),
{
    if s.last() != c {
        let t = s.drop_last();
        lemma_rfind_last(t, c, i);
        assert forall|k: int| i < k < s.len() implies #[trigger] s[k] != c by {
            if k < s.len() - 1 {
                assert(t[k] == s[k]);
            }
        }
    }
}

/// Every character of `trim(s)` is a character of `s`.
proof fn lemma_trim_chars(s: Seq<char>, c: char)
    requires
        forall|k: int| 0 <= k < s.len() ==> #[trigger] s[k] != c,
    ensures
        forall|k: int| 0 <= k < trim(s).len() ==> #[trigger] trim(s)[k] != c,
{
    let a = trim_start(s);
    lemma_trim_start_shape(s);
    lemma_trim_end_shape(a);
    assert forall|k: int| 0 <= k < trim(s).len() implies #[trigger] trim(s)[k] != c by {
        assert(trim(s)[k] == a[k]);
        assert(a[k] == s[s.len() - a.len() + k]);
    }
}

/// Taking the answer of an answer changes nothing: the answer holds no `=`
/// and no surrounding white space.
pub proof fn lemma_expr_result_idempotent(e: Seq<char>)
    ensures
        expr_result(expr_result(e)) == expr_result(e),
        rfind_char(expr_result(e), '=') is None,
{
    let r = expr_result(e);
    match rfind_char(e, '=') {
        Some(i) => {
            lemma_rfind_last(e, '=', i);
            let tail = e.subrange(i + 1, e.len() as int);
            assert forall|k: int| 0 <= k < tail.len() implies #[trigger] tail[k] != '=' by {
                assert(tail[k] == e[i + 1 + k]);
            }
            lemma_trim_chars(tail, '=');
        },
        None => {
            assert forall|k: int| 0 <= k < e.len() implies #[trigger] e[k] != '=' by {
                if e[k] == '=' {
                    lemma_rfind_some(e, k);
                }
            }
            lemma_trim_chars(e, '=');
        },
    }
    lemma_rfind_none(r, '=');
    lemma_trim_idempotent(if rfind_char(e, '=') is Some {
        e.subrange(rfind_char(e, '=')->0 + 1, e.len() as int)
    } else {
        e
    });
}

proof fn lemma_rfind_some(s: Seq<char>, k: int)
    requires
        0 <= k < s.len(),
        s[k] == '=',
    ensures
        rfind_char(s, '=') is Some,
    decreases s.len(),
{
    if s.last() != '=' {
        let t = s.drop_last();
        assert(k < s.len() - 1);
        assert(t[k] == s[k]);
        lemma_rfind_some(t, k);
    }
}

/// Extracts the answer from a recognised expression: `12+34=46` gives `46`;
/// text without `=` is given back trimmed.
pub fn get_expr_result(expr: &str) -> (r: String)
    ensures
        r@ == expr_result(expr@),
{
    let v = chars_of(expr);
    match rfind_char_exec(&v, '=') {
        Some(pos) => trimmed_range(&v, pos + 1, v.len()),
        None => {
            let r = trimmed_range(&v, 0, v.len());
            assert(v@.subrange(0, v@.len() as int) =~= v@);
            r
        },
    }
}

/// The message of the error `extract_result_i32` gives back.
pub open spec fn not_an_integer_message(answer: Seq<char>) -> Seq<char> {
    "无法解析答案为整数: "@ + answer
}

/// Extracts the answer from a recognised expression and reads it as an
/// integer; the error names the answer that could not be read.
pub fn extract_result_i32(expr: &str) -> (r: Result<i32, String>)
    ensures
        parse_i32_spec(expr_result(expr@)) matches Some(n) ==> r == Ok::<i32, String>(n),
        parse_i32_spec(expr_result(expr@)) is None ==> (r matches Err(m) && m@
            == not_an_integer_message(expr_result(expr@))),
{
    let answer = get_expr_result(expr);
    match parse_i32(answer.as_str()) {
        Some(n) => Ok(n),
        None => {
            let mut m = String::from_str("无法解析答案为整数: ");
            m.append(answer.as_str());
            Err(m)
        },
    }
}

/// Whether a resolved captcha value still has to be evaluated.
#[derive(Debug, Clone, Copy, PartialEq, Eq, Structural)]
pub enum CaptchaAnswerKind {
    /// A complete expression (such as `12+34=`) the caller still evaluates.
    Expression,
    /// Already the final answer.
    Answer,
}

/// What a captcha resolver produced.
#[derive(Debug, Clone)]
pub struct CaptchaAnswer {
    pub value: String,
    pub kind: CaptchaAnswerKind,
}

impl CaptchaAnswer {
    /// The answer that the login form expects for this value.
    pub open spec fn final_answer(self) -> Seq<char> {
        match self.kind {
            CaptchaAnswerKind::Answer => self.value@,
            CaptchaAnswerKind::Expression => expr_result(self.value@),
        }
    }

    pub fn new(value: String, kind: CaptchaAnswerKind) -> (r: Self)
        ensures
            r.value == value,
            r.kind == kind,
    {
        CaptchaAnswer { value, kind }
    }

    pub fn answer(value: String) -> (r: Self)
        ensures
            r.value == value,
            r.kind == CaptchaAnswerKind::Answer,
    {
        Self::new(value, CaptchaAnswerKind::Answer)
    }

    pub fn expression(value: String) -> (r: Self)
        ensures
            r.value == value,
            r.kind == CaptchaAnswerKind::Expression,
    {
        Self::new(value, CaptchaAnswerKind::Expression)
    }

    /// Reduces an answer or an expression to the final answer string.
    pub fn into_final_answer(self) -> (r: String)
        ensures
            r@ == self.final_answer(),
    {
        match self.kind {
            CaptchaAnswerKind::Answer => self.value,
            CaptchaAnswerKind::Expression => get_expr_result(self.value.as_str()),
        }
    }
}

/// A final answer reduces to itself; an expression reduces to its answer,
/// and reducing that answer again gives the same string.
pub proof fn lemma_final_answer(v: String)
    ensures
        CaptchaAnswer::answer_spec(v).final_answer() == v@,
        CaptchaAnswer::expression_spec(v).final_answer() == expr_result(v@),
        (CaptchaAnswer { value: v, kind: CaptchaAnswerKind::Answer }).final_answer() == v@,
        expr_result(CaptchaAnswer::expression_spec(v).final_answer()) == CaptchaAnswer::expression_spec(
            v,
        ).final_answer(),
{
    lemma_expr_result_idempotent(v@);
}

impl CaptchaAnswer {
    pub open spec fn answer_spec(v: String) -> CaptchaAnswer {
        CaptchaAnswer { value: v, kind: CaptchaAnswerKind::Answer }
    }

    pub open spec fn expression_spec(v: String) -> CaptchaAnswer {
        CaptchaAnswer { value: v, kind: CaptchaAnswerKind::Expression }
    }
}

/// Address of a remote TCP OCR service.
#[derive(Debug, Clone)]
pub struct CaptchaOcr {
    pub host: String,
    pub port: u16,
}

impl CaptchaOcr {
    pub fn new(host: &str, port: u16) -> (r: Self)
        ensures
            r.host@ == host@,
            r.port == port,
    {
        CaptchaOcr { host: String::from_str(host), port }
    }
}

/// Resolves captchas through a remote TCP OCR service, retrying a few times.
#[derive(Debug, Clone)]
pub struct OcrCaptchaResolver {
    pub ocr: CaptchaOcr,
    pub max_retries: usize,
}

impl OcrCaptchaResolver {
    pub fn new(host: &str, port: u16) -> (r: Self)
        ensures
            r.ocr.host@ == host@,
            r.ocr.port == port,
            r.max_retries == 3,
    {
        OcrCaptchaResolver { ocr: CaptchaOcr::new(host, port), max_retries: 3 }
    }

    pub fn with_retries(self, retries: usize) -> (r: Self)
        ensures
            r.ocr == self.ocr,
            r.max_retries == retries,
    {
        OcrCaptchaResolver { ocr: self.ocr, max_retries: retries }
    }

    pub fn from_ocr(ocr: CaptchaOcr) -> (r: Self)
        ensures
            r.ocr == ocr,
            r.max_retries == 3,
    {
        OcrCaptchaResolver { ocr, max_retries: 3 }
    }
}

/// Resolves captchas with a caller-supplied function that reads the
/// expression off the image.
pub struct ExprCaptchaResolver<F> where F: Fn(&[u8]) -> String + Send + Sync {
    pub expr_provider: F,
}

impl<F> ExprCaptchaResolver<F> where F: Fn(&[u8]) -> String + Send + Sync {
    pub fn new(expr_provider: F) -> (r: Self)
        ensures
            r.expr_provider == expr_provider,
    {
        ExprCaptchaResolver { expr_provider }
    }

    /// Asks the provider for the expression and answers with its result.
    pub fn resolve_answer(&self, image_data: &[u8]) -> (r: CaptchaAnswer)
        requires
            call_requires(self.expr_provider, (image_data,)),
        ensures
            r.kind == CaptchaAnswerKind::Answer,
            exists|e: String|
                call_ensures(self.expr_provider, (image_data,), e) && r.value@ == expr_result(e@),
    {
        let expr = (self.expr_provider)(image_data);
        let answer = get_expr_result(expr.as_str());
        CaptchaAnswer::answer(answer)
    }
}

// ---------------------------------------------------------------------------
// Asking an OCR service, with retries
// ---------------------------------------------------------------------------
/// What to do after one recognition attempt.
#[derive(Debug, PartialEq, Eq)]
pub enum RetryStep {
    /// The service answered; this is the expression.
    Done(String),
    /// Try again, after a pause when the attempt failed outright.
    Retry { pause: bool },
}

/// Repeated recognition attempts: up to `max_retries` of them, stopping at
/// the first non-empty answer. An empty answer is retried at once; a
/// failed attempt is retried after a pause. When all attempts are spent,
/// the last failure is the error.
#[derive(Debug)]
pub struct OcrRetry {
    pub attempt: usize,
    pub max_retries: usize,
    pub last_error: Option<String>,
}

impl OcrRetry {
    pub fn new(max_retries: usize) -> (r: Self)
        ensures
            r.attempt == 0,
            r.max_retries == max_retries,
            r.last_error is None,
    {
        OcrRetry { attempt: 0, max_retries, last_error: None }
    }

    /// Another attempt is due.
    pub fn should_try(&self) -> (r: bool)
        ensures
            r == (self.attempt < self.max_retries),
    {
        self.attempt < self.max_retries
    }

    /// Takes the outcome of an attempt (the service's answer, or the
    /// message of its failure).
    pub fn record(&mut self, outcome: Result<String, String>) -> (r: RetryStep)
        requires
            old(self).attempt < old(self).max_retries,
        ensures
            final(self).attempt == old(self).attempt + 1,
            final(self).max_retries == old(self).max_retries,
            match outcome {
                Ok(s) => if s@.len() > 0 {
                    r == RetryStep::Done(s) && final(self).last_error == old(self).last_error
                } else {
                    r == (RetryStep::Retry { pause: false }) && (final(self).last_error matches Some(m) && m@ == "OCR返回空结果"@)
                },
                Err(e) => r == (RetryStep::Retry { pause: true }) && final(self).last_error == Some(e),
            },
    {
        self.attempt = self.attempt + 1;
        match outcome {
            Ok(s) => {
                if s.unicode_len() > 0 {
                    RetryStep::Done(s)
                } else {
                    self.last_error = Some(String::from_str("OCR返回空结果"));
                    RetryStep::Retry { pause: false }
                }
            },
            Err(e) => {
                self.last_error = Some(e);
                RetryStep::Retry { pause: true }
            },
        }
    }

    /// The error once every attempt is spent: the last failure, or, when no
    /// attempt was made, `{prefix}在{max_retries}次重试后失败`.
    pub fn failure(self, prefix: &str) -> (r: String)
        ensures
            match self.last_error {
                Some(e) => r@ == e@,
                None => r@ == prefix@ + "在"@ + nat_to_decimal(self.max_retries as nat) + "次重试后失败"@,
            },
    {
        match self.last_error {
            Some(e) => e,
            None => {
                let mut m = String::from_str(prefix);
                m.append("在");
                let n = u64_to_decimal(self.max_retries as u64);
                m.append(n.as_str());
                m.append("次重试后失败");
                m
            },
        }
    }
}

/// The expression an HTTP OCR reply carries, or its error: a successful
/// reply must carry an expression; a failed one reports its error, or
/// `未知错误` when it gives none.
pub fn ocr_http_reply(success: bool, expression: Option<String>, error: Option<String>) -> (r: Result<String, String>)
    ensures
        success && expression is Some ==> r == Ok::<String, String>(expression.unwrap()),
        success && expression is None ==> (r matches Err(m) && m@ == "OCR成功但未返回表达式"@),
        !success ==> (r matches Err(m) && m@ == "RESTful OCR识别失败: "@ + match error {
            Some(e) => e@,
            None => "未知错误"@,
        }),
{
    if success {
        match expression {
            Some(e) => Ok(e),
            None => Err(String::from_str("OCR成功但未返回表达式")),
        }
    } else {
        let mut m = String::from_str("RESTful OCR识别失败: ");
        match error {
            Some(e) => m.append(e.as_str()),
            None => m.append("未知错误"),
        }
        Err(m)
    }
}

/// `s` without its trailing slashes.
pub open spec fn trim_slashes_end(s: Seq<char>) -> Seq<char>
    decreases s.len(),
{
    if s.len() > 0 && s.last() == '/' {
        trim_slashes_end(s.drop_last())
    } else {
        s
    }
}

/// Address of a RESTful OCR service.
#[derive(Debug, Clone)]
pub struct CaptchaOcrHttp {
    pub base_url: String,
}

impl CaptchaOcrHttp {
    /// The service at `base_url`, kept without trailing slashes.
    pub fn new(base_url: &str) -> (r: Self)
        ensures
            r.base_url@ == trim_slashes_end(base_url@),
    {
        let v = chars_of(base_url);
        let mut hi = v.len();
        assert(v@.subrange(0, hi as int) =~= v@);
        while hi > 0 && v[hi - 1] == '/'
            invariant
                hi <= v.len(),
                trim_slashes_end(v@) == trim_slashes_end(v@.subrange(0, hi as int)),
            decreases hi,
        {
            assert(v@.subrange(0, hi as int).drop_last() =~= v@.subrange(0, hi - 1));
            hi = hi - 1;
        }
        CaptchaOcrHttp { base_url: string_of_range(&v, 0, hi) }
    }

    /// The recognition endpoint.
    pub fn ocr_url(&self) -> (r: String)
        ensures
            r@ == self.base_url@ + "/api/ocr"@,
    {
        let mut r = self.base_url.clone();
        r.append("/api/ocr");
        r
    }

    /// The health endpoint.
    pub fn health_url(&self) -> (r: String)
        ensures
            r@ == self.base_url@ + "/api/health"@,
    {
        let mut r = self.base_url.clone();
        r.append("/api/health");
        r
    }
}

/// The standard base64 encoding of `bytes`.
pub uninterp spec fn base64_encoded(bytes: Seq<u8>) -> Seq<char>;

/// `base64`: `engine::general_purpose::STANDARD.encode(bytes)`.
#[verifier::external_body]
fn base64_encode(bytes: &[u8]) -> (r: String)
    ensures
        r@ == base64_encoded(bytes@),
{
    base64::Engine::encode(&base64::engine::general_purpose::STANDARD, bytes)
}

/// The image as the RESTful OCR service takes it: standard base64.
pub fn encode_image(image_data: &[u8]) -> (r: String)
    ensures
        r@ == base64_encoded(image_data@),
{
    base64_encode(image_data)
}

/// Resolves captchas through a RESTful OCR service, retrying a few times.
#[derive(Debug, Clone)]
pub struct OcrHttpCaptchaResolver {
    pub ocr: CaptchaOcrHttp,
    pub max_retries: usize,
}

impl OcrHttpCaptchaResolver {
    pub fn new(base_url: &str) -> (r: Self)
        ensures
            r.ocr.base_url@ == trim_slashes_end(base_url@),
            r.max_retries == 3,
    {
        OcrHttpCaptchaResolver { ocr: CaptchaOcrHttp::new(base_url), max_retries: 3 }
    }

    pub fn with_retries(self, retries: usize) -> (r: Self)
        ensures
            r.ocr == self.ocr,
            r.max_retries == retries,
    {
        OcrHttpCaptchaResolver { ocr: self.ocr, max_retries: retries }
    }

    pub fn from_ocr(ocr: CaptchaOcrHttp) -> (r: Self)
        ensures
            r.ocr == ocr,
            r.max_retries == 3,
    {
        OcrHttpCaptchaResolver { ocr, max_retries: 3 }
    }
}

} // verus!
