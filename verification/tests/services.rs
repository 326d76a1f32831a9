use shmtu::captcha::{ocr_http_reply, CaptchaOcrHttp, OcrRetry, RetryStep, encode_image};
use shmtu::cas::epay::{self, bill_reply, bill_url};
use shmtu::cas::wechat::{self, ticket_reply};
use shmtu::cas::{classify_login_error, execution_of, login_error_text, login_result, redirect_target, CasAuthResult, ReplyError};
use shmtu::cookie::CookieJar;
use shmtu::image::{convert_to_binary, revert_color, RgbImage};
use shmtu::ocr::{EqualSymbol, ExprOperator, OcrResult};
use shmtu::server::{frame_of, tcp_reply, Frame, PoolStats, admits, availability_level, health_status, recognition_reply, request_image, OcrRequest, OcrResponse};

#[test]
fn login_errors_are_classified() {
    assert_eq!(classify_login_error("Your account is not recognized"), CasAuthResult::PasswordError);
    assert_eq!(classify_login_error("用户名或密码错误"), CasAuthResult::PasswordError);
    assert_eq!(classify_login_error("reCAPTCHA failed"), CasAuthResult::ValidateCodeError);
    assert_eq!(classify_login_error("验证码错误"), CasAuthResult::ValidateCodeError);
    assert_eq!(classify_login_error("locked"), CasAuthResult::Failure("locked".to_string()));
    assert_eq!(classify_login_error("用户名或密码 / 验证码"), CasAuthResult::PasswordError);
}

#[test]
fn login_reply_reads_status_and_error_panel() {
    assert_eq!(
        login_result(302, "https://x/y", ""),
        CasAuthResult::Success { location: "https://x/y".to_string() }
    );
    let page = r#"<html><div id="loginErrorsPanel">验证码错误</div></html>"#;
    assert_eq!(login_error_text(page), "验证码错误");
    assert_eq!(login_result(200, "", page), CasAuthResult::ValidateCodeError);
    assert_eq!(login_result(200, "", "<html></html>"), CasAuthResult::Failure(String::new()));
}

#[test]
fn execution_token_and_redirects() {
    let page = r#"<form><input name="execution" value="e1s1"/><input name="execution" value="x"/></form>"#;
    assert_eq!(execution_of(page), Some("e1s1".to_string()));
    assert_eq!(execution_of("<form></form>"), None);
    assert_eq!(redirect_target(301, Some("/a")), Some("/a".to_string()));
    assert_eq!(redirect_target(302, None), None);
    assert_eq!(redirect_target(200, Some("/a")), None);
}

#[test]
fn epay_probe_and_bill_replies() {
    assert!(matches!(epay::probe_result(200, ""), Ok(epay::LoginProbe::AlreadyLoggedIn)));
    match epay::probe_result(302, "https://cas/login") {
        Ok(epay::LoginProbe::NeedLogin { login_url }) => assert_eq!(login_url, "https://cas/login"),
        _ => panic!("expected a login address"),
    }
    assert!(matches!(epay::probe_result(302, ""), Err(ReplyError::EmptyRedirect)));
    assert!(matches!(epay::probe_result(500, ""), Err(ReplyError::UnexpectedStatus(500))));
    assert_eq!(bill_url(7, "2"), "https://ecard.shmtu.edu.cn/epay/consume/query?pageNo=7&tabNo=2");
    assert_eq!(bill_reply(200), Ok(()));
    assert_eq!(bill_reply(302), Err(ReplyError::NotLoggedIn));
    assert_eq!(bill_reply(404), Err(ReplyError::UnexpectedStatus(404)));
    let (r, next) = epay::submit_result(CasAuthResult::Success { location: "https://e/cb".to_string() });
    assert_eq!(r, epay::LoginSubmitResult::Success);
    assert_eq!(next, Some("https://e/cb".to_string()));
    let (r, next) = epay::submit_result(CasAuthResult::Failure("m".to_string()));
    assert_eq!(r, epay::LoginSubmitResult::Failure("m".to_string()));
    assert_eq!(next, None);
}

#[test]
fn wechat_probe_ticket_and_final_url() {
    match wechat::probe_result(302, "https://t") {
        Ok(wechat::LoginProbe::NeedLogin { ticket_url }) => assert_eq!(ticket_url, "https://t"),
        _ => panic!("expected a ticket address"),
    }
    assert_eq!(ticket_reply(302, "https://cas"), Ok("https://cas".to_string()));
    assert_eq!(ticket_reply(200, "https://cas"), Err(ReplyError::UnexpectedStatus(200)));
    assert_eq!(ticket_reply(302, ""), Err(ReplyError::EmptyRedirect));
    let (r, next) = wechat::submit_result(CasAuthResult::Success { location: "https://s?t=1".to_string() });
    assert_eq!(r, wechat::LoginSubmitResult::Success);
    assert_eq!(
        next,
        Some("https://s?t=1&from=http://hqzx.shmtu.edu.cn/cellphone/getHotWater".to_string())
    );
    assert_eq!(wechat::submit_result(CasAuthResult::PasswordError).0, wechat::LoginSubmitResult::PasswordError);
    assert_eq!(wechat::hot_water_reply(503), Err(ReplyError::UnexpectedStatus(503)));
}

#[test]
fn cookie_jar_replaces_same_name() {
    let mut jar = CookieJar::new();
    assert_eq!(jar.get(), "");
    jar.add_from_set_cookie("JSESSIONID=abc; Path=/; HttpOnly");
    jar.add_from_set_cookie("route=r1; Path=/");
    jar.add_from_set_cookie("JSESSIONID=def; Path=/");
    assert_eq!(jar.get(), "route=r1; JSESSIONID=def");
    jar.add_from_set_cookie("novalue=; Path=/");
    jar.add_from_set_cookie("bare");
    assert_eq!(jar.get(), "route=r1; JSESSIONID=def");
    let entries = jar.entries();
    assert_eq!(entries, vec![
        ("route".to_string(), "r1".to_string()),
        ("JSESSIONID".to_string(), "def".to_string()),
    ]);
    let mut other = CookieJar::new();
    other.restore_entries(&entries);
    assert_eq!(other.get(), jar.get());
}

#[test]
fn ocr_retry_machine() {
    let mut r = OcrRetry::new(3);
    assert!(r.should_try());
    assert_eq!(r.record(Err("down".to_string())), RetryStep::Retry { pause: true });
    assert_eq!(r.record(Ok(String::new())), RetryStep::Retry { pause: false });
    assert_eq!(r.record(Ok("1+1=2".to_string())), RetryStep::Done("1+1=2".to_string()));
    assert!(!r.should_try());
    assert_eq!(r.failure("OCR"), "OCR返回空结果");
    let none = OcrRetry::new(0);
    assert!(!none.should_try());
    assert_eq!(none.failure("RESTful OCR"), "RESTful OCR在0次重试后失败");
}

#[test]
fn http_ocr_replies_and_addresses() {
    assert_eq!(ocr_http_reply(true, Some("3+5=8".to_string()), None), Ok("3+5=8".to_string()));
    assert_eq!(ocr_http_reply(true, None, None), Err("OCR成功但未返回表达式".to_string()));
    assert_eq!(ocr_http_reply(false, None, Some("boom".to_string())), Err("RESTful OCR识别失败: boom".to_string()));
    assert_eq!(ocr_http_reply(false, None, None), Err("RESTful OCR识别失败: 未知错误".to_string()));
    let c = CaptchaOcrHttp::new("http://127.0.0.1:8080//");
    assert_eq!(c.base_url, "http://127.0.0.1:8080");
    assert_eq!(c.ocr_url(), "http://127.0.0.1:8080/api/ocr");
    assert_eq!(c.health_url(), "http://127.0.0.1:8080/api/health");
    assert_eq!(encode_image(b"hi"), "aGk=");
}

fn result() -> OcrResult {
    OcrResult {
        result: 8,
        expr: "3 + 5 = 8".to_string(),
        equal_symbol: EqualSymbol::NotApplicable,
        operator: ExprOperator::AddChs,
        digit1: 3,
        digit2: 5,
    }
}

#[test]
fn server_decisions() {
    assert_eq!(availability_level(0, 8), "available");
    assert_eq!(availability_level(5, 8), "busy");
    assert_eq!(availability_level(6, 8), "overloaded");
    assert_eq!(health_status(7, 8), "healthy");
    assert_eq!(health_status(8, 8), "busy");
    assert!(admits(7, 8));
    assert!(!admits(8, 8));
    let (s, resp) = request_image(&OcrRequest { image_base64: String::new() }).unwrap_err();
    assert_eq!(s, 400);
    assert_eq!(resp.error.as_deref(), Some("image_base64 is empty"));
    let (s, resp) = request_image(&OcrRequest { image_base64: "***".to_string() }).unwrap_err();
    assert_eq!(s, 422);
    assert!(!resp.success);
    assert!(resp.error.as_deref().unwrap().starts_with("Base64 decode error: "));
    let (_, resp) = request_image(&OcrRequest { image_base64: "a*==".to_string() }).unwrap_err();
    assert_eq!(resp.error.as_deref(), Some("Base64 decode error: Invalid symbol 42, offset 1."));
    assert_eq!(request_image(&OcrRequest { image_base64: "aGk=".to_string() }).unwrap(), b"hi".to_vec());
    let ok = recognition_reply(true, Ok(result())).unwrap();
    assert!(ok.success);
    assert_eq!(ok.equal_symbol, Some(-1));
    assert_eq!(ok.operator, Some(1));
    assert_eq!(ok.result, Some(8));
    let (s, full) = recognition_reply(false, Ok(result())).unwrap_err();
    assert_eq!(s, 503);
    assert_eq!(full.error.as_deref(), Some("Queue full"));
    let (s, bad) = recognition_reply(true, Err("model".to_string())).unwrap_err();
    assert_eq!(s, 422);
    assert_eq!(bad.error.as_deref(), Some("model"));
    let e = OcrResponse::error("x".to_string());
    assert!(e.expression.is_none() && e.digit2.is_none());
}

#[test]
fn image_transforms() {
    let img = RgbImage { width: 2, height: 1, data: vec![255, 0, 0, 10, 200, 30] };
    let bin = convert_to_binary(&img, 100);
    assert_eq!(bin.data, vec![0, 0, 0, 255, 255, 255]);
    let rev = revert_color(&img);
    assert_eq!(rev.data, vec![0, 255, 0, 30, 10, 200]);
    let back = revert_color(&revert_color(&rev));
    assert_eq!(back.data, img.data);
    assert_eq!((bin.width, bin.height), (2, 1));
}

#[test]
fn tcp_framing_and_replies() {
    assert_eq!(frame_of(b"abc<END>xyz"), Frame::Complete(3));
    assert_eq!(frame_of(b"<END><END>"), Frame::Complete(0));
    assert_eq!(frame_of(b"abc<EN"), Frame::Incomplete);
    let big = vec![0u8; 10 * 1024 * 1024 + 1];
    assert_eq!(frame_of(&big), Frame::TooLarge);
    assert_eq!(tcp_reply(true, true, Ok(result())), "ERROR:Empty image<END>");
    assert_eq!(tcp_reply(false, false, Ok(result())), "ERROR:Server busy<END>");
    assert_eq!(tcp_reply(false, true, Ok(result())), "3 + 5 = 8|8|-1|1|3|5<END>");
    assert_eq!(tcp_reply(false, true, Err("bad".to_string())), "ERROR:bad<END>");
}

#[test]
fn pool_counters_admit_and_complete() {
    let mut s = PoolStats::new();
    assert!(s.try_admit(1));
    assert_eq!(s.pending, 1);
    assert_eq!(s.total_requests, 1);
    assert!(!s.try_admit(1));
    assert_eq!(s.total_requests, 1);
    s.complete(40, true);
    assert!(s.try_admit(1));
    s.complete(20, false);
    assert_eq!(s, PoolStats { pending: 0, total_requests: 2, success_count: 1, failure_count: 1, total_response_ms: 60 });
    let mut w = PoolStats { pending: 1, total_requests: u64::MAX, success_count: u64::MAX, failure_count: 0, total_response_ms: u64::MAX };
    w.complete(2, true);
    assert_eq!(w.total_response_ms, 1);
    assert_eq!(w.success_count, 0);
    assert!(w.try_admit(5));
    assert_eq!(w.total_requests, 0);
}

#[test]
fn cookie_jar_export_restore_keeps_pairs() {
    let mut jar = CookieJar::new();
    jar.add_from_set_cookie("a=1; Path=/");
    jar.add_from_set_cookie("b=2=x; Path=/");
    jar.add_from_set_cookie("a=3; Path=/");
    assert_eq!(jar.get(), "b=2=x; a=3");
    let mut again = CookieJar::new();
    again.restore_entries(&jar.entries());
    assert_eq!(again.get(), jar.get());
    assert_eq!(again.entries(), vec![("b".to_string(), "2=x".to_string()), ("a".to_string(), "3".to_string())]);
}
