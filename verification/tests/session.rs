use shmtu::bill_item::BillItem;
use shmtu::captcha::OcrHttpCaptchaResolver;
use shmtu::downloader::{v1_model_files, v1_model_url};
use shmtu::hot_water::{is_server_error_page, page_excerpt};
use shmtu::session::{
    next_bill_page, parse_u16, resolve_ocr_http_url, AttemptOutcome, BillArchive, LoginAttempts, LoginStep,
};

fn bill(number: &str) -> BillItem {
    BillItem::new_single(
        "d".into(), "t".into(), "t".into(), "d t".into(), 0, "x".into(), number.into(),
        "y".into(), "0.00".into(), 0, "m".into(), "s".into(),
    )
}

#[test]
fn ocr_http_url_priorities() {
    assert_eq!(resolve_ocr_http_url(Some("http://a"), Some("http://b"), "h", None, Some(1)), "http://a");
    assert_eq!(resolve_ocr_http_url(Some(""), Some("http://b"), "h", None, Some(1)), "http://b");
    assert_eq!(resolve_ocr_http_url(None, Some(""), "10.0.0.5", Some("8080"), Some(21601)), "http://10.0.0.5:21601");
    assert_eq!(resolve_ocr_http_url(None, Some(""), "10.0.0.2", Some("21700"), None), "http://10.0.0.2:21700");
    assert_eq!(resolve_ocr_http_url(None, None, "h", Some("99999"), None), "http://h:21600");
    assert_eq!(resolve_ocr_http_url(None, None, "h", None, None), "http://h:21600");
    assert_eq!(resolve_ocr_http_url(None, None, "", Some("80"), Some(1)), "http://127.0.0.1:5000");
    assert_eq!(parse_u16("+65535"), Some(65535));
    assert_eq!(parse_u16("65536"), None);
}

#[test]
fn login_attempt_machine() {
    let mut a = LoginAttempts::new(2);
    assert_eq!(a.next_attempt(), Some(1));
    assert_eq!(a.after_submit(AttemptOutcome::ValidateCodeError), LoginStep::Retry);
    assert_eq!(a.next_attempt(), Some(2));
    assert_eq!(a.after_submit(AttemptOutcome::Success), LoginStep::Verify);
    assert_eq!(a.next_attempt(), None);
    assert_eq!(a.exhausted(), LoginStep::Fail("登录失败: 重试次数已用尽".to_string()));
    assert_eq!(a.after_submit(AttemptOutcome::PasswordError), LoginStep::Fail("用户名或密码错误".to_string()));
    assert_eq!(
        a.after_submit(AttemptOutcome::Failure("locked".to_string())),
        LoginStep::Fail("登录失败: locked".to_string())
    );
    assert_eq!(LoginAttempts::after_verify(true), Ok(()));
    assert_eq!(LoginAttempts::after_verify(false), Err("登录验证失败".to_string()));
}

#[test]
fn bill_paging() {
    assert_eq!(next_bill_page(1, 3, true), Some(2));
    assert_eq!(next_bill_page(3, 3, true), None);
    assert_eq!(next_bill_page(1, 3, false), None);
}

#[test]
fn archive_merge_skips_known_numbers() {
    let mut a = BillArchive::new(vec![bill("A"), bill("B")]);
    assert!(a.contains("A"));
    assert!(!a.contains("C"));
    a.merge(vec![bill("B"), bill("C"), bill("C"), bill("D")]);
    let numbers: Vec<&str> = a.bills.iter().map(|b| b.number.as_str()).collect();
    assert_eq!(numbers, vec!["A", "B", "C", "D"]);
    assert!(a.contains("D"));
}

#[test]
fn http_resolver_and_v1_files() {
    let r = OcrHttpCaptchaResolver::new("http://x/").with_retries(7);
    assert_eq!(r.ocr.base_url, "http://x");
    assert_eq!(r.max_retries, 7);
    assert_eq!(v1_model_files(), vec![
        "resnet18_equal_symbol_latest.onnx",
        "resnet18_operator_latest.onnx",
        "resnet34_digit_latest.onnx",
    ]);
    assert_eq!(
        v1_model_url("SHA256SUMS.txt"),
        "https://gitee.com/a645162/shmtu-cas-ocr-model/releases/download/v1.0-ONNX/SHA256SUMS.txt"
    );
}

#[test]
fn hot_water_error_pages() {
    assert!(is_server_error_page("<b>Fatal error</b>"));
    assert!(is_server_error_page("HTTP 404 Not Found"));
    assert!(!is_server_error_page("<ul></ul>"));
    let long: String = std::iter::repeat('热').take(600).collect();
    assert_eq!(page_excerpt(&long).chars().count(), 500);
    assert_eq!(page_excerpt("短"), "短");
}
