use shmtu::captcha::{extract_result_i32, get_expr_result, CaptchaAnswer, CaptchaAnswerKind, ExprCaptchaResolver};

#[test]
fn mod_test_get_expr_result() {
    assert_eq!(get_expr_result("12+34=46"), "46");
    assert_eq!(get_expr_result("3+5=8"), "8");
    assert_eq!(get_expr_result("10-3=7"), "7");
    assert_eq!(get_expr_result("6*9=54"), "54");
    assert_eq!(get_expr_result("42"), "42");
}

#[test]
fn test_get_expr_result() {
    assert_eq!(get_expr_result("12+34=46"), "46");
    assert_eq!(get_expr_result("3+5=8"), "8");
    assert_eq!(get_expr_result("10-3=7"), "7");
    assert_eq!(get_expr_result("6*9=54"), "54");
    assert_eq!(get_expr_result("42"), "42");
}

#[test]
fn extracts_numeric_result_from_expr_or_plain_answer() {
    assert_eq!(extract_result_i32("3+5=8").unwrap(), 8);
    assert_eq!(extract_result_i32("42").unwrap(), 42);
}

#[test]
fn rejects_non_numeric_result() {
    assert!(extract_result_i32("abc").is_err());
}

#[test]
fn expr_result_uses_last_equals_and_trims() {
    assert_eq!(get_expr_result(" 1=2 = 3 \n"), "3");
    assert_eq!(get_expr_result("  7\u{3000}"), "7");
    assert_eq!(get_expr_result("5="), "");
}

#[test]
fn non_numeric_error_names_the_answer() {
    assert_eq!(extract_result_i32("1+1=x").unwrap_err(), "无法解析答案为整数: x");
    assert_eq!(extract_result_i32("-2147483648").unwrap(), i32::MIN);
    assert!(extract_result_i32("2147483648").is_err());
    assert_eq!(extract_result_i32("+12").unwrap(), 12);
}

#[test]
fn final_answer_of_answer_and_expression() {
    assert_eq!(CaptchaAnswer::answer("12+3=".to_string()).into_final_answer(), "12+3=");
    assert_eq!(CaptchaAnswer::expression("12+3=15".to_string()).into_final_answer(), "15");
}

#[test]
fn expression_provider_resolves_to_answer() {
    let r = ExprCaptchaResolver::new(|_: &[u8]| " 12 + 30 = 42 ".to_string());
    let a = r.resolve_answer(b"png");
    assert_eq!(a.kind, CaptchaAnswerKind::Answer);
    assert_eq!(a.value, "42");
}
