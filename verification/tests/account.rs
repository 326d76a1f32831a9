use shmtu::account::{extract_after, parse_person_account, strip_trailing_colon};

const FIXTURE_HTML: &str = r#"
    <!DOCTYPE html>
    <html lang="zh">
    <head>
        <meta charset="utf-8">
        <meta name="_csrf" content="test-csrf-token-xyz"/>
        <meta name="_csrf_header" content="X-CSRF-TOKEN"/>
        <title>账户管理</title>
    </head>
    <body>
        <h4 class="panel-title">姓名：张三 实名认证:已认证</h4>
        <div id="baseinfo"><table><tbody>
            <tr><td>学工号：</td><td>202430500099</td></tr>
            <tr><td>电子邮箱：</td><td>zs@example.com</td></tr>
            <tr><td>真实姓名：</td><td>张三</td></tr>
            <tr><td>昵称：</td><td></td></tr>
            <tr><td>性别：</td><td>女</td></tr>
            <tr><td>班级：</td><td>航运2024-1</td></tr>
            <tr><td>手机：</td><td>13800138000</td></tr>
            <tr><td>固话：</td><td>021-12345678</td></tr>
            <tr><td>证件类型：</td><td>身份证</td></tr>
            <tr><td>证件号码：</td><td>310101199901011234</td></tr>
            <tr><td>备注：</td><td></td></tr>
            <tr><td>用户类型：</td><td>本科生</td></tr>
        </tbody></table></div>
        <div id="otherinfo">
            <table><tbody>
                <tr><td>现金资金：</td><td>123.45 元</td></tr>
            </tbody></table>
            <table><tbody>
                <tr><td>安全保护问题：</td><td>您已经设置安全保护问题</td></tr>
                <tr><td>注册时间：</td><td>2024年09月01日</td></tr>
            </tbody></table>
        </div>
    </body>
    </html>
    "#;

fn cash_balance(raw: &str) -> f64 {
    raw.parse().unwrap_or(0.0)
}

#[test]
fn test_parse_person_account_full() {
    let info = parse_person_account(FIXTURE_HTML).unwrap();
    assert_eq!(info.real_name, "张三");
    assert_eq!(info.real_name_auth_status, "已认证");
    assert_eq!(info.cash_balance_raw, "123.45");
    assert!((cash_balance(&info.cash_balance_raw) - 123.45).abs() < 1e-6);
    assert_eq!(info.security_question_status, "您已经设置安全保护问题");
    assert_eq!(info.register_date, "2024年09月01日");
    assert_eq!(info.student_id, "202430500099");
    assert_eq!(info.email, "zs@example.com");
    assert_eq!(info.gender, "女");
    assert_eq!(info.class_name, "航运2024-1");
    assert_eq!(info.mobile, "13800138000");
    assert_eq!(info.fixed_line, "021-12345678");
    assert_eq!(info.id_type, "身份证");
    assert_eq!(info.id_number, "310101199901011234");
    assert_eq!(info.user_type, "本科生");
    assert_eq!(info.csrf_token, "test-csrf-token-xyz");
    assert_eq!(info.csrf_header, "X-CSRF-TOKEN");
}

#[test]
fn test_parse_person_account_merges_otherinfo_tbodies() {
    let info = parse_person_account(FIXTURE_HTML).unwrap();
    assert!(!info.security_question_status.is_empty());
    assert!(!info.register_date.is_empty());
}

#[test]
fn test_parse_person_account_empty_html() {
    let info = parse_person_account("<html><body></body></html>").unwrap();
    assert_eq!(info.real_name, "");
    assert_eq!(cash_balance(&info.cash_balance_raw), 0.0);
    assert_eq!(info.cash_balance_raw, "");
    assert_eq!(info.student_id, "");
}

#[test]
fn test_parse_person_account_invalid_cash_balance() {
    let html = r#"
        <html><body>
            <div id="otherinfo"><table><tbody>
                <tr><td>现金资金：</td><td>非数字 元</td></tr>
            </tbody></table></div>
        </body></html>
        "#;
    let info = parse_person_account(html).unwrap();
    assert_eq!(info.cash_balance_raw, "非数字");
    assert_eq!(cash_balance(&info.cash_balance_raw), 0.0);
}

#[test]
fn test_parse_person_account_with_nbsp_in_title() {
    let html = r#"
        <html><body>
            <h4 class="panel-title">姓名：张三&nbsp;&nbsp;实名认证:已认证</h4>
            <div id="baseinfo"><table><tbody>
                <tr><td>学工号：</td><td>202430500099</td></tr>
            </tbody></table></div>
            <div id="otherinfo"><table><tbody>
                <tr><td>现金资金：</td><td>100 元</td></tr>
            </tbody></table></div>
        </body></html>
        "#;
    let info = parse_person_account(html).unwrap();
    assert_eq!(info.real_name, "张三");
    assert_eq!(info.real_name_auth_status, "已认证");
    assert_eq!(info.student_id, "202430500099");
    assert_eq!(info.cash_balance_raw, "100");
}

#[test]
fn later_rows_win_and_empty_keys_are_skipped() {
    let html = r#"<html><body><div id="baseinfo"><table><tbody>
        <tr><td>学工号：</td><td>1</td></tr>
        <tr><td>：</td><td>x</td></tr>
        <tr><td>学工号:</td><td> 2 </td></tr>
        <tr><td>性别</td></tr>
    </tbody></table></div></body></html>"#;
    let info = parse_person_account(html).unwrap();
    assert_eq!(info.student_id, "2");
    assert_eq!(info.gender, "");
    assert_eq!(info.csrf_header, "X-CSRF-TOKEN");
}

#[test]
fn label_and_word_helpers() {
    assert_eq!(strip_trailing_colon(" 学工号：:："), "学工号");
    assert_eq!(strip_trailing_colon("学工号： "), "学工号：");
    assert_eq!(strip_trailing_colon("a: b"), "a: b");
    assert_eq!(extract_after("姓名：张三 实名", "姓名："), Some("张三".to_string()));
    assert_eq!(extract_after("姓名：", "姓名："), Some(String::new()));
    assert_eq!(extract_after("abc", "x"), None);
    assert_eq!(extract_after("k:   v w", "k:"), Some("v".to_string()));
}
