//! CAS single sign-on: what the login form's replies mean.
//!
//! The HTTP exchanges themselves are made by the caller; this module reads
//! the pages and status codes they bring back.
use vstd::prelude::*;
use vstd::string::*;

use crate::bill_item::string_views;
use crate::html::{html_attrs, html_texts, opt_view, opt_views, select_attrs, select_texts};
use crate::text::{contains, contains_str};

pub mod epay;
pub mod wechat;

verus! {

/// HTTP `302 Found`.
pub const STATUS_FOUND: u16 = 302;

/// HTTP `301 Moved Permanently`.
pub const STATUS_MOVED_PERMANENTLY: u16 = 301;

/// HTTP `200 OK`.
pub const STATUS_OK: u16 = 200;

/// The captcha image of the CAS login page.
pub const CAPTCHA_URL: &'static str = "https://cas.shmtu.edu.cn/cas/captcha";

/// At most this many redirects are followed after a login.
pub const MAX_REDIRECTS: u32 = 10;

/// What a submitted login form came to.
#[derive(Debug, PartialEq, Eq)]
pub enum CasAuthResult {
    Success { location: String },
    ValidateCodeError,
    PasswordError,
    Failure(String),
}

/// Why a reply could not be used.
#[derive(Debug, Clone, Copy, PartialEq, Eq, Structural)]
pub enum ReplyError {
    /// A redirect without a target.
    EmptyRedirect,
    /// A redirect to the login page: the session has expired.
    NotLoggedIn,
    /// A status the exchange does not expect.
    UnexpectedStatus(u16),
}

/// The kind of a login error text: a wrong account or password, a wrong
/// captcha, or anything else.
pub open spec fn login_error_kind(text: Seq<char>) -> int {
    if contains(text, "account is not recognized"@) || contains(text, "用户名或密码"@) {
        0
    } else if contains(text, "reCAPTCHA"@) || contains(text, "验证码"@) {
        1
    } else {
        2
    }
}

/// The result a login error text stands for.
pub open spec fn auth_result_matches(r: CasAuthResult, text: Seq<char>) -> bool {
    match r {
        CasAuthResult::PasswordError => login_error_kind(text) == 0,
        CasAuthResult::ValidateCodeError => login_error_kind(text) == 1,
        CasAuthResult::Failure(m) => login_error_kind(text) == 2 && m@ == text,
        CasAuthResult::Success { .. } => false,
    }
}

/// Reads a login error text: an unknown account or a wrong password
/// (English or Chinese wording) is a password error; a captcha complaint
/// is a captcha error; anything else is a failure carrying the text.
pub fn classify_login_error(error_text: &str) -> (r: CasAuthResult)
    ensures
        auth_result_matches(r, error_text@),
{
    if contains_str(error_text, "account is not recognized") || contains_str(error_text, "用户名或密码") {
        CasAuthResult::PasswordError
    } else if contains_str(error_text, "reCAPTCHA") || contains_str(error_text, "验证码") {
        CasAuthResult::ValidateCodeError
    } else {
        CasAuthResult::Failure(String::from_str(error_text))
    }
}

/// The text of the first `#loginErrorsPanel` of a page, or empty.
pub open spec fn login_error_text_spec(page: Seq<char>) -> Seq<char> {
    let ts = html_texts(page, "#loginErrorsPanel"@);
    if ts.len() > 0 {
        ts[0]
    } else {
        Seq::empty()
    }
}

/// The error panel's text of a login page.
pub fn login_error_text(page: &str) -> (r: String)
    ensures
        r@ == login_error_text_spec(page@),
{
    let ts = select_texts(page, "#loginErrorsPanel");
    if ts.len() > 0 {
        assert(string_views(ts@)[0] == ts@[0]@);
        ts[0].clone()
    } else {
        String::new()
    }
}

/// What the reply to a submitted login form means: a `302` is a success
/// leading to its `Location` (empty when missing); any other reply is read
/// from the error panel of its page.
pub fn login_result(status: u16, location: &str, page: &str) -> (r: CasAuthResult)
    ensures
        status == STATUS_FOUND ==> (r matches CasAuthResult::Success { location: l } && l@ == location@),
        status != STATUS_FOUND ==> auth_result_matches(r, login_error_text_spec(page@)),
{
    if status == STATUS_FOUND {
        CasAuthResult::Success { location: String::from_str(location) }
    } else {
        let text = login_error_text(page);
        classify_login_error(text.as_str())
    }
}

/// The `value` of the first `input[name='execution']` of a login page.
pub open spec fn execution_spec(page: Seq<char>) -> Option<Seq<char>> {
    let a = html_attrs(page, "input[name='execution']"@, "value"@);
    if a.len() > 0 {
        a[0]
    } else {
        None
    }
}

/// The `execution` token of a login page, if it has one.
pub fn execution_of(page: &str) -> (r: Option<String>)
    ensures
        opt_view(r) == execution_spec(page@),
{
    let a = select_attrs(page, "input[name='execution']", "value");
    if a.len() > 0 {
        assert(opt_views(a@)[0] == opt_view(a@[0]));
        match &a[0] {
            Some(v) => Some(v.clone()),
            None => None,
        }
    } else {
        None
    }
}

/// Where a redirect leads: a `301` or `302` with a `Location` leads there;
/// anything else ends the chain.
pub fn redirect_target(status: u16, location: Option<&str>) -> (r: Option<String>)
    ensures
        (status == STATUS_FOUND || status == STATUS_MOVED_PERMANENTLY) && location is Some
            ==> (r matches Some(t) && t@ == location.unwrap()@),
        !((status == STATUS_FOUND || status == STATUS_MOVED_PERMANENTLY) && location is Some)
            ==> r is None,
{
    if status == STATUS_FOUND || status == STATUS_MOVED_PERMANENTLY {
        match location {
            Some(l) => Some(String::from_str(l)),
            None => None,
        }
    } else {
        None
    }
}

} // verus!
