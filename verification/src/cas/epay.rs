//! Logging in to the e-card site and fetching its bill pages.
use vstd::prelude::*;
use vstd::string::*;

use super::{CasAuthResult, ReplyError, STATUS_FOUND, STATUS_OK};
use crate::text::{nat_to_decimal, u64_to_decimal};

verus! {

/// The bill query page.
pub const EPAY_BILL_URL: &'static str = "https://ecard.shmtu.edu.cn/epay/consume/query";

/// Whether a session is already logged in.
#[derive(Debug)]
pub enum LoginProbe {
    AlreadyLoggedIn,
    NeedLogin { login_url: String },
}

/// What a login attempt came to.
#[derive(Debug, PartialEq, Eq)]
pub enum LoginSubmitResult {
    Success,
    ValidateCodeError,
    PasswordError,
    Failure(String),
}

/// What a login attempt needs: the form's token and the captcha image.
#[derive(Debug)]
pub struct LoginChallenge {
    pub execution: String,
    pub captcha_image: Vec<u8>,
}

/// The reply to a probe of the bill page: `200` means logged in; a `302`
/// leads to the login page, and must name it; any other status is an error.
pub fn probe_result(status: u16, location: &str) -> (r: Result<LoginProbe, ReplyError>)
    ensures
        status == STATUS_OK ==> r matches Ok(LoginProbe::AlreadyLoggedIn),
        status == STATUS_FOUND && location@.len() > 0 ==> (r matches Ok(
            LoginProbe::NeedLogin { login_url: u },
        ) && u@ == location@),
        status == STATUS_FOUND && location@.len() == 0 ==> r == Err::<LoginProbe, ReplyError>(
            ReplyError::EmptyRedirect,
        ),
        status != STATUS_OK && status != STATUS_FOUND ==> r == Err::<LoginProbe, ReplyError>(
            ReplyError::UnexpectedStatus(status),
        ),
{
    if status == STATUS_OK {
        Ok(LoginProbe::AlreadyLoggedIn)
    } else if status == STATUS_FOUND {
        if location.unicode_len() == 0 {
            Err(ReplyError::EmptyRedirect)
        } else {
            Ok(LoginProbe::NeedLogin { login_url: String::from_str(location) })
        }
    } else {
        Err(ReplyError::UnexpectedStatus(status))
    }
}

/// The outcome of a login, and the redirect to follow to finish it (the
/// `Location` of a successful login).
pub fn submit_result(r: CasAuthResult) -> (out: (LoginSubmitResult, Option<String>))
    ensures
        match r {
            CasAuthResult::Success { location } => out.0 == LoginSubmitResult::Success && (out.1 matches Some(u) && u@ == location@),
            CasAuthResult::ValidateCodeError => out.0 == LoginSubmitResult::ValidateCodeError && out.1 is None,
            CasAuthResult::PasswordError => out.0 == LoginSubmitResult::PasswordError && out.1 is None,
            CasAuthResult::Failure(m) => (out.0 matches LoginSubmitResult::Failure(n) && n@ == m@) && out.1 is None,
        },
{
    match r {
        CasAuthResult::Success { location } => (LoginSubmitResult::Success, Some(location)),
        CasAuthResult::ValidateCodeError => (LoginSubmitResult::ValidateCodeError, None),
        CasAuthResult::PasswordError => (LoginSubmitResult::PasswordError, None),
        CasAuthResult::Failure(m) => (LoginSubmitResult::Failure(m), None),
    }
}

/// `{EPAY_BILL_URL}?pageNo={page_no}&tabNo={tab_no}`.
pub open spec fn bill_url_spec(page_no: u32, tab_no: Seq<char>) -> Seq<char> {
    EPAY_BILL_URL@ + "?pageNo="@ + nat_to_decimal(page_no as nat) + "&tabNo="@ + tab_no
}

/// The address of a bill page.
pub fn bill_url(page_no: u32, tab_no: &str) -> (r: String)
    ensures
        r@ == bill_url_spec(page_no, tab_no@),
{
    let mut r = String::from_str(EPAY_BILL_URL);
    r.append("?pageNo=");
    let n = u64_to_decimal(page_no as u64);
    r.append(n.as_str());
    r.append("&tabNo=");
    r.append(tab_no);
    r
}

/// The reply to a bill page request: `200` brings the page; a `302` means
/// the session is no longer logged in; anything else is an error.
pub fn bill_reply(status: u16) -> (r: Result<(), ReplyError>)
    ensures
        status == STATUS_OK ==> r is Ok,
        status == STATUS_FOUND ==> r == Err::<(), ReplyError>(ReplyError::NotLoggedIn),
        status != STATUS_OK && status != STATUS_FOUND ==> r == Err::<(), ReplyError>(
            ReplyError::UnexpectedStatus(status),
        ),
{
    if status == STATUS_OK {
        Ok(())
    } else if status == STATUS_FOUND {
        Err(ReplyError::NotLoggedIn)
    } else {
        Err(ReplyError::UnexpectedStatus(status))
    }
}

} // verus!
