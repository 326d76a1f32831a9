//! Logging in to the logistics site (hot water) through its ticket
//! redirect.
use vstd::prelude::*;
use vstd::string::*;

use super::{CasAuthResult, ReplyError, STATUS_FOUND, STATUS_OK};

verus! {

/// The hot water page.
pub const HOT_WATER_URL: &'static str = "http://hqzx.shmtu.edu.cn/cellphone/getHotWater";

/// Whether a session is already logged in.
#[derive(Debug)]
pub enum LoginProbe {
    AlreadyLoggedIn,
    NeedLogin { ticket_url: String },
}

/// What a login attempt came to.
#[derive(Debug, PartialEq, Eq)]
pub enum LoginSubmitResult {
    Success,
    ValidateCodeError,
    PasswordError,
    Failure(String),
}

/// What a login attempt needs: the form's token, the captcha image and
/// the CAS login address.
#[derive(Debug)]
pub struct LoginChallenge {
    pub execution: String,
    pub captcha_image: Vec<u8>,
    pub login_url: String,
}

/// The reply to a probe of the hot water page: `200` means logged in; a
/// `302` leads to the ticket address, and must name it; any other status
/// is an error.
pub fn probe_result(status: u16, location: &str) -> (r: Result<LoginProbe, ReplyError>)
    ensures
        status == STATUS_OK ==> r matches Ok(LoginProbe::AlreadyLoggedIn),
        status == STATUS_FOUND && location@.len() > 0 ==> (r matches Ok(
            LoginProbe::NeedLogin { ticket_url: u },
        ) && u@ == location@),
        status == STATUS_FOUND && location@.len() == 0 ==> r == Err::<LoginProbe, ReplyError>(
            ReplyError::EmptyRedirect,
        ),
        status != STATUS_OK && status != STATUS_FOUND ==> r == Err::<LoginProbe, ReplyError>(
            ReplyError::UnexpectedStatus(status),
        ),
{
    if status == STATUS_OK {
        Ok(LoginProbe::AlreadyLoggedIn)
    } else if status == STATUS_FOUND {
        if location.unicode_len() == 0 {
            Err(ReplyError::EmptyRedirect)
        } else {
            Ok(LoginProbe::NeedLogin { ticket_url: String::from_str(location) })
        }
    } else {
        Err(ReplyError::UnexpectedStatus(status))
    }
}

/// The reply to the ticket address: it must be a `302` naming the CAS
/// login address.
pub fn ticket_reply(status: u16, location: &str) -> (r: Result<String, ReplyError>)
    ensures
        status == STATUS_FOUND && location@.len() > 0 ==> (r matches Ok(u) && u@ == location@),
        status == STATUS_FOUND && location@.len() == 0 ==> r == Err::<String, ReplyError>(
            ReplyError::EmptyRedirect,
        ),
        status != STATUS_FOUND ==> r == Err::<String, ReplyError>(ReplyError::UnexpectedStatus(status)),
{
    if status != STATUS_FOUND {
        Err(ReplyError::UnexpectedStatus(status))
    } else if location.unicode_len() == 0 {
        Err(ReplyError::EmptyRedirect)
    } else {
        Ok(String::from_str(location))
    }
}

/// `{location}&from={HOT_WATER_URL}`: where a successful login continues.
pub open spec fn final_url_spec(location: Seq<char>) -> Seq<char> {
    location + "&from="@ + HOT_WATER_URL@
}

/// The outcome of a login, and the redirect to follow to finish it: the
/// `Location` of a successful login, sent on to the hot water page.
pub fn submit_result(r: CasAuthResult) -> (out: (LoginSubmitResult, Option<String>))
    ensures
        match r {
            CasAuthResult::Success { location } => out.0 == LoginSubmitResult::Success && (out.1 matches Some(u) && u@ == final_url_spec(location@)),
            CasAuthResult::ValidateCodeError => out.0 == LoginSubmitResult::ValidateCodeError && out.1 is None,
            CasAuthResult::PasswordError => out.0 == LoginSubmitResult::PasswordError && out.1 is None,
            CasAuthResult::Failure(m) => (out.0 matches LoginSubmitResult::Failure(n) && n@ == m@) && out.1 is None,
        },
{
    match r {
        CasAuthResult::Success { location } => {
            let mut u = location;
            u.append("&from=");
            u.append(HOT_WATER_URL);
            (LoginSubmitResult::Success, Some(u))
        },
        CasAuthResult::ValidateCodeError => (LoginSubmitResult::ValidateCodeError, None),
        CasAuthResult::PasswordError => (LoginSubmitResult::PasswordError, None),
        CasAuthResult::Failure(m) => (LoginSubmitResult::Failure(m), None),
    }
}

/// The reply to a hot water page request: `200` brings the page, anything
/// else is an error.
pub fn hot_water_reply(status: u16) -> (r: Result<(), ReplyError>)
    ensures
        status == STATUS_OK ==> r is Ok,
        status != STATUS_OK ==> r == Err::<(), ReplyError>(ReplyError::UnexpectedStatus(status)),
{
    if status == STATUS_OK {
        Ok(())
    } else {
        Err(ReplyError::UnexpectedStatus(status))
    }
}

} // verus!
