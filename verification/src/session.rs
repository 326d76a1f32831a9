//! The decisions of the command-line client: which OCR address to use,
//! how the login attempts go on, which bill page comes next, and the local
//! archive of bills that synchronisation adds to.
use vstd::prelude::*;
use vstd::string::*;

use crate::bill_item::BillItem;
use crate::text::{nat_to_decimal, parse_u32, parse_u32_spec, str_eq, u64_to_decimal};

verus! {

// ---------------------------------------------------------------------------
// OCR address
// ---------------------------------------------------------------------------
/// What `str::parse::<u16>` gives back.
pub open spec fn parse_u16_spec(s: Seq<char>) -> Option<u16> {
    match parse_u32_spec(s) {
        Some(n) => if n <= 0xffff {
            Some(n as u16)
        } else {
            None
        },
        None => None,
    }
}

/// `s.parse::<u16>().ok()`.
pub fn parse_u16(s: &str) -> (r: Option<u16>)
    ensures
        r == parse_u16_spec(s@),
{
    match parse_u32(s) {
        Some(n) => if n <= 0xffff {
            Some(n as u16)
        } else {
            None
        },
        None => None,
    }
}

/// The port of the HTTP OCR service when none is given.
pub const DEFAULT_HTTP_OCR_PORT: u16 = 21600;

/// The HTTP OCR address: a non-empty address given on the command line,
/// else a non-empty one from the environment, else `http://{host}:{port}`
/// for a non-empty host, else `http://127.0.0.1:5000`. The port is the one
/// given on the command line, else the one from the environment when it
/// reads as a port, else 21600.
pub open spec fn ocr_http_url_spec(
    given: Option<Seq<char>>,
    env_url: Option<Seq<char>>,
    host: Seq<char>,
    env_port: Option<Seq<char>>,
    port: Option<u16>,
) -> Seq<char> {
    if given is Some && given.unwrap().len() > 0 {
        given.unwrap()
    } else if env_url is Some && env_url.unwrap().len() > 0 {
        env_url.unwrap()
    } else if host.len() > 0 {
        let p: u16 = match port {
            Some(q) => q,
            None => match env_port {
                Some(s) => match parse_u16_spec(s) {
                    Some(q) => q,
                    None => DEFAULT_HTTP_OCR_PORT,
                },
                None => DEFAULT_HTTP_OCR_PORT,
            },
        };
        "http://"@ + host + ":"@ + nat_to_decimal(p as nat)
    } else {
        "http://127.0.0.1:5000"@
    }
}

pub open spec fn opt_str(o: Option<&str>) -> Option<Seq<char>> {
    match o {
        Some(s) => Some(s@),
        None => None,
    }
}

/// Chooses the HTTP OCR address (see `ocr_http_url_spec`); the caller
/// reads `SHMTU_OCR_HTTP_URL` and `SHMTU_HTTP_PORT` and hands them in.
pub fn resolve_ocr_http_url(
    given: Option<&str>,
    env_url: Option<&str>,
    host: &str,
    env_port: Option<&str>,
    port: Option<u16>,
) -> (r: String)
    ensures
        r@ == ocr_http_url_spec(opt_str(given), opt_str(env_url), host@, opt_str(env_port), port),
{
    if let Some(url) = given {
        if url.unicode_len() > 0 {
            return String::from_str(url);
        }
    }
    if let Some(url) = env_url {
        if url.unicode_len() > 0 {
            return String::from_str(url);
        }
    }
    if host.unicode_len() > 0 {
        let p: u16 = match port {
            Some(q) => q,
            None => match env_port {
                Some(s) => match parse_u16(s) {
                    Some(q) => q,
                    None => DEFAULT_HTTP_OCR_PORT,
                },
                None => DEFAULT_HTTP_OCR_PORT,
            },
        };
        let mut r = String::from_str("http://");
        r.append(host);
        r.append(":");
        let n = u64_to_decimal(p as u64);
        r.append(n.as_str());
        return r;
    }
    String::from_str("http://127.0.0.1:5000")
}

// ---------------------------------------------------------------------------
// Login attempts
// ---------------------------------------------------------------------------
/// The outcome of one submitted login, as the client sees it.
#[derive(Debug, Clone, PartialEq, Eq)]
pub enum AttemptOutcome {
    Success,
    ValidateCodeError,
    PasswordError,
    Failure(String),
}

/// What the client does after a submitted login.
#[derive(Debug, Clone, PartialEq, Eq)]
pub enum LoginStep {
    /// Check that the session is logged in.
    Verify,
    /// The captcha was wrong: try again if attempts remain.
    Retry,
    /// Give up with this message.
    Fail(String),
}

/// Login attempts, at most `max_attempts` of them. A wrong captcha is
/// retried; a wrong password or any other failure ends the login with an
/// error; a success is verified once. A login ends well only with a verified
/// session: running out of attempts ends it with an error too.
#[derive(Debug)]
pub struct LoginAttempts {
    pub attempt: u32,
    pub max_attempts: u32,
}

/// The client makes this many login attempts.
pub const LOGIN_ATTEMPTS: u32 = 5;

impl LoginAttempts {
    pub fn new(max_attempts: u32) -> (r: Self)
        ensures
            r.attempt == 0,
            r.max_attempts == max_attempts,
    {
        LoginAttempts { attempt: 0, max_attempts }
    }

    /// Starts the next attempt and gives its number (from 1), or `None`
    /// when all attempts are spent.
    pub fn next_attempt(&mut self) -> (r: Option<u32>)
        ensures
            old(self).attempt < old(self).max_attempts ==> r == Some((old(self).attempt + 1) as u32)
                && final(self).attempt == old(self).attempt + 1,
            old(self).attempt >= old(self).max_attempts ==> r is None && final(self).attempt
                == old(self).attempt,
            final(self).max_attempts == old(self).max_attempts,
    {
        if self.attempt < self.max_attempts {
            self.attempt = self.attempt + 1;
            Some(self.attempt)
        } else {
            None
        }
    }

    /// The end of a login whose attempts are all spent without a verified
    /// session: an error.
    pub fn exhausted(&self) -> (r: LoginStep)
        requires
            self.attempt >= self.max_attempts,
        ensures
            r matches LoginStep::Fail(m) && m@ == "登录失败: 重试次数已用尽"@,
    {
        LoginStep::Fail(String::from_str("登录失败: 重试次数已用尽"))
    }

    /// What follows a submitted login.
    pub fn after_submit(&self, outcome: AttemptOutcome) -> (r: LoginStep)
        ensures
            match outcome {
                AttemptOutcome::Success => r == LoginStep::Verify,
                AttemptOutcome::ValidateCodeError => r == LoginStep::Retry,
                AttemptOutcome::PasswordError => r matches LoginStep::Fail(m) && m@ == "用户名或密码错误"@,
                AttemptOutcome::Failure(msg) => r matches LoginStep::Fail(m) && m@ == "登录失败: "@ + msg@,
            },
    {
        match outcome {
            AttemptOutcome::Success => LoginStep::Verify,
            AttemptOutcome::ValidateCodeError => LoginStep::Retry,
            AttemptOutcome::PasswordError => LoginStep::Fail(String::from_str("用户名或密码错误")),
            AttemptOutcome::Failure(msg) => {
                let mut m = String::from_str("登录失败: ");
                m.append(msg.as_str());
                LoginStep::Fail(m)
            },
        }
    }

    /// The end of a login once the session was checked: logged in, or the
    /// error `登录验证失败`.
    pub fn after_verify(logged_in: bool) -> (r: Result<(), String>)
        ensures
            logged_in ==> r is Ok,
            !logged_in ==> (r matches Err(m) && m@ == "登录验证失败"@),
    {
        if logged_in {
            Ok(())
        } else {
            Err(String::from_str("登录验证失败"))
        }
    }
}

// ---------------------------------------------------------------------------
// Paging through bills
// ---------------------------------------------------------------------------
/// The page to read after `current` (the first was `first`) when the page
/// just read says there are `total` pages: the next one while all pages are
/// asked for and `current` is not the last, else none.
pub fn next_bill_page(current: u32, total: u32, all_pages: bool) -> (r: Option<u32>)
    ensures
        all_pages && current < total ==> r == Some((current + 1) as u32),
        !(all_pages && current < total) ==> r is None,
{
    if !all_pages || current >= total {
        None
    } else {
        Some(current + 1)
    }
}

// ---------------------------------------------------------------------------
// The local archive
// ---------------------------------------------------------------------------
pub open spec fn number_views(v: Seq<String>) -> Seq<Seq<char>> {
    v.map_values(|s: String| s@)
}

pub open spec fn bill_numbers(v: Seq<BillItem>) -> Seq<Seq<char>> {
    v.map_values(|b: BillItem| b.number@)
}

/// The bills a merge keeps: in order, each whose number is neither known
/// nor taken by an earlier kept bill.
pub open spec fn merged_bills(known: Seq<Seq<char>>, new_bills: Seq<BillItem>) -> Seq<BillItem>
    decreases new_bills.len(),
{
    if new_bills.len() == 0 {
        Seq::empty()
    } else {
        let prev = merged_bills(known, new_bills.drop_last());
        let b = new_bills.last();
        if known.contains(b.number@) || bill_numbers(prev).contains(b.number@) {
            prev
        } else {
            prev.push(b)
        }
    }
}

/// Bills kept locally, with the transaction numbers they hold.
#[derive(Debug)]
pub struct BillArchive {
    pub bills: Vec<BillItem>,
    pub known: Vec<String>,
}

impl BillArchive {
    /// The known numbers are those of the bills.
    pub open spec fn wf(&self) -> bool {
        number_views(self.known@) == bill_numbers(self.bills@)
    }

    /// An archive holding `bills`.
    pub fn new(bills: Vec<BillItem>) -> (r: Self)
        ensures
            r.wf(),
            r.bills@ == bills@,
    {
        let mut known: Vec<String> = Vec::new();
        let mut i: usize = 0;
        while i < bills.len()
            invariant
                i <= bills.len(),
                known@.len() == i,
                forall|k: int| 0 <= k < i ==> #[trigger] known@[k]@ == bills@[k].number@,
            decreases bills.len() - i,
        {
            known.push(bills[i].number.clone());
            i = i + 1;
        }
        let r = BillArchive { bills, known };
        assert(number_views(r.known@) =~= bill_numbers(r.bills@));
        r
    }

    /// The archive holds a bill with this number.
    pub fn contains(&self, number: &str) -> (r: bool)
        requires
            self.wf(),
        ensures
            r == bill_numbers(self.bills@).contains(number@),
    {
        let mut i: usize = 0;
        while i < self.known.len()
            invariant
                i <= self.known.len(),
                self.wf(),
                forall|k: int| 0 <= k < i ==> #[trigger] number_views(self.known@)[k] != number@,
            decreases self.known.len() - i,
        {
            if str_eq(self.known[i].as_str(), number) {
                assert(number_views(self.known@)[i as int] == number@);
                assert(bill_numbers(self.bills@)[i as int] == number@);
                return true;
            }
            i = i + 1;
        }
        false
    }

    /// Adds the new bills whose numbers it does not hold yet, in order.
    pub fn merge(&mut self, new_bills: Vec<BillItem>)
        requires
            old(self).wf(),
        ensures
            final(self).wf(),
            final(self).bills@ == old(self).bills@ + merged_bills(bill_numbers(old(self).bills@), new_bills@),
    {
        let ghost start = self.bills@;
        let ghost known0 = bill_numbers(start);
        let mut rest = new_bills;
        let ghost all = rest@;
        let n = rest.len();
        let mut i: usize = 0;
        while i < n
            invariant
                i <= n,
                n == all.len(),
                rest@ == all.subrange(i as int, n as int),
                self.wf(),
                known0 == bill_numbers(start),
                self.bills@ == start + merged_bills(known0, all.subrange(0, i as int)),
            decreases n - i,
        {
            let bill = rest.remove(0);
            assert(bill == all[i as int]);
            let ghost added = merged_bills(known0, all.subrange(0, i as int));
            assert(all.subrange(0, i + 1).drop_last() =~= all.subrange(0, i as int));
            assert(all.subrange(0, i + 1).last() == bill);
            proof {
                assert(bill_numbers(start + added) =~= known0 + bill_numbers(added));
            }
            if !self.contains(bill.number.as_str()) {
                proof {
                    assert(!known0.contains(bill.number@)) by {
                        if known0.contains(bill.number@) {
                            let k = choose|k: int| 0 <= k < known0.len() && known0[k] == bill.number@;
                            assert((known0 + bill_numbers(added))[k] == bill.number@);
                        }
                    }
                    assert(!bill_numbers(added).contains(bill.number@)) by {
                        if bill_numbers(added).contains(bill.number@) {
                            let k = choose|k: int| 0 <= k < bill_numbers(added).len() && bill_numbers(added)[k] == bill.number@;
                            assert((known0 + bill_numbers(added))[known0.len() + k] == bill.number@);
                        }
                    }
                }
                let ghost kb = self.known@;
                let ghost bb = self.bills@;
                self.known.push(bill.number.clone());
                self.bills.push(bill);
                proof {
                    assert(number_views(self.known@) =~= number_views(kb).push(bill.number@));
                    assert(bill_numbers(self.bills@) =~= bill_numbers(bb).push(bill.number@));
                    assert(self.bills@ =~= start + added.push(bill));
                }
            } else {
                proof {
                    let nums = known0 + bill_numbers(added);
                    let k = choose|k: int| 0 <= k < nums.len() && nums[k] == bill.number@;
                    if k < known0.len() {
                        assert(known0[k] == bill.number@);
                    } else {
                        assert(bill_numbers(added)[k - known0.len()] == bill.number@);
                    }
                }
            }
            i = i + 1;
        }
        assert(all.subrange(0, n as int) =~= all);
    }
}

/// After a merge, no number is held twice if none was before: the merged
/// bills carry numbers the archive did not hold, each once.
pub proof fn lemma_merge_keeps_numbers_unique(known: Seq<Seq<char>>, new_bills: Seq<BillItem>)
    ensures
        forall|i: int, j: int|
            0 <= i < j < merged_bills(known, new_bills).len() ==> #[trigger] merged_bills(known, new_bills)[i].number@
                != #[trigger] merged_bills(known, new_bills)[j].number@,
        forall|i: int|
            0 <= i < merged_bills(known, new_bills).len() ==> !known.contains(
                #[trigger] merged_bills(known, new_bills)[i].number@,
            ),
    decreases new_bills.len(),
{
    if new_bills.len() > 0 {
        lemma_merge_keeps_numbers_unique(known, new_bills.drop_last());
        let prev = merged_bills(known, new_bills.drop_last());
        let b = new_bills.last();
        if !(known.contains(b.number@) || bill_numbers(prev).contains(b.number@)) {
            let m = prev.push(b);
            assert forall|i: int, j: int| 0 <= i < j < m.len() implies #[trigger] m[i].number@ != #[trigger] m[j].number@ by {
                if j == prev.len() {
                    assert(bill_numbers(prev)[i] == prev[i].number@);
                } else {
                    assert(m[i] == prev[i] && m[j] == prev[j]);
                }
            }
            assert forall|i: int| 0 <= i < m.len() implies !known.contains(#[trigger] m[i].number@) by {
                if i < prev.len() {
                    assert(m[i] == prev[i]);
                }
            }
        }
    }
}

} // verus!
