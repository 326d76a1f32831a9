//! E-card bills: the bill tabs, the status texts and the bill entries,
//! including the merging of several entries into one.
//!
//! Amounts are held exactly, as a count of fen (0.01 yuan).
use vstd::prelude::*;
use vstd::string::*;

use crate::text::{
    all_digits, chars_of, digit_value, copy_range, decimal_value, digit_char, digit_char_exec,
    find_char_exec, i64_to_decimal, int_to_decimal, is_ascii_digit, lemma_decimal_nonneg,
    lemma_decimal_prefix_le, nat_to_decimal, push_char, str_eq, trim, trim_bounds,
    u64_to_decimal,
};

verus! {

// ---------------------------------------------------------------------------
// Bill tabs
// ---------------------------------------------------------------------------
/// The tabs of the e-card bill page.
#[derive(Debug, Clone, Copy, PartialEq, Eq, Structural)]
pub enum BillType {
    All,
    NotPaid,
    Success,
    Failure,
}

impl BillType {
    pub open spec fn description_spec(self) -> Seq<char> {
        match self {
            BillType::All => "全部"@,
            BillType::NotPaid => "未付款"@,
            BillType::Success => "成功"@,
            BillType::Failure => "失败"@,
        }
    }

    pub open spec fn tab_no_spec(self) -> Seq<char> {
        match self {
            BillType::All => "1"@,
            BillType::Success => "2"@,
            BillType::NotPaid => "3"@,
            BillType::Failure => "4"@,
        }
    }

    pub fn description(self) -> (r: &'static str)
        ensures
            r@ == self.description_spec(),
    {
        match self {
            BillType::All => "全部",
            BillType::NotPaid => "未付款",
            BillType::Success => "成功",
            BillType::Failure => "失败",
        }
    }

    /// The `tabNo` query value of the tab.
    pub fn tab_no(self) -> (r: &'static str)
        ensures
            r@ == self.tab_no_spec(),
    {
        match self {
            BillType::All => "1",
            BillType::Success => "2",
            BillType::NotPaid => "3",
            BillType::Failure => "4",
        }
    }

    /// Reads a tab name, ignoring ASCII case: `all`; `notpaid`, `waitfor` or
    /// `not_paid`; `success`; `failure` or `fail`. Any other name is an error
    /// naming the lower-cased text.
    pub fn parse_name(s: &str) -> (r: Result<BillType, String>)
        ensures
            bill_type_of_name(ascii_lowercase(s@)) matches Some(t) ==> r == Ok::<BillType, String>(t),
            bill_type_of_name(ascii_lowercase(s@)) is None ==> (r matches Err(m) && m@
                == "未知的 BillType: "@ + ascii_lowercase(s@)),
    {
        let lower = to_ascii_lowercase(s);
        let l = lower.as_str();
        if str_eq(l, "all") {
            Ok(BillType::All)
        } else if str_eq(l, "notpaid") || str_eq(l, "waitfor") || str_eq(l, "not_paid") {
            Ok(BillType::NotPaid)
        } else if str_eq(l, "success") {
            Ok(BillType::Success)
        } else if str_eq(l, "failure") || str_eq(l, "fail") {
            Ok(BillType::Failure)
        } else {
            let mut m = String::from_str("未知的 BillType: ");
            m.append(l);
            Err(m)
        }
    }
}

impl core::str::FromStr for BillType {
    type Err = String;

    /// Reads a tab name as `parse_name` does.
    fn from_str(s: &str) -> (r: Result<BillType, String>)
        ensures
            bill_type_of_name(ascii_lowercase(s@)) matches Some(t) ==> r == Ok::<BillType, String>(t),
            bill_type_of_name(ascii_lowercase(s@)) is None ==> (r matches Err(m) && m@
                == "未知的 BillType: "@ + ascii_lowercase(s@)),
    {
        BillType::parse_name(s)
    }
}

pub open spec fn bill_type_of_name(l: Seq<char>) -> Option<BillType> {
    if l == "all"@ {
        Some(BillType::All)
    } else if l == "notpaid"@ || l == "waitfor"@ || l == "not_paid"@ {
        Some(BillType::NotPaid)
    } else if l == "success"@ {
        Some(BillType::Success)
    } else if l == "failure"@ || l == "fail"@ {
        Some(BillType::Failure)
    } else {
        None
    }
}

/// ASCII letters lower-cased, everything else kept (`str::to_ascii_lowercase`).
pub open spec fn ascii_lower_char(c: char) -> char {
    if 'A' <= c && c <= 'Z' {
        ((c as u32) + 32) as char
    } else {
        c
    }
}

pub open spec fn ascii_lowercase(s: Seq<char>) -> Seq<char> {
    s.map_values(|c: char| ascii_lower_char(c))
}

pub fn to_ascii_lowercase(s: &str) -> (r: String)
    ensures
        r@ == ascii_lowercase(s@),
{
    let v = chars_of(s);
    let mut r = String::new();
    let mut i: usize = 0;
    while i < v.len()
        invariant
            i <= v.len(),
            v@ == s@,
            r@ == ascii_lowercase(s@).subrange(0, i as int),
        decreases v.len() - i,
    {
        let c = v[i];
        let d = if 'A' <= c && c <= 'Z' {
            lower_letter(c)
        } else {
            c
        };
        push_char(&mut r, d);
        assert(ascii_lowercase(s@).subrange(0, i + 1) =~= ascii_lowercase(s@).subrange(
            0,
            i as int,
        ).push(d));
        i = i + 1;
    }
    assert(ascii_lowercase(s@).subrange(0, v.len() as int) =~= ascii_lowercase(s@));
    r
}

fn lower_letter(c: char) -> (r: char)
    requires
        'A' <= c && c <= 'Z',
    ensures
        r == ascii_lower_char(c),
{
    let u = (c as u32) + 32;
    let b = u as u8;
    b as char
}

/// The `tabNo` of each tab on the e-card bill page: all bills `1`,
/// successful ones `2`, unpaid ones `3`, failed ones `4`.
pub proof fn lemma_tab_numbers()
    ensures
        BillType::All.tab_no_spec() == seq!['1'],
        BillType::Success.tab_no_spec() == seq!['2'],
        BillType::NotPaid.tab_no_spec() == seq!['3'],
        BillType::Failure.tab_no_spec() == seq!['4'],
{
    reveal_strlit("1");
    reveal_strlit("2");
    reveal_strlit("3");
    reveal_strlit("4");
    assert("1"@ =~= seq!['1']);
    assert("2"@ =~= seq!['2']);
    assert("3"@ =~= seq!['3']);
    assert("4"@ =~= seq!['4']);
}

/// Each tab has its own `tabNo`, and its lower-case English name reads back
/// as the same tab.
pub proof fn lemma_bill_type_names(t: BillType, u: BillType)
    ensures
        t != u ==> t.tab_no_spec() != u.tab_no_spec(),
        t == BillType::All ==> bill_type_of_name("all"@) == Some(t),
        t == BillType::Success ==> bill_type_of_name("success"@) == Some(t),
        t == BillType::Failure ==> bill_type_of_name("failure"@) == Some(t),
        t == BillType::NotPaid ==> bill_type_of_name("notpaid"@) == Some(t),
{
    reveal_strlit("1");
    reveal_strlit("2");
    reveal_strlit("3");
    reveal_strlit("4");
    reveal_strlit("all");
    reveal_strlit("success");
    reveal_strlit("failure");
    reveal_strlit("notpaid");
    reveal_strlit("waitfor");
    reveal_strlit("not_paid");
    reveal_strlit("fail");
    assert("1"@[0] != "2"@[0] && "1"@[0] != "3"@[0] && "1"@[0] != "4"@[0]);
    assert("2"@[0] != "3"@[0] && "2"@[0] != "4"@[0] && "3"@[0] != "4"@[0]);
    assert("success"@[0] != "waitfor"@[0]);
    assert("success"@[0] != "notpaid"@[0]);
    assert("failure"@[0] != "notpaid"@[0]);
    assert("failure"@[0] != "waitfor"@[0]);
    assert("failure"@[0] != "success"@[0]);
}

// ---------------------------------------------------------------------------
// Bill entry status
// ---------------------------------------------------------------------------
#[derive(Debug, Clone, Copy, PartialEq, Eq, Structural)]
pub enum BillItemStatus {
    All,
    WaitFor,
    Success,
    Failure,
}

impl BillItemStatus {
    pub open spec fn description_spec(self) -> Seq<char> {
        match self {
            BillItemStatus::All => "#all"@,
            BillItemStatus::WaitFor => "#waitfor"@,
            BillItemStatus::Success => "交易成功"@,
            BillItemStatus::Failure => "#fail"@,
        }
    }

    pub open spec fn from_text_spec(t: Seq<char>) -> Option<BillItemStatus> {
        let s = trim(t);
        if s == "交易成功"@ {
            Some(BillItemStatus::Success)
        } else if s == "#all"@ {
            Some(BillItemStatus::All)
        } else if s == "#waitfor"@ {
            Some(BillItemStatus::WaitFor)
        } else if s == "#fail"@ {
            Some(BillItemStatus::Failure)
        } else {
            None
        }
    }

    pub fn description(self) -> (r: &'static str)
        ensures
            r@ == self.description_spec(),
    {
        match self {
            BillItemStatus::All => "#all",
            BillItemStatus::WaitFor => "#waitfor",
            BillItemStatus::Success => "交易成功",
            BillItemStatus::Failure => "#fail",
        }
    }

    /// Reads the status text of a bill row (such as `交易成功`); unknown
    /// text gives `None`.
    pub fn from_text(text: &str) -> (r: Option<Self>)
        ensures
            r == Self::from_text_spec(text@),
    {
        let t = crate::text::trim_string(text);
        let s = t.as_str();
        if str_eq(s, "交易成功") {
            Some(BillItemStatus::Success)
        } else if str_eq(s, "#all") {
            Some(BillItemStatus::All)
        } else if str_eq(s, "#waitfor") {
            Some(BillItemStatus::WaitFor)
        } else if str_eq(s, "#fail") {
            Some(BillItemStatus::Failure)
        } else {
            None
        }
    }
}

/// Every status reads back from its own description.
pub proof fn lemma_status_round_trip(s: BillItemStatus)
    ensures
        BillItemStatus::from_text_spec(s.description_spec()) == Some(s),
{
    reveal_strlit("交易成功");
    reveal_strlit("#all");
    reveal_strlit("#waitfor");
    reveal_strlit("#fail");
    let d = s.description_spec();
    assert(!crate::text::is_white_space(d[0]));
    assert(!crate::text::is_white_space(d.last()));
    crate::text::lemma_trim_of_trimmed(d);
}

// ---------------------------------------------------------------------------
// Amounts
// ---------------------------------------------------------------------------
/// Two-decimal rendering of an amount in fen (`format!("{:.2}", yuan)`).
pub open spec fn cents_text(c: int) -> Seq<char> {
    let m = if c < 0 { -c } else { c };
    let sign = if c < 0 { "-"@ } else { Seq::<char>::empty() };
    sign + nat_to_decimal((m / 100) as nat) + seq!['.', digit_char(((m % 100) / 10) as nat), digit_char((m % 10) as nat)]
}

pub fn cents_to_string(c: i64) -> (r: String)
    ensures
        r@ == cents_text(c as int),
{
    let m: u64 = if c < 0 {
        if c == i64::MIN {
            0x8000_0000_0000_0000
        } else {
            (-c) as u64
        }
    } else {
        c as u64
    };
    let mut r = String::new();
    if c < 0 {
        push_char(&mut r, '-');
    }
    let whole = u64_to_decimal(m / 100);
    r.append(whole.as_str());
    push_char(&mut r, '.');
    push_char(&mut r, digit_char_exec((m % 100) / 10));
    push_char(&mut r, digit_char_exec(m % 10));
    proof {
        reveal_strlit("-");
        assert(r@ =~= cents_text(c as int));
    }
    r
}

/// The fen of the decimals `f` of an amount: up to two decimals as written,
/// more rounded to the nearest fen by the third decimal (a 5 or more
/// rounds up).
pub open spec fn fraction_cents(f: Seq<char>) -> int {
    if f.len() == 0 {
        0
    } else if f.len() == 1 {
        decimal_value(f) * 10
    } else if f.len() == 2 {
        decimal_value(f)
    } else {
        decimal_value(f.subrange(0, 2)) + (if digit_value(f[2]) >= 5 { 1int } else { 0int })
    }
}

/// The unsigned part of an amount: digits, with decimals after an optional
/// `.`, read in fen.
pub open spec fn body_cents(b: Seq<char>) -> Option<int> {
    match crate::text::find_char_from(b, '.', 0) {
        None => if b.len() > 0 && all_digits(b) {
            Some(decimal_value(b) * 100)
        } else {
            None
        },
        Some(d) => {
            let w = b.subrange(0, d);
            let f = b.subrange(d + 1, b.len() as int);
            if w.len() + f.len() > 0 && all_digits(w) && all_digits(f) {
                Some(decimal_value(w) * 100 + fraction_cents(f))
            } else {
                None
            }
        },
    }
}

/// An amount written with an optional sign, digits and decimals (`12`,
/// `-3.5`, `0.05`, `1.236`), read in fen, rounded to the nearest fen;
/// `None` for any other text.
pub open spec fn amount_cents(s: Seq<char>) -> Option<int> {
    let neg = s.len() > 0 && s[0] == '-';
    let b = if s.len() > 0 && (s[0] == '-' || s[0] == '+') { s.drop_first() } else { s };
    match body_cents(b) {
        Some(v) => Some(if neg { -v } else { v }),
        None => None,
    }
}

/// The amount of a bill cell: the trimmed text read in fen, 0 when it does
/// not read as an amount or is too large.
pub open spec fn money_cents_of(s: Seq<char>) -> int {
    match amount_cents(trim(s)) {
        Some(c) => if -0x7fff_ffff_ffff_ffff <= c <= 0x7fff_ffff_ffff_ffff { c } else { 0 },
        None => 0,
    }
}

/// Reads a bill amount cell in fen (0 for text that is not an amount).
pub fn parse_money_cents(text: &str) -> (r: i64)
    ensures
        r == money_cents_of(text@),
{
    let v = chars_of(text);
    let (lo, hi) = trim_bounds(&v, 0, v.len());
    assert(v@.subrange(0, v@.len() as int) =~= text@);
    let ghost s = trim(text@);
    assert(s == v@.subrange(lo as int, hi as int));
    let mut start = lo;
    let neg = lo < hi && v[lo] == '-';
    if lo < hi && (v[lo] == '-' || v[lo] == '+') {
        start = lo + 1;
    }
    let b = copy_range(&v, start, hi);
    assert(b@ =~= (if s.len() > 0 && (s[0] == '-' || s[0] == '+') { s.drop_first() } else { s }));
    match body_cents_exec(&b) {
        None => 0,
        Some(c) => {
            let c = c as i64;
            if neg {
                -c
            } else {
                c
            }
        },
    }
}

proof fn lemma_short_digits(f: Seq<char>)
    requires
        all_digits(f),
        f.len() <= 2,
    ensures
        0 <= decimal_value(f),
        f.len() <= 1 ==> decimal_value(f) <= 9,
        decimal_value(f) <= 99,
{
    if f.len() >= 1 {
        assert(is_ascii_digit(f[0]));
    }
    if f.len() == 0 {
        assert(decimal_value(f) == 0);
    } else if f.len() == 1 {
        assert(f.drop_last() =~= Seq::<char>::empty());
        assert(decimal_value(f.drop_last()) == 0);
        assert(f.last() == f[0]);
        assert(decimal_value(f) == digit_value(f[0]));
    } else if f.len() == 2 {
        assert(is_ascii_digit(f[1]));
        let g = f.drop_last();
        assert(g.drop_last() =~= Seq::<char>::empty());
        assert(decimal_value(g.drop_last()) == 0);
        assert(g.last() == f[0]);
        assert(decimal_value(g) == digit_value(f[0]));
        assert(f.last() == f[1]);
        assert(decimal_value(f) == decimal_value(g) * 10 + digit_value(f[1]));
    }
}

/// `body_cents` of `b`, or `None` when it is not an amount or passes
/// `i64::MAX`.
#[verifier::rlimit(30)]
fn body_cents_exec(b: &Vec<char>) -> (r: Option<u64>)
    ensures
        r matches Some(c) ==> body_cents(b@) == Some(c as int) && c <= 0x7fff_ffff_ffff_ffff,
        r is None ==> (body_cents(b@) is None || body_cents(b@)->0 > 0x7fff_ffff_ffff_ffff),
{
    assert(b@.subrange(0, b@.len() as int) =~= b@);
    let limit: u64 = 92233720368547758;
    match find_char_exec(b, '.', 0) {
        None => {
            if b.len() == 0 {
                return None;
            }
            match digits_value(b, 0, b.len(), limit) {
                None => None,
                Some(m) => Some(m * 100),
            }
        },
        Some(d) => {
            let flen = b.len() - d - 1;
            if d + flen == 0 {
                return None;
            }
            let ghost f = b@.subrange(d + 1, b@.len() as int);
            proof {
                if all_digits(f) {
                    lemma_decimal_nonneg(f);
                    if f.len() > 2 {
                        let g = f.subrange(0, 2);
                        assert forall|k: int| 0 <= k < g.len() implies is_ascii_digit(#[trigger] g[k]) by {
                            assert(g[k] == f[k]);
                        }
                        lemma_decimal_nonneg(g);
                    }
                }
            }
            let whole = match digits_value(b, 0, d, limit) {
                None => return None,
                Some(m) => m,
            };
            if !digits_only(b, d + 1, b.len()) {
                return None;
            }
            let fend = if flen > 2 {
                d + 3
            } else {
                b.len()
            };
            let ghost f2 = b@.subrange(d + 1, fend as int);
            proof {
                assert forall|k: int| 0 <= k < f2.len() implies is_ascii_digit(#[trigger] f2[k]) by {
                    assert(f2[k] == f[k]);
                }
                lemma_short_digits(f2);
            }
            let fv = match digits_value(b, d + 1, fend, 99) {
                None => return None,
                Some(m) => m,
            };
            let frac: u64 = if flen == 0 {
                0
            } else if flen == 1 {
                fv * 10
            } else if flen == 2 {
                fv
            } else if b[d + 3] >= '5' {
                proof {
                    assert(f2 =~= f.subrange(0, 2));
                    assert(f[2] == b@[d + 3]);
                }
                fv + 1
            } else {
                proof {
                    assert(f2 =~= f.subrange(0, 2));
                    assert(f[2] == b@[d + 3]);
                }
                fv
            };
            proof {
                if flen <= 2 {
                    assert(f2 =~= f);
                }
            }
            let total = whole * 100 + frac;
            if total > 0x7fff_ffff_ffff_ffff {
                return None;
            }
            Some(total)
        },
    }
}

/// The characters `v[lo..hi]` are all ASCII digits.
fn digits_only(v: &Vec<char>, lo: usize, hi: usize) -> (r: bool)
    requires
        lo <= hi <= v.len(),
    ensures
        r == all_digits(v@.subrange(lo as int, hi as int)),
{
    let ghost b = v@.subrange(lo as int, hi as int);
    let mut i = lo;
    while i < hi
        invariant
            lo <= i <= hi <= v.len(),
            b == v@.subrange(lo as int, hi as int),
            forall|k: int| lo <= k < i ==> is_ascii_digit(#[trigger] v@[k]),
        decreases hi - i,
    {
        let c = v[i];
        if !('0' <= c && c <= '9') {
            assert(b[i - lo] == c);
            return false;
        }
        i = i + 1;
    }
    assert forall|k: int| 0 <= k < b.len() implies is_ascii_digit(#[trigger] b[k]) by {
        assert(b[k] == v@[lo + k]);
    }
    true
}

/// Value of the digits `v[lo..hi]` (empty gives 0), or `None` when a
/// character is not a digit or the value passes `limit`.
pub fn digits_value(v: &Vec<char>, lo: usize, hi: usize, limit: u64) -> (r: Option<u64>)
    requires
        lo <= hi <= v.len(),
        limit <= 922337203685477580,
    ensures
        ({
            let b = v@.subrange(lo as int, hi as int);
            &&& r matches Some(m) ==> all_digits(b) && m == decimal_value(b) && m <= limit
            &&& r is None ==> !all_digits(b) || decimal_value(b) > limit
        }),
{
    let ghost b = v@.subrange(lo as int, hi as int);
    let mut acc: u64 = 0;
    let mut i = lo;
    while i < hi
        invariant
            lo <= i <= hi <= v.len(),
            b == v@.subrange(lo as int, hi as int),
            limit <= 922337203685477580,
            all_digits(v@.subrange(lo as int, i as int)),
            acc == decimal_value(v@.subrange(lo as int, i as int)),
            acc <= limit,
        decreases hi - i,
    {
        let c = v[i];
        if !('0' <= c && c <= '9') {
            assert(b[i - lo] == c);
            return None;
        }
        let d = (c as u32 - '0' as u32) as u64;
        let ghost pre = v@.subrange(lo as int, i + 1);
        assert(pre.drop_last() =~= v@.subrange(lo as int, i as int));
        acc = acc * 10 + d;
        assert(acc == decimal_value(pre));
        if acc > limit {
            proof {
                assert(all_digits(pre));
                if all_digits(b) {
                    assert(pre =~= b.subrange(0, i + 1 - lo));
                    lemma_decimal_prefix_le(b, i + 1 - lo);
                }
            }
            return None;
        }
        i = i + 1;
    }
    assert(v@.subrange(lo as int, i as int) =~= b);
    Some(acc)
}

} // verus!
