//! The e-card personal account page (`/epay/personaccount/index`): the
//! holder's name, the CSRF token, the basic information table and the
//! funds and security tables.
//!
//! A table is read row by row: a row with at least two cells gives the
//! pair (first cell without its trailing colons, second cell), trimmed;
//! rows with an empty key are skipped, and a later row wins over an earlier
//! one with the same key. The cash balance is kept as the page writes it
//! (without the `元` unit); reading it as a number is left to the caller.
use vstd::prelude::*;
use vstd::string::*;

use crate::bill_item::string_views;
use crate::html::{
    html_attrs, html_texts, html_texts_in, html_texts_in2, html_texts_in3, opt_view, select_attrs,
    select_texts, select_texts_in, select_texts_in2, select_texts_in3,
};
use crate::text::{
    chars_of, find, find_from, find_from_exec, find_white_space_exec, find_white_space_from,
    is_white_space, occurs_at, str_eq, string_of, trim, trimmed_chars, trimmed_range,
};

verus! {

// ---------------------------------------------------------------------------
// Text helpers
// ---------------------------------------------------------------------------
pub open spec fn is_colon(c: char) -> bool {
    c == ':' || c == '：'
}

/// `s` without its trailing ASCII or full-width colons.
pub open spec fn trim_colons_end(s: Seq<char>) -> Seq<char>
    decreases s.len(),
{
    if s.len() > 0 && is_colon(s.last()) {
        trim_colons_end(s.drop_last())
    } else {
        s
    }
}

/// A table key: trailing colons removed, then trimmed.
pub open spec fn strip_colon_spec(s: Seq<char>) -> Seq<char> {
    trim(trim_colons_end(s))
}

/// Removes the trailing colons (`:` or `：`) of a label, then trims it.
pub fn strip_trailing_colon(text: &str) -> (r: String)
    ensures
        r@ == strip_colon_spec(text@),
{
    let v = chars_of(text);
    let mut hi = v.len();
    assert(v@.subrange(0, hi as int) =~= v@);
    while hi > 0 && (v[hi - 1] == ':' || v[hi - 1] == '：')
        invariant
            hi <= v.len(),
            trim_colons_end(v@) == trim_colons_end(v@.subrange(0, hi as int)),
        decreases hi,
    {
        assert(v@.subrange(0, hi as int).drop_last() =~= v@.subrange(0, hi - 1));
        hi = hi - 1;
    }
    trimmed_range(&v, 0, hi)
}

/// The word after `marker`: the text after its first occurrence, trimmed
/// and cut at the next white space; empty when the marker ends the text,
/// `None` when the marker does not occur.
pub open spec fn extract_after_spec(text: Seq<char>, marker: Seq<char>) -> Option<Seq<char>> {
    match find(text, marker) {
        None => None,
        Some(i) => {
            let start = i + marker.len();
            if start >= text.len() {
                Some(Seq::empty())
            } else {
                let tail = trim(text.subrange(start, text.len() as int));
                let end = match find_white_space_from(tail, 0) {
                    Some(e) => e,
                    None => tail.len() as int,
                };
                Some(trim(tail.subrange(0, end)))
            }
        },
    }
}

proof fn lemma_find_from_fits(s: Seq<char>, p: Seq<char>, i: int)
    ensures
        find_from(s, p, i) matches Some(j) ==> i <= j && j + p.len() <= s.len(),
    decreases s.len() + 1 - i,
{
    if !(i < 0 || i + p.len() > s.len()) && !occurs_at(s, p, i) {
        lemma_find_from_fits(s, p, i + 1);
    }
}

/// The word of `text` that follows `marker` (see `extract_after_spec`).
pub fn extract_after(text: &str, marker: &str) -> (r: Option<String>)
    ensures
        opt_view(r) == extract_after_spec(text@, marker@),
{
    let v = chars_of(text);
    let m = chars_of(marker);
    proof {
        lemma_find_from_fits(v@, m@, 0);
    }
    match find_from_exec(&v, &m, 0) {
        None => None,
        Some(idx) => {
            assert(idx + m.len() <= v.len());
            let start = idx + m.len();
            if start >= v.len() {
                return Some(String::new());
            }
            let tail = trimmed_chars(&v, start, v.len());
            let end = find_white_space_exec(&tail, 0);
            Some(trimmed_range(&tail, 0, end))
        },
    }
}

/// No-break spaces turned into plain spaces.
pub open spec fn normalize_nbsp(s: Seq<char>) -> Seq<char> {
    s.map_values(|c: char| if c == '\u{a0}' { ' ' } else { c })
}

fn normalized_title(t: &str) -> (r: String)
    ensures
        r@ == normalize_nbsp(t@),
{
    let v = chars_of(t);
    let mut w: Vec<char> = Vec::new();
    let mut i: usize = 0;
    while i < v.len()
        invariant
            i <= v.len(),
            w@ == normalize_nbsp(v@.subrange(0, i as int)),
        decreases v.len() - i,
    {
        let c = v[i];
        if c == '\u{a0}' {
            w.push(' ');
        } else {
            w.push(c);
        }
        assert(normalize_nbsp(v@.subrange(0, i + 1)) =~= normalize_nbsp(v@.subrange(0, i as int)).push(
            if c == '\u{a0}' { ' ' } else { c },
        ));
        i = i + 1;
    }
    assert(v@.subrange(0, v@.len() as int) =~= v@);
    string_of(&w)
}

/// `s` without any `c`.
pub open spec fn remove_char(s: Seq<char>, c: char) -> Seq<char>
    decreases s.len(),
{
    if s.len() == 0 {
        s
    } else if s.last() == c {
        remove_char(s.drop_last(), c)
    } else {
        remove_char(s.drop_last(), c).push(s.last())
    }
}

fn without_char(s: &str, c: char) -> (r: Vec<char>)
    ensures
        r@ == remove_char(s@, c),
{
    let v = chars_of(s);
    let mut w: Vec<char> = Vec::new();
    let mut i: usize = 0;
    while i < v.len()
        invariant
            i <= v.len(),
            w@ == remove_char(v@.subrange(0, i as int), c),
        decreases v.len() - i,
    {
        assert(v@.subrange(0, i + 1).drop_last() =~= v@.subrange(0, i as int));
        if v[i] != c {
            w.push(v[i]);
        }
        i = i + 1;
    }
    assert(v@.subrange(0, v@.len() as int) =~= v@);
    w
}

// ---------------------------------------------------------------------------
// Key/value tables
// ---------------------------------------------------------------------------
/// The pair a row of cells gives, if any.
pub open spec fn row_pair(tds: Seq<Seq<char>>) -> Option<(Seq<char>, Seq<char>)> {
    if tds.len() >= 2 {
        let k = strip_colon_spec(tds[0]);
        if k.len() > 0 {
            Some((k, trim(tds[1])))
        } else {
            None
        }
    } else {
        None
    }
}

/// The pairs of a sequence of rows, in order.
pub open spec fn kv_pairs(rows: Seq<Seq<Seq<char>>>) -> Seq<(Seq<char>, Seq<char>)>
    decreases rows.len(),
{
    if rows.len() == 0 {
        Seq::empty()
    } else {
        match row_pair(rows.last()) {
            Some(p) => kv_pairs(rows.drop_last()).push(p),
            None => kv_pairs(rows.drop_last()),
        }
    }
}

/// The value of the last pair with this key, or empty.
pub open spec fn lookup_last(pairs: Seq<(Seq<char>, Seq<char>)>, key: Seq<char>) -> Seq<char>
    decreases pairs.len(),
{
    if pairs.len() == 0 {
        Seq::empty()
    } else if pairs.last().0 == key {
        pairs.last().1
    } else {
        lookup_last(pairs.drop_last(), key)
    }
}

pub open spec fn pair_views(v: Seq<(String, String)>) -> Seq<(Seq<char>, Seq<char>)> {
    v.map_values(|p: (String, String)| (p.0@, p.1@))
}

fn row_pair_exec(tds: &Vec<String>) -> (r: Option<(String, String)>)
    ensures
        match r {
            Some(p) => row_pair(string_views(tds@)) == Some((p.0@, p.1@)),
            None => row_pair(string_views(tds@)) is None,
        },
{
    if tds.len() >= 2 {
        let k = strip_trailing_colon(tds[0].as_str());
        if k.unicode_len() > 0 {
            let v = crate::text::trim_string(tds[1].as_str());
            Some((k, v))
        } else {
            None
        }
    } else {
        None
    }
}

fn push_row(out: &mut Vec<(String, String)>, tds: &Vec<String>, Ghost(rows): Ghost<Seq<Seq<Seq<char>>>>)
    requires
        rows.len() > 0,
        rows.last() == string_views(tds@),
        pair_views(old(out)@) == kv_pairs(rows.drop_last()),
    ensures
        pair_views(final(out)@) == kv_pairs(rows),
{
    match row_pair_exec(tds) {
        Some(p) => {
            let ghost before = pair_views(out@);
            out.push(p);
            assert(pair_views(out@) =~= before.push((p.0@, p.1@)));
        },
        None => {},
    }
}

fn lookup(pairs: &Vec<(String, String)>, key: &str) -> (r: String)
    ensures
        r@ == lookup_last(pair_views(pairs@), key@),
{
    let mut j = pairs.len();
    assert(pair_views(pairs@).subrange(0, j as int) =~= pair_views(pairs@));
    while j > 0
        invariant
            j <= pairs.len(),
            lookup_last(pair_views(pairs@), key@) == lookup_last(
                pair_views(pairs@).subrange(0, j as int),
                key@,
            ),
        decreases j,
    {
        let ghost p = pair_views(pairs@).subrange(0, j as int);
        assert(p.last() == (pairs@[j - 1].0@, pairs@[j - 1].1@));
        if str_eq(pairs[j - 1].0.as_str(), key) {
            return pairs[j - 1].1.clone();
        }
        assert(p.drop_last() =~= pair_views(pairs@).subrange(0, j - 1));
        j = j - 1;
    }
    String::new()
}

pub open spec fn base_selector() -> Seq<char> {
    "#baseinfo tbody"@
}

pub open spec fn other_selector() -> Seq<char> {
    "#otherinfo"@
}

/// The cell texts of the rows of the first `#baseinfo tbody`.
pub open spec fn base_rows(src: Seq<char>) -> Seq<Seq<Seq<char>>> {
    let n = html_texts_in(src, base_selector(), 0, "tr"@).len();
    Seq::new(n, |k: int| html_texts_in2(src, base_selector(), 0, "tr"@, k as nat, "td"@))
}

/// The cell texts of the rows of the `b`-th `tbody` in the first `#otherinfo`.
pub open spec fn tbody_rows(src: Seq<char>, b: nat) -> Seq<Seq<Seq<char>>> {
    let m = html_texts_in2(src, other_selector(), 0, "tbody"@, b, "tr"@).len();
    Seq::new(
        m,
        |k: int| html_texts_in3(src, other_selector(), 0, "tbody"@, b, "tr"@, k as nat, "td"@),
    )
}

/// The rows of the first `b` tables of `#otherinfo`, one table after the other.
pub open spec fn other_rows_upto(src: Seq<char>, b: int) -> Seq<Seq<Seq<char>>>
    decreases b,
{
    if b <= 0 {
        Seq::empty()
    } else {
        other_rows_upto(src, b - 1) + tbody_rows(src, (b - 1) as nat)
    }
}

pub open spec fn other_rows(src: Seq<char>) -> Seq<Seq<Seq<char>>> {
    other_rows_upto(src, html_texts_in(src, other_selector(), 0, "tbody"@).len() as int)
}

fn base_info_pairs(html: &str) -> (r: Vec<(String, String)>)
    ensures
        pair_views(r@) == kv_pairs(base_rows(html@)),
{
    let ghost rows = base_rows(html@);
    let n = select_texts_in(html, "#baseinfo tbody", 0, "tr").len();
    proof {
        reveal_strlit("#baseinfo tbody");
        reveal_strlit("tr");
        reveal_strlit("td");
    }
    let mut out: Vec<(String, String)> = Vec::new();
    let mut k: usize = 0;
    while k < n
        invariant
            k <= n,
            rows == base_rows(html@),
            n == rows.len(),
            pair_views(out@) == kv_pairs(rows.subrange(0, k as int)),
        decreases n - k,
    {
        let tds = select_texts_in2(html, "#baseinfo tbody", 0, "tr", k, "td");
        proof {
            assert(rows.subrange(0, k + 1).drop_last() =~= rows.subrange(0, k as int));
            assert(rows.subrange(0, k + 1).last() == rows[k as int]);
        }
        push_row(&mut out, &tds, Ghost(rows.subrange(0, k + 1)));
        k = k + 1;
    }
    assert(rows.subrange(0, n as int) =~= rows);
    out
}

fn other_info_pairs(html: &str) -> (r: Vec<(String, String)>)
    ensures
        pair_views(r@) == kv_pairs(other_rows(html@)),
{
    proof {
        reveal_strlit("#otherinfo");
        reveal_strlit("tbody");
        reveal_strlit("tr");
        reveal_strlit("td");
    }
    let nb = select_texts_in(html, "#otherinfo", 0, "tbody").len();
    let mut out: Vec<(String, String)> = Vec::new();
    let mut b: usize = 0;
    while b < nb
        invariant
            b <= nb,
            nb == html_texts_in(html@, other_selector(), 0, "tbody"@).len(),
            pair_views(out@) == kv_pairs(other_rows_upto(html@, b as int)),
        decreases nb - b,
    {
        let m = select_texts_in2(html, "#otherinfo", 0, "tbody", b, "tr").len();
        let ghost done = other_rows_upto(html@, b as int);
        let ghost t = tbody_rows(html@, b as nat);
        assert(done + t.subrange(0, 0) =~= done);
        let mut k: usize = 0;
        while k < m
            invariant
                k <= m,
                m == t.len(),
                t == tbody_rows(html@, b as nat),
                pair_views(out@) == kv_pairs(done + t.subrange(0, k as int)),
            decreases m - k,
        {
            let tds = select_texts_in3(html, "#otherinfo", 0, "tbody", b, "tr", k, "td");
            proof {
                assert((done + t.subrange(0, k + 1)).drop_last() =~= done + t.subrange(0, k as int));
                assert((done + t.subrange(0, k + 1)).last() == t[k as int]);
            }
            push_row(&mut out, &tds, Ghost(done + t.subrange(0, k + 1)));
            k = k + 1;
        }
        assert(t.subrange(0, m as int) =~= t);
        b = b + 1;
    }
    out
}

// ---------------------------------------------------------------------------
// The page
// ---------------------------------------------------------------------------
/// The fields of the personal account page.
#[derive(Debug, Clone, Default)]
pub struct PersonAccountInfo {
    pub real_name: String,
    pub real_name_auth_status: String,
    pub cash_balance_raw: String,
    pub security_question_status: String,
    pub register_date: String,
    pub student_id: String,
    pub email: String,
    pub nickname: String,
    pub gender: String,
    pub class_name: String,
    pub mobile: String,
    pub fixed_line: String,
    pub id_type: String,
    pub id_number: String,
    pub remark: String,
    pub user_type: String,
    pub csrf_token: String,
    pub csrf_header: String,
}

/// The page's fields as text.
#[verifier::ext_equal]
pub struct PersonAccountView {
    pub real_name: Seq<char>,
    pub real_name_auth_status: Seq<char>,
    pub cash_balance_raw: Seq<char>,
    pub security_question_status: Seq<char>,
    pub register_date: Seq<char>,
    pub student_id: Seq<char>,
    pub email: Seq<char>,
    pub nickname: Seq<char>,
    pub gender: Seq<char>,
    pub class_name: Seq<char>,
    pub mobile: Seq<char>,
    pub fixed_line: Seq<char>,
    pub id_type: Seq<char>,
    pub id_number: Seq<char>,
    pub remark: Seq<char>,
    pub user_type: Seq<char>,
    pub csrf_token: Seq<char>,
    pub csrf_header: Seq<char>,
}

impl View for PersonAccountInfo {
    type V = PersonAccountView;

    open spec fn view(&self) -> PersonAccountView {
        PersonAccountView {
            real_name: self.real_name@,
            real_name_auth_status: self.real_name_auth_status@,
            cash_balance_raw: self.cash_balance_raw@,
            security_question_status: self.security_question_status@,
            register_date: self.register_date@,
            student_id: self.student_id@,
            email: self.email@,
            nickname: self.nickname@,
            gender: self.gender@,
            class_name: self.class_name@,
            mobile: self.mobile@,
            fixed_line: self.fixed_line@,
            id_type: self.id_type@,
            id_number: self.id_number@,
            remark: self.remark@,
            user_type: self.user_type@,
            csrf_token: self.csrf_token@,
            csrf_header: self.csrf_header@,
        }
    }
}

/// The text of the first `.panel-title`, with no-break spaces as spaces.
pub open spec fn title_of(src: Seq<char>) -> Seq<char> {
    let ts = html_texts(src, ".panel-title"@);
    normalize_nbsp(if ts.len() > 0 { ts[0] } else { Seq::empty() })
}

/// The word after the first marker that occurs, else after the second,
/// else empty.
pub open spec fn after_either(t: Seq<char>, m1: Seq<char>, m2: Seq<char>) -> Seq<char> {
    match extract_after_spec(t, m1) {
        Some(w) => w,
        None => match extract_after_spec(t, m2) {
            Some(w) => w,
            None => Seq::empty(),
        },
    }
}

/// The `content` of the first element matching `sel`, or `default`.
pub open spec fn meta_content(src: Seq<char>, sel: Seq<char>, default: Seq<char>) -> Seq<char> {
    let a = html_attrs(src, sel, "content"@);
    if a.len() > 0 && a[0] is Some {
        a[0].unwrap()
    } else {
        default
    }
}

pub open spec fn account_spec(src: Seq<char>) -> PersonAccountView {
    let title = title_of(src);
    let base = kv_pairs(base_rows(src));
    let other = kv_pairs(other_rows(src));
    PersonAccountView {
        real_name: after_either(title, "姓名："@, "姓名:"@),
        real_name_auth_status: after_either(title, "实名认证:"@, "实名认证："@),
        cash_balance_raw: trim(remove_char(lookup_last(other, "现金资金"@), '元')),
        security_question_status: lookup_last(other, "安全保护问题"@),
        register_date: lookup_last(other, "注册时间"@),
        student_id: lookup_last(base, "学工号"@),
        email: lookup_last(base, "电子邮箱"@),
        nickname: lookup_last(base, "昵称"@),
        gender: lookup_last(base, "性别"@),
        class_name: lookup_last(base, "班级"@),
        mobile: lookup_last(base, "手机"@),
        fixed_line: lookup_last(base, "固话"@),
        id_type: lookup_last(base, "证件类型"@),
        id_number: lookup_last(base, "证件号码"@),
        remark: lookup_last(base, "备注"@),
        user_type: lookup_last(base, "用户类型"@),
        csrf_token: meta_content(src, "meta[name=_csrf]"@, Seq::empty()),
        csrf_header: meta_content(src, "meta[name=_csrf_header]"@, "X-CSRF-TOKEN"@),
    }
}

fn word_after_either(t: &str, m1: &str, m2: &str) -> (r: String)
    ensures
        r@ == after_either(t@, m1@, m2@),
{
    match extract_after(t, m1) {
        Some(w) => w,
        None => match extract_after(t, m2) {
            Some(w) => w,
            None => String::new(),
        },
    }
}

fn first_content(html: &str, sel: &str, default: &str) -> (r: String)
    ensures
        r@ == meta_content(html@, sel@, default@),
{
    proof {
        reveal_strlit("content");
    }
    let a = select_attrs(html, sel, "content");
    proof {
        if a@.len() > 0 {
            assert(crate::html::opt_views(a@)[0] == opt_view(a@[0]));
        }
    }
    if a.len() > 0 {
        match &a[0] {
            Some(v) => {
                return v.clone();
            },
            None => {},
        }
    }
    String::from_str(default)
}

/// Reads the personal account page; every field the page lacks is empty
/// (the CSRF header name defaults to `X-CSRF-TOKEN`).
pub fn parse_person_account(html: &str) -> (r: Result<PersonAccountInfo, String>)
    ensures
        r matches Ok(info) && info@ == account_spec(html@),
{
    proof {
        reveal_strlit(".panel-title");
        reveal_strlit("");
    }
    let titles = select_texts(html, ".panel-title");
    proof {
        if titles@.len() > 0 {
            assert(string_views(titles@)[0] == titles@[0]@);
        }
    }
    let first = if titles.len() > 0 {
        titles[0].clone()
    } else {
        String::new()
    };
    let title = normalized_title(first.as_str());
    let t = title.as_str();
    let real_name = word_after_either(t, "姓名：", "姓名:");
    let real_name_auth_status = word_after_either(t, "实名认证:", "实名认证：");
    let csrf_token = first_content(html, "meta[name=_csrf]", "");
    let csrf_header = first_content(html, "meta[name=_csrf_header]", "X-CSRF-TOKEN");
    let base = base_info_pairs(html);
    let other = other_info_pairs(html);
    let cash = lookup(&other, "现金资金");
    let cash_chars = without_char(cash.as_str(), '元');
    let cash_balance_raw = trimmed_range(&cash_chars, 0, cash_chars.len());
    proof {
        assert(cash_chars@.subrange(0, cash_chars@.len() as int) =~= cash_chars@);
    }
    let info = PersonAccountInfo {
        real_name,
        real_name_auth_status,
        cash_balance_raw,
        security_question_status: lookup(&other, "安全保护问题"),
        register_date: lookup(&other, "注册时间"),
        student_id: lookup(&base, "学工号"),
        email: lookup(&base, "电子邮箱"),
        nickname: lookup(&base, "昵称"),
        gender: lookup(&base, "性别"),
        class_name: lookup(&base, "班级"),
        mobile: lookup(&base, "手机"),
        fixed_line: lookup(&base, "固话"),
        id_type: lookup(&base, "证件类型"),
        id_number: lookup(&base, "证件号码"),
        remark: lookup(&base, "备注"),
        user_type: lookup(&base, "用户类型"),
        csrf_token,
        csrf_header,
    };
    assert(info@ =~= account_spec(html@));
    Ok(info)
}

/// In a table, the value found for a key is that of the last row giving
/// it; rows after it with other keys change nothing.
pub proof fn lemma_later_row_wins(
    rows: Seq<Seq<Seq<char>>>,
    row: Seq<Seq<char>>,
    key: Seq<char>,
)
    requires
        row_pair(row) matches Some(p) && p.0 == key,
    ensures
        lookup_last(kv_pairs(rows.push(row)), key) == trim(row[1]),
{
    assert(rows.push(row).drop_last() =~= rows);
}

} // verus!
