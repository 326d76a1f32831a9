//! The e-card bill page: one bill entry per table row, and the page counter.
use vstd::prelude::*;
use vstd::string::*;

use crate::bill::{money_cents_of, parse_money_cents};
use crate::bill_item::{string_views, BillItem, BillItemView};
use crate::html::{
    first_captures, html_texts, html_texts_in, html_texts_in2, joined_matches, naive_utc_timestamp,
    opt_view, regex_first_captures, regex_joined_matches, select_texts, select_texts_in,
    select_texts_in2, utc_timestamp,
};
use crate::text::{
    chars_of, is_ascii_digit, is_white_space, is_whitespace_char, parse_u32, parse_u32_spec,
    push_char, string_of, string_of_range, trim, trim_string,
};

verus! {

// ---------------------------------------------------------------------------
// Text helpers
// ---------------------------------------------------------------------------
/// The ASCII digits of `s`, in order.
pub open spec fn ascii_digits(s: Seq<char>) -> Seq<char>
    decreases s.len(),
{
    if s.len() == 0 {
        s
    } else if is_ascii_digit(s.last()) {
        ascii_digits(s.drop_last()).push(s.last())
    } else {
        ascii_digits(s.drop_last())
    }
}

/// A six-digit time (`123045`, possibly with other characters between the
/// digits) written as `12:30:45`; anything else is kept as it is.
pub open spec fn format_time_spec(t: Seq<char>) -> Seq<char> {
    let d = ascii_digits(t);
    if d.len() == 6 {
        d.subrange(0, 2) + seq![':'] + d.subrange(2, 4) + seq![':'] + d.subrange(4, 6)
    } else {
        t
    }
}

/// Writes a bill time as `hh:mm:ss` when it holds exactly six digits.
pub fn format_time(time_str: &str) -> (r: String)
    ensures
        r@ == format_time_spec(time_str@),
{
    let v = chars_of(time_str);
    let mut d: Vec<char> = Vec::new();
    let mut i: usize = 0;
    while i < v.len()
        invariant
            i <= v.len(),
            v@ == time_str@,
            d@ == ascii_digits(v@.subrange(0, i as int)),
        decreases v.len() - i,
    {
        let ghost sub = v@.subrange(0, i + 1);
        assert(sub.drop_last() =~= v@.subrange(0, i as int));
        if '0' <= v[i] && v[i] <= '9' {
            d.push(v[i]);
        }
        i = i + 1;
    }
    assert(v@.subrange(0, v.len() as int) =~= v@);
    if d.len() == 6 {
        let mut r = string_of_range(&d, 0, 2);
        push_char(&mut r, ':');
        let b = string_of_range(&d, 2, 4);
        r.append(b.as_str());
        push_char(&mut r, ':');
        let c = string_of_range(&d, 4, 6);
        r.append(c.as_str());
        r
    } else {
        String::from_str(time_str)
    }
}

/// The runs of digits of `s`, joined (matches of `\d+`).
pub open spec fn only_digits_spec(s: Seq<char>) -> Seq<char> {
    match regex_joined_matches("\\d+"@, s) {
        Some(m) => m,
        None => Seq::empty(),
    }
}

/// Keeps the digits of `s` (every match of `\d+`, in order).
pub fn only_digits(s: &str) -> (r: String)
    ensures
        r@ == only_digits_spec(s@),
{
    match joined_matches("\\d+", s) {
        Some(m) => m,
        None => String::new(),
    }
}

/// `s` cut at every white space character (the pieces may be empty).
pub open spec fn split_ws(s: Seq<char>) -> Seq<Seq<char>>
    decreases s.len(),
{
    if s.len() == 0 {
        seq![Seq::empty()]
    } else if is_white_space(s.last()) {
        split_ws(s.drop_last()).push(Seq::empty())
    } else {
        let p = split_ws(s.drop_last());
        p.update(p.len() - 1, p.last().push(s.last()))
    }
}

/// The non-empty pieces, in order.
pub open spec fn non_empty(ps: Seq<Seq<char>>) -> Seq<Seq<char>>
    decreases ps.len(),
{
    if ps.len() == 0 {
        ps
    } else if ps.last().len() == 0 {
        non_empty(ps.drop_last())
    } else {
        non_empty(ps.drop_last()).push(ps.last())
    }
}

/// The words of `s` (what `str::split_whitespace` yields).
pub open spec fn words(s: Seq<char>) -> Seq<Seq<char>> {
    non_empty(split_ws(s))
}

/// The `k`-th word of `s`, or empty text when there are fewer words.
pub open spec fn nth_word(s: Seq<char>, k: int) -> Seq<char> {
    if 0 <= k < words(s).len() {
        words(s)[k]
    } else {
        Seq::empty()
    }
}

proof fn lemma_non_empty_push(ps: Seq<Seq<char>>, x: Seq<char>)
    ensures
        non_empty(ps.push(x)) == if x.len() == 0 {
            non_empty(ps)
        } else {
            non_empty(ps).push(x)
        },
{
    assert(ps.push(x).drop_last() =~= ps);
}

/// The words of a string (`str::split_whitespace`).
pub fn split_words(s: &Vec<char>) -> (r: Vec<Vec<char>>)
    ensures
        r@.map_values(|w: Vec<char>| w@) == words(s@),
{
    let mut done: Vec<Vec<char>> = Vec::new();
    let mut cur: Vec<char> = Vec::new();
    let mut i: usize = 0;
    while i < s.len()
        invariant
            i <= s.len(),
            split_ws(s@.subrange(0, i as int)).last() == cur@,
            split_ws(s@.subrange(0, i as int)).len() >= 1,
            done@.map_values(|w: Vec<char>| w@) == non_empty(
                split_ws(s@.subrange(0, i as int)).drop_last(),
            ),
        decreases s.len() - i,
    {
        let ghost pre = s@.subrange(0, i as int);
        let ghost nxt = s@.subrange(0, i + 1);
        assert(nxt.drop_last() =~= pre);
        assert(nxt.last() == s@[i as int]);
        let ghost old_done = done@.map_values(|w: Vec<char>| w@);
        if is_whitespace_char(s[i]) {
            proof {
                lemma_non_empty_push(split_ws(pre).drop_last(), cur@);
                assert(split_ws(pre).drop_last().push(cur@) =~= split_ws(pre));
                assert(split_ws(nxt).drop_last() =~= split_ws(pre));
            }
            if cur.len() > 0 {
                let w = cur;
                done.push(w);
                assert(done@.map_values(|w: Vec<char>| w@) =~= old_done.push(split_ws(pre).last()));
            }
            cur = Vec::new();
        } else {
            cur.push(s[i]);
            proof {
                let p = split_ws(pre);
                assert(split_ws(nxt).drop_last() =~= p.drop_last());
            }
        }
        i = i + 1;
    }
    proof {
        let all = s@.subrange(0, s.len() as int);
        assert(all =~= s@);
        lemma_non_empty_push(split_ws(all).drop_last(), cur@);
        assert(split_ws(all).drop_last().push(cur@) =~= split_ws(all));
    }
    let ghost old_done = done@.map_values(|w: Vec<char>| w@);
    if cur.len() > 0 {
        done.push(cur);
        assert(done@.map_values(|w: Vec<char>| w@) =~= old_done.push(split_ws(s@).last()));
    }
    done
}

// ---------------------------------------------------------------------------
// Bill rows
// ---------------------------------------------------------------------------
pub open spec fn row_selector() -> Seq<char> {
    "span > table > tbody > tr"@
}

pub open spec fn bill_time_format() -> Seq<char> {
    "%Y.%m.%d %H:%M:%S"@
}

/// The entry of the `i`-th row of the bill table: it needs at least six
/// cells (date and time, kind and number, counterpart, amount, method,
/// status). Date and time come from the two `div`s of the first cell, or
/// else from its first two words; kind and number from the two `div`s of the
/// second cell (the number keeping only its digits), or else the kind is the
/// whole cell and the number is empty. The timestamp is 0 when the date and
/// time do not parse.
pub open spec fn bill_row(src: Seq<char>, i: nat) -> Option<BillItemView> {
    let tds = html_texts_in(src, row_selector(), i, "td"@);
    if tds.len() < 6 {
        None
    } else {
        let divs = html_texts_in2(src, row_selector(), i, "td"@, 0, "div"@);
        let date = if divs.len() >= 2 { trim(divs[0]) } else { nth_word(trim(tds[0]), 0) };
        let time = if divs.len() >= 2 { trim(divs[1]) } else { nth_word(trim(tds[0]), 1) };
        let tf = format_time_spec(time);
        let dtf = date + seq![' '] + tf;
        let ts = match naive_utc_timestamp(dtf, bill_time_format()) {
            Some(t) => t,
            None => 0,
        };
        let deal = html_texts_in2(src, row_selector(), i, "td"@, 1, "div"@);
        let item_type = if deal.len() >= 2 { trim(deal[0]) } else { trim(tds[1]) };
        let number = if deal.len() >= 2 { only_digits_spec(trim(deal[1])) } else { Seq::empty() };
        Some(BillItemView {
            date_str: date,
            time_str: time,
            time_str_formatted: tf,
            date_time_formatted: dtf,
            end_date_time_formatted: dtf,
            timestamp: ts,
            end_timestamp: ts,
            item_type,
            number,
            number_list: seq![number],
            target_user: trim(tds[2]),
            money_str: trim(tds[3]),
            money_cents: money_cents_of(trim(tds[3])) as i64,
            method: trim(tds[4]),
            status_str: trim(tds[5]),
            is_combined: false,
        })
    }
}

/// Which cell of a bill row gives which field: a row of fewer than six
/// cells gives no entry; otherwise the counterpart is the trimmed third
/// cell, the amount the trimmed fourth (read in fen), the payment method the
/// trimmed fifth and the status the trimmed sixth; the kind is the first
/// `div` of the second cell, or that whole cell when it has fewer than two
/// `div`s, and the number the digits of its second `div`; the date and the
/// time are the two `div`s of the first cell when it has them; the entry is
/// a single one carrying its own number, starting and ending at once.
pub proof fn lemma_bill_row_cells(src: Seq<char>, i: nat)
    ensures
        ({
            let tds = html_texts_in(src, row_selector(), i, "td"@);
            let deal = html_texts_in2(src, row_selector(), i, "td"@, 1, "div"@);
            let divs = html_texts_in2(src, row_selector(), i, "td"@, 0, "div"@);
            &&& tds.len() < 6 ==> bill_row(src, i) is None
            &&& tds.len() >= 6 ==> (bill_row(src, i) matches Some(b) && {
                &&& b.target_user == trim(tds[2])
                &&& b.money_str == trim(tds[3])
                &&& b.money_cents == money_cents_of(trim(tds[3]))
                &&& b.method == trim(tds[4])
                &&& b.status_str == trim(tds[5])
                &&& b.item_type == (if deal.len() >= 2 { trim(deal[0]) } else { trim(tds[1]) })
                &&& b.number == (if deal.len() >= 2 { only_digits_spec(trim(deal[1])) } else { Seq::empty() })
                &&& divs.len() >= 2 ==> b.date_str == trim(divs[0]) && b.time_str == trim(divs[1])
                &&& b.timestamp == b.end_timestamp
                &&& b.number_list == seq![b.number]
                &&& !b.is_combined
            })
        }),
{
}

/// Reads the `row`-th row of the bill table (`span > table > tbody > tr`)
/// of a bill page; `None` when the row has fewer than six cells.
pub fn parse_bill_item(html: &str, row: usize) -> (r: Option<BillItem>)
    ensures
        r matches Some(b) ==> bill_row(html@, row as nat) == Some(b@),
        r is None ==> bill_row(html@, row as nat) is None,
{
    let rs = "span > table > tbody > tr";
    let tds = select_texts_in(html, rs, row, "td");
    if tds.len() < 6 {
        assert(string_views(tds@).len() == tds.len());
        return None;
    }
    proof {
        assert(string_views(tds@)[0] == tds@[0]@);
        assert(string_views(tds@)[1] == tds@[1]@);
        assert(string_views(tds@)[2] == tds@[2]@);
        assert(string_views(tds@)[3] == tds@[3]@);
        assert(string_views(tds@)[4] == tds@[4]@);
        assert(string_views(tds@)[5] == tds@[5]@);
    }
    let divs = select_texts_in2(html, rs, row, "td", 0, "div");
    let (date_str, time_str) = if divs.len() >= 2 {
        assert(string_views(divs@)[0] == divs@[0]@);
        assert(string_views(divs@)[1] == divs@[1]@);
        (trim_string(divs[0].as_str()), trim_string(divs[1].as_str()))
    } else {
        let text = trim_string(tds[0].as_str());
        let tv = chars_of(text.as_str());
        let ws = split_words(&tv);
        proof {
            assert(ws@.map_values(|w: Vec<char>| w@).len() == ws.len());
            if ws.len() > 0 {
                assert(ws@.map_values(|w: Vec<char>| w@)[0] == ws@[0]@);
            }
            if ws.len() > 1 {
                assert(ws@.map_values(|w: Vec<char>| w@)[1] == ws@[1]@);
            }
        }
        let d = if ws.len() > 0 {
            string_of(&ws[0])
        } else {
            String::new()
        };
        let t = if ws.len() > 1 {
            string_of(&ws[1])
        } else {
            String::new()
        };
        (d, t)
    };
    let time_fmt = format_time(time_str.as_str());
    let mut dtf = date_str.clone();
    push_char(&mut dtf, ' ');
    dtf.append(time_fmt.as_str());
    let timestamp = match utc_timestamp(dtf.as_str(), "%Y.%m.%d %H:%M:%S") {
        Some(t) => t,
        None => 0,
    };
    let deal = select_texts_in2(html, rs, row, "td", 1, "div");
    let (item_type, number) = if deal.len() >= 2 {
        assert(string_views(deal@)[0] == deal@[0]@);
        assert(string_views(deal@)[1] == deal@[1]@);
        let kind = trim_string(deal[0].as_str());
        let raw = trim_string(deal[1].as_str());
        (kind, only_digits(raw.as_str()))
    } else {
        (trim_string(tds[1].as_str()), String::new())
    };
    let target_user = trim_string(tds[2].as_str());
    let money_str = trim_string(tds[3].as_str());
    let money = parse_money_cents(money_str.as_str());
    let method = trim_string(tds[4].as_str());
    let status_str = trim_string(tds[5].as_str());
    let item = BillItem::new_single(
        date_str,
        time_str,
        time_fmt,
        dtf,
        timestamp,
        item_type,
        number,
        target_user,
        money_str,
        money,
        method,
        status_str,
    );
    proof {
        assert(item@.number_list =~= seq![item@.number]);
        crate::text::lemma_trim_idempotent(tds@[3]@);
        let sb = bill_row(html@, row as nat)->0;
        assert(item@.date_str == sb.date_str);
        assert(item@.time_str == sb.time_str);
        assert(item@.time_str_formatted == sb.time_str_formatted);
        assert(item@.date_time_formatted == sb.date_time_formatted);
        assert(item@.end_date_time_formatted == sb.end_date_time_formatted);
        assert(item@.timestamp == sb.timestamp);
        assert(item@.end_timestamp == sb.end_timestamp);
        assert(item@.item_type == sb.item_type);
        assert(item@.number == sb.number);
        assert(item@.number_list == sb.number_list);
        assert(item@.target_user == sb.target_user);
        assert(item@.money_str == sb.money_str);
        assert(item@.money_cents == sb.money_cents);
        assert(item@.method == sb.method);
        assert(item@.status_str == sb.status_str);
        assert(item@.is_combined == sb.is_combined);
        assert(item@ =~= sb);
    }
    Some(item)
}

/// The entries of rows `0..n`, skipping rows that are not entries.
pub open spec fn bill_rows(src: Seq<char>, n: nat) -> Seq<BillItemView>
    decreases n,
{
    if n == 0 {
        Seq::empty()
    } else {
        match bill_row(src, (n - 1) as nat) {
            Some(b) => bill_rows(src, (n - 1) as nat).push(b),
            None => bill_rows(src, (n - 1) as nat),
        }
    }
}

/// All entries of a bill page, in row order.
pub open spec fn bill_list_spec(src: Seq<char>) -> Seq<BillItemView> {
    bill_rows(src, html_texts(src, row_selector()).len())
}

/// Reads every entry of the bill table, skipping rows that are not entries.
pub fn parse_bill_item_list(html: &str) -> (r: Vec<BillItem>)
    ensures
        crate::bill_item::item_views(r@) == bill_list_spec(html@),
{
    let rows = select_texts(html, "span > table > tbody > tr");
    let n = rows.len();
    assert(string_views(rows@).len() == n);
    let mut bills: Vec<BillItem> = Vec::new();
    let mut i: usize = 0;
    while i < n
        invariant
            i <= n,
            n == html_texts(html@, row_selector()).len(),
            crate::bill_item::item_views(bills@) == bill_rows(html@, i as nat),
        decreases n - i,
    {
        let ghost before = crate::bill_item::item_views(bills@);
        match parse_bill_item(html, i) {
            Some(item) => {
                let ghost iv = item@;
                bills.push(item);
                assert(crate::bill_item::item_views(bills@) =~= before.push(iv));
            },
            None => {},
        }
        i = i + 1;
    }
    bills
}

/// Only the entries of a bill page.
pub fn parse_bill_list(html: &str) -> (r: Result<Vec<BillItem>, String>)
    ensures
        r matches Ok(v) && crate::bill_item::item_views(v@) == bill_list_spec(html@),
{
    Ok(parse_bill_item_list(html))
}

// ---------------------------------------------------------------------------
// Page counter
// ---------------------------------------------------------------------------
pub open spec fn counter_selector() -> Seq<char> {
    "div > table > tbody > tr > td"@
}

pub open spec fn counter_pattern() -> Seq<char> {
    "当前(\\d+)/(\\d+)页"@
}

/// The total of the first counter cell (`当前X/Y页`) among `cells`: `Y` as a
/// number, or 1 when `Y` does not fit a `u32`; 1 when no cell holds a counter.
pub open spec fn total_pages_in(cells: Seq<Seq<char>>) -> u32
    decreases cells.len(),
{
    if cells.len() == 0 {
        1
    } else {
        let earlier = total_pages_in(cells.drop_last());
        if counter_found(cells.drop_last()) {
            earlier
        } else {
            match regex_first_captures(counter_pattern(), cells.last()) {
                Some(Some(g)) => total_of_groups(g),
                _ => 1,
            }
        }
    }
}

/// Some cell holds a counter.
pub open spec fn counter_found(cells: Seq<Seq<char>>) -> bool
    decreases cells.len(),
{
    if cells.len() == 0 {
        false
    } else {
        counter_found(cells.drop_last()) || regex_first_captures(counter_pattern(), cells.last())
            matches Some(Some(_))
    }
}

pub open spec fn total_of_groups(g: Seq<Option<Seq<char>>>) -> u32 {
    if g.len() > 2 && g[2] is Some {
        match parse_u32_spec(g[2]->0) {
            Some(n) => n,
            None => 1,
        }
    } else {
        1
    }
}

/// Reads the page count of a bill page (`当前X/Y页` gives `Y`); 1 when the
/// page has no counter. The error case is a counter pattern that does not
/// compile.
pub fn get_total_pages(html: &str) -> (r: Result<u32, String>)
    ensures
        regex_first_captures(counter_pattern(), Seq::empty()) is None ==> r is Err,
        regex_first_captures(counter_pattern(), Seq::empty()) is Some ==> r == Ok::<u32, String>(
            total_pages_in(html_texts(html@, counter_selector())),
        ),
{
    let pattern = "当前(\\d+)/(\\d+)页";
    let empty = String::new();
    if first_captures(pattern, empty.as_str()).is_none() {
        return Err(String::from_str("invalid page counter pattern"));
    }
    let cells = select_texts(html, "div > table > tbody > tr > td");
    let ghost cs = string_views(cells@);
    let mut i: usize = 0;
    while i < cells.len()
        invariant
            i <= cells.len(),
            cs == string_views(cells@),
            cs == html_texts(html@, counter_selector()),
            pattern@ == counter_pattern(),
            regex_first_captures(counter_pattern(), Seq::empty()) is Some,
            !counter_found(cs.subrange(0, i as int)),
            total_pages_in(cs.subrange(0, i as int)) == 1,
        decreases cells.len() - i,
    {
        let ghost pre = cs.subrange(0, i as int);
        let ghost nxt = cs.subrange(0, i + 1);
        assert(nxt.drop_last() =~= pre);
        assert(nxt.last() == cells@[i as int]@);
        match first_captures(pattern, cells[i].as_str()) {
            Some(Some(groups)) => {
                let total = if groups.len() > 2 {
                    match &groups[2] {
                        Some(g) => match parse_u32(g.as_str()) {
                            Some(n) => n,
                            None => 1,
                        },
                        None => 1,
                    }
                } else {
                    1
                };
                proof {
                    lemma_first_counter(cs, i as int);
                    assert(crate::html::opt_views(groups@).len() == groups.len());
                    if groups.len() > 2 {
                        assert(crate::html::opt_views(groups@)[2] == opt_view(groups@[2]));
                    }
                }
                return Ok(total);
            },
            _ => {},
        }
        i = i + 1;
    }
    assert(cs.subrange(0, cells.len() as int) =~= cs);
    Ok(1)
}

/// When the first counter is in cell `i`, it decides the total.
proof fn lemma_first_counter(cs: Seq<Seq<char>>, i: int)
    requires
        0 <= i < cs.len(),
        !counter_found(cs.subrange(0, i)),
        regex_first_captures(counter_pattern(), cs[i]) matches Some(Some(_)),
    ensures
        total_pages_in(cs) == total_of_groups(regex_first_captures(counter_pattern(), cs[i])->0->0),
    decreases cs.len(),
{
    if i == cs.len() - 1 {
        assert(cs.drop_last() =~= cs.subrange(0, i));
    } else {
        let d = cs.drop_last();
        assert(d.subrange(0, i) =~= cs.subrange(0, i));
        assert(d[i] == cs[i]);
        lemma_first_counter(d, i);
        lemma_counter_found_at(d, i);
    }
}

proof fn lemma_counter_found_at(cs: Seq<Seq<char>>, i: int)
    requires
        0 <= i < cs.len(),
        regex_first_captures(counter_pattern(), cs[i]) matches Some(Some(_)),
    ensures
        counter_found(cs),
    decreases cs.len(),
{
    if i < cs.len() - 1 {
        let d = cs.drop_last();
        assert(d[i] == cs[i]);
        lemma_counter_found_at(d, i);
    }
}

/// Entries and page count of one bill page.
pub struct BillParseResult {
    pub bills: Vec<BillItem>,
    pub total_pages: u32,
}

/// Reads a whole bill page: its entries and its page count.
pub fn parse_bill_page(html: &str) -> (r: Result<BillParseResult, String>)
    ensures
        regex_first_captures(counter_pattern(), Seq::empty()) is None ==> r is Err,
        regex_first_captures(counter_pattern(), Seq::empty()) is Some ==> (r matches Ok(p)
            && crate::bill_item::item_views(p.bills@) == bill_list_spec(html@) && p.total_pages
            == total_pages_in(html_texts(html@, counter_selector()))),
{
    let bills = parse_bill_item_list(html);
    match get_total_pages(html) {
        Ok(total_pages) => Ok(BillParseResult { bills, total_pages }),
        Err(e) => Err(e),
    }
}

} // verus!
