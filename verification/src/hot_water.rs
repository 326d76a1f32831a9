//! The hot water page: for each building, the water temperature and the
//! tank level.
//!
//! Each list entry holds a `div.bagreen` with three child elements: the
//! temperature (`36.5℃`), the level (`水位75%`) and the building name. The
//! temperature and the level are kept as their digits and dots, which read
//! as a decimal number; turning them into floating-point values is left to
//! the caller.
use vstd::prelude::*;
use vstd::string::*;

use crate::bill_item::string_views;
use crate::bill_parser::{only_digits, only_digits_spec};
use crate::html::{child_texts_in3, html_child_texts_in3, html_texts_in, select_texts_in};
use crate::text::{
    chars_of, contains, contains_str, is_ascii_digit, parse_u32, parse_u32_spec, string_of,
    string_of_range,
};

verus! {

pub open spec fn is_float_char(c: char) -> bool {
    is_ascii_digit(c) || c == '.'
}

/// The ASCII digits and dots of `s`, in order.
pub open spec fn float_digits(s: Seq<char>) -> Seq<char>
    decreases s.len(),
{
    if s.len() == 0 {
        s
    } else if is_float_char(s.last()) {
        float_digits(s.drop_last()).push(s.last())
    } else {
        float_digits(s.drop_last())
    }
}

/// Keeps the ASCII digits and the dots of `s`.
pub fn only_float_digits(s: &str) -> (r: String)
    ensures
        r@ == float_digits(s@),
{
    let v = chars_of(s);
    let mut w: Vec<char> = Vec::new();
    let mut i: usize = 0;
    while i < v.len()
        invariant
            i <= v.len(),
            w@ == float_digits(v@.subrange(0, i as int)),
        decreases v.len() - i,
    {
        assert(v@.subrange(0, i + 1).drop_last() =~= v@.subrange(0, i as int));
        let c = v[i];
        if ('0' <= c && c <= '9') || c == '.' {
            w.push(c);
        }
        i = i + 1;
    }
    assert(v@.subrange(0, v@.len() as int) =~= v@);
    string_of(&w)
}

/// Number of dots in `s`.
pub open spec fn dot_count(s: Seq<char>) -> nat
    decreases s.len(),
{
    if s.len() == 0 {
        0
    } else {
        dot_count(s.drop_last()) + if s.last() == '.' { 1nat } else { 0nat }
    }
}

/// A text of digits and dots reads as a decimal number: at most one dot
/// and at least one digit (`1.`, `.5` and `36.5` do; `.`, `` and `1.2.3`
/// do not).
pub open spec fn is_decimal_text(s: Seq<char>) -> bool {
    dot_count(s) <= 1 && s.len() > dot_count(s)
}

fn decimal_text(s: &str) -> (r: bool)
    ensures
        r == is_decimal_text(s@),
{
    let v = chars_of(s);
    let mut dots: usize = 0;
    let mut i: usize = 0;
    while i < v.len()
        invariant
            i <= v.len(),
            dots == dot_count(v@.subrange(0, i as int)),
            dots <= i,
        decreases v.len() - i,
    {
        assert(v@.subrange(0, i + 1).drop_last() =~= v@.subrange(0, i as int));
        if v[i] == '.' {
            dots = dots + 1;
        }
        i = i + 1;
    }
    assert(v@.subrange(0, v@.len() as int) =~= v@);
    dots <= 1 && v.len() > dots
}

/// One building's reading: the building number, and the temperature and
/// level as decimal texts.
#[derive(Debug, Clone)]
pub struct HotWaterInfo {
    pub building: u32,
    pub temperature: String,
    pub water_level: String,
}

pub open spec fn reading_view(r: HotWaterInfo) -> (u32, Seq<char>, Seq<char>) {
    (r.building, r.temperature@, r.water_level@)
}

/// The reading three cell texts give, if they read: the temperature and
/// level must be decimal numbers and the building's digits a `u32`.
pub open spec fn reading_of(cells: Seq<Seq<char>>) -> Option<(u32, Seq<char>, Seq<char>)> {
    if cells.len() != 3 {
        None
    } else {
        let t = float_digits(cells[0]);
        let l = float_digits(cells[1]);
        if !is_decimal_text(t) || !is_decimal_text(l) {
            None
        } else {
            match parse_u32_spec(only_digits_spec(cells[2])) {
                Some(b) => Some((b, t, l)),
                None => None,
            }
        }
    }
}

/// The readings of a sequence of entries, in order; entries that do not
/// read are skipped.
pub open spec fn readings(rows: Seq<Seq<Seq<char>>>) -> Seq<(u32, Seq<char>, Seq<char>)>
    decreases rows.len(),
{
    if rows.len() == 0 {
        Seq::empty()
    } else {
        match reading_of(rows.last()) {
            Some(x) => readings(rows.drop_last()).push(x),
            None => readings(rows.drop_last()),
        }
    }
}

pub open spec fn list_selector() -> Seq<char> {
    "#tab1 > div > div > ul"@
}

/// The child texts of the `div.bagreen` of each entry of the first list.
pub open spec fn hot_water_rows(src: Seq<char>) -> Seq<Seq<Seq<char>>> {
    let n = html_texts_in(src, list_selector(), 0, "li"@).len();
    Seq::new(
        n,
        |k: int| html_child_texts_in3(src, list_selector(), 0, "li"@, k as nat, "div.bagreen"@, 0),
    )
}

fn reading_exec(cells: &Vec<String>) -> (r: Option<HotWaterInfo>)
    ensures
        match r {
            Some(x) => reading_of(string_views(cells@)) == Some(reading_view(x)),
            None => reading_of(string_views(cells@)) is None,
        },
{
    if cells.len() != 3 {
        return None;
    }
    proof {
        let cv = string_views(cells@);
        assert(cv[0] == cells@[0]@);
        assert(cv[1] == cells@[1]@);
        assert(cv[2] == cells@[2]@);
    }
    let t = only_float_digits(cells[0].as_str());
    let l = only_float_digits(cells[1].as_str());
    if !decimal_text(t.as_str()) || !decimal_text(l.as_str()) {
        return None;
    }
    let digits = only_digits(cells[2].as_str());
    match parse_u32(digits.as_str()) {
        Some(b) => Some(HotWaterInfo { building: b, temperature: t, water_level: l }),
        None => None,
    }
}

/// Reads the hot water page: one reading per list entry whose three cells
/// read, in page order. A page without the list gives no readings.
pub fn parse_hot_water_list(html: &str) -> (r: Result<Vec<HotWaterInfo>, String>)
    ensures
        r matches Ok(v) && v@.map_values(|x: HotWaterInfo| reading_view(x)) == readings(
            hot_water_rows(html@),
        ),
{
    proof {
        reveal_strlit("#tab1 > div > div > ul");
        reveal_strlit("li");
        reveal_strlit("div.bagreen");
    }
    let ghost rows = hot_water_rows(html@);
    let n = select_texts_in(html, "#tab1 > div > div > ul", 0, "li").len();
    let mut out: Vec<HotWaterInfo> = Vec::new();
    let mut k: usize = 0;
    while k < n
        invariant
            k <= n,
            rows == hot_water_rows(html@),
            n == rows.len(),
            out@.map_values(|x: HotWaterInfo| reading_view(x)) == readings(
                rows.subrange(0, k as int),
            ),
        decreases n - k,
    {
        let cells = child_texts_in3(html, "#tab1 > div > div > ul", 0, "li", k, "div.bagreen", 0);
        proof {
            assert(rows.subrange(0, k + 1).drop_last() =~= rows.subrange(0, k as int));
            assert(rows.subrange(0, k + 1).last() == rows[k as int]);
        }
        match reading_exec(&cells) {
            Some(x) => {
                let ghost before = out@.map_values(|x: HotWaterInfo| reading_view(x));
                out.push(x);
                assert(out@.map_values(|x: HotWaterInfo| reading_view(x)) =~= before.push(
                    reading_view(x),
                ));
            },
            None => {},
        }
        k = k + 1;
    }
    assert(rows.subrange(0, n as int) =~= rows);
    Ok(out)
}

/// The page is an error page of the server rather than an empty list: it
/// mentions `Fatal error`, `404 Not Found` or `Exception`.
pub fn is_server_error_page(html: &str) -> (r: bool)
    ensures
        r == (contains(html@, "Fatal error"@) || contains(html@, "404 Not Found"@) || contains(
            html@,
            "Exception"@,
        )),
{
    contains_str(html, "Fatal error") || contains_str(html, "404 Not Found") || contains_str(
        html,
        "Exception",
    )
}

/// The first 500 characters of a page, to show an error page.
pub fn page_excerpt(html: &str) -> (r: String)
    ensures
        r@ == if html@.len() <= 500 { html@ } else { html@.subrange(0, 500) },
{
    let v = chars_of(html);
    let n = if v.len() <= 500 { v.len() } else { 500 };
    let r = string_of_range(&v, 0, n);
    assert(v@.len() <= 500 ==> v@.subrange(0, n as int) =~= v@);
    r
}

} // verus!
