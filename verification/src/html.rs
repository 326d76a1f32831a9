//! Queries on HTML pages, answered by `scraper`, and the regular
//! expressions and date parsing the page parsers use, answered by `regex`
//! and `chrono`.
//!
//! Every query takes the page source and CSS selectors as plain text. An
//! element is reached by a path: the `i1`-th match of `s1` in the document,
//! then the `i2`-th match of `s2` among its descendants, and so on. The text
//! of an element is the concatenation of its descendant text nodes. A
//! selector that does not parse matches nothing.
use vstd::prelude::*;

use crate::bill_item::string_views;

verus! {

/// Texts of the elements matching `sel` in the document, in the order
/// `scraper::Html::select` yields them.
pub uninterp spec fn html_texts(src: Seq<char>, sel: Seq<char>) -> Seq<Seq<char>>;

/// Texts of the descendants matching `s2` of the `i1`-th match of `s1`.
pub uninterp spec fn html_texts_in(src: Seq<char>, s1: Seq<char>, i1: nat, s2: Seq<char>) -> Seq<
    Seq<char>,
>;

/// Texts of the matches of `s3` under the path `(s1, i1), (s2, i2)`.
pub uninterp spec fn html_texts_in2(
    src: Seq<char>,
    s1: Seq<char>,
    i1: nat,
    s2: Seq<char>,
    i2: nat,
    s3: Seq<char>,
) -> Seq<Seq<char>>;

/// Texts of the matches of `s4` under the path `(s1, i1), (s2, i2), (s3, i3)`.
pub uninterp spec fn html_texts_in3(
    src: Seq<char>,
    s1: Seq<char>,
    i1: nat,
    s2: Seq<char>,
    i2: nat,
    s3: Seq<char>,
    i3: nat,
    s4: Seq<char>,
) -> Seq<Seq<char>>;

/// Texts of the child elements of the element at the path
/// `(s1, i1), (s2, i2), (s3, i3)`.
pub uninterp spec fn html_child_texts_in3(
    src: Seq<char>,
    s1: Seq<char>,
    i1: nat,
    s2: Seq<char>,
    i2: nat,
    s3: Seq<char>,
    i3: nat,
) -> Seq<Seq<char>>;

/// Value of the attribute `attr` of each element matching `sel`.
pub uninterp spec fn html_attrs(src: Seq<char>, sel: Seq<char>, attr: Seq<char>) -> Seq<
    Option<Seq<char>>,
>;

/// All non-overlapping matches of `pattern` in `text`, concatenated;
/// `None` when the pattern does not compile.
pub uninterp spec fn regex_joined_matches(pattern: Seq<char>, text: Seq<char>) -> Option<Seq<char>>;

/// Capture groups of the first match of `pattern` in `text` (group 0 is the
/// whole match; a group that did not take part is `None`). The outer `None`
/// means the pattern does not compile; the inner one means no match.
pub uninterp spec fn regex_first_captures(pattern: Seq<char>, text: Seq<char>) -> Option<
    Option<Seq<Option<Seq<char>>>>,
>;

/// Seconds since the Unix epoch of `text` read with the `chrono` format
/// `fmt` as a UTC date and time; `None` when it does not parse.
pub uninterp spec fn naive_utc_timestamp(text: Seq<char>, fmt: Seq<char>) -> Option<i64>;

pub open spec fn opt_view(o: Option<String>) -> Option<Seq<char>> {
    match o {
        Some(s) => Some(s@),
        None => None,
    }
}

pub open spec fn opt_views(v: Seq<Option<String>>) -> Seq<Option<Seq<char>>> {
    v.map_values(|o: Option<String>| opt_view(o))
}

/// `scraper`: texts of `Html::parse_document(src).select(sel)`.
#[verifier::external_body]
pub(crate) fn select_texts(src: &str, sel: &str) -> (r: Vec<String>)
    ensures
        string_views(r@) == html_texts(src@, sel@),
{
    let doc = scraper::Html::parse_document(src);
    match scraper::Selector::parse(sel) {
        Ok(s) => doc.select(&s).map(|e| e.text().collect::<String>()).collect(),
        Err(_) => Vec::new(),
    }
}

/// `scraper`: texts of the `s2` matches inside the `i1`-th `s1` match.
#[verifier::external_body]
pub(crate) fn select_texts_in(src: &str, s1: &str, i1: usize, s2: &str) -> (r: Vec<String>)
    ensures
        string_views(r@) == html_texts_in(src@, s1@, i1 as nat, s2@),
{
    let doc = scraper::Html::parse_document(src);
    match (scraper::Selector::parse(s1), scraper::Selector::parse(s2)) {
        (Ok(a), Ok(b)) => match doc.select(&a).nth(i1) {
            Some(e) => e.select(&b).map(|x| x.text().collect::<String>()).collect(),
            None => Vec::new(),
        },
        _ => Vec::new(),
    }
}

/// `scraper`: texts of the `s3` matches under the path `(s1, i1), (s2, i2)`.
#[verifier::external_body]
pub(crate) fn select_texts_in2(src: &str, s1: &str, i1: usize, s2: &str, i2: usize, s3: &str) -> (r: Vec<
    String,
>)
    ensures
        string_views(r@) == html_texts_in2(src@, s1@, i1 as nat, s2@, i2 as nat, s3@),
{
    let doc = scraper::Html::parse_document(src);
    let p = |s: &str| scraper::Selector::parse(s).ok();
    match (p(s1), p(s2), p(s3)) {
        (Some(a), Some(b), Some(c)) => doc.select(&a).nth(i1).and_then(|e| e.select(&b).nth(i2)).map(
            |e| e.select(&c).map(|x| x.text().collect::<String>()).collect(),
        ).unwrap_or_default(),
        _ => Vec::new(),
    }
}

/// `scraper`: texts of the `s4` matches under the path
/// `(s1, i1), (s2, i2), (s3, i3)`.
#[verifier::external_body]
pub(crate) fn select_texts_in3(
    src: &str,
    s1: &str,
    i1: usize,
    s2: &str,
    i2: usize,
    s3: &str,
    i3: usize,
    s4: &str,
) -> (r: Vec<String>)
    ensures
        string_views(r@) == html_texts_in3(
            src@,
            s1@,
            i1 as nat,
            s2@,
            i2 as nat,
            s3@,
            i3 as nat,
            s4@,
        ),
{
    let doc = scraper::Html::parse_document(src);
    let p = |s: &str| scraper::Selector::parse(s).ok();
    match (p(s1), p(s2), p(s3), p(s4)) {
        (Some(a), Some(b), Some(c), Some(d)) => doc.select(&a).nth(i1).and_then(
            |e| e.select(&b).nth(i2),
        ).and_then(|e| e.select(&c).nth(i3)).map(
            |e| e.select(&d).map(|x| x.text().collect::<String>()).collect(),
        ).unwrap_or_default(),
        _ => Vec::new(),
    }
}

/// `scraper`: texts of the child elements of the element at the path
/// `(s1, i1), (s2, i2), (s3, i3)`.
#[verifier::external_body]
pub(crate) fn child_texts_in3(
    src: &str,
    s1: &str,
    i1: usize,
    s2: &str,
    i2: usize,
    s3: &str,
    i3: usize,
) -> (r: Vec<String>)
    ensures
        string_views(r@) == html_child_texts_in3(src@, s1@, i1 as nat, s2@, i2 as nat, s3@, i3 as nat),
{
    let doc = scraper::Html::parse_document(src);
    let p = |s: &str| scraper::Selector::parse(s).ok();
    match (p(s1), p(s2), p(s3)) {
        (Some(a), Some(b), Some(c)) => doc.select(&a).nth(i1).and_then(|e| e.select(&b).nth(i2)).and_then(
            |e| e.select(&c).nth(i3),
        ).map(|e| e.child_elements().map(|x| x.text().collect::<String>()).collect()).unwrap_or_default(),
        _ => Vec::new(),
    }
}

/// `scraper`: the attribute `attr` of every element matching `sel`.
#[verifier::external_body]
pub(crate) fn select_attrs(src: &str, sel: &str, attr: &str) -> (r: Vec<Option<String>>)
    ensures
        opt_views(r@) == html_attrs(src@, sel@, attr@),
{
    let doc = scraper::Html::parse_document(src);
    match scraper::Selector::parse(sel) {
        Ok(s) => doc.select(&s).map(|e| e.attr(attr).map(|v| v.to_string())).collect(),
        Err(_) => Vec::new(),
    }
}

/// `regex`: every match of `pattern` in `text` (`Regex::find_iter`), joined.
#[verifier::external_body]
pub(crate) fn joined_matches(pattern: &str, text: &str) -> (r: Option<String>)
    ensures
        opt_view(r) == regex_joined_matches(pattern@, text@),
{
    regex::Regex::new(pattern).ok().map(|re| re.find_iter(text).map(|m| m.as_str()).collect())
}

/// `regex`: the capture groups of the first match (`Regex::captures`).
#[verifier::external_body]
pub(crate) fn first_captures(pattern: &str, text: &str) -> (r: Option<Option<Vec<Option<String>>>>)
    ensures
        r matches Some(found) ==> regex_first_captures(pattern@, text@) == Some(
            match found {
                Some(groups) => Some(opt_views(groups@)),
                None => None,
            },
        ),
        r is None ==> regex_first_captures(pattern@, text@) is None,
{
    match regex::Regex::new(pattern) {
        Ok(re) => Some(
            re.captures(text).map(
                |c| c.iter().map(|g| g.map(|m| m.as_str().to_string())).collect(),
            ),
        ),
        Err(_) => None,
    }
}

/// `chrono`: `NaiveDateTime::parse_from_str(text, fmt)` taken as UTC, in
/// seconds since the epoch.
#[verifier::external_body]
pub(crate) fn utc_timestamp(text: &str, fmt: &str) -> (r: Option<i64>)
    ensures
        r == naive_utc_timestamp(text@, fmt@),
{
    chrono::NaiveDateTime::parse_from_str(text, fmt).ok().map(|dt| dt.and_utc().timestamp())
}

} // verus!
