//! One e-card bill entry, and the merging of several entries into one.
use vstd::prelude::*;
use vstd::string::*;

use crate::bill::{cents_text, cents_to_string, BillItemStatus};
use crate::text::{i64_to_decimal, int_to_decimal, str_eq};

verus! {

/// A bill entry. A single entry comes from one row of the bill page; a
/// combined entry comes from `merge`.
#[derive(Debug)]
pub struct BillItem {
    pub date_str: String,
    pub time_str: String,
    pub time_str_formatted: String,
    /// Start time (single entry: its time; combined: the earliest).
    pub date_time_formatted: String,
    /// End time (single entry: its time; combined: the latest).
    pub end_date_time_formatted: String,
    pub timestamp: i64,
    pub end_timestamp: i64,
    pub item_type: String,
    /// Transaction number; empty for a combined entry.
    pub number: String,
    /// All transaction numbers (single: `[number]`; combined: in time order).
    pub number_list: Vec<String>,
    pub target_user: String,
    pub money_str: String,
    /// The amount, in fen.
    pub money_cents: i64,
    pub method: String,
    pub status_str: String,
    pub is_combined: bool,
}

/// The contents of a `BillItem`, as mathematical values.
#[verifier::ext_equal]
pub struct BillItemView {
    pub date_str: Seq<char>,
    pub time_str: Seq<char>,
    pub time_str_formatted: Seq<char>,
    pub date_time_formatted: Seq<char>,
    pub end_date_time_formatted: Seq<char>,
    pub timestamp: i64,
    pub end_timestamp: i64,
    pub item_type: Seq<char>,
    pub number: Seq<char>,
    pub number_list: Seq<Seq<char>>,
    pub target_user: Seq<char>,
    pub money_str: Seq<char>,
    pub money_cents: i64,
    pub method: Seq<char>,
    pub status_str: Seq<char>,
    pub is_combined: bool,
}

impl View for BillItem {
    type V = BillItemView;

    open spec fn view(&self) -> BillItemView {
        BillItemView {
            date_str: self.date_str@,
            time_str: self.time_str@,
            time_str_formatted: self.time_str_formatted@,
            date_time_formatted: self.date_time_formatted@,
            end_date_time_formatted: self.end_date_time_formatted@,
            timestamp: self.timestamp,
            end_timestamp: self.end_timestamp,
            item_type: self.item_type@,
            number: self.number@,
            number_list: string_views(self.number_list@),
            target_user: self.target_user@,
            money_str: self.money_str@,
            money_cents: self.money_cents,
            method: self.method@,
            status_str: self.status_str@,
            is_combined: self.is_combined,
        }
    }
}

/// The views of a sequence of entries.
pub open spec fn item_views(v: Seq<BillItem>) -> Seq<BillItemView> {
    v.map_values(|b: BillItem| b@)
}

pub open spec fn string_views(v: Seq<String>) -> Seq<Seq<char>> {
    v.map_values(|s: String| s@)
}

pub fn clone_strings(v: &Vec<String>) -> (r: Vec<String>)
    ensures
        r@ == v@,
{
    let mut r: Vec<String> = Vec::new();
    let mut i: usize = 0;
    while i < v.len()
        invariant
            i <= v.len(),
            r@ == v@.subrange(0, i as int),
        decreases v.len() - i,
    {
        r.push(v[i].clone());
        i = i + 1;
    }
    assert(r@ =~= v@);
    r
}

impl Clone for BillItem {
    fn clone(&self) -> (r: Self)
        ensures
            r@ == self@,
    {
        BillItem {
            date_str: self.date_str.clone(),
            time_str: self.time_str.clone(),
            time_str_formatted: self.time_str_formatted.clone(),
            date_time_formatted: self.date_time_formatted.clone(),
            end_date_time_formatted: self.end_date_time_formatted.clone(),
            timestamp: self.timestamp,
            end_timestamp: self.end_timestamp,
            item_type: self.item_type.clone(),
            number: self.number.clone(),
            number_list: clone_strings(&self.number_list),
            target_user: self.target_user.clone(),
            money_str: self.money_str.clone(),
            money_cents: self.money_cents,
            method: self.method.clone(),
            status_str: self.status_str.clone(),
            is_combined: self.is_combined,
        }
    }
}

// ---------------------------------------------------------------------------
// Ordering by time (stable)
// ---------------------------------------------------------------------------
/// Where an entry with timestamp `t` goes in a time-ordered sequence: after
/// every entry that is not later than it.
pub open spec fn insert_pos(s: Seq<BillItemView>, t: i64) -> int
    decreases s.len(),
{
    if s.len() == 0 {
        0
    } else if s.last().timestamp > t {
        insert_pos(s.drop_last(), t)
    } else {
        s.len() as int
    }
}

/// The entries in time order; entries with equal timestamps keep their order.
pub open spec fn sort_by_time(s: Seq<BillItemView>) -> Seq<BillItemView>
    decreases s.len(),
{
    if s.len() == 0 {
        s
    } else {
        let t = sort_by_time(s.drop_last());
        t.insert(insert_pos(t, s.last().timestamp), s.last())
    }
}

pub open spec fn time_ordered(s: Seq<BillItemView>) -> bool {
    forall|i: int, j: int| 0 <= i <= j < s.len() ==> s[i].timestamp <= s[j].timestamp
}

proof fn lemma_insert_pos(s: Seq<BillItemView>, t: i64)
    requires
        time_ordered(s),
    ensures
        0 <= insert_pos(s, t) <= s.len(),
        forall|k: int| 0 <= k < insert_pos(s, t) ==> s[k].timestamp <= t,
        forall|k: int| insert_pos(s, t) <= k < s.len() ==> s[k].timestamp > t,
    decreases s.len(),
{
    if s.len() > 0 {
        if s.last().timestamp > t {
            let d = s.drop_last();
            assert forall|i: int, j: int| 0 <= i <= j < d.len() implies d[i].timestamp
                <= d[j].timestamp by {
                assert(d[i] == s[i] && d[j] == s[j]);
            }
            lemma_insert_pos(d, t);
            assert forall|k: int| 0 <= k < insert_pos(s, t) implies s[k].timestamp <= t by {
                assert(d[k] == s[k]);
            }
            assert forall|k: int| insert_pos(s, t) <= k < s.len() implies s[k].timestamp > t by {
                if k < s.len() - 1 {
                    assert(d[k] == s[k]);
                }
            }
        } else {
            assert forall|k: int| 0 <= k < s.len() implies s[k].timestamp <= t by {
                assert(s[k].timestamp <= s[s.len() - 1].timestamp);
            }
        }
    }
}

/// The time order really is ordered by time and holds the same entries.
pub proof fn lemma_sort_by_time(s: Seq<BillItemView>)
    ensures
        time_ordered(sort_by_time(s)),
        sort_by_time(s).len() == s.len(),
        sort_by_time(s).to_multiset() == s.to_multiset(),
    decreases s.len(),
{
    broadcast use vstd::seq_lib::to_multiset_insert, vstd::seq_lib::to_multiset_build;

    if s.len() > 0 {
        let d = s.drop_last();
        lemma_sort_by_time(d);
        let t = sort_by_time(d);
        let x = s.last();
        lemma_insert_pos(t, x.timestamp);
        let p = insert_pos(t, x.timestamp);
        let r = t.insert(p, x);
        assert forall|i: int, j: int| 0 <= i <= j < r.len() implies r[i].timestamp
            <= r[j].timestamp by {
            if j < p {
            } else if i < p && j == p {
            } else if i < p && j > p {
                assert(r[j] == t[j - 1]);
            } else if i == p && j == p {
            } else if i == p {
                assert(r[j] == t[j - 1]);
            } else {
                assert(r[i] == t[i - 1] && r[j] == t[j - 1]);
            }
        }
        assert(d.push(x) =~= s);
    }
}

// ---------------------------------------------------------------------------
// Sums and number lists
// ---------------------------------------------------------------------------
pub open spec fn sum_cents(s: Seq<BillItemView>) -> int
    decreases s.len(),
{
    if s.len() == 0 {
        0
    } else {
        sum_cents(s.drop_last()) + s.last().money_cents
    }
}

/// All transaction numbers of the entries, entry after entry.
pub open spec fn all_numbers(s: Seq<BillItemView>) -> Seq<Seq<char>>
    decreases s.len(),
{
    if s.len() == 0 {
        Seq::empty()
    } else {
        all_numbers(s.drop_last()) + s.last().number_list
    }
}

pub open spec fn total_numbers(s: Seq<BillItemView>) -> int
    decreases s.len(),
{
    if s.len() == 0 {
        0
    } else {
        total_numbers(s.drop_last()) + s.last().number_list.len()
    }
}

proof fn lemma_all_numbers_len(s: Seq<BillItemView>)
    ensures
        all_numbers(s).len() == total_numbers(s),
    decreases s.len(),
{
    if s.len() > 0 {
        lemma_all_numbers_len(s.drop_last());
    }
}

/// Sums do not depend on the order of the entries.
pub proof fn lemma_sum_insert(s: Seq<BillItemView>, i: int, x: BillItemView)
    requires
        0 <= i <= s.len(),
    ensures
        sum_cents(s.insert(i, x)) == sum_cents(s) + x.money_cents,
        total_numbers(s.insert(i, x)) == total_numbers(s) + x.number_list.len(),
    decreases s.len(),
{
    if i == s.len() {
        assert(s.insert(i, x).drop_last() =~= s);
    } else {
        let d = s.drop_last();
        lemma_sum_insert(d, i, x);
        assert(s.insert(i, x).drop_last() =~= d.insert(i, x));
        assert(s.insert(i, x).last() == s.last());
    }
}

pub proof fn lemma_sort_keeps_sums(s: Seq<BillItemView>)
    ensures
        sum_cents(sort_by_time(s)) == sum_cents(s),
        total_numbers(sort_by_time(s)) == total_numbers(s),
    decreases s.len(),
{
    if s.len() > 0 {
        lemma_sort_keeps_sums(s.drop_last());
        let t = sort_by_time(s.drop_last());
        lemma_sort_by_time(s.drop_last());
        lemma_insert_pos(t, s.last().timestamp);
        lemma_sum_insert(t, insert_pos(t, s.last().timestamp), s.last());
    }
}

// ---------------------------------------------------------------------------
// The entry
// ---------------------------------------------------------------------------
impl BillItem {
    /// A single entry: the end time is the start time and the number list
    /// holds the one transaction number.
    pub fn new_single(
        date_str: String,
        time_str: String,
        time_str_formatted: String,
        date_time_formatted: String,
        timestamp: i64,
        item_type: String,
        number: String,
        target_user: String,
        money_str: String,
        money_cents: i64,
        method: String,
        status_str: String,
    ) -> (r: BillItem)
        ensures
            r.date_str == date_str,
            r.time_str == time_str,
            r.time_str_formatted == time_str_formatted,
            r.date_time_formatted == date_time_formatted,
            r.end_date_time_formatted == date_time_formatted,
            r.timestamp == timestamp,
            r.end_timestamp == timestamp,
            r.item_type == item_type,
            r.number == number,
            r.number_list@ == seq![number],
            r.target_user == target_user,
            r.money_str == money_str,
            r.money_cents == money_cents,
            r.method == method,
            r.status_str == status_str,
            !r.is_combined,
    {
        let mut number_list: Vec<String> = Vec::new();
        number_list.push(number.clone());
        BillItem {
            end_date_time_formatted: date_time_formatted.clone(),
            end_timestamp: timestamp,
            number_list,
            is_combined: false,
            date_str,
            time_str,
            time_str_formatted,
            date_time_formatted,
            timestamp,
            item_type,
            number,
            target_user,
            money_str,
            money_cents,
            method,
            status_str,
        }
    }

    /// What `merge` gives back for at least two entries.
    pub open spec fn merged_spec(items: Seq<BillItemView>, r: BillItemView) -> bool {
        let s = sort_by_time(items);
        let first = s[0];
        let last = s[latest_end_index(s, s.len() as int)];
        &&& r.date_str == first.date_str
        &&& r.time_str == first.time_str
        &&& r.time_str_formatted == first.time_str_formatted
        &&& r.date_time_formatted == first.date_time_formatted
        &&& r.end_date_time_formatted == last.end_date_time_formatted
        &&& r.timestamp == first.timestamp
        &&& r.end_timestamp == last.end_timestamp
        &&& r.item_type == first.item_type
        &&& r.number == Seq::<char>::empty()
        &&& r.number_list == all_numbers(s)
        &&& r.target_user == first.target_user
        &&& r.money_cents == sum_cents(items)
        &&& r.money_str == cents_text(sum_cents(items))
        &&& r.method == first.method
        &&& r.status_str == first.status_str
        &&& r.is_combined
    }

    /// Merges entries (single, combined or mixed) into one combined entry:
    /// in time order, the first entry gives the start and the descriptive
    /// fields, the entry that ends latest gives the end, the numbers are
    /// collected in order and the amounts are added up. One entry is given
    /// back unchanged.
    pub fn merge(items: Vec<BillItem>) -> (r: BillItem)
        requires
            items.len() > 0,
            items.len() >= 2 ==> -0x7fff_ffff_ffff_ffff <= sum_cents(item_views(items@))
                <= 0x7fff_ffff_ffff_ffff,
        ensures
            items.len() == 1 ==> r == items@[0],
            items.len() >= 2 ==> Self::merged_spec(item_views(items@), r@),
    {
        if items.len() == 1 {
            let mut items = items;
            let r = items.pop().unwrap();
            return r;
        }
        let ghost iv = item_views(items@);
        // Total amount, over the entries as given.
        let mut total: i128 = 0;
        let mut i: usize = 0;
        while i < items.len()
            invariant
                i <= items.len(),
                iv == item_views(items@),
                total == sum_cents(iv.subrange(0, i as int)),
                -(i as int) * 0x8000_0000_0000_0000 <= total <= (i as int) * 0x8000_0000_0000_0000,
            decreases items.len() - i,
        {
            let ghost sub = iv.subrange(0, i + 1);
            assert(sub.drop_last() =~= iv.subrange(0, i as int));
            assert(sub.last() == items@[i as int]@);
            total = total + items[i].money_cents as i128;
            i = i + 1;
        }
        assert(iv.subrange(0, items.len() as int) =~= iv);
        let total = total as i64;
        // Stable insertion sort by timestamp.
        let mut sorted: Vec<BillItem> = Vec::new();
        let mut k: usize = 0;
        assert(item_views(sorted@) =~= sort_by_time(iv.subrange(0, 0)));
        while k < items.len()
            invariant
                k <= items.len(),
                iv == item_views(items@),
                item_views(sorted@) == sort_by_time(iv.subrange(0, k as int)),
            decreases items.len() - k,
        {
            let x = items[k].clone();
            let t = x.timestamp;
            let ghost sv = item_views(sorted@);
            let ghost pre = iv.subrange(0, k as int);
            proof {
                lemma_sort_by_time(pre);
            }
            let mut j = sorted.len();
            assert(sv.subrange(0, j as int) =~= sv);
            while j > 0 && sorted[j - 1].timestamp > t
                invariant
                    j <= sorted.len(),
                    sv == item_views(sorted@),
                    insert_pos(sv, t) == insert_pos(sv.subrange(0, j as int), t),
                decreases j,
            {
                let ghost p = sv.subrange(0, j as int);
                assert(p.drop_last() =~= sv.subrange(0, j - 1));
                assert(p.last() == sorted@[j - 1]@);
                j = j - 1;
            }
            proof {
                let p = sv.subrange(0, j as int);
                if j > 0 {
                    assert(p.last() == sorted@[j - 1]@);
                }
                let nxt = iv.subrange(0, k + 1);
                assert(nxt.drop_last() =~= pre);
                assert(nxt.last() == x@);
            }
            sorted.insert(j, x);
            assert(item_views(sorted@) =~= sv.insert(j as int, x@));
            k = k + 1;
        }
        assert(iv.subrange(0, items.len() as int) =~= iv);
        proof {
            lemma_sort_by_time(iv);
        }
        let ghost sv = item_views(sorted@);
        // Transaction numbers, in time order.
        let mut numbers: Vec<String> = Vec::new();
        let mut m: usize = 0;
        while m < sorted.len()
            invariant
                m <= sorted.len(),
                sv == item_views(sorted@),
                string_views(numbers@) == all_numbers(sv.subrange(0, m as int)),
            decreases sorted.len() - m,
        {
            let ghost before = numbers@;
            let list = &sorted[m].number_list;
            let mut q: usize = 0;
            while q < list.len()
                invariant
                    q <= list.len(),
                    numbers@ == before + list@.subrange(0, q as int),
                decreases list.len() - q,
            {
                numbers.push(list[q].clone());
                assert(numbers@ =~= before + list@.subrange(0, q + 1));
                q = q + 1;
            }
            proof {
                let sub = sv.subrange(0, m + 1);
                assert(sub.drop_last() =~= sv.subrange(0, m as int));
                assert(sub.last() == sorted@[m as int]@);
                assert(list@.subrange(0, list@.len() as int) =~= list@);
                assert(string_views(numbers@) =~= string_views(before) + string_views(list@));
            }
            m = m + 1;
        }
        assert(sv.subrange(0, sv.len() as int) =~= sv);
        // The entry that ends latest (the later one on a tie).
        let mut last: usize = 0;
        let mut e: usize = 1;
        while e < sorted.len()
            invariant
                1 <= e <= sorted.len(),
                sv == item_views(sorted@),
                last == latest_end_index(sv, e as int),
                last < e,
            decreases sorted.len() - e,
        {
            assert(sv[e as int] == sorted@[e as int]@);
            assert(sv[last as int] == sorted@[last as int]@);
            if sorted[e].end_timestamp >= sorted[last].end_timestamp {
                last = e;
            }
            e = e + 1;
        }
        let first = &sorted[0];
        assert(sv[0] == sorted@[0]@);
        assert(sv[last as int] == sorted@[last as int]@);
        BillItem {
            date_str: first.date_str.clone(),
            time_str: first.time_str.clone(),
            time_str_formatted: first.time_str_formatted.clone(),
            date_time_formatted: first.date_time_formatted.clone(),
            end_date_time_formatted: sorted[last].end_date_time_formatted.clone(),
            timestamp: first.timestamp,
            end_timestamp: sorted[last].end_timestamp,
            item_type: first.item_type.clone(),
            number: String::new(),
            number_list: numbers,
            target_user: first.target_user.clone(),
            money_str: cents_to_string(total),
            money_cents: total,
            method: first.method.clone(),
            status_str: first.status_str.clone(),
            is_combined: true,
        }
    }

    /// Merges this entry with another.
    pub fn merge_with(&self, other: &BillItem) -> (r: BillItem)
        requires
            -0x7fff_ffff_ffff_ffff <= self.money_cents + other.money_cents <= 0x7fff_ffff_ffff_ffff,
        ensures
            Self::merged_spec(seq![self@, other@], r@),
    {
        let mut v: Vec<BillItem> = Vec::new();
        v.push(self.clone());
        v.push(other.clone());
        proof {
            let s = seq![self@, other@];
            assert(item_views(v@) =~= s);
            assert(s.drop_last() =~= seq![self@]);
            assert(seq![self@].drop_last() =~= Seq::<BillItemView>::empty());
            assert(sum_cents(Seq::<BillItemView>::empty()) == 0);
            assert(sum_cents(seq![self@]) == self.money_cents);
            assert(sum_cents(s) == self.money_cents + other.money_cents);
        }
        BillItem::merge(v)
    }

    /// The parsed status; unknown status text counts as `All`.
    pub fn status(&self) -> (r: BillItemStatus)
        ensures
            r == (match BillItemStatus::from_text_spec(self.status_str@) {
                Some(s) => s,
                None => BillItemStatus::All,
            }),
    {
        match BillItemStatus::from_text(self.status_str.as_str()) {
            Some(s) => s,
            None => BillItemStatus::All,
        }
    }

    /// The value of a named field, as the CSV export writes it; unknown
    /// names give an empty string.
    pub fn get_field(&self, field: &str) -> (r: String)
        ensures
            r@ == self.field_text(field@),
    {
        proof {
            reveal_strlit(",");
            reveal_strlit("true");
            reveal_strlit("false");
        }
        if str_eq(field, "date_str") {
            self.date_str.clone()
        } else if str_eq(field, "time_str") {
            self.time_str.clone()
        } else if str_eq(field, "time_str_formatted") {
            self.time_str_formatted.clone()
        } else if str_eq(field, "date_time_formatted") {
            self.date_time_formatted.clone()
        } else if str_eq(field, "end_date_time_formatted") {
            self.end_date_time_formatted.clone()
        } else if str_eq(field, "timestamp") {
            i64_to_decimal(self.timestamp)
        } else if str_eq(field, "end_timestamp") {
            i64_to_decimal(self.end_timestamp)
        } else if str_eq(field, "item_type") {
            self.item_type.clone()
        } else if str_eq(field, "number") {
            self.number.clone()
        } else if str_eq(field, "number_list") {
            join_strings(&self.number_list, ",")
        } else if str_eq(field, "target_user") {
            self.target_user.clone()
        } else if str_eq(field, "money_str") {
            self.money_str.clone()
        } else if str_eq(field, "money") {
            cents_to_string(self.money_cents)
        } else if str_eq(field, "method") {
            self.method.clone()
        } else if str_eq(field, "status") || str_eq(field, "status_str") {
            self.status_str.clone()
        } else if str_eq(field, "is_combined") {
            if self.is_combined {
                String::from_str("true")
            } else {
                String::from_str("false")
            }
        } else {
            String::new()
        }
    }

    /// Each column name gives the field of that name: the text fields as
    /// they are, the times and the amount written in decimal, `status` the
    /// status text, `is_combined` as `true` or `false`; any other name an
    /// empty text.
    pub proof fn lemma_field_names(self)
        ensures
            self.field_text("date_str"@) == self.date_str@,
            self.field_text("time_str"@) == self.time_str@,
            self.field_text("time_str_formatted"@) == self.time_str_formatted@,
            self.field_text("date_time_formatted"@) == self.date_time_formatted@,
            self.field_text("end_date_time_formatted"@) == self.end_date_time_formatted@,
            self.field_text("timestamp"@) == int_to_decimal(self.timestamp as int),
            self.field_text("end_timestamp"@) == int_to_decimal(self.end_timestamp as int),
            self.field_text("item_type"@) == self.item_type@,
            self.field_text("number"@) == self.number@,
            self.field_text("target_user"@) == self.target_user@,
            self.field_text("money_str"@) == self.money_str@,
            self.field_text("money"@) == cents_text(self.money_cents as int),
            self.field_text("method"@) == self.method@,
            self.field_text("status"@) == self.status_str@,
            self.field_text("status_str"@) == self.status_str@,
            self.field_text("number_list"@) == join_seqs(string_views(self.number_list@), seq![',']),
            self.field_text("is_combined"@) == (if self.is_combined {
                seq!['t', 'r', 'u', 'e']
            } else {
                seq!['f', 'a', 'l', 's', 'e']
            }),
            self.field_text(Seq::<char>::empty()) == Seq::<char>::empty(),
    {
        reveal_strlit("date_str");
        reveal_strlit("time_str");
        reveal_strlit("time_str_formatted");
        reveal_strlit("date_time_formatted");
        reveal_strlit("end_date_time_formatted");
        reveal_strlit("timestamp");
        reveal_strlit("end_timestamp");
        reveal_strlit("item_type");
        reveal_strlit("number");
        reveal_strlit("number_list");
        reveal_strlit("target_user");
        reveal_strlit("money_str");
        reveal_strlit("money");
        reveal_strlit("method");
        reveal_strlit("status");
        reveal_strlit("status_str");
        reveal_strlit("is_combined");
        reveal_strlit(",");
        reveal_strlit("true");
        reveal_strlit("false");
        assert(","@ =~= seq![',']);
        assert("true"@ =~= seq!['t', 'r', 'u', 'e']);
        assert("false"@ =~= seq!['f', 'a', 'l', 's', 'e']);
        assert("time_str"@[0] != "date_str"@[0]);
        assert("time_str_formatted"@.len() != "date_str"@.len());
        assert("time_str_formatted"@.len() != "time_str"@.len());
        assert("date_time_formatted"@.len() != "date_str"@.len());
        assert("date_time_formatted"@.len() != "time_str"@.len());
        assert("date_time_formatted"@.len() != "time_str_formatted"@.len());
        assert("end_date_time_formatted"@.len() != "date_str"@.len());
        assert("end_date_time_formatted"@.len() != "time_str"@.len());
        assert("end_date_time_formatted"@.len() != "time_str_formatted"@.len());
        assert("end_date_time_formatted"@.len() != "date_time_formatted"@.len());
        assert("timestamp"@.len() != "date_str"@.len());
        assert("timestamp"@.len() != "time_str"@.len());
        assert("timestamp"@.len() != "time_str_formatted"@.len());
        assert("timestamp"@.len() != "date_time_formatted"@.len());
        assert("timestamp"@.len() != "end_date_time_formatted"@.len());
        assert("end_timestamp"@.len() != "date_str"@.len());
        assert("end_timestamp"@.len() != "time_str"@.len());
        assert("end_timestamp"@.len() != "time_str_formatted"@.len());
        assert("end_timestamp"@.len() != "date_time_formatted"@.len());
        assert("end_timestamp"@.len() != "end_date_time_formatted"@.len());
        assert("end_timestamp"@.len() != "timestamp"@.len());
        assert("item_type"@.len() != "date_str"@.len());
        assert("item_type"@.len() != "time_str"@.len());
        assert("item_type"@.len() != "time_str_formatted"@.len());
        assert("item_type"@.len() != "date_time_formatted"@.len());
        assert("item_type"@.len() != "end_date_time_formatted"@.len());
        assert("item_type"@[0] != "timestamp"@[0]);
        assert("item_type"@.len() != "end_timestamp"@.len());
        assert("number"@.len() != "date_str"@.len());
        assert("number"@.len() != "time_str"@.len());
        assert("number"@.len() != "time_str_formatted"@.len());
        assert("number"@.len() != "date_time_formatted"@.len());
        assert("number"@.len() != "end_date_time_formatted"@.len());
        assert("number"@.len() != "timestamp"@.len());
        assert("number"@.len() != "end_timestamp"@.len());
        assert("number"@.len() != "item_type"@.len());
        assert("target_user"@.len() != "date_str"@.len());
        assert("target_user"@.len() != "time_str"@.len());
        assert("target_user"@.len() != "time_str_formatted"@.len());
        assert("target_user"@.len() != "date_time_formatted"@.len());
        assert("target_user"@.len() != "end_date_time_formatted"@.len());
        assert("target_user"@.len() != "timestamp"@.len());
        assert("target_user"@.len() != "end_timestamp"@.len());
        assert("target_user"@.len() != "item_type"@.len());
        assert("target_user"@.len() != "number"@.len());
        assert("target_user"@[0] != "number_list"@[0]);
        assert("money_str"@.len() != "date_str"@.len());
        assert("money_str"@.len() != "time_str"@.len());
        assert("money_str"@.len() != "time_str_formatted"@.len());
        assert("money_str"@.len() != "date_time_formatted"@.len());
        assert("money_str"@.len() != "end_date_time_formatted"@.len());
        assert("money_str"@[0] != "timestamp"@[0]);
        assert("money_str"@.len() != "end_timestamp"@.len());
        assert("money_str"@[0] != "item_type"@[0]);
        assert("money_str"@.len() != "number"@.len());
        assert("money_str"@.len() != "number_list"@.len());
        assert("money_str"@.len() != "target_user"@.len());
        assert("money"@.len() != "date_str"@.len());
        assert("money"@.len() != "time_str"@.len());
        assert("money"@.len() != "time_str_formatted"@.len());
        assert("money"@.len() != "date_time_formatted"@.len());
        assert("money"@.len() != "end_date_time_formatted"@.len());
        assert("money"@.len() != "timestamp"@.len());
        assert("money"@.len() != "end_timestamp"@.len());
        assert("money"@.len() != "item_type"@.len());
        assert("money"@.len() != "number"@.len());
        assert("money"@.len() != "number_list"@.len());
        assert("money"@.len() != "target_user"@.len());
        assert("money"@.len() != "money_str"@.len());
        assert("method"@.len() != "date_str"@.len());
        assert("method"@.len() != "time_str"@.len());
        assert("method"@.len() != "time_str_formatted"@.len());
        assert("method"@.len() != "date_time_formatted"@.len());
        assert("method"@.len() != "end_date_time_formatted"@.len());
        assert("method"@.len() != "timestamp"@.len());
        assert("method"@.len() != "end_timestamp"@.len());
        assert("method"@.len() != "item_type"@.len());
        assert("method"@[0] != "number"@[0]);
        assert("method"@.len() != "number_list"@.len());
        assert("method"@.len() != "target_user"@.len());
        assert("method"@.len() != "money_str"@.len());
        assert("method"@.len() != "money"@.len());
        assert("status"@.len() != "date_str"@.len());
        assert("status"@.len() != "time_str"@.len());
        assert("status"@.len() != "time_str_formatted"@.len());
        assert("status"@.len() != "date_time_formatted"@.len());
        assert("status"@.len() != "end_date_time_formatted"@.len());
        assert("status"@.len() != "timestamp"@.len());
        assert("status"@.len() != "end_timestamp"@.len());
        assert("status"@.len() != "item_type"@.len());
        assert("status"@[0] != "number"@[0]);
        assert("status"@.len() != "number_list"@.len());
        assert("status"@.len() != "target_user"@.len());
        assert("status"@.len() != "money_str"@.len());
        assert("status"@.len() != "money"@.len());
        assert("status"@[0] != "method"@[0]);
        assert("status_str"@.len() != "date_str"@.len());
        assert("status_str"@.len() != "time_str"@.len());
        assert("status_str"@.len() != "time_str_formatted"@.len());
        assert("status_str"@.len() != "date_time_formatted"@.len());
        assert("status_str"@.len() != "end_date_time_formatted"@.len());
        assert("status_str"@.len() != "timestamp"@.len());
        assert("status_str"@.len() != "end_timestamp"@.len());
        assert("status_str"@.len() != "item_type"@.len());
        assert("status_str"@.len() != "number"@.len());
        assert("status_str"@.len() != "number_list"@.len());
        assert("status_str"@.len() != "target_user"@.len());
        assert("status_str"@.len() != "money_str"@.len());
        assert("status_str"@.len() != "money"@.len());
        assert("status_str"@.len() != "method"@.len());
        assert("status_str"@.len() != "status"@.len());
        assert("number_list"@.len() != "date_str"@.len());
        assert("number_list"@.len() != "time_str"@.len());
        assert("number_list"@.len() != "time_str_formatted"@.len());
        assert("number_list"@.len() != "date_time_formatted"@.len());
        assert("number_list"@.len() != "end_date_time_formatted"@.len());
        assert("number_list"@.len() != "timestamp"@.len());
        assert("number_list"@.len() != "end_timestamp"@.len());
        assert("number_list"@.len() != "item_type"@.len());
        assert("number_list"@.len() != "number"@.len());
        assert("is_combined"@.len() != "date_str"@.len());
        assert("is_combined"@.len() != "time_str"@.len());
        assert("is_combined"@.len() != "time_str_formatted"@.len());
        assert("is_combined"@.len() != "date_time_formatted"@.len());
        assert("is_combined"@.len() != "end_date_time_formatted"@.len());
        assert("is_combined"@.len() != "timestamp"@.len());
        assert("is_combined"@.len() != "end_timestamp"@.len());
        assert("is_combined"@.len() != "item_type"@.len());
        assert("is_combined"@.len() != "number"@.len());
        assert("is_combined"@[0] != "number_list"@[0]);
        assert("is_combined"@[0] != "target_user"@[0]);
        assert("is_combined"@.len() != "money_str"@.len());
        assert("is_combined"@.len() != "money"@.len());
        assert("is_combined"@.len() != "method"@.len());
        assert("is_combined"@.len() != "status"@.len());
        assert("is_combined"@.len() != "status_str"@.len());
        assert(Seq::<char>::empty().len() != "date_str"@.len());
        assert(Seq::<char>::empty().len() != "time_str"@.len());
        assert(Seq::<char>::empty().len() != "time_str_formatted"@.len());
        assert(Seq::<char>::empty().len() != "date_time_formatted"@.len());
        assert(Seq::<char>::empty().len() != "end_date_time_formatted"@.len());
        assert(Seq::<char>::empty().len() != "timestamp"@.len());
        assert(Seq::<char>::empty().len() != "end_timestamp"@.len());
        assert(Seq::<char>::empty().len() != "item_type"@.len());
        assert(Seq::<char>::empty().len() != "number"@.len());
        assert(Seq::<char>::empty().len() != "number_list"@.len());
        assert(Seq::<char>::empty().len() != "target_user"@.len());
        assert(Seq::<char>::empty().len() != "money_str"@.len());
        assert(Seq::<char>::empty().len() != "money"@.len());
        assert(Seq::<char>::empty().len() != "method"@.len());
        assert(Seq::<char>::empty().len() != "status"@.len());
        assert(Seq::<char>::empty().len() != "status_str"@.len());
        assert(Seq::<char>::empty().len() != "is_combined"@.len());
    }

    pub open spec fn field_text(self, f: Seq<char>) -> Seq<char> {
        if f == "date_str"@ {
            self.date_str@
        } else if f == "time_str"@ {
            self.time_str@
        } else if f == "time_str_formatted"@ {
            self.time_str_formatted@
        } else if f == "date_time_formatted"@ {
            self.date_time_formatted@
        } else if f == "end_date_time_formatted"@ {
            self.end_date_time_formatted@
        } else if f == "timestamp"@ {
            int_to_decimal(self.timestamp as int)
        } else if f == "end_timestamp"@ {
            int_to_decimal(self.end_timestamp as int)
        } else if f == "item_type"@ {
            self.item_type@
        } else if f == "number"@ {
            self.number@
        } else if f == "number_list"@ {
            join_seqs(string_views(self.number_list@), ","@)
        } else if f == "target_user"@ {
            self.target_user@
        } else if f == "money_str"@ {
            self.money_str@
        } else if f == "money"@ {
            cents_text(self.money_cents as int)
        } else if f == "method"@ {
            self.method@
        } else if f == "status"@ || f == "status_str"@ {
            self.status_str@
        } else if f == "is_combined"@ {
            if self.is_combined {
                "true"@
            } else {
                "false"@
            }
        } else {
            Seq::empty()
        }
    }

    /// Two entries are the same bill when they hold the same transaction
    /// numbers.
    pub open spec fn same_numbers(self, other: BillItem) -> bool {
        self@.number_list == other@.number_list
    }

    /// The one-line summary the CLI prints for an entry.
    pub fn to_display_string(&self) -> (r: String)
        ensures
            r@ == self.display_text(),
    {
        let mut s = self.date_time_formatted.clone();
        proof {
            reveal_strlit(" - ");
            reveal_strlit(" | ");
            reveal_strlit(" | [");
            reveal_strlit("条合并]");
        }
        if self.is_combined {
            s.append(" - ");
            s.append(self.end_date_time_formatted.as_str());
            s.append(" | ");
            s.append(self.item_type.as_str());
            s.append(" | ");
            let m = cents_to_string(self.money_cents);
            s.append(m.as_str());
            s.append(" | [");
            let n = crate::text::u64_to_decimal(self.number_list.len() as u64);
            s.append(n.as_str());
            s.append("条合并]");
        } else {
            s.append(" | ");
            s.append(self.item_type.as_str());
            s.append(" | ");
            s.append(self.target_user.as_str());
            s.append(" | ");
            s.append(self.money_str.as_str());
            s.append(" | ");
            s.append(self.status_str.as_str());
        }
        s
    }

    pub open spec fn display_text(self) -> Seq<char> {
        if self.is_combined {
            self.date_time_formatted@ + " - "@ + self.end_date_time_formatted@ + " | "@
                + self.item_type@ + " | "@ + cents_text(self.money_cents as int) + " | ["@
                + crate::text::nat_to_decimal(self.number_list@.len()) + "条合并]"@
        } else {
            self.date_time_formatted@ + " | "@ + self.item_type@ + " | "@ + self.target_user@
                + " | "@ + self.money_str@ + " | "@ + self.status_str@
        }
    }
}

impl PartialEq for BillItem {
    fn eq(&self, other: &Self) -> (r: bool) {
        strings_equal(&self.number_list, &other.number_list)
    }
}

impl vstd::std_specs::cmp::PartialEqSpecImpl for BillItem {
    open spec fn obeys_eq_spec() -> bool {
        true
    }

    open spec fn eq_spec(&self, other: &Self) -> bool {
        self.same_numbers(*other)
    }
}

/// The two lists hold the same strings in the same order.
pub fn strings_equal(a: &Vec<String>, b: &Vec<String>) -> (r: bool)
    ensures
        r == (string_views(a@) == string_views(b@)),
{
    if a.len() != b.len() {
        proof {
            assert(string_views(a@).len() != string_views(b@).len());
        }
        return false;
    }
    let mut i: usize = 0;
    while i < a.len()
        invariant
            a.len() == b.len(),
            i <= a.len(),
            forall|k: int| 0 <= k < i ==> a@[k]@ == b@[k]@,
        decreases a.len() - i,
    {
        if a[i] != b[i] {
            proof {
                assert(string_views(a@)[i as int] != string_views(b@)[i as int]);
            }
            return false;
        }
        i = i + 1;
    }
    assert(string_views(a@) =~= string_views(b@));
    true
}

/// The strings joined with `sep` between them.
pub open spec fn join_seqs(ps: Seq<Seq<char>>, sep: Seq<char>) -> Seq<char>
    decreases ps.len(),
{
    if ps.len() == 0 {
        Seq::empty()
    } else if ps.len() == 1 {
        ps[0]
    } else {
        join_seqs(ps.drop_last(), sep) + sep + ps.last()
    }
}

pub fn join_strings(v: &Vec<String>, sep: &str) -> (r: String)
    ensures
        r@ == join_seqs(string_views(v@), sep@),
{
    let mut r = String::new();
    let mut i: usize = 0;
    while i < v.len()
        invariant
            i <= v.len(),
            r@ == join_seqs(string_views(v@.subrange(0, i as int)), sep@),
        decreases v.len() - i,
    {
        let ghost before = r@;
        if i > 0 {
            r.append(sep);
        }
        r.append(v[i].as_str());
        proof {
            let sub = string_views(v@.subrange(0, i + 1));
            assert(sub.drop_last() =~= string_views(v@.subrange(0, i as int)));
            assert(sub.last() == v@[i as int]@);
            if i == 0 {
                assert(r@ =~= sub[0]);
            } else {
                assert(r@ =~= before + sep@ + sub.last());
            }
        }
        i = i + 1;
    }
    assert(v@.subrange(0, v.len() as int) =~= v@);
    r
}

/// Total amount of the entries, in fen.
pub fn sum_money(items: &Vec<BillItem>) -> (r: i128)
    ensures
        r == sum_cents(item_views(items@)),
{
    let mut total: i128 = 0;
    let mut i: usize = 0;
    while i < items.len()
        invariant
            i <= items.len(),
            total == sum_cents(item_views(items@).subrange(0, i as int)),
            -(i as int) * 0x8000_0000_0000_0000 <= total <= (i as int) * 0x8000_0000_0000_0000,
        decreases items.len() - i,
    {
        let ghost iv = item_views(items@);
        let ghost sub = iv.subrange(0, i + 1);
        assert(sub.drop_last() =~= iv.subrange(0, i as int));
        assert(sub.last() == items@[i as int]@);
        total = total + items[i].money_cents as i128;
        i = i + 1;
    }
    assert(item_views(items@).subrange(0, items.len() as int) =~= item_views(items@));
    total
}


/// Among the first `n` entries, the position of the one that ends latest
/// (the later one on a tie).
pub open spec fn latest_end_index(s: Seq<BillItemView>, n: int) -> int
    decreases n,
{
    if n <= 1 {
        0
    } else {
        let p = latest_end_index(s, n - 1);
        if s[n - 1].end_timestamp >= s[p].end_timestamp {
            n - 1
        } else {
            p
        }
    }
}

/// The latest-ending entry is among the entries, and none ends later.
pub proof fn lemma_latest_end(s: Seq<BillItemView>, n: int)
    requires
        1 <= n <= s.len(),
    ensures
        0 <= latest_end_index(s, n) < n,
        forall|i: int| 0 <= i < n ==> #[trigger] s[i].end_timestamp <= s[latest_end_index(s, n)].end_timestamp,
    decreases n,
{
    if n > 1 {
        lemma_latest_end(s, n - 1);
    }
}

/// Merging keeps every transaction number and the total amount: the merged
/// entry holds as many numbers as all the entries together, and its amount is
/// their sum. It ends no earlier than any of them ends.
pub proof fn lemma_merge_keeps_numbers_and_amount(items: Seq<BillItemView>, r: BillItemView)
    requires
        items.len() >= 2,
        BillItem::merged_spec(items, r),
    ensures
        r.number_list.len() == total_numbers(items),
        r.money_cents == sum_cents(items),
        forall|k: int| 0 <= k < items.len() ==> #[trigger] items[k].end_timestamp <= r.end_timestamp,
        r.timestamp <= r.end_timestamp || exists|k: int|
            0 <= k < items.len() && items[k].end_timestamp < items[k].timestamp,
{
    let s = sort_by_time(items);
    lemma_sort_by_time(items);
    lemma_sort_keeps_sums(items);
    lemma_all_numbers_len(s);
    lemma_latest_end(s, s.len() as int);
    assert forall|k: int| 0 <= k < items.len() implies #[trigger] items[k].end_timestamp
        <= r.end_timestamp by {
        broadcast use vstd::multiset::group_multiset_axioms, vstd::seq_lib::to_multiset_contains;
        assert(items.contains(items[k]));
        assert(items.to_multiset().count(items[k]) > 0);
        assert(s.to_multiset().count(items[k]) > 0);
        assert(s.contains(items[k]));
        let j = choose|j: int| 0 <= j < s.len() && s[j] == items[k];
        assert(s[j].end_timestamp <= s[latest_end_index(s, s.len() as int)].end_timestamp);
    }
    if r.end_timestamp < r.timestamp {
        let first = s[0];
        assert(first.end_timestamp <= r.end_timestamp);
        assert(s.to_multiset().count(first) > 0) by {
            broadcast use vstd::multiset::group_multiset_axioms, vstd::seq_lib::to_multiset_contains;
            assert(s.contains(first)) by {
                assert(s[0] == first);
            }
        }
        assert(items.contains(first)) by {
            broadcast use vstd::multiset::group_multiset_axioms, vstd::seq_lib::to_multiset_contains;
        }
    }
}

} // verus!
