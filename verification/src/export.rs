//! CSV export of bill entries: one header row, then one row per entry with
//! the chosen fields. The CSV text itself is written by the `csv` crate.
use vstd::prelude::*;
use vstd::string::*;

use crate::bill_item::{string_views, BillItem};

verus! {

/// The column titles of the default export.
pub open spec fn default_headers() -> Seq<Seq<char>> {
    seq![
        "日期"@,
        "时间"@,
        "时间(格式化)"@,
        "日期时间"@,
        "时间戳"@,
        "交易名称"@,
        "交易号"@,
        "对方"@,
        "金额"@,
        "付款方式"@,
        "状态"@,
    ]
}

/// The fields of the default export, in column order.
pub open spec fn default_fields() -> Seq<Seq<char>> {
    seq![
        "date_str"@,
        "time_str"@,
        "time_str_formatted"@,
        "date_time_formatted"@,
        "timestamp"@,
        "item_type"@,
        "number"@,
        "target_user"@,
        "money_str"@,
        "method"@,
        "status"@,
    ]
}

/// The row of one entry: the text of each field in turn.
pub open spec fn bill_row(fields: Seq<Seq<char>>, bill: BillItem) -> Seq<Seq<char>> {
    fields.map_values(|f: Seq<char>| bill.field_text(f))
}

/// The rows of an export: the headers, then one row per entry.
pub open spec fn export_rows(
    headers: Seq<Seq<char>>,
    fields: Seq<Seq<char>>,
    bills: Seq<BillItem>,
) -> Seq<Seq<Seq<char>>> {
    seq![headers] + bills.map_values(|b: BillItem| bill_row(fields, b))
}

pub open spec fn record_views(v: Seq<Vec<String>>) -> Seq<Seq<Seq<char>>> {
    v.map_values(|r: Vec<String>| string_views(r@))
}

/// The bytes `csv::Writer` (default settings) writes for these records, or
/// `None` when it refuses them.
pub uninterp spec fn csv_encoding(records: Seq<Seq<Seq<char>>>) -> Option<Seq<u8>>;

/// `csv`: writes every record with `Writer::write_record` into a byte
/// buffer and takes the buffer back with `Writer::into_inner`. Claims only
/// that the outcome is a function of the records: the bytes, or `None` when
/// the writer returned an error (records of unequal lengths, which its
/// default settings refuse).
#[verifier::external_body]
fn csv_bytes(records: &Vec<Vec<String>>) -> (r: Option<Vec<u8>>)
    ensures
        match r {
            Some(b) => csv_encoding(record_views(records@)) == Some(b@),
            None => csv_encoding(record_views(records@)) is None,
        },
{
    let mut w = csv::Writer::from_writer(Vec::new());
    for rec in records.iter() {
        w.write_record(rec).ok()?;
    }
    w.into_inner().ok()
}

fn strings_of(v: &[&str]) -> (r: Vec<String>)
    ensures
        string_views(r@) == v@.map_values(|s: &str| s@),
{
    let mut r: Vec<String> = Vec::new();
    let mut i: usize = 0;
    while i < v.len()
        invariant
            i <= v.len(),
            r@.len() == i,
            forall|k: int| 0 <= k < i ==> #[trigger] r@[k]@ == v@[k]@,
        decreases v.len() - i,
    {
        r.push(String::from_str(v[i]));
        i = i + 1;
    }
    proof {
        assert(string_views(r@) =~= v@.map_values(|s: &str| s@));
    }
    r
}

/// Writes bill entries as CSV rows.
pub struct CsvExporter {
    pub headers: Vec<String>,
    pub fields: Vec<String>,
}

impl CsvExporter {
    /// The default export: date, time, formatted time, date and time,
    /// timestamp, name, number, counterparty, amount, method and status.
    pub fn new() -> (r: Self)
        ensures
            string_views(r.headers@) == default_headers(),
            string_views(r.fields@) == default_fields(),
    {
        let h = [
            "日期",
            "时间",
            "时间(格式化)",
            "日期时间",
            "时间戳",
            "交易名称",
            "交易号",
            "对方",
            "金额",
            "付款方式",
            "状态",
        ];
        let f = [
            "date_str",
            "time_str",
            "time_str_formatted",
            "date_time_formatted",
            "timestamp",
            "item_type",
            "number",
            "target_user",
            "money_str",
            "method",
            "status",
        ];
        let headers = strings_of(&h);
        let fields = strings_of(&f);
        proof {
            assert(string_views(headers@) =~= default_headers());
            assert(string_views(fields@) =~= default_fields());
        }
        CsvExporter { headers, fields }
    }

    /// The same export with other column titles.
    pub fn headers(self, headers: Vec<String>) -> (r: Self)
        ensures
            r.headers@ == headers@,
            r.fields@ == self.fields@,
    {
        CsvExporter { headers, fields: self.fields }
    }

    /// The same export with other fields.
    pub fn fields(self, fields: Vec<String>) -> (r: Self)
        ensures
            r.headers@ == self.headers@,
            r.fields@ == fields@,
    {
        CsvExporter { headers: self.headers, fields }
    }

    /// The rows of the export: the headers, then the fields of each entry.
    pub fn rows(&self, bills: &Vec<BillItem>) -> (r: Vec<Vec<String>>)
        ensures
            record_views(r@) == export_rows(
                string_views(self.headers@),
                string_views(self.fields@),
                bills@,
            ),
    {
        let ghost hv = string_views(self.headers@);
        let ghost fv = string_views(self.fields@);
        let mut r: Vec<Vec<String>> = Vec::new();
        r.push(crate::bill_item::clone_strings(&self.headers));
        let mut i: usize = 0;
        while i < bills.len()
            invariant
                i <= bills.len(),
                hv == string_views(self.headers@),
                fv == string_views(self.fields@),
                r@.len() == i + 1,
                string_views(r@[0]@) == hv,
                forall|k: int| 0 <= k < i ==> string_views(#[trigger] r@[k + 1]@) == bill_row(fv, bills@[k]),
            decreases bills.len() - i,
        {
            let mut row: Vec<String> = Vec::new();
            let mut j: usize = 0;
            while j < self.fields.len()
                invariant
                    i < bills.len(),
                    j <= self.fields.len(),
                    fv == string_views(self.fields@),
                    row@.len() == j,
                    forall|k: int| 0 <= k < j ==> #[trigger] row@[k]@ == bills@[i as int].field_text(fv[k]),
                decreases self.fields.len() - j,
            {
                let v = bills[i].get_field(self.fields[j].as_str());
                row.push(v);
                j = j + 1;
            }
            proof {
                assert(string_views(row@) =~= bill_row(fv, bills@[i as int]));
            }
            let ghost before = r@;
            r.push(row);
            proof {
                assert forall|k: int| 0 <= k < i + 1 implies string_views(#[trigger] r@[k + 1]@) == bill_row(fv, bills@[k]) by {
                    if k < i {
                        assert(r@[k + 1] == before[k + 1]);
                    }
                }
            }
            i = i + 1;
        }
        proof {
            let e = export_rows(hv, fv, bills@);
            assert forall|k: int| 0 <= k < r@.len() implies #[trigger] record_views(r@)[k] == e[k] by {
                if k > 0 {
                    assert(string_views(r@[(k - 1) + 1]@) == bill_row(fv, bills@[k - 1]));
                }
            }
            assert(record_views(r@) =~= e);
        }
        r
    }

    /// The CSV text of the export, or `None` when the writer refuses the
    /// rows (a header row and field rows of different lengths).
    pub fn to_csv(&self, bills: &Vec<BillItem>) -> (r: Option<Vec<u8>>)
        ensures
            match r {
                Some(b) => csv_encoding(
                    export_rows(string_views(self.headers@), string_views(self.fields@), bills@),
                ) == Some(b@),
                None => csv_encoding(
                    export_rows(string_views(self.headers@), string_views(self.fields@), bills@),
                ) is None,
            },
    {
        let rows = self.rows(bills);
        csv_bytes(&rows)
    }
}

} // verus!
