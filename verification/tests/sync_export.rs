use shmtu::bill::BillType;
use shmtu::bill_item::BillItem;
use shmtu::export::CsvExporter;
use shmtu::sync::{SyncOptions, SyncState};

fn bill(number: &str, ts: i64) -> BillItem {
    BillItem::new_single(
        "2024.01.02".into(),
        "093005".into(),
        "09:30:05".into(),
        "2024.01.02 09:30:05".into(),
        ts,
        "消费".into(),
        number.into(),
        "食堂".into(),
        "-1.00".into(),
        -100,
        "卡".into(),
        "交易成功".into(),
    )
}

#[test]
fn sync_options_default() {
    let o = SyncOptions::default();
    assert_eq!(o.start_page, 1);
    assert_eq!(o.max_pages, 100);
    assert_eq!(o.bill_type, BillType::All);
    assert_eq!(o.early_stop_threshold, 5);
}

#[test]
fn sync_dedups_and_stops_early() {
    let o = SyncOptions { start_page: 1, max_pages: 10, bill_type: BillType::All, early_stop_threshold: 2 };
    let mut s = SyncState::new(&o);
    assert_eq!(s.next_page(&o), Some(1));
    let page1 = vec![bill("A", 1), bill("B", 2), bill("A", 3), bill("", 4)];
    let p = s.handle_page(&o, 1, page1, 3, vec![false, false, false, false]).unwrap();
    assert_eq!((p.page, p.total_pages, p.new_count), (1, 3, 3));
    assert_eq!(s.next_page(&o), Some(2));
    let page2 = vec![bill("C", 5), bill("K1", 6), bill("K2", 7), bill("D", 8)];
    let p = s.handle_page(&o, 2, page2, 3, vec![false, true, true, false]).unwrap();
    assert_eq!(p.new_count, 4);
    assert_eq!(s.next_page(&o), None);
    let r = s.finish();
    assert!(r.early_stopped);
    assert_eq!(r.pages_fetched, 2);
    assert_eq!(r.new_count, 4);
    let numbers: Vec<&str> = r.new_bills.iter().map(|b| b.number.as_str()).collect();
    assert_eq!(numbers, vec!["A", "B", "", "C"]);
}

#[test]
fn sync_ends_on_empty_first_page_or_last_page() {
    let o = SyncOptions { start_page: 4, max_pages: 10, bill_type: BillType::Success, early_stop_threshold: 5 };
    let mut s = SyncState::new(&o);
    assert!(s.handle_page(&o, 4, vec![], 9, vec![]).is_none());
    assert_eq!(s.next_page(&o), None);
    assert_eq!(s.finish().pages_fetched, 0);

    let mut t = SyncState::new(&o);
    let p = t.handle_page(&o, 4, vec![bill("X", 1)], 2, vec![false]).unwrap();
    assert_eq!(p.total_pages, 4);
    assert_eq!(t.next_page(&o), None);
    let r = t.finish();
    assert!(!r.early_stopped);
    assert_eq!(r.new_count, 1);
}

#[test]
fn export_rows_and_csv() {
    let e = CsvExporter::new();
    assert_eq!(e.headers.len(), 11);
    assert_eq!(e.fields[4], "timestamp");
    let rows = e.rows(&vec![bill("N1", 1704187805)]);
    assert_eq!(rows.len(), 2);
    assert_eq!(rows[0][0], "日期");
    assert_eq!(rows[1][4], "1704187805");
    assert_eq!(rows[1][6], "N1");
    let small = CsvExporter::new()
        .headers(vec!["号".to_string(), "金额".to_string()])
        .fields(vec!["number".to_string(), "money".to_string()]);
    let csv = small.to_csv(&vec![bill("N1", 1), bill("N,2", 2)]).unwrap();
    assert_eq!(String::from_utf8(csv).unwrap(), "号,金额\nN1,-1.00\n\"N,2\",-1.00\n");
    let uneven = CsvExporter::new().headers(vec!["a".to_string()]);
    assert!(uneven.to_csv(&vec![bill("N1", 1)]).is_none());
}

#[test]
fn sync_never_adds_stored_numbers_across_pages() {
    let o = SyncOptions { start_page: 1, max_pages: 10, bill_type: BillType::All, early_stop_threshold: 5 };
    let store = ["S1", "S2"];
    let mut s = SyncState::new(&o);
    let page1 = vec![bill("S1", 1), bill("N1", 2)];
    let known1 = page1.iter().map(|b| store.contains(&b.number.as_str())).collect();
    s.handle_page(&o, 1, page1, 2, known1).unwrap();
    let page2 = vec![bill("N1", 3), bill("S2", 4), bill("N2", 5)];
    let known2 = page2.iter().map(|b| store.contains(&b.number.as_str())).collect();
    s.handle_page(&o, 2, page2, 2, known2).unwrap();
    let r = s.finish();
    let numbers: Vec<&str> = r.new_bills.iter().map(|b| b.number.as_str()).collect();
    assert_eq!(numbers, vec!["N1", "N2"]);
}
