use std::cmp::Ordering;

use shmtu::bill::{parse_money_cents, BillItemStatus, BillType};
use shmtu::bill_item::{sum_money, BillItem};
use shmtu::bill_parser::{format_time, only_digits, parse_bill_page};

fn make_single(timestamp: i64, number: &str, money_cents: i64) -> BillItem {
    BillItem::new_single(
        "2026.05.21".into(),
        "123045".into(),
        "12:30:45".into(),
        "2026.05.21 12:30:45".into(),
        timestamp,
        "消费".into(),
        number.into(),
        "食堂".into(),
        format!("{}.{:02}", money_cents / 100, money_cents % 100),
        money_cents,
        "刷卡".into(),
        "交易成功".into(),
    )
}

#[test]
fn test_equality_same_number() {
    let a = make_single(100, "N001", 1000);
    let b = make_single(200, "N001", 2000);
    assert!(a == b);
}

#[test]
fn test_equality_different_number() {
    let a = make_single(100, "N001", 1000);
    let b = make_single(100, "N002", 1000);
    assert!(a != b);
}

#[test]
fn test_merge_basic() {
    let a = make_single(100, "N001", 1000);
    let b = make_single(200, "N002", 2000);
    let merged = BillItem::merge(vec![a, b]);

    assert!(merged.is_combined);
    assert_eq!(merged.number, "");
    assert_eq!(merged.number_list, vec!["N001", "N002"]);
    assert_eq!(merged.money_cents, 3000);
    assert_eq!(merged.timestamp, 100);
    assert_eq!(merged.end_timestamp, 200);
    assert_eq!(merged.date_time_formatted, "2026.05.21 12:30:45");
    assert_eq!(merged.end_date_time_formatted, "2026.05.21 12:30:45");
}

#[test]
fn test_merge_combined_with_single() {
    let a = make_single(100, "N001", 1000);
    let b = make_single(200, "N002", 2000);
    let combined = BillItem::merge(vec![a, b]);

    let c = make_single(300, "N003", 500);
    let re_merged = BillItem::merge(vec![combined, c]);

    assert!(re_merged.is_combined);
    assert_eq!(re_merged.number_list, vec!["N001", "N002", "N003"]);
    assert_eq!(re_merged.money_cents, 3500);
    assert_eq!(re_merged.end_timestamp, 300);
}

#[test]
fn merge_takes_end_from_latest_ending_entry() {
    let a = make_single(100, "N001", 1000);
    let b = make_single(500, "N002", 2000);
    let long = BillItem::merge(vec![a, b]);
    let c = make_single(200, "N003", 500);
    let merged = BillItem::merge(vec![long, c]);
    assert_eq!(merged.timestamp, 100);
    assert_eq!(merged.end_timestamp, 500);
    assert_eq!(merged.number_list, vec!["N001", "N002", "N003"]);
}

#[test]
fn test_merge_with() {
    let a = make_single(100, "N001", 1000);
    let b = make_single(200, "N002", 2000);
    let merged = a.merge_with(&b);

    assert!(merged.is_combined);
    assert_eq!(merged.number_list.len(), 2);
}

#[test]
fn test_cmp_by_time() {
    let a = make_single(100, "N001", 1000);
    let b = make_single(200, "N002", 2000);
    assert_eq!(a.cmp_by_time(&b), Ordering::Less);
}

#[test]
fn test_cmp_by_money() {
    let a = make_single(100, "N001", 1000);
    let b = make_single(200, "N002", 2000);
    assert_eq!(a.cmp_by_money(&b), Ordering::Less);
}

#[test]
fn test_sum_money() {
    let items = vec![make_single(100, "N001", 1000), make_single(200, "N002", 2050)];
    assert_eq!(sum_money(&items), 3050);
}

#[test]
fn test_display_single() {
    let item = make_single(100, "N001", 1000);
    let s = item.to_display_string();
    assert!(s.contains("消费"));
    assert!(!s.contains("合并"));
}

#[test]
fn test_display_combined() {
    let a = make_single(100, "N001", 1000);
    let b = make_single(200, "N002", 2000);
    let merged = BillItem::merge(vec![a, b]);
    let s = merged.to_display_string();
    assert!(s.contains("2条合并"));
    assert!(s.contains(" - "));
}

#[test]
fn merge_sorts_by_time_and_keeps_single_unchanged() {
    let a = make_single(300, "N3", 1);
    let b = make_single(100, "N1", 2);
    let merged = BillItem::merge(vec![a, b]);
    assert_eq!(merged.number_list, vec!["N1", "N3"]);
    assert_eq!(merged.money_str, "0.03");
    let one = BillItem::merge(vec![make_single(5, "X", -250)]);
    assert!(!one.is_combined);
    assert_eq!(one.number, "X");
    assert_eq!(one.get_field("money"), "-2.50");
}

#[test]
fn test_format_time() {
    assert_eq!(format_time("123045"), "12:30:45");
    assert_eq!(format_time("080000"), "08:00:00");
    assert_eq!(format_time("12:30"), "12:30");
}

#[test]
fn test_only_digits() {
    assert_eq!(only_digits("交易号: 202401010001"), "202401010001");
    assert_eq!(only_digits("abc123def456"), "123456");
}

#[test]
fn fields_for_export() {
    let item = make_single(1716294645, "N001", 1234);
    assert_eq!(item.get_field("timestamp"), "1716294645");
    assert_eq!(item.get_field("number_list"), "N001");
    assert_eq!(item.get_field("status"), "交易成功");
    assert_eq!(item.get_field("is_combined"), "false");
    assert_eq!(item.get_field("nope"), "");
    assert_eq!(item.status(), BillItemStatus::Success);
}

#[test]
fn bill_types_and_statuses() {
    assert_eq!(BillType::All.tab_no(), "1");
    assert_eq!(BillType::NotPaid.tab_no(), "3");
    assert_eq!(BillType::Failure.description(), "失败");
    assert_eq!("WaitFor".parse::<BillType>(), Ok(BillType::NotPaid));
    assert_eq!("x".parse::<BillType>(), Err("未知的 BillType: x".to_string()));
    assert_eq!(BillItemStatus::from_text(" 交易成功 "), Some(BillItemStatus::Success));
    assert_eq!(BillItemStatus::from_text("?"), None);
}

#[test]
fn reads_a_bill_page() {
    let html = r#"<html><body><span><table><tbody>
        <tr>
            <td><div>2024.01.02</div><div>093005</div></td>
            <td><div>消费</div><div>交易号：20240102001</div></td>
            <td>第一食堂</td><td>-12.50</td><td>校园卡</td><td>交易成功</td>
        </tr>
        <tr><td>only</td><td>five</td><td>cells</td><td>x</td><td>y</td></tr>
    </tbody></table></span>
    <div><table><tbody><tr><td>当前1/3页</td></tr></tbody></table></div></body></html>"#;
    let p = parse_bill_page(html).unwrap();
    assert_eq!(p.total_pages, 3);
    assert_eq!(p.bills.len(), 1);
    let b = &p.bills[0];
    assert_eq!(b.date_time_formatted, "2024.01.02 09:30:05");
    assert_eq!(b.timestamp, 1704187805);
    assert_eq!(b.number, "20240102001");
    assert_eq!(b.money_cents, -1250);
    assert_eq!(b.target_user, "第一食堂");
}

#[test]
fn money_cells_read_in_fen_rounded() {
    assert_eq!(parse_money_cents(" 12.5 "), 1250);
    assert_eq!(parse_money_cents("-3.05"), -305);
    assert_eq!(parse_money_cents("1.236"), 124);
    assert_eq!(parse_money_cents("1.2349"), 123);
    assert_eq!(parse_money_cents("+0.995"), 100);
    assert_eq!(parse_money_cents("1.2a"), 0);
    assert_eq!(parse_money_cents("."), 0);
}
