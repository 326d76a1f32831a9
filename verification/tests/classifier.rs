use shmtu::classifier::{BillCategory, BillClassifier, CategoryRule};
use shmtu::position::{PositionEntry, PositionTranslator};

fn strings(v: &[&str]) -> Vec<String> {
    v.iter().map(|s| s.to_string()).collect()
}

fn make_classifier() -> BillClassifier {
    BillClassifier {
        categories: vec![
            (
                "deposit".to_string(),
                CategoryRule { name: strings(&["中行云充值", "微信充值"]), target: vec![] },
            ),
            ("bath".to_string(), CategoryRule { name: vec![], target: strings(&["淋浴", "热水"]) }),
            ("canteen".to_string(), CategoryRule { name: vec![], target: strings(&["食堂", "餐厅"]) }),
        ],
    }
}

#[test]
fn test_classify_deposit_by_name() {
    let c = make_classifier();
    assert_eq!(c.classify("中行云充值", "某商户"), BillCategory::Deposit);
}

#[test]
fn test_classify_bath_by_target() {
    let c = make_classifier();
    assert_eq!(c.classify("消费", "淋浴"), BillCategory::Bath);
}

#[test]
fn test_classify_canteen() {
    let c = make_classifier();
    assert_eq!(c.classify("消费", "食堂"), BillCategory::Canteen);
}

#[test]
fn test_classify_other() {
    let c = make_classifier();
    assert_eq!(c.classify("消费", "未知商户"), BillCategory::Other);
}

#[test]
fn first_matching_rule_decides_and_unknown_keys_are_other() {
    let c = BillClassifier {
        categories: vec![
            ("mystery".to_string(), CategoryRule { name: vec![], target: strings(&["食堂"]) }),
            ("canteen".to_string(), CategoryRule { name: vec![], target: strings(&["食堂"]) }),
        ],
    };
    assert_eq!(c.classify("消费", "一食堂"), BillCategory::Other);
    assert_eq!(BillClassifier::default().classify("x", "y"), BillCategory::Other);
    assert_eq!(BillClassifier::parse_category("hot_water"), BillCategory::HotWater);
    assert_eq!(BillClassifier::parse_category("Hot_Water"), BillCategory::Other);
}

#[test]
fn category_names_and_emoji() {
    assert_eq!(BillCategory::Library.display_name(), "图书馆");
    assert_eq!(BillCategory::Other.display_name(), "其他");
    assert_eq!(BillCategory::HotWater.emoji(), "♨️");
    assert_eq!(BillCategory::Transport.emoji(), "🚌");
}

fn entry(p: &str, r: &str) -> PositionEntry {
    PositionEntry { position: p.to_string(), room: r.to_string() }
}

fn make_translator() -> PositionTranslator {
    PositionTranslator {
        field: "target".to_string(),
        keywords: vec![
            ("A食堂1楼大餐厅".to_string(), entry("海馨楼", "海馨第1食堂")),
            ("淋浴".to_string(), entry("公共浴室", "浴室")),
            ("教育超市".to_string(), entry("校园商业", "教育超市")),
        ],
    }
}

#[test]
fn test_exact_match() {
    let t = make_translator();
    let (pos, room) = t.translate("A食堂1楼大餐厅").unwrap();
    assert_eq!(pos, "海馨楼");
    assert_eq!(room, "海馨第1食堂");
}

#[test]
fn test_fuzzy_match() {
    let t = make_translator();
    let (pos, room) = t.translate("淋浴-北区浴室").unwrap();
    assert_eq!(pos, "公共浴室");
    assert_eq!(room, "浴室");
}

#[test]
fn test_no_match() {
    let t = make_translator();
    assert!(t.translate("未知地点").is_none());
}

#[test]
fn exact_match_wins_and_raw_fallback() {
    let t = PositionTranslator {
        field: "target".to_string(),
        keywords: vec![
            ("淋浴".to_string(), entry("公共浴室", "浴室")),
            ("淋浴间".to_string(), entry("北区", "北浴室")),
        ],
    };
    assert_eq!(t.translate("  淋浴间 ").unwrap(), ("北区".to_string(), "北浴室".to_string()));
    assert_eq!(t.translate_or_raw("图书馆"), ("图书馆".to_string(), "图书馆".to_string()));
    let d = PositionTranslator::default();
    assert_eq!(d.field, "target");
    assert!(d.translate("淋浴").is_none());
}

#[test]
fn insert_replaces_existing_keyword_in_place() {
    let mut t = PositionTranslator::default();
    t.insert("淋浴".to_string(), entry("公共浴室", "浴室"));
    t.insert("超市".to_string(), entry("校园商业", "教育超市"));
    t.insert("淋浴".to_string(), entry("北区", "北浴室"));
    assert_eq!(t.keywords.len(), 2);
    assert_eq!(t.keywords[0].0, "淋浴");
    assert_eq!(t.translate("淋浴"), Some(("北区".to_string(), "北浴室".to_string())));
    assert_eq!(t.translate("教育超市"), Some(("校园商业".to_string(), "教育超市".to_string())));
}

#[test]
fn classifier_insert_replaces_rule_of_same_key() {
    let mut c = BillClassifier::default();
    c.insert("canteen".to_string(), CategoryRule { name: vec![], target: vec!["食堂".to_string()] });
    c.insert("shop".to_string(), CategoryRule { name: vec![], target: vec!["超市".to_string()] });
    c.insert("canteen".to_string(), CategoryRule { name: vec![], target: vec!["餐厅".to_string()] });
    assert_eq!(c.categories.len(), 2);
    assert_eq!(c.categories[0].0, "canteen");
    assert_eq!(c.classify("消费", "A食堂"), BillCategory::Other);
    assert_eq!(c.classify("消费", "大餐厅"), BillCategory::Canteen);
    assert_eq!(c.classify("消费", "教育超市"), BillCategory::Shop);
}
