use shmtu::hot_water::{only_float_digits, parse_hot_water_list};

#[test]
fn test_only_float_digits() {
    assert_eq!(only_float_digits("36.5℃"), "36.5");
    assert_eq!(only_float_digits("水位75%"), "75");
}

#[test]
fn float_digits_keep_dots_and_ascii_digits_only() {
    assert_eq!(only_float_digits("a1.2.3b"), "1.2.3");
    assert_eq!(only_float_digits("٣"), "");
    assert_eq!(only_float_digits(""), "");
}

#[test]
fn parses_readings_and_skips_bad_entries() {
    let html = r#"<html><body><div id="tab1"><div><div><ul>
        <li><div class="bagreen"><span>36.5℃</span><span>水位75%</span><span>1号楼</span></div></li>
        <li><div class="bagreen"><span>--℃</span><span>水位75%</span><span>2号楼</span></div></li>
        <li><div class="bagreen"><span>40℃</span><span>水位.5%</span></div></li>
        <li><div class="other"><span>40℃</span><span>水位5%</span><span>3号楼</span></div></li>
        <li><div class="bagreen"><span>41.0℃</span><span>水位1.%</span><span>12号楼</span></div></li>
    </ul></div></div></div></body></html>"#;
    let list = parse_hot_water_list(html).unwrap();
    assert_eq!(list.len(), 2);
    assert_eq!(list[0].building, 1);
    assert_eq!(list[0].temperature, "36.5");
    assert_eq!(list[0].water_level, "75");
    assert_eq!(list[1].building, 12);
    assert_eq!(list[1].water_level, "1.");
    let t: f32 = list[0].temperature.parse().unwrap();
    assert!((t - 36.5).abs() < 1e-6);
}

#[test]
fn page_without_list_has_no_readings() {
    assert!(parse_hot_water_list("<html></html>").unwrap().is_empty());
}
