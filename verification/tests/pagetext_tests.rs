use jwxt_client::pagetext::{extract_duration, extract_time_ranges};
use jwxt_client::records::{parse_dekt, DEKTList, DEKTTotal};
use jwxt_client::textutil::{parse_i32_or_zero, parse_u32_or_zero};

#[test]
fn time_ranges_are_found_and_joined() {
    assert_eq!(
        extract_time_ranges("第一大节 08:00~09:30 间休 10:00~11:30"),
        "08:00~09:30-10:00~11:30"
    );
    assert_eq!(extract_time_ranges("14:30~16:00"), "14:30~16:00");
    assert_eq!(extract_time_ranges("no clock text"), "");
    assert_eq!(extract_time_ranges(""), "");
}

#[test]
fn duration_reads_the_bracketed_run() {
    assert_eq!(extract_duration("<font>[01-02]节</font>"), "01-02节");
    assert_eq!(extract_duration("x[0102]y"), "0102节");
    assert_eq!(extract_duration("[01-02-03]节"), "01-02-03节");
    assert_eq!(extract_duration("no duration"), "");
    assert_eq!(extract_duration("[1]"), "");
}

#[test]
fn unsigned_fields_parse_with_zero_default() {
    assert_eq!(parse_u32_or_zero("123"), 123);
    assert_eq!(parse_u32_or_zero("+7"), 7);
    assert_eq!(parse_u32_or_zero("0"), 0);
    assert_eq!(parse_u32_or_zero(""), 0);
    assert_eq!(parse_u32_or_zero("12a"), 0);
    assert_eq!(parse_u32_or_zero("4294967295"), u32::MAX);
    assert_eq!(parse_u32_or_zero("4294967296"), 0);
}

#[test]
fn signed_fields_parse_with_zero_default() {
    assert_eq!(parse_i32_or_zero("-5"), -5);
    assert_eq!(parse_i32_or_zero("42"), 42);
    assert_eq!(parse_i32_or_zero("+42"), 42);
    assert_eq!(parse_i32_or_zero("2147483647"), i32::MAX);
    assert_eq!(parse_i32_or_zero("-2147483648"), i32::MIN);
    assert_eq!(parse_i32_or_zero("2147483648"), 0);
    assert_eq!(parse_i32_or_zero("-2147483649"), 0);
    assert_eq!(parse_i32_or_zero("credits"), 0);
    assert_eq!(parse_i32_or_zero("-"), 0);
}

#[test]
fn dekt_pairs_its_two_parts() {
    let list = vec![DEKTList {
        id: "1".to_string(),
        semester: "2023-2024-1".to_string(),
        category: "素质拓展".to_string(),
        sub_category: "志愿服务".to_string(),
        activity_name: "活动".to_string(),
        credit: "1.0".to_string(),
        operation_id: "abc".to_string(),
    }];
    let total = vec![DEKTTotal {
        category: "素质拓展".to_string(),
        total_credit: "3.5".to_string(),
    }];
    let dekt = parse_dekt(list.clone(), total.clone()).unwrap();
    assert_eq!(dekt.list, list);
    assert_eq!(dekt.total, total);
}

#[test]
fn semester_entries_sort_newest_first() {
    let input = vec![
        "2022-2023-2".to_string(),
        "2023-2024-1".to_string(),
        "2021-2022-1".to_string(),
    ];
    let entries = jwxt_client::semester::semester_entries(input, true);
    assert_eq!(entries.len(), 4);
    assert_eq!(entries[0].key, "全部学期");
    assert_eq!(entries[0].value, "");
    assert_eq!(entries[1].key, "2023-2024-1");
    assert_eq!(entries[2].key, "2022-2023-2");
    assert_eq!(entries[3].key, "2021-2022-1");
    for e in &entries[1..] {
        assert_eq!(e.key, e.value);
    }
}

#[test]
fn semester_entries_keep_only_the_ten_newest() {
    let input: Vec<String> = (0..13).map(|y| format!("20{:02}-20{:02}-1", y, y + 1)).collect();
    let entries = jwxt_client::semester::semester_entries(input, false);
    assert_eq!(entries.len(), 10);
    assert_eq!(entries[0].key, "2012-2013-1");
    assert_eq!(entries[9].key, "2003-2004-1");
}

#[test]
fn sort_desc_orders_byte_lexicographically() {
    let out = jwxt_client::semester::sort_desc(vec![
        "b".to_string(),
        "a".to_string(),
        "c".to_string(),
        "a".to_string(),
    ]);
    assert_eq!(out, vec!["c", "b", "a", "a"]);
}
