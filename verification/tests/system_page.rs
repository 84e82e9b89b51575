use mupc_pages::system::{
    bms_entry_text, clock_hms, device_mgmt_ip, layout, non_empty, non_empty_opt, station_ok_text,
    station_update_text, RowData, RowKind, CARD_HEAD_H, PLACEHOLDER, ROW_STATION_H,
};

fn row(kind: RowKind, h: i32) -> RowData {
    RowData {
        kind,
        h,
        label: String::new(),
        value: String::new(),
        aux: String::new(),
        aux2: String::new(),
        active: None,
        degraded: false,
    }
}

#[test]
fn layout_stacks_free_rows_and_cards() {
    let rows = vec![
        RowData::station("S1".into(), "OK".into(), "a".into(), "b".into()),
        RowData::header("A"),
        row(RowKind::Scalar, 40),
        row(RowKind::Bit, 40),
        RowData::header("B"),
        row(RowKind::Enum, 30),
    ];
    let (ys, cards, total) = layout(&rows);
    assert_eq!(ys, vec![0, 65, 105, 145, 235, 275]);
    assert_eq!(cards, vec![(48, 154), (218, 104)]);
    assert_eq!(total, 322);
}

#[test]
fn layout_of_free_rows_only_has_no_gaps() {
    let rows = vec![row(RowKind::Notice, 30), row(RowKind::Station, 48)];
    let (ys, cards, total) = layout(&rows);
    assert_eq!(ys, vec![0, 30]);
    assert!(cards.is_empty());
    assert_eq!(total, 78);
}

#[test]
fn layout_of_one_card_and_of_no_rows() {
    let rows = vec![
        RowData::header("A"),
        row(RowKind::Scalar, 40),
    ];
    let (ys, cards, total) = layout(&rows);
    assert_eq!(ys, vec![17, 57]);
    assert_eq!(cards, vec![(0, 114)]);
    assert_eq!(total, 114);
    let (ys, cards, total) = layout(&Vec::new());
    assert!(ys.is_empty() && cards.is_empty());
    assert_eq!(total, 0);
}

#[test]
fn row_builders_fill_kind_and_height() {
    let h = RowData::header("电池");
    assert_eq!(h.kind, RowKind::Header);
    assert_eq!(h.h, CARD_HEAD_H);
    assert_eq!(h.label, "电池");
    let s = RowData::station("站1".into(), "在线".into(), "x".into(), "y".into());
    assert_eq!(s.kind, RowKind::Station);
    assert_eq!(s.h, ROW_STATION_H);
    assert_eq!((s.label.as_str(), s.value.as_str(), s.aux.as_str(), s.aux2.as_str()), ("站1", "在线", "x", "y"));
}

#[test]
fn station_clock_columns() {
    assert_eq!(clock_hms(0), PLACEHOLDER);
    assert_eq!(clock_hms(1_789_047_727_000), "13:42:07");
    assert_eq!(station_ok_text(1_789_047_727_000), "成功 13:42:07");
    assert_eq!(station_update_text(0), format!("更新 {PLACEHOLDER}"));
    assert_eq!(station_update_text(3_723_000), "更新 01:02:03");
}

#[test]
fn bms_entry_names_the_bit_count() {
    assert_eq!(bms_entry_text(), "查看全部 288 位");
}

#[test]
fn empty_strings_are_not_provided() {
    assert_eq!(non_empty(""), None);
    assert_eq!(non_empty("10.0.0.1"), Some("10.0.0.1"));
    assert_eq!(non_empty_opt(&None), None);
    assert_eq!(non_empty_opt(&Some(String::new())), None);
    assert_eq!(device_mgmt_ip(&Some("192.168.1.10".to_string())), Some("192.168.1.10"));
    assert_eq!(device_mgmt_ip(&Some(String::new())), None);
    assert_eq!(device_mgmt_ip(&None), None);
}
