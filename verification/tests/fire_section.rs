use mupc_pages::audit::{banner_skin_of, BannerSkin};
use mupc_pages::fire::{
    a1_row_slot, a1_slot_color, a3_row_text, a4_mismatch_visible, a4_text, bit_dot,
    drill_state_cell, drill_view, fire_card_view, fire_notice, fire_slot_color, A1Bit, A3Word,
    DrillFailure, DrillPage, FireSectionView,
    A1_STYLE_ACTIVE, A1_STYLE_INACTIVE, A1_STYLE_UNDEF, DRILL_SLOT_ACTIVE, DRILL_SLOT_INACTIVE,
    TEXT_PERIPH_UNAVAILABLE,
};
use mupc_pages::interlock::{
    fire_summary, FirePoint, FireStation, FireSummary, FIRE_SLOT_DANGER, FIRE_SLOT_OK,
    FIRE_SLOT_STOP, FIRE_SLOT_UNKNOWN, FIRE_SLOT_WARN,
};
use mupc_pages::palette::Swatch;

fn pt(at: u16, readable: bool, alarm: bool, fault: bool) -> FirePoint {
    FirePoint { at, readable, alarm_bit: alarm, fault_bit: fault }
}

/// A detector block of `units` whole runs of six points plus `extra` points.
fn det_block(units: &[(bool, bool, bool)], extra: usize) -> Vec<FirePoint> {
    let mut v = Vec::new();
    for (k, (readable, alarm, fault)) in units.iter().enumerate() {
        let base = (k * 6) as u16;
        v.push(pt(base, *readable, false, false));
        v.push(pt(base + 1, true, *alarm, *fault));
        for j in 2..6 {
            v.push(pt(base + j, true, false, false));
        }
    }
    for j in 0..extra {
        v.push(pt(1000 + j as u16, false, true, true));
    }
    v
}

#[test]
fn fire_summary_without_station_is_all_zero() {
    let s = fire_summary(Some(12), &None);
    assert_eq!(
        s,
        FireSummary { registered: Some(12), readable: 0, alarm: 0, fault: 0, offline: 0 }
    );
    assert!(s.mismatch());
}

#[test]
fn fire_summary_counts_first_detector_and_whole_runs() {
    let sys = vec![pt(7, true, false, false), pt(8, false, false, false), pt(9, true, true, false)];
    let det = det_block(&[(true, false, true), (true, true, true), (false, false, false)], 4);
    let st = Some(FireStation { sys: Some(sys), det: Some(det) });
    let s = fire_summary(Some(4), &st);
    assert_eq!(
        s,
        FireSummary { registered: Some(4), readable: 4, alarm: 2, fault: 2, offline: 2 }
    );
    assert!(!s.mismatch());
}

#[test]
fn fire_summary_needs_both_points_of_the_first_detector() {
    let sys = vec![pt(8, true, false, false), pt(10, true, true, true)];
    let st = Some(FireStation { sys: Some(sys), det: None });
    let s = fire_summary(None, &st);
    assert_eq!(s, FireSummary { registered: None, readable: 0, alarm: 0, fault: 0, offline: 0 });
    assert!(!s.mismatch());
}

#[test]
fn fire_summary_drops_a_partial_run() {
    let st = Some(FireStation { sys: None, det: Some(det_block(&[(true, true, false)], 5)) });
    let s = fire_summary(Some(1), &st);
    assert_eq!(s, FireSummary { registered: Some(1), readable: 1, alarm: 1, fault: 0, offline: 0 });
}

#[test]
fn fire_notice_prefers_unavailable_data() {
    assert_eq!(fire_notice(false, Some("站点未启用")), Some(TEXT_PERIPH_UNAVAILABLE));
    assert_eq!(fire_notice(false, None), Some("外设数据不可用"));
    assert_eq!(fire_notice(true, Some("站点未启用")), Some("站点未启用"));
    assert_eq!(fire_notice(true, None), None);
}

#[test]
fn a1_rows_slot_and_dot() {
    assert_eq!(a1_row_slot(Some(true), true), A1_STYLE_ACTIVE);
    assert_eq!(a1_row_slot(Some(true), false), A1_STYLE_INACTIVE);
    assert_eq!(a1_row_slot(Some(false), true), A1_STYLE_UNDEF);
    assert_eq!(a1_row_slot(None, true), A1_STYLE_UNDEF);
    assert_eq!(bit_dot(true), "●");
    assert_eq!(bit_dot(false), "○");
    assert_eq!(a1_slot_color(A1_STYLE_ACTIVE), Swatch::Danger);
    assert_eq!(a1_slot_color(A1_STYLE_INACTIVE), Swatch::TextSecond);
    assert_eq!(a1_slot_color(A1_STYLE_UNDEF), Swatch::TextWeak);
}

#[test]
fn a3_rows_follow_the_notice_and_bits() {
    assert_eq!(a3_row_text(0, Some("外设数据不可用"), Some("探测器 1"), true, false), "外设数据不可用");
    assert_eq!(
        a3_row_text(1, Some("外设数据不可用"), Some("探测器 2"), true, false),
        "探测器 2 干接点触发 活跃 · 复合触发 非活跃 · 预留"
    );
    assert_eq!(
        a3_row_text(0, None, None, false, true),
        "名称未获取 干接点触发 非活跃 · 复合触发 活跃 · 预留"
    );
}

#[test]
fn a4_summary_line() {
    let s = FireSummary { registered: Some(12), readable: 10, alarm: 1, fault: 2, offline: 3 };
    assert_eq!(a4_text(true, None, &s), "登记 12 只 / 可读 10 只 / 报警 1 / 故障 2 / 离线 3");
    let unread = FireSummary { registered: None, ..s };
    assert_eq!(
        a4_text(true, None, &unread),
        "登记 \u{2013} 只 / 可读 10 只 / 报警 1 / 故障 2 / 离线 3"
    );
    assert_eq!(a4_text(false, None, &s), "外设数据不可用");
    assert_eq!(a4_text(true, Some("站离线"), &s), "站离线");
    assert!(a4_mismatch_visible(true, &s));
    assert!(!a4_mismatch_visible(false, &s));
    assert!(!a4_mismatch_visible(true, &unread));
}

#[test]
fn fire_slot_colours_are_never_green_but_for_normal() {
    assert_eq!(fire_slot_color(FIRE_SLOT_OK), Swatch::Green);
    assert_eq!(fire_slot_color(FIRE_SLOT_WARN), Swatch::Stale);
    assert_eq!(fire_slot_color(FIRE_SLOT_DANGER), Swatch::Danger);
    assert_eq!(fire_slot_color(FIRE_SLOT_STOP), Swatch::Stopped);
    assert_eq!(fire_slot_color(FIRE_SLOT_UNKNOWN), Swatch::TextWeak);
    assert_eq!(fire_slot_color(99), Swatch::TextWeak);
}

#[test]
fn banner_skin_classifies_palette_constants() {
    assert_eq!(banner_skin_of(Swatch::AuditBg), BannerSkin::Audit);
    assert_eq!(banner_skin_of(Swatch::WarnBg), BannerSkin::Warn);
    assert_eq!(banner_skin_of(Swatch::DangerBg), BannerSkin::Danger);
    assert_eq!(banner_skin_of(Swatch::SurfaceAlt), BannerSkin::SurfaceAlt);
    assert_eq!(banner_skin_of(Swatch::Surface), BannerSkin::Surface);
    assert_eq!(banner_skin_of(Swatch::Bg), BannerSkin::Other);
    assert_ne!(banner_skin_of(Swatch::AuditBg), banner_skin_of(Swatch::WarnBg));
}

#[test]
fn drill_view_before_any_answer() {
    let v = drill_view(&None, 1, false, 0);
    assert_eq!(v.cur, 1);
    assert_eq!(v.count, 0);
    assert_eq!(v.size, 1);
    assert!(v.prev_disabled);
    assert!(v.next_disabled);
    assert!(!v.failure_visible);
    assert!(!v.retry_visible);
    assert!(!v.rows_hidden);
    assert_eq!(v.failure, DrillFailure::DetailUnavailable);
}

#[test]
fn drill_view_of_a_middle_page() {
    let p = DrillPage { available: true, total: Some(120), expanded: 50, page_size: 50, page: 2, has_more: true };
    let v = drill_view(&Some(p), 3, false, 20);
    assert_eq!((v.cur, v.count, v.size), (2, 120, 50));
    assert!(!v.prev_disabled);
    assert!(!v.next_disabled);
    let q = DrillPage { total: None, page_size: 0, has_more: false, ..p };
    let w = drill_view(&Some(q), 3, false, 20);
    assert_eq!((w.cur, w.count, w.size), (2, 50, 20));
    assert!(w.next_disabled);
}

#[test]
fn drill_view_failures() {
    let p = DrillPage { available: false, total: None, expanded: 0, page_size: 0, page: 1, has_more: false };
    let v = drill_view(&Some(p), 1, false, 50);
    assert_eq!(v.failure, DrillFailure::SourceUnavailable);
    assert!(v.failure_visible && v.rows_hidden && !v.retry_visible);
    let w = drill_view(&None, 2, true, 50);
    assert_eq!(w.failure, DrillFailure::DetailUnavailable);
    assert!(w.failure_visible && w.rows_hidden && w.retry_visible);
    assert!(!w.prev_disabled);
}

#[test]
fn drill_state_cells() {
    assert_eq!(drill_state_cell(true), ("● 活跃".to_string(), DRILL_SLOT_ACTIVE));
    assert_eq!(drill_state_cell(false), ("○ 非活跃".to_string(), DRILL_SLOT_INACTIVE));
}

fn section(available: bool, station_notice: Option<&str>, level: Option<i64>) -> FireSectionView {
    FireSectionView {
        available,
        station_notice: station_notice.map(|s| s.to_string()),
        level,
        level_text: "正常".to_string(),
        bits: vec![
            A1Bit { index: 0, defined: true, active: true },
            A1Bit { index: 1, defined: true, active: false },
            A1Bit { index: 3, defined: false, active: true },
            A1Bit { index: 1, defined: true, active: true },
            A1Bit { index: 20, defined: true, active: true },
        ],
        words: vec![
            A3Word { label: Some("探测器 1".to_string()), dry: true, compound: false },
            A3Word { label: None, dry: false, compound: true },
        ],
        summary: FireSummary { registered: Some(3), readable: 2, alarm: 1, fault: 0, offline: 1 },
    }
}

#[test]
fn fire_card_view_in_a_normal_frame() {
    let v = fire_card_view(&section(true, None, Some(0)));
    assert_eq!(v.notice, None);
    assert_eq!((v.level_text.as_str(), v.level_slot, v.level_icon), ("正常", FIRE_SLOT_OK, "✓"));
    let mut rows = vec![A1_STYLE_UNDEF; 16];
    rows[0] = A1_STYLE_ACTIVE;
    rows[1] = A1_STYLE_INACTIVE;
    assert_eq!(v.bit_slots, rows);
    assert_eq!(
        v.word_texts,
        vec![
            "探测器 1 干接点触发 活跃 · 复合触发 非活跃 · 预留".to_string(),
            "名称未获取 干接点触发 非活跃 · 复合触发 活跃 · 预留".to_string(),
        ]
    );
    assert_eq!(v.summary_text, "登记 3 只 / 可读 2 只 / 报警 1 / 故障 0 / 离线 1");
    assert!(v.mismatch_visible);
}

#[test]
fn fire_card_view_when_the_data_is_unavailable() {
    let v = fire_card_view(&section(false, Some("站离线"), None));
    assert_eq!(v.notice.as_deref(), Some("外设数据不可用"));
    assert_eq!((v.level_text.as_str(), v.level_slot, v.level_icon), ("未知", FIRE_SLOT_UNKNOWN, "?"));
    assert_eq!(fire_slot_color(v.level_slot), Swatch::TextWeak);
    assert_eq!(v.bit_slots.len(), 16);
    assert_eq!(v.bit_slots[0], A1_STYLE_ACTIVE);
    assert_eq!(v.word_texts[0], "外设数据不可用");
    assert_eq!(v.word_texts[1], "名称未获取 干接点触发 非活跃 · 复合触发 活跃 · 预留");
    assert_eq!(v.summary_text, "外设数据不可用");
    assert!(!v.mismatch_visible);
    let w = fire_card_view(&section(true, Some("站离线"), Some(5)));
    assert_eq!(w.notice.as_deref(), Some("站离线"));
    assert_eq!(w.word_texts[0], "站离线");
    assert_eq!(w.summary_text, "站离线");
    assert_eq!(w.level_slot, mupc_pages::interlock::FIRE_SLOT_STOP);
    assert!(w.mismatch_visible);
}
