use mupc_pages::audit::{
    audit_banner_bg, audit_query, load_more_page, rows_shown, should_fire_query, unavailable_h,
    AuditQuery, ConsoleOp, LogRange, TimeRangeChange, ROW_MAX,
};
use mupc_pages::clock::{datetime_to_epoch_ms, format_epoch_ms_utc, DateTimeValue};
use mupc_pages::interlock::{
    dialog_may_open, fire_level_icon, op_state, fire_level_slot, hold_text, note_open_failure,
    reject_text, shown_source_rows, source_body_h, source_card_title, status_cards,
    FireSummary, InterlockReject, InterlockSection, InterlockSourceItem, OpKind, ReasonSlot,
    EMPTY_H, FIRE_SLOT_DANGER, FIRE_SLOT_OK, FIRE_SLOT_STOP, FIRE_SLOT_UNKNOWN, FIRE_SLOT_WARN,
    ICON_EMERGENCY_STOP, ICON_FAIL, ICON_OK, ICON_STATE_LATCHED, ICON_STATE_UNAVAILABLE,
    ICON_STATE_UNLATCHED, TEXT_AUDIT_UNAVAILABLE, TEXT_CONFLICT, TEXT_LAMP_ON, TEXT_LAMP_UNKNOWN,
    TEXT_NOT_ENABLED, TEXT_REASON_LATCHED, TEXT_STATE_UNAVAILABLE, TEXT_STOP_FAIL, TEXT_STOP_OK,
    TEXT_TOAST_ACKED, TEXT_TOAST_FAIL, TEXT_TOAST_RELEASED, UNAVAILABLE_H,
};
use mupc_pages::palette::Color;
use mupc_pages::reasons::{apply_ack, FailureKind, InterlockOpAck, ReasonState, ToastTone};
use mupc_pages::system::{bms_card_entry_text, bms_card_height, bms_entry_y, stale_inset};

fn sect(available: bool, enabled: bool, latched: bool) -> InterlockSection {
    InterlockSection {
        available,
        enabled,
        latched,
        ..Default::default()
    }
}

fn with_sources(n: usize) -> InterlockSection {
    let mut s = sect(true, true, false);
    for i in 0..n {
        s.sources.push(InterlockSourceItem {
            name: format!("s{i}"),
            tripped: i % 2 == 0,
        });
    }
    s
}

fn minute(year: u16, month: u8, day: u8, hour: u8, minute: u8) -> DateTimeValue {
    DateTimeValue {
        year,
        month,
        day,
        hour,
        minute,
    }
}

fn h1_change() -> TimeRangeChange {
    TimeRangeChange {
        range: LogRange::H1,
        start: minute(1970, 1, 1, 0, 0),
        end: minute(1970, 1, 1, 0, 0),
    }
}

#[test]
fn audit_query_shapes() {
    let d = h1_change();
    let q = audit_query(&d, &[], 1);
    assert_eq!(q.range, LogRange::H1);
    assert_eq!(q.from_ms, None);
    assert_eq!(q.to_ms, None);
    assert_eq!(q.page, 1);
    assert!(q.ops.is_empty(), "only \"all\": no filter");

    let h24 = TimeRangeChange {
        range: LogRange::H24,
        ..h1_change()
    };
    let q = audit_query(&h24, &[ConsoleOp::ConfigApply], 2);
    assert_eq!(q.from_ms, None);
    assert_eq!(q.to_ms, None);
    assert_eq!(q.ops, vec![ConsoleOp::ConfigApply]);
    assert_eq!(q.page, 2);

    let custom = TimeRangeChange {
        range: LogRange::Custom,
        start: minute(1970, 1, 1, 0, 0),
        end: minute(2099, 12, 31, 23, 59),
    };
    let q = audit_query(&custom, &[], 1);
    assert_eq!(q.range, LogRange::Custom);
    assert_eq!(q.from_ms, Some(0), "1970/01/01 00:00 is 0");
    assert!(q.to_ms.is_some() && q.to_ms.unwrap() > q.from_ms.unwrap());

    let one_hour = TimeRangeChange {
        range: LogRange::Custom,
        start: minute(2026, 9, 10, 12, 42),
        end: minute(2026, 9, 10, 13, 42),
    };
    let q = audit_query(&one_hour, &[], 1);
    assert_eq!(format_epoch_ms_utc(q.from_ms.unwrap()), "2026/09/10 12:42:00");
    assert_eq!(format_epoch_ms_utc(q.to_ms.unwrap()), "2026/09/10 13:42:00");
    assert_eq!(q.to_ms.unwrap() - q.from_ms.unwrap(), 3_600_000, "exactly one hour");
}

#[test]
fn query_default_matches_change_default() {
    let q = AuditQuery::default();
    let c = h1_change();
    assert_eq!(q.range, c.range);
    assert_eq!(q.page, 1);
    assert_eq!(audit_query(&c, &[], 1), q);
}

#[test]
fn datetime_minutes_count_from_the_epoch() {
    assert_eq!(datetime_to_epoch_ms(minute(1970, 1, 1, 0, 0)), 0);
    assert_eq!(datetime_to_epoch_ms(minute(1970, 1, 2, 0, 1)), 86_460_000);
    assert_eq!(datetime_to_epoch_ms(minute(2000, 2, 29, 0, 0)), 951_782_400_000);
    let v = minute(2024, 12, 31, 23, 59);
    assert_eq!(format_epoch_ms_utc(datetime_to_epoch_ms(v)), "2024/12/31 23:59:00");
}

#[test]
fn queries_fire_only_when_they_change() {
    let q = audit_query(&h1_change(), &[ConsoleOp::ConfigReset], 1);
    assert!(should_fire_query(None, &q));
    assert!(!should_fire_query(Some(&q.clone()), &q));
    let other = audit_query(&h1_change(), &[ConsoleOp::ConfigApply], 1);
    assert!(should_fire_query(Some(&q), &other));
    let next_page = audit_query(&h1_change(), &[ConsoleOp::ConfigReset], 2);
    assert!(should_fire_query(Some(&q), &next_page));
}

#[test]
fn load_more_asks_for_the_next_page_only_when_there_is_one() {
    assert_eq!(load_more_page(false, Some(3)), None);
    assert_eq!(load_more_page(true, Some(3)), Some(4));
    assert_eq!(load_more_page(true, None), Some(2));
    assert_eq!(load_more_page(true, Some(u32::MAX)), Some(u32::MAX));
    assert_eq!(rows_shown(3), 3);
    assert_eq!(rows_shown(50), ROW_MAX);
}

#[test]
fn placeholders_and_banner_geometry() {
    assert_eq!(unavailable_h(), 164);
    assert_eq!(UNAVAILABLE_H, unavailable_h());
    assert_eq!(audit_banner_bg(), Color { r: 0x14, g: 0x23, b: 0x1F });
    assert_eq!(stale_inset(true), 72);
    assert_eq!(stale_inset(false), 0);
}

#[test]
fn battery_alarm_card_grows_with_its_list() {
    assert_eq!(bms_card_height(0), 174);
    assert_eq!(bms_card_height(2), 262);
    assert_eq!(bms_card_height(9), bms_card_height(4));
    assert_eq!(bms_entry_y(0), 84);
    assert_eq!(bms_entry_y(4), 260);
    assert_eq!(bms_card_entry_text(288), "查看全部 288 位");
    assert_eq!(bms_card_entry_text(0), "查看全部 0 位");
}

#[test]
fn source_card_body_height() {
    assert_eq!(source_body_h(&sect(false, true, true)), UNAVAILABLE_H);
    assert_eq!(source_body_h(&with_sources(0)), EMPTY_H);
    assert_eq!(source_body_h(&with_sources(2)), EMPTY_H);
    assert_eq!(source_body_h(&with_sources(3)), 132);
    assert_eq!(source_body_h(&with_sources(4)), 176);
    assert_eq!(source_body_h(&with_sources(9)), 176);
    assert_eq!(shown_source_rows(&with_sources(9)), 4);
    assert_eq!(shown_source_rows(&with_sources(2)), 2);
    let mut hidden = with_sources(3);
    hidden.available = false;
    assert_eq!(shown_source_rows(&hidden), 0);
}

#[test]
fn source_card_title_states_overflow_only_when_available() {
    assert_eq!(source_card_title(&with_sources(2)), "触发源 · 2");
    assert_eq!(source_card_title(&with_sources(6)), "触发源 · 6 · 还有 2 条");
    let mut hidden = with_sources(6);
    hidden.available = false;
    assert_eq!(source_card_title(&hidden), "触发源 · 6");
}

#[test]
fn status_cards_turn_grey_together_when_unavailable() {
    let grey = status_cards(&sect(false, true, false));
    assert_eq!(grey.len(), 3);
    for (t, slot) in &grey {
        assert_eq!(t, "? 联锁状态不可用");
        assert_eq!(*slot, 2);
    }
    let mut s = sect(true, true, false);
    s.stop_failed = true;
    s.fault_lamp = Some(true);
    let cards = status_cards(&s);
    assert_eq!(cards[0], (TEXT_STOP_FAIL.to_string(), 1));
    assert_eq!(cards[1], (TEXT_LAMP_ON.to_string(), 0));
    assert_eq!(cards[2], (TEXT_LAMP_UNKNOWN.to_string(), 2));
    s.stop_failed = false;
    assert_eq!(status_cards(&s)[0], (TEXT_STOP_OK.to_string(), 0));
}

#[test]
fn dialog_opens_only_when_the_operation_is_not_blocked() {
    let ok = sect(true, true, false);
    assert!(dialog_may_open(&ok, false, OpKind::Release, false));
    assert!(dialog_may_open(&ok, false, OpKind::AckM1, false));
    assert!(!dialog_may_open(&ok, false, OpKind::Release, true), "one dialog at a time");
    assert!(!dialog_may_open(&ok, true, OpKind::Release, false), "not while submitting");
    let latched = sect(true, true, true);
    assert!(dialog_may_open(&latched, false, OpKind::Release, false));
    assert!(!dialog_may_open(&latched, false, OpKind::AckM1, false));
    assert!(!dialog_may_open(&sect(false, true, false), false, OpKind::Release, false));
}

#[test]
fn open_failures_are_logged_sparsely() {
    assert_eq!(note_open_failure(0), (1, true));
    assert_eq!(note_open_failure(1), (2, false));
    assert_eq!(note_open_failure(63), (64, true));
    assert_eq!(note_open_failure(64), (65, false));
    assert_eq!(note_open_failure(u32::MAX), (u32::MAX, false));
}

#[test]
fn fire_levels_map_to_slots_and_icons() {
    assert_eq!(fire_level_slot(Some(0)), FIRE_SLOT_OK);
    assert_eq!(fire_level_slot(Some(1)), FIRE_SLOT_WARN);
    assert_eq!(fire_level_slot(Some(2)), FIRE_SLOT_DANGER);
    assert_eq!(fire_level_slot(Some(3)), FIRE_SLOT_UNKNOWN);
    assert_eq!(fire_level_slot(Some(4)), FIRE_SLOT_DANGER);
    assert_eq!(fire_level_slot(Some(5)), FIRE_SLOT_STOP);
    assert_eq!(fire_level_slot(Some(-1)), FIRE_SLOT_UNKNOWN);
    assert_eq!(fire_level_slot(None), FIRE_SLOT_UNKNOWN);
    assert_eq!(fire_level_icon(Some(0)), ICON_STATE_UNLATCHED);
    assert_eq!(fire_level_icon(Some(3)), ICON_STATE_LATCHED);
    assert_eq!(fire_level_icon(Some(5)), ICON_EMERGENCY_STOP);
    assert_eq!(fire_level_icon(Some(6)), ICON_STATE_UNAVAILABLE);
    assert_eq!(fire_level_icon(None), ICON_STATE_UNAVAILABLE);
}

#[test]
fn fire_summary_mismatch_needs_a_registered_count() {
    let mut s = FireSummary {
        registered: Some(8),
        readable: 7,
        alarm: 0,
        fault: 0,
        offline: 1,
    };
    assert!(s.mismatch());
    s.readable = 8;
    assert!(!s.mismatch());
    s.registered = None;
    assert!(!s.mismatch());
}

#[test]
fn ack_updates_latch_and_stop_only() {
    let mut s = sect(true, true, true);
    s.fault_lamp = Some(false);
    apply_ack(&mut s, InterlockOpAck { latched: false, stopped: true });
    assert!(!s.latched);
    assert!(!s.stop_failed);
    assert_eq!(s.fault_lamp, Some(false));
    apply_ack(&mut s, InterlockOpAck { latched: true, stopped: false });
    assert!(s.latched && s.stop_failed);
}

#[test]
fn reason_band_priorities() {
    let mut st = ReasonState::new();
    let s = sect(true, true, false);
    assert_eq!(st.reason_band(&s).left, None);
    st.show_reject(InterlockReject::Busy);
    assert_eq!(
        st.reason_band(&s).left,
        Some((reject_text(&InterlockReject::Busy), ReasonSlot::Red))
    );
    st.show_conflict();
    assert_eq!(st.reason_band(&s).left, Some((TEXT_CONFLICT.to_string(), ReasonSlot::Red)));
    assert!(st.take_refresh_request());
    assert!(!st.take_refresh_request());
    st.show_reject(InterlockReject::HoldNotElapsed { need_secs: 30, remaining_secs: 12 });
    assert_eq!(st.reason_band(&s).left, Some((hold_text(12), ReasonSlot::Amber)));
    assert_eq!(st.countdown_secs(), Some(12));
    let toast = st.show_failure(FailureKind::Other, "  bad port  ");
    assert_eq!(toast.tone, ToastTone::Failure);
    assert_eq!(toast.icon, ICON_FAIL);
    assert_eq!(toast.text, "BAD POR?");
    assert_eq!(st.reason_band(&s).left, Some(("BAD POR?".to_string(), ReasonSlot::Red)));
    assert_eq!(st.countdown_secs(), None);
    assert_eq!(
        st.reason_band(&sect(false, true, false)).left,
        Some((TEXT_STATE_UNAVAILABLE.to_string(), ReasonSlot::Gray))
    );
    assert_eq!(
        st.reason_band(&sect(true, false, false)).left,
        Some((TEXT_NOT_ENABLED.to_string(), ReasonSlot::Amber))
    );
    assert_eq!(st.reason_band(&sect(true, true, true)).right, Some(TEXT_REASON_LATCHED));
    assert_eq!(st.reason_band(&sect(false, true, true)).right, None);
}

#[test]
fn failures_name_their_reason() {
    let mut st = ReasonState::new();
    st.set_submitting(true);
    assert!(st.submitting);
    assert_eq!(st.reason_band(&sect(true, true, false)).left, None, "submitting has no text");
    let t = st.show_failure(FailureKind::RejectedPrecondition, "   ");
    assert!(!st.submitting);
    assert_eq!(t.text, TEXT_TOAST_FAIL);
    assert!(st.refresh_requested);
    let mut st = ReasonState::new();
    let t = st.show_audit_unavailable();
    assert_eq!(t.text, TEXT_AUDIT_UNAVAILABLE);
    assert_eq!(st.plain_reason, Some((TEXT_AUDIT_UNAVAILABLE.to_string(), ReasonSlot::Red)));
    assert!(!st.refresh_requested);
    let t = st.show_success(OpKind::Release);
    assert_eq!((t.tone, t.icon, t.text.as_str()), (ToastTone::Success, ICON_OK, TEXT_TOAST_RELEASED));
    assert_eq!(st.plain_reason, None);
    assert_eq!(st.show_success(OpKind::AckM1).text, TEXT_TOAST_ACKED);
}

#[test]
fn countdown_runs_down_from_its_first_tick() {
    let mut st = ReasonState::new();
    assert!(!st.tick(5_000));
    st.show_reject(InterlockReject::HoldNotElapsed { need_secs: 30, remaining_secs: 3 });
    assert!(!st.tick(10_000), "the first tick only takes the base");
    assert_eq!(st.countdown_secs(), Some(3));
    assert!(!st.tick(10_999));
    assert!(st.tick(11_000));
    assert_eq!(st.countdown_secs(), Some(2));
    assert!(st.tick(20_000));
    assert_eq!(st.countdown_secs(), Some(0));
    let frame = sect(true, true, false);
    let mut moved = frame.clone();
    moved.ts_ms = 99;
    assert!(!st.on_frame(&frame, &moved), "a heartbeat keeps the countdown");
    assert_eq!(st.countdown_secs(), Some(0));
    assert!(st.on_frame(&frame, &sect(true, true, true)));
    assert_eq!(st.countdown_secs(), None);
}

#[test]
fn submitting_gives_no_in_place_reason_even_when_latched() {
    let latched = sect(true, true, true);
    let busy = op_state(&latched, true);
    assert!(busy.release_disabled && busy.restart_disabled);
    assert_eq!(busy.release_reason, None);
    assert_eq!(busy.restart_reason, None);
    let idle = op_state(&latched, false);
    assert_eq!(idle.restart_reason, Some(TEXT_REASON_LATCHED));
    let mut st = ReasonState::new();
    st.set_submitting(true);
    assert_eq!(st.reason_band(&latched).right, None);
    st.set_submitting(false);
    assert_eq!(st.reason_band(&latched).right, Some(TEXT_REASON_LATCHED));
    let off = op_state(&sect(false, true, true), true);
    assert_eq!(off.restart_reason, Some(TEXT_STATE_UNAVAILABLE));
}
