use mupc_pages::interlock::{
    all_texts, dialog_details, drill_cell_w, drill_cell_x, drill_col_w, drill_col_x, gray_color,
    hold_text, lamp_off_color, lamp_on_color, lamp_view, lamp_x, latch_chip, latch_chip_icon,
    op_payload, op_state, reject_text, section_display_eq, source_label, source_status_text,
    sources_overflow_note, sources_text, sources_title, state_color, state_icon, state_index,
    state_text, state_view, state_view_order, stop_view, tri_view, InterlockReject,
    InterlockSection, InterlockSourceItem, OpKind, ReasonSlot, StateView, TriView, CONTENT_W,
    DRILL_CELLS, DRILL_COLS, ICON_FILLED, ICON_HOLLOW, ICON_STATE_LATCHED,
    ICON_STATE_UNAVAILABLE, ICON_STATE_UNLATCHED, SOURCE_ROW_POOL, TEXT_DETAIL_LATCH,
    TEXT_DETAIL_SOURCES, TEXT_DETAIL_STOP, TEXT_DIALOG_TITLE_ACK_M1, TEXT_DIALOG_TITLE_RELEASE,
    TEXT_HOLD_MORE, TEXT_INTERNAL, TEXT_LAMP_OFF, TEXT_LAMP_ON, TEXT_LAMP_UNKNOWN,
    TEXT_LATCH_HELD, TEXT_LATCH_UNHELD, TEXT_NONE, TEXT_NOT_ENABLED, TEXT_OP_BUSY,
    TEXT_REASON_LATCHED, TEXT_REJECT_HOLD, TEXT_REJECT_SOURCES, TEXT_SRC_DOOR, TEXT_SRC_ESTOP,
    TEXT_SRC_TRIPPED, TEXT_SRC_UNTRIPPED, TEXT_STATE_UNAVAILABLE, TEXT_STATE_UNAVAILABLE_SHORT,
    TEXT_STATE_UNLATCHED, TEXT_STOP_FAIL, TEXT_STOP_OK, TEXT_STOP_PENDING,
    TEXT_STOP_PENDING_TRAIL, TEXT_TOAST_ACKED, TEXT_TOAST_RELEASED,
};
use mupc_pages::palette::{ChipSkin, Color, Palette, UnavailableKind};
use mupc_pages::text::display_safe;

/// The ASCII characters the panel font can draw.
const ASCII_DISPLAY_ALPHABET: &str = "ABCDEFGIMNOPRSUWhks0123456789 !%+./:?";

fn sect(available: bool, enabled: bool, latched: bool) -> InterlockSection {
    InterlockSection {
        available,
        enabled,
        latched,
        ..Default::default()
    }
}

fn sect_with_sources() -> InterlockSection {
    InterlockSection {
        available: true,
        enabled: true,
        latched: true,
        sources: vec![
            InterlockSourceItem {
                name: "estop".into(),
                tripped: true,
            },
            InterlockSourceItem {
                name: "door".into(),
                tripped: false,
            },
        ],
        ..Default::default()
    }
}

#[test]
fn unavailable_state_never_falls_back_to_unlatched() {
    let d = InterlockSection::default();
    assert!(!d.available);
    assert_eq!(state_view(&d), StateView::Unavailable);
    assert_eq!(state_text(state_view(&d)), TEXT_STATE_UNAVAILABLE_SHORT);
    assert_ne!(TEXT_STATE_UNAVAILABLE_SHORT, TEXT_STATE_UNAVAILABLE);
    assert_ne!(state_text(state_view(&d)), TEXT_STATE_UNLATCHED);
    let u = sect(false, true, false);
    assert_eq!(state_view(&u), StateView::Unavailable);
    let u2 = sect(false, true, true);
    assert_eq!(state_view(&u2), StateView::Unavailable);
    assert_eq!(state_view(&sect(true, true, true)), StateView::Latched);
    assert_eq!(state_view(&sect(true, true, false)), StateView::Unlatched);
    assert_eq!(state_view(&sect(true, false, false)), StateView::Unlatched);
}

#[test]
fn three_states_are_visually_distinguishable() {
    let all = state_view_order();
    for i in 0..all.len() {
        for j in (i + 1)..all.len() {
            assert_ne!(state_text(all[i]), state_text(all[j]));
            assert_ne!(state_icon(all[i]), state_icon(all[j]));
            assert_ne!(state_color(all[i]), state_color(all[j]));
        }
    }
    assert_eq!(state_color(StateView::Latched), Palette::danger());
    assert_eq!(state_color(StateView::Unlatched), Palette::ok());
    assert_eq!(state_color(StateView::Unavailable), Palette::stopped());
    assert_ne!(state_icon(StateView::Unavailable), ICON_STATE_UNLATCHED);
    assert_ne!(state_icon(StateView::Unavailable), ICON_STATE_LATCHED);
}

#[test]
fn unavailable_text_and_icon_share_the_component_source() {
    let kind = UnavailableKind::Interlock;
    assert_eq!(TEXT_STATE_UNAVAILABLE, kind.title());
    assert_eq!(ICON_STATE_UNAVAILABLE, kind.icon());
    assert_eq!(gray_color(), kind.accent());
    assert!(!kind.means_nothing_happened());
}

#[test]
fn latch_chip_never_says_unheld_when_unavailable() {
    let (idx, text, skin) = latch_chip(StateView::Unavailable);
    assert_eq!(idx, 2);
    assert_eq!(text, TEXT_STATE_UNAVAILABLE);
    assert_ne!(text, TEXT_LATCH_UNHELD);
    assert_eq!(skin, ChipSkin::Unavailable);
    let (i0, t0, s0) = latch_chip(StateView::Latched);
    let (i1, t1, s1) = latch_chip(StateView::Unlatched);
    assert_eq!((i0, t0, s0), (0, TEXT_LATCH_HELD, ChipSkin::Warning));
    assert_eq!((i1, t1, s1), (1, TEXT_LATCH_UNHELD, ChipSkin::Neutral));
    for (i, v) in state_view_order().iter().enumerate() {
        assert_eq!(latch_chip(*v).0, i, "slot order must follow the state order");
        assert_eq!(state_index(*v), i);
    }
    assert_eq!(latch_chip_icon(StateView::Unavailable), ICON_STATE_UNAVAILABLE);
    assert_ne!(latch_chip_icon(StateView::Unavailable), ICON_STATE_UNLATCHED);
}

#[test]
fn button_matrix_follows_reject_table() {
    let ok = op_state(&sect(true, true, false), false);
    assert!(!ok.release_disabled && !ok.restart_disabled);
    assert_eq!(ok.release_reason, None);
    assert_eq!(ok.restart_reason, None);

    let na = op_state(&sect(false, true, true), false);
    assert!(na.release_disabled && na.restart_disabled);
    assert_eq!(na.release_reason, Some(TEXT_STATE_UNAVAILABLE));
    assert_eq!(na.restart_reason, Some(TEXT_STATE_UNAVAILABLE));

    let off = op_state(&sect(true, false, false), false);
    assert!(off.release_disabled && off.restart_disabled);
    assert_eq!(off.release_reason, Some(TEXT_NOT_ENABLED));
    assert_eq!(off.restart_reason, Some(TEXT_NOT_ENABLED));

    let la = op_state(&sect(true, true, true), false);
    assert!(!la.release_disabled, "the release is never disabled by the latch");
    assert_eq!(la.release_reason, None);
    assert!(la.restart_disabled);
    assert_eq!(la.restart_reason, Some(TEXT_REASON_LATCHED));

    let mut sf = sect(true, true, false);
    sf.stop_failed = true;
    let sf = op_state(&sf, false);
    assert!(!sf.release_disabled);
    assert!(!sf.restart_disabled, "stop_failed must not disable M1 locally");
    assert_eq!(sf.restart_reason, None, "stop_failed must not give a local reason");
    assert_eq!(stop_view(true), (TEXT_STOP_FAIL, 1));

    let busy = op_state(&sect(true, true, false), true);
    assert!(busy.release_disabled && busy.restart_disabled);
    assert_eq!(busy.release_reason, None);
    assert_eq!(busy.restart_reason, None);

    let both = op_state(&sect(false, true, true), false);
    assert_eq!(both.restart_reason, Some(TEXT_STATE_UNAVAILABLE));
}

#[test]
fn none_means_unknown_not_off() {
    assert_eq!(tri_view(None), TriView::Unknown);
    assert_eq!(tri_view(Some(true)), TriView::On);
    assert_eq!(tri_view(Some(false)), TriView::Off);
    let (t, slot) = lamp_view(tri_view(None));
    assert_eq!(t, TEXT_LAMP_UNKNOWN);
    assert_ne!(t, TEXT_LAMP_OFF, "an unknown lamp is not an unlit lamp");
    assert_eq!(slot, 2, "unknown shares the grey slot");
    assert_eq!(lamp_view(TriView::On), (TEXT_LAMP_ON, 0));
    assert_eq!(lamp_view(TriView::Off), (TEXT_LAMP_OFF, 1));
    assert_eq!(lamp_on_color(true), Palette::link_down());
    assert_eq!(lamp_on_color(false), Palette::link_ok());
    assert_eq!(lamp_off_color(), Palette::link_unconfigured());
    assert_eq!(stop_view(false), (TEXT_STOP_OK, 0));
    assert_eq!(stop_view(true), (TEXT_STOP_FAIL, 1));
    assert!(!TEXT_STOP_OK.contains(ICON_STATE_LATCHED), "the normal state never reuses the warning sign");
}

#[test]
fn source_label_maps_known_and_keeps_unknown_ascii_safe() {
    assert_eq!(source_label("estop"), TEXT_SRC_ESTOP);
    assert_eq!(source_label("door"), TEXT_SRC_DOOR);
    assert_eq!(source_label("ESTOP"), TEXT_SRC_ESTOP, "upper-case machine names still map");
    assert_eq!(source_label("Door"), TEXT_SRC_DOOR, "mixed case still maps");
    assert_eq!(source_label("e_stop"), display_safe("e_stop"));
    assert_ne!(source_label("e_stop"), TEXT_SRC_ESTOP);
    for raw in ["flood", "fire", "unknown_src", "di3"] {
        let shown = source_label(raw);
        assert!(!shown.is_empty(), "{raw} must not show an empty name");
        assert_ne!(shown, TEXT_SRC_ESTOP, "{raw} must not pose as the e-stop");
        assert_ne!(shown, TEXT_SRC_DOOR);
        assert_eq!(shown, display_safe(raw), "unregistered names go through display_safe");
    }
    for raw in ["flood", "no_such_source", "ABC", "di-3"] {
        for c in source_label(raw).chars() {
            if c.is_ascii() {
                assert!(
                    ASCII_DISPLAY_ALPHABET.contains(c),
                    "{raw} shows the undrawable ASCII `{c}`"
                );
            }
        }
    }
    assert_eq!(source_label(TEXT_SRC_ESTOP), TEXT_SRC_ESTOP);
    assert_eq!(source_status_text(true), TEXT_SRC_TRIPPED);
    assert_eq!(source_status_text(false), TEXT_SRC_UNTRIPPED);
    assert_eq!(SOURCE_ROW_POOL, 4);
}

#[test]
fn every_reject_variant_has_specific_inplace_text() {
    let t = reject_text(&InterlockReject::SourcesNotReset {
        remaining: vec!["estop".into(), "door".into()],
    });
    assert!(t.starts_with(TEXT_REJECT_SOURCES));
    assert!(t.contains(TEXT_SRC_ESTOP) && t.contains(TEXT_SRC_DOOR), "got: {t}");
    assert!(!t.contains("estop"), "machine names never reach the screen: {t}");
    assert_eq!(t, "触发源未复位 · 急停/门禁");
    assert_eq!(
        reject_text(&InterlockReject::SourcesNotReset { remaining: vec![] }),
        TEXT_REJECT_SOURCES
    );

    let t = reject_text(&InterlockReject::HoldNotElapsed {
        need_secs: 30,
        remaining_secs: 12,
    });
    assert!(t.contains("12") && t.contains("30"), "got: {t}");
    assert!(t.contains(TEXT_REJECT_HOLD));

    assert_eq!(reject_text(&InterlockReject::Latched), TEXT_REASON_LATCHED);

    let t = reject_text(&InterlockReject::StopPending);
    assert!(t.starts_with(TEXT_STOP_PENDING));
    assert!(t.contains(TEXT_STOP_PENDING_TRAIL));

    assert_eq!(reject_text(&InterlockReject::NotEnabled), TEXT_NOT_ENABLED);

    assert_eq!(reject_text(&InterlockReject::Busy), TEXT_OP_BUSY);

    let t = reject_text(&InterlockReject::Internal("io-3".into()));
    assert!(t.starts_with(TEXT_INTERNAL));
    assert!(t.contains(&display_safe("io-3")), "got: {t}");

    let all = [
        reject_text(&InterlockReject::SourcesNotReset {
            remaining: vec!["estop".into()],
        }),
        reject_text(&InterlockReject::HoldNotElapsed {
            need_secs: 30,
            remaining_secs: 12,
        }),
        reject_text(&InterlockReject::Latched),
        reject_text(&InterlockReject::StopPending),
        reject_text(&InterlockReject::NotEnabled),
        reject_text(&InterlockReject::Busy),
        reject_text(&InterlockReject::Internal("io-3".into())),
    ];
    assert_eq!(all.len(), 7, "every variant has its case");
    for i in 0..all.len() {
        assert!(!all[i].is_empty(), "variant {i} has an empty text");
        for j in (i + 1)..all.len() {
            assert_ne!(all[i], all[j], "variants {i} and {j} read the same");
        }
    }
}

#[test]
fn hold_countdown_text_carries_seconds() {
    assert_eq!(hold_text(12), "保持时间不足 · 还需 12 秒");
    assert_eq!(hold_text(0), "保持时间不足 · 还需 0 秒");
    assert!(hold_text(7).contains(TEXT_HOLD_MORE));
}

#[test]
fn payload_carries_machine_names_and_observed_latch() {
    let s = sect_with_sources();
    let p = op_payload(&s);
    assert!(p.observed_latched, "the observed latch bit");
    assert_eq!(p.observed_sources, vec!["estop".to_string(), "door".to_string()]);
    assert!(
        !p.observed_sources.iter().any(|n| n == TEXT_SRC_ESTOP),
        "the payload carries machine names, not screen labels"
    );
    assert_eq!(p.observed_sources.len(), s.sources.len());
    let d = op_payload(&InterlockSection::default());
    assert!(!d.observed_latched && d.observed_sources.is_empty());
}

#[test]
fn sources_text_maps_and_handles_empty() {
    assert_eq!(sources_text(&sect_with_sources()), "急停/门禁");
    let mut empty = InterlockSection::default();
    empty.sources.clear();
    assert_eq!(sources_text(&empty), TEXT_NONE);
}

#[test]
fn sources_title_carries_count() {
    assert_eq!(sources_title(0), "触发源 · 0");
    assert_eq!(sources_title(2), "触发源 · 2");
    assert!(sources_title(11).contains("11"));
}

#[test]
fn sources_overflow_is_visibly_stated() {
    for n in 0..=SOURCE_ROW_POOL {
        assert_eq!(sources_overflow_note(n), "", "{n} sources fit: no note");
    }
    assert_eq!(
        sources_overflow_note(SOURCE_ROW_POOL + 1),
        " · 还有 1 条",
        "the fifth source must be stated on screen"
    );
    assert!(sources_overflow_note(SOURCE_ROW_POOL + 3).contains('3'), "7 sources: 3 left out");
    assert_eq!(SOURCE_ROW_POOL, 4, "the row pool stays");
}

#[test]
fn section_display_eq_ignores_only_ts_ms() {
    let mut a = sect(true, true, true);
    a.ts_ms = 1_000;
    let mut b = a.clone();
    b.ts_ms = 2_000;
    assert!(section_display_eq(&a, &b), "only ts_ms changed: the same frame");
    for mut c in [
        sect(false, true, true),
        sect(true, false, true),
        sect(true, true, false),
    ] {
        c.ts_ms = 1_000;
        assert!(!section_display_eq(&a, &c), "a shown field changed: a new frame");
    }
    let mut sf = a.clone();
    sf.stop_failed = true;
    assert!(!section_display_eq(&a, &sf));
    let mut src = a.clone();
    src.sources = vec![InterlockSourceItem {
        name: "estop".into(),
        tripped: true,
    }];
    assert!(!section_display_eq(&a, &src));
    let mut lamp = a.clone();
    lamp.fault_lamp = Some(true);
    assert!(!section_display_eq(&a, &lamp));
    let mut hold = a.clone();
    hold.release_hold_secs = 30;
    assert!(!section_display_eq(&a, &hold));
}

#[test]
fn dialog_details_list_three_rows() {
    let s = sect_with_sources();
    let d = dialog_details(&s, OpKind::Release);
    assert_eq!(d.len(), 3);
    assert_eq!(d[0].field, TEXT_DETAIL_SOURCES);
    assert_eq!(d[0].before, "急停/门禁");
    assert_eq!(d[1].field, TEXT_DETAIL_LATCH);
    assert_eq!(d[1].before, TEXT_LATCH_HELD, "currently held");
    assert_eq!(d[1].after, TEXT_LATCH_UNHELD, "after the release: not held");
    assert_eq!(d[2].field, TEXT_DETAIL_STOP);
    assert_eq!(d[2].before, d[2].after, "the release leaves the stop state");
    assert_eq!(d[0].after, TEXT_NONE);

    let m = dialog_details(&s, OpKind::AckM1);
    assert_eq!(m.len(), 3);
    assert_eq!(m[2].after, TEXT_STOP_OK, "after the restart the stop state is normal");
    assert_eq!(m[0].before, m[0].after, "M1 leaves the sources");
    assert_eq!(OpKind::Release.dialog_title(), TEXT_DIALOG_TITLE_RELEASE);
    assert_eq!(OpKind::AckM1.dialog_title(), TEXT_DIALOG_TITLE_ACK_M1);
    assert_ne!(OpKind::Release.impact(), OpKind::AckM1.impact());
    for op in [OpKind::Release, OpKind::AckM1] {
        assert!(op.impact().contains("装置"), "the impact names the plant");
    }
}

#[test]
fn runtime_texts_are_cmap_safe() {
    let samples: Vec<String> = vec![
        sources_title(0),
        sources_title(3),
        sources_overflow_note(0),
        sources_overflow_note(SOURCE_ROW_POOL + 1),
        sources_overflow_note(SOURCE_ROW_POOL + 12),
        hold_text(0),
        hold_text(12),
        source_label("estop"),
        source_label("flood"),
        source_label("no_such_src"),
        source_status_text(true).to_string(),
        source_status_text(false).to_string(),
        reject_text(&InterlockReject::SourcesNotReset {
            remaining: vec!["estop".into(), "door".into(), "flood".into()],
        }),
        reject_text(&InterlockReject::HoldNotElapsed {
            need_secs: 30,
            remaining_secs: 12,
        }),
        reject_text(&InterlockReject::Latched),
        reject_text(&InterlockReject::StopPending),
        reject_text(&InterlockReject::NotEnabled),
        reject_text(&InterlockReject::Busy),
        reject_text(&InterlockReject::Internal("io-3".into())),
        sources_text(&sect_with_sources()),
    ]
    .into_iter()
    .chain(all_texts().iter().map(|t| (*t).to_string()))
    .collect();
    assert!(samples.len() > 60, "too few samples");
    for s in &samples {
        for c in s.chars() {
            if c.is_ascii() {
                assert!(
                    ASCII_DISPLAY_ALPHABET.contains(c),
                    "runtime text `{s}` holds the undrawable ASCII `{c}`"
                );
            }
        }
        assert_eq!(&display_safe(s), s, "text `{s}` is changed by display_safe");
    }
}

#[test]
fn all_texts_manifest_is_sane() {
    let texts = all_texts();
    assert!(texts.len() > 50, "too few entries");
    for t in &texts {
        assert!(!t.is_empty(), "no empty entry");
    }
    assert!(texts.iter().all(|t| !t.starts_with("--")));
}

#[test]
fn latch_chip_icons_are_filled_hollow_and_question() {
    assert_eq!(latch_chip_icon(StateView::Latched), ICON_FILLED);
    assert_eq!(latch_chip_icon(StateView::Unlatched), ICON_HOLLOW);
    assert_eq!(latch_chip_icon(StateView::Unavailable), "?");
}

#[test]
fn state_colors_are_exact_palette_values() {
    assert_eq!(state_color(StateView::Latched), Color { r: 0xFF, g: 0x6B, b: 0x6B });
    assert_eq!(state_color(StateView::Unlatched), Color { r: 0x2F, g: 0xDB, b: 0x8A });
    assert_eq!(gray_color(), Color { r: 0x8C, g: 0x98, b: 0xAC });
    assert_eq!(lamp_on_color(true), Color { r: 0xDC, g: 0x35, b: 0x45 });
    assert_eq!(lamp_off_color(), Color { r: 0x5F, g: 0x63, b: 0x68 });
}

#[test]
fn reject_texts_read_exactly() {
    assert_eq!(
        reject_text(&InterlockReject::HoldNotElapsed {
            need_secs: 30,
            remaining_secs: 12,
        }),
        "保持时间不足 · 还需 12 秒 · 须保持 30 秒"
    );
    assert_eq!(reject_text(&InterlockReject::StopPending), "停机未确认 · 暂不可授权重启");
    assert_eq!(reject_text(&InterlockReject::Internal("io-3".into())), "内部故障 · IO?3");
    assert_eq!(
        reject_text(&InterlockReject::SourcesNotReset {
            remaining: vec!["estop".into(), "flood".into()],
        }),
        "触发源未复位 · 急停/F?OOD"
    );
}

#[test]
fn overflow_note_states_the_exact_difference() {
    assert_eq!(sources_overflow_note(SOURCE_ROW_POOL + 12), " · 还有 12 条");
    assert_eq!(sources_overflow_note(100), " · 还有 96 条");
}

#[test]
fn display_eq_is_reflexive_and_symmetric_on_examples() {
    let a = sect_with_sources();
    let mut b = a.clone();
    b.ts_ms = 99;
    assert!(section_display_eq(&a, &a));
    assert_eq!(section_display_eq(&a, &b), section_display_eq(&b, &a));
    let mut c = a.clone();
    c.sources[1].tripped = true;
    assert!(!section_display_eq(&a, &c));
    assert!(!section_display_eq(&c, &a));
}

#[test]
fn dialog_details_follow_the_section_state() {
    let mut s = sect(true, true, false);
    s.stop_failed = true;
    let d = dialog_details(&s, OpKind::Release);
    assert_eq!(d[0].before, TEXT_NONE);
    assert_eq!(d[1].before, TEXT_LATCH_UNHELD);
    assert_eq!(d[2].before, TEXT_STOP_FAIL);
    assert_eq!(d[2].after, TEXT_STOP_FAIL);
    let m = dialog_details(&s, OpKind::AckM1);
    assert_eq!(m[1].before, m[1].after);
    assert_eq!(m[2].before, TEXT_STOP_FAIL);
    assert_eq!(m[2].after, TEXT_STOP_OK);
}

#[test]
fn toasts_and_reason_slots() {
    assert_eq!(OpKind::Release.toast_ok(), TEXT_TOAST_RELEASED);
    assert_eq!(OpKind::AckM1.toast_ok(), TEXT_TOAST_ACKED);
    assert_eq!(ReasonSlot::Gray.index(), 0);
    assert_eq!(ReasonSlot::Amber.index(), 1);
    assert_eq!(ReasonSlot::Red.index(), 2);
}

#[test]
fn drill_table_tiles_the_content_width() {
    for i in 0..DRILL_COLS - 1 {
        assert_eq!(drill_col_x(i) + drill_col_w(i), drill_col_x(i + 1));
    }
    assert_eq!(drill_col_x(DRILL_COLS - 1) + drill_col_w(DRILL_COLS - 1), CONTENT_W);
    for i in 0..DRILL_CELLS - 1 {
        assert_eq!(drill_cell_x(i) + drill_cell_w(i), drill_cell_x(i + 1));
    }
    assert_eq!(drill_cell_x(DRILL_CELLS - 1) + drill_cell_w(DRILL_CELLS - 1), CONTENT_W);
    assert_eq!(drill_col_w(2), 328);
    assert_eq!(drill_cell_w(2) + drill_cell_w(3), drill_col_w(2));
    assert_eq!(lamp_x(0), 0);
    assert_eq!(lamp_x(2), 504);
}
