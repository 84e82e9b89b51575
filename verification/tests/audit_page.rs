use mupc_pages::audit::{
    all_texts, canonical_ops, console_ops, footer_text, head_cols, list_view, list_view_of,
    newest_text, normalize_ops_selection, op_label_of, op_options, operator_text, reason_text,
    result_skin, result_text, row_order, selected_ops, side_text, summary_text, target_label,
    unknown_key_budget, unknown_key_label, value_text, AuditPage, AuditResult, AuditValue,
    ConsoleAuditEntry, ConsoleOp, ListView, OpOption, AUDIT_PAGE_SIZE, COEXIST_ROWS_PER_PAGE,
    CONSOLE_OPERATOR, HEAD_CHILD_COUNT, HEAD_COL_COUNT, HEAD_DIV_COUNT, KEY_GATEWAY_PORT,
    KEY_INTERLOCK_ACK_M1, KEY_INTERLOCK_RELEASE, KEY_LISTEN_ADDR, KEY_LOG_LEVEL, KEY_TELEMETRY,
    MEASURED_COEXIST_TOTAL_ROWS, MEASURED_ROW_CAPACITY, PLACEHOLDER, ROW_MAX, SUMMARY_MAX_CHARS,
    TEXT_EMPTY, TEXT_FIELD_LOG_LEVEL, TEXT_FIELD_PORT, TEXT_FIELD_TELEMETRY, TEXT_FOOTER_ALL,
    TEXT_FOOTER_LOADING, TEXT_LABEL_SEP, TEXT_LISTEN_ADDR, TEXT_NEWEST_PREFIX, TEXT_OPERATOR_LOCAL,
    TEXT_OPS_ALL, TEXT_PAIR_ARROW, TEXT_REASON_PREFIX, TEXT_UNAVAILABLE, TEXT_UNIT_FIELDS,
    TEXT_UNIT_ITEMS, TEXT_VALUE_OFF, TEXT_VALUE_ON, UNKNOWN_TARGET_MAX_CHARS,
    UNKNOWN_TARGET_MIN_CHARS,
};
use mupc_pages::clock::format_epoch_ms_utc;
use mupc_pages::palette::{ChipSkin, Palette, UnavailableKind};
use mupc_pages::text::{clip, clip_tail, display_safe, free_text_safe, TEXT_ELLIPSIS};

fn entry(op: ConsoleOp, result: AuditResult, target: &str) -> ConsoleAuditEntry {
    ConsoleAuditEntry {
        id: "a1b2c3d4-0000-0000-0000-000000000001".into(),
        ts_ms: 1_789_047_727_000,
        operator: CONSOLE_OPERATOR.into(),
        op,
        target: target.into(),
        before: None,
        after: None,
        result,
        reason: None,
        request_id: "0f7a3e10-1111-4222-8333-444455556666".into(),
    }
}

/// The labels of the registered target keys.
fn registered_labels() -> Vec<&'static str> {
    vec![
        TEXT_FIELD_PORT,
        TEXT_FIELD_LOG_LEVEL,
        TEXT_FIELD_TELEMETRY,
        TEXT_LISTEN_ADDR,
        ConsoleOp::InterlockRelease.label(),
        ConsoleOp::InterlockAckM1.label(),
    ]
}

#[test]
fn list_view_prefers_unavailable_over_empty() {
    let base = AuditPage {
        entries: Vec::new(),
        page: 1,
        page_size: AUDIT_PAGE_SIZE as u32,
        has_more: false,
        newest_ts_ms: None,
        available: false,
    };
    assert_eq!(list_view(&base), ListView::Unavailable, "unavailable");
    let empty_ok = AuditPage {
        available: true,
        ..base.clone()
    };
    assert_eq!(list_view(&empty_ok), ListView::Empty, "empty");
    assert_ne!(list_view(&base), list_view(&empty_ok));
    let with_rows = AuditPage {
        available: true,
        entries: vec![entry(ConsoleOp::ConfigApply, AuditResult::Success, "gateway.port")],
        newest_ts_ms: Some(1),
        ..base.clone()
    };
    assert_eq!(list_view(&with_rows), ListView::Rows);
    let unav_with_rows = AuditPage {
        available: false,
        ..with_rows
    };
    assert_eq!(list_view(&unav_with_rows), ListView::Unavailable);
}

#[test]
fn unavailable_text_comes_from_the_component_kind() {
    assert_eq!(UnavailableKind::Audit.title(), TEXT_UNAVAILABLE);
    assert_ne!(
        UnavailableKind::Audit.title(),
        TEXT_EMPTY,
        "unavailable and empty must read differently"
    );
    assert!(!UnavailableKind::Audit.means_nothing_happened());
}

#[test]
fn newest_never_fabricates_time() {
    let none = newest_text(None);
    assert!(none.contains(PLACEHOLDER), "no newest record: the placeholder (got {none})");
    assert!(!none.contains("1970"), "None is never the epoch (got {none})");
    assert!(!none.contains("20"), "no year digits at all (got {none})");
    let some = newest_text(Some(1_789_047_727_000));
    assert_eq!(some, format!("{TEXT_NEWEST_PREFIX}2026/09/10 13:42:07"));
    assert_ne!(some, none);
}

#[test]
fn result_chip_carries_text_and_color() {
    assert_eq!(result_text(AuditResult::Success), "● 成功");
    assert_eq!(result_text(AuditResult::Failed), "× 失败", "the font has × but not ✕");
    assert_ne!(result_text(AuditResult::Success), result_text(AuditResult::Failed));
    assert_eq!(result_skin(AuditResult::Success), ChipSkin::Success);
    assert_eq!(result_skin(AuditResult::Failed), ChipSkin::Failure);
    assert_ne!(result_skin(AuditResult::Success), result_skin(AuditResult::Failed));
}

#[test]
fn operator_text_maps_known_and_keeps_unknown_ascii_safe() {
    assert_eq!(operator_text(CONSOLE_OPERATOR), TEXT_OPERATOR_LOCAL);
    assert_ne!(operator_text(CONSOLE_OPERATOR), CONSOLE_OPERATOR, "machine names never reach the screen");
    assert_eq!(operator_text("LOCAL-CONSOLE"), TEXT_OPERATOR_LOCAL);
    assert_eq!(operator_text("debug"), "DEBUG");
    assert_eq!(operator_text("hmi"), "hMI");
    assert!(!operator_text("debug").chars().any(|c| c.is_ascii_lowercase()));
    assert_eq!(operator_text("本地控制台"), "本地控制台");
}

#[test]
fn target_label_is_known_set_or_none() {
    assert_eq!(target_label("gateway.port"), Some(TEXT_FIELD_PORT));
    assert_eq!(target_label("system.log_level"), Some(TEXT_FIELD_LOG_LEVEL));
    assert_eq!(target_label("telemetry.interval"), Some(TEXT_FIELD_TELEMETRY));
    assert_eq!(target_label("gateway.listen_addr"), Some(TEXT_LISTEN_ADDR));
    assert_eq!(
        target_label("interlock.release"),
        Some(ConsoleOp::InterlockRelease.label()),
        "interlock release key"
    );
    assert_eq!(
        target_label("interlock.ack_m1"),
        Some(ConsoleOp::InterlockAckM1.label()),
        "M1 authorisation key"
    );
    for unknown in ["display.publish_ms", "interlock.flood", ""] {
        assert_eq!(target_label(unknown), None, "unregistered key: no label is made up");
    }
    let keys: Vec<&str> = vec![
        KEY_GATEWAY_PORT,
        KEY_LOG_LEVEL,
        KEY_TELEMETRY,
        KEY_LISTEN_ADDR,
        KEY_INTERLOCK_RELEASE,
        KEY_INTERLOCK_ACK_M1,
    ];
    let mut uniq = keys.clone();
    uniq.sort_unstable();
    uniq.dedup();
    assert_eq!(keys.len(), uniq.len(), "the keys are unique");
    assert_eq!(keys.len(), 6, "four field keys and two interlock keys");
    for k in &keys {
        assert!(target_label(k).is_some());
    }
}

#[test]
fn unknown_target_key_is_shown_not_hidden() {
    let before = Some(AuditValue::Int(1));
    let after = Some(AuditValue::Int(2));
    let pair_len = "1 → 2".chars().count();
    let s = summary_text(before.as_ref(), after.as_ref(), "interlock.flood");
    let want_key = unknown_key_label("interlock.flood", pair_len);
    assert_eq!(s, format!("{want_key}: 1 → 2"), "the key's safe tail and the pair");
    assert!(s.contains("1 → 2"), "the pair is never crowded out (got {s})");
    assert!(s.starts_with(TEXT_ELLIPSIS), "a long key keeps its tail (got {s})");
    for label in registered_labels() {
        assert!(!s.contains(label), "an unregistered key never borrows `{label}` (got {s})");
    }
    for ch in display_safe("interlock.flood").chars() {
        assert!(ch.is_ascii(), "the fallback is ASCII (got {s})");
    }
    assert_eq!(
        summary_text(before.as_ref(), after.as_ref(), "interlock.release"),
        format!("{}: 1 → 2", ConsoleOp::InterlockRelease.label())
    );
    assert_eq!(summary_text(before.as_ref(), after.as_ref(), ""), "1 → 2");
}

#[test]
fn unknown_target_keys_are_distinguishable() {
    let before = Some(AuditValue::Int(2404));
    let after = Some(AuditValue::Int(2405));
    let a = summary_text(before.as_ref(), after.as_ref(), "interlock.flood");
    let b = summary_text(before.as_ref(), after.as_ref(), "interlock.force");
    let c = summary_text(before.as_ref(), after.as_ref(), "display.publish_ms");
    assert_ne!(a, b, "interlock.flood and interlock.force differ");
    assert_ne!(a, c, "interlock.flood and display.publish_ms differ");
    assert_ne!(b, c);
    for s in [&a, &b, &c] {
        assert!(s.contains("2404 → 2405"), "the pair survives whole (got {s})");
    }
    for s in [&a, &b, &c] {
        assert!(s.chars().count() <= SUMMARY_MAX_CHARS);
    }
}

#[test]
fn unknown_key_budget_prefers_the_value_pair() {
    assert_eq!(unknown_key_budget(1), UNKNOWN_TARGET_MAX_CHARS);
    assert_eq!(unknown_key_budget(11), UNKNOWN_TARGET_MIN_CHARS);
    assert_eq!(
        UNKNOWN_TARGET_MIN_CHARS + TEXT_LABEL_SEP.chars().count() + 11,
        SUMMARY_MAX_CHARS,
        "shortest prefix, separator and a realistic pair fill the summary"
    );
    assert_eq!(UNKNOWN_TARGET_MIN_CHARS, TEXT_ELLIPSIS.chars().count() + 2, "`...` and two characters");
    assert_eq!(unknown_key_budget(10_000), UNKNOWN_TARGET_MIN_CHARS);
}

#[test]
fn clip_never_exceeds_its_limit() {
    let long = "一二三四五六七八九十";
    for n in 0..=(long.chars().count() + 2) {
        let h = clip(long, n);
        assert!(h.chars().count() <= n, "clip(_, {n}) gave {} characters ({h})", h.chars().count());
        let t = clip_tail(long, n);
        assert!(t.chars().count() <= n, "clip_tail(_, {n}) gave {} characters ({t})", t.chars().count());
    }
    assert_eq!(clip(long, 0), "");
    assert_eq!(clip(long, 1), "一");
    assert_eq!(clip(long, 2), "一二");
    assert_eq!(clip_tail(long, 0), "");
    assert_eq!(clip_tail(long, 2), "九十", "keeps the tail");
    assert_eq!(clip(long, 10), long);
    assert_eq!(clip_tail(long, 10), long);
    assert_eq!(clip("一二三四五", 4), format!("一{TEXT_ELLIPSIS}"));
    assert_eq!(clip_tail("一二三四五", 4), format!("{TEXT_ELLIPSIS}五"));
    assert_eq!(clip_tail("一二三四五六七八", 6), format!("{TEXT_ELLIPSIS}六七八"));
    assert!(clip_tail(long, 4).is_char_boundary(clip_tail(long, 4).len()));
}

#[test]
fn row_order_is_time_desc() {
    let mk = |ts: u64| {
        let mut e = entry(ConsoleOp::ConfigApply, AuditResult::Success, "gateway.port");
        e.ts_ms = ts;
        e
    };
    let list = vec![mk(300), mk(100), mk(200)];
    assert_eq!(row_order(&list), vec![0, 2, 1], "newest first");
    let sorted = vec![mk(300), mk(200), mk(100)];
    assert_eq!(row_order(&sorted), vec![0, 1, 2]);
    let ties = vec![mk(100), mk(200), mk(100), mk(200)];
    assert_eq!(row_order(&ties), vec![1, 3, 0, 2], "ties keep their arrival order");
    assert_eq!(row_order(&[]), Vec::<usize>::new());
    assert_eq!(row_order(&[mk(1)]), vec![0]);
}

#[test]
fn row_pool_capacity_is_measured() {
    assert_eq!(MEASURED_ROW_CAPACITY, 22, "measured capacity of one page");
    assert_eq!(ROW_MAX, AUDIT_PAGE_SIZE, "exactly one page");
    assert_eq!(MEASURED_COEXIST_TOTAL_ROWS, 10, "measured total of two coexisting pages");
    assert_eq!(COEXIST_ROWS_PER_PAGE, 4, "four rows per page when coexisting");
}

#[test]
fn head_child_count_matches_spec() {
    assert_eq!(HEAD_CHILD_COUNT, 10, "five names, four separators, one rule");
    assert_eq!(HEAD_COL_COUNT, 5, "five columns");
    assert_eq!(HEAD_DIV_COUNT, HEAD_COL_COUNT - 1, "separators between columns");
    assert_eq!(HEAD_CHILD_COUNT, head_cols().len() + HEAD_DIV_COUNT + 1);
    assert_eq!(head_cols().len(), HEAD_COL_COUNT);
}

#[test]
fn none_is_placeholder_never_zero() {
    assert_eq!(side_text(None), PLACEHOLDER);
    assert_ne!(side_text(None), "0");
    assert_ne!(side_text(None), "");
    let s = summary_text(None, None, "gateway.port");
    assert!(s.contains(PLACEHOLDER));
    assert!(!s.trim().is_empty(), "never silently empty");
    assert!(!s.contains('0'), "never a made-up 0 (got {s})");
    assert_eq!(side_text(Some(&AuditValue::Null)), PLACEHOLDER);
}

#[test]
fn value_text_covers_every_json_shape() {
    assert_eq!(value_text(&AuditValue::Text("info".into())), "INFO", "small letters to capitals");
    assert_eq!(value_text(&AuditValue::Text("debug".into())), "DEBUG");
    assert_eq!(value_text(&AuditValue::Text("127.0.0.1".into())), "127.0.0.1");
    assert_eq!(value_text(&AuditValue::Int(2404)), "2404");
    assert_eq!(value_text(&AuditValue::Decimal("1.5".into())), "1.5");
    assert_eq!(value_text(&AuditValue::Int(-3)), "\u{2212}3", "the true minus sign");
    assert_eq!(value_text(&AuditValue::Bool(true)), TEXT_VALUE_ON);
    assert_eq!(value_text(&AuditValue::Bool(false)), TEXT_VALUE_OFF);
    assert_eq!(value_text(&AuditValue::Array(3)), format!("3 {TEXT_UNIT_ITEMS}"));
    assert_eq!(value_text(&AuditValue::Object(1)), format!("1 {TEXT_UNIT_FIELDS}"));
    assert_eq!(value_text(&AuditValue::Null), PLACEHOLDER);
    let arr = value_text(&AuditValue::Array(2));
    assert!(!arr.contains('?'));
    assert!(!arr.contains('['));
}

#[test]
fn summary_truncates_long_values() {
    let long = "x".repeat(200);
    let s = summary_text(Some(&AuditValue::Text(long)), None, "system.log_level");
    assert!(s.chars().count() <= SUMMARY_MAX_CHARS, "too long ({} characters: {s})", s.chars().count());
    assert!(s.ends_with(TEXT_ELLIPSIS), "the cut is marked (got {s})");
    assert!(s.starts_with(TEXT_FIELD_LOG_LEVEL), "the label prefix stays");
    let short = summary_text(Some(&AuditValue::Int(2404)), Some(&AuditValue::Int(2405)), "gateway.port");
    assert_eq!(short, "端口: 2404 → 2405", "the row example");
    assert!(!short.contains(TEXT_ELLIPSIS));
    let zh = summary_text(Some(&AuditValue::Text("一二三四五六七八九十".repeat(3))), None, "");
    assert!(zh.chars().count() <= SUMMARY_MAX_CHARS);
    assert!(zh.is_char_boundary(zh.len()));
}

#[test]
fn reason_only_on_failed_rows() {
    assert_eq!(
        reason_text(AuditResult::Failed, Some("触发源未复位：estop")),
        Some(format!("{TEXT_REASON_PREFIX}触发源未复位:Es?OP"))
    );
    assert_eq!(free_text_safe("a，b；c（d）e：f、g"), "A\u{00B7}B\u{00B7}C\u{00B7}D\u{00B7}E:F/G");
    assert_eq!(reason_text(AuditResult::Failed, None), None);
    assert_eq!(reason_text(AuditResult::Failed, Some("   ")), None, "a blank reason is not shown");
    assert_eq!(
        reason_text(AuditResult::Success, Some("不该出现的原因")),
        None,
        "a success row never shows a reason"
    );
    let mut ok = entry(ConsoleOp::ConfigApply, AuditResult::Success, "gateway.port");
    ok.reason = Some("矛盾".into());
    assert_eq!(reason_text(ok.result, ok.reason.as_deref()), None);
}

#[test]
fn machine_only_fields_never_reach_screen() {
    let e = entry(ConsoleOp::InterlockRelease, AuditResult::Failed, "interlock.release");
    let rendered = format!(
        "{}{}{}{}",
        format_epoch_ms_utc(e.ts_ms),
        operator_text(&e.operator),
        summary_text(e.before.as_ref(), e.after.as_ref(), &e.target),
        reason_text(e.result, e.reason.as_deref()).unwrap_or_default()
    );
    assert!(!rendered.contains(&e.id), "the record id is not shown");
    assert!(!rendered.contains(&e.request_id), "the request id is not shown");
    assert!(!rendered.contains(&e.target), "a registered key shows its label (got {rendered})");
    assert!(
        rendered.contains(ConsoleOp::InterlockRelease.label()),
        "a registered key shows its label (got {rendered})"
    );
    let raw = "interlock.flood";
    let pair = format!("{PLACEHOLDER}{TEXT_PAIR_ARROW}{PLACEHOLDER}");
    let shown = summary_text(e.before.as_ref(), e.after.as_ref(), raw);
    assert!(!shown.contains(raw), "the raw key is not shown (got {shown})");
    assert!(
        shown.starts_with(&unknown_key_label(raw, pair.chars().count())),
        "an unregistered key shows its safe tail (got {shown})"
    );
}

#[test]
fn footer_reflects_has_more() {
    assert_eq!(footer_text(true, 3), Some(TEXT_FOOTER_LOADING));
    assert_eq!(footer_text(false, 3), Some(TEXT_FOOTER_ALL));
    assert_eq!(footer_text(true, 0), None, "no footer without rows");
    assert_eq!(footer_text(false, 0), None);
    assert_ne!(TEXT_FOOTER_LOADING, TEXT_FOOTER_ALL);
}

#[test]
fn op_options_prepends_all_and_canonical_matches_contract() {
    let canon = canonical_ops();
    let all = console_ops();
    assert_eq!(canon.len(), all.len());
    for (i, op) in all.iter().enumerate() {
        assert_eq!(canon[i].op, *op);
        assert_eq!(canon[i].label, op.label(), "default label = the operation's label");
    }
    let opts = op_options(&canon);
    assert_eq!(opts.len(), all.len() + 1);
    assert_eq!(opts[0], TEXT_OPS_ALL, "\"all\" comes first");
    assert_eq!(opts[1], ConsoleOp::ConfigApply.label());
    let injected = vec![OpOption {
        op: ConsoleOp::ConfigApply,
        label: "debug".into(),
    }];
    assert_eq!(op_options(&injected)[1], "DEBUG");
}

#[test]
fn op_label_prefers_injected_then_contract() {
    let injected = vec![OpOption {
        op: ConsoleOp::InterlockAckM1,
        label: "M1 授权重启".into(),
    }];
    assert_eq!(op_label_of(ConsoleOp::InterlockAckM1, &injected), "M1 授权重启");
    assert_eq!(
        op_label_of(ConsoleOp::InterlockAckM1, &[]),
        ConsoleOp::InterlockAckM1.label(),
        "nothing injected: the operation's own label"
    );
}

#[test]
fn normalize_selection_rules() {
    assert_eq!(normalize_ops_selection(&[2], &[2, 0]), vec![0]);
    assert_eq!(normalize_ops_selection(&[], &[0]), vec![0]);
    assert_eq!(normalize_ops_selection(&[0], &[0, 2]), vec![2]);
    assert_eq!(normalize_ops_selection(&[], &[1, 3]), vec![1, 3]);
    assert_eq!(normalize_ops_selection(&[1, 2], &[1]), vec![1]);
    assert_eq!(normalize_ops_selection(&[0, 2], &[0, 2]), vec![2]);
    assert_eq!(normalize_ops_selection(&[0], &[]), Vec::<usize>::new());
}

#[test]
fn selected_ops_maps_and_drops_out_of_range() {
    let opts = canonical_ops();
    assert_eq!(selected_ops(&[0], &opts), Vec::<ConsoleOp>::new(), "\"all\" filters nothing");
    assert_eq!(
        selected_ops(&[1, 3], &opts),
        vec![ConsoleOp::ConfigApply, ConsoleOp::InterlockRelease]
    );
    assert_eq!(selected_ops(&[99], &opts), Vec::<ConsoleOp>::new());
    assert_eq!(selected_ops(&[0, 99], &opts), Vec::<ConsoleOp>::new());
    assert_eq!(selected_ops(&[1], &[]), Vec::<ConsoleOp>::new());
}

#[test]
fn audit_banner_hue_is_exclusive() {
    let (bg, accent) = (Palette::audit_bg(), Palette::soc_ok());
    assert_eq!((bg.r, bg.g, bg.b), (0x14, 0x23, 0x1F), "banner background #14231F");
    assert_eq!((accent.r, accent.g, accent.b), (0x35, 0xD0, 0xC4), "accent bar #35D0C4");
    assert_ne!(accent, Palette::danger(), "the accent is not the danger colour");
    assert_eq!(accent, Palette::soc_ok());
}

#[test]
fn audit_all_texts_are_non_empty_and_drawable() {
    let texts = all_texts();
    assert_eq!(texts.len(), 33);
    for t in &texts {
        assert!(!t.is_empty());
        assert_eq!(&display_safe(t), t, "`{t}` must be drawable as it is");
    }
}

#[test]
fn list_view_of_counts_rows() {
    assert_eq!(list_view_of(false, 5), ListView::Unavailable);
    assert_eq!(list_view_of(true, 0), ListView::Empty);
    assert_eq!(list_view_of(true, 1), ListView::Rows);
}

#[test]
fn value_text_writes_extreme_integers() {
    assert_eq!(value_text(&AuditValue::Int(i64::MIN)), "\u{2212}9223372036854775808");
    assert_eq!(value_text(&AuditValue::Int(i64::MAX)), "9223372036854775807");
    assert_eq!(value_text(&AuditValue::Int(0)), "0");
    assert_eq!(value_text(&AuditValue::Text("a_b".into())), "A\u{2013}B");
}

#[test]
fn selected_ops_collapses_adjacent_repeats() {
    let opts = vec![
        OpOption { op: ConsoleOp::ConfigApply, label: "a".into() },
        OpOption { op: ConsoleOp::ConfigApply, label: "b".into() },
        OpOption { op: ConsoleOp::ConfigReset, label: "c".into() },
    ];
    assert_eq!(selected_ops(&[1, 2, 3], &opts), vec![ConsoleOp::ConfigApply, ConsoleOp::ConfigReset]);
}

#[test]
fn op_label_uses_the_first_injected_option() {
    let opts = vec![
        OpOption { op: ConsoleOp::ConfigReset, label: "first".into() },
        OpOption { op: ConsoleOp::ConfigReset, label: "second".into() },
    ];
    assert_eq!(op_label_of(ConsoleOp::ConfigReset, &opts), display_safe("first"));
    assert_eq!(op_label_of(ConsoleOp::ConfigApply, &opts), ConsoleOp::ConfigApply.label());
}

#[test]
fn reason_is_trimmed_before_it_is_shown() {
    assert_eq!(
        reason_text(AuditResult::Failed, Some("  io error \n")),
        Some(format!("{TEXT_REASON_PREFIX}IO ERROR"))
    );
}

#[test]
fn summary_of_missing_values_reads_placeholder_pair() {
    assert_eq!(
        summary_text(None, Some(&AuditValue::Bool(true)), "telemetry.interval"),
        format!("{TEXT_FIELD_TELEMETRY}: {PLACEHOLDER} → {TEXT_VALUE_ON}")
    );
}
