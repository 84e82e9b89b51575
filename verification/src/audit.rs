//! The read-only audit page: list state, row order, the on-screen texts of
//! each audit entry (operator, value pair, result, failure reason) and the
//! operation-type filter.
use vstd::prelude::*;

use crate::clock::{datetime_ms, datetime_to_epoch_ms, epoch_text, push_epoch, valid_datetime, DateTimeValue};
use crate::interlock::{CONTENT_W, GAP_MIN};
use crate::palette::{rgb, ChipSkin, Color, Palette, Swatch};
use crate::text::{
    chars_of, clip_chars, clip_spec, clip_tail_chars, clip_tail_spec, decimal, display_safe,
    display_safe_spec, eq_ignore_ascii_case, eq_ignore_ascii_case_spec, free_text_safe,
    free_text_safe_spec, int_text, lemma_clip_within_limit, owned, push_decimal,
    push_display_safe, push_free_text_chars, push_int, push_str, str_eq, string_from_chars,
    trim_chars, trim_spec,
};

verus! {

// ── Screen texts ───────────────────────────────────────────────────────────

pub const TEXT_NEWEST_PREFIX: &'static str = "最近一条审计: ";

pub const TEXT_IMMUTABLE: &'static str = "审计记录仅追加 · 不可修改或删除";

pub const TEXT_LOCK_ICON: &'static str = "■";

pub const TEXT_OPS_LABEL: &'static str = "操作类型";

pub const TEXT_OPS_ALL: &'static str = "全部";

pub const TEXT_HEAD_TIME: &'static str = "时间";

pub const TEXT_HEAD_OPERATOR: &'static str = "操作者";

pub const TEXT_HEAD_OP: &'static str = "操作类型";

pub const TEXT_HEAD_VALUE: &'static str = "前后值";

pub const TEXT_HEAD_RESULT: &'static str = "结果";

pub const TEXT_OPERATOR_LOCAL: &'static str = "本地控制台";

pub const TEXT_RESULT_OK: &'static str = "● 成功";

pub const TEXT_RESULT_FAIL: &'static str = "× 失败";

pub const TEXT_REASON_PREFIX: &'static str = "原因: ";

pub const TEXT_PAIR_ARROW: &'static str = " → ";

pub const TEXT_LABEL_SEP: &'static str = ": ";

pub const TEXT_CLAUSE_SEP: &'static str = " · ";

pub const TEXT_VALUE_ON: &'static str = "开";

pub const TEXT_VALUE_OFF: &'static str = "关";

pub const TEXT_UNIT_ITEMS: &'static str = "条";

pub const TEXT_UNIT_FIELDS: &'static str = "字段";

pub const TEXT_FOOTER_LOADING: &'static str = "加载中";

pub const TEXT_FOOTER_ALL: &'static str = "已加载全部";

pub const TEXT_EXPORT_NOTE: &'static str = "本地屏不支持审计导出";

pub const TEXT_EXPORT_NOTE2: &'static str = "无文件与下载通道";

pub const TEXT_EMPTY: &'static str = "当前筛选条件下无审计记录";

pub const TEXT_RANGE_TOO_LARGE: &'static str = "检索范围超限 · 请缩小时间范围";

pub const TEXT_UNAVAILABLE: &'static str = "审计记录不可用";

pub const TEXT_FIELD_PORT: &'static str = "端口";

pub const TEXT_FIELD_LOG_LEVEL: &'static str = "日志级别";

pub const TEXT_FIELD_TELEMETRY: &'static str = "遥测上报周期";

pub const TEXT_LISTEN_ADDR: &'static str = "本机监听地址 · IEC 104";

pub const TEXT_EMPTY_ICON: &'static str = "○";

/// Placeholder for a missing value (never `0`, never empty).
pub const PLACEHOLDER: &'static str = "\u{2013}";

/// Operator name of the local console.
pub const CONSOLE_OPERATOR: &'static str = "local-console";

/// Entries per audit page.
pub const AUDIT_PAGE_SIZE: usize = 20;

/// The row pool holds exactly one page.
pub const ROW_MAX: usize = AUDIT_PAGE_SIZE;

/// Measured capacity of the row pool of one page alone.
pub const MEASURED_ROW_CAPACITY: usize = 22;

/// Rows per page when two pages coexist.
pub const COEXIST_ROWS_PER_PAGE: usize = 4;

/// Measured capacity of two coexisting pages together.
pub const MEASURED_COEXIST_TOTAL_ROWS: usize = 10;

/// Maximum length of a value-pair summary (characters).
pub const SUMMARY_MAX_CHARS: usize = 18;

/// Longest prefix granted to an unregistered target key (characters).
pub const UNKNOWN_TARGET_MAX_CHARS: usize = 6;

/// Shortest prefix granted to an unregistered target key: `...` plus two.
pub const UNKNOWN_TARGET_MIN_CHARS: usize = 5;

/// Number of table header columns.
pub const HEAD_COL_COUNT: usize = 5;

/// Vertical separators between header columns.
pub const HEAD_DIV_COUNT: usize = HEAD_COL_COUNT - 1;

/// Children of the header: column names, separators and the bottom rule.
pub const HEAD_CHILD_COUNT: usize = HEAD_COL_COUNT + HEAD_DIV_COUNT + 1;

/// Height of a list row (two lines).
pub const ROW_AUDIT_H: i32 = 60;

/// Width of the accent bar at the left edge of every row.
pub const ROW_BAR_W: i32 = 3;

/// Width of the accent bar of the append-only banner.
pub const IMMUTABLE_BAR_W: i32 = 4;

/// Left edge of a row's content: the bar and a gap.
pub const ROW_X0: i32 = ROW_BAR_W + GAP_MIN;

/// Right edge of a row's content.
pub const ROW_RIGHT: i32 = CONTENT_W - GAP_MIN;

/// Second line: operation type column (six 26 px characters).
pub const ROW_OPTYPE_W: i32 = 156;

/// Second line: reason column (a third of the content width).
pub const ROW_REASON_W: i32 = 330;

/// Second line: left edge of the reason column, flush right.
pub const ROW_REASON_X: i32 = ROW_RIGHT - ROW_REASON_W;

/// Second line: left edge of the value-pair column.
pub const ROW_SUMMARY_X: i32 = ROW_X0 + ROW_OPTYPE_W;

/// Second line: the value-pair column up to a gap before the reason column.
pub const ROW_SUMMARY_W: i32 = ROW_REASON_X - GAP_MIN - ROW_SUMMARY_X;

/// Columns and width of the operation-type chip grid, and its left edge.
pub const OPS_COLS: u32 = 4;

pub const OPS_CHIP_W: i32 = 192;

pub const CTRL_X: i32 = 120;

/// The page's write entries: none, the audit log is read-only.
pub fn write_entries() -> (v: Vec<&'static str>)
    ensures
        v@.len() == 0,
{
    Vec::new()
}

/// The header column names, left to right.
pub fn head_cols() -> (v: Vec<&'static str>)
    ensures
        v@.len() == HEAD_COL_COUNT,
        v@[0]@ == TEXT_HEAD_TIME@,
        v@[1]@ == TEXT_HEAD_OPERATOR@,
        v@[2]@ == TEXT_HEAD_OP@,
        v@[3]@ == TEXT_HEAD_VALUE@,
        v@[4]@ == TEXT_HEAD_RESULT@,
{
    vec![TEXT_HEAD_TIME, TEXT_HEAD_OPERATOR, TEXT_HEAD_OP, TEXT_HEAD_VALUE, TEXT_HEAD_RESULT]
}

/// Every fixed text of the page.
pub fn all_texts() -> (v: Vec<&'static str>)
    ensures
        v@ == seq![
            TEXT_NEWEST_PREFIX, TEXT_IMMUTABLE, TEXT_LOCK_ICON, TEXT_OPS_LABEL,
            TEXT_OPS_ALL, TEXT_HEAD_TIME, TEXT_HEAD_OPERATOR, TEXT_HEAD_OP, TEXT_HEAD_VALUE,
            TEXT_HEAD_RESULT, TEXT_OPERATOR_LOCAL, TEXT_RESULT_OK, TEXT_RESULT_FAIL,
            TEXT_REASON_PREFIX, TEXT_PAIR_ARROW, TEXT_LABEL_SEP, TEXT_CLAUSE_SEP,
            TEXT_VALUE_ON, TEXT_VALUE_OFF, TEXT_UNIT_ITEMS, TEXT_UNIT_FIELDS,
            crate::text::TEXT_ELLIPSIS, TEXT_FOOTER_LOADING, TEXT_FOOTER_ALL,
            TEXT_EXPORT_NOTE, TEXT_EXPORT_NOTE2, TEXT_EMPTY, TEXT_RANGE_TOO_LARGE,
            TEXT_UNAVAILABLE, TEXT_FIELD_PORT, TEXT_FIELD_LOG_LEVEL, TEXT_FIELD_TELEMETRY,
            TEXT_EMPTY_ICON,
        ],
{
    let v: Vec<&'static str> = vec![
        TEXT_NEWEST_PREFIX, TEXT_IMMUTABLE, TEXT_LOCK_ICON, TEXT_OPS_LABEL, TEXT_OPS_ALL,
        TEXT_HEAD_TIME, TEXT_HEAD_OPERATOR, TEXT_HEAD_OP, TEXT_HEAD_VALUE, TEXT_HEAD_RESULT,
        TEXT_OPERATOR_LOCAL, TEXT_RESULT_OK, TEXT_RESULT_FAIL, TEXT_REASON_PREFIX,
        TEXT_PAIR_ARROW, TEXT_LABEL_SEP, TEXT_CLAUSE_SEP, TEXT_VALUE_ON, TEXT_VALUE_OFF,
        TEXT_UNIT_ITEMS, TEXT_UNIT_FIELDS, crate::text::TEXT_ELLIPSIS, TEXT_FOOTER_LOADING,
        TEXT_FOOTER_ALL, TEXT_EXPORT_NOTE, TEXT_EXPORT_NOTE2, TEXT_EMPTY, TEXT_RANGE_TOO_LARGE,
        TEXT_UNAVAILABLE, TEXT_FIELD_PORT, TEXT_FIELD_LOG_LEVEL, TEXT_FIELD_TELEMETRY,
        TEXT_EMPTY_ICON,
    ];
    assert(v@ =~= seq![
        TEXT_NEWEST_PREFIX, TEXT_IMMUTABLE, TEXT_LOCK_ICON, TEXT_OPS_LABEL, TEXT_OPS_ALL,
        TEXT_HEAD_TIME, TEXT_HEAD_OPERATOR, TEXT_HEAD_OP, TEXT_HEAD_VALUE, TEXT_HEAD_RESULT,
        TEXT_OPERATOR_LOCAL, TEXT_RESULT_OK, TEXT_RESULT_FAIL, TEXT_REASON_PREFIX,
        TEXT_PAIR_ARROW, TEXT_LABEL_SEP, TEXT_CLAUSE_SEP, TEXT_VALUE_ON, TEXT_VALUE_OFF,
        TEXT_UNIT_ITEMS, TEXT_UNIT_FIELDS, crate::text::TEXT_ELLIPSIS, TEXT_FOOTER_LOADING,
        TEXT_FOOTER_ALL, TEXT_EXPORT_NOTE, TEXT_EXPORT_NOTE2, TEXT_EMPTY,
        TEXT_RANGE_TOO_LARGE, TEXT_UNAVAILABLE, TEXT_FIELD_PORT, TEXT_FIELD_LOG_LEVEL,
        TEXT_FIELD_TELEMETRY, TEXT_EMPTY_ICON,
    ]);
    v
}

// ── Contract model ─────────────────────────────────────────────────────────

/// The console operations that leave audit entries.
#[derive(Clone, Copy, Debug, PartialEq, Eq, Hash, Structural)]
pub enum ConsoleOp {
    ConfigApply,
    ConfigReset,
    InterlockRelease,
    InterlockAckM1,
}

pub const LABEL_CONFIG_APPLY: &'static str = "配置保存";

pub const LABEL_CONFIG_RESET: &'static str = "恢复默认值";

pub const LABEL_INTERLOCK_RELEASE: &'static str = "联锁释放";

pub const LABEL_INTERLOCK_ACK_M1: &'static str = "M1 授权";

pub open spec fn op_label_spec(op: ConsoleOp) -> Seq<char> {
    match op {
        ConsoleOp::ConfigApply => LABEL_CONFIG_APPLY@,
        ConsoleOp::ConfigReset => LABEL_CONFIG_RESET@,
        ConsoleOp::InterlockRelease => LABEL_INTERLOCK_RELEASE@,
        ConsoleOp::InterlockAckM1 => LABEL_INTERLOCK_ACK_M1@,
    }
}

impl ConsoleOp {
    /// The operation's display label.
    pub fn label(self) -> (r: &'static str)
        ensures
            r@ == op_label_spec(self),
    {
        match self {
            ConsoleOp::ConfigApply => LABEL_CONFIG_APPLY,
            ConsoleOp::ConfigReset => LABEL_CONFIG_RESET,
            ConsoleOp::InterlockRelease => LABEL_INTERLOCK_RELEASE,
            ConsoleOp::InterlockAckM1 => LABEL_INTERLOCK_ACK_M1,
        }
    }
}

/// All operations, in their canonical order.
pub open spec fn all_ops() -> Seq<ConsoleOp> {
    seq![
        ConsoleOp::ConfigApply,
        ConsoleOp::ConfigReset,
        ConsoleOp::InterlockRelease,
        ConsoleOp::InterlockAckM1,
    ]
}

/// All operations, in their canonical order.
pub fn console_ops() -> (v: Vec<ConsoleOp>)
    ensures
        v@ == all_ops(),
{
    let v = vec![
        ConsoleOp::ConfigApply,
        ConsoleOp::ConfigReset,
        ConsoleOp::InterlockRelease,
        ConsoleOp::InterlockAckM1,
    ];
    assert(v@ =~= all_ops());
    v
}

/// One choice of the operation-type filter: the operation and its label.
#[derive(Clone, Debug, PartialEq, Eq)]
pub struct OpOption {
    pub op: ConsoleOp,
    pub label: String,
}

/// Outcome of an audited operation.
#[derive(Clone, Copy, Debug, PartialEq, Eq, Structural)]
pub enum AuditResult {
    Success,
    Failed,
}

/// A recorded `before` / `after` value, by shape. `Decimal` carries a
/// non-integer number already rendered to text.
#[derive(Clone, Debug, PartialEq, Eq)]
pub enum AuditValue {
    Null,
    Bool(bool),
    Int(i64),
    Decimal(String),
    Text(String),
    Array(usize),
    Object(usize),
}

/// One audit record.
#[derive(Clone, Debug, PartialEq, Eq)]
pub struct ConsoleAuditEntry {
    pub id: String,
    pub ts_ms: u64,
    pub operator: String,
    pub op: ConsoleOp,
    pub target: String,
    pub before: Option<AuditValue>,
    pub after: Option<AuditValue>,
    pub result: AuditResult,
    pub reason: Option<String>,
    pub request_id: String,
}

/// One page of audit records.
#[derive(Clone, Debug, PartialEq, Eq)]
pub struct AuditPage {
    pub entries: Vec<ConsoleAuditEntry>,
    pub page: u32,
    pub page_size: u32,
    pub has_more: bool,
    pub newest_ts_ms: Option<u64>,
    pub available: bool,
}

// ── List state ─────────────────────────────────────────────────────────────

/// What the list area shows. "Unavailable" (cannot be known) and "Empty"
/// (known to have no records) are different states.
#[derive(Clone, Copy, Debug, PartialEq, Eq, Structural)]
pub enum ListView {
    Rows,
    Empty,
    Unavailable,
}

pub open spec fn list_view_spec(available: bool, rows: nat) -> ListView {
    if !available {
        ListView::Unavailable
    } else if rows == 0 {
        ListView::Empty
    } else {
        ListView::Rows
    }
}

/// The list state: unavailable whenever the source is not available (the
/// entries are then not trusted), else empty or rows.
pub fn list_view_of(available: bool, rows: usize) -> (v: ListView)
    ensures
        v == list_view_spec(available, rows as nat),
{
    if !available {
        ListView::Unavailable
    } else if rows == 0 {
        ListView::Empty
    } else {
        ListView::Rows
    }
}

/// The list state of a page.
pub fn list_view(page: &AuditPage) -> (v: ListView)
    ensures
        v == list_view_spec(page.available, page.entries@.len()),
{
    list_view_of(page.available, page.entries.len())
}

// ── Row order ──────────────────────────────────────────────────────────────

/// Entry `a` is listed before entry `b`: newer first, ties in arrival order.
pub open spec fn listed_before(ts: Seq<u64>, a: int, b: int) -> bool {
    ts[a] > ts[b] || (ts[a] == ts[b] && a < b)
}

pub open spec fn entry_times(entries: Seq<ConsoleAuditEntry>) -> Seq<u64> {
    entries.map_values(|e: ConsoleAuditEntry| e.ts_ms)
}

/// `order` lists every index below `n` exactly once, ordered by [`listed_before`].
pub open spec fn is_time_desc_order(ts: Seq<u64>, order: Seq<usize>) -> bool {
    &&& order.len() == ts.len()
    &&& forall|i: int| 0 <= i < order.len() ==> #[trigger] order[i] < ts.len()
    &&& forall|v: usize| v < ts.len() ==> #[trigger] order.contains(v)
    &&& forall|i: int, j: int|
        0 <= i < j < order.len() ==> listed_before(ts, #[trigger] order[i] as int, #[trigger] order[j] as int)
}

/// The display order of the entries as indices: newest first, entries
/// with equal time in the order they arrived (a stable sort).
pub fn row_order(entries: &[ConsoleAuditEntry]) -> (order: Vec<usize>)
    ensures
        is_time_desc_order(entry_times(entries@), order@),
{
    let ghost ts = entry_times(entries@);
    let n = entries.len();
    let mut idx: Vec<usize> = Vec::new();
    for k in 0..n
        invariant
            n == entries@.len(),
            ts == entry_times(entries@),
            idx@.len() == k,
            forall|i: int| 0 <= i < idx@.len() ==> #[trigger] idx@[i] < k,
            forall|v: usize| v < k ==> #[trigger] idx@.contains(v),
            forall|i: int, j: int|
                0 <= i < j < idx@.len() ==> listed_before(ts, #[trigger] idx@[i] as int, #[trigger] idx@[j] as int),
    {
        let tk = entries[k].ts_ms;
        let mut p: usize = 0;
        while p < idx.len() && entries[idx[p]].ts_ms >= tk
            invariant
                n == entries@.len(),
                ts == entry_times(entries@),
                k < n,
                tk == ts[k as int],
                p <= idx@.len(),
                forall|i: int| 0 <= i < idx@.len() ==> #[trigger] idx@[i] < k,
                forall|i: int| 0 <= i < p ==> ts[#[trigger] idx@[i] as int] >= tk,
            decreases idx@.len() - p,
        {
            p = p + 1;
        }
        proof {
            // everything from p on is older than entry k
            assert forall|i: int| p <= i < idx@.len() implies ts[#[trigger] idx@[i] as int] < tk by {
                if p < idx@.len() {
                    assert(ts[idx@[p as int] as int] < tk);
                    if p < i {
                        assert(listed_before(ts, idx@[p as int] as int, idx@[i] as int));
                    }
                }
            }
        }
        let ghost old_idx = idx@;
        idx.insert(p, k);
        proof {
            assert(idx@ == old_idx.insert(p as int, k));
            assert forall|v: usize| v < k + 1 implies #[trigger] idx@.contains(v) by {
                if v == k {
                    assert(idx@[p as int] == k);
                } else {
                    assert(old_idx.contains(v));
                    let w = choose|w: int| 0 <= w < old_idx.len() && old_idx[w] == v;
                    if w < p {
                        assert(idx@[w] == v);
                    } else {
                        assert(idx@[w + 1] == v);
                    }
                }
            }
            assert forall|i: int, j: int|
                0 <= i < j < idx@.len() implies listed_before(
                    ts,
                    #[trigger] idx@[i] as int,
                    #[trigger] idx@[j] as int,
                ) by {
                if j < p {
                    assert(idx@[i] == old_idx[i] && idx@[j] == old_idx[j]);
                } else if j == p {
                    assert(idx@[i] == old_idx[i]);
                } else if i == p {
                    assert(idx@[j] == old_idx[j - 1]);
                } else if i < p {
                    assert(idx@[i] == old_idx[i] && idx@[j] == old_idx[j - 1]);
                } else {
                    assert(idx@[i] == old_idx[i - 1] && idx@[j] == old_idx[j - 1]);
                }
            }
        }
    }
    idx
}

// ── Header and result chip ─────────────────────────────────────────────────

/// The newest-record line: the prefix and the UTC time, or the placeholder
/// when there is no record (a time is never made up).
pub open spec fn newest_text_spec(newest: Option<u64>) -> Seq<char> {
    match newest {
        Some(ms) => TEXT_NEWEST_PREFIX@ + epoch_text(ms as nat),
        None => TEXT_NEWEST_PREFIX@ + PLACEHOLDER@,
    }
}

/// The newest-record line.
pub fn newest_text(newest_ts_ms: Option<u64>) -> (r: String)
    ensures
        r@ == newest_text_spec(newest_ts_ms),
{
    let mut v: Vec<char> = Vec::new();
    push_str(&mut v, TEXT_NEWEST_PREFIX);
    match newest_ts_ms {
        Some(ms) => push_epoch(&mut v, ms),
        None => push_str(&mut v, PLACEHOLDER),
    }
    string_from_chars(v)
}

/// Without a newest record the line holds no digit at all.
pub proof fn lemma_newest_none_has_no_digit()
    ensures
        forall|i: int|
            0 <= i < newest_text_spec(None).len() ==> !crate::text::is_ascii_digit(
                #[trigger] newest_text_spec(None)[i],
            ),
{
    reveal_strlit("最近一条审计: ");
    reveal_strlit("\u{2013}");
}

/// The result chip text.
pub fn result_text(r: AuditResult) -> (t: &'static str)
    ensures
        r == AuditResult::Success ==> t@ == TEXT_RESULT_OK@,
        r == AuditResult::Failed ==> t@ == TEXT_RESULT_FAIL@,
{
    match r {
        AuditResult::Success => TEXT_RESULT_OK,
        AuditResult::Failed => TEXT_RESULT_FAIL,
    }
}

/// The result chip skin: success green, failure red.
pub fn result_skin(r: AuditResult) -> (s: ChipSkin)
    ensures
        r == AuditResult::Success ==> s == ChipSkin::Success,
        r == AuditResult::Failed ==> s == ChipSkin::Failure,
{
    match r {
        AuditResult::Success => ChipSkin::Success,
        AuditResult::Failed => ChipSkin::Failure,
    }
}

// ── Operator ───────────────────────────────────────────────────────────────

/// The operator column: the local console (any ASCII case) by its Chinese
/// name, any other operator as screen-safe free text.
pub open spec fn operator_text_spec(operator: Seq<char>) -> Seq<char> {
    if eq_ignore_ascii_case_spec(operator, CONSOLE_OPERATOR@) {
        TEXT_OPERATOR_LOCAL@
    } else {
        free_text_safe_spec(operator)
    }
}

/// The operator column text.
pub fn operator_text(operator: &str) -> (r: String)
    ensures
        r@ == operator_text_spec(operator@),
{
    if eq_ignore_ascii_case(operator, CONSOLE_OPERATOR) {
        owned(TEXT_OPERATOR_LOCAL)
    } else {
        free_text_safe(operator)
    }
}

// ── Target keys ────────────────────────────────────────────────────────────

pub const KEY_GATEWAY_PORT: &'static str = "gateway.port";

pub const KEY_LOG_LEVEL: &'static str = "system.log_level";

pub const KEY_TELEMETRY: &'static str = "telemetry.interval";

pub const KEY_LISTEN_ADDR: &'static str = "gateway.listen_addr";

pub const KEY_INTERLOCK_RELEASE: &'static str = "interlock.release";

pub const KEY_INTERLOCK_ACK_M1: &'static str = "interlock.ack_m1";

/// The label of a registered target key: the four configuration fields by
/// their field names, the two interlock keys by their operation labels;
/// none for any other key.
pub open spec fn target_label_spec(target: Seq<char>) -> Option<Seq<char>> {
    if target == KEY_GATEWAY_PORT@ {
        Some(TEXT_FIELD_PORT@)
    } else if target == KEY_LOG_LEVEL@ {
        Some(TEXT_FIELD_LOG_LEVEL@)
    } else if target == KEY_TELEMETRY@ {
        Some(TEXT_FIELD_TELEMETRY@)
    } else if target == KEY_LISTEN_ADDR@ {
        Some(TEXT_LISTEN_ADDR@)
    } else if target == KEY_INTERLOCK_RELEASE@ {
        Some(op_label_spec(ConsoleOp::InterlockRelease))
    } else if target == KEY_INTERLOCK_ACK_M1@ {
        Some(op_label_spec(ConsoleOp::InterlockAckM1))
    } else {
        None
    }
}

/// The label of a target key, if registered.
pub fn target_label(target: &str) -> (r: Option<&'static str>)
    ensures
        match r {
            Some(l) => target_label_spec(target@) == Some(l@),
            None => target_label_spec(target@) is None,
        },
{
    if str_eq(target, KEY_GATEWAY_PORT) {
        Some(TEXT_FIELD_PORT)
    } else if str_eq(target, KEY_LOG_LEVEL) {
        Some(TEXT_FIELD_LOG_LEVEL)
    } else if str_eq(target, KEY_TELEMETRY) {
        Some(TEXT_FIELD_TELEMETRY)
    } else if str_eq(target, KEY_LISTEN_ADDR) {
        Some(TEXT_LISTEN_ADDR)
    } else if str_eq(target, KEY_INTERLOCK_RELEASE) {
        Some(ConsoleOp::InterlockRelease.label())
    } else if str_eq(target, KEY_INTERLOCK_ACK_M1) {
        Some(ConsoleOp::InterlockAckM1.label())
    } else {
        None
    }
}

// ── Values ─────────────────────────────────────────────────────────────────

/// One recorded value on screen: null as the placeholder, booleans as
/// on / off, integers in decimal with a true minus sign, rendered decimals
/// as given, strings screen-safe, arrays and objects by their size only.
pub open spec fn value_text_spec(v: AuditValue) -> Seq<char> {
    match v {
        AuditValue::Null => PLACEHOLDER@,
        AuditValue::Bool(b) => if b {
            TEXT_VALUE_ON@
        } else {
            TEXT_VALUE_OFF@
        },
        AuditValue::Int(i) => int_text(i as int),
        AuditValue::Decimal(t) => t@,
        AuditValue::Text(s) => display_safe_spec(s@),
        AuditValue::Array(n) => decimal(n as nat) + " "@ + TEXT_UNIT_ITEMS@,
        AuditValue::Object(n) => decimal(n as nat) + " "@ + TEXT_UNIT_FIELDS@,
    }
}

fn push_value_text(out: &mut Vec<char>, v: &AuditValue)
    ensures
        final(out)@ == old(out)@ + value_text_spec(*v),
{
    match v {
        AuditValue::Null => push_str(out, PLACEHOLDER),
        AuditValue::Bool(b) => if *b {
            push_str(out, TEXT_VALUE_ON)
        } else {
            push_str(out, TEXT_VALUE_OFF)
        },
        AuditValue::Int(i) => push_int(out, *i),
        AuditValue::Decimal(t) => push_str(out, t.as_str()),
        AuditValue::Text(s) => push_display_safe(out, s.as_str()),
        AuditValue::Array(n) => {
            push_decimal(out, *n as u64);
            push_str(out, " ");
            push_str(out, TEXT_UNIT_ITEMS);
        },
        AuditValue::Object(n) => {
            push_decimal(out, *n as u64);
            push_str(out, " ");
            push_str(out, TEXT_UNIT_FIELDS);
        },
    }
}

/// The on-screen text of a recorded value.
pub fn value_text(v: &AuditValue) -> (r: String)
    ensures
        r@ == value_text_spec(*v),
{
    let mut out: Vec<char> = Vec::new();
    push_value_text(&mut out, v);
    string_from_chars(out)
}

/// One side of a value pair: a missing value is the placeholder, never `0`.
pub open spec fn side_text_spec(v: Option<AuditValue>) -> Seq<char> {
    match v {
        Some(x) => value_text_spec(x),
        None => PLACEHOLDER@,
    }
}

pub open spec fn opt_value(v: Option<&AuditValue>) -> Option<AuditValue> {
    match v {
        Some(x) => Some(*x),
        None => None,
    }
}

fn push_side_text(out: &mut Vec<char>, v: Option<&AuditValue>)
    ensures
        final(out)@ == old(out)@ + side_text_spec(opt_value(v)),
{
    match v {
        Some(x) => push_value_text(out, x),
        None => push_str(out, PLACEHOLDER),
    }
}

/// The on-screen text of one side of a value pair.
pub fn side_text(v: Option<&AuditValue>) -> (r: String)
    ensures
        r@ == side_text_spec(opt_value(v)),
{
    let mut out: Vec<char> = Vec::new();
    push_side_text(&mut out, v);
    string_from_chars(out)
}

// ── Value-pair summary ─────────────────────────────────────────────────────

/// Room for an unregistered key's prefix: what the summary leaves after the
/// pair and the `: ` separator, kept between the shortest and longest prefix.
pub open spec fn unknown_key_budget_spec(pair_len: nat) -> nat {
    let room: int = SUMMARY_MAX_CHARS - (pair_len + 2);
    if room <= UNKNOWN_TARGET_MIN_CHARS {
        UNKNOWN_TARGET_MIN_CHARS as nat
    } else if room >= UNKNOWN_TARGET_MAX_CHARS {
        UNKNOWN_TARGET_MAX_CHARS as nat
    } else {
        room as nat
    }
}

/// The prefix budget of an unregistered key: the value pair comes first.
pub fn unknown_key_budget(pair_len: usize) -> (r: usize)
    requires
        pair_len <= usize::MAX - 2,
    ensures
        r == unknown_key_budget_spec(pair_len as nat),
        UNKNOWN_TARGET_MIN_CHARS <= r <= UNKNOWN_TARGET_MAX_CHARS,
{
    let used = pair_len + 2;
    let room: usize = if used >= SUMMARY_MAX_CHARS { 0 } else { SUMMARY_MAX_CHARS - used };
    if room <= UNKNOWN_TARGET_MIN_CHARS {
        UNKNOWN_TARGET_MIN_CHARS
    } else if room >= UNKNOWN_TARGET_MAX_CHARS {
        UNKNOWN_TARGET_MAX_CHARS
    } else {
        room
    }
}

/// An unregistered key on screen: screen-safe, cut to its budget keeping the
/// tail (where keys differ).
pub open spec fn unknown_key_label_spec(target: Seq<char>, pair_len: nat) -> Seq<char> {
    clip_tail_spec(display_safe_spec(target), unknown_key_budget_spec(pair_len))
}

fn unknown_key_label_chars(target: &str, pair_len: usize) -> (r: Vec<char>)
    ensures
        r@ == unknown_key_label_spec(target@, pair_len as nat),
{
    let capped: usize = if pair_len > 100 { 100 } else { pair_len };
    let budget = unknown_key_budget(capped);
    let mut safe: Vec<char> = Vec::new();
    push_display_safe(&mut safe, target);
    clip_tail_chars(&safe, budget)
}

/// The prefix of an unregistered target key.
pub fn unknown_key_label(target: &str, pair_len: usize) -> (r: String)
    ensures
        r@ == unknown_key_label_spec(target@, pair_len as nat),
{
    string_from_chars(unknown_key_label_chars(target, pair_len))
}

/// The value pair `before → after`.
pub open spec fn pair_spec(before: Option<AuditValue>, after: Option<AuditValue>) -> Seq<char> {
    side_text_spec(before) + TEXT_PAIR_ARROW@ + side_text_spec(after)
}

/// The value-pair summary: `label: before → after` for a registered key,
/// the key's screen-safe tail for an unregistered one, just the pair for an
/// empty key; always cut to [`SUMMARY_MAX_CHARS`].
pub open spec fn summary_text_spec(
    before: Option<AuditValue>,
    after: Option<AuditValue>,
    target: Seq<char>,
) -> Seq<char> {
    let pair = pair_spec(before, after);
    match target_label_spec(target) {
        Some(label) => clip_spec(label + TEXT_LABEL_SEP@ + pair, SUMMARY_MAX_CHARS as nat),
        None => if target.len() == 0 {
            clip_spec(pair, SUMMARY_MAX_CHARS as nat)
        } else {
            clip_spec(
                unknown_key_label_spec(target, pair.len()) + TEXT_LABEL_SEP@ + pair,
                SUMMARY_MAX_CHARS as nat,
            )
        },
    }
}

/// The value-pair summary of an audit row; never longer than [`SUMMARY_MAX_CHARS`].
pub fn summary_text(before: Option<&AuditValue>, after: Option<&AuditValue>, target: &str) -> (r:
    String)
    ensures
        r@ == summary_text_spec(opt_value(before), opt_value(after), target@),
        r@.len() <= SUMMARY_MAX_CHARS,
{
    let mut pair: Vec<char> = Vec::new();
    push_side_text(&mut pair, before);
    push_str(&mut pair, TEXT_PAIR_ARROW);
    push_side_text(&mut pair, after);
    let mut full: Vec<char> = Vec::new();
    match target_label(target) {
        Some(label) => {
            push_str(&mut full, label);
            push_str(&mut full, TEXT_LABEL_SEP);
        },
        None => {
            let tc = chars_of(target);
            if tc.len() > 0 {
                full = unknown_key_label_chars(target, pair.len());
                push_str(&mut full, TEXT_LABEL_SEP);
            }
        },
    }
    let ghost head = full@;
    let n = pair.len();
    for i in 0..n
        invariant
            n == pair@.len(),
            full@ == head + pair@.take(i as int),
    {
        full.push(pair[i]);
        assert(pair@.take(i + 1) == pair@.take(i as int).push(pair@[i as int]));
    }
    assert(pair@.take(n as int) == pair@);
    let r = clip_chars(&full, SUMMARY_MAX_CHARS);
    proof {
        lemma_clip_within_limit(full@, SUMMARY_MAX_CHARS as nat);
    }
    string_from_chars(r)
}

/// The budget law: a short pair leaves the key its longest prefix; a
/// realistic pair of eleven characters leaves exactly the shortest, and
/// shortest prefix + separator + that pair fill the summary exactly.
pub proof fn lemma_budget_prefers_pair()
    ensures
        unknown_key_budget_spec(1) == UNKNOWN_TARGET_MAX_CHARS,
        unknown_key_budget_spec(11) == UNKNOWN_TARGET_MIN_CHARS,
        UNKNOWN_TARGET_MIN_CHARS + 2 + 11 == SUMMARY_MAX_CHARS,
        forall|p: nat|
            UNKNOWN_TARGET_MIN_CHARS <= #[trigger] unknown_key_budget_spec(p)
                <= UNKNOWN_TARGET_MAX_CHARS,
        forall|p: nat| p >= 11 ==> #[trigger] unknown_key_budget_spec(p) == UNKNOWN_TARGET_MIN_CHARS,
{
}

/// An unregistered key is shown, not hidden, and never crowds out a value
/// pair of up to eleven characters: the summary is then exactly the key's
/// screen-safe tail, the separator and the whole pair.
pub proof fn lemma_unknown_key_keeps_pair(
    before: Option<AuditValue>,
    after: Option<AuditValue>,
    target: Seq<char>,
)
    requires
        target_label_spec(target) is None,
        target.len() > 0,
        pair_spec(before, after).len() <= 11,
    ensures
        summary_text_spec(before, after, target) == unknown_key_label_spec(
            target,
            pair_spec(before, after).len(),
        ) + TEXT_LABEL_SEP@ + pair_spec(before, after),
        unknown_key_label_spec(target, pair_spec(before, after).len()).len() > 0,
{
    reveal_strlit(": ");
    let pair = pair_spec(before, after);
    let budget = unknown_key_budget_spec(pair.len());
    let key = unknown_key_label_spec(target, pair.len());
    lemma_clip_within_limit(display_safe_spec(target), budget);
    assert(key.len() <= budget);
    assert(budget + 2 + pair.len() <= SUMMARY_MAX_CHARS);
    lemma_clip_within_limit(key + TEXT_LABEL_SEP@ + pair, SUMMARY_MAX_CHARS as nat);
}

// ── Placeholder height and banner colour ───────────────────────────────────

/// Height of the empty and unavailable placeholders of the list: icon 64,
/// gap 16, title 28, gap 16, reason line 24, gap 16 (px).
pub fn unavailable_h() -> (h: i32)
    ensures
        h == 64 + 16 + 28 + 16 + 24 + 16,
{
    let empty_h: i32 = 64 + 16 + 28 + 16;
    empty_h + 24 + 16
}

/// The background of the append-only banner (the audit colour `#14231F`).
pub fn audit_banner_bg() -> (c: Color)
    ensures
        c == rgb(0x14, 0x23, 0x1F),
{
    Palette::audit_bg()
}

/// The style family of a banner background.
#[derive(Clone, Copy, Debug, PartialEq, Eq, Structural)]
pub enum BannerSkin {
    /// The audit colour.
    Audit,
    /// The warning banner colour.
    Warn,
    /// The danger banner colour.
    Danger,
    /// The alternate card surface.
    SurfaceAlt,
    /// The card surface.
    Surface,
    /// Any other colour.
    Other,
}

/// The style family of a banner background.
pub open spec fn banner_skin_spec(bg: Swatch) -> BannerSkin {
    match bg {
        Swatch::AuditBg => BannerSkin::Audit,
        Swatch::WarnBg => BannerSkin::Warn,
        Swatch::DangerBg => BannerSkin::Danger,
        Swatch::SurfaceAlt => BannerSkin::SurfaceAlt,
        Swatch::Surface => BannerSkin::Surface,
        _ => BannerSkin::Other,
    }
}

/// The style family of a banner background; the audit banner is told apart
/// from every other banner.
pub fn banner_skin_of(bg: Swatch) -> (r: BannerSkin)
    ensures
        r == banner_skin_spec(bg),
        (r == BannerSkin::Audit) == (bg == Swatch::AuditBg),
{
    match bg {
        Swatch::AuditBg => BannerSkin::Audit,
        Swatch::WarnBg => BannerSkin::Warn,
        Swatch::DangerBg => BannerSkin::Danger,
        Swatch::SurfaceAlt => BannerSkin::SurfaceAlt,
        Swatch::Surface => BannerSkin::Surface,
        _ => BannerSkin::Other,
    }
}

// ── Failure reason and footer ──────────────────────────────────────────────

/// The failure reason shown on a row: only for failed rows, and only when
/// the trimmed reason is not empty; then `原因: ` and the screen-safe reason.
pub open spec fn reason_text_spec(result: AuditResult, reason: Option<Seq<char>>) -> Option<
    Seq<char>,
> {
    if result != AuditResult::Failed {
        None
    } else {
        let raw = match reason {
            Some(r) => trim_spec(r),
            None => Seq::empty(),
        };
        if raw.len() == 0 {
            None
        } else {
            Some(TEXT_REASON_PREFIX@ + free_text_safe_spec(raw))
        }
    }
}

pub open spec fn opt_str(o: Option<&str>) -> Option<Seq<char>> {
    match o {
        Some(s) => Some(s@),
        None => None,
    }
}

pub open spec fn opt_string(o: Option<String>) -> Option<Seq<char>> {
    match o {
        Some(s) => Some(s@),
        None => None,
    }
}

/// The failure reason of a row, if it shows one.
pub fn reason_text(result: AuditResult, reason: Option<&str>) -> (r: Option<String>)
    ensures
        opt_string(r) == reason_text_spec(result, opt_str(reason)),
{
    if result != AuditResult::Failed {
        return None;
    }
    let raw: Vec<char> = match reason {
        Some(text) => trim_chars(text),
        None => Vec::new(),
    };
    if raw.len() == 0 {
        return None;
    }
    let mut v: Vec<char> = Vec::new();
    push_str(&mut v, TEXT_REASON_PREFIX);
    push_free_text_chars(&mut v, &raw);
    Some(string_from_chars(v))
}

/// The footer line: loading while more pages exist, all loaded otherwise;
/// no footer without rows.
pub fn footer_text(has_more: bool, rows: usize) -> (r: Option<&'static str>)
    ensures
        rows == 0 <==> r is None,
        rows > 0 && has_more ==> r == Some(TEXT_FOOTER_LOADING),
        rows > 0 && !has_more ==> r == Some(TEXT_FOOTER_ALL),
{
    if rows == 0 {
        return None;
    }
    Some(if has_more { TEXT_FOOTER_LOADING } else { TEXT_FOOTER_ALL })
}

// ── Operation-type filter ──────────────────────────────────────────────────

/// `s` without its zeros (the "all" chip), order kept.
pub open spec fn drop_zeros(s: Seq<usize>) -> Seq<usize>
    decreases s.len(),
{
    if s.len() == 0 {
        s
    } else if s.last() == 0 {
        drop_zeros(s.drop_last())
    } else {
        drop_zeros(s.drop_last()).push(s.last())
    }
}

/// Some chip of `selected` was not selected before.
pub open spec fn something_added(prev: Seq<usize>, selected: Seq<usize>) -> bool {
    exists|i: int| 0 <= i < selected.len() && !prev.contains(#[trigger] selected[i])
}

/// The "all" chip was just added.
pub open spec fn all_added(prev: Seq<usize>, selected: Seq<usize>) -> bool {
    selected.contains(0) && !prev.contains(0)
}

/// Normalised chip selection: adding "all" resets to just "all"; adding a
/// specific chip drops "all"; a pure deselection keeps the selection,
/// except that "all" never stays next to other chips.
pub open spec fn normalize_spec(prev: Seq<usize>, selected: Seq<usize>) -> Seq<usize> {
    if all_added(prev, selected) {
        seq![0usize]
    } else if something_added(prev, selected) {
        drop_zeros(selected)
    } else if selected.contains(0) && selected.len() > 1 {
        drop_zeros(selected)
    } else {
        selected
    }
}

proof fn lemma_drop_zeros_no_zero(s: Seq<usize>)
    ensures
        !drop_zeros(s).contains(0),
    decreases s.len(),
{
    if s.len() > 0 {
        lemma_drop_zeros_no_zero(s.drop_last());
        let r = drop_zeros(s.drop_last());
        if s.last() != 0 {
            assert forall|i: int| 0 <= i < r.push(s.last()).len() implies r.push(s.last())[i] != 0 by {
                if i < r.len() {
                    assert(r.push(s.last())[i] == r[i]);
                }
            }
        }
    }
}

fn contains_index(s: &[usize], x: usize) -> (r: bool)
    ensures
        r == s@.contains(x),
{
    let n = s.len();
    for i in 0..n
        invariant
            n == s@.len(),
            forall|j: int| 0 <= j < i ==> s@[j] != x,
    {
        if s[i] == x {
            return true;
        }
    }
    false
}

fn without_zeros(s: &[usize]) -> (r: Vec<usize>)
    ensures
        r@ == drop_zeros(s@),
{
    let mut out: Vec<usize> = Vec::new();
    let n = s.len();
    for i in 0..n
        invariant
            n == s@.len(),
            out@ == drop_zeros(s@.take(i as int)),
    {
        if s[i] != 0 {
            out.push(s[i]);
        }
        assert(s@.take(i + 1).drop_last() == s@.take(i as int));
    }
    assert(s@.take(n as int) == s@);
    out
}

/// Normalises the chip selection (`0` is the "all" chip; `prev` is the
/// previous normalised selection).
pub fn normalize_ops_selection(prev: &[usize], selected: &[usize]) -> (r: Vec<usize>)
    ensures
        r@ == normalize_spec(prev@, selected@),
        r@.contains(0) ==> r@ == seq![0usize],
{
    let n = selected.len();
    let mut added_all = false;
    let mut added_any = false;
    let mut has_zero = false;
    for i in 0..n
        invariant
            n == selected@.len(),
            added_any == (exists|j: int| 0 <= j < i && !prev@.contains(#[trigger] selected@[j])),
            added_all == (exists|j: int| 0 <= j < i && selected@[j] == 0 && !prev@.contains(0)),
            has_zero == (exists|j: int| 0 <= j < i && selected@[j] == 0),
    {
        let x = selected[i];
        let fresh = !contains_index(prev, x);
        if fresh {
            added_any = true;
            if x == 0 {
                added_all = true;
            }
        }
        if x == 0 {
            has_zero = true;
        }
    }
    proof {
        lemma_drop_zeros_no_zero(selected@);
        if has_zero {
            let j = choose|j: int| 0 <= j < n && selected@[j] == 0;
            assert(selected@.contains(0));
        }
        if selected@.contains(0) {
            let j = choose|j: int| 0 <= j < n && selected@[j] == 0;
            assert(has_zero);
        }
    }
    if added_all {
        let mut v: Vec<usize> = Vec::new();
        v.push(0);
        return v;
    }
    if added_any {
        return without_zeros(selected);
    }
    if has_zero && n > 1 {
        return without_zeros(selected);
    }
    proof {
        if selected@.contains(0) {
            assert(n == 1);
            assert(selected@ =~= seq![0usize]);
        }
    }
    copy_indices(selected)
}

fn copy_indices(s: &[usize]) -> (r: Vec<usize>)
    ensures
        r@ == s@,
{
    let mut out: Vec<usize> = Vec::new();
    let n = s.len();
    for i in 0..n
        invariant
            n == s@.len(),
            out@ == s@.take(i as int),
    {
        out.push(s[i]);
        assert(s@.take(i + 1) == s@.take(i as int).push(s@[i as int]));
    }
    assert(s@.take(n as int) == s@);
    out
}

/// A selected chip index mapped to its operation (`0` and indices past the
/// options map to nothing).
pub open spec fn chip_ops(selected: Seq<usize>, opts: Seq<OpOption>) -> Seq<ConsoleOp>
    decreases selected.len(),
{
    if selected.len() == 0 {
        Seq::empty()
    } else {
        let rest = chip_ops(selected.drop_last(), opts);
        let k = selected.last();
        if 1 <= k && k - 1 < opts.len() {
            rest.push(opts[k - 1].op)
        } else {
            rest
        }
    }
}

/// `s` with runs of equal neighbours collapsed to one.
pub open spec fn dedup_spec(s: Seq<ConsoleOp>) -> Seq<ConsoleOp>
    decreases s.len(),
{
    if s.len() == 0 {
        s
    } else if s.len() >= 2 && s[s.len() - 1] == s[s.len() - 2] {
        dedup_spec(s.drop_last())
    } else {
        dedup_spec(s.drop_last()).push(s.last())
    }
}

proof fn lemma_dedup_last(s: Seq<ConsoleOp>)
    ensures
        s.len() > 0 ==> dedup_spec(s).len() > 0 && dedup_spec(s).last() == s.last(),
        s.len() == 0 ==> dedup_spec(s).len() == 0,
    decreases s.len(),
{
    if s.len() >= 2 {
        lemma_dedup_last(s.drop_last());
    }
}

/// The operations of the selected chips, adjacent repeats collapsed; the
/// "all" chip and stale indices select nothing.
pub fn selected_ops(selected: &[usize], opts: &[OpOption]) -> (r: Vec<ConsoleOp>)
    ensures
        r@ == dedup_spec(chip_ops(selected@, opts@)),
{
    let ghost mapped: Seq<ConsoleOp> = Seq::empty();
    let mut out: Vec<ConsoleOp> = Vec::new();
    let n = selected.len();
    for i in 0..n
        invariant
            n == selected@.len(),
            mapped == chip_ops(selected@.take(i as int), opts@),
            out@ == dedup_spec(mapped),
    {
        let k = selected[i];
        assert(selected@.take(i + 1).drop_last() == selected@.take(i as int));
        if k >= 1 && k - 1 < opts.len() {
            let op = opts[k - 1].op;
            proof {
                lemma_dedup_last(mapped);
            }
            let ghost next = mapped.push(op);
            assert(next.drop_last() == mapped);
            if out.len() > 0 && out[out.len() - 1] == op {
                assert(next[next.len() - 1] == next[next.len() - 2]);
            } else {
                out.push(op);
            }
            proof {
                mapped = next;
            }
        }
    }
    assert(selected@.take(n as int) == selected@);
    out
}

/// The chips of the operation filter: "all" first, then every option's
/// label made screen-safe.
pub fn op_options(opts: &[OpOption]) -> (r: Vec<String>)
    ensures
        r@.len() == opts@.len() + 1,
        r@[0]@ == TEXT_OPS_ALL@,
        forall|i: int| 0 <= i < opts@.len() ==> (#[trigger] r@[i + 1])@ == display_safe_spec(opts@[i].label@),
{
    let mut out: Vec<String> = Vec::new();
    out.push(owned(TEXT_OPS_ALL));
    let n = opts.len();
    for i in 0..n
        invariant
            n == opts@.len(),
            out@.len() == i + 1,
            out@[0]@ == TEXT_OPS_ALL@,
            forall|j: int| 0 <= j < i ==> (#[trigger] out@[j + 1])@ == display_safe_spec(opts@[j].label@),
    {
        out.push(display_safe(opts[i].label.as_str()));
    }
    out
}

/// The default options: every operation with its own label, in canonical order.
pub fn canonical_ops() -> (r: Vec<OpOption>)
    ensures
        r@.len() == all_ops().len(),
        forall|i: int|
            0 <= i < r@.len() ==> (#[trigger] r@[i]).op == all_ops()[i] && r@[i].label@
                == op_label_spec(all_ops()[i]),
{
    let ops = console_ops();
    let mut out: Vec<OpOption> = Vec::new();
    let n = ops.len();
    for i in 0..n
        invariant
            n == ops@.len(),
            ops@ == all_ops(),
            out@.len() == i,
            forall|j: int|
                0 <= j < i ==> (#[trigger] out@[j]).op == all_ops()[j] && out@[j].label@
                    == op_label_spec(all_ops()[j]),
    {
        let op = ops[i];
        out.push(OpOption { op, label: owned(op.label()) });
    }
    out
}

// ── Query intents ──────────────────────────────────────────────────────────

/// The time range of the filter: the last hour, the last day (both worked
/// out by the server), or a custom range.
#[derive(Clone, Copy, Debug, PartialEq, Eq, Structural)]
pub enum LogRange {
    H1,
    H24,
    Custom,
}

/// The state of the time filter: its range and the two ends of a custom range.
#[derive(Clone, Copy, Debug, PartialEq, Eq, Structural)]
pub struct TimeRangeChange {
    pub range: LogRange,
    pub start: DateTimeValue,
    pub end: DateTimeValue,
}

/// What the page asks the outside to fetch: the range, the custom bounds
/// (UTC ms; only for a custom range), the operation types (empty: all) and
/// the page (from 1).
#[derive(Clone, Debug, PartialEq, Eq)]
pub struct AuditQuery {
    pub range: LogRange,
    pub from_ms: Option<u64>,
    pub to_ms: Option<u64>,
    pub ops: Vec<ConsoleOp>,
    pub page: u32,
}

impl Default for AuditQuery {
    /// The last hour, all operations, the first page.
    fn default() -> (q: Self)
        ensures
            q.range == LogRange::H1,
            q.from_ms is None,
            q.to_ms is None,
            q.ops@.len() == 0,
            q.page == 1,
    {
        AuditQuery { range: LogRange::H1, from_ms: None, to_ms: None, ops: Vec::new(), page: 1 }
    }
}

/// A query as plain values.
pub open spec fn query_view(q: AuditQuery) -> (LogRange, Option<u64>, Option<u64>, Seq<ConsoleOp>, u32) {
    (q.range, q.from_ms, q.to_ms, q.ops@, q.page)
}

/// The filter's ends are real minutes whenever the range is custom.
pub open spec fn change_is_valid(change: TimeRangeChange) -> bool {
    change.range == LogRange::Custom ==> valid_datetime(change.start) && valid_datetime(change.end)
}

/// The query for a filter state: the hour and day ranges carry no bounds
/// (the page reads no clock), a custom range carries both ends in UTC ms.
pub open spec fn audit_query_spec(change: TimeRangeChange, ops: Seq<ConsoleOp>, page: u32) -> (
    LogRange,
    Option<u64>,
    Option<u64>,
    Seq<ConsoleOp>,
    u32,
) {
    let (from, to) = if change.range == LogRange::Custom {
        (Some(datetime_ms(change.start) as u64), Some(datetime_ms(change.end) as u64))
    } else {
        (None, None)
    };
    (change.range, from, to, ops, page)
}

/// Builds the query for a filter state, operation types and page.
pub fn audit_query(change: &TimeRangeChange, ops: &[ConsoleOp], page: u32) -> (q: AuditQuery)
    requires
        change_is_valid(*change),
    ensures
        query_view(q) == audit_query_spec(*change, ops@, page),
{
    let (from_ms, to_ms) = match change.range {
        LogRange::H1 | LogRange::H24 => (None, None),
        LogRange::Custom => (
            Some(datetime_to_epoch_ms(change.start)),
            Some(datetime_to_epoch_ms(change.end)),
        ),
    };
    let mut v: Vec<ConsoleOp> = Vec::new();
    let n = ops.len();
    for i in 0..n
        invariant
            n == ops@.len(),
            v@ == ops@.take(i as int),
    {
        v.push(ops[i]);
        assert(ops@.take(i + 1) == ops@.take(i as int).push(ops@[i as int]));
    }
    assert(ops@.take(n as int) == ops@);
    AuditQuery { range: change.range, from_ms, to_ms, ops: v, page }
}

fn ops_eq(a: &Vec<ConsoleOp>, b: &Vec<ConsoleOp>) -> (r: bool)
    ensures
        r == (a@ == b@),
{
    if a.len() != b.len() {
        return false;
    }
    let n = a.len();
    for i in 0..n
        invariant
            n == a@.len(),
            n == b@.len(),
            forall|j: int| 0 <= j < i ==> a@[j] == b@[j],
    {
        if a[i] != b[i] {
            return false;
        }
    }
    assert(a@ =~= b@);
    true
}

fn opt_u64_eq(a: Option<u64>, b: Option<u64>) -> (r: bool)
    ensures
        r == (a == b),
{
    match (a, b) {
        (Some(x), Some(y)) => x == y,
        (None, None) => true,
        _ => false,
    }
}

/// Whether a filter change is worth a request: only when the query differs
/// from the last one sent.
pub fn should_fire_query(last: Option<&AuditQuery>, q: &AuditQuery) -> (r: bool)
    ensures
        r == !(last matches Some(l) && query_view(*l) == query_view(*q)),
{
    match last {
        Some(l) => !(l.range == q.range && opt_u64_eq(l.from_ms, q.from_ms) && opt_u64_eq(
            l.to_ms,
            q.to_ms,
        ) && ops_eq(&l.ops, &q.ops) && l.page == q.page),
        None => true,
    }
}

/// The page "load more" asks for: none when the last page was the final
/// one, else the page after the current one (page 2 when no page number is
/// known, the first page counting as loaded), never past the largest page
/// number.
pub fn load_more_page(has_more: bool, current: Option<u32>) -> (r: Option<u32>)
    ensures
        !has_more ==> r is None,
        has_more ==> r == Some(
            {
                let cur = match current {
                    Some(p) => p,
                    None => 1u32,
                };
                if cur == u32::MAX {
                    u32::MAX
                } else {
                    (cur + 1) as u32
                }
            },
        ),
{
    if !has_more {
        return None;
    }
    let cur: u32 = match current {
        Some(p) => p,
        None => 1,
    };
    Some(cur.saturating_add(1))
}

/// What the list area shows once laid out.
#[derive(Clone, Copy, Debug, PartialEq, Eq)]
pub struct AuditListLayout {
    pub view: ListView,
    /// Row objects shown, from the first.
    pub rows_visible: usize,
    pub empty_visible: bool,
    pub unavailable_visible: bool,
    /// The footer line, when it shows.
    pub footer: Option<&'static str>,
    /// The read-only note under the rows.
    pub note_visible: bool,
}

/// The list area for `shown` built rows: while the store is unavailable its
/// entries are not trusted, so no row, no footer and no note shows, only the
/// unavailable state (never the empty one); otherwise the rows, with the
/// footer and the note under them, or the empty state.
pub open spec fn audit_list_layout_spec(available: bool, shown: nat, has_more: bool) -> AuditListLayout {
    let view = list_view_spec(available, shown);
    let rows = if available { shown } else { 0 };
    AuditListLayout {
        view,
        rows_visible: rows as usize,
        empty_visible: view == ListView::Empty,
        unavailable_visible: view == ListView::Unavailable,
        footer: if view == ListView::Rows && rows > 0 {
            Some(if has_more { TEXT_FOOTER_LOADING } else { TEXT_FOOTER_ALL })
        } else {
            None
        },
        note_visible: view == ListView::Rows,
    }
}

/// The list area of the audit page.
pub fn audit_list_layout(available: bool, shown: usize, has_more: bool) -> (l: AuditListLayout)
    ensures
        l == audit_list_layout_spec(available, shown as nat, has_more),
        !available ==> l.rows_visible == 0 && l.footer is None && !l.note_visible && !l.empty_visible
            && l.unavailable_visible,
{
    let view = list_view_of(available, shown);
    let rows: usize = if available { shown } else { 0 };
    let footer = match footer_text(has_more, rows) {
        Some(t) => if view == ListView::Rows { Some(t) } else { None },
        None => None,
    };
    AuditListLayout {
        view,
        rows_visible: rows,
        empty_visible: view == ListView::Empty,
        unavailable_visible: view == ListView::Unavailable,
        footer,
        note_visible: view == ListView::Rows,
    }
}

/// How many rows a page shows: its entries, at most [`ROW_MAX`].
pub fn rows_shown(entries: usize) -> (r: usize)
    ensures
        r == (if entries > ROW_MAX { ROW_MAX } else { entries }),
{
    if entries > ROW_MAX {
        ROW_MAX
    } else {
        entries
    }
}

/// The label of an operation: the first injected option for it (screen-safe),
/// else the operation's own label.
pub open spec fn op_label_of_spec(op: ConsoleOp, opts: Seq<OpOption>) -> Seq<char> {
    if exists|i: int| 0 <= i < opts.len() && (#[trigger] opts[i]).op == op {
        let i = choose|i: int|
            0 <= i < opts.len() && (#[trigger] opts[i]).op == op && forall|j: int|
                0 <= j < i ==> (#[trigger] opts[j]).op != op;
        display_safe_spec(opts[i].label@)
    } else {
        op_label_spec(op)
    }
}

/// The on-screen label of an operation.
pub fn op_label_of(op: ConsoleOp, opts: &[OpOption]) -> (r: String)
    ensures
        r@ == op_label_of_spec(op, opts@),
{
    let n = opts.len();
    for i in 0..n
        invariant
            n == opts@.len(),
            forall|j: int| 0 <= j < i ==> (#[trigger] opts@[j]).op != op,
    {
        if opts[i].op == op {
            proof {
                let k = choose|k: int|
                    0 <= k < opts@.len() && (#[trigger] opts@[k]).op == op && forall|j: int|
                        0 <= j < k ==> (#[trigger] opts@[j]).op != op;
                if k < i {
                } else if k > i {
                    assert(opts@[i as int].op == op);
                }
                assert(k == i);
            }
            return display_safe(opts[i].label.as_str());
        }
    }
    owned(op.label())
}

} // verus!
