//! The interlock page: the state shown for an interlock frame section, the
//! lamp and stop cards, trigger-source names, the availability of the two
//! write operations with their in-place reasons, the texts of backend
//! rejections and the confirmation details.
use vstd::prelude::*;

use crate::palette::{rgb, ChipSkin, Color, Palette, UnavailableKind, TEXT_INTERLOCK_UNAVAILABLE};
use crate::text::{
    chars_of, decimal, display_safe_spec, eq_ignore_ascii_case, eq_ignore_ascii_case_spec,
    lemma_join_push, owned, push_decimal, push_display_safe, push_str, seq_join,
    string_from_chars,
};

verus! {

// ── Screen texts ───────────────────────────────────────────────────────────

pub const TEXT_CARD_STATE: &'static str = "联锁状态";

pub const TEXT_STATE_LATCHED: &'static str = "已联锁";

pub const TEXT_STATE_UNLATCHED: &'static str = "未联锁";

/// "Interlock state unavailable": the state cannot be known. Never the same
/// as "not latched".
pub const TEXT_STATE_UNAVAILABLE: &'static str = "联锁状态不可用";

/// Short form of [`TEXT_STATE_UNAVAILABLE`] for the large state word.
pub const TEXT_STATE_UNAVAILABLE_SHORT: &'static str = "不可用";

pub const ICON_STATE_LATCHED: &'static str = "⚠";

pub const ICON_STATE_UNLATCHED: &'static str = "✓";

pub const ICON_STATE_UNAVAILABLE: &'static str = "?";

pub const ICON_FILLED: &'static str = "●";

pub const ICON_HOLLOW: &'static str = "○";

pub const TEXT_LATCH_HELD: &'static str = "自锁保持 · 已保持";

pub const TEXT_LATCH_UNHELD: &'static str = "自锁保持 · 未保持";

pub const TEXT_SOURCES_TITLE: &'static str = "触发源";

pub const TEXT_SOURCES_EMPTY: &'static str = "当前无联锁触发源";

pub const TEXT_SRC_TRIPPED: &'static str = "已触发";

pub const TEXT_SRC_UNTRIPPED: &'static str = "未触发";

pub const TEXT_SRC_ESTOP: &'static str = "急停";

pub const TEXT_SRC_DOOR: &'static str = "门禁";

pub const TEXT_NAME_SEP: &'static str = "/";

pub const TEXT_CLAUSE_SEP: &'static str = " · ";

pub const TEXT_OVERFLOW_MORE: &'static str = "还有";

pub const TEXT_OVERFLOW_UNIT: &'static str = "条";

pub const TEXT_CARD_STOP: &'static str = "停机失败";

pub const TEXT_CARD_FAULT_LAMP: &'static str = "故障灯";

pub const TEXT_CARD_RUN_LAMP: &'static str = "运行灯";

pub const TEXT_STOP_OK: &'static str = "✓ 正常";

pub const TEXT_STOP_FAIL: &'static str = "× 停机失败";

pub const TEXT_LAMP_ON: &'static str = "● 灯亮";

pub const TEXT_LAMP_OFF: &'static str = "○ 灯灭";

/// Lamp state unknown (`None`): never shown as "off".
pub const TEXT_LAMP_UNKNOWN: &'static str = "? 未知";

pub const TEXT_RELEASE: &'static str = "人工释放联锁";

pub const TEXT_ACK_M1: &'static str = "M1 授权重启";

pub const TEXT_AUDIT_NOTE: &'static str = "操作将记入审计";

pub const TEXT_REASON_LATCHED: &'static str = "处于自锁态 · 须先释放联锁";

pub const TEXT_NOT_ENABLED: &'static str = "联锁未启用";

pub const TEXT_STOP_PENDING: &'static str = "停机未确认";

pub const TEXT_CONFLICT: &'static str = "联锁状态已变化 · 请刷新后重试";

pub const TEXT_REJECT_SOURCES: &'static str = "触发源未复位";

pub const TEXT_REJECT_HOLD: &'static str = "保持时间不足";

pub const TEXT_HOLD_MORE: &'static str = "还需";

pub const TEXT_SECONDS: &'static str = "秒";

pub const TEXT_HOLD_NEED: &'static str = "须保持";

pub const TEXT_STOP_PENDING_TRAIL: &'static str = "暂不可授权重启";

pub const TEXT_INTERNAL: &'static str = "内部故障";

pub const TEXT_OP_BUSY: &'static str = "操作进行中";

pub const TEXT_DIALOG_TITLE_RELEASE: &'static str = "确认释放联锁";

pub const TEXT_DIALOG_TITLE_ACK_M1: &'static str = "确认 M1 授权重启";

pub const TEXT_IMPACT_RELEASE: &'static str = "将清除联锁自锁状态 · 装置可恢复运行";

pub const TEXT_IMPACT_ACK_M1: &'static str = "将下发 M1 停机复位 · 装置可重新启动";

pub const TEXT_DETAIL_SOURCES: &'static str = "当前触发源";

pub const TEXT_DETAIL_LATCH: &'static str = "自锁保持";

pub const TEXT_DETAIL_STOP: &'static str = "停机失败";

pub const TEXT_NONE: &'static str = "无";

pub const TEXT_TOAST_RELEASED: &'static str = "已释放联锁";

pub const TEXT_TOAST_ACKED: &'static str = "已授权重启";

pub const TEXT_TOAST_FAIL: &'static str = "操作失败";

pub const TEXT_RETRY_EXPIRED: &'static str = "操作已过期 · 请重新确认后重试";

pub const TEXT_AUDIT_UNAVAILABLE: &'static str = "审计不可用 · 操作未执行";

pub const ICON_OK: &'static str = "✓";

pub const ICON_FAIL: &'static str = "!";

/// Machine name of the emergency-stop source.
pub const SOURCE_KEY_ESTOP: &'static str = "estop";

/// Machine name of the door source.
pub const SOURCE_KEY_DOOR: &'static str = "door";

/// Number of source rows the card lays out.
pub const SOURCE_ROW_POOL: usize = 4;

/// Height of one trigger-source row (px).
pub const SOURCE_ROW_H: i32 = 44;

/// Height of the "no sources" placeholder: icon 64, gap 16, title 28, gap 16 (px).
pub const EMPTY_H: i32 = 124;

/// Height of the "state unavailable" placeholder: the empty placeholder plus
/// a reason line of 24 and a gap of 16 (px).
pub const UNAVAILABLE_H: i32 = 164;

/// Body height of the source card: the rows in the pool (at least the
/// empty placeholder's height) when the state is available, else the
/// unavailable placeholder.
pub open spec fn source_body_h_spec(available: bool, count: nat) -> int {
    if !available {
        UNAVAILABLE_H as int
    } else {
        let rows: int = if count > SOURCE_ROW_POOL { SOURCE_ROW_POOL as int } else { count as int };
        if rows * SOURCE_ROW_H >= EMPTY_H {
            rows * SOURCE_ROW_H
        } else {
            EMPTY_H as int
        }
    }
}

/// Body height of the source card for a frame section.
pub fn source_body_h(s: &InterlockSection) -> (h: i32)
    ensures
        h == source_body_h_spec(s.available, s.sources@.len()),
        EMPTY_H <= h <= UNAVAILABLE_H + 12,
{
    if s.available {
        let n = s.sources.len();
        let rows: i32 = if n > SOURCE_ROW_POOL { 4 } else { n as i32 };
        let h = rows * SOURCE_ROW_H;
        if h >= EMPTY_H { h } else { EMPTY_H }
    } else {
        UNAVAILABLE_H
    }
}

/// Every fixed text the page puts on screen.
pub fn all_texts() -> (v: Vec<&'static str>)
    ensures
        v@ == seq![
            TEXT_CARD_STATE, TEXT_STATE_LATCHED, TEXT_STATE_UNLATCHED,
            TEXT_STATE_UNAVAILABLE, TEXT_STATE_UNAVAILABLE_SHORT, ICON_STATE_LATCHED,
            ICON_STATE_UNLATCHED, ICON_STATE_UNAVAILABLE, ICON_FILLED, ICON_HOLLOW,
            TEXT_LATCH_HELD, TEXT_LATCH_UNHELD, TEXT_SOURCES_TITLE, TEXT_SOURCES_EMPTY,
            TEXT_SRC_TRIPPED, TEXT_SRC_UNTRIPPED, TEXT_SRC_ESTOP, TEXT_SRC_DOOR,
            TEXT_NAME_SEP, TEXT_CLAUSE_SEP, TEXT_OVERFLOW_MORE, TEXT_OVERFLOW_UNIT,
            TEXT_CARD_STOP, TEXT_CARD_FAULT_LAMP, TEXT_CARD_RUN_LAMP, TEXT_STOP_OK,
            TEXT_STOP_FAIL, TEXT_LAMP_ON, TEXT_LAMP_OFF, TEXT_LAMP_UNKNOWN, TEXT_RELEASE,
            TEXT_ACK_M1, TEXT_AUDIT_NOTE, TEXT_REASON_LATCHED, TEXT_NOT_ENABLED,
            TEXT_STOP_PENDING, TEXT_CONFLICT, TEXT_REJECT_SOURCES, TEXT_REJECT_HOLD,
            TEXT_HOLD_MORE, TEXT_SECONDS, TEXT_HOLD_NEED, TEXT_STOP_PENDING_TRAIL,
            TEXT_INTERNAL, TEXT_OP_BUSY, TEXT_DIALOG_TITLE_RELEASE,
            TEXT_DIALOG_TITLE_ACK_M1, TEXT_IMPACT_RELEASE, TEXT_IMPACT_ACK_M1,
            TEXT_DETAIL_SOURCES, TEXT_DETAIL_LATCH, TEXT_DETAIL_STOP, TEXT_NONE,
            TEXT_TOAST_RELEASED, TEXT_TOAST_ACKED, TEXT_TOAST_FAIL, TEXT_RETRY_EXPIRED,
            TEXT_AUDIT_UNAVAILABLE, ICON_OK, ICON_FAIL,
        ],
        v@.len() == 60,
        forall|i: int| 0 <= i < v@.len() ==> (#[trigger] v@[i])@.len() > 0,
{
    let v: Vec<&'static str> = vec![
        TEXT_CARD_STATE, TEXT_STATE_LATCHED, TEXT_STATE_UNLATCHED, TEXT_STATE_UNAVAILABLE,
        TEXT_STATE_UNAVAILABLE_SHORT, ICON_STATE_LATCHED, ICON_STATE_UNLATCHED,
        ICON_STATE_UNAVAILABLE, ICON_FILLED, ICON_HOLLOW, TEXT_LATCH_HELD, TEXT_LATCH_UNHELD,
        TEXT_SOURCES_TITLE, TEXT_SOURCES_EMPTY, TEXT_SRC_TRIPPED, TEXT_SRC_UNTRIPPED,
        TEXT_SRC_ESTOP, TEXT_SRC_DOOR, TEXT_NAME_SEP, TEXT_CLAUSE_SEP, TEXT_OVERFLOW_MORE,
        TEXT_OVERFLOW_UNIT, TEXT_CARD_STOP, TEXT_CARD_FAULT_LAMP, TEXT_CARD_RUN_LAMP,
        TEXT_STOP_OK, TEXT_STOP_FAIL, TEXT_LAMP_ON, TEXT_LAMP_OFF, TEXT_LAMP_UNKNOWN,
        TEXT_RELEASE, TEXT_ACK_M1, TEXT_AUDIT_NOTE, TEXT_REASON_LATCHED, TEXT_NOT_ENABLED,
        TEXT_STOP_PENDING, TEXT_CONFLICT, TEXT_REJECT_SOURCES, TEXT_REJECT_HOLD, TEXT_HOLD_MORE,
        TEXT_SECONDS, TEXT_HOLD_NEED, TEXT_STOP_PENDING_TRAIL, TEXT_INTERNAL, TEXT_OP_BUSY,
        TEXT_DIALOG_TITLE_RELEASE, TEXT_DIALOG_TITLE_ACK_M1, TEXT_IMPACT_RELEASE,
        TEXT_IMPACT_ACK_M1, TEXT_DETAIL_SOURCES, TEXT_DETAIL_LATCH, TEXT_DETAIL_STOP, TEXT_NONE,
        TEXT_TOAST_RELEASED, TEXT_TOAST_ACKED, TEXT_TOAST_FAIL, TEXT_RETRY_EXPIRED,
        TEXT_AUDIT_UNAVAILABLE, ICON_OK, ICON_FAIL,
    ];
    assert(v@ =~= seq![
        TEXT_CARD_STATE, TEXT_STATE_LATCHED, TEXT_STATE_UNLATCHED, TEXT_STATE_UNAVAILABLE,
        TEXT_STATE_UNAVAILABLE_SHORT, ICON_STATE_LATCHED, ICON_STATE_UNLATCHED,
        ICON_STATE_UNAVAILABLE, ICON_FILLED, ICON_HOLLOW, TEXT_LATCH_HELD,
        TEXT_LATCH_UNHELD, TEXT_SOURCES_TITLE, TEXT_SOURCES_EMPTY, TEXT_SRC_TRIPPED,
        TEXT_SRC_UNTRIPPED, TEXT_SRC_ESTOP, TEXT_SRC_DOOR, TEXT_NAME_SEP, TEXT_CLAUSE_SEP,
        TEXT_OVERFLOW_MORE, TEXT_OVERFLOW_UNIT, TEXT_CARD_STOP, TEXT_CARD_FAULT_LAMP,
        TEXT_CARD_RUN_LAMP, TEXT_STOP_OK, TEXT_STOP_FAIL, TEXT_LAMP_ON, TEXT_LAMP_OFF,
        TEXT_LAMP_UNKNOWN, TEXT_RELEASE, TEXT_ACK_M1, TEXT_AUDIT_NOTE, TEXT_REASON_LATCHED,
        TEXT_NOT_ENABLED, TEXT_STOP_PENDING, TEXT_CONFLICT, TEXT_REJECT_SOURCES,
        TEXT_REJECT_HOLD, TEXT_HOLD_MORE, TEXT_SECONDS, TEXT_HOLD_NEED,
        TEXT_STOP_PENDING_TRAIL, TEXT_INTERNAL, TEXT_OP_BUSY, TEXT_DIALOG_TITLE_RELEASE,
        TEXT_DIALOG_TITLE_ACK_M1, TEXT_IMPACT_RELEASE, TEXT_IMPACT_ACK_M1,
        TEXT_DETAIL_SOURCES, TEXT_DETAIL_LATCH, TEXT_DETAIL_STOP, TEXT_NONE,
        TEXT_TOAST_RELEASED, TEXT_TOAST_ACKED, TEXT_TOAST_FAIL, TEXT_RETRY_EXPIRED,
        TEXT_AUDIT_UNAVAILABLE, ICON_OK, ICON_FAIL,
    ]);
    proof {
        reveal_strlit("联锁状态");
        reveal_strlit("已联锁");
        reveal_strlit("未联锁");
        reveal_strlit("联锁状态不可用");
        reveal_strlit("不可用");
        reveal_strlit("⚠");
        reveal_strlit("✓");
        reveal_strlit("?");
        reveal_strlit("●");
        reveal_strlit("○");
        reveal_strlit("自锁保持 · 已保持");
        reveal_strlit("自锁保持 · 未保持");
        reveal_strlit("触发源");
        reveal_strlit("当前无联锁触发源");
        reveal_strlit("已触发");
        reveal_strlit("未触发");
        reveal_strlit("急停");
        reveal_strlit("门禁");
        reveal_strlit("/");
        reveal_strlit(" · ");
        reveal_strlit("还有");
        reveal_strlit("条");
        reveal_strlit("停机失败");
        reveal_strlit("故障灯");
        reveal_strlit("运行灯");
        reveal_strlit("✓ 正常");
        reveal_strlit("× 停机失败");
        reveal_strlit("● 灯亮");
        reveal_strlit("○ 灯灭");
        reveal_strlit("? 未知");
        reveal_strlit("人工释放联锁");
        reveal_strlit("M1 授权重启");
        reveal_strlit("操作将记入审计");
        reveal_strlit("处于自锁态 · 须先释放联锁");
        reveal_strlit("联锁未启用");
        reveal_strlit("停机未确认");
        reveal_strlit("联锁状态已变化 · 请刷新后重试");
        reveal_strlit("触发源未复位");
        reveal_strlit("保持时间不足");
        reveal_strlit("还需");
        reveal_strlit("秒");
        reveal_strlit("须保持");
        reveal_strlit("暂不可授权重启");
        reveal_strlit("内部故障");
        reveal_strlit("操作进行中");
        reveal_strlit("确认释放联锁");
        reveal_strlit("确认 M1 授权重启");
        reveal_strlit("将清除联锁自锁状态 · 装置可恢复运行");
        reveal_strlit("将下发 M1 停机复位 · 装置可重新启动");
        reveal_strlit("当前触发源");
        reveal_strlit("自锁保持");
        reveal_strlit("无");
        reveal_strlit("已释放联锁");
        reveal_strlit("已授权重启");
        reveal_strlit("操作失败");
        reveal_strlit("操作已过期 · 请重新确认后重试");
        reveal_strlit("审计不可用 · 操作未执行");
        reveal_strlit("!");
    }
    v
}

// ── Frame section model ────────────────────────────────────────────────────

/// One trigger source of the interlock: its machine name and whether it tripped.
#[derive(Clone, Debug, PartialEq, Eq)]
pub struct InterlockSourceItem {
    pub name: String,
    pub tripped: bool,
}

/// The interlock section of a display frame.
#[derive(Clone, Debug, PartialEq, Eq)]
pub struct InterlockSection {
    /// Sampling time (ms since the epoch).
    pub ts_ms: u64,
    /// Whether the interlock state source could be read at all.
    pub available: bool,
    pub enabled: bool,
    pub latched: bool,
    pub stop_failed: bool,
    pub sources: Vec<InterlockSourceItem>,
    pub fault_lamp: Option<bool>,
    pub run_lamp: Option<bool>,
    /// How long the sources must stay reset before a release (s).
    pub release_hold_secs: u64,
}

impl Default for InterlockSection {
    /// The contract default: everything false / empty, so "unavailable".
    fn default() -> (r: Self)
        ensures
            r.ts_ms == 0,
            !r.available,
            !r.enabled,
            !r.latched,
            !r.stop_failed,
            r.sources@.len() == 0,
            r.fault_lamp is None,
            r.run_lamp is None,
            r.release_hold_secs == 0,
    {
        InterlockSection {
            ts_ms: 0,
            available: false,
            enabled: false,
            latched: false,
            stop_failed: false,
            sources: Vec::new(),
            fault_lamp: None,
            run_lamp: None,
            release_hold_secs: 0,
        }
    }
}

/// The names and trip flags of the sources, in order.
pub open spec fn sources_view(v: Seq<InterlockSourceItem>) -> Seq<(Seq<char>, bool)> {
    v.map_values(|i: InterlockSourceItem| (i.name@, i.tripped))
}

// ── The three display states ───────────────────────────────────────────────

/// What the state card shows. "Unavailable" (cannot be known) and
/// "Unlatched" (known to be safe) are different states.
#[derive(Clone, Copy, Debug, PartialEq, Eq, Structural)]
pub enum StateView {
    Latched,
    Unlatched,
    Unavailable,
}

/// The fixed slot order of the three states.
pub fn state_view_order() -> (r: [StateView; 3])
    ensures
        r[0] == StateView::Latched,
        r[1] == StateView::Unlatched,
        r[2] == StateView::Unavailable,
{
    [StateView::Latched, StateView::Unlatched, StateView::Unavailable]
}

/// The state a frame section shows: unavailable whenever the source is not
/// available (whatever the latch bit says), else latched or unlatched.
pub open spec fn state_view_spec(available: bool, latched: bool) -> StateView {
    if !available {
        StateView::Unavailable
    } else if latched {
        StateView::Latched
    } else {
        StateView::Unlatched
    }
}

/// The state shown for a frame section.
pub fn state_view(s: &InterlockSection) -> (v: StateView)
    ensures
        v == state_view_spec(s.available, s.latched),
        !s.available ==> v == StateView::Unavailable,
{
    if !s.available {
        StateView::Unavailable
    } else if s.latched {
        StateView::Latched
    } else {
        StateView::Unlatched
    }
}

pub open spec fn state_index_spec(v: StateView) -> usize {
    match v {
        StateView::Latched => 0,
        StateView::Unlatched => 1,
        StateView::Unavailable => 2,
    }
}

/// Slot index of a state (its position in [`state_view_order`]).
pub fn state_index(v: StateView) -> (r: usize)
    ensures
        r == state_index_spec(v),
{
    match v {
        StateView::Latched => 0,
        StateView::Unlatched => 1,
        StateView::Unavailable => 2,
    }
}

pub open spec fn state_text_spec(v: StateView) -> Seq<char> {
    match v {
        StateView::Latched => TEXT_STATE_LATCHED@,
        StateView::Unlatched => TEXT_STATE_UNLATCHED@,
        StateView::Unavailable => TEXT_STATE_UNAVAILABLE_SHORT@,
    }
}

/// The large state word.
pub fn state_text(v: StateView) -> (r: &'static str)
    ensures
        r@ == state_text_spec(v),
{
    match v {
        StateView::Latched => TEXT_STATE_LATCHED,
        StateView::Unlatched => TEXT_STATE_UNLATCHED,
        StateView::Unavailable => TEXT_STATE_UNAVAILABLE_SHORT,
    }
}

pub open spec fn state_icon_spec(v: StateView) -> Seq<char> {
    match v {
        StateView::Latched => ICON_STATE_LATCHED@,
        StateView::Unlatched => ICON_STATE_UNLATCHED@,
        StateView::Unavailable => ICON_STATE_UNAVAILABLE@,
    }
}

/// The state icon (unavailable never reuses the tick or the warning sign).
pub fn state_icon(v: StateView) -> (r: &'static str)
    ensures
        r@ == state_icon_spec(v),
{
    match v {
        StateView::Latched => ICON_STATE_LATCHED,
        StateView::Unlatched => ICON_STATE_UNLATCHED,
        StateView::Unavailable => ICON_STATE_UNAVAILABLE,
    }
}

pub open spec fn state_color_spec(v: StateView) -> Color {
    match v {
        StateView::Latched => rgb(0xFF, 0x6B, 0x6B),
        StateView::Unlatched => rgb(0x2F, 0xDB, 0x8A),
        StateView::Unavailable => rgb(0x8C, 0x98, 0xAC),
    }
}

/// The semantic colour of a state: danger red, ok green, neutral grey.
pub fn state_color(v: StateView) -> (c: Color)
    ensures
        c == state_color_spec(v),
{
    match v {
        StateView::Latched => Palette::danger(),
        StateView::Unlatched => Palette::ok(),
        StateView::Unavailable => Palette::stopped(),
    }
}

pub open spec fn latch_chip_text_spec(v: StateView) -> Seq<char> {
    match v {
        StateView::Latched => TEXT_LATCH_HELD@,
        StateView::Unlatched => TEXT_LATCH_UNHELD@,
        StateView::Unavailable => TEXT_STATE_UNAVAILABLE@,
    }
}

pub open spec fn latch_chip_skin_spec(v: StateView) -> ChipSkin {
    match v {
        StateView::Latched => ChipSkin::Warning,
        StateView::Unlatched => ChipSkin::Neutral,
        StateView::Unavailable => ChipSkin::Unavailable,
    }
}

/// The latch chip: slot, text and skin. The unavailable branch can only
/// say "state unavailable", never "not held".
pub fn latch_chip(v: StateView) -> (r: (usize, &'static str, ChipSkin))
    ensures
        r.0 == state_index_spec(v),
        r.1@ == latch_chip_text_spec(v),
        r.2 == latch_chip_skin_spec(v),
{
    match v {
        StateView::Latched => (0, TEXT_LATCH_HELD, ChipSkin::Warning),
        StateView::Unlatched => (1, TEXT_LATCH_UNHELD, ChipSkin::Neutral),
        StateView::Unavailable => (2, TEXT_STATE_UNAVAILABLE, ChipSkin::Unavailable),
    }
}

pub open spec fn latch_chip_icon_spec(v: StateView) -> Seq<char> {
    match v {
        StateView::Latched => ICON_FILLED@,
        StateView::Unlatched => ICON_HOLLOW@,
        StateView::Unavailable => ICON_STATE_UNAVAILABLE@,
    }
}

/// The latch chip icon: filled, hollow, or the question mark.
pub fn latch_chip_icon(v: StateView) -> (r: &'static str)
    ensures
        r@ == latch_chip_icon_spec(v),
{
    match v {
        StateView::Latched => ICON_FILLED,
        StateView::Unlatched => ICON_HOLLOW,
        StateView::Unavailable => ICON_STATE_UNAVAILABLE,
    }
}

/// The three display states differ in word, icon and colour, pairwise.
pub proof fn lemma_states_distinguishable(a: StateView, b: StateView)
    requires
        a != b,
    ensures
        state_text_spec(a) != state_text_spec(b),
        state_icon_spec(a) != state_icon_spec(b),
        state_color_spec(a) != state_color_spec(b),
        latch_chip_text_spec(a) != latch_chip_text_spec(b),
        latch_chip_icon_spec(a) != latch_chip_icon_spec(b),
{
    reveal_strlit("已联锁");
    reveal_strlit("未联锁");
    reveal_strlit("不可用");
    reveal_strlit("⚠");
    reveal_strlit("✓");
    reveal_strlit("?");
    reveal_strlit("●");
    reveal_strlit("○");
    reveal_strlit("自锁保持 · 已保持");
    reveal_strlit("自锁保持 · 未保持");
    reveal_strlit("联锁状态不可用");
    assert(TEXT_STATE_LATCHED@[0] != TEXT_STATE_UNLATCHED@[0]);
    assert(TEXT_STATE_LATCHED@[0] != TEXT_STATE_UNAVAILABLE_SHORT@[0]);
    assert(TEXT_STATE_UNLATCHED@[0] != TEXT_STATE_UNAVAILABLE_SHORT@[0]);
    assert(TEXT_LATCH_HELD@[7] != TEXT_LATCH_UNHELD@[7]);
    assert(TEXT_LATCH_HELD@.len() != TEXT_STATE_UNAVAILABLE@.len());
    assert(TEXT_LATCH_UNHELD@.len() != TEXT_STATE_UNAVAILABLE@.len());
    assert(ICON_FILLED@[0] != ICON_HOLLOW@[0]);
    assert(ICON_FILLED@[0] != ICON_STATE_UNAVAILABLE@[0]);
    assert(ICON_HOLLOW@[0] != ICON_STATE_UNAVAILABLE@[0]);
    assert(ICON_STATE_LATCHED@[0] != ICON_STATE_UNLATCHED@[0]);
    assert(ICON_STATE_LATCHED@[0] != ICON_STATE_UNAVAILABLE@[0]);
    assert(ICON_STATE_UNLATCHED@[0] != ICON_STATE_UNAVAILABLE@[0]);
}

/// The latch chip sits in the same slot as the state it shows, and the
/// slots are exactly the positions of [`state_view_order`].
pub proof fn lemma_slot_order(v: StateView)
    ensures
        state_index_spec(v) < 3,
        v == StateView::Latched ==> state_index_spec(v) == 0,
        v == StateView::Unlatched ==> state_index_spec(v) == 1,
        v == StateView::Unavailable ==> state_index_spec(v) == 2,
{
}

// ── Lamps and the stop card ────────────────────────────────────────────────

/// A tri-state flag: on, off, or unknown (`None`).
#[derive(Clone, Copy, Debug, PartialEq, Eq, Structural)]
pub enum TriView {
    On,
    Off,
    Unknown,
}

pub open spec fn tri_view_spec(v: Option<bool>) -> TriView {
    match v {
        Some(true) => TriView::On,
        Some(false) => TriView::Off,
        None => TriView::Unknown,
    }
}

/// `Option<bool>` as a tri-state: `None` is unknown, never off.
pub fn tri_view(v: Option<bool>) -> (r: TriView)
    ensures
        r == tri_view_spec(v),
{
    match v {
        Some(true) => TriView::On,
        Some(false) => TriView::Off,
        None => TriView::Unknown,
    }
}

/// The stop card value and its style slot: ok (0) or failed (1).
pub fn stop_view(failed: bool) -> (r: (&'static str, usize))
    ensures
        failed ==> r.0@ == TEXT_STOP_FAIL@ && r.1 == 1,
        !failed ==> r.0@ == TEXT_STOP_OK@ && r.1 == 0,
{
    if failed {
        (TEXT_STOP_FAIL, 1)
    } else {
        (TEXT_STOP_OK, 0)
    }
}

pub open spec fn lamp_text_spec(v: TriView) -> Seq<char> {
    match v {
        TriView::On => TEXT_LAMP_ON@,
        TriView::Off => TEXT_LAMP_OFF@,
        TriView::Unknown => TEXT_LAMP_UNKNOWN@,
    }
}

pub open spec fn lamp_slot_spec(v: TriView) -> usize {
    match v {
        TriView::On => 0,
        TriView::Off => 1,
        TriView::Unknown => 2,
    }
}

/// A lamp card value and its style slot: on (0), off (1), unknown (2).
pub fn lamp_view(v: TriView) -> (r: (&'static str, usize))
    ensures
        r.0@ == lamp_text_spec(v),
        r.1 == lamp_slot_spec(v),
{
    match v {
        TriView::On => (TEXT_LAMP_ON, 0),
        TriView::Off => (TEXT_LAMP_OFF, 1),
        TriView::Unknown => (TEXT_LAMP_UNKNOWN, 2),
    }
}

/// An unknown lamp is never shown as off.
pub proof fn lemma_unknown_lamp_is_not_off()
    ensures
        lamp_text_spec(tri_view_spec(None)) != lamp_text_spec(TriView::Off),
        lamp_slot_spec(tri_view_spec(None)) == 2,
{
    reveal_strlit("? 未知");
    reveal_strlit("○ 灯灭");
    assert(TEXT_LAMP_UNKNOWN@[0] != TEXT_LAMP_OFF@[0]);
}

/// Colour of a lit lamp: fault lamp red, run lamp green.
pub fn lamp_on_color(is_fault: bool) -> (c: Color)
    ensures
        is_fault ==> c == rgb(0xDC, 0x35, 0x45),
        !is_fault ==> c == rgb(0x28, 0xA7, 0x45),
{
    if is_fault {
        Palette::link_down()
    } else {
        Palette::link_ok()
    }
}

/// Colour of an unlit lamp.
pub fn lamp_off_color() -> (c: Color)
    ensures
        c == rgb(0x5F, 0x63, 0x68),
{
    Palette::link_unconfigured()
}

/// The grey of unknown and unavailable values.
pub fn gray_color() -> (c: Color)
    ensures
        c == rgb(0x8C, 0x98, 0xAC),
{
    Palette::stopped()
}

// ── Trigger sources ────────────────────────────────────────────────────────

/// The on-screen name of a trigger source: the registered Chinese name when
/// the machine name matches one ignoring ASCII case, else the machine name
/// rewritten for the panel font.
pub open spec fn source_label_spec(name: Seq<char>) -> Seq<char> {
    if eq_ignore_ascii_case_spec(name, SOURCE_KEY_ESTOP@) {
        TEXT_SRC_ESTOP@
    } else if eq_ignore_ascii_case_spec(name, SOURCE_KEY_DOOR@) {
        TEXT_SRC_DOOR@
    } else {
        display_safe_spec(name)
    }
}

/// Appends the on-screen name of a trigger source.
pub fn push_source_label(v: &mut Vec<char>, name: &str)
    ensures
        final(v)@ == old(v)@ + source_label_spec(name@),
{
    if eq_ignore_ascii_case(name, SOURCE_KEY_ESTOP) {
        push_str(v, TEXT_SRC_ESTOP);
    } else if eq_ignore_ascii_case(name, SOURCE_KEY_DOOR) {
        push_str(v, TEXT_SRC_DOOR);
    } else {
        push_display_safe(v, name);
    }
}

/// The on-screen name of a trigger source.
pub fn source_label(name: &str) -> (r: String)
    ensures
        r@ == source_label_spec(name@),
{
    let mut v: Vec<char> = Vec::new();
    push_source_label(&mut v, name);
    string_from_chars(v)
}

/// The status word of a source row.
pub fn source_status_text(tripped: bool) -> (r: &'static str)
    ensures
        tripped ==> r@ == TEXT_SRC_TRIPPED@,
        !tripped ==> r@ == TEXT_SRC_UNTRIPPED@,
{
    if tripped {
        TEXT_SRC_TRIPPED
    } else {
        TEXT_SRC_UNTRIPPED
    }
}

/// The source card title with the count: `触发源 · N`.
pub fn sources_title(count: usize) -> (r: String)
    ensures
        r@ == TEXT_SOURCES_TITLE@ + TEXT_CLAUSE_SEP@ + decimal(count as nat),
{
    let mut v: Vec<char> = Vec::new();
    push_str(&mut v, TEXT_SOURCES_TITLE);
    push_str(&mut v, TEXT_CLAUSE_SEP);
    push_decimal(&mut v, count as u64);
    string_from_chars(v)
}

/// The note that says how many sources do not fit the rows: empty when all
/// fit, else ` · 还有 N 条` with N the number left out.
pub open spec fn overflow_note_spec(count: nat) -> Seq<char> {
    if count <= SOURCE_ROW_POOL {
        Seq::empty()
    } else {
        TEXT_CLAUSE_SEP@ + TEXT_OVERFLOW_MORE@ + " "@ + decimal((count - SOURCE_ROW_POOL) as nat)
            + " "@ + TEXT_OVERFLOW_UNIT@
    }
}

/// The overflow note of the source card.
pub fn sources_overflow_note(count: usize) -> (r: String)
    ensures
        r@ == overflow_note_spec(count as nat),
        r@.len() == 0 <==> count <= SOURCE_ROW_POOL,
{
    let hidden: usize = if count > SOURCE_ROW_POOL { count - SOURCE_ROW_POOL } else { 0 };
    if hidden == 0 {
        return string_from_chars(Vec::new());
    }
    let mut v: Vec<char> = Vec::new();
    push_str(&mut v, TEXT_CLAUSE_SEP);
    push_str(&mut v, TEXT_OVERFLOW_MORE);
    push_str(&mut v, " ");
    push_decimal(&mut v, hidden as u64);
    push_str(&mut v, " ");
    push_str(&mut v, TEXT_OVERFLOW_UNIT);
    proof {
        reveal_strlit(" · ");
    }
    string_from_chars(v)
}

/// The on-screen names of the given machine names, in order.
pub open spec fn labels_of(names: Seq<Seq<char>>) -> Seq<Seq<char>> {
    names.map_values(|n: Seq<char>| source_label_spec(n))
}

/// The on-screen names joined with `/`.
pub open spec fn joined_labels(names: Seq<Seq<char>>) -> Seq<char> {
    seq_join(labels_of(names), TEXT_NAME_SEP@)
}

/// Appends the on-screen names of `names` joined with `/`.
fn push_joined_labels(v: &mut Vec<char>, names: &Vec<String>)
    ensures
        final(v)@ == old(v)@ + joined_labels(names@.map_values(|n: String| n@)),
{
    let ghost start = v@;
    let ghost ns = names@.map_values(|n: String| n@);
    let n = names.len();
    for i in 0..n
        invariant
            n == names@.len(),
            ns == names@.map_values(|n: String| n@),
            v@ == start + joined_labels(ns.take(i as int)),
    {
        let ghost before = v@;
        if i > 0 {
            push_str(v, TEXT_NAME_SEP);
        }
        push_source_label(v, names[i].as_str());
        proof {
            let prev = labels_of(ns.take(i as int));
            assert(labels_of(ns.take(i + 1)) == prev.push(source_label_spec(ns[i as int])));
            if i > 0 {
                lemma_join_push(prev, TEXT_NAME_SEP@, source_label_spec(ns[i as int]));
            } else {
                assert(prev.push(source_label_spec(ns[0])) =~= seq![source_label_spec(ns[0])]);
            }
        }
    }
    assert(ns.take(n as int) == ns);
}

/// The names of all sources for the confirmation details, joined with
/// `/`; `无` when there are none.
pub open spec fn sources_text_spec(sources: Seq<InterlockSourceItem>) -> Seq<char> {
    if sources.len() == 0 {
        TEXT_NONE@
    } else {
        joined_labels(sources.map_values(|i: InterlockSourceItem| i.name@))
    }
}

/// The on-screen list of all source names (`无` when empty).
pub fn sources_text(s: &InterlockSection) -> (r: String)
    ensures
        r@ == sources_text_spec(s.sources@),
{
    if s.sources.len() == 0 {
        return owned(TEXT_NONE);
    }
    let mut names: Vec<String> = Vec::new();
    let n = s.sources.len();
    for i in 0..n
        invariant
            n == s.sources@.len(),
            names@.len() == i,
            forall|j: int| 0 <= j < i ==> (#[trigger] names@[j])@ == s.sources@[j].name@,
    {
        names.push(s.sources[i].name.clone());
    }
    let mut v: Vec<char> = Vec::new();
    push_joined_labels(&mut v, &names);
    assert(names@.map_values(|n: String| n@) =~= s.sources@.map_values(
        |i: InterlockSourceItem| i.name@,
    ));
    string_from_chars(v)
}

// ── Source card and status cards of a frame ────────────────────────────────

/// Rows of the source card that show a source: none while the state is
/// unavailable, else the sources up to the row pool.
pub fn shown_source_rows(s: &InterlockSection) -> (n: usize)
    ensures
        n == (if !s.available {
            0
        } else if s.sources@.len() > SOURCE_ROW_POOL {
            SOURCE_ROW_POOL as int
        } else {
            s.sources@.len() as int
        }),
{
    if !s.available {
        0
    } else if s.sources.len() > SOURCE_ROW_POOL {
        SOURCE_ROW_POOL
    } else {
        s.sources.len()
    }
}

/// Which placeholder the source card shows in place of rows, as
/// `(empty, unavailable)`: "no trigger source" only while the state is
/// available and there is no source, "state unavailable" exactly while it is
/// not; never both.
pub fn source_placeholders(s: &InterlockSection) -> (r: (bool, bool))
    ensures
        r.0 == (s.available && s.sources@.len() == 0),
        r.1 == !s.available,
        !(r.0 && r.1),
{
    (s.available && s.sources.len() == 0, !s.available)
}

/// The head of the source card: the title with the count, and the overflow
/// note while the state is available (no rows are laid out otherwise).
pub open spec fn source_card_title_spec(available: bool, count: nat) -> Seq<char> {
    TEXT_SOURCES_TITLE@ + TEXT_CLAUSE_SEP@ + decimal(count) + if available {
        overflow_note_spec(count)
    } else {
        Seq::empty()
    }
}

/// The head of the source card for a frame section.
pub fn source_card_title(s: &InterlockSection) -> (r: String)
    ensures
        r@ == source_card_title_spec(s.available, s.sources@.len()),
{
    let n = s.sources.len();
    let title = sources_title(n);
    if !s.available {
        return title;
    }
    let note = sources_overflow_note(n);
    let mut v = chars_of(title.as_str());
    push_str(&mut v, note.as_str());
    string_from_chars(v)
}

/// The three status cards (stop, fault lamp, run lamp) as `(text, slot)`:
/// all three grey with the unavailable placeholder while the state is
/// unavailable, else the stop card and the two lamps.
pub open spec fn status_cards_spec(s: InterlockSection) -> Seq<(Seq<char>, usize)> {
    if !s.available {
        let t = ICON_STATE_UNAVAILABLE@ + " "@ + TEXT_INTERLOCK_UNAVAILABLE@;
        seq![(t, 2usize), (t, 2usize), (t, 2usize)]
    } else {
        seq![
            (stop_word(s.stop_failed), if s.stop_failed { 1usize } else { 0usize }),
            (lamp_text_spec(tri_view_spec(s.fault_lamp)), lamp_slot_spec(tri_view_spec(s.fault_lamp))),
            (lamp_text_spec(tri_view_spec(s.run_lamp)), lamp_slot_spec(tri_view_spec(s.run_lamp))),
        ]
    }
}

pub open spec fn cards_view(v: Seq<(String, usize)>) -> Seq<(Seq<char>, usize)> {
    v.map_values(|c: (String, usize)| (c.0@, c.1))
}

/// The status cards of a frame section.
pub fn status_cards(s: &InterlockSection) -> (v: Vec<(String, usize)>)
    ensures
        cards_view(v@) == status_cards_spec(*s),
{
    if !s.available {
        let kind = UnavailableKind::Interlock;
        let mut t: Vec<char> = Vec::new();
        push_str(&mut t, kind.icon());
        push_str(&mut t, " ");
        push_str(&mut t, kind.title());
        let a = string_from_chars(t.clone());
        let b = string_from_chars(t.clone());
        let c = string_from_chars(t);
        let v = vec![(a, 2usize), (b, 2usize), (c, 2usize)];
        assert(cards_view(v@) =~= status_cards_spec(*s));
        return v;
    }
    let (t0, s0) = stop_view(s.stop_failed);
    let (t1, s1) = lamp_view(tri_view(s.fault_lamp));
    let (t2, s2) = lamp_view(tri_view(s.run_lamp));
    let v = vec![(owned(t0), s0), (owned(t1), s1), (owned(t2), s2)];
    assert(cards_view(v@) =~= status_cards_spec(*s));
    v
}

// ── Operation availability ─────────────────────────────────────────────────

/// Availability of the two operation buttons and their in-place reasons.
#[derive(Clone, Copy, Debug, PartialEq, Eq)]
pub struct OpState {
    pub release_disabled: bool,
    pub release_reason: Option<&'static str>,
    pub restart_disabled: bool,
    pub restart_reason: Option<&'static str>,
}

/// The reason that blocks both buttons: state unavailable first, then
/// interlock not enabled; none otherwise.
pub open spec fn global_block_spec(available: bool, enabled: bool) -> Option<Seq<char>> {
    if !available {
        Some(TEXT_STATE_UNAVAILABLE@)
    } else if !enabled {
        Some(TEXT_NOT_ENABLED@)
    } else {
        None
    }
}

pub open spec fn opt_text(o: Option<&'static str>) -> Option<Seq<char>> {
    match o {
        Some(t) => Some(t@),
        None => None,
    }
}

/// The button matrix, first matching rule wins: a global block
/// (unavailable, not enabled) disables both with its reason; submitting
/// disables both without any reason; a latched interlock disables only the
/// M1 restart, with the latch reason. The release is never disabled for
/// being latched, and the stop-failed flag plays no part.
pub fn op_state(s: &InterlockSection, submitting: bool) -> (r: OpState)
    ensures
        opt_text(r.release_reason) == global_block_spec(s.available, s.enabled),
        r.release_disabled == (global_block_spec(s.available, s.enabled) is Some || submitting),
        r.restart_disabled == (r.release_disabled || s.latched),
        opt_text(r.restart_reason) == (match global_block_spec(s.available, s.enabled) {
            Some(g) => Some(g),
            None => if !submitting && s.latched {
                Some(TEXT_REASON_LATCHED@)
            } else {
                None
            },
        }),
{
    let global: Option<&'static str> = if !s.available {
        Some(TEXT_STATE_UNAVAILABLE)
    } else if !s.enabled {
        Some(TEXT_NOT_ENABLED)
    } else {
        None
    };
    let busy = global.is_none() && submitting;
    let release_disabled = global.is_some() || busy;
    let restart_local: Option<&'static str> = if s.latched {
        Some(TEXT_REASON_LATCHED)
    } else {
        None
    };
    let restart_reason = match global {
        Some(g) => Some(g),
        None => if busy {
            None
        } else {
            restart_local
        },
    };
    OpState {
        release_disabled,
        release_reason: global,
        restart_disabled: release_disabled || restart_local.is_some(),
        restart_reason,
    }
}

// ── Backend rejections ─────────────────────────────────────────────────────

/// Why the backend refused an interlock operation.
#[derive(Clone, Debug, PartialEq, Eq)]
pub enum InterlockReject {
    SourcesNotReset { remaining: Vec<String> },
    HoldNotElapsed { need_secs: u64, remaining_secs: u64 },
    Latched,
    StopPending,
    NotEnabled,
    Busy,
    Internal(String),
}

/// The hold countdown: `保持时间不足 · 还需 N 秒`.
pub open spec fn hold_text_spec(remaining: nat) -> Seq<char> {
    TEXT_REJECT_HOLD@ + TEXT_CLAUSE_SEP@ + TEXT_HOLD_MORE@ + " "@ + decimal(remaining) + " "@
        + TEXT_SECONDS@
}

/// The in-place text of a rejection; each variant has its own words.
pub open spec fn reject_text_spec(r: InterlockReject) -> Seq<char> {
    match r {
        InterlockReject::SourcesNotReset { remaining } => if remaining@.len() == 0 {
            TEXT_REJECT_SOURCES@
        } else {
            TEXT_REJECT_SOURCES@ + TEXT_CLAUSE_SEP@ + joined_labels(
                remaining@.map_values(|n: String| n@),
            )
        },
        InterlockReject::HoldNotElapsed { need_secs, remaining_secs } => hold_text_spec(
            remaining_secs as nat,
        ) + TEXT_CLAUSE_SEP@ + TEXT_HOLD_NEED@ + " "@ + decimal(need_secs as nat) + " "@
            + TEXT_SECONDS@,
        InterlockReject::Latched => TEXT_REASON_LATCHED@,
        InterlockReject::StopPending => TEXT_STOP_PENDING@ + TEXT_CLAUSE_SEP@
            + TEXT_STOP_PENDING_TRAIL@,
        InterlockReject::NotEnabled => TEXT_NOT_ENABLED@,
        InterlockReject::Busy => TEXT_OP_BUSY@,
        InterlockReject::Internal(detail) => TEXT_INTERNAL@ + TEXT_CLAUSE_SEP@ + display_safe_spec(
            detail@,
        ),
    }
}

fn push_hold_text(v: &mut Vec<char>, remaining_secs: u64)
    ensures
        final(v)@ == old(v)@ + hold_text_spec(remaining_secs as nat),
{
    push_str(v, TEXT_REJECT_HOLD);
    push_str(v, TEXT_CLAUSE_SEP);
    push_str(v, TEXT_HOLD_MORE);
    push_str(v, " ");
    push_decimal(v, remaining_secs);
    push_str(v, " ");
    push_str(v, TEXT_SECONDS);
}

/// The hold countdown text.
pub fn hold_text(remaining_secs: u64) -> (r: String)
    ensures
        r@ == hold_text_spec(remaining_secs as nat),
{
    let mut v: Vec<char> = Vec::new();
    push_hold_text(&mut v, remaining_secs);
    string_from_chars(v)
}

/// The in-place text of a backend rejection.
pub fn reject_text(r: &InterlockReject) -> (t: String)
    ensures
        t@ == reject_text_spec(*r),
{
    let mut v: Vec<char> = Vec::new();
    match r {
        InterlockReject::SourcesNotReset { remaining } => {
            push_str(&mut v, TEXT_REJECT_SOURCES);
            if remaining.len() > 0 {
                push_str(&mut v, TEXT_CLAUSE_SEP);
                push_joined_labels(&mut v, remaining);
            }
        },
        InterlockReject::HoldNotElapsed { need_secs, remaining_secs } => {
            push_hold_text(&mut v, *remaining_secs);
            push_str(&mut v, TEXT_CLAUSE_SEP);
            push_str(&mut v, TEXT_HOLD_NEED);
            push_str(&mut v, " ");
            push_decimal(&mut v, *need_secs);
            push_str(&mut v, " ");
            push_str(&mut v, TEXT_SECONDS);
        },
        InterlockReject::Latched => {
            push_str(&mut v, TEXT_REASON_LATCHED);
        },
        InterlockReject::StopPending => {
            push_str(&mut v, TEXT_STOP_PENDING);
            push_str(&mut v, TEXT_CLAUSE_SEP);
            push_str(&mut v, TEXT_STOP_PENDING_TRAIL);
        },
        InterlockReject::NotEnabled => {
            push_str(&mut v, TEXT_NOT_ENABLED);
        },
        InterlockReject::Busy => {
            push_str(&mut v, TEXT_OP_BUSY);
        },
        InterlockReject::Internal(detail) => {
            push_str(&mut v, TEXT_INTERNAL);
            push_str(&mut v, TEXT_CLAUSE_SEP);
            push_display_safe(&mut v, detail.as_str());
        },
    }
    string_from_chars(v)
}

/// The variant of a rejection, as a number.
pub open spec fn reject_kind(r: InterlockReject) -> int {
    match r {
        InterlockReject::SourcesNotReset { .. } => 0,
        InterlockReject::HoldNotElapsed { .. } => 1,
        InterlockReject::Latched => 2,
        InterlockReject::StopPending => 3,
        InterlockReject::NotEnabled => 4,
        InterlockReject::Busy => 5,
        InterlockReject::Internal(..) => 6,
    }
}

/// Rejections of different kinds never read the same: each text is
/// non-empty and its first character tells the kind apart.
pub proof fn lemma_reject_texts_distinct(a: InterlockReject, b: InterlockReject)
    requires
        reject_kind(a) != reject_kind(b),
    ensures
        reject_text_spec(a).len() > 0,
        reject_text_spec(a) != reject_text_spec(b),
{
    reveal_strlit("触发源未复位");
    reveal_strlit("保持时间不足");
    reveal_strlit("处于自锁态 · 须先释放联锁");
    reveal_strlit("停机未确认");
    reveal_strlit("联锁未启用");
    reveal_strlit("操作进行中");
    reveal_strlit("内部故障");
    lemma_reject_first_char(a);
    lemma_reject_first_char(b);
}

/// The first character of a rejection text, by kind.
pub open spec fn reject_first_char(k: int) -> char {
    if k == 0 {
        '触'
    } else if k == 1 {
        '保'
    } else if k == 2 {
        '处'
    } else if k == 3 {
        '停'
    } else if k == 4 {
        '联'
    } else if k == 5 {
        '操'
    } else {
        '内'
    }
}

proof fn lemma_reject_first_char(r: InterlockReject)
    ensures
        reject_text_spec(r).len() > 0,
        reject_text_spec(r)[0] == reject_first_char(reject_kind(r)),
{
    reveal_strlit("触发源未复位");
    reveal_strlit("保持时间不足");
    reveal_strlit("处于自锁态 · 须先释放联锁");
    reveal_strlit("停机未确认");
    reveal_strlit("联锁未启用");
    reveal_strlit("操作进行中");
    reveal_strlit("内部故障");
}

/// An unregistered ASCII machine name is never shown under a registered
/// Chinese source name.
pub proof fn lemma_unregistered_name_not_impersonated(name: Seq<char>)
    requires
        forall|i: int| 0 <= i < name.len() ==> crate::text::is_ascii_char(#[trigger] name[i]),
        !eq_ignore_ascii_case_spec(name, SOURCE_KEY_ESTOP@),
        !eq_ignore_ascii_case_spec(name, SOURCE_KEY_DOOR@),
    ensures
        source_label_spec(name) != TEXT_SRC_ESTOP@,
        source_label_spec(name) != TEXT_SRC_DOOR@,
{
    reveal_strlit("急停");
    reveal_strlit("门禁");
    let shown = display_safe_spec(name);
    assert(TEXT_SRC_ESTOP@[0] == '急' && TEXT_SRC_DOOR@[0] == '门');
    if name.len() > 0 {
        let c = shown[0];
        assert(c == crate::text::safe_char(name[0]));
        assert(c != '急' && c != '门');
        assert(shown != TEXT_SRC_ESTOP@);
        assert(shown != TEXT_SRC_DOOR@);
    } else {
        assert(shown.len() == 0);
    }
}

// ── Operation payload ──────────────────────────────────────────────────────

/// What the page observed when the operator confirmed: the latch bit and the
/// machine names of all sources (tripped or not), for the backend's
/// optimistic concurrency check.
#[derive(Clone, Debug, PartialEq, Eq)]
pub struct InterlockOpPayload {
    pub observed_latched: bool,
    pub observed_sources: Vec<String>,
}

/// The payload of an operation: the observed latch bit and every source's
/// machine name, in frame order.
pub fn op_payload(s: &InterlockSection) -> (p: InterlockOpPayload)
    ensures
        p.observed_latched == s.latched,
        p.observed_sources@.len() == s.sources@.len(),
        forall|i: int|
            0 <= i < s.sources@.len() ==> (#[trigger] p.observed_sources@[i])@
                == s.sources@[i].name@,
{
    let mut names: Vec<String> = Vec::new();
    let n = s.sources.len();
    for i in 0..n
        invariant
            n == s.sources@.len(),
            names@.len() == i,
            forall|j: int| 0 <= j < i ==> (#[trigger] names@[j])@ == s.sources@[j].name@,
    {
        names.push(s.sources[i].name.clone());
    }
    InterlockOpPayload { observed_latched: s.latched, observed_sources: names }
}

// ── Confirmation dialog ────────────────────────────────────────────────────

/// The two write operations of the page.
#[derive(Clone, Copy, Debug, PartialEq, Eq, Structural)]
pub enum OpKind {
    /// Manual release of the interlock.
    Release,
    /// M1 authorised restart.
    AckM1,
}

impl OpKind {
    /// Title of the confirmation dialog.
    pub fn dialog_title(self) -> (r: &'static str)
        ensures
            self == OpKind::Release ==> r@ == TEXT_DIALOG_TITLE_RELEASE@,
            self == OpKind::AckM1 ==> r@ == TEXT_DIALOG_TITLE_ACK_M1@,
    {
        match self {
            OpKind::Release => TEXT_DIALOG_TITLE_RELEASE,
            OpKind::AckM1 => TEXT_DIALOG_TITLE_ACK_M1,
        }
    }

    /// The concrete side effect named in the dialog.
    pub fn impact(self) -> (r: &'static str)
        ensures
            self == OpKind::Release ==> r@ == TEXT_IMPACT_RELEASE@,
            self == OpKind::AckM1 ==> r@ == TEXT_IMPACT_ACK_M1@,
    {
        match self {
            OpKind::Release => TEXT_IMPACT_RELEASE,
            OpKind::AckM1 => TEXT_IMPACT_ACK_M1,
        }
    }

    /// The success toast.
    pub fn toast_ok(self) -> (r: &'static str)
        ensures
            self == OpKind::Release ==> r@ == TEXT_TOAST_RELEASED@,
            self == OpKind::AckM1 ==> r@ == TEXT_TOAST_ACKED@,
    {
        match self {
            OpKind::Release => TEXT_TOAST_RELEASED,
            OpKind::AckM1 => TEXT_TOAST_ACKED,
        }
    }
}

/// One detail row of the dialog: field, current value, value after the operation.
#[derive(Clone, Debug, PartialEq, Eq)]
pub struct DetailRow {
    pub field: &'static str,
    pub before: String,
    pub after: String,
}

pub open spec fn latch_word(latched: bool) -> Seq<char> {
    if latched {
        TEXT_LATCH_HELD@
    } else {
        TEXT_LATCH_UNHELD@
    }
}

pub open spec fn stop_word(failed: bool) -> Seq<char> {
    if failed {
        TEXT_STOP_FAIL@
    } else {
        TEXT_STOP_OK@
    }
}

/// The three detail rows (sources, latch, stop) as `(field, before, after)`.
/// A release clears the sources and the latch and leaves the stop state;
/// an M1 restart leaves sources and latch and brings the stop state to normal.
pub open spec fn dialog_details_spec(s: InterlockSection, op: OpKind) -> Seq<
    (Seq<char>, Seq<char>, Seq<char>),
> {
    let src = sources_text_spec(s.sources@);
    let latch = latch_word(s.latched);
    let stop = stop_word(s.stop_failed);
    match op {
        OpKind::Release => seq![
            (TEXT_DETAIL_SOURCES@, src, TEXT_NONE@),
            (TEXT_DETAIL_LATCH@, latch, TEXT_LATCH_UNHELD@),
            (TEXT_DETAIL_STOP@, stop, stop),
        ],
        OpKind::AckM1 => seq![
            (TEXT_DETAIL_SOURCES@, src, src),
            (TEXT_DETAIL_LATCH@, latch, latch),
            (TEXT_DETAIL_STOP@, stop, TEXT_STOP_OK@),
        ],
    }
}

pub open spec fn detail_rows_view(v: Seq<DetailRow>) -> Seq<(Seq<char>, Seq<char>, Seq<char>)> {
    v.map_values(|d: DetailRow| (d.field@, d.before@, d.after@))
}

/// The confirmation details of an operation.
pub fn dialog_details(s: &InterlockSection, op: OpKind) -> (d: Vec<DetailRow>)
    ensures
        detail_rows_view(d@) == dialog_details_spec(*s, op),
{
    let latch: &'static str = if s.latched { TEXT_LATCH_HELD } else { TEXT_LATCH_UNHELD };
    let stop: &'static str = if s.stop_failed { TEXT_STOP_FAIL } else { TEXT_STOP_OK };
    let d = match op {
        OpKind::Release => vec![
            DetailRow { field: TEXT_DETAIL_SOURCES, before: sources_text(s), after: owned(TEXT_NONE) },
            DetailRow { field: TEXT_DETAIL_LATCH, before: owned(latch), after: owned(TEXT_LATCH_UNHELD) },
            DetailRow { field: TEXT_DETAIL_STOP, before: owned(stop), after: owned(stop) },
        ],
        OpKind::AckM1 => vec![
            DetailRow { field: TEXT_DETAIL_SOURCES, before: sources_text(s), after: sources_text(s) },
            DetailRow { field: TEXT_DETAIL_LATCH, before: owned(latch), after: owned(latch) },
            DetailRow { field: TEXT_DETAIL_STOP, before: owned(stop), after: owned(TEXT_STOP_OK) },
        ],
    };
    assert(detail_rows_view(d@) =~= dialog_details_spec(*s, op));
    d
}

/// Whether the confirmation dialog of an operation may open: not while
/// another one is open, nor while the operation is blocked locally.
pub open spec fn dialog_may_open_spec(
    s: InterlockSection,
    submitting: bool,
    op: OpKind,
    dialog_open: bool,
) -> bool {
    let blocked = global_block_spec(s.available, s.enabled) is Some || submitting || (op
        == OpKind::AckM1 && s.latched);
    !dialog_open && !blocked
}

/// Whether the confirmation dialog of an operation may open.
pub fn dialog_may_open(s: &InterlockSection, submitting: bool, op: OpKind, dialog_open: bool) -> (r: bool)
    ensures
        r == dialog_may_open_spec(*s, submitting, op, dialog_open),
{
    if dialog_open {
        return false;
    }
    let st = op_state(s, submitting);
    let blocked = match op {
        OpKind::Release => st.release_disabled,
        OpKind::AckM1 => st.restart_disabled,
    };
    !blocked
}

/// A failure to open the dialog is logged the first time and every
/// sixty-fourth time after.
pub const OPEN_FAIL_LOG_EVERY: u32 = 64;

/// Counts one more failure to open the dialog (saturating) and says whether
/// this one is logged.
pub fn note_open_failure(count: u32) -> (r: (u32, bool))
    ensures
        r.0 == (if count == u32::MAX { u32::MAX as int } else { count + 1 }),
        r.1 == (r.0 == 1 || r.0 % OPEN_FAIL_LOG_EVERY == 0),
{
    let n = count.saturating_add(1);
    (n, n == 1 || n % OPEN_FAIL_LOG_EVERY == 0)
}

// ── Frame comparison ───────────────────────────────────────────────────────

/// Two sections show the same thing: every field but the sampling time agrees.
pub open spec fn section_display_eq_spec(a: InterlockSection, b: InterlockSection) -> bool {
    &&& a.available == b.available
    &&& a.enabled == b.enabled
    &&& a.latched == b.latched
    &&& a.stop_failed == b.stop_failed
    &&& sources_view(a.sources@) == sources_view(b.sources@)
    &&& a.fault_lamp == b.fault_lamp
    &&& a.run_lamp == b.run_lamp
    &&& a.release_hold_secs == b.release_hold_secs
}

fn opt_bool_eq(a: Option<bool>, b: Option<bool>) -> (r: bool)
    ensures
        r == (a == b),
{
    match (a, b) {
        (Some(x), Some(y)) => x == y,
        (None, None) => true,
        _ => false,
    }
}

fn sources_eq(a: &Vec<InterlockSourceItem>, b: &Vec<InterlockSourceItem>) -> (r: bool)
    ensures
        r == (sources_view(a@) == sources_view(b@)),
{
    if a.len() != b.len() {
        assert(sources_view(a@).len() != sources_view(b@).len());
        return false;
    }
    let n = a.len();
    for i in 0..n
        invariant
            n == a@.len(),
            n == b@.len(),
            forall|j: int|
                0 <= j < i ==> (#[trigger] sources_view(a@)[j]) == sources_view(b@)[j],
    {
        if a[i].name != b[i].name || a[i].tripped != b[i].tripped {
            assert(sources_view(a@)[i as int] != sources_view(b@)[i as int]);
            return false;
        }
    }
    assert(sources_view(a@) =~= sources_view(b@));
    true
}

/// Whether two sections show the same thing (the sampling time is ignored,
/// so a heartbeat frame with unchanged content is not a new frame).
pub fn section_display_eq(a: &InterlockSection, b: &InterlockSection) -> (r: bool)
    ensures
        r == section_display_eq_spec(*a, *b),
{
    a.available == b.available && a.enabled == b.enabled && a.latched == b.latched
        && a.stop_failed == b.stop_failed && sources_eq(&a.sources, &b.sources) && opt_bool_eq(
        a.fault_lamp,
        b.fault_lamp,
    ) && opt_bool_eq(a.run_lamp, b.run_lamp) && a.release_hold_secs == b.release_hold_secs
}

/// Display equality ignores the sampling time: two sections equal in every
/// other field are equal for display, whatever their times; and it is an
/// equivalence.
pub proof fn lemma_display_eq_ignores_time(a: InterlockSection, b: InterlockSection, c: InterlockSection)
    ensures
        section_display_eq_spec(a, a),
        section_display_eq_spec(a, b) == section_display_eq_spec(b, a),
        section_display_eq_spec(a, b) && section_display_eq_spec(b, c) ==> section_display_eq_spec(a, c),
        (a.available == b.available && a.enabled == b.enabled && a.latched == b.latched
            && a.stop_failed == b.stop_failed && a.sources@ == b.sources@ && a.fault_lamp
            == b.fault_lamp && a.run_lamp == b.run_lamp && a.release_hold_secs
            == b.release_hold_secs) ==> section_display_eq_spec(a, b),
{
}

// ── In-place reason band ───────────────────────────────────────────────────

/// The colour slot of the in-place reason band.
#[derive(Clone, Copy, Debug, PartialEq, Eq, Structural)]
pub enum ReasonSlot {
    /// Grey: unavailable.
    Gray,
    /// Amber: precondition / countdown.
    Amber,
    /// Red: rejection / conflict.
    Red,
}

impl ReasonSlot {
    /// Style slot index.
    pub fn index(self) -> (r: usize)
        ensures
            r == (match self {
                ReasonSlot::Gray => 0usize,
                ReasonSlot::Amber => 1usize,
                ReasonSlot::Red => 2usize,
            }),
    {
        match self {
            ReasonSlot::Gray => 0,
            ReasonSlot::Amber => 1,
            ReasonSlot::Red => 2,
        }
    }
}

// ── Fire detection ─────────────────────────────────────────────────────────

/// Style slots of the fire alarm level: normal, warning, danger, emergency
/// stop, unknown (never green).
pub const FIRE_SLOT_OK: usize = 0;

pub const FIRE_SLOT_WARN: usize = 1;

pub const FIRE_SLOT_DANGER: usize = 2;

pub const FIRE_SLOT_STOP: usize = 3;

pub const FIRE_SLOT_UNKNOWN: usize = 4;

/// Icon of the emergency-stop level.
pub const ICON_EMERGENCY_STOP: &'static str = "■";

/// The style slot of a fire alarm level, given as the rounded level (`None`
/// when no finite value was read): 0 normal, 1 warning, 2 and 4 danger,
/// 5 emergency stop, anything else unknown.
pub open spec fn fire_level_slot_spec(level: Option<i64>) -> usize {
    match level {
        Some(0) => FIRE_SLOT_OK,
        Some(1) => FIRE_SLOT_WARN,
        Some(2) | Some(4) => FIRE_SLOT_DANGER,
        Some(5) => FIRE_SLOT_STOP,
        _ => FIRE_SLOT_UNKNOWN,
    }
}

/// The style slot of a fire alarm level.
pub fn fire_level_slot(level: Option<i64>) -> (r: usize)
    ensures
        r == fire_level_slot_spec(level),
{
    match level {
        Some(0) => FIRE_SLOT_OK,
        Some(1) => FIRE_SLOT_WARN,
        Some(2) | Some(4) => FIRE_SLOT_DANGER,
        Some(5) => FIRE_SLOT_STOP,
        _ => FIRE_SLOT_UNKNOWN,
    }
}

/// The icon of a fire alarm level: tick for normal, warning sign for levels
/// 1 to 4, a filled square for the emergency stop, the question mark for
/// anything else or no value.
pub open spec fn fire_level_icon_spec(level: Option<i64>) -> Seq<char> {
    match level {
        Some(v) => if v == 0 {
            ICON_STATE_UNLATCHED@
        } else if 1 <= v <= 4 {
            ICON_STATE_LATCHED@
        } else if v == 5 {
            ICON_EMERGENCY_STOP@
        } else {
            ICON_STATE_UNAVAILABLE@
        },
        None => ICON_STATE_UNAVAILABLE@,
    }
}

/// The icon of a fire alarm level.
pub fn fire_level_icon(level: Option<i64>) -> (r: &'static str)
    ensures
        r@ == fire_level_icon_spec(level),
{
    match level {
        Some(v) => if v == 0 {
            ICON_STATE_UNLATCHED
        } else if 1 <= v && v <= 4 {
            ICON_STATE_LATCHED
        } else if v == 5 {
            ICON_EMERGENCY_STOP
        } else {
            ICON_STATE_UNAVAILABLE
        },
        None => ICON_STATE_UNAVAILABLE,
    }
}

/// An unknown fire level never reads as normal: neither its slot nor its
/// icon is the normal one.
pub proof fn lemma_unknown_fire_level_never_normal(level: Option<i64>)
    requires
        !(level matches Some(v) && 0 <= v <= 5),
    ensures
        fire_level_slot_spec(level) == FIRE_SLOT_UNKNOWN,
        fire_level_icon_spec(level) == ICON_STATE_UNAVAILABLE@,
        fire_level_icon_spec(level) != ICON_STATE_UNLATCHED@,
{
    reveal_strlit("?");
    reveal_strlit("✓");
    assert(ICON_STATE_UNAVAILABLE@[0] != ICON_STATE_UNLATCHED@[0]);
}

/// The detector summary of the fire station.
#[derive(Clone, Copy, Debug, PartialEq, Eq, Structural)]
pub struct FireSummary {
    /// Registered detectors (`None`: not read).
    pub registered: Option<u16>,
    /// Detectors the frame carries.
    pub readable: u16,
    /// Detectors in alarm.
    pub alarm: u16,
    /// Detectors in fault.
    pub fault: u16,
    /// Detectors whose address point cannot be read.
    pub offline: u16,
}

impl FireSummary {
    /// Registered and readable counts differ, which must be stated on
    /// screen; an unread registered count is no mismatch.
    pub fn mismatch(&self) -> (r: bool)
        ensures
            r == (self.registered matches Some(n) && n != self.readable),
    {
        match self.registered {
            Some(n) => n != self.readable,
            None => false,
        }
    }
}

/// One point of the fire station as the detector summary reads it: its
/// address within the block, whether its value could be read (valid flag,
/// finite value), and whether its status word has the alarm bit (12) and the
/// fault bit (14) set.
#[derive(Clone, Copy, Debug, PartialEq, Eq, Structural)]
pub struct FirePoint {
    pub at: u16,
    pub readable: bool,
    pub alarm_bit: bool,
    pub fault_bit: bool,
}

/// The fire station in a frame: the points of its system block and of its
/// detector block (`None`: the block is not in the frame).
#[derive(Clone, Debug, PartialEq, Eq)]
pub struct FireStation {
    pub sys: Option<Vec<FirePoint>>,
    pub det: Option<Vec<FirePoint>>,
}

/// Points per detector in the detector block (address first, status second).
pub const FIRE_DET_POINTS_PER_UNIT: usize = 6;

/// Address of the first detector in the system block; its status follows.
pub const FIRE_SYS_FIRST_ADDR_AT: u16 = 8;

pub const FIRE_SYS_FIRST_STATUS_AT: u16 = 9;

/// The first point at address `at`.
pub open spec fn first_at(v: Seq<FirePoint>, at: u16) -> Option<FirePoint>
    decreases v.len(),
{
    if v.len() == 0 {
        None
    } else if v[0].at == at {
        Some(v[0])
    } else {
        first_at(v.skip(1), at)
    }
}

/// The first detector, from the system block: present when both its
/// address point and its status point are.
pub open spec fn sys_unit(sys: Option<Seq<FirePoint>>) -> Seq<(FirePoint, FirePoint)> {
    match sys {
        Some(v) => match (first_at(v, FIRE_SYS_FIRST_ADDR_AT), first_at(v, FIRE_SYS_FIRST_STATUS_AT)) {
            (Some(a), Some(b)) => seq![(a, b)],
            _ => Seq::empty(),
        },
        None => Seq::empty(),
    }
}

/// The other detectors: each whole run of six points of the detector block,
/// as (address point, status point); a trailing partial run is dropped.
pub open spec fn det_units(det: Option<Seq<FirePoint>>) -> Seq<(FirePoint, FirePoint)> {
    match det {
        Some(v) => Seq::new(
            v.len() / 6,
            |k: int| (v[6 * k], v[6 * k + 1]),
        ),
        None => Seq::empty(),
    }
}

pub open spec fn opt_points(o: Option<Vec<FirePoint>>) -> Option<Seq<FirePoint>> {
    match o {
        Some(v) => Some(v@),
        None => None,
    }
}

/// Every detector of a station, the first one first.
pub open spec fn fire_units(st: FireStation) -> Seq<(FirePoint, FirePoint)> {
    sys_unit(opt_points(st.sys)) + det_units(opt_points(st.det))
}

/// Detectors whose address cannot be read, in alarm, in fault.
pub open spec fn count_offline(us: Seq<(FirePoint, FirePoint)>) -> nat
    decreases us.len(),
{
    if us.len() == 0 {
        0
    } else {
        count_offline(us.drop_last()) + if !us.last().0.readable { 1nat } else { 0nat }
    }
}

pub open spec fn count_alarm(us: Seq<(FirePoint, FirePoint)>) -> nat
    decreases us.len(),
{
    if us.len() == 0 {
        0
    } else {
        count_alarm(us.drop_last()) + if us.last().1.alarm_bit { 1nat } else { 0nat }
    }
}

pub open spec fn count_fault(us: Seq<(FirePoint, FirePoint)>) -> nat
    decreases us.len(),
{
    if us.len() == 0 {
        0
    } else {
        count_fault(us.drop_last()) + if us.last().1.fault_bit { 1nat } else { 0nat }
    }
}

proof fn lemma_counts_bounded(us: Seq<(FirePoint, FirePoint)>)
    ensures
        count_offline(us) <= us.len(),
        count_alarm(us) <= us.len(),
        count_fault(us) <= us.len(),
    decreases us.len(),
{
    if us.len() > 0 {
        lemma_counts_bounded(us.drop_last());
    }
}

/// The detector summary: the registered count as given, the detectors the
/// frame carries, and of those how many cannot be read, are in alarm and
/// in fault; all zero without a fire station in the frame.
pub open spec fn fire_summary_spec(registered: Option<u16>, station: Option<FireStation>) -> FireSummary {
    match station {
        None => FireSummary { registered, readable: 0, alarm: 0, fault: 0, offline: 0 },
        Some(st) => {
            let us = fire_units(st);
            FireSummary {
                registered,
                readable: if us.len() > u16::MAX { u16::MAX } else { us.len() as u16 },
                alarm: count_alarm(us) as u16,
                fault: count_fault(us) as u16,
                offline: count_offline(us) as u16,
            }
        },
    }
}

/// The three counts fit their 16-bit fields.
pub open spec fn fire_units_fit(station: Option<FireStation>) -> bool {
    station matches Some(st) ==> {
        &&& count_offline(fire_units(st)) <= u16::MAX
        &&& count_alarm(fire_units(st)) <= u16::MAX
        &&& count_fault(fire_units(st)) <= u16::MAX
    }
}

proof fn lemma_counts_prefix(us: Seq<(FirePoint, FirePoint)>, k: int)
    requires
        0 <= k <= us.len(),
    ensures
        count_offline(us.take(k)) <= count_offline(us),
        count_alarm(us.take(k)) <= count_alarm(us),
        count_fault(us.take(k)) <= count_fault(us),
    decreases us.len(),
{
    if k < us.len() {
        lemma_counts_prefix(us.drop_last(), k);
        assert(us.drop_last().take(k) == us.take(k));
    } else {
        assert(us.take(k) == us);
    }
}

proof fn lemma_counts_by_point(us1: Seq<(FirePoint, FirePoint)>, us2: Seq<(FirePoint, FirePoint)>)
    requires
        us1.len() == us2.len(),
    ensures
        (forall|i: int| 0 <= i < us1.len() ==> (#[trigger] us1[i]).0.readable == us2[i].0.readable)
            ==> count_offline(us1) == count_offline(us2),
        (forall|i: int|
            0 <= i < us1.len() ==> (#[trigger] us1[i]).1.alarm_bit == us2[i].1.alarm_bit
                && us1[i].1.fault_bit == us2[i].1.fault_bit) ==> count_alarm(us1) == count_alarm(us2)
            && count_fault(us1) == count_fault(us2),
    decreases us1.len(),
{
    if us1.len() > 0 {
        lemma_counts_by_point(us1.drop_last(), us2.drop_last());
        assert(forall|i: int| 0 <= i < us1.len() - 1 ==> us1.drop_last()[i] == us1[i] && us2.drop_last()[i] == us2[i]);
    }
}

proof fn lemma_counts_extremes(us: Seq<(FirePoint, FirePoint)>)
    ensures
        (forall|i: int| 0 <= i < us.len() ==> (#[trigger] us[i]).0.readable) ==> count_offline(us) == 0,
        (forall|i: int| 0 <= i < us.len() ==> !(#[trigger] us[i]).0.readable) ==> count_offline(us) == us.len(),
        (forall|i: int| 0 <= i < us.len() ==> !(#[trigger] us[i]).1.alarm_bit) ==> count_alarm(us) == 0,
        (forall|i: int| 0 <= i < us.len() ==> !(#[trigger] us[i]).1.fault_bit) ==> count_fault(us) == 0,
    decreases us.len(),
{
    if us.len() > 0 {
        lemma_counts_extremes(us.drop_last());
        assert(forall|i: int| 0 <= i < us.len() - 1 ==> us.drop_last()[i] == us[i]);
    }
}

/// What decides each count of the detector summary: a detector is offline
/// exactly when its address point cannot be read (its status point plays no
/// part), and in alarm or in fault by the bits of its status point alone (its
/// address point plays no part). So two frames whose detectors have the same
/// address readability give the same offline count, and the same status bits
/// the same alarm and fault counts; with every address readable nothing is
/// offline, with none readable every detector is; no alarm bit set gives no
/// alarm, no fault bit no fault.
pub proof fn lemma_fire_counts_by_point(registered: Option<u16>, a: FireStation, b: FireStation)
    ensures
        ({
            let ua = fire_units(a);
            let ub = fire_units(b);
            let sa = fire_summary_spec(registered, Some(a));
            let sb = fire_summary_spec(registered, Some(b));
            &&& ua.len() == ub.len() && (forall|i: int|
                0 <= i < ua.len() ==> (#[trigger] ua[i]).0.readable == ub[i].0.readable)
                ==> sa.offline == sb.offline
            &&& ua.len() == ub.len() && (forall|i: int|
                0 <= i < ua.len() ==> (#[trigger] ua[i]).1.alarm_bit == ub[i].1.alarm_bit
                    && ua[i].1.fault_bit == ub[i].1.fault_bit) ==> sa.alarm == sb.alarm && sa.fault
                == sb.fault
            &&& (forall|i: int| 0 <= i < ua.len() ==> (#[trigger] ua[i]).0.readable) ==> sa.offline == 0
            &&& (forall|i: int| 0 <= i < ua.len() ==> !(#[trigger] ua[i]).0.readable) && ua.len()
                <= u16::MAX ==> sa.offline == ua.len() && sa.offline == sa.readable
            &&& (forall|i: int| 0 <= i < ua.len() ==> !(#[trigger] ua[i]).1.alarm_bit) ==> sa.alarm == 0
            &&& (forall|i: int| 0 <= i < ua.len() ==> !(#[trigger] ua[i]).1.fault_bit) ==> sa.fault == 0
        }),
{
    let ua = fire_units(a);
    let ub = fire_units(b);
    if ua.len() == ub.len() {
        lemma_counts_by_point(ua, ub);
    }
    lemma_counts_extremes(ua);
}

fn find_at(v: &Vec<FirePoint>, at: u16) -> (r: Option<FirePoint>)
    ensures
        r == first_at(v@, at),
{
    let n = v.len();
    let mut i: usize = 0;
    assert(v@.skip(0) =~= v@);
    while i < n
        invariant
            n == v@.len(),
            i <= n,
            first_at(v@, at) == first_at(v@.skip(i as int), at),
        decreases n - i,
    {
        assert(v@.skip(i as int).skip(1) =~= v@.skip(i + 1));
        if v[i].at == at {
            return Some(v[i]);
        }
        i = i + 1;
    }
    None
}

fn push_unit(
    us: &mut Vec<(FirePoint, FirePoint)>,
    u: (FirePoint, FirePoint),
    counts: &mut (u16, u16, u16),
)
    requires
        count_offline(old(us)@.push(u)) <= u16::MAX,
        count_alarm(old(us)@.push(u)) <= u16::MAX,
        count_fault(old(us)@.push(u)) <= u16::MAX,
        old(counts).0 == count_offline(old(us)@),
        old(counts).1 == count_alarm(old(us)@),
        old(counts).2 == count_fault(old(us)@),
    ensures
        final(us)@ == old(us)@.push(u),
        final(counts).0 == count_offline(final(us)@),
        final(counts).1 == count_alarm(final(us)@),
        final(counts).2 == count_fault(final(us)@),
{
    let ghost before = us@;
    us.push(u);
    assert(us@.drop_last() == before);
    if !u.0.readable {
        counts.0 = counts.0 + 1;
    }
    if u.1.alarm_bit {
        counts.1 = counts.1 + 1;
    }
    if u.1.fault_bit {
        counts.2 = counts.2 + 1;
    }
}

/// The detector summary of the fire station (the registered count is read
/// from the catalog elsewhere).
pub fn fire_summary(registered: Option<u16>, station: &Option<FireStation>) -> (s: FireSummary)
    requires
        fire_units_fit(*station),
    ensures
        s == fire_summary_spec(registered, *station),
        s.alarm <= s.readable,
        s.fault <= s.readable,
        s.offline <= s.readable,
{
    let st = match station {
        None => {
            return FireSummary { registered, readable: 0, alarm: 0, fault: 0, offline: 0 };
        },
        Some(st) => st,
    };
    let ghost all = fire_units(*st);
    let mut us: Vec<(FirePoint, FirePoint)> = Vec::new();
    let mut counts: (u16, u16, u16) = (0, 0, 0);
    let ghost head = sys_unit(opt_points(st.sys));
    let ghost du = det_units(opt_points(st.det));
    assert(all == head + du);
    if let Some(v) = &st.sys {
        let a = find_at(v, FIRE_SYS_FIRST_ADDR_AT);
        let b = find_at(v, FIRE_SYS_FIRST_STATUS_AT);
        if let (Some(a), Some(b)) = (a, b) {
            proof {
                lemma_counts_prefix(all, 1);
                assert(all.take(1) == Seq::<(FirePoint, FirePoint)>::empty().push((a, b)));
            }
            push_unit(&mut us, (a, b), &mut counts);
        }
    }
    assert(us@ == head);
    if let Some(v) = &st.det {
        let len = v.len();
        let n = len / FIRE_DET_POINTS_PER_UNIT;
        for k in 0..n
            invariant
                len == v@.len(),
                n == v@.len() / 6,
                du == det_units(Some(v@)),
                all == head + du,
                fire_units_fit(Some(*st)),
                all == fire_units(*st),
                us@ == head + du.take(k as int),
                counts.0 == count_offline(us@),
                counts.1 == count_alarm(us@),
                counts.2 == count_fault(us@),
        {
            assert(6 * k + 1 < len) by (nonlinear_arith)
                requires
                    k < n,
                    n == len / 6,
            ;
            let i: usize = 6 * k;
            let u = (v[i], v[i + 1]);
            assert(u == du[k as int]);
            proof {
                let m = head.len() + k + 1;
                lemma_counts_prefix(all, m);
                assert(all.take(m) == us@.push(u));
            }
            push_unit(&mut us, u, &mut counts);
            assert(du.take(k + 1) == du.take(k as int).push(du[k as int]));
        }
        assert(du.take(n as int) == du);
    } else {
        assert(du.len() == 0);
    }
    assert(us@ == all);
    proof {
        lemma_counts_bounded(all);
    }
    let readable: u16 = if us.len() > 65535 { 65535 } else { us.len() as u16 };
    FireSummary { registered, readable, alarm: counts.1, fault: counts.2, offline: counts.0 }
}

// ── Geometry of the lamp cards and the detector drill-down table ───────────

/// Content width of a page (px).
pub const CONTENT_W: i32 = 992;

/// Minimum gap between elements of one group (px).
pub const GAP_MIN: i32 = 16;

/// Minimum chip width (px).
pub const CHIP_MIN_W: i32 = 96;

/// Small icon size (px).
pub const ICON_SM: i32 = 28;

/// Width of a status card (px).
pub const CARD_STATUS_W: i32 = 236;

pub const LAMP_CARD_W: i32 = CARD_STATUS_W;

pub const LAMP_CARD_GAP: i32 = GAP_MIN;

/// X of the `i`-th status card of the lamp row.
pub fn lamp_x(i: i32) -> (x: i32)
    requires
        -8_000_000 <= i <= 8_000_000,
    ensures
        x == i * (LAMP_CARD_W + LAMP_CARD_GAP),
{
    i * (LAMP_CARD_W + LAMP_CARD_GAP)
}

/// Half of [`GAP_MIN`].
pub const HALF_GAP: i32 = 8;

pub const DRILL_COL_SEQ: i32 = CHIP_MIN_W - HALF_GAP;

pub const DRILL_COL_ADDR: i32 = CHIP_MIN_W;

pub const DRILL_COL_GAS: i32 = CHIP_MIN_W + ICON_SM + HALF_GAP;

pub const DRILL_COL_GAS_NUM: i32 = CHIP_MIN_W - GAP_MIN - HALF_GAP;

/// The status column takes what the other seven leave of the content width.
pub const DRILL_COL_STATUS: i32 = CONTENT_W - DRILL_COL_SEQ - DRILL_COL_ADDR - 2 * DRILL_COL_GAS - 3
    * DRILL_COL_GAS_NUM;

/// Half of [`DRILL_COL_STATUS`] (328 px).
pub const DRILL_HALF_STATUS: i32 = 164;

/// Number of header columns and of row cells of the drill-down table.
pub const DRILL_COLS: usize = 8;

pub const DRILL_CELLS: usize = 9;

/// Header column widths: sequence, address, status, two gas columns, three
/// numeric columns.
pub open spec fn drill_col_w_spec(i: int) -> int {
    if i == 0 {
        DRILL_COL_SEQ as int
    } else if i == 1 {
        DRILL_COL_ADDR as int
    } else if i == 2 {
        DRILL_COL_STATUS as int
    } else if i == 3 || i == 4 {
        DRILL_COL_GAS as int
    } else {
        DRILL_COL_GAS_NUM as int
    }
}

/// Left edge of header column `i`: the sum of the widths before it.
pub open spec fn drill_col_x_spec(i: int) -> int
    decreases i,
{
    if i <= 0 {
        0
    } else {
        drill_col_x_spec(i - 1) + drill_col_w_spec(i - 1)
    }
}

/// Row cell widths: the status column is split in two halves.
pub open spec fn drill_cell_w_spec(i: int) -> int {
    if i == 0 {
        DRILL_COL_SEQ as int
    } else if i == 1 {
        DRILL_COL_ADDR as int
    } else if i == 2 || i == 3 {
        DRILL_HALF_STATUS as int
    } else if i == 4 || i == 5 {
        DRILL_COL_GAS as int
    } else {
        DRILL_COL_GAS_NUM as int
    }
}

/// Left edge of row cell `i`: the sum of the widths before it.
pub open spec fn drill_cell_x_spec(i: int) -> int
    decreases i,
{
    if i <= 0 {
        0
    } else {
        drill_cell_x_spec(i - 1) + drill_cell_w_spec(i - 1)
    }
}

/// Width of header column `i` (`i >= 7` is the last numeric column).
pub fn drill_col_w(i: usize) -> (w: i32)
    ensures
        w == drill_col_w_spec(i as int),
{
    match i {
        0 => DRILL_COL_SEQ,
        1 => DRILL_COL_ADDR,
        2 => DRILL_COL_STATUS,
        3 | 4 => DRILL_COL_GAS,
        _ => DRILL_COL_GAS_NUM,
    }
}

/// Left edge of header column `i` (`i >= 7` gives the last column's edge).
pub fn drill_col_x(i: usize) -> (x: i32)
    ensures
        x == drill_col_x_spec(if i < 7 { i as int } else { 7 }),
{
    reveal_with_fuel(drill_col_x_spec, 8);
    match i {
        0 => 0,
        1 => DRILL_COL_SEQ,
        2 => DRILL_COL_SEQ + DRILL_COL_ADDR,
        3 => DRILL_COL_SEQ + DRILL_COL_ADDR + DRILL_COL_STATUS,
        4 => DRILL_COL_SEQ + DRILL_COL_ADDR + DRILL_COL_STATUS + DRILL_COL_GAS,
        5 => DRILL_COL_SEQ + DRILL_COL_ADDR + DRILL_COL_STATUS + 2 * DRILL_COL_GAS,
        6 => DRILL_COL_SEQ + DRILL_COL_ADDR + DRILL_COL_STATUS + 2 * DRILL_COL_GAS
            + DRILL_COL_GAS_NUM,
        _ => DRILL_COL_SEQ + DRILL_COL_ADDR + DRILL_COL_STATUS + 2 * DRILL_COL_GAS + 2
            * DRILL_COL_GAS_NUM,
    }
}

/// Width of row cell `i` (`i >= 8` is the last numeric cell).
pub fn drill_cell_w(i: usize) -> (w: i32)
    ensures
        w == drill_cell_w_spec(i as int),
{
    match i {
        0 => DRILL_COL_SEQ,
        1 => DRILL_COL_ADDR,
        2 | 3 => DRILL_HALF_STATUS,
        4 | 5 => DRILL_COL_GAS,
        _ => DRILL_COL_GAS_NUM,
    }
}

/// Left edge of row cell `i` (`i >= 8` gives the last cell's edge).
pub fn drill_cell_x(i: usize) -> (x: i32)
    ensures
        x == drill_cell_x_spec(if i < 8 { i as int } else { 8 }),
{
    reveal_with_fuel(drill_cell_x_spec, 9);
    match i {
        0 => 0,
        1 => DRILL_COL_SEQ,
        2 => DRILL_COL_SEQ + DRILL_COL_ADDR,
        3 => DRILL_COL_SEQ + DRILL_COL_ADDR + DRILL_HALF_STATUS,
        4 => DRILL_COL_SEQ + DRILL_COL_ADDR + DRILL_COL_STATUS,
        5 => DRILL_COL_SEQ + DRILL_COL_ADDR + DRILL_COL_STATUS + DRILL_COL_GAS,
        6 => DRILL_COL_SEQ + DRILL_COL_ADDR + DRILL_COL_STATUS + 2 * DRILL_COL_GAS,
        7 => DRILL_COL_SEQ + DRILL_COL_ADDR + DRILL_COL_STATUS + 2 * DRILL_COL_GAS
            + DRILL_COL_GAS_NUM,
        _ => DRILL_COL_SEQ + DRILL_COL_ADDR + DRILL_COL_STATUS + 2 * DRILL_COL_GAS + 2
            * DRILL_COL_GAS_NUM,
    }
}

/// The header columns and the row cells both tile the content width
/// exactly: each starts where the previous ends, and the last ends at the
/// right edge. The two status half-cells together span the status column.
pub proof fn lemma_drill_table_tiles_width()
    ensures
        drill_col_x_spec(DRILL_COLS as int - 1) + drill_col_w_spec(DRILL_COLS as int - 1)
            == CONTENT_W,
        drill_cell_x_spec(DRILL_CELLS as int - 1) + drill_cell_w_spec(DRILL_CELLS as int - 1)
            == CONTENT_W,
        forall|i: int| 0 <= i < DRILL_COLS ==> drill_col_w_spec(i) > 0,
        forall|i: int| 0 <= i < DRILL_CELLS ==> drill_cell_w_spec(i) > 0,
        drill_cell_x_spec(4) == drill_col_x_spec(3),
        2 * HALF_GAP == GAP_MIN,
        2 * DRILL_HALF_STATUS == DRILL_COL_STATUS,
{
    reveal_with_fuel(drill_col_x_spec, 9);
    reveal_with_fuel(drill_cell_x_spec, 10);
}

} // verus!
