//! The fire groups of the interlock page: the section notice, the system
//! status bit rows, the detector trigger rows, the detector summary line and
//! the detector drill-down pager.
use vstd::prelude::*;

use crate::interlock::{
    fire_level_icon, fire_level_icon_spec, fire_level_slot, fire_level_slot_spec, FireSummary,
    FIRE_SLOT_DANGER, FIRE_SLOT_OK, FIRE_SLOT_STOP, FIRE_SLOT_WARN, ICON_FILLED,
    ICON_HOLLOW, TEXT_CLAUSE_SEP,
};
use crate::palette::Swatch;
use crate::system::PLACEHOLDER;
use crate::text::{decimal, push_decimal, push_str, string_from_chars};

verus! {

// ── Screen texts ───────────────────────────────────────────────────────────

/// Section notice when the peripheral data cannot be had.
pub const TEXT_PERIPH_UNAVAILABLE: &'static str = "外设数据不可用";

/// Shown for a fire level that cannot be read (never a normal level).
pub const TEXT_LEVEL_UNKNOWN: &'static str = "未知";

/// Shown where a point or bit name could not be read from the catalog.
pub const TEXT_NAME_UNKNOWN: &'static str = "名称未获取";

/// State words of a bit.
pub const TEXT_BIT_ACTIVE: &'static str = "活跃";

pub const TEXT_BIT_INACTIVE: &'static str = "非活跃";

/// Names of the three trigger bits of a detector word; the third is reserved.
pub const TEXT_TRIGGER_DRY: &'static str = "干接点触发";

pub const TEXT_TRIGGER_COMPOUND: &'static str = "复合触发";

pub const TEXT_TRIGGER_RESERVED: &'static str = "预留";

/// Words of the detector summary line.
pub const TEXT_REGISTERED: &'static str = "登记";

pub const TEXT_READABLE: &'static str = "可读";

pub const TEXT_COUNT_UNIT: &'static str = "只";

pub const TEXT_COUNT_ALARM: &'static str = "报警";

pub const TEXT_COUNT_FAULT: &'static str = "故障";

pub const TEXT_OFFLINE: &'static str = "离线";

/// Separator of the five parts of the summary line.
pub const TEXT_SUMMARY_SEP: &'static str = " / ";

// ── Section notice ─────────────────────────────────────────────────────────

/// The notice of the fire section: the peripheral data being unavailable
/// comes first, else the station's own notice (if any).
pub open spec fn fire_notice_spec(available: bool, station_notice: Option<Seq<char>>) -> Option<Seq<char>> {
    if !available {
        Some(TEXT_PERIPH_UNAVAILABLE@)
    } else {
        station_notice
    }
}

pub open spec fn opt_view(o: Option<&str>) -> Option<Seq<char>> {
    match o {
        Some(s) => Some(s@),
        None => None,
    }
}

/// The notice of the fire section.
pub fn fire_notice<'a>(available: bool, station_notice: Option<&'a str>) -> (r: Option<&'a str>)
    ensures
        opt_view(r) == fire_notice_spec(available, opt_view(station_notice)),
{
    if !available {
        Some(TEXT_PERIPH_UNAVAILABLE)
    } else {
        station_notice
    }
}

// ── System status bit rows ─────────────────────────────────────────────────

/// Style slots of a status bit row: active, inactive, undefined.
pub const A1_STYLE_ACTIVE: usize = 0;

pub const A1_STYLE_INACTIVE: usize = 1;

pub const A1_STYLE_UNDEF: usize = 2;

/// The style slot of a status bit row: a bit the catalog does not list, or
/// lists as undefined, is undefined; else active or inactive.
pub open spec fn a1_row_slot_spec(defined: Option<bool>, active: bool) -> usize {
    match defined {
        Some(true) => if active { A1_STYLE_ACTIVE } else { A1_STYLE_INACTIVE },
        _ => A1_STYLE_UNDEF,
    }
}

/// The style slot of a status bit row (`defined`: `None` when the catalog
/// does not list the bit).
pub fn a1_row_slot(defined: Option<bool>, active: bool) -> (r: usize)
    ensures
        r == a1_row_slot_spec(defined, active),
{
    match defined {
        Some(true) => if active {
            A1_STYLE_ACTIVE
        } else {
            A1_STYLE_INACTIVE
        },
        _ => A1_STYLE_UNDEF,
    }
}

/// The dot in front of a bit: filled when active, hollow otherwise.
pub fn bit_dot(active: bool) -> (r: &'static str)
    ensures
        r@ == (if active { ICON_FILLED@ } else { ICON_HOLLOW@ }),
{
    if active {
        ICON_FILLED
    } else {
        ICON_HOLLOW
    }
}

// ── Detector trigger rows ──────────────────────────────────────────────────

/// Rows of the trigger group, one per detector word.
pub const A3_ROWS: usize = 3;

pub open spec fn bit_word(active: bool) -> Seq<char> {
    if active {
        TEXT_BIT_ACTIVE@
    } else {
        TEXT_BIT_INACTIVE@
    }
}

/// A trigger row: the section notice takes the first row; otherwise the
/// word's label (or the unknown-name text), then the dry-contact and the
/// compound bit with their state words, then the reserved bit by name only,
/// joined by ` · `.
pub open spec fn a3_row_text_spec(
    row: nat,
    notice: Option<Seq<char>>,
    label: Option<Seq<char>>,
    dry: bool,
    compound: bool,
) -> Seq<char> {
    if row == 0 && notice is Some {
        notice->0
    } else {
        let l = match label {
            Some(l) => l,
            None => TEXT_NAME_UNKNOWN@,
        };
        l + " "@ + TEXT_TRIGGER_DRY@ + " "@ + bit_word(dry) + TEXT_CLAUSE_SEP@ + TEXT_TRIGGER_COMPOUND@
            + " "@ + bit_word(compound) + TEXT_CLAUSE_SEP@ + TEXT_TRIGGER_RESERVED@
    }
}

fn push_bit_word(v: &mut Vec<char>, active: bool)
    ensures
        final(v)@ == old(v)@ + bit_word(active),
{
    if active {
        push_str(v, TEXT_BIT_ACTIVE);
    } else {
        push_str(v, TEXT_BIT_INACTIVE);
    }
}

/// The text of trigger row `row` (`dry`, `compound`: the two bits of the
/// word, false when the word was not read).
pub fn a3_row_text(row: usize, notice: Option<&str>, label: Option<&str>, dry: bool, compound: bool) -> (r: String)
    ensures
        r@ == a3_row_text_spec(row as nat, opt_view(notice), opt_view(label), dry, compound),
{
    let mut v: Vec<char> = Vec::new();
    if row == 0 {
        if let Some(n) = notice {
            push_str(&mut v, n);
            return string_from_chars(v);
        }
    }
    match label {
        Some(l) => push_str(&mut v, l),
        None => push_str(&mut v, TEXT_NAME_UNKNOWN),
    }
    push_str(&mut v, " ");
    push_str(&mut v, TEXT_TRIGGER_DRY);
    push_str(&mut v, " ");
    push_bit_word(&mut v, dry);
    push_str(&mut v, TEXT_CLAUSE_SEP);
    push_str(&mut v, TEXT_TRIGGER_COMPOUND);
    push_str(&mut v, " ");
    push_bit_word(&mut v, compound);
    push_str(&mut v, TEXT_CLAUSE_SEP);
    push_str(&mut v, TEXT_TRIGGER_RESERVED);
    string_from_chars(v)
}

// ── Detector summary line ──────────────────────────────────────────────────

pub open spec fn registered_text(registered: Option<u16>) -> Seq<char> {
    match registered {
        Some(n) => decimal(n as nat),
        None => PLACEHOLDER@,
    }
}

/// The summary line: the section or station notice when there is one, else
/// `登记 N 只 / 可读 M 只 / 报警 x / 故障 y / 离线 z` (N is the placeholder
/// when the registered count was not read).
pub open spec fn a4_text_spec(available: bool, station_notice: Option<Seq<char>>, s: FireSummary) -> Seq<char> {
    if !available {
        TEXT_PERIPH_UNAVAILABLE@
    } else if station_notice is Some {
        station_notice->0
    } else {
        TEXT_REGISTERED@ + " "@ + registered_text(s.registered) + " "@ + TEXT_COUNT_UNIT@
            + TEXT_SUMMARY_SEP@ + TEXT_READABLE@ + " "@ + decimal(s.readable as nat) + " "@
            + TEXT_COUNT_UNIT@ + TEXT_SUMMARY_SEP@ + TEXT_COUNT_ALARM@ + " "@ + decimal(s.alarm as nat)
            + TEXT_SUMMARY_SEP@ + TEXT_COUNT_FAULT@ + " "@ + decimal(s.fault as nat)
            + TEXT_SUMMARY_SEP@ + TEXT_OFFLINE@ + " "@ + decimal(s.offline as nat)
    }
}

/// The detector summary line.
pub fn a4_text(available: bool, station_notice: Option<&str>, s: &FireSummary) -> (r: String)
    ensures
        r@ == a4_text_spec(available, opt_view(station_notice), *s),
{
    let mut v: Vec<char> = Vec::new();
    if !available {
        push_str(&mut v, TEXT_PERIPH_UNAVAILABLE);
        return string_from_chars(v);
    }
    if let Some(n) = station_notice {
        push_str(&mut v, n);
        return string_from_chars(v);
    }
    push_str(&mut v, TEXT_REGISTERED);
    push_str(&mut v, " ");
    match s.registered {
        Some(n) => push_decimal(&mut v, n as u64),
        None => push_str(&mut v, PLACEHOLDER),
    }
    push_str(&mut v, " ");
    push_str(&mut v, TEXT_COUNT_UNIT);
    push_str(&mut v, TEXT_SUMMARY_SEP);
    push_str(&mut v, TEXT_READABLE);
    push_str(&mut v, " ");
    push_decimal(&mut v, s.readable as u64);
    push_str(&mut v, " ");
    push_str(&mut v, TEXT_COUNT_UNIT);
    push_str(&mut v, TEXT_SUMMARY_SEP);
    push_str(&mut v, TEXT_COUNT_ALARM);
    push_str(&mut v, " ");
    push_decimal(&mut v, s.alarm as u64);
    push_str(&mut v, TEXT_SUMMARY_SEP);
    push_str(&mut v, TEXT_COUNT_FAULT);
    push_str(&mut v, " ");
    push_decimal(&mut v, s.fault as u64);
    push_str(&mut v, TEXT_SUMMARY_SEP);
    push_str(&mut v, TEXT_OFFLINE);
    push_str(&mut v, " ");
    push_decimal(&mut v, s.offline as u64);
    string_from_chars(v)
}

/// The registered/readable mismatch warning shows only while the data is
/// available and the two counts differ.
pub fn a4_mismatch_visible(available: bool, s: &FireSummary) -> (r: bool)
    ensures
        r == (available && (s.registered matches Some(n) && n != s.readable)),
{
    available && s.mismatch()
}

// ── Detector drill-down ────────────────────────────────────────────────────

/// A page of the detector drill-down as the backend answered it.
#[derive(Clone, Copy, Debug, PartialEq, Eq, Structural)]
pub struct DrillPage {
    /// The detector source could be read.
    pub available: bool,
    /// Detectors in all (`None`: not given).
    pub total: Option<u32>,
    /// Detectors expanded so far.
    pub expanded: u32,
    /// Page size the backend cut by (0: not given).
    pub page_size: u32,
    /// This page's number (from 1).
    pub page: u32,
    /// A later page exists.
    pub has_more: bool,
}

/// Which failure text the drill-down shows in place of its rows.
#[derive(Clone, Copy, Debug, PartialEq, Eq, Structural)]
pub enum DrillFailure {
    /// The detector source is unavailable.
    SourceUnavailable,
    /// The page could not be fetched.
    DetailUnavailable,
}

/// What the drill-down shows for its current state.
#[derive(Clone, Copy, Debug, PartialEq, Eq, Structural)]
pub struct DrillView {
    /// The page number shown.
    pub cur: u32,
    /// The item count the page total is counted from.
    pub count: u32,
    /// The page size the page total is counted with (never 0).
    pub size: u32,
    pub prev_disabled: bool,
    pub next_disabled: bool,
    pub failure: DrillFailure,
    pub failure_visible: bool,
    pub retry_visible: bool,
    pub rows_hidden: bool,
}

/// The drill-down view: the page number is the answered page, else the one
/// requested; the page total is counted from the total (else the expanded
/// count) with the answered page size (else the local one, at least 1);
/// "previous" is off on the first page, "next" off unless a later page
/// exists; a failed fetch or an unavailable source replaces the rows with
/// its text, and only a failed fetch offers a retry.
pub open spec fn drill_view_spec(page: Option<DrillPage>, requested: u32, failed: bool, local_size: u32) -> DrillView {
    let source_unavailable = page matches Some(p) && !p.available;
    let show_fail = failed || source_unavailable;
    let cur = match page {
        Some(p) => p.page,
        None => requested,
    };
    DrillView {
        cur,
        count: match page {
            Some(p) => match p.total {
                Some(t) => t,
                None => p.expanded,
            },
            None => 0,
        },
        size: match page {
            Some(p) if p.page_size > 0 => p.page_size,
            _ => if local_size > 1 { local_size } else { 1 },
        },
        prev_disabled: cur <= 1,
        next_disabled: !(page matches Some(p) && p.has_more),
        failure: if source_unavailable { DrillFailure::SourceUnavailable } else { DrillFailure::DetailUnavailable },
        failure_visible: show_fail,
        retry_visible: failed,
        rows_hidden: show_fail,
    }
}

/// The drill-down view for the last answered page, the requested page
/// number, whether the last fetch failed and the locally set page size.
pub fn drill_view(page: &Option<DrillPage>, requested: u32, failed: bool, local_size: u32) -> (v: DrillView)
    ensures
        v == drill_view_spec(*page, requested, failed, local_size),
        v.size >= 1,
{
    let source_unavailable = match page {
        Some(p) => !p.available,
        None => false,
    };
    let show_fail = failed || source_unavailable;
    let cur = match page {
        Some(p) => p.page,
        None => requested,
    };
    let count = match page {
        Some(p) => match p.total {
            Some(t) => t,
            None => p.expanded,
        },
        None => 0,
    };
    let local: u32 = if local_size > 1 { local_size } else { 1 };
    let size = match page {
        Some(p) => if p.page_size > 0 { p.page_size } else { local },
        None => local,
    };
    let has_more = match page {
        Some(p) => p.has_more,
        None => false,
    };
    DrillView {
        cur,
        count,
        size,
        prev_disabled: cur <= 1,
        next_disabled: !has_more,
        failure: if source_unavailable { DrillFailure::SourceUnavailable } else { DrillFailure::DetailUnavailable },
        failure_visible: show_fail,
        retry_visible: failed,
        rows_hidden: show_fail,
    }
}

/// Style slots of the drill-down cells: value, degraded, active, inactive.
pub const DRILL_SLOT_VALUE: usize = 0;

pub const DRILL_SLOT_DEGRADED: usize = 1;

pub const DRILL_SLOT_ACTIVE: usize = 2;

pub const DRILL_SLOT_INACTIVE: usize = 3;

/// A status cell of a drill-down row (alarm or fault bit): dot and state
/// word, with the active or inactive slot.
pub fn drill_state_cell(active: bool) -> (r: (String, usize))
    ensures
        r.0@ == (if active { ICON_FILLED@ } else { ICON_HOLLOW@ }) + " "@ + bit_word(active),
        r.1 == (if active { DRILL_SLOT_ACTIVE } else { DRILL_SLOT_INACTIVE }),
{
    let mut v: Vec<char> = Vec::new();
    push_str(&mut v, bit_dot(active));
    push_str(&mut v, " ");
    push_bit_word(&mut v, active);
    let slot = if active { DRILL_SLOT_ACTIVE } else { DRILL_SLOT_INACTIVE };
    (string_from_chars(v), slot)
}

// ── Colours of the style slots ─────────────────────────────────────────────

/// The colour of a fire level slot: green only for normal, amber warning,
/// red danger, grey emergency stop, weak text for anything else.
pub open spec fn fire_slot_color_spec(slot: usize) -> Swatch {
    if slot == FIRE_SLOT_OK {
        Swatch::Green
    } else if slot == FIRE_SLOT_WARN {
        Swatch::Stale
    } else if slot == FIRE_SLOT_DANGER {
        Swatch::Danger
    } else if slot == FIRE_SLOT_STOP {
        Swatch::Stopped
    } else {
        Swatch::TextWeak
    }
}

/// The colour of a fire level slot.
pub fn fire_slot_color(slot: usize) -> (c: Swatch)
    ensures
        c == fire_slot_color_spec(slot),
{
    if slot == FIRE_SLOT_OK {
        Swatch::Green
    } else if slot == FIRE_SLOT_WARN {
        Swatch::Stale
    } else if slot == FIRE_SLOT_DANGER {
        Swatch::Danger
    } else if slot == FIRE_SLOT_STOP {
        Swatch::Stopped
    } else {
        Swatch::TextWeak
    }
}

/// The colour of a status bit row slot: danger red when active, secondary
/// text when inactive, weak text when undefined.
pub fn a1_slot_color(slot: usize) -> (c: Swatch)
    ensures
        c == (if slot == A1_STYLE_ACTIVE {
            Swatch::Danger
        } else if slot == A1_STYLE_INACTIVE {
            Swatch::TextSecond
        } else {
            Swatch::TextWeak
        }),
{
    if slot == A1_STYLE_ACTIVE {
        Swatch::Danger
    } else if slot == A1_STYLE_INACTIVE {
        Swatch::TextSecond
    } else {
        Swatch::TextWeak
    }
}

/// Only the normal fire level is ever green.
pub proof fn lemma_only_normal_is_green(level: Option<i64>)
    ensures
        fire_slot_color_spec(crate::interlock::fire_level_slot_spec(level)) == Swatch::Green
            <==> level == Some(0i64),
{
}

// ── The fire groups together ───────────────────────────────────────────────

/// A status bit of the fire system word as the catalog lists it: its
/// index, whether it is defined, and whether it is set in the word (false
/// when the word was not read).
#[derive(Clone, Copy, Debug, PartialEq, Eq, Structural)]
pub struct A1Bit {
    pub index: u8,
    pub defined: bool,
    pub active: bool,
}

/// Rows of the status bit card: one per bit of the word, listed or not.
pub const A1_ROWS: usize = 16;

/// The first listed bit with index `i`.
pub open spec fn a1_find(bits: Seq<A1Bit>, i: int) -> Option<A1Bit>
    decreases bits.len(),
{
    if bits.len() == 0 {
        None
    } else if bits[0].index == i {
        Some(bits[0])
    } else {
        a1_find(bits.skip(1), i)
    }
}

/// The slot of row `i`: a bit the catalog does not list is undefined.
pub open spec fn a1_slot_of(bits: Seq<A1Bit>, i: int) -> usize {
    match a1_find(bits, i) {
        Some(b) => a1_row_slot_spec(Some(b.defined), b.active),
        None => A1_STYLE_UNDEF,
    }
}

fn a1_slot_at(bits: &Vec<A1Bit>, i: usize) -> (r: usize)
    ensures
        r == a1_slot_of(bits@, i as int),
{
    let mut k: usize = 0;
    assert(bits@.skip(0) =~= bits@);
    while k < bits.len()
        invariant
            k <= bits@.len(),
            a1_find(bits@, i as int) == a1_find(bits@.skip(k as int), i as int),
        decreases bits@.len() - k,
    {
        assert(bits@.skip(k as int).skip(1) =~= bits@.skip(k + 1));
        assert(bits@.skip(k as int)[0] == bits@[k as int]);
        if bits[k].index as usize == i {
            return a1_row_slot(Some(bits[k].defined), bits[k].active);
        }
        k = k + 1;
    }
    A1_STYLE_UNDEF
}

/// A detector trigger word: its label (`None`: not in the catalog) and its
/// dry-contact and compound bits.
pub struct A3Word {
    pub label: Option<String>,
    pub dry: bool,
    pub compound: bool,
}

/// What the fire groups read in a frame: whether the peripheral data is
/// available, the station's own notice, the rounded fire level (`None`: no
/// finite reading) and the text the level table gives for the reading, the
/// status bits the catalog lists, the trigger words and the detector
/// summary.
pub struct FireSectionView {
    pub available: bool,
    pub station_notice: Option<String>,
    pub level: Option<i64>,
    pub level_text: String,
    pub bits: Vec<A1Bit>,
    pub words: Vec<A3Word>,
    pub summary: FireSummary,
}

/// What the fire groups show.
pub struct FireCardView {
    pub notice: Option<String>,
    pub level_text: String,
    pub level_slot: usize,
    pub level_icon: &'static str,
    pub bit_slots: Vec<usize>,
    pub word_texts: Vec<String>,
    pub summary_text: String,
    pub mismatch_visible: bool,
}

pub open spec fn opt_string_view(o: Option<String>) -> Option<Seq<char>> {
    match o {
        Some(s) => Some(s@),
        None => None,
    }
}

/// Each group of the fire card as its own function gives it.
pub open spec fn fire_card_spec(p: FireSectionView, v: FireCardView) -> bool {
    let notice = fire_notice_spec(p.available, opt_string_view(p.station_notice));
    &&& opt_string_view(v.notice) == notice
    &&& v.level_text@ == (if p.level is Some { p.level_text@ } else { TEXT_LEVEL_UNKNOWN@ })
    &&& v.level_slot == fire_level_slot_spec(p.level)
    &&& v.level_icon@ == fire_level_icon_spec(p.level)
    &&& v.bit_slots@.len() == A1_ROWS
    &&& forall|i: int| 0 <= i < A1_ROWS ==> #[trigger] v.bit_slots@[i] == a1_slot_of(p.bits@, i)
    &&& v.word_texts@.len() == p.words@.len()
    &&& forall|i: int|
        0 <= i < p.words@.len() ==> (#[trigger] v.word_texts@[i])@ == a3_row_text_spec(
            i as nat,
            notice,
            opt_string_view(p.words@[i].label),
            p.words@[i].dry,
            p.words@[i].compound,
        )
    &&& v.summary_text@ == a4_text_spec(p.available, opt_string_view(p.station_notice), p.summary)
    &&& v.mismatch_visible == (p.available && (p.summary.registered matches Some(n) && n != p.summary.readable))
}

fn opt_str(o: &Option<String>) -> (r: Option<&str>)
    ensures
        opt_view(r) == opt_string_view(*o),
{
    match o {
        Some(s) => Some(s.as_str()),
        None => None,
    }
}

/// What the fire groups show for a frame.
pub fn fire_card_view(p: &FireSectionView) -> (v: FireCardView)
    ensures
        fire_card_spec(*p, v),
{
    let station = opt_str(&p.station_notice);
    let notice = fire_notice(p.available, station);
    let mut bit_slots: Vec<usize> = Vec::new();
    let mut i: usize = 0;
    while i < A1_ROWS
        invariant
            i <= A1_ROWS,
            bit_slots@.len() == i,
            forall|k: int| 0 <= k < i ==> #[trigger] bit_slots@[k] == a1_slot_of(p.bits@, k),
        decreases A1_ROWS - i,
    {
        bit_slots.push(a1_slot_at(&p.bits, i));
        i = i + 1;
    }
    let mut word_texts: Vec<String> = Vec::new();
    let mut j: usize = 0;
    while j < p.words.len()
        invariant
            j <= p.words@.len(),
            word_texts@.len() == j,
            opt_view(notice) == fire_notice_spec(p.available, opt_string_view(p.station_notice)),
            forall|k: int|
                0 <= k < j ==> (#[trigger] word_texts@[k])@ == a3_row_text_spec(
                    k as nat,
                    opt_view(notice),
                    opt_string_view(p.words@[k].label),
                    p.words@[k].dry,
                    p.words@[k].compound,
                ),
        decreases p.words@.len() - j,
    {
        let w = &p.words[j];
        word_texts.push(a3_row_text(j, notice, opt_str(&w.label), w.dry, w.compound));
        j = j + 1;
    }
    let notice_owned = match notice {
        Some(n) => Some(crate::text::owned(n)),
        None => None,
    };
    let level_text = match p.level {
        Some(_) => crate::text::owned(p.level_text.as_str()),
        None => crate::text::owned(TEXT_LEVEL_UNKNOWN),
    };
    FireCardView {
        notice: notice_owned,
        level_text,
        level_slot: fire_level_slot(p.level),
        level_icon: fire_level_icon(p.level),
        bit_slots,
        word_texts,
        summary_text: a4_text(p.available, station, &p.summary),
        mismatch_visible: a4_mismatch_visible(p.available, &p.summary),
    }
}

} // verus!
