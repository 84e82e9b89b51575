//! The device and peripherals page: the row model of a segment, its
//! card layout, the station clock columns and small text helpers.
use vstd::prelude::*;

use crate::clock::{clock_text, push_clock, MS_PER_DAY};
use crate::interlock::GAP_MIN;
use crate::palette::Swatch;
use crate::text::{chars_of, decimal, owned, push_decimal, push_str, str_eq, string_from_chars};

verus! {

/// Placeholder for a missing value.
pub const PLACEHOLDER: &'static str = "\u{2013}";

/// Label of the "last success" clock column.
pub const TEXT_LAST_OK_SHORT: &'static str = "成功";

/// Label of the "last update" clock column.
pub const TEXT_LAST_UPDATE_SHORT: &'static str = "更新";

/// "View all" of the battery alarm drill-down entry.
pub const TEXT_VIEW_ALL: &'static str = "查看全部";

/// Unit of the alarm bit count.
pub const TEXT_BITS_UNIT: &'static str = "位";

/// Number of battery alarm bits.
pub const BMS_ALARM_BITS: u64 = 288;

/// Offset from a card's outer edge to its content (stroke 1 + padding 16).
pub const CARD_INSET: i32 = 17;

/// Gap between card groups.
pub const GAP_GROUP: i32 = 16;

/// Height of a card head row.
pub const CARD_HEAD_H: i32 = 40;

/// Height of a station status row.
pub const ROW_STATION_H: i32 = 48;

/// Height of a banner (px).
pub const BANNER_H: i32 = 56;

/// Room the stale-catalog banner takes above a segment: the banner and a group gap.
pub const STALE_BAND_H: i32 = BANNER_H + GAP_GROUP;

/// Height of a summary row of the battery alarm card (px).
pub const ROW_SUMMARY_H: i32 = 44;

/// Height of the entry row of the battery alarm card (px).
pub const ROW_ENTRY_H: i32 = 56;

/// At most this many active alarm bits are listed on the summary card.
pub const BMS_SUMMARY_LIST_ROWS: usize = 4;

/// How far a segment moves down for the stale-catalog banner: the band when
/// the catalog is stale, nothing otherwise.
pub fn stale_inset(stale: bool) -> (r: i32)
    ensures
        r == (if stale { STALE_BAND_H } else { 0 }),
{
    if stale {
        STALE_BAND_H
    } else {
        0
    }
}

/// Listed rows of the battery alarm card (at most [`BMS_SUMMARY_LIST_ROWS`]).
pub open spec fn bms_listed(list_rows: nat) -> int {
    if list_rows > BMS_SUMMARY_LIST_ROWS {
        BMS_SUMMARY_LIST_ROWS as int
    } else {
        list_rows as int
    }
}

fn listed_rows(list_rows: usize) -> (n: i32)
    ensures
        n == bms_listed(list_rows as nat),
{
    if list_rows > BMS_SUMMARY_LIST_ROWS {
        4
    } else {
        list_rows as i32
    }
}

/// Height of the battery alarm card: head, summary row, listed rows, entry
/// row and the two insets.
pub fn bms_card_height(list_rows: usize) -> (h: i32)
    ensures
        h == CARD_HEAD_H + ROW_SUMMARY_H + bms_listed(list_rows as nat) * ROW_SUMMARY_H
            + ROW_ENTRY_H + 2 * CARD_INSET,
{
    let n = listed_rows(list_rows);
    CARD_HEAD_H + ROW_SUMMARY_H + n * ROW_SUMMARY_H + ROW_ENTRY_H + 2 * CARD_INSET
}

/// Top of the entry button on the battery alarm card: below the head, the
/// summary row and the listed rows.
pub fn bms_entry_y(list_rows: usize) -> (y: i32)
    ensures
        y == CARD_HEAD_H + ROW_SUMMARY_H + bms_listed(list_rows as nat) * ROW_SUMMARY_H,
{
    let n = listed_rows(list_rows);
    CARD_HEAD_H + ROW_SUMMARY_H + n * ROW_SUMMARY_H
}

// ── Row model ──────────────────────────────────────────────────────────────

/// The kind of a segment row.
#[derive(Clone, Copy, Debug, PartialEq, Eq, Structural)]
pub enum RowKind {
    /// Group card head.
    Header,
    /// Station status strip (no card).
    Station,
    /// Numeric value row.
    Scalar,
    /// Bit row.
    Bit,
    /// Enumerated value row.
    Enum,
    /// Segment-wide notice (no card).
    Notice,
    /// A special element placed at this row's position.
    Special,
}

/// One row of a segment.
#[derive(Clone, Debug, PartialEq, Eq)]
pub struct RowData {
    pub kind: RowKind,
    pub h: i32,
    pub label: String,
    pub value: String,
    pub aux: String,
    pub aux2: String,
    pub active: Option<bool>,
    pub degraded: bool,
}

impl RowData {
    /// A group card head.
    pub fn header(title: &str) -> (r: RowData)
        ensures
            r.kind == RowKind::Header,
            r.h == CARD_HEAD_H,
            r.label@ == title@,
            r.value@.len() == 0 && r.aux@.len() == 0 && r.aux2@.len() == 0,
            r.active is None,
            !r.degraded,
    {
        RowData {
            kind: RowKind::Header,
            h: CARD_HEAD_H,
            label: owned(title),
            value: string_from_chars(Vec::new()),
            aux: string_from_chars(Vec::new()),
            aux2: string_from_chars(Vec::new()),
            active: None,
            degraded: false,
        }
    }

    /// A segment-wide notice of `h` (the data row height): the text alone,
    /// marked degraded.
    pub fn notice(text: &str, h: i32) -> (r: RowData)
        ensures
            r.kind == RowKind::Notice,
            r.h == h,
            r.label@ == text@,
            r.value@.len() == 0 && r.aux@.len() == 0 && r.aux2@.len() == 0,
            r.active is None,
            r.degraded,
    {
        RowData {
            kind: RowKind::Notice,
            h,
            label: owned(text),
            value: string_from_chars(Vec::new()),
            aux: string_from_chars(Vec::new()),
            aux2: string_from_chars(Vec::new()),
            active: None,
            degraded: true,
        }
    }

    /// A station status strip: name, status, last-success and last-update columns.
    pub fn station(name: String, status: String, ok: String, update: String) -> (r: RowData)
        ensures
            r.kind == RowKind::Station,
            r.h == ROW_STATION_H,
            r.label == name,
            r.value == status,
            r.aux == ok,
            r.aux2 == update,
            r.active is None,
            !r.degraded,
    {
        RowData {
            kind: RowKind::Station,
            h: ROW_STATION_H,
            label: name,
            value: status,
            aux: ok,
            aux2: update,
            active: None,
            degraded: false,
        }
    }
}

// ── Layout ─────────────────────────────────────────────────────────────────

/// Rows laid out without a card: station strips and notices.
pub open spec fn is_free_row(k: RowKind) -> bool {
    k == RowKind::Station || k == RowKind::Notice
}

/// End of the card group that starts at row `i`: the next header after
/// `i`, or the end of the rows.
pub open spec fn group_end(kinds: Seq<RowKind>, i: int) -> int
    decreases kinds.len() - i,
{
    if i + 1 >= kinds.len() {
        kinds.len() as int
    } else if kinds[i + 1] == RowKind::Header {
        i + 1
    } else {
        group_end(kinds, i + 1)
    }
}

/// Sum of the heights of rows `i .. j`.
pub open spec fn height_sum(hs: Seq<int>, i: int, j: int) -> int
    decreases j - i,
{
    if j <= i {
        0
    } else {
        height_sum(hs, i, j - 1) + hs[j - 1]
    }
}

/// Positions of rows `i .. j` stacked from `y`.
pub open spec fn stacked(hs: Seq<int>, i: int, j: int, y: int) -> Seq<int>
    decreases j - i,
{
    if j <= i {
        Seq::empty()
    } else {
        stacked(hs, i, j - 1, y).push(y + height_sum(hs, i, j - 1))
    }
}

/// The layout of rows `i..` starting at `y`, when `carded` cards were placed
/// before: `(row tops, cards as (top, height), bottom)`. A free row sits at
/// `y` (followed by a group gap when more rows follow and a card exists);
/// a card group gets one card of the insets plus its rows' heights, its rows
/// stacked inside from the inset, and a group gap after it.
pub open spec fn layout_from(kinds: Seq<RowKind>, hs: Seq<int>, i: int, y: int, carded: bool) -> (
    Seq<int>,
    Seq<(int, int)>,
    int,
)
    decreases kinds.len() - i,
{
    if i < 0 || i >= kinds.len() {
        (Seq::empty(), Seq::empty(), y)
    } else if is_free_row(kinds[i]) {
        let gap = if i + 1 < kinds.len() && carded { GAP_GROUP as int } else { 0 };
        let rest = layout_from(kinds, hs, i + 1, y + hs[i] + gap, carded);
        (seq![y].add(rest.0), rest.1, rest.2)
    } else {
        let j = group_end(kinds, i);
        proof {
            lemma_group_end_bounds(kinds, i);
        }
        let card_h = 2 * CARD_INSET + height_sum(hs, i, j);
        let rest = layout_from(kinds, hs, j, y + card_h + GAP_GROUP, true);
        (stacked(hs, i, j, y + CARD_INSET).add(rest.0), seq![(y, card_h)].add(rest.1), rest.2)
    }
}

/// The layout of a segment's rows: each row's top, the group cards and the
/// total height (no trailing gap after the last card).
pub open spec fn layout_spec(kinds: Seq<RowKind>, hs: Seq<int>) -> (Seq<int>, Seq<(int, int)>, int) {
    let r = layout_from(kinds, hs, 0, 0, false);
    (r.0, r.1, if r.1.len() > 0 { r.2 - GAP_GROUP } else { r.2 })
}

pub open spec fn row_kinds(rows: Seq<RowData>) -> Seq<RowKind> {
    rows.map_values(|r: RowData| r.kind)
}

pub open spec fn row_heights(rows: Seq<RowData>) -> Seq<int> {
    rows.map_values(|r: RowData| r.h as int)
}

pub open spec fn abs(x: int) -> int {
    if x < 0 {
        -x
    } else {
        x
    }
}

/// Sum of the absolute heights of all rows.
pub open spec fn abs_height_total(hs: Seq<int>) -> int
    decreases hs.len(),
{
    if hs.len() == 0 {
        0
    } else {
        abs_height_total(hs.drop_last()) + abs(hs.last())
    }
}

/// Room the layout may need beyond the row heights: insets and a gap per row.
pub open spec fn layout_fits(rows: Seq<RowData>) -> bool {
    abs_height_total(row_heights(rows)) + (rows.len() + 1) * (2 * CARD_INSET + GAP_GROUP)
        <= i32::MAX
}

pub open spec fn cards_view(v: Seq<(i32, i32)>) -> Seq<(int, int)> {
    v.map_values(|c: (i32, i32)| (c.0 as int, c.1 as int))
}

pub open spec fn ys_view(v: Seq<i32>) -> Seq<int> {
    v.map_values(|y: i32| y as int)
}

pub proof fn lemma_group_end_bounds(kinds: Seq<RowKind>, i: int)
    requires
        0 <= i < kinds.len(),
    ensures
        i < group_end(kinds, i) <= kinds.len(),
        forall|k: int| i < k < group_end(kinds, i) ==> kinds[k] != RowKind::Header,
        group_end(kinds, i) < kinds.len() ==> kinds[group_end(kinds, i)] == RowKind::Header,
    decreases kinds.len() - i,
{
    if i + 1 < kinds.len() && kinds[i + 1] != RowKind::Header {
        lemma_group_end_bounds(kinds, i + 1);
    }
}

proof fn lemma_group_end_is(kinds: Seq<RowKind>, i: int, j: int)
    requires
        0 <= i < j <= kinds.len(),
        forall|m: int| i < m < j ==> kinds[m] != RowKind::Header,
        j == kinds.len() || kinds[j] == RowKind::Header,
    ensures
        group_end(kinds, i) == j,
    decreases j - i,
{
    if i + 1 < j {
        lemma_group_end_is(kinds, i + 1, j);
    }
}

proof fn lemma_abs_total_nonneg(hs: Seq<int>)
    ensures
        abs_height_total(hs) >= 0,
    decreases hs.len(),
{
    if hs.len() > 0 {
        lemma_abs_total_nonneg(hs.drop_last());
    }
}

/// The heights of rows `i..j` are bounded by the growth of the absolute total.
proof fn lemma_abs_total_mono(hs: Seq<int>, i: int, j: int)
    requires
        0 <= i <= j <= hs.len(),
    ensures
        abs_height_total(hs.take(i)) + abs(height_sum(hs, i, j)) <= abs_height_total(hs.take(j)),
        abs_height_total(hs.take(i)) >= 0,
        abs_height_total(hs.take(hs.len() as int)) == abs_height_total(hs),
    decreases j - i,
{
    assert(hs.take(hs.len() as int) == hs);
    lemma_abs_total_nonneg(hs.take(i));
    if i < j {
        lemma_abs_total_mono(hs, i, j - 1);
        assert(hs.take(j).drop_last() == hs.take(j - 1));
        assert(hs.take(j).last() == hs[j - 1]);
    }
}

/// What [`layout_fits`] gives for rows `i..j`: their heights are bounded by
/// the growth of the absolute total, which stays within the limit.
proof fn lemma_fits(rows: Seq<RowData>, i: int, j: int)
    requires
        layout_fits(rows),
        0 <= i <= j <= rows.len(),
    ensures
        abs_height_total(row_heights(rows).take(i)) + abs(height_sum(row_heights(rows), i, j))
            <= abs_height_total(row_heights(rows).take(j)),
        0 <= abs_height_total(row_heights(rows).take(i)),
        abs_height_total(row_heights(rows).take(j)) + (rows.len() + 1) * 50 <= i32::MAX,
        i < rows.len() ==> row_heights(rows)[i] == rows[i].h,
{
    let hs = row_heights(rows);
    lemma_abs_total_mono(hs, i, j);
    lemma_abs_total_mono(hs, j, rows.len() as int);
    if i < j {
        lemma_abs_total_mono(hs, i, i + 1);
        lemma_abs_total_mono(hs, i + 1, j);
    }
}

/// Lays the rows `i..` of one card group at `card_y`: returns the group's
/// end and the card's bottom.
fn place_group(rows: &Vec<RowData>, i: usize, card_y: i32, ys: &mut Vec<i32>) -> (r: (usize, i32))
    requires
        i < rows@.len(),
        layout_fits(rows@),
        abs(card_y as int) <= abs_height_total(row_heights(rows@).take(i as int)) + i * 50,
    ensures
        r.0 == group_end(row_kinds(rows@), i as int),
        r.1 == card_y + 2 * CARD_INSET + height_sum(row_heights(rows@), i as int, r.0 as int),
        ys_view(final(ys)@) == ys_view(old(ys)@) + stacked(
            row_heights(rows@),
            i as int,
            r.0 as int,
            card_y + CARD_INSET,
        ),
{
    let ghost kinds = row_kinds(rows@);
    let ghost hs = row_heights(rows@);
    let n = rows.len();
    let mut j: usize = i + 1;
    while j < n && rows[j].kind != RowKind::Header
        invariant
            n == rows@.len(),
            kinds == row_kinds(rows@),
            i < j <= n,
            forall|m: int| i < m < j ==> kinds[m] != RowKind::Header,
        decreases n - j,
    {
        j = j + 1;
    }
    proof {
        lemma_group_end_is(kinds, i as int, j as int);
        lemma_fits(rows@, i as int, j as int);
        let a_i = abs_height_total(hs.take(i as int));
        let a_j = abs_height_total(hs.take(j as int));
        assert(a_i <= a_j);
        assert(a_j + (n + 1) * 50 <= i32::MAX);
        assert(abs(card_y as int) <= a_i + i * 50);
        assert(i * 50 + 50 <= (n + 1) * 50) by (nonlinear_arith)
            requires
                i < n,
        ;
    }
    let ghost old_ys = ys@;
    let mut y: i32 = card_y + CARD_INSET;
    let mut m: usize = i;
    while m < j
        invariant
            n == rows@.len(),
            hs == row_heights(rows@),
            i <= m <= j <= n,
            layout_fits(rows@),
            abs_height_total(hs.take(j as int)) + (n + 1) * 50 <= i32::MAX,
            abs(card_y as int) <= abs_height_total(hs.take(i as int)) + i * 50,
            y == card_y + CARD_INSET + height_sum(hs, i as int, m as int),
            ys_view(ys@) == ys_view(old_ys) + stacked(hs, i as int, m as int, card_y + CARD_INSET),
        decreases j - m,
    {
        proof {
            lemma_fits(rows@, i as int, m + 1);
            lemma_fits(rows@, m + 1, j as int);
            lemma_fits(rows@, i as int, i as int);
            assert(hs[m as int] == rows@[m as int].h);
            assert(height_sum(hs, i as int, m + 1) == height_sum(hs, i as int, m as int) + hs[m as int]);
        }
        let ghost before = ys@;
        ys.push(y);
        y = y + rows[m].h;
        m = m + 1;
        proof {
            assert(ys_view(ys@) == ys_view(before).push(ys@.last() as int));
            assert(ys_view(ys@) =~= ys_view(old_ys) + stacked(hs, i as int, m as int, card_y + CARD_INSET));
        }
    }
    proof {
        lemma_fits(rows@, i as int, j as int);
        lemma_fits(rows@, i as int, i as int);
    }
    (j, y + CARD_INSET)
}

/// Lays out a segment's rows: free rows (station strips, notices) stack at
/// the top without a card; every other run of rows from one header to the
/// next becomes a card of insets plus its rows, cards separated by a group
/// gap. Returns each row's top, the cards as `(top, height)` and the total
/// height.
pub fn layout(rows: &Vec<RowData>) -> (r: (Vec<i32>, Vec<(i32, i32)>, i32))
    requires
        layout_fits(rows@),
    ensures
        (ys_view(r.0@), cards_view(r.1@), r.2 as int) == layout_spec(row_kinds(rows@), row_heights(rows@)),
{
    let ghost kinds = row_kinds(rows@);
    let ghost hs = row_heights(rows@);
    let n = rows.len();
    let mut ys: Vec<i32> = Vec::new();
    let mut cards: Vec<(i32, i32)> = Vec::new();
    let mut y: i32 = 0;
    let mut i: usize = 0;
    proof {
        lemma_fits(rows@, 0, 0);
    }
    while i < n
        invariant
            0 <= i <= n,
            n == rows@.len(),
            kinds == row_kinds(rows@),
            hs == row_heights(rows@),
            layout_fits(rows@),
            abs(y as int) <= abs_height_total(hs.take(i as int)) + i * 50,
            layout_from(kinds, hs, 0, 0, false) == ({
                let rr = layout_from(kinds, hs, i as int, y as int, cards@.len() > 0);
                (ys_view(ys@) + rr.0, cards_view(cards@) + rr.1, rr.2)
            }),
        decreases n - i,
    {
        let k = rows[i].kind;
        if k == RowKind::Station || k == RowKind::Notice {
            proof {
                lemma_fits(rows@, i as int, i + 1);
                lemma_fits(rows@, i + 1, n as int);
                assert(height_sum(hs, i as int, i as int) == 0);
                assert(height_sum(hs, i as int, i + 1) == hs[i as int]);
                assert(kinds[i as int] == k);
                let a_i = abs_height_total(hs.take(i as int));
                let a_1 = abs_height_total(hs.take(i + 1));
                assert(a_i + abs(rows@[i as int].h as int) <= a_1);
                assert(a_1 + (n + 1) * 50 <= i32::MAX);
                assert(i * 50 + 50 <= (n + 1) * 50);
            }
            let ghost old_ys = ys@;
            let ghost y0 = y as int;
            let ghost i0 = i as int;
            ys.push(y);
            y = y + rows[i].h;
            i = i + 1;
            if i < n && cards.len() > 0 {
                y = y + GAP_GROUP;
            }
            proof {
                let rr = layout_from(kinds, hs, i as int, y as int, cards@.len() > 0);
                assert(layout_from(kinds, hs, i0, y0, cards@.len() > 0) == (seq![y0].add(rr.0), rr.1, rr.2));
                assert(ys_view(ys@) == ys_view(old_ys).push(y0));
                assert(ys_view(ys@) + rr.0 =~= ys_view(old_ys) + seq![y0].add(rr.0));
            }
        } else {
            let ghost old_ys = ys@;
            let ghost old_cards = cards@;
            let ghost i0 = i as int;
            let card_y = y;
            proof {
                assert(kinds[i as int] == k);
                lemma_group_end_bounds(kinds, i as int);
            }
            let (j, bottom) = place_group(rows, i, card_y, &mut ys);
            proof {
                lemma_fits(rows@, i0, j as int);
                lemma_fits(rows@, j as int, n as int);
                lemma_group_end_bounds(kinds, i0);
                let a_i = abs_height_total(hs.take(i0));
                let a_j = abs_height_total(hs.take(j as int));
                assert(a_i + abs(height_sum(hs, i0, j as int)) <= a_j);
                assert(a_j + (n + 1) * 50 <= i32::MAX);
                assert(i0 * 50 + 50 <= j * 50);
                assert(j * 50 <= n * 50);
            }
            let card_h = bottom - card_y;
            cards.push((card_y, card_h));
            y = bottom + GAP_GROUP;
            i = j;
            proof {
                let rr = layout_from(kinds, hs, j as int, y as int, true);
                assert(layout_from(kinds, hs, i0, card_y as int, old_cards.len() > 0) == (
                    stacked(hs, i0, j as int, card_y + CARD_INSET).add(rr.0),
                    seq![(card_y as int, card_h as int)].add(rr.1),
                    rr.2,
                ));
                assert(cards_view(cards@) == cards_view(old_cards).push((card_y as int, card_h as int)));
                let card = seq![(card_y as int, card_h as int)];
                assert(cards_view(cards@) + rr.1 =~= cards_view(old_cards) + card.add(rr.1));
                let rows = stacked(hs, i0, j as int, card_y + CARD_INSET);
                assert(ys_view(ys@) + rr.0 =~= ys_view(old_ys) + rows.add(rr.0));
            }
        }
    }
    proof {
        lemma_fits(rows@, n as int, n as int);
        assert(abs_height_total(hs.take(n as int)) + (n + 1) * 50 <= i32::MAX);
        assert(ys_view(ys@) + Seq::<int>::empty() =~= ys_view(ys@));
        assert(cards_view(cards@) + Seq::<(int, int)>::empty() =~= cards_view(cards@));
    }
    let total: i32 = if cards.len() > 0 { y - GAP_GROUP } else { y };
    (ys, cards, total)
}

// ── The card law of the layout ─────────────────────────────────────────────

/// The card groups of rows `i..` as `(first row, end)`: a free row belongs
/// to no card; any other row opens a group that runs to the next header.
pub open spec fn groups_from(kinds: Seq<RowKind>, i: int) -> Seq<(int, int)>
    decreases kinds.len() - i,
{
    if i < 0 || i >= kinds.len() {
        Seq::empty()
    } else if is_free_row(kinds[i]) {
        groups_from(kinds, i + 1)
    } else {
        let j = group_end(kinds, i);
        proof {
            lemma_group_end_bounds(kinds, i);
        }
        seq![(i, j)].add(groups_from(kinds, j))
    }
}

/// The card groups of a segment's rows.
pub open spec fn card_groups(kinds: Seq<RowKind>) -> Seq<(int, int)> {
    groups_from(kinds, 0)
}

proof fn lemma_height_sum_front(hs: Seq<int>, i: int, j: int)
    requires
        i < j,
    ensures
        height_sum(hs, i, j) == hs[i] + height_sum(hs, i + 1, j),
    decreases j - i,
{
    if i + 1 < j {
        lemma_height_sum_front(hs, i, j - 1);
        assert(height_sum(hs, i + 1, j) == height_sum(hs, i + 1, j - 1) + hs[j - 1]);
    } else {
        assert(height_sum(hs, i, i) == 0);
        assert(height_sum(hs, i + 1, j) == 0);
    }
}

proof fn lemma_stacked(hs: Seq<int>, i: int, j: int, y: int)
    requires
        i <= j,
    ensures
        stacked(hs, i, j, y).len() == j - i,
        forall|k: int| i <= k < j ==> #[trigger] stacked(hs, i, j, y)[k - i] == y + height_sum(hs, i, k),
    decreases j - i,
{
    if i < j {
        lemma_stacked(hs, i, j - 1, y);
    }
}

/// What `layout_from` gives for rows `i..` started at `y`, group by group.
proof fn lemma_layout_from_cards(kinds: Seq<RowKind>, hs: Seq<int>, i: int, y: int, carded: bool)
    requires
        0 <= i <= kinds.len(),
        hs.len() == kinds.len(),
        carded ==> i == kinds.len() || kinds[i] == RowKind::Header,
    ensures
        ({
            let r = layout_from(kinds, hs, i, y, carded);
            let g = groups_from(kinds, i);
            &&& r.0.len() == kinds.len() - i
            &&& r.1.len() == g.len()
            &&& forall|c: int|
                0 <= c < g.len() ==> i <= (#[trigger] g[c]).0 < g[c].1 <= kinds.len()
                    && r.1[c].1 == 2 * CARD_INSET + height_sum(hs, g[c].0, g[c].1)
            &&& forall|c: int, k: int|
                0 <= c < g.len() && (#[trigger] g[c]).0 <= k < g[c].1 ==> #[trigger] r.0[k - i]
                    == r.1[c].0 + CARD_INSET + height_sum(hs, g[c].0, k)
            &&& forall|c: int|
                0 <= c < g.len() - 1 ==> (#[trigger] g[c]).1 == g[c + 1].0 && r.1[c + 1].0
                    == r.1[c].0 + r.1[c].1 + GAP_GROUP
            &&& g.len() > 0 ==> g[g.len() - 1].1 == kinds.len() && r.2 == r.1[g.len() - 1].0
                + r.1[g.len() - 1].1 + GAP_GROUP && r.1[0].0 == y + height_sum(hs, i, g[0].0)
                && forall|k: int| i <= k < g[0].0 ==> #[trigger] r.0[k - i] == y + height_sum(hs, i, k)
            &&& g.len() == 0 ==> r.2 == y + height_sum(hs, i, kinds.len() as int) && forall|k: int|
                i <= k < kinds.len() ==> #[trigger] r.0[k - i] == y + height_sum(hs, i, k)
        }),
    decreases kinds.len() - i,
{
    let r = layout_from(kinds, hs, i, y, carded);
    let g = groups_from(kinds, i);
    if i == kinds.len() {
        assert(r.0.len() == 0 && r.1.len() == 0 && g.len() == 0);
    } else if is_free_row(kinds[i]) {
        let gap = if i + 1 < kinds.len() && carded { GAP_GROUP as int } else { 0 };
        assert(!carded);
        assert(gap == 0);
        lemma_layout_from_cards(kinds, hs, i + 1, y + hs[i], carded);
        let rest = layout_from(kinds, hs, i + 1, y + hs[i], carded);
        assert(r.0 == seq![y].add(rest.0));
        assert(r.1 == rest.1);
        assert(g == groups_from(kinds, i + 1));
        assert forall|k: int| i < k <= kinds.len() implies height_sum(hs, i, k) == hs[i]
            + height_sum(hs, i + 1, k) by {
            lemma_height_sum_front(hs, i, k);
        }
        assert forall|c: int, k: int|
            0 <= c < g.len() && (#[trigger] g[c]).0 <= k < g[c].1 implies #[trigger] r.0[k - i]
                == r.1[c].0 + CARD_INSET + height_sum(hs, g[c].0, k) by {
            assert(r.0[k - i] == rest.0[k - (i + 1)]);
        }
        if g.len() > 0 {
            assert forall|k: int| i <= k < g[0].0 implies #[trigger] r.0[k - i] == y + height_sum(
                hs,
                i,
                k,
            ) by {
                if k > i {
                    assert(r.0[k - i] == rest.0[k - (i + 1)]);
                }
            }
        } else {
            assert forall|k: int| i <= k < kinds.len() implies #[trigger] r.0[k - i] == y
                + height_sum(hs, i, k) by {
                if k > i {
                    assert(r.0[k - i] == rest.0[k - (i + 1)]);
                }
            }
        }
    } else {
        let j = group_end(kinds, i);
        lemma_group_end_bounds(kinds, i);
        let card_h = 2 * CARD_INSET + height_sum(hs, i, j);
        let ny = y + card_h + GAP_GROUP;
        lemma_layout_from_cards(kinds, hs, j, ny, true);
        let rest = layout_from(kinds, hs, j, ny, true);
        let gr = groups_from(kinds, j);
        lemma_stacked(hs, i, j, y + CARD_INSET);
        let st = stacked(hs, i, j, y + CARD_INSET);
        assert(r.0 == st.add(rest.0));
        assert(r.1 == seq![(y, card_h)].add(rest.1));
        assert(g == seq![(i, j)].add(gr));
        assert(g[0] == (i, j));
        assert forall|c: int, k: int|
            0 <= c < g.len() && (#[trigger] g[c]).0 <= k < g[c].1 implies #[trigger] r.0[k - i]
                == r.1[c].0 + CARD_INSET + height_sum(hs, g[c].0, k) by {
            if c == 0 {
                assert(r.0[k - i] == st[k - i]);
            } else {
                assert(g[c] == gr[c - 1]);
                assert(r.0[k - i] == rest.0[k - j]);
                assert(r.1[c] == rest.1[c - 1]);
            }
        }
        assert forall|c: int| 0 <= c < g.len() implies i <= (#[trigger] g[c]).0 < g[c].1
            <= kinds.len() && r.1[c].1 == 2 * CARD_INSET + height_sum(hs, g[c].0, g[c].1) by {
            if c > 0 {
                assert(g[c] == gr[c - 1]);
                assert(r.1[c] == rest.1[c - 1]);
            }
        }
        assert forall|c: int| 0 <= c < g.len() - 1 implies (#[trigger] g[c]).1 == g[c + 1].0
            && r.1[c + 1].0 == r.1[c].0 + r.1[c].1 + GAP_GROUP by {
            if c > 0 {
                assert(g[c] == gr[c - 1]);
                assert(g[c + 1] == gr[c]);
                assert(r.1[c] == rest.1[c - 1]);
                assert(r.1[c + 1] == rest.1[c]);
            } else if gr.len() > 0 {
                assert(g[1] == gr[0]);
                assert(r.1[1] == rest.1[0]);
                assert(height_sum(hs, j, gr[0].0) == 0);
            }
        }
        if gr.len() == 0 {
            assert(j == kinds.len());
            assert(rest.2 == ny);
        } else {
            assert(g[g.len() - 1] == gr[gr.len() - 1]);
            assert(r.1[g.len() - 1] == rest.1[gr.len() - 1]);
        }
    }
}

/// The card law of a segment's layout: every row has a top; each card
/// holds one group of rows, is as tall as the two insets and its rows, and
/// its rows stack inside it from the top inset; each card starts a group gap
/// below the previous one, and every row after the first card is in a card;
/// the free rows before the first card stack from the top with no gap; the
/// total height ends at the last card (no gap after it), or, without cards,
/// at the end of the rows; no rows lay out as nothing.
pub proof fn lemma_layout_card_law(kinds: Seq<RowKind>, hs: Seq<int>)
    requires
        kinds.len() == hs.len(),
    ensures
        ({
            let (ys, cards, total) = layout_spec(kinds, hs);
            let g = card_groups(kinds);
            &&& ys.len() == kinds.len()
            &&& cards.len() == g.len()
            &&& forall|c: int|
                0 <= c < g.len() ==> 0 <= (#[trigger] g[c]).0 < g[c].1 <= kinds.len()
                    && cards[c].1 == 2 * CARD_INSET + height_sum(hs, g[c].0, g[c].1)
            &&& forall|c: int, k: int|
                0 <= c < g.len() && (#[trigger] g[c]).0 <= k < g[c].1 ==> #[trigger] ys[k]
                    == cards[c].0 + CARD_INSET + height_sum(hs, g[c].0, k)
            &&& forall|c: int|
                0 <= c < g.len() - 1 ==> (#[trigger] g[c]).1 == g[c + 1].0 && cards[c + 1].0
                    == cards[c].0 + cards[c].1 + GAP_GROUP
            &&& g.len() > 0 ==> g[g.len() - 1].1 == kinds.len() && total == cards[g.len() - 1].0
                + cards[g.len() - 1].1 && cards[0].0 == height_sum(hs, 0, g[0].0) && forall|k: int|
                0 <= k < g[0].0 ==> #[trigger] ys[k] == height_sum(hs, 0, k)
            &&& g.len() == 0 ==> total == height_sum(hs, 0, kinds.len() as int) && forall|k: int|
                0 <= k < kinds.len() ==> #[trigger] ys[k] == height_sum(hs, 0, k)
            &&& kinds.len() == 0 ==> ys.len() == 0 && cards.len() == 0 && total == 0
        }),
{
    lemma_layout_from_cards(kinds, hs, 0, 0, false);
    let r = layout_from(kinds, hs, 0, 0, false);
    let g = card_groups(kinds);
    let ys = layout_spec(kinds, hs).0;
    let cards = layout_spec(kinds, hs).1;
    assert(ys == r.0 && cards == r.1);
    assert forall|c: int, k: int|
        0 <= c < g.len() && (#[trigger] g[c]).0 <= k < g[c].1 implies #[trigger] ys[k]
            == cards[c].0 + CARD_INSET + height_sum(hs, g[c].0, k) by {
        assert(r.0[k - 0] == ys[k]);
    }
    if g.len() > 0 {
        assert forall|k: int| 0 <= k < g[0].0 implies #[trigger] ys[k] == height_sum(hs, 0, k) by {
            assert(r.0[k - 0] == ys[k]);
        }
    } else {
        assert forall|k: int| 0 <= k < kinds.len() implies #[trigger] ys[k] == height_sum(hs, 0, k) by {
            assert(r.0[k - 0] == ys[k]);
        }
    }
}

// ── Station clock columns and small texts ──────────────────────────────────

/// A station clock: `HH:MM:SS` (UTC) of `ms`, or the placeholder for `0`
/// (which means "never").
pub open spec fn clock_hms_spec(ms: nat) -> Seq<char> {
    if ms == 0 {
        PLACEHOLDER@
    } else {
        clock_text(ms % (MS_PER_DAY as nat))
    }
}

fn push_clock_hms(v: &mut Vec<char>, ms: u64)
    ensures
        final(v)@ == old(v)@ + clock_hms_spec(ms as nat),
{
    if ms == 0 {
        push_str(v, PLACEHOLDER);
    } else {
        push_clock(v, ms % MS_PER_DAY);
    }
}

/// The clock of `ms` (placeholder for `0`).
pub fn clock_hms(ms: u64) -> (r: String)
    ensures
        r@ == clock_hms_spec(ms as nat),
{
    let mut v: Vec<char> = Vec::new();
    push_clock_hms(&mut v, ms);
    string_from_chars(v)
}

/// Third column of a station row: `成功 HH:MM:SS` of the last success.
pub fn station_ok_text(last_ok_ms: u64) -> (r: String)
    ensures
        r@ == TEXT_LAST_OK_SHORT@ + " "@ + clock_hms_spec(last_ok_ms as nat),
{
    let mut v: Vec<char> = Vec::new();
    push_str(&mut v, TEXT_LAST_OK_SHORT);
    push_str(&mut v, " ");
    push_clock_hms(&mut v, last_ok_ms);
    string_from_chars(v)
}

/// Fourth column of a station row: `更新 HH:MM:SS` of the latest block.
pub fn station_update_text(block_ts_ms: u64) -> (r: String)
    ensures
        r@ == TEXT_LAST_UPDATE_SHORT@ + " "@ + clock_hms_spec(block_ts_ms as nat),
{
    let mut v: Vec<char> = Vec::new();
    push_str(&mut v, TEXT_LAST_UPDATE_SHORT);
    push_str(&mut v, " ");
    push_clock_hms(&mut v, block_ts_ms);
    string_from_chars(v)
}

/// The entry button text of the battery alarm card: `查看全部 N 位` for `N` bits.
pub fn bms_card_entry_text(total: u32) -> (r: String)
    ensures
        r@ == TEXT_VIEW_ALL@ + " "@ + decimal(total as nat) + " "@ + TEXT_BITS_UNIT@,
{
    let mut v: Vec<char> = Vec::new();
    push_str(&mut v, TEXT_VIEW_ALL);
    push_str(&mut v, " ");
    push_decimal(&mut v, total as u64);
    push_str(&mut v, " ");
    push_str(&mut v, TEXT_BITS_UNIT);
    string_from_chars(v)
}

/// The entry button of the battery alarm summary: `查看全部 288 位`.
pub fn bms_entry_text() -> (r: String)
    ensures
        r@ == TEXT_VIEW_ALL@ + " "@ + decimal(BMS_ALARM_BITS as nat) + " "@ + TEXT_BITS_UNIT@,
{
    bms_card_entry_text(288)
}

/// `v` when not empty; an empty string counts as "not provided".
pub fn non_empty(v: &str) -> (r: Option<&str>)
    ensures
        v@.len() == 0 ==> r is None,
        v@.len() > 0 ==> r == Some(v),
{
    let cs = chars_of(v);
    if cs.len() == 0 {
        None
    } else {
        Some(v)
    }
}

/// The text of `v` when it is present and not empty.
pub fn non_empty_opt(v: &Option<String>) -> (r: Option<&str>)
    ensures
        match v {
            Some(s) => if s@.len() > 0 {
                r matches Some(t) && t@ == s@
            } else {
                r is None
            },
            None => r is None,
        },
{
    match v {
        Some(s) => {
            let t: &str = s.as_str();
            non_empty(t)
        },
        None => None,
    }
}

/// Shown for a device value that was not provided (never a made-up value).
pub const TEXT_NOT_PROVIDED: &'static str = "未提供";

/// Separator of the two service endpoints.
pub const TEXT_ADDR_SEP: &'static str = " / ";

/// Rows of the device cards: the station table (one per role, online or
/// not), device information, run information, about this panel.
pub const STATION_ROWS: usize = 5;

pub const INFO_ROWS: usize = 4;

pub const RUN_ROWS: usize = 7;

pub const ABOUT_ROWS: usize = 3;

/// Style slots of a device card value: normal, weak note.
pub const VALUE_SLOT_NORMAL: usize = 0;

pub const VALUE_SLOT_WEAK: usize = 1;

/// A device card value: the text in the normal style, or "not provided" in
/// the weak style when there is none.
pub fn device_value(text: Option<&str>) -> (r: (String, usize))
    ensures
        match text {
            Some(t) => r.0@ == t@ && r.1 == VALUE_SLOT_NORMAL,
            None => r.0@ == TEXT_NOT_PROVIDED@ && r.1 == VALUE_SLOT_WEAK,
        },
{
    match text {
        Some(t) => (owned(t), VALUE_SLOT_NORMAL),
        None => (owned(TEXT_NOT_PROVIDED), VALUE_SLOT_WEAK),
    }
}

/// The management address row: the address, or "not provided" (weak) when
/// it is missing or empty.
pub fn mgmt_ip_value(mgmt: &Option<String>) -> (r: (String, usize))
    ensures
        match mgmt {
            Some(s) if s@.len() > 0 => r.0@ == s@ && r.1 == VALUE_SLOT_NORMAL,
            _ => r.0@ == TEXT_NOT_PROVIDED@ && r.1 == VALUE_SLOT_WEAK,
        },
{
    device_value(device_mgmt_ip(mgmt))
}

/// The service address line: the read endpoint and the control endpoint.
pub fn service_address_text(bind: &str, control_bind: &str) -> (r: String)
    ensures
        r@ == bind@ + TEXT_ADDR_SEP@ + control_bind@,
{
    let mut v: Vec<char> = Vec::new();
    push_str(&mut v, bind);
    push_str(&mut v, TEXT_ADDR_SEP);
    push_str(&mut v, control_bind);
    string_from_chars(v)
}

/// The device management address, or none when not provided (never made up).
pub fn device_mgmt_ip(mgmt: &Option<String>) -> (r: Option<&str>)
    ensures
        match mgmt {
            Some(s) => if s@.len() > 0 {
                r matches Some(t) && t@ == s@
            } else {
                r is None
            },
            None => r is None,
        },
{
    non_empty_opt(mgmt)
}

// ── Placement of a bound row ───────────────────────────────────────────────

/// Station status words with a colour of their own.
pub const TEXT_ONLINE: &'static str = "在线";

pub const TEXT_STATION_OFFLINE: &'static str = "站离线";

/// Column widths of the station strip: name, status, each clock column
/// (an eighth, a twelfth and a sixth of the content width).
pub const ST_NAME_W: i32 = 124;

pub const ST_STATE_W: i32 = 82;

pub const ST_TIME_W: i32 = 165;

/// Left edge of the value column of numeric and enumerated rows (a third of
/// the content width, the same line as the device cards).
pub const VALUE_COL_X: i32 = 330;

/// The font slots of a text.
#[derive(Clone, Copy, Debug, PartialEq, Eq, Structural)]
pub enum TextSlot {
    SectionTitle,
    Label,
    Body,
    CardValue,
}

/// Where a text slot of a row goes: left edge, width, font and colour
/// (centred vertically in the row by its font).
#[derive(Clone, Copy, Debug, PartialEq, Eq, Structural)]
pub struct SlotPlace {
    pub x: i32,
    pub w: i32,
    pub font: TextSlot,
    pub color: Swatch,
}

/// The indicator of a bit row: left edge, lit or not, colour.
#[derive(Clone, Copy, Debug, PartialEq, Eq, Structural)]
pub struct LedPlace {
    pub x: i32,
    pub lit: bool,
    pub color: Swatch,
}

/// How a pooled row shows a row of the model: the first slot takes the
/// label, the second the value, the third `aux`, the fourth `aux2`, the
/// indicator the value as its text; `None` hides the slot.
#[derive(Clone, Copy, Debug, PartialEq, Eq, Structural)]
pub struct RowPlacement {
    pub inset: i32,
    pub l1: Option<SlotPlace>,
    pub l2: Option<SlotPlace>,
    pub l3: Option<SlotPlace>,
    pub l4: Option<SlotPlace>,
    pub led: Option<LedPlace>,
}

/// The colour of a station status word: green online, red offline, weak
/// text for any other word.
pub open spec fn station_color_spec(status: Seq<char>) -> Swatch {
    if status == TEXT_ONLINE@ {
        Swatch::Green
    } else if status == TEXT_STATION_OFFLINE@ {
        Swatch::Danger
    } else {
        Swatch::TextWeak
    }
}

/// The colour of a station status word.
pub fn station_color(status: &str) -> (c: Swatch)
    ensures
        c == station_color_spec(status@),
{
    if str_eq(status, TEXT_ONLINE) {
        Swatch::Green
    } else if str_eq(status, TEXT_STATION_OFFLINE) {
        Swatch::Danger
    } else {
        Swatch::TextWeak
    }
}

pub open spec fn clamp0(w: int) -> int {
    if w < 0 { 0 } else { w }
}

/// A slot placed at `x` with width `w` (a negative width shows as none).
pub open spec fn slot(x: int, w: int, font: TextSlot, color: Swatch) -> SlotPlace {
    SlotPlace { x: x as i32, w: clamp0(w) as i32, font, color }
}

/// Rows outside any card take no inset.
pub open spec fn row_inset(k: RowKind) -> int {
    if k == RowKind::Station || k == RowKind::Notice || k == RowKind::Special { 0 } else { CARD_INSET as int }
}

/// Widths and font sizes for which every coordinate of a placement fits an
/// `i32`: the leftmost clock column, the unit column and what is left right
/// of it.
pub open spec fn row_fits(width: int, value_px: int) -> bool {
    &&& i32::MIN <= width - 2 * GAP_MIN - 2 * ST_TIME_W - 2 * CARD_INSET
    &&& i32::MIN <= 3 * value_px
    &&& VALUE_COL_X + 3 * value_px <= i32::MAX
    &&& i32::MIN + GAP_MIN <= width - VALUE_COL_X - 3 * value_px <= i32::MAX
}

/// The placement of `row` on a pooled row of `width` (with or without an
/// indicator; `value_px`: the size of the value font):
/// - cards' rows are inset, their slots start a gap further in;
/// - a head shows its title across the row;
/// - a station strip shows name, coloured status, and the two clock columns
///   flush right;
/// - a bit row shows its name on the left half, then the lit or unlit
///   indicator where the pool has one and the bit is defined, else the
///   state word in weak text;
/// - a numeric or enumerated row shows its label, the value at the value
///   column (weak body text when degraded) and, when it has one, the unit or
///   reason three value glyphs further right;
/// - a notice spans the row in weak text; a special row shows nothing.
pub open spec fn row_placement_spec(row: RowData, width: int, has_led: bool, value_px: int) -> RowPlacement {
    let inset = row_inset(row.kind);
    let inner_x = inset + GAP_MIN;
    let inner_w = clamp0(width - 2 * inset - 2 * GAP_MIN);
    let none = RowPlacement { inset: inset as i32, l1: None, l2: None, l3: None, l4: None, led: None };
    match row.kind {
        RowKind::Header => RowPlacement {
            l1: Some(slot(inner_x, inner_w, TextSlot::SectionTitle, Swatch::TextPrimary)),
            ..none
        },
        RowKind::Station => {
            let upd_x = width - inner_x - ST_TIME_W;
            RowPlacement {
                l1: Some(slot(inner_x, ST_NAME_W as int, TextSlot::Label, Swatch::TextPrimary)),
                l2: Some(slot(inner_x + ST_NAME_W + GAP_MIN, ST_STATE_W as int, TextSlot::Body, station_color_spec(row.value@))),
                l3: Some(slot(upd_x - GAP_MIN - ST_TIME_W, ST_TIME_W as int, TextSlot::Body, Swatch::TextSecond)),
                l4: Some(slot(upd_x, ST_TIME_W as int, TextSlot::Body, Swatch::TextSecond)),
                ..none
            }
        },
        RowKind::Bit => {
            let name_w = inner_w / 2;
            let l1 = Some(slot(inner_x, name_w, TextSlot::Body, Swatch::TextSecond));
            if has_led && row.active is Some {
                let a = row.active->0;
                RowPlacement {
                    l1,
                    led: Some(LedPlace {
                        x: (inner_x + name_w) as i32,
                        lit: a,
                        color: if a { Swatch::LinkOk } else { Swatch::LinkUnconfigured },
                    }),
                    ..none
                }
            } else {
                RowPlacement {
                    l1,
                    l2: Some(slot(inner_x + name_w, inner_w - name_w, TextSlot::Body, Swatch::TextWeak)),
                    ..none
                }
            }
        },
        RowKind::Scalar | RowKind::Enum => {
            let aux_x = VALUE_COL_X + 3 * value_px;
            RowPlacement {
                l1: Some(slot(inner_x, inner_w, TextSlot::SectionTitle, Swatch::TextSecond)),
                l2: Some(slot(
                    VALUE_COL_X as int,
                    width - VALUE_COL_X - GAP_MIN,
                    if row.degraded { TextSlot::Body } else { TextSlot::CardValue },
                    if row.degraded { Swatch::TextWeak } else { Swatch::TextPrimary },
                )),
                l3: if row.aux@.len() > 0 {
                    Some(slot(aux_x, width - aux_x - GAP_MIN, TextSlot::Body, if row.degraded { Swatch::TextWeak } else { Swatch::TextSecond }))
                } else {
                    None
                },
                ..none
            }
        },
        RowKind::Notice => RowPlacement {
            l1: Some(slot(0, width, TextSlot::Body, Swatch::TextWeak)),
            ..none
        },
        RowKind::Special => none,
    }
}

fn place(x: i32, w: i32, font: TextSlot, color: Swatch) -> (p: SlotPlace)
    ensures
        p == slot(x as int, w as int, font, color),
{
    SlotPlace { x, w: if w < 0 { 0 } else { w }, font, color }
}

/// The placement of a model row on a pooled row.
pub fn row_placement(row: &RowData, width: i32, has_led: bool, value_px: i32) -> (p: RowPlacement)
    requires
        row_fits(width as int, value_px as int),
    ensures
        p == row_placement_spec(*row, width as int, has_led, value_px as int),
{
    let inset: i32 = match row.kind {
        RowKind::Station | RowKind::Notice | RowKind::Special => 0,
        _ => CARD_INSET,
    };
    let inner_x = inset + GAP_MIN;
    let iw = width - inset * 2 - 2 * GAP_MIN;
    let inner_w = if iw < 0 { 0 } else { iw };
    let none = RowPlacement { inset, l1: None, l2: None, l3: None, l4: None, led: None };
    match row.kind {
        RowKind::Header => RowPlacement {
            l1: Some(place(inner_x, inner_w, TextSlot::SectionTitle, Swatch::TextPrimary)),
            ..none
        },
        RowKind::Station => {
            let upd_x = width - inner_x - ST_TIME_W;
            RowPlacement {
                l1: Some(place(inner_x, ST_NAME_W, TextSlot::Label, Swatch::TextPrimary)),
                l2: Some(place(inner_x + ST_NAME_W + GAP_MIN, ST_STATE_W, TextSlot::Body, station_color(row.value.as_str()))),
                l3: Some(place(upd_x - GAP_MIN - ST_TIME_W, ST_TIME_W, TextSlot::Body, Swatch::TextSecond)),
                l4: Some(place(upd_x, ST_TIME_W, TextSlot::Body, Swatch::TextSecond)),
                ..none
            }
        },
        RowKind::Bit => {
            let name_w = inner_w / 2;
            let l1 = Some(place(inner_x, name_w, TextSlot::Body, Swatch::TextSecond));
            match (has_led, row.active) {
                (true, Some(a)) => RowPlacement {
                    l1,
                    led: Some(LedPlace {
                        x: inner_x + name_w,
                        lit: a,
                        color: if a { Swatch::LinkOk } else { Swatch::LinkUnconfigured },
                    }),
                    ..none
                },
                _ => RowPlacement {
                    l1,
                    l2: Some(place(inner_x + name_w, inner_w - name_w, TextSlot::Body, Swatch::TextWeak)),
                    ..none
                },
            }
        },
        RowKind::Scalar | RowKind::Enum => {
            let aux_x = VALUE_COL_X + 3 * value_px;
            let (font, color) = if row.degraded {
                (TextSlot::Body, Swatch::TextWeak)
            } else {
                (TextSlot::CardValue, Swatch::TextPrimary)
            };
            let aux_color = if row.degraded { Swatch::TextWeak } else { Swatch::TextSecond };
            let aux_empty = chars_of(row.aux.as_str()).len() == 0;
            RowPlacement {
                l1: Some(place(inner_x, inner_w, TextSlot::SectionTitle, Swatch::TextSecond)),
                l2: Some(place(VALUE_COL_X, width - VALUE_COL_X - GAP_MIN, font, color)),
                l3: if !aux_empty {
                    Some(place(aux_x, width - aux_x - GAP_MIN, TextSlot::Body, aux_color))
                } else {
                    None
                },
                ..none
            }
        },
        RowKind::Notice => RowPlacement {
            l1: Some(place(0, width, TextSlot::Body, Swatch::TextWeak)),
            ..none
        },
        RowKind::Special => none,
    }
}

} // verus!
