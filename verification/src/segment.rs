//! The row model of a peripheral segment: which rows a segment shows, in
//! which order, and where they go.
use vstd::prelude::*;

use crate::fire::{TEXT_NAME_UNKNOWN, TEXT_PERIPH_UNAVAILABLE};
use crate::system::{
    abs_height_total, cards_view, layout, layout_fits, layout_spec, row_fits, row_heights,
    row_kinds, row_placement, row_placement_spec, ys_view, RowData, RowKind, CARD_HEAD_H,
    CARD_INSET, GAP_GROUP, PLACEHOLDER,
};
use crate::text::{chars_of, owned, str_eq, string_from_chars, trim_chars, trim_spec};

verus! {

/// The only text of a segment whose station is not configured.
pub const TEXT_STATION_DISABLED: &'static str = "站点未启用";

// ── Rows by value ──────────────────────────────────────────────────────────

/// What a row shows, as values.
pub struct RowShape {
    pub kind: RowKind,
    pub h: int,
    pub label: Seq<char>,
    pub value: Seq<char>,
    pub aux: Seq<char>,
    pub aux2: Seq<char>,
    pub active: Option<bool>,
    pub degraded: bool,
}

pub open spec fn shape(r: RowData) -> RowShape {
    RowShape {
        kind: r.kind,
        h: r.h as int,
        label: r.label@,
        value: r.value@,
        aux: r.aux@,
        aux2: r.aux2@,
        active: r.active,
        degraded: r.degraded,
    }
}

pub open spec fn shapes(rs: Seq<RowData>) -> Seq<RowShape> {
    rs.map_values(|r: RowData| shape(r))
}

pub open spec fn header_shape(title: Seq<char>) -> RowShape {
    RowShape {
        kind: RowKind::Header,
        h: CARD_HEAD_H as int,
        label: title,
        value: Seq::empty(),
        aux: Seq::empty(),
        aux2: Seq::empty(),
        active: None,
        degraded: false,
    }
}

pub open spec fn notice_shape(text: Seq<char>, h: int) -> RowShape {
    RowShape {
        kind: RowKind::Notice,
        h,
        label: text,
        value: Seq::empty(),
        aux: Seq::empty(),
        aux2: Seq::empty(),
        active: None,
        degraded: true,
    }
}

pub open spec fn special_shape(h: int) -> RowShape {
    RowShape {
        kind: RowKind::Special,
        h,
        label: Seq::empty(),
        value: Seq::empty(),
        aux: Seq::empty(),
        aux2: Seq::empty(),
        active: None,
        degraded: false,
    }
}

fn empty_string() -> (s: String)
    ensures
        s@ == Seq::<char>::empty(),
{
    string_from_chars(Vec::new())
}

fn copy_row(r: &RowData) -> (c: RowData)
    ensures
        shape(c) == shape(*r),
{
    RowData {
        kind: r.kind,
        h: r.h,
        label: owned(r.label.as_str()),
        value: owned(r.value.as_str()),
        aux: owned(r.aux.as_str()),
        aux2: owned(r.aux2.as_str()),
        active: r.active,
        degraded: r.degraded,
    }
}

// ── Points and groups ──────────────────────────────────────────────────────

/// A point of the segment that passed the whitelist, with the group it
/// belongs to (an index into the segment's groups), its block and address,
/// and the row it shows.
pub struct SegPoint {
    pub group: usize,
    pub block: String,
    pub at: u16,
    pub row: RowData,
}

/// A group of the segment, in display order: its title (`None`: the group
/// has no title and is not shown) and whether it is the battery alarm
/// group, which shows a summary card in place of its points.
pub struct SegGroup {
    pub title: Option<String>,
    pub bms_alarm: bool,
}

/// Strict order of names, character by character (by code point), a proper
/// prefix first.
pub open spec fn name_lt(a: Seq<char>, b: Seq<char>) -> bool
    decreases a.len(),
{
    if a.len() == 0 {
        b.len() > 0
    } else if b.len() == 0 {
        false
    } else if a[0] != b[0] {
        a[0] < b[0]
    } else {
        name_lt(a.skip(1), b.skip(1))
    }
}

/// Points are ordered by block name, then address.
pub open spec fn point_lt(a: SegPoint, b: SegPoint) -> bool {
    name_lt(a.block@, b.block@) || (a.block@ == b.block@ && a.at < b.at)
}

/// Where `x` goes in the ordered `s`: before the first point it precedes.
pub open spec fn insert_pos(s: Seq<SegPoint>, x: SegPoint) -> int
    decreases s.len(),
{
    if s.len() == 0 {
        0
    } else if point_lt(x, s[0]) {
        0
    } else {
        1 + insert_pos(s.skip(1), x)
    }
}

/// The points in order of block and address; points with the same key keep
/// their order.
pub open spec fn sort_points(s: Seq<SegPoint>) -> Seq<SegPoint>
    decreases s.len(),
{
    if s.len() == 0 {
        s
    } else {
        let t = sort_points(s.drop_last());
        t.insert(insert_pos(t, s.last()), s.last())
    }
}

/// The points of group `g`, in their given order.
pub open spec fn of_group(s: Seq<SegPoint>, g: int) -> Seq<SegPoint>
    decreases s.len(),
{
    if s.len() == 0 {
        Seq::empty()
    } else if s.last().group == g {
        of_group(s.drop_last(), g).push(s.last())
    } else {
        of_group(s.drop_last(), g)
    }
}

/// The rows of group `gi`: none when it has no point or no title; its head
/// and the summary card's row (when there is a card) for the battery alarm
/// group; else its head and its points' rows in order.
pub open spec fn group_shapes(g: SegGroup, gi: int, pts: Seq<SegPoint>, special_h: Option<i32>) -> Seq<RowShape> {
    let mine = sort_points(of_group(pts, gi));
    if mine.len() == 0 || g.title is None {
        Seq::empty()
    } else if g.bms_alarm {
        seq![header_shape(g.title->0@)] + match special_h {
            Some(h) => seq![special_shape(h as int)],
            None => Seq::empty(),
        }
    } else {
        seq![header_shape(g.title->0@)] + mine.map_values(|p: SegPoint| shape(p.row))
    }
}

pub open spec fn groups_shapes(groups: Seq<SegGroup>, pts: Seq<SegPoint>, special_h: Option<i32>, k: int) -> Seq<RowShape>
    decreases k,
{
    if k <= 0 {
        Seq::empty()
    } else {
        groups_shapes(groups, pts, special_h, k - 1) + group_shapes(groups[k - 1], k - 1, pts, special_h)
    }
}

/// The rows of a segment: a station that is not configured shows only its
/// notice; otherwise the data-unavailable notice first when the data cannot
/// be had, then each group's rows in group order.
pub open spec fn segment_shapes(
    disabled: bool,
    available: bool,
    groups: Seq<SegGroup>,
    pts: Seq<SegPoint>,
    special_h: Option<i32>,
    notice_h: i32,
) -> Seq<RowShape> {
    if disabled {
        seq![notice_shape(TEXT_STATION_DISABLED@, notice_h as int)]
    } else {
        (if available {
            Seq::empty()
        } else {
            seq![notice_shape(TEXT_PERIPH_UNAVAILABLE@, notice_h as int)]
        }) + groups_shapes(groups, pts, special_h, groups.len() as int)
    }
}

// ── Ordering ───────────────────────────────────────────────────────────────

fn name_less(a: &Vec<char>, b: &Vec<char>) -> (r: bool)
    ensures
        r == name_lt(a@, b@),
{
    let mut i: usize = 0;
    assert(a@.skip(0) =~= a@ && b@.skip(0) =~= b@);
    while i < a.len() && i < b.len() && a[i] == b[i]
        invariant
            i <= a@.len(),
            i <= b@.len(),
            name_lt(a@, b@) == name_lt(a@.skip(i as int), b@.skip(i as int)),
        decreases a@.len() - i,
    {
        assert(a@.skip(i as int).skip(1) =~= a@.skip(i + 1));
        assert(b@.skip(i as int).skip(1) =~= b@.skip(i + 1));
        i = i + 1;
    }
    if i == a.len() {
        i < b.len()
    } else if i == b.len() {
        false
    } else {
        a[i] < b[i]
    }
}

fn point_less(a: &SegPoint, b: &SegPoint) -> (r: bool)
    ensures
        r == point_lt(*a, *b),
{
    let x = chars_of(a.block.as_str());
    let y = chars_of(b.block.as_str());
    if name_less(&x, &y) {
        return true;
    }
    let same = str_eq(a.block.as_str(), b.block.as_str());
    same && a.at < b.at
}

pub open spec fn pick(pts: Seq<SegPoint>, idx: Seq<usize>) -> Seq<SegPoint> {
    idx.map_values(|i: usize| pts[i as int])
}

/// Indices of the points of group `g`, ordered by block and address.
fn group_points(pts: &Vec<SegPoint>, g: usize) -> (idx: Vec<usize>)
    ensures
        forall|k: int| 0 <= k < idx@.len() ==> idx@[k] < pts@.len(),
        pick(pts@, idx@) == sort_points(of_group(pts@, g as int)),
{
    let mut idx: Vec<usize> = Vec::new();
    let mut j: usize = 0;
    assert(pick(pts@, idx@) =~= sort_points(of_group(pts@.take(0), g as int)));
    while j < pts.len()
        invariant
            j <= pts@.len(),
            forall|k: int| 0 <= k < idx@.len() ==> idx@[k] < pts@.len(),
            pick(pts@, idx@) == sort_points(of_group(pts@.take(j as int), g as int)),
        decreases pts@.len() - j,
    {
        let ghost s = of_group(pts@.take(j as int), g as int);
        assert(pts@.take(j + 1).drop_last() =~= pts@.take(j as int));
        assert(pts@.take(j + 1).last() == pts@[j as int]);
        if pts[j].group == g {
            let ghost t = pick(pts@, idx@);
            let ghost x = pts@[j as int];
            assert(of_group(pts@.take(j + 1), g as int) == s.push(x));
            assert(s.push(x).drop_last() =~= s);
            let mut p: usize = 0;
            assert(t.skip(0) =~= t);
            while p < idx.len() && !point_less(&pts[j], &pts[idx[p]])
                invariant
                    j < pts@.len(),
                    x == pts@[j as int],
                    forall|k: int| 0 <= k < idx@.len() ==> idx@[k] < pts@.len(),
                    t == pick(pts@, idx@),
                    p <= idx@.len(),
                    insert_pos(t, x) == p + insert_pos(t.skip(p as int), x),
                decreases idx@.len() - p,
            {
                assert(t.skip(p as int).skip(1) =~= t.skip(p + 1));
                p = p + 1;
            }
            idx.insert(p, j);
            assert(pick(pts@, idx@) =~= t.insert(p as int, x));
        } else {
            assert(of_group(pts@.take(j + 1), g as int) == s);
        }
        j = j + 1;
    }
    assert(pts@.take(pts@.len() as int) =~= pts@);
    idx
}

fn notice_row(text: &str, h: i32) -> (r: RowData)
    ensures
        shape(r) == notice_shape(text@, h as int),
{
    let r = RowData::notice(text, h);
    assert(r.value@ =~= Seq::<char>::empty());
    assert(r.aux@ =~= Seq::<char>::empty());
    assert(r.aux2@ =~= Seq::<char>::empty());
    r
}

fn header_row(title: &str) -> (r: RowData)
    ensures
        shape(r) == header_shape(title@),
{
    let r = RowData::header(title);
    assert(r.value@ =~= Seq::<char>::empty());
    assert(r.aux@ =~= Seq::<char>::empty());
    assert(r.aux2@ =~= Seq::<char>::empty());
    r
}

fn special_row(h: i32) -> (r: RowData)
    ensures
        shape(r) == special_shape(h as int),
{
    RowData {
        kind: RowKind::Special,
        h,
        label: empty_string(),
        value: empty_string(),
        aux: empty_string(),
        aux2: empty_string(),
        active: None,
        degraded: false,
    }
}

proof fn lemma_shapes_push(rows: Seq<RowData>, r: RowData)
    ensures
        shapes(rows.push(r)) == shapes(rows).push(shape(r)),
{
    assert(shapes(rows.push(r)) =~= shapes(rows).push(shape(r)));
}

/// The rows of a segment (see `segment_shapes`): `disabled` is a station
/// that is not configured, `available` whether the segment's data could be
/// had, `special_h` the height of the battery alarm summary card where the
/// segment has one, `notice_h` the data row height.
pub fn segment_rows(
    disabled: bool,
    available: bool,
    groups: &Vec<SegGroup>,
    pts: &Vec<SegPoint>,
    special_h: Option<i32>,
    notice_h: i32,
) -> (rows: Vec<RowData>)
    ensures
        shapes(rows@) == segment_shapes(disabled, available, groups@, pts@, special_h, notice_h),
{
    let mut rows: Vec<RowData> = Vec::new();
    if disabled {
        let r = notice_row(TEXT_STATION_DISABLED, notice_h);
        proof {
            lemma_shapes_push(rows@, r);
        }
        rows.push(r);
        assert(shapes(rows@) =~= seq![notice_shape(TEXT_STATION_DISABLED@, notice_h as int)]);
        return rows;
    }
    if !available {
        let r = notice_row(TEXT_PERIPH_UNAVAILABLE, notice_h);
        proof {
            lemma_shapes_push(rows@, r);
        }
        rows.push(r);
    }
    let ghost head = shapes(rows@);
    assert(head =~= (if available {
        Seq::empty()
    } else {
        seq![notice_shape(TEXT_PERIPH_UNAVAILABLE@, notice_h as int)]
    }));
    let mut gi: usize = 0;
    while gi < groups.len()
        invariant
            gi <= groups@.len(),
            shapes(rows@) == head + groups_shapes(groups@, pts@, special_h, gi as int),
        decreases groups@.len() - gi,
    {
        let ghost before = shapes(rows@);
        let idx = group_points(pts, gi);
        let g = &groups[gi];
        let ghost want = group_shapes(*g, gi as int, pts@, special_h);
        let ghost mine = sort_points(of_group(pts@, gi as int));
        if idx.len() > 0 {
            if let Some(title) = &g.title {
                let hr = header_row(title.as_str());
                proof {
                    lemma_shapes_push(rows@, hr);
                }
                rows.push(hr);
                assert(mine.take(0).map_values(|p: SegPoint| shape(p.row)) =~= Seq::<RowShape>::empty());
                if g.bms_alarm {
                    if let Some(h) = special_h {
                        let sr = special_row(h);
                        proof {
                            lemma_shapes_push(rows@, sr);
                        }
                        rows.push(sr);
                    }
                    assert(shapes(rows@) =~= before + want);
                } else {
                    let n = idx.len();
                    let mut k: usize = 0;
                    while k < n
                        invariant
                            n == idx@.len(),
                            k <= n,
                            forall|m: int| 0 <= m < idx@.len() ==> idx@[m] < pts@.len(),
                            pick(pts@, idx@) == mine,
                            shapes(rows@) == before + seq![header_shape(title@)]
                                + mine.take(k as int).map_values(|p: SegPoint| shape(p.row)),
                        decreases n - k,
                    {
                        let r = copy_row(&pts[idx[k]].row);
                        proof {
                            lemma_shapes_push(rows@, r);
                            assert(mine[k as int] == pts@[idx@[k as int] as int]);
                            assert(mine.take(k + 1).map_values(|p: SegPoint| shape(p.row)) =~= mine.take(
                                k as int,
                            ).map_values(|p: SegPoint| shape(p.row)).push(shape(mine[k as int].row)));
                        }
                        rows.push(r);
                        k = k + 1;
                    }
                    assert(mine.take(n as int) =~= mine);
                    assert(shapes(rows@) =~= before + want);
                }
            } else {
                assert(want =~= Seq::<RowShape>::empty());
            }
        } else {
            assert(want =~= Seq::<RowShape>::empty());
        }
        assert(groups_shapes(groups@, pts@, special_h, gi + 1) == groups_shapes(groups@, pts@, special_h, gi as int) + want);
        gi = gi + 1;
    }
    rows
}

pub open spec fn shape_kinds(s: Seq<RowShape>) -> Seq<RowKind> {
    s.map_values(|r: RowShape| r.kind)
}

pub open spec fn shape_heights(s: Seq<RowShape>) -> Seq<int> {
    s.map_values(|r: RowShape| r.h)
}

/// The rows' heights are small enough for every position to fit an `i32`.
pub open spec fn shapes_fit(s: Seq<RowShape>) -> bool {
    abs_height_total(shape_heights(s)) + (s.len() + 1) * (2 * CARD_INSET + GAP_GROUP) <= i32::MAX
}

/// A segment's rows with their layout.
pub struct SegmentModel {
    pub rows: Vec<RowData>,
    pub ys: Vec<i32>,
    pub cards: Vec<(i32, i32)>,
    pub total_h: i32,
}

/// The model of a segment: its rows (see `segment_rows`) and their layout.
pub fn segment_model(
    disabled: bool,
    available: bool,
    groups: &Vec<SegGroup>,
    pts: &Vec<SegPoint>,
    special_h: Option<i32>,
    notice_h: i32,
) -> (m: SegmentModel)
    requires
        shapes_fit(segment_shapes(disabled, available, groups@, pts@, special_h, notice_h)),
    ensures
        shapes(m.rows@) == segment_shapes(disabled, available, groups@, pts@, special_h, notice_h),
        disabled ==> shapes(m.rows@) == seq![notice_shape(TEXT_STATION_DISABLED@, notice_h as int)],
        ({
            let s = segment_shapes(disabled, available, groups@, pts@, special_h, notice_h);
            (ys_view(m.ys@), cards_view(m.cards@), m.total_h as int) == layout_spec(shape_kinds(s), shape_heights(s))
        }),
{
    let rows = segment_rows(disabled, available, groups, pts, special_h, notice_h);
    proof {
        assert(row_heights(rows@) =~= shape_heights(shapes(rows@)));
        assert(row_kinds(rows@) =~= shape_kinds(shapes(rows@)));
    }
    let (ys, cards, total_h) = layout(&rows);
    SegmentModel { rows, ys, cards, total_h }
}

// ── Order of a group's rows ────────────────────────────────────────────────

/// No point comes after a point it precedes.
pub open spec fn points_sorted(s: Seq<SegPoint>) -> bool {
    forall|i: int, j: int| 0 <= i < j < s.len() ==> !point_lt(s[j], s[i])
}

proof fn lemma_name_lt_trans(a: Seq<char>, b: Seq<char>, c: Seq<char>)
    requires
        name_lt(a, b),
        name_lt(b, c),
    ensures
        name_lt(a, c),
    decreases a.len(),
{
    if a.len() > 0 && a[0] == b[0] && b[0] == c[0] {
        lemma_name_lt_trans(a.skip(1), b.skip(1), c.skip(1));
    }
}

proof fn lemma_name_lt_total(a: Seq<char>, b: Seq<char>)
    ensures
        !name_lt(a, a),
        !(name_lt(a, b) && name_lt(b, a)),
        a == b || name_lt(a, b) || name_lt(b, a),
    decreases a.len(),
{
    if a.len() > 0 {
        lemma_name_lt_total(a.skip(1), a.skip(1));
        if b.len() > 0 {
            lemma_name_lt_total(a.skip(1), b.skip(1));
            if a[0] == b[0] && a.skip(1) == b.skip(1) {
                assert forall|i: int| 0 <= i < a.len() implies a[i] == b[i] by {
                    if i > 0 {
                        assert(a[i] == a.skip(1)[i - 1]);
                        assert(b[i] == b.skip(1)[i - 1]);
                    }
                }
                assert(a =~= b);
            }
        }
    } else if b.len() == 0 {
        assert(a =~= b);
    }
}

proof fn lemma_point_lt_order(x: SegPoint, a: SegPoint, b: SegPoint)
    ensures
        !point_lt(a, a),
        !(point_lt(a, b) && point_lt(b, a)),
        !point_lt(a, b) && !point_lt(b, a) ==> a.block@ == b.block@ && a.at == b.at,
        point_lt(x, a) && !point_lt(b, a) ==> point_lt(x, b),
{
    lemma_name_lt_total(a.block@, b.block@);
    lemma_name_lt_total(x.block@, a.block@);
    lemma_name_lt_total(x.block@, b.block@);
    if point_lt(x, a) && !point_lt(b, a) {
        if name_lt(x.block@, a.block@) && name_lt(a.block@, b.block@) {
            lemma_name_lt_trans(x.block@, a.block@, b.block@);
        }
    }
}

proof fn lemma_insert_pos(t: Seq<SegPoint>, x: SegPoint)
    ensures
        0 <= insert_pos(t, x) <= t.len(),
        forall|i: int| 0 <= i < insert_pos(t, x) ==> !point_lt(x, #[trigger] t[i]),
        insert_pos(t, x) < t.len() ==> point_lt(x, t[insert_pos(t, x)]),
    decreases t.len(),
{
    if t.len() > 0 && !point_lt(x, t[0]) {
        lemma_insert_pos(t.skip(1), x);
        assert forall|i: int| 0 <= i < insert_pos(t, x) implies !point_lt(x, #[trigger] t[i]) by {
            if i > 0 {
                assert(t[i] == t.skip(1)[i - 1]);
            }
        }
    }
}

proof fn lemma_sort_points(s: Seq<SegPoint>)
    ensures
        points_sorted(sort_points(s)),
        sort_points(s).to_multiset() == s.to_multiset(),
    decreases s.len(),
{
    broadcast use vstd::seq_lib::group_to_multiset_ensures;

    if s.len() > 0 {
        let t = sort_points(s.drop_last());
        let x = s.last();
        lemma_sort_points(s.drop_last());
        lemma_insert_pos(t, x);
        let p = insert_pos(t, x);
        let u = t.insert(p, x);
        assert(s.drop_last().push(x) =~= s);
        assert forall|i: int, j: int| 0 <= i < j < u.len() implies !point_lt(u[j], u[i]) by {
            if j < p {
                assert(u[i] == t[i] && u[j] == t[j]);
            } else if j == p {
                assert(u[j] == x && u[i] == t[i]);
            } else if i < p {
                assert(u[i] == t[i] && u[j] == t[j - 1]);
                lemma_point_lt_order(x, t[i], x);
            } else if i == p {
                assert(u[i] == x && u[j] == t[j - 1]);
                lemma_point_lt_order(x, t[p], t[j - 1]);
                lemma_point_lt_order(x, x, t[j - 1]);
            } else {
                assert(u[i] == t[i - 1] && u[j] == t[j - 1]);
            }
        }
    }
}

/// The rows of a group's points come in order of block name, then address
/// (points with the same key in their given order), and are exactly the
/// points of that group.
pub proof fn lemma_group_points_ordered(pts: Seq<SegPoint>, g: int)
    ensures
        points_sorted(sort_points(of_group(pts, g))),
        sort_points(of_group(pts, g)).to_multiset() == of_group(pts, g).to_multiset(),
        forall|i: int| 0 <= i < of_group(pts, g).len() ==> (#[trigger] of_group(pts, g)[i]).group == g,
    decreases pts.len(),
{
    lemma_sort_points(of_group(pts, g));
    if pts.len() > 0 {
        lemma_group_points_ordered(pts.drop_last(), g);
    }
}

// ── The window of pooled rows ──────────────────────────────────────────────

/// The first row from `i` on whose bottom passes `top`; the last row when
/// none does.
pub open spec fn first_below(ys: Seq<i32>, rows: Seq<RowData>, top: int, i: int) -> int
    decreases ys.len() - i,
{
    if i >= ys.len() {
        rows.len() - 1
    } else if ys[i] + rows[i].h > top {
        i
    } else {
        first_below(ys, rows, top, i + 1)
    }
}

/// Where the window of a non-empty model starts at scroll offset `scroll_y`
/// (a negative offset counts as 0).
pub open spec fn window_start_spec(m: SegmentModel, scroll_y: int) -> Option<int> {
    if m.rows@.len() == 0 {
        None
    } else {
        Some(first_below(m.ys@, m.rows@, if scroll_y < 0 { 0 } else { scroll_y }, 0))
    }
}

/// A card is drawn when it meets the viewport `[top, bottom)`.
pub open spec fn card_meets(c: (i32, i32), top: int, bottom: int) -> bool {
    !(c.0 + c.1 <= top || c.0 >= bottom)
}

/// The cards (by index) that the first `k` cards give to a pool of
/// `pool` card frames: those that meet the viewport, in order, while frames
/// are left.
pub open spec fn cards_shown(cards: Seq<(i32, i32)>, top: int, bottom: int, pool: int, k: int) -> Seq<usize>
    decreases k,
{
    if k <= 0 {
        Seq::empty()
    } else {
        let prev = cards_shown(cards, top, bottom, pool, k - 1);
        if card_meets(cards[k - 1], top, bottom) && prev.len() < pool {
            prev.push((k - 1) as usize)
        } else {
            prev
        }
    }
}

/// What the pooled rows and card frames of a segment list show.
#[derive(Clone, Debug, PartialEq, Eq)]
pub struct SegmentWindow {
    /// The model row bound to the first pooled row (`None`: empty model).
    pub start: Option<usize>,
    /// The model rows bound to the pooled rows, in pool order; the other
    /// pooled rows are hidden.
    pub rows: Vec<usize>,
    /// The cards drawn, in frame order; the other frames are hidden.
    pub cards: Vec<usize>,
}

/// The window of a segment list: from the first row whose bottom passes the
/// top of the viewport, as many rows as the pool holds or the model has
/// left; the cards that meet the viewport, as many as there are frames.
pub open spec fn window_rows_spec(m: SegmentModel, scroll_y: int, pool: int) -> Seq<usize> {
    match window_start_spec(m, scroll_y) {
        None => Seq::empty(),
        Some(s) => {
            let n = if pool < m.rows@.len() - s { pool } else { m.rows@.len() - s };
            Seq::new(n as nat, |k: int| (s + k) as usize)
        },
    }
}

pub open spec fn window_cards_spec(m: SegmentModel, scroll_y: int, view_h: int, card_pool: int) -> Seq<usize> {
    if m.rows@.len() == 0 {
        Seq::empty()
    } else {
        let top = if scroll_y < 0 { 0 } else { scroll_y };
        cards_shown(m.cards@, top, top + view_h, card_pool, m.cards@.len() as int)
    }
}

/// A model whose row tops and rows go together.
pub open spec fn model_ok(m: SegmentModel) -> bool {
    m.ys@.len() == m.rows@.len()
}

/// The window of a segment list scrolled to `scroll_y`, with `pool` pooled
/// rows, `card_pool` card frames and a viewport `view_h` high.
pub fn segment_window(m: &SegmentModel, scroll_y: i32, view_h: i32, pool: usize, card_pool: usize) -> (w: SegmentWindow)
    requires
        model_ok(*m),
    ensures
        w.start == (match window_start_spec(*m, scroll_y as int) {
            Some(s) => Some(s as usize),
            None => None,
        }),
        w.rows@ == window_rows_spec(*m, scroll_y as int, pool as int),
        w.cards@ == window_cards_spec(*m, scroll_y as int, view_h as int, card_pool as int),
{
    let n = m.rows.len();
    if n == 0 {
        return SegmentWindow { start: None, rows: Vec::new(), cards: Vec::new() };
    }
    let top: i64 = if scroll_y < 0 { 0 } else { scroll_y as i64 };
    let mut i: usize = 0;
    while i < n && (m.ys[i] as i64) + (m.rows[i].h as i64) <= top
        invariant
            n == m.rows@.len(),
            n == m.ys@.len(),
            i <= n,
            first_below(m.ys@, m.rows@, top as int, 0) == first_below(m.ys@, m.rows@, top as int, i as int),
        decreases n - i,
    {
        i = i + 1;
    }
    let start: usize = if i < n { i } else { n - 1 };
    let left = n - start;
    let count = if pool < left { pool } else { left };
    let mut rows: Vec<usize> = Vec::new();
    let mut k: usize = 0;
    while k < count
        invariant
            k <= count,
            start + count <= n,
            rows@ == Seq::new(k as nat, |j: int| (start + j) as usize),
        decreases count - k,
    {
        rows.push(start + k);
        k = k + 1;
        assert(rows@ =~= Seq::new(k as nat, |j: int| (start + j) as usize));
    }
    let bottom: i64 = top + view_h as i64;
    let mut cards: Vec<usize> = Vec::new();
    let mut c: usize = 0;
    while c < m.cards.len()
        invariant
            c <= m.cards@.len(),
            cards@ == cards_shown(m.cards@, top as int, bottom as int, card_pool as int, c as int),
            cards@.len() <= card_pool,
        decreases m.cards@.len() - c,
    {
        let (cy, ch) = m.cards[c];
        let meets = !((cy as i64) + (ch as i64) <= top || (cy as i64) >= bottom);
        if meets && cards.len() < card_pool {
            cards.push(c);
        }
        c = c + 1;
    }
    SegmentWindow { start: Some(start), rows, cards }
}

/// What a row's four text slots read once bound: each shown slot's text,
/// the empty text for a hidden one.
pub open spec fn slot_texts_spec(row: RowData, width: int, has_led: bool, value_px: int) -> (Seq<char>, Seq<char>, Seq<char>, Seq<char>) {
    let p = row_placement_spec(row, width, has_led, value_px);
    (
        if p.l1 is Some { row.label@ } else { Seq::empty() },
        if p.l2 is Some { row.value@ } else { Seq::empty() },
        if p.l3 is Some { row.aux@ } else { Seq::empty() },
        if p.l4 is Some { row.aux2@ } else { Seq::empty() },
    )
}

fn shown(on: bool, s: &String) -> (r: String)
    ensures
        r@ == (if on { s@ } else { Seq::<char>::empty() }),
{
    if on {
        owned(s.as_str())
    } else {
        empty_string()
    }
}

/// The four slot texts of model row `index` as the list shows it: `None`
/// when the row is not in the window.
pub fn text_at(
    m: &SegmentModel,
    w: &SegmentWindow,
    index: usize,
    width: i32,
    has_led: bool,
    value_px: i32,
) -> (r: Option<(String, String, String, String)>)
    requires
        row_fits(width as int, value_px as int),
    ensures
        match r {
            None => !(w.start matches Some(s) && s <= index && index - s < w.rows@.len() && index < m.rows@.len()),
            Some(t) => w.start matches Some(s) && s <= index && index - s < w.rows@.len() && index < m.rows@.len()
                && (t.0@, t.1@, t.2@, t.3@) == slot_texts_spec(m.rows@[index as int], width as int, has_led, value_px as int),
        },
{
    let s = match w.start {
        Some(s) => s,
        None => {
            return None;
        },
    };
    if index < s || index - s >= w.rows.len() || index >= m.rows.len() {
        return None;
    }
    let row = &m.rows[index];
    let p = row_placement(row, width, has_led, value_px);
    Some((
        shown(p.l1.is_some(), &row.label),
        shown(p.l2.is_some(), &row.value),
        shown(p.l3.is_some(), &row.aux),
        shown(p.l4.is_some(), &row.aux2),
    ))
}

/// The first special row from `i` on, as (top, height).
pub open spec fn special_from(m: SegmentModel, i: int) -> Option<(i32, i32)>
    decreases m.rows@.len() - i,
{
    if i >= m.rows@.len() || i >= m.ys@.len() {
        None
    } else if m.rows@[i].kind == RowKind::Special {
        Some((m.ys@[i], m.rows@[i].h))
    } else {
        special_from(m, i + 1)
    }
}

/// Where the segment's special element goes: at the top and height of the
/// first special row (inset from the card edge), hidden when there is none.
pub fn special_place(m: &SegmentModel) -> (r: Option<(i32, i32)>)
    ensures
        r == special_from(*m, 0),
{
    let mut i: usize = 0;
    while i < m.rows.len() && i < m.ys.len()
        invariant
            special_from(*m, 0) == special_from(*m, i as int),
        decreases m.rows@.len() - i,
    {
        if m.rows[i].kind == RowKind::Special {
            return Some((m.ys[i], m.rows[i].h));
        }
        i = i + 1;
    }
    None
}

// ── A point's row ──────────────────────────────────────────────────────────

/// Shown for an enumerated value outside the catalog's table.
pub const TEXT_ENUM_UNKNOWN: &'static str = "未知";

/// Reason shown when a point has neither a value nor a reason.
pub const TEXT_RANGE_ERROR: &'static str = "数据异常";

/// What the catalog says of a point's bit.
pub struct BitPoint {
    pub defined: bool,
    /// The bit's name (may be empty).
    pub name: String,
    /// The bit is set in the point's word.
    pub active: bool,
}

/// A point as its row reads it, the station state already folded in: its
/// label, the reason it is degraded, its value written with its decimals and
/// rounded, its unit, the catalog's value table, its bit (for bit blocks)
/// and the bit's state text.
pub struct PointView {
    pub label: String,
    pub missing: Option<String>,
    pub value_text: Option<String>,
    pub value_rounded: Option<i64>,
    pub unit: Option<String>,
    pub enum_labels: Vec<(u16, String)>,
    pub bit: Option<BitPoint>,
    pub bit_text: String,
}

/// The text of the first entry of the table for `v`.
pub open spec fn enum_lookup(labels: Seq<(u16, String)>, v: i64) -> Option<Seq<char>>
    decreases labels.len(),
{
    if labels.len() == 0 {
        None
    } else if labels[0].0 as i64 == v {
        Some(labels[0].1@)
    } else {
        enum_lookup(labels.skip(1), v)
    }
}

/// An enumerated value's text: the table's text for the rounded value,
/// "unknown" for no value or a value outside the table.
pub open spec fn enum_text_spec(v: Option<i64>, labels: Seq<(u16, String)>) -> Seq<char> {
    match v {
        Some(k) => match enum_lookup(labels, k) {
            Some(t) => t,
            None => TEXT_ENUM_UNKNOWN@,
        },
        None => TEXT_ENUM_UNKNOWN@,
    }
}

pub open spec fn row_shape(
    kind: RowKind,
    h: int,
    label: Seq<char>,
    value: Seq<char>,
    aux: Seq<char>,
    active: Option<bool>,
    degraded: bool,
) -> RowShape {
    RowShape { kind, h, label, value, aux, aux2: Seq::empty(), active, degraded }
}

/// The row of a point, `data_h` and `bit_h` high for value and bit rows:
/// - in a bit block, a bit the catalog does not define shows its state text
///   as its name; a defined bit shows its name (or the unknown-name text),
///   its trimmed state word and its indicator;
/// - a degraded point shows the placeholder and its reason;
/// - a point with a value table shows the table's text for its value;
/// - a point with a value shows it with its unit;
/// - a point with neither value nor reason is degraded with the range-error
///   reason, never a made-up value.
pub open spec fn row_of_point_spec(p: PointView, is_bit_block: bool, data_h: int, bit_h: int) -> RowShape {
    if is_bit_block {
        if !(p.bit matches Some(b) && b.defined) {
            row_shape(RowKind::Bit, bit_h, p.bit_text@, Seq::empty(), Seq::empty(), None, false)
        } else {
            let b = p.bit->0;
            row_shape(
                RowKind::Bit,
                bit_h,
                if b.name@.len() == 0 { TEXT_NAME_UNKNOWN@ } else { b.name@ },
                trim_spec(p.bit_text@),
                Seq::empty(),
                Some(b.active),
                false,
            )
        }
    } else if p.missing is Some {
        row_shape(RowKind::Scalar, data_h, p.label@, PLACEHOLDER@, p.missing->0@, None, true)
    } else if p.enum_labels@.len() > 0 {
        row_shape(RowKind::Enum, data_h, p.label@, enum_text_spec(p.value_rounded, p.enum_labels@), Seq::empty(), None, false)
    } else if p.value_text is Some {
        row_shape(
            RowKind::Scalar,
            data_h,
            p.label@,
            p.value_text->0@,
            match p.unit {
                Some(u) => u@,
                None => Seq::empty(),
            },
            None,
            false,
        )
    } else {
        row_shape(RowKind::Scalar, data_h, p.label@, PLACEHOLDER@, TEXT_RANGE_ERROR@, None, true)
    }
}

fn enum_text(v: Option<i64>, labels: &Vec<(u16, String)>) -> (r: String)
    ensures
        r@ == enum_text_spec(v, labels@),
{
    let k = match v {
        Some(k) => k,
        None => {
            return owned(TEXT_ENUM_UNKNOWN);
        },
    };
    let mut i: usize = 0;
    assert(labels@.skip(0) =~= labels@);
    while i < labels.len()
        invariant
            v == Some(k),
            i <= labels@.len(),
            enum_lookup(labels@, k) == enum_lookup(labels@.skip(i as int), k),
        decreases labels@.len() - i,
    {
        assert(labels@.skip(i as int).skip(1) =~= labels@.skip(i + 1));
        assert(labels@.skip(i as int)[0] == labels@[i as int]);
        if labels[i].0 as i64 == k {
            return owned(labels[i].1.as_str());
        }
        i = i + 1;
    }
    owned(TEXT_ENUM_UNKNOWN)
}

fn make_row(
    kind: RowKind,
    h: i32,
    label: String,
    value: String,
    aux: String,
    active: Option<bool>,
    degraded: bool,
) -> (r: RowData)
    ensures
        shape(r) == row_shape(kind, h as int, label@, value@, aux@, active, degraded),
{
    RowData { kind, h, label, value, aux, aux2: empty_string(), active, degraded }
}

/// The row of a point.
pub fn row_of_point(p: &PointView, is_bit_block: bool, data_h: i32, bit_h: i32) -> (r: RowData)
    ensures
        shape(r) == row_of_point_spec(*p, is_bit_block, data_h as int, bit_h as int),
{
    if is_bit_block {
        match &p.bit {
            Some(b) if b.defined => {
                let name = if chars_of(b.name.as_str()).len() == 0 {
                    owned(TEXT_NAME_UNKNOWN)
                } else {
                    owned(b.name.as_str())
                };
                let state = string_from_chars(trim_chars(p.bit_text.as_str()));
                return make_row(RowKind::Bit, bit_h, name, state, empty_string(), Some(b.active), false);
            },
            _ => {
                return make_row(
                    RowKind::Bit,
                    bit_h,
                    owned(p.bit_text.as_str()),
                    empty_string(),
                    empty_string(),
                    None,
                    false,
                );
            },
        }
    }
    let label = owned(p.label.as_str());
    if let Some(reason) = &p.missing {
        return make_row(RowKind::Scalar, data_h, label, owned(PLACEHOLDER), owned(reason.as_str()), None, true);
    }
    if p.enum_labels.len() > 0 {
        return make_row(
            RowKind::Enum,
            data_h,
            label,
            enum_text(p.value_rounded, &p.enum_labels),
            empty_string(),
            None,
            false,
        );
    }
    match &p.value_text {
        Some(v) => {
            let unit = match &p.unit {
                Some(u) => owned(u.as_str()),
                None => empty_string(),
            };
            make_row(RowKind::Scalar, data_h, label, owned(v.as_str()), unit, None, false)
        },
        None => make_row(RowKind::Scalar, data_h, label, owned(PLACEHOLDER), owned(TEXT_RANGE_ERROR), None, true),
    }
}

/// A point's row never shows a value the point does not have: a point
/// without a value or a table text shows the placeholder and a reason.
pub proof fn lemma_no_value_no_number(p: PointView, data_h: int, bit_h: int)
    requires
        p.value_text is None,
        p.enum_labels@.len() == 0,
    ensures
        row_of_point_spec(p, false, data_h, bit_h).value == PLACEHOLDER@,
        row_of_point_spec(p, false, data_h, bit_h).degraded,
        p.missing is None ==> row_of_point_spec(p, false, data_h, bit_h).aux == TEXT_RANGE_ERROR@,
{
}

proof fn lemma_cards_shown(cards: Seq<(i32, i32)>, top: int, bottom: int, pool: int, j: int)
    requires
        0 <= j <= cards.len(),
        cards.len() <= usize::MAX,
        0 <= pool,
    ensures
        cards_shown(cards, top, bottom, pool, j).len() <= j,
        cards_shown(cards, top, bottom, pool, j).len() <= pool,
        forall|i: int|
            0 <= i < cards_shown(cards, top, bottom, pool, j).len() ==> {
                let c = #[trigger] cards_shown(cards, top, bottom, pool, j)[i];
                &&& (c as int) < j
                &&& cards[c as int].0 + cards[c as int].1 > top
                &&& cards[c as int].0 < bottom
            },
        forall|k: int|
            0 <= k < j && k < pool && cards[k].0 + cards[k].1 > top && cards[k].0 < bottom
                ==> #[trigger] cards_shown(cards, top, bottom, pool, j).contains(k as usize),
    decreases j,
{
    if j > 0 {
        lemma_cards_shown(cards, top, bottom, pool, j - 1);
        let prev = cards_shown(cards, top, bottom, pool, j - 1);
        let cur = cards_shown(cards, top, bottom, pool, j);
        if card_meets(cards[j - 1], top, bottom) && prev.len() < pool {
            assert(cur == prev.push((j - 1) as usize));
            assert(cur[prev.len() as int] == (j - 1) as usize);
            assert forall|k: int|
                0 <= k < j && k < pool && cards[k].0 + cards[k].1 > top && cards[k].0 < bottom
                    implies #[trigger] cur.contains(k as usize) by {
                if k < j - 1 {
                    assert(prev.contains(k as usize));
                    let t = choose|t: int| 0 <= t < prev.len() && prev[t] == k as usize;
                    assert(cur[t] == prev[t]);
                } else {
                    assert(cur[prev.len() as int] == k as usize);
                }
            }
            assert forall|i: int| 0 <= i < cur.len() implies {
                let c = #[trigger] cur[i];
                &&& (c as int) < j
                &&& cards[c as int].0 + cards[c as int].1 > top
                &&& cards[c as int].0 < bottom
            } by {
                if i < prev.len() {
                    assert(cur[i] == prev[i]);
                } else {
                    assert(cur[i] == (j - 1) as usize);
                }
            }
        } else {
            assert(cur == prev);
        }
    }
}

/// The window draws the frame of every card that reaches into the viewport
/// `[top, top + view_h)` (the top clamped at 0), as long as frames are left:
/// a card is drawn when its bottom is below the top and its top above the
/// bottom, so a card scrolled partly above the viewport keeps its frame. Every
/// drawn card reaches into the viewport, in order of the cards, and there are
/// no more than the frames.
pub proof fn lemma_window_draws_meeting_cards(m: SegmentModel, scroll_y: int, view_h: int, card_pool: int)
    requires
        0 <= card_pool,
        m.cards@.len() <= usize::MAX,
    ensures
        ({
            let top = if scroll_y < 0 { 0 } else { scroll_y };
            let w = window_cards_spec(m, scroll_y, view_h, card_pool);
            &&& m.rows@.len() == 0 ==> w.len() == 0
            &&& w.len() <= card_pool
            &&& forall|i: int|
                0 <= i < w.len() ==> {
                    let c = #[trigger] w[i];
                    &&& (c as int) < m.cards@.len()
                    &&& m.cards@[c as int].0 + m.cards@[c as int].1 > top
                    &&& m.cards@[c as int].0 < top + view_h
                }
            &&& forall|k: int|
                0 <= k < m.cards@.len() && k < card_pool && m.rows@.len() > 0 && m.cards@[k].0
                    + m.cards@[k].1 > top && m.cards@[k].0 < top + view_h ==> #[trigger] w.contains(
                    k as usize,
                )
        }),
{
    let top = if scroll_y < 0 { 0 } else { scroll_y };
    if m.rows@.len() > 0 {
        lemma_cards_shown(m.cards@, top, top + view_h, card_pool, m.cards@.len() as int);
    }
}

// ── Order of names, stated directly ────────────────────────────────────────

/// `a` comes before `b` as text: at the first index where they differ,
/// `a` has the smaller character; or `a` is a proper prefix of `b`.
pub open spec fn text_before(a: Seq<char>, b: Seq<char>) -> bool {
    ||| exists|t: int|
        0 <= t < a.len() && t < b.len() && a.take(t) == b.take(t) && #[trigger] a[t] < #[trigger] b[t]
    ||| (a.len() < b.len() && a == b.take(a.len() as int))
}

proof fn lemma_first_difference(a: Seq<char>, b: Seq<char>, t: int)
    requires
        0 <= t < a.len(),
        t < b.len(),
        a.take(t) == b.take(t),
        a[t] != b[t],
    ensures
        name_lt(a, b) == (a[t] < b[t]),
        name_lt(b, a) == (b[t] < a[t]),
    decreases t,
{
    if t > 0 {
        assert(a.take(t)[0] == a[0] && b.take(t)[0] == b[0]);
        assert(a.skip(1).take(t - 1) =~= b.skip(1).take(t - 1)) by {
            assert forall|i: int| 0 <= i < t - 1 implies a.skip(1)[i] == b.skip(1)[i] by {
                assert(a.take(t)[i + 1] == a[i + 1]);
                assert(b.take(t)[i + 1] == b[i + 1]);
                assert(a.take(t)[i + 1] == b.take(t)[i + 1]);
                assert(a.skip(1)[i] == a[i + 1]);
                assert(b.skip(1)[i] == b[i + 1]);
            }
        }
        lemma_first_difference(a.skip(1), b.skip(1), t - 1);
    }
}

proof fn lemma_proper_prefix(a: Seq<char>, b: Seq<char>)
    requires
        a.len() < b.len(),
        a == b.take(a.len() as int),
    ensures
        name_lt(a, b),
        !name_lt(b, a),
    decreases a.len(),
{
    if a.len() > 0 {
        assert(a[0] == b[0]);
        assert(a.skip(1) =~= b.skip(1).take(a.len() - 1));
        lemma_proper_prefix(a.skip(1), b.skip(1));
    }
}

proof fn lemma_name_lt_is_text_before(a: Seq<char>, b: Seq<char>)
    requires
        name_lt(a, b),
    ensures
        text_before(a, b),
    decreases a.len(),
{
    if a.len() == 0 {
        assert(a =~= b.take(0));
    } else if a[0] != b[0] {
        assert(a.take(0) =~= b.take(0));
        assert(a[0] < b[0]);
    } else {
        lemma_name_lt_is_text_before(a.skip(1), b.skip(1));
        let a1 = a.skip(1);
        let b1 = b.skip(1);
        if exists|t: int|
            0 <= t < a1.len() && t < b1.len() && a1.take(t) == b1.take(t) && #[trigger] a1[t] < #[trigger] b1[t]
        {
            let t = choose|t: int|
                0 <= t < a1.len() && t < b1.len() && a1.take(t) == b1.take(t) && #[trigger] a1[t] < #[trigger] b1[t];
            assert(a.take(t + 1) =~= b.take(t + 1)) by {
                assert forall|i: int| 0 <= i < t + 1 implies a[i] == b[i] by {
                    if i > 0 {
                        assert(a1.take(t)[i - 1] == b1.take(t)[i - 1]);
                    }
                }
            }
            assert(a[t + 1] == a1[t] && b[t + 1] == b1[t]);
        } else {
            assert(a =~= b.take(a.len() as int)) by {
                assert forall|i: int| 0 <= i < a.len() implies a[i] == b[i] by {
                    if i > 0 {
                        assert(a1[i - 1] == b1.take(a1.len() as int)[i - 1]);
                    }
                }
            }
        }
    }
}

/// Block names are ordered as text, character by character by code point,
/// whatever their lengths: where two names first differ, the one with the
/// smaller character comes first; a proper prefix comes before the longer
/// name; no name comes before itself.
pub proof fn lemma_name_order_is_textual(a: Seq<char>, b: Seq<char>)
    ensures
        forall|t: int|
            0 <= t < a.len() && t < b.len() && a.take(t) == b.take(t) && #[trigger] a[t] != #[trigger] b[t]
                ==> (name_lt(a, b) <==> a[t] < b[t]),
        a.len() < b.len() && a == b.take(a.len() as int) ==> name_lt(a, b) && !name_lt(b, a),
        !name_lt(a, a),
        name_lt(a, b) <==> text_before(a, b),
{
    assert forall|t: int|
        0 <= t < a.len() && t < b.len() && a.take(t) == b.take(t) && #[trigger] a[t] != #[trigger] b[t]
            implies (name_lt(a, b) <==> a[t] < b[t]) by {
        lemma_first_difference(a, b, t);
    }
    if a.len() < b.len() && a == b.take(a.len() as int) {
        lemma_proper_prefix(a, b);
    }
    lemma_name_lt_total(a, b);
    if name_lt(a, b) {
        lemma_name_lt_is_text_before(a, b);
    }
    if text_before(a, b) {
        if a.len() < b.len() && a == b.take(a.len() as int) {
        } else {
            let t = choose|t: int|
                0 <= t < a.len() && t < b.len() && a.take(t) == b.take(t) && #[trigger] a[t] < #[trigger] b[t];
            lemma_first_difference(a, b, t);
        }
    }
}

/// Within a group, rows come in text order of their block names, and by
/// address within one block: of any two rows, the earlier one has the same
/// block and an address no greater, or a block name that comes first as
/// text.
pub proof fn lemma_group_rows_in_text_order(pts: Seq<SegPoint>, g: int)
    ensures
        forall|i: int, j: int|
            0 <= i < j < sort_points(of_group(pts, g)).len() ==> {
                let a = #[trigger] sort_points(of_group(pts, g))[i];
                let b = #[trigger] sort_points(of_group(pts, g))[j];
                (a.block@ == b.block@ && a.at <= b.at) || text_before(a.block@, b.block@)
            },
{
    let out = sort_points(of_group(pts, g));
    lemma_group_points_ordered(pts, g);
    assert forall|i: int, j: int| 0 <= i < j < out.len() implies {
        let a = #[trigger] out[i];
        let b = #[trigger] out[j];
        (a.block@ == b.block@ && a.at <= b.at) || text_before(a.block@, b.block@)
    } by {
        let a = out[i];
        let b = out[j];
        lemma_point_lt_order(a, a, b);
        assert(!point_lt(b, a));
        if name_lt(a.block@, b.block@) {
            lemma_name_lt_is_text_before(a.block@, b.block@);
        }
    }
}

} // verus!
