//! Column windowing: which contiguous band of columns is visible, how
//! wide each visible column renders, and where the cursor falls inside
//! the band.
//!
//! The band is grown leftward from the cursor toward the previous
//! window start while the viewport budget lasts, then rightward past
//! the cursor; when the band stops short of the grid's last column the
//! rightmost visible column is rendered flexible so cut-off content is
//! visually obvious.

use vstd::prelude::*;

use crate::table::{grid_wf, spec_next_column, spec_sci, TableComponent};
use crate::text::{decimal_digit_count_succ, display_width, spec_decimal, str_width};

verus! {

/// How wide one rendered column is: a fixed width in columns, or
/// "fill at least this much of the remaining space".
#[derive(Clone, Copy, PartialEq, Eq, Structural, Debug)]
pub enum CellConstraint {
    Length(u16),
    Min(u16),
}

/// The widest cell of column `c` among the first `n` rows.
pub open spec fn spec_max_cell_width(rows: Seq<Vec<String>>, c: int, n: int) -> nat
    decreases n,
{
    if n <= 0 {
        0
    } else {
        let w = display_width(rows[n - 1]@[c]@);
        let rest = spec_max_cell_width(rows, c, n - 1);
        if w > rest {
            w
        } else {
            rest
        }
    }
}

/// The rendered width of column `c`: its widest content, header
/// included, clamped to `3..=20`.
pub open spec fn spec_col_width_of(rows: Seq<Vec<String>>, headers: Seq<String>, c: int) -> int {
    let m = spec_max_cell_width(rows, c, rows.len() as int) as int;
    let h = display_width(headers[c]@) as int;
    let v = if m > h {
        m
    } else {
        h
    };
    if v < 3 {
        3
    } else if v > 20 {
        20
    } else {
        v
    }
}

/// The rendered width of column `c` of a viewer's grid.
pub open spec fn spec_col_width(g: TableComponent, c: int) -> int {
    spec_col_width_of(g.rows@, g.headers@, c)
}

/// Width of the pinned row-number column: the digit count of the
/// largest 1-based row number.
pub open spec fn spec_ncw(g: TableComponent) -> int {
    spec_decimal(g.rows@.len() as int + 1).len() as int
}

/// The viewport budget left for data columns.
pub open spec fn spec_avail(g: TableComponent, w: int) -> int {
    if w - spec_ncw(g) > 0 {
        w - spec_ncw(g)
    } else {
        0
    }
}

/// Where the leftward expansion may stop: the previous window start,
/// pulled back to the cursor when the cursor moved left of it.
pub open spec fn spec_window_anchor(g: TableComponent) -> int {
    if spec_sci(g) < g.column_page_start {
        spec_sci(g)
    } else {
        g.column_page_start as int
    }
}

/// How many columns the leftward expansion takes, walking from `c`
/// down to `stop` with `used` width and `cnt` columns already
/// accumulated: it stops short of the column that would overflow the
/// budget (each column also costs one separator unit).
pub open spec fn spec_left_count(
    rows: Seq<Vec<String>>,
    headers: Seq<String>,
    c: int,
    stop: int,
    used: int,
    cnt: int,
    avail: int,
) -> int
    decreases c - stop,
{
    if used + spec_col_width_of(rows, headers, c) + cnt >= avail {
        0
    } else if c <= stop {
        1
    } else {
        1 + spec_left_count(
            rows,
            headers,
            c - 1,
            stop,
            used + spec_col_width_of(rows, headers, c),
            cnt + 1,
            avail,
        )
    }
}

/// Total rendered width of columns `lo..hi`.
pub open spec fn spec_width_sum(
    rows: Seq<Vec<String>>,
    headers: Seq<String>,
    lo: int,
    hi: int,
) -> int
    decreases hi - lo,
{
    if hi <= lo {
        0
    } else {
        spec_width_sum(rows, headers, lo, hi - 1) + spec_col_width_of(rows, headers, hi - 1)
    }
}

/// How many columns the rightward expansion appends starting at `c`:
/// while the budget is not yet exceeded it appends the next existing
/// column, even one that overflows (the overflow column is later
/// rendered flexible).
pub open spec fn spec_right_count(
    rows: Seq<Vec<String>>,
    headers: Seq<String>,
    c: int,
    used: int,
    cnt: int,
    avail: int,
) -> int
    decreases headers.len() - c,
{
    if used + cnt > avail {
        0
    } else if c >= headers.len() {
        0
    } else {
        1 + spec_right_count(
            rows,
            headers,
            c + 1,
            used + spec_col_width_of(rows, headers, c),
            cnt + 1,
            avail,
        )
    }
}

/// Columns taken left of (and including) the centre column.
pub open spec fn spec_lt(g: TableComponent, w: int) -> int {
    spec_left_count(
        g.rows@,
        g.headers@,
        spec_sci(g),
        spec_window_anchor(g),
        0,
        0,
        spec_avail(g, w),
    )
}

/// First visible column; also the window start persisted for the next
/// frame.
pub open spec fn spec_far_left(g: TableComponent, w: int) -> int {
    spec_sci(g) + 1 - spec_lt(g, w)
}

/// Columns appended right of the centre column.
pub open spec fn spec_rt(g: TableComponent, w: int) -> int {
    spec_right_count(
        g.rows@,
        g.headers@,
        spec_sci(g) + 1,
        spec_width_sum(g.rows@, g.headers@, spec_far_left(g, w), spec_sci(g) + 1),
        spec_lt(g, w),
        spec_avail(g, w),
    )
}

/// One past the last visible column.
pub open spec fn spec_far_right(g: TableComponent, w: int) -> int {
    spec_sci(g) + 1 + spec_rt(g, w)
}

/// Whether the band stops short of the grid's last column; exactly
/// then the rightmost visible column is rendered flexible, so
/// partially cut-off content is visually obvious.
pub open spec fn spec_has_flexible(g: TableComponent, w: int) -> bool {
    spec_far_right(g, w) < g.headers@.len()
}

/// How many visible columns keep a fixed width: all of them when the
/// band reaches the grid's last column, else all but the overflow
/// column, which becomes the flexible one.
pub open spec fn spec_fixed_count(g: TableComponent, w: int) -> int {
    let t = spec_lt(g, w) + spec_rt(g, w);
    if !spec_has_flexible(g, w) {
        t
    } else if t > 0 {
        t - 1
    } else {
        0
    }
}

/// The cursor's band-relative column, shifted by the rectangle anchor
/// when a rectangle spans columns on either side of the cursor.
pub open spec fn spec_band_index(g: TableComponent, w: int) -> int {
    let sel = if spec_lt(g, w) > 0 {
        spec_lt(g, w) - 1
    } else {
        0
    };
    match g.selection_area_corner {
        Some(c) => if c.0 > g.selected_column {
            let d = sel + 1 - (c.0 - g.selected_column);
            if d > 0 {
                d
            } else {
                0
            }
        } else {
            let d = sel + 1 + (g.selected_column - c.0);
            if d > usize::MAX {
                usize::MAX as int
            } else {
                d
            }
        },
        None => sel + 1,
    }
}

/// The per-column width constraints handed to the renderer: the
/// row-number column, the fixed-width data columns, and the flexible
/// trailing column when the band stops short of the grid edge.
pub open spec fn spec_constraints(g: TableComponent, w: int) -> Seq<CellConstraint> {
    seq![CellConstraint::Length(spec_ncw(g) as u16)] + Seq::new(
        spec_fixed_count(g, w) as nat,
        |k: int| CellConstraint::Length(spec_col_width(g, spec_far_left(g, w) + k) as u16),
    ) + (if spec_has_flexible(g, w) {
        seq![CellConstraint::Min(10u16)]
    } else {
        Seq::<CellConstraint>::empty()
    })
}

/// The leftward expansion takes between zero columns and the whole
/// stretch from `stop` to `c`.
proof fn lemma_left_count_range(
    rows: Seq<Vec<String>>,
    headers: Seq<String>,
    c: int,
    stop: int,
    used: int,
    cnt: int,
    avail: int,
)
    requires
        stop <= c,
    ensures
        0 <= spec_left_count(rows, headers, c, stop, used, cnt, avail) <= c - stop + 1,
    decreases c - stop,
{
    if used + spec_col_width_of(rows, headers, c) + cnt >= avail {
    } else if c <= stop {
    } else {
        lemma_left_count_range(
            rows,
            headers,
            c - 1,
            stop,
            used + spec_col_width_of(rows, headers, c),
            cnt + 1,
            avail,
        );
    }
}

/// The rightward expansion appends between zero columns and every
/// column from `c` to the last.
proof fn lemma_right_count_range(
    rows: Seq<Vec<String>>,
    headers: Seq<String>,
    c: int,
    used: int,
    cnt: int,
    avail: int,
)
    ensures
        0 <= spec_right_count(rows, headers, c, used, cnt, avail),
        c < headers.len() ==> spec_right_count(rows, headers, c, used, cnt, avail) <= headers.len()
            - c,
        c >= headers.len() ==> spec_right_count(rows, headers, c, used, cnt, avail) == 0,
    decreases headers.len() - c,
{
    if used + cnt > avail {
    } else if c >= headers.len() {
    } else {
        lemma_right_count_range(
            rows,
            headers,
            c + 1,
            used + spec_col_width_of(rows, headers, c),
            cnt + 1,
            avail,
        );
    }
}

/// Re-running the leftward expansion with its own result as the stop
/// column takes exactly the same columns.
proof fn lemma_left_count_stop_shift(
    rows: Seq<Vec<String>>,
    headers: Seq<String>,
    c: int,
    stop: int,
    used: int,
    cnt: int,
    avail: int,
)
    requires
        stop <= c,
        spec_left_count(rows, headers, c, stop, used, cnt, avail) >= 1,
    ensures
        spec_left_count(
            rows,
            headers,
            c,
            c + 1 - spec_left_count(rows, headers, c, stop, used, cnt, avail),
            used,
            cnt,
            avail,
        ) == spec_left_count(rows, headers, c, stop, used, cnt, avail),
    decreases c - stop,
{
    let k = spec_left_count(rows, headers, c, stop, used, cnt, avail);
    if c <= stop {
        assert(k == 1);
    } else {
        let k2 = spec_left_count(
            rows,
            headers,
            c - 1,
            stop,
            used + spec_col_width_of(rows, headers, c),
            cnt + 1,
            avail,
        );
        lemma_left_count_range(
            rows,
            headers,
            c - 1,
            stop,
            used + spec_col_width_of(rows, headers, c),
            cnt + 1,
            avail,
        );
        if k2 == 0 {
            assert(k == 1);
        } else {
            lemma_left_count_stop_shift(
                rows,
                headers,
                c - 1,
                stop,
                used + spec_col_width_of(rows, headers, c),
                cnt + 1,
                avail,
            );
        }
    }
}

/// Windowing is idempotent for a stationary cursor: recomputing the
/// band with the same viewport width, from the state the previous
/// computation left behind, chooses the same band, the same cursor
/// position inside it and the same width constraints.
pub proof fn lemma_windowing_idempotent(g: TableComponent, w: int)
    requires
        grid_wf(g),
        g.rows@.len() > 0,
        g.headers@.len() <= usize::MAX,
    ensures
        ({
            let g1 = TableComponent {
                column_page_start: (spec_far_left(g, w) as usize),
                ..g
            };
            &&& spec_far_left(g1, w) == spec_far_left(g, w)
            &&& spec_far_right(g1, w) == spec_far_right(g, w)
            &&& spec_band_index(g1, w) == spec_band_index(g, w)
            &&& spec_constraints(g1, w) == spec_constraints(g, w)
        }),
{
    let g1 = TableComponent { column_page_start: (spec_far_left(g, w) as usize), ..g };
    let s = spec_sci(g);
    let av = spec_avail(g, w);
    let anchor = spec_window_anchor(g);
    let lt = spec_lt(g, w);
    let fl = spec_far_left(g, w);
    assert(spec_sci(g1) == s);
    assert(spec_ncw(g1) == spec_ncw(g));
    assert(spec_avail(g1, w) == av);
    assert(anchor <= s);
    lemma_left_count_range(g.rows@, g.headers@, s, anchor, 0, 0, av);
    if lt == 0 {
        assert(fl == s + 1);
        assert(spec_window_anchor(g1) == s);
        assert(0 + spec_col_width_of(g.rows@, g.headers@, s) + 0 >= av) by {
            if 0 + spec_col_width_of(g.rows@, g.headers@, s) + 0 < av {
                if s > anchor {
                    lemma_left_count_range(
                        g.rows@,
                        g.headers@,
                        s - 1,
                        anchor,
                        spec_col_width_of(g.rows@, g.headers@, s),
                        1,
                        av,
                    );
                }
                assert(lt >= 1);
            }
        }
        assert(spec_left_count(g.rows@, g.headers@, s, s, 0, 0, av) == 0);
        assert(spec_lt(g1, w) == 0);
    } else {
        assert(anchor <= fl <= s);
        assert(spec_window_anchor(g1) == fl);
        lemma_left_count_stop_shift(g.rows@, g.headers@, s, anchor, 0, 0, av);
        assert(spec_lt(g1, w) == lt);
    }
    assert(spec_far_left(g1, w) == fl);
    assert(spec_rt(g1, w) == spec_rt(g, w));
}

/// A leftward expansion that starts with more budget already spent
/// takes no more columns.
proof fn lemma_left_count_monotone(
    rows: Seq<Vec<String>>,
    headers: Seq<String>,
    c: int,
    stop: int,
    used1: int,
    cnt1: int,
    used2: int,
    cnt2: int,
    avail: int,
)
    requires
        stop <= c,
        used1 >= used2,
        cnt1 >= cnt2,
    ensures
        spec_left_count(rows, headers, c, stop, used1, cnt1, avail) <= spec_left_count(
            rows,
            headers,
            c,
            stop,
            used2,
            cnt2,
            avail,
        ),
    decreases c - stop,
{
    let width = spec_col_width_of(rows, headers, c);
    if used1 + width + cnt1 >= avail {
        lemma_left_count_range(rows, headers, c, stop, used2, cnt2, avail);
    } else if c <= stop {
    } else {
        lemma_left_count_monotone(
            rows,
            headers,
            c - 1,
            stop,
            used1 + width,
            cnt1 + 1,
            used2 + width,
            cnt2 + 1,
            avail,
        );
    }
}

/// Stepping the cursor one column right from inside the band never
/// moves the window start left: the band either stays where it is or
/// shifts right.
pub proof fn lemma_window_start_monotone(g: TableComponent, w: int)
    requires
        grid_wf(g),
        g.rows@.len() > 0,
        g.headers@.len() <= usize::MAX,
        g.selection_area_corner is None,
        g.selected_column + 1 < g.headers@.len(),
        g.column_page_start <= g.selected_column,
    ensures
        spec_far_left(spec_next_column(g), w) >= spec_far_left(g, w),
{
    let g1 = spec_next_column(g);
    let s = g.selected_column as int;
    let stop = g.column_page_start as int;
    let av = spec_avail(g, w);
    assert(spec_sci(g) == s);
    assert(spec_sci(g1) == s + 1);
    assert(spec_ncw(g1) == spec_ncw(g));
    assert(spec_avail(g1, w) == av);
    assert(spec_window_anchor(g) == stop);
    assert(spec_window_anchor(g1) == stop);
    assert(g1.rows@ == g.rows@ && g1.headers@ == g.headers@);
    let lt = spec_lt(g, w);
    let lt1 = spec_lt(g1, w);
    lemma_left_count_range(g.rows@, g.headers@, s, stop, 0, 0, av);
    let width = spec_col_width_of(g.rows@, g.headers@, s + 1);
    if 0 + width + 0 >= av {
        assert(lt1 == 0);
    } else {
        assert(lt1 == 1 + spec_left_count(g.rows@, g.headers@, s, stop, width, 1, av));
        lemma_left_count_monotone(g.rows@, g.headers@, s, stop, width, 1, 0, 0, av);
        assert(lt1 <= 1 + lt);
    }
}

/// The visible band always contains the centre column, provided that
/// column alone fits the budget the row-number column leaves free.
pub proof fn lemma_band_contains_selected(g: TableComponent, w: int)
    requires
        grid_wf(g),
        g.rows@.len() > 0,
        spec_col_width(g, spec_sci(g)) < spec_avail(g, w),
    ensures
        spec_far_left(g, w) <= spec_sci(g) < spec_far_right(g, w),
{
    let s = spec_sci(g);
    let av = spec_avail(g, w);
    let anchor = spec_window_anchor(g);
    assert(anchor <= s);
    if s > anchor {
        lemma_left_count_range(
            g.rows@,
            g.headers@,
            s - 1,
            anchor,
            spec_col_width_of(g.rows@, g.headers@, s),
            1,
            av,
        );
    }
    assert(spec_lt(g, w) >= 1);
    lemma_right_count_range(
        g.rows@,
        g.headers@,
        s + 1,
        spec_width_sum(g.rows@, g.headers@, spec_far_left(g, w), s + 1),
        spec_lt(g, w),
        av,
    );
}

/// A sequence with the right length and entries is the constraint
/// list.
proof fn lemma_constraints_eq(g: TableComponent, w: int, s: Seq<CellConstraint>)
    requires
        0 <= spec_fixed_count(g, w),
        1 <= spec_ncw(g) <= 21,
        s.len() == 1 + spec_fixed_count(g, w) + (if spec_has_flexible(g, w) {
            1int
        } else {
            0int
        }),
        s[0] == CellConstraint::Length((spec_ncw(g) as u16)),
        forall|q: int|
            0 <= q < spec_fixed_count(g, w) ==> s[q + 1] == CellConstraint::Length(
                (#[trigger] spec_col_width(g, spec_far_left(g, w) + q) as u16),
            ),
        spec_has_flexible(g, w) ==> s[spec_fixed_count(g, w) + 1] == CellConstraint::Min(10u16),
    ensures
        s == spec_constraints(g, w),
{
    let e = spec_constraints(g, w);
    let fixed = spec_fixed_count(g, w);
    assert(e.len() == s.len());
    assert forall|q: int| 0 <= q < s.len() implies s[q] == e[q] by {
        if q == 0 {
            assert(e[0] == CellConstraint::Length((spec_ncw(g) as u16)));
        } else if q <= fixed {
            assert(e[q] == CellConstraint::Length(
                (spec_col_width(g, spec_far_left(g, w) + (q - 1)) as u16),
            ));
            assert(s[(q - 1) + 1] == CellConstraint::Length(
                (spec_col_width(g, spec_far_left(g, w) + (q - 1)) as u16),
            ));
        } else {
            assert(e[q] == CellConstraint::Min(10u16));
        }
    }
    assert(s =~= e);
}

/// Splitting a width sum at its lowest column.
proof fn lemma_width_sum_unfold_lo(rows: Seq<Vec<String>>, headers: Seq<String>, lo: int, hi: int)
    requires
        lo < hi,
    ensures
        spec_width_sum(rows, headers, lo, hi) == spec_col_width_of(rows, headers, lo)
            + spec_width_sum(rows, headers, lo + 1, hi),
    decreases hi - lo,
{
    if lo + 1 < hi {
        lemma_width_sum_unfold_lo(rows, headers, lo, hi - 1);
    } else {
        assert(spec_width_sum(rows, headers, lo, hi) == spec_width_sum(rows, headers, lo, lo)
            + spec_col_width_of(rows, headers, lo));
        assert(spec_width_sum(rows, headers, lo, lo) == 0);
        assert(spec_width_sum(rows, headers, lo + 1, hi) == 0);
    }
}

impl TableComponent {
    /// The rendered width of column `c`.
    fn col_width(&self, c: usize) -> (w: usize)
        requires
            grid_wf(*self),
            self.rows@.len() > 0,
            c < self.headers@.len(),
        ensures
            w == spec_col_width(*self, c as int),
            3 <= w <= 20,
    {
        let mut m: usize = 0;
        let rl = self.rows.len();
        let mut i: usize = 0;
        while i < rl
            invariant
                grid_wf(*self),
                i <= rl,
                rl == self.rows@.len(),
                c < self.headers@.len(),
                m == spec_max_cell_width(self.rows@, c as int, i as int),
            decreases rl - i,
        {
            let row: &Vec<String> = &self.rows[i];
            let cw = str_width(row[c].as_str());
            if cw > m {
                m = cw;
            }
            i = i + 1;
        }
        let h = str_width(self.headers[c].as_str());
        let v = if m > h {
            m
        } else {
            h
        };
        if v < 3 {
            3
        } else if v > 20 {
            20
        } else {
            v
        }
    }

    /// Choose the visible band of columns for a viewport `area_width`
    /// columns wide, and return the cursor's band-relative column, the
    /// visible headers (with a leading blank for the row-number
    /// column), the visible row slices (each prefixed with its 1-based
    /// row number), and the per-column width constraints.
    ///
    /// As a side effect the window cursor `column_page_start` is set
    /// to the band's first column, which keeps the band stable while
    /// the cursor stays inside it.
    #[verifier::rlimit(50)]
    pub fn calculate_cell_widths(&mut self, area_width: u16) -> (out: (
        usize,
        Vec<String>,
        Vec<Vec<String>>,
        Vec<CellConstraint>,
    ))
        requires
            grid_wf(*old(self)),
        ensures
            grid_wf(*final(self)),
            final(self).headers == old(self).headers,
            final(self).rows == old(self).rows,
            final(self).eod == old(self).eod,
            final(self).selected_row == old(self).selected_row,
            final(self).selected_column == old(self).selected_column,
            final(self).selection_area_corner == old(self).selection_area_corner,
            old(self).rows@.len() == 0 ==> *final(self) == *old(self) && out.0 == 0
                && out.1@.len() == 0 && out.2@.len() == 0 && out.3@.len() == 0,
            old(self).rows@.len() > 0 ==> ({
                let g = *old(self);
                let w = area_width as int;
                let fl = spec_far_left(g, w);
                let fr = spec_far_right(g, w);
                &&& final(self).column_page_start == fl
                &&& out.0 == spec_band_index(g, w)
                &&& out.1@.len() == fr - fl + 1
                &&& out.1@[0]@ == Seq::<char>::empty()
                &&& (forall|k: int|
                    1 <= k < out.1@.len() ==> out.1@[k]@ == g.headers@[fl + k - 1]@)
                &&& out.2@.len() == g.rows@.len()
                &&& (forall|i: int|
                    0 <= i < out.2@.len() ==> (#[trigger] out.2@[i])@.len() == fr - fl + 1)
                &&& (forall|i: int|
                    0 <= i < out.2@.len() ==> (#[trigger] out.2@[i])@[0]@ == spec_decimal(i + 1))
                &&& (forall|i: int, k: int|
                    0 <= i < out.2@.len() && 1 <= k < fr - fl + 1 ==> (#[trigger] out.2@[i]@[k])@
                        == g.rows@[i]@[fl + k - 1]@)
                &&& out.3@ == spec_constraints(g, w)
            }),
    {
        let ghost g = *old(self);
        let ghost w = area_width as int;
        if self.rows.len() == 0 {
            return (0, Vec::new(), Vec::new(), Vec::new());
        }
        let sci = self.selected_column_index();
        let stop: usize = if sci < self.column_page_start {
            sci
        } else {
            self.column_page_start
        };
        let hl = self.headers.len();
        let rl = self.rows.len();
        let ncw = decimal_digit_count_succ(rl);
        let avail: usize = (area_width.saturating_sub(ncw as u16)) as usize;
        proof {
            assert(stop == spec_window_anchor(g));
            assert(ncw == spec_ncw(g));
            assert(avail == spec_avail(g, w));
            assert(sci < hl);
        }
        let ghost lt_total = spec_lt(g, w);

        // Expand leftward from the centre column toward the window
        // anchor while the budget lasts; widths come out rightmost
        // first.
        let mut widths_rev: Vec<usize> = Vec::new();
        let mut used: usize = 0;
        let mut c: usize = sci;
        loop
            invariant_except_break
                grid_wf(*self),
                *self == g,
                rl == self.rows@.len() > 0,
                hl == self.headers@.len(),
                avail <= u16::MAX,
                sci == spec_sci(g),
                stop == spec_window_anchor(g),
                avail == spec_avail(g, w),
                lt_total == spec_lt(g, w),
                stop <= c <= sci < hl,
                widths_rev@.len() == sci - c,
                used == spec_width_sum(g.rows@, g.headers@, c + 1, sci + 1),
                used <= avail,
                3 * widths_rev@.len() <= used,
                forall|k: int|
                    0 <= k < widths_rev@.len() ==> widths_rev@[k] == spec_col_width(g, sci - k),
                lt_total == widths_rev@.len() + spec_left_count(
                    g.rows@,
                    g.headers@,
                    c as int,
                    stop as int,
                    used as int,
                    widths_rev@.len() as int,
                    avail as int,
                ),
            ensures
                grid_wf(*self),
                *self == g,
                widths_rev@.len() == lt_total,
                c == spec_far_left(g, w),
                stop <= c <= sci + 1,
                used == spec_width_sum(g.rows@, g.headers@, c as int, sci + 1),
                used <= avail,
                3 * widths_rev@.len() <= used,
                forall|k: int|
                    0 <= k < widths_rev@.len() ==> widths_rev@[k] == spec_col_width(g, sci - k),
            decreases c - stop,
        {
            let length = self.col_width(c);
            let cnt = widths_rev.len();
            if used + length + cnt >= avail {
                proof {
                    assert(spec_left_count(
                        g.rows@,
                        g.headers@,
                        c as int,
                        stop as int,
                        used as int,
                        cnt as int,
                        avail as int,
                    ) == 0);
                }
                c = c + 1;
                break ;
            }
            widths_rev.push(length);
            proof {
                lemma_width_sum_unfold_lo(g.rows@, g.headers@, c as int, sci + 1);
            }
            used = used + length;
            if c == stop {
                break ;
            }
            c = c - 1;
        }
        let far_left = c;

        // Read the accumulated widths left to right.
        let mut widths: Vec<usize> = Vec::new();
        let mut k: usize = widths_rev.len();
        while k > 0
            invariant
                k <= widths_rev@.len(),
                widths@.len() == widths_rev@.len() - k,
                forall|j: int|
                    0 <= j < widths@.len() ==> widths@[j] == widths_rev@[widths_rev@.len() - 1
                        - j],
            decreases k,
        {
            k = k - 1;
            widths.push(widths_rev[k]);
        }
        proof {
            assert(forall|j: int|
                0 <= j < widths@.len() ==> widths@[j] == spec_col_width(g, far_left + j));
        }
        let sel_band: usize = if widths.len() == 0 {
            0
        } else {
            widths.len() - 1
        };

        // Expand rightward past the centre column while the budget is
        // not yet exceeded; the last appended column may overflow.
        let ghost rt_total = spec_rt(g, w);
        let mut c2: usize = sci + 1;
        while used + widths.len() <= avail
            invariant
                grid_wf(*self),
                *self == g,
                rl == self.rows@.len() > 0,
                hl == self.headers@.len(),
                avail <= u16::MAX,
                sci == spec_sci(g),
                avail == spec_avail(g, w),
                rt_total == spec_rt(g, w),
                far_left == spec_far_left(g, w),
                far_left <= sci + 1 <= c2 <= hl,
                widths@.len() == c2 - far_left,
                used == spec_width_sum(g.rows@, g.headers@, far_left as int, c2 as int),
                used <= avail + 20,
                3 * widths@.len() <= used,
                forall|j: int|
                    0 <= j < widths@.len() ==> widths@[j] == spec_col_width(g, far_left + j),
                rt_total == (c2 - (sci + 1)) + spec_right_count(
                    g.rows@,
                    g.headers@,
                    c2 as int,
                    used as int,
                    widths@.len() as int,
                    avail as int,
                ),
            ensures
                grid_wf(*self),
                *self == g,
                c2 == spec_far_right(g, w),
                far_left <= sci + 1 <= c2 <= hl,
                widths@.len() == c2 - far_left,
                3 * widths@.len() <= used,
                used <= avail + 20,
                forall|j: int|
                    0 <= j < widths@.len() ==> widths@[j] == spec_col_width(g, far_left + j),
            decreases hl - c2,
        {
            if c2 >= hl {
                break ;
            }
            let length = self.col_width(c2);
            widths.push(length);
            used = used + length;
            c2 = c2 + 1;
        }
        let far_right = c2;

        // The rightmost visible column turns flexible unless the band
        // ends exactly at the grid's last column.
        let flexible = far_right < hl;
        if flexible {
            let _ = widths.pop();
        }
        proof {
            assert(forall|q: int|
                0 <= q < widths@.len() ==> widths@[q] == spec_col_width(g, far_left + q));
            assert(forall|q: int| 0 <= q < widths@.len() ==> 3 <= #[trigger] widths@[q] <= 20);
            assert(widths@.len() == spec_fixed_count(g, w));
        }

        let mut constraints: Vec<CellConstraint> = Vec::new();
        constraints.push(CellConstraint::Length(ncw as u16));
        let mut j: usize = 0;
        let fixed = widths.len();
        while j < fixed
            invariant
                j <= fixed,
                fixed == widths@.len(),
                forall|q: int| 0 <= q < widths@.len() ==> 3 <= #[trigger] widths@[q] <= 20,
                constraints@.len() == j + 1,
                constraints@[0] == CellConstraint::Length(ncw as u16),
                ncw <= 21,
                forall|q: int|
                    0 <= q < j ==> constraints@[q + 1] == CellConstraint::Length(
                        (widths@[q] as u16),
                    ),
            decreases fixed - j,
        {
            constraints.push(CellConstraint::Length(widths[j] as u16));
            j = j + 1;
        }
        if flexible {
            constraints.push(CellConstraint::Min(10));
        }
        proof {
            assert(fixed == spec_fixed_count(g, w));
            assert forall|q: int| 0 <= q < spec_fixed_count(g, w) implies constraints@[q + 1]
                == CellConstraint::Length(
                (#[trigger] spec_col_width(g, spec_far_left(g, w) + q) as u16),
            ) by {
                assert(widths@[q] == spec_col_width(g, far_left + q));
                assert(3 <= widths@[q] <= 20);
                assert(constraints@[q + 1] == CellConstraint::Length((widths@[q] as u16)));
            }
            lemma_constraints_eq(g, w, constraints@);
        }

        let r0: usize = match self.selection_area_corner {
            Some(corner) => {
                let (x, _y): (usize, usize) = corner;
                if x > self.selected_column {
                    let d = x - self.selected_column;
                    if sel_band + 1 > d {
                        sel_band + 1 - d
                    } else {
                        0
                    }
                } else {
                    (sel_band + 1).saturating_add(self.selected_column - x)
                }
            },
            None => sel_band + 1,
        };
        proof {
            assert(r0 == spec_band_index(g, w));
        }

        self.column_page_start = far_left;
        let headers_out = self.headers(far_left, far_right);
        let rows_out = self.rows(far_left, far_right);
        (r0, headers_out, rows_out, constraints)
    }
}

} // verus!
