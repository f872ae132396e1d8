//! The table viewer: owns the grid, the selection state and the column
//! window cursor, and computes the visible slice of columns each frame.
//!
//! Navigation keys move a single-cell cursor or grow a rectangular
//! selection; all movement clamps at the grid bounds and never wraps.
//! The column-windowing routine picks a contiguous band of columns
//! around the cursor that fits the viewport width, keeping the band
//! stable while the cursor stays inside it.

use vstd::prelude::*;
use vstd::math::max;
use vstd::math::min;
use vstd::string::StringExecFns;

use crate::events::{CommandInfo, EventState, Key};
use crate::text::{newline_count, spec_decimal, spec_newline_count, usize_to_decimal};

verus! {

pub struct TableComponent {
    pub headers: Vec<String>,
    pub rows: Vec<Vec<String>>,
    pub eod: bool,
    /// Index of the selected row; `None` only while the grid is empty.
    pub selected_row: Option<usize>,
    pub selected_column: usize,
    /// Corner of a rectangular selection, as `(column, row)`; the
    /// rectangle spans from here to the cursor on both axes.
    pub selection_area_corner: Option<(usize, usize)>,
    /// Leftmost column of the band rendered last frame; written as a
    /// side effect of the windowing computation.
    pub column_page_start: usize,
}

/// The shape every method relies on: rows as long as the header list,
/// and every selection index inside the grid (zero where the grid has
/// no room for it).
pub open spec fn grid_wf(g: TableComponent) -> bool {
    &&& forall|i: int|
        0 <= i < g.rows@.len() ==> (#[trigger] g.rows@[i])@.len() == g.headers@.len()
    &&& (if g.headers@.len() == 0 {
        g.selected_column == 0
    } else {
        g.selected_column < g.headers@.len()
    })
    &&& match g.selected_row {
        Some(r) => r < g.rows@.len(),
        None => true,
    }
    &&& (g.rows@.len() == 0 ==> g.selected_row is None)
    &&& (g.rows@.len() > 0 ==> g.headers@.len() > 0)
    &&& match g.selection_area_corner {
        Some(c) => {
            &&& (if g.headers@.len() == 0 {
                c.0 == 0
            } else {
                c.0 < g.headers@.len()
            })
            &&& (if g.rows@.len() == 0 {
                c.1 == 0
            } else {
                c.1 < g.rows@.len()
            })
        },
        None => true,
    }
}

// What each navigation key does to the state, stated as functions so
// that the event dispatcher and the per-key methods share one
// description and the safety law below can quantify over keys.
pub open spec fn spec_next_row(g: TableComponent, lines: int) -> TableComponent {
    TableComponent {
        selection_area_corner: None,
        selected_row: match g.selected_row {
            Some(i) => Some(
                (if i + lines >= g.rows@.len() {
                    (g.rows@.len() - 1) as usize
                } else {
                    (i + lines) as usize
                }),
            ),
            None => None,
        },
        ..g
    }
}

pub open spec fn spec_previous_row(g: TableComponent, lines: int) -> TableComponent {
    TableComponent {
        selection_area_corner: None,
        selected_row: match g.selected_row {
            Some(i) => Some((if i <= lines { 0usize } else { (i - lines) as usize })),
            None => None,
        },
        ..g
    }
}

pub open spec fn spec_scroll_top(g: TableComponent) -> TableComponent {
    TableComponent {
        selection_area_corner: None,
        selected_row: if g.rows@.len() == 0 {
            g.selected_row
        } else {
            Some(0usize)
        },
        ..g
    }
}

pub open spec fn spec_scroll_bottom(g: TableComponent) -> TableComponent {
    TableComponent {
        selection_area_corner: None,
        selected_row: if g.rows@.len() == 0 {
            g.selected_row
        } else {
            Some((g.rows@.len() - 1) as usize)
        },
        ..g
    }
}

pub open spec fn spec_next_column(g: TableComponent) -> TableComponent {
    if g.rows@.len() == 0 {
        g
    } else {
        TableComponent {
            selection_area_corner: None,
            selected_column: if g.selected_column + 1 >= g.headers@.len() {
                g.selected_column
            } else {
                (g.selected_column + 1) as usize
            },
            ..g
        }
    }
}

pub open spec fn spec_previous_column(g: TableComponent) -> TableComponent {
    if g.rows@.len() == 0 {
        g
    } else {
        TableComponent {
            selection_area_corner: None,
            selected_column: if g.selected_column == 0 {
                0usize
            } else {
                (g.selected_column - 1) as usize
            },
            ..g
        }
    }
}

/// Where a fresh rectangle is anchored: at the cursor.
pub open spec fn spec_anchor(g: TableComponent) -> (usize, usize) {
    match g.selection_area_corner {
        Some(c) => c,
        None => (
            g.selected_column,
            match g.selected_row {
                Some(r) => r,
                None => 0usize,
            },
        ),
    }
}

pub open spec fn spec_expand_x(g: TableComponent, positive: bool) -> TableComponent {
    let base = spec_anchor(g);
    let cap = if g.headers@.len() == 0 {
        0int
    } else {
        g.headers@.len() - 1
    };
    let nx = if positive {
        if base.0 + 1 > cap {
            cap
        } else {
            base.0 + 1
        }
    } else {
        if base.0 == 0 {
            0int
        } else {
            base.0 - 1
        }
    };
    TableComponent { selection_area_corner: Some((nx as usize, base.1)), ..g }
}

pub open spec fn spec_expand_y(g: TableComponent, positive: bool) -> TableComponent {
    let base = spec_anchor(g);
    let cap = if g.rows@.len() == 0 {
        0int
    } else {
        g.rows@.len() - 1
    };
    let ny = if positive {
        if base.1 + 1 > cap {
            cap
        } else {
            base.1 + 1
        }
    } else {
        if base.1 == 0 {
            0int
        } else {
            base.1 - 1
        }
    };
    TableComponent { selection_area_corner: Some((base.0, ny as usize)), ..g }
}

/// The state after one key press.
pub open spec fn spec_table_step(g: TableComponent, key: Key) -> TableComponent {
    match key {
        Key::Char(c) => if c == 'h' {
            spec_previous_column(g)
        } else if c == 'j' {
            spec_next_row(g, 1)
        } else if c == 'k' {
            spec_previous_row(g, 1)
        } else if c == 'g' {
            spec_scroll_top(g)
        } else if c == 'G' {
            spec_scroll_bottom(g)
        } else if c == 'l' {
            spec_next_column(g)
        } else if c == 'H' {
            spec_expand_x(g, false)
        } else if c == 'K' {
            spec_expand_y(g, false)
        } else if c == 'J' {
            spec_expand_y(g, true)
        } else if c == 'L' {
            spec_expand_x(g, true)
        } else {
            g
        },
        Key::Ctrl(c) => if c == 'd' {
            spec_next_row(g, 10)
        } else if c == 'u' {
            spec_previous_row(g, 10)
        } else {
            g
        },
        _ => g,
    }
}

/// Which key presses the table reports as consumed. Stepping down a
/// row is deliberately reported unconsumed so the shell can trigger a
/// fetch of further rows.
pub open spec fn spec_table_consumed(key: Key) -> EventState {
    match key {
        Key::Char(c) => if c == 'j' {
            EventState::NotConsumed
        } else if c == 'h' || c == 'k' || c == 'g' || c == 'G' || c == 'l' || c == 'H' || c == 'K'
            || c == 'J' || c == 'L' {
            EventState::Consumed
        } else {
            EventState::NotConsumed
        },
        Key::Ctrl(c) => if c == 'u' {
            EventState::Consumed
        } else {
            EventState::NotConsumed
        },
        _ => EventState::NotConsumed,
    }
}

/// The column the windowing computation centres on: the rectangle
/// corner's column when a rectangle is set, else the cursor column.
pub open spec fn spec_sci(g: TableComponent) -> int {
    match g.selection_area_corner {
        Some(c) => c.0 as int,
        None => g.selected_column as int,
    }
}

/// The cells `lo..hi` of one row, joined by commas.
pub open spec fn spec_cells_join(row: Seq<String>, lo: int, hi: int) -> Seq<char>
    decreases hi - lo,
{
    if hi <= lo {
        Seq::empty()
    } else if hi == lo + 1 {
        row[lo]@
    } else {
        spec_cells_join(row, lo, hi - 1) + seq![','] + row[hi - 1]@
    }
}

/// The rectangle of cells with rows `ylo..yhi` and columns `xlo..xhi`,
/// rows joined by newlines.
pub open spec fn spec_selection_text(
    rows: Seq<Vec<String>>,
    ylo: int,
    yhi: int,
    xlo: int,
    xhi: int,
) -> Seq<char>
    decreases yhi - ylo,
{
    if yhi <= ylo {
        Seq::empty()
    } else if yhi == ylo + 1 {
        spec_cells_join(rows[ylo]@, xlo, xhi)
    } else {
        spec_selection_text(rows, ylo, yhi - 1, xlo, xhi) + seq!['\n'] + spec_cells_join(
            rows[yhi - 1]@,
            xlo,
            xhi,
        )
    }
}

/// The exported "copy" value: the single selected cell, or the whole
/// rectangle spanned by the corner and the cursor.
pub open spec fn spec_selected_cells(g: TableComponent) -> Option<Seq<char>> {
    match g.selection_area_corner {
        Some(c) => match g.selected_row {
            Some(r) => Some(
                spec_selection_text(
                    g.rows@,
                    min(c.1 as int, r as int),
                    max(c.1 as int, r as int) + 1,
                    min(c.0 as int, g.selected_column as int),
                    max(c.0 as int, g.selected_column as int) + 1,
                ),
            ),
            None => None,
        },
        None => match g.selected_row {
            Some(r) => if r < g.rows@.len() && g.selected_column < g.rows@[r as int]@.len() {
                Some(g.rows@[r as int]@[g.selected_column as int]@)
            } else {
                None
            },
            None => None,
        },
    }
}

/// Whether the cell at `(row_index, column_index)` of the visible band
/// is drawn highlighted, given the cursor's band-relative column.
/// Column 0 shows row numbers and is never part of the selection.
pub open spec fn spec_is_selected_cell(
    g: TableComponent,
    row_index: int,
    column_index: int,
    sel_idx: int,
) -> bool {
    match g.selection_area_corner {
        Some(c) => match g.selected_row {
            Some(r) => {
                let xp = max(c.0 + 1 - g.column_page_start, 0);
                let lo_x = max(min(xp, sel_idx), 1);
                let hi_x = max(xp, sel_idx) + 1;
                let lo_y = min(c.1 as int, r as int);
                let hi_y = max(c.1 as int, r as int) + 1;
                lo_x <= column_index < hi_x && lo_y <= row_index < hi_y
            },
            None => false,
        },
        None => match g.selected_row {
            Some(r) => row_index == r && column_index == sel_idx,
            None => false,
        },
    }
}

/// No sequence of navigation keys can move the selection out of the
/// grid: every key press preserves well-formedness.
pub proof fn lemma_navigation_preserves_wf(g: TableComponent, key: Key)
    requires
        grid_wf(g),
    ensures
        grid_wf(spec_table_step(g, key)),
{
}

/// The largest newline count among the cells of a row.
pub open spec fn spec_max_newlines(row: Seq<String>) -> nat
    decreases row.len(),
{
    if row.len() == 0 {
        0
    } else {
        let c = spec_newline_count(row.last()@);
        let rest = spec_max_newlines(row.drop_last());
        if c > rest {
            c
        } else {
            rest
        }
    }
}

/// How many terminal lines a rendered row takes: one, plus the largest
/// count of embedded line breaks among its cells, so multi-line cell
/// content is never clipped.
pub fn row_height(row: &Vec<String>) -> (h: usize)
    requires
        spec_max_newlines(row@) < usize::MAX,
    ensures
        h == 1 + spec_max_newlines(row@),
{
    let mut mx: usize = 0;
    let n = row.len();
    let mut i: usize = 0;
    while i < n
        invariant
            i <= n,
            n == row@.len(),
            mx == spec_max_newlines(row@.subrange(0, i as int)),
        decreases n - i,
    {
        let c = newline_count(row[i].as_str());
        if c > mx {
            mx = c;
        }
        proof {
            assert(row@.subrange(0, i + 1).drop_last() =~= row@.subrange(0, i as int));
            assert(row@.subrange(0, i + 1).last() == row@[i as int]);
        }
        i = i + 1;
    }
    proof {
        assert(row@.subrange(0, n as int) =~= row@);
        assert(mx < usize::MAX);
    }
    mx + 1
}

/// With no rectangle set, reading the selection returns exactly the
/// raw grid cell under the cursor.
pub proof fn lemma_selected_cells_round_trip(g: TableComponent)
    requires
        grid_wf(g),
        g.selection_area_corner is None,
        g.selected_row is Some,
    ensures
        spec_selected_cells(g) == Some(
            g.rows@[g.selected_row.unwrap() as int]@[g.selected_column as int]@,
        ),
{
    assert(g.rows@[g.selected_row.unwrap() as int]@.len() == g.headers@.len());
}

impl Default for TableComponent {
    /// An empty viewer: no grid, no selection.
    fn default() -> (c: Self)
        ensures
            c.headers@.len() == 0,
            c.rows@.len() == 0,
            c.selected_row is None,
            c.selected_column == 0,
            c.selection_area_corner is None,
            c.column_page_start == 0,
            c.eod == false,
            grid_wf(c),
    {
        TableComponent {
            headers: Vec::new(),
            rows: Vec::new(),
            eod: false,
            selected_row: None,
            selected_column: 0,
            selection_area_corner: None,
            column_page_start: 0,
        }
    }
}

impl TableComponent {
    /// A viewer over fresh query results; the first row starts out
    /// selected when there is one.
    pub fn new(rows: Vec<Vec<String>>, headers: Vec<String>) -> (c: Self)
        ensures
            c.headers == headers,
            c.rows == rows,
            c.selected_row == (if rows@.len() == 0 {
                None::<usize>
            } else {
                Some(0usize)
            }),
            c.selected_column == 0,
            c.selection_area_corner is None,
            c.column_page_start == 0,
            c.eod == false,
    {
        let selected_row: Option<usize> = if rows.len() == 0 {
            None
        } else {
            Some(0)
        };
        TableComponent {
            headers,
            rows,
            eod: false,
            selected_row,
            selected_column: 0,
            selection_area_corner: None,
            column_page_start: 0,
        }
    }

    /// Drop any rectangular selection.
    fn reset(&mut self)
        ensures
            *final(self) == (TableComponent { selection_area_corner: None, ..*old(self) }),
    {
        self.selection_area_corner = None;
    }

    /// The data source has no more rows to append.
    pub fn end(&mut self)
        ensures
            *final(self) == (TableComponent { eod: true, ..*old(self) }),
    {
        self.eod = true;
    }

    pub fn next_row(&mut self, lines: usize)
        requires
            grid_wf(*old(self)),
        ensures
            *final(self) == spec_next_row(*old(self), lines as int),
            grid_wf(*final(self)),
    {
        let i: Option<usize> = match self.selected_row {
            Some(i) => {
                if lines >= self.rows.len() - i {
                    Some(self.rows.len() - 1)
                } else {
                    Some(i + lines)
                }
            },
            None => None,
        };
        self.reset();
        self.selected_row = i;
    }

    pub fn previous_row(&mut self, lines: usize)
        requires
            grid_wf(*old(self)),
        ensures
            *final(self) == spec_previous_row(*old(self), lines as int),
            grid_wf(*final(self)),
    {
        let i: Option<usize> = match self.selected_row {
            Some(i) => {
                if i <= lines {
                    Some(0)
                } else {
                    Some(i - lines)
                }
            },
            None => None,
        };
        self.reset();
        self.selected_row = i;
    }

    pub fn scroll_top(&mut self)
        requires
            grid_wf(*old(self)),
        ensures
            *final(self) == spec_scroll_top(*old(self)),
            grid_wf(*final(self)),
    {
        self.reset();
        if self.rows.len() == 0 {
            return;
        }
        self.selected_row = Some(0);
    }

    pub fn scroll_bottom(&mut self)
        requires
            grid_wf(*old(self)),
        ensures
            *final(self) == spec_scroll_bottom(*old(self)),
            grid_wf(*final(self)),
    {
        self.reset();
        if self.rows.len() == 0 {
            return;
        }
        self.selected_row = Some(self.rows.len() - 1);
    }

    pub fn next_column(&mut self)
        requires
            grid_wf(*old(self)),
        ensures
            *final(self) == spec_next_column(*old(self)),
            grid_wf(*final(self)),
    {
        if self.rows.len() == 0 {
            return;
        }
        self.reset();
        let cap = if self.headers.len() == 0 {
            0
        } else {
            self.headers.len() - 1
        };
        if self.selected_column < cap {
            self.selected_column = self.selected_column + 1;
        }
    }

    pub fn previous_column(&mut self)
        requires
            grid_wf(*old(self)),
        ensures
            *final(self) == spec_previous_column(*old(self)),
            grid_wf(*final(self)),
    {
        if self.rows.len() == 0 {
            return;
        }
        self.reset();
        if self.selected_column > 0 {
            self.selected_column = self.selected_column - 1;
        }
    }

    /// Grow or shrink the rectangle on the column axis; a fresh
    /// rectangle is anchored at the cursor first.
    pub fn expand_selected_area_x(&mut self, positive: bool)
        requires
            grid_wf(*old(self)),
        ensures
            *final(self) == spec_expand_x(*old(self), positive),
            grid_wf(*final(self)),
    {
        let base: (usize, usize) = match self.selection_area_corner {
            Some(c) => c,
            None => (
                self.selected_column,
                match self.selected_row {
                    Some(r) => r,
                    None => 0,
                },
            ),
        };
        let cap = if self.headers.len() == 0 {
            0
        } else {
            self.headers.len() - 1
        };
        let nx = if positive {
            if base.0 >= cap {
                cap
            } else {
                base.0 + 1
            }
        } else {
            if base.0 == 0 {
                0
            } else {
                base.0 - 1
            }
        };
        self.selection_area_corner = Some((nx, base.1));
    }

    /// Grow or shrink the rectangle on the row axis; a fresh rectangle
    /// is anchored at the cursor first.
    pub fn expand_selected_area_y(&mut self, positive: bool)
        requires
            grid_wf(*old(self)),
        ensures
            *final(self) == spec_expand_y(*old(self), positive),
            grid_wf(*final(self)),
    {
        let base: (usize, usize) = match self.selection_area_corner {
            Some(c) => c,
            None => (
                self.selected_column,
                match self.selected_row {
                    Some(r) => r,
                    None => 0,
                },
            ),
        };
        let cap = if self.rows.len() == 0 {
            0
        } else {
            self.rows.len() - 1
        };
        let ny = if positive {
            if base.1 >= cap {
                cap
            } else {
                base.1 + 1
            }
        } else {
            if base.1 == 0 {
                0
            } else {
                base.1 - 1
            }
        };
        self.selection_area_corner = Some((base.0, ny));
    }

    /// The cursor column, or the rectangle corner's column when a
    /// rectangle is set.
    pub fn selected_column_index(&self) -> (r: usize)
        ensures
            r == spec_sci(*self),
    {
        match self.selection_area_corner {
            Some(c) => c.0,
            None => self.selected_column,
        }
    }

    /// The selected cell's text, or the comma/newline-joined rectangle.
    pub fn selected_cells(&self) -> (out: Option<String>)
        requires
            grid_wf(*self),
        ensures
            out is Some <==> spec_selected_cells(*self) is Some,
            out is Some ==> out.unwrap()@ == spec_selected_cells(*self).unwrap(),
    {
        if let Some(corner) = self.selection_area_corner {
            let (x, y): (usize, usize) = corner;
            let r: usize = match self.selected_row {
                Some(r) => r,
                None => {
                    return None;
                },
            };
            let ylo: usize = if y < r {
                y
            } else {
                r
            };
            let yhi: usize = if y < r {
                r
            } else {
                y
            };
            let xlo: usize = if x < self.selected_column {
                x
            } else {
                self.selected_column
            };
            let xhi: usize = if x < self.selected_column {
                self.selected_column
            } else {
                x
            };
            let rows_len = self.rows.len();
            let mut s = String::new();
            let mut i: usize = ylo;
            while i <= yhi
                invariant
                    grid_wf(*self),
                    ylo <= i <= yhi + 1,
                    yhi < rows_len,
                    rows_len == self.rows@.len(),
                    xlo <= xhi < self.headers@.len(),
                    s@ == spec_selection_text(self.rows@, ylo as int, i as int, xlo as int, xhi + 1),
                decreases yhi + 1 - i,
            {
                if i > ylo {
                    s.append("\n");
                }
                let ghost prefix = s@;
                let row: &Vec<String> = &self.rows[i];
                let row_len = row.len();
                let mut c: usize = xlo;
                while c <= xhi
                    invariant
                        xlo <= c <= xhi + 1,
                        xhi < row_len,
                        row_len == row@.len(),
                        s@ == prefix + spec_cells_join(row@, xlo as int, c as int),
                    decreases xhi + 1 - c,
                {
                    if c > xlo {
                        s.append(",");
                    }
                    s.append(row[c].as_str());
                    proof {
                        reveal_strlit(",");
                        assert(","@ =~= seq![',']);
                        if c > xlo {
                            assert(s@ =~= prefix + spec_cells_join(row@, xlo as int, c + 1));
                        } else {
                            assert(spec_cells_join(row@, xlo as int, c + 1) == row@[c as int]@);
                            assert(s@ =~= prefix + spec_cells_join(row@, xlo as int, c + 1));
                        }
                    }
                    c = c + 1;
                }
                proof {
                    reveal_strlit("\n");
                    assert("\n"@ =~= seq!['\n']);
                    if i > ylo {
                        assert(spec_selection_text(
                            self.rows@,
                            ylo as int,
                            i + 1,
                            xlo as int,
                            xhi + 1,
                        ) == spec_selection_text(self.rows@, ylo as int, i as int, xlo as int, xhi + 1)
                            + seq!['\n'] + spec_cells_join(self.rows@[i as int]@, xlo as int, xhi + 1));
                        assert(s@ =~= spec_selection_text(
                            self.rows@,
                            ylo as int,
                            i + 1,
                            xlo as int,
                            xhi + 1,
                        ));
                    } else {
                        assert(s@ =~= spec_selection_text(
                            self.rows@,
                            ylo as int,
                            i + 1,
                            xlo as int,
                            xhi + 1,
                        ));
                    }
                }
                i = i + 1;
            }
            return Some(s);
        }
        let r: usize = match self.selected_row {
            Some(r) => r,
            None => {
                return None;
            },
        };
        if r < self.rows.len() {
            let row: &Vec<String> = &self.rows[r];
            if self.selected_column < row.len() {
                let cell: String = row[self.selected_column].clone();
                return Some(cell);
            }
        }
        None
    }

    /// Whether the cell at `(row_index, column_index)` of the visible
    /// band is highlighted; `selected_column_index` is the cursor's
    /// band-relative column as the windowing computation returned it.
    pub fn is_selected_cell(
        &self,
        row_index: usize,
        column_index: usize,
        selected_column_index: usize,
    ) -> (r: bool)
        requires
            grid_wf(*self),
            selected_column_index < usize::MAX,
            self.headers@.len() < usize::MAX,
        ensures
            r == spec_is_selected_cell(
                *self,
                row_index as int,
                column_index as int,
                selected_column_index as int,
            ),
    {
        if let Some(corner) = self.selection_area_corner {
            let (x, y): (usize, usize) = corner;
            let r: usize = match self.selected_row {
                Some(r) => r,
                None => {
                    return false;
                },
            };
            let _rows_len = self.rows.len();
            let xp: usize = if x >= self.column_page_start {
                x - self.column_page_start + 1
            } else {
                0
            };
            let lo_x_raw: usize = if xp < selected_column_index {
                xp
            } else {
                selected_column_index
            };
            let lo_x: usize = if lo_x_raw < 1 {
                1
            } else {
                lo_x_raw
            };
            let hi_x: usize = (if xp < selected_column_index {
                selected_column_index
            } else {
                xp
            }) + 1;
            let lo_y: usize = if y < r {
                y
            } else {
                r
            };
            let hi_y: usize = (if y < r {
                r
            } else {
                y
            }) + 1;
            lo_x <= column_index && column_index < hi_x && lo_y <= row_index && row_index < hi_y
        } else {
            match self.selected_row {
                Some(r) => row_index == r && column_index == selected_column_index,
                None => false,
            }
        }
    }

    /// Whether this cell is the row-number cell of the selected row,
    /// drawn bold.
    pub fn is_number_column(&self, row_index: usize, column_index: usize) -> (r: bool)
        ensures
            r == (match self.selected_row {
                Some(sel) => row_index == sel && column_index == 0,
                None => false,
            }),
    {
        match self.selected_row {
            Some(sel) => row_index == sel && column_index == 0,
            None => false,
        }
    }

    /// The headers of columns `left..right`, preceded by a blank
    /// header for the row-number column.
    pub fn headers(&self, left: usize, right: usize) -> (out: Vec<String>)
        requires
            left <= right <= self.headers@.len(),
        ensures
            out@.len() == right - left + 1,
            out@[0]@ == Seq::<char>::empty(),
            forall|k: int| 1 <= k < out@.len() ==> out@[k]@ == self.headers@[left + k - 1]@,
    {
        let mut out: Vec<String> = Vec::new();
        out.push(String::new());
        let mut i: usize = left;
        while i < right
            invariant
                left <= i <= right <= self.headers@.len(),
                out@.len() == i - left + 1,
                out@[0]@ == Seq::<char>::empty(),
                forall|k: int| 1 <= k < out@.len() ==> out@[k]@ == self.headers@[left + k - 1]@,
            decreases right - i,
        {
            out.push(self.headers[i].clone());
            i = i + 1;
        }
        out
    }

    /// Every row restricted to columns `left..right`, each prefixed
    /// with its 1-based row number.
    pub fn rows(&self, left: usize, right: usize) -> (out: Vec<Vec<String>>)
        requires
            left <= right,
            forall|i: int| 0 <= i < self.rows@.len() ==> right <= (#[trigger] self.rows@[i])@.len(),
        ensures
            out@.len() == self.rows@.len(),
            forall|i: int| 0 <= i < out@.len() ==> (#[trigger] out@[i])@.len() == right - left + 1,
            forall|i: int| 0 <= i < out@.len() ==> (#[trigger] out@[i])@[0]@ == spec_decimal(i + 1),
            forall|i: int, k: int|
                0 <= i < out@.len() && 1 <= k < right - left + 1 ==> (#[trigger] out@[i]@[k])@
                    == self.rows@[i]@[left + k - 1]@,
    {
        let mut out: Vec<Vec<String>> = Vec::new();
        let total = self.rows.len();
        let mut i: usize = 0;
        while i < total
            invariant
                i <= total,
                total == self.rows@.len(),
                left <= right,
                forall|j: int| 0 <= j < self.rows@.len() ==> right <= (#[trigger] self.rows@[j])@.len(),
                out@.len() == i,
                forall|j: int| 0 <= j < out@.len() ==> (#[trigger] out@[j])@.len() == right - left + 1,
                forall|j: int| 0 <= j < out@.len() ==> (#[trigger] out@[j])@[0]@ == spec_decimal(j + 1),
                forall|j: int, k: int|
                    0 <= j < out@.len() && 1 <= k < right - left + 1 ==> (#[trigger] out@[j]@[k])@
                        == self.rows@[j]@[left + k - 1]@,
            decreases total - i,
        {
            let mut new_row: Vec<String> = Vec::new();
            new_row.push(usize_to_decimal(i + 1));
            let row: &Vec<String> = &self.rows[i];
            let mut c: usize = left;
            while c < right
                invariant
                    left <= c <= right <= row@.len(),
                    new_row@.len() == c - left + 1,
                    new_row@[0]@ == spec_decimal(i + 1),
                    forall|k: int|
                        1 <= k < new_row@.len() ==> (#[trigger] new_row@[k])@ == row@[left + k
                            - 1]@,
                decreases right - c,
            {
                new_row.push(row[c].clone());
                c = c + 1;
            }
            out.push(new_row);
            i = i + 1;
        }
        out
    }

    /// Route one key press; the answer tells the shell whether to keep
    /// routing it.
    pub fn event(&mut self, key: Key) -> (r: EventState)
        requires
            grid_wf(*old(self)),
        ensures
            *final(self) == spec_table_step(*old(self), key),
            grid_wf(*final(self)),
            r == spec_table_consumed(key),
    {
        match key {
            Key::Char(c) => {
                if c == 'h' {
                    self.previous_column();
                    EventState::Consumed
                } else if c == 'j' {
                    self.next_row(1);
                    EventState::NotConsumed
                } else if c == 'k' {
                    self.previous_row(1);
                    EventState::Consumed
                } else if c == 'g' {
                    self.scroll_top();
                    EventState::Consumed
                } else if c == 'G' {
                    self.scroll_bottom();
                    EventState::Consumed
                } else if c == 'l' {
                    self.next_column();
                    EventState::Consumed
                } else if c == 'H' {
                    self.expand_selected_area_x(false);
                    EventState::Consumed
                } else if c == 'K' {
                    self.expand_selected_area_y(false);
                    EventState::Consumed
                } else if c == 'J' {
                    self.expand_selected_area_y(true);
                    EventState::Consumed
                } else if c == 'L' {
                    self.expand_selected_area_x(true);
                    EventState::Consumed
                } else {
                    EventState::NotConsumed
                }
            },
            Key::Ctrl(c) => {
                if c == 'd' {
                    self.next_row(10);
                    EventState::NotConsumed
                } else if c == 'u' {
                    self.previous_row(10);
                    EventState::Consumed
                } else {
                    EventState::NotConsumed
                }
            },
            _ => EventState::NotConsumed,
        }
    }

    /// Widgets register the commands they answer to; the table viewer
    /// registers none.
    pub fn commands(&self, out: &mut Vec<CommandInfo>)
        ensures
            *final(out) == *old(out),
    {
    }
}

} // verus!
