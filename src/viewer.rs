//! The state of an interactive table viewer: paging, the filter being
//! typed, and the choice of visible columns.
use crate::double::Double;
use crate::eval::{eval_spec, FilterError};
use crate::expr::{parse_spec, ExprModel};
use crate::source::DataSource;
use crate::table::{Table, TableModel};
use crate::text::{chars_of, find, find_first, lemma_find_from, trim_range, trim_ws};
use vstd::prelude::*;

verus! {

/// Relies on `String::push`: the character is appended.
#[verifier::external_body]
fn push_char(s: &mut String, c: char)
    ensures
        final(s)@ == old(s)@.push(c),
{
    s.push(c)
}

/// The text of a sequence of characters.
pub fn text_of(cs: &Vec<char>) -> (r: String)
    ensures
        r@ == cs@,
{
    let mut s = String::new();
    let mut i: usize = 0;
    while i < cs.len()
        invariant
            i <= cs@.len(),
            s@ == cs@.subrange(0, i as int),
        decreases cs@.len() - i,
    {
        push_char(&mut s, cs[i]);
        i = i + 1;
    }
    assert(s@ =~= cs@);
    s
}

pub open spec fn strs(v: Seq<String>) -> Seq<Seq<char>> {
    v.map_values(|s: String| s@)
}

/// The first index of `name` in `names`.
pub open spec fn position(names: Seq<Seq<char>>, name: Seq<char>) -> Option<int>
    decreases names.len(),
{
    if names.len() == 0 {
        None
    } else {
        match position(names.drop_last(), name) {
            Some(i) => Some(i),
            None => if names.last() == name {
                Some(names.len() - 1)
            } else {
                None
            },
        }
    }
}

/// For each selected name present among the headers, in the selection's
/// order, the index of its first occurrence.
pub open spec fn selected_indices(headers: Seq<Seq<char>>, selected: Seq<Seq<char>>) -> Seq<int>
    decreases selected.len(),
{
    if selected.len() == 0 {
        Seq::empty()
    } else {
        let prev = selected_indices(headers, selected.drop_last());
        match position(headers, selected.last()) {
            Some(i) => prev.push(i),
            None => prev,
        }
    }
}

proof fn lemma_position(names: Seq<Seq<char>>, name: Seq<char>)
    ensures
        position(names, name) matches Some(i) ==> 0 <= i < names.len() && names[i] == name,
        position(names, name) is None ==> forall|j: int| 0 <= j < names.len() ==> names[j] != name,
    decreases names.len(),
{
    if names.len() > 0 {
        lemma_position(names.drop_last(), name);
        assert forall|j: int| 0 <= j < names.len() - 1 implies names.drop_last()[j] == names[j] by {}
    }
}

proof fn lemma_selected_in_range(headers: Seq<Seq<char>>, selected: Seq<Seq<char>>)
    ensures
        forall|k: int|
            0 <= k < selected_indices(headers, selected).len() ==> 0 <= #[trigger] selected_indices(
                headers,
                selected,
            )[k] < headers.len(),
    decreases selected.len(),
{
    if selected.len() > 0 {
        lemma_selected_in_range(headers, selected.drop_last());
        lemma_position(headers, selected.last());
        let prev = selected_indices(headers, selected.drop_last());
        let cur = selected_indices(headers, selected);
        assert forall|k: int| 0 <= k < cur.len() implies 0 <= #[trigger] cur[k] < headers.len() by {
            if k < prev.len() {
                assert(cur[k] == prev[k]);
            }
        }
    }
}

fn position_of(names: &Vec<String>, name: &String) -> (r: Option<usize>)
    ensures
        r matches Some(i) ==> position(strs(names@), name@) == Some(i as int),
        r is None ==> position(strs(names@), name@) is None,
{
    let mut i: usize = 0;
    while i < names.len()
        invariant
            i <= names@.len(),
            position(strs(names@.subrange(0, i as int)), name@) is None,
        decreases names@.len() - i,
    {
        assert(strs(names@.subrange(0, i + 1)).drop_last() =~= strs(names@.subrange(0, i as int)));
        if names[i] == *name {
            proof {
                let pre = strs(names@.subrange(0, i + 1));
                assert(pre.drop_last() =~= strs(names@.subrange(0, i as int)));
                assert(pre.last() == name@);
                assert(position(pre, name@) == Some(i as int));
                assert(pre =~= strs(names@).subrange(0, i + 1));
                lemma_position_prefix(strs(names@), name@, i + 1, i as int);
            }
            return Some(i);
        }
        i = i + 1;
    }
    assert(names@.subrange(0, i as int) =~= names@);
    None
}

proof fn lemma_position_prefix(names: Seq<Seq<char>>, name: Seq<char>, n: int, p: int)
    requires
        0 <= n <= names.len(),
        position(names.subrange(0, n), name) == Some(p),
    ensures
        position(names, name) == Some(p),
    decreases names.len() - n,
{
    if n < names.len() {
        assert(names.subrange(0, n + 1).drop_last() =~= names.subrange(0, n));
        assert(position(names.subrange(0, n + 1), name) == Some(p));
        lemma_position_prefix(names, name, n + 1, p);
    } else {
        assert(names.subrange(0, n) =~= names);
    }
}

/// One page of a table as text, ready for display.
pub struct TableData {
    pub headers: Vec<String>,
    pub rows: Vec<Vec<String>>,
    pub total_rows: usize,
}

/// The cells at `indices` of a row, in that order.
pub open spec fn pick(row: Seq<Seq<char>>, indices: Seq<int>) -> Seq<Seq<char>> {
    indices.map_values(|i: int| row[i])
}

impl TableData {
    /// Every row has one cell per header.
    pub open spec fn wf(&self) -> bool {
        forall|r: int| 0 <= r < self.rows@.len() ==> (#[trigger] self.rows@[r])@.len() == self.headers@.len()
    }

    /// Keeps only the columns named in `selected_columns` that exist, in the
    /// order of the selection; with none of them, keeps no column and no row.
    pub fn filter_columns(&mut self, selected_columns: &Vec<String>)
        requires
            old(self).wf(),
        ensures
            final(self).total_rows == old(self).total_rows,
            ({
                let idx = selected_indices(strs(old(self).headers@), strs(selected_columns@));
                if idx.len() == 0 {
                    final(self).headers@.len() == 0 && final(self).rows@.len() == 0
                } else {
                    &&& strs(final(self).headers@) == pick(strs(old(self).headers@), idx)
                    &&& final(self).rows@.len() == old(self).rows@.len()
                    &&& forall|r: int|
                        0 <= r < final(self).rows@.len() ==> strs(#[trigger] final(self).rows@[r]@)
                            == pick(strs(old(self).rows@[r]@), idx)
                }
            }),
    {
        let ghost hs = strs(self.headers@);
        let ghost sel = strs(selected_columns@);
        let mut indices: Vec<usize> = Vec::new();
        let mut k: usize = 0;
        while k < selected_columns.len()
            invariant
                k <= selected_columns@.len(),
                hs == strs(self.headers@),
                sel == strs(selected_columns@),
                indices@.map_values(|i: usize| i as int) == selected_indices(hs, sel.subrange(0, k as int)),
            decreases selected_columns@.len() - k,
        {
            assert(sel.subrange(0, k + 1).drop_last() =~= sel.subrange(0, k as int));
            if let Some(i) = position_of(&self.headers, &selected_columns[k]) {
                indices.push(i);
                assert(indices@.map_values(|i: usize| i as int) =~= selected_indices(hs, sel.subrange(0, k as int)).push(i as int));
            }
            k = k + 1;
        }
        assert(sel.subrange(0, k as int) =~= sel);
        let ghost idx = selected_indices(hs, sel);
        proof {
            lemma_selected_in_range(hs, sel);
        }
        if indices.len() == 0 {
            self.headers.clear();
            self.rows.clear();
            return;
        }
        let mut new_headers: Vec<String> = Vec::new();
        let mut j: usize = 0;
        while j < indices.len()
            invariant
                j <= indices@.len(),
                indices@.map_values(|i: usize| i as int) == idx,
                forall|q: int| 0 <= q < idx.len() ==> 0 <= #[trigger] idx[q] < hs.len(),
                hs == strs(self.headers@),
                new_headers@.len() == j,
                strs(new_headers@) == pick(hs, idx.subrange(0, j as int)),
            decreases indices@.len() - j,
        {
            assert(idx[j as int] == indices@[j as int] as int);
            let h = self.headers[indices[j]].clone();
            assert(h@ == hs[idx[j as int]]);
            let ghost prev = new_headers@;
            new_headers.push(h);
            assert(strs(new_headers@) =~= pick(hs, idx.subrange(0, j + 1))) by {
                assert forall|q: int| 0 <= q < j + 1 implies strs(new_headers@)[q] == pick(
                    hs,
                    idx.subrange(0, j + 1),
                )[q] by {
                    if q < j {
                        assert(new_headers@[q] == prev[q]);
                        assert(strs(prev)[q] == pick(hs, idx.subrange(0, j as int))[q]);
                    }
                }
            }
            j = j + 1;
        }
        assert(idx.subrange(0, j as int) =~= idx);
        let mut new_rows: Vec<Vec<String>> = Vec::new();
        let mut r: usize = 0;
        while r < self.rows.len()
            invariant
                r <= self.rows@.len(),
                self.wf(),
                indices@.map_values(|i: usize| i as int) == idx,
                forall|q: int| 0 <= q < idx.len() ==> 0 <= #[trigger] idx[q] < hs.len(),
                hs == strs(self.headers@),
                new_rows@.len() == r,
                forall|q: int| 0 <= q < r ==> strs(#[trigger] new_rows@[q]@) == pick(strs(self.rows@[q]@), idx),
            decreases self.rows@.len() - r,
        {
            let row = &self.rows[r];
            assert(row@.len() == hs.len());
            let mut out: Vec<String> = Vec::new();
            let mut j: usize = 0;
            while j < indices.len()
                invariant
                    j <= indices@.len(),
                    indices@.map_values(|i: usize| i as int) == idx,
                    forall|q: int| 0 <= q < idx.len() ==> 0 <= #[trigger] idx[q] < hs.len(),
                    row@.len() == hs.len(),
                    out@.len() == j,
                    strs(out@) == pick(strs(row@), idx.subrange(0, j as int)),
                decreases indices@.len() - j,
            {
                assert(idx[j as int] == indices@[j as int] as int);
                let c = row[indices[j]].clone();
                assert(c@ == strs(row@)[idx[j as int]]);
                let ghost prev = out@;
                out.push(c);
                assert(strs(out@) =~= pick(strs(row@), idx.subrange(0, j + 1))) by {
                    assert forall|q: int| 0 <= q < j + 1 implies strs(out@)[q] == pick(
                        strs(row@),
                        idx.subrange(0, j + 1),
                    )[q] by {
                        if q < j {
                            assert(out@[q] == prev[q]);
                            assert(strs(prev)[q] == pick(strs(row@), idx.subrange(0, j as int))[q]);
                        }
                    }
                }
                j = j + 1;
            }
            assert(idx.subrange(0, j as int) =~= idx);
            new_rows.push(out);
            r = r + 1;
        }
        let ghost old_rows = self.rows@;
        self.headers = new_headers;
        self.rows = new_rows;
        assert(forall|q: int| 0 <= q < self.rows@.len() ==> strs(#[trigger] self.rows@[q]@) == pick(strs(old_rows[q]@), idx));
    }

    /// The number of columns.
    pub fn num_columns(&self) -> (r: usize)
        ensures
            r == self.headers@.len(),
    {
        self.headers.len()
    }

    /// The number of rows shown.
    pub fn num_rows(&self) -> (r: usize)
        ensures
            r == self.rows@.len(),
    {
        self.rows.len()
    }
}

/// The rows `offset..end` of a page of `limit` rows out of `total`, where
/// `end` is `offset + limit` bounded by `total`; empty past the end.
pub fn page_bounds(offset: usize, limit: usize, total: usize) -> (r: (usize, usize))
    ensures
        r.1 == if offset + limit < total {
            offset + limit
        } else {
            total as int
        },
        r.0 == if offset < r.1 {
            offset as int
        } else {
            r.1 as int
        },
{
    let end = if offset < total && limit < total - offset {
        offset + limit
    } else {
        total
    };
    let start = if offset < end {
        offset
    } else {
        end
    };
    (start, end)
}

/// The rows shown per page when a viewer starts.
pub const DEFAULT_PAGE_SIZE: usize = 20;

/// The largest scroll offset that still fills a page: `total - page`, or 0.
pub open spec fn max_offset(total: int, page: int) -> int {
    if total > page {
        total - page
    } else {
        0
    }
}

/// A viewer over a loaded table.
pub struct App {
    /// The table as loaded.
    pub data_source: DataSource,
    /// The table as the last successful filter left it.
    pub filtered: Table,
    /// The first row shown.
    pub scroll_offset: usize,
    /// The first column shown.
    pub column_offset: usize,
    /// The rows shown per page.
    pub page_size: usize,
    /// The filter text being edited.
    pub filter_pattern: Vec<char>,
    /// The cursor in the filter text, as a character index.
    pub filter_cursor: usize,
    /// Whether keys edit the filter text.
    pub filter_mode: bool,
    /// The column to search; `None` searches all.
    pub filter_column: Option<String>,
    /// The file the table came from.
    pub file_path: String,
    /// Why the last filter failed, if it did.
    pub error: Option<FilterError>,
    pub should_quit: bool,
    pub show_line_numbers: bool,
    /// Whether keys move through the list of columns.
    pub column_selection_mode: bool,
    pub column_selection_cursor: usize,
    /// The visible columns; `None` shows all of them.
    pub selected_columns: Option<Vec<String>>,
}

impl App {
    /// The table as loaded.
    pub open spec fn source(&self) -> TableModel {
        self.data_source.table_view()
    }

    /// The table as the last successful filter left it.
    pub open spec fn shown(&self) -> TableModel {
        self.filtered@
    }

    /// Both tables are well formed and the cursor lies within the text.
    pub open spec fn wf(&self) -> bool {
        &&& self.source().wf()
        &&& self.shown().wf()
        &&& self.filter_cursor <= self.filter_pattern@.len()
    }

    /// A viewer showing the whole table from its first row.
    pub fn new(data_source: DataSource, file_path: String) -> (r: App)
        requires
            data_source.table_view().wf(),
        ensures
            r.wf(),
            r.source() == data_source.table_view(),
            r.shown() == data_source.table_view(),
            r.scroll_offset == 0 && r.column_offset == 0 && r.page_size == DEFAULT_PAGE_SIZE,
            r.filter_pattern@.len() == 0 && r.filter_cursor == 0 && !r.filter_mode,
            r.filter_column is None && r.file_path@ == file_path@ && r.error is None,
            !r.should_quit && r.show_line_numbers && !r.column_selection_mode,
            r.column_selection_cursor == 0 && r.selected_columns is None,
    {
        let filtered = data_source.dataframe().duplicate();
        App {
            data_source,
            filtered,
            scroll_offset: 0,
            column_offset: 0,
            page_size: DEFAULT_PAGE_SIZE,
            filter_pattern: Vec::new(),
            filter_cursor: 0,
            filter_mode: false,
            filter_column: None,
            file_path,
            error: None,
            should_quit: false,
            show_line_numbers: true,
            column_selection_mode: false,
            column_selection_cursor: 0,
            selected_columns: None,
        }
    }

    /// The table as filtered.
    pub fn filtered_table(&self) -> (r: &Table)
        ensures
            r@ == self.shown(),
    {
        &self.filtered
    }

    /// The rows of the current page, as a range of row indices.
    pub fn current_page(&self) -> (r: (usize, usize))
        requires
            self.wf(),
        ensures
            (r.0 as int, r.1 as int) == page_bounds_spec(
                self.scroll_offset as int,
                self.page_size as int,
                self.shown().rows as int,
            ),
    {
        page_bounds(self.scroll_offset, self.page_size, self.filtered.num_rows())
    }

    /// One page down, but no further than the last full page.
    pub fn scroll_down(&mut self)
        requires
            old(self).wf(),
        ensures
            final(self).wf(),
            final(self).scroll_offset == (if old(self).scroll_offset + old(self).page_size < max_offset(
                old(self).shown().rows as int,
                old(self).page_size as int,
            ) {
                old(self).scroll_offset + old(self).page_size
            } else {
                max_offset(old(self).shown().rows as int, old(self).page_size as int)
            }),
            unchanged_but_scroll(*old(self), *final(self)),
    {
        let total = self.filtered.num_rows();
        let max = total.saturating_sub(self.page_size);
        self.scroll_offset = if self.scroll_offset < max && self.page_size < max - self.scroll_offset {
            self.scroll_offset + self.page_size
        } else {
            max
        };
    }

    /// One page up, stopping at the first row.
    pub fn scroll_up(&mut self)
        requires
            old(self).wf(),
        ensures
            final(self).wf(),
            final(self).scroll_offset == (if old(self).scroll_offset > old(self).page_size {
                old(self).scroll_offset - old(self).page_size
            } else {
                0
            }),
            unchanged_but_scroll(*old(self), *final(self)),
    {
        self.scroll_offset = self.scroll_offset.saturating_sub(self.page_size);
    }

    /// One row down, but no further than the last full page.
    pub fn scroll_down_one(&mut self)
        requires
            old(self).wf(),
        ensures
            final(self).wf(),
            final(self).scroll_offset == (if old(self).scroll_offset + 1 < max_offset(
                old(self).shown().rows as int,
                old(self).page_size as int,
            ) {
                old(self).scroll_offset + 1
            } else {
                max_offset(old(self).shown().rows as int, old(self).page_size as int)
            }),
            unchanged_but_scroll(*old(self), *final(self)),
    {
        let total = self.filtered.num_rows();
        let max = total.saturating_sub(self.page_size);
        self.scroll_offset = if self.scroll_offset < max && 1 < max - self.scroll_offset {
            self.scroll_offset + 1
        } else {
            max
        };
    }

    /// One row up, stopping at the first row.
    pub fn scroll_up_one(&mut self)
        requires
            old(self).wf(),
        ensures
            final(self).wf(),
            final(self).scroll_offset == (if old(self).scroll_offset > 0 {
                old(self).scroll_offset - 1
            } else {
                0
            }),
            unchanged_but_scroll(*old(self), *final(self)),
    {
        self.scroll_offset = self.scroll_offset.saturating_sub(1);
    }

    /// Back to the first row.
    pub fn scroll_to_top(&mut self)
        requires
            old(self).wf(),
        ensures
            final(self).wf(),
            final(self).scroll_offset == 0,
            unchanged_but_scroll(*old(self), *final(self)),
    {
        self.scroll_offset = 0;
    }

    /// To the last full page.
    pub fn scroll_to_bottom(&mut self)
        requires
            old(self).wf(),
        ensures
            final(self).wf(),
            final(self).scroll_offset == max_offset(
                old(self).shown().rows as int,
                old(self).page_size as int,
            ),
            unchanged_but_scroll(*old(self), *final(self)),
    {
        self.scroll_offset = self.filtered.num_rows().saturating_sub(self.page_size);
    }

    /// One column right, up to the last column.
    pub fn scroll_right(&mut self)
        requires
            old(self).wf(),
        ensures
            final(self).wf(),
            final(self).column_offset == (if old(self).column_offset + 1 < old(self).source().names.len() {
                old(self).column_offset + 1
            } else {
                old(self).column_offset as int
            }),
            final(self).scroll_offset == old(self).scroll_offset,
            final(self).source() == old(self).source(),
            final(self).shown() == old(self).shown(),
    {
        let max_columns = self.data_source.columns().len();
        if self.column_offset < max_columns.saturating_sub(1) {
            self.column_offset = self.column_offset + 1;
        }
    }

    /// One column left, stopping at the first.
    pub fn scroll_left(&mut self)
        requires
            old(self).wf(),
        ensures
            final(self).wf(),
            final(self).column_offset == (if old(self).column_offset > 0 {
                old(self).column_offset - 1
            } else {
                0
            }),
            final(self).scroll_offset == old(self).scroll_offset,
            final(self).source() == old(self).source(),
            final(self).shown() == old(self).shown(),
    {
        self.column_offset = self.column_offset.saturating_sub(1);
    }

    /// Starts editing the filter, the cursor at the end of the text.
    pub fn enter_filter_mode(&mut self)
        requires
            old(self).wf(),
        ensures
            final(self).wf(),
            final(self).filter_mode,
            final(self).filter_cursor == old(self).filter_pattern@.len(),
            final(self).error is None,
            final(self).filter_pattern == old(self).filter_pattern,
            final(self).shown() == old(self).shown(),
            final(self).source() == old(self).source(),
    {
        self.filter_mode = true;
        self.filter_cursor = self.filter_pattern.len();
        self.error = None;
    }

    /// Stops editing the filter.
    pub fn exit_filter_mode(&mut self)
        requires
            old(self).wf(),
        ensures
            final(self).wf(),
            !final(self).filter_mode,
            final(self).filter_pattern == old(self).filter_pattern,
            final(self).filter_cursor == old(self).filter_cursor,
            final(self).shown() == old(self).shown(),
            final(self).source() == old(self).source(),
    {
        self.filter_mode = false;
    }

    /// Inserts a character at the cursor and moves the cursor past it.
    pub fn push_filter_char(&mut self, c: char)
        requires
            old(self).wf(),
        ensures
            final(self).wf(),
            final(self).filter_pattern@ == old(self).filter_pattern@.insert(old(self).filter_cursor as int, c),
            final(self).filter_cursor == old(self).filter_cursor + 1,
            final(self).shown() == old(self).shown(),
            final(self).source() == old(self).source(),
    {
        self.filter_pattern.insert(self.filter_cursor, c);
        let n = self.filter_pattern.len();
        assert(self.filter_cursor < n);
        self.filter_cursor = self.filter_cursor + 1;
    }

    /// Removes the character before the cursor (backspace).
    pub fn pop_filter_char(&mut self)
        requires
            old(self).wf(),
        ensures
            final(self).wf(),
            old(self).filter_cursor > 0 ==> final(self).filter_cursor == old(self).filter_cursor - 1
                && final(self).filter_pattern@ == old(self).filter_pattern@.remove(
                old(self).filter_cursor - 1,
            ),
            old(self).filter_cursor == 0 ==> final(self).filter_cursor == 0
                && final(self).filter_pattern == old(self).filter_pattern,
            final(self).shown() == old(self).shown(),
            final(self).source() == old(self).source(),
    {
        if self.filter_cursor > 0 {
            self.filter_cursor = self.filter_cursor - 1;
            self.filter_pattern.remove(self.filter_cursor);
        }
    }

    /// Removes the character at the cursor (delete).
    pub fn delete_filter_char(&mut self)
        requires
            old(self).wf(),
        ensures
            final(self).wf(),
            final(self).filter_cursor == old(self).filter_cursor,
            old(self).filter_cursor < old(self).filter_pattern@.len() ==> final(self).filter_pattern@
                == old(self).filter_pattern@.remove(old(self).filter_cursor as int),
            old(self).filter_cursor == old(self).filter_pattern@.len() ==> final(self).filter_pattern
                == old(self).filter_pattern,
            final(self).shown() == old(self).shown(),
            final(self).source() == old(self).source(),
    {
        if self.filter_cursor < self.filter_pattern.len() {
            self.filter_pattern.remove(self.filter_cursor);
        }
    }

    /// Moves the cursor one character left, if it can.
    pub fn filter_cursor_left(&mut self)
        requires
            old(self).wf(),
        ensures
            final(self).wf(),
            final(self).filter_cursor == (if old(self).filter_cursor > 0 {
                old(self).filter_cursor - 1
            } else {
                0
            }),
            final(self).filter_pattern == old(self).filter_pattern,
            final(self).shown() == old(self).shown(),
            final(self).source() == old(self).source(),
    {
        if self.filter_cursor > 0 {
            self.filter_cursor = self.filter_cursor - 1;
        }
    }

    /// Moves the cursor one character right, if it can.
    pub fn filter_cursor_right(&mut self)
        requires
            old(self).wf(),
        ensures
            final(self).wf(),
            final(self).filter_cursor == (if old(self).filter_cursor < old(self).filter_pattern@.len() {
                old(self).filter_cursor + 1
            } else {
                old(self).filter_cursor as int
            }),
            final(self).filter_pattern == old(self).filter_pattern,
            final(self).shown() == old(self).shown(),
            final(self).source() == old(self).source(),
    {
        if self.filter_cursor < self.filter_pattern.len() {
            self.filter_cursor = self.filter_cursor + 1;
        }
    }

    /// Moves the cursor to the start of the text.
    pub fn filter_cursor_home(&mut self)
        requires
            old(self).wf(),
        ensures
            final(self).wf(),
            final(self).filter_cursor == 0,
            final(self).filter_pattern == old(self).filter_pattern,
            final(self).shown() == old(self).shown(),
            final(self).source() == old(self).source(),
    {
        self.filter_cursor = 0;
    }

    /// Moves the cursor to the end of the text.
    pub fn filter_cursor_end(&mut self)
        requires
            old(self).wf(),
        ensures
            final(self).wf(),
            final(self).filter_cursor == old(self).filter_pattern@.len(),
            final(self).filter_pattern == old(self).filter_pattern,
            final(self).shown() == old(self).shown(),
            final(self).source() == old(self).source(),
    {
        self.filter_cursor = self.filter_pattern.len();
    }

    /// Empties the filter text and shows the whole table again.
    pub fn clear_filter<F: Fn(&str) -> Option<Double>>(&mut self, read_number: &F)
        requires
            old(self).wf(),
            forall|s: &str| read_number.requires((s,)),
        ensures
            final(self).wf(),
            final(self).filter_pattern@.len() == 0,
            final(self).filter_cursor == 0,
            final(self).shown() == old(self).source(),
            final(self).source() == old(self).source(),
            final(self).scroll_offset == 0,
            final(self).error is None,
    {
        self.filter_pattern.clear();
        self.filter_cursor = 0;
        self.apply_filter(read_number);
    }

    /// Applies the filter text to the loaded table. On success the result is
    /// shown from its first row; on failure the table shown stays as it was
    /// and the error is kept.
    pub fn apply_filter<F: Fn(&str) -> Option<Double>>(&mut self, read_number: &F)
        requires
            old(self).wf(),
            forall|s: &str| read_number.requires((s,)),
        ensures
            final(self).wf(),
            final(self).filter_pattern == old(self).filter_pattern,
            final(self).filter_cursor == old(self).filter_cursor,
            final(self).source() == old(self).source(),
            crate::source::is_blank(old(self).filter_pattern@) ==> final(self).shown() == old(self).source()
                && final(self).scroll_offset == 0 && final(self).error is None,
            !crate::source::is_blank(old(self).filter_pattern@) && parse_spec(
                old(self).filter_pattern@,
            ) is Err ==> final(self).error == Some(
                FilterError::Parse(parse_spec(old(self).filter_pattern@)->Err_0),
            ) && final(self).shown() == old(self).shown() && final(self).scroll_offset == old(
                self,
            ).scroll_offset,
            !crate::source::is_blank(old(self).filter_pattern@) && parse_spec(
                old(self).filter_pattern@,
            ) is Ok ==> exists|e: ExprModel|
                e.syntax() == parse_spec(old(self).filter_pattern@)->Ok_0 && e.read_by(*read_number)
                    && #[trigger] filter_applied(e, *old(self), *final(self)),
    {
        let text = text_of(&self.filter_pattern);
        let ghost before = *self;
        let r = self.data_source.filter(text.as_str(), read_number);
        let ghost rr = r;
        match r {
            Ok(t) => {
                self.filtered = t;
                self.scroll_offset = 0;
                self.error = None;
            },
            Err(e) => {
                self.error = Some(e);
            },
        }
        proof {
            let p = self.filter_pattern@;
            if !crate::source::is_blank(p) && parse_spec(p) is Ok {
                let e = choose|e: ExprModel|
                    e.syntax() == parse_spec(p)->Ok_0 && e.read_by(*read_number)
                        && #[trigger] crate::source::outcome(e, before.source(), rr);
                assert(filter_applied(e, before, *self));
            }
        }
    }

    /// Splits a plain `column:value` or `column=value` pattern, trimming both
    /// parts, where the column exists; otherwise the whole pattern is a value
    /// to look for in every column.
    pub fn parse_filter_pattern(&self, pattern: &str) -> (r: (Option<String>, String))
        requires
            self.wf(),
        ensures
            ({
                let (c, v) = pattern_split(pattern@, self.source().names);
                &&& r.1@ == v
                &&& match c {
                    Some(name) => r.0 matches Some(s) && s@ == name,
                    None => r.0 is None,
                }
            }),
    {
        let names = self.data_source.columns();
        let pc = chars_of(pattern);
        if let Some(found) = split_on(pattern, &pc, ':', &names) {
            return found;
        }
        if let Some(found) = split_on(pattern, &pc, '=', &names) {
            return found;
        }
        (None, pattern.to_owned())
    }

    /// The number of rows after filtering.
    pub fn total_rows(&self) -> (r: usize)
        ensures
            r == self.shown().rows,
    {
        self.filtered.num_rows()
    }

    /// The number of rows before filtering.
    pub fn original_total_rows(&self) -> (r: usize)
        ensures
            r == self.source().rows,
    {
        self.data_source.len()
    }

    /// Asks the viewer to stop.
    pub fn quit(&mut self)
        ensures
            final(self).should_quit,
            final(self).source() == old(self).source(),
            final(self).shown() == old(self).shown(),
            final(self).filter_pattern == old(self).filter_pattern,
            final(self).filter_cursor == old(self).filter_cursor,
    {
        self.should_quit = true;
    }

    /// Shows or hides row numbers.
    pub fn toggle_line_numbers(&mut self)
        ensures
            final(self).show_line_numbers == !old(self).show_line_numbers,
            final(self).source() == old(self).source(),
            final(self).shown() == old(self).shown(),
            final(self).filter_pattern == old(self).filter_pattern,
            final(self).filter_cursor == old(self).filter_cursor,
    {
        self.show_line_numbers = !self.show_line_numbers;
    }

    /// Starts choosing columns, the cursor on the first; with no choice made
    /// yet, every column starts out chosen.
    pub fn enter_column_selection_mode(&mut self)
        requires
            old(self).wf(),
        ensures
            final(self).wf(),
            final(self).column_selection_mode,
            final(self).column_selection_cursor == 0,
            old(self).selected_columns is None ==> (final(self).selected_columns matches Some(v)
                && strs(v@) == old(self).source().names),
            old(self).selected_columns is Some ==> final(self).selected_columns == old(self).selected_columns,
            final(self).source() == old(self).source(),
            final(self).shown() == old(self).shown(),
    {
        self.column_selection_mode = true;
        self.column_selection_cursor = 0;
        if self.selected_columns.is_none() {
            self.selected_columns = Some(self.data_source.columns());
        }
    }

    /// Stops choosing columns.
    pub fn exit_column_selection_mode(&mut self)
        requires
            old(self).wf(),
        ensures
            final(self).wf(),
            !final(self).column_selection_mode,
            final(self).selected_columns == old(self).selected_columns,
            final(self).column_selection_cursor == old(self).column_selection_cursor,
            final(self).source() == old(self).source(),
            final(self).shown() == old(self).shown(),
    {
        self.column_selection_mode = false;
    }

    /// Moves the column cursor up, if it can.
    pub fn column_selection_up(&mut self)
        requires
            old(self).wf(),
        ensures
            final(self).wf(),
            final(self).column_selection_cursor == (if old(self).column_selection_cursor > 0 {
                old(self).column_selection_cursor - 1
            } else {
                0
            }),
            final(self).selected_columns == old(self).selected_columns,
            final(self).source() == old(self).source(),
            final(self).shown() == old(self).shown(),
    {
        if self.column_selection_cursor > 0 {
            self.column_selection_cursor = self.column_selection_cursor - 1;
        }
    }

    /// Moves the column cursor down, up to the last column.
    pub fn column_selection_down(&mut self)
        requires
            old(self).wf(),
        ensures
            final(self).wf(),
            final(self).column_selection_cursor == (if old(self).column_selection_cursor + 1
                < old(self).source().names.len() {
                old(self).column_selection_cursor + 1
            } else {
                old(self).column_selection_cursor as int
            }),
            final(self).selected_columns == old(self).selected_columns,
            final(self).source() == old(self).source(),
            final(self).shown() == old(self).shown(),
    {
        let max_cursor = self.data_source.columns().len().saturating_sub(1);
        if self.column_selection_cursor < max_cursor {
            self.column_selection_cursor = self.column_selection_cursor + 1;
        }
    }

    /// Shows or hides the column under the cursor: a chosen column leaves the
    /// choice, another joins it at the end.
    pub fn toggle_column_at_cursor(&mut self)
        requires
            old(self).wf(),
        ensures
            final(self).wf(),
            final(self).column_selection_cursor == old(self).column_selection_cursor,
            final(self).source() == old(self).source(),
            final(self).shown() == old(self).shown(),
            ({
                let c = old(self).column_selection_cursor as int;
                let names = old(self).source().names;
                if c >= names.len() || old(self).selected_columns is None {
                    final(self).selected_columns == old(self).selected_columns
                } else {
                    let before = strs(old(self).selected_columns->0@);
                    final(self).selected_columns matches Some(after) && strs(after@) == match position(
                        before,
                        names[c],
                    ) {
                        Some(p) => before.remove(p),
                        None => before.push(names[c]),
                    }
                }
            }),
    {
        let all_columns = self.data_source.columns();
        if self.column_selection_cursor >= all_columns.len() {
            return;
        }
        let column_name = &all_columns[self.column_selection_cursor];
        match self.selected_columns.take() {
            Some(mut selected) => {
                let ghost before = selected@;
                proof {
                    lemma_position(strs(before), column_name@);
                }
                match position_of(&selected, column_name) {
                    Some(pos) => {
                        selected.remove(pos);
                        assert(strs(selected@) =~= strs(before).remove(pos as int));
                    },
                    None => {
                        selected.push(column_name.clone());
                        assert(strs(selected@) =~= strs(before).push(column_name@));
                    },
                }
                self.selected_columns = Some(selected);
            },
            None => {},
        }
    }

    /// Shows every column again, from the first.
    pub fn reset_column_selection(&mut self)
        requires
            old(self).wf(),
        ensures
            final(self).wf(),
            final(self).selected_columns is None,
            final(self).column_offset == 0,
            final(self).source() == old(self).source(),
            final(self).shown() == old(self).shown(),
    {
        self.selected_columns = None;
        self.column_offset = 0;
    }

    /// Whether a column is shown.
    pub fn is_column_selected(&self, column_name: &str) -> (r: bool)
        ensures
            r == match self.selected_columns {
                None => true,
                Some(v) => strs(v@).contains(column_name@),
            },
    {
        match &self.selected_columns {
            None => true,
            Some(selected) => {
                let name = column_name.to_owned();
                let p = position_of(selected, &name);
                proof {
                    lemma_position(strs(selected@), name@);
                    if p is None && strs(selected@).contains(name@) {
                        let j = choose|j: int| 0 <= j < strs(selected@).len() && strs(selected@)[j] == name@;
                        assert(strs(selected@)[j] == name@);
                    }
                }
                p.is_some()
            },
        }
    }

    /// Every column name of the loaded table, in order.
    pub fn all_columns(&self) -> (r: Vec<String>)
        ensures
            strs(r@) == self.source().names,
    {
        self.data_source.columns()
    }
}

/// The split of `p` at the first `sep` into a trimmed column and value,
/// where that column is among `names`.
pub open spec fn split_at_sep(p: Seq<char>, sep: char, names: Seq<Seq<char>>) -> Option<
    (Seq<char>, Seq<char>),
> {
    match find_first(p, seq![sep], false) {
        Some(k) => {
            let col = trim_ws(p.subrange(0, k));
            if names.contains(col) {
                Some((col, trim_ws(p.subrange(k + 1, p.len() as int))))
            } else {
                None
            }
        },
        None => None,
    }
}

/// A plain pattern as column and value: split at `:` first, then at `=`.
pub open spec fn pattern_split(p: Seq<char>, names: Seq<Seq<char>>) -> (Option<Seq<char>>, Seq<char>) {
    match split_at_sep(p, ':', names) {
        Some((c, v)) => (Some(c), v),
        None => match split_at_sep(p, '=', names) {
            Some((c, v)) => (Some(c), v),
            None => (None, p),
        },
    }
}

fn split_on(pattern: &str, pc: &Vec<char>, sep: char, names: &Vec<String>) -> (r: Option<
    (Option<String>, String),
>)
    requires
        pc@ == pattern@,
    ensures
        match split_at_sep(pattern@, sep, strs(names@)) {
            Some((c, v)) => r matches Some((Some(s), t)) && s@ == c && t@ == v,
            None => r is None,
        },
{
    let sv = vec![sep];
    assert(sv@ =~= seq![sep]);
    let found = find(pc, &sv, false, 0);
    proof {
        lemma_find_from(pattern@, seq![sep], false, 0);
    }
    let k = match found {
        Some(k) => k,
        None => return None,
    };
    let n = pc.len();
    let (a, b) = trim_range(pc, 0, k, None);
    let (c, d) = trim_range(pc, k + 1, n, None);
    let col = pattern.substring_char(a, b).to_owned();
    let val = pattern.substring_char(c, d).to_owned();
    proof {
        lemma_position(strs(names@), col@);
    }
    match position_of(names, &col) {
        Some(_) => Some((Some(col), val)),
        None => {
            proof {
                if strs(names@).contains(col@) {
                    let j = choose|j: int| 0 <= j < strs(names@).len() && strs(names@)[j] == col@;
                    assert(strs(names@)[j] == col@);
                }
            }
            None
        },
    }
}

/// The page bounds that `page_bounds` computes.
pub open spec fn page_bounds_spec(offset: int, limit: int, total: int) -> (int, int) {
    let end = if offset + limit < total {
        offset + limit
    } else {
        total
    };
    (if offset < end {
        offset
    } else {
        end
    }, end)
}

/// A key press, as the viewer tells keys apart.
#[derive(Clone, Copy, Debug, PartialEq, Eq, Structural)]
pub enum Key {
    Char(char),
    Up,
    Down,
    Left,
    Right,
    PageUp,
    PageDown,
    Home,
    End,
    Enter,
    Esc,
    Backspace,
    Delete,
    Other,
}

/// What the viewer does in answer to a key.
#[derive(Clone, Copy, Debug, PartialEq, Eq, Structural)]
pub enum Action {
    Nothing,
    Quit,
    EnterFilterMode,
    ExitFilterMode,
    ApplyFilterAndExit,
    ClearFilter,
    PushFilterChar(char),
    PopFilterChar,
    DeleteFilterChar,
    FilterCursorLeft,
    FilterCursorRight,
    FilterCursorHome,
    FilterCursorEnd,
    ScrollDownOne,
    ScrollUpOne,
    ScrollLeft,
    ScrollRight,
    ScrollDown,
    ScrollUp,
    ScrollToTop,
    ScrollToBottom,
    ToggleLineNumbers,
    EnterColumnSelection,
    ExitColumnSelection,
    ColumnSelectionUp,
    ColumnSelectionDown,
    ToggleColumn,
    ResetColumns,
}

/// The action for a key: column choice first, then filter editing, then
/// browsing; `ctrl` tells whether the control modifier was held.
pub open spec fn action_spec(column_mode: bool, filter_mode: bool, key: Key, ctrl: bool) -> Action {
    if column_mode {
        match key {
            Key::Up | Key::Char('k') => Action::ColumnSelectionUp,
            Key::Down | Key::Char('j') => Action::ColumnSelectionDown,
            Key::Char(' ') => Action::ToggleColumn,
            Key::Char('a') | Key::Char('A') => Action::ResetColumns,
            Key::Enter | Key::Esc => Action::ExitColumnSelection,
            _ => Action::Nothing,
        }
    } else if filter_mode {
        match key {
            Key::Char(c) => Action::PushFilterChar(c),
            Key::Backspace => Action::PopFilterChar,
            Key::Delete => Action::DeleteFilterChar,
            Key::Left => Action::FilterCursorLeft,
            Key::Right => Action::FilterCursorRight,
            Key::Home => Action::FilterCursorHome,
            Key::End => Action::FilterCursorEnd,
            Key::Enter => Action::ApplyFilterAndExit,
            Key::Esc => Action::ExitFilterMode,
            _ => Action::Nothing,
        }
    } else {
        match key {
            Key::Char('q') | Key::Char('Q') => Action::Quit,
            Key::Char('c') if ctrl => Action::Quit,
            Key::Char('/') => Action::EnterFilterMode,
            Key::Esc => Action::ClearFilter,
            Key::Down | Key::Char('j') => Action::ScrollDownOne,
            Key::Up | Key::Char('k') => Action::ScrollUpOne,
            Key::Left | Key::Char('h') => Action::ScrollLeft,
            Key::Right | Key::Char('l') => Action::ScrollRight,
            Key::PageDown => Action::ScrollDown,
            Key::PageUp => Action::ScrollUp,
            Key::Home | Key::Char('g') => Action::ScrollToTop,
            Key::End | Key::Char('G') => Action::ScrollToBottom,
            Key::Char('n') | Key::Char('N') => Action::ToggleLineNumbers,
            Key::Char('c') | Key::Char('C') => Action::EnterColumnSelection,
            _ => Action::Nothing,
        }
    }
}

/// The action for a key in the given modes.
pub fn action_for(column_mode: bool, filter_mode: bool, key: Key, ctrl: bool) -> (r: Action)
    ensures
        r == action_spec(column_mode, filter_mode, key, ctrl),
{
    if column_mode {
        match key {
            Key::Up | Key::Char('k') => Action::ColumnSelectionUp,
            Key::Down | Key::Char('j') => Action::ColumnSelectionDown,
            Key::Char(' ') => Action::ToggleColumn,
            Key::Char('a') | Key::Char('A') => Action::ResetColumns,
            Key::Enter | Key::Esc => Action::ExitColumnSelection,
            _ => Action::Nothing,
        }
    } else if filter_mode {
        match key {
            Key::Char(c) => Action::PushFilterChar(c),
            Key::Backspace => Action::PopFilterChar,
            Key::Delete => Action::DeleteFilterChar,
            Key::Left => Action::FilterCursorLeft,
            Key::Right => Action::FilterCursorRight,
            Key::Home => Action::FilterCursorHome,
            Key::End => Action::FilterCursorEnd,
            Key::Enter => Action::ApplyFilterAndExit,
            Key::Esc => Action::ExitFilterMode,
            _ => Action::Nothing,
        }
    } else {
        match key {
            Key::Char('q') | Key::Char('Q') => Action::Quit,
            Key::Char('c') if ctrl => Action::Quit,
            Key::Char('/') => Action::EnterFilterMode,
            Key::Esc => Action::ClearFilter,
            Key::Down | Key::Char('j') => Action::ScrollDownOne,
            Key::Up | Key::Char('k') => Action::ScrollUpOne,
            Key::Left | Key::Char('h') => Action::ScrollLeft,
            Key::Right | Key::Char('l') => Action::ScrollRight,
            Key::PageDown => Action::ScrollDown,
            Key::PageUp => Action::ScrollUp,
            Key::Home | Key::Char('g') => Action::ScrollToTop,
            Key::End | Key::Char('G') => Action::ScrollToBottom,
            Key::Char('n') | Key::Char('N') => Action::ToggleLineNumbers,
            Key::Char('c') | Key::Char('C') => Action::EnterColumnSelection,
            _ => Action::Nothing,
        }
    }
}

impl App {
    /// Answers a key press: picks the action for the current mode and
    /// performs it, and says which it was.
    pub fn handle_key<F: Fn(&str) -> Option<Double>>(&mut self, key: Key, ctrl: bool, read_number: &F) -> (r:
        Action)
        requires
            old(self).wf(),
            forall|s: &str| read_number.requires((s,)),
        ensures
            final(self).wf(),
            final(self).source() == old(self).source(),
            r == action_spec(old(self).column_selection_mode, old(self).filter_mode, key, ctrl),
            r == Action::Quit ==> final(self).should_quit,
            r == Action::EnterFilterMode ==> final(self).filter_mode,
            r == Action::ExitFilterMode || r == Action::ApplyFilterAndExit ==> !final(self).filter_mode,
            r == Action::EnterColumnSelection ==> final(self).column_selection_mode,
            r == Action::ExitColumnSelection ==> !final(self).column_selection_mode,
            r matches Action::PushFilterChar(c) ==> final(self).filter_pattern@ == old(
                self,
            ).filter_pattern@.insert(old(self).filter_cursor as int, c),
            r == Action::Nothing ==> *final(self) == *old(self),
    {
        let a = action_for(self.column_selection_mode, self.filter_mode, key, ctrl);
        match a {
            Action::Nothing => {},
            Action::Quit => self.quit(),
            Action::EnterFilterMode => self.enter_filter_mode(),
            Action::ExitFilterMode => self.exit_filter_mode(),
            Action::ApplyFilterAndExit => {
                self.apply_filter(read_number);
                self.exit_filter_mode();
            },
            Action::ClearFilter => self.clear_filter(read_number),
            Action::PushFilterChar(c) => self.push_filter_char(c),
            Action::PopFilterChar => self.pop_filter_char(),
            Action::DeleteFilterChar => self.delete_filter_char(),
            Action::FilterCursorLeft => self.filter_cursor_left(),
            Action::FilterCursorRight => self.filter_cursor_right(),
            Action::FilterCursorHome => self.filter_cursor_home(),
            Action::FilterCursorEnd => self.filter_cursor_end(),
            Action::ScrollDownOne => self.scroll_down_one(),
            Action::ScrollUpOne => self.scroll_up_one(),
            Action::ScrollLeft => self.scroll_left(),
            Action::ScrollRight => self.scroll_right(),
            Action::ScrollDown => self.scroll_down(),
            Action::ScrollUp => self.scroll_up(),
            Action::ScrollToTop => self.scroll_to_top(),
            Action::ScrollToBottom => self.scroll_to_bottom(),
            Action::ToggleLineNumbers => self.toggle_line_numbers(),
            Action::EnterColumnSelection => self.enter_column_selection_mode(),
            Action::ExitColumnSelection => self.exit_column_selection_mode(),
            Action::ColumnSelectionUp => self.column_selection_up(),
            Action::ColumnSelectionDown => self.column_selection_down(),
            Action::ToggleColumn => self.toggle_column_at_cursor(),
            Action::ResetColumns => self.reset_column_selection(),
        }
        a
    }
}

/// What applying the expression `e` to the loaded table leaves in the viewer:
/// the selected rows from the first, or the error and the former rows.
pub open spec fn filter_applied(e: ExprModel, a: App, b: App) -> bool {
    match eval_spec(e, a.source()) {
        Ok(m) => b.error is None && b.shown() == a.source().select(m) && b.scroll_offset == 0,
        Err(x) => b.error == Some(FilterError::Eval(x)) && b.shown() == a.shown() && b.scroll_offset
            == a.scroll_offset,
    }
}

/// Scrolling changes the row offset and nothing that the filter decides.
pub open spec fn unchanged_but_scroll(a: App, b: App) -> bool {
    &&& b.source() == a.source()
    &&& b.shown() == a.shown()
    &&& b.page_size == a.page_size
    &&& b.column_offset == a.column_offset
    &&& b.filter_pattern == a.filter_pattern
    &&& b.filter_cursor == a.filter_cursor
}

} // verus!
