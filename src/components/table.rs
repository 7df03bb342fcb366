//! A table of text cells in columns, with or without borders.
use crate::layout::{clamped, display_width, pad, padded, width};
use crate::strings::{char_string, minus, owned, push_repeated, repeated, views};
use vstd::prelude::*;

verus! {

/// A table: optional headers, rows of cells, optional borders, and column
/// widths that are either given or derived from the cells.
///
/// The number of columns is the number of headers, or without headers the
/// length of the first row. Every row is drawn with exactly that many
/// cells: a short row gets empty cells, a long row loses its extra ones.
/// A column without a given width is two columns wider than its widest
/// cell or header.
pub struct Table {
    headers: Option<Vec<String>>,
    rows: Vec<Vec<String>>,
    bordered: bool,
    widths: Option<Vec<usize>>,
}

/// The settings of a `Table`.
pub struct TableModel {
    pub headers: Option<Seq<Seq<char>>>,
    pub rows: Seq<Seq<Seq<char>>>,
    pub bordered: bool,
    pub widths: Option<Seq<usize>>,
}

pub open spec fn row_views(rows: Seq<Vec<String>>) -> Seq<Seq<Seq<char>>> {
    rows.map_values(|r: Vec<String>| views(r@))
}

pub open spec fn str_views(cells: Seq<&str>) -> Seq<Seq<char>> {
    cells.map_values(|c: &str| c@)
}

impl View for Table {
    type V = TableModel;

    closed spec fn view(&self) -> TableModel {
        TableModel {
            headers: match self.headers {
                Some(h) => Some(views(h@)),
                None => None,
            },
            rows: row_views(self.rows@),
            bordered: self.bordered,
            widths: match self.widths {
                Some(w) => Some(w@),
                None => None,
            },
        }
    }
}

/// The number of columns.
pub open spec fn col_count(m: TableModel) -> nat {
    match m.headers {
        Some(h) => h.len(),
        None => if m.rows.len() > 0 {
            m.rows[0].len()
        } else {
            0
        },
    }
}

/// Cell `i` of a row; empty past the row's end.
pub open spec fn cell(r: Seq<Seq<char>>, i: int) -> Seq<char> {
    if 0 <= i < r.len() {
        r[i]
    } else {
        Seq::empty()
    }
}

pub open spec fn cell_width(r: Seq<Seq<char>>, i: int) -> usize {
    clamped(display_width(cell(r, i)))
}

pub open spec fn max_usize(a: usize, b: usize) -> usize {
    if a >= b {
        a
    } else {
        b
    }
}

/// The widest cell `i` among `rows`.
pub open spec fn rows_max(rows: Seq<Seq<Seq<char>>>, i: int) -> usize
    decreases rows.len(),
{
    if rows.len() == 0 {
        0
    } else {
        max_usize(rows_max(rows.drop_last(), i), cell_width(rows.last(), i))
    }
}

/// The widest cell or header of column `i`.
pub open spec fn content_width(m: TableModel, i: int) -> usize {
    let h = match m.headers {
        Some(h) => cell_width(h, i),
        None => 0,
    };
    max_usize(h, rows_max(m.rows, i))
}

/// The width of column `i`: the given one, else two more than its widest
/// cell or header.
pub open spec fn column_width(m: TableModel, i: int) -> usize {
    match m.widths {
        Some(ws) if 0 <= i < ws.len() => ws[i],
        _ => if content_width(m, i) <= usize::MAX - 2 {
            (content_width(m, i) + 2) as usize
        } else {
            usize::MAX
        },
    }
}

/// Cell `i` as drawn: a space, the cell padded to the column width less
/// two, a space, then `|` with borders or a space between cells without.
pub open spec fn cell_text(m: TableModel, r: Seq<Seq<char>>, i: int) -> Seq<char> {
    seq![' '] + padded(cell(r, i), minus(column_width(m, i), 2) as nat) + seq![' '] + if m.bordered {
        seq!['|']
    } else if i + 1 < col_count(m) {
        seq![' ']
    } else {
        Seq::empty()
    }
}

/// The first `k` cells of a row as drawn.
pub open spec fn cells_text(m: TableModel, r: Seq<Seq<char>>, k: nat) -> Seq<char>
    decreases k,
{
    if k == 0 {
        Seq::empty()
    } else {
        cells_text(m, r, (k - 1) as nat) + cell_text(m, r, k - 1)
    }
}

/// A row as drawn: `|` first with borders, then every cell.
pub open spec fn row_text(m: TableModel, r: Seq<Seq<char>>) -> Seq<char> {
    (if m.bordered {
        seq!['|']
    } else {
        Seq::empty()
    }) + cells_text(m, r, col_count(m))
}

/// The first `k` columns of a border: dashes as wide as the column, then `+`.
pub open spec fn border_cells(m: TableModel, k: nat) -> Seq<char>
    decreases k,
{
    if k == 0 {
        Seq::empty()
    } else {
        border_cells(m, (k - 1) as nat) + repeated('-', column_width(m, k - 1) as nat) + seq!['+']
    }
}

/// A border line.
pub open spec fn border_text(m: TableModel) -> Seq<char> {
    seq!['+'] + border_cells(m, col_count(m))
}

/// The rendered table. With headers: a border, the header row, a border
/// (the borders only for a bordered table). Then one line per row, and a
/// closing border for a bordered table.
pub open spec fn table_lines(m: TableModel) -> Seq<Seq<char>> {
    let b: Seq<Seq<char>> = if m.bordered {
        seq![border_text(m)]
    } else {
        Seq::empty()
    };
    let head: Seq<Seq<char>> = match m.headers {
        Some(h) => b + seq![row_text(m, h)] + b,
        None => Seq::empty(),
    };
    head + m.rows.map_values(|r: Seq<Seq<char>>| row_text(m, r)) + b
}

/// Copies of the given cells.
fn owned_cells(cells: &[&str]) -> (r: Vec<String>)
    ensures
        views(r@) == str_views(cells@),
{
    let mut r: Vec<String> = Vec::new();
    let mut i: usize = 0;
    while i < cells.len()
        invariant
            i <= cells.len(),
            views(r@) == str_views(cells@).subrange(0, i as int),
        decreases cells.len() - i,
    {
        let ghost prev = views(r@);
        r.push(owned(cells[i]));
        assert(views(r@) =~= prev.push(cells@[i as int]@));
        assert(str_views(cells@).subrange(0, i + 1) =~= str_views(cells@).subrange(0, i as int).push(
            cells@[i as int]@,
        ));
        i += 1;
    }
    assert(str_views(cells@).subrange(0, i as int) =~= str_views(cells@));
    r
}

/// The display width of cell `i` of `r`.
fn cell_columns(r: &Vec<String>, i: usize) -> (w: usize)
    ensures
        w == cell_width(views(r@), i as int),
{
    if i < r.len() {
        width(r[i].as_str())
    } else {
        let empty = String::new();
        assert(cell(views(r@), i as int) =~= empty@);
        width(empty.as_str())
    }
}

impl Table {
    /// An empty bordered table with derived column widths.
    pub fn new() -> (r: Self)
        ensures
            r@ == (TableModel {
                headers: None,
                rows: Seq::empty(),
                bordered: true,
                widths: None,
            }),
    {
        let r = Table { headers: None, rows: Vec::new(), bordered: true, widths: None };
        assert(r@.rows =~= Seq::<Seq<Seq<char>>>::empty());
        r
    }

    /// Sets the headers; their number is the number of columns.
    pub fn headers(self, headers: &[&str]) -> (r: Self)
        ensures
            r@ == (TableModel { headers: Some(str_views(headers@)), ..self@ }),
    {
        Table { headers: Some(owned_cells(headers)), ..self }
    }

    /// Adds a row below the others.
    pub fn row(self, row: &[&str]) -> (r: Self)
        ensures
            r@ == (TableModel { rows: self@.rows.push(str_views(row@)), ..self@ }),
    {
        let mut rows = self.rows;
        let ghost prev = rows@;
        rows.push(owned_cells(row));
        assert(row_views(rows@) =~= row_views(prev).push(str_views(row@)));
        Table { rows, ..self }
    }

    /// Sets whether borders are drawn.
    pub fn bordered(self, bordered: bool) -> (r: Self)
        ensures
            r@ == (TableModel { bordered, ..self@ }),
    {
        Table { bordered, ..self }
    }

    /// Sets the column widths, borders' padding included.
    pub fn widths(self, widths: &[usize]) -> (r: Self)
        ensures
            r@ == (TableModel { widths: Some(widths@), ..self@ }),
    {
        Table { widths: Some(vstd::slice::slice_to_vec(widths)), ..self }
    }

    fn column_count(&self) -> (n: usize)
        ensures
            n == col_count(self@),
    {
        match &self.headers {
            Some(h) => h.len(),
            None => if self.rows.len() > 0 {
                self.rows[0].len()
            } else {
                0
            },
        }
    }

    /// The width of column `i`.
    fn column_width(&self, i: usize) -> (w: usize)
        ensures
            w == column_width(self@, i as int),
    {
        if let Some(ws) = &self.widths {
            if i < ws.len() {
                return ws[i];
            }
        }
        let mut most: usize = match &self.headers {
            Some(h) => cell_columns(h, i),
            None => 0,
        };
        let ghost hw = most;
        let ghost rv = self@.rows;
        let mut j: usize = 0;
        while j < self.rows.len()
            invariant
                j <= self.rows.len(),
                rv == self@.rows,
                rv.len() == self.rows@.len(),
                forall|k: int| 0 <= k < rv.len() ==> rv[k] == views((#[trigger] self.rows@[k])@),
                most == max_usize(hw, rows_max(rv.subrange(0, j as int), i as int)),
            decreases self.rows.len() - j,
        {
            let c = cell_columns(&self.rows[j], i);
            assert(rv.subrange(0, j + 1).drop_last() == rv.subrange(0, j as int));
            if c > most {
                most = c;
            }
            j += 1;
        }
        assert(rv.subrange(0, j as int) == rv);
        most.saturating_add(2)
    }

    /// The widths of all columns.
    fn column_widths(&self) -> (ws: Vec<usize>)
        ensures
            ws@.len() == col_count(self@),
            forall|i: int| 0 <= i < ws@.len() ==> #[trigger] ws@[i] == column_width(self@, i),
    {
        let n = self.column_count();
        let mut ws: Vec<usize> = Vec::new();
        let mut i: usize = 0;
        while i < n
            invariant
                n == col_count(self@),
                i <= n,
                ws@.len() == i,
                forall|k: int| 0 <= k < i ==> #[trigger] ws@[k] == column_width(self@, k),
            decreases n - i,
        {
            ws.push(self.column_width(i));
            i += 1;
        }
        ws
    }

    /// A border line.
    fn border(&self, ws: &Vec<usize>) -> (r: String)
        requires
            ws@.len() == col_count(self@),
            forall|i: int| 0 <= i < ws@.len() ==> #[trigger] ws@[i] == column_width(self@, i),
        ensures
            r@ == border_text(self@),
    {
        let mut r = char_string('+');
        let mut i: usize = 0;
        while i < ws.len()
            invariant
                ws@.len() == col_count(self@),
                forall|k: int| 0 <= k < ws@.len() ==> #[trigger] ws@[k] == column_width(self@, k),
                i <= ws.len(),
                r@ == seq!['+'] + border_cells(self@, i as nat),
            decreases ws.len() - i,
        {
            push_repeated(&mut r, '-', ws[i]);
            let plus = char_string('+');
            r.append(plus.as_str());
            i += 1;
            assert(r@ =~= seq!['+'] + border_cells(self@, i as nat));
        }
        r
    }

    /// A row as drawn.
    fn row_line(&self, ws: &Vec<usize>, cells: &Vec<String>) -> (r: String)
        requires
            ws@.len() == col_count(self@),
            forall|i: int| 0 <= i < ws@.len() ==> #[trigger] ws@[i] == column_width(self@, i),
        ensures
            r@ == row_text(self@, views(cells@)),
    {
        let ghost cv = views(cells@);
        let n = ws.len();
        let mut r = if self.bordered {
            char_string('|')
        } else {
            String::new()
        };
        let ghost lead = r@;
        let mut i: usize = 0;
        while i < n
            invariant
                n == ws@.len(),
                ws@.len() == col_count(self@),
                forall|k: int| 0 <= k < ws@.len() ==> #[trigger] ws@[k] == column_width(self@, k),
                cv == views(cells@),
                lead == (if self@.bordered {
                    seq!['|']
                } else {
                    Seq::<char>::empty()
                }),
                i <= n,
                r@ == lead + cells_text(self@, cv, i as nat),
            decreases n - i,
        {
            let inner = ws[i].saturating_sub(2);
            assert(inner == minus(column_width(self@, i as int), 2));
            let text = if i < cells.len() {
                pad(cells[i].as_str(), inner)
            } else {
                let empty = String::new();
                assert(cell(cv, i as int) =~= empty@);
                pad(empty.as_str(), inner)
            };
            assert(text@ == padded(cell(cv, i as int), inner as nat));
            let ghost before = r@;
            let space = char_string(' ');
            r.append(space.as_str());
            r.append(text.as_str());
            r.append(space.as_str());
            if self.bordered {
                let bar = char_string('|');
                r.append(bar.as_str());
            } else if i + 1 < n {
                r.append(space.as_str());
            }
            assert(r@ =~= before + cell_text(self@, cv, i as int));
            i += 1;
            assert(r@ =~= lead + cells_text(self@, cv, i as nat));
        }
        r
    }

    /// The lines of the table, top to bottom.
    pub fn render(&self) -> (r: Vec<String>)
        ensures
            views(r@) == table_lines(self@),
    {
        let ghost m = self@;
        let ws = self.column_widths();
        let ghost b: Seq<Seq<char>> = if m.bordered {
            seq![border_text(m)]
        } else {
            Seq::empty()
        };
        let mut out: Vec<String> = Vec::new();
        if let Some(h) = &self.headers {
            if self.bordered {
                out.push(self.border(&ws));
            }
            out.push(self.row_line(&ws, h));
            if self.bordered {
                out.push(self.border(&ws));
            }
            assert(views(out@) =~= b + seq![row_text(m, views(h@))] + b);
        } else {
            assert(views(out@) =~= Seq::<Seq<char>>::empty());
        }
        let ghost head = views(out@);
        let ghost body = m.rows.map_values(|r: Seq<Seq<char>>| row_text(m, r));
        let mut j: usize = 0;
        while j < self.rows.len()
            invariant
                m == self@,
                ws@.len() == col_count(m),
                forall|k: int| 0 <= k < ws@.len() ==> #[trigger] ws@[k] == column_width(m, k),
                body == m.rows.map_values(|r: Seq<Seq<char>>| row_text(m, r)),
                j <= self.rows.len(),
                views(out@) == head + body.subrange(0, j as int),
            decreases self.rows.len() - j,
        {
            let line = self.row_line(&ws, &self.rows[j]);
            let ghost prev = views(out@);
            out.push(line);
            assert(views(out@) =~= prev.push(line@));
            assert(body.subrange(0, j + 1) =~= body.subrange(0, j as int).push(body[j as int]));
            j += 1;
        }
        assert(body.subrange(0, j as int) =~= body);
        if self.bordered {
            let ghost prev = views(out@);
            let last = self.border(&ws);
            out.push(last);
            assert(views(out@) =~= prev.push(last@));
        }
        assert(views(out@) =~= table_lines(m));
        out
    }
}

} // verus!
