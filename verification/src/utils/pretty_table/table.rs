//! The table itself: its content, its column widths, and its lines.
use colored::Color;
use vstd::prelude::*;

use super::cell;
use super::cell::{fit_cell, pad_cell, wrap_cell};
use super::style;
use super::style::frame_style::FrameStyleView;
use super::style::header_style::HeaderStyleView;
use super::style::text_style::TextStyleView;
use super::style::{
    print_with_style, FrameCorner, FrameLine, FrameStyle, HeaderStyle, TextAlignment, TextStyle,
};

verus! {

/// Smallest width the flex column is allowed to shrink to, so a truncated cell
/// can still show a few characters plus the `...` marker.
pub const MIN_FLEX_WIDTH: usize = 8;

pub struct Table {
    frame_style: FrameStyle,
    header_style: HeaderStyle,
    text_style: TextStyle,
    header: Vec<String>,
    rows: Vec<Vec<String>>,
    /// Cap the rendered table at this total width (e.g. the terminal width);
    /// the `flex_column` is shrunk to fit, then either truncated or wrapped.
    max_width: Option<usize>,
    /// Index of the column allowed to shrink when `max_width` would be exceeded.
    flex_column: Option<usize>,
    /// When set, the `flex_column`'s overflowing cells are wrapped onto multiple
    /// lines instead of truncated with `...`.
    wrap: bool,
    /// Columns whose cells stand at the right.
    right_aligned: Vec<usize>,
}

/// A table, as a mathematical value.
#[verifier::ext_equal]
pub struct TableView {
    pub frame_style: FrameStyleView,
    pub header_style: HeaderStyleView,
    pub text_style: TextStyleView,
    pub header: Seq<Seq<char>>,
    pub rows: Seq<Seq<Seq<char>>>,
    pub max_width: Option<usize>,
    pub flex_column: Option<usize>,
    pub wrap: bool,
    pub right_aligned: Seq<usize>,
}

impl Table {
    pub closed spec fn contents(&self) -> TableView {
        TableView {
            frame_style: self.frame_style@,
            header_style: self.header_style@,
            text_style: self.text_style@,
            header: self.header.deep_view(),
            rows: self.rows.deep_view(),
            max_width: self.max_width,
            flex_column: self.flex_column,
            wrap: self.wrap,
            right_aligned: self.right_aligned@,
        }
    }
}

impl View for Table {
    type V = TableView;

    open spec fn view(&self) -> TableView {
        self.contents()
    }
}

// ---------------------------------------------------------------------------
// Content
// ---------------------------------------------------------------------------

/// The texts of a list of string slices.
pub open spec fn slice_texts(v: Seq<&str>) -> Seq<Seq<char>> {
    v.map_values(|s: &str| s@)
}

impl TableView {
    /// Rounded corners, a dark frame, a header that stands out, and cells as
    /// they are.
    pub open spec fn has_default_look(self) -> bool {
        &&& self.frame_style.corner == FrameCorner::Rounded
        &&& self.frame_style.line == FrameLine::Normal
        &&& self.frame_style.fgcolor == Some(Color::BrightBlack)
        &&& style::plain(None, self.frame_style.bgcolor, self.frame_style.style)
        &&& self.header_style.fgcolor == Some(Color::BrightMagenta)
        &&& style::plain(None, self.header_style.bgcolor, self.header_style.style)
        &&& style::plain(self.text_style.fgcolor, self.text_style.bgcolor, self.text_style.style)
    }
}

impl Table {
    pub fn new() -> (t: Table)
        ensures
            t@.header == Seq::<Seq<char>>::empty(),
            t@.rows == Seq::<Seq<Seq<char>>>::empty(),
            t@.max_width is None,
            t@.flex_column is None,
            !t@.wrap,
            t@.right_aligned == Seq::<usize>::empty(),
            t@.has_default_look(),
    {
        let mut frame_style = FrameStyle::default();
        let _ = frame_style.set_color(Color::BrightBlack);
        let mut header_style = HeaderStyle::default();
        let _ = header_style.set_color(Color::BrightMagenta);
        let t = Table {
            frame_style,
            header_style,
            text_style: TextStyle::default(),
            header: Vec::new(),
            rows: Vec::new(),
            max_width: None,
            flex_column: None,
            wrap: false,
            right_aligned: Vec::new(),
        };
        assert(t@.header =~= Seq::<Seq<char>>::empty());
        assert(t@.rows =~= Seq::<Seq<Seq<char>>>::empty());
        t
    }

    /// Constrain the table to `width` columns, truncating `column`'s cells with
    /// `...` when the natural layout would be wider.
    pub fn fit_to_width(&mut self, width: usize, column: usize) -> (r: &mut Self)
        ensures
            r@ == (TableView {
                max_width: Some(width),
                flex_column: Some(column),
                wrap: false,
                ..old(self)@
            }),
            *final(self) == *final(r),
    {
        self.max_width = Some(width);
        self.flex_column = Some(column);
        self.wrap = false;
        self
    }

    /// Constrain the table to `width` columns, wrapping `column`'s cells onto
    /// multiple lines (a cell becomes several rows of text) when the natural
    /// layout would be wider.
    pub fn wrap_to_width(&mut self, width: usize, column: usize) -> (r: &mut Self)
        ensures
            r@ == (TableView {
                max_width: Some(width),
                flex_column: Some(column),
                wrap: true,
                ..old(self)@
            }),
            *final(self) == *final(r),
    {
        self.max_width = Some(width);
        self.flex_column = Some(column);
        self.wrap = true;
        self
    }

    /// Put the cells of a column at the right.
    pub fn right_align_column(&mut self, column: usize) -> (r: &mut Self)
        ensures
            r@ == (TableView {
                right_aligned: old(self)@.right_aligned.push(column),
                ..old(self)@
            }),
            *final(self) == *final(r),
    {
        self.right_aligned.push(column);
        self
    }

    pub fn set_header(&mut self, header: Vec<&str>) -> (r: &mut Self)
        ensures
            r@ == (TableView { header: slice_texts(header@), ..old(self)@ }),
            *final(self) == *final(r),
    {
        let mut out: Vec<String> = Vec::new();
        for i in 0..header.len()
            invariant
                out@.len() == i,
                forall|k: int| 0 <= k < i ==> (#[trigger] out@[k])@ == header@[k]@,
        {
            out.push(header[i].to_owned());
        }
        assert(out.deep_view() =~= slice_texts(header@));
        self.header = out;
        self
    }

    pub fn add_row(&mut self, row: Vec<String>) -> (r: &mut Self)
        ensures
            r@ == (TableView { rows: old(self)@.rows.push(row.deep_view()), ..old(self)@ }),
            *final(self) == *final(r),
    {
        let ghost before = self.rows.deep_view();
        self.rows.push(row);
        assert(self.rows.deep_view() =~= before.push(row.deep_view()));
        self
    }

    pub fn add_rows(&mut self, rows: Vec<Vec<String>>) -> (r: &mut Self)
        ensures
            r@ == (TableView { rows: old(self)@.rows + rows.deep_view(), ..old(self)@ }),
            *final(self) == *final(r),
    {
        let mut rows = rows;
        let ghost before = self.rows.deep_view();
        let ghost added = rows.deep_view();
        self.rows.append(&mut rows);
        assert(self.rows.deep_view() =~= before + added);
        self
    }

    /// Adds the row that `row` makes if `predicate` says so; both are told how
    /// many rows there are.
    pub fn add_row_if<P: FnOnce(usize) -> bool, R: FnOnce(usize) -> Vec<String>>(
        &mut self,
        predicate: P,
        row: R,
    ) -> (r: &mut Self)
        requires
            forall|n: usize| n == old(self)@.rows.len() ==> predicate.requires((n,)),
            forall|n: usize| n == old(self)@.rows.len() ==> row.requires((n,)),
        ensures
            exists|n: usize, wanted: bool|
                n == old(self)@.rows.len() && #[trigger] predicate.ensures((n,), wanted) && if wanted {
                    exists|cells: Vec<String>| #[trigger]
                        row.ensures((n,), cells) && r@ == (TableView {
                            rows: old(self)@.rows.push(cells.deep_view()),
                            ..old(self)@
                        })
                } else {
                    r@ == old(self)@
                },
            *final(self) == *final(r),
    {
        let n: usize = self.rows.len();
        if predicate(n) {
            let cells = row(n);
            let ghost before = self.rows.deep_view();
            self.rows.push(cells);
            assert(self.rows.deep_view() =~= before.push(cells.deep_view()));
        }
        self
    }

    pub fn set_frame_style(&mut self, style: FrameStyle) -> (r: &mut Self)
        ensures
            r@ == (TableView { frame_style: style@, ..old(self)@ }),
            *final(self) == *final(r),
    {
        self.frame_style = style;
        self
    }

    pub fn set_header_style(&mut self, style: HeaderStyle) -> (r: &mut Self)
        ensures
            r@ == (TableView { header_style: style@, ..old(self)@ }),
            *final(self) == *final(r),
    {
        self.header_style = style;
        self
    }

    pub fn set_text_style(&mut self, style: TextStyle) -> (r: &mut Self)
        ensures
            r@ == (TableView { text_style: style@, ..old(self)@ }),
            *final(self) == *final(r),
    {
        self.text_style = style;
        self
    }

    pub fn set_frame_corner(&mut self, frame_corner: FrameCorner) -> (r: &mut Self)
        ensures
            r@ == (TableView {
                frame_style: old(self)@.frame_style.with_corner(frame_corner),
                ..old(self)@
            }),
            *final(self) == *final(r),
    {
        let _ = self.frame_style.set_frame_corner(frame_corner);
        self
    }

    pub fn set_frame_line(&mut self, frame_line: FrameLine) -> (r: &mut Self)
        ensures
            r@ == (TableView {
                frame_style: old(self)@.frame_style.with_line(frame_line),
                ..old(self)@
            }),
            *final(self) == *final(r),
    {
        let _ = self.frame_style.set_frame_line(frame_line);
        self
    }

    /// The cells of a column, from the first row to the last; `None` while
    /// there are no rows.
    pub fn column(&self, index: usize) -> (r: Option<Vec<&str>>)
        requires
            forall|i: int| 0 <= i < self@.rows.len() ==> index < (#[trigger] self@.rows[i]).len(),
        ensures
            match r {
                None => self@.rows.len() == 0,
                Some(cells) => self@.rows.len() > 0 && slice_texts(cells@)
                    == self@.column_texts(index as int),
            },
    {
        if self.rows.len() == 0 {
            return None;
        }
        let mut cells: Vec<&str> = Vec::new();
        for i in 0..self.rows.len()
            invariant
                forall|i: int|
                    0 <= i < self@.rows.len() ==> index < (#[trigger] self@.rows[i]).len(),
                cells@.len() == i,
                forall|k: int|
                    0 <= k < i ==> (#[trigger] cells@[k])@ == self@.rows[k][index as int],
        {
            assert(self@.rows[i as int] == self.rows@[i as int].deep_view());
            cells.push(self.rows[i][index].as_str());
        }
        assert(slice_texts(cells@) =~= self@.column_texts(index as int));
        Some(cells)
    }

    /// How many columns the table has: as many as its first row has cells.
    pub fn n_columns(&self) -> (r: Option<usize>)
        ensures
            match r {
                None => self@.rows.len() == 0,
                Some(n) => self@.rows.len() > 0 && n == self@.columns(),
            },
    {
        if self.rows.len() == 0 {
            None
        } else {
            assert(self@.rows[0] == self.rows@[0].deep_view());
            Some(self.rows[0].len())
        }
    }
}

impl TableView {
    /// The cells of a column.
    pub open spec fn column_texts(self, index: int) -> Seq<Seq<char>> {
        self.rows.map_values(|row: Seq<Seq<char>>| row[index])
    }

    /// How many columns the table has: as many as its first row has cells.
    pub open spec fn columns(self) -> nat {
        if self.rows.len() == 0 {
            0
        } else {
            self.rows[0].len()
        }
    }

    /// Whether the header and every row have a cell for every column. A table
    /// without rows always has.
    pub open spec fn complete(self) -> bool {
        &&& self.rows.len() > 0 ==> self.columns() <= self.header.len()
        &&& forall|i: int| 0 <= i < self.rows.len() ==> self.columns() <= (#[trigger] self.rows[i]).len()
    }
}

// ---------------------------------------------------------------------------
// Column widths
// ---------------------------------------------------------------------------

/// How many bytes a text takes up in UTF-8.
pub open spec fn byte_len(s: Seq<char>) -> nat {
    vstd::utf8::encode_utf8(s).len()
}

pub open spec fn larger(a: nat, b: nat) -> nat {
    if a >= b {
        a
    } else {
        b
    }
}

pub open spec fn sum(lens: Seq<nat>) -> nat
    decreases lens.len(),
{
    if lens.len() == 0 {
        0
    } else {
        sum(lens.drop_last()) + lens.last()
    }
}

/// How wide a table with the given column widths is: each column has a space on
/// either side, and a bar stands around and between the columns.
pub open spec fn table_width(lens: Seq<nat>) -> nat {
    sum(lens) + 3 * lens.len() + 1
}

/// The widths of the columns, as numbers.
pub open spec fn nats(lens: Seq<usize>) -> Seq<nat> {
    lens.map_values(|n: usize| n as nat)
}

impl TableView {
    /// The size of the largest cell of a column in the first `m` rows.
    pub open spec fn widest(self, index: int, m: nat) -> nat
        decreases m,
    {
        if m == 0 {
            0
        } else {
            larger(self.widest(index, (m - 1) as nat), byte_len(self.rows[m - 1][index]))
        }
    }

    /// The size of the largest cell of a column, its header among them.
    pub open spec fn natural_len(self, index: int) -> nat {
        larger(
            self.widest(index, self.rows.len()),
            if index < self.header.len() {
                byte_len(self.header[index])
            } else {
                0
            },
        )
    }

    /// The widths of the columns before any of them is shrunk.
    pub open spec fn natural_lens(self) -> Seq<nat> {
        Seq::new(self.columns(), |i: int| self.natural_len(i))
    }

    /// The widths of the columns after the flex column was shrunk, by as much as
    /// the table is too wide, but not below the smallest width.
    pub open spec fn shrunk(self, lens: Seq<nat>) -> Seq<nat> {
        match (self.max_width, self.flex_column) {
            (Some(max), Some(flex)) => if flex < lens.len() && table_width(lens) > max {
                let excess = table_width(lens) - max;
                let room: nat = if lens[flex as int] > excess {
                    (lens[flex as int] - excess) as nat
                } else {
                    0
                };
                let target = larger(room, MIN_FLEX_WIDTH as nat);
                if target < lens[flex as int] {
                    lens.update(flex as int, target)
                } else {
                    lens
                }
            } else {
                lens
            },
            _ => lens,
        }
    }

    /// The widths of the columns.
    pub open spec fn column_lens(self) -> Seq<nat> {
        self.shrunk(self.natural_lens())
    }
}

/// The size of a text in bytes.
fn text_bytes(s: &String) -> (r: usize)
    ensures
        r == byte_len(s@),
{
    s.as_str().as_bytes().len()
}

impl Table {
    /// The widths of the columns; `None` while there are no rows.
    pub fn column_lens(&self) -> (r: Option<Vec<usize>>)
        requires
            forall|i: int|
                0 <= i < self@.rows.len() ==> self@.columns() <= (#[trigger] self@.rows[i]).len(),
        ensures
            match r {
                None => self@.rows.len() == 0,
                Some(lens) => self@.rows.len() > 0 && nats(lens@) == self@.column_lens(),
            },
    {
        let n: usize = match self.n_columns() {
            Some(n) => n,
            None => return None,
        };
        let mut lens: Vec<usize> = Vec::new();
        for i in 0..n
            invariant
                n == self@.columns(),
                forall|i: int|
                    0 <= i < self@.rows.len() ==> self@.columns() <= (#[trigger] self@.rows[i]).len(),
                lens@.len() == i,
                forall|k: int| 0 <= k < i ==> (#[trigger] lens@[k]) == self@.natural_len(k),
        {
            let mut len: usize = 0;
            for k in 0..self.rows.len()
                invariant
                    i < n == self@.columns(),
                    forall|i: int|
                        0 <= i < self@.rows.len() ==> self@.columns() <= (
                        #[trigger] self@.rows[i]).len(),
                    len == self@.widest(i as int, k as nat),
            {
                assert(self@.rows[k as int] == self.rows@[k as int].deep_view());
                let size: usize = text_bytes(&self.rows[k][i]);
                if size > len {
                    len = size;
                }
            }
            if i < self.header.len() {
                let size: usize = text_bytes(&self.header[i]);
                if size > len {
                    len = size;
                }
            }
            lens.push(len);
        }
        assert(nats(lens@) =~= self@.natural_lens());
        self.shrink_flex_column(&mut lens);
        Some(lens)
    }

    /// If a `max_width` is set and the natural layout is too wide, shrink the
    /// flex column (never growing it, never below `MIN_FLEX_WIDTH`) so the table
    /// fits. Cells in that column are truncated at render time.
    pub fn shrink_flex_column(&self, column_lens: &mut Vec<usize>)
        ensures
            nats(final(column_lens)@) == self@.shrunk(nats(old(column_lens)@)),
    {
        let (max_width, flex): (usize, usize) = match (self.max_width, self.flex_column) {
            (Some(max_width), Some(flex)) => (max_width, flex),
            _ => return,
        };
        let n: usize = column_lens.len();
        if flex >= n {
            return;
        }
        let ghost lens = nats(column_lens@);
        let mut total: u128 = 0;
        for i in 0..n
            invariant
                n == column_lens@.len(),
                lens == nats(column_lens@),
                total == sum(lens.take(i as int)),
                total <= i * 0xffff_ffff_ffff_ffff,
        {
            assert(lens.take(i + 1).drop_last() == lens.take(i as int));
            assert(i * 0xffff_ffff_ffff_ffff + 0xffff_ffff_ffff_ffff == (i + 1)
                * 0xffff_ffff_ffff_ffff) by (nonlinear_arith);
            assert(i * 0xffff_ffff_ffff_ffff <= 0xffff_ffff_ffff_ffff * 0xffff_ffff_ffff_ffff)
                by (nonlinear_arith)
                requires
                    i <= 0xffff_ffff_ffff_ffff,
            ;
            total = total + column_lens[i] as u128;
        }
        assert(lens.take(n as int) == lens);
        // Frame overhead: 2 padding spaces per column plus one separator between
        // every column and the two outer borders (n + 1 vertical bars).
        assert(n * 0xffff_ffff_ffff_ffff <= 0xffff_ffff_ffff_ffff * 0xffff_ffff_ffff_ffff)
            by (nonlinear_arith)
            requires
                n <= 0xffff_ffff_ffff_ffff,
        ;
        let overhead: u128 = 2 * n as u128 + (n as u128 + 1);
        assert(total + overhead == table_width(lens));
        let room: usize = if total > u128::MAX - overhead {
            0
        } else {
            let total: u128 = total + overhead;
            if total <= max_width as u128 {
                return;
            }
            let excess: u128 = total - max_width as u128;
            if column_lens[flex] as u128 > excess {
                (column_lens[flex] as u128 - excess) as usize
            } else {
                0
            }
        };
        let target: usize = if room >= MIN_FLEX_WIDTH {
            room
        } else {
            MIN_FLEX_WIDTH
        };
        if target < column_lens[flex] {
            column_lens.set(flex, target);
            assert(nats(column_lens@) =~= lens.update(flex as int, target as nat));
        }
    }
}

// ---------------------------------------------------------------------------
// Lines
// ---------------------------------------------------------------------------

/// What a piece of a line is printed with.
#[derive(Clone, Copy, Debug, PartialEq, Eq, Structural)]
pub enum Ink {
    Frame,
    Header,
    Text,
    /// Neither colours nor switches.
    Bare,
}

/// A piece of a line: a text that is padded to a width.
#[derive(Debug)]
pub struct Span {
    pub text: String,
    pub ink: Ink,
    pub width: usize,
    pub alignment: TextAlignment,
}

/// A piece of a line, as a mathematical value.
#[verifier::ext_equal]
pub struct SpanView {
    pub text: Seq<char>,
    pub ink: Ink,
    pub width: nat,
    pub alignment: TextAlignment,
}

impl SpanView {
    /// The characters of the piece, without its colours.
    pub open spec fn characters(self) -> Seq<char> {
        cell::padded(self.text, self.width, self.alignment)
    }
}

impl View for Span {
    type V = SpanView;

    open spec fn view(&self) -> SpanView {
        SpanView {
            text: self.text@,
            ink: self.ink,
            width: self.width as nat,
            alignment: self.alignment,
        }
    }
}

/// The pieces of a line.
pub open spec fn span_views(spans: Seq<Span>) -> Seq<SpanView> {
    spans.map_values(|s: Span| s@)
}

/// The pieces of some lines.
pub open spec fn line_views(lines: Seq<Vec<Span>>) -> Seq<Seq<SpanView>> {
    lines.map_values(|line: Vec<Span>| span_views(line@))
}

/// A piece of a line that is as wide as its text.
pub open spec fn inked(text: Seq<char>, ink: Ink) -> SpanView {
    SpanView { text, ink, width: 0, alignment: TextAlignment::Left }
}

/// A text `n` times.
pub open spec fn repeated(s: Seq<char>, n: nat) -> Seq<char>
    decreases n,
{
    if n == 0 {
        Seq::empty()
    } else {
        repeated(s, (n - 1) as nat) + s
    }
}

/// How many lines the tallest of the first `n` cells has; one at least.
pub open spec fn tallest(cells: Seq<Seq<Seq<char>>>, n: nat) -> nat
    decreases n,
{
    if n == 0 {
        1
    } else {
        larger(tallest(cells, (n - 1) as nat), cells[n - 1].len())
    }
}

/// A line of a cell; a cell that has no such line is blank there.
pub open spec fn line_of_cell(lines: Seq<Seq<char>>, line: int) -> Seq<char> {
    if line < lines.len() {
        lines[line]
    } else {
        Seq::empty()
    }
}

impl TableView {
    /// The first `n` columns of a line of the frame.
    pub open spec fn frame_cells(self, separator: Seq<char>, n: nat) -> Seq<SpanView>
        decreases n,
    {
        if n == 0 {
            Seq::empty()
        } else {
            let before = self.frame_cells(separator, (n - 1) as nat);
            let dashes = repeated(self.frame_style.line.dash_glyph(), self.column_lens()[n - 1] + 2);
            (if n > 1 {
                before.push(inked(separator, Ink::Frame))
            } else {
                before
            }).push(inked(dashes, Ink::Frame))
        }
    }

    /// A line of the frame.
    pub open spec fn frame_line(
        self,
        leading: Seq<char>,
        separator: Seq<char>,
        trailing: Seq<char>,
    ) -> Seq<SpanView> {
        seq![inked(leading, Ink::Frame)] + self.frame_cells(separator, self.columns()) + seq![
            inked(trailing, Ink::Frame),
        ]
    }

    pub open spec fn top_line(self) -> Seq<SpanView> {
        self.frame_line(
            self.frame_style.corner.top_left_glyph(),
            self.frame_style.line.top_down_glyph(),
            self.frame_style.corner.top_right_glyph(),
        )
    }

    pub open spec fn middle_line(self) -> Seq<SpanView> {
        self.frame_line(
            self.frame_style.line.left_right_glyph(),
            self.frame_style.line.cross_glyph(),
            self.frame_style.line.right_left_glyph(),
        )
    }

    pub open spec fn bottom_line(self) -> Seq<SpanView> {
        self.frame_line(
            self.frame_style.corner.bottom_left_glyph(),
            self.frame_style.line.bottom_up_glyph(),
            self.frame_style.corner.bottom_right_glyph(),
        )
    }

    /// The lines that a cell is laid out as: the wrap column folds onto multiple
    /// lines, every other column truncates to a single line.
    pub open spec fn cell_lines(self, text: Seq<char>, index: int) -> Seq<Seq<char>> {
        if self.wrap && self.flex_column is Some && self.flex_column->0 == index {
            cell::wrapped(text, self.column_lens()[index])
        } else {
            seq![cell::fitted(text, self.column_lens()[index])]
        }
    }

    /// The lines of every cell of a row.
    pub open spec fn row_cells(self, content: Seq<Seq<char>>) -> Seq<Seq<Seq<char>>> {
        Seq::new(self.columns(), |i: int| self.cell_lines(content[i], i))
    }

    /// Where a cell stands in its column: a header in the middle, any other cell
    /// at the left, unless its column is right-aligned.
    pub open spec fn alignment(self, ink: Ink, index: int) -> TextAlignment {
        if ink == Ink::Header {
            TextAlignment::Center
        } else if exists|k: int|
            0 <= k < self.right_aligned.len() && #[trigger] self.right_aligned[k] == index {
            TextAlignment::Right
        } else {
            TextAlignment::Left
        }
    }

    /// The first `n` columns of a line of a row.
    pub open spec fn row_line_cells(
        self,
        cells: Seq<Seq<Seq<char>>>,
        line: int,
        ink: Ink,
        n: nat,
    ) -> Seq<SpanView>
        decreases n,
    {
        if n == 0 {
            Seq::empty()
        } else {
            let i = n - 1;
            let before = self.row_line_cells(cells, line, ink, i as nat);
            let piece = SpanView {
                text: line_of_cell(cells[i], line),
                ink,
                width: self.column_lens()[i],
                alignment: self.alignment(ink, i),
            };
            (if n > 1 {
                before.push(inked(self.frame_style.line.straight_glyph(), Ink::Frame))
            } else {
                before
            }).push(inked(cell::spaces(1), Ink::Bare)).push(piece).push(
                inked(cell::spaces(1), Ink::Bare),
            )
        }
    }

    /// A line of a row.
    pub open spec fn row_line(
        self,
        cells: Seq<Seq<Seq<char>>>,
        line: int,
        ink: Ink,
    ) -> Seq<SpanView> {
        let bar = inked(self.frame_style.line.straight_glyph(), Ink::Frame);
        seq![bar] + self.row_line_cells(cells, line, ink, self.columns()) + seq![bar]
    }

    /// The lines of a row: as many as its tallest cell has, with shorter cells
    /// padded by blank continuation lines.
    pub open spec fn row_lines(self, content: Seq<Seq<char>>, ink: Ink) -> Seq<Seq<SpanView>> {
        let cells = self.row_cells(content);
        Seq::new(tallest(cells, self.columns()), |line: int| self.row_line(cells, line, ink))
    }

    /// The lines of the first `m` rows.
    pub open spec fn body_lines(self, m: nat) -> Seq<Seq<SpanView>>
        decreases m,
    {
        if m == 0 {
            Seq::empty()
        } else {
            self.body_lines((m - 1) as nat) + self.row_lines(self.rows[m - 1], Ink::Text)
        }
    }

    /// The lines of the table: the header above and below the rows, and frames
    /// around and between them. A table without rows has no lines.
    pub open spec fn lines(self) -> Seq<Seq<SpanView>> {
        if self.rows.len() == 0 {
            Seq::empty()
        } else {
            seq![self.top_line()] + self.row_lines(self.header, Ink::Header) + seq![
                self.middle_line(),
            ] + self.body_lines(self.rows.len()) + seq![self.middle_line()] + self.row_lines(
                self.header,
                Ink::Header,
            ) + seq![self.bottom_line()]
        }
    }
}

fn span(text: &str, ink: Ink) -> (r: Span)
    ensures
        r@ == inked(text@, ink),
{
    Span { text: text.to_owned(), ink, width: 0, alignment: TextAlignment::Left }
}

/// A text `n + 2` times.
fn dashes(dash: &str, n: usize) -> (r: String)
    ensures
        r@ == repeated(dash@, n as nat + 2),
{
    let mut out = String::new();
    for i in 0..n
        invariant
            out@ == repeated(dash@, i as nat),
    {
        out.append(dash);
    }
    out.append(dash);
    out.append(dash);
    assert(repeated(dash@, n as nat + 2) == repeated(dash@, n as nat + 1) + dash@);
    assert(repeated(dash@, n as nat + 1) == repeated(dash@, n as nat) + dash@);
    out
}

impl Table {
    /// A line of the frame.
    fn frame_line(
        &self,
        column_lens: &Vec<usize>,
        leading: &str,
        separator: &str,
        trailing: &str,
    ) -> (r: Vec<Span>)
        requires
            nats(column_lens@) == self@.column_lens(),
            column_lens@.len() == self@.columns(),
        ensures
            span_views(r@) == self@.frame_line(leading@, separator@, trailing@),
    {
        let mut out: Vec<Span> = Vec::new();
        out.push(span(leading, Ink::Frame));
        let ghost lead = seq![inked(leading@, Ink::Frame)];
        assert(span_views(out@) =~= lead + self@.frame_cells(separator@, 0));
        for i in 0..column_lens.len()
            invariant
                nats(column_lens@) == self@.column_lens(),
                lead == seq![inked(leading@, Ink::Frame)],
                span_views(out@) == lead + self@.frame_cells(separator@, i as nat),
        {
            let ghost before = span_views(out@);
            if i != 0 {
                out.push(span(separator, Ink::Frame));
                assert(span_views(out@) =~= before.push(inked(separator@, Ink::Frame)));
            }
            let ghost middle = span_views(out@);
            let rule = dashes(self.frame_style.get_frame_line().dash(), column_lens[i]);
            assert(nats(column_lens@)[i as int] == column_lens@[i as int]);
            out.push(
                Span { text: rule, ink: Ink::Frame, width: 0, alignment: TextAlignment::Left },
            );
            assert(span_views(out@) =~= middle.push(inked(rule@, Ink::Frame)));
            assert(span_views(out@) =~= lead + self@.frame_cells(separator@, (i + 1) as nat));
        }
        let ghost before = span_views(out@);
        out.push(span(trailing, Ink::Frame));
        assert(span_views(out@) =~= before.push(inked(trailing@, Ink::Frame)));
        out
    }

    /// The lines of a cell.
    fn cell_lines(&self, text: &str, index: usize, len: usize) -> (r: Vec<String>)
        requires
            index < self@.column_lens().len(),
            len == self@.column_lens()[index as int],
        ensures
            r.deep_view() == self@.cell_lines(text@, index as int),
    {
        let folds = match self.flex_column {
            Some(flex) => self.wrap && flex == index,
            None => false,
        };
        if folds {
            wrap_cell(text, len)
        } else {
            let mut out: Vec<String> = Vec::new();
            out.push(fit_cell(text, len));
            assert(out.deep_view() =~= seq![cell::fitted(text@, len as nat)]);
            out
        }
    }

    /// Whether the cells of a column stand at the right.
    fn is_right_aligned(&self, index: usize) -> (r: bool)
        ensures
            r == exists|k: int|
                0 <= k < self@.right_aligned.len() && #[trigger] self@.right_aligned[k] == index,
    {
        for k in 0..self.right_aligned.len()
            invariant
                forall|m: int| 0 <= m < k ==> #[trigger] self@.right_aligned[m] != index,
        {
            if self.right_aligned[k] == index {
                assert(self@.right_aligned[k as int] == index);
                return true;
            }
        }
        false
    }

    /// A line of a row.
    fn row_line(
        &self,
        column_lens: &Vec<usize>,
        cells: &Vec<Vec<String>>,
        line: usize,
        ink: Ink,
    ) -> (r: Vec<Span>)
        requires
            nats(column_lens@) == self@.column_lens(),
            column_lens@.len() == self@.columns(),
            cells@.len() == self@.columns(),
        ensures
            span_views(r@) == self@.row_line(cells.deep_view(), line as int, ink),
    {
        let bar = self.frame_style.get_frame_line().straight();
        let ghost views = cells.deep_view();
        let ghost lead = seq![inked(bar@, Ink::Frame)];
        let mut out: Vec<Span> = Vec::new();
        out.push(span(bar, Ink::Frame));
        assert(span_views(out@) =~= lead + self@.row_line_cells(views, line as int, ink, 0));
        for i in 0..column_lens.len()
            invariant
                nats(column_lens@) == self@.column_lens(),
                column_lens@.len() == self@.columns(),
                cells@.len() == self@.columns(),
                views == cells.deep_view(),
                bar@ == self@.frame_style.line.straight_glyph(),
                lead == seq![inked(bar@, Ink::Frame)],
                span_views(out@) == lead + self@.row_line_cells(
                    views,
                    line as int,
                    ink,
                    i as nat,
                ),
        {
            let ghost before = span_views(out@);
            if i != 0 {
                out.push(span(bar, Ink::Frame));
                assert(span_views(out@) =~= before.push(inked(bar@, Ink::Frame)));
            }
            let ghost middle = span_views(out@);
            let alignment = if ink == Ink::Header {
                TextAlignment::Center
            } else if self.is_right_aligned(i) {
                TextAlignment::Right
            } else {
                TextAlignment::Left
            };
            assert(nats(column_lens@)[i as int] == column_lens@[i as int]);
            assert(views[i as int] == cells@[i as int].deep_view());
            let text = if line < cells[i].len() {
                cells[i][line].clone()
            } else {
                String::new()
            };
            assert(" "@ =~= cell::spaces(1)) by {
                reveal_strlit(" ");
            }
            out.push(span(" ", Ink::Bare));
            let piece = Span { text, ink, width: column_lens[i], alignment };
            let ghost shown = piece@;
            out.push(piece);
            out.push(span(" ", Ink::Bare));
            assert(span_views(out@) =~= middle.push(inked(cell::spaces(1), Ink::Bare)).push(
                shown,
            ).push(inked(cell::spaces(1), Ink::Bare)));
            assert(span_views(out@) =~= lead + self@.row_line_cells(
                views,
                line as int,
                ink,
                (i + 1) as nat,
            ));
        }
        let ghost before = span_views(out@);
        out.push(span(bar, Ink::Frame));
        assert(span_views(out@) =~= before.push(inked(bar@, Ink::Frame)));
        out
    }

    /// The lines of a row, put at the end of `out`.
    fn push_row(
        &self,
        column_lens: &Vec<usize>,
        content: &Vec<String>,
        ink: Ink,
        out: &mut Vec<Vec<Span>>,
    )
        requires
            nats(column_lens@) == self@.column_lens(),
            column_lens@.len() == self@.columns(),
            content@.len() >= self@.columns(),
        ensures
            line_views(final(out)@) == line_views(old(out)@) + self@.row_lines(
                content.deep_view(),
                ink,
            ),
    {
        // Lay each cell out as one or more physical lines. A logical row is then
        // as tall as its tallest cell.
        let ghost start = line_views(out@);
        let ghost goal = self@.row_cells(content.deep_view());
        let mut cells: Vec<Vec<String>> = Vec::new();
        let mut height: usize = 1;
        for i in 0..column_lens.len()
            invariant
                nats(column_lens@) == self@.column_lens(),
                column_lens@.len() == self@.columns(),
                content@.len() >= self@.columns(),
                goal == self@.row_cells(content.deep_view()),
                cells@.len() == i,
                forall|k: int| 0 <= k < i ==> (#[trigger] cells@[k]).deep_view() == goal[k],
                height == tallest(goal, i as nat),
        {
            assert(nats(column_lens@)[i as int] == column_lens@[i as int]);
            let lines = self.cell_lines(content[i].as_str(), i, column_lens[i]);
            assert(lines.deep_view() == goal[i as int]);
            assert(lines@.len() == lines.deep_view().len());
            if lines.len() > height {
                height = lines.len();
            }
            cells.push(lines);
        }
        assert(cells.deep_view() =~= goal);
        for line in 0..height
            invariant
                nats(column_lens@) == self@.column_lens(),
                column_lens@.len() == self@.columns(),
                cells@.len() == self@.columns(),
                cells.deep_view() == goal,
                height == tallest(goal, self@.columns()),
                line_views(out@) == start + Seq::new(
                    line as nat,
                    |line: int| self@.row_line(goal, line, ink),
                ),
        {
            let ghost before = line_views(out@);
            let spans = self.row_line(column_lens, &cells, line, ink);
            out.push(spans);
            assert(line_views(out@) =~= before.push(span_views(spans@)));
            assert(line_views(out@) =~= start + Seq::new(
                (line + 1) as nat,
                |line: int| self@.row_line(goal, line, ink),
            ));
        }
        assert(line_views(out@) =~= start + self@.row_lines(content.deep_view(), ink));
    }

    /// The lines of the table, as pieces that each have one look.
    pub fn lines(&self) -> (r: Vec<Vec<Span>>)
        requires
            self@.complete(),
        ensures
            line_views(r@) == self@.lines(),
    {
        let mut out: Vec<Vec<Span>> = Vec::new();
        let column_lens = match self.column_lens() {
            Some(lens) => lens,
            None => {
                assert(line_views(out@) =~= Seq::<Seq<SpanView>>::empty());
                return out;
            },
        };
        assert(nats(column_lens@).len() == column_lens@.len());
        assert(self@.column_lens().len() == self@.columns());
        assert(self@.header == self.header.deep_view());
        let corner = self.frame_style.get_frame_corner();
        let line = self.frame_style.get_frame_line();
        let top = self.frame_line(
            &column_lens,
            corner.top_left(),
            line.top_down(),
            corner.top_right(),
        );
        out.push(top);
        let ghost above = seq![self@.top_line()];
        assert(line_views(out@) =~= above);
        self.push_row(&column_lens, &self.header, Ink::Header, &mut out);
        let ghost done = above + self@.row_lines(self@.header, Ink::Header);
        assert(line_views(out@) == done);
        out.push(
            self.frame_line(&column_lens, line.left_right(), line.cross(), line.right_left()),
        );
        let ghost above = done + seq![self@.middle_line()];
        assert(line_views(out@) =~= above);
        assert(above + self@.body_lines(0) =~= above);
        for i in 0..self.rows.len()
            invariant
                self@.complete(),
                nats(column_lens@) == self@.column_lens(),
                column_lens@.len() == self@.columns(),
                line_views(out@) == above + self@.body_lines(i as nat),
        {
            assert(self@.rows[i as int] == self.rows@[i as int].deep_view());
            let ghost before = self@.body_lines(i as nat);
            self.push_row(&column_lens, &self.rows[i], Ink::Text, &mut out);
            assert(line_views(out@) =~= above + self@.body_lines((i + 1) as nat));
        }
        let ghost done = above + self@.body_lines(self@.rows.len());
        out.push(
            self.frame_line(&column_lens, line.left_right(), line.cross(), line.right_left()),
        );
        let ghost above = done + seq![self@.middle_line()];
        assert(line_views(out@) =~= above);
        self.push_row(&column_lens, &self.header, Ink::Header, &mut out);
        let ghost done = above + self@.row_lines(self@.header, Ink::Header);
        let bottom = self.frame_line(
            &column_lens,
            corner.bottom_left(),
            line.bottom_up(),
            corner.bottom_right(),
        );
        out.push(bottom);
        assert(line_views(out@) =~= done + seq![self@.bottom_line()]);
        assert(line_views(out@) =~= self@.lines());
        out
    }
}

// ---------------------------------------------------------------------------
// Text
// ---------------------------------------------------------------------------

/// The characters of a line, without its colours.
pub open spec fn plain_line(spans: Seq<SpanView>) -> Seq<char>
    decreases spans.len(),
{
    if spans.len() == 0 {
        Seq::empty()
    } else {
        plain_line(spans.drop_last()) + spans.last().characters()
    }
}

/// The characters of some lines, each with a line feed behind it.
pub open spec fn plain_text(lines: Seq<Seq<SpanView>>) -> Seq<char>
    decreases lines.len(),
{
    if lines.len() == 0 {
        Seq::empty()
    } else {
        plain_text(lines.drop_last()) + plain_line(lines.last()) + seq!['\n']
    }
}

impl TableView {
    /// What may be printed for a piece of a line.
    pub open spec fn span_painted(self, span: SpanView, out: Seq<char>) -> bool {
        match span.ink {
            Ink::Frame => style::printed_in(
                span.text,
                self.frame_style.fgcolor,
                self.frame_style.bgcolor,
                self.frame_style.style,
                span.width,
                span.alignment,
                out,
            ),
            Ink::Header => style::printed_in(
                span.text,
                self.header_style.fgcolor,
                self.header_style.bgcolor,
                self.header_style.style,
                span.width,
                span.alignment,
                out,
            ),
            Ink::Text => style::printed_in(
                span.text,
                self.text_style.fgcolor,
                self.text_style.bgcolor,
                self.text_style.style,
                span.width,
                span.alignment,
                out,
            ),
            Ink::Bare => out == span.characters(),
        }
    }

    /// What may be printed for a line: something for each of its pieces, one
    /// after the other.
    pub open spec fn line_painted(self, spans: Seq<SpanView>, out: Seq<char>) -> bool
        decreases spans.len(),
    {
        if spans.len() == 0 {
            out == Seq::<char>::empty()
        } else {
            exists|before: Seq<char>, piece: Seq<char>|
                self.line_painted(spans.drop_last(), before) && self.span_painted(
                    spans.last(),
                    piece,
                ) && out == #[trigger] (before + piece)
        }
    }

    /// What may be printed for some lines.
    pub open spec fn lines_painted(self, lines: Seq<Seq<SpanView>>, out: Seq<char>) -> bool
        decreases lines.len(),
    {
        if lines.len() == 0 {
            out == Seq::<char>::empty()
        } else {
            exists|before: Seq<char>, line: Seq<char>|
                self.lines_painted(lines.drop_last(), before) && self.line_painted(
                    lines.last(),
                    line,
                ) && out == #[trigger] (before + line) + seq!['\n']
        }
    }
}

impl Table {
    /// A piece of a line as it is printed.
    fn paint_span(&self, span: &Span) -> (r: String)
        ensures
            self@.span_painted(span@, r@),
    {
        match span.ink {
            Ink::Frame => print_with_style(
                span.text.as_str(),
                &self.frame_style,
                span.width,
                span.alignment,
            ),
            Ink::Header => print_with_style(
                span.text.as_str(),
                &self.header_style,
                span.width,
                span.alignment,
            ),
            Ink::Text => print_with_style(
                span.text.as_str(),
                &self.text_style,
                span.width,
                span.alignment,
            ),
            Ink::Bare => pad_cell(span.text.as_str(), span.width, span.alignment),
        }
    }

    /// The table as it is printed, with colours where they are on. A table
    /// without rows prints nothing.
    pub fn to_string(&self) -> (r: String)
        requires
            self@.complete(),
        ensures
            self@.lines_painted(self@.lines(), r@),
    {
        let lines = self.lines();
        let ghost views = self@.lines();
        let mut out = String::new();
        for i in 0..lines.len()
            invariant
                views == line_views(lines@),
                self@.lines_painted(views.take(i as int), out@),
        {
            let ghost before = out@;
            let mut text = String::new();
            let ghost spans = views[i as int];
            assert(spans == span_views(lines@[i as int]@));
            let n: usize = lines[i].len();
            for k in 0..n
                invariant
                    i < lines@.len(),
                    n == spans.len(),
                    spans == span_views(lines@[i as int]@),
                    self@.line_painted(spans.take(k as int), text@),
            {
                let ghost head = text@;
                let piece = self.paint_span(&lines[i][k]);
                text.append(piece.as_str());
                assert(spans.take(k + 1).drop_last() == spans.take(k as int));
                assert(spans.take(k + 1).last() == lines@[i as int]@[k as int]@);
                assert(text@ == head + piece@);
            }
            assert(spans.take(spans.len() as int) == spans);
            out.append(text.as_str());
            out.push('\n');
            assert(views.take(i + 1).drop_last() == views.take(i as int));
            assert(out@ == (before + text@) + seq!['\n']);
        }
        assert(views.take(views.len() as int) == views);
        out
    }

    /// The table as it is printed without colours.
    pub fn to_plain_string(&self) -> (r: String)
        requires
            self@.complete(),
        ensures
            r@ == plain_text(self@.lines()),
    {
        let lines = self.lines();
        let ghost views = self@.lines();
        let mut out = String::new();
        for i in 0..lines.len()
            invariant
                views == line_views(lines@),
                out@ == plain_text(views.take(i as int)),
        {
            let ghost before = out@;
            let ghost spans = views[i as int];
            assert(spans == span_views(lines@[i as int]@));
            let n: usize = lines[i].len();
            for k in 0..n
                invariant
                    i < lines@.len(),
                    n == spans.len(),
                    spans == span_views(lines@[i as int]@),
                    out@ == before + plain_line(spans.take(k as int)),
            {
                let piece = &lines[i][k];
                let text = pad_cell(piece.text.as_str(), piece.width, piece.alignment);
                out.append(text.as_str());
                assert(spans.take(k + 1).drop_last() == spans.take(k as int));
                assert(spans.take(k + 1).last() == lines@[i as int]@[k as int]@);
            }
            assert(spans.take(spans.len() as int) == spans);
            out.push('\n');
            assert(views.take(i + 1).drop_last() == views.take(i as int));
            assert(views.take(i + 1).last() == spans);
            assert(out@ =~= plain_text(views.take(i + 1)));
        }
        assert(views.take(views.len() as int) == views);
        out
    }
}

// ---------------------------------------------------------------------------
// Laws
// ---------------------------------------------------------------------------

/// Neither frame nor header nor cells have colours or switches.
pub open spec fn colourless(t: TableView) -> bool {
    &&& style::plain(t.frame_style.fgcolor, t.frame_style.bgcolor, t.frame_style.style)
    &&& style::plain(t.header_style.fgcolor, t.header_style.bgcolor, t.header_style.style)
    &&& style::plain(t.text_style.fgcolor, t.text_style.bgcolor, t.text_style.style)
}

proof fn lemma_colourless_line(t: TableView, spans: Seq<SpanView>, out: Seq<char>)
    requires
        colourless(t),
        t.line_painted(spans, out),
    ensures
        out == plain_line(spans),
    decreases spans.len(),
{
    if spans.len() > 0 {
        let (before, piece) = choose|before: Seq<char>, piece: Seq<char>|
            t.line_painted(spans.drop_last(), before) && t.span_painted(spans.last(), piece) && out
                == #[trigger] (before + piece);
        lemma_colourless_line(t, spans.drop_last(), before);
    }
}

/// A table without colours prints exactly the characters of its lines, whether
/// colours are on or off.
pub proof fn law_colourless_tables_print_plainly(
    t: TableView,
    lines: Seq<Seq<SpanView>>,
    out: Seq<char>,
)
    requires
        colourless(t),
        t.lines_painted(lines, out),
    ensures
        out == plain_text(lines),
    decreases lines.len(),
{
    if lines.len() > 0 {
        let (before, line) = choose|before: Seq<char>, line: Seq<char>|
            t.lines_painted(lines.drop_last(), before) && t.line_painted(lines.last(), line) && out
                == #[trigger] (before + line) + seq!['\n'];
        law_colourless_tables_print_plainly(t, lines.drop_last(), before);
        lemma_colourless_line(t, lines.last(), line);
    }
}

proof fn lemma_plain_line_push(spans: Seq<SpanView>, last: SpanView)
    ensures
        plain_line(spans.push(last)) == plain_line(spans) + last.characters(),
{
    assert(spans.push(last).drop_last() == spans);
}

proof fn lemma_plain_line_join(a: Seq<SpanView>, b: Seq<SpanView>)
    ensures
        plain_line(a + b) == plain_line(a) + plain_line(b),
    decreases b.len(),
{
    if b.len() == 0 {
        assert(a + b == a);
    } else {
        lemma_plain_line_join(a, b.drop_last());
        assert((a + b).drop_last() == a + b.drop_last());
        assert((a + b).last() == b.last());
    }
}

proof fn lemma_plain_line_one(span: SpanView)
    ensures
        plain_line(seq![span]) == span.characters(),
{
    assert(seq![span].drop_last() == Seq::<SpanView>::empty());
    assert(plain_line(seq![span].drop_last()) == Seq::<char>::empty());
    assert(plain_line(seq![span]) =~= span.characters());
}

proof fn lemma_repeated_len(s: Seq<char>, n: nat)
    requires
        s.len() == 1,
    ensures
        repeated(s, n).len() == n,
    decreases n,
{
    if n > 0 {
        lemma_repeated_len(s, (n - 1) as nat);
    }
}

proof fn lemma_corner_glyphs(corner: FrameCorner)
    ensures
        corner.top_left_glyph().len() == 1,
        corner.top_right_glyph().len() == 1,
        corner.bottom_left_glyph().len() == 1,
        corner.bottom_right_glyph().len() == 1,
{
    reveal_strlit("╭");
    reveal_strlit("╔");
    reveal_strlit("┌");
    reveal_strlit("┏");
    reveal_strlit("╮");
    reveal_strlit("╗");
    reveal_strlit("┐");
    reveal_strlit("┓");
    reveal_strlit("╰");
    reveal_strlit("╚");
    reveal_strlit("└");
    reveal_strlit("┗");
    reveal_strlit("╯");
    reveal_strlit("╝");
    reveal_strlit("┘");
    reveal_strlit("┛");
}

proof fn lemma_line_glyphs(line: FrameLine)
    ensures
        line.dash_glyph().len() == 1,
        line.straight_glyph().len() == 1,
        line.top_down_glyph().len() == 1,
        line.bottom_up_glyph().len() == 1,
        line.left_right_glyph().len() == 1,
        line.right_left_glyph().len() == 1,
        line.cross_glyph().len() == 1,
{
    reveal_strlit("─");
    reveal_strlit("═");
    reveal_strlit("━");
    reveal_strlit("│");
    reveal_strlit("║");
    reveal_strlit("┃");
    reveal_strlit("┬");
    reveal_strlit("╤");
    reveal_strlit("┳");
    reveal_strlit("┴");
    reveal_strlit("╧");
    reveal_strlit("┻");
    reveal_strlit("├");
    reveal_strlit("╠");
    reveal_strlit("┣");
    reveal_strlit("┤");
    reveal_strlit("╣");
    reveal_strlit("┫");
    reveal_strlit("┼");
    reveal_strlit("╬");
    reveal_strlit("╋");
}

/// How wide the first `n` columns are, with the bars between them.
spec fn columns_width(lens: Seq<nat>, n: nat) -> nat {
    if n == 0 {
        0
    } else {
        (sum(lens.take(n as int)) + 3 * n - 1) as nat
    }
}

proof fn lemma_columns_width_step(lens: Seq<nat>, n: nat)
    requires
        0 < n <= lens.len(),
    ensures
        columns_width(lens, n) == columns_width(lens, (n - 1) as nat) + (if n > 1 {
            1nat
        } else {
            0
        }) + lens[n - 1] + 2,
{
    assert(lens.take(n as int).drop_last() == lens.take(n - 1));
    assert(lens.take(0) == Seq::<nat>::empty());
}

proof fn lemma_frame_cells_width(t: TableView, separator: Seq<char>, n: nat)
    requires
        separator.len() == 1,
        n <= t.column_lens().len(),
    ensures
        plain_line(t.frame_cells(separator, n)).len() == columns_width(t.column_lens(), n),
    decreases n,
{
    if n > 0 {
        let lens = t.column_lens();
        lemma_frame_cells_width(t, separator, (n - 1) as nat);
        lemma_line_glyphs(t.frame_style.line);
        lemma_columns_width_step(lens, n);
        let before = t.frame_cells(separator, (n - 1) as nat);
        let dashes = repeated(t.frame_style.line.dash_glyph(), lens[n - 1] + 2);
        lemma_repeated_len(t.frame_style.line.dash_glyph(), lens[n - 1] + 2);
        lemma_plain_line_push(before, inked(separator, Ink::Frame));
        let middle = if n > 1 {
            before.push(inked(separator, Ink::Frame))
        } else {
            before
        };
        lemma_plain_line_push(middle, inked(dashes, Ink::Frame));
    }
}

proof fn lemma_framed_width(t: TableView, lead: SpanView, cells: Seq<SpanView>, trail: SpanView)
    requires
        lead.characters().len() == 1,
        trail.characters().len() == 1,
        plain_line(cells).len() == columns_width(t.column_lens(), t.column_lens().len()),
        t.column_lens().len() > 0,
    ensures
        plain_line(seq![lead] + cells + seq![trail]).len() == table_width(t.column_lens()),
{
    let lens = t.column_lens();
    lemma_plain_line_one(lead);
    lemma_plain_line_one(trail);
    lemma_plain_line_join(seq![lead], cells);
    lemma_plain_line_join(seq![lead] + cells, seq![trail]);
    assert(lens.take(lens.len() as int) == lens);
}

/// Every line that a cell of the table is laid out as fits its column.
proof fn lemma_cells_fit(t: TableView, content: Seq<Seq<char>>, index: int, line: int)
    requires
        0 <= index < t.columns(),
        0 <= line,
        t.natural_lens()[index] == 0 ==> content[index].len() == 0,
    ensures
        line_of_cell(t.row_cells(content)[index], line).len() <= t.column_lens()[index],
{
    let len = t.column_lens()[index];
    let text = content[index];
    cell::law_fitted_cells_keep_to_the_width(text, len);
    cell::law_wrapping_keeps_all_text(text, len);
    assert(t.row_cells(content)[index] == t.cell_lines(text, index));
    if len == 0 {
        assert(t.natural_lens()[index] == 0);
    }
}

proof fn lemma_row_cells_width(
    t: TableView,
    content: Seq<Seq<char>>,
    line: int,
    ink: Ink,
    n: nat,
)
    requires
        0 <= line,
        n <= t.columns(),
        forall|i: int|
            0 <= i < t.columns() && (#[trigger] t.natural_lens()[i]) == 0 ==> content[i].len()
                == 0,
    ensures
        plain_line(t.row_line_cells(t.row_cells(content), line, ink, n)).len() == columns_width(
            t.column_lens(),
            n,
        ),
    decreases n,
{
    if n > 0 {
        let i = n - 1;
        let lens = t.column_lens();
        let cells = t.row_cells(content);
        lemma_row_cells_width(t, content, line, ink, i as nat);
        lemma_line_glyphs(t.frame_style.line);
        lemma_columns_width_step(lens, n);
        assert(t.natural_lens()[i] == 0 ==> content[i].len() == 0);
        lemma_cells_fit(t, content, i, line);
        let piece = SpanView {
            text: line_of_cell(cells[i], line),
            ink,
            width: lens[i],
            alignment: t.alignment(ink, i),
        };
        cell::law_padded_cells_fill_the_width(
            line_of_cell(cells[i], line),
            lens[i],
            t.alignment(ink, i),
        );
        let before = t.row_line_cells(cells, line, ink, i as nat);
        let bar = inked(t.frame_style.line.straight_glyph(), Ink::Frame);
        let gap = inked(cell::spaces(1), Ink::Bare);
        lemma_plain_line_push(before, bar);
        let middle = if n > 1 {
            before.push(bar)
        } else {
            before
        };
        lemma_plain_line_push(middle, gap);
        lemma_plain_line_push(middle.push(gap), piece);
        lemma_plain_line_push(middle.push(gap).push(piece), gap);
    }
}

proof fn lemma_no_bytes_no_text(s: Seq<char>)
    requires
        byte_len(s) == 0,
    ensures
        s.len() == 0,
{
    if s.len() > 0 {
        assert(vstd::utf8::encode_scalar(s[0] as u32).len() > 0);
    }
}

proof fn lemma_widest_bounds(t: TableView, index: int, m: nat, row: int)
    requires
        0 <= row < m,
    ensures
        byte_len(t.rows[row][index]) <= t.widest(index, m),
    decreases m,
{
    if row < m - 1 {
        lemma_widest_bounds(t, index, (m - 1) as nat, row);
    }
}

proof fn lemma_row_lines_width(t: TableView, content: Seq<Seq<char>>, ink: Ink, line: int)
    requires
        t.columns() > 0,
        0 <= line < t.row_lines(content, ink).len(),
        forall|i: int|
            0 <= i < t.columns() && (#[trigger] t.natural_lens()[i]) == 0 ==> content[i].len()
                == 0,
    ensures
        plain_line(t.row_lines(content, ink)[line]).len() == table_width(t.column_lens()),
{
    let bar = inked(t.frame_style.line.straight_glyph(), Ink::Frame);
    lemma_line_glyphs(t.frame_style.line);
    lemma_row_cells_width(t, content, line, ink, t.columns());
    let cells = t.row_line_cells(t.row_cells(content), line, ink, t.columns());
    lemma_framed_width(t, bar, cells, bar);
}

proof fn lemma_body_lines_width(t: TableView, m: nat, line: int)
    requires
        t.columns() > 0,
        m <= t.rows.len(),
        0 <= line < t.body_lines(m).len(),
    ensures
        plain_line(t.body_lines(m)[line]).len() == table_width(t.column_lens()),
    decreases m,
{
    if m > 0 {
        let before = t.body_lines((m - 1) as nat);
        let content = t.rows[m - 1];
        if line < before.len() {
            lemma_body_lines_width(t, (m - 1) as nat, line);
        } else {
            assert forall|i: int|
                0 <= i < t.columns() && (#[trigger] t.natural_lens()[i]) == 0 implies content[i].len()
                == 0 by {
                lemma_widest_bounds(t, i, t.rows.len(), m - 1);
                lemma_no_bytes_no_text(content[i]);
            }
            lemma_row_lines_width(t, content, Ink::Text, line - before.len());
        }
    }
}

/// All lines of a table have the same width: that of its columns together.
pub proof fn law_lines_have_one_width(t: TableView, line: int)
    requires
        t.complete(),
        t.columns() > 0,
        0 <= line < t.lines().len(),
    ensures
        plain_line(t.lines()[line]).len() == table_width(t.column_lens()),
{
    let n = t.columns();
    let fl = t.frame_style.line;
    let fc = t.frame_style.corner;
    lemma_line_glyphs(fl);
    lemma_corner_glyphs(fc);
    lemma_frame_cells_width(t, fl.top_down_glyph(), n);
    lemma_frame_cells_width(t, fl.cross_glyph(), n);
    lemma_frame_cells_width(t, fl.bottom_up_glyph(), n);
    lemma_framed_width(
        t,
        inked(fc.top_left_glyph(), Ink::Frame),
        t.frame_cells(fl.top_down_glyph(), n),
        inked(fc.top_right_glyph(), Ink::Frame),
    );
    lemma_framed_width(
        t,
        inked(fl.left_right_glyph(), Ink::Frame),
        t.frame_cells(fl.cross_glyph(), n),
        inked(fl.right_left_glyph(), Ink::Frame),
    );
    lemma_framed_width(
        t,
        inked(fc.bottom_left_glyph(), Ink::Frame),
        t.frame_cells(fl.bottom_up_glyph(), n),
        inked(fc.bottom_right_glyph(), Ink::Frame),
    );
    assert forall|i: int|
        0 <= i < t.columns() && (#[trigger] t.natural_lens()[i]) == 0 implies t.header[i].len()
        == 0 by {
        lemma_no_bytes_no_text(t.header[i]);
    }
    let head = t.row_lines(t.header, Ink::Header);
    let body = t.body_lines(t.rows.len());
    let h = head.len();
    let b = body.len();
    if 1 <= line < 1 + h {
        lemma_row_lines_width(t, t.header, Ink::Header, line - 1);
        assert(t.lines()[line] == head[line - 1]);
    } else if 2 + h <= line < 2 + h + b {
        lemma_body_lines_width(t, t.rows.len(), line - 2 - h);
        assert(t.lines()[line] == body[line - 2 - h]);
    } else if 3 + h + b <= line < 3 + h + b + h {
        lemma_row_lines_width(t, t.header, Ink::Header, line - 3 - h - b);
        assert(t.lines()[line] == head[line - 3 - h - b]);
    } else if line == 0 {
        assert(t.lines()[line] == t.top_line());
    } else if line == 1 + h || line == 2 + h + b {
        assert(t.lines()[line] == t.middle_line());
    } else {
        assert(t.lines()[line] == t.bottom_line());
    }
}

proof fn lemma_sum_update(lens: Seq<nat>, i: int, n: nat)
    requires
        0 <= i < lens.len(),
    ensures
        sum(lens.update(i, n)) + lens[i] == sum(lens) + n,
    decreases lens.len(),
{
    let changed = lens.update(i, n);
    if i == lens.len() - 1 {
        assert(changed.drop_last() == lens.drop_last());
    } else {
        lemma_sum_update(lens.drop_last(), i, n);
        assert(changed.drop_last() == lens.drop_last().update(i, n));
    }
}

/// A table that is given a width keeps to it wherever the flex column can be
/// shrunk far enough: no line is wider.
pub proof fn law_tables_keep_to_the_width(t: TableView, line: int)
    requires
        t.complete(),
        t.columns() > 0,
        0 <= line < t.lines().len(),
        t.max_width is Some,
        t.flex_column is Some,
        t.flex_column->0 < t.columns(),
        table_width(t.natural_lens()) + MIN_FLEX_WIDTH <= t.max_width->0
            + t.natural_lens()[t.flex_column->0 as int] || table_width(t.natural_lens())
            <= t.max_width->0,
    ensures
        plain_line(t.lines()[line]).len() <= t.max_width->0,
{
    law_lines_have_one_width(t, line);
    let lens = t.natural_lens();
    let flex = t.flex_column->0 as int;
    let target = t.column_lens()[flex];
    lemma_sum_update(lens, flex, target);
    if t.column_lens() != lens {
        assert(t.column_lens() == lens.update(flex, target));
    }
}

proof fn lemma_tallest_bounds(cells: Seq<Seq<Seq<char>>>, n: nat, i: int)
    requires
        0 <= i < n,
    ensures
        cells[i].len() <= tallest(cells, n),
    decreases n,
{
    if i < n - 1 {
        lemma_tallest_bounds(cells, (n - 1) as nat, i);
    }
}

/// A wrapped column drops nothing: the pieces of a cell, one per line of its
/// row, are the whole text of the cell, and the row has a line for each.
pub proof fn law_wrapped_cells_keep_their_text(
    t: TableView,
    content: Seq<Seq<char>>,
    ink: Ink,
    column: int,
)
    requires
        t.wrap,
        t.flex_column is Some,
        t.flex_column->0 == column,
        0 <= column < t.columns(),
    ensures
        t.row_cells(content)[column].flatten() == content[column],
        t.row_cells(content)[column].len() <= t.row_lines(content, ink).len(),
{
    let cells = t.row_cells(content);
    cell::law_wrapping_keeps_all_text(content[column], t.column_lens()[column]);
    lemma_tallest_bounds(cells, t.columns(), column);
}

/// A column is as wide as its largest cell, its header among them, and no wider.
pub proof fn law_columns_are_as_wide_as_their_largest_cell(t: TableView, index: int, row: int)
    requires
        0 <= index < t.columns(),
        t.columns() <= t.header.len(),
        0 <= row < t.rows.len(),
    ensures
        t.natural_lens().len() == t.rows[0].len(),
        t.natural_lens()[index] >= byte_len(t.rows[row][index]),
        t.natural_lens()[index] >= byte_len(t.header[index]),
        t.natural_lens()[index] == byte_len(t.header[index]) || exists|k: int|
            0 <= k < t.rows.len() && t.natural_lens()[index] == byte_len(
                (#[trigger] t.rows[k])[index],
            ),
{
    lemma_widest_bounds(t, index, t.rows.len(), row);
    lemma_widest_is_reached(t, index, t.rows.len());
}

proof fn lemma_widest_is_reached(t: TableView, index: int, m: nat)
    requires
        0 < m <= t.rows.len(),
    ensures
        exists|k: int|
            0 <= k < m && t.widest(index, m) == byte_len((#[trigger] t.rows[k])[index]),
    decreases m,
{
    if m > 1 {
        lemma_widest_is_reached(t, index, (m - 1) as nat);
        if t.widest(index, m) == t.widest(index, (m - 1) as nat) {
            let k = choose|k: int|
                0 <= k < m - 1 && t.widest(index, (m - 1) as nat) == byte_len(
                    (#[trigger] t.rows[k])[index],
                );
            assert(t.widest(index, m) == byte_len(t.rows[k][index]));
        } else {
            assert(t.widest(index, m) == byte_len(t.rows[m - 1][index]));
        }
    } else {
        assert(t.widest(index, 0) == 0);
        assert(t.widest(index, 1) == byte_len(t.rows[0][index]));
    }
}

/// A table that fits keeps its columns. One that is too wide gives up width in the one
/// column that may shrink: as much as is needed, but not below eight, and never more
/// than it has.
pub proof fn law_one_column_shrinks_as_needed(t: TableView, index: int)
    requires
        0 <= index < t.natural_lens().len(),
    ensures
        t.column_lens().len() == t.natural_lens().len(),
        t.max_width is None || t.flex_column is None ==> t.column_lens() == t.natural_lens(),
        t.flex_column != Some(index as usize) || index > usize::MAX ==> t.column_lens()[index]
            == t.natural_lens()[index],
        t.max_width matches Some(max) ==> (table_width(t.natural_lens()) <= max ==> t.column_lens()
            == t.natural_lens()),
        t.max_width matches Some(max) ==> (t.flex_column == Some(index as usize) && index
            <= usize::MAX && table_width(t.natural_lens()) > max ==> ({
            let (had, has) = (t.natural_lens()[index] as int, t.column_lens()[index] as int);
            let excess = table_width(t.natural_lens()) - max;
            &&& had <= 8 ==> has == had
            &&& had > 8 && had - excess >= 8 ==> has == had - excess
            &&& had > 8 && had - excess < 8 ==> has == 8
        })),
{
}

/// Where a cell stands: a header in the middle, a cell of a right-aligned column at the
/// right, any other at the left.
pub proof fn law_cells_are_aligned_by_column(t: TableView, index: usize)
    ensures
        t.alignment(Ink::Header, index as int) == TextAlignment::Center,
        t.right_aligned.contains(index) ==> t.alignment(Ink::Text, index as int)
            == TextAlignment::Right,
        !t.right_aligned.contains(index) ==> t.alignment(Ink::Text, index as int)
            == TextAlignment::Left,
{
    if t.right_aligned.contains(index) {
        let k = choose|k: int| 0 <= k < t.right_aligned.len() && t.right_aligned[k] == index;
        assert(t.right_aligned[k] == index as int);
    }
}

/// Cells are folded in the one column of a table that folds, and cut in every other.
pub proof fn law_cells_are_folded_or_cut(t: TableView, text: Seq<char>, index: usize)
    ensures
        t.wrap && t.flex_column == Some(index) ==> t.cell_lines(text, index as int)
            == cell::wrapped(text, t.column_lens()[index as int]),
        !t.wrap || t.flex_column != Some(index) ==> t.cell_lines(text, index as int) == seq![
            cell::fitted(text, t.column_lens()[index as int]),
        ],
{
}

proof fn lemma_row_pieces(
    t: TableView,
    cells: Seq<Seq<Seq<char>>>,
    line: int,
    ink: Ink,
    n: nat,
    i: int,
)
    requires
        0 <= i < n,
    ensures
        t.row_line_cells(cells, line, ink, n).len() == 4 * n - 1,
        t.row_line_cells(cells, line, ink, n)[4 * i + 1] == (SpanView {
            text: line_of_cell(cells[i], line),
            ink,
            width: t.column_lens()[i],
            alignment: t.alignment(ink, i),
        }),
        i > 0 ==> t.row_line_cells(cells, line, ink, n)[4 * i - 1] == inked(
            t.frame_style.line.straight_glyph(),
            Ink::Frame,
        ),
    decreases n,
{
    let m = (n - 1) as nat;
    if m > 0 {
        lemma_row_pieces(t, cells, line, ink, m, if i < m {
            i
        } else {
            0
        });
    } else {
        assert(t.row_line_cells(cells, line, ink, 0).len() == 0);
    }
}

/// A line of a row holds the line of each of its cells, in the cell's own column,
/// padded to the width of the column, with a bar before the first column, between each
/// two, and behind the last.
pub proof fn law_cells_stand_in_their_columns(
    t: TableView,
    content: Seq<Seq<char>>,
    line: int,
    ink: Ink,
    i: int,
)
    requires
        0 <= i < t.columns(),
        0 <= line,
    ensures
        ({
            let spans = t.row_line(t.row_cells(content), line, ink);
            let lines = t.cell_lines(content[i], i);
            let bar = inked(t.frame_style.line.straight_glyph(), Ink::Frame);
            &&& spans.len() == 4 * t.columns() + 1
            &&& spans[4 * i] == bar
            &&& spans[4 * t.columns() as int] == bar
            &&& spans[4 * i + 2].text == (if line < lines.len() {
                lines[line]
            } else {
                Seq::empty()
            })
            &&& spans[4 * i + 2].ink == ink
            &&& spans[4 * i + 2].width == t.column_lens()[i]
            &&& spans[4 * i + 2].alignment == t.alignment(ink, i)
        }),
{
    let cells = t.row_cells(content);
    let inner = t.row_line_cells(cells, line, ink, t.columns());
    lemma_row_pieces(t, cells, line, ink, t.columns(), i);
    let spans = t.row_line(cells, line, ink);
    assert(spans[4 * i + 2] == inner[4 * i + 1]);
    if i > 0 {
        assert(spans[4 * i] == inner[4 * i - 1]);
    }
}

proof fn lemma_single_lines(t: TableView, content: Seq<Seq<char>>, ink: Ink, n: nat)
    requires
        !t.wrap,
        n <= t.columns(),
    ensures
        tallest(t.row_cells(content), n) == 1,
    decreases n,
{
    if n > 0 {
        lemma_single_lines(t, content, ink, (n - 1) as nat);
        assert(t.row_cells(content)[n - 1] == t.cell_lines(content[n - 1], n - 1));
        assert(t.row_cells(content)[n - 1].len() == 1);
    }
}

proof fn lemma_body_of_single_lines(t: TableView, m: nat, i: int)
    requires
        !t.wrap,
        m <= t.rows.len(),
        0 <= i < m,
    ensures
        t.body_lines(m).len() == m,
        t.body_lines(m)[i] == t.row_line(t.row_cells(t.rows[i]), 0, Ink::Text),
    decreases m,
{
    lemma_single_lines(t, t.rows[m - 1], Ink::Text, t.columns());
    let last = t.row_lines(t.rows[m - 1], Ink::Text);
    assert(last.len() == 1);
    if m > 1 {
        lemma_body_of_single_lines(t, (m - 1) as nat, if i < m - 1 {
            i
        } else {
            0
        });
    } else {
        assert(t.body_lines(0).len() == 0);
    }
}

/// A table that does not fold has one line for each row, in order, between two lines of
/// the frame; the header stands above and below them, and the frame around all. A table
/// without rows has no lines.
pub proof fn law_each_row_has_its_line(t: TableView, i: int)
    requires
        !t.wrap,
    ensures
        t.rows.len() == 0 ==> t.lines().len() == 0,
        0 <= i < t.rows.len() ==> ({
            let lines = t.lines();
            let header = t.row_line(t.row_cells(t.header), 0, Ink::Header);
            let n = t.rows.len() as int;
            &&& lines.len() == n + 6
            &&& lines[0] == t.top_line()
            &&& lines[1] == header
            &&& lines[2] == t.middle_line()
            &&& lines[3 + i] == t.row_line(t.row_cells(t.rows[i]), 0, Ink::Text)
            &&& lines[3 + n] == t.middle_line()
            &&& lines[4 + n] == header
            &&& lines[5 + n] == t.bottom_line()
        }),
{
    if 0 <= i < t.rows.len() {
        lemma_single_lines(t, t.header, Ink::Header, t.columns());
        lemma_body_of_single_lines(t, t.rows.len(), i);
        assert(t.row_lines(t.header, Ink::Header).len() == 1);
    }
}

/// A row is as tall as its tallest cell, and one line at least.
pub proof fn law_rows_are_as_tall_as_their_tallest_cell(
    t: TableView,
    content: Seq<Seq<char>>,
    ink: Ink,
    line: int,
    index: int,
)
    requires
        0 <= index < t.columns(),
        0 <= line < t.row_lines(content, ink).len(),
    ensures
        t.row_lines(content, ink).len() >= t.cell_lines(content[index], index).len(),
        t.row_lines(content, ink)[line] == t.row_line(t.row_cells(content), line, ink),
        t.row_lines(content, ink).len() == 1 || exists|i: int|
            0 <= i < t.columns() && t.row_lines(content, ink).len() == t.cell_lines(
                #[trigger] content[i],
                i,
            ).len(),
{
    lemma_tallest_is_reached(t, content, t.columns());
    lemma_tallest_bounds(t.row_cells(content), t.columns(), index);
}

proof fn lemma_tallest_is_reached(t: TableView, content: Seq<Seq<char>>, n: nat)
    requires
        n <= t.columns(),
    ensures
        tallest(t.row_cells(content), n) == 1 || exists|i: int|
            0 <= i < n && tallest(t.row_cells(content), n) == t.cell_lines(
                #[trigger] content[i],
                i,
            ).len(),
    decreases n,
{
    if n > 0 {
        let m = (n - 1) as nat;
        lemma_tallest_is_reached(t, content, m);
        let cells = t.row_cells(content);
        assert(cells[n - 1] == t.cell_lines(content[n - 1], n - 1));
        if tallest(cells, n) == tallest(cells, m) {
            if tallest(cells, m) != 1 {
                let i = choose|i: int|
                    0 <= i < m && tallest(cells, m) == t.cell_lines(
                        #[trigger] content[i],
                        i,
                    ).len();
                assert(tallest(cells, n) == t.cell_lines(content[i], i).len());
            }
        } else {
            assert(tallest(cells, n) == t.cell_lines(content[n - 1], n - 1).len());
        }
    }
}

proof fn lemma_repeated_chars(c: char, n: nat, i: int)
    requires
        0 <= i < n,
    ensures
        repeated(seq![c], n).len() == n,
        repeated(seq![c], n)[i] == c,
    decreases n,
{
    lemma_repeated_len(seq![c], n);
    lemma_repeated_len(seq![c], (n - 1) as nat);
    if i < n - 1 {
        lemma_repeated_chars(c, (n - 1) as nat, i);
    }
}

proof fn lemma_frame_pieces(t: TableView, separator: Seq<char>, n: nat, i: int)
    requires
        0 <= i < n,
    ensures
        t.frame_cells(separator, n).len() == 2 * n - 1,
        t.frame_cells(separator, n)[2 * i] == inked(
            repeated(t.frame_style.line.dash_glyph(), t.column_lens()[i] + 2),
            Ink::Frame,
        ),
        i > 0 ==> t.frame_cells(separator, n)[2 * i - 1] == inked(separator, Ink::Frame),
    decreases n,
{
    let m = (n - 1) as nat;
    if m > 0 {
        lemma_frame_pieces(t, separator, m, if i < m {
            i
        } else {
            0
        });
    } else {
        assert(t.frame_cells(separator, 0).len() == 0);
    }
}

/// A line of the frame is its first glyph, dashes over each column and the space around
/// it, the glyph between each two columns, and its last glyph.
pub proof fn law_frames_are_drawn_over_the_columns(
    t: TableView,
    leading: Seq<char>,
    separator: Seq<char>,
    trailing: Seq<char>,
    i: int,
    k: int,
)
    requires
        0 <= i < t.columns(),
        0 <= k < t.column_lens()[i] + 2,
    ensures
        ({
            let spans = t.frame_line(leading, separator, trailing);
            let dashes = spans[2 * i + 1].text;
            &&& spans.len() == 2 * t.columns() + 1
            &&& spans[0] == inked(leading, Ink::Frame)
            &&& i > 0 ==> spans[2 * i] == inked(separator, Ink::Frame)
            &&& spans[2 * t.columns() as int] == inked(trailing, Ink::Frame)
            &&& spans[2 * i + 1].ink == Ink::Frame
            &&& spans[2 * i + 1].width == 0
            &&& dashes.len() == t.column_lens()[i] + 2
            &&& seq![dashes[k]] == t.frame_style.line.dash_glyph()
        }),
{
    let inner = t.frame_cells(separator, t.columns());
    lemma_frame_pieces(t, separator, t.columns(), i);
    let spans = t.frame_line(leading, separator, trailing);
    assert(spans[2 * i + 1] == inner[2 * i]);
    if i > 0 {
        assert(spans[2 * i] == inner[2 * i - 1]);
    }
    lemma_line_glyphs(t.frame_style.line);
    let dash = t.frame_style.line.dash_glyph();
    assert(dash =~= seq![dash[0]]);
    lemma_repeated_chars(dash[0], t.column_lens()[i] + 2, k);
}

/// The frame starts and ends at its corners, and the lines inside it meet its sides.
pub proof fn law_frame_lines_meet_the_sides(t: TableView)
    ensures
        t.top_line() == t.frame_line(
            t.frame_style.corner.top_left_glyph(),
            t.frame_style.line.top_down_glyph(),
            t.frame_style.corner.top_right_glyph(),
        ),
        t.middle_line() == t.frame_line(
            t.frame_style.line.left_right_glyph(),
            t.frame_style.line.cross_glyph(),
            t.frame_style.line.right_left_glyph(),
        ),
        t.bottom_line() == t.frame_line(
            t.frame_style.corner.bottom_left_glyph(),
            t.frame_style.line.bottom_up_glyph(),
            t.frame_style.corner.bottom_right_glyph(),
        ),
{
}

/// Each line ends with a line feed, and pieces follow each other without anything in
/// between.
pub proof fn law_lines_follow_each_other(
    lines: Seq<Seq<SpanView>>,
    line: Seq<SpanView>,
    span: SpanView,
)
    ensures
        plain_text(Seq::empty()) == Seq::<char>::empty(),
        plain_text(lines.push(line)) == plain_text(lines) + plain_line(line) + seq!['\n'],
        plain_line(Seq::empty()) == Seq::<char>::empty(),
        plain_line(line.push(span)) == plain_line(line) + cell::padded(
            span.text,
            span.width,
            span.alignment,
        ),
{
    assert(lines.push(line).drop_last() == lines);
    lemma_plain_line_push(line, span);
}

/// Frame, header and cells are each printed in their own style, and what stands around
/// a cell in none.
pub proof fn law_pieces_are_printed_in_their_own_style(
    t: TableView,
    span: SpanView,
    out: Seq<char>,
)
    requires
        t.span_painted(span, out),
    ensures
        span.ink == Ink::Bare ==> out == cell::padded(span.text, span.width, span.alignment),
        span.ink == Ink::Frame ==> style::printed_in(
            span.text,
            t.frame_style.fgcolor,
            t.frame_style.bgcolor,
            t.frame_style.style,
            span.width,
            span.alignment,
            out,
        ),
        span.ink == Ink::Header ==> style::printed_in(
            span.text,
            t.header_style.fgcolor,
            t.header_style.bgcolor,
            t.header_style.style,
            span.width,
            span.alignment,
            out,
        ),
        span.ink == Ink::Text ==> style::printed_in(
            span.text,
            t.text_style.fgcolor,
            t.text_style.bgcolor,
            t.text_style.style,
            span.width,
            span.alignment,
            out,
        ),
{
}

/// What is printed of some lines is what is printed of each, in order, each with a line
/// feed behind it, and of a line what is printed of each of its pieces.
pub proof fn law_printed_lines_follow_each_other(
    t: TableView,
    lines: Seq<Seq<SpanView>>,
    line: Seq<SpanView>,
    span: SpanView,
    out: Seq<char>,
)
    ensures
        t.lines_painted(lines.push(line), out) <==> exists|before: Seq<char>, last: Seq<char>|
            t.lines_painted(lines, before) && t.line_painted(line, last) && out == #[trigger] (before
                + last) + seq!['\n'],
        t.line_painted(line.push(span), out) <==> exists|before: Seq<char>, last: Seq<char>|
            t.line_painted(line, before) && t.span_painted(span, last) && out == #[trigger] (before
                + last),
        t.lines_painted(Seq::empty(), out) <==> out.len() == 0,
        t.line_painted(Seq::empty(), out) <==> out.len() == 0,
{
    assert(lines.push(line).drop_last() == lines);
    assert(line.push(span).drop_last() == line);
    assert(out.len() == 0 ==> out =~= Seq::<char>::empty());
}

/// A column holds its cell of each row, from the first to the last, and a text is as
/// large as its encoding.
pub proof fn law_columns_hold_a_cell_of_each_row(t: TableView, index: int, row: int)
    requires
        0 <= row < t.rows.len(),
    ensures
        t.column_texts(index).len() == t.rows.len(),
        t.column_texts(index)[row] == t.rows[row][index],
        byte_len(t.rows[row][index]) == vstd::utf8::encode_utf8(t.rows[row][index]).len(),
{
}

/// The rows stand below each other in order, with all their lines, between two lines of
/// the frame; the header stands above and below them, and the frame around all.
pub proof fn law_rows_stand_below_each_other(t: TableView, m: nat)
    requires
        m < t.rows.len(),
    ensures
        t.body_lines(0).len() == 0,
        t.body_lines(m + 1) == t.body_lines(m) + t.row_lines(t.rows[m as int], Ink::Text),
        ({
            let header = t.row_lines(t.header, Ink::Header);
            let body = t.body_lines(t.rows.len());
            let (h, b) = (header.len() as int, body.len() as int);
            let lines = t.lines();
            &&& lines.len() == 2 * h + b + 4
            &&& lines[0] == t.top_line()
            &&& lines.subrange(1, 1 + h) == header
            &&& lines[1 + h] == t.middle_line()
            &&& lines.subrange(2 + h, 2 + h + b) == body
            &&& lines[2 + h + b] == t.middle_line()
            &&& lines.subrange(3 + h + b, 3 + 2 * h + b) == header
            &&& lines[3 + 2 * h + b] == t.bottom_line()
        }),
{
    let header = t.row_lines(t.header, Ink::Header);
    let body = t.body_lines(t.rows.len());
    let (h, b) = (header.len() as int, body.len() as int);
    let lines = t.lines();
    assert(lines.subrange(1, 1 + h) =~= header);
    assert(lines.subrange(2 + h, 2 + h + b) =~= body);
    assert(lines.subrange(3 + h + b, 3 + 2 * h + b) =~= header);
}

} // verus!
