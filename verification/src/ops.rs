//! The abstract layout-operation model.  The compositor translates the
//! promotion book into a deterministic sequence of these operations; an
//! unverified interpreter behind the library turns them into engine calls
//! and document bytes.  All geometry is integral: column positions in
//! percent-like page units, vertical slot heights in hundredths of an inch,
//! border line widths in tenths of a unit.

use vstd::prelude::*;

verus! {

/// Placement of content within its reserved box.
#[derive(Clone, Copy, PartialEq, Eq, Structural)]
pub enum Align {
    LeftBottom,
    LeftCenter,
    CenterCenter,
    RightJustifyCenter,
    LeftJustifyBottom,
    RightJustifyBottom,
    LeftJustifyCenter,
}

/// The typed rendering of one table column's cells: plain text, a
/// fixed-decimal number with two digits, or a currency amount with two
/// digits.
#[derive(Clone, Copy, PartialEq, Eq, Structural)]
pub enum CellKind {
    Text,
    Number2,
    Currency2,
}

/// Whether a table row is a plain data row or a single highlighted line.
#[derive(Clone, Copy, PartialEq, Eq, Structural)]
pub enum RowKind {
    Plain,
    Highlight,
}

/// A table's bordering policy: none, or all cells bordered with the given
/// line width and padding, both in tenths of a unit.
#[derive(Clone, Copy, PartialEq, Eq, Structural)]
pub enum BorderSpec {
    NoBorder,
    All { line_tenths: usize, pad_tenths: usize },
}

/// One table row.
pub struct Row {
    pub cells: Vec<String>,
    pub kind: RowKind,
}

/// The mathematical value of one table row.
#[verifier::ext_equal]
pub struct RowV {
    pub cells: Seq<Seq<char>>,
    pub kind: RowKind,
}

impl View for Row {
    type V = RowV;

    open spec fn view(&self) -> RowV {
        RowV { cells: crate::textfmt::views_of(self.cells@), kind: self.kind }
    }
}

/// A text box drawn into a reserved column range and vertical slot.
pub struct TextOp {
    pub col_start: usize,
    pub col_end: usize,
    pub new_page_first: bool,
    pub height_cin: usize,
    pub font_pt: usize,
    pub align: Align,
    pub text: String,
    pub group: Option<usize>,
}

/// The mathematical value of a text operation.
#[verifier::ext_equal]
pub struct TextOpV {
    pub col_start: usize,
    pub col_end: usize,
    pub new_page_first: bool,
    pub height_cin: usize,
    pub font_pt: usize,
    pub align: Align,
    pub text: Seq<char>,
    pub group: Option<usize>,
}

impl View for TextOp {
    type V = TextOpV;

    open spec fn view(&self) -> TextOpV {
        TextOpV {
            col_start: self.col_start,
            col_end: self.col_end,
            new_page_first: self.new_page_first,
            height_cin: self.height_cin,
            font_pt: self.font_pt,
            align: self.align,
            text: self.text@,
            group: self.group,
        }
    }
}

/// A typed multi-column table drawn into a reserved column range,
/// auto-paginating.
pub struct TableOp {
    pub col_start: usize,
    pub col_end: usize,
    pub col_widths: Vec<usize>,
    pub header: Option<Row>,
    pub rows: Vec<Row>,
    pub item_font_pt: usize,
    pub header_font_pt: usize,
    pub border: BorderSpec,
    pub black_border: bool,
    pub header_border: bool,
    pub cell_kinds: Vec<CellKind>,
    pub col_aligns: Vec<Align>,
    pub group: Option<usize>,
}

/// The mathematical value of a table operation.
#[verifier::ext_equal]
pub struct TableOpV {
    pub col_start: usize,
    pub col_end: usize,
    pub col_widths: Seq<usize>,
    pub header: Option<RowV>,
    pub rows: Seq<RowV>,
    pub item_font_pt: usize,
    pub header_font_pt: usize,
    pub border: BorderSpec,
    pub black_border: bool,
    pub header_border: bool,
    pub cell_kinds: Seq<CellKind>,
    pub col_aligns: Seq<Align>,
    pub group: Option<usize>,
}

/// The row values of a row list, in order.
pub open spec fn row_views(rows: Seq<Row>) -> Seq<RowV> {
    Seq::new(rows.len(), |i: int| rows[i]@)
}

impl View for TableOp {
    type V = TableOpV;

    open spec fn view(&self) -> TableOpV {
        TableOpV {
            col_start: self.col_start,
            col_end: self.col_end,
            col_widths: self.col_widths@,
            header: match self.header {
                Option::Some(h) => Option::Some(h@),
                Option::None => Option::None,
            },
            rows: row_views(self.rows@),
            item_font_pt: self.item_font_pt,
            header_font_pt: self.header_font_pt,
            border: self.border,
            black_border: self.black_border,
            header_border: self.header_border,
            cell_kinds: self.cell_kinds@,
            col_aligns: self.col_aligns@,
            group: self.group,
        }
    }
}

/// One abstract layout operation.
pub enum Op {
    Text(TextOp),
    Table(TableOp),
}

/// The mathematical value of one abstract layout operation.
#[verifier::ext_equal]
pub enum OpV {
    Text(TextOpV),
    Table(TableOpV),
}

impl View for Op {
    type V = OpV;

    open spec fn view(&self) -> OpV {
        match self {
            Op::Text(t) => OpV::Text(t@),
            Op::Table(t) => OpV::Table(t@),
        }
    }
}

/// The operation values of an operation list, in order.
pub open spec fn op_views(ops: Seq<Op>) -> Seq<OpV> {
    Seq::new(ops.len(), |i: int| ops[i]@)
}

/// Appending one operation appends its value.
pub proof fn lemma_op_views_push(ops: Seq<Op>, op: Op)
    ensures
        op_views(ops.push(op)) == op_views(ops).push(op@),
{
    assert(op_views(ops.push(op)) =~= op_views(ops).push(op@));
}

/// Portrait-or-landscape page geometry: page size and margins in hundredths
/// of an inch, plus the raster resolution in dots per inch.
#[derive(Clone, Copy, PartialEq, Eq, Structural)]
pub struct PageSetup {
    pub width_cin: usize,
    pub height_cin: usize,
    pub dpi: usize,
    pub margin_top_cin: usize,
    pub margin_bot_cin: usize,
}

/// The portrait page used by the gap reports: 8.5 by 11 inches at 72 dpi
/// with quarter-inch vertical margins.
pub open spec fn report_page() -> PageSetup {
    PageSetup { width_cin: 850, height_cin: 1100, dpi: 72, margin_top_cin: 25, margin_bot_cin: 25 }
}

/// The landscape page used by the detail listings: 11 by 8.5 inches at
/// 72 dpi with quarter-inch vertical margins.
pub open spec fn detail_page() -> PageSetup {
    PageSetup { width_cin: 1100, height_cin: 850, dpi: 72, margin_top_cin: 25, margin_bot_cin: 25 }
}

/// The page geometry for gap-report documents.
pub fn report_page_setup() -> (r: PageSetup)
    ensures
        r == report_page(),
{
    PageSetup { width_cin: 850, height_cin: 1100, dpi: 72, margin_top_cin: 25, margin_bot_cin: 25 }
}

/// The page geometry for detail-listing documents.
pub fn detail_page_setup() -> (r: PageSetup)
    ensures
        r == detail_page(),
{
    PageSetup { width_cin: 1100, height_cin: 850, dpi: 72, margin_top_cin: 25, margin_bot_cin: 25 }
}

/// A finished document plan: its page geometry and the full operation
/// sequence, ready for the layout interpreter.
pub struct DocPlan {
    pub page: PageSetup,
    pub ops: Vec<Op>,
}

} // verus!
