use vstd::prelude::*;

use crate::label::{Label, LabelView};
use crate::value::{cell_fits, Cell, CellView, Shape, ValueType};

verus! {

/// A column: its name, the kind and shape of its values, and where the
/// binary codec placed it in a row (meaningful only to that codec).
#[derive(Clone, Debug, PartialEq)]
pub struct ColumnDef {
    pub label: Label,
    pub ty: ValueType,
    pub shape: Shape,
    pub offset: usize,
}

/// A row: its stable id and one cell per column.
#[derive(Clone, Debug, PartialEq)]
pub struct Row {
    pub id: usize,
    pub cells: Vec<Cell>,
}

/// A table: an optional name, its columns in order and its rows in order.
#[derive(Clone, Debug, PartialEq)]
pub struct RawTable {
    pub name: Option<Label>,
    pub columns: Vec<ColumnDef>,
    pub rows: Vec<Row>,
}

pub struct ColumnView {
    pub label: LabelView,
    pub ty: ValueType,
    pub shape: Shape,
    pub offset: usize,
}

pub struct RowView {
    pub id: usize,
    pub cells: Seq<CellView>,
}

pub struct TableView {
    pub name: Option<LabelView>,
    pub columns: Seq<ColumnView>,
    pub rows: Seq<RowView>,
}

impl View for ColumnDef {
    type V = ColumnView;

    open spec fn view(&self) -> ColumnView {
        ColumnView { label: self.label@, ty: self.ty, shape: self.shape, offset: self.offset }
    }
}

impl View for Row {
    type V = RowView;

    open spec fn view(&self) -> RowView {
        RowView { id: self.id, cells: self.cells@.map_values(|c: Cell| c@) }
    }
}

pub open spec fn option_label_view(l: Option<Label>) -> Option<LabelView> {
    match l {
        Some(x) => Some(x@),
        None => None,
    }
}

impl View for RawTable {
    type V = TableView;

    open spec fn view(&self) -> TableView {
        TableView {
            name: option_label_view(self.name),
            columns: self.columns@.map_values(|c: ColumnDef| c@),
            rows: self.rows@.map_values(|r: Row| r@),
        }
    }
}

/// Whether a row has one cell per column, each fitting its column.
pub open spec fn row_fits(columns: Seq<ColumnView>, row: RowView) -> bool {
    &&& row.cells.len() == columns.len()
    &&& forall|j: int|
        0 <= j < columns.len() ==> cell_fits(columns[j].shape, columns[j].ty, #[trigger] row.cells[j])
}

/// Whether every row of the table fits its columns.
pub open spec fn table_wf(t: TableView) -> bool {
    forall|i: int| 0 <= i < t.rows.len() ==> row_fits(t.columns, #[trigger] t.rows[i])
}

impl RawTable {
    /// Whether every row has one cell per column, each fitting its column.
    pub fn is_well_formed(&self) -> (r: bool)
        ensures
            r == table_wf(self@),
    {
        let ncols = self.columns.len();
        let mut i: usize = 0;
        while i < self.rows.len()
            invariant
                ncols == self.columns.len(),
                0 <= i <= self.rows.len(),
                forall|k: int| 0 <= k < i ==> row_fits(self@.columns, #[trigger] self@.rows[k]),
            decreases self.rows.len() - i,
        {
            let row = &self.rows[i];
            assert(self@.rows[i as int] == row@);
            if row.cells.len() != ncols {
                assert(!row_fits(self@.columns, self@.rows[i as int]));
                return false;
            }
            let mut j: usize = 0;
            while j < ncols
                invariant
                    ncols == self.columns.len() == row.cells.len(),
                    i < self.rows.len(),
                    row == self.rows[i as int],
                    self@.rows[i as int] == row@,
                    0 <= j <= ncols,
                    forall|m: int|
                        0 <= m < j ==> cell_fits(
                            self@.columns[m].shape,
                            self@.columns[m].ty,
                            #[trigger] self@.rows[i as int].cells[m],
                        ),
                decreases ncols - j,
            {
                if !row.cells[j].fits(self.columns[j].shape, self.columns[j].ty) {
                    assert(row@.cells[j as int] == row.cells[j as int]@);
                    return false;
                }
                j = j + 1;
            }
            i = i + 1;
        }
        true
    }
}

} // verus!
