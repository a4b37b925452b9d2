use vstd::prelude::*;

use crate::label::{label_text, Label};
use crate::table::{ColumnDef, ColumnView, RawTable, Row, RowView, TableView};
use crate::value::Cell;

verus! {

/// A set of names that restricts which tables or columns take part in a run.
/// An empty set selects every name.
#[derive(Clone, Debug, PartialEq)]
pub struct Filter {
    pub names: Vec<String>,
}

impl View for Filter {
    type V = Seq<Seq<char>>;

    open spec fn view(&self) -> Seq<Seq<char>> {
        self.names@.map_values(|s: String| s@)
    }
}

/// Whether the filter given by `names` selects `name`.
pub open spec fn selects(names: Seq<Seq<char>>, name: Seq<char>) -> bool {
    names.len() == 0 || names.contains(name)
}

impl Filter {
    pub fn new(names: Vec<String>) -> (r: Filter)
        ensures
            r@ == names@.map_values(|s: String| s@),
    {
        Filter { names }
    }

    /// Whether the filter selects `name`: it is empty, or lists the name.
    pub fn contains(&self, name: &str) -> (r: bool)
        ensures
            r == selects(self@, name@),
    {
        if self.names.len() == 0 {
            return true;
        }
        let wanted = name.to_owned();
        let mut i: usize = 0;
        while i < self.names.len()
            invariant
                0 <= i <= self.names.len(),
                wanted@ == name@,
                forall|k: int| 0 <= k < i ==> self@[k] != name@,
            decreases self.names.len() - i,
        {
            if self.names[i] == wanted {
                assert(self@[i as int] == name@);
                return true;
            }
            i = i + 1;
        }
        false
    }

    /// Whether the filter selects the label, by its document text.
    pub fn contains_label(&self, l: &Label) -> (r: bool)
        ensures
            r == selects(self@, label_text(l@)),
    {
        let t = l.text();
        self.contains(t.as_str())
    }
}

/// The positions, in order, of the first `n` columns that the filter selects.
pub open spec fn kept_indices(names: Seq<Seq<char>>, cols: Seq<ColumnView>, n: nat) -> Seq<int>
    decreases n,
{
    if n == 0 {
        Seq::empty()
    } else {
        let rest = kept_indices(names, cols, (n - 1) as nat);
        if selects(names, label_text(cols[n - 1].label)) {
            rest.push(n - 1)
        } else {
            rest
        }
    }
}

/// The table restricted to the columns that the filter selects, each row
/// keeping the cells of those columns.
pub open spec fn select_columns_spec(names: Seq<Seq<char>>, t: TableView) -> TableView {
    let keep = kept_indices(names, t.columns, t.columns.len());
    TableView {
        name: t.name,
        columns: keep.map_values(|j: int| t.columns[j]),
        rows: t.rows.map_values(|r: RowView| RowView { id: r.id, cells: keep.map_values(|j: int| r.cells[j]) }),
    }
}

proof fn lemma_kept_bounds(names: Seq<Seq<char>>, cols: Seq<ColumnView>, n: nat)
    requires
        n <= cols.len(),
    ensures
        forall|k: int| 0 <= k < kept_indices(names, cols, n).len() ==> 0 <= #[trigger] kept_indices(names, cols, n)[k] < n,
    decreases n,
{
    if n > 0 {
        lemma_kept_bounds(names, cols, (n - 1) as nat);
        let rest = kept_indices(names, cols, (n - 1) as nat);
        let all = kept_indices(names, cols, n);
        assert forall|k: int| 0 <= k < all.len() implies 0 <= #[trigger] all[k] < n by {
            if k < rest.len() {
                assert(all[k] == rest[k]);
            }
        }
    }
}

impl Filter {
    /// Keeps the columns whose text the filter selects, and their cells.
    pub fn select_columns(&self, table: RawTable) -> (r: RawTable)
        requires
            forall|i: int| 0 <= i < table@.rows.len() ==> (#[trigger] table@.rows[i]).cells.len() == table@.columns.len(),
        ensures
            r@ == select_columns_spec(self@, table@),
    {
        let ghost tv = table@;
        let mut keep: Vec<usize> = Vec::new();
        let mut j: usize = 0;
        while j < table.columns.len()
            invariant
                tv == table@,
                0 <= j <= table.columns.len(),
                keep@.len() == kept_indices(self@, tv.columns, j as nat).len(),
                forall|k: int| 0 <= k < keep@.len() ==> (#[trigger] keep@[k]) as int == kept_indices(self@, tv.columns, j as nat)[k],
            decreases table.columns.len() - j,
        {
            if self.contains_label(&table.columns[j].label) {
                keep.push(j);
            }
            j = j + 1;
        }
        proof {
            lemma_kept_bounds(self@, tv.columns, tv.columns.len());
        }
        let ghost ks = kept_indices(self@, tv.columns, tv.columns.len());
        let mut columns: Vec<ColumnDef> = Vec::new();
        let mut k: usize = 0;
        while k < keep.len()
            invariant
                tv == table@,
                keep@.len() == ks.len(),
                forall|m: int| 0 <= m < keep@.len() ==> (#[trigger] keep@[m]) as int == ks[m],
                forall|m: int| 0 <= m < ks.len() ==> 0 <= #[trigger] ks[m] < tv.columns.len(),
                0 <= k <= keep.len(),
                columns@.len() == k,
                forall|m: int| 0 <= m < k ==> (#[trigger] columns@[m])@ == tv.columns[ks[m]],
            decreases keep.len() - k,
        {
            let c = &table.columns[keep[k]];
            columns.push(ColumnDef { label: c.label.copy(), ty: c.ty, shape: c.shape, offset: c.offset });
            k = k + 1;
        }
        let mut rows: Vec<Row> = Vec::new();
        let mut i: usize = 0;
        while i < table.rows.len()
            invariant
                tv == table@,
                forall|i: int| 0 <= i < tv.rows.len() ==> (#[trigger] tv.rows[i]).cells.len() == tv.columns.len(),
                keep@.len() == ks.len(),
                forall|m: int| 0 <= m < keep@.len() ==> (#[trigger] keep@[m]) as int == ks[m],
                forall|m: int| 0 <= m < ks.len() ==> 0 <= #[trigger] ks[m] < tv.columns.len(),
                0 <= i <= table.rows.len(),
                rows@.len() == i,
                forall|m: int| 0 <= m < i ==> (#[trigger] rows@[m])@ == (RowView {
                    id: tv.rows[m].id,
                    cells: ks.map_values(|j: int| tv.rows[m].cells[j]),
                }),
            decreases table.rows.len() - i,
        {
            let row = &table.rows[i];
            assert(tv.rows[i as int] == row@);
            let mut cells: Vec<Cell> = Vec::new();
            let mut k: usize = 0;
            while k < keep.len()
                invariant
                    tv == table@,
                    i < tv.rows.len(),
                    tv.rows[i as int] == row@,
                    row.cells.len() == tv.columns.len(),
                    keep@.len() == ks.len(),
                    forall|m: int| 0 <= m < keep@.len() ==> (#[trigger] keep@[m]) as int == ks[m],
                    forall|m: int| 0 <= m < ks.len() ==> 0 <= #[trigger] ks[m] < tv.columns.len(),
                    0 <= k <= keep.len(),
                    cells@.len() == k,
                    forall|m: int| 0 <= m < k ==> (#[trigger] cells@[m])@ == row@.cells[ks[m]],
                decreases keep.len() - k,
            {
                cells.push(row.cells[keep[k]].copy());
                k = k + 1;
            }
            let nr = Row { id: row.id, cells };
            assert(nr@.cells =~= ks.map_values(|j: int| tv.rows[i as int].cells[j]));
            rows.push(nr);
            i = i + 1;
        }
        let r = RawTable { name: table.name, columns, rows };
        assert(r@.columns =~= select_columns_spec(self@, tv).columns);
        assert(r@.rows =~= select_columns_spec(self@, tv).rows);
        r
    }
}

/// An empty filter selects every name; any other selects exactly the names
/// it lists.
pub proof fn lemma_filter_selects(names: Seq<Seq<char>>, name: Seq<char>)
    ensures
        names.len() == 0 ==> selects(names, name),
        names.len() > 0 ==> (selects(names, name) <==> exists|i: int| 0 <= i < names.len() && names[i] == name),
{
}

proof fn lemma_kept_all(cols: Seq<ColumnView>, n: nat)
    requires
        n <= cols.len(),
    ensures
        kept_indices(Seq::empty(), cols, n) =~= Seq::new(n, |j: int| j),
    decreases n,
{
    if n > 0 {
        lemma_kept_all(cols, (n - 1) as nat);
    }
}

/// An empty column filter keeps every column and every cell.
pub proof fn lemma_empty_filter_keeps_table(t: TableView)
    requires
        forall|i: int| 0 <= i < t.rows.len() ==> (#[trigger] t.rows[i]).cells.len() == t.columns.len(),
    ensures
        select_columns_spec(Seq::empty(), t) == t,
{
    lemma_kept_all(t.columns, t.columns.len());
    let r = select_columns_spec(Seq::empty(), t);
    assert(r.columns =~= t.columns);
    assert forall|i: int| 0 <= i < t.rows.len() implies #[trigger] r.rows[i] == t.rows[i] by {
        assert(r.rows[i].cells =~= t.rows[i].cells);
    }
    assert(r.rows =~= t.rows);
}

} // verus!
