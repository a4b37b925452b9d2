use vstd::prelude::*;

use crate::label::{Label, LabelView};
use crate::table::{option_label_view, ColumnDef, ColumnView, RawTable, TableView};

verus! {

/// A lookup from hashes to the names they were made from, loaded once and
/// then only read. Where a hash is listed twice, the first entry counts.
#[derive(Clone, Debug, PartialEq)]
pub struct HashNameTable {
    pub entries: Vec<(u32, String)>,
}

/// The name that the first entry for `h` gives, if any.
pub open spec fn resolve_in(entries: Seq<(u32, Seq<char>)>, h: u32) -> Option<Seq<char>>
    decreases entries.len(),
{
    if entries.len() == 0 {
        None
    } else if entries[0].0 == h {
        Some(entries[0].1)
    } else {
        resolve_in(entries.drop_first(), h)
    }
}

/// A hashed label whose hash resolves becomes that name, keeping the hash it
/// came from; any other label stays.
pub open spec fn rewrite_label(names: Seq<(u32, Seq<char>)>, l: LabelView) -> LabelView {
    match l {
        LabelView::Hash(h) => match resolve_in(names, h) {
            Some(n) => LabelView::Resolved(h, n),
            None => l,
        },
        _ => l,
    }
}

pub open spec fn rewrite_column(names: Seq<(u32, Seq<char>)>, c: ColumnView) -> ColumnView {
    ColumnView { label: rewrite_label(names, c.label), ..c }
}

/// The table with its name and every column name rewritten; rows untouched.
pub open spec fn rewrite_table(names: Seq<(u32, Seq<char>)>, t: TableView) -> TableView {
    TableView {
        name: match t.name {
            Some(l) => Some(rewrite_label(names, l)),
            None => None,
        },
        columns: t.columns.map_values(|c: ColumnView| rewrite_column(names, c)),
        rows: t.rows,
    }
}

impl View for HashNameTable {
    type V = Seq<(u32, Seq<char>)>;

    open spec fn view(&self) -> Seq<(u32, Seq<char>)> {
        self.entries@.map_values(|e: (u32, String)| (e.0, e.1@))
    }
}

/// Rewriting a label a second time changes nothing.
pub proof fn lemma_rewrite_label_idempotent(names: Seq<(u32, Seq<char>)>, l: LabelView)
    ensures
        rewrite_label(names, rewrite_label(names, l)) == rewrite_label(names, l),
{
}

/// Rewriting a table twice with the same names gives what rewriting it once gives.
pub proof fn lemma_rewrite_idempotent(names: Seq<(u32, Seq<char>)>, t: TableView)
    ensures
        rewrite_table(names, rewrite_table(names, t)) == rewrite_table(names, t),
{
    let once = rewrite_table(names, t);
    let twice = rewrite_table(names, once);
    assert(twice.columns =~= once.columns);
    assert(twice.name == once.name);
}

impl HashNameTable {
    pub fn new(entries: Vec<(u32, String)>) -> (r: HashNameTable)
        ensures
            r@ == entries@.map_values(|e: (u32, String)| (e.0, e.1@)),
    {
        HashNameTable { entries }
    }

    /// The name recorded for a hash, if any.
    pub fn resolve(&self, h: u32) -> (r: Option<String>)
        ensures
            match r {
                Some(n) => resolve_in(self@, h) == Some(n@),
                None => resolve_in(self@, h) is None,
            },
    {
        let mut i: usize = 0;
        assert(self@.subrange(0, self@.len() as int) =~= self@);
        while i < self.entries.len()
            invariant
                0 <= i <= self.entries.len(),
                resolve_in(self@, h) == resolve_in(self@.subrange(i as int, self@.len() as int), h),
            decreases self.entries.len() - i,
        {
            let ghost sub = self@.subrange(i as int, self@.len() as int);
            assert(sub[0] == self@[i as int]);
            assert(sub.drop_first() =~= self@.subrange(i + 1, self@.len() as int));
            if self.entries[i].0 == h {
                return Some(self.entries[i].1.clone());
            }
            i = i + 1;
        }
        None
    }

    /// The label with its hash resolved to the recorded name, where there is one;
    /// the resolved label keeps the hash it came from.
    pub fn rewrite_label(&self, l: &Label) -> (r: Label)
        ensures
            r@ == rewrite_label(self@, l@),
    {
        match l {
            Label::Hash(h) => match self.resolve(*h) {
                Some(n) => Label::Resolved(*h, n),
                None => Label::Hash(*h),
            },
            _ => l.copy(),
        }
    }

    /// Resolves, in place, the table's name and each column name that is a
    /// resolvable hash to the recorded name, keeping the hash it came from.
    /// Rows are left as they are.
    pub fn convert_all(&self, table: &mut RawTable)
        ensures
            final(table)@ == rewrite_table(self@, old(table)@),
    {
        let name = match &table.name {
            Some(l) => Some(self.rewrite_label(l)),
            None => None,
        };
        let mut columns: Vec<ColumnDef> = Vec::new();
        let mut j: usize = 0;
        while j < table.columns.len()
            invariant
                0 <= j <= table.columns.len(),
                columns@.len() == j,
                forall|k: int|
                    0 <= k < j ==> (#[trigger] columns@[k])@ == rewrite_column(
                        self@,
                        table.columns@[k]@,
                    ),
            decreases table.columns.len() - j,
        {
            let c = &table.columns[j];
            columns.push(ColumnDef { label: self.rewrite_label(&c.label), ty: c.ty, shape: c.shape, offset: c.offset });
            j = j + 1;
        }
        let ghost before = table@;
        table.name = name;
        table.columns = columns;
        assert(table@.columns =~= rewrite_table(self@, before).columns);
    }
}

} // verus!
