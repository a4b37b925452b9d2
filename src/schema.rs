use vstd::prelude::*;
use vstd::string::*;

use crate::label::{is_hashed, label_text, LabelView};
use crate::table::{ColumnView, RawTable, TableView};
use crate::value::{Shape, ValueType};

verus! {

/// The sub-format of a table file of the earlier games.
#[derive(Clone, Copy, PartialEq, Eq, Debug, Structural)]
pub enum LegacyVersion {
    Wii,
    New3ds,
    Switch,
    X,
}

/// The binary format version of a source file.
#[derive(Clone, Copy, PartialEq, Eq, Debug, Structural)]
pub enum BdatVersion {
    Legacy(LegacyVersion),
    Modern,
}

impl BdatVersion {
    /// Whether this format names tables and columns by hashes.
    pub fn are_labels_hashed(&self) -> (r: bool)
        ensures
            r == (*self == BdatVersion::Modern),
    {
        match self {
            BdatVersion::Modern => true,
            BdatVersion::Legacy(_) => false,
        }
    }
}

/// How one column is described in a schema: its name's text, its kind and
/// shape, and whether the name was originally a hash (also when it has been
/// resolved to a readable name).
#[derive(Clone, Debug, PartialEq)]
pub struct ColumnSchema {
    pub name: String,
    pub ty: ValueType,
    pub shape: Shape,
    pub hashed: bool,
}

pub struct ColumnSchemaView {
    pub name: Seq<char>,
    pub ty: ValueType,
    pub shape: Shape,
    pub hashed: bool,
}

impl View for ColumnSchema {
    type V = ColumnSchemaView;

    open spec fn view(&self) -> ColumnSchemaView {
        ColumnSchemaView { name: self.name@, ty: self.ty, shape: self.shape, hashed: self.hashed }
    }
}

/// The columns of one table of a file, under the table's name.
#[derive(Clone, Debug, PartialEq)]
pub struct TableSchema {
    pub name: String,
    pub columns: Vec<ColumnSchema>,
}

impl View for TableSchema {
    type V = (Seq<char>, Seq<ColumnSchemaView>);

    open spec fn view(&self) -> (Seq<char>, Seq<ColumnSchemaView>) {
        (self.name@, self.columns@.map_values(|c: ColumnSchema| c@))
    }
}

/// The layout of every table of one source file, with its format version:
/// what importing needs to rebuild the file.
#[derive(Clone, Debug, PartialEq)]
pub struct FileSchema {
    pub file_name: String,
    pub version: BdatVersion,
    pub tables: Vec<TableSchema>,
}

pub open spec fn column_schema(c: ColumnView) -> ColumnSchemaView {
    ColumnSchemaView { name: label_text(c.label), ty: c.ty, shape: c.shape, hashed: is_hashed(c.label) }
}

pub open spec fn column_schemas(cols: Seq<ColumnView>) -> Seq<ColumnSchemaView> {
    cols.map_values(|c: ColumnView| column_schema(c))
}

/// The schema entries that feeding `tables`, in order, records: one for each
/// named table.
pub open spec fn schema_entries(tables: Seq<TableView>) -> Seq<(Seq<char>, Seq<ColumnSchemaView>)>
    decreases tables.len(),
{
    if tables.len() == 0 {
        Seq::empty()
    } else {
        let last = tables.last();
        let rest = schema_entries(tables.drop_last());
        match last.name {
            Some(l) => rest.push((label_text(l), column_schemas(last.columns))),
            None => rest,
        }
    }
}

/// The first entry of `entries` named `name`, if any.
pub open spec fn lookup(entries: Seq<(Seq<char>, Seq<ColumnSchemaView>)>, name: Seq<char>) -> Option<
    Seq<ColumnSchemaView>,
>
    decreases entries.len(),
{
    if entries.len() == 0 {
        None
    } else if entries[0].0 == name {
        Some(entries[0].1)
    } else {
        lookup(entries.drop_first(), name)
    }
}

impl View for FileSchema {
    type V = Seq<(Seq<char>, Seq<ColumnSchemaView>)>;

    open spec fn view(&self) -> Seq<(Seq<char>, Seq<ColumnSchemaView>)> {
        self.tables@.map_values(|t: TableSchema| t@)
    }
}

/// What a schema records for its first table named `name` is found by
/// `lookup`, and each named table that was fed is listed under its text.
pub proof fn lemma_schema_complete(tables: Seq<TableView>, i: int)
    requires
        0 <= i < tables.len(),
        tables[i].name is Some,
    ensures
        schema_entries(tables).contains(
            (label_text(tables[i].name->0), column_schemas(tables[i].columns)),
        ),
        lookup(schema_entries(tables), label_text(tables[i].name->0)) is Some,
    decreases tables.len(),
{
    let e = (label_text(tables[i].name->0), column_schemas(tables[i].columns));
    let entries = schema_entries(tables);
    if i == tables.len() - 1 {
        assert(entries.last() == e);
        assert(entries[entries.len() - 1] == e);
    } else {
        lemma_schema_complete(tables.drop_last(), i);
        assert(tables.drop_last()[i] == tables[i]);
        let rest = schema_entries(tables.drop_last());
        let k = choose|k: int| 0 <= k < rest.len() && rest[k] == e;
        assert(entries[k] == e);
    }
    let k = choose|k: int| 0 <= k < entries.len() && entries[k] == e;
    lemma_lookup_found(entries, e.0, k);
}

proof fn lemma_lookup_found(entries: Seq<(Seq<char>, Seq<ColumnSchemaView>)>, name: Seq<char>, k: int)
    requires
        0 <= k < entries.len(),
        entries[k].0 == name,
    ensures
        lookup(entries, name) is Some,
    decreases k,
{
    if entries[0].0 != name {
        lemma_lookup_found(entries.drop_first(), name, k - 1);
    }
}

impl FileSchema {
    /// An empty schema for a file.
    pub fn new(file_name: String, version: BdatVersion) -> (r: FileSchema)
        ensures
            r.file_name@ == file_name@,
            r.version == version,
            r@ == Seq::<(Seq<char>, Seq<ColumnSchemaView>)>::empty(),
    {
        FileSchema { file_name, version, tables: Vec::new() }
    }

    /// The number of tables recorded.
    pub fn table_count(&self) -> (r: usize)
        ensures
            r == self@.len(),
    {
        self.tables.len()
    }

    /// Records the column layout of one table of the file, under its name.
    /// An unnamed table cannot be written out and is not recorded.
    pub fn feed_table(&mut self, table: &RawTable)
        ensures
            final(self).file_name == old(self).file_name,
            final(self).version == old(self).version,
            final(self)@ == match table@.name {
                Some(l) => old(self)@.push((label_text(l), column_schemas(table@.columns))),
                None => old(self)@,
            },
    {
        let name = match &table.name {
            Some(l) => l.text(),
            None => return,
        };
        let mut columns: Vec<ColumnSchema> = Vec::new();
        let mut j: usize = 0;
        while j < table.columns.len()
            invariant
                0 <= j <= table.columns.len(),
                columns@.len() == j,
                forall|k: int|
                    0 <= k < j ==> (#[trigger] columns@[k])@ == column_schema(table@.columns[k]),
            decreases table.columns.len() - j,
        {
            let c = &table.columns[j];
            columns.push(ColumnSchema { name: c.label.text(), ty: c.ty, shape: c.shape, hashed: c.label.is_hash() });
            j = j + 1;
        }
        let entry = TableSchema { name, columns };
        assert(entry@.1 =~= column_schemas(table@.columns));
        let ghost before = self@;
        self.tables.push(entry);
        assert(self@ =~= before.push(entry@));
    }

    /// The columns recorded for the first table named `name`, if any.
    pub fn columns_of(&self, name: &str) -> (r: Option<&Vec<ColumnSchema>>)
        ensures
            match r {
                Some(cols) => lookup(self@, name@) == Some(cols@.map_values(|c: ColumnSchema| c@)),
                None => lookup(self@, name@) is None,
            },
    {
        let wanted = name.to_owned();
        let mut i: usize = 0;
        assert(self@.subrange(0, self@.len() as int) =~= self@);
        while i < self.tables.len()
            invariant
                0 <= i <= self.tables.len(),
                wanted@ == name@,
                lookup(self@, name@) == lookup(self@.subrange(i as int, self@.len() as int), name@),
            decreases self.tables.len() - i,
        {
            let ghost sub = self@.subrange(i as int, self@.len() as int);
            assert(sub[0] == self@[i as int]);
            assert(sub.drop_first() =~= self@.subrange(i + 1, self@.len() as int));
            if self.tables[i].name == wanted {
                return Some(&self.tables[i].columns);
            }
            i = i + 1;
        }
        None
    }

    /// The file names of every recorded table: its name, a dot, the extension.
    pub fn table_file_names(&self, extension: &str) -> (r: Vec<String>)
        ensures
            r@.len() == self@.len(),
            forall|i: int|
                0 <= i < r@.len() ==> (#[trigger] r@[i])@ == self@[i].0 + seq!['.'] + extension@,
    {
        let mut out: Vec<String> = Vec::new();
        let mut i: usize = 0;
        while i < self.tables.len()
            invariant
                0 <= i <= self.tables.len(),
                out@.len() == i,
                forall|k: int|
                    0 <= k < i ==> (#[trigger] out@[k])@ == self@[k].0 + seq!['.'] + extension@,
            decreases self.tables.len() - i,
        {
            out.push(file_name_of(self.tables[i].name.as_str(), extension));
            i = i + 1;
        }
        out
    }
}

/// `name`, a dot, and `extension`.
pub fn file_name_of(name: &str, extension: &str) -> (r: String)
    ensures
        r@ == name@ + seq!['.'] + extension@,
{
    let mut s = name.to_owned();
    let dot = ".";
    proof {
        reveal_strlit(".");
    }
    s.append(dot);
    s.append(extension);
    s
}

} // verus!
