use vstd::prelude::*;

use crate::filter::{select_columns_spec, selects, Filter};
use crate::json::{rows_aligned, table_doc, JsonConverter, JsonTable, JsonTableView};
use crate::label::label_text;
use crate::names::{rewrite_table, HashNameTable};
use crate::schema::{column_schemas, lemma_schema_complete, schema_entries, ColumnSchemaView, FileSchema};
use crate::label::Label;
use crate::json::{read_outcome, ConvertError};
use crate::schema::BdatVersion;
use crate::label::label_of_text;
use crate::table::{RawTable, TableView};

verus! {

/// One table of a source file as it is written out: its file name and document.
#[derive(Clone, Debug, PartialEq)]
pub struct ExportedTable {
    pub file_name: String,
    pub doc: JsonTable,
}

/// The export settings of one run: the text format's converter, the names
/// that hashes resolve to, and the table and column filters.
pub struct ExportPlan {
    pub converter: JsonConverter,
    pub names: HashNameTable,
    pub table_filter: Filter,
    pub column_filter: Filter,
}

/// What exporting one table gives, once its labels are rewritten: nothing
/// for an unnamed or unselected table, else its file name and document.
pub open spec fn export_one(
    names: Seq<(u32, Seq<char>)>,
    tables: Seq<Seq<char>>,
    columns: Seq<Seq<char>>,
    untyped: bool,
    t: TableView,
) -> Option<(Seq<char>, JsonTableView)> {
    let rw = rewrite_table(names, t);
    match rw.name {
        Some(l) => if selects(tables, label_text(l)) {
            Some(
                (
                    label_text(l) + seq!['.'] + seq!['j', 's', 'o', 'n'],
                    table_doc(untyped, select_columns_spec(columns, rw)),
                ),
            )
        } else {
            None
        },
        None => None,
    }
}

/// What exporting the tables of one file gives, in table order.
pub open spec fn export_all(
    names: Seq<(u32, Seq<char>)>,
    tables: Seq<Seq<char>>,
    columns: Seq<Seq<char>>,
    untyped: bool,
    ts: Seq<TableView>,
) -> Seq<(Seq<char>, JsonTableView)>
    decreases ts.len(),
{
    if ts.len() == 0 {
        Seq::empty()
    } else {
        let rest = export_all(names, tables, columns, untyped, ts.drop_last());
        match export_one(names, tables, columns, untyped, ts.last()) {
            Some(e) => rest.push(e),
            None => rest,
        }
    }
}

pub open spec fn tables_view(ts: Seq<RawTable>) -> Seq<TableView> {
    ts.map_values(|t: RawTable| t@)
}

pub open spec fn rewritten(names: Seq<(u32, Seq<char>)>, ts: Seq<TableView>) -> Seq<TableView> {
    ts.map_values(|t: TableView| rewrite_table(names, t))
}

impl View for ExportedTable {
    type V = (Seq<char>, JsonTableView);

    open spec fn view(&self) -> (Seq<char>, JsonTableView) {
        (self.file_name@, self.doc@)
    }
}

impl ExportPlan {
    /// Exports the tables of one source file, in order. Each table has its
    /// hashed labels resolved first; the schema then records it whether or
    /// not it is selected; an unnamed or unselected table is not written; a
    /// selected one keeps only the selected columns.
    pub fn export_tables(&self, schema: &mut FileSchema, tables: Vec<RawTable>) -> (r: Vec<ExportedTable>)
        requires
            forall|i: int| 0 <= i < tables@.len() ==> rows_aligned(#[trigger] tables@[i]@),
        ensures
            final(schema).file_name == old(schema).file_name,
            final(schema).version == old(schema).version,
            final(schema)@ == old(schema)@ + schema_entries(rewritten(self.names@, tables_view(tables@))),
            r@.map_values(|e: ExportedTable| e@) == export_all(
                self.names@,
                self.table_filter@,
                self.column_filter@,
                self.converter.untyped,
                tables_view(tables@),
            ),
    {
        let ghost orig = tables@;
        let ghost nv = self.names@;
        let ghost tv = tables_view(orig);
        let ghost start = schema@;
        let ghost n = orig.len();
        let total = tables.len();
        let mut tables = tables;
        let mut out: Vec<ExportedTable> = Vec::new();
        let mut i: usize = 0;
        while tables.len() > 0
            invariant
                n == orig.len() == total,
                tv == tables_view(orig),
                nv == self.names@,
                forall|k: int| 0 <= k < orig.len() ==> rows_aligned(#[trigger] orig[k]@),
                i + tables@.len() == n,
                tables@ == orig.subrange(i as int, n as int),
                schema.file_name == old(schema).file_name,
                schema.version == old(schema).version,
                schema@ == start + schema_entries(rewritten(nv, tv.take(i as int))),
                out@.map_values(|e: ExportedTable| e@) == export_all(
                    nv,
                    self.table_filter@,
                    self.column_filter@,
                    self.converter.untyped,
                    tv.take(i as int),
                ),
            decreases tables.len(),
        {
            let mut table = tables.remove(0);
            assert(table == orig[i as int]);
            assert(tables@ =~= orig.subrange(i + 1, n as int));
            let ghost before = table@;
            self.names.convert_all(&mut table);
            let ghost pre = schema@;
            schema.feed_table(&table);
            let ghost prefix = tv.take(i + 1);
            assert(prefix.drop_last() =~= tv.take(i as int));
            assert(prefix.last() == before);
            assert(rewritten(nv, prefix).drop_last() =~= rewritten(nv, tv.take(i as int)));
            assert(schema@ =~= start + schema_entries(rewritten(nv, prefix)));
            let ghost out_before = out@.map_values(|e: ExportedTable| e@);
            match &table.name {
                Some(l) => {
                    if self.table_filter.contains_label(l) {
                        let text = l.text();
                        let file_name = self.converter.get_file_name(text.as_str());
                        let selected = self.column_filter.select_columns(table);
                        let doc = self.converter.write_table(selected);
                        out.push(ExportedTable { file_name, doc });
                        assert(out@.map_values(|e: ExportedTable| e@) =~= out_before.push(
                            export_one(nv, self.table_filter@, self.column_filter@, self.converter.untyped, before).unwrap(),
                        ));
                    }
                },
                None => {},
            }
            i = i + 1;
        }
        assert(tv.take(n as int) =~= tv);
        out
    }
}

/// Whatever the filters, the schema that exporting a file records lists
/// every named table of the file, under its rewritten name and with its
/// rewritten columns, so that a later import can rebuild it.
pub proof fn lemma_export_schema_complete(names: Seq<(u32, Seq<char>)>, ts: Seq<TableView>, i: int)
    requires
        0 <= i < ts.len(),
        rewrite_table(names, ts[i]).name is Some,
    ensures
        schema_entries(rewritten(names, ts)).contains(
            (
                label_text(rewrite_table(names, ts[i]).name->0),
                column_schemas(rewrite_table(names, ts[i]).columns),
            ),
        ),
{
    lemma_schema_complete(rewritten(names, ts), i);
}

/// Reads back one table document found beside a schema: the table's label
/// comes from the document's file stem, hashed where the file's format
/// version names tables by hashes.
pub fn import_table(converter: &JsonConverter, stem: &str, schema: &FileSchema, doc: &JsonTable) -> (r: Result<RawTable, ConvertError>)
    ensures
        read_outcome(
            Some(label_of_text(stem@, schema.version == BdatVersion::Modern)),
            schema@,
            doc@,
            r,
        ),
{
    let name = Label::parse(stem, schema.version.are_labels_hashed());
    converter.read_table(Some(name), schema, doc)
}

} // verus!
