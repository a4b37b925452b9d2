use vstd::prelude::*;

use crate::label::{label_of_text, label_text, restored, Label};
use crate::schema::{column_schema, column_schemas, lookup, ColumnSchema, ColumnSchemaView, FileSchema, file_name_of};
use crate::table::{option_label_view, row_fits, table_wf, ColumnDef, ColumnView, RawTable, Row, RowView, TableView};
use crate::value::{cell_fits, type_of, Cell, CellView, Shape, Value, ValueType, ValueView};

verus! {

/// A scalar of a JSON document. Every integer kind is a number; a float is
/// carried as its IEEE-754 bits, which the text layer writes as a number.
#[derive(Clone, Debug, PartialEq)]
pub enum JsonValue {
    Null,
    Int(i64),
    Float(u32),
    Str(String),
}

pub enum JsonView {
    Null,
    Int(int),
    Float(u32),
    Str(Seq<char>),
}

impl View for JsonValue {
    type V = JsonView;

    open spec fn view(&self) -> JsonView {
        match self {
            JsonValue::Null => JsonView::Null,
            JsonValue::Int(n) => JsonView::Int(*n as int),
            JsonValue::Float(b) => JsonView::Float(*b),
            JsonValue::Str(s) => JsonView::Str(s@),
        }
    }
}

/// How a cell is written: integers and hash references as numbers, text as a
/// string, a float as its number, an unknown value as null.
pub open spec fn render(v: ValueView) -> JsonView {
    match v {
        ValueView::Unknown => JsonView::Null,
        ValueView::UnsignedByte(x) => JsonView::Int(x as int),
        ValueView::UnsignedShort(x) => JsonView::Int(x as int),
        ValueView::UnsignedInt(x) => JsonView::Int(x as int),
        ValueView::SignedByte(x) => JsonView::Int(x as int),
        ValueView::SignedShort(x) => JsonView::Int(x as int),
        ValueView::SignedInt(x) => JsonView::Int(x as int),
        ValueView::String(s) => JsonView::Str(s),
        ValueView::Float(b) => JsonView::Float(b),
        ValueView::HashRef(x) => JsonView::Int(x as int),
        ValueView::Percent(x) => JsonView::Int(x as int),
        ValueView::DebugString(s) => JsonView::Str(s),
        ValueView::Unknown12(x) => JsonView::Int(x as int),
        ValueView::MessageId(x) => JsonView::Int(x as int),
    }
}

pub open spec fn in_range(n: int, lo: int, hi: int) -> bool {
    lo <= n <= hi
}

/// How a written cell is read back under its column's kind; `None` where the
/// value does not fit the kind.
pub open spec fn decode(ty: ValueType, j: JsonView) -> Option<ValueView> {
    match (ty, j) {
        (ValueType::Unknown, JsonView::Null) => Some(ValueView::Unknown),
        (ValueType::UnsignedByte, JsonView::Int(n)) => if in_range(n, 0, 0xff) {
            Some(ValueView::UnsignedByte(n as u8))
        } else {
            None
        },
        (ValueType::UnsignedShort, JsonView::Int(n)) => if in_range(n, 0, 0xffff) {
            Some(ValueView::UnsignedShort(n as u16))
        } else {
            None
        },
        (ValueType::UnsignedInt, JsonView::Int(n)) => if in_range(n, 0, 0xffff_ffff) {
            Some(ValueView::UnsignedInt(n as u32))
        } else {
            None
        },
        (ValueType::SignedByte, JsonView::Int(n)) => if in_range(n, -0x80, 0x7f) {
            Some(ValueView::SignedByte(n as i8))
        } else {
            None
        },
        (ValueType::SignedShort, JsonView::Int(n)) => if in_range(n, -0x8000, 0x7fff) {
            Some(ValueView::SignedShort(n as i16))
        } else {
            None
        },
        (ValueType::SignedInt, JsonView::Int(n)) => if in_range(n, -0x8000_0000, 0x7fff_ffff) {
            Some(ValueView::SignedInt(n as i32))
        } else {
            None
        },
        (ValueType::String, JsonView::Str(s)) => Some(ValueView::String(s)),
        (ValueType::Float, JsonView::Float(b)) => Some(ValueView::Float(b)),
        (ValueType::HashRef, JsonView::Int(n)) => if in_range(n, 0, 0xffff_ffff) {
            Some(ValueView::HashRef(n as u32))
        } else {
            None
        },
        (ValueType::Percent, JsonView::Int(n)) => if in_range(n, 0, 0xff) {
            Some(ValueView::Percent(n as u8))
        } else {
            None
        },
        (ValueType::DebugString, JsonView::Str(s)) => Some(ValueView::DebugString(s)),
        (ValueType::Unknown12, JsonView::Int(n)) => if in_range(n, 0, 0xff) {
            Some(ValueView::Unknown12(n as u8))
        } else {
            None
        },
        (ValueType::MessageId, JsonView::Int(n)) => if in_range(n, 0, 0xffff) {
            Some(ValueView::MessageId(n as u16))
        } else {
            None
        },
        _ => None,
    }
}

/// A cell written and read back under its own kind is the same cell.
pub proof fn lemma_cell_round_trip(v: ValueView)
    ensures
        decode(type_of(v), render(v)) == Some(v),
{
}

/// Writes one cell.
pub fn render_value(v: &Value) -> (r: JsonValue)
    ensures
        r@ == render(v@),
{
    match v {
        Value::Unknown => JsonValue::Null,
        Value::UnsignedByte(x) => JsonValue::Int(*x as i64),
        Value::UnsignedShort(x) => JsonValue::Int(*x as i64),
        Value::UnsignedInt(x) => JsonValue::Int(*x as i64),
        Value::SignedByte(x) => JsonValue::Int(*x as i64),
        Value::SignedShort(x) => JsonValue::Int(*x as i64),
        Value::SignedInt(x) => JsonValue::Int(*x as i64),
        Value::String(s) => JsonValue::Str(s.clone()),
        Value::Float(b) => JsonValue::Float(*b),
        Value::HashRef(x) => JsonValue::Int(*x as i64),
        Value::Percent(x) => JsonValue::Int(*x as i64),
        Value::DebugString(s) => JsonValue::Str(s.clone()),
        Value::Unknown12(x) => JsonValue::Int(*x as i64),
        Value::MessageId(x) => JsonValue::Int(*x as i64),
    }
}

/// Reads one cell back under its column's kind.
pub fn decode_value(ty: ValueType, j: &JsonValue) -> (r: Option<Value>)
    ensures
        match r {
            Some(v) => decode(ty, j@) == Some(v@),
            None => decode(ty, j@) is None,
        },
{
    match (ty, j) {
        (ValueType::Unknown, JsonValue::Null) => Some(Value::Unknown),
        (ValueType::UnsignedByte, JsonValue::Int(n)) => if 0 <= *n && *n <= 0xff {
            Some(Value::UnsignedByte(*n as u8))
        } else {
            None
        },
        (ValueType::UnsignedShort, JsonValue::Int(n)) => if 0 <= *n && *n <= 0xffff {
            Some(Value::UnsignedShort(*n as u16))
        } else {
            None
        },
        (ValueType::UnsignedInt, JsonValue::Int(n)) => if 0 <= *n && *n <= 0xffff_ffff {
            Some(Value::UnsignedInt(*n as u32))
        } else {
            None
        },
        (ValueType::SignedByte, JsonValue::Int(n)) => if -0x80 <= *n && *n <= 0x7f {
            Some(Value::SignedByte(*n as i8))
        } else {
            None
        },
        (ValueType::SignedShort, JsonValue::Int(n)) => if -0x8000 <= *n && *n <= 0x7fff {
            Some(Value::SignedShort(*n as i16))
        } else {
            None
        },
        (ValueType::SignedInt, JsonValue::Int(n)) => if -0x8000_0000 <= *n && *n <= 0x7fff_ffff {
            Some(Value::SignedInt(*n as i32))
        } else {
            None
        },
        (ValueType::String, JsonValue::Str(s)) => Some(Value::String(s.clone())),
        (ValueType::Float, JsonValue::Float(b)) => Some(Value::Float(*b)),
        (ValueType::HashRef, JsonValue::Int(n)) => if 0 <= *n && *n <= 0xffff_ffff {
            Some(Value::HashRef(*n as u32))
        } else {
            None
        },
        (ValueType::Percent, JsonValue::Int(n)) => if 0 <= *n && *n <= 0xff {
            Some(Value::Percent(*n as u8))
        } else {
            None
        },
        (ValueType::DebugString, JsonValue::Str(s)) => Some(Value::DebugString(s.clone())),
        (ValueType::Unknown12, JsonValue::Int(n)) => if 0 <= *n && *n <= 0xff {
            Some(Value::Unknown12(*n as u8))
        } else {
            None
        },
        (ValueType::MessageId, JsonValue::Int(n)) => if 0 <= *n && *n <= 0xffff {
            Some(Value::MessageId(*n as u16))
        } else {
            None
        },
        _ => None,
    }
}

/// A field's value in a document: one scalar, or an array of them.
#[derive(Clone, Debug, PartialEq)]
pub enum JsonCell {
    Single(JsonValue),
    List(Vec<JsonValue>),
}

pub enum JsonCellView {
    Single(JsonView),
    List(Seq<JsonView>),
}

impl View for JsonCell {
    type V = JsonCellView;

    open spec fn view(&self) -> JsonCellView {
        match self {
            JsonCell::Single(v) => JsonCellView::Single(v@),
            JsonCell::List(vs) => JsonCellView::List(vs@.map_values(|v: JsonValue| v@)),
        }
    }
}

/// How a cell is written: a single value as its scalar, a list as an array
/// of its values, flags as an array of numbers.
pub open spec fn render_cell(c: CellView) -> JsonCellView {
    match c {
        CellView::Single(v) => JsonCellView::Single(render(v)),
        CellView::List(vs) => JsonCellView::List(vs.map_values(|v: ValueView| render(v))),
        CellView::Flags(fs) => JsonCellView::List(fs.map_values(|f: u32| JsonView::Int(f as int))),
    }
}

/// The flag value that an array element stands for, if it is one.
pub open spec fn flag_of(j: JsonView) -> Option<u32> {
    match j {
        JsonView::Int(n) => if in_range(n, 0, 0xffff_ffff) {
            Some(n as u32)
        } else {
            None
        },
        _ => None,
    }
}

/// How a written cell is read back under its column's shape and kind.
pub open spec fn decode_cell(shape: Shape, ty: ValueType, j: JsonCellView) -> Option<CellView> {
    match (shape, j) {
        (Shape::Single, JsonCellView::Single(x)) => match decode(ty, x) {
            Some(v) => Some(CellView::Single(v)),
            None => None,
        },
        (Shape::List, JsonCellView::List(xs)) => if forall|i: int|
            0 <= i < xs.len() ==> (#[trigger] decode(ty, xs[i])) is Some {
            Some(CellView::List(xs.map_values(|x: JsonView| decode(ty, x)->0)))
        } else {
            None
        },
        (Shape::Flags, JsonCellView::List(xs)) => if forall|i: int|
            0 <= i < xs.len() ==> (#[trigger] flag_of(xs[i])) is Some {
            Some(CellView::Flags(xs.map_values(|x: JsonView| flag_of(x)->0)))
        } else {
            None
        },
        _ => None,
    }
}

/// A cell written and read back under the shape and kind that it fits is
/// the same cell.
pub proof fn lemma_cell_shape_round_trip(shape: Shape, ty: ValueType, c: CellView)
    requires
        cell_fits(shape, ty, c),
    ensures
        decode_cell(shape, ty, render_cell(c)) == Some(c),
{
    match c {
        CellView::Single(v) => {
            lemma_cell_round_trip(v);
        },
        CellView::List(vs) => {
            let xs = vs.map_values(|v: ValueView| render(v));
            assert forall|i: int| 0 <= i < xs.len() implies (#[trigger] decode(ty, xs[i])) == Some(vs[i]) by {
                lemma_cell_round_trip(vs[i]);
            }
            assert(xs.map_values(|x: JsonView| decode(ty, x)->0) =~= vs);
        },
        CellView::Flags(fs) => {
            let xs = fs.map_values(|f: u32| JsonView::Int(f as int));
            assert forall|i: int| 0 <= i < xs.len() implies (#[trigger] flag_of(xs[i])) == Some(fs[i]) by {}
            assert(xs.map_values(|x: JsonView| flag_of(x)->0) =~= fs);
        },
    }
}

/// Writes one cell.
pub fn render_cell_value(c: &Cell) -> (r: JsonCell)
    ensures
        r@ == render_cell(c@),
{
    match c {
        Cell::Single(v) => JsonCell::Single(render_value(v)),
        Cell::List(vs) => {
            let mut out: Vec<JsonValue> = Vec::new();
            let mut i: usize = 0;
            while i < vs.len()
                invariant
                    0 <= i <= vs.len(),
                    out@.len() == i,
                    forall|k: int| 0 <= k < i ==> (#[trigger] out@[k])@ == render(vs@[k]@),
                decreases vs.len() - i,
            {
                out.push(render_value(&vs[i]));
                i = i + 1;
            }
            let r = JsonCell::List(out);
            assert(out@.map_values(|v: JsonValue| v@) =~= vs@.map_values(|v: Value| v@).map_values(
                |v: ValueView| render(v),
            ));
            r
        },
        Cell::Flags(fs) => {
            let mut out: Vec<JsonValue> = Vec::new();
            let mut i: usize = 0;
            while i < fs.len()
                invariant
                    0 <= i <= fs.len(),
                    out@.len() == i,
                    forall|k: int| 0 <= k < i ==> (#[trigger] out@[k])@ == JsonView::Int(fs@[k] as int),
                decreases fs.len() - i,
            {
                out.push(JsonValue::Int(fs[i] as i64));
                i = i + 1;
            }
            let r = JsonCell::List(out);
            assert(out@.map_values(|v: JsonValue| v@) =~= fs@.map_values(|f: u32| JsonView::Int(f as int)));
            r
        },
    }
}

/// Reads one cell back under its column's shape and kind.
pub fn decode_cell_value(shape: Shape, ty: ValueType, j: &JsonCell) -> (r: Option<Cell>)
    ensures
        match r {
            Some(c) => decode_cell(shape, ty, j@) == Some(c@),
            None => decode_cell(shape, ty, j@) is None,
        },
{
    match (shape, j) {
        (Shape::Single, JsonCell::Single(x)) => match decode_value(ty, x) {
            Some(v) => Some(Cell::Single(v)),
            None => None,
        },
        (Shape::List, JsonCell::List(xs)) => {
            let ghost xv = xs@.map_values(|v: JsonValue| v@);
            let mut out: Vec<Value> = Vec::new();
            let mut i: usize = 0;
            while i < xs.len()
                invariant
                    xv == xs@.map_values(|v: JsonValue| v@),
                    shape == Shape::List,
                    j@ == JsonCellView::List(xv),
                    0 <= i <= xs.len(),
                    out@.len() == i,
                    forall|k: int| 0 <= k < i ==> decode(ty, #[trigger] xv[k]) == Some(out@[k]@),
                decreases xs.len() - i,
            {
                match decode_value(ty, &xs[i]) {
                    Some(v) => {
                        out.push(v);
                    },
                    None => {
                        assert(decode(ty, xv[i as int]) is None);
                        return None;
                    },
                }
                i = i + 1;
            }
            assert(out@.map_values(|v: Value| v@) =~= xv.map_values(|x: JsonView| decode(ty, x)->0));
            Some(Cell::List(out))
        },
        (Shape::Flags, JsonCell::List(xs)) => {
            let ghost xv = xs@.map_values(|v: JsonValue| v@);
            let mut out: Vec<u32> = Vec::new();
            let mut i: usize = 0;
            while i < xs.len()
                invariant
                    xv == xs@.map_values(|v: JsonValue| v@),
                    shape == Shape::Flags,
                    j@ == JsonCellView::List(xv),
                    0 <= i <= xs.len(),
                    out@.len() == i,
                    forall|k: int| 0 <= k < i ==> flag_of(#[trigger] xv[k]) == Some(out@[k]),
                decreases xs.len() - i,
            {
                assert(xv[i as int] == xs@[i as int]@);
                match &xs[i] {
                    JsonValue::Int(n) => {
                        if 0 <= *n && *n <= 0xffff_ffff {
                            out.push(*n as u32);
                        } else {
                            assert(flag_of(xv[i as int]) is None);
                            return None;
                        }
                    },
                    _ => {
                        assert(flag_of(xv[i as int]) is None);
                        return None;
                    },
                }
                i = i + 1;
            }
            assert(out@ =~= xv.map_values(|x: JsonView| flag_of(x)->0));
            Some(Cell::Flags(out))
        },
        _ => None,
    }
}

/// One row of a document: the row's stable id and one named field per column.
#[derive(Clone, Debug, PartialEq)]
pub struct TableRow {
    pub id: usize,
    pub cells: Vec<(String, JsonCell)>,
}

/// A table as a JSON document: the column descriptions where the document
/// describes itself, and the rows.
#[derive(Clone, Debug, PartialEq)]
pub struct JsonTable {
    pub schema: Option<Vec<ColumnSchema>>,
    pub rows: Vec<TableRow>,
}

pub struct JsonRowView {
    pub id: usize,
    pub fields: Seq<(Seq<char>, JsonCellView)>,
}

pub struct JsonTableView {
    pub schema: Option<Seq<ColumnSchemaView>>,
    pub rows: Seq<JsonRowView>,
}

impl View for TableRow {
    type V = JsonRowView;

    open spec fn view(&self) -> JsonRowView {
        JsonRowView { id: self.id, fields: self.cells@.map_values(|f: (String, JsonCell)| (f.0@, f.1@)) }
    }
}

pub open spec fn schema_view(s: Option<Vec<ColumnSchema>>) -> Option<Seq<ColumnSchemaView>> {
    match s {
        Some(cols) => Some(cols@.map_values(|c: ColumnSchema| c@)),
        None => None,
    }
}

impl View for JsonTable {
    type V = JsonTableView;

    open spec fn view(&self) -> JsonTableView {
        JsonTableView { schema: schema_view(self.schema), rows: self.rows@.map_values(|r: TableRow| r@) }
    }
}

/// The document row for a table row: `$id` and, in column order, each
/// column's text with the cell written under it.
pub open spec fn row_doc(columns: Seq<ColumnView>, row: RowView) -> JsonRowView {
    JsonRowView {
        id: row.id,
        fields: Seq::new(columns.len(), |j: int| (label_text(columns[j].label), render_cell(row.cells[j]))),
    }
}

/// The document for a table; the column descriptions are left out when `untyped`.
pub open spec fn table_doc(untyped: bool, t: TableView) -> JsonTableView {
    JsonTableView {
        schema: if untyped { None } else { Some(column_schemas(t.columns)) },
        rows: t.rows.map_values(|r: RowView| row_doc(t.columns, r)),
    }
}

/// Whether every row has one cell per column.
pub open spec fn rows_aligned(t: TableView) -> bool {
    forall|i: int| 0 <= i < t.rows.len() ==> (#[trigger] t.rows[i]).cells.len() == t.columns.len()
}

/// Options of the JSON text format.
#[derive(Clone, Copy, Debug, PartialEq, Eq, Structural)]
pub struct JsonOptions {
    /// Whether the text layer writes indented output.
    pub pretty: bool,
}

/// Converts tables to JSON documents and back.
#[derive(Clone, Debug, PartialEq)]
pub struct JsonConverter {
    pub untyped: bool,
    pub pretty: bool,
}

impl JsonConverter {
    /// A converter; `untyped` leaves column descriptions out of documents
    /// (the file schema then holds them).
    pub fn new(untyped: bool, opts: &JsonOptions) -> (r: JsonConverter)
        ensures
            r.untyped == untyped,
            r.pretty == opts.pretty,
    {
        JsonConverter { untyped, pretty: opts.pretty }
    }

    /// The document for a table.
    pub fn write_table(&self, table: RawTable) -> (r: JsonTable)
        requires
            rows_aligned(table@),
        ensures
            r@ == table_doc(self.untyped, table@),
    {
        let schema = if self.untyped {
            None
        } else {
            let mut cols: Vec<ColumnSchema> = Vec::new();
            let mut j: usize = 0;
            while j < table.columns.len()
                invariant
                    0 <= j <= table.columns.len(),
                    cols@.len() == j,
                    forall|k: int|
                        0 <= k < j ==> (#[trigger] cols@[k])@ == column_schema(table@.columns[k]),
                decreases table.columns.len() - j,
            {
                let c = &table.columns[j];
                cols.push(ColumnSchema { name: c.label.text(), ty: c.ty, shape: c.shape, hashed: c.label.is_hash() });
                j = j + 1;
            }
            assert(cols@.map_values(|c: ColumnSchema| c@) =~= column_schemas(table@.columns));
            Some(cols)
        };
        let mut names: Vec<String> = Vec::new();
        let mut j: usize = 0;
        while j < table.columns.len()
            invariant
                0 <= j <= table.columns.len(),
                names@.len() == j,
                forall|k: int| 0 <= k < j ==> (#[trigger] names@[k])@ == label_text(table@.columns[k].label),
            decreases table.columns.len() - j,
        {
            names.push(table.columns[j].label.text());
            j = j + 1;
        }
        let mut rows: Vec<TableRow> = Vec::new();
        let mut i: usize = 0;
        while i < table.rows.len()
            invariant
                rows_aligned(table@),
                names@.len() == table.columns.len(),
                forall|k: int| 0 <= k < names@.len() ==> (#[trigger] names@[k])@ == label_text(table@.columns[k].label),
                0 <= i <= table.rows.len(),
                rows@.len() == i,
                forall|k: int| 0 <= k < i ==> (#[trigger] rows@[k])@ == row_doc(table@.columns, table@.rows[k]),
            decreases table.rows.len() - i,
        {
            let row = &table.rows[i];
            assert(table@.rows[i as int] == row@);
            let mut cells: Vec<(String, JsonCell)> = Vec::new();
            let mut j: usize = 0;
            while j < names.len()
                invariant
                    names@.len() == table.columns.len() == row.cells.len(),
                    forall|k: int| 0 <= k < names@.len() ==> (#[trigger] names@[k])@ == label_text(table@.columns[k].label),
                    0 <= j <= names.len(),
                    cells@.len() == j,
                    forall|k: int|
                        0 <= k < j ==> ((#[trigger] cells@[k]).0@, cells@[k].1@) == (
                            label_text(table@.columns[k].label),
                            render_cell(row@.cells[k]),
                        ),
                decreases names.len() - j,
            {
                cells.push((names[j].clone(), render_cell_value(&row.cells[j])));
                j = j + 1;
            }
            let tr = TableRow { id: row.id, cells };
            assert(tr@.fields =~= row_doc(table@.columns, row@).fields);
            rows.push(tr);
            i = i + 1;
        }
        let r = JsonTable { schema, rows };
        assert(r@.rows =~= table_doc(self.untyped, table@).rows);
        r
    }

    /// The file name for a table's document.
    pub fn get_file_name(&self, table_name: &str) -> (r: String)
        ensures
            r@ == table_name@ + seq!['.'] + seq!['j', 's', 'o', 'n'],
    {
        let ext = self.get_table_extension();
        file_name_of(table_name, ext)
    }

    /// The extension of table documents.
    pub fn get_table_extension(&self) -> (r: &'static str)
        ensures
            r@ == seq!['j', 's', 'o', 'n'],
    {
        let ext = "json";
        proof {
            reveal_strlit("json");
        }
        ext
    }
}

/// What is wrong with one document row.
#[derive(Clone, Debug, PartialEq)]
pub enum RowProblem {
    /// A field names no column.
    UnknownField(String),
    /// No field for this column.
    MissingColumn(String),
    /// The field for this column does not fit the column's kind.
    BadValue(String),
    /// Every field names a column and every column has its field, but the row
    /// holds a different number of fields (a name given twice).
    FieldCount,
}

/// Why a document could not be read back as a table.
#[derive(Clone, Debug, PartialEq)]
pub enum ConvertError {
    /// Neither the document nor the file schema describes the table's columns.
    SchemaMissing,
    /// A row does not match its columns exactly.
    MalformedRow { id: usize, problem: RowProblem },
}

pub open spec fn cols_view(cols: Seq<ColumnSchema>) -> Seq<ColumnSchemaView> {
    cols.map_values(|c: ColumnSchema| c@)
}

/// The value of the first field named `name`, if any.
pub open spec fn find_field(fields: Seq<(Seq<char>, JsonCellView)>, name: Seq<char>) -> Option<JsonCellView>
    decreases fields.len(),
{
    if fields.len() == 0 {
        None
    } else if fields[0].0 == name {
        Some(fields[0].1)
    } else {
        find_field(fields.drop_first(), name)
    }
}

pub open spec fn known(cols: Seq<ColumnSchemaView>, name: Seq<char>) -> bool {
    exists|j: int| 0 <= j < cols.len() && (#[trigger] cols[j]).name == name
}

/// Whether the column has a field in the row and its value fits the column.
pub open spec fn column_ok(c: ColumnSchemaView, r: JsonRowView) -> bool {
    &&& find_field(r.fields, c.name) is Some
    &&& decode_cell(c.shape, c.ty, find_field(r.fields, c.name)->0) is Some
}

/// Whether a row matches its columns exactly: every field names a column,
/// every column has a field that fits it, and there are no other fields.
pub open spec fn row_ok(cols: Seq<ColumnSchemaView>, r: JsonRowView) -> bool {
    &&& forall|k: int| 0 <= k < r.fields.len() ==> known(cols, (#[trigger] r.fields[k]).0)
    &&& forall|j: int| 0 <= j < cols.len() ==> column_ok(#[trigger] cols[j], r)
    &&& r.fields.len() == cols.len()
}

/// The cells that a matching row gives, in column order.
pub open spec fn row_cells(cols: Seq<ColumnSchemaView>, r: JsonRowView) -> Seq<CellView> {
    Seq::new(cols.len(), |j: int| decode_cell(cols[j].shape, cols[j].ty, find_field(r.fields, cols[j].name)->0)->0)
}

/// Whether `p` is a true statement of what is wrong with row `r`.
pub open spec fn is_defect(cols: Seq<ColumnSchemaView>, r: JsonRowView, p: RowProblem) -> bool {
    match p {
        RowProblem::UnknownField(n) => exists|k: int|
            0 <= k < r.fields.len() && (#[trigger] r.fields[k]).0 == n@ && !known(cols, n@),
        RowProblem::MissingColumn(n) => exists|j: int|
            0 <= j < cols.len() && (#[trigger] cols[j]).name == n@ && find_field(r.fields, n@) is None,
        RowProblem::BadValue(n) => exists|j: int|
            0 <= j < cols.len() && (#[trigger] cols[j]).name == n@ && find_field(r.fields, n@) is Some
                && decode_cell(cols[j].shape, cols[j].ty, find_field(r.fields, n@)->0) is None,
        RowProblem::FieldCount => {
            &&& r.fields.len() != cols.len()
            &&& forall|k: int| 0 <= k < r.fields.len() ==> known(cols, (#[trigger] r.fields[k]).0)
            &&& forall|j: int| 0 <= j < cols.len() ==> find_field(r.fields, (#[trigger] cols[j]).name) is Some
        },
    }
}

/// The column descriptions that reading a document uses: the document's
/// own, else those the file schema records under the table's name.
pub open spec fn schema_for(
    name: Option<crate::label::LabelView>,
    file: Seq<(Seq<char>, Seq<ColumnSchemaView>)>,
    doc: JsonTableView,
) -> Option<Seq<ColumnSchemaView>> {
    match doc.schema {
        Some(s) => Some(s),
        None => match name {
            Some(l) => lookup(file, label_text(l)),
            None => None,
        },
    }
}

/// The column that a description rebuilds; the offset is left for the codec.
pub open spec fn column_from(c: ColumnSchemaView) -> ColumnView {
    ColumnView { label: label_of_text(c.name, c.hashed), ty: c.ty, shape: c.shape, offset: 0 }
}

/// The table that a document gives under the column descriptions `cols`.
pub open spec fn table_from(
    name: Option<crate::label::LabelView>,
    cols: Seq<ColumnSchemaView>,
    doc: JsonTableView,
) -> TableView {
    TableView {
        name,
        columns: cols.map_values(|c: ColumnSchemaView| column_from(c)),
        rows: doc.rows.map_values(|r: JsonRowView| RowView { id: r.id, cells: row_cells(cols, r) }),
    }
}

/// The value of the first field named `name`, if any.
fn find_field_value<'a>(fields: &'a Vec<(String, JsonCell)>, name: &String) -> (r: Option<&'a JsonCell>)
    ensures
        match r {
            Some(v) => find_field(fields@.map_values(|f: (String, JsonCell)| (f.0@, f.1@)), name@) == Some(v@),
            None => find_field(fields@.map_values(|f: (String, JsonCell)| (f.0@, f.1@)), name@) is None,
        },
{
    let ghost fv = fields@.map_values(|f: (String, JsonCell)| (f.0@, f.1@));
    let mut i: usize = 0;
    assert(fv.subrange(0, fv.len() as int) =~= fv);
    while i < fields.len()
        invariant
            0 <= i <= fields.len(),
            fv == fields@.map_values(|f: (String, JsonCell)| (f.0@, f.1@)),
            find_field(fv, name@) == find_field(fv.subrange(i as int, fv.len() as int), name@),
        decreases fields.len() - i,
    {
        let ghost sub = fv.subrange(i as int, fv.len() as int);
        assert(sub[0] == fv[i as int]);
        assert(sub.drop_first() =~= fv.subrange(i + 1, fv.len() as int));
        if fields[i].0 == *name {
            return Some(&fields[i].1);
        }
        i = i + 1;
    }
    None
}

/// Whether some column is named `name`.
fn is_known(cols: &Vec<ColumnSchema>, name: &String) -> (r: bool)
    ensures
        r == known(cols_view(cols@), name@),
{
    let mut j: usize = 0;
    while j < cols.len()
        invariant
            0 <= j <= cols.len(),
            forall|m: int| 0 <= m < j ==> cols_view(cols@)[m].name != name@,
        decreases cols.len() - j,
    {
        if cols[j].name == *name {
            assert(cols_view(cols@)[j as int].name == name@);
            return true;
        }
        j = j + 1;
    }
    false
}

/// The cells of one document row, in column order, or what is wrong with it.
pub fn decode_row(cols: &Vec<ColumnSchema>, row: &TableRow) -> (r: Result<Vec<Cell>, RowProblem>)
    ensures
        match r {
            Ok(cells) => row_ok(cols_view(cols@), row@) && cells@.map_values(|c: Cell| c@)
                == row_cells(cols_view(cols@), row@),
            Err(p) => is_defect(cols_view(cols@), row@, p),
        },
{
    let ghost cv = cols_view(cols@);
    let ghost rv = row@;
    let mut k: usize = 0;
    while k < row.cells.len()
        invariant
            cv == cols_view(cols@),
            rv == row@,
            0 <= k <= row.cells.len(),
            forall|m: int| 0 <= m < k ==> known(cv, (#[trigger] rv.fields[m]).0),
        decreases row.cells.len() - k,
    {
        if !is_known(cols, &row.cells[k].0) {
            assert(rv.fields[k as int].0 == row.cells[k as int].0@);
            return Err(RowProblem::UnknownField(row.cells[k].0.clone()));
        }
        k = k + 1;
    }
    let mut cells: Vec<Cell> = Vec::new();
    let mut j: usize = 0;
    while j < cols.len()
        invariant
            cv == cols_view(cols@),
            rv == row@,
            forall|m: int| 0 <= m < rv.fields.len() ==> known(cv, (#[trigger] rv.fields[m]).0),
            0 <= j <= cols.len(),
            cells@.len() == j,
            forall|m: int| 0 <= m < j ==> column_ok(#[trigger] cv[m], rv),
            forall|m: int| 0 <= m < j ==> (#[trigger] cells@[m])@ == row_cells(cv, rv)[m],
        decreases cols.len() - j,
    {
        let c = &cols[j];
        assert(cv[j as int] == c@);
        match find_field_value(&row.cells, &c.name) {
            None => {
                return Err(RowProblem::MissingColumn(c.name.clone()));
            },
            Some(v) => match decode_cell_value(c.shape, c.ty, v) {
                None => {
                    return Err(RowProblem::BadValue(c.name.clone()));
                },
                Some(x) => {
                    cells.push(x);
                },
            },
        }
        j = j + 1;
    }
    if row.cells.len() != cols.len() {
        return Err(RowProblem::FieldCount);
    }
    assert(cells@.map_values(|c: Cell| c@) =~= row_cells(cv, rv));
    Ok(cells)
}

/// Whether some row of the document fails to match `cols`.
pub open spec fn some_row_bad(cols: Seq<ColumnSchemaView>, doc: JsonTableView) -> bool {
    exists|i: int| 0 <= i < doc.rows.len() && !row_ok(cols, #[trigger] doc.rows[i])
}

proof fn lemma_defect_is_bad(cols: Seq<ColumnSchemaView>, r: JsonRowView, p: RowProblem)
    requires
        is_defect(cols, r, p),
    ensures
        !row_ok(cols, r),
{
    match p {
        RowProblem::UnknownField(n) => {
            let k = choose|k: int| 0 <= k < r.fields.len() && (#[trigger] r.fields[k]).0 == n@ && !known(cols, n@);
            assert(!known(cols, r.fields[k].0));
        },
        RowProblem::MissingColumn(n) => {
            let j = choose|j: int| 0 <= j < cols.len() && (#[trigger] cols[j]).name == n@ && find_field(r.fields, n@) is None;
            assert(!column_ok(cols[j], r));
        },
        RowProblem::BadValue(n) => {
            let j = choose|j: int| 0 <= j < cols.len() && (#[trigger] cols[j]).name == n@ && find_field(r.fields, n@) is Some
                && decode_cell(cols[j].shape, cols[j].ty, find_field(r.fields, n@)->0) is None;
            assert(!column_ok(cols[j], r));
        },
        RowProblem::FieldCount => {},
    }
}

/// What reading `doc` back as the table `name` gives: a table exactly when
/// there are column descriptions and every row matches them; else
/// `SchemaMissing` when there are none, or a true defect of some row.
pub open spec fn read_outcome(
    name: Option<crate::label::LabelView>,
    file: Seq<(Seq<char>, Seq<ColumnSchemaView>)>,
    doc: JsonTableView,
    r: Result<RawTable, ConvertError>,
) -> bool {
    &&& r is Ok <==> (schema_for(name, file, doc) matches Some(cols) && !some_row_bad(cols, doc))
    &&& match r {
        Ok(t) => t@ == table_from(name, schema_for(name, file, doc)->0, doc),
        Err(ConvertError::SchemaMissing) => schema_for(name, file, doc) is None,
        Err(ConvertError::MalformedRow { id, problem }) => schema_for(name, file, doc) matches Some(
            cols,
        ) && exists|i: int|
            0 <= i < doc.rows.len() && (#[trigger] doc.rows[i]).id == id && is_defect(
                cols,
                doc.rows[i],
                problem,
            ),
    }
}

impl JsonConverter {
    /// Reads a document back as the table `name`. The columns come from the
    /// document's own descriptions, else from what `schema` records under the
    /// table's name; with neither, the table cannot be read. Every row must
    /// match its columns exactly.
    pub fn read_table(&self, name: Option<Label>, schema: &FileSchema, doc: &JsonTable) -> (r: Result<
        RawTable,
        ConvertError,
    >)
        ensures
            read_outcome(option_label_view(name), schema@, doc@, r),
    {
        let ghost nv = option_label_view(name);
        let cols: &Vec<ColumnSchema> = match &doc.schema {
            Some(c) => c,
            None => match &name {
                Some(l) => {
                    let text = l.text();
                    match schema.columns_of(text.as_str()) {
                        Some(c) => c,
                        None => {
                            return Err(ConvertError::SchemaMissing);
                        },
                    }
                },
                None => {
                    return Err(ConvertError::SchemaMissing);
                },
            },
        };
        let ghost cv = cols_view(cols@);
        assert(schema_for(nv, schema@, doc@) == Some(cv));
        let mut columns: Vec<ColumnDef> = Vec::new();
        let mut j: usize = 0;
        while j < cols.len()
            invariant
                cv == cols_view(cols@),
                0 <= j <= cols.len(),
                columns@.len() == j,
                forall|m: int| 0 <= m < j ==> (#[trigger] columns@[m])@ == column_from(cv[m]),
            decreases cols.len() - j,
        {
            let c = &cols[j];
            assert(cv[j as int] == c@);
            columns.push(ColumnDef { label: Label::parse(c.name.as_str(), c.hashed), ty: c.ty, shape: c.shape, offset: 0 });
            j = j + 1;
        }
        let mut rows: Vec<Row> = Vec::new();
        let mut i: usize = 0;
        while i < doc.rows.len()
            invariant
                cv == cols_view(cols@),
                nv == option_label_view(name),
                schema_for(nv, schema@, doc@) == Some(cv),
                0 <= i <= doc.rows.len(),
                rows@.len() == i,
                forall|m: int| 0 <= m < i ==> row_ok(cv, #[trigger] doc@.rows[m]),
                forall|m: int|
                    0 <= m < i ==> (#[trigger] rows@[m])@ == (RowView {
                        id: doc@.rows[m].id,
                        cells: row_cells(cv, doc@.rows[m]),
                    }),
            decreases doc.rows.len() - i,
        {
            let row = &doc.rows[i];
            assert(doc@.rows[i as int] == row@);
            match decode_row(cols, row) {
                Ok(cells) => {
                    rows.push(Row { id: row.id, cells });
                },
                Err(problem) => {
                    proof {
                        lemma_defect_is_bad(cv, row@, problem);
                        assert(!row_ok(cv, doc@.rows[i as int]));
                        assert(doc@.rows[i as int].id == row.id && is_defect(cv, doc@.rows[i as int], problem));
                    }
                    return Err(ConvertError::MalformedRow { id: row.id, problem });
                },
            }
            i = i + 1;
        }
        let t = RawTable { name, columns, rows };
        assert(t@.columns =~= table_from(nv, cv, doc@).columns);
        assert(t@.rows =~= table_from(nv, cv, doc@).rows);
        Ok(t)
    }
}

/// Whether no two columns of the table share a document text.
pub open spec fn column_texts_distinct(t: TableView) -> bool {
    forall|a: int, b: int|
        0 <= a < t.columns.len() && 0 <= b < t.columns.len() && a != b ==> label_text(
            #[trigger] t.columns[a].label,
        ) != label_text(#[trigger] t.columns[b].label)
}

/// The table as reading its document back gives it: every column offset set
/// to the neutral value, and every resolved column name hashed again (see
/// `restored`); plain names and unresolved hashes are kept as they are.
pub open spec fn as_imported(t: TableView) -> TableView {
    TableView {
        columns: t.columns.map_values(
            |c: ColumnView| ColumnView { label: restored(c.label), offset: 0, ..c },
        ),
        ..t
    }
}

proof fn lemma_find_distinct(fields: Seq<(Seq<char>, JsonCellView)>, j: int)
    requires
        0 <= j < fields.len(),
        forall|a: int, b: int|
            0 <= a < fields.len() && 0 <= b < fields.len() && a != b ==> (#[trigger] fields[a]).0
                != (#[trigger] fields[b]).0,
    ensures
        find_field(fields, fields[j].0) == Some(fields[j].1),
    decreases j,
{
    if j > 0 {
        let rest = fields.drop_first();
        assert(fields[0].0 != fields[j].0);
        assert(rest[j - 1] == fields[j]);
        assert forall|a: int, b: int|
            0 <= a < rest.len() && 0 <= b < rest.len() && a != b implies (#[trigger] rest[a]).0
                != (#[trigger] rest[b]).0 by {
            assert(rest[a] == fields[a + 1] && rest[b] == fields[b + 1]);
        }
        lemma_find_distinct(rest, j - 1);
    }
}

/// Writing a well-formed table as a document and reading the document back
/// gives the table again, but for column offsets and resolved column names,
/// which are hashed again (`as_imported`). Column texts must differ,
/// so that each field names one column; where the document leaves the column
/// descriptions out, the file schema must hold them under the table's name.
pub proof fn lemma_round_trip(
    untyped: bool,
    t: TableView,
    file: Seq<(Seq<char>, Seq<ColumnSchemaView>)>,
)
    requires
        table_wf(t),
        column_texts_distinct(t),
        untyped ==> (t.name matches Some(l) && lookup(file, label_text(l)) == Some(
            column_schemas(t.columns),
        )),
    ensures
        schema_for(t.name, file, table_doc(untyped, t)) == Some(column_schemas(t.columns)),
        !some_row_bad(column_schemas(t.columns), table_doc(untyped, t)),
        table_from(t.name, column_schemas(t.columns), table_doc(untyped, t)) == as_imported(t),
{
    let cs = column_schemas(t.columns);
    let doc = table_doc(untyped, t);
    let n = t.columns.len();
    assert forall|i: int| 0 <= i < doc.rows.len() implies row_ok(cs, #[trigger] doc.rows[i])
        && row_cells(cs, doc.rows[i]) == t.rows[i].cells by {
        let r = doc.rows[i];
        let row = t.rows[i];
        assert(row_fits(t.columns, row));
        assert(r == row_doc(t.columns, row));
        assert forall|a: int, b: int|
            0 <= a < r.fields.len() && 0 <= b < r.fields.len() && a != b implies (
            #[trigger] r.fields[a]).0 != (#[trigger] r.fields[b]).0 by {
            assert(label_text(t.columns[a].label) != label_text(t.columns[b].label));
        }
        assert forall|j: int| 0 <= j < n implies find_field(r.fields, #[trigger] cs[j].name) == Some(
            render_cell(row.cells[j]),
        ) by {
            lemma_find_distinct(r.fields, j);
        }
        assert forall|k: int| 0 <= k < r.fields.len() implies known(cs, (#[trigger] r.fields[k]).0) by {
            assert(cs[k].name == r.fields[k].0);
        }
        assert forall|j: int| 0 <= j < n implies column_ok(#[trigger] cs[j], r) by {
            assert(find_field(r.fields, cs[j].name) == Some(render_cell(row.cells[j])));
            lemma_cell_shape_round_trip(t.columns[j].shape, t.columns[j].ty, row.cells[j]);
        }
        assert forall|j: int| 0 <= j < n implies #[trigger] row_cells(cs, r)[j] == row.cells[j] by {
            assert(find_field(r.fields, cs[j].name) == Some(render_cell(row.cells[j])));
            lemma_cell_shape_round_trip(t.columns[j].shape, t.columns[j].ty, row.cells[j]);
        }
        assert(row_cells(cs, r) =~= row.cells);
    }
    let back = table_from(t.name, cs, doc);
    let want = as_imported(t);
    assert forall|j: int| 0 <= j < n implies #[trigger] back.columns[j] == want.columns[j] by {
        crate::label::lemma_label_text_round_trip(t.columns[j].label);
    }
    assert(back.columns =~= want.columns);
    assert forall|i: int| 0 <= i < t.rows.len() implies #[trigger] back.rows[i] == want.rows[i] by {
        assert(row_cells(cs, doc.rows[i]) == t.rows[i].cells);
    }
    assert(back.rows =~= want.rows);
}

/// Row ids are carried unchanged both ways: each document row has the id of
/// the table row it was written from, and each row read back has the id of
/// its document row.
pub proof fn lemma_row_identity(
    untyped: bool,
    t: TableView,
    name: Option<crate::label::LabelView>,
    cols: Seq<ColumnSchemaView>,
    doc: JsonTableView,
)
    ensures
        table_doc(untyped, t).rows.len() == t.rows.len(),
        forall|i: int| 0 <= i < t.rows.len() ==> (#[trigger] table_doc(untyped, t).rows[i]).id == t.rows[i].id,
        table_from(name, cols, doc).rows.len() == doc.rows.len(),
        forall|i: int| 0 <= i < doc.rows.len() ==> (#[trigger] table_from(name, cols, doc).rows[i]).id == doc.rows[i].id,
{
}

} // verus!
