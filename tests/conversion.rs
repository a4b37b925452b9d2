use bdat_convert::batch::Batch;
use bdat_convert::export::{import_table, ExportPlan};
use bdat_convert::filter::Filter;
use bdat_convert::json::{ConvertError, JsonCell, JsonConverter, JsonOptions, JsonTable, JsonValue, RowProblem, TableRow};
use bdat_convert::label::{read_hex8, Label};
use bdat_convert::names::HashNameTable;
use bdat_convert::schema::{BdatVersion, ColumnSchema, FileSchema, LegacyVersion};
use bdat_convert::table::{ColumnDef, RawTable, Row};
use bdat_convert::value::{Cell, Shape, Value, ValueType};

fn enemy_table() -> RawTable {
    RawTable {
        name: Some(Label::String("Enemy".to_string())),
        columns: vec![
            ColumnDef { label: Label::String("id".to_string()), ty: ValueType::SignedInt, shape: Shape::Single, offset: 0 },
            ColumnDef { label: Label::Hash(0xa1b2c3d4), ty: ValueType::String, shape: Shape::Single, offset: 4 },
        ],
        rows: vec![Row { id: 1, cells: vec![Cell::Single(Value::SignedInt(7)), Cell::Single(Value::String("Slime".to_string()))] }],
    }
}

fn empty_schema() -> FileSchema {
    FileSchema::new("enemy".to_string(), BdatVersion::Modern)
}

#[test]
fn typed_export_of_enemy_table() {
    let conv = JsonConverter::new(false, &JsonOptions { pretty: false });
    let doc = conv.write_table(enemy_table());
    assert_eq!(
        doc.schema,
        Some(vec![
            ColumnSchema { name: "id".to_string(), ty: ValueType::SignedInt, shape: Shape::Single, hashed: false },
            ColumnSchema { name: "a1b2c3d4".to_string(), ty: ValueType::String, shape: Shape::Single, hashed: true },
        ])
    );
    assert_eq!(
        doc.rows,
        vec![TableRow {
            id: 1,
            cells: vec![
                ("id".to_string(), JsonCell::Single(JsonValue::Int(7))),
                ("a1b2c3d4".to_string(), JsonCell::Single(JsonValue::Str("Slime".to_string()))),
            ],
        }]
    );
}

#[test]
fn typed_round_trip_of_enemy_table() {
    let conv = JsonConverter::new(false, &JsonOptions { pretty: false });
    let doc = conv.write_table(enemy_table());
    let back = conv.read_table(Some(Label::String("Enemy".to_string())), &empty_schema(), &doc).unwrap();
    let mut want = enemy_table();
    want.columns[1].offset = 0;
    assert_eq!(back, want);
}

#[test]
fn untyped_round_trip_uses_file_schema() {
    let conv = JsonConverter::new(true, &JsonOptions { pretty: false });
    let mut schema = empty_schema();
    schema.feed_table(&enemy_table());
    let doc = conv.write_table(enemy_table());
    assert_eq!(doc.schema, None);
    let back = conv.read_table(Some(Label::String("Enemy".to_string())), &schema, &doc).unwrap();
    let mut want = enemy_table();
    want.columns[1].offset = 0;
    assert_eq!(back, want);
}

#[test]
fn untyped_document_without_schema_is_schema_missing() {
    let conv = JsonConverter::new(true, &JsonOptions { pretty: false });
    let doc = conv.write_table(enemy_table());
    let r = conv.read_table(Some(Label::String("Enemy".to_string())), &empty_schema(), &doc);
    assert_eq!(r, Err(ConvertError::SchemaMissing));
    let r = conv.read_table(None, &empty_schema(), &doc);
    assert_eq!(r, Err(ConvertError::SchemaMissing));
}

#[test]
fn row_missing_a_column_is_malformed() {
    let conv = JsonConverter::new(false, &JsonOptions { pretty: false });
    let mut doc = conv.write_table(enemy_table());
    doc.rows.push(TableRow { id: 5, cells: vec![("id".to_string(), JsonCell::Single(JsonValue::Int(3)))] });
    let r = conv.read_table(Some(Label::String("Enemy".to_string())), &empty_schema(), &doc);
    assert_eq!(
        r,
        Err(ConvertError::MalformedRow { id: 5, problem: RowProblem::MissingColumn("a1b2c3d4".to_string()) })
    );
}

#[test]
fn row_with_unknown_field_is_malformed() {
    let conv = JsonConverter::new(false, &JsonOptions { pretty: false });
    let mut doc = conv.write_table(enemy_table());
    doc.rows[0].cells.push(("extra".to_string(), JsonCell::Single(JsonValue::Null)));
    let r = conv.read_table(None, &empty_schema(), &doc);
    assert_eq!(
        r,
        Err(ConvertError::MalformedRow { id: 1, problem: RowProblem::UnknownField("extra".to_string()) })
    );
}

#[test]
fn value_out_of_range_is_malformed() {
    let doc = JsonTable {
        schema: Some(vec![ColumnSchema { name: "hp".to_string(), ty: ValueType::UnsignedByte, shape: Shape::Single, hashed: false }]),
        rows: vec![TableRow { id: 9, cells: vec![("hp".to_string(), JsonCell::Single(JsonValue::Int(256)))] }],
    };
    let conv = JsonConverter::new(false, &JsonOptions { pretty: false });
    let r = conv.read_table(None, &empty_schema(), &doc);
    assert_eq!(r, Err(ConvertError::MalformedRow { id: 9, problem: RowProblem::BadValue("hp".to_string()) }));
}

#[test]
fn repeated_field_is_malformed() {
    let doc = JsonTable {
        schema: Some(vec![ColumnSchema { name: "hp".to_string(), ty: ValueType::UnsignedByte, shape: Shape::Single, hashed: false }]),
        rows: vec![TableRow {
            id: 2,
            cells: vec![("hp".to_string(), JsonCell::Single(JsonValue::Int(1))), ("hp".to_string(), JsonCell::Single(JsonValue::Int(2)))],
        }],
    };
    let conv = JsonConverter::new(false, &JsonOptions { pretty: false });
    let r = conv.read_table(None, &empty_schema(), &doc);
    assert_eq!(r, Err(ConvertError::MalformedRow { id: 2, problem: RowProblem::FieldCount }));
}

#[test]
fn every_kind_round_trips_with_ids_kept() {
    let kinds = vec![
        (ValueType::Unknown, Value::Unknown),
        (ValueType::UnsignedByte, Value::UnsignedByte(255)),
        (ValueType::UnsignedShort, Value::UnsignedShort(65535)),
        (ValueType::UnsignedInt, Value::UnsignedInt(4294967295)),
        (ValueType::SignedByte, Value::SignedByte(-128)),
        (ValueType::SignedShort, Value::SignedShort(-32768)),
        (ValueType::SignedInt, Value::SignedInt(-2147483648)),
        (ValueType::String, Value::String("text".to_string())),
        (ValueType::Float, Value::Float(1.5f32.to_bits())),
        (ValueType::HashRef, Value::HashRef(0xdeadbeef)),
        (ValueType::Percent, Value::Percent(100)),
        (ValueType::DebugString, Value::DebugString(String::new())),
        (ValueType::Unknown12, Value::Unknown12(3)),
        (ValueType::MessageId, Value::MessageId(77)),
    ];
    let columns: Vec<ColumnDef> = kinds
        .iter()
        .enumerate()
        .map(|(i, (ty, _))| ColumnDef { label: Label::Hash(i as u32), ty: *ty, shape: Shape::Single, offset: 0 })
        .collect();
    let cells: Vec<Cell> = kinds.iter().map(|(_, v)| Cell::Single(v.clone())).collect();
    let table = RawTable {
        name: Some(Label::Hash(0x0000ffff)),
        columns,
        rows: vec![Row { id: 40, cells: cells.clone() }, Row { id: 3, cells }],
    };
    assert!(table.is_well_formed());
    let conv = JsonConverter::new(false, &JsonOptions { pretty: true });
    let doc = conv.write_table(table.clone());
    let back = conv.read_table(table.name.clone(), &empty_schema(), &doc).unwrap();
    assert_eq!(back, table);
    assert_eq!(back.rows[0].id, 40);
    assert_eq!(back.rows[1].id, 3);
}

#[test]
fn hash_text_is_eight_lowercase_digits() {
    assert_eq!(Label::Hash(0xa1b2c3d4).text(), "a1b2c3d4");
    assert_eq!(Label::Hash(0x1f).text(), "0000001f");
    assert_eq!(Label::String("Enemy".to_string()).text(), "Enemy");
    assert_eq!(read_hex8("A1B2c3d4"), Some(0xa1b2c3d4));
    assert_eq!(read_hex8("a1b2c3d"), None);
    assert_eq!(read_hex8("a1b2c3dg"), None);
}

#[test]
fn label_parse_hashes_plain_text() {
    assert_eq!(Label::parse("0000001f", true), Label::Hash(0x1f));
    assert_eq!(Label::parse("Enemy", true), Label::Hash(bdat::hash::murmur3_str("Enemy")));
    assert_ne!(Label::parse("Enemy", true), Label::Hash(0));
    assert_eq!(Label::parse("0000001f", false), Label::String("0000001f".to_string()));
}

#[test]
fn file_names_use_the_json_extension() {
    let conv = JsonConverter::new(false, &JsonOptions { pretty: false });
    assert_eq!(conv.get_file_name("Enemy"), "Enemy.json");
    assert_eq!(conv.get_table_extension(), "json");
    let mut schema = empty_schema();
    schema.feed_table(&enemy_table());
    assert_eq!(schema.table_file_names("json"), vec!["Enemy.json".to_string()]);
    assert_eq!(schema.table_count(), 1);
}

#[test]
fn empty_filter_selects_everything() {
    let f = Filter::new(vec![]);
    assert!(f.contains("Enemy"));
    assert!(f.contains(""));
    assert_eq!(f.select_columns(enemy_table()), enemy_table());
}

#[test]
fn filter_selects_exact_names_only() {
    let f = Filter::new(vec!["Enemy".to_string(), "a1b2c3d4".to_string()]);
    assert!(f.contains("Enemy"));
    assert!(!f.contains("Enem"));
    assert!(!f.contains("Item"));
    assert!(f.contains_label(&Label::Hash(0xa1b2c3d4)));
    let cols = Filter::new(vec!["a1b2c3d4".to_string()]).select_columns(enemy_table());
    assert_eq!(cols.columns.len(), 1);
    assert_eq!(cols.columns[0].label, Label::Hash(0xa1b2c3d4));
    assert_eq!(cols.rows[0].cells, vec![Cell::Single(Value::String("Slime".to_string()))]);
    assert_eq!(cols.rows[0].id, 1);
}

#[test]
fn rewriting_twice_equals_rewriting_once() {
    let names = HashNameTable::new(vec![(0xa1b2c3d4, "Name".to_string()), (0xa1b2c3d4, "Other".to_string())]);
    assert_eq!(names.resolve(0xa1b2c3d4), Some("Name".to_string()));
    assert_eq!(names.resolve(5), None);
    let mut once = enemy_table();
    once.columns.push(ColumnDef { label: Label::Hash(5), ty: ValueType::Unknown, shape: Shape::Single, offset: 0 });
    once.rows[0].cells.push(Cell::Single(Value::Unknown));
    names.convert_all(&mut once);
    assert_eq!(once.columns[1].label, Label::Resolved(0xa1b2c3d4, "Name".to_string()));
    assert_eq!(once.columns[2].label, Label::Hash(5));
    let mut twice = once.clone();
    names.convert_all(&mut twice);
    assert_eq!(twice, once);
}

#[test]
fn schema_records_unselected_tables() {
    let item = RawTable {
        name: Some(Label::String("Item".to_string())),
        columns: vec![ColumnDef { label: Label::String("price".to_string()), ty: ValueType::UnsignedShort, shape: Shape::Single, offset: 0 }],
        rows: vec![Row { id: 1, cells: vec![Cell::Single(Value::UnsignedShort(10))] }],
    };
    let unnamed = RawTable { name: None, columns: vec![], rows: vec![] };
    let plan = ExportPlan {
        converter: JsonConverter::new(true, &JsonOptions { pretty: false }),
        names: HashNameTable::new(vec![]),
        table_filter: Filter::new(vec!["Item".to_string()]),
        column_filter: Filter::new(vec![]),
    };
    let mut schema = FileSchema::new("items".to_string(), BdatVersion::Legacy(LegacyVersion::Switch));
    let out = plan.export_tables(&mut schema, vec![enemy_table(), unnamed, item.clone()]);
    assert_eq!(out.len(), 1);
    assert_eq!(out[0].file_name, "Item.json");
    assert_eq!(schema.table_count(), 2);
    assert_eq!(schema.tables[0].name, "Enemy");
    assert_eq!(schema.tables[1].name, "Item");
    let back = import_table(&plan.converter, "Item", &schema, &out[0].doc);
    assert_eq!(back, Ok(item));
}

#[test]
fn import_of_modern_file_hashes_the_stem() {
    let mut schema = FileSchema::new("f".to_string(), BdatVersion::Modern);
    let mut t = enemy_table();
    t.name = Some(Label::Hash(0x12345678));
    schema.feed_table(&t);
    let conv = JsonConverter::new(true, &JsonOptions { pretty: false });
    let doc = conv.write_table(t.clone());
    let back = import_table(&conv, "12345678", &schema, &doc).unwrap();
    assert_eq!(back.name, Some(Label::Hash(0x12345678)));
    assert!(BdatVersion::Modern.are_labels_hashed());
    assert!(!BdatVersion::Legacy(LegacyVersion::Switch).are_labels_hashed());
}

#[test]
fn batch_stops_starting_after_a_failure() {
    let mut b = Batch::new(5, 2);
    assert_eq!(b.start_next(), Some(0));
    assert_eq!(b.start_next(), Some(1));
    assert_eq!(b.start_next(), None);
    b.finish(1, false);
    assert_eq!(b.start_next(), None);
    assert_eq!(b.outcome(), None);
    b.finish(0, false);
    assert_eq!(b.outcome(), Some(Err(1)));
    assert_eq!(b.started, 2);
}

#[test]
fn batch_succeeds_when_every_unit_does() {
    let mut b = Batch::new(2, 4);
    assert_eq!(b.start_next(), Some(0));
    assert_eq!(b.start_next(), Some(1));
    assert_eq!(b.start_next(), None);
    b.finish(0, true);
    b.finish(1, true);
    assert_eq!(b.outcome(), Some(Ok(())));
}

#[test]
fn well_formedness_checks_kinds() {
    let mut t = enemy_table();
    assert!(t.is_well_formed());
    t.rows[0].cells[0] = Cell::Single(Value::UnsignedInt(7));
    assert!(!t.is_well_formed());
    t.rows[0].cells.pop();
    assert!(!t.is_well_formed());
}

fn array_table() -> RawTable {
    RawTable {
        name: Some(Label::String("Arrays".to_string())),
        columns: vec![
            ColumnDef { label: Label::String("list".to_string()), ty: ValueType::UnsignedShort, shape: Shape::List, offset: 0 },
            ColumnDef { label: Label::Hash(7), ty: ValueType::UnsignedInt, shape: Shape::Flags, offset: 2 },
        ],
        rows: vec![
            Row { id: 1, cells: vec![Cell::List(vec![Value::UnsignedShort(1), Value::UnsignedShort(2)]), Cell::Flags(vec![0, 3])] },
            Row { id: 2, cells: vec![Cell::List(vec![]), Cell::Flags(vec![4294967295])] },
        ],
    }
}

#[test]
fn list_and_flag_cells_round_trip() {
    let table = array_table();
    assert!(table.is_well_formed());
    let conv = JsonConverter::new(false, &JsonOptions { pretty: false });
    let doc = conv.write_table(table.clone());
    assert_eq!(
        doc.rows[0].cells,
        vec![
            ("list".to_string(), JsonCell::List(vec![JsonValue::Int(1), JsonValue::Int(2)])),
            ("00000007".to_string(), JsonCell::List(vec![JsonValue::Int(0), JsonValue::Int(3)])),
        ]
    );
    let back = conv.read_table(table.name.clone(), &empty_schema(), &doc).unwrap();
    let mut want = table;
    want.columns[1].offset = 0;
    assert_eq!(back, want);
}

#[test]
fn list_value_of_wrong_kind_is_malformed() {
    let conv = JsonConverter::new(false, &JsonOptions { pretty: false });
    let mut doc = conv.write_table(array_table());
    doc.rows[1].cells[0].1 = JsonCell::List(vec![JsonValue::Str("x".to_string())]);
    let r = conv.read_table(None, &empty_schema(), &doc);
    assert_eq!(r, Err(ConvertError::MalformedRow { id: 2, problem: RowProblem::BadValue("list".to_string()) }));
    doc.rows[1].cells[0].1 = JsonCell::Single(JsonValue::Int(1));
    let r = conv.read_table(None, &empty_schema(), &doc);
    assert_eq!(r, Err(ConvertError::MalformedRow { id: 2, problem: RowProblem::BadValue("list".to_string()) }));
}

#[test]
fn resolved_column_keeps_its_hash_through_import() {
    let h = bdat::hash::murmur3_str("Name");
    let mut table = enemy_table();
    table.columns[1].label = Label::Hash(h);
    let names = HashNameTable::new(vec![(h, "Name".to_string())]);
    let plan = ExportPlan {
        converter: JsonConverter::new(true, &JsonOptions { pretty: false }),
        names,
        table_filter: Filter::new(vec![]),
        column_filter: Filter::new(vec![]),
    };
    let mut schema = FileSchema::new("items".to_string(), BdatVersion::Legacy(LegacyVersion::Switch));
    let out = plan.export_tables(&mut schema, vec![table.clone()]);
    assert_eq!(schema.tables[0].columns[1].name, "Name");
    assert!(schema.tables[0].columns[1].hashed);
    assert_eq!(out[0].doc.rows[0].cells[1].0, "Name");
    let back = import_table(&plan.converter, "Enemy", &schema, &out[0].doc).unwrap();
    assert_eq!(back.columns[1].label, Label::Hash(h));
    table.columns[1].offset = 0;
    assert_eq!(back, table);
}
