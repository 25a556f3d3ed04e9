use tabular::cells::ToCellList;
use tabular::cells::Value;
use tabular::cells::value_to_cell;
use tabular::display::CellList;
use tabular::display::CellListTable;
use tabular::display::RowList;
use tabular::display::ToTable;
use tabular::display::table_to_display;
use tabular::fields::Field;
use tabular::fields::FieldList;
use tabular::fields::FieldTable;
use tabular::inner_named_table::StreamingTable;
use tabular::inner_named_table::records_to_table;
use tabular::outer_named_table::NamedColumn;
use tabular::outer_named_table::OuterNamedTable;
use tabular::table::Orientation;
use tabular::table::TableError;
use tabular::table::TextTable;
use tabular::table::ToCellTable;
use tabular::table::rows_to_table;
use tabular::table::transpose;

fn field(name: &str, value: Value) -> Field {
    Field { name: name.to_string(), value }
}

fn text(s: &str) -> Value {
    Value::Text(s.to_string())
}

/// The three-column fixture with names carried inside each column.
fn inner_named_columns() -> FieldTable {
    FieldTable {
        lists: vec![
            FieldList {
                fields: vec![
                    field("i32", Value::Int(1)),
                    field("i32", Value::Int(2)),
                    field("i32", Value::Int(3)),
                ],
            },
            FieldList {
                fields: vec![
                    field("f32", text(&format!("{}", 4.1f32))),
                    field("f32", text(&format!("{}", 4.2f32))),
                    field("f32", text(&format!("{}", 4.3f32))),
                ],
            },
            FieldList {
                fields: vec![
                    field("char", Value::Char('7')),
                    field("char", Value::Char('8')),
                    field("char", Value::Char('9')),
                ],
            },
        ],
    }
}

/// The three-row fixture with names carried inside each row.
fn inner_named_rows() -> FieldTable {
    FieldTable {
        lists: vec![
            FieldList {
                fields: vec![
                    field("i32", Value::Int(1)),
                    field("f32", text(&format!("{}", 4.1f32))),
                    field("char", Value::Char('7')),
                ],
            },
            FieldList {
                fields: vec![
                    field("i32", Value::Int(2)),
                    field("f32", text(&format!("{}", 5.2f32))),
                    field("char", Value::Char('8')),
                ],
            },
            FieldList {
                fields: vec![
                    field("i32", Value::Int(3)),
                    field("f32", text(&format!("{}", 6.3f32))),
                    field("char", Value::Char('9')),
                ],
            },
        ],
    }
}

fn row_contents(row: &Vec<tabular::cells::TextCell>) -> Vec<String> {
    row.iter().map(|c| c.content.clone()).collect()
}

#[test]
fn cell_list() {
    let list = vec![Value::Int(1), Value::Int(2), Value::Int(3)];
    let cells = list.list_to_cells();
    let row = cells.to_row();
    println!("\nRow:\n{:#?}", row);
}

#[test]
fn test_inner_named_table() {
    let inner_named_columns_table = inner_named_columns();
    let names = inner_named_columns_table.names();
    let values = inner_named_columns_table.values();
    println!("\nNames:\n{:#?}", names);
    println!("\nValues:\n{:#?}", values);
}

#[test]
fn test_inner_named_columns_table() {
    let inner_named_columns_table = inner_named_columns();
    let table = inner_named_columns_table
        .to_table(Orientation::ColumnMajor)
        .unwrap();
    println!("\nTable:\n{}", table_to_display(&table));
}

#[test]
fn test_inner_named_rows_table() {
    let inner_named_rows_table = inner_named_rows();
    let table = inner_named_rows_table.to_table(Orientation::RowMajor).unwrap();
    println!("\nTable:\n{}", table_to_display(&table));
}

#[test]
fn test_inner_named_row_iterator_to_table() {
    let inner_named_rows_table = inner_named_rows();
    let table = records_to_table(inner_named_rows_table.lists).unwrap();
    println!("\nTable:\n{}", table_to_display(&table));
}

#[test]
fn test_outer_named_table() {
    let outer_named_table = OuterNamedTable {
        columns: vec![
            NamedColumn {
                name: "i32".to_string(),
                values: vec![Value::Int(1), Value::Int(2), Value::Int(3)],
            },
            NamedColumn {
                name: "f32".to_string(),
                values: vec![
                    text(&format!("{}", 4.1f32)),
                    text(&format!("{}", 5.2f32)),
                    text(&format!("{}", 6.3f32)),
                ],
            },
            NamedColumn {
                name: "char".to_string(),
                values: vec![Value::Char('7'), Value::Char('8'), Value::Char('9')],
            },
        ],
    };
    let values_table = outer_named_table.to_table().unwrap();
    println!("\nTable:\n{}", table_to_display(&values_table));
}

#[test]
fn row_list() {
    let list = vec![
        comfy_table::Row::from(vec![1, 2, 3]),
        comfy_table::Row::from(vec![4, 5, 6]),
        comfy_table::Row::from(vec![7, 8, 9]),
    ];
    let table = list.to_table();
    println!("\nTable:\n{}", table);
}

#[test]
fn test_to_cell_table() {
    let table: Vec<Vec<Value>> = vec![
        vec![Value::Int(1), Value::Int(2), Value::Int(3)],
        vec![Value::Int(4), Value::Int(5), Value::Int(6)],
    ];
    let cells = table.table_to_cells();
    let rows = transpose(&cells).unwrap();
    let built = TextTable { header: None, rows };
    println!("\nTable:\n{}", table_to_display(&built));
}

#[test]
fn test_iterator_to_table() {
    let table: Vec<Vec<Value>> = vec![
        vec![Value::Int(1), Value::Int(2), Value::Int(3)],
        vec![Value::Int(4), Value::Int(5), Value::Int(6)],
    ];
    let built = rows_to_table(&table).unwrap();
    println!("\nTable:\n{}", table_to_display(&built));
}

#[test]
fn to_cell_list() {
    let list = vec![Value::Int(1), Value::Int(2), Value::Int(3)];
    let cells = list.list_to_cells();
    println!("\nCells:\n{:?}", cells);
}

#[test]
fn outer_named_scenario() {
    let columns = OuterNamedTable {
        columns: vec![
            NamedColumn {
                name: "id".to_string(),
                values: vec![Value::Int(1), Value::Int(2), Value::Int(3)],
            },
            NamedColumn {
                name: "score".to_string(),
                values: vec![
                    text(&format!("{}", 4.1f64)),
                    text(&format!("{}", 5.2f64)),
                    text(&format!("{}", 6.3f64)),
                ],
            },
            NamedColumn {
                name: "grade".to_string(),
                values: vec![Value::Char('A'), Value::Char('B'), Value::Char('C')],
            },
        ],
    };
    let t = columns.to_table().unwrap();
    assert_eq!(row_contents(t.header.as_ref().unwrap()), vec!["id", "score", "grade"]);
    assert_eq!(t.rows.len(), 3);
    assert_eq!(row_contents(&t.rows[0]), vec!["1", "4.1", "A"]);
    assert_eq!(row_contents(&t.rows[1]), vec!["2", "5.2", "B"]);
    assert_eq!(row_contents(&t.rows[2]), vec!["3", "6.3", "C"]);
}

#[test]
fn row_major_scenario() {
    let rows = FieldTable {
        lists: vec![
            FieldList {
                fields: vec![
                    field("id", Value::Int(1)),
                    field("score", text(&format!("{}", 4.1f64))),
                    field("grade", Value::Char('A')),
                ],
            },
            FieldList {
                fields: vec![
                    field("id", Value::Int(2)),
                    field("score", text(&format!("{}", 5.2f64))),
                    field("grade", Value::Char('B')),
                ],
            },
        ],
    };
    let t = rows.to_table(Orientation::RowMajor).unwrap();
    assert_eq!(row_contents(t.header.as_ref().unwrap()), vec!["id", "score", "grade"]);
    assert_eq!(t.rows.len(), 2);
    assert_eq!(row_contents(&t.rows[0]), vec!["1", "4.1", "A"]);
    assert_eq!(row_contents(&t.rows[1]), vec!["2", "5.2", "B"]);
}

#[test]
fn streaming_scenario() {
    let mut records = Vec::new();
    for i in 1..4i64 {
        records.push(FieldList {
            fields: vec![
                field("id", Value::Int(i)),
                field("score", Value::Int(10 * i)),
            ],
        });
    }
    let t = records_to_table(records).unwrap();
    assert_eq!(row_contents(t.header.as_ref().unwrap()), vec!["id", "score"]);
    assert_eq!(t.rows.len(), 3);
    assert_eq!(row_contents(&t.rows[0]), vec!["1", "10"]);
    assert_eq!(row_contents(&t.rows[2]), vec!["3", "30"]);
}

#[test]
fn streaming_empty_case() {
    let t = records_to_table(Vec::new()).unwrap();
    assert!(t.header.is_none());
    assert_eq!(t.rows.len(), 0);

    let empty_columns = OuterNamedTable { columns: Vec::new() };
    assert!(matches!(empty_columns.to_table(), Err(TableError::EmptyInput)));
}

#[test]
fn empty_inputs_are_errors() {
    let empty = FieldTable { lists: Vec::new() };
    assert!(matches!(
        empty.to_table(Orientation::ColumnMajor),
        Err(TableError::EmptyInput)
    ));
    let empty = FieldTable { lists: Vec::new() };
    assert!(matches!(
        empty.to_table(Orientation::RowMajor),
        Err(TableError::EmptyInput)
    ));
    let zero_height = OuterNamedTable {
        columns: vec![NamedColumn { name: "id".to_string(), values: Vec::new() }],
    };
    assert!(matches!(zero_height.to_table(), Err(TableError::EmptyInput)));
}

#[test]
fn structural_mismatch_reports_lengths() {
    let ragged = OuterNamedTable {
        columns: vec![
            NamedColumn {
                name: "a".to_string(),
                values: vec![Value::Int(1), Value::Int(2), Value::Int(3)],
            },
            NamedColumn {
                name: "b".to_string(),
                values: vec![Value::Int(4), Value::Int(5)],
            },
        ],
    };
    match ragged.to_table() {
        Err(TableError::StructuralMismatch { expected, found }) => {
            assert_eq!(expected, 3);
            assert_eq!(found, 2);
        }
        other => panic!("expected a structural mismatch, got {:?}", other),
    }

    let ragged_grid: Vec<Vec<Value>> = vec![
        vec![Value::Int(1), Value::Int(2)],
        vec![Value::Int(3)],
    ];
    match rows_to_table(&ragged_grid) {
        Err(TableError::StructuralMismatch { expected, found }) => {
            assert_eq!(expected, 2);
            assert_eq!(found, 1);
        }
        other => panic!("expected a structural mismatch, got {:?}", other),
    }
}

#[test]
fn name_shape_mismatch_row_major() {
    let rows = FieldTable {
        lists: vec![
            FieldList {
                fields: vec![field("id", Value::Int(1)), field("score", Value::Int(2))],
            },
            FieldList {
                fields: vec![field("id", Value::Int(3)), field("grade", Value::Int(4))],
            },
        ],
    };
    match rows.to_table(Orientation::RowMajor) {
        Err(TableError::NameShapeMismatch { expected, found }) => {
            assert_eq!(expected, vec!["id", "score"]);
            assert_eq!(found, vec!["id", "grade"]);
        }
        other => panic!("expected a name shape mismatch, got {:?}", other),
    }
}

#[test]
fn name_shape_mismatch_column_major() {
    let columns = FieldTable {
        lists: vec![
            FieldList {
                fields: vec![
                    field("id", Value::Int(1)),
                    field("id", Value::Int(2)),
                    field("other", Value::Int(3)),
                ],
            },
        ],
    };
    match columns.to_table(Orientation::ColumnMajor) {
        Err(TableError::NameShapeMismatch { expected, found }) => {
            assert_eq!(expected, vec!["id", "id", "id"]);
            assert_eq!(found, vec!["id", "id", "other"]);
        }
        other => panic!("expected a name shape mismatch, got {:?}", other),
    }
}

#[test]
fn streaming_divergence_leaves_state() {
    let mut stream = StreamingTable::new();
    stream
        .push(FieldList { fields: vec![field("id", Value::Int(1))] })
        .unwrap();
    let err = stream.push(FieldList { fields: vec![field("key", Value::Int(2))] });
    match err {
        Err(TableError::NameShapeMismatch { expected, found }) => {
            assert_eq!(expected, vec!["id"]);
            assert_eq!(found, vec!["key"]);
        }
        other => panic!("expected a name shape mismatch, got {:?}", other),
    }
    stream
        .push(FieldList { fields: vec![field("id", Value::Int(3))] })
        .unwrap();
    let t = stream.finish();
    assert_eq!(row_contents(t.header.as_ref().unwrap()), vec!["id"]);
    assert_eq!(t.rows.len(), 2);
    assert_eq!(row_contents(&t.rows[1]), vec!["3"]);
}

#[test]
fn transpose_round_trip() {
    let grid: Vec<Vec<Value>> = vec![
        vec![Value::Int(1), Value::Int(2)],
        vec![Value::Int(3), Value::Int(4)],
        vec![Value::Int(5), Value::Int(6)],
    ];
    let cells = grid.table_to_cells();
    let once = transpose(&cells).unwrap();
    let twice = transpose(&once).unwrap();
    assert_eq!(cells.len(), twice.len());
    for (a, b) in cells.iter().zip(twice.iter()) {
        assert_eq!(row_contents(a), row_contents(b));
    }
    assert_eq!(once.len(), 2);
    assert_eq!(row_contents(&once[0]), vec!["1", "3", "5"]);
    assert_eq!(row_contents(&once[1]), vec!["2", "4", "6"]);
}

#[test]
fn width_consistency_of_built_tables() {
    let t = inner_named_columns().to_table(Orientation::ColumnMajor).unwrap();
    let width = t.header.as_ref().unwrap().len();
    assert_eq!(width, 3);
    for row in &t.rows {
        assert_eq!(row.len(), width);
    }
    let t = inner_named_rows().to_table(Orientation::RowMajor).unwrap();
    let width = t.header.as_ref().unwrap().len();
    for row in &t.rows {
        assert_eq!(row.len(), width);
    }
}

#[test]
fn value_conversion_contents() {
    assert_eq!(value_to_cell(&Value::Int(1)).content, "1");
    assert_eq!(value_to_cell(&Value::Int(0)).content, "0");
    assert_eq!(value_to_cell(&Value::Int(-42)).content, "-42");
    assert_eq!(
        value_to_cell(&Value::Int(i64::MAX)).content,
        "9223372036854775807"
    );
    assert_eq!(
        value_to_cell(&Value::Int(i64::MIN)).content,
        "-9223372036854775808"
    );
    assert_eq!(value_to_cell(&Value::Char('A')).content, "A");
    assert_eq!(value_to_cell(&text("4.1")).content, "4.1");
}

#[test]
fn grid_to_backend_table() {
    let grid: Vec<Vec<Value>> = vec![
        vec![Value::Int(1), Value::Int(2)],
        vec![Value::Int(3), Value::Int(4)],
    ];
    let t = grid.to_table();
    assert!(t.header().is_none());
    let rows: Vec<Vec<String>> = t
        .row_iter()
        .map(|r| r.cell_iter().map(|c| c.content()).collect())
        .collect();
    assert_eq!(rows, vec![vec!["1", "2"], vec!["3", "4"]]);
}

#[test]
fn display_carries_contents() {
    let t = inner_named_rows().to_table(Orientation::RowMajor).unwrap();
    let shown = table_to_display(&t);
    let header: Vec<String> = shown
        .header()
        .unwrap()
        .cell_iter()
        .map(|c| c.content())
        .collect();
    assert_eq!(header, vec!["i32", "f32", "char"]);
    let rows: Vec<Vec<String>> = shown
        .row_iter()
        .map(|r| r.cell_iter().map(|c| c.content()).collect())
        .collect();
    assert_eq!(rows.len(), 3);
    assert_eq!(rows[0], vec!["1", "4.1", "7"]);
    assert_eq!(rows[2], vec!["3", "6.3", "9"]);
}
