use lancedb::error::Error;
use lancedb::mem_table::MemTable;
use lancedb::merge::Row;
use lancedb::table::WriteMode;

fn row(vals: &[&str]) -> Row {
    Row {
        values: vals.iter().map(|v| v.to_string()).collect(),
    }
}

fn sample_table() -> MemTable {
    MemTable {
        columns: vec!["id".to_string(), "region".to_string()],
        rows: vec![row(&["1", "west"]), row(&["2", "east"])],
    }
}

#[test]
fn count_rows_reports_the_held_rows() {
    let table = sample_table();
    assert_eq!(table.count_rows(), 2);
}

#[test]
fn add_appends_under_append_mode() {
    let mut table = sample_table();
    table
        .add(vec![row(&["3", "north"])], WriteMode::Append)
        .unwrap();
    assert_eq!(
        table.rows,
        vec![row(&["1", "west"]), row(&["2", "east"]), row(&["3", "north"])]
    );
}

#[test]
fn add_replaces_under_overwrite_mode() {
    let mut table = sample_table();
    table
        .add(vec![row(&["9", "south"])], WriteMode::Overwrite)
        .unwrap();
    assert_eq!(table.rows, vec![row(&["9", "south"])]);
}

#[test]
fn add_rejects_create_mode_on_an_existing_table() {
    let mut table = sample_table();
    let before = table.rows.clone();
    let err = table
        .add(vec![row(&["9", "south"])], WriteMode::Create)
        .unwrap_err();
    match err {
        Error::InvalidInput { message } => assert_eq!(message, "table already exists"),
        _ => panic!("expected invalid input"),
    }
    assert_eq!(table.rows, before);
}

#[test]
fn delete_removes_exactly_the_selected_rows() {
    let mut table = sample_table();
    table.delete("region = 'west'").unwrap();
    assert_eq!(table.rows, vec![row(&["2", "east"])]);
}

#[test]
fn delete_rejects_a_predicate_it_cannot_interpret() {
    let mut table = sample_table();
    let before = table.rows.clone();
    assert!(matches!(
        table.delete("region < 'west'"),
        Err(Error::InvalidInput { .. })
    ));
    assert!(matches!(
        table.delete("altitude = '100'"),
        Err(Error::InvalidInput { .. })
    ));
    assert_eq!(table.rows, before);
}
