use lancedb::error::Error;
use lancedb::mem_table::MemTable;
use lancedb::merge::{MergeInsertBuilder, Row};

fn row(vals: &[&str]) -> Row {
    Row {
        values: vals.iter().map(|v| v.to_string()).collect(),
    }
}

fn sample_table() -> MemTable {
    MemTable {
        columns: vec![
            "id".to_string(),
            "region".to_string(),
            "payload".to_string(),
        ],
        rows: vec![
            row(&["1", "west", "a"]),
            row(&["2", "east", "b"]),
            row(&["3", "west", "c"]),
        ],
    }
}

fn builder_on_id() -> MergeInsertBuilder {
    MergeInsertBuilder::new(vec!["id".to_string()]).unwrap()
}

#[test]
fn empty_join_keys_are_rejected() {
    match MergeInsertBuilder::new(Vec::new()).unwrap_err() {
        Error::InvalidInput { message } => {
            assert_eq!(message, "merge insert requires at least one join key column");
        }
        _ => panic!("expected invalid input"),
    }
}

#[test]
fn builder_records_configuration() {
    let b = builder_on_id()
        .when_matched_update_all()
        .when_not_matched_insert_all()
        .when_not_matched_by_source_delete(Some("region = 'west'".to_string()));
    assert_eq!(b.on, vec!["id".to_string()]);
    assert!(b.when_matched_update_all);
    assert!(b.when_not_matched_insert_all);
    assert!(b.when_not_matched_by_source_delete);
    assert_eq!(
        b.when_not_matched_by_source_delete_filt,
        Some("region = 'west'".to_string())
    );
}

#[test]
fn no_flags_leaves_target_unchanged() {
    let mut table = sample_table();
    let before = table.rows.clone();
    let source = vec![row(&["1", "north", "x"]), row(&["9", "south", "y"])];
    builder_on_id().execute(&mut table, source).unwrap();
    assert_eq!(table.rows.len(), before.len());
    assert_eq!(table.rows, before);
}

#[test]
fn insert_only_appends_all_unmatched_rows() {
    let mut table = sample_table();
    let before = table.rows.clone();
    let source = vec![row(&["8", "north", "x"]), row(&["9", "south", "y"])];
    builder_on_id()
        .when_not_matched_insert_all()
        .execute(&mut table, source.clone())
        .unwrap();
    let mut expected = before;
    expected.extend(source);
    assert_eq!(table.rows, expected);
}

#[test]
fn update_all_replaces_matched_rows() {
    let mut table = sample_table();
    let source = vec![row(&["2", "north", "z"])];
    builder_on_id()
        .when_matched_update_all()
        .execute(&mut table, source)
        .unwrap();
    assert_eq!(
        table.rows,
        vec![
            row(&["1", "west", "a"]),
            row(&["2", "north", "z"]),
            row(&["3", "west", "c"]),
        ]
    );
}

#[test]
fn update_all_with_several_matching_source_rows_uses_the_engine_choice() {
    // Two source rows carry the key of one target row. The multiple-match
    // case is engine-defined and subject to change; this engine replaces
    // the matched row by every matching source row, in source order.
    let mut table = sample_table();
    let source = vec![row(&["2", "north", "p"]), row(&["2", "south", "q"])];
    builder_on_id()
        .when_matched_update_all()
        .execute(&mut table, source)
        .unwrap();
    assert_eq!(
        table.rows,
        vec![
            row(&["1", "west", "a"]),
            row(&["2", "north", "p"]),
            row(&["2", "south", "q"]),
            row(&["3", "west", "c"]),
        ]
    );
}

#[test]
fn delete_with_filter_only_deletes_selected_unmatched_rows() {
    let mut table = sample_table();
    // Row 2 is matched by the source; rows 1 and 3 are unmatched, and only
    // the rows in the west region satisfy the filter.
    let source = vec![row(&["2", "east", "b2"])];
    builder_on_id()
        .when_not_matched_by_source_delete(Some("region = 'west'".to_string()))
        .execute(&mut table, source)
        .unwrap();
    assert_eq!(table.rows, vec![row(&["2", "east", "b"])]);
}

#[test]
fn delete_without_filter_deletes_every_unmatched_row() {
    let mut table = sample_table();
    let source = vec![row(&["3", "west", "c2"])];
    builder_on_id()
        .when_not_matched_by_source_delete(None)
        .execute(&mut table, source)
        .unwrap();
    assert_eq!(table.rows, vec![row(&["3", "west", "c"])]);
}

#[test]
fn failed_merge_leaves_target_unchanged() {
    let mut table = sample_table();
    let before = table.rows.clone();
    let source = vec![row(&["1", "west", "a2"])];
    let err = builder_on_id()
        .when_not_matched_by_source_delete(Some("region >= 'west'".to_string()))
        .execute(&mut table, source)
        .unwrap_err();
    assert!(matches!(err, Error::InvalidInput { .. }));
    assert_eq!(table.rows, before);
}

#[test]
fn unknown_join_key_column_is_rejected() {
    let mut table = sample_table();
    let before = table.rows.clone();
    let source = vec![row(&["1", "west", "a2"])];
    let builder = MergeInsertBuilder::new(vec!["serial".to_string()]).unwrap();
    let err = builder
        .when_not_matched_insert_all()
        .execute(&mut table, source)
        .unwrap_err();
    assert!(matches!(err, Error::InvalidInput { .. }));
    assert_eq!(table.rows, before);
}

#[test]
fn upsert_combines_update_and_insert() {
    let mut table = sample_table();
    let source = vec![row(&["3", "north", "c2"]), row(&["4", "north", "d"])];
    builder_on_id()
        .when_matched_update_all()
        .when_not_matched_insert_all()
        .execute(&mut table, source)
        .unwrap();
    assert_eq!(
        table.rows,
        vec![
            row(&["1", "west", "a"]),
            row(&["2", "east", "b"]),
            row(&["3", "north", "c2"]),
            row(&["4", "north", "d"]),
        ]
    );
}

#[test]
fn compound_join_keys_match_on_the_full_tuple() {
    let mut table = MemTable {
        columns: vec!["a".to_string(), "b".to_string(), "v".to_string()],
        rows: vec![row(&["1", "1", "x"]), row(&["1", "2", "y"])],
    };
    let builder = MergeInsertBuilder::new(vec!["a".to_string(), "b".to_string()]).unwrap();
    let source = vec![row(&["1", "2", "y2"]), row(&["2", "1", "z"])];
    builder
        .when_matched_update_all()
        .when_not_matched_insert_all()
        .execute(&mut table, source)
        .unwrap();
    assert_eq!(
        table.rows,
        vec![row(&["1", "1", "x"]), row(&["1", "2", "y2"]), row(&["2", "1", "z"])]
    );
}
