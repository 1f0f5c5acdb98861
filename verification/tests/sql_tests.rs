use database::common::KeyValue;
use database::sql::{
    base_table_defs, check_table_sql, condition_text, counted, create_table_sql, delete_all_sql,
    delete_data_sql, delete_table_sql, exists_data_sql, gather_rows, insert_one_data_sql,
    select_all_sql, select_by_column_sql, select_column_all_sql, select_data_sql, update_data_sql,
};

fn kv(k: &str, v: &str) -> KeyValue {
    KeyValue::of(k, v)
}

#[test]
fn create_table_sql_lists_columns() {
    let sql = create_table_sql("t", &vec![kv("a", "TEXT"), kv("b", "INT")]);
    assert_eq!(sql, Some("CREATE TABLE IF NOT EXISTS t ( a  TEXT,\nb  INT)".to_string()));
}

#[test]
fn create_table_sql_refuses_empty_name_or_columns() {
    assert_eq!(create_table_sql("", &vec![kv("a", "TEXT")]), None);
    assert_eq!(create_table_sql("t", &Vec::new()), None);
}

#[test]
fn check_and_delete_table_sql() {
    assert_eq!(check_table_sql(), "SELECT COUNT(*) FROM sqlite_master WHERE type = \"table\"  and name = ?");
    assert_eq!(delete_table_sql("temp"), "DROP TABLE \"temp\"");
}

#[test]
fn counted_reports_any_row() {
    assert!(!counted(0));
    assert!(counted(1));
    assert!(counted(7));
}

#[test]
fn exists_data_sql_joins_conditions() {
    assert_eq!(
        exists_data_sql("device", &vec![kv("model", "m"), kv("port", "1")]),
        "SELECT COUNT(*) FROM device WHERE model = \"m\" and port = \"1\""
    );
    assert_eq!(exists_data_sql("device", &Vec::new()), "SELECT COUNT(*) FROM device WHERE ");
}

#[test]
fn insert_one_data_sql_quotes_values() {
    assert_eq!(
        insert_one_data_sql("t", &vec![kv("a", "1"), kv("b", "2")]),
        "INSERT INTO t (a,b)\nVALUES (\"1\",\"2\")"
    );
    assert_eq!(insert_one_data_sql("t", &Vec::new()), "INSERT INTO t )\nVALUES )");
}

#[test]
fn select_sql_texts() {
    assert_eq!(select_data_sql("model", &vec![kv("name", "x")]), "SELECT * FROM model WHERE name = \"x\"");
    assert_eq!(select_all_sql("device"), "SELECT * FROM device");
    assert_eq!(select_column_all_sql("model", "name"), "SELECT name FROM model");
    assert_eq!(
        select_by_column_sql("temp", &vec!["a".to_string(), "b".to_string()], &vec![kv("guid", "7")]),
        "SELECT a, b FROM temp WHERE guid = \"7\""
    );
    assert_eq!(select_by_column_sql("temp", &Vec::new(), &vec![kv("guid", "7")]), "SELEC FROM temp WHERE guid = \"7\"");
}

#[test]
fn update_data_sql_texts() {
    assert_eq!(
        update_data_sql("device", &vec![kv("guid", "7")], &vec![kv("desc", "d"), kv("addr", "1")]),
        "UPDATE device SET desc = \"d\" and addr = \"1\" WHERE guid = \"7\""
    );
}

#[test]
fn delete_sql_texts() {
    assert_eq!(delete_data_sql("model", &vec![kv("name", "x")]), "DELETE FROM model WHERE name = \"x\"");
    assert_eq!(delete_data_sql("model", &Vec::new()), "DELETE FROM model W");
    assert_eq!(delete_all_sql("model"), "DELETE FROM model");
}

#[test]
fn condition_text_joins_with_and() {
    assert_eq!(condition_text(&vec![kv("a", "1"), kv("b", "2")]), "a = \"1\" and b = \"2\"");
    assert_eq!(condition_text(&Vec::new()), "");
}

#[test]
fn gather_rows_drops_empty_rows_and_blanks_non_text() {
    let raw = vec![
        vec![Some("a".to_string()), None],
        vec![],
        vec![Some("b".to_string()), Some("c".to_string())],
    ];
    let rows = gather_rows(raw);
    assert_eq!(rows, vec![vec!["a".to_string(), String::new()], vec!["b".to_string(), "c".to_string()]]);
    assert!(rows.iter().all(|r| !r.is_empty()));
}

#[test]
fn base_tables_are_model_and_device() {
    let defs = base_table_defs();
    assert_eq!(defs.len(), 2);
    assert_eq!(defs[0].0, "model");
    assert_eq!(defs[0].1, vec![kv("name", "TEXT"), kv("params", "TEXT")]);
    assert_eq!(defs[1].0, "device");
    let cols: Vec<&str> = defs[1].1.iter().map(|c| c.key.as_str()).collect();
    assert_eq!(cols, vec!["model", "port", "addr", "desc", "guid", "appname", "manuID", "isreport"]);
    assert!(defs[1].1.iter().all(|c| c.value == "TEXT"));
}
