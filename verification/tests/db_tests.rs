use database::common::KeyValue;
use database::sql::{
    base_table_defs, check_table_sql, counted, create_table_sql, delete_data_sql,
    delete_table_sql, exists_data_sql, gather_rows, insert_one_data_sql, select_all_sql,
    select_by_column_sql, select_data_sql, update_data_sql,
};
use sqlite::{Connection, State, Value};

fn kv(k: &str, v: &str) -> KeyValue {
    KeyValue::of(k, v)
}

fn table_exists(db: &Connection, name: &str) -> bool {
    let mut st = db.prepare(check_table_sql()).unwrap();
    st.bind((1, name)).unwrap();
    st.next().unwrap();
    counted(st.read::<i64, _>(0).unwrap())
}

fn count(db: &Connection, sql: &str) -> bool {
    let mut st = db.prepare(sql).unwrap();
    st.next().unwrap();
    counted(st.read::<i64, _>(0).unwrap())
}

fn rows(db: &Connection, sql: &str) -> Vec<Vec<String>> {
    let mut st = db.prepare(sql).unwrap();
    let mut raw = Vec::new();
    while let State::Row = st.next().unwrap() {
        let mut cells = Vec::new();
        for i in 0..st.column_count() {
            cells.push(match st.read::<Value, _>(i).unwrap() {
                Value::String(s) => Some(s),
                _ => None,
            });
        }
        raw.push(cells);
    }
    gather_rows(raw)
}

#[test]
fn statements_run_against_sqlite() {
    let db = sqlite::open(":memory:").unwrap();
    let columns = vec![kv("id", "TEXT")];
    let params = vec![kv("id", "first")];
    let ups = vec![kv("id", "second")];

    db.execute(create_table_sql("scratch", &columns).unwrap()).unwrap();
    assert!(table_exists(&db, "scratch"));
    db.execute(insert_one_data_sql("scratch", &params)).unwrap();
    assert!(count(&db, &exists_data_sql("scratch", &params)));
    assert_eq!(rows(&db, &select_data_sql("scratch", &params)), vec![vec!["first".to_string()]]);
    db.execute(update_data_sql("scratch", &params, &ups)).unwrap();
    assert_eq!(rows(&db, &select_all_sql("scratch")), vec![vec!["second".to_string()]]);
    db.execute(delete_data_sql("scratch", &ups)).unwrap();
    assert!(rows(&db, &select_data_sql("scratch", &ups)).is_empty());
    assert!(!count(&db, &exists_data_sql("scratch", &ups)));
    db.execute(delete_table_sql("scratch")).unwrap();
    assert!(!table_exists(&db, "scratch"));
}

#[test]
fn base_tables_can_be_created_and_queried() {
    let db = sqlite::open(":memory:").unwrap();
    for (name, columns) in base_table_defs() {
        db.execute(create_table_sql(&name, &columns).unwrap()).unwrap();
        assert!(table_exists(&db, &name));
    }
    let dev = vec![kv("model", "m"), kv("port", "1"), kv("addr", "2"), kv("desc", "d"), kv("guid", "7")];
    db.execute(insert_one_data_sql("device", &dev)).unwrap();
    let got = rows(&db, &select_by_column_sql("device", &vec!["guid".to_string()], &vec![kv("model", "m"), kv("port", "1"), kv("addr", "2")]));
    assert_eq!(got, vec![vec!["7".to_string()]]);
    let all = rows(&db, &select_all_sql("device"));
    assert_eq!(all.len(), 1);
    assert_eq!(all[0].len(), 8);
    assert_eq!(all[0][5], "");
}
