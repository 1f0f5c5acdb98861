//! SQL statement texts for the device database, and the shaping of query rows.

use vstd::prelude::*;
use crate::common::{kv_views, KeyValue};
use crate::json::owned;
use crate::protocol::rows_nonempty;
use crate::text::{join, join_strings, push_str, views};

verus! {

broadcast use vstd::string::group_string_axioms;

/// `key = "value"`.
pub open spec fn condition(kv: (Seq<char>, Seq<char>)) -> Seq<char> {
    kv.0 + " = \""@ + kv.1 + "\""@
}

/// The conditions joined by ` and ` (empty for no pairs).
pub open spec fn conditions(kvs: Seq<(Seq<char>, Seq<char>)>) -> Seq<char> {
    join(kvs.map_values(|kv: (Seq<char>, Seq<char>)| condition(kv)), " and "@)
}

/// `key  type`, one column of a table definition.
pub open spec fn column_def(kv: (Seq<char>, Seq<char>)) -> Seq<char> {
    kv.0 + "  "@ + kv.1
}

/// `CREATE TABLE IF NOT EXISTS table ( k1  t1,\nk2  t2)`.
pub open spec fn create_table_statement(table: Seq<char>, params: Seq<(Seq<char>, Seq<char>)>) -> Seq<char> {
    "CREATE TABLE IF NOT EXISTS "@ + table + " ( "@ + join(
        params.map_values(|kv: (Seq<char>, Seq<char>)| column_def(kv)),
        ",\n"@,
    ) + ")"@
}

/// `DROP TABLE "table"`.
pub open spec fn delete_table_statement(table: Seq<char>) -> Seq<char> {
    "DROP TABLE \""@ + table + "\""@
}

/// `SELECT COUNT(*) FROM table WHERE conditions`.
pub open spec fn exists_statement(table: Seq<char>, params: Seq<(Seq<char>, Seq<char>)>) -> Seq<char> {
    "SELECT COUNT(*) FROM "@ + table + " WHERE "@ + conditions(params)
}

/// A parenthesised, comma-separated list written after a space; an empty
/// list leaves only ` )`.
pub open spec fn paren_list(items: Seq<Seq<char>>) -> Seq<char> {
    if items.len() == 0 {
        " )"@
    } else {
        " ("@ + join(items, ","@) + ")"@
    }
}

/// `"value"`.
pub open spec fn quoted_value(kv: (Seq<char>, Seq<char>)) -> Seq<char> {
    "\""@ + kv.1 + "\""@
}

/// `INSERT INTO table (k1,k2)\nVALUES ("v1","v2")`.
pub open spec fn insert_statement(table: Seq<char>, params: Seq<(Seq<char>, Seq<char>)>) -> Seq<char> {
    "INSERT INTO "@ + table + paren_list(params.map_values(|kv: (Seq<char>, Seq<char>)| kv.0))
        + "\nVALUES"@ + paren_list(params.map_values(|kv: (Seq<char>, Seq<char>)| quoted_value(kv)))
}

/// `SELECT * FROM table WHERE conditions`.
pub open spec fn select_data_statement(table: Seq<char>, params: Seq<(Seq<char>, Seq<char>)>) -> Seq<char> {
    "SELECT * FROM "@ + table + " WHERE "@ + conditions(params)
}

/// `SELECT * FROM table`.
pub open spec fn select_all_statement(table: Seq<char>) -> Seq<char> {
    "SELECT * FROM "@ + table
}

/// `SELECT key FROM table`.
pub open spec fn select_column_all_statement(table: Seq<char>, key: Seq<char>) -> Seq<char> {
    "SELECT "@ + key + " FROM "@ + table
}

/// The column list of a select: `SELECT k1, k2`; with no column the
/// trailing two characters of `SELECT ` are cut, leaving `SELEC`.
pub open spec fn column_list(keys: Seq<Seq<char>>) -> Seq<char> {
    if keys.len() == 0 {
        "SELEC"@
    } else {
        "SELECT "@ + join(keys, ", "@)
    }
}

/// `SELECT k1, k2 FROM table WHERE conditions`.
pub open spec fn select_by_column_statement(
    table: Seq<char>,
    keys: Seq<Seq<char>>,
    params: Seq<(Seq<char>, Seq<char>)>,
) -> Seq<char> {
    column_list(keys) + " FROM "@ + table + " WHERE "@ + conditions(params)
}

/// `UPDATE table SET k = "v" and ... WHERE conditions`: the assignments are
/// joined by ` and ` like the conditions.
pub open spec fn update_statement(
    table: Seq<char>,
    conditions_kv: Seq<(Seq<char>, Seq<char>)>,
    params: Seq<(Seq<char>, Seq<char>)>,
) -> Seq<char> {
    "UPDATE "@ + table + " SET "@ + conditions(params) + " WHERE "@ + conditions(conditions_kv)
}

/// `DELETE FROM table WHERE conditions`; with no condition the last five
/// characters of ` WHERE ` are cut, leaving ` W`.
pub open spec fn delete_data_statement(table: Seq<char>, params: Seq<(Seq<char>, Seq<char>)>) -> Seq<char> {
    if params.len() == 0 {
        "DELETE FROM "@ + table + " W"@
    } else {
        "DELETE FROM "@ + table + " WHERE "@ + conditions(params)
    }
}

/// `DELETE FROM table`.
pub open spec fn delete_all_statement(table: Seq<char>) -> Seq<char> {
    "DELETE FROM "@ + table
}

/// `s` ends with `t`.
pub open spec fn ends_with(s: Seq<char>, t: Seq<char>) -> bool {
    t.len() <= s.len() && s.skip(s.len() - t.len()) == t
}

/// `s` starts with `t`.
pub open spec fn starts_with(s: Seq<char>, t: Seq<char>) -> bool {
    t.len() <= s.len() && s.take(t.len() as int) == t
}

/// A `WHERE` clause naming every given pair, in order: ` WHERE ` and, for
/// each pair, its key, ` = `, and its value in double quotes, the pairs
/// separated by ` and `.
pub open spec fn where_every(kvs: Seq<(Seq<char>, Seq<char>)>) -> Seq<char> {
    " WHERE "@ + join(
        kvs.map_values(|kv: (Seq<char>, Seq<char>)| kv.0 + seq![' ', '=', ' ', '"'] + kv.1 + seq!['"']),
        seq![' ', 'a', 'n', 'd', ' '],
    )
}

/// The conditions of a statement are those of every given pair.
proof fn lemma_conditions_every(kvs: Seq<(Seq<char>, Seq<char>)>)
    ensures
        " WHERE "@ + conditions(kvs) == where_every(kvs),
{
    reveal_strlit(" = \"");
    reveal_strlit("\"");
    reveal_strlit(" and ");
    assert(" = \""@ =~= seq![' ', '=', ' ', '"']);
    assert("\""@ =~= seq!['"']);
    assert(" and "@ =~= seq![' ', 'a', 'n', 'd', ' ']);
    assert(kvs.map_values(|kv: (Seq<char>, Seq<char>)| condition(kv)) =~= kvs.map_values(
        |kv: (Seq<char>, Seq<char>)| kv.0 + seq![' ', '=', ' ', '"'] + kv.1 + seq!['"'],
    ));
}

/// `a + b` ends with `b`.
proof fn lemma_ends_with_concat(a: Seq<char>, b: Seq<char>)
    ensures
        ends_with(a + b, b),
        starts_with(a + b, a),
{
    assert((a + b).skip(a.len() as int) =~= b);
    assert((a + b).take(a.len() as int) =~= a);
}

/// An update changes exactly the rows matching every condition pair: the
/// statement starts with `UPDATE table SET ` and ends with a `WHERE` clause
/// naming all the condition pairs in order.
pub proof fn lemma_update_where(
    table: Seq<char>,
    conditions_kv: Seq<(Seq<char>, Seq<char>)>,
    params: Seq<(Seq<char>, Seq<char>)>,
)
    ensures
        starts_with(update_statement(table, conditions_kv, params), "UPDATE "@ + table + " SET "@),
        ends_with(update_statement(table, conditions_kv, params), where_every(conditions_kv)),
{
    lemma_conditions_every(conditions_kv);
    let head = "UPDATE "@ + table + " SET "@;
    let a = head + conditions(params);
    assert(update_statement(table, conditions_kv, params) =~= a + where_every(conditions_kv));
    lemma_ends_with_concat(a, where_every(conditions_kv));
    assert(update_statement(table, conditions_kv, params) =~= head + (conditions(params) + where_every(conditions_kv)));
    lemma_ends_with_concat(head, conditions(params) + where_every(conditions_kv));
}

/// A deletion with conditions removes exactly the rows matching every pair:
/// the statement is `DELETE FROM table` followed by a `WHERE` clause naming
/// all the pairs in order.
pub proof fn lemma_delete_where(table: Seq<char>, params: Seq<(Seq<char>, Seq<char>)>)
    requires
        params.len() > 0,
    ensures
        delete_data_statement(table, params) == "DELETE FROM "@ + table + where_every(params),
{
    lemma_conditions_every(params);
    assert(delete_data_statement(table, params) =~= "DELETE FROM "@ + table + where_every(params));
}

/// A select by column reads only the rows matching every pair: the
/// statement ends with a `WHERE` clause naming all the pairs in order, after
/// ` FROM table`.
pub proof fn lemma_select_by_column_where(
    table: Seq<char>,
    keys: Seq<Seq<char>>,
    params: Seq<(Seq<char>, Seq<char>)>,
)
    ensures
        ends_with(select_by_column_statement(table, keys, params), " FROM "@ + table + where_every(params)),
{
    lemma_conditions_every(params);
    let tail = " FROM "@ + table + where_every(params);
    assert(select_by_column_statement(table, keys, params) =~= column_list(keys) + tail);
    lemma_ends_with_concat(column_list(keys), tail);
}

/// A select or an existence check reads only the rows matching every pair:
/// each statement is its fixed head and the table, then a `WHERE` clause
/// naming all the pairs in order.
pub proof fn lemma_select_exists_where(table: Seq<char>, params: Seq<(Seq<char>, Seq<char>)>)
    ensures
        select_data_statement(table, params) == "SELECT * FROM "@ + table + where_every(params),
        exists_statement(table, params) == "SELECT COUNT(*) FROM "@ + table + where_every(params),
{
    lemma_conditions_every(params);
    assert(select_data_statement(table, params) =~= "SELECT * FROM "@ + table + where_every(params));
    assert(exists_statement(table, params) =~= "SELECT COUNT(*) FROM "@ + table + where_every(params));
}

/// An insert writes every pair, in order: with at least one pair the
/// statement lists each key, comma-separated, in parentheses, and after
/// `VALUES` each value in double quotes, comma-separated, in the same order.
pub proof fn lemma_insert_every(table: Seq<char>, params: Seq<(Seq<char>, Seq<char>)>)
    requires
        params.len() > 0,
    ensures
        insert_statement(table, params) == "INSERT INTO "@ + table + seq![' ', '('] + join(
            Seq::new(params.len(), |i: int| params[i].0),
            seq![','],
        ) + seq![')', '\n', 'V', 'A', 'L', 'U', 'E', 'S', ' ', '('] + join(
            Seq::new(params.len(), |i: int| seq!['"'] + params[i].1 + seq!['"']),
            seq![','],
        ) + seq![')'],
{
    reveal_strlit(" (");
    reveal_strlit(",");
    reveal_strlit(")");
    reveal_strlit("\nVALUES");
    reveal_strlit("\"");
    assert(" ("@ =~= seq![' ', '(']);
    assert(","@ =~= seq![',']);
    assert(")"@ =~= seq![')']);
    assert("\nVALUES"@ =~= seq!['\n', 'V', 'A', 'L', 'U', 'E', 'S']);
    assert("\""@ =~= seq!['"']);
    let ks = params.map_values(|kv: (Seq<char>, Seq<char>)| kv.0);
    let vs = params.map_values(|kv: (Seq<char>, Seq<char>)| quoted_value(kv));
    assert(ks =~= Seq::new(params.len(), |i: int| params[i].0));
    assert(vs =~= Seq::new(params.len(), |i: int| seq!['"'] + params[i].1 + seq!['"']));
    assert(insert_statement(table, params) =~= "INSERT INTO "@ + table + seq![' ', '('] + join(
        Seq::new(params.len(), |i: int| params[i].0),
        seq![','],
    ) + seq![')', '\n', 'V', 'A', 'L', 'U', 'E', 'S', ' ', '('] + join(
        Seq::new(params.len(), |i: int| seq!['"'] + params[i].1 + seq!['"']),
        seq![','],
    ) + seq![')']);
}

/// `a + b + c + d` as one string.
fn concat4(a: &str, b: &str, c: &str, d: &str) -> (r: String)
    ensures
        r@ == a@ + b@ + c@ + d@,
{
    let mut r = owned(a);
    push_str(&mut r, b);
    push_str(&mut r, c);
    push_str(&mut r, d);
    r
}

/// The condition text of each pair.
fn condition_pieces(kvs: &Vec<KeyValue>) -> (r: Vec<String>)
    ensures
        views(r@) == kv_views(kvs@).map_values(|kv: (Seq<char>, Seq<char>)| condition(kv)),
{
    let ghost target = kv_views(kvs@).map_values(|kv: (Seq<char>, Seq<char>)| condition(kv));
    let mut r: Vec<String> = Vec::new();
    let mut i: usize = 0;
    while i < kvs.len()
        invariant
            i <= kvs.len(),
            target == kv_views(kvs@).map_values(|kv: (Seq<char>, Seq<char>)| condition(kv)),
            views(r@) == target.take(i as int),
        decreases kvs.len() - i,
    {
        r.push(concat4(kvs[i].key.as_str(), " = \"", kvs[i].value.as_str(), "\""));
        proof {
            assert(views(r@) == views(r@.drop_last()).push(r@.last()@));
            assert(target.take(i + 1) == target.take(i as int).push(target[i as int]));
        }
        i = i + 1;
    }
    proof {
        assert(target.take(kvs.len() as int) == target);
    }
    r
}

/// The conditions of a `WHERE` clause.
pub fn condition_text(kvs: &Vec<KeyValue>) -> (r: String)
    ensures
        r@ == conditions(kv_views(kvs@)),
{
    let pieces = condition_pieces(kvs);
    join_strings(&pieces, " and ")
}

/// The statement `create_table` runs; none when the table name or the column
/// list is empty (the table is then not created).
pub fn create_table_sql(table_name: &str, params: &Vec<KeyValue>) -> (r: Option<String>)
    ensures
        match r {
            Some(s) => table_name@.len() > 0 && params.len() > 0
                && s@ == create_table_statement(table_name@, kv_views(params@)),
            None => table_name@.len() == 0 || params.len() == 0,
        },
{
    if table_name.is_empty() || params.len() == 0 {
        return None;
    }
    let ghost target = kv_views(params@).map_values(|kv: (Seq<char>, Seq<char>)| column_def(kv));
    let mut defs: Vec<String> = Vec::new();
    let mut i: usize = 0;
    while i < params.len()
        invariant
            i <= params.len(),
            target == kv_views(params@).map_values(|kv: (Seq<char>, Seq<char>)| column_def(kv)),
            views(defs@) == target.take(i as int),
        decreases params.len() - i,
    {
        let mut d = params[i].key.clone();
        push_str(&mut d, "  ");
        push_str(&mut d, params[i].value.as_str());
        defs.push(d);
        proof {
            assert(views(defs@) == views(defs@.drop_last()).push(defs@.last()@));
            assert(target.take(i + 1) == target.take(i as int).push(target[i as int]));
        }
        i = i + 1;
    }
    proof {
        assert(target.take(params.len() as int) == target);
    }
    let body = join_strings(&defs, ",\n");
    let mut sql = concat4("CREATE TABLE IF NOT EXISTS ", table_name, " ( ", body.as_str());
    push_str(&mut sql, ")");
    Some(sql)
}

/// The statement `check_table` prepares; the table's name is bound to its
/// one parameter.
pub open spec fn check_table_statement() -> Seq<char> {
    "SELECT COUNT(*) FROM sqlite_master WHERE type = \"table\"  and name = ?"@
}

/// The statement `check_table` prepares.
pub fn check_table_sql() -> (r: String)
    ensures
        r@ == check_table_statement(),
{
    owned("SELECT COUNT(*) FROM sqlite_master WHERE type = \"table\"  and name = ?")
}

/// Whether a `COUNT(*)` result reports any row.
pub fn counted(count: i64) -> (r: bool)
    ensures
        r == (count != 0),
{
    count != 0
}

/// The tables every database starts with: `model` (name and definition of
/// each model) and `device` (one row per registered device), all columns text.
pub open spec fn base_tables() -> Seq<(Seq<char>, Seq<(Seq<char>, Seq<char>)>)> {
    seq![
        ("model"@, seq![("name"@, "TEXT"@), ("params"@, "TEXT"@)]),
        (
            "device"@,
            seq![
                ("model"@, "TEXT"@),
                ("port"@, "TEXT"@),
                ("addr"@, "TEXT"@),
                ("desc"@, "TEXT"@),
                ("guid"@, "TEXT"@),
                ("appname"@, "TEXT"@),
                ("manuID"@, "TEXT"@),
                ("isreport"@, "TEXT"@),
            ],
        ),
    ]
}

/// A text column.
fn text_column(name: &str) -> (r: KeyValue)
    ensures
        r@ == (name@, "TEXT"@),
{
    KeyValue::of(name, "TEXT")
}

/// The tables `init_base_table` creates, with their columns, in order.
pub fn base_table_defs() -> (r: Vec<(String, Vec<KeyValue>)>)
    ensures
        r@.map_values(|t: (String, Vec<KeyValue>)| (t.0@, kv_views(t.1@))) == base_tables(),
{
    let mut model: Vec<KeyValue> = Vec::new();
    model.push(text_column("name"));
    model.push(text_column("params"));
    let mut device: Vec<KeyValue> = Vec::new();
    device.push(text_column("model"));
    device.push(text_column("port"));
    device.push(text_column("addr"));
    device.push(text_column("desc"));
    device.push(text_column("guid"));
    device.push(text_column("appname"));
    device.push(text_column("manuID"));
    device.push(text_column("isreport"));
    proof {
        assert(kv_views(model@) =~= base_tables()[0].1);
        assert(kv_views(device@) =~= base_tables()[1].1);
    }
    let mut r: Vec<(String, Vec<KeyValue>)> = Vec::new();
    r.push((owned("model"), model));
    r.push((owned("device"), device));
    proof {
        assert(r@.map_values(|t: (String, Vec<KeyValue>)| (t.0@, kv_views(t.1@))) =~= base_tables());
    }
    r
}

/// The statement `delete_table` runs.
pub fn delete_table_sql(table_name: &str) -> (r: String)
    ensures
        r@ == delete_table_statement(table_name@),
{
    let mut sql = owned("DROP TABLE \"");
    push_str(&mut sql, table_name);
    push_str(&mut sql, "\"");
    sql
}

/// The statement `exists_data` runs.
pub fn exists_data_sql(table_name: &str, params: &Vec<KeyValue>) -> (r: String)
    ensures
        r@ == exists_statement(table_name@, kv_views(params@)),
{
    let cond = condition_text(params);
    concat4("SELECT COUNT(*) FROM ", table_name, " WHERE ", cond.as_str())
}

/// A parenthesised list of the given items.
fn paren_text(items: &Vec<String>) -> (r: String)
    ensures
        r@ == paren_list(views(items@)),
{
    if items.len() == 0 {
        owned(" )")
    } else {
        let inner = join_strings(items, ",");
        let mut r = owned(" (");
        push_str(&mut r, inner.as_str());
        push_str(&mut r, ")");
        r
    }
}

/// The statement `insert_one_data` runs.
pub fn insert_one_data_sql(table_name: &str, params: &Vec<KeyValue>) -> (r: String)
    ensures
        r@ == insert_statement(table_name@, kv_views(params@)),
{
    let ghost kv = kv_views(params@);
    let ghost keys = kv.map_values(|p: (Seq<char>, Seq<char>)| p.0);
    let ghost vals = kv.map_values(|p: (Seq<char>, Seq<char>)| quoted_value(p));
    let mut ks: Vec<String> = Vec::new();
    let mut vs: Vec<String> = Vec::new();
    let mut i: usize = 0;
    while i < params.len()
        invariant
            i <= params.len(),
            kv == kv_views(params@),
            keys == kv.map_values(|p: (Seq<char>, Seq<char>)| p.0),
            vals == kv.map_values(|p: (Seq<char>, Seq<char>)| quoted_value(p)),
            views(ks@) == keys.take(i as int),
            views(vs@) == vals.take(i as int),
        decreases params.len() - i,
    {
        ks.push(params[i].key.clone());
        let mut v = owned("\"");
        push_str(&mut v, params[i].value.as_str());
        push_str(&mut v, "\"");
        vs.push(v);
        proof {
            assert(views(ks@) == views(ks@.drop_last()).push(ks@.last()@));
            assert(views(vs@) == views(vs@.drop_last()).push(vs@.last()@));
            assert(keys.take(i + 1) == keys.take(i as int).push(keys[i as int]));
            assert(vals.take(i + 1) == vals.take(i as int).push(vals[i as int]));
        }
        i = i + 1;
    }
    proof {
        assert(keys.take(params.len() as int) == keys);
        assert(vals.take(params.len() as int) == vals);
    }
    let kp = paren_text(&ks);
    let vp = paren_text(&vs);
    let mut sql = concat4("INSERT INTO ", table_name, kp.as_str(), "\nVALUES");
    push_str(&mut sql, vp.as_str());
    sql
}

/// The statement `select_data` runs.
pub fn select_data_sql(table_name: &str, params: &Vec<KeyValue>) -> (r: String)
    ensures
        r@ == select_data_statement(table_name@, kv_views(params@)),
{
    let cond = condition_text(params);
    concat4("SELECT * FROM ", table_name, " WHERE ", cond.as_str())
}

/// The statement `select_all` runs.
pub fn select_all_sql(table_name: &str) -> (r: String)
    ensures
        r@ == select_all_statement(table_name@),
{
    let mut sql = owned("SELECT * FROM ");
    push_str(&mut sql, table_name);
    sql
}

/// The statement `select_column_all` runs.
pub fn select_column_all_sql(table_name: &str, key: &str) -> (r: String)
    ensures
        r@ == select_column_all_statement(table_name@, key@),
{
    concat4("SELECT ", key, " FROM ", table_name)
}

/// The statement `select_by_colunm` runs.
pub fn select_by_column_sql(table_name: &str, keys: &Vec<String>, params: &Vec<KeyValue>) -> (r: String)
    ensures
        r@ == select_by_column_statement(table_name@, views(keys@), kv_views(params@)),
{
    let columns = if keys.len() == 0 {
        owned("SELEC")
    } else {
        let list = join_strings(keys, ", ");
        let mut c = owned("SELECT ");
        push_str(&mut c, list.as_str());
        c
    };
    let cond = condition_text(params);
    let mut sql = concat4(columns.as_str(), " FROM ", table_name, " WHERE ");
    push_str(&mut sql, cond.as_str());
    sql
}

/// The statement `update_data` runs.
pub fn update_data_sql(table_name: &str, conditions_kv: &Vec<KeyValue>, params: &Vec<KeyValue>) -> (r: String)
    ensures
        r@ == update_statement(table_name@, kv_views(conditions_kv@), kv_views(params@)),
{
    let set = condition_text(params);
    let cond = condition_text(conditions_kv);
    let mut sql = concat4("UPDATE ", table_name, " SET ", set.as_str());
    push_str(&mut sql, " WHERE ");
    push_str(&mut sql, cond.as_str());
    sql
}

/// The statement `delete_data` runs.
pub fn delete_data_sql(table_name: &str, params: &Vec<KeyValue>) -> (r: String)
    ensures
        r@ == delete_data_statement(table_name@, kv_views(params@)),
{
    if params.len() == 0 {
        let mut sql = owned("DELETE FROM ");
        push_str(&mut sql, table_name);
        push_str(&mut sql, " W");
        return sql;
    }
    let cond = condition_text(params);
    concat4("DELETE FROM ", table_name, " WHERE ", cond.as_str())
}

/// The statement `delete_all` runs.
pub fn delete_all_sql(table_name: &str) -> (r: String)
    ensures
        r@ == delete_all_statement(table_name@),
{
    let mut sql = owned("DELETE FROM ");
    push_str(&mut sql, table_name);
    sql
}

/// The text of one cell as read: a text cell's characters, empty otherwise.
pub open spec fn cell_text(c: Option<Seq<char>>) -> Seq<char> {
    match c {
        Some(s) => s,
        None => Seq::empty(),
    }
}

/// The views of raw result rows.
pub open spec fn raw_views(raw: Seq<Vec<Option<String>>>) -> Seq<Seq<Option<Seq<char>>>> {
    raw.map_values(|row: Vec<Option<String>>| row@.map_values(|c: Option<String>| match c {
        Some(s) => Some(s@),
        None => None,
    }))
}

/// The views of shaped rows.
pub open spec fn rows_view(rows: Seq<Vec<String>>) -> Seq<Seq<Seq<char>>> {
    rows.map_values(|row: Vec<String>| views(row@))
}

/// The rows a query returns: rows without columns are left out, and a cell
/// that is not text reads as the empty text.
pub open spec fn kept_rows(raw: Seq<Seq<Option<Seq<char>>>>) -> Seq<Seq<Seq<char>>>
    decreases raw.len(),
{
    if raw.len() == 0 {
        Seq::empty()
    } else {
        let kept = kept_rows(raw.drop_last());
        if raw.last().len() == 0 {
            kept
        } else {
            kept.push(raw.last().map_values(|c: Option<Seq<char>>| cell_text(c)))
        }
    }
}

/// The rows a query returns each have at least one cell.
pub proof fn lemma_kept_rows_nonempty(raw: Seq<Seq<Option<Seq<char>>>>)
    ensures
        rows_nonempty(kept_rows(raw)),
    decreases raw.len(),
{
    if raw.len() > 0 {
        lemma_kept_rows_nonempty(raw.drop_last());
        let kept = kept_rows(raw.drop_last());
        if raw.last().len() > 0 {
            let row = raw.last().map_values(|c: Option<Seq<char>>| cell_text(c));
            assert forall|i: int| 0 <= i < kept.push(row).len() implies #[trigger] kept.push(row)[i].len() > 0 by {
                if i < kept.len() {
                    assert(kept.push(row)[i] == kept[i]);
                }
            }
        }
    }
}

/// Shape the rows read from a query.
pub fn gather_rows(raw: Vec<Vec<Option<String>>>) -> (r: Vec<Vec<String>>)
    ensures
        rows_view(r@) == kept_rows(raw_views(raw@)),
{
    let ghost rv = raw_views(raw@);
    let mut out: Vec<Vec<String>> = Vec::new();
    let mut i: usize = 0;
    while i < raw.len()
        invariant
            i <= raw.len(),
            rv == raw_views(raw@),
            rows_view(out@) == kept_rows(rv.take(i as int)),
        decreases raw.len() - i,
    {
        proof {
            assert(rv.take(i + 1).drop_last() == rv.take(i as int));
        }
        let row = &raw[i];
        if row.len() > 0 {
            let ghost target = rv[i as int].map_values(|c: Option<Seq<char>>| cell_text(c));
            let mut cells: Vec<String> = Vec::new();
            let mut j: usize = 0;
            while j < row.len()
                invariant
                    j <= row.len(),
                    row@ == raw@[i as int]@,
                    rv == raw_views(raw@),
                    i < raw.len(),
                    target == rv[i as int].map_values(|c: Option<Seq<char>>| cell_text(c)),
                    views(cells@) == target.take(j as int),
                decreases row.len() - j,
            {
                let c = match &row[j] {
                    Some(s) => s.clone(),
                    None => String::new(),
                };
                cells.push(c);
                proof {
                    assert(views(cells@) == views(cells@.drop_last()).push(cells@.last()@));
                    assert(target.take(j + 1) == target.take(j as int).push(target[j as int]));
                }
                j = j + 1;
            }
            proof {
                assert(target.take(row.len() as int) == target);
            }
            out.push(cells);
            proof {
                assert(rows_view(out@) == rows_view(out@.drop_last()).push(views(out@.last()@)));
            }
        }
        i = i + 1;
    }
    proof {
        assert(rv.take(raw.len() as int) == rv);
    }
    out
}

} // verus!
