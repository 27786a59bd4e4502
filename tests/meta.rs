use psql::meta::{
    all_fk_query, default_doc_path, meta_queries, default_prefix, meta_tags, not_support_sql, schema_query,
    table_column_query, table_fk_query, table_index_query, tables_query, DBDialect, Method, Query,
};
use psql::program::Program;
use psql::sql::Dialect;

#[test]
fn detect_dialect() {
    assert_eq!(DBDialect::detect("mysql://root@localhost/db"), DBDialect::Mysql);
    assert_eq!(DBDialect::detect("sqlite://a.db"), DBDialect::Sqlite);
    assert_eq!(DBDialect::detect("postgres://x"), DBDialect::Unknown);
    assert_eq!(DBDialect::detect("my"), DBDialect::Unknown);
    assert_eq!(Dialect::from_uri("mysql://h"), Dialect::Mysql);
    assert_eq!(Dialect::from_uri("postgres://h"), Dialect::Sqlite);
}

#[test]
fn schema_queries() {
    let q = schema_query(&DBDialect::Mysql, "main");
    assert_eq!(q.name, "schema");
    assert_eq!(q.query.sql, "SELECT DATABASE() AS `db`");
    assert_eq!(q.query.path, "main/__meta/schema");
    assert_eq!(q.query.summary, Some("get database name".to_string()));
    assert_eq!(q.query.method, Method::Get);
    assert_eq!(q.query.tags, vec!["database_meta".to_string()]);
    let q = schema_query(&DBDialect::Sqlite, "lite");
    assert_eq!(
        q.query.sql,
        "SELECT 'lite' AS `db`, 'sqlite do not support database() function!' as `msg`"
    );
    let q = tables_query(&DBDialect::Unknown, "pg");
    assert_eq!(
        q.query.sql,
        "SELECT 'error' AS `status`, 'pg do not support list table operation' AS `msg`"
    );
    assert_eq!(q.query.path, "pg/__meta/tables");
    assert_eq!(table_index_query(&DBDialect::Sqlite, "c").name, "table_index");
    assert_eq!(table_column_query(&DBDialect::Mysql, "c").query.path, "c/__meta/table_column");
    assert_eq!(table_fk_query(&DBDialect::Mysql, "c").name, "table_fk");
    assert_eq!(all_fk_query(&DBDialect::Sqlite, "c").query.path, "c/__meta/fk");
    assert_eq!(
        not_support_sql("x", "y"),
        "SELECT 'error' AS `status`, 'x do not support y operation' AS `msg`"
    );
    assert_eq!(meta_tags(), vec!["database_meta".to_string()]);
    assert_eq!(default_prefix(), "api");
    assert_eq!(default_doc_path(), "_doc");
    assert_eq!(Method::default(), Method::Get);
}

#[test]
fn schema_queries_compile() {
    let q = table_index_query(&DBDialect::Sqlite, "c");
    let prog = Program::parse(&Dialect::Sqlite, &q.query.sql).unwrap();
    assert_eq!(prog.params.len(), 1);
    assert_eq!(prog.params[0].name, "table");
    assert_eq!(prog.params[0].help, "表名");
}

#[test]
fn query_sql_file() {
    let mut q = Query {
        conn: "c".to_string(),
        method: Method::Post,
        summary: None,
        sql: "@@queries/a.sql".to_string(),
        path: "a".to_string(),
        tags: vec![],
    };
    assert_eq!(q.sql_file(), Some("queries/a.sql".to_string()));
    q.sql = "select 1".to_string();
    assert_eq!(q.sql_file(), None);
}

#[test]
fn connection_meta_queries() {
    let qs = meta_queries(&DBDialect::Sqlite, "db1");
    let names: Vec<&str> = qs.iter().map(|q| q.name.as_str()).collect();
    assert_eq!(names, vec!["schema", "tables", "table_index", "table_column", "table_fk", "fk"]);
    assert!(qs.iter().all(|q| q.query.conn == "db1" && q.query.path.starts_with("db1/__meta/")));
    assert_eq!(qs[1].query.sql, tables_query(&DBDialect::Sqlite, "db1").query.sql);
}
