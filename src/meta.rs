//! Registry records for named queries and connections, and the built-in queries
//! that describe a database's schema.

use vstd::prelude::*;
use crate::scan::chars_of;

verus! {

/// The database kind of a connection, as told by its URI.
#[derive(Debug, Clone, Copy, PartialEq, Eq, Structural)]
pub enum DBDialect {
    Mysql,
    Sqlite,
    Unknown,
}

/// HTTP method under which a query is served.
#[derive(Debug, Clone, Copy, PartialEq, Eq, Structural)]
pub enum Method {
    Get,
    Post,
    Put,
    Patch,
    Delete,
}

impl Default for Method {
    fn default() -> (r: Method)
        ensures
            r == Method::Get,
    {
        Method::Get
    }
}

/// Contact information shown in the API document.
#[derive(Debug, Clone, PartialEq)]
pub struct Contact {
    pub name: String,
    pub url: Option<String>,
    pub email: Option<String>,
}

/// A query served over HTTP.
#[derive(Debug, Clone, PartialEq)]
pub struct Query {
    /// name of the connection to run on
    pub conn: String,
    pub method: Method,
    pub summary: Option<String>,
    /// the SQL text, or `@` followed by the path of a file that holds it
    pub sql: String,
    /// path relative to the API prefix
    pub path: String,
    pub tags: Vec<String>,
}

/// A query to register under a name.
#[derive(Debug, Clone, PartialEq)]
pub struct NewQuery {
    pub name: String,
    pub query: Query,
}

/// A reply message with its status code.
#[derive(Debug, Clone, PartialEq)]
pub struct ApiMsg {
    pub msg: String,
    pub code: u16,
}

/// A connection to register under a name.
#[derive(Debug, Clone, PartialEq)]
pub struct NewConn {
    pub uri: String,
    pub name: String,
}

/// A connection URI to test.
#[derive(Debug, Clone, PartialEq)]
pub struct NewConnUri {
    pub uri: String,
}

pub open spec fn has_prefix(s: Seq<char>, p: Seq<char>) -> bool {
    p.len() <= s.len() && s.subrange(0, p.len() as int) == p
}

/// Whether `s` begins with `prefix`.
pub fn starts_with(s: &str, prefix: &str) -> (r: bool)
    ensures
        r == has_prefix(s@, prefix@),
{
    let a = chars_of(s);
    let b = chars_of(prefix);
    if b.len() > a.len() {
        return false;
    }
    let mut k: usize = 0;
    while k < b.len()
        invariant
            k <= b.len() <= a.len(),
            a@ == s@,
            b@ == prefix@,
            forall|m: int| 0 <= m < k ==> a@[m] == b@[m],
        decreases b.len() - k,
    {
        if a[k] != b[k] {
            assert(s@.subrange(0, prefix@.len() as int)[k as int] != prefix@[k as int]);
            return false;
        }
        k = k + 1;
    }
    assert(s@.subrange(0, prefix@.len() as int) =~= prefix@);
    true
}

pub open spec fn detect_spec(uri: Seq<char>) -> DBDialect {
    if has_prefix(uri, "mysql"@) {
        DBDialect::Mysql
    } else if has_prefix(uri, "sqlite"@) {
        DBDialect::Sqlite
    } else {
        DBDialect::Unknown
    }
}

impl DBDialect {
    /// The database kind that a connection URI names by its scheme.
    pub fn detect(uri: &str) -> (r: Self)
        ensures
            r == detect_spec(uri@),
    {
        if starts_with(uri, "mysql") {
            DBDialect::Mysql
        } else if starts_with(uri, "sqlite") {
            DBDialect::Sqlite
        } else {
            DBDialect::Unknown
        }
    }
}

/// First position at or after `i` that does not hold `@`.
pub open spec fn ats_end(s: Seq<char>, i: int) -> int
    decreases s.len() - i,
{
    if 0 <= i < s.len() && s[i] == '@' {
        ats_end(s, i + 1)
    } else {
        i
    }
}

impl Query {
    /// The path of the file that holds the query's SQL, when its `sql` is `@`
    /// followed by a path: the text after the leading `@` characters.
    pub fn sql_file(&self) -> (r: Option<String>)
        ensures
            match r {
                Some(p) => self.sql@.len() > 0 && self.sql@[0] == '@' && p@ == self.sql@.subrange(
                    ats_end(self.sql@, 0),
                    self.sql@.len() as int,
                ),
                None => self.sql@.len() == 0 || self.sql@[0] != '@',
            },
    {
        let s = chars_of(self.sql.as_str());
        if s.len() == 0 || s[0] != '@' {
            return None;
        }
        let mut k: usize = 1;
        while k < s.len() && s[k] == '@'
            invariant
                1 <= k <= s.len(),
                s@ == self.sql@,
                ats_end(s@, k as int) == ats_end(s@, 0),
            decreases s.len() - k,
        {
            k = k + 1;
        }
        Some(crate::scan::slice_text(self.sql.as_str(), k, s.len()))
    }
}

pub fn default_prefix() -> (r: String)
    ensures
        r@ == "api"@,
{
    String::from_str("api")
}

pub fn default_doc_path() -> (r: String)
    ensures
        r@ == "_doc"@,
{
    String::from_str("_doc")
}

pub open spec fn not_support_text(name: Seq<char>, op: Seq<char>) -> Seq<char> {
    "SELECT 'error' AS `status`, '"@ + name + " do not support "@ + op + " operation' AS `msg`"@
}

/// A query that answers that the connection does not support an operation.
pub fn not_support_sql(name: &str, op: &str) -> (r: String)
    ensures
        r@ == not_support_text(name@, op@),
{
    let mut r = String::from_str("SELECT 'error' AS `status`, '");
    r.append(name);
    r.append(" do not support ");
    r.append(op);
    r.append(" operation' AS `msg`");
    r
}

/// The tags of the schema queries.
pub fn meta_tags() -> (r: Vec<String>)
    ensures
        r@.len() == 1,
        r@[0]@ == "database_meta"@,
{
    let mut r: Vec<String> = Vec::new();
    r.push(String::from_str("database_meta"));
    r
}

/// Whether `q` is the schema query `name` of connection `conn`, served with GET at
/// `conn/__meta/<suffix>` under the schema tags, running `sql`.
pub open spec fn is_meta_query(
    q: NewQuery,
    name: Seq<char>,
    conn: Seq<char>,
    suffix: Seq<char>,
    sql: Seq<char>,
) -> bool {
    &&& q.name@ == name
    &&& q.query.conn@ == conn
    &&& q.query.method == Method::Get
    &&& q.query.sql@ == sql
    &&& q.query.path@ == conn + "/__meta/"@ + suffix
    &&& q.query.tags@.len() == 1
    &&& q.query.tags@[0]@ == "database_meta"@
}

fn meta_query(name: &str, conn: &str, suffix: &str, summary: Option<String>, sql: String) -> (r:
    NewQuery)
    ensures
        is_meta_query(r, name@, conn@, suffix@, sql@),
        r.query.summary == summary,
{
    let mut path = String::from_str(conn);
    path.append("/__meta/");
    path.append(suffix);
    NewQuery {
        name: String::from_str(name),
        query: Query {
            conn: String::from_str(conn),
            method: Method::Get,
            summary,
            sql,
            path,
            tags: meta_tags(),
        },
    }
}

pub const MYSQL_SCHEMA: &'static str = "SELECT DATABASE() AS `db`";

pub const MYSQL_TABLES: &'static str = r#"SELECT `table_name` AS `name`, `engine`
        FROM information_schema.tables"
        WHERE `table_type` = 'BASE TABLE' AND `table_schema` = DATABASE()"#;

pub const SQLITE_TABLES: &'static str = r#"SELECT `tbl_name` AS `name`
        FROM sqlite_master
        WHERE type = 'table' AND `tbl_name` not like 'sqlite_%'"#;

pub const MYSQL_TABLE_INDEX: &'static str = r#"--? table: str // 表名
        select
            TABLE_SCHEMA AS `db`, TABLE_NAME AS `table`, NON_UNIQUE AS `can_duplicate`, INDEX_NAME AS `name`, COLUMN_NAME AS `column_name`, INDEX_TYPE AS `type`
        from information_schema.STATISTICS
        where table_name = @table AND TABLE_SCHEMA = DATABASE()"#;

pub const SQLITE_TABLE_INDEX: &'static str = r#"--? table: str // 表名
        SELECT `name`
        FROM sqlite_master
        WHERE type = 'index' AND tbl_name = @table"#;

pub const MYSQL_TABLE_COLUMN: &'static str = r#"--? table: str // 表名称
        select
            TABLE_SCHEMA AS \`db\`, COLUMN_NAME AS \`column_name\`, COLUMN_DEFAULT AS \`default_value\`, IS_NULLABLE AS \`is_nullable\`, DATA_TYPE AS \`type\`, COLUMN_KEY AS \`pk\`
        from information_schema.columns
        where table_name = @table AND \`TABLE_SCHEMA\` = DATABASE() "#;

pub const SQLITE_TABLE_COLUMN: &'static str = r#"--? table: str // 表名称
        SELECT \`name\` AS \`column_name\`, \`dflt_value\` AS \`default_value\`, \`notnull\` AS \`is_nullable\`, \`type\`, \`pk\`
        FROM pragma_table_info(@table)"#;

pub const MYSQL_TABLE_FK: &'static str = r#"--? table: str // 表名称
        SELECT
            CONSTRAINT_SCHEMA AS \`db\`, CONSTRAINT_NAME AS \`name\`, UPDATE_RULE as \`update_rule\`, DELETE_RULE as \`delete_rule\`, TABLE_NAME as \`table\`, REFERENCED_TABLE_NAME as \`referenced_table\`
        FROM information_schema.REFERENTIAL_CONSTRAINTS
        WHERE \`db\` = DATABASE() AND \`TABLE_NAME\` = @table"#;

pub const SQLITE_TABLE_FK: &'static str = r#"--? table: str // 表名称
        SELECT \`from\` AS \`name\`, @table AS \`table\`, \`table\` AS \`referenced_table\`
        FROM pragma_foreign_key_list(@table)"#;

pub const MYSQL_ALL_FK: &'static str = r#"select
        CONSTRAINT_SCHEMA AS \`db\`, CONSTRAINT_NAME AS \`name\`, UPDATE_RULE as \`update_rule\`, DELETE_RULE as \`delete_rule\`, TABLE_NAME as \`table\`, REFERENCED_TABLE_NAME as \`referenced_table\`
        from information_schema.REFERENTIAL_CONSTRAINTS
        WHERE \`CONSTRAINT_SCHEMA\` = DATABASE()"#;

pub const SQLITE_ALL_FK: &'static str = r#"SELECT
        p.\`from\`, m.name AS \`table\`, p."table" AS \`referenced_table\`
    FROM
        sqlite_master m
        JOIN pragma_foreign_key_list(m.name) p ON m.name != p.\`table\`
    WHERE m.type = 'table'
    ORDER BY m.name"#;

pub open spec fn schema_sql(d: DBDialect, conn: Seq<char>) -> Seq<char> {
    match d {
        DBDialect::Mysql => MYSQL_SCHEMA@,
        DBDialect::Sqlite => "SELECT '"@ + conn
            + "' AS `db`, 'sqlite do not support database() function!' as `msg`"@,
        DBDialect::Unknown => "SELECT '"@ + conn + "' AS `db`, 'unknown database dialect' as `msg`"@,
    }
}

/// The query that names the current database.
pub fn schema_query(dialect: &DBDialect, conn: &str) -> (r: NewQuery)
    ensures
        is_meta_query(r, "schema"@, conn@, "schema"@, schema_sql(*dialect, conn@)),
        r.query.summary matches Some(s) && s@ == "get database name"@,
{
    let sql = match dialect {
        DBDialect::Mysql => String::from_str(MYSQL_SCHEMA),
        DBDialect::Sqlite => {
            let mut s = String::from_str("SELECT '");
            s.append(conn);
            s.append("' AS `db`, 'sqlite do not support database() function!' as `msg`");
            s
        },
        DBDialect::Unknown => {
            let mut s = String::from_str("SELECT '");
            s.append(conn);
            s.append("' AS `db`, 'unknown database dialect' as `msg`");
            s
        },
    };
    meta_query("schema", conn, "schema", Some(String::from_str("get database name")), sql)
}

/// The SQL of a schema query: the text for the dialect, or, for an unknown one, a
/// query that answers that `op` is not supported.
pub open spec fn dialect_sql(
    d: DBDialect,
    conn: Seq<char>,
    mysql: Seq<char>,
    sqlite: Seq<char>,
    op: Seq<char>,
) -> Seq<char> {
    match d {
        DBDialect::Mysql => mysql,
        DBDialect::Sqlite => sqlite,
        DBDialect::Unknown => not_support_text(conn, op),
    }
}

fn pick_sql(d: &DBDialect, conn: &str, mysql: &str, sqlite: &str, op: &str) -> (r: String)
    ensures
        r@ == dialect_sql(*d, conn@, mysql@, sqlite@, op@),
{
    match d {
        DBDialect::Mysql => String::from_str(mysql),
        DBDialect::Sqlite => String::from_str(sqlite),
        DBDialect::Unknown => not_support_sql(conn, op),
    }
}

/// The query that lists the database's tables.
pub fn tables_query(dialect: &DBDialect, conn: &str) -> (r: NewQuery)
    ensures
        is_meta_query(
            r,
            "tables"@,
            conn@,
            "tables"@,
            dialect_sql(*dialect, conn@, MYSQL_TABLES@, SQLITE_TABLES@, "list table"@),
        ),
        r.query.summary is None,
{
    let sql = pick_sql(dialect, conn, MYSQL_TABLES, SQLITE_TABLES, "list table");
    meta_query("tables", conn, "tables", None, sql)
}

/// The query that lists a table's indexes.
pub fn table_index_query(dialect: &DBDialect, conn: &str) -> (r: NewQuery)
    ensures
        is_meta_query(
            r,
            "table_index"@,
            conn@,
            "table_index"@,
            dialect_sql(*dialect, conn@, MYSQL_TABLE_INDEX@, SQLITE_TABLE_INDEX@, "get table index"@),
        ),
        r.query.summary is None,
{
    let sql = pick_sql(dialect, conn, MYSQL_TABLE_INDEX, SQLITE_TABLE_INDEX, "get table index");
    meta_query("table_index", conn, "table_index", None, sql)
}

/// The query that lists a table's columns.
pub fn table_column_query(dialect: &DBDialect, conn: &str) -> (r: NewQuery)
    ensures
        is_meta_query(
            r,
            "table_column"@,
            conn@,
            "table_column"@,
            dialect_sql(
                *dialect,
                conn@,
                MYSQL_TABLE_COLUMN@,
                SQLITE_TABLE_COLUMN@,
                "get table columns"@,
            ),
        ),
        r.query.summary is None,
{
    let sql = pick_sql(dialect, conn, MYSQL_TABLE_COLUMN, SQLITE_TABLE_COLUMN, "get table columns");
    meta_query("table_column", conn, "table_column", None, sql)
}

/// The query that lists a table's foreign keys.
pub fn table_fk_query(dialect: &DBDialect, conn: &str) -> (r: NewQuery)
    ensures
        is_meta_query(
            r,
            "table_fk"@,
            conn@,
            "table_fk"@,
            dialect_sql(*dialect, conn@, MYSQL_TABLE_FK@, SQLITE_TABLE_FK@, "get table foreign key"@),
        ),
        r.query.summary is None,
{
    let sql = pick_sql(dialect, conn, MYSQL_TABLE_FK, SQLITE_TABLE_FK, "get table foreign key");
    meta_query("table_fk", conn, "table_fk", None, sql)
}

/// The query that lists every foreign key of the database.
pub fn all_fk_query(dialect: &DBDialect, conn: &str) -> (r: NewQuery)
    ensures
        is_meta_query(
            r,
            "fk"@,
            conn@,
            "fk"@,
            dialect_sql(*dialect, conn@, MYSQL_ALL_FK@, SQLITE_ALL_FK@, "get all foreign keys"@),
        ),
        r.query.summary is None,
{
    let sql = pick_sql(dialect, conn, MYSQL_ALL_FK, SQLITE_ALL_FK, "get all foreign keys");
    meta_query("fk", conn, "fk", None, sql)
}

/// The schema queries registered with a new connection named `conn`: its database
/// name, tables, table indexes, table columns, table foreign keys and all foreign
/// keys, in that order.
pub fn meta_queries(dialect: &DBDialect, conn: &str) -> (r: Vec<NewQuery>)
    ensures
        r@.len() == 6,
        is_meta_query(r@[0], "schema"@, conn@, "schema"@, schema_sql(*dialect, conn@)),
        is_meta_query(
            r@[1],
            "tables"@,
            conn@,
            "tables"@,
            dialect_sql(*dialect, conn@, MYSQL_TABLES@, SQLITE_TABLES@, "list table"@),
        ),
        is_meta_query(
            r@[2],
            "table_index"@,
            conn@,
            "table_index"@,
            dialect_sql(*dialect, conn@, MYSQL_TABLE_INDEX@, SQLITE_TABLE_INDEX@, "get table index"@),
        ),
        is_meta_query(
            r@[3],
            "table_column"@,
            conn@,
            "table_column"@,
            dialect_sql(
                *dialect,
                conn@,
                MYSQL_TABLE_COLUMN@,
                SQLITE_TABLE_COLUMN@,
                "get table columns"@,
            ),
        ),
        is_meta_query(
            r@[4],
            "table_fk"@,
            conn@,
            "table_fk"@,
            dialect_sql(*dialect, conn@, MYSQL_TABLE_FK@, SQLITE_TABLE_FK@, "get table foreign key"@),
        ),
        is_meta_query(
            r@[5],
            "fk"@,
            conn@,
            "fk"@,
            dialect_sql(*dialect, conn@, MYSQL_ALL_FK@, SQLITE_ALL_FK@, "get all foreign keys"@),
        ),
{
    let mut r: Vec<NewQuery> = Vec::new();
    r.push(schema_query(dialect, conn));
    r.push(tables_query(dialect, conn));
    r.push(table_index_query(dialect, conn));
    r.push(table_column_query(dialect, conn));
    r.push(table_fk_query(dialect, conn));
    r.push(all_fk_query(dialect, conn));
    r
}

} // verus!
