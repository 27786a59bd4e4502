use psql::context::Context;
use psql::errors::PSqlError;
use psql::program::{Program, VariableToken};
use psql::render::parse_statements;
use psql::sql::Dialect;
use psql::value::{InnerTy, ParamTy, ParamValue};
use sqlparser::ast::{Expr, SelectItem, SetExpr, Statement, Value};
use sqlparser::keywords::Keyword;
use sqlparser::tokenizer::{Token, Word};

fn build(sql: &str) -> Result<Program, PSqlError> {
    Program::parse(&Dialect::Mysql, sql)
}

fn sorted(mut v: Vec<String>) -> Vec<String> {
    v.sort();
    v
}

#[test]
fn scenario_default_applied_at_render() {
    let prog = build("select * from t where age=@age -- ? age: num = 10 // help").unwrap();
    assert_eq!(prog.params.len(), 1);
    assert_eq!(prog.params[0].name, "age");
    assert_eq!(prog.params[0].ty, ParamTy::Basic(InnerTy::Num));
    assert_eq!(prog.params[0].default, Some(ParamValue::Num("10".to_string())));
    assert_eq!(prog.params[0].help, "help");
    let ctx = prog.get_matches(&vec![]).unwrap();
    let stmts = prog.render(&Dialect::Mysql, &ctx).unwrap();
    assert_eq!(stmts.len(), 1);
    assert_eq!(stmts[0].to_string(), "SELECT * FROM t WHERE age = 10");
}

#[test]
fn scenario_missing_annotation() {
    match build("select * from t where age=@age") {
        Err(PSqlError::MissingParams(names)) => assert_eq!(names, vec!["age".to_string()]),
        other => panic!("unexpected {:?}", other.map(|p| p.params.len())),
    }
}

#[test]
fn scenario_unused_annotation() {
    match build("select * from t\n-- ? limit: num\n") {
        Err(PSqlError::UnusedParams(names)) => assert_eq!(names, vec!["limit".to_string()]),
        other => panic!("unexpected {:?}", other.map(|p| p.params.len())),
    }
}

#[test]
fn scenario_duplicated_param() {
    let sql = "--? id: num\n--? id: str\nselect * from t where id = @id";
    match build(sql) {
        Err(PSqlError::DuplicatedParam(name)) => assert_eq!(name, "id"),
        other => panic!("unexpected {:?}", other.map(|p| p.params.len())),
    }
}

#[test]
fn scenario_number_list_tokens() {
    let prog = build("--? ids: [num]\nselect * from t where id in @ids").unwrap();
    let args = vec![
        ("ids".to_string(), "1".to_string()),
        ("ids".to_string(), "2".to_string()),
        ("ids".to_string(), "3".to_string()),
    ];
    let ctx = prog.get_matches(&args).unwrap();
    let tokens = prog.substitute(&Dialect::Mysql, &ctx).unwrap();
    let n = tokens.len();
    let tail: Vec<Token> = tokens[n - 7..].to_vec();
    assert_eq!(
        tail,
        vec![
            Token::LParen,
            Token::Number("1".to_string(), false),
            Token::Comma,
            Token::Number("2".to_string(), false),
            Token::Comma,
            Token::Number("3".to_string(), false),
            Token::RParen,
        ]
    );
    let stmts = prog.render(&Dialect::Mysql, &ctx).unwrap();
    assert_eq!(stmts[0].to_string(), "SELECT * FROM t WHERE id IN (1, 2, 3)");
}

#[test]
fn build_checks_names_as_sets() {
    let ok = build("--? a: num\n--? b: str\nselect @a, @b, @a").unwrap();
    assert_eq!(ok.params.len(), 2);
    let vars: Vec<&str> = ok
        .tokens
        .iter()
        .filter_map(|t| match t {
            VariableToken::Var(n) => Some(n.as_str()),
            _ => None,
        })
        .collect();
    assert_eq!(vars, vec!["a", "b", "a"]);
    match build("--? a: num\nselect @a, @b, @c, @b") {
        Err(PSqlError::MissingParams(names)) => {
            assert_eq!(sorted(names), vec!["b".to_string(), "c".to_string()])
        }
        other => panic!("unexpected {:?}", other.map(|p| p.params.len())),
    }
    match build("--? a: num\n--? b: num\n--? c: num\nselect @b") {
        Err(PSqlError::UnusedParams(names)) => {
            assert_eq!(sorted(names), vec!["a".to_string(), "c".to_string()])
        }
        other => panic!("unexpected {:?}", other.map(|p| p.params.len())),
    }
    match build("--? a: num\n--? a: num\nselect @b") {
        Err(PSqlError::DuplicatedParam(name)) => assert_eq!(name, "a"),
        other => panic!("unexpected {:?}", other.map(|p| p.params.len())),
    }
}

#[test]
fn build_rejects_bad_variables_and_annotations() {
    assert!(matches!(build("select @@x"), Err(PSqlError::InvalidVariable(Token::AtSign))));
    assert!(matches!(build("select @ x"), Err(PSqlError::InvalidVariable(_))));
    assert!(matches!(build("select @1"), Err(PSqlError::InvalidVariable(_))));
    assert!(matches!(build("select 1 @"), Err(PSqlError::InvalidVariable(Token::EOF))));
    match build("--? age: num = gx\nselect @age") {
        Err(PSqlError::ParamParseError(text)) => assert_eq!(text, "? age: num = gx\n"),
        other => panic!("unexpected {:?}", other.map(|p| p.params.len())),
    }
    assert!(matches!(build("select 'abc"), Err(PSqlError::TokenizeError(_))));
}

#[test]
fn ordinary_comments_are_kept() {
    let prog = build("-- plain comment\nselect 1").unwrap();
    assert!(prog.params.is_empty());
    assert!(prog.tokens.iter().all(|t| matches!(t, VariableToken::Normal(_))));
    let stmts = prog.render(&Dialect::Mysql, &Context::new()).unwrap();
    assert_eq!(stmts.len(), 1);
}

#[test]
fn render_missing_context_value() {
    let prog = build("--? age: num\nselect @age").unwrap();
    match prog.render(&Dialect::Mysql, &Context::new()) {
        Err(PSqlError::MissingContextValue(n)) => assert_eq!(n, "age"),
        Err(e) => panic!("unexpected {:?}", e),
        Ok(_) => panic!("rendered without a value"),
    }
}

#[test]
fn render_complete_context_succeeds() {
    let prog = build("--? a: num\n--? b: str\nselect * from t where x = @a and y = @b").unwrap();
    let mut ctx = Context::new();
    ctx.insert("a".to_string(), ParamValue::Num("4".to_string()));
    ctx.insert("b".to_string(), ParamValue::Str("q".to_string()));
    let stmts = prog.render(&Dialect::Mysql, &ctx).unwrap();
    assert_eq!(stmts[0].to_string(), "SELECT * FROM t WHERE x = 4 AND y = 'q'");
}

fn projection(stmt: &Statement) -> Vec<Expr> {
    match stmt {
        Statement::Query(q) => match &q.body {
            SetExpr::Select(s) => s
                .projection
                .iter()
                .map(|i| match i {
                    SelectItem::UnnamedExpr(e) => e.clone(),
                    _ => panic!("aliased item"),
                })
                .collect(),
            _ => panic!("not a select"),
        },
        _ => panic!("not a query"),
    }
}

#[test]
fn literals_round_trip() {
    let prog = build("--? n: num\n--? s: str\nselect @n, @s").unwrap();
    let mut ctx = Context::new();
    ctx.insert("n".to_string(), ParamValue::Num("3.25".to_string()));
    ctx.insert("s".to_string(), ParamValue::Str("it's; -- \"x\"".to_string()));
    let stmts = prog.render(&Dialect::Mysql, &ctx).unwrap();
    assert_eq!(stmts.len(), 1);
    let items = projection(&stmts[0]);
    assert_eq!(items[0], Expr::Value(Value::Number("3.25".to_string(), false)));
    assert_eq!(items[1], Expr::Value(Value::SingleQuotedString("it's; -- \"x\"".to_string())));
}

#[test]
fn list_items_render_in_order() {
    let prog = build("--? x: [str]\nselect * from t where c in @x").unwrap();
    let mut ctx = Context::new();
    ctx.insert(
        "x".to_string(),
        ParamValue::Array(vec![
            ParamValue::Str("a".to_string()),
            ParamValue::Num("2".to_string()),
            ParamValue::Raw("now()".to_string()),
        ]),
    );
    let stmts = prog.render(&Dialect::Mysql, &ctx).unwrap();
    assert_eq!(stmts[0].to_string(), "SELECT * FROM t WHERE c IN ('a', 2, now())");
}

#[test]
fn raw_fragment_is_spliced() {
    let prog = build("--? cond: raw = #a > 1#\nselect * from t where @cond").unwrap();
    let ctx = prog.get_matches(&vec![]).unwrap();
    let stmts = prog.render(&Dialect::Mysql, &ctx).unwrap();
    assert_eq!(stmts[0].to_string(), "SELECT * FROM t WHERE a > 1");
    let mut bad = Context::new();
    bad.insert("cond".to_string(), ParamValue::Raw("'open".to_string()));
    assert!(matches!(prog.render(&Dialect::Mysql, &bad), Err(PSqlError::TokenizeError(_))));
}

#[test]
fn statement_sequence_rules() {
    let prog = build("select 1;; select 2;").unwrap();
    let stmts = prog.render(&Dialect::Mysql, &Context::new()).unwrap();
    assert_eq!(stmts.len(), 2);
    let prog = build("select 1 select 2").unwrap();
    assert!(matches!(
        prog.render(&Dialect::Mysql, &Context::new()),
        Err(PSqlError::ExpectEndOfStatement(_))
    ));
    let prog = build("select from where").unwrap();
    assert!(matches!(prog.render(&Dialect::Mysql, &Context::new()), Err(PSqlError::ParseError(_))));
    let prog = build("").unwrap();
    assert_eq!(prog.render(&Dialect::Sqlite, &Context::new()).unwrap().len(), 0);
}

#[test]
fn binding_rules() {
    let prog = build("--? a: num\n--? b: [str] = ['x']\nselect @a, @b").unwrap();
    assert!(matches!(prog.get_matches(&vec![]), Err(PSqlError::RequiredParam(n)) if n == "a"));
    let two = vec![("a".to_string(), "1".to_string()), ("a".to_string(), "2".to_string())];
    assert!(matches!(prog.get_matches(&two), Err(PSqlError::ExpectSingleValue(n, 2)) if n == "a"));
    let bad = vec![("a".to_string(), "x".to_string())];
    assert!(matches!(prog.get_matches(&bad), Err(PSqlError::InvalidArgValue(s, InnerTy::Num)) if s == "x"));
    let good = vec![("a".to_string(), "5".to_string())];
    let ctx = prog.get_matches(&good).unwrap();
    assert_eq!(ctx.get(&"a".to_string()), Some(&ParamValue::Num("5".to_string())));
    assert_eq!(
        ctx.get(&"b".to_string()),
        Some(&ParamValue::Array(vec![ParamValue::Str("x".to_string())]))
    );

    let mut given = Context::new();
    given.insert("a".to_string(), ParamValue::Array(vec![]));
    assert!(matches!(prog.context_from_body(&given), Err(PSqlError::ExpectSingleValue(n, 0)) if n == "a"));
    let mut given = Context::new();
    given.insert("a".to_string(), ParamValue::Num("1".to_string()));
    given.insert("b".to_string(), ParamValue::Str("y".to_string()));
    assert!(matches!(prog.context_from_body(&given), Err(PSqlError::ExpectArray(n)) if n == "b"));
    let mut given = Context::new();
    given.insert("a".to_string(), ParamValue::Num("1".to_string()));
    let ctx = prog.context_from_body(&given).unwrap();
    assert_eq!(
        ctx.get(&"b".to_string()),
        Some(&ParamValue::Array(vec![ParamValue::Str("x".to_string())]))
    );
}

#[test]
fn context_latest_binding_wins() {
    let mut ctx = Context::new();
    assert_eq!(ctx.get(&"k".to_string()), None);
    ctx.insert("k".to_string(), ParamValue::Num("1".to_string()));
    ctx.insert("j".to_string(), ParamValue::Num("2".to_string()));
    ctx.insert("k".to_string(), ParamValue::Num("3".to_string()));
    assert_eq!(ctx.get(&"k".to_string()), Some(&ParamValue::Num("3".to_string())));
    assert_eq!(ctx.get(&"j".to_string()), Some(&ParamValue::Num("2".to_string())));
}

#[test]
fn single_statement_policy() {
    let prog = build("select 1").unwrap();
    let stmt = prog.render_single(&Dialect::Mysql, &Context::new()).unwrap();
    assert_eq!(stmt.to_string(), "SELECT 1");
    let prog = build("select 1; select 2").unwrap();
    assert!(matches!(
        prog.render_single(&Dialect::Mysql, &Context::new()),
        Err(PSqlError::ExpectSingleStatement(2))
    ));
    let prog = build("-- nothing\n").unwrap();
    assert!(matches!(
        prog.render_single(&Dialect::Mysql, &Context::new()),
        Err(PSqlError::ExpectSingleStatement(0))
    ));
}

#[test]
fn query_string_binding() {
    let prog = build("--? n: num\n--? tags: [str] = ['none']\nselect @n, @tags").unwrap();
    let ctx = prog.context_from_qs("n=7&tags=a%20b&junk&tags=c=d").unwrap();
    assert_eq!(ctx.get(&"n".to_string()), Some(&ParamValue::Num("7".to_string())));
    assert_eq!(
        ctx.get(&"tags".to_string()),
        Some(&ParamValue::Array(vec![
            ParamValue::Str("a b".to_string()),
            ParamValue::Str("c".to_string())
        ]))
    );
    let ctx = prog.context_from_qs("n=1").unwrap();
    assert_eq!(
        ctx.get(&"tags".to_string()),
        Some(&ParamValue::Array(vec![ParamValue::Str("none".to_string())]))
    );
    assert!(matches!(prog.context_from_qs("tags=x"), Err(PSqlError::RequiredParam(n)) if n == "n"));
    assert!(matches!(
        prog.context_from_qs("n=1&n=2"),
        Err(PSqlError::ExpectSingleValue(n, 2)) if n == "n"
    ));
    assert!(matches!(
        prog.context_from_qs("n=%FF"),
        Err(PSqlError::InvalidQueryString(q)) if q == "n=%FF"
    ));
}

#[test]
fn trailing_annotation_text_is_an_error() {
    match build("--? age: num xyz\nselect @age") {
        Err(PSqlError::ParamParseError(text)) => assert_eq!(text, "? age: num xyz\n"),
        other => panic!("unexpected {:?}", other.map(|p| p.params.len())),
    }
}

#[test]
fn grantor_without_identifier_is_reported() {
    let prog = build("grant select on t to u granted by 1").unwrap();
    assert!(matches!(prog.render(&Dialect::Mysql, &Context::new()), Err(PSqlError::InvalidGrantor)));
    let prog = build("grant select on t to u granted by").unwrap();
    assert!(matches!(prog.render(&Dialect::Mysql, &Context::new()), Err(PSqlError::InvalidGrantor)));
    let prog = build("--? who: raw\ngrant select on t to u @who").unwrap();
    let mut ctx = Context::new();
    ctx.insert("who".to_string(), ParamValue::Raw("granted by ;".to_string()));
    assert!(matches!(prog.render(&Dialect::Mysql, &ctx), Err(PSqlError::InvalidGrantor)));
    let prog = build("grant select on t to u granted by admin").unwrap();
    assert!(!matches!(prog.render(&Dialect::Mysql, &Context::new()), Err(PSqlError::InvalidGrantor)));
}

#[test]
fn value_tokens() {
    let d = Dialect::Mysql;
    assert_eq!(
        ParamValue::Num("2.5".to_string()).into_token(&d).unwrap(),
        vec![Token::Number("2.5".to_string(), false)]
    );
    assert_eq!(
        ParamValue::Str("a'b".to_string()).into_token(&d).unwrap(),
        vec![Token::SingleQuotedString("a'b".to_string())]
    );
    let list = ParamValue::Array(vec![
        ParamValue::Num("1".to_string()),
        ParamValue::Str("x".to_string()),
        ParamValue::Raw("f(y)".to_string()),
    ]);
    let mut expected = vec![Token::LParen, Token::Number("1".to_string(), false), Token::Comma];
    expected.push(Token::SingleQuotedString("x".to_string()));
    expected.push(Token::Comma);
    expected.extend(ParamValue::Raw("f(y)".to_string()).into_token(&d).unwrap());
    expected.push(Token::RParen);
    assert_eq!(list.into_token(&d).unwrap(), expected);
    assert!(matches!(
        ParamValue::Raw("'open".to_string()).into_token(&d),
        Err(PSqlError::TokenizeError(_))
    ));
}

#[test]
fn unreferenced_bindings_change_nothing() {
    let prog = build("--? a: num\nselect * from t where x = @a").unwrap();
    let mut c1 = Context::new();
    c1.insert("a".to_string(), ParamValue::Num("4".to_string()));
    let mut c2 = Context::new();
    c2.insert("zz".to_string(), ParamValue::Raw("drop table t".to_string()));
    c2.insert("a".to_string(), ParamValue::Num("4".to_string()));
    let s1 = prog.render(&Dialect::Mysql, &c1).unwrap();
    let s2 = prog.render(&Dialect::Mysql, &c2).unwrap();
    assert_eq!(s1, s2);
}

#[test]
fn unprintable_word_is_reported() {
    let odd = Token::Word(Word {
        value: "x".to_string(),
        quote_style: Some('\''),
        keyword: Keyword::NoKeyword,
    });
    assert!(matches!(
        parse_statements(vec![odd.clone()], &Dialect::Mysql),
        Err(PSqlError::UnsupportedQuote)
    ));
    let prog = Program { params: vec![], tokens: vec![VariableToken::Normal(odd)] };
    assert!(matches!(prog.render(&Dialect::Mysql, &Context::new()), Err(PSqlError::UnsupportedQuote)));
    let quoted = Token::Word(Word {
        value: "x".to_string(),
        quote_style: Some('`'),
        keyword: Keyword::NoKeyword,
    });
    assert!(!matches!(
        parse_statements(vec![quoted], &Dialect::Mysql),
        Err(PSqlError::UnsupportedQuote)
    ));
}

#[test]
fn given_values_are_type_checked() {
    let prog = build("--? a: num\n--? b: [str]\nselect @a, @b").unwrap();
    let mut given = Context::new();
    given.insert("a".to_string(), ParamValue::Str("1".to_string()));
    given.insert("b".to_string(), ParamValue::Array(vec![]));
    assert!(matches!(
        prog.context_from_body(&given),
        Err(PSqlError::InvalidValueType(n, InnerTy::Num)) if n == "a"
    ));
    let mut given = Context::new();
    given.insert("a".to_string(), ParamValue::Num("1x".to_string()));
    given.insert("b".to_string(), ParamValue::Array(vec![]));
    assert!(matches!(
        prog.context_from_body(&given),
        Err(PSqlError::InvalidValueType(n, InnerTy::Num)) if n == "a"
    ));
    let mut given = Context::new();
    given.insert("a".to_string(), ParamValue::Num("1".to_string()));
    given.insert(
        "b".to_string(),
        ParamValue::Array(vec![ParamValue::Str("s".to_string()), ParamValue::Num("2".to_string())]),
    );
    assert!(matches!(
        prog.context_from_body(&given),
        Err(PSqlError::InvalidValueType(n, InnerTy::Str)) if n == "b"
    ));
    let mut given = Context::new();
    given.insert("a".to_string(), ParamValue::Num("1".to_string()));
    given.insert("b".to_string(), ParamValue::Array(vec![ParamValue::Str("s".to_string())]));
    assert!(prog.context_from_body(&given).is_ok());
}
