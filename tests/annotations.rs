use psql::annotation::Param;
use psql::value::{InnerTy, ParamTy, ParamValue};
use psql::var::{parse_var, VarIdent};

fn num(s: &str) -> ParamValue {
    ParamValue::Num(s.to_string())
}

#[test]
fn parse_param() {
    let p = Param::parse("? age : num = 10 // help msg").unwrap();
    assert_eq!(p.name, "age");
    assert_eq!(p.ty, ParamTy::Basic(InnerTy::Num));
    assert_eq!(p.default, Some(num("10")));
    assert_eq!(p.help, "help msg");

    let p = Param::parse("? addr: str = \"SH\"//where are you from?").unwrap();
    assert_eq!(p.name, "addr");
    assert_eq!(p.ty, ParamTy::Basic(InnerTy::Str));
    assert_eq!(p.default, Some(ParamValue::Str("SH".to_string())));
    assert_eq!(p.help, "where are you from?");

    let p = Param::parse("? addr: str = 'SH'//where are you from?").unwrap();
    assert_eq!(p.default, Some(ParamValue::Str("SH".to_string())));
    assert_eq!(p.help, "where are you from?");

    let p = Param::parse("? where: raw = #select * from ()# // insert raw").unwrap();
    assert_eq!(p.name, "where");
    assert_eq!(p.ty, ParamTy::Basic(InnerTy::Raw));
    assert_eq!(p.default, Some(ParamValue::Raw("select * from ()".to_string())));
    assert_eq!(p.help, "insert raw");

    let p = Param::parse("? arr: [num] = [ 1, 2, 3 ] // array param").unwrap();
    assert_eq!(p.name, "arr");
    assert_eq!(p.ty, ParamTy::Array(InnerTy::Num));
    assert_eq!(p.default, Some(ParamValue::Array(vec![num("1"), num("2"), num("3")])));
    assert_eq!(p.help, "array param");

    let p = Param::parse("? age: num // help msg").unwrap();
    assert_eq!(p.default, None);
    assert_eq!(p.help, "help msg");

    let p = Param::parse("? age: num = 10").unwrap();
    assert_eq!(p.default, Some(num("10")));
    assert_eq!(p.help, "");

    let p = Param::parse("? age: num").unwrap();
    assert_eq!(p.name, "age");
    assert_eq!(p.default, None);
    assert_eq!(p.help, "");

    assert_eq!(Param::parse("? age: num = gx"), None);
    assert_eq!(Param::parse("? age: num = "), None);
}

#[test]
fn ident() {
    assert_eq!(parse_var("@1field"), None);
    assert_eq!(parse_var("@field1 rest"), Some((VarIdent("field1".to_string()), 7)));
    assert_eq!(parse_var("field"), None);
}

#[test]
fn annotation_leading_blanks_and_newline() {
    let p = Param::parse(" ? age: num = 10 // help\n").unwrap();
    assert_eq!(p.name, "age");
    assert_eq!(p.default, Some(num("10")));
    assert_eq!(p.help, "help");
}

#[test]
fn annotation_string_list_and_raw_list() {
    let p = Param::parse("? addrs: [str] = ['sh', \"beijing\"] // address").unwrap();
    assert_eq!(p.ty, ParamTy::Array(InnerTy::Str));
    assert_eq!(
        p.default,
        Some(ParamValue::Array(vec![
            ParamValue::Str("sh".to_string()),
            ParamValue::Str("beijing".to_string())
        ]))
    );
    let p = Param::parse("? xs: [ raw ] = []").unwrap();
    assert_eq!(p.ty, ParamTy::Array(InnerTy::Raw));
    assert_eq!(p.default, Some(ParamValue::Array(vec![])));
}

#[test]
fn annotation_rejects_malformed() {
    assert_eq!(Param::parse("age: num"), None);
    assert_eq!(Param::parse("? 1age: num"), None);
    assert_eq!(Param::parse("? age num"), None);
    assert_eq!(Param::parse("? age: int"), None);
    assert_eq!(Param::parse("? age: [num = [1]"), None);
    assert_eq!(Param::parse("? s: str = ''"), None);
    assert_eq!(Param::parse("? xs: [num] = [1, 2"), None);
    assert_eq!(Param::parse("? n: num = 1e"), None);
}

#[test]
fn annotation_number_forms() {
    assert_eq!(Param::parse("? n: num = -1.5e3").unwrap().default, Some(num("-1.5e3")));
    assert_eq!(Param::parse("? n: num = .5").unwrap().default, Some(num(".5")));
    assert_eq!(Param::parse("? n: num = 7.").unwrap().default, Some(num("7.")));
}

#[test]
fn annotation_rejects_trailing_text() {
    assert_eq!(Param::parse("? age: num xyz"), None);
    assert_eq!(Param::parse("? age: num = 10 xyz"), None);
    assert_eq!(Param::parse("? age: [num] = [1] ]"), None);
    let p = Param::parse("? age: num = 10 // help \r\n").unwrap();
    assert_eq!(p.help, "help ");
    let p = Param::parse("? age: num   \n").unwrap();
    assert_eq!(p.help, "");
    let p = Param::parse("? age: num //").unwrap();
    assert_eq!(p.help, "");
}
