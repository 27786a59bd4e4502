use psql::annotation::Param;
use psql::cli::OptKind;
use psql::errors::PSqlError;
use psql::value::{InnerTy, ParamTy, ParamValue};

#[test]
fn from_arg_str_number() {
    match ParamValue::from_arg_str(&InnerTy::Num, "12a") {
        Err(PSqlError::InvalidArgValue(s, t)) => {
            assert_eq!(s, "12a");
            assert_eq!(t, InnerTy::Num);
        }
        other => panic!("unexpected {:?}", other),
    }
    let v = ParamValue::from_arg_str(&InnerTy::Num, "12").unwrap();
    assert_eq!(v, ParamValue::Num("12".to_string()));
    let expected: f64 = 12.0;
    match v {
        ParamValue::Num(text) => assert_eq!(text.parse::<f64>().unwrap(), expected),
        _ => panic!("not a number"),
    }
}

#[test]
fn from_arg_str_other_types() {
    assert_eq!(
        ParamValue::from_arg_str(&InnerTy::Str, "it's").unwrap(),
        ParamValue::Str("it's".to_string())
    );
    assert_eq!(
        ParamValue::from_arg_str(&InnerTy::Raw, "#a > 1#").unwrap(),
        ParamValue::Raw("a > 1".to_string())
    );
    assert!(matches!(
        ParamValue::from_arg_str(&InnerTy::Raw, "#a# b"),
        Err(PSqlError::InvalidArgValue(_, InnerTy::Raw))
    ));
    assert!(matches!(
        ParamValue::from_arg_str(&InnerTy::Raw, "a"),
        Err(PSqlError::InvalidArgValue(_, InnerTy::Raw))
    ));
    assert!(matches!(
        ParamValue::from_arg_str(&InnerTy::Num, ""),
        Err(PSqlError::InvalidArgValue(_, InnerTy::Num))
    ));
    assert!(matches!(
        ParamValue::from_arg_str(&InnerTy::Num, "1e"),
        Err(PSqlError::InvalidArgValue(_, InnerTy::Num))
    ));
    assert_eq!(
        ParamValue::from_arg_str(&InnerTy::Num, "+2.5E-3").unwrap(),
        ParamValue::Num("+2.5E-3".to_string())
    );
}

#[test]
fn text_forms() {
    assert_eq!(InnerTy::Str.to_string(), "str");
    assert_eq!(InnerTy::Num.to_string(), "num");
    assert_eq!(InnerTy::Raw.to_string(), "raw");
    assert_eq!(ParamTy::Array(InnerTy::Num).to_string(), "[num]");
    assert_eq!(ParamTy::Basic(InnerTy::Raw).to_string(), "raw");
    let v = ParamValue::Array(vec![
        ParamValue::Str("sh".to_string()),
        ParamValue::Num("2".to_string()),
        ParamValue::Raw("x + 1".to_string()),
    ]);
    assert_eq!(v.to_string(), "('sh', 2, x + 1)");
    assert_eq!(ParamValue::Array(vec![]).to_string(), "()");
}

#[test]
fn clone_keeps_nested_lists() {
    let v = ParamValue::Array(vec![
        ParamValue::Array(vec![ParamValue::Num("1".to_string())]),
        ParamValue::Str("a".to_string()),
    ]);
    assert_eq!(v.clone(), v);
}

#[test]
fn cli_option_forms() {
    let p = Param::parse("? age: num // years").unwrap();
    let o = p.cli_option();
    assert_eq!(o.kind, OptKind::Required);
    assert_eq!(o.name, "age");
    assert_eq!(o.help, "years");
    assert_eq!(o.hint, "*<AGE> num");
    let o = Param::parse("? ids: [num]").unwrap().cli_option();
    assert_eq!(o.kind, OptKind::Multi);
    assert_eq!(o.help, "ids");
    assert_eq!(o.hint, "*<IDS> [num]");
    let o = Param::parse("? who: str = 'bo' // name").unwrap().cli_option();
    assert_eq!(o.kind, OptKind::Optional);
    assert_eq!(o.hint, "[WHO] str 'bo'");
    let o = Param::parse("? xs: [num] = [1, 2] // many").unwrap().cli_option();
    assert_eq!(o.kind, OptKind::Multi);
    assert_eq!(o.help, "many");
    assert_eq!(o.hint, "<XS> [num] (1, 2)");
}
