use ceceo::ast::{parse_hash_symbol, Atom, Node};
use ceceo::ast_serialize::{InfoStruct, ListOrAtomInfo, ToInfoStruct};
use ceceo::eval_iter::EvalIter;
use ceceo::eval_result::{eval_result_is_false, make_void, EvalErr, EvalResult};
use ceceo::expr_interpreter::{Interp, ProcImpls};
use ceceo::get_atom_vals::{AtomKind, GetAtomValues};
use ceceo::parser::parse_ceceo;
use ceceo::procs::{GenericProcs, NumericBops, NumericProcs, StringProcs};

const FUEL: u64 = 1_000_000;

#[test]
fn node_iter_evaluates_in_order() {
    let parsed = parse_ceceo("((+ 1 2) \"s\" #f)").unwrap();
    let nodes = &parsed[0];
    let mut st = Interp::new();
    let mut it = nodes.iter_eval();
    assert_eq!(
        it.next(&mut st, FUEL),
        Some(Ok(EvalResult::Atom(Atom::Num(3))))
    );
    assert_eq!(
        it.next(&mut st, FUEL),
        Some(Ok(EvalResult::Atom(Atom::Str("s".to_string()))))
    );
    let third = it.next(&mut st, FUEL).unwrap().unwrap();
    assert!(eval_result_is_false(&third));
    assert_eq!(it.next(&mut st, FUEL), None);
}

#[test]
fn info_struct_labels_atoms() {
    let parsed = parse_ceceo("(1 sym \"txt\" #t)").unwrap();
    let info = parsed[0][0].to_info_struct();
    assert_eq!(
        info,
        ListOrAtomInfo::Atom(InfoStruct {
            kind: "number".to_string(),
            value: Atom::Num(1),
        })
    );
    let info = parsed[0][1].to_info_struct();
    assert_eq!(
        info,
        ListOrAtomInfo::Atom(InfoStruct {
            kind: "symbol".to_string(),
            value: Atom::Symbol("sym".to_string()),
        })
    );
    let info = parsed[0][2].to_info_struct();
    assert_eq!(
        info,
        ListOrAtomInfo::Atom(InfoStruct {
            kind: "string".to_string(),
            value: Atom::Str("txt".to_string()),
        })
    );
    let info = parsed[0][3].to_info_struct();
    assert_eq!(
        info,
        ListOrAtomInfo::Atom(InfoStruct {
            kind: "true".to_string(),
            value: Atom::Bool(true),
        })
    );
}

#[test]
fn info_struct_nests_lists() {
    let parsed = parse_ceceo("((1) '(2))").unwrap();
    let info = parsed.to_info_struct();
    let one = ListOrAtomInfo::Atom(InfoStruct {
        kind: "number".to_string(),
        value: Atom::Num(1),
    });
    let two = ListOrAtomInfo::Atom(InfoStruct {
        kind: "number".to_string(),
        value: Atom::Num(2),
    });
    assert_eq!(
        info,
        ListOrAtomInfo::List(vec![ListOrAtomInfo::List(vec![
            ListOrAtomInfo::List(vec![one]),
            ListOrAtomInfo::List(vec![two]),
        ])])
    );
}

#[test]
fn get_atom_vals_extracts_uniform_numbers() {
    let atoms = vec![Atom::Num(1), Atom::Num(2), Atom::Num(3)];
    let vals: Result<Vec<i32>, &'static str> = atoms.get_atom_vals(AtomKind::Num);
    assert_eq!(vals, Ok(vec![1, 2, 3]));
}

#[test]
fn get_atom_vals_rejects_mixed_kinds() {
    let atoms = vec![Atom::Num(1), Atom::Str("x".to_string())];
    let vals: Result<Vec<i32>, &'static str> = atoms.get_atom_vals(AtomKind::Num);
    assert!(vals.is_err());
}

#[test]
fn get_atom_vals_extracts_texts() {
    let atoms = vec![Atom::Str("a".to_string()), Atom::Str("b".to_string())];
    let vals: Result<Vec<String>, &'static str> = atoms.get_atom_vals(AtomKind::Str);
    assert_eq!(vals, Ok(vec!["a".to_string(), "b".to_string()]));
    let syms = vec![Atom::Symbol("a".to_string())];
    let vals: Result<Vec<String>, &'static str> = syms.get_atom_vals(AtomKind::Str);
    assert!(vals.is_err());
}

#[test]
fn perform_proc_runs_catalogue_procedures() {
    let parsed = parse_ceceo("(1 2 3)").unwrap();
    let args = &parsed[0];
    let mut st = Interp::new();
    let r: Result<EvalResult, EvalErr> = args.perform_proc(&mut st, NumericProcs::Sum, FUEL);
    assert_eq!(r, Ok(EvalResult::Atom(Atom::Num(6))));

    let parsed = parse_ceceo("(\"a\" \"b\")").unwrap();
    let args = &parsed[0];
    let r: Result<EvalResult, EvalErr> = args.perform_proc(&mut st, StringProcs::Append, FUEL);
    assert_eq!(r, Ok(EvalResult::Atom(Atom::Str("ab".to_string()))));

    let parsed = parse_ceceo("(#f 9)").unwrap();
    let args = &parsed[0];
    let r: Result<EvalResult, EvalErr> = args.perform_proc(&mut st, GenericProcs::Or, FUEL);
    assert_eq!(r, Ok(EvalResult::Atom(Atom::Num(9))));
}

#[test]
fn catalogue_lookup_resolves_operator_tokens() {
    assert_eq!(NumericProcs::try_from("+"), Some(NumericProcs::Sum));
    assert_eq!(NumericProcs::try_from("modulo"), Some(NumericProcs::Modulo));
    assert_eq!(NumericProcs::try_from("and"), None);
    assert_eq!(StringProcs::try_from("string-append"), Some(StringProcs::Append));
    assert_eq!(StringProcs::try_from("+"), None);
    assert_eq!(GenericProcs::try_from("cond"), Some(GenericProcs::Cond));
    assert_eq!(GenericProcs::try_from("positive?"), Some(GenericProcs::IsPositive));
    assert_eq!(GenericProcs::try_from("lambda"), None);
    assert_eq!(NumericBops::try_from('*'), Some(NumericBops::Mult));
    assert_eq!(NumericBops::try_from('%'), None);
    assert_eq!(NumericBops::Div.to_char(), '/');
}

#[test]
fn void_sentinel_is_not_false() {
    let v = make_void();
    assert_eq!(v, EvalResult::QuoteAtom(Atom::Symbol("<void>".to_string())));
    assert!(!eval_result_is_false(&v));
}

#[test]
fn hash_symbols_denote_booleans() {
    assert_eq!(parse_hash_symbol("#t"), Atom::Bool(true));
    assert_eq!(parse_hash_symbol("#true"), Atom::Bool(true));
    assert_eq!(parse_hash_symbol("#F"), Atom::Bool(false));
}

#[test]
fn node_equality_is_structural() {
    let a = parse_ceceo("((+ 1 2))").unwrap();
    let b = parse_ceceo("( (+ 1 2) )").unwrap();
    assert_eq!(a, b);
    let c: Vec<Vec<Node>> = parse_ceceo("((+ 1 3))").unwrap();
    assert_ne!(a, c);
}
