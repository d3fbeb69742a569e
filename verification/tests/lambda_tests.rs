use ceceo::ast::{Atom, Node};
use ceceo::eval_result::{EvalErr, EvalResult};
use ceceo::expr_interpreter::{eval_lambda, eval_node, Interp};
use ceceo::parser::parse_ceceo;
use ceceo::user_proc::UserProc;

const FUEL: u64 = 1_000_000;

fn first_form(program: &str) -> Vec<Node> {
    let mut parsed = parse_ceceo(program).unwrap();
    parsed.remove(0)
}

#[test]
fn lambda_application_substitutes_arguments() {
    let body = first_form("((+ a b))");
    let proc = UserProc::new(vec!["a".to_string(), "b".to_string()], body);
    let args = first_form("(3 4)");
    let mut st = Interp::new();
    let result = eval_lambda(&mut st, &proc, &args, FUEL);
    assert_eq!(result, Ok(EvalResult::Atom(Atom::Num(7))));
}

#[test]
fn lambda_arity_mismatch_fails() {
    let body = first_form("((+ a b))");
    let proc = UserProc::new(vec!["a".to_string(), "b".to_string()], body);
    let args = first_form("(3)");
    let mut st = Interp::new();
    let result = eval_lambda(&mut st, &proc, &args, FUEL);
    assert_eq!(result, Err(EvalErr::ArityMismatch));
}

#[test]
fn lambda_body_evaluates_to_last_form() {
    let body = first_form("((+ a 1) (* a 2))");
    let proc = UserProc::new(vec!["a".to_string()], body);
    let args = first_form("(5)");
    let mut st = Interp::new();
    let result = eval_lambda(&mut st, &proc, &args, FUEL);
    assert_eq!(result, Ok(EvalResult::Atom(Atom::Num(10))));
}

#[test]
fn substitution_leaves_quoted_forms_untouched() {
    let body = first_form("((and '(a) (+ a 1)))");
    let proc = UserProc::new(vec!["a".to_string()], body);
    let args = first_form("(5)");
    let mut st = Interp::new();
    let result = eval_lambda(&mut st, &proc, &args, FUEL);
    assert_eq!(result, Ok(EvalResult::Atom(Atom::Num(6))));
}

#[test]
fn user_proc_accessors_work() {
    let body = first_form("((+ a b))");
    let proc = UserProc::new(vec!["a".to_string(), "b".to_string()], body);
    assert_eq!(proc.get_arity(), 2);
    assert_eq!(proc.get_args()[0], "a".to_string());
    assert_eq!(proc.get_args()[1], "b".to_string());
    assert_eq!(proc.get_body().len(), 1);
    assert_eq!(proc.is_quote_list_result(), None);
    let proc = proc.quote_starts_at(1);
    assert_eq!(proc.is_quote_list_result(), Some(1));
}

#[test]
fn identical_procedures_display_identically() {
    let proc_a = UserProc::new(
        vec!["a".to_string(), "b".to_string()],
        first_form("((+ a b))"),
    );
    let proc_b = UserProc::new(
        vec!["a".to_string(), "b".to_string()],
        first_form("((+ a b))"),
    );
    let proc_c = UserProc::new(vec!["a".to_string()], first_form("((* a a))"));
    let mut st = Interp::new();
    let text_a = ceceo::expr_interpreter::render_value(&mut st, &EvalResult::Proc(proc_a), FUEL)
        .unwrap();
    let text_b = ceceo::expr_interpreter::render_value(&mut st, &EvalResult::Proc(proc_b), FUEL)
        .unwrap();
    let text_c = ceceo::expr_interpreter::render_value(&mut st, &EvalResult::Proc(proc_c), FUEL)
        .unwrap();
    assert_eq!(text_a, text_b);
    assert_ne!(text_a, text_c);
    let shown: String = text_a.iter().collect();
    assert!(shown.starts_with("procedure:"));
}

#[test]
fn symbols_self_evaluate_unless_bound() {
    let mut st = Interp::new();
    let node = Node::Atom(Atom::Symbol("free".to_string()));
    let result = eval_node(&mut st, &node, FUEL);
    assert_eq!(
        result,
        Ok(EvalResult::Atom(Atom::Symbol("free".to_string())))
    );
}

#[test]
fn numeric_wrapping_matches_machine_arithmetic() {
    let mut st = Interp::new();
    let parsed = parse_ceceo("(+ 2147483647 1)").unwrap();
    let result = ceceo::expr_interpreter::eval_list(&mut st, &parsed[0], FUEL);
    assert_eq!(result, Ok(EvalResult::Atom(Atom::Num(i32::MIN))));
    let parsed = parse_ceceo("(- -2147483648 1)").unwrap();
    let result = ceceo::expr_interpreter::eval_list(&mut st, &parsed[0], FUEL);
    assert_eq!(result, Ok(EvalResult::Atom(Atom::Num(i32::MAX))));
}

#[test]
fn truncating_division_and_remainder() {
    let mut st = Interp::new();
    let parsed = parse_ceceo("(/ -7 2)").unwrap();
    let result = ceceo::expr_interpreter::eval_list(&mut st, &parsed[0], FUEL);
    assert_eq!(result, Ok(EvalResult::Atom(Atom::Num(-3))));
    let parsed = parse_ceceo("(modulo -7 2)").unwrap();
    let result = ceceo::expr_interpreter::eval_list(&mut st, &parsed[0], FUEL);
    assert_eq!(result, Ok(EvalResult::Atom(Atom::Num(-1))));
}
