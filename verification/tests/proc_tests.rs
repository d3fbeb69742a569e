use ceceo::ast::Atom;
use ceceo::eval_result::{EvalErr, EvalResult};
use ceceo::expr_interpreter::{eval_list, interpret_ceceo, Interp};
use ceceo::parser::parse_ceceo;

const FUEL: u64 = 1_000_000;

fn handle_first(program: &str) -> Result<EvalResult, EvalErr> {
    let parsed = parse_ceceo(program).unwrap();
    let mut st = Interp::new();
    eval_list(&mut st, &parsed[0], FUEL)
}

fn handle_list(program: &str) -> EvalResult {
    handle_first(program).unwrap()
}

#[test]
fn all_numeric_procs_work() {
    let program = "(+ 10 10 (* 5 2) (/ 40 2) (* 25 2))";
    let result = handle_list(program);
    assert_eq!(result, EvalResult::Atom(Atom::Num(100)))
}

#[test]
fn int_sum_returns_zero_if_no_args() {
    let program = "(+)";
    let result = handle_list(program);
    assert_eq!(result, EvalResult::Atom(Atom::Num(0)))
}

#[test]
fn int_mult_returns_one_if_no_args() {
    let program = "(*)";
    let result = handle_list(program);
    assert_eq!(result, EvalResult::Atom(Atom::Num(1)))
}

#[test]
fn string_append_works() {
    let program = "(string-append \"Hello \" \"World!\")";
    let result = handle_list(program);
    assert_eq!(
        result,
        EvalResult::Atom(Atom::Str("Hello World!".to_string()))
    )
}

#[test]
fn and_works() {
    let program = "(and #t 5)";
    let result = handle_list(program);
    assert_eq!(result, EvalResult::Atom(Atom::Num(5)))
}

#[test]
fn and_returns_true_if_no_args() {
    let program = "(and)";
    let result = handle_list(program);
    assert_eq!(result, EvalResult::Atom(Atom::Bool(true)))
}

#[test]
fn or_works() {
    let program = "(or #f 5)";
    let result = handle_list(program);
    assert_eq!(result, EvalResult::Atom(Atom::Num(5)))
}

#[test]
fn or_returns_true_if_no_args() {
    let program = "(or)";
    let result = handle_list(program);
    assert_eq!(result, EvalResult::Atom(Atom::Bool(false)))
}

#[test]
fn and_works_with_lists() {
    let program = "(and #t (+ 3 2) (or #t #f) (* 10 10))";
    let result = handle_list(program);
    assert_eq!(result, EvalResult::Atom(Atom::Num(100)))
}

#[test]
fn if_then_branch_works_with_true() {
    let program = "(if #t (+ 2 3) (+ 10 5))";
    let result = handle_list(program);
    assert_eq!(result, EvalResult::Atom(Atom::Num(5)))
}

#[test]
fn if_then_branch_works_with_any_value() {
    let program = "(if (* 3 (+ 2 5)) (+ 2 3) (+ 10 5))";
    let result = handle_list(program);
    assert_eq!(result, EvalResult::Atom(Atom::Num(5)))
}

#[test]
fn if_else_branch_works() {
    let program = "(if #f (+ 2 3) (+ 10 5))";
    let result = handle_list(program);
    assert_eq!(result, EvalResult::Atom(Atom::Num(15)))
}

#[test]
fn display_works() {
    let program = "(display (+ (- 6 2) [* 3 1] {/ 9 3}))";
    let result = handle_list(program);
    assert_eq!(
        result,
        EvalResult::QuoteAtom(Atom::Symbol("<void>".to_string()))
    )
}

#[test]
fn not_works_with_false() {
    let program = "(not #f)";
    let result = handle_list(program);
    assert_eq!(result, EvalResult::Atom(Atom::Bool(true)))
}

#[test]
fn not_works_with_true() {
    let program = "(not #t)";
    let result = handle_list(program);
    assert_eq!(result, EvalResult::Atom(Atom::Bool(false)))
}

#[test]
fn not_works_with_any_value() {
    let program = "(not (+ 2 3))";
    let result = handle_list(program);
    assert_eq!(result, EvalResult::Atom(Atom::Bool(false)))
}

#[test]
fn string_append_single_arg_is_empty() {
    let result = handle_list("(string-append \"x\")");
    assert_eq!(result, EvalResult::Atom(Atom::Str("".to_string())))
}

#[test]
fn if_untaken_branch_is_not_evaluated() {
    let result = handle_list("(if #t (+ 2 3) (/ 1 0))");
    assert_eq!(result, EvalResult::Atom(Atom::Num(5)));
    let result = handle_list("(if #f (/ 1 0) (+ 10 5))");
    assert_eq!(result, EvalResult::Atom(Atom::Num(15)));
}

#[test]
fn cond_with_no_clauses_is_void() {
    let result = handle_list("(cond)");
    assert_eq!(
        result,
        EvalResult::QuoteAtom(Atom::Symbol("<void>".to_string()))
    )
}

#[test]
fn cond_else_clause_works() {
    let result = handle_list("(cond [else 5])");
    assert_eq!(result, EvalResult::Atom(Atom::Num(5)))
}

#[test]
fn cond_non_last_else_is_malformed() {
    let result = handle_first("(cond [else 5] [#t 3])");
    assert_eq!(result, Err(EvalErr::MalformedCond))
}

#[test]
fn cond_picks_first_true_clause() {
    let result = handle_list("(cond [#f 1] [(+ 1 1) (* 2 4)] [else 9])");
    assert_eq!(result, EvalResult::Atom(Atom::Num(8)))
}

#[test]
fn modulo_works() {
    let result = handle_list("(modulo (+ 5 5) (* 1 3))");
    assert_eq!(result, EvalResult::Atom(Atom::Num(1)))
}

#[test]
fn modulo_by_zero_fails() {
    let result = handle_first("(modulo 5 0)");
    assert_eq!(result, Err(EvalErr::DivisionByZero))
}

#[test]
fn modulo_wrong_arity_fails() {
    let result = handle_first("(modulo 5)");
    assert_eq!(result, Err(EvalErr::ArityMismatch))
}

#[test]
fn predicates_work() {
    assert_eq!(
        handle_list("(positive? 5)"),
        EvalResult::Atom(Atom::Bool(true))
    );
    assert_eq!(
        handle_list("(positive? -10)"),
        EvalResult::Atom(Atom::Bool(false))
    );
    assert_eq!(
        handle_list("(zero? 100)"),
        EvalResult::Atom(Atom::Bool(false))
    );
    assert_eq!(handle_list("(zero? 0)"), EvalResult::Atom(Atom::Bool(true)));
}

#[test]
fn predicate_on_non_number_fails() {
    let result = handle_first("(positive? \"x\")");
    assert_eq!(result, Err(EvalErr::TypeMismatch))
}

#[test]
fn display_produces_output_text() {
    let parsed = parse_ceceo("(display (+ 1 2))").unwrap();
    let (results, st) = interpret_ceceo(&parsed, FUEL);
    assert_eq!(
        results[0],
        Ok(EvalResult::QuoteAtom(Atom::Symbol("<void>".to_string())))
    );
    assert_eq!(st.output().len(), 1);
    assert_eq!(st.output()[0], "3".to_string());
}

#[test]
fn empty_call_form_is_missing_procedure() {
    let result = handle_first("()");
    assert_eq!(result, Err(EvalErr::MissingProcedure))
}

#[test]
fn non_symbol_head_is_invalid() {
    let result = handle_first("(5 1 2)");
    assert_eq!(result, Err(EvalErr::InvalidProcedureExpression))
}

#[test]
fn unknown_operator_fails() {
    let result = handle_first("(frobnicate 1 2)");
    assert_eq!(result, Err(EvalErr::UnknownProcedure))
}

#[test]
fn mixed_fold_arguments_are_heterogeneous() {
    let result = handle_first("(+ 1 \"x\")");
    assert_eq!(result, Err(EvalErr::HeterogeneousArguments))
}

#[test]
fn non_numeric_first_fold_argument_is_type_mismatch() {
    let result = handle_first("(+ \"a\" \"b\")");
    assert_eq!(result, Err(EvalErr::TypeMismatch))
}

#[test]
fn division_by_zero_in_fold_fails() {
    let result = handle_first("(/ 8 0)");
    assert_eq!(result, Err(EvalErr::DivisionByZero));
    let result = handle_first("(/ 0)");
    assert_eq!(result, Err(EvalErr::DivisionByZero));
}

#[test]
fn unary_minus_negates() {
    assert_eq!(handle_list("(- 7)"), EvalResult::Atom(Atom::Num(-7)));
    assert_eq!(handle_list("(/ 4)"), EvalResult::Atom(Atom::Num(0)));
    assert_eq!(handle_list("(- 10 2 3)"), EvalResult::Atom(Atom::Num(5)));
}

#[test]
fn define_binds_and_symbol_evaluates() {
    let parsed = parse_ceceo("(define x (+ 2 3)) (+ x 1)").unwrap();
    let (results, _st) = interpret_ceceo(&parsed, FUEL);
    assert_eq!(results[1], Ok(EvalResult::Atom(Atom::Num(6))));
}

#[test]
fn define_overwrites_earlier_binding() {
    let parsed = parse_ceceo("(define x 1) (define x 2) (+ x 0)").unwrap();
    let (results, _st) = interpret_ceceo(&parsed, FUEL);
    assert_eq!(results[2], Ok(EvalResult::Atom(Atom::Num(2))));
}

#[test]
fn self_referential_definition_exceeds_depth() {
    let parsed = parse_ceceo("(define x x) (x 1)").unwrap();
    let (results, _st) = interpret_ceceo(&parsed, 1000);
    assert_eq!(results[1], Err(EvalErr::DepthExceeded));
}

#[test]
fn display_of_quote_list_shows_first_element_only() {
    let parsed = parse_ceceo("(display '((+ 1 2) 9 9))").unwrap();
    let (results, st) = interpret_ceceo(&parsed, FUEL);
    assert!(results[0].is_ok());
    assert_eq!(st.output()[0], "3".to_string());
}

#[test]
fn display_of_empty_quote_list_is_blank() {
    let parsed = parse_ceceo("(display '())").unwrap();
    let (_results, st) = interpret_ceceo(&parsed, FUEL);
    assert_eq!(st.output()[0], "".to_string());
}

#[test]
fn display_renders_booleans_and_strings() {
    let parsed = parse_ceceo("(display #t) (display \"hey\") (display -12)").unwrap();
    let (_results, st) = interpret_ceceo(&parsed, FUEL);
    assert_eq!(st.output()[0], "true".to_string());
    assert_eq!(st.output()[1], "hey".to_string());
    assert_eq!(st.output()[2], "-12".to_string());
}

#[test]
fn catalogue_wins_over_definitions() {
    let parsed = parse_ceceo("(define + 1) (+ 2 3)").unwrap();
    let (results, _st) = interpret_ceceo(&parsed, FUEL);
    assert_eq!(results[1], Ok(EvalResult::Atom(Atom::Num(5))));
}

#[test]
fn cond_clause_must_be_a_list() {
    let result = handle_first("(cond 5)");
    assert_eq!(result, Err(EvalErr::MalformedCond));
}

#[test]
fn cond_rejects_malformed_later_clause() {
    let result = handle_first("(cond [#t 1] 5)");
    assert_eq!(result, Err(EvalErr::MalformedCond));
    let result = handle_first("(cond [else 5] 7)");
    assert_eq!(result, Err(EvalErr::MalformedCond));
    let result = handle_first("(cond [#t 1] [] [#f 2])");
    assert_eq!(result, Err(EvalErr::MalformedCond));
}

#[test]
fn cond_checks_clause_shapes_before_evaluating_tests() {
    let parsed = parse_ceceo("(cond [(display 9) 2] 5)").unwrap();
    let (results, st) = interpret_ceceo(&parsed, FUEL);
    assert_eq!(results[0], Err(EvalErr::MalformedCond));
    assert_eq!(st.output().len(), 0);
}

#[test]
fn rendering_a_quote_list_evaluates_its_first_element() {
    let parsed = parse_ceceo("(display '((define y 4))) (+ y 1)").unwrap();
    let (results, st) = interpret_ceceo(&parsed, FUEL);
    assert_eq!(st.output()[0], "<void>".to_string());
    assert_eq!(results[1], Ok(EvalResult::Atom(Atom::Num(5))));
}

#[test]
fn quoted_data_evaluates_to_itself() {
    let parsed = parse_ceceo("(and '(1 2 3))").unwrap();
    let mut st = Interp::new();
    let first = eval_list(&mut st, &parsed[0], FUEL).unwrap();
    let second = eval_list(&mut st, &parsed[0], FUEL).unwrap();
    assert_eq!(first, second);
    assert_eq!(st.output().len(), 0);
}
