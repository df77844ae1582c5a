use scheme_core::core_of_interpreter::{eval, eval_with_limit, EvalError, Exp, Pair};
use scheme_core::environment::{
    define_variable, extend_environment, lookup_variable_value, set_variable_value, Store,
};
use scheme_core::number::Rational;
use scheme_core::represent::{is_equal, list_length, scheme_cons};

fn slist(items: Vec<Exp>) -> Exp {
    let mut acc = Exp::List(Pair::Nil);
    for x in items.into_iter().rev() {
        acc = scheme_cons(x, acc);
    }
    acc
}

fn sym(s: &str) -> Exp {
    Exp::Symbol(s.to_string())
}

#[test]
fn self_evaluating_values_come_back_unchanged() {
    let mut store = Store::new();
    let env = store.global_env();
    for v in [
        Exp::Integer(-7),
        Exp::FloatNumber(Rational::new(1, 3)),
        Exp::SchemeString("hello".to_string()),
        Exp::Bool(true),
        Exp::Bool(false),
    ] {
        assert_eq!(eval(&v, env, &mut store).unwrap(), v);
    }
}

#[test]
fn define_variable_round_trip_overwrites_in_place() {
    let mut store = Store::new();
    let env = store.global_env();
    define_variable(&sym("x"), Exp::Integer(8), env, &mut store).unwrap();
    assert_eq!(eval(&sym("x"), env, &mut store).unwrap(), Exp::Integer(8));
    define_variable(&sym("x"), Exp::Integer(101), env, &mut store).unwrap();
    assert_eq!(eval(&sym("x"), env, &mut store).unwrap(), Exp::Integer(101));
}

#[test]
fn unbound_variable_is_reported() {
    let mut store = Store::new();
    let env = store.global_env();
    assert_eq!(
        eval(&sym("nowhere"), env, &mut store),
        Err(EvalError::UnboundVariable("nowhere".to_string()))
    );
    assert_eq!(
        lookup_variable_value(&sym("nowhere"), env, &store),
        Err(EvalError::UnboundVariable("nowhere".to_string()))
    );
    assert_eq!(
        set_variable_value(&sym("nowhere"), Exp::Integer(1), env, &mut store),
        Err(EvalError::UnboundVariable("nowhere".to_string()))
    );
}

#[test]
fn set_on_outer_frame_is_visible_after_the_call_returns() {
    let mut store = Store::new();
    let env = store.global_env();
    // (define counter 0)
    eval(
        &slist(vec![sym("define"), sym("counter"), Exp::Integer(0)]),
        env,
        &mut store,
    )
    .unwrap();
    // (define (bump n) (set! counter n))
    eval(
        &slist(vec![
            sym("define"),
            slist(vec![sym("bump"), sym("n")]),
            slist(vec![sym("set!"), sym("counter"), sym("n")]),
        ]),
        env,
        &mut store,
    )
    .unwrap();
    // the call's frame binds n, yet the set! lands in the global frame
    eval(&slist(vec![sym("bump"), Exp::Integer(8)]), env, &mut store).unwrap();
    assert_eq!(
        eval(&sym("counter"), env, &mut store).unwrap(),
        Exp::Integer(8)
    );
    // and the parameter n did not leak into the caller's environment
    assert_eq!(
        eval(&sym("n"), env, &mut store),
        Err(EvalError::UnboundVariable("n".to_string()))
    );
}

#[test]
fn call_frames_do_not_leak_parameters() {
    let mut store = Store::new();
    let env = store.global_env();
    eval(
        &slist(vec![sym("define"), sym("x"), Exp::Integer(5)]),
        env,
        &mut store,
    )
    .unwrap();
    eval(
        &slist(vec![
            sym("define"),
            slist(vec![sym("square"), sym("x")]),
            slist(vec![sym("*"), sym("x"), sym("x")]),
        ]),
        env,
        &mut store,
    )
    .unwrap();
    assert_eq!(
        eval(&slist(vec![sym("square"), Exp::Integer(3)]), env, &mut store).unwrap(),
        Exp::FloatNumber(Rational::new(9, 1))
    );
    // the binding x = 5 in the caller's frame is untouched by the call
    assert_eq!(eval(&sym("x"), env, &mut store).unwrap(), Exp::Integer(5));
}

#[test]
fn arity_two_primitives_reject_one_and_three_arguments() {
    let mut store = Store::new();
    let env = store.global_env();
    assert_eq!(
        eval(&slist(vec![sym("+"), Exp::Integer(1)]), env, &mut store),
        Err(EvalError::ArityMismatch)
    );
    assert_eq!(
        eval(
            &slist(vec![
                sym("+"),
                Exp::Integer(1),
                Exp::Integer(2),
                Exp::Integer(3),
            ]),
            env,
            &mut store,
        ),
        Err(EvalError::ArityMismatch)
    );
    assert_eq!(
        eval(
            &slist(vec![sym("cons"), Exp::Integer(1)]),
            env,
            &mut store,
        ),
        Err(EvalError::ArityMismatch)
    );
    assert_eq!(
        eval(
            &slist(vec![sym("car"), slist(vec![Exp::Integer(1)]), slist(vec![])]),
            env,
            &mut store,
        ),
        Err(EvalError::ArityMismatch)
    );
}

#[test]
fn divide_by_exact_zero_fails() {
    let mut store = Store::new();
    let env = store.global_env();
    assert_eq!(
        eval(
            &slist(vec![sym("/"), Exp::Integer(1), Exp::Integer(0)]),
            env,
            &mut store,
        ),
        Err(EvalError::DivideByZero)
    );
}

#[test]
fn null_predicate_distinguishes_the_empty_list() {
    let mut store = Store::new();
    let env = store.global_env();
    assert_eq!(
        eval(
            &slist(vec![sym("null?"), Exp::List(Pair::Nil)]),
            env,
            &mut store,
        )
        .unwrap(),
        Exp::Bool(true)
    );
    // (null? (cons 1 '()))
    assert_eq!(
        eval(
            &slist(vec![
                sym("null?"),
                slist(vec![sym("cons"), Exp::Integer(1), Exp::List(Pair::Nil)]),
            ]),
            env,
            &mut store,
        )
        .unwrap(),
        Exp::Bool(false)
    );
}

#[test]
fn if_without_alternative_yields_the_unspecified_sentinel() {
    let mut store = Store::new();
    let env = store.global_env();
    // (if (= 1 2) 3) — the predicate is false and there is no alternative
    let r = eval(
        &slist(vec![
            sym("if"),
            slist(vec![sym("="), Exp::Integer(1), Exp::Integer(2)]),
            Exp::Integer(3),
        ]),
        env,
        &mut store,
    );
    assert_eq!(r.unwrap(), Exp::Quote("unspecified".to_string()));
}

#[test]
fn only_the_boolean_true_selects_the_consequent() {
    let mut store = Store::new();
    let env = store.global_env();
    // any non-#t predicate value picks the alternative
    assert_eq!(
        eval(
            &slist(vec![sym("if"), Exp::Integer(0), Exp::Integer(1), Exp::Integer(2)]),
            env,
            &mut store,
        )
        .unwrap(),
        Exp::Integer(2)
    );
    assert_eq!(
        eval(
            &slist(vec![sym("if"), Exp::Bool(true), Exp::Integer(1), Exp::Integer(2)]),
            env,
            &mut store,
        )
        .unwrap(),
        Exp::Integer(1)
    );
}

#[test]
fn type_errors_are_reported() {
    let mut store = Store::new();
    let env = store.global_env();
    assert_eq!(
        eval(&slist(vec![sym("car"), Exp::Integer(5)]), env, &mut store),
        Err(EvalError::TypeMismatch)
    );
    assert_eq!(
        eval(
            &slist(vec![
                sym("+"),
                Exp::Integer(1),
                Exp::SchemeString("two".to_string()),
            ]),
            env,
            &mut store,
        ),
        Err(EvalError::TypeMismatch)
    );
}

#[test]
fn applying_a_non_procedure_fails() {
    let mut store = Store::new();
    let env = store.global_env();
    // the operator evaluates to a quoted atom, which is not applicable
    assert_eq!(
        eval(
            &slist(vec![Exp::Quote("x".to_string()), Exp::Integer(1)]),
            env,
            &mut store,
        ),
        Err(EvalError::UnapplicableObject)
    );
}

#[test]
fn empty_procedure_body_is_an_error() {
    let mut store = Store::new();
    let env = store.global_env();
    // ((lambda (x)) 1): the closure has no body expression to evaluate
    assert_eq!(
        eval(
            &slist(vec![
                slist(vec![sym("lambda"), slist(vec![sym("x")])]),
                Exp::Integer(1),
            ]),
            env,
            &mut store,
        ),
        Err(EvalError::UnrecognizedExpression)
    );
}

#[test]
fn numeric_overflow_is_reported() {
    let mut store = Store::new();
    let env = store.global_env();
    assert_eq!(
        eval(
            &slist(vec![
                sym("*"),
                Exp::Integer(i64::MAX),
                Exp::Integer(i64::MAX),
            ]),
            env,
            &mut store,
        ),
        Err(EvalError::NumericOverflow)
    );
}

#[test]
fn a_tiny_depth_limit_is_reported_and_a_larger_one_suffices() {
    let mut store = Store::new();
    let env = store.global_env();
    let call = slist(vec![
        slist(vec![sym("lambda"), slist(vec![sym("x")]), sym("x")]),
        Exp::Integer(1),
    ]);
    assert_eq!(
        eval_with_limit(&call, env, &mut store, 2),
        Err(EvalError::RecursionLimit)
    );
    assert_eq!(
        eval_with_limit(&call, env, &mut store, 50).unwrap(),
        Exp::Integer(1)
    );
}

#[test]
fn arithmetic_promotes_integers_to_exact_rationals() {
    let mut store = Store::new();
    let env = store.global_env();
    // (+ 1 2) is the rational 3, not the integer 3
    assert_eq!(
        eval(
            &slist(vec![sym("+"), Exp::Integer(1), Exp::Integer(2)]),
            env,
            &mut store,
        )
        .unwrap(),
        Exp::FloatNumber(Rational::new(3, 1))
    );
    // (/ 1 3) is exactly one third
    assert_eq!(
        eval(
            &slist(vec![sym("/"), Exp::Integer(1), Exp::Integer(3)]),
            env,
            &mut store,
        )
        .unwrap(),
        Exp::FloatNumber(Rational::new(1, 3))
    );
}

#[test]
fn rationals_are_kept_reduced() {
    assert_eq!(Rational::new(100, 20), Rational::new(5, 1));
    assert_eq!(
        Rational::new(315, 100).add(&Rational::new(185, 100)),
        Some(Rational::new(5, 1))
    );
    assert_eq!(
        Rational::new(-4, 6),
        Rational::new(-2, 3)
    );
}

#[test]
fn structural_equality_matches_the_derived_one() {
    let a = slist(vec![Exp::Integer(1), slist(vec![sym("x")])]);
    let b = slist(vec![Exp::Integer(1), slist(vec![sym("x")])]);
    let c = slist(vec![Exp::Integer(1), slist(vec![sym("y")])]);
    assert!(is_equal(&a, &b));
    assert!(!is_equal(&a, &c));
    assert_eq!(a, b);
    assert_ne!(a, c);
}

#[test]
fn list_length_walks_to_nil() {
    assert_eq!(list_length(&Exp::List(Pair::Nil)), Ok(0));
    assert_eq!(
        list_length(&slist(vec![Exp::Integer(1), Exp::Integer(2), Exp::Integer(3)])),
        Ok(3)
    );
    assert_eq!(list_length(&Exp::Integer(3)), Err(EvalError::TypeMismatch));
}

#[test]
fn quoted_data_is_not_looked_up() {
    let mut store = Store::new();
    let env = store.global_env();
    let q = Exp::Quote("winter".to_string());
    assert_eq!(eval(&q, env, &mut store).unwrap(), q);
    // (quote winter) in a fresh global environment: the symbol comes back
    // as data; it is never looked up, so no UnboundVariable can arise
    assert_eq!(
        eval(&slist(vec![sym("quote"), sym("winter")]), env, &mut store),
        Ok(sym("winter"))
    );
}

#[test]
fn quote_form_returns_its_datum_unevaluated() {
    let mut store = Store::new();
    let env = store.global_env();
    // (quote (+ 1 2)) is the list (+ 1 2), not the number 3
    let sum = slist(vec![sym("+"), Exp::Integer(1), Exp::Integer(2)]);
    assert_eq!(
        eval(&slist(vec![sym("quote"), sum.clone()]), env, &mut store).unwrap(),
        sum
    );
    // (null? (quote ())) sees the empty list
    assert_eq!(
        eval(
            &slist(vec![
                sym("null?"),
                slist(vec![sym("quote"), Exp::List(Pair::Nil)]),
            ]),
            env,
            &mut store,
        )
        .unwrap(),
        Exp::Bool(true)
    );
    // a quote form without a datum is malformed
    assert_eq!(
        eval(&slist(vec![sym("quote")]), env, &mut store),
        Err(EvalError::TypeMismatch)
    );
}

#[test]
fn begin_yields_the_last_value_and_keeps_side_effects() {
    let mut store = Store::new();
    let env = store.global_env();
    let body = slist(vec![
        sym("begin"),
        slist(vec![sym("define"), sym("x"), Exp::Integer(1)]),
        slist(vec![sym("set!"), sym("x"), Exp::Integer(2)]),
        sym("x"),
    ]);
    assert_eq!(eval(&body, env, &mut store).unwrap(), Exp::Integer(2));
    // the definitions persisted in the shared environment
    assert_eq!(eval(&sym("x"), env, &mut store).unwrap(), Exp::Integer(2));
}

#[test]
fn extend_environment_reports_an_arity_mismatch() {
    let mut store = Store::new();
    let env = store.global_env();
    assert_eq!(
        extend_environment(
            &slist(vec![sym("a"), sym("b")]),
            &slist(vec![Exp::Integer(1)]),
            env,
            &mut store,
        ),
        Err(EvalError::ArityMismatch)
    );
}

#[test]
fn tokenizer_separates_parens_and_runs() {
    let mut lines = vec!["(add x  12)".to_string(), "()".to_string()];
    let tokens = scheme_core::parser::tokenize(&mut lines);
    let expected: Vec<String> = ["(", "add", "x", "12", ")", "(", ")"]
        .iter()
        .map(|s| s.to_string())
        .collect();
    assert_eq!(tokens, expected);
    assert_eq!(lines.len(), 2);
}
