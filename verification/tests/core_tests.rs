use scheme_core::core_of_interpreter::{eval, Exp, Pair};
use scheme_core::environment::{extend_environment, Store};
use scheme_core::number::Rational;
use scheme_core::represent::scheme_cons;

fn slist(items: Vec<Exp>) -> Exp {
    let mut acc = Exp::List(Pair::Nil);
    for x in items.into_iter().rev() {
        acc = scheme_cons(x, acc);
    }
    acc
}

fn sym(s: &str) -> Exp {
    Exp::Symbol(s.to_string())
}

#[test]
fn test_eval_self_evaluating_exp() {
    let x1 = Exp::Integer(1);
    let x2 = Exp::FloatNumber(Rational::new(314, 100));
    let x3 = Exp::Quote("winter".to_string());
    let x4 = Exp::SchemeString("WINTER IS COMING!".to_string());
    let x5 = Exp::Bool(true);
    let x6 = Exp::Bool(false);
    let mut store = Store::new();
    let env = store.global_env();
    assert_eq!(x1.clone(), eval(&x1, env, &mut store).unwrap());
    assert_eq!(x2.clone(), eval(&x2, env, &mut store).unwrap());
    assert_eq!(x3.clone(), eval(&x3, env, &mut store).unwrap());
    assert_eq!(x4.clone(), eval(&x4, env, &mut store).unwrap());
    assert_eq!(x5.clone(), eval(&x5, env, &mut store).unwrap());
    assert_eq!(x6.clone(), eval(&x6, env, &mut store).unwrap());
}

#[test]
fn test_eval_single_variable() {
    let mut store = Store::new();
    let mut env = store.global_env();
    env = extend_environment(
        &slist(vec![sym("x")]),
        &slist(vec![Exp::Integer(8)]),
        env,
        &mut store,
    )
    .unwrap();
    assert_eq!(eval(&sym("x"), env, &mut store).unwrap(), Exp::Integer(8));
}

#[test]
fn test_eval_assignment() {
    let mut store = Store::new();
    let mut env = store.global_env();
    env = extend_environment(
        &slist(vec![sym("x")]),
        &slist(vec![Exp::Integer(8)]),
        env,
        &mut store,
    )
    .unwrap();
    let assignment = slist(vec![sym("define"), sym("x"), Exp::Integer(101)]);
    eval(&assignment, env, &mut store).unwrap();
    assert_eq!(eval(&sym("x"), env, &mut store).unwrap(), Exp::Integer(101));
}

#[test]
fn test_eval_definition_single_variable() {
    let mut store = Store::new();
    let mut env = store.global_env();
    env = extend_environment(
        &slist(vec![sym("x")]),
        &slist(vec![Exp::Integer(8)]),
        env,
        &mut store,
    )
    .unwrap();
    let assignment = slist(vec![sym("define"), sym("x"), Exp::Integer(101)]);
    eval(&assignment, env, &mut store).unwrap();
    let definition = slist(vec![sym("define"), sym("x"), Exp::Integer(999)]);
    eval(&definition, env, &mut store).unwrap();
    let second_definition = slist(vec![sym("define"), sym("y"), Exp::Integer(333)]);
    eval(&second_definition, env, &mut store).unwrap();
    assert_eq!(eval(&sym("x"), env, &mut store).unwrap(), Exp::Integer(999));
    assert_eq!(eval(&sym("y"), env, &mut store).unwrap(), Exp::Integer(333));
}

#[test]
fn test_eval_definition_compoud_procedure() {
    let mut store = Store::new();
    let mut env = store.global_env();
    env = extend_environment(
        &slist(vec![sym("x")]),
        &slist(vec![Exp::Integer(8)]),
        env,
        &mut store,
    )
    .unwrap();
    let assignment = slist(vec![sym("define"), sym("x"), Exp::Integer(101)]);
    eval(&assignment, env, &mut store).unwrap();
    let definition = slist(vec![sym("define"), sym("x"), Exp::Integer(999)]);
    eval(&definition, env, &mut store).unwrap();
    let second_definition = slist(vec![sym("define"), sym("y"), Exp::Integer(333)]);
    eval(&second_definition, env, &mut store).unwrap();
    let another_definition = slist(vec![
        sym("define"),
        slist(vec![sym("square"), sym("x")]),
        slist(vec![sym("*"), sym("x"), sym("x")]),
    ]);
    eval(&another_definition, env, &mut store).unwrap();
    let app_exp = slist(vec![sym("square"), Exp::Integer(3)]);
    assert_eq!(
        eval(&app_exp, env, &mut store).unwrap(),
        Exp::FloatNumber(Rational::new(9, 1))
    );
}

#[test]
fn test_eval_primitive_procedure() {
    let mut store = Store::new();
    let mut env = store.global_env();
    env = extend_environment(
        &slist(vec![sym("x")]),
        &slist(vec![Exp::Integer(8)]),
        env,
        &mut store,
    )
    .unwrap();
    let assignment = slist(vec![sym("define"), sym("x"), Exp::Integer(101)]);
    eval(&assignment, env, &mut store).unwrap();
    let definition = slist(vec![sym("define"), sym("x"), Exp::Integer(999)]);
    eval(&definition, env, &mut store).unwrap();
    let second_definition = slist(vec![sym("define"), sym("y"), Exp::Integer(333)]);
    eval(&second_definition, env, &mut store).unwrap();
    let another_definition = slist(vec![
        sym("define"),
        slist(vec![sym("square"), sym("x")]),
        slist(vec![sym("*"), sym("x"), sym("x")]),
    ]);
    eval(&another_definition, env, &mut store).unwrap();
    // (define s ((1 2) (3 4) 5))
    let s = slist(vec![
        slist(vec![Exp::Integer(1), Exp::Integer(2)]),
        slist(vec![Exp::Integer(3), Exp::Integer(4)]),
        Exp::Integer(5),
    ]);
    let s_definition = slist(vec![sym("define"), sym("s"), s]);
    eval(&s_definition, env, &mut store).unwrap();
    let car_exp = slist(vec![sym("car"), sym("s")]);
    assert_eq!(
        eval(&car_exp, env, &mut store).unwrap(),
        slist(vec![Exp::Integer(1), Exp::Integer(2)])
    );
    let cdr_exp = slist(vec![sym("cdr"), sym("s")]);
    assert_eq!(
        eval(&cdr_exp, env, &mut store).unwrap(),
        slist(vec![
            slist(vec![Exp::Integer(3), Exp::Integer(4)]),
            Exp::Integer(5),
        ])
    );
    let null_exp = slist(vec![sym("null?"), Exp::List(Pair::Nil)]);
    assert_eq!(eval(&null_exp, env, &mut store).unwrap(), Exp::Bool(true));

    let add_exp = slist(vec![
        sym("+"),
        Exp::FloatNumber(Rational::new(315, 100)),
        Exp::FloatNumber(Rational::new(185, 100)),
    ]);
    assert_eq!(
        eval(&add_exp, env, &mut store).unwrap(),
        Exp::FloatNumber(Rational::new(5, 1))
    );

    let substract_exp = slist(vec![
        sym("-"),
        Exp::Integer(8),
        Exp::FloatNumber(Rational::new(25, 10)),
    ]);
    assert_eq!(
        eval(&substract_exp, env, &mut store).unwrap(),
        Exp::FloatNumber(Rational::new(55, 10))
    );

    let multiply_exp = slist(vec![
        sym("*"),
        Exp::FloatNumber(Rational::new(25, 10)),
        Exp::FloatNumber(Rational::new(25, 10)),
    ]);
    assert_eq!(
        eval(&multiply_exp, env, &mut store).unwrap(),
        Exp::FloatNumber(Rational::new(625, 100))
    );

    let divide_exp = slist(vec![
        sym("/"),
        Exp::FloatNumber(Rational::new(250, 10)),
        Exp::FloatNumber(Rational::new(25, 10)),
    ]);
    assert_eq!(
        eval(&divide_exp, env, &mut store).unwrap(),
        Exp::FloatNumber(Rational::new(10, 1))
    );

    let cons_exp = slist(vec![
        sym("cons"),
        slist(vec![Exp::Integer(1), Exp::Integer(2)]),
        slist(vec![Exp::Integer(3), Exp::Integer(4)]),
    ]);
    assert_eq!(
        eval(&cons_exp, env, &mut store).unwrap(),
        slist(vec![
            slist(vec![Exp::Integer(1), Exp::Integer(2)]),
            Exp::Integer(3),
            Exp::Integer(4),
        ])
    );
}
