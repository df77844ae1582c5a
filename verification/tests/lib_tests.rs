use scheme_core::core_of_interpreter::{Exp, Pair};
use scheme_core::parser::tokenize;
use scheme_core::represent::{car, scheme_cons};

fn slist(items: Vec<Exp>) -> Exp {
    let mut acc = Exp::List(Pair::Nil);
    for x in items.into_iter().rev() {
        acc = scheme_cons(x, acc);
    }
    acc
}

fn sym(s: &str) -> Exp {
    Exp::Symbol(s.to_string())
}

#[test]
fn lib_test_is_number() {
    let x = Exp::Integer(3);
    assert_eq!(x.is_number(), true);
}

#[test]
fn lib_test_is_string() {
    let str = "summer";
    let x = Exp::Symbol(str.to_string());
    assert_eq!(x.is_symbol(), true);
}

#[test]
fn lib_test_is_self_evaluating() {
    let x = Exp::FloatNumber(scheme_core::number::Rational::new(314, 100));
    let y = Exp::SchemeString("Winter".to_string());
    assert_eq!(x.is_self_evaluating() && y.is_self_evaluating(), true);
}

#[test]
fn lib_test_is_symbol() {
    let x = Exp::Symbol("item".to_string());
    assert_eq!(x.is_symbol(), true);
}

#[test]
fn lib_test_is_pair() {
    let s = slist(vec![Exp::Integer(1), Exp::Integer(2), Exp::Integer(3)]);
    assert_eq!(s.is_pair(), true);
}

#[test]
fn lib_test_is_quoted() {
    let x = Exp::Quote("'x".to_string());
    assert_eq!(x.is_quoted(), true);
}

#[test]
fn lib_test_car() {
    // (define (square x) (* x  x))
    let mul = slist(vec![sym("*"), sym("x"), sym("x")]);
    let head = slist(vec![sym("square"), sym("x")]);
    let exp = slist(vec![sym("define"), head, mul]);
    if let Ok(Exp::Symbol(x)) = car(&exp) {
        assert_eq!(x.to_string(), "define");
    };
}

#[test]
fn tokenize_works() {
    let mut programs: Vec<String> = vec![
        "(define (fac n)".to_string(),
        "   (if (= n 1)".to_string(),
        "        1".to_string(),
        "       (* n".to_string(),
        "          (fac (- n 1)))))".to_string(),
    ];
    let tokens = tokenize(&mut programs);
    let s = vec![
        "(", "define", "(", "fac", "n", ")", "(", "if", "(", "=", "n", "1", ")", "1", "(", "*",
        "n", "(", "fac", "(", "-", "n", "1", ")", ")", ")", ")", ")",
    ];
    let ss: Vec<String> = s.into_iter().map(|x| x.to_string()).collect();
    assert_eq!(ss, tokens);
}
