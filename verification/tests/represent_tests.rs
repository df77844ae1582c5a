use scheme_core::core_of_interpreter::{Exp, Pair};
use scheme_core::represent::{car, cdr, is_tagged_list, scheme_cons};

fn slist(items: Vec<Exp>) -> Exp {
    let mut acc = Exp::List(Pair::Nil);
    for x in items.into_iter().rev() {
        acc = scheme_cons(x, acc);
    }
    acc
}

fn sym(s: &str) -> Exp {
    Exp::Symbol(s.to_string())
}

// (define (square x) (* x x)), with its two sub-lists
fn square_definition() -> (Exp, Exp, Exp) {
    let mul = slist(vec![sym("*"), sym("x"), sym("x")]);
    let head = slist(vec![sym("square"), sym("x")]);
    let def = slist(vec![sym("define"), head.clone(), mul.clone()]);
    (def, head, mul)
}

#[test]
fn test_is_number() {
    let x = Exp::Integer(3);
    assert_eq!(x.is_number(), true);
}

#[test]
fn test_is_string() {
    let str = "summer";
    let x = Exp::Symbol(str.to_string());
    assert_eq!(x.is_symbol(), true);
}

#[test]
fn test_is_self_evaluating() {
    let x = Exp::FloatNumber(scheme_core::number::Rational::new(314, 100));
    let y = Exp::SchemeString("Winter".to_string());
    assert_eq!(x.is_self_evaluating() && y.is_self_evaluating(), true);
}

#[test]
fn test_is_symbol() {
    let x = Exp::Symbol("item".to_string());
    assert_eq!(x.is_symbol(), true);
}

#[test]
fn test_is_pair() {
    let s = slist(vec![Exp::Integer(1), Exp::Integer(2), Exp::Integer(3)]);
    assert_eq!(s.is_pair(), true);
}

#[test]
fn test_is_quoted() {
    let x = Exp::Quote("'x".to_string());
    assert_eq!(x.is_quoted(), true);
}

#[test]
fn test_car() {
    let (exp, _, _) = square_definition();
    if let Ok(Exp::Symbol(x)) = car(&exp) {
        assert_eq!(x.to_string(), "define");
    };
}

#[test]
fn test_cdr() {
    let (exp, head, mul) = square_definition();
    assert_eq!(cdr(&exp), Ok(slist(vec![head.clone(), mul.clone()])));
    assert_eq!(car(&cdr(&exp).unwrap()), Ok(head.clone()));
    assert_eq!(
        cdr(&car(&cdr(&exp).unwrap()).unwrap()),
        Ok(slist(vec![sym("x")]))
    );
}

#[test]
fn test_equlity() {
    let (exp, head, mul) = square_definition();
    assert_eq!(cdr(&exp).unwrap(), slist(vec![head.clone(), mul.clone()]));
    assert_eq!(cdr(&head), Ok(slist(vec![sym("x")])));
    let ref lrh = Pair::Nil;
    let rhs = &Pair::Nil;
    assert_eq!(lrh, rhs);
    let s1 = slist(vec![sym("x")]);
    assert_eq!(cdr(&s1), Ok(Exp::List(Pair::Nil)));
}

#[test]
#[should_panic]
fn test_inequality() {
    let (exp, head, mul) = square_definition();
    assert_eq!(mul, exp);
    assert_eq!(mul, head);
    assert_eq!(cdr(&mul).unwrap(), mul);
    assert_eq!(cdr(&exp).unwrap(), exp);
}

#[test]
fn test_tagged_list() {
    let (exp, head, mul) = square_definition();
    let tag1 = "define";
    assert_eq!(is_tagged_list(&exp, tag1), true);
    assert_eq!(is_tagged_list(&mul, "*"), true);
    assert_eq!(is_tagged_list(&head, "square"), true);
}
