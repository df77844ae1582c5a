//! Predicates and accessors over expressions.
//!
//! Pure, side-effect-free recognizers for each kind of datum and each
//! special form, the `car`/`cdr`/`cons` family, and structural equality.
//! Each one is specified against the classification functions of the
//! [`crate::semantics`] model.

use vstd::prelude::*;

verus! {

broadcast use vstd::seq::group_seq_axioms;

use crate::core_of_interpreter::{clone_exp, clone_pair, exp_datum, pair_datums, EvalError, Exp, Pair};
use crate::semantics;
use crate::semantics::{Datum, ErrorV};

impl Exp {
    /// A pair: a list with at least one element.
    pub fn is_pair(&self) -> (r: bool)
        ensures
            r == semantics::is_pair(self@),
    {
        match self {
            Exp::List(Pair::Cons(_, _)) => true,
            _ => false,
        }
    }

    /// A variable is a bare symbol.
    pub fn is_variable(&self) -> (r: bool)
        ensures
            r == semantics::is_symbol(self@),
    {
        self.is_symbol()
    }

    /// A pre-quoted atom: the `Quote` variant itself.  The list form
    /// `(quote d)` is a special form, recognized by its tag
    /// (`is_tagged(self, "quote")`) and reduced by the evaluator.
    pub fn is_quoted(&self) -> (r: bool)
        ensures
            r == semantics::is_quoted(self@),
    {
        match self {
            Exp::Quote(_) => true,
            _ => false,
        }
    }

    pub fn is_string(&self) -> (r: bool)
        ensures
            r == semantics::is_string(self@),
    {
        match self {
            Exp::SchemeString(_) => true,
            _ => false,
        }
    }

    pub fn is_symbol(&self) -> (r: bool)
        ensures
            r == semantics::is_symbol(self@),
    {
        match self {
            Exp::Symbol(_) => true,
            _ => false,
        }
    }

    /// An integer or a rational.
    pub fn is_number(&self) -> (r: bool)
        ensures
            r == semantics::is_number(self@),
    {
        match self {
            Exp::FloatNumber(_) => true,
            Exp::Integer(_) => true,
            _ => false,
        }
    }

    /// Numbers and strings evaluate to themselves.
    pub fn is_self_evaluating(&self) -> (r: bool)
        ensures
            r == semantics::is_self_evaluating(self@),
    {
        self.is_number() || self.is_string()
    }

    /// A proper list whose first element is the symbol `tag`.
    pub fn is_tagged(exp: &Exp, tag: &str) -> (r: bool)
        ensures
            r == semantics::is_tagged(exp@, tag@),
    {
        is_tagged_list(exp, tag)
    }

    /// A `set!` form.
    pub fn is_assignment(exp: &Exp) -> (r: bool)
        ensures
            r == semantics::is_tagged(exp@, "set!"@),
    {
        is_tagged_list(exp, "set!")
    }

    /// A `define` form.
    pub fn is_definiton(exp: &Exp) -> (r: bool)
        ensures
            r == semantics::is_tagged(exp@, "define"@),
    {
        is_tagged_list(exp, "define")
    }

    /// A `lambda` form.
    pub fn is_lambda(exp: &Exp) -> (r: bool)
        ensures
            r == semantics::is_tagged(exp@, "lambda"@),
    {
        is_tagged_list(exp, "lambda")
    }

    /// An `if` form.
    pub fn is_if(exp: &Exp) -> (r: bool)
        ensures
            r == semantics::is_tagged(exp@, "if"@),
    {
        is_tagged_list(exp, "if")
    }

    /// A `begin` form.
    pub fn is_begin(exp: &Exp) -> (r: bool)
        ensures
            r == semantics::is_tagged(exp@, "begin"@),
    {
        is_tagged_list(exp, "begin")
    }

    /// Any pair can be read as an application; the evaluator tries this
    /// last, after every special form.
    pub fn is_application(exp: &Exp) -> (r: bool)
        ensures
            r == semantics::is_pair(exp@),
    {
        exp.is_pair()
    }

    /// A `cond` form; recognized but not reduced by this evaluator.
    pub fn is_cond(exp: &Exp) -> (r: bool)
        ensures
            r == semantics::is_tagged(exp@, "cond"@),
    {
        is_tagged_list(exp, "cond")
    }

    /// A symbol naming one of the built-in procedures.
    pub fn is_primitive_procedure(&self) -> (r: bool)
        ensures
            r == (self@ matches Datum::Symbol(s) && semantics::is_primitive_name(s)),
    {
        match self {
            Exp::Symbol(s) => is_primitive_symbol(s),
            _ => false,
        }
    }

    /// The numeric reading of the expression: integers are promoted to
    /// rationals.
    pub fn to_number(&self) -> (r: Option<crate::number::Rational>)
        ensures
            match r {
                Some(q) => semantics::as_rational(self@) == Some(q@),
                None => semantics::as_rational(self@) is None,
            },
    {
        match self {
            Exp::Integer(i) => Some(crate::number::Rational::from_integer(*i)),
            Exp::FloatNumber(q) => Some(*q),
            _ => None,
        }
    }
}

/// Whether the symbol names a built-in procedure.
pub fn is_primitive_symbol(s: &String) -> (r: bool)
    ensures
        r == semantics::is_primitive_name(s@),
{
    *s == "+".to_owned() || *s == "-".to_owned() || *s == "*".to_owned() || *s == "/".to_owned()
        || *s == "car".to_owned() || *s == "cdr".to_owned() || *s == "cons".to_owned() || *s
        == "null?".to_owned() || *s == "=".to_owned()
}

/// A proper list whose first element is the symbol `tag`.
pub fn is_tagged_list(exp: &Exp, tag: &str) -> (r: bool)
    ensures
        r == semantics::is_tagged(exp@, tag@),
{
    match exp {
        Exp::List(Pair::Cons(h, t)) => {
            proof {
                assert(exp@->List_0 =~= seq![(**h)@] + (**t)@);
                assert(exp@->List_0[0] == (**h)@);
            }
            match &**h {
                Exp::Symbol(s) => *s == tag.to_owned(),
                _ => false,
            }
        },
        _ => false,
    }
}

/// A tagged list `(primitive <name>)`: a built-in procedure value.
pub fn is_primitive_procedure(exp: &Exp) -> (r: bool)
    ensures
        r == semantics::is_tagged(exp@, "primitive"@),
{
    is_tagged_list(exp, "primitive")
}

/// A tagged list `(procedure <params> <body> <env>)`: a closure.
pub fn is_compound_procedure(exp: &Exp) -> (r: bool)
    ensures
        r == semantics::is_tagged(exp@, "procedure"@),
{
    is_tagged_list(exp, "procedure")
}

/// A list all of whose elements are numbers or again such lists: plain
/// data, which evaluates to itself.
pub fn is_number_combination(exp: &Exp) -> (r: bool)
    ensures
        r == semantics::is_number_combination(exp@),
    decreases exp,
{
    match exp {
        Exp::List(p) => all_number_items(p),
        _ => false,
    }
}

fn all_number_items(p: &Pair) -> (r: bool)
    ensures
        r == semantics::all_number_items(p@),
    decreases p,
{
    match p {
        Pair::Nil => true,
        Pair::Cons(h, t) => {
            proof {
                assert(p@[0] == (**h)@);
                assert(p@.drop_first() =~= (**t)@);
            }
            (h.is_number() || is_number_combination(h)) && all_number_items(t)
        },
    }
}

/// First element of a pair; a type error on anything else.
pub fn car(exp: &Exp) -> (r: Result<Exp, EvalError>)
    ensures
        semantics::is_pair(exp@) ==> (r matches Ok(x) && x@ == exp@->List_0[0]),
        !semantics::is_pair(exp@) ==> (r matches Err(e) && e@ == ErrorV::TypeMismatch),
{
    match exp {
        Exp::List(Pair::Cons(h, _)) => Ok(clone_exp(h)),
        _ => Err(EvalError::TypeMismatch),
    }
}

/// The rest of a pair, as a list; a type error on anything else.
pub fn cdr(exp: &Exp) -> (r: Result<Exp, EvalError>)
    ensures
        semantics::is_pair(exp@) ==> (r matches Ok(x) && x@ == Datum::List(
            exp@->List_0.drop_first(),
        )),
        !semantics::is_pair(exp@) ==> (r matches Err(e) && e@ == ErrorV::TypeMismatch),
{
    match exp {
        Exp::List(Pair::Cons(_, t)) => {
            proof {
                assert(exp@->List_0.drop_first() =~= (**t)@);
            }
            Ok(Exp::List(clone_pair(t)))
        },
        _ => Err(EvalError::TypeMismatch),
    }
}

/// Second element of a list of at least two elements.
pub fn cadr(exp: &Exp) -> (r: Result<Exp, EvalError>)
    ensures
        (exp@ matches Datum::List(s) && s.len() >= 2) ==> (r matches Ok(x) && x@
            == exp@->List_0[1]),
        !(exp@ matches Datum::List(s) && s.len() >= 2) ==> (r matches Err(e) && e@
            == ErrorV::TypeMismatch),
{
    match exp {
        Exp::List(Pair::Cons(h, t)) => match &**t {
            Pair::Cons(x, rest) => {
                proof {
                    assert((**t)@ =~= seq![(**x)@] + (**rest)@);
                    assert(exp@->List_0 =~= seq![(**h)@] + (**t)@);
                    assert(exp@->List_0[1] == (**t)@[0]);
                    assert(exp@->List_0[1] == (**x)@);
                }
                Ok(clone_exp(x))
            },
            Pair::Nil => {
                proof {
                    assert((**t)@ =~= Seq::<Datum>::empty());
                    assert(exp@->List_0 =~= seq![(**h)@] + (**t)@);
                    assert(exp@->List_0.len() == 1);
                }
                Err(EvalError::TypeMismatch)
            },
        },
        _ => Err(EvalError::TypeMismatch),
    }
}

/// First element of the first element: `(car (car x))`.
pub fn caar(exp: &Exp) -> (r: Result<Exp, EvalError>)
    ensures
        (semantics::is_pair(exp@) && semantics::is_pair(exp@->List_0[0])) ==> (r matches Ok(x)
            && x@ == exp@->List_0[0]->List_0[0]),
        !(semantics::is_pair(exp@) && semantics::is_pair(exp@->List_0[0])) ==> (r matches Err(e)
            && e@ == ErrorV::TypeMismatch),
{
    match exp {
        Exp::List(Pair::Cons(h, _)) => car(h),
        _ => Err(EvalError::TypeMismatch),
    }
}

/// Rest of the first element: `(cdr (car x))`.
pub fn cdar(exp: &Exp) -> (r: Result<Exp, EvalError>)
    ensures
        (semantics::is_pair(exp@) && semantics::is_pair(exp@->List_0[0])) ==> (r matches Ok(x)
            && x@ == Datum::List(exp@->List_0[0]->List_0.drop_first())),
        !(semantics::is_pair(exp@) && semantics::is_pair(exp@->List_0[0])) ==> (r matches Err(e)
            && e@ == ErrorV::TypeMismatch),
{
    match exp {
        Exp::List(Pair::Cons(h, _)) => cdr(h),
        _ => Err(EvalError::TypeMismatch),
    }
}

/// Prepends `head` onto the list `tail`.  A tail that is not a list is
/// treated as the one-element list holding it, so the result is always a
/// proper list.
pub fn scheme_cons(head: Exp, tail: Exp) -> (r: Exp)
    ensures
        tail@ is List ==> r@ == Datum::List(seq![head@] + tail@->List_0),
        !(tail@ is List) ==> r@ == Datum::List(seq![head@, tail@]),
{
    let ghost hd = head@;
    let ghost td = tail@;
    match tail {
        Exp::List(p) => {
            let r = Exp::List(Pair::Cons(Box::new(head), Box::new(p)));
            proof {
                assert(r@->List_0 =~= seq![hd] + td->List_0);
            }
            r
        },
        _ => {
            let inner = Pair::Cons(Box::new(tail), Box::new(Pair::Nil));
            proof {
                reveal_with_fuel(pair_datums, 3);
                assert(inner@ =~= seq![td]);
            }
            let ghost iv = inner@;
            let r = Exp::List(Pair::Cons(Box::new(head), Box::new(inner)));
            proof {
                assert(r@->List_0 =~= seq![hd] + iv);
                assert(r@->List_0 =~= seq![hd, td]);
            }
            r
        },
    }
}

/// The sentinel an `if` without an alternative yields on a false
/// predicate.
pub fn unspecified_value() -> (r: Exp)
    ensures
        r@ == semantics::unspecified(),
{
    Exp::Quote("unspecified".to_owned())
}

/// The `(primitive <name>)` value a primitive symbol evaluates to.
pub fn make_primitive_value(s: &String) -> (r: Exp)
    ensures
        r@ == semantics::primitive_value(s@),
{
    let inner = Pair::Cons(Box::new(Exp::Symbol(s.clone())), Box::new(Pair::Nil));
    proof {
        reveal_with_fuel(pair_datums, 3);
        reveal_with_fuel(exp_datum, 3);
        assert(inner@ =~= seq![Datum::Symbol(s@)]);
    }
    let ghost iv = inner@;
    let r = Exp::List(Pair::Cons(Box::new(Exp::Symbol("primitive".to_owned())), Box::new(inner)));
    proof {
        assert(r@->List_0 =~= seq![Datum::Symbol("primitive"@)] + iv);
        assert(r@->List_0 =~= semantics::primitive_value(s@)->List_0);
    }
    r
}

/// Number of elements of a pair chain.
fn pair_length(p: &Pair) -> (n: usize)
    requires
        p@.len() <= usize::MAX,
    ensures
        n == p@.len(),
    decreases p,
{
    match p {
        Pair::Nil => 0,
        Pair::Cons(_, t) => {
            proof {
                assert(p@.drop_first() =~= (**t)@);
            }
            1 + pair_length(t)
        },
    }
}

/// Length of a list, by walking its links; a type error on anything that
/// is not a list.  Improper lists cannot be represented, so every walk
/// ends at the empty tail.
pub fn list_length(exp: &Exp) -> (r: Result<usize, EvalError>)
    requires
        exp@ is List ==> exp@->List_0.len() <= usize::MAX,
    ensures
        exp@ is List ==> (r matches Ok(n) && n == exp@->List_0.len()),
        !(exp@ is List) ==> (r matches Err(e) && e@ == ErrorV::TypeMismatch),
{
    match exp {
        Exp::List(p) => Ok(pair_length(p)),
        _ => Err(EvalError::TypeMismatch),
    }
}

/// Structural equality of expressions: same variant, recursively equal
/// payloads; lists are equal when their elements are.
pub fn is_equal(a: &Exp, b: &Exp) -> (r: bool)
    ensures
        r == (a@ == b@),
    decreases a,
{
    match (a, b) {
        (Exp::FloatNumber(x), Exp::FloatNumber(y)) => *x == *y,
        (Exp::Integer(x), Exp::Integer(y)) => *x == *y,
        (Exp::List(x), Exp::List(y)) => pair_equal(x, y),
        (Exp::Symbol(x), Exp::Symbol(y)) => *x == *y,
        (Exp::Quote(x), Exp::Quote(y)) => *x == *y,
        (Exp::SchemeString(x), Exp::SchemeString(y)) => *x == *y,
        (Exp::Bool(x), Exp::Bool(y)) => *x == *y,
        _ => false,
    }
}

/// Structural equality of pair chains.
pub fn pair_equal(a: &Pair, b: &Pair) -> (r: bool)
    ensures
        r == (a@ == b@),
    decreases a,
{
    match (a, b) {
        (Pair::Nil, Pair::Nil) => true,
        (Pair::Cons(x, xs), Pair::Cons(y, ys)) => {
            let heads = is_equal(x, y);
            let tails = pair_equal(xs, ys);
            proof {
                assert(a@[0] == (**x)@);
                assert(b@[0] == (**y)@);
                assert(a@.drop_first() =~= (**xs)@);
                assert(b@.drop_first() =~= (**ys)@);
                if heads && tails {
                    assert(a@ =~= b@);
                }
                if a@ == b@ {
                    assert(a@[0] == b@[0]);
                    assert(a@.drop_first() == b@.drop_first());
                }
            }
            heads && tails
        },
        (Pair::Nil, Pair::Cons(_, _)) => {
            proof {
                assert(b@.len() > 0);
            }
            false
        },
        (Pair::Cons(_, _), Pair::Nil) => {
            proof {
                assert(a@.len() > 0);
            }
            false
        },
    }
}

} // verus!
