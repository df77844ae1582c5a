//! The expression tree, the evaluation errors, and the eval/apply engine.
//!
//! Everything the evaluator consumes or produces is an [`Exp`]: numbers,
//! symbols, strings, booleans, quoted atoms, and cons-structured lists.
//! A list is a chain of [`Pair::Cons`] cells ending in [`Pair::Nil`], so
//! every list is proper by construction.  Procedure values are tagged
//! lists: `(primitive <name>)` for a built-in, and
//! `(procedure <params> <body> <env-index>)` for a closure, where the
//! index names the captured frame in the evaluation's frame arena.

use vstd::prelude::*;

verus! {

use crate::environment::{Env, Store};
use crate::number::Rational;
use crate::semantics::{
    apply_primitive_spec,
    apply_spec,
    eval_assignment_spec,
    eval_definition_spec,
    eval_if_spec,
    eval_sequence_spec,
    eval_spec,
    list_of_values_spec,
    make_closure,
    Datum,
    ErrorV,
    FrameV,
    Outcome,
};

/// A cons-structure: the list backbone.  The tail is always again a
/// `Pair`, so improper lists cannot be represented.
#[derive(Debug, PartialEq)]
pub enum Pair {
    Cons(Box<Exp>, Box<Pair>),
    Nil,
}

/// Everything that can appear in source or be produced as a result.
#[derive(Debug, PartialEq)]
pub enum Exp {
    /// A non-integer number, held as an exact rational.
    FloatNumber(Rational),
    Integer(i64),
    List(Pair),
    Symbol(String),
    /// A pre-quoted atom; it evaluates to itself.
    Quote(String),
    SchemeString(String),
    Bool(bool),
}

/// Why an evaluation failed.  Every failure is reported to the caller;
/// the evaluator never panics.
#[derive(Debug, Clone, PartialEq, Eq)]
pub enum EvalError {
    /// Lookup or `set!` found no binding for the name.
    UnboundVariable(String),
    /// No evaluation rule matched the expression.
    UnrecognizedExpression,
    /// The value in operator position is neither primitive nor closure.
    UnapplicableObject,
    /// An operand had the wrong shape: `car` of a non-pair, arithmetic on
    /// a non-number, a malformed special form.
    TypeMismatch,
    /// A procedure was applied to the wrong number of arguments.
    ArityMismatch,
    /// Division by exact zero.
    DivideByZero,
    /// A reduced rational result did not fit the 64-bit representation.
    NumericOverflow,
    /// The evaluation tree grew deeper than the engine's fixed bound.
    RecursionLimit,
}

/// The model of a pair chain: the sequence of its elements' models.
pub open spec fn pair_datums(p: Pair) -> Seq<Datum>
    decreases p,
{
    match p {
        Pair::Nil => Seq::empty(),
        Pair::Cons(h, t) => seq![exp_datum(*h)] + pair_datums(*t),
    }
}

/// The model of an expression.
pub open spec fn exp_datum(e: Exp) -> Datum
    decreases e,
{
    match e {
        Exp::FloatNumber(r) => Datum::FloatNumber(r@),
        Exp::Integer(i) => Datum::Integer(i as int),
        Exp::List(p) => Datum::List(pair_datums(p)),
        Exp::Symbol(s) => Datum::Symbol(s@),
        Exp::Quote(s) => Datum::Quote(s@),
        Exp::SchemeString(s) => Datum::SchemeString(s@),
        Exp::Bool(b) => Datum::Bool(b),
    }
}

impl View for Pair {
    type V = Seq<Datum>;

    open spec fn view(&self) -> Seq<Datum> {
        pair_datums(*self)
    }
}

impl View for Exp {
    type V = Datum;

    open spec fn view(&self) -> Datum {
        exp_datum(*self)
    }
}

impl View for EvalError {
    type V = ErrorV;

    open spec fn view(&self) -> ErrorV {
        match self {
            EvalError::UnboundVariable(s) => ErrorV::UnboundVariable(s@),
            EvalError::UnrecognizedExpression => ErrorV::UnrecognizedExpression,
            EvalError::UnapplicableObject => ErrorV::UnapplicableObject,
            EvalError::TypeMismatch => ErrorV::TypeMismatch,
            EvalError::ArityMismatch => ErrorV::ArityMismatch,
            EvalError::DivideByZero => ErrorV::DivideByZero,
            EvalError::NumericOverflow => ErrorV::NumericOverflow,
            EvalError::RecursionLimit => ErrorV::RecursionLimit,
        }
    }
}

/// Deep copy of an expression, equal to the original in the model.
pub fn clone_exp(e: &Exp) -> (r: Exp)
    ensures
        r@ == e@,
    decreases e,
{
    match e {
        Exp::FloatNumber(q) => Exp::FloatNumber(*q),
        Exp::Integer(i) => Exp::Integer(*i),
        Exp::List(p) => Exp::List(clone_pair(p)),
        Exp::Symbol(s) => Exp::Symbol(s.clone()),
        Exp::Quote(s) => Exp::Quote(s.clone()),
        Exp::SchemeString(s) => Exp::SchemeString(s.clone()),
        Exp::Bool(b) => Exp::Bool(*b),
    }
}

/// Deep copy of a pair chain.
pub fn clone_pair(p: &Pair) -> (r: Pair)
    ensures
        r@ == p@,
    decreases p,
{
    match p {
        Pair::Nil => Pair::Nil,
        Pair::Cons(h, t) => Pair::Cons(Box::new(clone_exp(h)), Box::new(clone_pair(t))),
    }
}

impl Clone for Exp {
    /// Clones are equal to the original in the model.
    fn clone(&self) -> (r: Self)
        ensures
            r@ == self@,
    {
        clone_exp(self)
    }
}

impl Clone for Pair {
    /// Clones are equal to the original in the model.
    fn clone(&self) -> (r: Self)
        ensures
            r@ == self@,
    {
        clone_pair(self)
    }
}


/// The fixed bound on the depth of the evaluation tree.  Each step of
/// the engine spends one unit of fuel before it recurses, so deep or
/// non-terminating programs fail with `RecursionLimit` instead of
/// exhausting the host stack.
pub const RECURSION_LIMIT: u64 = 10000;

/// How an executable result and arena realize a model outcome: values and
/// errors correspond through the views, and running out of fuel surfaces
/// as the `RecursionLimit` error.
pub open spec fn outcome_matches(o: Outcome, r: Result<Exp, EvalError>, st: Seq<FrameV>) -> bool {
    match o {
        Outcome::Val { v, st: st2 } => r matches Ok(x) && x@ == v && st == st2,
        Outcome::Fail { e, st: st2 } => r matches Err(x) && x@ == e && st == st2,
        Outcome::OutOfFuel { st: st2 } => (r matches Err(x) && x@ == ErrorV::RecursionLimit && st
            == st2),
    }
}

/// Evaluates an expression in an environment over the given arena.
///
/// The result and the new arena are exactly what the model's
/// [`eval_spec`] prescribes, at the engine's fixed fuel.
pub fn eval(exp: &Exp, env: Env, store: &mut Store) -> (r: Result<Exp, EvalError>)
    ensures
        outcome_matches(
            eval_spec(exp@, env@, old(store)@, RECURSION_LIMIT as nat),
            r,
            final(store)@,
        ),
{
    eval_core(exp, env, store, RECURSION_LIMIT)
}

/// Evaluates with a caller-chosen depth bound in place of the fixed one.
pub fn eval_with_limit(exp: &Exp, env: Env, store: &mut Store, limit: u64) -> (r: Result<
    Exp,
    EvalError,
>)
    ensures
        outcome_matches(eval_spec(exp@, env@, old(store)@, limit as nat), r, final(store)@),
{
    eval_core(exp, env, store, limit)
}

fn eval_core(exp: &Exp, env: Env, store: &mut Store, fuel: u64) -> (r: Result<Exp, EvalError>)
    ensures
        outcome_matches(eval_spec(exp@, env@, old(store)@, fuel as nat), r, final(store)@),
    decreases fuel, 2int,
{
    if fuel == 0 {
        return Err(EvalError::RecursionLimit);
    }
    let fuel2 = fuel - 1;
    proof {
        reveal_with_fuel(pair_datums, 6);
        reveal_with_fuel(exp_datum, 6);
    }
    if exp.is_self_evaluating() {
        Ok(clone_exp(exp))
    } else if matches!(exp, Exp::Bool(_)) {
        Ok(clone_exp(exp))
    } else if crate::represent::is_number_combination(exp) {
        Ok(clone_exp(exp))
    } else if exp.is_symbol() {
        match exp {
            Exp::Symbol(s) => {
                if crate::represent::is_primitive_symbol(s) {
                    Ok(crate::represent::make_primitive_value(s))
                } else {
                    crate::environment::lookup_variable_value(exp, env, store)
                }
            },
            _ => Err(EvalError::UnrecognizedExpression),
        }
    } else if exp.is_quoted() {
        Ok(clone_exp(exp))
    } else if Exp::is_tagged(exp, "quote") {
        match exp {
            Exp::List(Pair::Cons(_, t)) => {
                proof {
                    assert(exp@->List_0 =~= seq![exp@->List_0[0]] + (**t)@);
                }
                match &**t {
                    Pair::Cons(d, _) => {
                        proof {
                            assert((**t)@ =~= seq![(**d)@] + (**t)@.drop_first());
                            assert(exp@->List_0[1] == (**d)@);
                        }
                        // the quoted datum, returned unevaluated
                        Ok(clone_exp(d))
                    },
                    Pair::Nil => {
                        proof {
                            assert(exp@->List_0.len() == 1);
                        }
                        Err(EvalError::TypeMismatch)
                    },
                }
            },
            _ => {
                proof {
                    assert(false);
                }
                Err(EvalError::TypeMismatch)
            },
        }
    } else if Exp::is_assignment(exp) {
        eval_assignment(exp, env, store, fuel2)
    } else if Exp::is_definiton(exp) {
        eval_definition(exp, env, store, fuel2)
    } else if Exp::is_if(exp) {
        eval_if(exp, env, store, fuel2)
    } else if Exp::is_lambda(exp) {
        match exp {
            Exp::List(Pair::Cons(_, t)) => {
                proof {
                    assert(exp@->List_0 =~= seq![exp@->List_0[0]] + (**t)@);
                }
                match &**t {
                    Pair::Cons(params, body) => {
                        proof {
                            assert((**t)@ =~= seq![(**params)@] + (**body)@);
                            assert(exp@->List_0[1] == (**params)@);
                            assert(exp@->List_0.subrange(2, exp@->List_0.len() as int)
                                =~= (**body)@);
                        }
                        if env.0 as u64 > i64::MAX as u64 {
                            Err(EvalError::TypeMismatch)
                        } else {
                            Ok(make_procedure(clone_exp(params), clone_pair(body), env))
                        }
                    },
                    Pair::Nil => {
                        proof {
                            assert(exp@->List_0.len() == 1);
                        }
                        Err(EvalError::TypeMismatch)
                    },
                }
            },
            _ => {
                proof {
                    assert(false);
                }
                Err(EvalError::TypeMismatch)
            },
        }
    } else if Exp::is_begin(exp) {
        match exp {
            Exp::List(Pair::Cons(_, t)) => {
                proof {
                    assert(exp@->List_0 =~= seq![exp@->List_0[0]] + (**t)@);
                    assert(exp@->List_0.drop_first() =~= (**t)@);
                }
                eval_sequence(t, env, store, fuel2)
            },
            _ => {
                proof {
                    assert(false);
                }
                Err(EvalError::UnrecognizedExpression)
            },
        }
    } else if exp.is_pair() {
        match exp {
            Exp::List(Pair::Cons(f, rest)) => {
                proof {
                    assert(exp@->List_0 =~= seq![(**f)@] + (**rest)@);
                    assert(exp@->List_0[0] == (**f)@);
                    assert(exp@->List_0.drop_first() =~= (**rest)@);
                }
                match eval_core(f, env, store, fuel2) {
                    Ok(p) => match list_of_values(rest, env, store, fuel2) {
                        Ok(args) => apply(&p, &args, store, fuel2),
                        Err(e) => Err(e),
                    },
                    Err(e) => Err(e),
                }
            },
            _ => {
                proof {
                    assert(false);
                }
                Err(EvalError::UnrecognizedExpression)
            },
        }
    } else {
        Err(EvalError::UnrecognizedExpression)
    }
}

/// Builds the closure value `(procedure <params> <body> <env>)`.
fn make_procedure(params: Exp, body: Pair, env: Env) -> (r: Exp)
    requires
        env@ <= i64::MAX,
    ensures
        r@ == make_closure(params@, body@, env@),
{
    let ghost pv = params@;
    let ghost bv = body@;
    let p4 = Pair::Cons(Box::new(Exp::Integer(env.0 as i64)), Box::new(Pair::Nil));
    proof {
        reveal_with_fuel(pair_datums, 3);
        reveal_with_fuel(exp_datum, 3);
        assert(p4@ =~= seq![Datum::Integer(env@)]);
    }
    let ghost v4 = p4@;
    let p3 = Pair::Cons(Box::new(Exp::List(body)), Box::new(p4));
    proof {
        assert(p3@ =~= seq![Datum::List(bv)] + v4);
    }
    let ghost v3 = p3@;
    let p2 = Pair::Cons(Box::new(params), Box::new(p3));
    proof {
        assert(p2@ =~= seq![pv] + v3);
    }
    let ghost v2 = p2@;
    let r = Exp::List(Pair::Cons(Box::new(Exp::Symbol("procedure".to_owned())), Box::new(p2)));
    proof {
        assert(r@->List_0 =~= seq![Datum::Symbol("procedure"@)] + v2);
        assert(r@->List_0 =~= make_closure(pv, bv, env@)->List_0);
    }
    r
}

/// Applies a procedure value to already-evaluated arguments: a primitive
/// dispatches to the table, a closure runs its body in its captured
/// environment extended with the parameter bindings; anything else is not
/// applicable.
fn apply(p: &Exp, args: &Exp, store: &mut Store, fuel: u64) -> (r: Result<Exp, EvalError>)
    requires
        args@ is List,
    ensures
        outcome_matches(
            apply_spec(p@, args@->List_0, old(store)@, fuel as nat),
            r,
            final(store)@,
        ),
    decreases fuel, 2int,
{
    if fuel == 0 {
        return Err(EvalError::RecursionLimit);
    }
    let fuel2 = fuel - 1;
    proof {
        reveal_with_fuel(pair_datums, 6);
        reveal_with_fuel(exp_datum, 6);
    }
    proof {
        reveal_strlit("primitive");
        reveal_strlit("procedure");
        assert("primitive"@[2] != "procedure"@[2]);
        assert("primitive"@ != "procedure"@);
    }
    if crate::represent::is_primitive_procedure(p) {
        match p {
            Exp::List(Pair::Cons(_, t)) => {
                proof {
                    assert(p@->List_0 =~= seq![p@->List_0[0]] + (**t)@);
                }
                match &**t {
                    Pair::Cons(x, t2) => {
                        proof {
                            assert((**t)@ =~= seq![(**x)@] + (**t2)@);
                            assert(p@->List_0[1] == (**x)@);
                        }
                        match (&**x, &**t2) {
                            (Exp::Symbol(op), Pair::Nil) => {
                                proof {
                                    assert(p@->List_0.len() == 2);
                                }
                                if crate::represent::is_primitive_symbol(op) {
                                    apply_primitive_procedure(p, args)
                                } else {
                                    Err(EvalError::UnapplicableObject)
                                }
                            },
                            _ => Err(EvalError::UnapplicableObject),
                        }
                    },
                    Pair::Nil => {
                        proof {
                            assert(p@->List_0.len() == 1);
                        }
                        Err(EvalError::UnapplicableObject)
                    },
                }
            },
            _ => {
                proof {
                    assert(false);
                }
                Err(EvalError::UnapplicableObject)
            },
        }
    } else if crate::represent::is_compound_procedure(p) {
        match p {
            Exp::List(Pair::Cons(_, t1)) => {
                proof {
                    assert(p@->List_0 =~= seq![p@->List_0[0]] + (**t1)@);
                }
                match &**t1 {
                    Pair::Cons(params, t2) => {
                        proof {
                            assert((**t1)@ =~= seq![(**params)@] + (**t2)@);
                            assert(p@->List_0[1] == (**params)@);
                        }
                        match &**t2 {
                            Pair::Cons(body, t3) => {
                                proof {
                                    assert((**t2)@ =~= seq![(**body)@] + (**t3)@);
                                    assert(p@->List_0[2] == (**body)@);
                                }
                                match &**t3 {
                                    Pair::Cons(cap, t4) => {
                                        proof {
                                            assert((**t3)@ =~= seq![(**cap)@] + (**t4)@);
                                            assert(p@->List_0[3] == (**cap)@);
                                        }
                                        match (&**params, &**body, &**cap, &**t4) {
                                            (
                                                Exp::List(pp),
                                                Exp::List(body_pair),
                                                Exp::Integer(ci),
                                                Pair::Nil,
                                            ) => {
                                                proof {
                                                    assert(p@->List_0.len() == 4);
                                                }
                                                apply_compound(
                                                    params,
                                                    body_pair,
                                                    *ci,
                                                    args,
                                                    store,
                                                    fuel2,
                                                    Ghost(p@),
                                                )
                                            },
                                            _ => Err(EvalError::UnapplicableObject),
                                        }
                                    },
                                    Pair::Nil => {
                                        proof {
                                            assert(p@->List_0.len() == 3);
                                        }
                                        Err(EvalError::UnapplicableObject)
                                    },
                                }
                            },
                            Pair::Nil => {
                                proof {
                                    assert(p@->List_0.len() == 2);
                                }
                                Err(EvalError::UnapplicableObject)
                            },
                        }
                    },
                    Pair::Nil => {
                        proof {
                            assert(p@->List_0.len() == 1);
                        }
                        Err(EvalError::UnapplicableObject)
                    },
                }
            },
            _ => {
                proof {
                    assert(false);
                }
                Err(EvalError::UnapplicableObject)
            },
        }
    } else {
        Err(EvalError::UnapplicableObject)
    }
}

/// The closure half of `apply`: checks the captured index, extends the
/// captured environment with the parameter bindings, and runs the body.
fn apply_compound(
    params: &Exp,
    body_pair: &Pair,
    ci: i64,
    args: &Exp,
    store: &mut Store,
    fuel: u64,
    Ghost(pd): Ghost<Datum>,
) -> (r: Result<Exp, EvalError>)
    requires
        args@ is List,
        pd matches Datum::List(s) && s.len() == 4 && s[1] == params@ && s[2] == Datum::List(
            body_pair@,
        ) && s[3] == Datum::Integer(ci as int),
        params@ is List,
        crate::semantics::is_tagged(pd, "procedure"@),
        !crate::semantics::is_tagged(pd, "primitive"@),
    ensures
        outcome_matches(
            apply_spec(pd, args@->List_0, old(store)@, (fuel + 1) as nat),
            r,
            final(store)@,
        ),
    decreases fuel, 1int,
{
    proof {
        reveal_with_fuel(pair_datums, 4);
        reveal_with_fuel(exp_datum, 4);
    }
    if ci < 0 || ci as u64 >= store.frames.len() as u64 {
        return Err(EvalError::UnapplicableObject);
    }
    let cap_env = Env(ci as usize);
    match crate::environment::extend_environment(params, args, cap_env, store) {
        Ok(new_env) => {
            proof {
                assert(new_env@ == old(store)@.len());
            }
            eval_sequence(body_pair, new_env, store, fuel)
        },
        Err(e) => Err(e),
    }
}

/// Evaluates the expressions of a body in order; the value is the last
/// expression's.  An empty body is an error.
fn eval_sequence(exps: &Pair, env: Env, store: &mut Store, fuel: u64) -> (r: Result<
    Exp,
    EvalError,
>)
    ensures
        outcome_matches(
            eval_sequence_spec(exps@, env@, old(store)@, fuel as nat),
            r,
            final(store)@,
        ),
    decreases fuel, 0int,
{
    if fuel == 0 {
        return Err(EvalError::RecursionLimit);
    }
    let fuel2 = fuel - 1;
    proof {
        reveal_with_fuel(pair_datums, 6);
        reveal_with_fuel(exp_datum, 6);
    }
    match exps {
        Pair::Nil => Err(EvalError::UnrecognizedExpression),
        Pair::Cons(h, t) => {
            proof {
                assert(exps@ =~= seq![(**h)@] + (**t)@);
                assert(exps@[0] == (**h)@);
                assert(exps@.drop_first() =~= (**t)@);
            }
            match &**t {
                Pair::Nil => {
                    proof {
                        assert(exps@.len() == 1);
                    }
                    eval_core(h, env, store, fuel2)
                },
                Pair::Cons(_, _) => {
                    proof {
                        assert(exps@.len() >= 2);
                    }
                    match eval_core(h, env, store, fuel2) {
                        Ok(_) => eval_sequence(t, env, store, fuel2),
                        Err(e) => Err(e),
                    }
                },
            }
        },
    }
}

/// Evaluates operands left to right, collecting their values as a list.
fn list_of_values(exps: &Pair, env: Env, store: &mut Store, fuel: u64) -> (r: Result<
    Exp,
    EvalError,
>)
    ensures
        outcome_matches(
            list_of_values_spec(exps@, env@, old(store)@, fuel as nat),
            r,
            final(store)@,
        ),
        r matches Ok(x) ==> x@ is List,
    decreases fuel, 0int,
{
    if fuel == 0 {
        return Err(EvalError::RecursionLimit);
    }
    let fuel2 = fuel - 1;
    proof {
        reveal_with_fuel(pair_datums, 6);
        reveal_with_fuel(exp_datum, 6);
    }
    match exps {
        Pair::Nil => Ok(Exp::List(Pair::Nil)),
        Pair::Cons(h, t) => {
            proof {
                assert(exps@ =~= seq![(**h)@] + (**t)@);
                assert(exps@[0] == (**h)@);
                assert(exps@.drop_first() =~= (**t)@);
            }
            match eval_core(h, env, store, fuel2) {
                Ok(v) => match list_of_values(t, env, store, fuel2) {
                    Ok(rest) => {
                        let ghost vd = v@;
                        match rest {
                            Exp::List(rp) => {
                                let r = Exp::List(Pair::Cons(Box::new(v), Box::new(rp)));
                                proof {
                                    assert(r@->List_0 =~= seq![vd] + rest@->List_0);
                                }
                                Ok(r)
                            },
                            _ => {
                                proof {
                                    assert(false);
                                }
                                Err(EvalError::TypeMismatch)
                            },
                        }
                    },
                    Err(e) => Err(e),
                },
                Err(e) => Err(e),
            }
        },
    }
}

/// An `if`: evaluate the predicate; exactly the value `true` selects the
/// consequent, anything else the alternative; with no alternative the
/// unspecified sentinel is the value.
fn eval_if(exp: &Exp, env: Env, store: &mut Store, fuel: u64) -> (r: Result<Exp, EvalError>)
    requires
        exp@ is List,
    ensures
        outcome_matches(eval_if_spec(exp@, env@, old(store)@, fuel as nat), r, final(store)@),
    decreases fuel, 0int,
{
    if fuel == 0 {
        return Err(EvalError::RecursionLimit);
    }
    let fuel2 = fuel - 1;
    proof {
        reveal_with_fuel(pair_datums, 6);
        reveal_with_fuel(exp_datum, 6);
    }
    match exp {
        Exp::List(Pair::Cons(tag, t1)) => {
            proof {
                assert(exp@->List_0 =~= seq![(**tag)@] + (**t1)@);
            }
            match &**t1 {
                Pair::Cons(pred, t2) => {
                    proof {
                        assert((**t1)@ =~= seq![(**pred)@] + (**t2)@);
                        assert(exp@->List_0[1] == (**pred)@);
                    }
                    match eval_core(pred, env, store, fuel2) {
                        Ok(v) => {
                            let truthy = match &v {
                                Exp::Bool(true) => true,
                                _ => false,
                            };
                            proof {
                                assert(truthy == (v@ == Datum::Bool(true)));
                            }
                            if truthy {
                                match &**t2 {
                                    Pair::Cons(conseq, _) => {
                                        proof {
                                            assert((**t2)@ =~= seq![(**t2)@[0]] + (**t2)@.drop_first());
                                            assert(exp@->List_0[2] == (**t2)@[0]);
                                        }
                                        let c = clone_exp(conseq);
                                        proof {
                                            assert(c@ == exp@->List_0[2]);
                                        }
                                        eval_core(&c, env, store, fuel2)
                                    },
                                    Pair::Nil => {
                                        proof {
                                            assert(exp@->List_0.len() == 2);
                                        }
                                        Err(EvalError::TypeMismatch)
                                    },
                                }
                            } else {
                                match &**t2 {
                                    Pair::Cons(_, t3) => {
                                        proof {
                                            assert((**t2)@ =~= seq![(**t2)@[0]] + (**t3)@);
                                        }
                                        match &**t3 {
                                            Pair::Cons(alt, _) => {
                                                proof {
                                                    assert((**t3)@ =~= seq![(**t3)@[0]]
                                                        + (**t3)@.drop_first());
                                                    assert(exp@->List_0[3] == (**t3)@[0]);
                                                }
                                                let a = clone_exp(alt);
                                                proof {
                                                    assert(a@ == exp@->List_0[3]);
                                                }
                                                eval_core(&a, env, store, fuel2)
                                            },
                                            Pair::Nil => {
                                                proof {
                                                    assert(exp@->List_0.len() == 3);
                                                }
                                                Ok(crate::represent::unspecified_value())
                                            },
                                        }
                                    },
                                    Pair::Nil => {
                                        proof {
                                            assert(exp@->List_0.len() == 2);
                                        }
                                        Ok(crate::represent::unspecified_value())
                                    },
                                }
                            }
                        },
                        Err(e) => Err(e),
                    }
                },
                Pair::Nil => {
                    proof {
                        assert(exp@->List_0.len() == 1);
                    }
                    Err(EvalError::TypeMismatch)
                },
            }
        },
        _ => {
            proof {
                assert(exp@->List_0.len() == 0 || !(exp@ is List));
            }
            Err(EvalError::TypeMismatch)
        },
    }
}

/// A `set!`: the value expression is evaluated, then the nearest binding
/// of the variable anywhere along the chain is replaced; the value of the
/// whole form is the assigned value.
fn eval_assignment(exp: &Exp, env: Env, store: &mut Store, fuel: u64) -> (r: Result<
    Exp,
    EvalError,
>)
    requires
        exp@ is List,
    ensures
        outcome_matches(
            eval_assignment_spec(exp@, env@, old(store)@, fuel as nat),
            r,
            final(store)@,
        ),
    decreases fuel, 0int,
{
    if fuel == 0 {
        return Err(EvalError::RecursionLimit);
    }
    let fuel2 = fuel - 1;
    proof {
        reveal_with_fuel(pair_datums, 6);
        reveal_with_fuel(exp_datum, 6);
    }
    match exp {
        Exp::List(Pair::Cons(tag, t1)) => {
            proof {
                assert(exp@->List_0 =~= seq![(**tag)@] + (**t1)@);
            }
            match &**t1 {
                Pair::Cons(var, t2) => {
                    proof {
                        assert((**t1)@ =~= seq![(**var)@] + (**t2)@);
                        assert(exp@->List_0[1] == (**var)@);
                    }
                    match (&**var, &**t2) {
                        (Exp::Symbol(_), Pair::Cons(vexp, _)) => {
                            proof {
                                assert((**t2)@ =~= seq![(**t2)@[0]] + (**t2)@.drop_first());
                                assert(exp@->List_0[2] == (**t2)@[0]);
                                assert(exp@->List_0.len() >= 3);
                            }
                            match eval_core(vexp, env, store, fuel2) {
                                Ok(v) => {
                                    let vc = clone_exp(&v);
                                    match crate::environment::set_variable_value(
                                        var,
                                        vc,
                                        env,
                                        store,
                                    ) {
                                        Ok(()) => Ok(v),
                                        Err(e) => Err(e),
                                    }
                                },
                                Err(e) => Err(e),
                            }
                        },
                        _ => {
                            proof {
                                if (**t2)@.len() > 0 {
                                    assert(exp@->List_0.len() >= 2);
                                }
                            }
                            Err(EvalError::TypeMismatch)
                        },
                    }
                },
                Pair::Nil => {
                    proof {
                        assert(exp@->List_0.len() == 1);
                    }
                    Err(EvalError::TypeMismatch)
                },
            }
        },
        _ => {
            proof {
                assert(exp@->List_0.len() == 0);
            }
            Err(EvalError::TypeMismatch)
        },
    }
}

/// A `define`: the plain form evaluates its value expression and binds
/// the variable in the innermost frame alone; the shorthand
/// `(define (f p...) body...)` builds a closure over the current
/// environment and binds it to `f` the same way.  The value of the whole
/// form is the bound value.
fn eval_definition(exp: &Exp, env: Env, store: &mut Store, fuel: u64) -> (r: Result<
    Exp,
    EvalError,
>)
    requires
        exp@ is List,
    ensures
        outcome_matches(
            eval_definition_spec(exp@, env@, old(store)@, fuel as nat),
            r,
            final(store)@,
        ),
    decreases fuel, 0int,
{
    if fuel == 0 {
        return Err(EvalError::RecursionLimit);
    }
    let fuel2 = fuel - 1;
    proof {
        reveal_with_fuel(pair_datums, 6);
        reveal_with_fuel(exp_datum, 6);
    }
    match exp {
        Exp::List(Pair::Cons(tag, t1)) => {
            proof {
                assert(exp@->List_0 =~= seq![(**tag)@] + (**t1)@);
            }
            match &**t1 {
                Pair::Cons(var, t2) => {
                    proof {
                        assert((**t1)@ =~= seq![(**var)@] + (**t2)@);
                        assert(exp@->List_0[1] == (**var)@);
                        assert(exp@->List_0.drop_first().drop_first() =~= (**t2)@);
                        assert(exp@->List_0.subrange(2, exp@->List_0.len() as int) =~= (**t2)@);
                    }
                    match &**var {
                        Exp::Symbol(_) => match &**t2 {
                            Pair::Cons(vexp, _) => {
                                proof {
                                    assert((**t2)@ =~= seq![(**t2)@[0]] + (**t2)@.drop_first());
                                    assert(exp@->List_0[2] == (**t2)@[0]);
                                    assert(exp@->List_0.len() >= 3);
                                }
                                match eval_core(vexp, env, store, fuel2) {
                                    Ok(v) => {
                                        let vc = clone_exp(&v);
                                        match crate::environment::define_variable(
                                            var,
                                            vc,
                                            env,
                                            store,
                                        ) {
                                            Ok(()) => Ok(v),
                                            Err(e) => Err(e),
                                        }
                                    },
                                    Err(e) => Err(e),
                                }
                            },
                            Pair::Nil => {
                                proof {
                                    assert(exp@->List_0.len() == 2);
                                }
                                Err(EvalError::TypeMismatch)
                            },
                        },
                        Exp::List(Pair::Cons(fname, prest)) => {
                            proof {
                                assert((**var)@->List_0 =~= seq![(**fname)@] + (**prest)@);
                                assert((**var)@->List_0[0] == (**fname)@);
                                assert((**var)@->List_0.drop_first() =~= (**prest)@);
                            }
                            match &**fname {
                                Exp::Symbol(_) => {
                                    if env.0 as u64 > i64::MAX as u64 {
                                        Err(EvalError::TypeMismatch)
                                    } else {
                                        let closure = make_procedure(
                                            Exp::List(clone_pair(prest)),
                                            clone_pair(t2),
                                            env,
                                        );
                                        let cc = clone_exp(&closure);
                                        match crate::environment::define_variable(
                                            fname,
                                            cc,
                                            env,
                                            store,
                                        ) {
                                            Ok(()) => Ok(closure),
                                            Err(e) => Err(e),
                                        }
                                    }
                                },
                                _ => Err(EvalError::TypeMismatch),
                            }
                        },
                        _ => Err(EvalError::TypeMismatch),
                    }
                },
                Pair::Nil => {
                    proof {
                        assert(exp@->List_0.len() == 1);
                    }
                    Err(EvalError::TypeMismatch)
                },
            }
        },
        _ => {
            proof {
                assert(exp@->List_0.len() == 0);
            }
            Err(EvalError::TypeMismatch)
        },
    }
}

/// Dispatches a built-in procedure on its (already evaluated) arguments.
/// Arity is validated first; arithmetic promotes both operands to exact
/// rationals and always yields a rational.
fn apply_primitive_procedure(p: &Exp, args: &Exp) -> (r: Result<Exp, EvalError>)
    requires
        crate::semantics::is_tagged(p@, "primitive"@),
        p@->List_0.len() == 2,
        p@->List_0[1] matches Datum::Symbol(op) && crate::semantics::is_primitive_name(op),
        args@ is List,
    ensures
        match apply_primitive_spec(p@->List_0[1]->Symbol_0, args@->List_0) {
            Ok(v) => r matches Ok(x) && x@ == v,
            Err(e) => r matches Err(x) && x@ == e,
        },
{
    proof {
        reveal_with_fuel(pair_datums, 6);
        reveal_with_fuel(exp_datum, 6);
    }
    let op = match p {
        Exp::List(Pair::Cons(_, t)) => match &**t {
            Pair::Cons(x, _) => {
                proof {
                    assert(p@->List_0 =~= seq![p@->List_0[0]] + (**t)@);
                    assert((**t)@ =~= seq![(**x)@] + (**t)@.drop_first());
                    assert(p@->List_0[1] == (**x)@);
                }
                match &**x {
                    Exp::Symbol(s) => s,
                    _ => {
                        return Err(EvalError::UnapplicableObject);
                    },
                }
            },
            Pair::Nil => {
                return Err(EvalError::UnapplicableObject);
            },
        },
        _ => {
            return Err(EvalError::UnapplicableObject);
        },
    };
    let ap = match args {
        Exp::List(ap) => ap,
        _ => {
            return Err(EvalError::UnapplicableObject);
        },
    };
    let is_arith = is_str(op, "+") || is_str(op, "-") || is_str(op, "*") || is_str(op, "/");
    if is_arith {
        match two_args(ap) {
            Some((a, b)) => {
                proof {
                    assert(args@->List_0[0] == a@ && args@->List_0[1] == b@);
                }
                match (a.to_number(), b.to_number()) {
                    (Some(x), Some(y)) => {
                        if is_str(op, "/") && y.is_zero() {
                            Err(EvalError::DivideByZero)
                        } else {
                            let q = if is_str(op, "+") {
                                x.add(&y)
                            } else if is_str(op, "-") {
                                x.sub(&y)
                            } else if is_str(op, "*") {
                                x.mul(&y)
                            } else {
                                x.div(&y)
                            };
                            match q {
                                Some(v) => Ok(Exp::FloatNumber(v)),
                                None => Err(EvalError::NumericOverflow),
                            }
                        }
                    },
                    _ => Err(EvalError::TypeMismatch),
                }
            },
            None => Err(EvalError::ArityMismatch),
        }
    } else if is_str(op, "car") {
        match one_arg(ap) {
            Some(a) => {
                proof {
                    assert(args@->List_0[0] == a@);
                }
                crate::represent::car(&a)
            },
            None => Err(EvalError::ArityMismatch),
        }
    } else if is_str(op, "cdr") {
        match one_arg(ap) {
            Some(a) => {
                proof {
                    assert(args@->List_0[0] == a@);
                }
                crate::represent::cdr(&a)
            },
            None => Err(EvalError::ArityMismatch),
        }
    } else if is_str(op, "cons") {
        match two_args(ap) {
            Some((a, b)) => {
                proof {
                    assert(args@->List_0[0] == a@ && args@->List_0[1] == b@);
                }
                Ok(crate::represent::scheme_cons(a, b))
            },
            None => Err(EvalError::ArityMismatch),
        }
    } else if is_str(op, "null?") {
        match one_arg(ap) {
            Some(a) => {
                proof {
                    assert(args@->List_0[0] == a@);
                }
                let is_nil = match &a {
                    Exp::List(Pair::Nil) => true,
                    _ => false,
                };
                proof {
                    if is_nil {
                        assert(a@ == Datum::List(Seq::<Datum>::empty()));
                    } else {
                        assert(a@ != Datum::List(Seq::<Datum>::empty()));
                    }
                }
                Ok(Exp::Bool(is_nil))
            },
            None => Err(EvalError::ArityMismatch),
        }
    } else if is_str(op, "=") {
        match two_args(ap) {
            Some((a, b)) => {
                proof {
                    assert(args@->List_0[0] == a@ && args@->List_0[1] == b@);
                }
                Ok(Exp::Bool(crate::represent::is_equal(&a, &b)))
            },
            None => Err(EvalError::ArityMismatch),
        }
    } else {
        Err(EvalError::UnapplicableObject)
    }
}

/// String comparison against a literal operator name.
fn is_str(s: &String, lit: &str) -> (r: bool)
    ensures
        r == (s@ == lit@),
{
    *s == lit.to_owned()
}

/// The single element of a one-element chain, cloned.
fn one_arg(p: &Pair) -> (r: Option<Exp>)
    ensures
        match r {
            Some(a) => p@.len() == 1 && a@ == p@[0],
            None => p@.len() != 1,
        },
{
    proof {
        reveal_with_fuel(pair_datums, 4);
        reveal_with_fuel(exp_datum, 4);
    }
    match p {
        Pair::Cons(a, t) => {
            proof {
                assert(p@ =~= seq![(**a)@] + (**t)@);
            }
            match &**t {
                Pair::Nil => Some(clone_exp(a)),
                _ => None,
            }
        },
        Pair::Nil => None,
    }
}

/// The two elements of a two-element chain, cloned.
fn two_args(p: &Pair) -> (r: Option<(Exp, Exp)>)
    ensures
        match r {
            Some((a, b)) => p@.len() == 2 && a@ == p@[0] && b@ == p@[1],
            None => p@.len() != 2,
        },
{
    proof {
        reveal_with_fuel(pair_datums, 4);
        reveal_with_fuel(exp_datum, 4);
    }
    match p {
        Pair::Cons(a, t) => {
            proof {
                assert(p@ =~= seq![(**a)@] + (**t)@);
            }
            match &**t {
                Pair::Cons(b, t2) => {
                    proof {
                        assert((**t)@ =~= seq![(**b)@] + (**t2)@);
                        assert(p@[1] == (**b)@);
                    }
                    match &**t2 {
                        Pair::Nil => Some((clone_exp(a), clone_exp(b))),
                        _ => None,
                    }
                },
                Pair::Nil => None,
            }
        },
        Pair::Nil => None,
    }
}

} // verus!
