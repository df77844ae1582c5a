//! The mathematical model of the language.
//!
//! Everything here is specification code: a ghost mirror of the expression
//! tree ([`Datum`]), of the frame arena ([`FrameV`]), and a fuel-bounded
//! big-step interpreter ([`eval_spec`] and its companions) that defines
//! what evaluation returns and how it changes the arena.  The executable
//! evaluator is verified to agree with these functions exactly.
//!
//! Frames refer to their parents by index into the arena.  The library
//! only ever builds chains whose parent indices point at earlier frames;
//! the model is nevertheless total, and treats an index that points
//! forwards or out of range as the end of the chain.

use vstd::prelude::*;

verus! {

broadcast use vstd::seq::group_seq_axioms;

use crate::number::{Q, q_add, q_sub, q_mul, q_div, q_fits};

/// Ghost mirror of an expression or runtime value.
#[verifier::ext_equal]
pub ghost enum Datum {
    Integer(int),
    FloatNumber(Q),
    Symbol(Seq<char>),
    Quote(Seq<char>),
    SchemeString(Seq<char>),
    Bool(bool),
    List(Seq<Datum>),
}

/// Ghost mirror of an evaluation error.
#[verifier::ext_equal]
pub ghost enum ErrorV {
    UnboundVariable(Seq<char>),
    UnrecognizedExpression,
    UnapplicableObject,
    TypeMismatch,
    ArityMismatch,
    DivideByZero,
    NumericOverflow,
    RecursionLimit,
}

/// Ghost mirror of one environment frame: its bindings, innermost first,
/// and the index of its parent frame in the arena, if any.
#[verifier::ext_equal]
pub ghost struct FrameV {
    pub binds: Seq<(Seq<char>, Datum)>,
    pub parent: Option<int>,
}

/// What one evaluation step yields: a value, an error, or exhaustion of
/// the recursion-depth fuel; in every case, the arena it leaves behind.
#[verifier::ext_equal]
pub ghost enum Outcome {
    Val { v: Datum, st: Seq<FrameV> },
    Fail { e: ErrorV, st: Seq<FrameV> },
    OutOfFuel { st: Seq<FrameV> },
}

// ---------------------------------------------------------------------------
// classification of datums

pub open spec fn is_number(d: Datum) -> bool {
    d is Integer || d is FloatNumber
}

pub open spec fn is_string(d: Datum) -> bool {
    d is SchemeString
}

pub open spec fn is_symbol(d: Datum) -> bool {
    d is Symbol
}

pub open spec fn is_quoted(d: Datum) -> bool {
    d is Quote
}

/// Numbers and strings evaluate to themselves.
pub open spec fn is_self_evaluating(d: Datum) -> bool {
    is_number(d) || is_string(d)
}

/// A pair: a list with at least one element.
pub open spec fn is_pair(d: Datum) -> bool {
    d matches Datum::List(s) && s.len() > 0
}

/// A list (possibly empty) each of whose elements is a number or again
/// such a list.  These are plain data and evaluate to themselves.
pub open spec fn is_number_combination(d: Datum) -> bool
    decreases d,
{
    match d {
        Datum::List(s) => all_number_items(s),
        _ => false,
    }
}

pub open spec fn all_number_items(s: Seq<Datum>) -> bool
    decreases s,
{
    if s.len() == 0 {
        true
    } else {
        (is_number(s[0]) || is_number_combination(s[0])) && all_number_items(s.drop_first())
    }
}

/// A proper list whose first element is the given symbol.
pub open spec fn is_tagged(d: Datum, tag: Seq<char>) -> bool {
    d matches Datum::List(s) && s.len() > 0 && s[0] == Datum::Symbol(tag)
}

/// The names of the built-in procedures.
pub open spec fn is_primitive_name(s: Seq<char>) -> bool {
    ||| s == "+"@
    ||| s == "-"@
    ||| s == "*"@
    ||| s == "/"@
    ||| s == "car"@
    ||| s == "cdr"@
    ||| s == "cons"@
    ||| s == "null?"@
    ||| s == "="@
}

/// The value a primitive name evaluates to: a list tagged `primitive`.
pub open spec fn primitive_value(s: Seq<char>) -> Datum {
    Datum::List(seq![Datum::Symbol("primitive"@), Datum::Symbol(s)])
}

/// The value an `if` with a false predicate and no alternative yields.
pub open spec fn unspecified() -> Datum {
    Datum::Quote("unspecified"@)
}

/// The numeric reading of a datum: integers are promoted to rationals.
pub open spec fn as_rational(d: Datum) -> Option<Q> {
    match d {
        Datum::Integer(i) => Some(Q { num: i, den: 1 }),
        Datum::FloatNumber(q) => Some(q),
        _ => None,
    }
}

/// The closure built by `lambda` or by the procedure-definition shorthand:
/// a list tagged `procedure`, holding the parameter list, the body
/// sequence, and the index of the captured environment's frame.
pub open spec fn make_closure(params: Datum, body: Seq<Datum>, env: int) -> Datum {
    Datum::List(
        seq![
            Datum::Symbol("procedure"@),
            params,
            Datum::List(body),
            Datum::Integer(env),
        ],
    )
}

// ---------------------------------------------------------------------------
// frames and the arena

/// Index of the first binding of `name` in a frame, or -1.
pub open spec fn frame_index(binds: Seq<(Seq<char>, Datum)>, name: Seq<char>) -> int
    decreases binds.len(),
{
    if binds.len() == 0 {
        -1
    } else if binds[0].0 == name {
        0
    } else {
        let r = frame_index(binds.drop_first(), name);
        if r < 0 {
            -1
        } else {
            r + 1
        }
    }
}

/// `frame_index` finds exactly the first binding of `name`.
pub proof fn lemma_frame_index_spec(binds: Seq<(Seq<char>, Datum)>, name: Seq<char>)
    ensures
        frame_index(binds, name) >= 0 ==> {
            let i = frame_index(binds, name);
            &&& i < binds.len()
            &&& binds[i].0 == name
            &&& forall|j: int| 0 <= j < i ==> binds[j].0 != name
        },
        frame_index(binds, name) < 0 ==> forall|j: int|
            0 <= j < binds.len() ==> binds[j].0 != name,
    decreases binds.len(),
{
    if binds.len() > 0 && binds[0].0 != name {
        let t = binds.drop_first();
        lemma_frame_index_spec(t, name);
        assert(forall|j: int| 1 <= j < binds.len() ==> binds[j] == t[j - 1]);
        if frame_index(t, name) >= 0 {
            let i = frame_index(binds, name);
            assert(i == frame_index(t, name) + 1);
            assert(binds[i] == t[i - 1]);
        }
    }
}

/// The value bound to `name` in the chain that starts at frame `env`:
/// frames are searched innermost first, each frame front to back.
pub open spec fn lookup_in(st: Seq<FrameV>, env: int, name: Seq<char>) -> Option<Datum>
    decreases env,
{
    if !(0 <= env < st.len()) {
        None
    } else {
        let binds = st[env].binds;
        let i = frame_index(binds, name);
        if i >= 0 {
            Some(binds[i].1)
        } else {
            match st[env].parent {
                Some(p) => if 0 <= p < env {
                    lookup_in(st, p, name)
                } else {
                    None
                },
                None => None,
            }
        }
    }
}

/// The arena after `set!` of `name` to `v` through frame `env`: the first
/// binding of `name` along the chain is replaced; `None` when the chain
/// does not bind `name`.
pub open spec fn set_in(st: Seq<FrameV>, env: int, name: Seq<char>, v: Datum) -> Option<
    Seq<FrameV>,
>
    decreases env,
{
    if !(0 <= env < st.len()) {
        None
    } else {
        let frame = st[env];
        let i = frame_index(frame.binds, name);
        if i >= 0 {
            Some(st.update(env, FrameV { binds: frame.binds.update(i, (name, v)), ..frame }))
        } else {
            match frame.parent {
                Some(p) => if 0 <= p < env {
                    set_in(st, p, name, v)
                } else {
                    None
                },
                None => None,
            }
        }
    }
}

/// The arena after `define` of `name` as `v` in frame `env` alone: an
/// existing binding there is overwritten, otherwise a new binding is put
/// in front.  Outer frames are never touched.
pub open spec fn define_in(st: Seq<FrameV>, env: int, name: Seq<char>, v: Datum) -> Seq<FrameV> {
    if !(0 <= env < st.len()) {
        st
    } else {
        let frame = st[env];
        let i = frame_index(frame.binds, name);
        if i >= 0 {
            st.update(env, FrameV { binds: frame.binds.update(i, (name, v)), ..frame })
        } else {
            st.update(env, FrameV { binds: seq![(name, v)] + frame.binds, ..frame })
        }
    }
}

/// Whether every element of `params` is a symbol.
pub open spec fn all_symbols(params: Seq<Datum>) -> bool {
    forall|i: int| 0 <= i < params.len() ==> params[i] is Symbol
}

/// The frame that binds each parameter to the argument in its position,
/// hanging from parent `env`.
pub open spec fn bound_frame(params: Seq<Datum>, args: Seq<Datum>, env: int) -> FrameV
    recommends
        all_symbols(params),
        params.len() == args.len(),
{
    FrameV {
        binds: Seq::new(params.len(), |i: int| (params[i]->Symbol_0, args[i])),
        parent: Some(env),
    }
}

// ---------------------------------------------------------------------------
// the big-step interpreter

/// Recursion fuel: each step of the engine spends one unit before it
/// recurses, so the fuel bounds the depth of the evaluation tree.
pub open spec fn spent(fuel: nat) -> nat
    recommends
        fuel >= 1,
{
    (fuel - 1) as nat
}

/// What the built-in named `op` returns on `args`, or the error it
/// reports.  Arity is validated first; arithmetic promotes to exact
/// rationals and reports overflow when a reduced result does not fit the
/// 64-bit representation.
pub open spec fn apply_primitive_spec(op: Seq<char>, args: Seq<Datum>) -> Result<Datum, ErrorV> {
    if op == "+"@ || op == "-"@ || op == "*"@ || op == "/"@ {
        if args.len() != 2 {
            Err(ErrorV::ArityMismatch)
        } else {
            match (as_rational(args[0]), as_rational(args[1])) {
                (Some(a), Some(b)) => {
                    if op == "/"@ && b.num == 0 {
                        Err(ErrorV::DivideByZero)
                    } else {
                        let q = if op == "+"@ {
                            q_add(a, b)
                        } else if op == "-"@ {
                            q_sub(a, b)
                        } else if op == "*"@ {
                            q_mul(a, b)
                        } else {
                            q_div(a, b)
                        };
                        if q_fits(q) {
                            Ok(Datum::FloatNumber(q))
                        } else {
                            Err(ErrorV::NumericOverflow)
                        }
                    }
                },
                _ => Err(ErrorV::TypeMismatch),
            }
        }
    } else if op == "car"@ {
        if args.len() != 1 {
            Err(ErrorV::ArityMismatch)
        } else if args[0] matches Datum::List(s) && s.len() > 0 {
            Ok(args[0]->List_0[0])
        } else {
            Err(ErrorV::TypeMismatch)
        }
    } else if op == "cdr"@ {
        if args.len() != 1 {
            Err(ErrorV::ArityMismatch)
        } else if args[0] matches Datum::List(s) && s.len() > 0 {
            Ok(Datum::List(args[0]->List_0.drop_first()))
        } else {
            Err(ErrorV::TypeMismatch)
        }
    } else if op == "cons"@ {
        if args.len() != 2 {
            Err(ErrorV::ArityMismatch)
        } else {
            match args[1] {
                Datum::List(t) => Ok(Datum::List(seq![args[0]] + t)),
                _ => Ok(Datum::List(seq![args[0], args[1]])),
            }
        }
    } else if op == "null?"@ {
        if args.len() != 1 {
            Err(ErrorV::ArityMismatch)
        } else {
            Ok(Datum::Bool(args[0] == Datum::List(Seq::<Datum>::empty())))
        }
    } else if op == "="@ {
        if args.len() != 2 {
            Err(ErrorV::ArityMismatch)
        } else {
            Ok(Datum::Bool(args[0] == args[1]))
        }
    } else {
        Err(ErrorV::UnapplicableObject)
    }
}

/// The meaning of evaluating `e` in the environment whose innermost frame
/// has index `env`, over the arena `st`, with the given fuel.
pub open spec fn eval_spec(e: Datum, env: int, st: Seq<FrameV>, fuel: nat) -> Outcome
    decreases fuel,
{
    if fuel == 0 {
        Outcome::OutOfFuel { st }
    } else if is_self_evaluating(e) || e is Bool {
        Outcome::Val { v: e, st }
    } else if is_number_combination(e) {
        Outcome::Val { v: e, st }
    } else if e is Symbol {
        let s = e->Symbol_0;
        if is_primitive_name(s) {
            Outcome::Val { v: primitive_value(s), st }
        } else {
            match lookup_in(st, env, s) {
                Some(v) => Outcome::Val { v, st },
                None => Outcome::Fail { e: ErrorV::UnboundVariable(s), st },
            }
        }
    } else if e is Quote {
        Outcome::Val { v: e, st }
    } else if is_tagged(e, "quote"@) {
        let s = e->List_0;
        if s.len() < 2 {
            Outcome::Fail { e: ErrorV::TypeMismatch, st }
        } else {
            // the quoted datum, returned unevaluated
            Outcome::Val { v: s[1], st }
        }
    } else if is_tagged(e, "set!"@) {
        eval_assignment_spec(e, env, st, spent(fuel))
    } else if is_tagged(e, "define"@) {
        eval_definition_spec(e, env, st, spent(fuel))
    } else if is_tagged(e, "if"@) {
        eval_if_spec(e, env, st, spent(fuel))
    } else if is_tagged(e, "lambda"@) {
        let s = e->List_0;
        if s.len() < 2 || env > i64::MAX {
            // a captured frame index must fit the closure's Integer slot
            Outcome::Fail { e: ErrorV::TypeMismatch, st }
        } else {
            Outcome::Val { v: make_closure(s[1], s.subrange(2, s.len() as int), env), st }
        }
    } else if is_tagged(e, "begin"@) {
        eval_sequence_spec(e->List_0.drop_first(), env, st, spent(fuel))
    } else if is_pair(e) {
        let s = e->List_0;
        match eval_spec(s[0], env, st, spent(fuel)) {
            Outcome::Val { v: p, st: st1 } => match list_of_values_spec(
                s.drop_first(),
                env,
                st1,
                spent(fuel),
            ) {
                Outcome::Val { v: argl, st: st2 } => apply_spec(
                    p,
                    argl->List_0,
                    st2,
                    spent(fuel),
                ),
                other => other,
            },
            other => other,
        }
    } else {
        Outcome::Fail { e: ErrorV::UnrecognizedExpression, st }
    }
}

/// Applying a procedure value: a primitive dispatches to its table entry;
/// a closure extends its captured environment with its parameters bound
/// to the arguments and evaluates its body there; anything else is not
/// applicable.
pub open spec fn apply_spec(p: Datum, args: Seq<Datum>, st: Seq<FrameV>, fuel: nat) -> Outcome
    decreases fuel,
{
    if fuel == 0 {
        Outcome::OutOfFuel { st }
    } else if is_tagged(p, "primitive"@) && p->List_0.len() == 2 && p->List_0[1] is Symbol
        && is_primitive_name(p->List_0[1]->Symbol_0) {
        match apply_primitive_spec(p->List_0[1]->Symbol_0, args) {
            Ok(v) => Outcome::Val { v, st },
            Err(e) => Outcome::Fail { e, st },
        }
    } else if is_tagged(p, "procedure"@) && p->List_0.len() == 4 && p->List_0[1] is List
        && p->List_0[2] is List && p->List_0[3] is Integer {
        let params = p->List_0[1]->List_0;
        let body = p->List_0[2]->List_0;
        let cap = p->List_0[3]->Integer_0;
        if !(0 <= cap < st.len()) {
            Outcome::Fail { e: ErrorV::UnapplicableObject, st }
        } else if params.len() != args.len() {
            Outcome::Fail { e: ErrorV::ArityMismatch, st }
        } else if !all_symbols(params) {
            Outcome::Fail { e: ErrorV::TypeMismatch, st }
        } else {
            let st1 = st + seq![bound_frame(params, args, cap)];
            eval_sequence_spec(body, st.len() as int, st1, spent(fuel))
        }
    } else {
        Outcome::Fail { e: ErrorV::UnapplicableObject, st }
    }
}

/// Evaluating the expressions of a body in order, in one environment:
/// the value is the last expression's; an empty body is an error.
pub open spec fn eval_sequence_spec(exps: Seq<Datum>, env: int, st: Seq<FrameV>, fuel: nat) -> Outcome
    decreases fuel,
{
    if fuel == 0 {
        Outcome::OutOfFuel { st }
    } else if exps.len() == 0 {
        Outcome::Fail { e: ErrorV::UnrecognizedExpression, st }
    } else if exps.len() == 1 {
        eval_spec(exps[0], env, st, spent(fuel))
    } else {
        match eval_spec(exps[0], env, st, spent(fuel)) {
            Outcome::Val { v: _, st: st1 } => eval_sequence_spec(
                exps.drop_first(),
                env,
                st1,
                spent(fuel),
            ),
            other => other,
        }
    }
}

/// Evaluating operands left to right; the value is the list of their
/// values.
pub open spec fn list_of_values_spec(exps: Seq<Datum>, env: int, st: Seq<FrameV>, fuel: nat) -> Outcome
    decreases fuel,
{
    if fuel == 0 {
        Outcome::OutOfFuel { st }
    } else if exps.len() == 0 {
        Outcome::Val { v: Datum::List(Seq::empty()), st }
    } else {
        match eval_spec(exps[0], env, st, spent(fuel)) {
            Outcome::Val { v, st: st1 } => match list_of_values_spec(
                exps.drop_first(),
                env,
                st1,
                spent(fuel),
            ) {
                Outcome::Val { v: rest, st: st2 } => Outcome::Val {
                    v: Datum::List(seq![v] + rest->List_0),
                    st: st2,
                },
                other => other,
            },
            other => other,
        }
    }
}

/// An `if`: the predicate first; exactly the value `true` selects the
/// consequent, anything else the alternative; with no alternative the
/// unspecified sentinel is the value.
pub open spec fn eval_if_spec(e: Datum, env: int, st: Seq<FrameV>, fuel: nat) -> Outcome
    decreases fuel,
{
    if fuel == 0 {
        Outcome::OutOfFuel { st }
    } else {
        let s = e->List_0;
        if s.len() < 2 {
            Outcome::Fail { e: ErrorV::TypeMismatch, st }
        } else {
            match eval_spec(s[1], env, st, spent(fuel)) {
                Outcome::Val { v, st: st1 } => {
                    if v == Datum::Bool(true) {
                        if s.len() < 3 {
                            Outcome::Fail { e: ErrorV::TypeMismatch, st: st1 }
                        } else {
                            eval_spec(s[2], env, st1, spent(fuel))
                        }
                    } else {
                        if s.len() < 4 {
                            Outcome::Val { v: unspecified(), st: st1 }
                        } else {
                            eval_spec(s[3], env, st1, spent(fuel))
                        }
                    }
                },
                other => other,
            }
        }
    }
}

/// A `set!`: the value expression is evaluated, then the nearest binding
/// of the variable anywhere along the chain is replaced; the value of the
/// whole form is the assigned value.
pub open spec fn eval_assignment_spec(e: Datum, env: int, st: Seq<FrameV>, fuel: nat) -> Outcome
    decreases fuel,
{
    if fuel == 0 {
        Outcome::OutOfFuel { st }
    } else {
        let s = e->List_0;
        if s.len() < 3 || !(s[1] is Symbol) {
            Outcome::Fail { e: ErrorV::TypeMismatch, st }
        } else {
            let name = s[1]->Symbol_0;
            match eval_spec(s[2], env, st, spent(fuel)) {
                Outcome::Val { v, st: st1 } => match set_in(st1, env, name, v) {
                    Some(st2) => Outcome::Val { v, st: st2 },
                    None => Outcome::Fail { e: ErrorV::UnboundVariable(name), st: st1 },
                },
                other => other,
            }
        }
    }
}

/// A `define`: the plain form evaluates its value expression and binds
/// the variable in the innermost frame alone; the shorthand
/// `(define (f p...) body...)` builds a closure over the current
/// environment and binds it to `f` the same way.  The value of the whole
/// form is the bound value.
pub open spec fn eval_definition_spec(e: Datum, env: int, st: Seq<FrameV>, fuel: nat) -> Outcome
    decreases fuel,
{
    if fuel == 0 {
        Outcome::OutOfFuel { st }
    } else {
        let s = e->List_0;
        if s.len() >= 3 && s[1] is Symbol {
            let name = s[1]->Symbol_0;
            match eval_spec(s[2], env, st, spent(fuel)) {
                Outcome::Val { v, st: st1 } => Outcome::Val {
                    v,
                    st: define_in(st1, env, name, v),
                },
                other => other,
            }
        } else if s.len() >= 2 && is_pair(s[1]) && s[1]->List_0[0] is Symbol {
            if env > i64::MAX {
                // a captured frame index must fit the closure's Integer slot
                Outcome::Fail { e: ErrorV::TypeMismatch, st }
            } else {
                let name = s[1]->List_0[0]->Symbol_0;
                let v = make_closure(
                    Datum::List(s[1]->List_0.drop_first()),
                    s.subrange(2, s.len() as int),
                    env,
                );
                Outcome::Val { v, st: define_in(st, env, name, v) }
            }
        } else {
            Outcome::Fail { e: ErrorV::TypeMismatch, st }
        }
    }
}

} // verus!
