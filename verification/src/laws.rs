//! General laws of the evaluator, proved once and for all over the
//! model in [`crate::semantics`].

use vstd::prelude::*;

verus! {

broadcast use vstd::seq::group_seq_axioms, vstd::string::group_string_axioms;

use crate::semantics::{
    apply_primitive_spec,
    apply_spec,
    bound_frame,
    define_in,
    eval_assignment_spec,
    eval_definition_spec,
    eval_if_spec,
    eval_sequence_spec,
    eval_spec,
    frame_index,
    is_pair,
    is_primitive_name,
    is_self_evaluating,
    is_tagged,
    lemma_frame_index_spec,
    list_of_values_spec,
    lookup_in,
    set_in,
    spent,
    unspecified,
    Datum,
    ErrorV,
    FrameV,
    Outcome,
};

/// Self-evaluating law: every integer, rational, string and boolean
/// evaluates to itself, in any environment, and leaves the arena alone.
pub proof fn lemma_self_evaluating(d: Datum, env: int, st: Seq<FrameV>, fuel: nat)
    requires
        fuel >= 1,
        is_self_evaluating(d) || d is Bool,
    ensures
        eval_spec(d, env, st, fuel) == (Outcome::Val { v: d, st }),
{
}

/// Quote law: quoted data is returned unevaluated and is never looked up
/// as a variable, so no quoted form can fail with `UnboundVariable`: a
/// pre-quoted atom evaluates to itself, and a list `(quote d)` evaluates
/// to the datum `d` exactly as written, in any environment, leaving the
/// arena alone.
pub proof fn lemma_quote(e: Datum, env: int, st: Seq<FrameV>, fuel: nat)
    requires
        fuel >= 1,
    ensures
        e is Quote ==> eval_spec(e, env, st, fuel) == (Outcome::Val { v: e, st }),
        is_tagged(e, "quote"@) && e->List_0.len() >= 2 ==> eval_spec(e, env, st, fuel)
            == (Outcome::Val { v: e->List_0[1], st }),
{
    if is_tagged(e, "quote"@) {
        let s = e->List_0;
        assert(!crate::semantics::is_number_combination(e)) by {
            assert(crate::semantics::all_number_items(s) ==> (crate::semantics::is_number(s[0])
                || crate::semantics::is_number_combination(s[0])));
        }
    }
}

/// Variable round-trip: after a `define` of `x` in the frame `env`, a
/// lookup of `x` through `env` yields exactly the defined value — whether
/// the frame already bound `x` (the binding is overwritten in place) or
/// not (a new binding is added).
pub proof fn lemma_define_then_lookup(st: Seq<FrameV>, env: int, x: Seq<char>, v: Datum)
    requires
        0 <= env < st.len(),
    ensures
        lookup_in(define_in(st, env, x, v), env, x) == Some(v),
{
    let binds = st[env].binds;
    let i = frame_index(binds, x);
    lemma_frame_index_spec(binds, x);
    let st2 = define_in(st, env, x, v);
    if i >= 0 {
        let binds2 = binds.update(i, (x, v));
        lemma_frame_index_spec(binds2, x);
        let k = frame_index(binds2, x);
        if k < 0 {
            assert(binds2[i].0 == x);
            assert(false);
        }
        if k < i {
            assert(binds2[k].0 == binds[k].0);
            assert(false);
        }
        if k > i {
            assert(binds2[i].0 != x);
            assert(false);
        }
        assert(st2[env].binds == binds2);
        assert(lookup_in(st2, env, x) == Some(binds2[i].1));
    } else {
        let binds2 = seq![(x, v)] + binds;
        assert(binds2[0].0 == x);
        assert(frame_index(binds2, x) == 0);
        assert(st2[env].binds == binds2);
        assert(lookup_in(st2, env, x) == Some(binds2[0].1));
    }
}

/// Variable round-trip at the evaluator: after a `define` of `x`,
/// evaluating the bare symbol `x` in the same environment yields the
/// defined value.  A later `define` of the same name goes through the
/// same law and so overwrites rather than shadows.
pub proof fn lemma_define_round_trip(
    st: Seq<FrameV>,
    env: int,
    x: Seq<char>,
    v: Datum,
    fuel: nat,
)
    requires
        0 <= env < st.len(),
        fuel >= 1,
        !is_primitive_name(x),
    ensures
        eval_spec(Datum::Symbol(x), env, define_in(st, env, x, v), fuel) == (Outcome::Val {
            v,
            st: define_in(st, env, x, v),
        }),
{
    lemma_define_then_lookup(st, env, x, v);
}

/// Scope isolation, part one: the frame that `extend_environment`
/// appends for a call never disturbs the caller: every lookup through an
/// existing environment is unchanged by the extension.
pub proof fn lemma_extend_preserves_lookup(
    st: Seq<FrameV>,
    fr: FrameV,
    env: int,
    name: Seq<char>,
)
    requires
        env < st.len(),
    ensures
        lookup_in(st + seq![fr], env, name) == lookup_in(st, env, name),
    decreases env,
{
    if 0 <= env {
        let st2 = st + seq![fr];
        assert(st2[env] == st[env]);
        match st[env].parent {
            Some(p) => {
                if 0 <= p < env {
                    lemma_extend_preserves_lookup(st, fr, p, name);
                }
            },
            None => {},
        }
    }
}

/// Frames with the same names in the same order are searched alike.
proof fn lemma_frame_index_same_names(
    a: Seq<(Seq<char>, Datum)>,
    b: Seq<(Seq<char>, Datum)>,
    name: Seq<char>,
)
    requires
        a.len() == b.len(),
        forall|k: int| 0 <= k < a.len() ==> a[k].0 == b[k].0,
    ensures
        frame_index(a, name) == frame_index(b, name),
    decreases a.len(),
{
    if a.len() > 0 {
        lemma_frame_index_same_names(a.drop_first(), b.drop_first(), name);
        assert(forall|k: int| 0 <= k < a.len() - 1 ==> a.drop_first()[k].0
            == b.drop_first()[k].0);
    }
}

/// Scope isolation, part two (aliasing): a successful `set!` replaces the
/// value of exactly one binding.  Lookups of every other name, through
/// every environment of the arena, are untouched — and the one changed
/// binding is seen through every chain that reaches its frame, which is
/// how a `set!` performed inside one closure is visible to another that
/// shares the frame.
pub proof fn lemma_set_preserves_other_names(
    st: Seq<FrameV>,
    env: int,
    name: Seq<char>,
    v: Datum,
    env2: int,
    name2: Seq<char>,
)
    requires
        set_in(st, env, name, v) is Some,
        name2 != name,
    ensures
        lookup_in(set_in(st, env, name, v)->Some_0, env2, name2) == lookup_in(st, env2, name2),
{
    let st2 = set_in(st, env, name, v)->Some_0;
    lemma_set_shape(st, env, name, v);
    let f = choose|f: int| #[trigger] modified_at(st, st2, f, name, v);
    assert(modified_at(st, st2, f, name, v));
    let i = frame_index(st[f].binds, name);
    lemma_frame_index_spec(st[f].binds, name);
    assert(st[f].binds[i].0 == name);
    assert forall|k: int| 0 <= k < st.len() implies (#[trigger] st2[k]).parent == st[k].parent
        && st2[k].binds.len() == st[k].binds.len() by {
        if k != f {
            assert(st2[k] == st[k]);
        }
    }
    assert forall|k: int, j: int|
        0 <= k < st.len() && 0 <= j < st[k].binds.len() implies (#[trigger] st2[k].binds[j]).0
        == st[k].binds[j].0 by {
        if k != f {
            assert(st2[k] == st[k]);
        }
    }
    assert forall|k: int, j: int|
        0 <= k < st.len() && 0 <= j < st[k].binds.len() && st[k].binds[j].0 == name2 implies (
    #[trigger] st2[k].binds[j]).1 == st[k].binds[j].1 by {
        if k != f {
            assert(st2[k] == st[k]);
        } else {
            assert(j != i);
        }
    }
    lemma_lookup_same_names(st, st2, env2, name2);
}

/// What a successful `set!` does to the arena: one frame `f` has one
/// binding's value replaced; every other frame is unchanged.
pub open spec fn modified_at(
    st: Seq<FrameV>,
    st2: Seq<FrameV>,
    f: int,
    name: Seq<char>,
    v: Datum,
) -> bool {
    &&& 0 <= f < st.len()
    &&& st2.len() == st.len()
    &&& (forall|k: int| 0 <= k < st.len() && k != f ==> st2[k] == st[k])
    &&& st2[f].parent == st[f].parent
    &&& st2[f].binds.len() == st[f].binds.len()
    &&& (forall|k: int| 0 <= k < st[f].binds.len() ==> st2[f].binds[k].0 == st[f].binds[k].0)
    &&& ({
        let i = frame_index(st[f].binds, name);
        &&& i >= 0
        &&& st2[f].binds == st[f].binds.update(i, (name, v))
    })
}

/// A successful `set!` modifies exactly one frame, as `modified_at` says.
pub proof fn lemma_set_shape(st: Seq<FrameV>, env: int, name: Seq<char>, v: Datum)
    requires
        set_in(st, env, name, v) is Some,
    ensures
        exists|f: int|
            f <= env && #[trigger] modified_at(st, set_in(st, env, name, v)->Some_0, f, name, v),
    decreases env,
{
    let frame = st[env];
    let i = frame_index(frame.binds, name);
    if i >= 0 {
        lemma_frame_index_spec(frame.binds, name);
        let st2 = set_in(st, env, name, v)->Some_0;
        assert(st2 == st.update(env, FrameV { binds: frame.binds.update(i, (name, v)), ..frame }));
        assert(st2[env].binds == frame.binds.update(i, (name, v)));
        assert(forall|k: int| 0 <= k < frame.binds.len() ==> st2[env].binds[k].0
            == frame.binds[k].0);
        assert(modified_at(st, st2, env, name, v));
    } else {
        match frame.parent {
            Some(p) => {
                lemma_set_shape(st, p, name, v);
            },
            None => {},
        }
    }
}

/// Lookups of a name that no changed binding carries go the same way in
/// two arenas that agree on all binding names and on every binding of
/// that name.
proof fn lemma_lookup_same_names(st: Seq<FrameV>, st2: Seq<FrameV>, env: int, name2: Seq<char>)
    requires
        st2.len() == st.len(),
        forall|k: int| 0 <= k < st.len() ==> (#[trigger] st2[k]).parent == st[k].parent,
        forall|k: int| 0 <= k < st.len() ==> (#[trigger] st2[k]).binds.len() == st[k].binds.len(),
        forall|k: int, j: int|
            0 <= k < st.len() && 0 <= j < st[k].binds.len() ==> (#[trigger] st2[k].binds[j]).0
                == st[k].binds[j].0,
        forall|k: int, j: int|
            0 <= k < st.len() && 0 <= j < st[k].binds.len() && st[k].binds[j].0 == name2 ==> (
            #[trigger] st2[k].binds[j]).1 == st[k].binds[j].1,
    ensures
        lookup_in(st2, env, name2) == lookup_in(st, env, name2),
    decreases env,
{
    if 0 <= env < st.len() {
        lemma_frame_index_same_names(st[env].binds, st2[env].binds, name2);
        let i = frame_index(st[env].binds, name2);
        lemma_frame_index_spec(st[env].binds, name2);
        if i >= 0 {
            assert(st[env].binds[i].0 == name2);
            assert(st2[env].binds[i].1 == st[env].binds[i].1);
        } else {
            match st[env].parent {
                Some(p) => {
                    if 0 <= p < env {
                        lemma_lookup_same_names(st, st2, p, name2);
                    }
                },
                None => {},
            }
        }
    }
}

/// Assignment round-trip: after a successful `set!` of `x` through an
/// environment, looking `x` up through that same environment yields
/// exactly the assigned value.
pub proof fn lemma_set_then_lookup(st: Seq<FrameV>, env: int, x: Seq<char>, v: Datum)
    requires
        set_in(st, env, x, v) is Some,
    ensures
        lookup_in(set_in(st, env, x, v)->Some_0, env, x) == Some(v),
    decreases env,
{
    let st2 = set_in(st, env, x, v)->Some_0;
    let binds = st[env].binds;
    let i = frame_index(binds, x);
    lemma_frame_index_spec(binds, x);
    if i >= 0 {
        let binds2 = binds.update(i, (x, v));
        lemma_frame_index_spec(binds2, x);
        let k = frame_index(binds2, x);
        if k < 0 {
            assert(binds2[i].0 == x);
            assert(false);
        }
        if k < i {
            assert(binds2[k].0 == binds[k].0);
            assert(false);
        }
        if k > i {
            assert(binds2[i].0 != x);
            assert(false);
        }
        assert(st2[env].binds == binds2);
        assert(lookup_in(st2, env, x) == Some(binds2[i].1));
    } else {
        match st[env].parent {
            Some(p) => {
                assert(0 <= p < env);
                lemma_set_then_lookup(st, p, x, v);
                lemma_set_shape(st, p, x, v);
                let f = choose|f: int|
                    f <= p && #[trigger] modified_at(st, st2, f, x, v);
                assert(st2[env] == st[env]);
                assert(lookup_in(st2, env, x) == lookup_in(st2, p, x));
            },
            None => {
                assert(false);
            },
        }
    }
}

/// Arity law: a built-in of arity two — the four arithmetic operators,
/// `cons` and `=` — applied to any other number of arguments fails with
/// `ArityMismatch`, never by ignoring arguments; likewise `car`, `cdr`
/// and `null?` with other than one argument.
pub proof fn lemma_primitive_arity(op: Seq<char>, args: Seq<Datum>)
    requires
        (op == "+"@ || op == "-"@ || op == "*"@ || op == "/"@ || op == "cons"@ || op == "="@)
            && args.len() != 2 || (op == "car"@ || op == "cdr"@ || op == "null?"@) && args.len()
            != 1,
    ensures
        apply_primitive_spec(op, args) == Err::<Datum, ErrorV>(ErrorV::ArityMismatch),
{
    reveal_strlit("+");
    reveal_strlit("-");
    reveal_strlit("*");
    reveal_strlit("/");
    reveal_strlit("cons");
    reveal_strlit("=");
    reveal_strlit("car");
    reveal_strlit("cdr");
    reveal_strlit("null?");
    assert("+"@.len() == 1 && "-"@.len() == 1 && "*"@.len() == 1 && "/"@.len() == 1);
    assert("car"@.len() == 3 && "cdr"@.len() == 3 && "cons"@.len() == 4);
    assert("null?"@.len() == 5 && "="@.len() == 1);
    assert("car"@[1] != "cdr"@[1]);
    assert("+"@[0] != "-"@[0] && "+"@[0] != "*"@[0] && "+"@[0] != "/"@[0] && "+"@[0] != "="@[0]);
    assert("-"@[0] != "*"@[0] && "-"@[0] != "/"@[0] && "-"@[0] != "="@[0]);
    assert("*"@[0] != "/"@[0] && "*"@[0] != "="@[0]);
    assert("/"@[0] != "="@[0]);
}

/// `null?` law: on any single value it returns a boolean, true exactly
/// when the value is the empty list.
pub proof fn lemma_null_predicate(v: Datum)
    ensures
        apply_primitive_spec("null?"@, seq![v]) == Ok::<Datum, ErrorV>(
            Datum::Bool(v == Datum::List(Seq::<Datum>::empty())),
        ),
{
    reveal_strlit("+");
    reveal_strlit("-");
    reveal_strlit("*");
    reveal_strlit("/");
    reveal_strlit("car");
    reveal_strlit("cdr");
    reveal_strlit("cons");
    reveal_strlit("null?");
    assert("+"@.len() == 1 && "-"@.len() == 1 && "*"@.len() == 1 && "/"@.len() == 1);
    assert("car"@.len() == 3 && "cdr"@.len() == 3 && "cons"@.len() == 4);
    assert("null?"@.len() == 5);
}

/// `if` with a false predicate and no alternative: no error is reported;
/// the value is the unspecified sentinel, and the arena is as the
/// predicate's evaluation left it.
pub proof fn lemma_if_no_alternative(e: Datum, env: int, st: Seq<FrameV>, fuel: nat)
    requires
        fuel >= 2,
        is_tagged(e, "if"@),
        e->List_0.len() == 3,
        eval_spec(e->List_0[1], env, st, (fuel - 2) as nat) is Val,
        eval_spec(e->List_0[1], env, st, (fuel - 2) as nat)->Val_v != Datum::Bool(true),
    ensures
        eval_spec(e, env, st, fuel) == (Outcome::Val {
            v: unspecified(),
            st: eval_spec(e->List_0[1], env, st, (fuel - 2) as nat)->Val_st,
        }),
{
    reveal_strlit("if");
    reveal_strlit("quote");
    reveal_strlit("set!");
    reveal_strlit("define");
    assert("if"@.len() == 2 && "quote"@.len() == 5 && "set!"@.len() == 4 && "define"@.len() == 6);
    let s = e->List_0;
    assert(!is_self_evaluating(e) && !(e is Bool) && !(e is Symbol) && !(e is Quote));
    assert(s[0] == Datum::Symbol("if"@));
    assert(!crate::semantics::is_number_combination(e)) by {
        assert(crate::semantics::all_number_items(s) ==> (crate::semantics::is_number(s[0])
            || crate::semantics::is_number_combination(s[0])));
    }
    assert(!is_tagged(e, "quote"@) && !is_tagged(e, "set!"@) && !is_tagged(e, "define"@));
    assert(eval_spec(e, env, st, fuel) == eval_if_spec(e, env, st, (fuel - 1) as nat));
    assert(eval_if_spec(e, env, st, (fuel - 1) as nat) == (Outcome::Val {
        v: unspecified(),
        st: eval_spec(s[1], env, st, (fuel - 2) as nat)->Val_st,
    }));
}

// ---------------------------------------------------------------------------
// scope isolation through the whole evaluator

/// The arena after the outcome `o`.
pub open spec fn outcome_store(o: Outcome) -> Seq<FrameV> {
    match o {
        Outcome::Val { v: _, st } => st,
        Outcome::Fail { e: _, st } => st,
        Outcome::OutOfFuel { st } => st,
    }
}

/// How evaluation may change the arena: frames are never removed and an
/// existing frame's parent is never rewired; only new frames are appended
/// and binding lists change.
pub open spec fn frames_preserved(st: Seq<FrameV>, st2: Seq<FrameV>) -> bool {
    &&& st2.len() >= st.len()
    &&& forall|k: int| 0 <= k < st.len() ==> (#[trigger] st2[k]).parent == st[k].parent
}

proof fn lemma_frames_preserved_trans(a: Seq<FrameV>, b: Seq<FrameV>, c: Seq<FrameV>)
    requires
        frames_preserved(a, b),
        frames_preserved(b, c),
    ensures
        frames_preserved(a, c),
{
    assert forall|k: int| 0 <= k < a.len() implies (#[trigger] c[k]).parent == a[k].parent by {
        assert(b[k].parent == a[k].parent);
    }
}

proof fn lemma_set_in_preserves_frames(st: Seq<FrameV>, env: int, name: Seq<char>, v: Datum)
    requires
        set_in(st, env, name, v) is Some,
    ensures
        frames_preserved(st, set_in(st, env, name, v)->Some_0),
{
    lemma_set_shape(st, env, name, v);
    let st2 = set_in(st, env, name, v)->Some_0;
    let f = choose|f: int| f <= env && #[trigger] modified_at(st, st2, f, name, v);
    assert forall|k: int| 0 <= k < st.len() implies (#[trigger] st2[k]).parent == st[k].parent by {
        if k != f {
            assert(st2[k] == st[k]);
        }
    }
}

proof fn lemma_define_in_preserves_frames(st: Seq<FrameV>, env: int, name: Seq<char>, v: Datum)
    ensures
        frames_preserved(st, define_in(st, env, name, v)),
{
}

/// Scope isolation through the evaluator, structural half: whatever an
/// evaluation does — any expression, any environment, any fuel — the
/// arena it leaves behind holds every frame it started with, with its
/// parent pointer untouched.  New frames are only appended; combined with
/// [`lemma_lookup_below`], no chain that existed before the evaluation
/// can reach them, so a call's parameter frame never leaks into its
/// caller.  What evaluation can do to a pre-existing frame is confined to
/// its bindings, through `define` and `set!` alone, whose effects
/// [`lemma_set_shape`] and `define_in` pin down.
pub proof fn lemma_eval_preserves_frames(e: Datum, env: int, st: Seq<FrameV>, fuel: nat)
    ensures
        frames_preserved(st, outcome_store(eval_spec(e, env, st, fuel))),
    decreases fuel, 2int,
{
    if fuel == 0 {
    } else {
        let f2 = spent(fuel);
        if is_self_evaluating(e) || e is Bool {
        } else if crate::semantics::is_number_combination(e) {
        } else if e is Symbol {
        } else if e is Quote {
        } else if is_tagged(e, "quote"@) {
        } else if is_tagged(e, "set!"@) {
            lemma_assignment_preserves_frames(e, env, st, f2);
        } else if is_tagged(e, "define"@) {
            lemma_definition_preserves_frames(e, env, st, f2);
        } else if is_tagged(e, "if"@) {
            lemma_if_preserves_frames(e, env, st, f2);
        } else if is_tagged(e, "lambda"@) {
        } else if is_tagged(e, "begin"@) {
            lemma_sequence_preserves_frames(e->List_0.drop_first(), env, st, f2);
        } else if is_pair(e) {
            let s = e->List_0;
            lemma_eval_preserves_frames(s[0], env, st, f2);
            match eval_spec(s[0], env, st, f2) {
                Outcome::Val { v: p, st: st1 } => {
                    lemma_list_of_values_preserves_frames(s.drop_first(), env, st1, f2);
                    match list_of_values_spec(s.drop_first(), env, st1, f2) {
                        Outcome::Val { v: argl, st: st2 } => {
                            lemma_apply_preserves_frames(p, argl->List_0, st2, f2);
                            lemma_frames_preserved_trans(
                                st,
                                st1,
                                st2,
                            );
                            lemma_frames_preserved_trans(
                                st,
                                st2,
                                outcome_store(apply_spec(p, argl->List_0, st2, f2)),
                            );
                        },
                        _ => {
                            lemma_frames_preserved_trans(
                                st,
                                st1,
                                outcome_store(list_of_values_spec(s.drop_first(), env, st1, f2)),
                            );
                        },
                    }
                },
                _ => {},
            }
        } else {
        }
    }
}

proof fn lemma_apply_preserves_frames(p: Datum, args: Seq<Datum>, st: Seq<FrameV>, fuel: nat)
    ensures
        frames_preserved(st, outcome_store(apply_spec(p, args, st, fuel))),
    decreases fuel, 1int,
{
    if fuel == 0 {
    } else if is_tagged(p, "primitive"@) && p->List_0.len() == 2 && p->List_0[1] is Symbol
        && is_primitive_name(p->List_0[1]->Symbol_0) {
    } else if is_tagged(p, "procedure"@) && p->List_0.len() == 4 && p->List_0[1] is List
        && p->List_0[2] is List && p->List_0[3] is Integer {
        let params = p->List_0[1]->List_0;
        let body = p->List_0[2]->List_0;
        let cap = p->List_0[3]->Integer_0;
        if 0 <= cap < st.len() && params.len() == args.len()
            && crate::semantics::all_symbols(params) {
            let st1 = st + seq![bound_frame(params, args, cap)];
            lemma_sequence_preserves_frames(body, st.len() as int, st1, spent(fuel));
            lemma_frames_preserved_trans(
                st,
                st1,
                outcome_store(eval_sequence_spec(body, st.len() as int, st1, spent(fuel))),
            );
        }
    } else {
    }
}

proof fn lemma_sequence_preserves_frames(exps: Seq<Datum>, env: int, st: Seq<FrameV>, fuel: nat)
    ensures
        frames_preserved(st, outcome_store(eval_sequence_spec(exps, env, st, fuel))),
    decreases fuel, 0int,
{
    if fuel == 0 {
    } else if exps.len() == 0 {
    } else if exps.len() == 1 {
        lemma_eval_preserves_frames(exps[0], env, st, spent(fuel));
    } else {
        lemma_eval_preserves_frames(exps[0], env, st, spent(fuel));
        match eval_spec(exps[0], env, st, spent(fuel)) {
            Outcome::Val { v: _, st: st1 } => {
                lemma_sequence_preserves_frames(exps.drop_first(), env, st1, spent(fuel));
                lemma_frames_preserved_trans(
                    st,
                    st1,
                    outcome_store(eval_sequence_spec(exps.drop_first(), env, st1, spent(fuel))),
                );
            },
            _ => {},
        }
    }
}

proof fn lemma_list_of_values_preserves_frames(
    exps: Seq<Datum>,
    env: int,
    st: Seq<FrameV>,
    fuel: nat,
)
    ensures
        frames_preserved(st, outcome_store(list_of_values_spec(exps, env, st, fuel))),
    decreases fuel, 0int,
{
    if fuel == 0 {
    } else if exps.len() == 0 {
    } else {
        lemma_eval_preserves_frames(exps[0], env, st, spent(fuel));
        match eval_spec(exps[0], env, st, spent(fuel)) {
            Outcome::Val { v: _, st: st1 } => {
                lemma_list_of_values_preserves_frames(exps.drop_first(), env, st1, spent(fuel));
                lemma_frames_preserved_trans(
                    st,
                    st1,
                    outcome_store(list_of_values_spec(exps.drop_first(), env, st1, spent(fuel))),
                );
            },
            _ => {},
        }
    }
}

proof fn lemma_if_preserves_frames(e: Datum, env: int, st: Seq<FrameV>, fuel: nat)
    ensures
        frames_preserved(st, outcome_store(eval_if_spec(e, env, st, fuel))),
    decreases fuel, 0int,
{
    if fuel == 0 {
    } else {
        let s = e->List_0;
        if s.len() >= 2 {
            lemma_eval_preserves_frames(s[1], env, st, spent(fuel));
            match eval_spec(s[1], env, st, spent(fuel)) {
                Outcome::Val { v, st: st1 } => {
                    if v == Datum::Bool(true) {
                        if s.len() >= 3 {
                            lemma_eval_preserves_frames(s[2], env, st1, spent(fuel));
                            lemma_frames_preserved_trans(
                                st,
                                st1,
                                outcome_store(eval_spec(s[2], env, st1, spent(fuel))),
                            );
                        }
                    } else {
                        if s.len() >= 4 {
                            lemma_eval_preserves_frames(s[3], env, st1, spent(fuel));
                            lemma_frames_preserved_trans(
                                st,
                                st1,
                                outcome_store(eval_spec(s[3], env, st1, spent(fuel))),
                            );
                        }
                    }
                },
                _ => {},
            }
        }
    }
}

proof fn lemma_assignment_preserves_frames(e: Datum, env: int, st: Seq<FrameV>, fuel: nat)
    ensures
        frames_preserved(st, outcome_store(eval_assignment_spec(e, env, st, fuel))),
    decreases fuel, 0int,
{
    if fuel == 0 {
    } else {
        let s = e->List_0;
        if s.len() >= 3 && s[1] is Symbol {
            let name = s[1]->Symbol_0;
            lemma_eval_preserves_frames(s[2], env, st, spent(fuel));
            match eval_spec(s[2], env, st, spent(fuel)) {
                Outcome::Val { v, st: st1 } => {
                    match set_in(st1, env, name, v) {
                        Some(st2) => {
                            lemma_set_in_preserves_frames(st1, env, name, v);
                            lemma_frames_preserved_trans(st, st1, st2);
                        },
                        None => {},
                    }
                },
                _ => {},
            }
        }
    }
}

proof fn lemma_definition_preserves_frames(e: Datum, env: int, st: Seq<FrameV>, fuel: nat)
    ensures
        frames_preserved(st, outcome_store(eval_definition_spec(e, env, st, fuel))),
    decreases fuel, 0int,
{
    if fuel == 0 {
    } else {
        let s = e->List_0;
        if s.len() >= 3 && s[1] is Symbol {
            let name = s[1]->Symbol_0;
            lemma_eval_preserves_frames(s[2], env, st, spent(fuel));
            match eval_spec(s[2], env, st, spent(fuel)) {
                Outcome::Val { v, st: st1 } => {
                    lemma_define_in_preserves_frames(st1, env, name, v);
                    lemma_frames_preserved_trans(st, st1, define_in(st1, env, name, v));
                },
                _ => {},
            }
        }
    }
}

/// Scope isolation through the evaluator, reachability half: a lookup
/// through an environment consults only the frames at or below its own
/// index, so two arenas that agree up to that index agree on the lookup.
/// In particular the frames an evaluation appends — every call's
/// parameter frame — are invisible to any environment that existed
/// before it.
pub proof fn lemma_lookup_below(st: Seq<FrameV>, st2: Seq<FrameV>, env: int, name: Seq<char>)
    requires
        env < st.len(),
        env < st2.len(),
        forall|k: int| 0 <= k <= env ==> st2[k] == st[k],
    ensures
        lookup_in(st2, env, name) == lookup_in(st, env, name),
    decreases env,
{
    if 0 <= env {
        assert(st2[env] == st[env]);
        match st[env].parent {
            Some(p) => {
                if 0 <= p < env {
                    lemma_lookup_below(st, st2, p, name);
                }
            },
            None => {},
        }
    }
}

} // verus!