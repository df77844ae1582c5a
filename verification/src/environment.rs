//! Environments: a chain of variable frames held in a frame arena.
//!
//! A [`Store`] owns every frame an evaluation ever creates; an [`Env`] is
//! the index of the innermost frame of one chain.  Frames refer to their
//! parents by index, always at an earlier position, so several closures
//! can share one frame: a `set!` performed through one of them is seen
//! through every other, which is how mutable lexical state works.
//! `extend_environment` only appends, so existing environments are never
//! disturbed by a call.

use vstd::prelude::*;

verus! {

broadcast use vstd::seq::group_seq_axioms;

use crate::core_of_interpreter::{clone_exp, EvalError, Exp, Pair};
use crate::semantics::{
    all_symbols,
    bound_frame,
    define_in,
    frame_index,
    lemma_frame_index_spec,
    lookup_in,
    set_in,
    Datum,
    FrameV,
};

/// An environment: the index of its innermost frame in the [`Store`].
#[derive(Debug, Clone, Copy, PartialEq, Eq, Structural)]
pub struct Env(pub usize);

impl View for Env {
    type V = int;

    open spec fn view(&self) -> int {
        self.0 as int
    }
}

/// One scope level: its bindings, innermost first, and its parent frame.
#[derive(Debug)]
pub struct Frame {
    pub binds: Vec<(String, Exp)>,
    pub parent: Option<usize>,
}

/// The model of a binding list.
pub open spec fn binds_view(binds: Seq<(String, Exp)>) -> Seq<(Seq<char>, Datum)> {
    binds.map_values(|b: (String, Exp)| (b.0@, b.1@))
}

impl View for Frame {
    type V = FrameV;

    open spec fn view(&self) -> FrameV {
        FrameV {
            binds: binds_view(self.binds@),
            parent: match self.parent {
                Some(p) => Some(p as int),
                None => None,
            },
        }
    }
}

/// The arena of frames.
#[derive(Debug)]
pub struct Store {
    pub frames: Vec<Frame>,
}

impl View for Store {
    type V = Seq<FrameV>;

    open spec fn view(&self) -> Seq<FrameV> {
        self.frames@.map_values(|f: Frame| f@)
    }
}

impl Store {
    /// A fresh arena holding one empty frame: the global environment.
    pub fn new() -> (s: Store)
        ensures
            s@ =~= seq![FrameV { binds: Seq::empty(), parent: None }],
    {
        let mut frames: Vec<Frame> = Vec::new();
        frames.push(Frame { binds: Vec::new(), parent: None });
        let s = Store { frames };
        proof {
            assert(s@ =~= seq![FrameV { binds: binds_view(Seq::empty()), parent: None }]);
            assert(binds_view(Seq::empty()) =~= Seq::<(Seq<char>, Datum)>::empty());
        }
        s
    }

    /// The global environment: the arena's first frame.
    pub fn global_env(&self) -> (e: Env)
        ensures
            e@ == 0,
    {
        Env(0)
    }
}

/// Index of the first binding of `name` in a binding list, if any.
fn scan_frame(binds: &Vec<(String, Exp)>, name: &String) -> (r: Option<usize>)
    ensures
        match r {
            Some(i) => frame_index(binds_view(binds@), name@) == i && i < binds@.len(),
            None => frame_index(binds_view(binds@), name@) < 0,
        },
{
    proof {
        lemma_frame_index_spec(binds_view(binds@), name@);
    }
    let n = binds.len();
    let mut i: usize = 0;
    while i < n
        invariant
            i <= n,
            n == binds@.len(),
            forall|j: int| 0 <= j < i ==> binds_view(binds@)[j].0 != name@,
        decreases n - i,
    {
        if binds[i].0 == *name {
            proof {
                let bv = binds_view(binds@);
                assert(bv[i as int].0 == name@);
                lemma_frame_index_spec(bv, name@);
                let fi = frame_index(bv, name@);
                if fi < 0 {
                    assert(bv[i as int].0 != name@);
                } else if fi < i {
                    assert(bv[fi].0 != name@);
                } else if fi > i {
                    assert(bv[i as int].0 != name@);
                }
            }
            return Some(i);
        }
        i = i + 1;
    }
    None
}

/// The value bound to a name in the chain that starts at `idx`.
fn lookup_frames(store: &Store, idx: usize, name: &String) -> (r: Option<Exp>)
    ensures
        match lookup_in(store@, idx as int, name@) {
            Some(v) => r matches Some(x) && x@ == v,
            None => r is None,
        },
    decreases idx,
{
    if idx >= store.frames.len() {
        return None;
    }
    let fr = &store.frames[idx];
    match scan_frame(&fr.binds, name) {
        Some(i) => Some(clone_exp(&fr.binds[i].1)),
        None => match fr.parent {
            Some(p) => {
                if p < idx {
                    lookup_frames(store, p, name)
                } else {
                    None
                }
            },
            None => None,
        },
    }
}

/// Looks a variable up, innermost frame first, each frame front to back.
/// Fails with `UnboundVariable` when no frame of the chain binds it, and
/// with `TypeMismatch` when the expression is not a symbol.
pub fn lookup_variable_value(exp: &Exp, env: Env, store: &Store) -> (r: Result<Exp, EvalError>)
    ensures
        match exp@ {
            Datum::Symbol(s) => match lookup_in(store@, env@, s) {
                Some(v) => r matches Ok(x) && x@ == v,
                None => r matches Err(e) && e@ == crate::semantics::ErrorV::UnboundVariable(s),
            },
            _ => r matches Err(e) && e@ == crate::semantics::ErrorV::TypeMismatch,
        },
{
    match exp {
        Exp::Symbol(s) => match lookup_frames(store, env.0, s) {
            Some(v) => Ok(v),
            None => Err(EvalError::UnboundVariable(s.clone())),
        },
        _ => Err(EvalError::TypeMismatch),
    }
}

/// Replaces the first binding of `name` along the chain that starts at
/// `idx`; reports whether a binding was found.
fn set_frames(store: &mut Store, idx: usize, name: &String, val: Exp) -> (r: bool)
    ensures
        match set_in(old(store)@, idx as int, name@, val@) {
            Some(st2) => r && final(store)@ == st2,
            None => !r && final(store)@ == old(store)@,
        },
    decreases idx,
{
    if idx >= store.frames.len() {
        return false;
    }
    let found = scan_frame(&store.frames[idx].binds, name);
    match found {
        Some(i) => {
            let fr = &mut store.frames[idx];
            fr.binds[i] = (name.clone(), val);
            proof {
                let target = set_in(old(store)@, idx as int, name@, val@)->Some_0;
                assert(store@[idx as int].binds =~= target[idx as int].binds);
                assert(store@[idx as int] == target[idx as int]);
                assert(store@ =~= target);
            }
            true
        },
        None => {
            let parent = store.frames[idx].parent;
            match parent {
                Some(p) => {
                    if p < idx {
                        set_frames(store, p, name, val)
                    } else {
                        false
                    }
                },
                None => false,
            }
        },
    }
}

/// `set!`: replaces the value of the nearest binding of the variable
/// anywhere along the chain.  Fails with `UnboundVariable` when the chain
/// does not bind it, and with `TypeMismatch` when `var` is not a symbol;
/// on failure the arena is unchanged.
pub fn set_variable_value(var: &Exp, val: Exp, env: Env, store: &mut Store) -> (r: Result<
    (),
    EvalError,
>)
    ensures
        match var@ {
            Datum::Symbol(s) => match set_in(old(store)@, env@, s, val@) {
                Some(st2) => r is Ok && final(store)@ == st2,
                None => r matches Err(e) && e@ == crate::semantics::ErrorV::UnboundVariable(s)
                    && final(store)@ == old(store)@,
            },
            _ => r matches Err(e) && e@ == crate::semantics::ErrorV::TypeMismatch && final(store)@
                == old(store)@,
        },
{
    match var {
        Exp::Symbol(s) => {
            if set_frames(store, env.0, s, val) {
                Ok(())
            } else {
                Err(EvalError::UnboundVariable(s.clone()))
            }
        },
        _ => Err(EvalError::TypeMismatch),
    }
}

/// `define`: binds the variable in the innermost frame alone.  An
/// existing binding there is overwritten; otherwise a new binding is put
/// in front of the frame.  Outer frames are never searched or changed.
/// Fails with `TypeMismatch` when `var` is not a symbol.
pub fn define_variable(var: &Exp, val: Exp, env: Env, store: &mut Store) -> (r: Result<
    (),
    EvalError,
>)
    ensures
        match var@ {
            Datum::Symbol(s) => r is Ok && final(store)@ == define_in(old(store)@, env@, s, val@),
            _ => r matches Err(e) && e@ == crate::semantics::ErrorV::TypeMismatch && final(store)@
                == old(store)@,
        },
{
    let name = match var {
        Exp::Symbol(s) => s,
        _ => {
            return Err(EvalError::TypeMismatch);
        },
    };
    if env.0 >= store.frames.len() {
        // an index from outside this arena: nothing to bind into
        return Ok(());
    }
    let found = scan_frame(&store.frames[env.0].binds, name);
    match found {
        Some(i) => {
            let fr = &mut store.frames[env.0];
            fr.binds[i] = (name.clone(), val);
            proof {
                let target = define_in(old(store)@, env@, name@, val@);
                assert(store@[env.0 as int].binds =~= target[env.0 as int].binds);
                assert(store@[env.0 as int] == target[env.0 as int]);
                assert(store@ =~= target);
            }
        },
        None => {
            let fr = &mut store.frames[env.0];
            fr.binds.insert(0, (name.clone(), val));
            proof {
                let target = define_in(old(store)@, env@, name@, val@);
                assert(store@[env.0 as int].binds =~= target[env.0 as int].binds);
                assert(store@[env.0 as int] == target[env.0 as int]);
                assert(store@ =~= target);
            }
        },
    }
    Ok(())
}

/// Whether two chains have the same length.
fn same_len(p: &Pair, a: &Pair) -> (r: bool)
    ensures
        r == (p@.len() == a@.len()),
    decreases p,
{
    match (p, a) {
        (Pair::Nil, Pair::Nil) => true,
        (Pair::Cons(_, pt), Pair::Cons(_, at_)) => same_len(pt, at_),
        _ => false,
    }
}

/// The bindings of a call frame: each parameter symbol paired with the
/// argument in its position.
pub open spec fn zip_binds_spec(ps: Seq<Datum>, args: Seq<Datum>) -> Seq<(Seq<char>, Datum)> {
    Seq::new(ps.len(), |i: int| (ps[i]->Symbol_0, args[i]))
}

/// Walks parameters and arguments together, appending one binding per
/// parameter; fails on the first parameter that is not a symbol.
fn zip_binds(params: &Pair, args: &Pair, acc: &mut Vec<(String, Exp)>) -> (r: Result<
    (),
    EvalError,
>)
    requires
        params@.len() == args@.len(),
    ensures
        r is Ok <==> all_symbols(params@),
        r is Ok ==> binds_view(final(acc)@) =~= binds_view(old(acc)@) + zip_binds_spec(
            params@,
            args@,
        ),
        r matches Err(e) ==> e@ == crate::semantics::ErrorV::TypeMismatch,
    decreases params,
{
    match (params, args) {
        (Pair::Cons(ph, pt), Pair::Cons(ah, at_)) => {
            let name = match &**ph {
                Exp::Symbol(s) => s.clone(),
                _ => {
                    proof {
                        assert(params@[0] == (**ph)@);
                        assert(!(params@[0] is Symbol));
                    }
                    return Err(EvalError::TypeMismatch);
                },
            };
            let ghost nv = name@;
            let cloned = clone_exp(ah);
            acc.push((name, cloned));
            let ghost mid = acc@;
            let r = zip_binds(pt, at_, acc);
            proof {
                if all_symbols(pt@) {
                    assert forall|i: int| 0 <= i < params@.len() implies params@[i] is Symbol by {
                        if i > 0 {
                            assert(params@[i] == pt@[i - 1]);
                        } else {
                            assert(params@[0] == (**ph)@);
                        }
                    }
                }
                assert(params@.drop_first() =~= pt@);
                assert(args@.drop_first() =~= at_@);
            }
            if r.is_ok() {
                proof {
                    let x = (nv, (**ah)@);
                    assert(params@[0] == (**ph)@);
                    assert(args@[0] == (**ah)@);
                    assert(binds_view(mid) =~= binds_view(old(acc)@) + seq![x]);
                    assert(binds_view(acc@) =~= binds_view(mid) + zip_binds_spec(pt@, at_@));
                    assert(seq![x] + zip_binds_spec(pt@, at_@) =~= zip_binds_spec(
                        params@,
                        args@,
                    ));
                    assert(binds_view(acc@) =~= binds_view(old(acc)@) + zip_binds_spec(
                        params@,
                        args@,
                    ));
                }
            }
            r
        },
        _ => {
            proof {
                assert(all_symbols(params@));
                assert(binds_view(acc@) =~= binds_view(old(acc)@) + zip_binds_spec(
                    params@,
                    args@,
                ));
            }
            Ok(())
        },
    }
}

/// Builds one new frame binding each parameter symbol to the argument in
/// its position, hanging from `base`, and appends it to the arena; the
/// result is the extended environment.  Fails with `ArityMismatch` when
/// the counts differ, and with `TypeMismatch` when the parameters and
/// arguments are not lists or a parameter is not a symbol; on failure the
/// arena is unchanged.
pub fn extend_environment(params: &Exp, args: &Exp, base: Env, store: &mut Store) -> (r: Result<
    Env,
    EvalError,
>)
    ensures
        match (params@, args@) {
            (Datum::List(ps), Datum::List(args_v)) => {
                if ps.len() != args_v.len() {
                    r matches Err(e) && e@ == crate::semantics::ErrorV::ArityMismatch && final(store)@ == old(store)@
                } else if !all_symbols(ps) {
                    r matches Err(e) && e@ == crate::semantics::ErrorV::TypeMismatch && final(store)@ == old(store)@
                } else {
                    &&& r matches Ok(env2) && env2@ == old(store)@.len()
                    &&& final(store)@ == old(store)@ + seq![bound_frame(ps, args_v, base@)]
                }
            },
            _ => r matches Err(e) && e@ == crate::semantics::ErrorV::TypeMismatch && final(store)@
                == old(store)@,
        },
{
    let (pp, ap) = match (params, args) {
        (Exp::List(pp), Exp::List(ap)) => (pp, ap),
        _ => {
            return Err(EvalError::TypeMismatch);
        },
    };
    if !same_len(pp, ap) {
        return Err(EvalError::ArityMismatch);
    }
    let mut binds: Vec<(String, Exp)> = Vec::new();
    match zip_binds(pp, ap, &mut binds) {
        Ok(()) => {
            let new_env = Env(store.frames.len());
            store.frames.push(Frame { binds, parent: Some(base.0) });
            proof {
                assert(store@ =~= old(store)@ + seq![
                    bound_frame(params@->List_0, args@->List_0, base@),
                ]);
                assert(bound_frame(params@->List_0, args@->List_0, base@).binds =~= zip_binds_spec(
                    params@->List_0,
                    args@->List_0,
                ));
            }
            Ok(new_env)
        },
        Err(e) => Err(e),
    }
}

} // verus!
