//! Bidirectional type checker for the core calculus, using normalization by
//! evaluation for conversion checking.
use vstd::prelude::*;
use crate::term::{
    Term, MatchArm, Value, NeutralHead, Closure, Env, Name, DbIndex, DbLevel, STerm, SArm, SValue, SHead,
    SClosure, SNeutral, neutral_value, values_view, lemma_values_view_push, opt_term_view, arms_view, arm_view,
};
use crate::env::{GlobalEnv, SGlobals, SDefinition, def_type};
use crate::eval::{
    eval, eval_closure, quote, conv_check, eval_value, closure_value, quote_term, convertible,
    opt_value_view, normal_form, eval_f, app_f, closure_f, match_f, quote_f, quote_args_f, quote_neutral_f,
    quote_spine_f, quote_elim_f, quote_arms_f, quote_arm_f, head_term, EVAL_FUEL,
};
use crate::show::{term_text, write_term};
use crate::debug::{value_debug, value_debug_text};
use crate::text::{push_str, push_decimal, decimal};

verus! {

/// Typing context: the names and types (as values) of the bound variables,
/// the most recently bound last.
#[derive(Debug)]
pub struct TypeCtx {
    types: Vec<(Name, Value)>,
    lvl: DbLevel,
}

/// A context as seen by the specifications.
pub type SCtx = Seq<(Seq<char>, SValue)>;

/// The environment that maps each level below `n` to the variable at that level.
pub open spec fn level_env(n: nat) -> Seq<SValue> {
    Seq::new(n, |l: int| neutral_value(SHead::Var(l as usize)))
}

impl View for TypeCtx {
    type V = SCtx;

    closed spec fn view(&self) -> SCtx {
        self.types@.map_values(|b: (Name, Value)| (b.0@, b.1@))
    }
}

impl TypeCtx {
    /// The level counter agrees with the number of bindings.
    pub closed spec fn wf(&self) -> bool {
        self.lvl == self.types@.len()
    }

    pub fn new() -> (r: Self)
        ensures
            r.wf(),
            r@ == Seq::<(Seq<char>, SValue)>::empty(),
    {
        let r = TypeCtx { types: Vec::new(), lvl: 0 };
        assert(r@ =~= Seq::<(Seq<char>, SValue)>::empty());
        r
    }

    pub fn bind(&mut self, name: Name, ty: Value)
        requires
            old(self).wf(),
        ensures
            final(self).wf(),
            final(self)@ == old(self)@.push((name@, ty@)),
    {
        let ghost name_v = name@;
        let ghost ty_v = ty@;
        self.types.push((name, ty));
        self.lvl = self.types.len();
        assert(self@ =~= old(self)@.push((name_v, ty_v)));
    }

    pub fn unbind(&mut self)
        requires
            old(self).wf(),
            old(self)@.len() > 0,
        ensures
            final(self).wf(),
            final(self)@ == old(self)@.drop_last(),
    {
        self.types.pop();
        self.lvl = self.types.len();
        assert(self@ =~= old(self)@.drop_last());
    }

    pub fn lookup_by_index(&self, idx: DbIndex) -> (r: Option<&Value>)
        ensures
            match r {
                Some(v) => idx < self@.len() && v@ == self@[self@.len() - 1 - idx].1,
                None => idx >= self@.len(),
            },
    {
        if idx < self.types.len() {
            Some(&self.types[self.types.len() - 1 - idx].1)
        } else {
            None
        }
    }

    pub fn level(&self) -> (r: DbLevel)
        requires
            self.wf(),
        ensures
            r == self@.len(),
    {
        self.lvl
    }

    /// An environment with the variable of each level, in order.
    pub fn env(&self) -> (r: Env)
        requires
            self.wf(),
        ensures
            values_view(r@) == level_env(self@.len()),
    {
        let mut r: Vec<Value> = Vec::new();
        let mut l: usize = 0;
        while l < self.lvl
            invariant
                self.wf(),
                l <= self.lvl,
                values_view(r@) == level_env(l as nat),
            decreases self.lvl - l,
        {
            let v = Value::var(l);
            proof {
                lemma_values_view_push(r@, v);
            }
            r.push(v);
            l = l + 1;
            assert(values_view(r@) =~= level_env(l as nat));
        }
        r
    }
}

/// A type error.
#[derive(Debug)]
pub struct TypeError {
    pub message: String,
}

impl View for TypeError {
    type V = Seq<char>;

    open spec fn view(&self) -> Seq<char> {
        self.message@
    }
}

pub open spec fn type_error_text(msg: Seq<char>) -> Seq<char> {
    "Type error: "@ + msg
}

impl TypeError {
    /// The text of this error (its `Display` form).
    pub fn to_text(&self) -> (r: String)
        ensures
            r@ == type_error_text(self@),
    {
        let mut s = "Type error: ".to_string();
        push_str(&mut s, self.message.as_str());
        s
    }
}

fn tc_err(msg: String) -> (r: TypeError)
    ensures
        r@ == msg@,
{
    TypeError { message: msg }
}

/// The type given to terms whose type is not known.
pub open spec fn unknown_type() -> SValue {
    neutral_value(SHead::Meta(999))
}

pub open spec fn is_meta_value(v: SValue) -> bool {
    v matches SValue::Neutral(n) && n.head is Meta
}

pub open spec fn nat_type() -> SValue {
    neutral_value(SHead::Global("Nat"@))
}

pub open spec fn bool_type() -> SValue {
    neutral_value(SHead::Global("Bool"@))
}

/// Impredicative maximum of universe levels: `imax(0, v) = 0`, and otherwise
/// `imax(u, v) = max(u, v)`.
pub open spec fn imax_spec(u: u32, v: u32) -> u32 {
    if u == 0 { 0 } else if u >= v { u } else { v }
}

pub open spec fn expect_sort_spec(v: SValue) -> Result<u32, Seq<char>> {
    match v {
        SValue::Sort(u) => Ok(u),
        SValue::Neutral(n) => if n.head is Meta { Ok(1) } else { Err("Expected a type (Sort), got "@ + value_debug(v)) },
        _ => Err("Expected a type (Sort), got "@ + value_debug(v)),
    }
}

pub open spec fn unbound_msg(i: usize) -> Seq<char> {
    "Unbound variable index "@ + decimal(i as nat)
}

pub open spec fn unknown_global_msg(n: Seq<char>) -> Seq<char> {
    "Unknown global '"@ + n + "'"@
}

pub open spec fn unknown_ctor_msg(n: Seq<char>) -> Seq<char> {
    "Unknown constructor '"@ + n + "'"@
}

pub open spec fn lam_mismatch_msg(expected: STerm, got: STerm) -> Seq<char> {
    "Lambda parameter type mismatch: expected "@ + term_text(expected) + ", got "@ + term_text(got)
}

pub open spec fn mismatch_msg(expected: STerm, got: STerm) -> Seq<char> {
    "Type mismatch: expected `"@ + term_text(expected) + "`, got `"@ + term_text(got) + "`"@
}

/// The name under which a match arm binds its `i`-th constructor argument.
pub open spec fn arg_name(i: nat) -> Seq<char> {
    "_arg"@ + decimal(i)
}

/// The bindings a match arm of the given arity adds while its body is checked.
pub open spec fn arg_bindings(n: nat) -> SCtx {
    Seq::new(n, |i: int| (arg_name(i as nat), unknown_type()))
}

/// The context after `n` unbindings.
pub open spec fn unbind_n(c: SCtx, n: nat) -> SCtx {
    if n <= c.len() { c.subrange(0, c.len() - n) } else { Seq::empty() }
}

pub type InferResult = Result<(STerm, SValue), Seq<char>>;

/// Type inference: the elaborated term and its type, or an error message,
/// together with the context as the checker leaves it.
#[verifier::opaque]
pub open spec fn infer_f(t: STerm, ctx: SCtx, g: SGlobals) -> (InferResult, SCtx)
    decreases t, 0nat,
{
    match t {
        STerm::Var(i) => if i < ctx.len() {
            (Ok((t, ctx[ctx.len() - 1 - i].1)), ctx)
        } else {
            (Err(unbound_msg(i)), ctx)
        },
        STerm::Global(name) => if g.defs.contains_key(name) {
            (Ok((t, eval_value(def_type(g.defs[name]), Seq::empty(), g))), ctx)
        } else {
            (Err(unknown_global_msg(name)), ctx)
        },
        STerm::Sort(u) => (Ok((t, SValue::Sort(u.wrapping_add(1)))), ctx),
        STerm::Pi(name, a, b) => {
            let (ra, c1) = infer_f(*a, ctx, g);
            match ra {
                Err(e) => (Err(e), c1),
                Ok((a_elab, a_sort)) => match expect_sort_spec(a_sort) {
                    Err(e) => (Err(e), c1),
                    Ok(au) => {
                        let a_val = eval_value(a_elab, level_env(c1.len()), g);
                        let (rb, c3) = infer_f(*b, c1.push((name, a_val)), g);
                        match rb {
                            Err(e) => (Err(e), c3),
                            Ok((b_elab, b_sort)) => match expect_sort_spec(b_sort) {
                                Err(e) => (Err(e), c3),
                                Ok(bu) => (
                                    Ok((STerm::Pi(name, Box::new(a_elab), Box::new(b_elab)), SValue::Sort(imax_spec(au, bu)))),
                                    c3.drop_last(),
                                ),
                            },
                        }
                    },
                },
            }
        },
        STerm::Lam(name, a, body) => {
            let (ra, c1) = infer_f(*a, ctx, g);
            match ra {
                Err(e) => (Err(e), c1),
                Ok((a_elab, _)) => {
                    let a_val = eval_value(a_elab, level_env(c1.len()), g);
                    let (rb, c3) = infer_f(*body, c1.push((name, a_val)), g);
                    match rb {
                        Err(e) => (Err(e), c3),
                        Ok((body_elab, body_ty)) => {
                            let body_ty_term = quote_term(body_ty, c3.len() as usize, g);
                            let c4 = c3.drop_last();
                            (
                                Ok((
                                    STerm::Lam(name, Box::new(a_elab), Box::new(body_elab)),
                                    SValue::Pi(name, Box::new(a_val), SClosure { env: level_env(c4.len()), body: body_ty_term }),
                                )),
                                c4,
                            )
                        },
                    }
                },
            }
        },
        STerm::App(f, x) => {
            let (rf, c1) = infer_f(*f, ctx, g);
            match rf {
                Err(e) => (Err(e), c1),
                Ok((f_elab, f_ty)) => match f_ty {
                    SValue::Pi(_, a, b) => {
                        let (rx, c2) = check_f(*x, *a, c1, g);
                        match rx {
                            Err(e) => (Err(e), c2),
                            Ok(x_elab) => {
                                let x_val = eval_value(x_elab, level_env(c2.len()), g);
                                (Ok((STerm::App(Box::new(f_elab), Box::new(x_elab)), closure_value(b, x_val, g))), c2)
                            },
                        }
                    },
                    _ => {
                        let (rx, c2) = infer_f(*x, c1, g);
                        match rx {
                            Err(e) => (Err(e), c2),
                            Ok((x_elab, _)) => (Ok((STerm::App(Box::new(f_elab), Box::new(x_elab)), unknown_type())), c2),
                        }
                    },
                },
            }
        },
        STerm::Let(name, ty, val, body) => {
            let (rt, c1) = infer_f(*ty, ctx, g);
            match rt {
                Err(e) => (Err(e), c1),
                Ok((ty_elab, _)) => {
                    let ty_val = eval_value(ty_elab, level_env(c1.len()), g);
                    let (rv, c2) = check_f(*val, ty_val, c1, g);
                    match rv {
                        Err(e) => (Err(e), c2),
                        Ok(val_elab) => {
                            let (rb, c4) = infer_f(*body, c2.push((name, ty_val)), g);
                            match rb {
                                Err(e) => (Err(e), c4),
                                Ok((body_elab, body_ty)) => (
                                    Ok((STerm::Let(name, Box::new(ty_elab), Box::new(val_elab), Box::new(body_elab)), body_ty)),
                                    c4.drop_last(),
                                ),
                            }
                        },
                    }
                },
            }
        },
        STerm::Nat(_) => (Ok((t, nat_type())), ctx),
        STerm::BoolLit(_) => (Ok((t, bool_type())), ctx),
        STerm::Constructor(_, ctor) => if g.defs.contains_key(ctor) {
            (Ok((t, eval_value(def_type(g.defs[ctor]), Seq::empty(), g))), ctx)
        } else {
            (Err(unknown_ctor_msg(ctor)), ctx)
        },
        STerm::If(c, x, y) => {
            let (rc, c1) = check_f(*c, bool_type(), ctx, g);
            match rc {
                Err(e) => (Err(e), c1),
                Ok(c_elab) => {
                    let (rx, c2) = infer_f(*x, c1, g);
                    match rx {
                        Err(e) => (Err(e), c2),
                        Ok((x_elab, x_ty)) => {
                            let (ry, c3) = check_f(*y, x_ty, c2, g);
                            match ry {
                                Err(e) => (Err(e), c3),
                                Ok(y_elab) => (Ok((STerm::If(Box::new(c_elab), Box::new(x_elab), Box::new(y_elab)), x_ty)), c3),
                            }
                        },
                    }
                },
            }
        },
        STerm::Match { scrutinee, motive, arms } => {
            let (rs, c1) = infer_f(*scrutinee, ctx, g);
            match rs {
                Err(e) => (Err(e), c1),
                Ok((s_elab, _)) => {
                    let (ra, c2) = infer_arms_f(arms, c1, g);
                    match ra {
                        Err(e) => (Err(e), c2),
                        Ok((elab_arms, rty)) => (
                            Ok((
                                STerm::Match { scrutinee: Box::new(s_elab), motive, arms: elab_arms },
                                match rty { Some(ty) => ty, None => unknown_type() },
                            )),
                            c2,
                        ),
                    }
                },
            }
        },
        STerm::Meta(_) => (Ok((t, unknown_type())), ctx),
        STerm::Ann(e, ty) => {
            let (rt, c1) = infer_f(*ty, ctx, g);
            match rt {
                Err(er) => (Err(er), c1),
                Ok((ty_elab, _)) => {
                    let ty_val = eval_value(ty_elab, level_env(c1.len()), g);
                    let (re, c2) = check_f(*e, ty_val, c1, g);
                    match re {
                        Err(er) => (Err(er), c2),
                        Ok(e_elab) => (Ok((STerm::Ann(Box::new(e_elab), Box::new(ty_elab)), ty_val)), c2),
                    }
                },
            }
        },
        STerm::Recursor(_) => (Ok((t, unknown_type())), ctx),
    }
}

/// The arms of a match, inferred in order with their constructor arguments bound:
/// the elaborated arms and the type of the first arm's body.
#[verifier::opaque]
pub open spec fn infer_arms_f(arms: Seq<SArm>, ctx: SCtx, g: SGlobals) -> (Result<(Seq<SArm>, Option<SValue>), Seq<char>>, SCtx)
    decreases arms, 0nat,
{
    if arms.len() == 0 {
        (Ok((Seq::empty(), None)), ctx)
    } else {
        let (r, c) = infer_arms_f(arms.subrange(0, arms.len() - 1), ctx, g);
        match r {
            Err(e) => (Err(e), c),
            Ok((es, rty)) => {
                let a = arms[arms.len() - 1];
                let (rb, c2) = infer_f(a.body, c + arg_bindings(a.arity as nat), g);
                match rb {
                    Err(e) => (Err(e), c2),
                    Ok((body_elab, body_ty)) => (
                        Ok((
                            es.push(SArm { ctor: a.ctor, arity: a.arity, body: body_elab }),
                            match rty { Some(ty) => Some(ty), None => Some(body_ty) },
                        )),
                        unbind_n(c2, a.arity as nat),
                    ),
                }
            },
        }
    }
}

/// Checking that falls back to inference followed by a conversion check.
#[verifier::opaque]
pub open spec fn check_infer_f(t: STerm, expected: SValue, ctx: SCtx, g: SGlobals) -> (Result<STerm, Seq<char>>, SCtx)
    decreases t, 1nat,
{
    let (r, c1) = infer_f(t, ctx, g);
    match r {
        Err(e) => (Err(e), c1),
        Ok((elab, inferred)) => if is_meta_value(inferred) || is_meta_value(expected) {
            (Ok(elab), c1)
        } else if convertible(inferred, expected, c1.len() as usize, g) {
            (Ok(elab), c1)
        } else {
            (Err(mismatch_msg(quote_term(expected, c1.len() as usize, g), quote_term(inferred, c1.len() as usize, g))), c1)
        },
    }
}

/// Checking a term against an expected type: the elaborated term, or an error
/// message, together with the context as the checker leaves it.
#[verifier::opaque]
pub open spec fn check_f(t: STerm, expected: SValue, ctx: SCtx, g: SGlobals) -> (Result<STerm, Seq<char>>, SCtx)
    decreases t, 2nat,
{
    match (t, expected) {
        (STerm::Lam(name, a, body), SValue::Pi(_, param_ty, ret)) => {
            let (ra, c1): (Result<STerm, Seq<char>>, SCtx) = match *a {
                STerm::Meta(_) => (Ok(quote_term(*param_ty, ctx.len() as usize, g)), ctx),
                _ => {
                    let (ri, c1) = infer_f(*a, ctx, g);
                    match ri {
                        Err(e) => (Err(e), c1),
                        Ok((a_elab, _)) => {
                            let a_val = eval_value(a_elab, level_env(c1.len()), g);
                            if !convertible(a_val, *param_ty, c1.len() as usize, g) {
                                (Err(lam_mismatch_msg(quote_term(*param_ty, c1.len() as usize, g), a_elab)), c1)
                            } else {
                                (Ok(a_elab), c1)
                            }
                        },
                    }
                },
            };
            match ra {
                Err(e) => (Err(e), c1),
                Ok(a_elab) => {
                    let c2 = c1.push((name, *param_ty));
                    let ret_ty = closure_value(ret, neutral_value(SHead::Var((c2.len() - 1) as usize)), g);
                    let (rb, c3) = check_f(*body, ret_ty, c2, g);
                    match rb {
                        Err(e) => (Err(e), c3),
                        Ok(body_elab) => (Ok(STerm::Lam(name, Box::new(a_elab), Box::new(body_elab))), c3.drop_last()),
                    }
                },
            }
        },
        _ => check_infer_f(t, expected, ctx, g),
    }
}

/// Inference that succeeds leaves the context as it found it.
pub proof fn lemma_infer_restores_ctx(t: STerm, ctx: SCtx, g: SGlobals)
    ensures
        infer_f(t, ctx, g).0 is Ok ==> infer_f(t, ctx, g).1 == ctx,
    decreases t, 0nat,
{
    reveal(infer_f);
    reveal(check_f);
    reveal(check_infer_f);
    reveal(infer_arms_f);
    match t {
        STerm::Pi(name, a, b) => {
            lemma_infer_restores_ctx(*a, ctx, g);
            let (ra, c1) = infer_f(*a, ctx, g);
            if let Ok((a_elab, _)) = ra {
                let c2 = c1.push((name, eval_value(a_elab, level_env(c1.len()), g)));
                lemma_infer_restores_ctx(*b, c2, g);
                assert(c2.drop_last() =~= c1);
            }
        },
        STerm::Lam(name, a, b) => {
            lemma_infer_restores_ctx(*a, ctx, g);
            let (ra, c1) = infer_f(*a, ctx, g);
            if let Ok((a_elab, _)) = ra {
                let c2 = c1.push((name, eval_value(a_elab, level_env(c1.len()), g)));
                lemma_infer_restores_ctx(*b, c2, g);
                assert(c2.drop_last() =~= c1);
            }
        },
        STerm::App(f, x) => {
            lemma_infer_restores_ctx(*f, ctx, g);
            let (rf, c1) = infer_f(*f, ctx, g);
            if let Ok((_, f_ty)) = rf {
                match f_ty {
                    SValue::Pi(_, a, _) => lemma_check_restores_ctx(*x, *a, c1, g),
                    _ => lemma_infer_restores_ctx(*x, c1, g),
                }
            }
        },
        STerm::Let(name, ty, val, body) => {
            lemma_infer_restores_ctx(*ty, ctx, g);
            let (rt, c1) = infer_f(*ty, ctx, g);
            if let Ok((ty_elab, _)) = rt {
                let ty_val = eval_value(ty_elab, level_env(c1.len()), g);
                lemma_check_restores_ctx(*val, ty_val, c1, g);
                let (_, c2) = check_f(*val, ty_val, c1, g);
                lemma_infer_restores_ctx(*body, c2.push((name, ty_val)), g);
                assert(c2.push((name, ty_val)).drop_last() =~= c2);
            }
        },
        STerm::If(c, x, y) => {
            lemma_check_restores_ctx(*c, bool_type(), ctx, g);
            let (_, c1) = check_f(*c, bool_type(), ctx, g);
            lemma_infer_restores_ctx(*x, c1, g);
            let (rx, c2) = infer_f(*x, c1, g);
            if let Ok((_, x_ty)) = rx {
                lemma_check_restores_ctx(*y, x_ty, c2, g);
            }
        },
        STerm::Match { scrutinee, motive, arms } => {
            lemma_infer_restores_ctx(*scrutinee, ctx, g);
            let (_, c1) = infer_f(*scrutinee, ctx, g);
            lemma_arms_restore_ctx(arms, c1, g);
        },
        STerm::Ann(e, ty) => {
            lemma_infer_restores_ctx(*ty, ctx, g);
            let (rt, c1) = infer_f(*ty, ctx, g);
            if let Ok((ty_elab, _)) = rt {
                lemma_check_restores_ctx(*e, eval_value(ty_elab, level_env(c1.len()), g), c1, g);
            }
        },
        _ => {},
    }
}

/// Inferring the arms of a match, when it succeeds, leaves the context as it found it.
pub proof fn lemma_arms_restore_ctx(arms: Seq<SArm>, ctx: SCtx, g: SGlobals)
    ensures
        infer_arms_f(arms, ctx, g).0 is Ok ==> infer_arms_f(arms, ctx, g).1 == ctx,
    decreases arms, 0nat,
{
    reveal(infer_f);
    reveal(check_f);
    reveal(check_infer_f);
    reveal(infer_arms_f);
    if arms.len() > 0 {
        let prefix = arms.subrange(0, arms.len() - 1);
        lemma_arms_restore_ctx(prefix, ctx, g);
        let (r, c) = infer_arms_f(prefix, ctx, g);
        if r is Ok {
            let a = arms[arms.len() - 1];
            let bound = c + arg_bindings(a.arity as nat);
            lemma_infer_restores_ctx(a.body, bound, g);
            assert(bound.subrange(0, bound.len() - a.arity) =~= c);
        }
    }
}

/// Checking by inference, when it succeeds, leaves the context as it found it.
pub proof fn lemma_check_infer_restores_ctx(t: STerm, expected: SValue, ctx: SCtx, g: SGlobals)
    ensures
        check_infer_f(t, expected, ctx, g).0 is Ok ==> check_infer_f(t, expected, ctx, g).1 == ctx,
    decreases t, 1nat,
{
    reveal(infer_f);
    reveal(check_f);
    reveal(check_infer_f);
    reveal(infer_arms_f);
    lemma_infer_restores_ctx(t, ctx, g);
}

/// Checking that succeeds leaves the context as it found it.
pub proof fn lemma_check_restores_ctx(t: STerm, expected: SValue, ctx: SCtx, g: SGlobals)
    ensures
        check_f(t, expected, ctx, g).0 is Ok ==> check_f(t, expected, ctx, g).1 == ctx,
    decreases t, 2nat,
{
    reveal(infer_f);
    reveal(check_f);
    reveal(check_infer_f);
    reveal(infer_arms_f);
    match (t, expected) {
        (STerm::Lam(name, a, body), SValue::Pi(_, param_ty, ret)) => {
            let c1 = match *a {
                STerm::Meta(_) => ctx,
                _ => {
                    lemma_infer_restores_ctx(*a, ctx, g);
                    infer_f(*a, ctx, g).1
                },
            };
            let c2 = c1.push((name, *param_ty));
            let ret_ty = closure_value(ret, neutral_value(SHead::Var((c2.len() - 1) as usize)), g);
            lemma_check_restores_ctx(*body, ret_ty, c2, g);
            assert(c2.drop_last() =~= c1);
        },
        _ => lemma_check_infer_restores_ctx(t, expected, ctx, g),
    }
}

}

verus! {

pub open spec fn infer_result_view(r: Result<(Term, Value), TypeError>) -> InferResult {
    match r {
        Ok((t, v)) => Ok((t@, v@)),
        Err(e) => Err(e@),
    }
}

pub open spec fn check_result_view(r: Result<Term, TypeError>) -> Result<STerm, Seq<char>> {
    match r {
        Ok(t) => Ok(t@),
        Err(e) => Err(e@),
    }
}

fn unbound_error(i: usize) -> (r: TypeError)
    ensures
        r@ == unbound_msg(i),
{
    let mut s = "Unbound variable index ".to_string();
    push_decimal(&mut s, i as u64);
    tc_err(s)
}

fn quoted_name_error(prefix: &str, name: &str) -> (r: TypeError)
    ensures
        r@ == prefix@ + name@ + "'"@,
{
    let mut s = String::new();
    push_str(&mut s, prefix);
    push_str(&mut s, name);
    push_str(&mut s, "'");
    assert(s@ =~= prefix@ + name@ + "'"@);
    tc_err(s)
}

fn lam_mismatch_error(expected: &Term, got: &Term) -> (r: TypeError)
    ensures
        r@ == lam_mismatch_msg(expected@, got@),
{
    let mut s = "Lambda parameter type mismatch: expected ".to_string();
    write_term(expected, &mut s);
    push_str(&mut s, ", got ");
    write_term(got, &mut s);
    tc_err(s)
}

fn mismatch_error(expected: &Term, got: &Term) -> (r: TypeError)
    ensures
        r@ == mismatch_msg(expected@, got@),
{
    let mut s = "Type mismatch: expected `".to_string();
    write_term(expected, &mut s);
    push_str(&mut s, "`, got `");
    write_term(got, &mut s);
    push_str(&mut s, "`");
    tc_err(s)
}

/// Expect a value to be a sort and return its universe level.
fn expect_sort(val: &Value) -> (r: Result<u32, TypeError>)
    ensures
        match r {
            Ok(u) => expect_sort_spec(val@) == Ok::<u32, Seq<char>>(u),
            Err(e) => expect_sort_spec(val@) == Err::<u32, Seq<char>>(e@),
        },
{
    match val {
        Value::Sort(u) => {
            assert(val@ == SValue::Sort(*u));
            Ok(*u)
        },
        Value::Neutral(n) => match n.head {
            NeutralHead::Meta(_) => {
                assert(val@ == SValue::Neutral(n@));
                assert(n@.head == crate::term::head_view(n.head));
                Ok(1)
            },
            _ => {
                assert(val@ == SValue::Neutral(n@));
                assert(n@.head == crate::term::head_view(n.head));
                let mut s = "Expected a type (Sort), got ".to_string();
                let d = value_debug_text(val);
                push_str(&mut s, d.as_str());
                Err(tc_err(s))
            },
        },
        _ => {
            let mut s = "Expected a type (Sort), got ".to_string();
            let d = value_debug_text(val);
            push_str(&mut s, d.as_str());
            Err(tc_err(s))
        },
    }
}

/// Impredicative maximum of universe levels.
fn imax(u: u32, v: u32) -> (r: u32)
    ensures
        r == imax_spec(u, v),
{
    if u == 0 { 0 } else if u >= v { u } else { v }
}

fn is_meta(v: &Value) -> (r: bool)
    ensures
        r == is_meta_value(v@),
{
    match v {
        Value::Neutral(n) => {
            assert(v@ == SValue::Neutral(n@));
            assert(n@.head == crate::term::head_view(n.head));
            match n.head {
                NeutralHead::Meta(_) => true,
                _ => false,
            }
        },
        _ => false,
    }
}

fn arg_name_string(i: usize) -> (r: Name)
    ensures
        r@ == arg_name(i as nat),
{
    let mut s = "_arg".to_string();
    push_decimal(&mut s, i as u64);
    s
}

/// Infer the type of a term, returning the elaborated term and its type.
pub fn infer(term: &Term, ctx: &mut TypeCtx, globals: &GlobalEnv) -> (r: Result<(Term, Value), TypeError>)
    requires
        old(ctx).wf(),
    ensures
        final(ctx).wf(),
        infer_result_view(r) == infer_f(term@, old(ctx)@, globals@).0,
        final(ctx)@ == infer_f(term@, old(ctx)@, globals@).1,
    decreases term, 1nat,
{
    proof {
        reveal(infer_f);
        reveal(check_f);
        reveal(check_infer_f);
        reveal(infer_arms_f);
    }
    match term {
        Term::Var(i) => match ctx.lookup_by_index(*i) {
            Some(ty) => Ok((term.clone(), ty.clone())),
            None => Err(unbound_error(*i)),
        },
        Term::Global(name) => match globals.lookup(name.as_str()) {
            Some(def) => {
                let ty_val = eval(def.get_type(), &Vec::new(), globals);
                Ok((term.clone(), ty_val))
            },
            None => Err(quoted_name_error("Unknown global '", name.as_str())),
        },
        Term::Sort(u) => Ok((term.clone(), Value::Sort(u.wrapping_add(1)))),
        Term::Pi(..) => infer_pi(term, ctx, globals),
        Term::Lam(..) => infer_lam(term, ctx, globals),
        Term::App(..) => infer_app(term, ctx, globals),
        Term::Let(..) => infer_let(term, ctx, globals),
        Term::Nat(_) => Ok((term.clone(), Value::global("Nat".to_string()))),
        Term::BoolLit(_) => Ok((term.clone(), Value::global("Bool".to_string()))),
        Term::Constructor(_, ctor) => match globals.lookup(ctor.as_str()) {
            Some(def) => {
                let ty_val = eval(def.get_type(), &Vec::new(), globals);
                Ok((term.clone(), ty_val))
            },
            None => Err(quoted_name_error("Unknown constructor '", ctor.as_str())),
        },
        Term::If(..) => infer_if(term, ctx, globals),
        Term::Match { .. } => infer_match(term, ctx, globals),
        Term::Meta(_) => Ok((term.clone(), Value::meta(999))),
        Term::Ann(..) => infer_ann(term, ctx, globals),
        Term::Recursor(_) => Ok((term.clone(), Value::meta(999))),
    }
}

fn infer_pi(term: &Term, ctx: &mut TypeCtx, globals: &GlobalEnv) -> (r: Result<(Term, Value), TypeError>)
    requires
        old(ctx).wf(),
        term is Pi,
    ensures
        final(ctx).wf(),
        infer_result_view(r) == infer_f(term@, old(ctx)@, globals@).0,
        final(ctx)@ == infer_f(term@, old(ctx)@, globals@).1,
    decreases term, 0nat,
{
    proof {
        reveal(infer_f);
        reveal(check_f);
        reveal(check_infer_f);
        reveal(infer_arms_f);
    }
    let ghost g = globals@;
    if let Term::Pi(name, a, b) = term {
        let (a_elab, a_sort) = match infer(a, ctx, globals) {
            Ok(p) => p,
            Err(e) => return Err(e),
        };
        let a_univ = match expect_sort(&a_sort) {
            Ok(u) => u,
            Err(e) => return Err(e),
        };
        let env = ctx.env();
        let a_val = eval(&a_elab, &env, globals);
        ctx.bind(name.clone(), a_val);
        let ghost c2 = ctx@;
        let (b_elab, b_sort) = match infer(b, ctx, globals) {
            Ok(p) => p,
            Err(e) => return Err(e),
        };
        let b_univ = match expect_sort(&b_sort) {
            Ok(u) => u,
            Err(e) => return Err(e),
        };
        proof {
            lemma_infer_restores_ctx(b@, c2, g);
        }
        ctx.unbind();
        Ok((Term::Pi(name.clone(), Box::new(a_elab), Box::new(b_elab)), Value::Sort(imax(a_univ, b_univ))))
    } else {
        proof {
            assert(false);
        }
        Err(tc_err(String::new()))
    }
}

fn infer_lam(term: &Term, ctx: &mut TypeCtx, globals: &GlobalEnv) -> (r: Result<(Term, Value), TypeError>)
    requires
        old(ctx).wf(),
        term is Lam,
    ensures
        final(ctx).wf(),
        infer_result_view(r) == infer_f(term@, old(ctx)@, globals@).0,
        final(ctx)@ == infer_f(term@, old(ctx)@, globals@).1,
    decreases term, 0nat,
{
    proof {
        reveal(infer_f);
        reveal(check_f);
        reveal(check_infer_f);
        reveal(infer_arms_f);
    }
    let ghost g = globals@;
    if let Term::Lam(name, a, body) = term {
        let (a_elab, _) = match infer(a, ctx, globals) {
            Ok(p) => p,
            Err(e) => return Err(e),
        };
        let env = ctx.env();
        let a_val = eval(&a_elab, &env, globals);
        ctx.bind(name.clone(), a_val.clone());
        let ghost c2 = ctx@;
        let (body_elab, body_ty) = match infer(body, ctx, globals) {
            Ok(p) => p,
            Err(e) => return Err(e),
        };
        let body_ty_term = quote(&body_ty, ctx.level(), globals);
        proof {
            lemma_infer_restores_ctx(body@, c2, g);
        }
        ctx.unbind();
        let env2 = ctx.env();
        let clo = Closure::new(env2, body_ty_term);
        assert(clo@ == SClosure { env: level_env(ctx@.len()), body: body_ty_term@ });
        let pi_ty = Value::Pi(name.clone(), Box::new(a_val), clo);
        assert(pi_ty@ == SValue::Pi(name@, Box::new(a_val@), clo@));
        Ok((Term::Lam(name.clone(), Box::new(a_elab), Box::new(body_elab)), pi_ty))
    } else {
        proof {
            assert(false);
        }
        Err(tc_err(String::new()))
    }
}

fn infer_app(term: &Term, ctx: &mut TypeCtx, globals: &GlobalEnv) -> (r: Result<(Term, Value), TypeError>)
    requires
        old(ctx).wf(),
        term is App,
    ensures
        final(ctx).wf(),
        infer_result_view(r) == infer_f(term@, old(ctx)@, globals@).0,
        final(ctx)@ == infer_f(term@, old(ctx)@, globals@).1,
    decreases term, 0nat,
{
    proof {
        reveal(infer_f);
        reveal(check_f);
        reveal(check_infer_f);
        reveal(infer_arms_f);
    }
    let ghost g = globals@;
    if let Term::App(f, x) = term {
        let (f_elab, f_ty) = match infer(f, ctx, globals) {
            Ok(p) => p,
            Err(e) => return Err(e),
        };
        match &f_ty {
            Value::Pi(_, a, b) => {
                let x_elab = match check(x, a, ctx, globals) {
                    Ok(t) => t,
                    Err(e) => return Err(e),
                };
                let env = ctx.env();
                let x_val = eval(&x_elab, &env, globals);
                let result_ty = eval_closure(b, x_val, globals);
                Ok((Term::App(Box::new(f_elab), Box::new(x_elab)), result_ty))
            },
            _ => {
                let (x_elab, _) = match infer(x, ctx, globals) {
                    Ok(p) => p,
                    Err(e) => return Err(e),
                };
                Ok((Term::App(Box::new(f_elab), Box::new(x_elab)), Value::meta(999)))
            },
        }
    } else {
        proof {
            assert(false);
        }
        Err(tc_err(String::new()))
    }
}

fn infer_let(term: &Term, ctx: &mut TypeCtx, globals: &GlobalEnv) -> (r: Result<(Term, Value), TypeError>)
    requires
        old(ctx).wf(),
        term is Let,
    ensures
        final(ctx).wf(),
        infer_result_view(r) == infer_f(term@, old(ctx)@, globals@).0,
        final(ctx)@ == infer_f(term@, old(ctx)@, globals@).1,
    decreases term, 0nat,
{
    proof {
        reveal(infer_f);
        reveal(check_f);
        reveal(check_infer_f);
        reveal(infer_arms_f);
    }
    let ghost g = globals@;
    if let Term::Let(name, ty, val, body) = term {
        let (ty_elab, _) = match infer(ty, ctx, globals) {
            Ok(p) => p,
            Err(e) => return Err(e),
        };
        let env = ctx.env();
        let ty_val = eval(&ty_elab, &env, globals);
        let val_elab = match check(val, &ty_val, ctx, globals) {
            Ok(t) => t,
            Err(e) => return Err(e),
        };
        ctx.bind(name.clone(), ty_val);
        let ghost c3 = ctx@;
        let (body_elab, body_ty) = match infer(body, ctx, globals) {
            Ok(p) => p,
            Err(e) => return Err(e),
        };
        proof {
            lemma_infer_restores_ctx(body@, c3, g);
        }
        ctx.unbind();
        Ok((Term::Let(name.clone(), Box::new(ty_elab), Box::new(val_elab), Box::new(body_elab)), body_ty))
    } else {
        proof {
            assert(false);
        }
        Err(tc_err(String::new()))
    }
}

fn infer_if(term: &Term, ctx: &mut TypeCtx, globals: &GlobalEnv) -> (r: Result<(Term, Value), TypeError>)
    requires
        old(ctx).wf(),
        term is If,
    ensures
        final(ctx).wf(),
        infer_result_view(r) == infer_f(term@, old(ctx)@, globals@).0,
        final(ctx)@ == infer_f(term@, old(ctx)@, globals@).1,
    decreases term, 0nat,
{
    proof {
        reveal(infer_f);
        reveal(check_f);
        reveal(check_infer_f);
        reveal(infer_arms_f);
    }
    let ghost g = globals@;
    if let Term::If(c, x, y) = term {
        let bool_ty = Value::global("Bool".to_string());
        let c_elab = match check(c, &bool_ty, ctx, globals) {
            Ok(t) => t,
            Err(e) => return Err(e),
        };
        let (x_elab, x_ty) = match infer(x, ctx, globals) {
            Ok(p) => p,
            Err(e) => return Err(e),
        };
        let y_elab = match check(y, &x_ty, ctx, globals) {
            Ok(t) => t,
            Err(e) => return Err(e),
        };
        Ok((Term::If(Box::new(c_elab), Box::new(x_elab), Box::new(y_elab)), x_ty))
    } else {
        proof {
            assert(false);
        }
        Err(tc_err(String::new()))
    }
}

fn infer_match(term: &Term, ctx: &mut TypeCtx, globals: &GlobalEnv) -> (r: Result<(Term, Value), TypeError>)
    requires
        old(ctx).wf(),
        term is Match,
    ensures
        final(ctx).wf(),
        infer_result_view(r) == infer_f(term@, old(ctx)@, globals@).0,
        final(ctx)@ == infer_f(term@, old(ctx)@, globals@).1,
    decreases term, 0nat,
{
    proof {
        reveal(infer_f);
        reveal(check_f);
        reveal(check_infer_f);
        reveal(infer_arms_f);
    }
    let ghost g = globals@;
    if let Term::Match { scrutinee, motive, arms } = term {
        let (s_elab, _) = match infer(scrutinee, ctx, globals) {
            Ok(p) => p,
            Err(e) => return Err(e),
        };
        let (elab_arms, result_ty) = match infer_arms(arms, ctx, globals) {
            Ok(p) => p,
            Err(e) => return Err(e),
        };
        let m = match motive {
            Some(m) => Some(Box::new((**m).clone())),
            None => None,
        };
        assert(opt_term_view(m) == opt_term_view(*motive));
        let ty = match result_ty {
            Some(ty) => ty,
            None => Value::meta(999),
        };
        Ok((Term::Match { scrutinee: Box::new(s_elab), motive: m, arms: elab_arms }, ty))
    } else {
        proof {
            assert(false);
        }
        Err(tc_err(String::new()))
    }
}

fn infer_ann(term: &Term, ctx: &mut TypeCtx, globals: &GlobalEnv) -> (r: Result<(Term, Value), TypeError>)
    requires
        old(ctx).wf(),
        term is Ann,
    ensures
        final(ctx).wf(),
        infer_result_view(r) == infer_f(term@, old(ctx)@, globals@).0,
        final(ctx)@ == infer_f(term@, old(ctx)@, globals@).1,
    decreases term, 0nat,
{
    proof {
        reveal(infer_f);
        reveal(check_f);
        reveal(check_infer_f);
        reveal(infer_arms_f);
    }
    let ghost g = globals@;
    if let Term::Ann(e, ty) = term {
        let (ty_elab, _) = match infer(ty, ctx, globals) {
            Ok(p) => p,
            Err(er) => return Err(er),
        };
        let env = ctx.env();
        let ty_val = eval(&ty_elab, &env, globals);
        let e_elab = match check(e, &ty_val, ctx, globals) {
            Ok(t) => t,
            Err(er) => return Err(er),
        };
        Ok((Term::Ann(Box::new(e_elab), Box::new(ty_elab)), ty_val))
    } else {
        proof {
            assert(false);
        }
        Err(tc_err(String::new()))
    }
}

/// Once a prefix of the arms fails, inferring all of them fails the same way.
proof fn lemma_arms_err_extends(arms: Seq<SArm>, i: int, ctx: SCtx, g: SGlobals)
    requires
        0 <= i <= arms.len(),
        infer_arms_f(arms.subrange(0, i), ctx, g).0 is Err,
    ensures
        infer_arms_f(arms, ctx, g) == infer_arms_f(arms.subrange(0, i), ctx, g),
    decreases arms.len(),
{
    if i == arms.len() {
        assert(arms.subrange(0, i) =~= arms);
    } else {
        let pre = arms.subrange(0, arms.len() - 1);
        assert(pre.subrange(0, i) =~= arms.subrange(0, i));
        lemma_arms_err_extends(pre, i, ctx, g);
        reveal(infer_f);
        reveal(check_f);
        reveal(check_infer_f);
        reveal(infer_arms_f);
    }
}

pub open spec fn arms_result_view(r: Result<(Vec<MatchArm>, Option<Value>), TypeError>) -> Result<(Seq<SArm>, Option<SValue>), Seq<char>> {
    match r {
        Ok((es, t)) => Ok((arms_view(es@), opt_value_view(t))),
        Err(e) => Err(e@),
    }
}

/// Infer the arms of a match in order, binding each arm's constructor arguments.
fn infer_arms(arms: &Vec<MatchArm>, ctx: &mut TypeCtx, globals: &GlobalEnv) -> (r: Result<(Vec<MatchArm>, Option<Value>), TypeError>)
    requires
        old(ctx).wf(),
    ensures
        final(ctx).wf(),
        arms_result_view(r) == infer_arms_f(arms_view(arms@), old(ctx)@, globals@).0,
        final(ctx)@ == infer_arms_f(arms_view(arms@), old(ctx)@, globals@).1,
    decreases arms, 0nat,
{
    let ghost g = globals@;
    let ghost c0 = ctx@;
    let ghost av = arms_view(arms@);
    proof {
        crate::term::lemma_arms_view(arms@);
        reveal(infer_f);
        reveal(check_f);
        reveal(check_infer_f);
        reveal(infer_arms_f);
        assert(av.subrange(0, 0) =~= Seq::<SArm>::empty());
    }
    let mut elab: Vec<MatchArm> = Vec::new();
    let mut result_ty: Option<Value> = None;
    let n = arms.len();
    let mut i: usize = 0;
    while i < n
        invariant
            n == arms@.len(),
            i <= n,
            av == arms_view(arms@),
            av.len() == n,
            forall|j: int| 0 <= j < n ==> #[trigger] av[j] == arm_view(arms@[j]),
            g == globals@,
            c0 == old(ctx)@,
            ctx.wf(),
            ctx@ == c0,
            infer_arms_f(av.subrange(0, i as int), c0, g) == (
                Ok::<(Seq<SArm>, Option<SValue>), Seq<char>>((arms_view(elab@), opt_value_view(result_ty))),
                c0,
            ),
        decreases n - i,
    {
        let arm = &arms[i];
        assert(decreases_to!(*arms => arms@[i as int]));
        let arity = arm.arity;
        let mut k: usize = 0;
        while k < arity
            invariant
                ctx.wf(),
                k <= arity,
                ctx@ == c0 + arg_bindings(k as nat),
            decreases arity - k,
        {
            ctx.bind(arg_name_string(k), Value::meta(999));
            k = k + 1;
            assert(ctx@ =~= c0 + arg_bindings(k as nat));
        }
        let ghost bound = ctx@;
        let ghost pre = av.subrange(0, i + 1);
        proof {
            reveal(infer_arms_f);
            assert(pre.subrange(0, pre.len() - 1) =~= av.subrange(0, i as int));
            assert(pre[pre.len() - 1] == av[i as int]);
        }
        let (body_elab, body_ty) = match infer(&arm.body, ctx, globals) {
            Ok(p) => p,
            Err(e) => {
                proof {
                    reveal(infer_f);
                    reveal(check_f);
                    reveal(check_infer_f);
                    reveal(infer_arms_f);
                    let a = pre[pre.len() - 1];
                    assert(a == arm_view(arms@[i as int]));
                    assert(a.body == arm.body@);
                    assert(bound == c0 + arg_bindings(a.arity as nat));
                    assert(infer_f(a.body, bound, g).0 is Err);
                    assert(infer_arms_f(av.subrange(0, i as int), c0, g).0 is Ok);
                    assert(infer_arms_f(pre, c0, g).0 is Err);
                    lemma_arms_err_extends(av, i + 1, c0, g);
                    assert(infer_arms_f(pre, c0, g) == (Err::<(Seq<SArm>, Option<SValue>), Seq<char>>(e@), ctx@));
                }
                return Err(e);
            },
        };
        proof {
            lemma_infer_restores_ctx(arm.body@, bound, g);
        }
        let mut k2: usize = 0;
        while k2 < arity
            invariant
                ctx.wf(),
                k2 <= arity,
                bound.len() == c0.len() + arity,
                ctx@ == bound.subrange(0, bound.len() - k2),
            decreases arity - k2,
        {
            ctx.unbind();
            k2 = k2 + 1;
            assert(ctx@ =~= bound.subrange(0, bound.len() - k2));
        }
        assert(ctx@ =~= c0);
        let ghost old_elab = elab@;
        let ghost old_rty = opt_value_view(result_ty);
        if result_ty.is_none() {
            result_ty = Some(body_ty);
        }
        let new_arm = MatchArm { ctor: arm.ctor.clone(), arity, body: body_elab };
        elab.push(new_arm);
        proof {
            assert(elab@.drop_last() =~= old_elab);
            reveal(infer_f);
            reveal(check_f);
            reveal(check_infer_f);
            reveal(infer_arms_f);
            assert(unbind_n(bound, arity as nat) =~= c0);
        }
        i = i + 1;
    }
    assert(av.subrange(0, n as int) =~= av);
    Ok((elab, result_ty))
}

/// Check that a term has the expected type, returning the elaborated term.
pub fn check(term: &Term, expected: &Value, ctx: &mut TypeCtx, globals: &GlobalEnv) -> (r: Result<Term, TypeError>)
    requires
        old(ctx).wf(),
    ensures
        final(ctx).wf(),
        check_result_view(r) == check_f(term@, expected@, old(ctx)@, globals@).0,
        final(ctx)@ == check_f(term@, expected@, old(ctx)@, globals@).1,
    decreases term, 3nat,
{
    proof {
        reveal(infer_f);
        reveal(check_f);
        reveal(check_infer_f);
        reveal(infer_arms_f);
    }
    let ghost g = globals@;
    match term {
        Term::Lam(name, a, body) => match expected {
            Value::Pi(_, param_ty, ret_closure) => {
                let a_elab = match &**a {
                    Term::Meta(_) => quote(param_ty, ctx.level(), globals),
                    _ => {
                        let (a_elab, _) = match infer(a, ctx, globals) {
                            Ok(p) => p,
                            Err(e) => return Err(e),
                        };
                        let env = ctx.env();
                        let a_val = eval(&a_elab, &env, globals);
                        if !conv_check(&a_val, param_ty, ctx.level(), globals) {
                            let q = quote(param_ty, ctx.level(), globals);
                            return Err(lam_mismatch_error(&q, &a_elab));
                        }
                        a_elab
                    },
                };
                ctx.bind(name.clone(), (**param_ty).clone());
                let ghost c2 = ctx@;
                let arg_val = Value::var(ctx.level() - 1);
                let ret_ty = eval_closure(ret_closure, arg_val, globals);
                let body_elab = match check(body, &ret_ty, ctx, globals) {
                    Ok(t) => t,
                    Err(e) => return Err(e),
                };
                proof {
                    lemma_check_restores_ctx(body@, ret_ty@, c2, g);
                }
                ctx.unbind();
                Ok(Term::Lam(name.clone(), Box::new(a_elab), Box::new(body_elab)))
            },
            _ => check_by_inference(term, expected, ctx, globals),
        },
        _ => check_by_inference(term, expected, ctx, globals),
    }
}

/// Infer the type of a term and check it against the expected one.
fn check_by_inference(term: &Term, expected: &Value, ctx: &mut TypeCtx, globals: &GlobalEnv) -> (r: Result<Term, TypeError>)
    requires
        old(ctx).wf(),
    ensures
        final(ctx).wf(),
        check_result_view(r) == check_infer_f(term@, expected@, old(ctx)@, globals@).0,
        final(ctx)@ == check_infer_f(term@, expected@, old(ctx)@, globals@).1,
    decreases term, 2nat,
{
    proof {
        reveal(infer_f);
        reveal(check_f);
        reveal(check_infer_f);
        reveal(infer_arms_f);
    }
    let (elab, inferred) = match infer(term, ctx, globals) {
        Ok(p) => p,
        Err(e) => return Err(e),
    };
    if is_meta(&inferred) || is_meta(expected) {
        return Ok(elab);
    }
    let lvl = ctx.level();
    if conv_check(&inferred, expected, lvl, globals) {
        Ok(elab)
    } else {
        let expected_term = quote(expected, lvl, globals);
        let inferred_term = quote(&inferred, lvl, globals);
        Err(mismatch_error(&expected_term, &inferred_term))
    }
}

}

verus! {

/// What `check_def` reports: the type must be well formed, then the body must
/// check against it; an error names the definition and the stage that failed.
pub open spec fn check_def_outcome(name: Seq<char>, ty: STerm, body: STerm, g: SGlobals) -> Result<(), Seq<char>> {
    let (rt, c1) = infer_f(ty, Seq::empty(), g);
    match rt {
        Err(e) => Err("In type of '"@ + name + "': "@ + type_error_text(e)),
        Ok(_) => match check_f(body, eval_value(ty, Seq::empty(), g), c1, g).0 {
            Err(e) => Err("In definition '"@ + name + "': "@ + type_error_text(e)),
            Ok(_) => Ok(()),
        },
    }
}

fn stage_error(prefix: &str, name: &str, e: &TypeError) -> (r: String)
    ensures
        r@ == prefix@ + name@ + "': "@ + type_error_text(e@),
{
    let mut s = String::new();
    push_str(&mut s, prefix);
    push_str(&mut s, name);
    push_str(&mut s, "': ");
    let t = e.to_text();
    push_str(&mut s, t.as_str());
    assert(s@ =~= prefix@ + name@ + "': "@ + type_error_text(e@));
    s
}

/// Type check a complete definition and, if it checks, add it to the environment.
pub fn check_def(name: &str, ty: &Term, body: &Term, globals: &mut GlobalEnv) -> (r: Result<(), String>)
    ensures
        match r {
            Ok(()) => check_def_outcome(name@, ty@, body@, old(globals)@) is Ok,
            Err(m) => check_def_outcome(name@, ty@, body@, old(globals)@) == Err::<(), Seq<char>>(m@),
        },
        check_def_outcome(name@, ty@, body@, old(globals)@) is Ok ==> final(globals)@.defs == old(globals)@.defs.insert(
            name@,
            SDefinition::Def { ty: ty@, body: body@ },
        ),
        check_def_outcome(name@, ty@, body@, old(globals)@) is Err ==> final(globals)@ == old(globals)@,
        final(globals)@.inductives == old(globals)@.inductives,
        old(globals).keys_unique() ==> final(globals).keys_unique(),
{
    let mut ctx = TypeCtx::new();
    match infer(ty, &mut ctx, globals) {
        Ok(_) => {},
        Err(e) => return Err(stage_error("In type of '", name, &e)),
    }
    let ty_val = eval(ty, &Vec::new(), globals);
    match check(body, &ty_val, &mut ctx, globals) {
        Ok(_) => {},
        Err(e) => return Err(stage_error("In definition '", name, &e)),
    }
    globals.add_def(name.to_string(), ty.clone(), body.clone());
    Ok(())
}

}

verus! {

/// Binding then unbinding restores the context, and the variable just bound is
/// the one at de Bruijn index 0, with the type it was bound to.
pub proof fn lemma_bind_then_unbind(ctx: SCtx, name: Seq<char>, ty: SValue)
    ensures
        ctx.push((name, ty)).drop_last() == ctx,
        ctx.push((name, ty))[ctx.push((name, ty)).len() - 1 - 0].1 == ty,
{
    assert(ctx.push((name, ty)).drop_last() =~= ctx);
}


impl Clone for TypeCtx {
    fn clone(&self) -> (r: Self)
        ensures
            r@ == self@,
            r.wf() == self.wf(),
    {
        let mut types: Vec<(Name, Value)> = Vec::new();
        let mut i: usize = 0;
        while i < self.types.len()
            invariant
                i <= self.types@.len(),
                types@.len() == i,
                forall|j: int| 0 <= j < i ==> #[trigger] types@[j].0@ == self.types@[j].0@ && types@[j].1@ == self.types@[j].1@,
            decreases self.types@.len() - i,
        {
            let b = &self.types[i];
            types.push((b.0.clone(), b.1.clone()));
            i = i + 1;
        }
        let r = TypeCtx { types, lvl: self.lvl };
        assert(r@ =~= self@);
        r
    }
}

}

verus! {

/// Except for a lambda checked against a function type, checking a term infers
/// the term's type: it fails as inference fails, and otherwise succeeds with the
/// elaborated term exactly when either type is an unknown (metavariable) or the
/// two types are convertible.
pub proof fn lemma_check_by_inference(t: STerm, expected: SValue, ctx: SCtx, g: SGlobals)
    requires
        !(t is Lam && expected is Pi),
    ensures
        check_f(t, expected, ctx, g) == (match infer_f(t, ctx, g) {
            (Err(e), c) => (Err(e), c),
            (Ok((elab, inferred)), c) => if is_meta_value(inferred) || is_meta_value(expected) || convertible(
                inferred,
                expected,
                c.len() as usize,
                g,
            ) {
                (Ok(elab), c)
            } else {
                (Err(mismatch_msg(quote_term(expected, c.len() as usize, g), quote_term(inferred, c.len() as usize, g))), c)
            },
        }),
{
    reveal(infer_f);
    reveal(check_f);
    reveal(check_infer_f);
    reveal(infer_arms_f);
    assert(check_f(t, expected, ctx, g) == check_infer_f(t, expected, ctx, g));
    let (r, c) = infer_f(t, ctx, g);
    match r {
        Err(e) => {},
        Ok((elab, inferred)) => {},
    }
}

}

verus! {

/// An application is well typed only if its argument fits the function: where
/// the function's inferred type is `Π(_ : A). B`, inferring `f x` succeeds only
/// if `x` checks against the domain `A` in the same context, and its type is
/// then `B` at the value of the checked argument.
pub proof fn lemma_infer_app_checks_argument(
    f: STerm,
    x: STerm,
    ctx: SCtx,
    g: SGlobals,
    f_elab: STerm,
    name: Seq<char>,
    dom: SValue,
    cod: SClosure,
)
    requires
        infer_f(f, ctx, g).0 == Ok::<(STerm, SValue), Seq<char>>((f_elab, SValue::Pi(name, Box::new(dom), cod))),
        infer_f(STerm::App(Box::new(f), Box::new(x)), ctx, g).0 is Ok,
    ensures
        check_f(x, dom, ctx, g).0 is Ok,
        infer_f(STerm::App(Box::new(f), Box::new(x)), ctx, g).0 == Ok::<(STerm, SValue), Seq<char>>((
            STerm::App(Box::new(f_elab), Box::new(check_f(x, dom, ctx, g).0->Ok_0)),
            closure_value(cod, eval_value(check_f(x, dom, ctx, g).0->Ok_0, level_env(ctx.len()), g), g),
        )),
{
    reveal(infer_f);
    reveal(check_f);
    reveal(check_infer_f);
    reveal(infer_arms_f);
    lemma_infer_restores_ctx(f, ctx, g);
    lemma_check_restores_ctx(x, dom, ctx, g);
}


/// A variable has the type that the context gives the binder it names: index
/// `i` counts binders outward from the latest, and an index past the context
/// is an error.
pub proof fn lemma_infer_var(i: usize, ctx: SCtx, g: SGlobals)
    ensures
        infer_f(STerm::Var(i), ctx, g).0 is Ok <==> i < ctx.len(),
        i < ctx.len() ==> infer_f(STerm::Var(i), ctx, g).0 == Ok::<(STerm, SValue), Seq<char>>((STerm::Var(i), ctx[ctx.len() - 1 - i].1)),
{
    reveal(infer_f);
    reveal(check_f);
    reveal(check_infer_f);
    reveal(infer_arms_f);
}

/// Literals have their built-in types: numbers are of type `Nat`, booleans of
/// type `Bool`, and a universe lives in the next universe.
pub proof fn lemma_infer_literals(n: u64, b: bool, u: u32, ctx: SCtx, g: SGlobals)
    ensures
        infer_f(STerm::Nat(n), ctx, g).0 == Ok::<(STerm, SValue), Seq<char>>((STerm::Nat(n), neutral_value(SHead::Global("Nat"@)))),
        infer_f(STerm::BoolLit(b), ctx, g).0 == Ok::<(STerm, SValue), Seq<char>>((STerm::BoolLit(b), neutral_value(SHead::Global("Bool"@)))),
        infer_f(STerm::Sort(u), ctx, g).0 == Ok::<(STerm, SValue), Seq<char>>((STerm::Sort(u), SValue::Sort(u.wrapping_add(1)))),
{
    reveal(infer_f);
    reveal(check_f);
    reveal(check_infer_f);
    reveal(infer_arms_f);
}

/// A conditional is well typed only if its condition checks against `Bool`
/// and its else branch against the type of its then branch, which is the type
/// of the whole.
pub proof fn lemma_infer_if_checks_parts(c: STerm, x: STerm, y: STerm, ctx: SCtx, g: SGlobals)
    requires
        infer_f(STerm::If(Box::new(c), Box::new(x), Box::new(y)), ctx, g).0 is Ok,
    ensures
        check_f(c, neutral_value(SHead::Global("Bool"@)), ctx, g).0 is Ok,
        infer_f(x, ctx, g).0 is Ok,
        check_f(y, infer_f(x, ctx, g).0->Ok_0.1, ctx, g).0 is Ok,
        infer_f(STerm::If(Box::new(c), Box::new(x), Box::new(y)), ctx, g).0->Ok_0.1 == infer_f(x, ctx, g).0->Ok_0.1,
{
    reveal(infer_f);
    reveal(check_f);
    reveal(check_infer_f);
    reveal(infer_arms_f);
    lemma_check_restores_ctx(c, bool_type(), ctx, g);
    lemma_infer_restores_ctx(x, ctx, g);
}

/// A `let` is well typed only if the bound value checks against the declared
/// type; the annotation `(e : T)` only if `e` checks against `T`, whose value is
/// then the type of the whole.
pub proof fn lemma_infer_let_ann_check_values(name: Seq<char>, ty: STerm, val: STerm, body: STerm, ctx: SCtx, g: SGlobals)
    ensures
        infer_f(STerm::Let(name, Box::new(ty), Box::new(val), Box::new(body)), ctx, g).0 is Ok ==> {
            &&& infer_f(ty, ctx, g).0 is Ok
            &&& check_f(val, eval_value(infer_f(ty, ctx, g).0->Ok_0.0, level_env(ctx.len()), g), ctx, g).0 is Ok
        },
        infer_f(STerm::Ann(Box::new(val), Box::new(ty)), ctx, g).0 is Ok ==> {
            &&& infer_f(ty, ctx, g).0 is Ok
            &&& check_f(val, eval_value(infer_f(ty, ctx, g).0->Ok_0.0, level_env(ctx.len()), g), ctx, g).0 is Ok
            &&& infer_f(STerm::Ann(Box::new(val), Box::new(ty)), ctx, g).0->Ok_0.1
                == eval_value(infer_f(ty, ctx, g).0->Ok_0.0, level_env(ctx.len()), g)
        },
{
    reveal(infer_f);
    reveal(check_f);
    reveal(check_infer_f);
    reveal(infer_arms_f);
    lemma_infer_restores_ctx(ty, ctx, g);
}


/// Normalizing a variable in the environment of the variables in scope gives
/// the variable back: evaluation looks index `i` up `i` places from the end,
/// and read-back turns the level it finds into the same index.
pub proof fn lemma_normalize_var(i: usize, n: usize, g: SGlobals)
    requires
        i < n,
    ensures
        normal_form(STerm::Var(i), level_env(n as nat), g) == STerm::Var(i),
{
    reveal(eval_f);
    reveal(app_f);
    reveal(closure_f);
    reveal(match_f);
    reveal(quote_f);
    reveal(quote_args_f);
    reveal(quote_neutral_f);
    reveal(quote_spine_f);
    reveal(quote_elim_f);
    reveal(quote_arms_f);
    reveal(quote_arm_f);
    let env = level_env(n as nat);
    let l = (n - 1 - i) as usize;
    assert(env[env.len() - 1 - i] == neutral_value(SHead::Var(l)));
    assert(eval_value(STerm::Var(i), env, g) == neutral_value(SHead::Var(l)));
    assert(n.wrapping_sub(1).wrapping_sub(l) == i);
    assert(head_term(SHead::Var(l), n) == STerm::Var(i));
    let nv = SNeutral { head: SHead::Var(l), spine: Seq::empty() };
    assert(neutral_value(SHead::Var(l)) == SValue::Neutral(nv));
    assert(quote_spine_f(STerm::Var(i), nv.spine, n, g, (EVAL_FUEL - 2) as nat) == Some(STerm::Var(i)));
    assert(quote_neutral_f(nv, n, g, (EVAL_FUEL - 1) as nat) == Some(STerm::Var(i)));
    assert(quote_f(SValue::Neutral(nv), n, g, EVAL_FUEL as nat) == Some(STerm::Var(i)));
    assert(env.len() as usize == n);
}


/// Checking a lambda against a function type checks its body against the
/// codomain at a fresh variable, with the binder given the domain as its type;
/// an annotated binder must have a type convertible with the domain.
pub proof fn lemma_check_lam_against_pi(
    name: Seq<char>,
    a: STerm,
    body: STerm,
    x: Seq<char>,
    dom: SValue,
    cod: SClosure,
    ctx: SCtx,
    g: SGlobals,
)
    requires
        check_f(STerm::Lam(name, Box::new(a), Box::new(body)), SValue::Pi(x, Box::new(dom), cod), ctx, g).0 is Ok,
    ensures
        check_f(body, closure_value(cod, neutral_value(SHead::Var(ctx.len() as usize)), g), ctx.push((name, dom)), g).0 is Ok,
        !(a is Meta) ==> infer_f(a, ctx, g).0 is Ok && convertible(
            eval_value(infer_f(a, ctx, g).0->Ok_0.0, level_env(ctx.len()), g),
            dom,
            ctx.len() as usize,
            g,
        ),
{
    reveal(infer_f);
    reveal(check_f);
    reveal(check_infer_f);
    reveal(infer_arms_f);
    lemma_infer_restores_ctx(a, ctx, g);
    assert(ctx.push((name, dom)).len() - 1 == ctx.len());
}

}
