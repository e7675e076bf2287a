//! Elaboration: turns surface expressions into core terms, resolving bound
//! names to de Bruijn indices.
use vstd::prelude::*;
use crate::ast::{self, Expr, Pattern};
use crate::term::{Term, MatchArm, Name, STerm, SArm, arms_view};
use crate::env::GlobalEnv;
use crate::text::str_eq;

verus! {

/// Local context for name resolution: the bound names, most recent last.
#[derive(Debug)]
pub struct LocalCtx {
    names: Vec<Name>,
}

pub open spec fn names_view(v: Seq<Name>) -> Seq<Seq<char>> {
    v.map_values(|n: Name| n@)
}

impl View for LocalCtx {
    type V = Seq<Seq<char>>;

    closed spec fn view(&self) -> Seq<Seq<char>> {
        names_view(self.names@)
    }
}

/// The de Bruijn index of `x` in `names`, searching from position `i` counted from
/// the most recent binding.
pub open spec fn index_from_end(names: Seq<Seq<char>>, x: Seq<char>, i: nat) -> Option<nat>
    decreases names.len() - i,
{
    if i >= names.len() {
        None
    } else if names[names.len() - 1 - i] == x {
        Some(i)
    } else {
        index_from_end(names, x, i + 1)
    }
}

/// The de Bruijn index of the innermost binding of `x`.
pub open spec fn lookup_index(names: Seq<Seq<char>>, x: Seq<char>) -> Option<nat> {
    index_from_end(names, x, 0)
}

/// The context after one unbinding: the last name goes, if there is one.
pub open spec fn pop_name(names: Seq<Seq<char>>) -> Seq<Seq<char>> {
    if names.len() > 0 { names.drop_last() } else { names }
}

impl LocalCtx {
    pub fn new() -> (r: Self)
        ensures
            r@ == Seq::<Seq<char>>::empty(),
    {
        let r = LocalCtx { names: Vec::new() };
        assert(r@ =~= Seq::<Seq<char>>::empty());
        r
    }

    pub fn bind(&mut self, name: Name)
        ensures
            final(self)@ == old(self)@.push(name@),
    {
        let ghost n = name@;
        self.names.push(name);
        assert(self@ =~= old(self)@.push(n));
    }

    pub fn unbind(&mut self)
        ensures
            final(self)@ == pop_name(old(self)@),
    {
        self.names.pop();
        assert(self@ =~= pop_name(old(self)@));
    }

    /// The de Bruijn index of `name` (0 is the most recently bound).
    pub fn lookup(&self, name: &str) -> (r: Option<usize>)
        ensures
            match r {
                Some(i) => lookup_index(self@, name@) == Some(i as nat),
                None => lookup_index(self@, name@) is None,
            },
    {
        let n = self.names.len();
        let mut i: usize = 0;
        while i < n
            invariant
                n == self.names@.len(),
                i <= n,
                self@.len() == n,
                lookup_index(self@, name@) == index_from_end(self@, name@, i as nat),
            decreases n - i,
        {
            assert(self@[n - 1 - i] == self.names@[n - 1 - i]@);
            if str_eq(self.names[n - 1 - i].as_str(), name) {
                return Some(i);
            }
            i = i + 1;
        }
        None
    }

    pub fn depth(&self) -> (r: usize)
        ensures
            r == self@.len(),
    {
        self.names.len()
    }
}

pub open spec fn nat_pattern_msg() -> Seq<char> {
    "Only 0 literal patterns supported in match; use Nat.succ n instead"@
}

/// The constructor an arm matches and the names it binds; `None` for a nonzero
/// number literal, which is not supported.
pub open spec fn pattern_binding(p: Pattern) -> Option<(Seq<char>, Seq<Seq<char>>)> {
    match p {
        Pattern::Constructor(name, args) => Some((name@, names_view(args@))),
        Pattern::Var(name) => Some((name@, Seq::empty())),
        Pattern::Wildcard => Some(("_"@, Seq::empty())),
        Pattern::Nat(n) => if n == 0 { Some(("zero"@, Seq::empty())) } else { None },
        Pattern::Bool(b) => if b { Some(("true"@, Seq::empty())) } else { Some(("false"@, Seq::empty())) },
    }
}

/// The context after `n` unbindings.
pub open spec fn pop_names(names: Seq<Seq<char>>, n: nat) -> Seq<Seq<char>> {
    if n <= names.len() { names.subrange(0, names.len() - n) } else { Seq::empty() }
}

pub type ElabResult = Result<STerm, Seq<char>>;

/// Elaboration of an expression in a context of bound names: the core term, or
/// an error message, together with the context as elaboration leaves it.
#[verifier::opaque]
pub open spec fn elab_f(e: Expr, names: Seq<Seq<char>>) -> (ElabResult, Seq<Seq<char>>)
    decreases e, 1nat,
{
    match e {
        Expr::Var(name) => match lookup_index(names, name@) {
            Some(i) => (Ok(STerm::Var(i as usize)), names),
            None => (Ok(STerm::Global(name@)), names),
        },
        Expr::Universe(n) => (Ok(STerm::Sort(n.wrapping_add(1))), names),
        Expr::Prop => (Ok(STerm::Sort(0)), names),
        Expr::App(f, x) => {
            let (rf, c1) = elab_f(*f, names);
            match rf {
                Err(m) => (Err(m), c1),
                Ok(ft) => {
                    let (rx, c2) = elab_f(*x, c1);
                    match rx {
                        Err(m) => (Err(m), c2),
                        Ok(xt) => (Ok(STerm::App(Box::new(ft), Box::new(xt))), c2),
                    }
                },
            }
        },
        Expr::Lam(name, ty, body) => {
            let (rt, c1) = elab_f(*ty, names);
            match rt {
                Err(m) => (Err(m), c1),
                Ok(tt) => {
                    let (rb, c2) = elab_f(*body, c1.push(name@));
                    match rb {
                        Err(m) => (Err(m), c2),
                        Ok(bt) => (Ok(STerm::Lam(name@, Box::new(tt), Box::new(bt))), pop_name(c2)),
                    }
                },
            }
        },
        Expr::Pi(name, ty, body) => {
            let (rt, c1) = elab_f(*ty, names);
            match rt {
                Err(m) => (Err(m), c1),
                Ok(tt) => {
                    let (rb, c2) = elab_f(*body, c1.push(name@));
                    match rb {
                        Err(m) => (Err(m), c2),
                        Ok(bt) => (Ok(STerm::Pi(name@, Box::new(tt), Box::new(bt))), pop_name(c2)),
                    }
                },
            }
        },
        Expr::Arrow(a, b) => {
            let (ra, c1) = elab_f(*a, names);
            match ra {
                Err(m) => (Err(m), c1),
                Ok(at) => {
                    let (rb, c2) = elab_f(*b, c1.push("_"@));
                    match rb {
                        Err(m) => (Err(m), c2),
                        Ok(bt) => (Ok(STerm::Pi("_"@, Box::new(at), Box::new(bt))), pop_name(c2)),
                    }
                },
            }
        },
        Expr::Let(name, ty, val, body) => {
            let (rt, c1): (ElabResult, Seq<Seq<char>>) = match ty {
                Some(t) => elab_f(*t, names),
                None => (Ok(STerm::Meta(0)), names),
            };
            match rt {
                Err(m) => (Err(m), c1),
                Ok(tt) => {
                    let (rv, c2) = elab_f(*val, c1);
                    match rv {
                        Err(m) => (Err(m), c2),
                        Ok(vt) => {
                            let (rb, c3) = elab_f(*body, c2.push(name@));
                            match rb {
                                Err(m) => (Err(m), c3),
                                Ok(bt) => (Ok(STerm::Let(name@, Box::new(tt), Box::new(vt), Box::new(bt))), pop_name(c3)),
                            }
                        },
                    }
                },
            }
        },
        Expr::Nat(n) => (Ok(STerm::Nat(n)), names),
        Expr::BoolLit(b) => (Ok(STerm::BoolLit(b)), names),
        Expr::If(c, x, y) => {
            let (rc, c1) = elab_f(*c, names);
            match rc {
                Err(m) => (Err(m), c1),
                Ok(ct) => {
                    let (rx, c2) = elab_f(*x, c1);
                    match rx {
                        Err(m) => (Err(m), c2),
                        Ok(xt) => {
                            let (ry, c3) = elab_f(*y, c2);
                            match ry {
                                Err(m) => (Err(m), c3),
                                Ok(yt) => (Ok(STerm::If(Box::new(ct), Box::new(xt), Box::new(yt))), c3),
                            }
                        },
                    }
                },
            }
        },
        Expr::Match(s, arms) => {
            let (rs, c1) = elab_f(*s, names);
            match rs {
                Err(m) => (Err(m), c1),
                Ok(st) => {
                    let (ra, c2) = elab_arms_f(arms@, c1);
                    match ra {
                        Err(m) => (Err(m), c2),
                        Ok(core_arms) => (Ok(STerm::Match { scrutinee: Box::new(st), motive: None, arms: core_arms }), c2),
                    }
                },
            }
        },
        Expr::Hole => (Ok(STerm::Meta(0)), names),
        Expr::Paren(inner) => elab_f(*inner, names),
        Expr::Ann(x, ty) => {
            let (rx, c1) = elab_f(*x, names);
            match rx {
                Err(m) => (Err(m), c1),
                Ok(xt) => {
                    let (rt, c2) = elab_f(*ty, c1);
                    match rt {
                        Err(m) => (Err(m), c2),
                        Ok(tt) => (Ok(STerm::Ann(Box::new(xt), Box::new(tt))), c2),
                    }
                },
            }
        },
    }
}

/// Elaboration of match arms in order, each body with its pattern's names bound.
#[verifier::opaque]
pub open spec fn elab_arms_f(arms: Seq<ast::MatchArm>, names: Seq<Seq<char>>) -> (Result<Seq<SArm>, Seq<char>>, Seq<Seq<char>>)
    decreases arms, 0nat,
{
    if arms.len() == 0 {
        (Ok(Seq::empty()), names)
    } else {
        let (r, c) = elab_arms_f(arms.subrange(0, arms.len() - 1), names);
        match r {
            Err(m) => (Err(m), c),
            Ok(es) => {
                let a = arms[arms.len() - 1];
                match pattern_binding(a.pattern) {
                    None => (Err(nat_pattern_msg()), c),
                    Some((ctor, bound)) => {
                        let (rb, c2) = elab_f(a.body, c + bound);
                        match rb {
                            Err(m) => (Err(m), c2),
                            Ok(bt) => (
                                Ok(es.push(SArm { ctor, arity: bound.len() as usize, body: bt })),
                                pop_names(c2, bound.len()),
                            ),
                        }
                    },
                }
            },
        }
    }
}

}

verus! {

pub open spec fn elab_result_view(r: Result<Term, String>) -> ElabResult {
    match r {
        Ok(t) => Ok(t@),
        Err(m) => Err(m@),
    }
}

fn clone_names(v: &Vec<Name>) -> (r: Vec<Name>)
    ensures
        r@ == v@,
{
    let mut r: Vec<Name> = Vec::new();
    let mut i: usize = 0;
    while i < v.len()
        invariant
            i <= v@.len(),
            r@ == v@.subrange(0, i as int),
        decreases v@.len() - i,
    {
        r.push(v[i].clone());
        i = i + 1;
        assert(r@ =~= v@.subrange(0, i as int));
    }
    assert(v@.subrange(0, v@.len() as int) =~= v@);
    r
}

/// Once a prefix of the arms fails, elaborating all of them fails the same way.
proof fn lemma_elab_arms_err_extends(arms: Seq<ast::MatchArm>, i: int, names: Seq<Seq<char>>)
    requires
        0 <= i <= arms.len(),
        elab_arms_f(arms.subrange(0, i), names).0 is Err,
    ensures
        elab_arms_f(arms, names) == elab_arms_f(arms.subrange(0, i), names),
    decreases arms.len(),
{
    if i == arms.len() {
        assert(arms.subrange(0, i) =~= arms);
    } else {
        let pre = arms.subrange(0, arms.len() - 1);
        assert(pre.subrange(0, i) =~= arms.subrange(0, i));
        lemma_elab_arms_err_extends(pre, i, names);
        reveal(elab_f);
        reveal(elab_arms_f);
    }
}

/// Elaborate a surface expression to a core term.
pub fn elaborate_expr(expr: &Expr, ctx: &mut LocalCtx, globals: &GlobalEnv) -> (r: Result<Term, String>)
    ensures
        elab_result_view(r) == elab_f(*expr, old(ctx)@).0,
        final(ctx)@ == elab_f(*expr, old(ctx)@).1,
    decreases expr, 2nat,
{
    proof {
        reveal(elab_f);
        reveal(elab_arms_f);
    }
    match expr {
        Expr::Var(name) => {
            if let Some(idx) = ctx.lookup(name.as_str()) {
                return Ok(Term::Var(idx));
            }
            if globals.lookup(name.as_str()).is_some() {
                return Ok(Term::Global(name.clone()));
            }
            // Unknown names stay global references (they may be defined later).
            Ok(Term::Global(name.clone()))
        },
        Expr::Universe(n) => Ok(Term::Sort(n.wrapping_add(1))),
        Expr::Prop => Ok(Term::Sort(0)),
        Expr::App(..) => elaborate_app(expr, ctx, globals),
        Expr::Lam(..) => elaborate_lam(expr, ctx, globals),
        Expr::Pi(..) => elaborate_pi(expr, ctx, globals),
        Expr::Arrow(..) => elaborate_arrow(expr, ctx, globals),
        Expr::Let(..) => elaborate_let(expr, ctx, globals),
        Expr::Nat(n) => Ok(Term::Nat(*n)),
        Expr::BoolLit(b) => Ok(Term::BoolLit(*b)),
        Expr::If(..) => elaborate_if(expr, ctx, globals),
        Expr::Match(..) => elaborate_match(expr, ctx, globals),
        Expr::Hole => Ok(Term::Meta(0)),
        Expr::Paren(e) => elaborate_expr(e, ctx, globals),
        Expr::Ann(..) => elaborate_ann(expr, ctx, globals),
    }
}


fn elaborate_app(expr: &Expr, ctx: &mut LocalCtx, globals: &GlobalEnv) -> (r: Result<Term, String>)
    requires
        *expr is App,
    ensures
        elab_result_view(r) == elab_f(*expr, old(ctx)@).0,
        final(ctx)@ == elab_f(*expr, old(ctx)@).1,
    decreases expr, 0nat,
{
    proof {
        reveal(elab_f);
        reveal(elab_arms_f);
    }
    if let Expr::App(f, x) = expr {
        let f_term = match elaborate_expr(f, ctx, globals) {
            Ok(t) => t,
            Err(m) => return Err(m),
        };
        let x_term = match elaborate_expr(x, ctx, globals) {
            Ok(t) => t,
            Err(m) => return Err(m),
        };
        Ok(Term::App(Box::new(f_term), Box::new(x_term)))
    } else {
        proof {
            assert(false);
        }
        Err(String::new())
    }
}

fn elaborate_lam(expr: &Expr, ctx: &mut LocalCtx, globals: &GlobalEnv) -> (r: Result<Term, String>)
    requires
        *expr is Lam,
    ensures
        elab_result_view(r) == elab_f(*expr, old(ctx)@).0,
        final(ctx)@ == elab_f(*expr, old(ctx)@).1,
    decreases expr, 0nat,
{
    proof {
        reveal(elab_f);
        reveal(elab_arms_f);
    }
    if let Expr::Lam(name, ty, body) = expr {
        let ty_term = match elaborate_expr(ty, ctx, globals) {
            Ok(t) => t,
            Err(m) => return Err(m),
        };
        ctx.bind(name.clone());
        let body_term = match elaborate_expr(body, ctx, globals) {
            Ok(t) => t,
            Err(m) => return Err(m),
        };
        ctx.unbind();
        Ok(Term::Lam(name.clone(), Box::new(ty_term), Box::new(body_term)))
    } else {
        proof {
            assert(false);
        }
        Err(String::new())
    }
}

fn elaborate_pi(expr: &Expr, ctx: &mut LocalCtx, globals: &GlobalEnv) -> (r: Result<Term, String>)
    requires
        *expr is Pi,
    ensures
        elab_result_view(r) == elab_f(*expr, old(ctx)@).0,
        final(ctx)@ == elab_f(*expr, old(ctx)@).1,
    decreases expr, 0nat,
{
    proof {
        reveal(elab_f);
        reveal(elab_arms_f);
    }
    if let Expr::Pi(name, ty, body) = expr {
        let ty_term = match elaborate_expr(ty, ctx, globals) {
            Ok(t) => t,
            Err(m) => return Err(m),
        };
        ctx.bind(name.clone());
        let body_term = match elaborate_expr(body, ctx, globals) {
            Ok(t) => t,
            Err(m) => return Err(m),
        };
        ctx.unbind();
        Ok(Term::Pi(name.clone(), Box::new(ty_term), Box::new(body_term)))
    } else {
        proof {
            assert(false);
        }
        Err(String::new())
    }
}

fn elaborate_arrow(expr: &Expr, ctx: &mut LocalCtx, globals: &GlobalEnv) -> (r: Result<Term, String>)
    requires
        *expr is Arrow,
    ensures
        elab_result_view(r) == elab_f(*expr, old(ctx)@).0,
        final(ctx)@ == elab_f(*expr, old(ctx)@).1,
    decreases expr, 0nat,
{
    proof {
        reveal(elab_f);
        reveal(elab_arms_f);
    }
    if let Expr::Arrow(a, b) = expr {
        let a_term = match elaborate_expr(a, ctx, globals) {
            Ok(t) => t,
            Err(m) => return Err(m),
        };
        ctx.bind("_".to_string());
        let b_term = match elaborate_expr(b, ctx, globals) {
            Ok(t) => t,
            Err(m) => return Err(m),
        };
        ctx.unbind();
        Ok(Term::Pi("_".to_string(), Box::new(a_term), Box::new(b_term)))
    } else {
        proof {
            assert(false);
        }
        Err(String::new())
    }
}

fn elaborate_let(expr: &Expr, ctx: &mut LocalCtx, globals: &GlobalEnv) -> (r: Result<Term, String>)
    requires
        *expr is Let,
    ensures
        elab_result_view(r) == elab_f(*expr, old(ctx)@).0,
        final(ctx)@ == elab_f(*expr, old(ctx)@).1,
    decreases expr, 0nat,
{
    proof {
        reveal(elab_f);
        reveal(elab_arms_f);
    }
    if let Expr::Let(name, ty, val, body) = expr {
        let ty_term = match ty {
            Some(t) => match elaborate_expr(t, ctx, globals) {
                Ok(t) => t,
                Err(m) => return Err(m),
            },
            None => Term::Meta(0),
        };
        proof {
            if ty.is_some() {
                assert(elab_f(*ty.unwrap(), old(ctx)@) == (Ok::<STerm, Seq<char>>(ty_term@), ctx@));
            } else {
                assert(ctx@ == old(ctx)@);
                assert(ty_term@ == STerm::Meta(0));
            }
        }
        let val_term = match elaborate_expr(val, ctx, globals) {
            Ok(t) => t,
            Err(m) => return Err(m),
        };
        ctx.bind(name.clone());
        let body_term = match elaborate_expr(body, ctx, globals) {
            Ok(t) => t,
            Err(m) => return Err(m),
        };
        ctx.unbind();
        Ok(Term::Let(name.clone(), Box::new(ty_term), Box::new(val_term), Box::new(body_term)))
    } else {
        proof {
            assert(false);
        }
        Err(String::new())
    }
}

fn elaborate_if(expr: &Expr, ctx: &mut LocalCtx, globals: &GlobalEnv) -> (r: Result<Term, String>)
    requires
        *expr is If,
    ensures
        elab_result_view(r) == elab_f(*expr, old(ctx)@).0,
        final(ctx)@ == elab_f(*expr, old(ctx)@).1,
    decreases expr, 0nat,
{
    proof {
        reveal(elab_f);
        reveal(elab_arms_f);
    }
    if let Expr::If(c, t, e) = expr {
        let c_term = match elaborate_expr(c, ctx, globals) {
            Ok(t) => t,
            Err(m) => return Err(m),
        };
        let t_term = match elaborate_expr(t, ctx, globals) {
            Ok(t) => t,
            Err(m) => return Err(m),
        };
        let e_term = match elaborate_expr(e, ctx, globals) {
            Ok(t) => t,
            Err(m) => return Err(m),
        };
        Ok(Term::If(Box::new(c_term), Box::new(t_term), Box::new(e_term)))
    } else {
        proof {
            assert(false);
        }
        Err(String::new())
    }
}

fn elaborate_match(expr: &Expr, ctx: &mut LocalCtx, globals: &GlobalEnv) -> (r: Result<Term, String>)
    requires
        *expr is Match,
    ensures
        elab_result_view(r) == elab_f(*expr, old(ctx)@).0,
        final(ctx)@ == elab_f(*expr, old(ctx)@).1,
    decreases expr, 0nat,
{
    proof {
        reveal(elab_f);
        reveal(elab_arms_f);
    }
    if let Expr::Match(scrutinee, arms) = expr {
        let scrut_term = match elaborate_expr(scrutinee, ctx, globals) {
            Ok(t) => t,
            Err(m) => return Err(m),
        };
        let core_arms = match elaborate_arms(arms, ctx, globals) {
            Ok(a) => a,
            Err(m) => return Err(m),
        };
        assert(crate::term::opt_term_view(None) == None::<Box<STerm>>);
        Ok(Term::Match { scrutinee: Box::new(scrut_term), motive: None, arms: core_arms })
    } else {
        proof {
            assert(false);
        }
        Err(String::new())
    }
}

fn elaborate_ann(expr: &Expr, ctx: &mut LocalCtx, globals: &GlobalEnv) -> (r: Result<Term, String>)
    requires
        *expr is Ann,
    ensures
        elab_result_view(r) == elab_f(*expr, old(ctx)@).0,
        final(ctx)@ == elab_f(*expr, old(ctx)@).1,
    decreases expr, 0nat,
{
    proof {
        reveal(elab_f);
        reveal(elab_arms_f);
    }
    if let Expr::Ann(e, ty) = expr {
        let e_term = match elaborate_expr(e, ctx, globals) {
            Ok(t) => t,
            Err(m) => return Err(m),
        };
        let ty_term = match elaborate_expr(ty, ctx, globals) {
            Ok(t) => t,
            Err(m) => return Err(m),
        };
        Ok(Term::Ann(Box::new(e_term), Box::new(ty_term)))
    } else {
        proof {
            assert(false);
        }
        Err(String::new())
    }
}

pub open spec fn elab_arms_view(r: Result<Vec<MatchArm>, String>) -> Result<Seq<SArm>, Seq<char>> {
    match r {
        Ok(a) => Ok(arms_view(a@)),
        Err(m) => Err(m@),
    }
}

/// Elaborate the arms of a match in order.
fn elaborate_arms(arms: &Vec<ast::MatchArm>, ctx: &mut LocalCtx, globals: &GlobalEnv) -> (r: Result<Vec<MatchArm>, String>)
    ensures
        elab_arms_view(r) == elab_arms_f(arms@, old(ctx)@).0,
        final(ctx)@ == elab_arms_f(arms@, old(ctx)@).1,
    decreases arms, 1nat,
{
    let ghost c0 = ctx@;
    proof {
        reveal(elab_f);
        reveal(elab_arms_f);
        assert(arms@.subrange(0, 0) =~= Seq::<ast::MatchArm>::empty());
    }
    let mut core_arms: Vec<MatchArm> = Vec::new();
    let n = arms.len();
    let mut i: usize = 0;
    while i < n
        invariant
            n == arms@.len(),
            i <= n,
            c0 == old(ctx)@,
            elab_arms_f(arms@.subrange(0, i as int), c0) == (Ok::<Seq<SArm>, Seq<char>>(arms_view(core_arms@)), ctx@),
        decreases n - i,
    {
        let arm = &arms[i];
        assert(decreases_to!(*arms => arms@[i as int]));
        let ghost c = ctx@;
        let ghost pre = arms@.subrange(0, i + 1);
        proof {
            reveal(elab_f);
            reveal(elab_arms_f);
            assert(pre.subrange(0, pre.len() - 1) =~= arms@.subrange(0, i as int));
            assert(pre[pre.len() - 1] == arms@[i as int]);
        }
        let (ctor_name, bound_names): (Name, Vec<Name>) = match &arm.pattern {
            Pattern::Constructor(name, args) => (name.clone(), clone_names(args)),
            Pattern::Var(name) => (name.clone(), Vec::new()),
            Pattern::Wildcard => ("_".to_string(), Vec::new()),
            Pattern::Nat(k) => {
                if *k == 0 {
                    ("zero".to_string(), Vec::new())
                } else {
                    proof {
                        reveal(elab_f);
                        reveal(elab_arms_f);
                        lemma_elab_arms_err_extends(arms@, i + 1, c0);
                    }
                    return Err("Only 0 literal patterns supported in match; use Nat.succ n instead".to_string());
                }
            },
            Pattern::Bool(b) => {
                if *b {
                    ("true".to_string(), Vec::new())
                } else {
                    ("false".to_string(), Vec::new())
                }
            },
        };
        let ghost bound = names_view(bound_names@);
        assert(pattern_binding(arm.pattern) == Some((ctor_name@, bound)));
        let arity = bound_names.len();
        let mut k: usize = 0;
        while k < arity
            invariant
                arity == bound_names@.len(),
                bound == names_view(bound_names@),
                k <= arity,
                ctx@ == c + bound.subrange(0, k as int),
            decreases arity - k,
        {
            ctx.bind(bound_names[k].clone());
            k = k + 1;
            assert(ctx@ =~= c + bound.subrange(0, k as int));
        }
        assert(bound.subrange(0, arity as int) =~= bound);
        let ghost c2_start = ctx@;
        let body_term = match elaborate_expr(&arm.body, ctx, globals) {
            Ok(t) => t,
            Err(m) => {
                proof {
                    reveal(elab_f);
                    reveal(elab_arms_f);
                    assert(elab_arms_f(pre, c0) == (Err::<Seq<SArm>, Seq<char>>(m@), ctx@));
                    lemma_elab_arms_err_extends(arms@, i + 1, c0);
                }
                return Err(m);
            },
        };
        let ghost c2 = ctx@;
        let mut k2: usize = 0;
        while k2 < arity
            invariant
                k2 <= arity,
                ctx@ == pop_names(c2, k2 as nat),
            decreases arity - k2,
        {
            ctx.unbind();
            k2 = k2 + 1;
            assert(ctx@ =~= pop_names(c2, k2 as nat));
        }
        let ghost old_core = core_arms@;
        core_arms.push(MatchArm { ctor: ctor_name, arity, body: body_term });
        proof {
            assert(core_arms@.drop_last() =~= old_core);
            reveal(elab_f);
            reveal(elab_arms_f);
        }
        i = i + 1;
    }
    assert(arms@.subrange(0, n as int) =~= arms@);
    Ok(core_arms)
}

/// Elaborate the type of a constructor of an inductive definition.
pub fn elaborate_constructor_type(
    expr: &Expr,
    _ind_name: &str,
    _params: &[(ast::Name, Expr)],
    ctx: &mut LocalCtx,
    globals: &GlobalEnv,
) -> (r: Result<Term, String>)
    ensures
        elab_result_view(r) == elab_f(*expr, old(ctx)@).0,
        final(ctx)@ == elab_f(*expr, old(ctx)@).1,
{
    elaborate_expr(expr, ctx, globals)
}

}

verus! {

/// Elaboration that succeeds leaves the context of bound names as it found it.
pub proof fn lemma_elab_restores_names(e: Expr, names: Seq<Seq<char>>)
    ensures
        elab_f(e, names).0 is Ok ==> elab_f(e, names).1 == names,
    decreases e, 1nat,
{
    reveal(elab_f);
    reveal(elab_arms_f);
    match e {
        Expr::App(f, x) => {
            lemma_elab_restores_names(*f, names);
            lemma_elab_restores_names(*x, elab_f(*f, names).1);
        },
        Expr::Lam(name, ty, body) | Expr::Pi(name, ty, body) => {
            lemma_elab_restores_names(*ty, names);
            let c1 = elab_f(*ty, names).1;
            lemma_elab_restores_names(*body, c1.push(name@));
            assert(pop_name(c1.push(name@)) =~= c1);
        },
        Expr::Arrow(a, b) => {
            lemma_elab_restores_names(*a, names);
            let c1 = elab_f(*a, names).1;
            lemma_elab_restores_names(*b, c1.push("_"@));
            assert(pop_name(c1.push("_"@)) =~= c1);
        },
        Expr::Let(name, ty, val, body) => {
            let c1 = match ty {
                Some(t) => {
                    lemma_elab_restores_names(*t, names);
                    elab_f(*t, names).1
                },
                None => names,
            };
            lemma_elab_restores_names(*val, c1);
            let c2 = elab_f(*val, c1).1;
            lemma_elab_restores_names(*body, c2.push(name@));
            assert(pop_name(c2.push(name@)) =~= c2);
        },
        Expr::If(c, x, y) => {
            lemma_elab_restores_names(*c, names);
            let c1 = elab_f(*c, names).1;
            lemma_elab_restores_names(*x, c1);
            lemma_elab_restores_names(*y, elab_f(*x, c1).1);
        },
        Expr::Match(s, arms) => {
            lemma_elab_restores_names(*s, names);
            lemma_elab_arms_restore_names(arms@, elab_f(*s, names).1);
        },
        Expr::Paren(inner) => lemma_elab_restores_names(*inner, names),
        Expr::Ann(x, ty) => {
            lemma_elab_restores_names(*x, names);
            lemma_elab_restores_names(*ty, elab_f(*x, names).1);
        },
        _ => {},
    }
}

/// Elaborating match arms, when it succeeds, leaves the context of bound names as it found it.
pub proof fn lemma_elab_arms_restore_names(arms: Seq<ast::MatchArm>, names: Seq<Seq<char>>)
    ensures
        elab_arms_f(arms, names).0 is Ok ==> elab_arms_f(arms, names).1 == names,
    decreases arms, 0nat,
{
    reveal(elab_f);
    reveal(elab_arms_f);
    if arms.len() > 0 {
        let pre = arms.subrange(0, arms.len() - 1);
        lemma_elab_arms_restore_names(pre, names);
        let c = elab_arms_f(pre, names).1;
        let a = arms[arms.len() - 1];
        if let Some((ctor, bound)) = pattern_binding(a.pattern) {
            lemma_elab_restores_names(a.body, c + bound);
            assert(pop_names(c + bound, bound.len()) =~= c);
        }
    }
}

}

verus! {

/// A name just bound resolves to de Bruijn index 0, and unbinding it restores the context.
pub proof fn lemma_bind_then_lookup(names: Seq<Seq<char>>, name: Seq<char>)
    ensures
        lookup_index(names.push(name), name) == Some(0nat),
        pop_name(names.push(name)) == names,
{
    assert(names.push(name).drop_last() =~= names);
}

/// A name bound under another binder resolves one index further out.
pub proof fn lemma_lookup_under_binder(names: Seq<Seq<char>>, name: Seq<char>, other: Seq<char>)
    requires
        other != name,
    ensures
        lookup_index(names.push(other), name) == match lookup_index(names, name) {
            Some(i) => Some(i + 1),
            None => None::<nat>,
        },
{
    lemma_index_from_end_shift(names, other, name, 0);
    let s = names.push(other);
    assert(s[s.len() - 1 - 0] == other);
}

proof fn lemma_index_from_end_shift(names: Seq<Seq<char>>, other: Seq<char>, name: Seq<char>, i: nat)
    requires
        other != name,
    ensures
        index_from_end(names.push(other), name, i + 1) == match index_from_end(names, name, i) {
            Some(k) => Some(k + 1),
            None => None::<nat>,
        },
    decreases names.len() - i,
{
    let s = names.push(other);
    if i < names.len() {
        assert(s[s.len() - 1 - (i + 1)] == names[names.len() - 1 - i]);
        lemma_index_from_end_shift(names, other, name, i + 1);
    }
}


impl Clone for LocalCtx {
    fn clone(&self) -> (r: Self)
        ensures
            r@ == self@,
    {
        LocalCtx { names: clone_names(&self.names) }
    }
}

}

verus! {

/// An arrow binds an anonymous variable over its codomain: `A -> B` elaborates
/// to `Π(_ : A). B`, with `A` elaborated among the surrounding names and `B`
/// under one more binder; it fails as the first of the two fails.
pub proof fn lemma_elab_arrow(a: Expr, b: Expr, names: Seq<Seq<char>>)
    ensures
        elab_f(Expr::Arrow(Box::new(a), Box::new(b)), names).0 == match elab_f(a, names).0 {
            Err(m) => Err(m),
            Ok(at) => match elab_f(b, names.push("_"@)).0 {
                Err(m) => Err(m),
                Ok(bt) => Ok::<STerm, Seq<char>>(STerm::Pi("_"@, Box::new(at), Box::new(bt))),
            },
        },
{
    reveal(elab_f);
    reveal(elab_arms_f);
    lemma_elab_restores_names(a, names);
}

/// In the codomain of an arrow, a name bound outside resolves one index
/// further out than it does outside the arrow.
pub proof fn lemma_arrow_codomain_shifts_names(a: Expr, x: Name, names: Seq<Seq<char>>)
    requires
        x@ != "_"@,
        lookup_index(names, x@) is Some,
        elab_f(a, names).0 is Ok,
    ensures
        elab_f(Expr::Arrow(Box::new(a), Box::new(Expr::Var(x))), names).0 == Ok::<STerm, Seq<char>>(STerm::Pi(
            "_"@,
            Box::new(elab_f(a, names).0->Ok_0),
            Box::new(STerm::Var((lookup_index(names, x@)->Some_0 + 1) as usize)),
        )),
{
    lemma_elab_arrow(a, Expr::Var(x), names);
    lemma_lookup_under_binder(names, x@, "_"@);
    reveal(elab_f);
    reveal(elab_arms_f);
}


/// A named binder scopes its name over its body only: `Π(x : A). B` and
/// `fun (x : A) => B` elaborate `A` among the surrounding names and `B` with
/// `x` bound innermost, and fail as the first of the two fails.
pub proof fn lemma_elab_binder(x: Name, a: Expr, b: Expr, names: Seq<Seq<char>>)
    ensures
        elab_f(Expr::Pi(x, Box::new(a), Box::new(b)), names).0 == match elab_f(a, names).0 {
            Err(m) => Err(m),
            Ok(at) => match elab_f(b, names.push(x@)).0 {
                Err(m) => Err(m),
                Ok(bt) => Ok::<STerm, Seq<char>>(STerm::Pi(x@, Box::new(at), Box::new(bt))),
            },
        },
        elab_f(Expr::Lam(x, Box::new(a), Box::new(b)), names).0 == match elab_f(a, names).0 {
            Err(m) => Err(m),
            Ok(at) => match elab_f(b, names.push(x@)).0 {
                Err(m) => Err(m),
                Ok(bt) => Ok::<STerm, Seq<char>>(STerm::Lam(x@, Box::new(at), Box::new(bt))),
            },
        },
{
    reveal(elab_f);
    reveal(elab_arms_f);
    lemma_elab_restores_names(a, names);
}

/// A `let` scopes its name over its body only: the type annotation and the
/// bound value are elaborated among the surrounding names.
pub proof fn lemma_elab_let(x: Name, ty: Expr, val: Expr, body: Expr, names: Seq<Seq<char>>)
    ensures
        elab_f(Expr::Let(x, Some(Box::new(ty)), Box::new(val), Box::new(body)), names).0 == match elab_f(ty, names).0 {
            Err(m) => Err(m),
            Ok(tt) => match elab_f(val, names).0 {
                Err(m) => Err(m),
                Ok(vt) => match elab_f(body, names.push(x@)).0 {
                    Err(m) => Err(m),
                    Ok(bt) => Ok::<STerm, Seq<char>>(STerm::Let(x@, Box::new(tt), Box::new(vt), Box::new(bt))),
                },
            },
        },
{
    reveal(elab_f);
    reveal(elab_arms_f);
    lemma_elab_restores_names(ty, names);
    lemma_elab_restores_names(val, names);
}


/// The search from position `i` finds the innermost binding of `x` at or past
/// `i` binders out, or there is none.
proof fn lemma_index_from_end_finds(names: Seq<Seq<char>>, x: Seq<char>, i: nat)
    ensures
        match index_from_end(names, x, i) {
            Some(k) => i <= k < names.len() && names[names.len() - 1 - k] == x
                && forall|j: int| i <= j < k ==> #[trigger] names[names.len() - 1 - j] != x,
            None => forall|j: int| i <= j < names.len() ==> #[trigger] names[names.len() - 1 - j] != x,
        },
    decreases names.len() - i,
{
    if i < names.len() {
        lemma_index_from_end_finds(names, x, i + 1);
    }
}

/// A name refers to its innermost binding: it elaborates to the de Bruijn index
/// `k` of the closest bound occurrence, counted outward from the latest binder,
/// and to a global of that name when it is not bound at all.
pub proof fn lemma_elab_var(x: Name, names: Seq<Seq<char>>)
    requires
        names.len() <= usize::MAX,
    ensures
        match elab_f(Expr::Var(x), names).0 {
            Ok(STerm::Var(k)) => k < names.len() && names[names.len() - 1 - k] == x@
                && forall|j: int| 0 <= j < k ==> #[trigger] names[names.len() - 1 - j] != x@,
            Ok(STerm::Global(n)) => n == x@ && forall|j: int| 0 <= j < names.len() ==> #[trigger] names[j] != x@,
            _ => false,
        },
{
    reveal(elab_f);
    reveal(elab_arms_f);
    lemma_index_from_end_finds(names, x@, 0);
    if lookup_index(names, x@) is None {
        assert forall|j: int| 0 <= j < names.len() implies #[trigger] names[j] != x@ by {
            let jj = names.len() - 1 - j;
            assert(names[names.len() - 1 - jj] == names[j]);
        }
    }
}

}
