//! Core type theory terms: the internal representation after elaboration.
use vstd::prelude::*;

verus! {

pub type Name = String;

/// De Bruijn index for bound variables.
pub type DbIndex = usize;

/// De Bruijn level for free variables.
pub type DbLevel = usize;

pub type MetaId = usize;

/// Core terms of the type theory.
#[derive(Debug)]
pub enum Term {
    Var(DbIndex),
    Global(Name),
    Sort(u32),
    Pi(Name, Box<Term>, Box<Term>),
    Lam(Name, Box<Term>, Box<Term>),
    App(Box<Term>, Box<Term>),
    Let(Name, Box<Term>, Box<Term>, Box<Term>),
    Nat(u64),
    BoolLit(bool),
    Constructor(Name, Name),
    Recursor(Name),
    Match { scrutinee: Box<Term>, motive: Option<Box<Term>>, arms: Vec<MatchArm> },
    If(Box<Term>, Box<Term>, Box<Term>),
    Meta(MetaId),
    Ann(Box<Term>, Box<Term>),
}

#[derive(Debug)]
pub struct MatchArm {
    pub ctor: Name,
    pub arity: usize,
    pub body: Term,
}

/// Mathematical model of a term: names as character sequences, arms as a sequence.
pub enum STerm {
    Var(usize),
    Global(Seq<char>),
    Sort(u32),
    Pi(Seq<char>, Box<STerm>, Box<STerm>),
    Lam(Seq<char>, Box<STerm>, Box<STerm>),
    App(Box<STerm>, Box<STerm>),
    Let(Seq<char>, Box<STerm>, Box<STerm>, Box<STerm>),
    Nat(u64),
    BoolLit(bool),
    Constructor(Seq<char>, Seq<char>),
    Recursor(Seq<char>),
    Match { scrutinee: Box<STerm>, motive: Option<Box<STerm>>, arms: Seq<SArm> },
    If(Box<STerm>, Box<STerm>, Box<STerm>),
    Meta(usize),
    Ann(Box<STerm>, Box<STerm>),
}

pub struct SArm {
    pub ctor: Seq<char>,
    pub arity: usize,
    pub body: STerm,
}

pub open spec fn term_view(t: Term) -> STerm
    decreases t,
{
    match t {
        Term::Var(i) => STerm::Var(i),
        Term::Global(n) => STerm::Global(n@),
        Term::Sort(u) => STerm::Sort(u),
        Term::Pi(n, a, b) => STerm::Pi(n@, Box::new(term_view(*a)), Box::new(term_view(*b))),
        Term::Lam(n, a, b) => STerm::Lam(n@, Box::new(term_view(*a)), Box::new(term_view(*b))),
        Term::App(f, x) => STerm::App(Box::new(term_view(*f)), Box::new(term_view(*x))),
        Term::Let(n, ty, v, b) => STerm::Let(n@, Box::new(term_view(*ty)), Box::new(term_view(*v)), Box::new(term_view(*b))),
        Term::Nat(n) => STerm::Nat(n),
        Term::BoolLit(b) => STerm::BoolLit(b),
        Term::Constructor(i, c) => STerm::Constructor(i@, c@),
        Term::Recursor(i) => STerm::Recursor(i@),
        Term::Match { scrutinee, motive, arms } => STerm::Match {
            scrutinee: Box::new(term_view(*scrutinee)),
            motive: opt_term_view(motive),
            arms: arms_view(arms@),
        },
        Term::If(c, x, y) => STerm::If(Box::new(term_view(*c)), Box::new(term_view(*x)), Box::new(term_view(*y))),
        Term::Meta(m) => STerm::Meta(m),
        Term::Ann(e, ty) => STerm::Ann(Box::new(term_view(*e)), Box::new(term_view(*ty))),
    }
}

pub open spec fn opt_term_view(m: Option<Box<Term>>) -> Option<Box<STerm>>
    decreases m,
{
    match m {
        Some(t) => Some(Box::new(term_view(*t))),
        None => None,
    }
}

pub open spec fn arms_view(arms: Seq<MatchArm>) -> Seq<SArm>
    decreases arms,
{
    if arms.len() == 0 {
        Seq::empty()
    } else {
        let a = arms.last();
        arms_view(arms.drop_last()).push(SArm { ctor: a.ctor@, arity: a.arity, body: term_view(a.body) })
    }
}

pub open spec fn arm_view(a: MatchArm) -> SArm {
    SArm { ctor: a.ctor@, arity: a.arity, body: term_view(a.body) }
}

impl View for Term {
    type V = STerm;

    open spec fn view(&self) -> STerm {
        term_view(*self)
    }
}

impl View for MatchArm {
    type V = SArm;

    open spec fn view(&self) -> SArm {
        arm_view(*self)
    }
}

/// `arms_view` maps each arm by `arm_view`.
pub proof fn lemma_arms_view(arms: Seq<MatchArm>)
    ensures
        arms_view(arms).len() == arms.len(),
        forall|i: int| 0 <= i < arms.len() ==> #[trigger] arms_view(arms)[i] == arm_view(arms[i]),
    decreases arms.len(),
{
    if arms.len() > 0 {
        lemma_arms_view(arms.drop_last());
    }
}

/// The index a variable at or above the cutoff is moved to by a shift.
pub open spec fn shifted_index(i: usize, amount: isize) -> usize {
    (((i as isize) + amount) as isize) as usize
}

/// Moving index `i` by `amount` stays within `isize`.
pub open spec fn shift_fits(i: usize, amount: isize) -> bool {
    isize::MIN <= (i as isize) + amount <= isize::MAX
}

/// `shift_term(t, cutoff, amount)` can be computed without overflow.
pub open spec fn shift_ok(t: STerm, cutoff: int, amount: isize) -> bool
    decreases t,
{
    match t {
        STerm::Var(i) => i >= cutoff ==> shift_fits(i, amount),
        STerm::Pi(_, a, b) => shift_ok(*a, cutoff, amount) && cutoff + 1 <= usize::MAX && shift_ok(*b, cutoff + 1, amount),
        STerm::Lam(_, a, b) => shift_ok(*a, cutoff, amount) && cutoff + 1 <= usize::MAX && shift_ok(*b, cutoff + 1, amount),
        STerm::App(f, x) => shift_ok(*f, cutoff, amount) && shift_ok(*x, cutoff, amount),
        STerm::Let(_, ty, v, b) => shift_ok(*ty, cutoff, amount) && shift_ok(*v, cutoff, amount) && cutoff + 1 <= usize::MAX && shift_ok(*b, cutoff + 1, amount),
        STerm::Match { scrutinee, motive, arms } => {
            &&& shift_ok(*scrutinee, cutoff, amount)
            &&& (match motive { Some(m) => shift_ok(*m, cutoff, amount), None => true })
            &&& forall|i: int| 0 <= i < arms.len() ==> cutoff + arms[i].arity <= usize::MAX && shift_ok(#[trigger] arms[i].body, cutoff + arms[i].arity, amount)
        },
        STerm::If(c, x, y) => shift_ok(*c, cutoff, amount) && shift_ok(*x, cutoff, amount) && shift_ok(*y, cutoff, amount),
        STerm::Ann(e, ty) => shift_ok(*e, cutoff, amount) && shift_ok(*ty, cutoff, amount),
        _ => true,
    }
}

pub open spec fn shift_opt(m: Option<Box<STerm>>, cutoff: int, amount: isize) -> Option<Box<STerm>>
    decreases m,
{
    match m {
        Some(t) => Some(Box::new(shift_term(*t, cutoff, amount))),
        None => None,
    }
}

pub open spec fn shift_arm(a: SArm, cutoff: int, amount: isize) -> SArm
    decreases a,
{
    SArm { ctor: a.ctor, arity: a.arity, body: shift_term(a.body, cutoff + a.arity, amount) }
}

pub open spec fn shift_arms(arms: Seq<SArm>, cutoff: int, amount: isize) -> Seq<SArm>
    decreases arms,
{
    Seq::new(arms.len(), |i: int| if 0 <= i < arms.len() { shift_arm(arms[i], cutoff, amount) } else { arms[i] })
}

/// Shift the free de Bruijn indices of `t` that are at least `cutoff` by `amount`.
pub open spec fn shift_term(t: STerm, cutoff: int, amount: isize) -> STerm
    decreases t,
{
    match t {
        STerm::Var(i) => if i >= cutoff { STerm::Var(shifted_index(i, amount)) } else { STerm::Var(i) },
        STerm::Pi(n, a, b) => STerm::Pi(n, Box::new(shift_term(*a, cutoff, amount)), Box::new(shift_term(*b, cutoff + 1, amount))),
        STerm::Lam(n, a, b) => STerm::Lam(n, Box::new(shift_term(*a, cutoff, amount)), Box::new(shift_term(*b, cutoff + 1, amount))),
        STerm::App(f, x) => STerm::App(Box::new(shift_term(*f, cutoff, amount)), Box::new(shift_term(*x, cutoff, amount))),
        STerm::Let(n, ty, v, b) => STerm::Let(n, Box::new(shift_term(*ty, cutoff, amount)), Box::new(shift_term(*v, cutoff, amount)), Box::new(shift_term(*b, cutoff + 1, amount))),
        STerm::Match { scrutinee, motive, arms } => STerm::Match {
            scrutinee: Box::new(shift_term(*scrutinee, cutoff, amount)),
            motive: shift_opt(motive, cutoff, amount),
            arms: shift_arms(arms, cutoff, amount),
        },
        STerm::If(c, x, y) => STerm::If(Box::new(shift_term(*c, cutoff, amount)), Box::new(shift_term(*x, cutoff, amount)), Box::new(shift_term(*y, cutoff, amount))),
        STerm::Ann(e, ty) => STerm::Ann(Box::new(shift_term(*e, cutoff, amount)), Box::new(shift_term(*ty, cutoff, amount))),
        _ => t,
    }
}


/// `subst_term(t, idx, u)` can be computed without overflow.
pub open spec fn subst_ok(t: STerm, idx: int, u: STerm) -> bool
    decreases t,
{
    match t {
        STerm::Pi(_, a, b) => subst_ok(*a, idx, u) && idx + 1 <= usize::MAX && shift_ok(u, 0, 1) && subst_ok(*b, idx + 1, shift_term(u, 0, 1)),
        STerm::Lam(_, a, b) => subst_ok(*a, idx, u) && idx + 1 <= usize::MAX && shift_ok(u, 0, 1) && subst_ok(*b, idx + 1, shift_term(u, 0, 1)),
        STerm::App(f, x) => subst_ok(*f, idx, u) && subst_ok(*x, idx, u),
        STerm::Let(_, ty, v, b) => subst_ok(*ty, idx, u) && subst_ok(*v, idx, u) && idx + 1 <= usize::MAX && shift_ok(u, 0, 1) && subst_ok(*b, idx + 1, shift_term(u, 0, 1)),
        STerm::Match { scrutinee, motive, arms } => {
            &&& subst_ok(*scrutinee, idx, u)
            &&& (match motive { Some(m) => subst_ok(*m, idx, u), None => true })
            &&& forall|i: int| 0 <= i < arms.len() ==> idx + arms[i].arity <= usize::MAX
                && shift_ok(u, 0, arms[i].arity as isize)
                && subst_ok(#[trigger] arms[i].body, idx + arms[i].arity, shift_term(u, 0, arms[i].arity as isize))
        },
        STerm::If(c, x, y) => subst_ok(*c, idx, u) && subst_ok(*x, idx, u) && subst_ok(*y, idx, u),
        STerm::Ann(e, ty) => subst_ok(*e, idx, u) && subst_ok(*ty, idx, u),
        _ => true,
    }
}

/// Replace the variable with index `idx` in `t` by `u`, lowering the indices above it by one.
pub open spec fn subst_term(t: STerm, idx: int, u: STerm) -> STerm
    decreases t,
{
    match t {
        STerm::Var(i) => if i == idx { u } else if i > idx { STerm::Var((i - 1) as usize) } else { STerm::Var(i) },
        STerm::Pi(n, a, b) => STerm::Pi(n, Box::new(subst_term(*a, idx, u)), Box::new(subst_term(*b, idx + 1, shift_term(u, 0, 1)))),
        STerm::Lam(n, a, b) => STerm::Lam(n, Box::new(subst_term(*a, idx, u)), Box::new(subst_term(*b, idx + 1, shift_term(u, 0, 1)))),
        STerm::App(f, x) => STerm::App(Box::new(subst_term(*f, idx, u)), Box::new(subst_term(*x, idx, u))),
        STerm::Let(n, ty, v, b) => STerm::Let(n, Box::new(subst_term(*ty, idx, u)), Box::new(subst_term(*v, idx, u)), Box::new(subst_term(*b, idx + 1, shift_term(u, 0, 1)))),
        STerm::Match { scrutinee, motive, arms } => STerm::Match {
            scrutinee: Box::new(subst_term(*scrutinee, idx, u)),
            motive: subst_opt(motive, idx, u),
            arms: subst_arms(arms, idx, u),
        },
        STerm::If(c, x, y) => STerm::If(Box::new(subst_term(*c, idx, u)), Box::new(subst_term(*x, idx, u)), Box::new(subst_term(*y, idx, u))),
        STerm::Ann(e, ty) => STerm::Ann(Box::new(subst_term(*e, idx, u)), Box::new(subst_term(*ty, idx, u))),
        _ => t,
    }
}

pub open spec fn subst_opt(m: Option<Box<STerm>>, idx: int, u: STerm) -> Option<Box<STerm>>
    decreases m,
{
    match m {
        Some(t) => Some(Box::new(subst_term(*t, idx, u))),
        None => None,
    }
}

pub open spec fn subst_arm(a: SArm, idx: int, u: STerm) -> SArm
    decreases a,
{
    SArm { ctor: a.ctor, arity: a.arity, body: subst_term(a.body, idx + a.arity, shift_term(u, 0, a.arity as isize)) }
}

pub open spec fn subst_arms(arms: Seq<SArm>, idx: int, u: STerm) -> Seq<SArm>
    decreases arms,
{
    Seq::new(arms.len(), |i: int| if 0 <= i < arms.len() { subst_arm(arms[i], idx, u) } else { arms[i] })
}

}

verus! {

impl Term {
    /// Shift de Bruijn indices by `amount` for indices >= `cutoff`.
    pub fn shift(&self, cutoff: usize, amount: isize) -> (r: Term)
        requires
            shift_ok(self@, cutoff as int, amount),
        ensures
            r@ == shift_term(self@, cutoff as int, amount),
        decreases self,
    {
        match self {
            Term::Var(i) => {
                if *i >= cutoff {
                    let moved: isize = *i as isize + amount;
                    Term::Var(moved as usize)
                } else {
                    Term::Var(*i)
                }
            },
            Term::Global(n) => Term::Global(n.clone()),
            Term::Sort(u) => Term::Sort(*u),
            Term::Pi(n, a, b) => Term::Pi(
                n.clone(),
                Box::new(a.shift(cutoff, amount)),
                Box::new(b.shift(cutoff + 1, amount)),
            ),
            Term::Lam(n, a, body) => Term::Lam(
                n.clone(),
                Box::new(a.shift(cutoff, amount)),
                Box::new(body.shift(cutoff + 1, amount)),
            ),
            Term::App(f, x) => Term::App(Box::new(f.shift(cutoff, amount)), Box::new(x.shift(cutoff, amount))),
            Term::Let(n, ty, val, body) => Term::Let(
                n.clone(),
                Box::new(ty.shift(cutoff, amount)),
                Box::new(val.shift(cutoff, amount)),
                Box::new(body.shift(cutoff + 1, amount)),
            ),
            Term::Nat(n) => Term::Nat(*n),
            Term::BoolLit(b) => Term::BoolLit(*b),
            Term::Constructor(ind, ctor) => Term::Constructor(ind.clone(), ctor.clone()),
            Term::Recursor(ind) => Term::Recursor(ind.clone()),
            Term::Match { scrutinee, motive, arms } => {
                let new_motive = match motive {
                    Some(m) => Some(Box::new(m.shift(cutoff, amount))),
                    None => None,
                };
                assert(opt_term_view(new_motive) == shift_opt(opt_term_view(*motive), cutoff as int, amount));
                let mut new_arms: Vec<MatchArm> = Vec::new();
                let n = arms.len();
                let ghost sarms = arms_view(arms@);
                proof {
                    lemma_arms_view(arms@);
                    assert forall|k: int| 0 <= k < n implies cutoff + arms@[k].arity <= usize::MAX
                        && shift_ok(#[trigger] arm_view(arms@[k]).body, cutoff + arms@[k].arity, amount) by {
                        assert(sarms[k] == arm_view(arms@[k]));
                        assert(shift_ok(sarms[k].body, cutoff + sarms[k].arity, amount));
                    }
                }
                for j in 0..n
                    invariant
                        n == arms@.len(),
                        *self == (Term::Match { scrutinee: *scrutinee, motive: *motive, arms: *arms }),
                        sarms == arms_view(arms@),
                        sarms.len() == n,
                        forall|k: int| 0 <= k < n ==> #[trigger] sarms[k] == arm_view(arms@[k]),
                        forall|k: int| 0 <= k < n ==> cutoff + arms@[k].arity <= usize::MAX
                            && shift_ok(#[trigger] arm_view(arms@[k]).body, cutoff + arms@[k].arity, amount),
                        new_arms@.len() == j,
                        forall|k: int| 0 <= k < j ==> #[trigger] arm_view(new_arms@[k]) == shift_arm(arm_view(arms@[k]), cutoff as int, amount),
                {
                    let arm = &arms[j];
                    proof {
                        assert(shift_ok(arm_view(arms@[j as int]).body, cutoff + arms@[j as int].arity, amount));
                        assert(decreases_to!(*self => self->arms));
                        assert(decreases_to!(*arms => arms@[j as int]));
                        assert(decreases_to!(arms@[j as int] => arms@[j as int].body));
                    }
                    let body = arm.body.shift(cutoff + arm.arity, amount);
                    new_arms.push(MatchArm { ctor: arm.ctor.clone(), arity: arm.arity, body });
                }
                proof {
                    lemma_arms_view(new_arms@);
                }
                let new_scrut = scrutinee.shift(cutoff, amount);
                let ghost nm = opt_term_view(new_motive);
                let ghost na = arms_view(new_arms@);
                let r = Term::Match { scrutinee: Box::new(new_scrut), motive: new_motive, arms: new_arms };
                assert(self@ == STerm::Match { scrutinee: Box::new(term_view(**scrutinee)), motive: opt_term_view(*motive), arms: sarms });
                assert(r@ == STerm::Match { scrutinee: Box::new(term_view(new_scrut)), motive: nm, arms: na });
                assert(na =~= shift_arms(sarms, cutoff as int, amount));
                r
            },
            Term::If(c, t, e) => Term::If(
                Box::new(c.shift(cutoff, amount)),
                Box::new(t.shift(cutoff, amount)),
                Box::new(e.shift(cutoff, amount)),
            ),
            Term::Meta(id) => Term::Meta(*id),
            Term::Ann(e, ty) => Term::Ann(Box::new(e.shift(cutoff, amount)), Box::new(ty.shift(cutoff, amount))),
        }
    }
}


impl Clone for MatchArm {
    fn clone(&self) -> (r: Self)
        ensures
            r@ == self@,
        decreases self,
    {
        MatchArm { ctor: self.ctor.clone(), arity: self.arity, body: self.body.clone() }
    }
}

/// Copy a sequence of match arms.
fn clone_arms(arms: &Vec<MatchArm>) -> (r: Vec<MatchArm>)
    ensures
        arms_view(r@) == arms_view(arms@),
    decreases arms,
{
    let mut out: Vec<MatchArm> = Vec::new();
    let n = arms.len();
    for j in 0..n
        invariant
            n == arms@.len(),
            out@.len() == j,
            forall|k: int| 0 <= k < j ==> #[trigger] arm_view(out@[k]) == arm_view(arms@[k]),
    {
        proof {
            assert(decreases_to!(*arms => arms@[j as int]));
        }
        out.push(arms[j].clone());
    }
    proof {
        lemma_arms_view(out@);
        lemma_arms_view(arms@);
        assert(arms_view(out@) =~= arms_view(arms@));
    }
    out
}

impl Clone for Term {
    fn clone(&self) -> (r: Self)
        ensures
            r@ == self@,
        decreases self,
    {
        match self {
            Term::Var(i) => Term::Var(*i),
            Term::Global(n) => Term::Global(n.clone()),
            Term::Sort(u) => Term::Sort(*u),
            Term::Pi(n, a, b) => Term::Pi(n.clone(), Box::new((**a).clone()), Box::new((**b).clone())),
            Term::Lam(n, a, b) => Term::Lam(n.clone(), Box::new((**a).clone()), Box::new((**b).clone())),
            Term::App(f, x) => Term::App(Box::new((**f).clone()), Box::new((**x).clone())),
            Term::Let(n, ty, v, b) => Term::Let(n.clone(), Box::new((**ty).clone()), Box::new((**v).clone()), Box::new((**b).clone())),
            Term::Nat(n) => Term::Nat(*n),
            Term::BoolLit(b) => Term::BoolLit(*b),
            Term::Constructor(i, c) => Term::Constructor(i.clone(), c.clone()),
            Term::Recursor(i) => Term::Recursor(i.clone()),
            Term::Match { scrutinee, motive, arms } => {
                let m = match motive {
                    Some(m) => Some(Box::new((**m).clone())),
                    None => None,
                };
                assert(opt_term_view(m) == opt_term_view(*motive));
                Term::Match { scrutinee: Box::new((**scrutinee).clone()), motive: m, arms: clone_arms(arms) }
            },
            Term::If(c, x, y) => Term::If(Box::new((**c).clone()), Box::new((**x).clone()), Box::new((**y).clone())),
            Term::Meta(m) => Term::Meta(*m),
            Term::Ann(e, ty) => Term::Ann(Box::new((**e).clone()), Box::new((**ty).clone())),
        }
    }
}


impl Term {
    /// Substitute `term` for the variable with index `idx`.
    pub fn subst(&self, idx: usize, term: &Term) -> (r: Term)
        requires
            subst_ok(self@, idx as int, term@),
        ensures
            r@ == subst_term(self@, idx as int, term@),
        decreases self,
    {
        match self {
            Term::Var(i) => {
                if *i == idx {
                    term.clone()
                } else if *i > idx {
                    Term::Var(*i - 1)
                } else {
                    Term::Var(*i)
                }
            },
            Term::Global(n) => Term::Global(n.clone()),
            Term::Sort(u) => Term::Sort(*u),
            Term::Pi(n, a, b) => Term::Pi(
                n.clone(),
                Box::new(a.subst(idx, term)),
                Box::new(b.subst(idx + 1, &term.shift(0, 1))),
            ),
            Term::Lam(n, a, body) => Term::Lam(
                n.clone(),
                Box::new(a.subst(idx, term)),
                Box::new(body.subst(idx + 1, &term.shift(0, 1))),
            ),
            Term::App(f, x) => Term::App(Box::new(f.subst(idx, term)), Box::new(x.subst(idx, term))),
            Term::Let(n, ty, val, body) => Term::Let(
                n.clone(),
                Box::new(ty.subst(idx, term)),
                Box::new(val.subst(idx, term)),
                Box::new(body.subst(idx + 1, &term.shift(0, 1))),
            ),
            Term::Nat(n) => Term::Nat(*n),
            Term::BoolLit(b) => Term::BoolLit(*b),
            Term::Constructor(ind, ctor) => Term::Constructor(ind.clone(), ctor.clone()),
            Term::Recursor(ind) => Term::Recursor(ind.clone()),
            Term::Match { scrutinee, motive, arms } => {
                let new_motive = match motive {
                    Some(m) => Some(Box::new(m.subst(idx, term))),
                    None => None,
                };
                assert(opt_term_view(new_motive) == subst_opt(opt_term_view(*motive), idx as int, term@));
                let mut new_arms: Vec<MatchArm> = Vec::new();
                let n = arms.len();
                let ghost sarms = arms_view(arms@);
                proof {
                    lemma_arms_view(arms@);
                    assert forall|k: int| 0 <= k < n implies idx + arms@[k].arity <= usize::MAX
                        && shift_ok(term@, 0, arms@[k].arity as isize)
                        && subst_ok(#[trigger] arm_view(arms@[k]).body, idx + arms@[k].arity,
                            shift_term(term@, 0, arms@[k].arity as isize)) by {
                        assert(sarms[k] == arm_view(arms@[k]));
                        assert(subst_ok(sarms[k].body, idx + sarms[k].arity, shift_term(term@, 0, sarms[k].arity as isize)));
                    }
                }
                for j in 0..n
                    invariant
                        n == arms@.len(),
                        *self == (Term::Match { scrutinee: *scrutinee, motive: *motive, arms: *arms }),
                        sarms == arms_view(arms@),
                        sarms.len() == n,
                        forall|k: int| 0 <= k < n ==> #[trigger] sarms[k] == arm_view(arms@[k]),
                        forall|k: int| 0 <= k < n ==> idx + arms@[k].arity <= usize::MAX
                            && shift_ok(term@, 0, arms@[k].arity as isize)
                            && subst_ok(#[trigger] arm_view(arms@[k]).body, idx + arms@[k].arity,
                                shift_term(term@, 0, arms@[k].arity as isize)),
                        new_arms@.len() == j,
                        forall|k: int| 0 <= k < j ==> #[trigger] arm_view(new_arms@[k]) == subst_arm(arm_view(arms@[k]), idx as int, term@),
                {
                    let arm = &arms[j];
                    proof {
                        assert(subst_ok(arm_view(arms@[j as int]).body, idx + arms@[j as int].arity,
                            shift_term(term@, 0, arms@[j as int].arity as isize)));
                        assert(decreases_to!(*self => self->arms));
                        assert(decreases_to!(*arms => arms@[j as int]));
                        assert(decreases_to!(arms@[j as int] => arms@[j as int].body));
                    }
                    let shifted = term.shift(0, arm.arity as isize);
                    let body = arm.body.subst(idx + arm.arity, &shifted);
                    new_arms.push(MatchArm { ctor: arm.ctor.clone(), arity: arm.arity, body });
                }
                proof {
                    lemma_arms_view(new_arms@);
                }
                let new_scrut = scrutinee.subst(idx, term);
                let ghost na = arms_view(new_arms@);
                let r = Term::Match { scrutinee: Box::new(new_scrut), motive: new_motive, arms: new_arms };
                assert(self@ == STerm::Match { scrutinee: Box::new(term_view(**scrutinee)), motive: opt_term_view(*motive), arms: sarms });
                assert(na =~= subst_arms(sarms, idx as int, term@));
                r
            },
            Term::If(c, t, e) => Term::If(
                Box::new(c.subst(idx, term)),
                Box::new(t.subst(idx, term)),
                Box::new(e.subst(idx, term)),
            ),
            Term::Meta(id) => Term::Meta(*id),
            Term::Ann(e, ty) => Term::Ann(Box::new(e.subst(idx, term)), Box::new(ty.subst(idx, term))),
        }
    }
}


/// Every variable of `t` that a shift at `cutoff` would move is below `usize::MAX`.
pub open spec fn vars_below_max(t: STerm, cutoff: int) -> bool
    decreases t,
{
    match t {
        STerm::Var(i) => i >= cutoff ==> i < usize::MAX,
        STerm::Pi(_, a, b) => vars_below_max(*a, cutoff) && vars_below_max(*b, cutoff + 1),
        STerm::Lam(_, a, b) => vars_below_max(*a, cutoff) && vars_below_max(*b, cutoff + 1),
        STerm::App(f, x) => vars_below_max(*f, cutoff) && vars_below_max(*x, cutoff),
        STerm::Let(_, ty, v, b) => vars_below_max(*ty, cutoff) && vars_below_max(*v, cutoff) && vars_below_max(*b, cutoff + 1),
        STerm::Match { scrutinee, motive, arms } => {
            &&& vars_below_max(*scrutinee, cutoff)
            &&& (match motive { Some(m) => vars_below_max(*m, cutoff), None => true })
            &&& forall|i: int| 0 <= i < arms.len() ==> vars_below_max(#[trigger] arms[i].body, cutoff + arms[i].arity)
        },
        STerm::If(c, x, y) => vars_below_max(*c, cutoff) && vars_below_max(*x, cutoff) && vars_below_max(*y, cutoff),
        STerm::Ann(e, ty) => vars_below_max(*e, cutoff) && vars_below_max(*ty, cutoff),
        _ => true,
    }
}

proof fn lemma_shifted_index_succ(i: usize)
    requires
        i < usize::MAX,
    ensures
        shifted_index(i, 1) == i + 1,
{
    let j: usize = (i + 1) as usize;
    assert(j == i + 1);
    assert((((i as isize) + 1isize) as isize) as usize == j) by (bit_vector)
        requires
            j == (i + 1) as usize,
            j != 0usize;
}

/// Substituting for the variable at `cutoff` undoes a shift by one at `cutoff`:
/// the shifted term no longer mentions that variable, and every index above it drops back.
pub proof fn lemma_subst_shift_cancel(t: STerm, cutoff: int, u: STerm)
    requires
        0 <= cutoff,
        vars_below_max(t, cutoff),
    ensures
        subst_term(shift_term(t, cutoff, 1), cutoff, u) == t,
    decreases t,
{
    match t {
        STerm::Var(i) => {
            if i >= cutoff {
                lemma_shifted_index_succ(i);
            }
            assert(subst_term(shift_term(t, cutoff, 1), cutoff, u) == t);
        },
        STerm::Pi(_, a, b) => {
            lemma_subst_shift_cancel(*a, cutoff, u);
            lemma_subst_shift_cancel(*b, cutoff + 1, shift_term(u, 0, 1));
        },
        STerm::Lam(_, a, b) => {
            lemma_subst_shift_cancel(*a, cutoff, u);
            lemma_subst_shift_cancel(*b, cutoff + 1, shift_term(u, 0, 1));
        },
        STerm::App(f, x) => {
            lemma_subst_shift_cancel(*f, cutoff, u);
            lemma_subst_shift_cancel(*x, cutoff, u);
        },
        STerm::Let(_, ty, v, b) => {
            lemma_subst_shift_cancel(*ty, cutoff, u);
            lemma_subst_shift_cancel(*v, cutoff, u);
            lemma_subst_shift_cancel(*b, cutoff + 1, shift_term(u, 0, 1));
        },
        STerm::Match { scrutinee, motive, arms } => {
            lemma_subst_shift_cancel(*scrutinee, cutoff, u);
            match motive {
                Some(m) => lemma_subst_shift_cancel(*m, cutoff, u),
                None => {},
            }
            let shifted = shift_arms(arms, cutoff, 1);
            let back = subst_arms(shifted, cutoff, u);
            assert(shifted.len() == arms.len());
            assert(back.len() == arms.len());
            assert forall|i: int| 0 <= i < arms.len() implies #[trigger] back[i] == arms[i] by {
                assert(shifted[i] == shift_arm(arms[i], cutoff, 1));
                assert(back[i] == subst_arm(shifted[i], cutoff, u));
                assert(vars_below_max(arms[i].body, cutoff + arms[i].arity));
                lemma_subst_shift_cancel(arms[i].body, cutoff + arms[i].arity, shift_term(u, 0, arms[i].arity as isize));
            }
            assert(back =~= arms);
            assert(shift_term(t, cutoff, 1) == STerm::Match { scrutinee: Box::new(shift_term(*scrutinee, cutoff, 1)), motive: shift_opt(motive, cutoff, 1), arms: shifted });
            assert(subst_opt(shift_opt(motive, cutoff, 1), cutoff, u) == motive);
            assert(subst_term(shift_term(t, cutoff, 1), cutoff, u) == t);
        },
        STerm::If(c, x, y) => {
            lemma_subst_shift_cancel(*c, cutoff, u);
            lemma_subst_shift_cancel(*x, cutoff, u);
            lemma_subst_shift_cancel(*y, cutoff, u);
        },
        STerm::Ann(e, ty) => {
            lemma_subst_shift_cancel(*e, cutoff, u);
            lemma_subst_shift_cancel(*ty, cutoff, u);
        },
        _ => {},
    }
}


/// Every variable of `t` that a shift at `cutoff` moves stays within `isize`
/// when `k` is added to it.
pub open spec fn vars_fit_shift(t: STerm, cutoff: int, k: int) -> bool
    decreases t,
{
    match t {
        STerm::Var(i) => i >= cutoff ==> i + k <= isize::MAX,
        STerm::Pi(_, a, b) => vars_fit_shift(*a, cutoff, k) && vars_fit_shift(*b, cutoff + 1, k),
        STerm::Lam(_, a, b) => vars_fit_shift(*a, cutoff, k) && vars_fit_shift(*b, cutoff + 1, k),
        STerm::App(f, x) => vars_fit_shift(*f, cutoff, k) && vars_fit_shift(*x, cutoff, k),
        STerm::Let(_, ty, v, b) => vars_fit_shift(*ty, cutoff, k) && vars_fit_shift(*v, cutoff, k) && vars_fit_shift(*b, cutoff + 1, k),
        STerm::Match { scrutinee, motive, arms } => {
            &&& vars_fit_shift(*scrutinee, cutoff, k)
            &&& (match motive { Some(m) => vars_fit_shift(*m, cutoff, k), None => true })
            &&& forall|i: int| 0 <= i < arms.len() ==> vars_fit_shift(#[trigger] arms[i].body, cutoff + arms[i].arity, k)
        },
        STerm::If(c, x, y) => vars_fit_shift(*c, cutoff, k) && vars_fit_shift(*x, cutoff, k) && vars_fit_shift(*y, cutoff, k),
        STerm::Ann(e, ty) => vars_fit_shift(*e, cutoff, k) && vars_fit_shift(*ty, cutoff, k),
        _ => true,
    }
}

proof fn lemma_shifted_index_back(i: usize, k: isize)
    requires
        0 <= k,
        i + k <= isize::MAX,
    ensures
        shifted_index(i, k) == i + k,
        shifted_index(shifted_index(i, k), (-k) as isize) == i,
{
}

/// Shifting by `k` and then by `-k` at the same cutoff gives the term back, when
/// no moved index leaves `isize`; in particular a shift by 0 changes nothing.
pub proof fn lemma_shift_round_trip(t: STerm, cutoff: int, k: isize)
    requires
        0 <= cutoff,
        0 <= k,
        vars_fit_shift(t, cutoff, k as int),
    ensures
        shift_term(shift_term(t, cutoff, k), cutoff, (-k) as isize) == t,
    decreases t,
{
    let nk = (-k) as isize;
    match t {
        STerm::Var(i) => {
            if i >= cutoff {
                lemma_shifted_index_back(i, k);
            }
        },
        STerm::Pi(_, a, b) => {
            lemma_shift_round_trip(*a, cutoff, k);
            lemma_shift_round_trip(*b, cutoff + 1, k);
        },
        STerm::Lam(_, a, b) => {
            lemma_shift_round_trip(*a, cutoff, k);
            lemma_shift_round_trip(*b, cutoff + 1, k);
        },
        STerm::App(f, x) => {
            lemma_shift_round_trip(*f, cutoff, k);
            lemma_shift_round_trip(*x, cutoff, k);
        },
        STerm::Let(_, ty, v, b) => {
            lemma_shift_round_trip(*ty, cutoff, k);
            lemma_shift_round_trip(*v, cutoff, k);
            lemma_shift_round_trip(*b, cutoff + 1, k);
        },
        STerm::Match { scrutinee, motive, arms } => {
            lemma_shift_round_trip(*scrutinee, cutoff, k);
            match motive {
                Some(m) => lemma_shift_round_trip(*m, cutoff, k),
                None => {},
            }
            let shifted = shift_arms(arms, cutoff, k);
            let back = shift_arms(shifted, cutoff, nk);
            assert(shifted.len() == arms.len());
            assert(back.len() == arms.len());
            assert forall|i: int| 0 <= i < arms.len() implies #[trigger] back[i] == arms[i] by {
                assert(shifted[i] == shift_arm(arms[i], cutoff, k));
                assert(back[i] == shift_arm(shifted[i], cutoff, nk));
                assert(vars_fit_shift(arms[i].body, cutoff + arms[i].arity, k as int));
                lemma_shift_round_trip(arms[i].body, cutoff + arms[i].arity, k);
            }
            assert(back =~= arms);
            assert(shift_term(t, cutoff, k) == STerm::Match { scrutinee: Box::new(shift_term(*scrutinee, cutoff, k)), motive: shift_opt(motive, cutoff, k), arms: shifted });
            assert(shift_opt(shift_opt(motive, cutoff, k), cutoff, nk) == motive);
        },
        STerm::If(c, x, y) => {
            lemma_shift_round_trip(*c, cutoff, k);
            lemma_shift_round_trip(*x, cutoff, k);
            lemma_shift_round_trip(*y, cutoff, k);
        },
        STerm::Ann(e, ty) => {
            lemma_shift_round_trip(*e, cutoff, k);
            lemma_shift_round_trip(*ty, cutoff, k);
        },
        _ => {},
    }
}


/// Values: the result of evaluation (normalization by evaluation).
#[derive(Debug)]
pub enum Value {
    Neutral(Neutral),
    Sort(u32),
    Lam(Name, Box<Value>, Closure),
    Pi(Name, Box<Value>, Closure),
    Nat(u64),
    BoolLit(bool),
    Constructor(Name, Name, Vec<Value>),
}

/// A neutral term: a free head with a spine of eliminators.
#[derive(Debug)]
pub struct Neutral {
    pub head: NeutralHead,
    pub spine: Vec<Elim>,
}

#[derive(Debug)]
pub enum NeutralHead {
    Var(DbLevel),
    Global(Name),
    Meta(MetaId),
}

#[derive(Debug)]
pub enum Elim {
    App(Value),
    Match { motive: Option<Value>, arms: Vec<(Name, usize, Closure)> },
    If(Value, Value),
}

/// A closure captures an environment for evaluating under a binder.
#[derive(Debug)]
pub struct Closure {
    pub env: Env,
    pub body: Term,
}

/// Environment mapping de Bruijn indices to values (index 0 is the last element).
pub type Env = Vec<Value>;

/// Mathematical model of a value.
pub enum SValue {
    Neutral(SNeutral),
    Sort(u32),
    Lam(Seq<char>, Box<SValue>, SClosure),
    Pi(Seq<char>, Box<SValue>, SClosure),
    Nat(u64),
    BoolLit(bool),
    Constructor(Seq<char>, Seq<char>, Seq<SValue>),
}

pub struct SNeutral {
    pub head: SHead,
    pub spine: Seq<SElim>,
}

pub enum SHead {
    Var(usize),
    Global(Seq<char>),
    Meta(usize),
}

pub enum SElim {
    App(SValue),
    Match { motive: Option<SValue>, arms: Seq<(Seq<char>, usize, SClosure)> },
    If(SValue, SValue),
}

pub struct SClosure {
    pub env: Seq<SValue>,
    pub body: STerm,
}

pub open spec fn value_view(v: Value) -> SValue
    decreases v,
{
    match v {
        Value::Neutral(n) => SValue::Neutral(neutral_view(n)),
        Value::Sort(u) => SValue::Sort(u),
        Value::Lam(n, a, c) => SValue::Lam(n@, Box::new(value_view(*a)), closure_view(c)),
        Value::Pi(n, a, c) => SValue::Pi(n@, Box::new(value_view(*a)), closure_view(c)),
        Value::Nat(n) => SValue::Nat(n),
        Value::BoolLit(b) => SValue::BoolLit(b),
        Value::Constructor(i, c, args) => SValue::Constructor(i@, c@, values_view(args@)),
    }
}

pub open spec fn neutral_view(n: Neutral) -> SNeutral
    decreases n,
{
    SNeutral { head: head_view(n.head), spine: elims_view(n.spine@) }
}

pub open spec fn head_view(h: NeutralHead) -> SHead {
    match h {
        NeutralHead::Var(l) => SHead::Var(l),
        NeutralHead::Global(n) => SHead::Global(n@),
        NeutralHead::Meta(m) => SHead::Meta(m),
    }
}

pub open spec fn closure_view(c: Closure) -> SClosure
    decreases c,
{
    SClosure { env: values_view(c.env@), body: term_view(c.body) }
}

pub open spec fn elim_view(e: Elim) -> SElim
    decreases e,
{
    match e {
        Elim::App(v) => SElim::App(value_view(v)),
        Elim::Match { motive, arms } => SElim::Match {
            motive: match motive { Some(m) => Some(value_view(m)), None => None },
            arms: clo_arms_view(arms@),
        },
        Elim::If(t, e) => SElim::If(value_view(t), value_view(e)),
    }
}

pub open spec fn values_view(vs: Seq<Value>) -> Seq<SValue>
    decreases vs,
{
    if vs.len() == 0 {
        Seq::empty()
    } else {
        values_view(vs.drop_last()).push(value_view(vs.last()))
    }
}

pub open spec fn elims_view(es: Seq<Elim>) -> Seq<SElim>
    decreases es,
{
    if es.len() == 0 {
        Seq::empty()
    } else {
        elims_view(es.drop_last()).push(elim_view(es.last()))
    }
}

pub open spec fn clo_arm_view(a: (Name, usize, Closure)) -> (Seq<char>, usize, SClosure)
    decreases a,
{
    (a.0@, a.1, closure_view(a.2))
}

pub open spec fn clo_arms_view(arms: Seq<(Name, usize, Closure)>) -> Seq<(Seq<char>, usize, SClosure)>
    decreases arms,
{
    if arms.len() == 0 {
        Seq::empty()
    } else {
        clo_arms_view(arms.drop_last()).push(clo_arm_view(arms.last()))
    }
}

impl View for Value {
    type V = SValue;

    open spec fn view(&self) -> SValue {
        value_view(*self)
    }
}

impl View for Neutral {
    type V = SNeutral;

    open spec fn view(&self) -> SNeutral {
        neutral_view(*self)
    }
}

impl View for Closure {
    type V = SClosure;

    open spec fn view(&self) -> SClosure {
        closure_view(*self)
    }
}

impl View for Elim {
    type V = SElim;

    open spec fn view(&self) -> SElim {
        elim_view(*self)
    }
}

pub proof fn lemma_values_view(vs: Seq<Value>)
    ensures
        values_view(vs).len() == vs.len(),
        forall|i: int| 0 <= i < vs.len() ==> #[trigger] values_view(vs)[i] == value_view(vs[i]),
    decreases vs.len(),
{
    if vs.len() > 0 {
        lemma_values_view(vs.drop_last());
    }
}

/// The view of a sequence with one more element pushed.
pub proof fn lemma_values_view_push(vs: Seq<Value>, v: Value)
    ensures
        values_view(vs.push(v)) == values_view(vs).push(value_view(v)),
{
    assert(vs.push(v).drop_last() =~= vs);
}

pub proof fn lemma_elims_view(es: Seq<Elim>)
    ensures
        elims_view(es).len() == es.len(),
        forall|i: int| 0 <= i < es.len() ==> #[trigger] elims_view(es)[i] == elim_view(es[i]),
    decreases es.len(),
{
    if es.len() > 0 {
        lemma_elims_view(es.drop_last());
    }
}

pub proof fn lemma_elims_view_push(es: Seq<Elim>, e: Elim)
    ensures
        elims_view(es.push(e)) == elims_view(es).push(elim_view(e)),
{
    assert(es.push(e).drop_last() =~= es);
}

pub proof fn lemma_clo_arms_view(arms: Seq<(Name, usize, Closure)>)
    ensures
        clo_arms_view(arms).len() == arms.len(),
        forall|i: int| 0 <= i < arms.len() ==> #[trigger] clo_arms_view(arms)[i] == clo_arm_view(arms[i]),
    decreases arms.len(),
{
    if arms.len() > 0 {
        lemma_clo_arms_view(arms.drop_last());
    }
}


/// Copy a sequence of values.
pub fn clone_values(vs: &Vec<Value>) -> (r: Vec<Value>)
    ensures
        values_view(r@) == values_view(vs@),
    decreases vs,
{
    let mut out: Vec<Value> = Vec::new();
    let n = vs.len();
    for j in 0..n
        invariant
            n == vs@.len(),
            out@.len() == j,
            forall|k: int| 0 <= k < j ==> #[trigger] value_view(out@[k]) == value_view(vs@[k]),
    {
        proof {
            assert(decreases_to!(*vs => vs@[j as int]));
        }
        out.push(vs[j].clone());
    }
    proof {
        lemma_values_view(out@);
        lemma_values_view(vs@);
        assert(values_view(out@) =~= values_view(vs@));
    }
    out
}

fn clone_elims(es: &Vec<Elim>) -> (r: Vec<Elim>)
    ensures
        elims_view(r@) == elims_view(es@),
    decreases es,
{
    let mut out: Vec<Elim> = Vec::new();
    let n = es.len();
    for j in 0..n
        invariant
            n == es@.len(),
            out@.len() == j,
            forall|k: int| 0 <= k < j ==> #[trigger] elim_view(out@[k]) == elim_view(es@[k]),
    {
        proof {
            assert(decreases_to!(*es => es@[j as int]));
        }
        out.push(es[j].clone());
    }
    proof {
        lemma_elims_view(out@);
        lemma_elims_view(es@);
        assert(elims_view(out@) =~= elims_view(es@));
    }
    out
}

fn clone_clo_arms(arms: &Vec<(Name, usize, Closure)>) -> (r: Vec<(Name, usize, Closure)>)
    ensures
        clo_arms_view(r@) == clo_arms_view(arms@),
    decreases arms,
{
    let mut out: Vec<(Name, usize, Closure)> = Vec::new();
    let n = arms.len();
    for j in 0..n
        invariant
            n == arms@.len(),
            out@.len() == j,
            forall|k: int| 0 <= k < j ==> #[trigger] clo_arm_view(out@[k]) == clo_arm_view(arms@[k]),
    {
        proof {
            assert(decreases_to!(*arms => arms@[j as int]));
            assert(decreases_to!(arms@[j as int] => arms@[j as int].2));
        }
        let a = &arms[j];
        out.push((a.0.clone(), a.1, a.2.clone()));
    }
    proof {
        lemma_clo_arms_view(out@);
        lemma_clo_arms_view(arms@);
        assert(clo_arms_view(out@) =~= clo_arms_view(arms@));
    }
    out
}

impl Clone for Closure {
    fn clone(&self) -> (r: Self)
        ensures
            r@ == self@,
        decreases self,
    {
        Closure { env: clone_values(&self.env), body: self.body.clone() }
    }
}

impl Clone for NeutralHead {
    fn clone(&self) -> (r: Self)
        ensures
            head_view(r) == head_view(*self),
    {
        match self {
            NeutralHead::Var(l) => NeutralHead::Var(*l),
            NeutralHead::Global(n) => NeutralHead::Global(n.clone()),
            NeutralHead::Meta(m) => NeutralHead::Meta(*m),
        }
    }
}

impl Clone for Neutral {
    fn clone(&self) -> (r: Self)
        ensures
            r@ == self@,
        decreases self,
    {
        Neutral { head: self.head.clone(), spine: clone_elims(&self.spine) }
    }
}

impl Clone for Elim {
    fn clone(&self) -> (r: Self)
        ensures
            r@ == self@,
        decreases self,
    {
        match self {
            Elim::App(v) => Elim::App(v.clone()),
            Elim::Match { motive, arms } => {
                let m = match motive {
                    Some(v) => Some(v.clone()),
                    None => None,
                };
                Elim::Match { motive: m, arms: clone_clo_arms(arms) }
            },
            Elim::If(t, e) => Elim::If(t.clone(), e.clone()),
        }
    }
}

impl Clone for Value {
    fn clone(&self) -> (r: Self)
        ensures
            r@ == self@,
        decreases self,
    {
        match self {
            Value::Neutral(n) => Value::Neutral(n.clone()),
            Value::Sort(u) => Value::Sort(*u),
            Value::Lam(n, a, c) => Value::Lam(n.clone(), Box::new((**a).clone()), c.clone()),
            Value::Pi(n, a, c) => Value::Pi(n.clone(), Box::new((**a).clone()), c.clone()),
            Value::Nat(n) => Value::Nat(*n),
            Value::BoolLit(b) => Value::BoolLit(*b),
            Value::Constructor(i, c, args) => Value::Constructor(i.clone(), c.clone(), clone_values(args)),
        }
    }
}

impl Closure {
    pub fn new(env: Env, body: Term) -> (r: Self)
        ensures
            r.env == env,
            r.body == body,
    {
        Closure { env, body }
    }
}

/// A neutral value with the given head and no eliminators.
pub open spec fn neutral_value(h: SHead) -> SValue {
    SValue::Neutral(SNeutral { head: h, spine: Seq::empty() })
}

fn bare_neutral(head: NeutralHead) -> (r: Value)
    ensures
        r@ == neutral_value(head_view(head)),
{
    let sp: Vec<Elim> = Vec::new();
    assert(elims_view(sp@) =~= Seq::<SElim>::empty());
    let n = Neutral { head, spine: sp };
    assert(neutral_view(n) == SNeutral { head: head_view(head), spine: Seq::<SElim>::empty() });
    let r = Value::Neutral(n);
    assert(value_view(r) == SValue::Neutral(neutral_view(n)));
    r
}

impl Value {
    pub fn var(level: DbLevel) -> (r: Value)
        ensures
            r@ == neutral_value(SHead::Var(level)),
    {
        bare_neutral(NeutralHead::Var(level))
    }

    pub fn global(name: Name) -> (r: Value)
        ensures
            r@ == neutral_value(SHead::Global(name@)),
    {
        bare_neutral(NeutralHead::Global(name))
    }

    pub fn meta(id: MetaId) -> (r: Value)
        ensures
            r@ == neutral_value(SHead::Meta(id)),
    {
        bare_neutral(NeutralHead::Meta(id))
    }
}

}
