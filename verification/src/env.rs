//! Global environment: definitions, axioms, constructors and inductive types.
use vstd::prelude::*;
use crate::term::{Name, Term, STerm};
use crate::text::str_eq;

verus! {

/// An inductive type definition.
#[derive(Debug)]
pub struct InductiveDef {
    pub name: Name,
    /// Type parameters: (name, type).
    pub params: Vec<(Name, Term)>,
    /// The type of the inductive (e.g., Type 0).
    pub ty: Term,
    /// Constructors with their full types.
    pub constructors: Vec<ConstructorDef>,
}

#[derive(Debug)]
pub struct ConstructorDef {
    pub name: Name,
    pub ty: Term,
}

/// A definition in the environment.
#[derive(Debug)]
pub enum Definition {
    Def { ty: Term, body: Term },
    Axiom { ty: Term },
    Constructor { inductive: Name, ty: Term, index: usize },
    Recursor { inductive: Name, ty: Term },
}

/// The global environment: association lists from names to definitions and to
/// inductive types. The operations below never put two entries for one name.
#[derive(Debug)]
pub struct GlobalEnv {
    pub defs: Vec<(Name, Definition)>,
    pub inductives: Vec<(Name, InductiveDef)>,
}

pub struct SCtorDef {
    pub name: Seq<char>,
    pub ty: STerm,
}

pub struct SInductive {
    pub name: Seq<char>,
    pub params: Seq<(Seq<char>, STerm)>,
    pub ty: STerm,
    pub constructors: Seq<SCtorDef>,
}

pub enum SDefinition {
    Def { ty: STerm, body: STerm },
    Axiom { ty: STerm },
    Constructor { inductive: Seq<char>, ty: STerm, index: usize },
    Recursor { inductive: Seq<char>, ty: STerm },
}

#[verifier::ext_equal]
pub struct SGlobals {
    pub defs: Map<Seq<char>, SDefinition>,
    pub inductives: Map<Seq<char>, SInductive>,
}

impl View for ConstructorDef {
    type V = SCtorDef;

    open spec fn view(&self) -> SCtorDef {
        SCtorDef { name: self.name@, ty: self.ty@ }
    }
}

pub open spec fn params_view(ps: Seq<(Name, Term)>) -> Seq<(Seq<char>, STerm)> {
    ps.map_values(|p: (Name, Term)| (p.0@, p.1@))
}

pub open spec fn ctors_view(cs: Seq<ConstructorDef>) -> Seq<SCtorDef> {
    cs.map_values(|c: ConstructorDef| c@)
}

impl View for InductiveDef {
    type V = SInductive;

    open spec fn view(&self) -> SInductive {
        SInductive {
            name: self.name@,
            params: params_view(self.params@),
            ty: self.ty@,
            constructors: ctors_view(self.constructors@),
        }
    }
}

impl View for Definition {
    type V = SDefinition;

    open spec fn view(&self) -> SDefinition {
        match self {
            Definition::Def { ty, body } => SDefinition::Def { ty: ty@, body: body@ },
            Definition::Axiom { ty } => SDefinition::Axiom { ty: ty@ },
            Definition::Constructor { inductive, ty, index } => SDefinition::Constructor { inductive: inductive@, ty: ty@, index: *index },
            Definition::Recursor { inductive, ty } => SDefinition::Recursor { inductive: inductive@, ty: ty@ },
        }
    }
}

/// The map that an association list denotes: later entries win.
pub open spec fn assoc_map<V: View>(s: Seq<(Name, V)>) -> Map<Seq<char>, V::V>
    decreases s.len(),
{
    if s.len() == 0 {
        Map::empty()
    } else {
        assoc_map(s.drop_last()).insert(s.last().0@, s.last().1@)
    }
}

impl View for GlobalEnv {
    type V = SGlobals;

    open spec fn view(&self) -> SGlobals {
        SGlobals { defs: assoc_map(self.defs@), inductives: assoc_map(self.inductives@) }
    }
}

/// The type that a definition assigns to its name.
pub open spec fn def_type(d: SDefinition) -> STerm {
    match d {
        SDefinition::Def { ty, .. } => ty,
        SDefinition::Axiom { ty } => ty,
        SDefinition::Constructor { ty, .. } => ty,
        SDefinition::Recursor { ty, .. } => ty,
    }
}

pub proof fn lemma_assoc_map_later<V: View>(s: Seq<(Name, V)>, i: int)
    requires
        0 <= i < s.len(),
        forall|j: int| i < j < s.len() ==> s[j].0@ != s[i].0@,
    ensures
        assoc_map(s).contains_key(s[i].0@),
        assoc_map(s)[s[i].0@] == s[i].1@,
    decreases s.len(),
{
    if i < s.len() - 1 {
        lemma_assoc_map_later(s.drop_last(), i);
    }
}

pub proof fn lemma_assoc_map_absent<V: View>(s: Seq<(Name, V)>, k: Seq<char>)
    requires
        forall|j: int| 0 <= j < s.len() ==> s[j].0@ != k,
    ensures
        !assoc_map(s).contains_key(k),
    decreases s.len(),
{
    if s.len() > 0 {
        lemma_assoc_map_absent(s.drop_last(), k);
    }
}

proof fn lemma_assoc_map_update<V: View>(s: Seq<(Name, V)>, i: int, e: (Name, V))
    requires
        0 <= i < s.len(),
        s[i].0@ == e.0@,
        forall|j: int| i < j < s.len() ==> s[j].0@ != e.0@,
    ensures
        assoc_map(s.update(i, e)) == assoc_map(s).insert(e.0@, e.1@),
    decreases s.len(),
{
    if i == s.len() - 1 {
        assert(s.update(i, e).drop_last() =~= s.drop_last());
        assert(assoc_map(s.update(i, e)) =~= assoc_map(s).insert(e.0@, e.1@));
    } else {
        lemma_assoc_map_update(s.drop_last(), i, e);
        assert(s.update(i, e).drop_last() =~= s.drop_last().update(i, e));
        assert(assoc_map(s.update(i, e)) =~= assoc_map(s).insert(e.0@, e.1@));
    }
}

proof fn lemma_assoc_map_push<V: View>(s: Seq<(Name, V)>, e: (Name, V))
    ensures
        assoc_map(s.push(e)) == assoc_map(s).insert(e.0@, e.1@),
{
    assert(s.push(e).drop_last() =~= s);
}

/// Index of the last entry with key `key`.
fn assoc_find<V: View>(s: &Vec<(Name, V)>, key: &str) -> (r: Option<usize>)
    ensures
        match r {
            Some(i) => i < s@.len() && s@[i as int].0@ == key@ && forall|j: int| i < j < s@.len() ==> s@[j].0@ != key@,
            None => forall|j: int| 0 <= j < s@.len() ==> s@[j].0@ != key@,
        },
{
    let mut i = s.len();
    while i > 0
        invariant
            i <= s@.len(),
            forall|j: int| i <= j < s@.len() ==> s@[j].0@ != key@,
        decreases i,
    {
        i = i - 1;
        if str_eq(s[i].0.as_str(), key) {
            return Some(i);
        }
    }
    None
}

fn assoc_get<'a, V: View>(s: &'a Vec<(Name, V)>, key: &str) -> (r: Option<&'a V>)
    ensures
        match r {
            Some(v) => assoc_map(s@).contains_key(key@) && assoc_map(s@)[key@] == v@,
            None => !assoc_map(s@).contains_key(key@),
        },
{
    match assoc_find(s, key) {
        Some(i) => {
            proof {
                lemma_assoc_map_later(s@, i as int);
            }
            Some(&s[i].1)
        },
        None => {
            proof {
                lemma_assoc_map_absent(s@, key@);
            }
            None
        },
    }
}

/// No two entries have the same name.
pub open spec fn unique_keys<V>(s: Seq<(Name, V)>) -> bool {
    forall|i: int, j: int| 0 <= i < j < s.len() ==> s[i].0@ != s[j].0@
}

fn assoc_insert<V: View>(s: &mut Vec<(Name, V)>, key: Name, v: V)
    ensures
        assoc_map(final(s)@) == assoc_map(old(s)@).insert(key@, v@),
        unique_keys(old(s)@) ==> unique_keys(final(s)@),
{
    match assoc_find(s, key.as_str()) {
        Some(i) => {
            proof {
                lemma_assoc_map_update(s@, i as int, (key, v));
            }
            let ghost before = s@;
            let ghost k = key@;
            s.set(i, (key, v));
            assert forall|a: int, b: int| 0 <= a < b < s@.len() && unique_keys(before) implies s@[a].0@ != s@[b].0@ by {
                if a == i {
                    assert(s@[a].0@ == k);
                    assert(before[b].0@ == s@[b].0@);
                } else if b == i {
                    assert(before[a].0@ == s@[a].0@);
                } else {
                    assert(before[a] == s@[a] && before[b] == s@[b]);
                }
            }
        },
        None => {
            proof {
                lemma_assoc_map_push(s@, (key, v));
            }
            s.push((key, v));
        },
    }
}

impl Definition {
    pub fn get_type(&self) -> (r: &Term)
        ensures
            r@ == def_type(self@),
    {
        match self {
            Definition::Def { ty, .. } => ty,
            Definition::Axiom { ty } => ty,
            Definition::Constructor { ty, .. } => ty,
            Definition::Recursor { ty, .. } => ty,
        }
    }
}

/// The definitions that registering the constructors `cs` of inductive `ind` adds, in order.
pub open spec fn with_ctor_defs(m: Map<Seq<char>, SDefinition>, ind: Seq<char>, cs: Seq<SCtorDef>) -> Map<Seq<char>, SDefinition>
    decreases cs.len(),
{
    if cs.len() == 0 {
        m
    } else {
        with_ctor_defs(m, ind, cs.drop_last()).insert(
            cs.last().name,
            SDefinition::Constructor { inductive: ind, ty: cs.last().ty, index: (cs.len() - 1) as usize },
        )
    }
}

impl GlobalEnv {
    /// Neither list holds two entries for one name.
    pub open spec fn keys_unique(&self) -> bool {
        unique_keys(self.defs@) && unique_keys(self.inductives@)
    }

    pub fn new() -> (r: Self)
        ensures
            r@.defs == Map::<Seq<char>, SDefinition>::empty(),
            r@.inductives == Map::<Seq<char>, SInductive>::empty(),
            r.keys_unique(),
    {
        GlobalEnv { defs: Vec::new(), inductives: Vec::new() }
    }

    /// Bind `name` to `def`, replacing what it was bound to.
    pub fn insert_def(&mut self, name: Name, def: Definition)
        ensures
            final(self)@.defs == old(self)@.defs.insert(name@, def@),
            final(self)@.inductives == old(self)@.inductives,
            old(self).keys_unique() ==> final(self).keys_unique(),
    {
        assoc_insert(&mut self.defs, name, def);
    }

    pub fn add_def(&mut self, name: Name, ty: Term, body: Term)
        ensures
            final(self)@.defs == old(self)@.defs.insert(name@, SDefinition::Def { ty: ty@, body: body@ }),
            final(self)@.inductives == old(self)@.inductives,
            old(self).keys_unique() ==> final(self).keys_unique(),
    {
        self.insert_def(name, Definition::Def { ty, body });
    }

    pub fn add_axiom(&mut self, name: Name, ty: Term)
        ensures
            final(self)@.defs == old(self)@.defs.insert(name@, SDefinition::Axiom { ty: ty@ }),
            final(self)@.inductives == old(self)@.inductives,
            old(self).keys_unique() ==> final(self).keys_unique(),
    {
        self.insert_def(name, Definition::Axiom { ty });
    }

    /// Register an inductive type: each constructor becomes a definition, then the type itself is recorded.
    pub fn add_inductive(&mut self, ind: InductiveDef)
        ensures
            final(self)@.defs == with_ctor_defs(old(self)@.defs, ind.name@, ind@.constructors),
            final(self)@.inductives == old(self)@.inductives.insert(ind.name@, ind@),
            old(self).keys_unique() ==> final(self).keys_unique(),
    {
        let ind_name = ind.name.clone();
        let n = ind.constructors.len();
        for i in 0..n
            invariant
                n == ind.constructors@.len(),
                ind_name@ == ind.name@,
                self@.inductives == old(self)@.inductives,
                self@.defs == with_ctor_defs(old(self)@.defs, ind.name@, ind@.constructors.take(i as int)),
                old(self).keys_unique() ==> self.keys_unique(),
        {
            let ctor = &ind.constructors[i];
            self.insert_def(
                ctor.name.clone(),
                Definition::Constructor { inductive: ind_name.clone(), ty: ctor.ty.clone(), index: i },
            );
            proof {
                let cs = ind@.constructors;
                assert(cs.take(i + 1).drop_last() =~= cs.take(i as int));
                assert(cs.take(i + 1).last() == cs[i as int]);
            }
        }
        proof {
            assert(ind@.constructors.take(n as int) =~= ind@.constructors);
        }
        assoc_insert(&mut self.inductives, ind_name, ind);
    }

    pub fn lookup(&self, name: &str) -> (r: Option<&Definition>)
        ensures
            match r {
                Some(d) => self@.defs.contains_key(name@) && self@.defs[name@] == d@,
                None => !self@.defs.contains_key(name@),
            },
    {
        assoc_get(&self.defs, name)
    }

    pub fn lookup_inductive(&self, name: &str) -> (r: Option<&InductiveDef>)
        ensures
            match r {
                Some(d) => self@.inductives.contains_key(name@) && self@.inductives[name@] == d@,
                None => !self@.inductives.contains_key(name@),
            },
    {
        assoc_get(&self.inductives, name)
    }
}

}

verus! {

impl Clone for Definition {
    fn clone(&self) -> (r: Self)
        ensures
            r@ == self@,
    {
        match self {
            Definition::Def { ty, body } => Definition::Def { ty: ty.clone(), body: body.clone() },
            Definition::Axiom { ty } => Definition::Axiom { ty: ty.clone() },
            Definition::Constructor { inductive, ty, index } => Definition::Constructor {
                inductive: inductive.clone(),
                ty: ty.clone(),
                index: *index,
            },
            Definition::Recursor { inductive, ty } => Definition::Recursor { inductive: inductive.clone(), ty: ty.clone() },
        }
    }
}

impl Clone for ConstructorDef {
    fn clone(&self) -> (r: Self)
        ensures
            r@ == self@,
    {
        ConstructorDef { name: self.name.clone(), ty: self.ty.clone() }
    }
}

/// Copy a list of constructors.
pub fn clone_ctors(cs: &Vec<ConstructorDef>) -> (r: Vec<ConstructorDef>)
    ensures
        ctors_view(r@) == ctors_view(cs@),
{
    let mut r: Vec<ConstructorDef> = Vec::new();
    let mut i: usize = 0;
    while i < cs.len()
        invariant
            i <= cs@.len(),
            r@.len() == i,
            forall|j: int| 0 <= j < i ==> #[trigger] r@[j]@ == cs@[j]@,
        decreases cs@.len() - i,
    {
        r.push(cs[i].clone());
        i = i + 1;
    }
    assert(ctors_view(r@) =~= ctors_view(cs@));
    r
}

/// Copy a list of parameters.
pub fn clone_params(ps: &Vec<(Name, Term)>) -> (r: Vec<(Name, Term)>)
    ensures
        params_view(r@) == params_view(ps@),
{
    let mut r: Vec<(Name, Term)> = Vec::new();
    let mut i: usize = 0;
    while i < ps.len()
        invariant
            i <= ps@.len(),
            r@.len() == i,
            forall|j: int| 0 <= j < i ==> #[trigger] r@[j].0@ == ps@[j].0@ && r@[j].1@ == ps@[j].1@,
        decreases ps@.len() - i,
    {
        let p = &ps[i];
        r.push((p.0.clone(), p.1.clone()));
        i = i + 1;
    }
    assert(params_view(r@) =~= params_view(ps@));
    r
}

impl Clone for InductiveDef {
    fn clone(&self) -> (r: Self)
        ensures
            r@ == self@,
    {
        InductiveDef {
            name: self.name.clone(),
            params: clone_params(&self.params),
            ty: self.ty.clone(),
            constructors: clone_ctors(&self.constructors),
        }
    }
}

}

verus! {

/// Read after write: once `name` is bound to `d`, looking `name` up gives `d`, and
/// every other name is bound as it was before.
pub proof fn lemma_read_after_insert(defs: Map<Seq<char>, SDefinition>, name: Seq<char>, d: SDefinition, other: Seq<char>)
    ensures
        defs.insert(name, d).contains_key(name),
        defs.insert(name, d)[name] == d,
        other != name ==> defs.insert(name, d).contains_key(other) == defs.contains_key(other),
        other != name && defs.contains_key(other) ==> defs.insert(name, d)[other] == defs[other],
{
}

}
