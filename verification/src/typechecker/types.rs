//! Types used by the type checker

use crate::runtime::layout::Layout;
use crate::syntax::meta::{Meta, MetaId};
use crate::typechecker::builtin_docs::{DOC_EARLY_UNWRAP_OR_REJECT,DOC_EARLY_UNWRAP_OR_REJECT_DEFAULT,DOC_EARLY_UNWRAP_OR_ACCEPT,DOC_EARLY_UNWRAP_OR_ACCEPT_DEFAULT,DOC_OPTION_IS_SOME,DOC_OPTION_IS_NONE,DOC_OPTION_UNWRAP_OR,DOC_OPTION_UNWRAP_OR_DEFAULT,DOC_OPTION_OK_OR,DOC_RESULT_IS_OK,DOC_RESULT_IS_ERR,DOC_RESULT_OK,DOC_RESULT_ERR,DOC_RESULT_UNWRAP_OR,DOC_RESULT_UNWRAP_OR_DEFAULT,DOC_VERDICT_IS_ACCEPT,DOC_VERDICT_IS_REJECT,DOC_VERDICT_ACCEPTED,DOC_VERDICT_REJECTED,DOC_VERDICT_UNWRAP_OR,DOC_VERDICT_UNWRAP_OR_DEFAULT,DOC_TYPE_OPTION,DOC_VERDICT_TYPE,DOC_TYPE_RESULT};
use vstd::prelude::*;

verus! {

broadcast use vstd::std_specs::vec::group_vec_axioms;

/// An identifier.
pub type Identifier = String;

/// A scope in the scope graph of the type checker.
#[derive(Clone, Copy, Debug, PartialEq, Eq, Hash, Structural)]
pub struct ScopeRef(pub usize);

/// A name together with the scope in which it is declared.
#[derive(Clone, Debug, PartialEq, Eq, Hash)]
pub struct ResolvedName {
    pub scope: ScopeRef,
    pub ident: Identifier,
}

#[derive(Clone, Copy, Debug, PartialEq, Eq, Hash, Structural)]
pub enum MustBeSigned {
    Yes,
    No,
}

#[derive(Debug, PartialEq, Eq, Hash)]
pub enum Type {
    Var(usize),
    ExplicitVar(Identifier),
    IntVar(usize, MustBeSigned),
    FloatVar(usize),
    RecordVar(usize, Vec<(Meta<Identifier>, Type)>),
    Unit,
    Never,
    Record(Vec<(Meta<Identifier>, Type)>),
    Function(Vec<Type>, Box<Type>),
    Name(TypeName),
}

#[derive(Debug, PartialEq, Eq, Hash)]
pub struct TypeName {
    pub name: ResolvedName,
    pub arguments: Vec<Type>,
}

pub ghost struct ResolvedNameV {
    pub scope: ScopeRef,
    pub ident: Seq<char>,
}

pub ghost struct FieldV {
    pub name: Seq<char>,
    pub id: MetaId,
    pub ty: TypeV,
}

pub ghost struct TypeNameV {
    pub name: ResolvedNameV,
    pub arguments: Seq<TypeV>,
}

pub ghost enum TypeV {
    Var(usize),
    ExplicitVar(Seq<char>),
    IntVar(usize, MustBeSigned),
    FloatVar(usize),
    RecordVar(usize, Seq<FieldV>),
    Unit,
    Never,
    Record(Seq<FieldV>),
    Function(Seq<TypeV>, Box<TypeV>),
    Name(TypeNameV),
}

pub open spec fn name_view(n: ResolvedName) -> ResolvedNameV {
    ResolvedNameV { scope: n.scope, ident: n.ident@ }
}

pub open spec fn ty_view(t: Type) -> TypeV
    decreases t,
{
    match t {
        Type::Var(x) => TypeV::Var(x),
        Type::ExplicitVar(s) => TypeV::ExplicitVar(s@),
        Type::IntVar(x, m) => TypeV::IntVar(x, m),
        Type::FloatVar(x) => TypeV::FloatVar(x),
        Type::RecordVar(x, fields) => TypeV::RecordVar(x, fields_view(fields@)),
        Type::Unit => TypeV::Unit,
        Type::Never => TypeV::Never,
        Type::Record(fields) => TypeV::Record(fields_view(fields@)),
        Type::Function(args, ret) => TypeV::Function(tys_view(args@), Box::new(ty_view(*ret))),
        Type::Name(n) => TypeV::Name(TypeNameV { name: name_view(n.name), arguments: tys_view(n.arguments@) }),
    }
}

pub open spec fn tys_view(s: Seq<Type>) -> Seq<TypeV>
    decreases s,
{
    Seq::new(s.len(), |i: int| if 0 <= i < s.len() { ty_view(s[i]) } else { TypeV::Unit })
}

pub open spec fn field_view(f: (Meta<Identifier>, Type)) -> FieldV
    decreases f,
{
    FieldV { name: f.0.node@, id: f.0.id, ty: ty_view(f.1) }
}

pub open spec fn fields_view(s: Seq<(Meta<Identifier>, Type)>) -> Seq<FieldV>
    decreases s,
{
    Seq::new(s.len(), |i: int| if 0 <= i < s.len() { field_view(s[i]) } else { FieldV { name: Seq::empty(), id: MetaId(0), ty: TypeV::Unit } })
}

impl View for Type {
    type V = TypeV;

    open spec fn view(&self) -> TypeV {
        ty_view(*self)
    }
}

impl View for TypeName {
    type V = TypeNameV;

    open spec fn view(&self) -> TypeNameV {
        TypeNameV { name: name_view(self.name), arguments: tys_view(self.arguments@) }
    }
}

impl View for ResolvedName {
    type V = ResolvedNameV;

    open spec fn view(&self) -> ResolvedNameV {
        name_view(*self)
    }
}

/// The result of replacing every occurrence of `from` in `t` by `to`.
///
/// A type equal to `from` is replaced as a whole; otherwise the replacement
/// descends into the fields of records and the arguments of named types.
/// The parameter and return types of function types are left as they are.
pub open spec fn subst(t: TypeV, from: TypeV, to: TypeV) -> TypeV
    decreases t,
{
    if t == from {
        to
    } else {
        match t {
            TypeV::RecordVar(x, fields) => TypeV::RecordVar(x, subst_fields(fields, from, to)),
            TypeV::Record(fields) => TypeV::Record(subst_fields(fields, from, to)),
            TypeV::Name(n) => TypeV::Name(
                TypeNameV { name: n.name, arguments: subst_seq(n.arguments, from, to) },
            ),
            _ => t,
        }
    }
}

pub open spec fn subst_seq(s: Seq<TypeV>, from: TypeV, to: TypeV) -> Seq<TypeV>
    decreases s,
{
    Seq::new(s.len(), |i: int| if 0 <= i < s.len() { subst(s[i], from, to) } else { TypeV::Unit })
}

pub open spec fn subst_fields(s: Seq<FieldV>, from: TypeV, to: TypeV) -> Seq<FieldV>
    decreases s,
{
    Seq::new(
        s.len(),
        |i: int|
            if 0 <= i < s.len() {
                FieldV { name: s[i].name, id: s[i].id, ty: subst(s[i].ty, from, to) }
            } else {
                s[0]
            },
    )
}

/// Replace the pairs of `subs` one after the other, first to last.
pub open spec fn subst_many(t: TypeV, subs: Seq<(TypeV, TypeV)>) -> TypeV
    decreases subs.len(),
{
    if subs.len() == 0 {
        t
    } else {
        subst_many(subst(t, subs[0].0, subs[0].1), subs.drop_first())
    }
}

fn clone_meta_ident(m: &Meta<Identifier>) -> (res: Meta<Identifier>)
    ensures
        res.node@ == m.node@,
        res.id == m.id,
{
    Meta { node: m.node.clone(), id: m.id }
}

fn clone_type(t: &Type) -> (res: Type)
    ensures
        res@ == t@,
    decreases t,
{
    match t {
        Type::Var(x) => Type::Var(*x),
        Type::ExplicitVar(s) => Type::ExplicitVar(s.clone()),
        Type::IntVar(x, m) => Type::IntVar(*x, *m),
        Type::FloatVar(x) => Type::FloatVar(*x),
        Type::RecordVar(x, fields) => {
            let f = clone_fields(fields);
            Type::RecordVar(*x, f)
        },
        Type::Unit => Type::Unit,
        Type::Never => Type::Never,
        Type::Record(fields) => {
            let f = clone_fields(fields);
            Type::Record(f)
        },
        Type::Function(args, ret) => {
            let a = clone_types(args);
            let r = clone_type(&**ret);
            Type::Function(a, Box::new(r))
        },
        Type::Name(n) => Type::Name(clone_type_name(n)),
    }
}

fn clone_type_name(n: &TypeName) -> (res: TypeName)
    ensures
        res@ == n@,
    decreases n,
{
    let arguments = clone_types(&n.arguments);
    TypeName { name: ResolvedName { scope: n.name.scope, ident: n.name.ident.clone() }, arguments }
}

fn clone_types(v: &Vec<Type>) -> (res: Vec<Type>)
    ensures
        tys_view(res@) == tys_view(v@),
    decreases v,
{
    let mut res: Vec<Type> = Vec::new();
    let mut i: usize = 0;
    while i < v.len()
        invariant
            i <= v@.len(),
            res@.len() == i,
            forall|j: int| 0 <= j < i ==> ty_view(#[trigger] res@[j]) == ty_view(v@[j]),
        decreases v@.len() - i,
    {
        proof {
            assert(decreases_to!(v => v@[i as int]));
        }
        let t = clone_type(&v[i]);
        res.push(t);
        i = i + 1;
    }
    assert(tys_view(res@) =~= tys_view(v@));
    res
}

fn clone_fields(v: &Vec<(Meta<Identifier>, Type)>) -> (res: Vec<(Meta<Identifier>, Type)>)
    ensures
        fields_view(res@) == fields_view(v@),
    decreases v,
{
    let mut res: Vec<(Meta<Identifier>, Type)> = Vec::new();
    let mut i: usize = 0;
    while i < v.len()
        invariant
            i <= v@.len(),
            res@.len() == i,
            forall|j: int| 0 <= j < i ==> field_view(#[trigger] res@[j]) == field_view(v@[j]),
        decreases v@.len() - i,
    {
        proof {
            assert(decreases_to!(v => v@[i as int]));
        }
        let m = clone_meta_ident(&v[i].0);
        let t = clone_type(&v[i].1);
        res.push((m, t));
        i = i + 1;
    }
    assert(fields_view(res@) =~= fields_view(v@));
    res
}

impl Clone for Type {
    fn clone(&self) -> (res: Self)
        ensures
            res@ == self@,
    {
        clone_type(self)
    }
}

impl Clone for TypeName {
    fn clone(&self) -> (res: Self)
        ensures
            res@ == self@,
    {
        clone_type_name(self)
    }
}

impl ResolvedName {
    pub fn duplicate(&self) -> (res: Self)
        ensures
            res@ == self@,
    {
        ResolvedName { scope: self.scope, ident: self.ident.clone() }
    }
}

/// Whether two types are the same.
pub fn type_eq(a: &Type, b: &Type) -> (res: bool)
    ensures
        res == (a@ == b@),
    decreases a,
{
    match (a, b) {
        (Type::Var(x), Type::Var(y)) => *x == *y,
        (Type::ExplicitVar(x), Type::ExplicitVar(y)) => *x == *y,
        (Type::IntVar(x, m), Type::IntVar(y, n)) => *x == *y && *m == *n,
        (Type::FloatVar(x), Type::FloatVar(y)) => *x == *y,
        (Type::RecordVar(x, f), Type::RecordVar(y, g)) => *x == *y && fields_eq(f, g),
        (Type::Unit, Type::Unit) => true,
        (Type::Never, Type::Never) => true,
        (Type::Record(f), Type::Record(g)) => fields_eq(f, g),
        (Type::Function(a1, r1), Type::Function(a2, r2)) => {
            if types_eq(a1, a2) {
                type_eq(&**r1, &**r2)
            } else {
                false
            }
        },
        (Type::Name(n), Type::Name(m)) => {
            n.name.scope == m.name.scope && n.name.ident == m.name.ident && types_eq(
                &n.arguments,
                &m.arguments,
            )
        },
        _ => false,
    }
}

fn types_eq(a: &Vec<Type>, b: &Vec<Type>) -> (res: bool)
    ensures
        res == (tys_view(a@) == tys_view(b@)),
    decreases a,
{
    if a.len() != b.len() {
        assert(tys_view(a@).len() != tys_view(b@).len());
        return false;
    }
    let mut i: usize = 0;
    while i < a.len()
        invariant
            i <= a@.len(),
            a@.len() == b@.len(),
            forall|j: int| 0 <= j < i ==> ty_view(#[trigger] a@[j]) == ty_view(b@[j]),
        decreases a@.len() - i,
    {
        proof {
            assert(decreases_to!(a => a@[i as int]));
        }
        if !type_eq(&a[i], &b[i]) {
            assert(tys_view(a@)[i as int] != tys_view(b@)[i as int]);
            return false;
        }
        i = i + 1;
    }
    assert(tys_view(a@) =~= tys_view(b@));
    true
}

fn fields_eq(a: &Vec<(Meta<Identifier>, Type)>, b: &Vec<(Meta<Identifier>, Type)>) -> (res: bool)
    ensures
        res == (fields_view(a@) == fields_view(b@)),
    decreases a,
{
    if a.len() != b.len() {
        assert(fields_view(a@).len() != fields_view(b@).len());
        return false;
    }
    let mut i: usize = 0;
    while i < a.len()
        invariant
            i <= a@.len(),
            a@.len() == b@.len(),
            forall|j: int| 0 <= j < i ==> field_view(#[trigger] a@[j]) == field_view(b@[j]),
        decreases a@.len() - i,
    {
        proof {
            assert(decreases_to!(a => a@[i as int]));
        }
        let same = a[i].0.node == b[i].0.node && a[i].0.id == b[i].0.id;
        if !same || !type_eq(&a[i].1, &b[i].1) {
            assert(fields_view(a@)[i as int] != fields_view(b@)[i as int]);
            return false;
        }
        i = i + 1;
    }
    assert(fields_view(a@) =~= fields_view(b@));
    true
}

impl Type {
    /// Replace every occurrence of `from` in this type by `to`.
    pub fn substitute(&self, from: &Self, to: &Self) -> (res: Self)
        ensures
            res@ == subst(self@, from@, to@),
        decreases self,
    {
        if type_eq(self, from) {
            return to.clone();
        }
        match self {
            Type::RecordVar(x, fields) => {
                let f = substitute_fields(fields, from, to);
                Type::RecordVar(*x, f)
            },
            Type::Record(fields) => {
                let f = substitute_fields(fields, from, to);
                Type::Record(f)
            },
            Type::Name(name) => Type::Name(name.substitute(from, to)),
            other => other.clone(),
        }
    }

    /// Apply the substitutions of `subs` one after the other.
    pub fn substitute_many(&self, subs: &[(Type, Type)]) -> (res: Self)
        ensures
            res@ == subst_many(self@, pairs_view(subs@)),
    {
        let mut me = self.clone();
        let mut i: usize = 0;
        assert(pairs_view(subs@).skip(0) =~= pairs_view(subs@));
        while i < subs.len()
            invariant
                i <= subs@.len(),
                subst_many(me@, pairs_view(subs@).skip(i as int)) == subst_many(self@, pairs_view(subs@)),
            decreases subs@.len() - i,
        {
            proof {
                assert(pairs_view(subs@).skip(i as int).drop_first() =~= pairs_view(subs@).skip(i + 1));
            }
            me = me.substitute(&subs[i].0, &subs[i].1);
            i = i + 1;
        }
        assert(pairs_view(subs@).skip(i as int).len() == 0);
        me
    }
}

/// The views of a sequence of substitution pairs.
pub open spec fn pairs_view(s: Seq<(Type, Type)>) -> Seq<(TypeV, TypeV)> {
    Seq::new(s.len(), |i: int| (s[i].0@, s[i].1@))
}

impl TypeName {
    fn substitute(&self, from: &Type, to: &Type) -> (res: Self)
        ensures
            res@ == (TypeNameV { name: self@.name, arguments: subst_seq(self@.arguments, from@, to@) }),
        decreases self,
    {
        let mut arguments: Vec<Type> = Vec::new();
        let mut i: usize = 0;
        while i < self.arguments.len()
            invariant
                i <= self.arguments@.len(),
                arguments@.len() == i,
                forall|j: int| 0 <= j < i ==> ty_view(#[trigger] arguments@[j]) == subst(ty_view(self.arguments@[j]), from@, to@),
            decreases self.arguments@.len() - i,
        {
            proof {
                assert(decreases_to!(self => self.arguments@[i as int]));
            }
            let t = self.arguments[i].substitute(from, to);
            arguments.push(t);
            i = i + 1;
        }
        let res = TypeName { name: self.name.duplicate(), arguments };
        assert(res@.arguments =~= subst_seq(self@.arguments, from@, to@));
        res
    }
}

fn substitute_fields(v: &Vec<(Meta<Identifier>, Type)>, from: &Type, to: &Type) -> (res: Vec<(Meta<Identifier>, Type)>)
    ensures
        fields_view(res@) == subst_fields(fields_view(v@), from@, to@),
    decreases v,
{
    let mut res: Vec<(Meta<Identifier>, Type)> = Vec::new();
    let mut i: usize = 0;
    while i < v.len()
        invariant
            i <= v@.len(),
            res@.len() == i,
            forall|j: int| 0 <= j < i ==> field_view(#[trigger] res@[j]) == (FieldV { name: field_view(v@[j]).name, id: field_view(v@[j]).id, ty: subst(field_view(v@[j]).ty, from@, to@) }),
        decreases v@.len() - i,
    {
        proof {
            assert(decreases_to!(v => v@[i as int]));
        }
        let m = clone_meta_ident(&v[i].0);
        let t = v[i].1.substitute(from, to);
        res.push((m, t));
        i = i + 1;
    }
    assert(fields_view(res@) =~= subst_fields(fields_view(v@), from@, to@));
    res
}

/// The global scope.
pub open spec fn global_scope() -> ScopeRef {
    ScopeRef(0)
}

impl ScopeRef {
    /// The global scope, in which built-in and registered items are declared.
    pub fn global() -> (res: ScopeRef)
        ensures
            res == global_scope(),
    {
        ScopeRef(0)
    }
}

fn no_args() -> (res: Vec<Type>)
    ensures
        tys_view(res@) == Seq::<TypeV>::empty(),
        res@.len() == 0,
{
    let v: Vec<Type> = Vec::new();
    assert(tys_view(v@) =~= Seq::<TypeV>::empty());
    v
}

/// A named type in the global scope.
pub open spec fn named_v(ident: Seq<char>, arguments: Seq<TypeV>) -> TypeV {
    TypeV::Name(
        TypeNameV { name: ResolvedNameV { scope: global_scope(), ident }, arguments },
    )
}

impl Type {
    pub fn unit() -> (res: Type)
        ensures
            res@ == TypeV::Unit,
    {
        Type::Unit
    }

    pub fn bool() -> (res: Type)
        ensures
            res@ == named_v("bool"@, seq![]),
    {
        Type::named("bool", no_args())
    }

    pub fn char() -> (res: Type)
        ensures
            res@ == named_v("char"@, seq![]),
    {
        Type::named("char", no_args())
    }

    pub fn u8() -> (res: Type)
        ensures
            res@ == named_v("u8"@, seq![]),
    {
        Type::named("u8", no_args())
    }

    pub fn i32() -> (res: Type)
        ensures
            res@ == named_v("i32"@, seq![]),
    {
        Type::named("i32", no_args())
    }

    pub fn u64() -> (res: Type)
        ensures
            res@ == named_v("u64"@, seq![]),
    {
        Type::named("u64", no_args())
    }

    pub fn float64() -> (res: Type)
        ensures
            res@ == named_v("f64"@, seq![]),
    {
        Type::named("f64", no_args())
    }

    pub fn string() -> (res: Type)
        ensures
            res@ == named_v("String"@, seq![]),
    {
        Type::named("String", no_args())
    }

    pub fn asn() -> (res: Type)
        ensures
            res@ == named_v("Asn"@, seq![]),
    {
        Type::named("Asn", no_args())
    }

    pub fn ip_addr() -> (res: Type)
        ensures
            res@ == named_v("IpAddr"@, seq![]),
    {
        Type::named("IpAddr", no_args())
    }

    pub fn prefix() -> (res: Type)
        ensures
            res@ == named_v("Prefix"@, seq![]),
    {
        Type::named("Prefix", no_args())
    }

    pub fn result(a: &Type, b: &Type) -> (res: Type)
        ensures
            res@ == named_v("Result"@, seq![a@, b@]),
    {
        let mut args: Vec<Type> = Vec::new();
        args.push(a.clone());
        args.push(b.clone());
        let res = Type::named("Result", args);
        assert(tys_view(args@) =~= seq![a@, b@]);
        res
    }

    pub fn verdict(a: &Type, b: &Type) -> (res: Type)
        ensures
            res@ == named_v("Verdict"@, seq![a@, b@]),
    {
        let mut args: Vec<Type> = Vec::new();
        args.push(a.clone());
        args.push(b.clone());
        let res = Type::named("Verdict", args);
        assert(tys_view(args@) =~= seq![a@, b@]);
        res
    }

    pub fn option(t: &Type) -> (res: Type)
        ensures
            res@ == named_v("Option"@, seq![t@]),
    {
        let mut args: Vec<Type> = Vec::new();
        args.push(t.clone());
        let res = Type::named("Option", args);
        assert(tys_view(args@) =~= seq![t@]);
        res
    }

    pub fn list(t: &Type) -> (res: Type)
        ensures
            res@ == named_v("List"@, seq![t@]),
    {
        let mut args: Vec<Type> = Vec::new();
        args.push(t.clone());
        let res = Type::named("List", args);
        assert(tys_view(args@) =~= seq![t@]);
        res
    }

    /// Create a named type in the global scope
    pub fn named(ident: &str, arguments: Vec<Type>) -> (res: Type)
        ensures
            res@ == named_v(ident@, tys_view(arguments@)),
    {
        Type::Name(
            TypeName {
                name: ResolvedName { scope: ScopeRef::global(), ident: String::from_str(ident) },
                arguments,
            },
        )
    }

    /// Create a named type in the global scope from an identifier.
    pub fn named_ident(ident: Identifier, arguments: Vec<Type>) -> (res: Type)
        ensures
            res@ == named_v(ident@, tys_view(arguments@)),
    {
        Type::Name(TypeName { name: ResolvedName { scope: ScopeRef::global(), ident }, arguments })
    }

    /// A type variable that must be instantiated, with the given name.
    pub fn explicit_var(ident: &str) -> (res: Type)
        ensures
            res@ == TypeV::ExplicitVar(ident@),
    {
        Type::ExplicitVar(String::from_str(ident))
    }
}

/// The number of explicit type variables among the first `i` types of `s`.
pub open spec fn explicit_before(s: Seq<TypeV>, i: int) -> nat
    decreases i,
{
    if i <= 0 {
        0
    } else {
        explicit_before(s, i - 1) + if s[i - 1] is ExplicitVar { 1nat } else { 0nat }
    }
}

/// `s` with each explicit type variable replaced by a fresh type variable,
/// numbered from `next` upwards in order of appearance.
pub open spec fn fresh_args(s: Seq<TypeV>, next: nat) -> Seq<TypeV> {
    Seq::new(
        s.len(),
        |i: int|
            if s[i] is ExplicitVar {
                TypeV::Var((next + explicit_before(s, i)) as usize)
            } else {
                s[i]
            },
    )
}

/// The substitutions from the explicit type variables among the first `i`
/// types of `s` to their fresh type variables.
pub open spec fn fresh_subs(s: Seq<TypeV>, next: nat, i: int) -> Seq<(TypeV, TypeV)>
    decreases i,
{
    if i <= 0 {
        seq![]
    } else {
        fresh_subs(s, next, i - 1) + if s[i - 1] is ExplicitVar {
            seq![(s[i - 1], TypeV::Var((next + explicit_before(s, i - 1)) as usize))]
        } else {
            seq![]
        }
    }
}

pub proof fn lemma_explicit_before_bound(s: Seq<TypeV>, i: int)
    requires
        0 <= i <= s.len(),
    ensures
        explicit_before(s, i) <= i,
    decreases i,
{
    if i > 0 {
        lemma_explicit_before_bound(s, i - 1);
    }
}

/// Replace the explicit type variables of `v` by fresh type variables drawn
/// from the counter `next_var`.
fn fresh_vec(v: &Vec<Type>, next_var: &mut usize) -> (res: (Vec<Type>, Vec<(Type, Type)>))
    requires
        *old(next_var) + v@.len() <= usize::MAX,
    ensures
        tys_view(res.0@) == fresh_args(tys_view(v@), *old(next_var) as nat),
        pairs_view(res.1@) == fresh_subs(tys_view(v@), *old(next_var) as nat, v@.len() as int),
        *final(next_var) == *old(next_var) + explicit_before(tys_view(v@), v@.len() as int),
{
    let ghost start = *next_var as nat;
    let ghost vv = tys_view(v@);
    let mut out: Vec<Type> = Vec::new();
    let mut subs: Vec<(Type, Type)> = Vec::new();
    let mut i: usize = 0;
    while i < v.len()
        invariant
            i <= v@.len(),
            vv == tys_view(v@),
            out@.len() == i,
            *next_var == start + explicit_before(vv, i as int),
            start + v@.len() <= usize::MAX,
            forall|j: int| 0 <= j < i ==> ty_view(#[trigger] out@[j]) == fresh_args(vv, start)[j],
            pairs_view(subs@) == fresh_subs(vv, start, i as int),
        decreases v@.len() - i,
    {
        proof {
            lemma_explicit_before_bound(vv, i as int);
        }
        let ghost old_subs = subs@;
        if let Type::ExplicitVar(_) = &v[i] {
            let fresh = Type::Var(*next_var);
            subs.push((v[i].clone(), fresh.clone()));
            out.push(fresh);
            *next_var = *next_var + 1;
            proof {
                assert(pairs_view(subs@) =~= pairs_view(old_subs) + seq![(vv[i as int], TypeV::Var((start + explicit_before(vv, i as int)) as usize))]);
            }
        } else {
            out.push(v[i].clone());
            proof {
                assert(pairs_view(subs@) =~= pairs_view(old_subs) + seq![]);
            }
        }
        i = i + 1;
    }
    assert(tys_view(out@) =~= fresh_args(vv, start));
    (out, subs)
}

impl TypeName {
    /// Instantiate a type name with fresh type variables: each explicit type
    /// variable among the arguments is replaced by a fresh variable drawn
    /// from `next_var`.
    pub fn instantiate(&self, next_var: &mut usize) -> (res: Type)
        requires
            *old(next_var) + self.arguments@.len() <= usize::MAX,
        ensures
            res@ == name_instance(self@, *old(next_var) as nat),
            *final(next_var) == *old(next_var) + fresh_drawn(self@),
    {
        let (arguments, _) = fresh_vec(&self.arguments, next_var);
        Type::Name(TypeName { name: self.name.duplicate(), arguments })
    }
}

#[derive(Debug, PartialEq, Eq, Hash)]
pub struct Signature {
    pub types: Vec<Type>,
    pub parameter_types: Vec<Type>,
    pub return_type: Type,
}

pub ghost struct SignatureV {
    pub types: Seq<TypeV>,
    pub parameter_types: Seq<TypeV>,
    pub return_type: TypeV,
}

impl View for Signature {
    type V = SignatureV;

    open spec fn view(&self) -> SignatureV {
        SignatureV {
            types: tys_view(self.types@),
            parameter_types: tys_view(self.parameter_types@),
            return_type: self.return_type@,
        }
    }
}

/// Apply `subs` to each type of `s`.
pub open spec fn subst_many_seq(s: Seq<TypeV>, subs: Seq<(TypeV, TypeV)>) -> Seq<TypeV> {
    Seq::new(s.len(), |i: int| subst_many(s[i], subs))
}

fn substitute_many_vec(v: &Vec<Type>, subs: &[(Type, Type)]) -> (res: Vec<Type>)
    ensures
        tys_view(res@) == subst_many_seq(tys_view(v@), pairs_view(subs@)),
{
    let mut out: Vec<Type> = Vec::new();
    let mut i: usize = 0;
    while i < v.len()
        invariant
            i <= v@.len(),
            out@.len() == i,
            forall|j: int| 0 <= j < i ==> ty_view(#[trigger] out@[j]) == subst_many(ty_view(v@[j]), pairs_view(subs@)),
        decreases v@.len() - i,
    {
        out.push(v[i].substitute_many(subs));
        i = i + 1;
    }
    assert(tys_view(out@) =~= subst_many_seq(tys_view(v@), pairs_view(subs@)));
    out
}

fn clone_vec(v: &Vec<Type>) -> (res: Vec<Type>)
    ensures
        tys_view(res@) == tys_view(v@),
{
    clone_types(v)
}

/// Pair the types of `a` and `b` position by position.
pub open spec fn zip_v(a: Seq<TypeV>, b: Seq<TypeV>) -> Seq<(TypeV, TypeV)> {
    Seq::new(a.len(), |i: int| (a[i], b[i]))
}

fn zip_types(a: &Vec<Type>, b: &[Type]) -> (res: Vec<(Type, Type)>)
    requires
        a@.len() == b@.len(),
    ensures
        pairs_view(res@) == zip_v(tys_view(a@), tys_view(b@)),
{
    let mut out: Vec<(Type, Type)> = Vec::new();
    let mut i: usize = 0;
    while i < a.len()
        invariant
            i <= a@.len(),
            a@.len() == b@.len(),
            out@.len() == i,
            forall|j: int| 0 <= j < i ==> (#[trigger] out@[j]).0@ == a@[j]@ && out@[j].1@ == b@[j]@,
        decreases a@.len() - i,
    {
        out.push((a[i].clone(), b[i].clone()));
        i = i + 1;
    }
    assert(pairs_view(out@) =~= zip_v(tys_view(a@), tys_view(b@)));
    out
}

impl Signature {
    /// Instantiate the explicit type variables of this signature with fresh
    /// type variables drawn from `next_var`, in the parameter types and the
    /// return type alike.
    pub fn instantiate(&self, next_var: &mut usize) -> (res: Self)
        requires
            *old(next_var) + self.types@.len() <= usize::MAX,
        ensures
            res@.types == fresh_args(self@.types, *old(next_var) as nat),
            res@.parameter_types == subst_many_seq(
                self@.parameter_types,
                fresh_subs(self@.types, *old(next_var) as nat, self@.types.len() as int),
            ),
            res@.return_type == subst_many(
                self@.return_type,
                fresh_subs(self@.types, *old(next_var) as nat, self@.types.len() as int),
            ),
            *final(next_var) == *old(next_var) + explicit_before(
                self@.types,
                self@.types.len() as int,
            ),
    {
        let (types, subs) = fresh_vec(&self.types, next_var);
        let parameter_types = substitute_many_vec(&self.parameter_types, subs.as_slice());
        let return_type = self.return_type.substitute_many(subs.as_slice());
        Signature { types, parameter_types, return_type }
    }

    /// Replace the type variables of this signature by `new_types`.
    pub fn substitute(&self, new_types: &[Type]) -> (res: Self)
        requires
            self.types@.len() == new_types@.len(),
        ensures
            res@.types == tys_view(new_types@),
            res@.parameter_types == subst_many_seq(
                self@.parameter_types,
                zip_v(self@.types, tys_view(new_types@)),
            ),
            res@.return_type == subst_many(
                self@.return_type,
                zip_v(self@.types, tys_view(new_types@)),
            ),
    {
        let subs = zip_types(&self.types, new_types);
        let mut types: Vec<Type> = Vec::new();
        let mut i: usize = 0;
        while i < new_types.len()
            invariant
                i <= new_types@.len(),
                types@.len() == i,
                forall|j: int| 0 <= j < i ==> (#[trigger] types@[j])@ == new_types@[j]@,
            decreases new_types@.len() - i,
        {
            types.push(new_types[i].clone());
            i = i + 1;
        }
        assert(tys_view(types@) =~= tys_view(new_types@));
        let parameter_types = substitute_many_vec(&self.parameter_types, subs.as_slice());
        let return_type = self.return_type.substitute_many(subs.as_slice());
        Signature { types, parameter_types, return_type }
    }

    pub fn duplicate(&self) -> (res: Self)
        ensures
            res@ == self@,
    {
        Signature {
            types: clone_vec(&self.types),
            parameter_types: clone_vec(&self.parameter_types),
            return_type: self.return_type.clone(),
        }
    }
}

/// The identity of a host (Rust) type known to the runtime.
#[derive(Clone, Copy, Debug, PartialEq, Eq, Hash, Structural)]
pub struct HostTypeId(pub u64);

/// A definition of a named type
#[derive(Debug, PartialEq, Eq, Hash)]
pub enum TypeDefinition {
    Enum(TypeName, Vec<EnumVariant>),
    RuntimeEnum(TypeName, Vec<EnumVariant>, HostTypeId),
    Record(TypeName, Vec<(Meta<Identifier>, Type)>),
    Runtime(ResolvedName, HostTypeId),
    Primitive(Primitive),
    List(TypeName),
}

#[derive(Debug, PartialEq, Eq, Hash)]
pub struct EnumVariant {
    pub name: Identifier,
    pub tag: usize,
    pub fields: Vec<Type>,
}

/// Primitive Roto types
#[derive(Clone, Copy, Debug, PartialEq, Eq, Hash, Structural)]
pub enum Primitive {
    Int(IntKind, IntSize),
    Float(FloatSize),
    String,
    Char,
    Bool,
    Asn,
    IpAddr,
    Prefix,
}

/// Size of an integer type
#[derive(Clone, Copy, Debug, PartialEq, Eq, Hash, Structural)]
pub enum IntSize {
    I8,
    I16,
    I32,
    I64,
}

/// Whether an integer is signed
#[derive(Clone, Copy, Debug, PartialEq, Eq, Hash, Structural)]
pub enum IntKind {
    Unsigned,
    Signed,
}

/// Size of a floating point type
#[derive(Clone, Copy, Debug, PartialEq, Eq, Hash, Structural)]
pub enum FloatSize {
    F32,
    F64,
}

pub ghost struct EnumVariantV {
    pub name: Seq<char>,
    pub tag: usize,
    pub fields: Seq<TypeV>,
}

pub ghost enum TypeDefinitionV {
    Enum(TypeNameV, Seq<EnumVariantV>),
    RuntimeEnum(TypeNameV, Seq<EnumVariantV>, HostTypeId),
    Record(TypeNameV, Seq<FieldV>),
    Runtime(ResolvedNameV, HostTypeId),
    Primitive(Primitive),
    List(TypeNameV),
}

impl View for EnumVariant {
    type V = EnumVariantV;

    open spec fn view(&self) -> EnumVariantV {
        EnumVariantV { name: self.name@, tag: self.tag, fields: tys_view(self.fields@) }
    }
}

pub open spec fn variants_view(s: Seq<EnumVariant>) -> Seq<EnumVariantV> {
    Seq::new(s.len(), |i: int| s[i]@)
}

impl View for TypeDefinition {
    type V = TypeDefinitionV;

    open spec fn view(&self) -> TypeDefinitionV {
        match *self {
            TypeDefinition::Enum(n, vs) => TypeDefinitionV::Enum(n@, variants_view(vs@)),
            TypeDefinition::RuntimeEnum(n, vs, id) => TypeDefinitionV::RuntimeEnum(
                n@,
                variants_view(vs@),
                id,
            ),
            TypeDefinition::Record(n, fs) => TypeDefinitionV::Record(n@, fields_view(fs@)),
            TypeDefinition::Runtime(n, id) => TypeDefinitionV::Runtime(n@, id),
            TypeDefinition::Primitive(p) => TypeDefinitionV::Primitive(p),
            TypeDefinition::List(n) => TypeDefinitionV::List(n@),
        }
    }
}

/// The bit width of an integer size.
pub open spec fn int_size_bits(s: IntSize) -> u8 {
    match s {
        IntSize::I8 => 8,
        IntSize::I16 => 16,
        IntSize::I32 => 32,
        IntSize::I64 => 64,
    }
}

/// The name of a primitive type, such as `u8`, `i64`, `f32` or `String`.
pub open spec fn prim_name(p: Primitive) -> Seq<char> {
    match p {
        Primitive::Int(IntKind::Unsigned, IntSize::I8) => "u8"@,
        Primitive::Int(IntKind::Unsigned, IntSize::I16) => "u16"@,
        Primitive::Int(IntKind::Unsigned, IntSize::I32) => "u32"@,
        Primitive::Int(IntKind::Unsigned, IntSize::I64) => "u64"@,
        Primitive::Int(IntKind::Signed, IntSize::I8) => "i8"@,
        Primitive::Int(IntKind::Signed, IntSize::I16) => "i16"@,
        Primitive::Int(IntKind::Signed, IntSize::I32) => "i32"@,
        Primitive::Int(IntKind::Signed, IntSize::I64) => "i64"@,
        Primitive::Float(FloatSize::F32) => "f32"@,
        Primitive::Float(FloatSize::F64) => "f64"@,
        Primitive::String => "String"@,
        Primitive::Bool => "bool"@,
        Primitive::Char => "char"@,
        Primitive::Asn => "Asn"@,
        Primitive::IpAddr => "IpAddr"@,
        Primitive::Prefix => "Prefix"@,
    }
}

impl IntSize {
    /// The bit width of this integer size.
    pub fn bits(&self) -> (res: u8)
        ensures
            res == int_size_bits(*self),
    {
        match self {
            IntSize::I8 => 8,
            IntSize::I16 => 16,
            IntSize::I32 => 32,
            IntSize::I64 => 64,
        }
    }
}

impl IntKind {
    /// The first letter of the names of integer types of this kind.
    pub fn prefix(&self) -> (res: char)
        ensures
            res == (if *self == IntKind::Unsigned { 'u' } else { 'i' }),
    {
        match self {
            IntKind::Unsigned => 'u',
            IntKind::Signed => 'i',
        }
    }
}

impl FloatSize {
    /// The bit width of this float size.
    pub fn bits(&self) -> (res: u8)
        ensures
            res == (if *self == FloatSize::F32 { 32u8 } else { 64u8 }),
    {
        match self {
            FloatSize::F32 => 32,
            FloatSize::F64 => 64,
        }
    }
}

/// The layouts of the primitive types that the host decides: that of a
/// `char`, of Roto's string, of an IP address and of a prefix.
#[derive(Clone, Copy, Debug)]
pub struct HostLayouts {
    pub character: Layout,
    pub string: Layout,
    pub ip_addr: Layout,
    pub prefix: Layout,
}

/// The size and alignment, in bytes, of a primitive type whose layout does
/// not depend on the host: an integer or float is as many bytes as its
/// width and aligned to them, a `bool` takes one byte and an AS number four.
pub open spec fn fixed_layout(p: Primitive) -> Option<(nat, nat)> {
    match p {
        Primitive::Int(_, size) => Some(((int_size_bits(size) / 8) as nat, (int_size_bits(size) / 8) as nat)),
        Primitive::Float(FloatSize::F32) => Some((4, 4)),
        Primitive::Float(FloatSize::F64) => Some((8, 8)),
        Primitive::Bool => Some((1, 1)),
        Primitive::Asn => Some((4, 4)),
        _ => None,
    }
}

impl Primitive {
    /// The layout of values of this primitive type: the fixed one where it
    /// does not depend on the host, else the one in `host`.
    pub fn layout(&self, host: &HostLayouts) -> (res: Layout)
        ensures
            fixed_layout(*self) matches Some((size, align)) ==> res.wf() && res.spec_size() == size
                && res.spec_align() == align,
            *self == Primitive::Char ==> res == host.character,
            *self == Primitive::String ==> res == host.string,
            *self == Primitive::IpAddr ==> res == host.ip_addr,
            *self == Primitive::Prefix ==> res == host.prefix,
    {
        match self {
            Primitive::Int(_, size) => {
                let bytes = (size.bits() / 8) as usize;
                Layout::new(bytes, bytes)
            },
            Primitive::Float(size) => {
                let bytes = (size.bits() / 8) as usize;
                Layout::new(bytes, bytes)
            },
            Primitive::Bool => Layout::new(1, 1),
            Primitive::Char => host.character,
            Primitive::Asn => Layout::new(4, 4),
            Primitive::String => host.string,
            Primitive::IpAddr => host.ip_addr,
            Primitive::Prefix => host.prefix,
        }
    }
}

impl Primitive {
    /// The name of this primitive type, as displayed.
    pub fn to_string(&self) -> (res: String)
        ensures
            res@ == prim_name(*self),
    {
        let s = match self {
            Primitive::Int(IntKind::Unsigned, IntSize::I8) => "u8",
            Primitive::Int(IntKind::Unsigned, IntSize::I16) => "u16",
            Primitive::Int(IntKind::Unsigned, IntSize::I32) => "u32",
            Primitive::Int(IntKind::Unsigned, IntSize::I64) => "u64",
            Primitive::Int(IntKind::Signed, IntSize::I8) => "i8",
            Primitive::Int(IntKind::Signed, IntSize::I16) => "i16",
            Primitive::Int(IntKind::Signed, IntSize::I32) => "i32",
            Primitive::Int(IntKind::Signed, IntSize::I64) => "i64",
            Primitive::Float(FloatSize::F32) => "f32",
            Primitive::Float(FloatSize::F64) => "f64",
            Primitive::String => "String",
            Primitive::Bool => "bool",
            Primitive::Char => "char",
            Primitive::Asn => "Asn",
            Primitive::IpAddr => "IpAddr",
            Primitive::Prefix => "Prefix",
        };
        String::from_str(s)
    }
}

/// The type named by `n` with each explicit type variable among its
/// arguments replaced by a fresh variable, numbered from `next` on.
pub open spec fn name_instance(n: TypeNameV, next: nat) -> TypeV {
    TypeV::Name(TypeNameV { name: n.name, arguments: fresh_args(n.arguments, next) })
}

/// How many fresh variables instantiating the type name `n` draws: one for
/// each explicit type variable among its arguments.
pub open spec fn fresh_drawn(n: TypeNameV) -> nat {
    explicit_before(n.arguments, n.arguments.len() as int)
}

/// The type that instantiating the type definition `d` gives, with fresh
/// variables numbered from `next` on.
pub open spec fn def_instance(d: TypeDefinitionV, next: nat) -> TypeV {
    TypeV::Name(TypeNameV { name: def_type_name(d).name, arguments: fresh_args(def_type_name(d).arguments, next) })
}

/// How many fresh variables instantiating the type definition `d` draws.
pub open spec fn def_fresh_drawn(d: TypeDefinitionV) -> nat {
    explicit_before(def_type_name(d).arguments, def_type_name(d).arguments.len() as int)
}

/// Instantiating a type definition is instantiating the type name that it
/// defines: the same type, drawing the same fresh variables.
pub proof fn law_definition_instantiates_as_its_name(d: TypeDefinitionV, next: nat)
    ensures
        def_instance(d, next) == name_instance(def_type_name(d), next),
        def_fresh_drawn(d) == fresh_drawn(def_type_name(d)),
{
}

/// Substitution goes into the arguments of a named type: a named type that
/// is not the one replaced keeps its name, and each of its arguments is
/// substituted in turn.
pub proof fn law_substitute_descends_into_arguments(n: TypeNameV, from: TypeV, to: TypeV)
    requires
        TypeV::Name(n) != from,
    ensures
        subst(TypeV::Name(n), from, to) matches TypeV::Name(m) && m.name == n.name && m.arguments.len()
            == n.arguments.len() && forall|i: int|
            0 <= i < n.arguments.len() ==> #[trigger] m.arguments[i] == subst(n.arguments[i], from, to),
{
}

/// The type name that belongs to a type definition.
pub open spec fn def_type_name(d: TypeDefinitionV) -> TypeNameV {
    match d {
        TypeDefinitionV::Enum(n, _) => n,
        TypeDefinitionV::RuntimeEnum(n, _, _) => n,
        TypeDefinitionV::Record(n, _) => n,
        TypeDefinitionV::List(n) => n,
        TypeDefinitionV::Runtime(n, _) => TypeNameV { name: n, arguments: seq![] },
        TypeDefinitionV::Primitive(p) => TypeNameV {
            name: ResolvedNameV { scope: global_scope(), ident: prim_name(p) },
            arguments: seq![],
        },
    }
}

/// The variant `v` with `subs` applied to each of its fields.
pub open spec fn subst_variant(v: EnumVariantV, subs: Seq<(TypeV, TypeV)>) -> EnumVariantV {
    EnumVariantV { name: v.name, tag: v.tag, fields: subst_many_seq(v.fields, subs) }
}

impl EnumVariant {
    /// Apply the substitutions of `subs` to each field of this variant.
    pub fn substitute_many(&self, subs: &[(Type, Type)]) -> (res: Self)
        ensures
            res@ == subst_variant(self@, pairs_view(subs@)),
    {
        let fields = substitute_many_vec(&self.fields, subs);
        EnumVariant { name: self.name.clone(), tag: self.tag, fields }
    }
}

impl TypeDefinition {
    /// Get the type name that belongs to this type definition
    pub fn defined_name(&self) -> (res: TypeName)
        ensures
            res@ == def_type_name(self@),
    {
        match self {
            TypeDefinition::Enum(tn, _) => tn.clone(),
            TypeDefinition::RuntimeEnum(tn, _, _) => tn.clone(),
            TypeDefinition::Record(tn, _) => tn.clone(),
            TypeDefinition::List(tn) => tn.clone(),
            TypeDefinition::Runtime(resolved_name, _) => TypeName {
                name: resolved_name.duplicate(),
                arguments: no_args(),
            },
            TypeDefinition::Primitive(primitive) => TypeName {
                name: ResolvedName { scope: ScopeRef::global(), ident: primitive.to_string() },
                arguments: no_args(),
            },
        }
    }

    /// Instantiate the type definition with fresh type variables
    pub fn instantiate(&self, next_var: &mut usize) -> (res: Type)
        requires
            *old(next_var) + def_type_name(self@).arguments.len() <= usize::MAX,
        ensures
            res@ == def_instance(self@, *old(next_var) as nat),
            *final(next_var) == *old(next_var) + def_fresh_drawn(self@),
    {
        self.defined_name().instantiate(next_var)
    }

    /// Get the match patterns for this type definition instantiated with the
    /// given type arguments.
    pub fn match_patterns(&self, type_args: &[Type]) -> (res: Option<Vec<EnumVariant>>)
        requires
            (self@ is Enum || self@ is RuntimeEnum) ==> def_type_name(self@).arguments.len()
                == type_args@.len(),
        ensures
            match self@ {
                TypeDefinitionV::Enum(n, vs) | TypeDefinitionV::RuntimeEnum(n, vs, _) => {
                    &&& res is Some
                    &&& variants_view(res.unwrap()@) == Seq::new(
                        vs.len(),
                        |i: int| subst_variant(vs[i], zip_v(n.arguments, tys_view(type_args@))),
                    )
                },
                _ => res is None,
            },
    {
        let (tn, variants) = match self {
            TypeDefinition::Enum(tn, variants) => (tn, variants),
            TypeDefinition::RuntimeEnum(tn, variants, _) => (tn, variants),
            _ => return None,
        };
        let subs = zip_types(&tn.arguments, type_args);
        let mut new_variants: Vec<EnumVariant> = Vec::new();
        let mut i: usize = 0;
        while i < variants.len()
            invariant
                i <= variants@.len(),
                new_variants@.len() == i,
                forall|j: int| 0 <= j < i ==> (#[trigger] new_variants@[j])@ == subst_variant(variants@[j]@, pairs_view(subs@)),
            decreases variants@.len() - i,
        {
            new_variants.push(variants[i].substitute_many(subs.as_slice()));
            i = i + 1;
        }
        let ghost vs = variants_view(variants@);
        assert(variants_view(new_variants@) =~= Seq::new(
            vs.len(),
            |i: int| subst_variant(vs[i], zip_v(tn@.arguments, tys_view(type_args@))),
        ));
        Some(new_variants)
    }

    /// The fields of this record type instantiated with the given type
    /// arguments.
    pub fn record_fields(&self, type_args: &[Type]) -> (res: Option<Vec<(Meta<Identifier>, Type)>>)
        requires
            self@ is Record ==> def_type_name(self@).arguments.len() == type_args@.len(),
        ensures
            match self@ {
                TypeDefinitionV::Record(n, fs) => {
                    &&& res is Some
                    &&& fields_view(res.unwrap()@) == Seq::new(
                        fs.len(),
                        |i: int|
                            FieldV {
                                name: fs[i].name,
                                id: fs[i].id,
                                ty: subst_many(fs[i].ty, zip_v(n.arguments, tys_view(type_args@))),
                            },
                    )
                },
                _ => res is None,
            },
    {
        let TypeDefinition::Record(tn, fields) = self else {
            return None;
        };
        let subs = zip_types(&tn.arguments, type_args);
        let mut out: Vec<(Meta<Identifier>, Type)> = Vec::new();
        let mut i: usize = 0;
        while i < fields.len()
            invariant
                i <= fields@.len(),
                out@.len() == i,
                forall|j: int|
                    0 <= j < i ==> field_view(#[trigger] out@[j]) == (FieldV {
                        name: field_view(fields@[j]).name,
                        id: field_view(fields@[j]).id,
                        ty: subst_many(field_view(fields@[j]).ty, pairs_view(subs@)),
                    }),
            decreases fields@.len() - i,
        {
            let m = clone_meta_ident(&fields[i].0);
            let t = fields[i].1.substitute_many(subs.as_slice());
            out.push((m, t));
            i = i + 1;
        }
        let ghost fs = fields_view(fields@);
        assert(fields_view(out@) =~= Seq::new(
            fs.len(),
            |i: int|
                FieldV {
                    name: fs[i].name,
                    id: fs[i].id,
                    ty: subst_many(fs[i].ty, zip_v(tn@.arguments, tys_view(type_args@))),
                },
        ));
        Some(out)
    }

    pub fn is_signed_int(&self) -> (res: bool)
        ensures
            res == (self@ matches TypeDefinitionV::Primitive(Primitive::Int(IntKind::Signed, _))),
    {
        matches!(self, TypeDefinition::Primitive(Primitive::Int(IntKind::Signed, _)))
    }

    pub fn is_int(&self) -> (res: bool)
        ensures
            res == (self@ matches TypeDefinitionV::Primitive(Primitive::Int(_, _))),
    {
        matches!(self, TypeDefinition::Primitive(Primitive::Int(_, _)))
    }

    pub fn is_float(&self) -> (res: bool)
        ensures
            res == (self@ matches TypeDefinitionV::Primitive(Primitive::Float(_))),
    {
        matches!(self, TypeDefinition::Primitive(Primitive::Float(_)))
    }
}

/// A reference to a function registered in the runtime.
#[derive(Clone, Copy, Debug, PartialEq, Eq, Hash, Structural)]
pub struct RuntimeFunctionRef(pub usize);

/// The definition of a function from several different sources.
///
/// This is used to extract the function pointer and any other information
/// required to generate the code to call this function.
#[derive(Clone, Copy, Debug, PartialEq, Eq, Structural)]
pub enum FunctionDefinition {
    Runtime(RuntimeFunctionRef),
    Roto,
    /// A compiler-builtin method on Option, Result or Verdict.
    ///
    /// These are not backed by a real Rust function (unlike `Runtime`) or
    /// Roto source (unlike `Roto`); instead the MIR lowerer generates their
    /// bodies directly, similar to how the `?` operator is handled.
    Intrinsic(Intrinsic),
}

/// A compiler-builtin operation available on Option, Result or Verdict.
///
/// Option, Result and Verdict are structurally the same 2-variant enum
/// (success variant at index 0 carrying one field; failure variant at
/// index 1), so one operation serves all three.
#[derive(Clone, Copy, Debug, PartialEq, Eq, Structural)]
pub enum Intrinsic {
    /// `is_some` / `is_ok` / `is_accept`
    IsSuccess,
    /// `is_none` / `is_err` / `is_reject`
    IsFailure,
    /// `Result::ok` and its counterpart on the accept/reject enum: success ->
    /// `Some(v)`, failure -> `None`
    SuccessToOption,
    /// `Result::err` and its counterpart on the accept/reject enum: success ->
    /// `None`, failure -> `Some(e)`
    FailureToOption,
    /// `unwrap_or(default)`
    UnwrapOr,
    /// `unwrap_or_default()`, only for a `()` success type
    UnwrapOrDefault,
    /// `Option::ok_or(err)` -> `Result`
    OkOr,
    /// `unwrap_or_reject(reason)`: yields the success value, or early-returns
    /// `Reject(reason)` from the enclosing function
    UnwrapOrReject,
    /// `unwrap_or_reject_default()`: as above, early-returning `Reject(())`
    UnwrapOrRejectDefault,
    /// `unwrap_or_accept(value)`: yields the success value, or early-returns
    /// `Accept(value)` from the enclosing function
    UnwrapOrAccept,
    /// `unwrap_or_accept_default()`: as above, early-returning `Accept(())`
    UnwrapOrAcceptDefault,
}

/// How an [`Intrinsic`] early-returns from the enclosing function when the
/// receiver holds its failure variant.
#[derive(Clone, Copy, Debug, PartialEq, Eq, Structural)]
pub enum EarlyReturn {
    /// Return `Reject(arg)`, where `arg` is the method's own parameter.
    Reject,
    /// Return `Reject(())`.
    RejectDefault,
    /// Return `Accept(arg)`, where `arg` is the method's own parameter.
    Accept,
    /// Return `Accept(())`.
    AcceptDefault,
}

/// How an intrinsic early-returns, if it does.
pub open spec fn early_return_of(i: Intrinsic) -> Option<EarlyReturn> {
    match i {
        Intrinsic::UnwrapOrReject => Some(EarlyReturn::Reject),
        Intrinsic::UnwrapOrRejectDefault => Some(EarlyReturn::RejectDefault),
        Intrinsic::UnwrapOrAccept => Some(EarlyReturn::Accept),
        Intrinsic::UnwrapOrAcceptDefault => Some(EarlyReturn::AcceptDefault),
        _ => None,
    }
}

impl EarlyReturn {
    /// Whether this early return produces the `Accept` variant (rather
    /// than `Reject`) of the enclosing function's `Verdict`.
    pub fn is_accept(self) -> (res: bool)
        ensures
            res == (self == EarlyReturn::Accept || self == EarlyReturn::AcceptDefault),
    {
        matches!(self, EarlyReturn::Accept | EarlyReturn::AcceptDefault)
    }

    /// Whether the returned value comes from the method's own parameter
    /// (rather than being an implicit `()`).
    pub fn takes_argument(self) -> (res: bool)
        ensures
            res == (self == EarlyReturn::Reject || self == EarlyReturn::Accept),
    {
        matches!(self, EarlyReturn::Reject | EarlyReturn::Accept)
    }
}

impl Intrinsic {
    /// If this intrinsic early-returns from the enclosing function on the
    /// failure variant, how it does so.
    pub fn early_return(self) -> (res: Option<EarlyReturn>)
        ensures
            res == early_return_of(self),
    {
        match self {
            Intrinsic::UnwrapOrReject => Some(EarlyReturn::Reject),
            Intrinsic::UnwrapOrRejectDefault => Some(EarlyReturn::RejectDefault),
            Intrinsic::UnwrapOrAccept => Some(EarlyReturn::Accept),
            Intrinsic::UnwrapOrAcceptDefault => Some(EarlyReturn::AcceptDefault),
            _ => None,
        }
    }
}

/// A function that can be called from Roto
#[derive(Debug, PartialEq, Eq)]
pub struct Function {
    /// The type signature of this function
    pub signature: Signature,
    /// Function name
    pub name: ResolvedName,
    /// Type variables of this function
    pub vars: Vec<Identifier>,
    /// The source of this function
    pub definition: FunctionDefinition,
}

/// The views of a sequence of strings.
pub open spec fn strings_view(s: Seq<String>) -> Seq<Seq<char>> {
    Seq::new(s.len(), |i: int| s[i]@)
}

fn clone_strings(v: &[String]) -> (res: Vec<String>)
    ensures
        strings_view(res@) == strings_view(v@),
{
    let mut out: Vec<String> = Vec::new();
    let mut i: usize = 0;
    while i < v.len()
        invariant
            i <= v@.len(),
            out@.len() == i,
            forall|j: int| 0 <= j < i ==> (#[trigger] out@[j])@ == v@[j]@,
        decreases v@.len() - i,
    {
        out.push(v[i].clone());
        i = i + 1;
    }
    assert(strings_view(out@) =~= strings_view(v@));
    out
}

impl Function {
    pub fn new(
        name: ResolvedName,
        vars: &[Identifier],
        signature: Signature,
        definition: FunctionDefinition,
    ) -> (res: Self)
        ensures
            res.name == name,
            strings_view(res.vars@) == strings_view(vars@),
            res.signature == signature,
            res.definition == definition,
    {
        Self { name, vars: clone_strings(vars), signature, definition }
    }
}

/// The view of the list of built-in types: name, documentation, definition.
pub open spec fn defs_view(s: Seq<(Identifier, String, TypeDefinition)>) -> Seq<(Seq<char>, Seq<char>, TypeDefinitionV)> {
    Seq::new(s.len(), |i: int| (s[i].0@, s[i].1@, s[i].2@))
}

pub open spec fn tv_t() -> TypeV {
    TypeV::ExplicitVar("T"@)
}

pub open spec fn tv_e() -> TypeV {
    TypeV::ExplicitVar("E"@)
}

pub open spec fn tv_a() -> TypeV {
    TypeV::ExplicitVar("A"@)
}

pub open spec fn tv_r() -> TypeV {
    TypeV::ExplicitVar("R"@)
}

pub open spec fn global_name_v(ident: Seq<char>) -> ResolvedNameV {
    ResolvedNameV { scope: global_scope(), ident }
}

pub open spec fn prim_entry(name: Seq<char>, p: Primitive) -> (Seq<char>, Seq<char>, TypeDefinitionV) {
    (name, ""@, TypeDefinitionV::Primitive(p))
}

/// A built-in two-variant enum with its parameters and variants.
pub open spec fn enum_entry(
    name: Seq<char>,
    doc: Seq<char>,
    params: Seq<TypeV>,
    first: Seq<char>,
    second: Seq<char>,
    second_fields: Seq<TypeV>,
) -> (Seq<char>, Seq<char>, TypeDefinitionV) {
    (
        name,
        doc,
        TypeDefinitionV::Enum(
            TypeNameV { name: global_name_v(name), arguments: params },
            seq![
                EnumVariantV { name: first, tag: 0, fields: seq![params[0]] },
                EnumVariantV { name: second, tag: 1, fields: second_fields },
            ],
        ),
    )
}

/// The list of built-in Roto types.
pub open spec fn default_types_v() -> Seq<(Seq<char>, Seq<char>, TypeDefinitionV)> {
    seq![
        prim_entry("u8"@, Primitive::Int(IntKind::Unsigned, IntSize::I8)),
        prim_entry("u16"@, Primitive::Int(IntKind::Unsigned, IntSize::I16)),
        prim_entry("u32"@, Primitive::Int(IntKind::Unsigned, IntSize::I32)),
        prim_entry("u64"@, Primitive::Int(IntKind::Unsigned, IntSize::I64)),
        prim_entry("i8"@, Primitive::Int(IntKind::Signed, IntSize::I8)),
        prim_entry("i16"@, Primitive::Int(IntKind::Signed, IntSize::I16)),
        prim_entry("i32"@, Primitive::Int(IntKind::Signed, IntSize::I32)),
        prim_entry("i64"@, Primitive::Int(IntKind::Signed, IntSize::I64)),
        prim_entry("f32"@, Primitive::Float(FloatSize::F32)),
        prim_entry("f64"@, Primitive::Float(FloatSize::F64)),
        prim_entry("bool"@, Primitive::Bool),
        prim_entry("char"@, Primitive::Char),
        prim_entry("String"@, Primitive::String),
        prim_entry("Asn"@, Primitive::Asn),
        prim_entry("IpAddr"@, Primitive::IpAddr),
        prim_entry("Prefix"@, Primitive::Prefix),
        enum_entry("Option"@, DOC_TYPE_OPTION@, seq![tv_t()], "Some"@, "None"@, seq![]),
        enum_entry("Verdict"@, DOC_VERDICT_TYPE@, seq![tv_a(), tv_r()], "Accept"@, "Reject"@, seq![tv_r()]),
        enum_entry("Result"@, DOC_TYPE_RESULT@, seq![tv_t(), tv_e()], "Ok"@, "Err"@, seq![tv_e()]),
        ("List"@, ""@, TypeDefinitionV::List(TypeNameV { name: global_name_v("List"@), arguments: seq![tv_t()] })),
    ]
}

fn prim(name: &str, p: Primitive) -> (res: (Identifier, String, TypeDefinition))
    ensures
        (res.0@, res.1@, res.2@) == prim_entry(name@, p),
{
    (String::from_str(name), String::from_str(""), TypeDefinition::Primitive(p))
}

fn tys0() -> (res: Vec<Type>)
    ensures
        tys_view(res@) == Seq::<TypeV>::empty(),
{
    no_args()
}

fn tys1(a: Type) -> (res: Vec<Type>)
    ensures
        tys_view(res@) == seq![a@],
        res@.len() == 1,
{
    let mut v: Vec<Type> = Vec::new();
    v.push(a);
    assert(tys_view(v@) =~= seq![a@]);
    v
}

fn tys2(a: Type, b: Type) -> (res: Vec<Type>)
    ensures
        tys_view(res@) == seq![a@, b@],
        res@.len() == 2,
{
    let mut v: Vec<Type> = Vec::new();
    v.push(a);
    v.push(b);
    assert(tys_view(v@) =~= seq![a@, b@]);
    v
}

fn tys3(a: Type, b: Type, c: Type) -> (res: Vec<Type>)
    ensures
        tys_view(res@) == seq![a@, b@, c@],
{
    let mut v: Vec<Type> = Vec::new();
    v.push(a);
    v.push(b);
    v.push(c);
    assert(tys_view(v@) =~= seq![a@, b@, c@]);
    v
}

fn enum_def(
    name: &str,
    doc: &str,
    params: Vec<Type>,
    first: &str,
    second: &str,
    second_fields: Vec<Type>,
) -> (res: (Identifier, String, TypeDefinition))
    requires
        params@.len() >= 1,
    ensures
        (res.0@, res.1@, res.2@) == enum_entry(
            name@,
            doc@,
            tys_view(params@),
            first@,
            second@,
            tys_view(second_fields@),
        ),
{
    let first_fields = tys1(params[0].clone());
    let mut variants: Vec<EnumVariant> = Vec::new();
    variants.push(EnumVariant { name: String::from_str(first), tag: 0, fields: first_fields });
    variants.push(EnumVariant { name: String::from_str(second), tag: 1, fields: second_fields });
    let tn = TypeName {
        name: ResolvedName { scope: ScopeRef::global(), ident: String::from_str(name) },
        arguments: params,
    };
    let res = (String::from_str(name), String::from_str(doc), TypeDefinition::Enum(tn, variants));
    assert(variants_view(variants@) =~= seq![
        EnumVariantV { name: first@, tag: 0, fields: seq![tys_view(params@)[0]] },
        EnumVariantV { name: second@, tag: 1, fields: tys_view(second_fields@) },
    ]);
    res
}

/// The list of built-in Roto types
pub fn default_types() -> (res: Vec<(Identifier, String, TypeDefinition)>)
    ensures
        defs_view(res@) == default_types_v(),
{
    let mut types: Vec<(Identifier, String, TypeDefinition)> = Vec::new();
    types.push(prim("u8", Primitive::Int(IntKind::Unsigned, IntSize::I8)));
    types.push(prim("u16", Primitive::Int(IntKind::Unsigned, IntSize::I16)));
    types.push(prim("u32", Primitive::Int(IntKind::Unsigned, IntSize::I32)));
    types.push(prim("u64", Primitive::Int(IntKind::Unsigned, IntSize::I64)));
    types.push(prim("i8", Primitive::Int(IntKind::Signed, IntSize::I8)));
    types.push(prim("i16", Primitive::Int(IntKind::Signed, IntSize::I16)));
    types.push(prim("i32", Primitive::Int(IntKind::Signed, IntSize::I32)));
    types.push(prim("i64", Primitive::Int(IntKind::Signed, IntSize::I64)));
    types.push(prim("f32", Primitive::Float(FloatSize::F32)));
    types.push(prim("f64", Primitive::Float(FloatSize::F64)));
    types.push(prim("bool", Primitive::Bool));
    types.push(prim("char", Primitive::Char));
    types.push(prim("String", Primitive::String));
    types.push(prim("Asn", Primitive::Asn));
    types.push(prim("IpAddr", Primitive::IpAddr));
    types.push(prim("Prefix", Primitive::Prefix));

    let t = Type::explicit_var("T");
    let e = Type::explicit_var("E");
    let a = Type::explicit_var("A");
    let r = Type::explicit_var("R");
    types.push(enum_def("Option", DOC_TYPE_OPTION, tys1(t.clone()), "Some", "None", tys0()));
    types.push(enum_def("Verdict", DOC_VERDICT_TYPE, tys2(a, r.clone()), "Accept", "Reject", tys1(r)));
    types.push(enum_def("Result", DOC_TYPE_RESULT, tys2(t.clone(), e.clone()), "Ok", "Err", tys1(e)));

    // Add the list type to the typechecker
    let list_name = TypeName {
        name: ResolvedName { scope: ScopeRef::global(), ident: String::from_str("List") },
        arguments: tys1(t),
    };
    types.push((String::from_str("List"), String::from_str(""), TypeDefinition::List(list_name)));
    assert(defs_view(types@) =~= default_types_v());
    types
}

/// A compiler-builtin method to be registered on Option, Result or Verdict.
///
/// See [`FunctionDefinition::Intrinsic`].
pub struct IntrinsicMethodDef {
    pub name: &'static str,
    pub doc: &'static str,
    pub parameter_names: Vec<Identifier>,
    pub signature: Signature,
    pub intrinsic: Intrinsic,
}

pub ghost struct IntrinsicMethodDefV {
    pub name: Seq<char>,
    pub doc: Seq<char>,
    pub parameter_names: Seq<Seq<char>>,
    pub signature: SignatureV,
    pub intrinsic: Intrinsic,
}

impl View for IntrinsicMethodDef {
    type V = IntrinsicMethodDefV;

    open spec fn view(&self) -> IntrinsicMethodDefV {
        IntrinsicMethodDefV {
            name: self.name@,
            doc: self.doc@,
            parameter_names: strings_view(self.parameter_names@),
            signature: self.signature@,
            intrinsic: self.intrinsic,
        }
    }
}

pub open spec fn methods_view(s: Seq<IntrinsicMethodDef>) -> Seq<IntrinsicMethodDefV> {
    Seq::new(s.len(), |i: int| s[i]@)
}

pub open spec fn method_v(
    name: Seq<char>,
    doc: Seq<char>,
    parameter_names: Seq<Seq<char>>,
    types: Seq<TypeV>,
    parameter_types: Seq<TypeV>,
    return_type: TypeV,
    intrinsic: Intrinsic,
) -> IntrinsicMethodDefV {
    IntrinsicMethodDefV {
        name,
        doc,
        parameter_names,
        signature: SignatureV { types, parameter_types, return_type },
        intrinsic,
    }
}

fn method(
    name: &'static str,
    doc: &'static str,
    parameter_names: Vec<Identifier>,
    types: Vec<Type>,
    parameter_types: Vec<Type>,
    return_type: Type,
    intrinsic: Intrinsic,
) -> (res: IntrinsicMethodDef)
    ensures
        res@ == method_v(
            name@,
            doc@,
            strings_view(parameter_names@),
            tys_view(types@),
            tys_view(parameter_types@),
            return_type@,
            intrinsic,
        ),
{
    IntrinsicMethodDef {
        name,
        doc,
        parameter_names,
        signature: Signature { types, parameter_types, return_type },
        intrinsic,
    }
}

fn names1(a: &str) -> (res: Vec<Identifier>)
    ensures
        strings_view(res@) == seq![a@],
{
    let mut v: Vec<Identifier> = Vec::new();
    v.push(String::from_str(a));
    assert(strings_view(v@) =~= seq![a@]);
    v
}

fn names2(a: &str, b: &str) -> (res: Vec<Identifier>)
    ensures
        strings_view(res@) == seq![a@, b@],
{
    let mut v: Vec<Identifier> = Vec::new();
    v.push(String::from_str(a));
    v.push(String::from_str(b));
    assert(strings_view(v@) =~= seq![a@, b@]);
    v
}

/// The type parameter of the enclosing function's `Verdict` accept type.
pub open spec fn tv_ret_a() -> TypeV {
    TypeV::ExplicitVar("AcceptedByCaller"@)
}

/// The type parameter of the enclosing function's `Verdict` reject type.
pub open spec fn tv_ret_r() -> TypeV {
    TypeV::ExplicitVar("RejectedByCaller"@)
}

/// The `unwrap_or_reject`/`unwrap_or_accept` family for a receiver type
/// `recv` whose success variant holds `success` and whose own type
/// parameters are `vars`.
pub open spec fn early_returns_v(recv: TypeV, success: TypeV, vars: Seq<TypeV>) -> Seq<IntrinsicMethodDefV> {
    seq![
        method_v("unwrap_or_reject"@, DOC_EARLY_UNWRAP_OR_REJECT@, seq!["self"@, "reason"@], vars.push(tv_ret_r()), seq![recv, tv_ret_r()], success, Intrinsic::UnwrapOrReject),
        method_v("unwrap_or_reject_default"@, DOC_EARLY_UNWRAP_OR_REJECT_DEFAULT@, seq!["self"@], vars, seq![recv], success, Intrinsic::UnwrapOrRejectDefault),
        method_v("unwrap_or_accept"@, DOC_EARLY_UNWRAP_OR_ACCEPT@, seq!["self"@, "value"@], vars.push(tv_ret_a()), seq![recv, tv_ret_a()], success, Intrinsic::UnwrapOrAccept),
        method_v("unwrap_or_accept_default"@, DOC_EARLY_UNWRAP_OR_ACCEPT_DEFAULT@, seq!["self"@], vars, seq![recv], success, Intrinsic::UnwrapOrAcceptDefault),
    ]
}

fn push_type(v: &Vec<Type>, t: &Type) -> (res: Vec<Type>)
    ensures
        tys_view(res@) == tys_view(v@).push(t@),
{
    let mut out = clone_vec(v);
    let ghost before = out@;
    out.push(t.clone());
    assert(tys_view(out@) =~= tys_view(before).push(t@));
    out
}

fn early_returns(recv: &Type, success: &Type, vars: &Vec<Type>) -> (res: Vec<IntrinsicMethodDef>)
    ensures
        methods_view(res@) == early_returns_v(recv@, success@, tys_view(vars@)),
{
    let ret_a = Type::explicit_var("AcceptedByCaller");
    let ret_r = Type::explicit_var("RejectedByCaller");
    let mut v: Vec<IntrinsicMethodDef> = Vec::new();
    v.push(method("unwrap_or_reject", DOC_EARLY_UNWRAP_OR_REJECT, names2("self", "reason"), push_type(vars, &ret_r), tys2(recv.clone(), ret_r.clone()), success.clone(), Intrinsic::UnwrapOrReject));
    v.push(method("unwrap_or_reject_default", DOC_EARLY_UNWRAP_OR_REJECT_DEFAULT, names1("self"), clone_vec(vars), tys1(recv.clone()), success.clone(), Intrinsic::UnwrapOrRejectDefault));
    v.push(method("unwrap_or_accept", DOC_EARLY_UNWRAP_OR_ACCEPT, names2("self", "value"), push_type(vars, &ret_a), tys2(recv.clone(), ret_a.clone()), success.clone(), Intrinsic::UnwrapOrAccept));
    v.push(method("unwrap_or_accept_default", DOC_EARLY_UNWRAP_OR_ACCEPT_DEFAULT, names1("self"), clone_vec(vars), tys1(recv.clone()), success.clone(), Intrinsic::UnwrapOrAcceptDefault));
    assert(methods_view(v@) =~= early_returns_v(recv@, success@, tys_view(vars@)));
    v
}

fn option_methods() -> (res: Vec<IntrinsicMethodDef>)
    ensures
        methods_view(res@) == option_methods_v(),
{
    let t = Type::explicit_var("T");
    let e = Type::explicit_var("E");
    let mut v: Vec<IntrinsicMethodDef> = Vec::new();
    v.push(method("is_some", DOC_OPTION_IS_SOME, names1("self"), tys1(t.clone()), tys1(Type::option(&t)), Type::bool(), Intrinsic::IsSuccess));
    v.push(method("is_none", DOC_OPTION_IS_NONE, names1("self"), tys1(t.clone()), tys1(Type::option(&t)), Type::bool(), Intrinsic::IsFailure));
    v.push(method("unwrap_or", DOC_OPTION_UNWRAP_OR, names2("self", "default"), tys1(t.clone()), tys2(Type::option(&t), t.clone()), t.clone(), Intrinsic::UnwrapOr));
    v.push(method("unwrap_or_default", DOC_OPTION_UNWRAP_OR_DEFAULT, names1("self"), tys0(), tys1(Type::option(&Type::unit())), Type::unit(), Intrinsic::UnwrapOrDefault));
    v.push(method("ok_or", DOC_OPTION_OK_OR, names2("self", "err"), tys2(t.clone(), e.clone()), tys2(Type::option(&t), e.clone()), Type::result(&t, &e), Intrinsic::OkOr));
    assert(methods_view(v@) =~= option_methods_v());
    v
}

fn result_methods() -> (res: Vec<IntrinsicMethodDef>)
    ensures
        methods_view(res@) == result_methods_v(),
{
    let t = Type::explicit_var("T");
    let e = Type::explicit_var("E");
    let mut v: Vec<IntrinsicMethodDef> = Vec::new();
    v.push(method("is_ok", DOC_RESULT_IS_OK, names1("self"), tys2(t.clone(), e.clone()), tys1(Type::result(&t, &e)), Type::bool(), Intrinsic::IsSuccess));
    v.push(method("is_err", DOC_RESULT_IS_ERR, names1("self"), tys2(t.clone(), e.clone()), tys1(Type::result(&t, &e)), Type::bool(), Intrinsic::IsFailure));
    v.push(method("ok", DOC_RESULT_OK, names1("self"), tys2(t.clone(), e.clone()), tys1(Type::result(&t, &e)), Type::option(&t), Intrinsic::SuccessToOption));
    v.push(method("err", DOC_RESULT_ERR, names1("self"), tys2(t.clone(), e.clone()), tys1(Type::result(&t, &e)), Type::option(&e), Intrinsic::FailureToOption));
    v.push(method("unwrap_or", DOC_RESULT_UNWRAP_OR, names2("self", "default"), tys2(t.clone(), e.clone()), tys2(Type::result(&t, &e), t.clone()), t.clone(), Intrinsic::UnwrapOr));
    v.push(method("unwrap_or_default", DOC_RESULT_UNWRAP_OR_DEFAULT, names1("self"), tys1(e.clone()), tys1(Type::result(&Type::unit(), &e)), Type::unit(), Intrinsic::UnwrapOrDefault));
    assert(methods_view(v@) =~= result_methods_v());
    v
}

fn verdict_methods() -> (res: Vec<IntrinsicMethodDef>)
    ensures
        methods_view(res@) == verdict_methods_v(),
{
    let a = Type::explicit_var("A");
    let r = Type::explicit_var("R");
    let mut v: Vec<IntrinsicMethodDef> = Vec::new();
    v.push(method("is_accept", DOC_VERDICT_IS_ACCEPT, names1("self"), tys2(a.clone(), r.clone()), tys1(Type::verdict(&a, &r)), Type::bool(), Intrinsic::IsSuccess));
    v.push(method("is_reject", DOC_VERDICT_IS_REJECT, names1("self"), tys2(a.clone(), r.clone()), tys1(Type::verdict(&a, &r)), Type::bool(), Intrinsic::IsFailure));
    v.push(method("accepted", DOC_VERDICT_ACCEPTED, names1("self"), tys2(a.clone(), r.clone()), tys1(Type::verdict(&a, &r)), Type::option(&a), Intrinsic::SuccessToOption));
    v.push(method("rejected", DOC_VERDICT_REJECTED, names1("self"), tys2(a.clone(), r.clone()), tys1(Type::verdict(&a, &r)), Type::option(&r), Intrinsic::FailureToOption));
    v.push(method("unwrap_or", DOC_VERDICT_UNWRAP_OR, names2("self", "default"), tys2(a.clone(), r.clone()), tys2(Type::verdict(&a, &r), a.clone()), a.clone(), Intrinsic::UnwrapOr));
    v.push(method("unwrap_or_default", DOC_VERDICT_UNWRAP_OR_DEFAULT, names1("self"), tys1(r.clone()), tys1(Type::verdict(&Type::unit(), &r)), Type::unit(), Intrinsic::UnwrapOrDefault));
    assert(methods_view(v@) =~= verdict_methods_v());
    v
}

pub open spec fn option_methods_v() -> Seq<IntrinsicMethodDefV> {
    seq![
        method_v("is_some"@, DOC_OPTION_IS_SOME@, seq!["self"@], seq![tv_t()], seq![named_v("Option"@, seq![tv_t()])], named_v("bool"@, seq![]), Intrinsic::IsSuccess),
        method_v("is_none"@, DOC_OPTION_IS_NONE@, seq!["self"@], seq![tv_t()], seq![named_v("Option"@, seq![tv_t()])], named_v("bool"@, seq![]), Intrinsic::IsFailure),
        method_v("unwrap_or"@, DOC_OPTION_UNWRAP_OR@, seq!["self"@, "default"@], seq![tv_t()], seq![named_v("Option"@, seq![tv_t()]), tv_t()], tv_t(), Intrinsic::UnwrapOr),
        method_v("unwrap_or_default"@, DOC_OPTION_UNWRAP_OR_DEFAULT@, seq!["self"@], seq![], seq![named_v("Option"@, seq![TypeV::Unit])], TypeV::Unit, Intrinsic::UnwrapOrDefault),
        method_v("ok_or"@, DOC_OPTION_OK_OR@, seq!["self"@, "err"@], seq![tv_t(), tv_e()], seq![named_v("Option"@, seq![tv_t()]), tv_e()], named_v("Result"@, seq![tv_t(), tv_e()]), Intrinsic::OkOr),
    ]
}

pub open spec fn result_methods_v() -> Seq<IntrinsicMethodDefV> {
    seq![
        method_v("is_ok"@, DOC_RESULT_IS_OK@, seq!["self"@], seq![tv_t(), tv_e()], seq![named_v("Result"@, seq![tv_t(), tv_e()])], named_v("bool"@, seq![]), Intrinsic::IsSuccess),
        method_v("is_err"@, DOC_RESULT_IS_ERR@, seq!["self"@], seq![tv_t(), tv_e()], seq![named_v("Result"@, seq![tv_t(), tv_e()])], named_v("bool"@, seq![]), Intrinsic::IsFailure),
        method_v("ok"@, DOC_RESULT_OK@, seq!["self"@], seq![tv_t(), tv_e()], seq![named_v("Result"@, seq![tv_t(), tv_e()])], named_v("Option"@, seq![tv_t()]), Intrinsic::SuccessToOption),
        method_v("err"@, DOC_RESULT_ERR@, seq!["self"@], seq![tv_t(), tv_e()], seq![named_v("Result"@, seq![tv_t(), tv_e()])], named_v("Option"@, seq![tv_e()]), Intrinsic::FailureToOption),
        method_v("unwrap_or"@, DOC_RESULT_UNWRAP_OR@, seq!["self"@, "default"@], seq![tv_t(), tv_e()], seq![named_v("Result"@, seq![tv_t(), tv_e()]), tv_t()], tv_t(), Intrinsic::UnwrapOr),
        method_v("unwrap_or_default"@, DOC_RESULT_UNWRAP_OR_DEFAULT@, seq!["self"@], seq![tv_e()], seq![named_v("Result"@, seq![TypeV::Unit, tv_e()])], TypeV::Unit, Intrinsic::UnwrapOrDefault),
    ]
}

pub open spec fn verdict_methods_v() -> Seq<IntrinsicMethodDefV> {
    seq![
        method_v("is_accept"@, DOC_VERDICT_IS_ACCEPT@, seq!["self"@], seq![tv_a(), tv_r()], seq![named_v("Verdict"@, seq![tv_a(), tv_r()])], named_v("bool"@, seq![]), Intrinsic::IsSuccess),
        method_v("is_reject"@, DOC_VERDICT_IS_REJECT@, seq!["self"@], seq![tv_a(), tv_r()], seq![named_v("Verdict"@, seq![tv_a(), tv_r()])], named_v("bool"@, seq![]), Intrinsic::IsFailure),
        method_v("accepted"@, DOC_VERDICT_ACCEPTED@, seq!["self"@], seq![tv_a(), tv_r()], seq![named_v("Verdict"@, seq![tv_a(), tv_r()])], named_v("Option"@, seq![tv_a()]), Intrinsic::SuccessToOption),
        method_v("rejected"@, DOC_VERDICT_REJECTED@, seq!["self"@], seq![tv_a(), tv_r()], seq![named_v("Verdict"@, seq![tv_a(), tv_r()])], named_v("Option"@, seq![tv_r()]), Intrinsic::FailureToOption),
        method_v("unwrap_or"@, DOC_VERDICT_UNWRAP_OR@, seq!["self"@, "default"@], seq![tv_a(), tv_r()], seq![named_v("Verdict"@, seq![tv_a(), tv_r()]), tv_a()], tv_a(), Intrinsic::UnwrapOr),
        method_v("unwrap_or_default"@, DOC_VERDICT_UNWRAP_OR_DEFAULT@, seq!["self"@], seq![tv_r()], seq![named_v("Verdict"@, seq![TypeV::Unit, tv_r()])], TypeV::Unit, Intrinsic::UnwrapOrDefault),
    ]
}


/// The compiler-builtin methods available on the type named `ident`.
pub open spec fn intrinsic_methods_v(ident: Seq<char>) -> Seq<IntrinsicMethodDefV> {
    if ident == "Option"@ {
        option_methods_v() + early_returns_v(named_v("Option"@, seq![tv_t()]), tv_t(), seq![tv_t()])
    } else if ident == "Result"@ {
        result_methods_v() + early_returns_v(
            named_v("Result"@, seq![tv_t(), tv_e()]),
            tv_t(),
            seq![tv_t(), tv_e()],
        )
    } else if ident == "Verdict"@ {
        verdict_methods_v() + early_returns_v(
            named_v("Verdict"@, seq![tv_a(), tv_r()]),
            tv_a(),
            seq![tv_a(), tv_r()],
        )
    } else {
        seq![]
    }
}

fn append_methods(v: &mut Vec<IntrinsicMethodDef>, mut more: Vec<IntrinsicMethodDef>)
    ensures
        methods_view(final(v)@) == methods_view(old(v)@) + methods_view(more@),
{
    let ghost a = old(v)@;
    let ghost b = more@;
    v.append(&mut more);
    assert(methods_view(v@) =~= methods_view(a) + methods_view(b));
}

/// The compiler-builtin (non-`library!`) methods available on `type_ident`
/// (one of `Option`, `Result` or `Verdict`), if any.
pub fn intrinsic_methods(type_ident: Identifier) -> (res: Vec<IntrinsicMethodDef>)
    ensures
        methods_view(res@) == intrinsic_methods_v(type_ident@),
{
    let t = Type::explicit_var("T");
    let e = Type::explicit_var("E");
    let a = Type::explicit_var("A");
    let r = Type::explicit_var("R");
    if type_ident == String::from_str("Option") {
        let mut methods = option_methods();
        append_methods(&mut methods, early_returns(&Type::option(&t), &t, &tys1(t.clone())));
        methods
    } else if type_ident == String::from_str("Result") {
        let mut methods = result_methods();
        append_methods(
            &mut methods,
            early_returns(&Type::result(&t, &e), &t, &tys2(t.clone(), e.clone())),
        );
        methods
    } else if type_ident == String::from_str("Verdict") {
        let mut methods = verdict_methods();
        append_methods(
            &mut methods,
            early_returns(&Type::verdict(&a, &r), &a, &tys2(a.clone(), r.clone())),
        );
        methods
    } else {
        let v: Vec<IntrinsicMethodDef> = Vec::new();
        assert(methods_view(v@) =~= Seq::<IntrinsicMethodDefV>::empty());
        v
    }
}

/// Law: replacing a type by itself leaves every type unchanged.
pub proof fn law_substitute_self_is_identity(t: TypeV, x: TypeV)
    ensures
        subst(t, x, x) == t,
    decreases t,
{
    if t != x {
        match t {
            TypeV::RecordVar(n, f) => {
                assert forall|i: int| 0 <= i < f.len() implies subst(f[i].ty, x, x) == f[i].ty by {
                    law_substitute_self_is_identity(f[i].ty, x);
                }
                assert(subst_fields(f, x, x) =~= f);
            },
            TypeV::Record(f) => {
                assert forall|i: int| 0 <= i < f.len() implies subst(f[i].ty, x, x) == f[i].ty by {
                    law_substitute_self_is_identity(f[i].ty, x);
                }
                assert(subst_fields(f, x, x) =~= f);
            },
            TypeV::Name(n) => {
                assert forall|i: int| 0 <= i < n.arguments.len() implies subst(n.arguments[i], x, x)
                    == n.arguments[i] by {
                    law_substitute_self_is_identity(n.arguments[i], x);
                }
                assert(subst_seq(n.arguments, x, x) =~= n.arguments);
            },
            _ => {},
        }
    }
}

/// Law: substituting the pairs `(x, x)` only, in any number, leaves every
/// type unchanged.
pub proof fn law_substitute_many_trivial_is_identity(t: TypeV, subs: Seq<(TypeV, TypeV)>)
    requires
        forall|i: int| 0 <= i < subs.len() ==> (#[trigger] subs[i]).0 == subs[i].1,
    ensures
        subst_many(t, subs) == t,
    decreases subs.len(),
{
    if subs.len() > 0 {
        law_substitute_self_is_identity(t, subs[0].0);
        law_substitute_many_trivial_is_identity(t, subs.drop_first());
    }
}

/// Law: instantiating with fresh type variables leaves no explicit type
/// variable behind, and the fresh variables are numbered consecutively from
/// `next`, each used for exactly one explicit variable.
pub proof fn law_instantiate_leaves_no_explicit_var(s: Seq<TypeV>, next: nat)
    ensures
        forall|i: int| 0 <= i < s.len() ==> !(#[trigger] fresh_args(s, next)[i] is ExplicitVar),
        forall|i: int, j: int|
            0 <= i < j < s.len() && s[i] is ExplicitVar && s[j] is ExplicitVar ==> #[trigger] explicit_before(s, i) < #[trigger] explicit_before(s, j),
{
    assert forall|i: int, j: int|
        0 <= i < j < s.len() && s[i] is ExplicitVar && s[j] is ExplicitVar implies #[trigger] explicit_before(s, i) < #[trigger] explicit_before(s, j) by {
        lemma_explicit_before_monotone(s, i + 1, j);
    }
}

proof fn lemma_explicit_before_monotone(s: Seq<TypeV>, i: int, j: int)
    requires
        0 <= i <= j <= s.len(),
    ensures
        explicit_before(s, i) <= explicit_before(s, j),
    decreases j - i,
{
    if i < j {
        lemma_explicit_before_monotone(s, i, j - 1);
    }
}

} // verus!
