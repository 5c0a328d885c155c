//! The runtime's registry: the declarations that registered items make, in
//! the scopes they make them in, and the checks that keep it consistent.
//!
//! Registering a library declares its types (in every module, at any
//! depth) before anything else, so that items may refer to types that come
//! later in the same library. A library registers if and only if no two
//! declarations of the runtime share a scope and a name, no two types share
//! a host type, every host type that an item refers to is registered, every
//! impl block holds only functions, at most one regex literal provider is
//! registered, and every import resolves.

use crate::runtime::items::{
    Constant, Function, HostType, Impl, Item, Location, RegexLiteral, RegistrationError, Registerable,
    ResolvedType, Type, TypeDescription,
};
use crate::runtime::layout::Layout;
use crate::typechecker::types::{default_types, default_types_v, HostTypeId};
use vstd::prelude::*;

verus! {

broadcast use vstd::std_specs::vec::group_vec_axioms;

/// A scope of declarations: a module, given by its path from the root, or
/// the scope of a registered host type.
#[derive(Debug)]
pub enum Scope {
    Module(Vec<String>),
    Type(HostTypeId),
}

/// The mathematical view of a [`Scope`].
pub ghost enum ScopeV {
    Module(Seq<Seq<char>>),
    Type(HostTypeId),
}

/// The names of a path.
pub open spec fn path_view(p: Seq<String>) -> Seq<Seq<char>> {
    Seq::new(p.len(), |i: int| p[i]@)
}

impl View for Scope {
    type V = ScopeV;

    open spec fn view(&self) -> ScopeV {
        match self {
            Scope::Module(p) => ScopeV::Module(path_view(p@)),
            Scope::Type(id) => ScopeV::Type(*id),
        }
    }
}

/// What a declaration declares.
#[derive(Debug)]
pub enum DeclKind {
    /// A host type.
    Type(HostTypeId),
    /// A type that Roto itself provides.
    RotoType,
    Module,
    Constant(Constant),
    /// A function; the flag tells whether it is a method of the type of
    /// its scope, which it is when its first parameter has that type.
    Function(Function, bool),
    /// A variant of an enum, with the host types of its fields.
    Variant(Vec<HostType>),
}

/// The kind of a declaration.
pub ghost enum KindV {
    Type(HostTypeId),
    RotoType,
    Module,
    Constant,
    Function,
    Variant,
}

/// A declaration of a name in a scope.
#[derive(Debug)]
pub struct Declaration {
    pub scope: Scope,
    pub name: String,
    pub doc: String,
    pub kind: DeclKind,
}

/// What a declaration holds beyond its kind and the host types that it
/// refers to.
pub ghost enum DetailV {
    Nothing,
    /// The value of a constant.
    Constant(u64),
    /// A function: the names of its parameters, the host types of its
    /// parameters and of its result, whether it returns its result through
    /// an out pointer, and whether it is a method of the type of its scope.
    Function {
        params: Seq<Seq<char>>,
        parameter_types: Seq<HostType>,
        return_type: Option<HostType>,
        out_ptr: bool,
        method: bool,
    },
}

/// The mathematical view of a declaration: where it is, what it is called,
/// its documentation, what it is, which host types it refers to and what
/// else it holds.
pub ghost struct DeclV {
    pub scope: ScopeV,
    pub name: Seq<char>,
    pub doc: Seq<char>,
    pub kind: KindV,
    pub refs: Seq<HostType>,
    pub detail: DetailV,
}

/// What the function `f` holds, declared as a method of its scope's type
/// or not.
pub open spec fn fn_detail(f: Function, method: bool) -> DetailV {
    DetailV::Function {
        params: Seq::new(f.params@.len(), |i: int| f.params@[i]@),
        parameter_types: f.func.parameter_types@,
        return_type: f.func.return_type,
        out_ptr: f.func.has_out_ptr,
        method,
    }
}

/// Whether `f`, declared in the scope of the host type `ty`, is a method
/// of it: its first parameter has that type.
pub open spec fn is_method_of(f: Function, ty: HostTypeId) -> bool {
    f.func.parameter_types@.len() > 0 && f.func.parameter_types@[0].id == ty
}

/// The host types that a function refers to: those of its parameters and
/// its result.
pub open spec fn fn_refs(f: Function) -> Seq<HostType> {
    match f.func.return_type {
        Some(r) => f.func.parameter_types@.push(r),
        None => f.func.parameter_types@,
    }
}

impl View for Declaration {
    type V = DeclV;

    open spec fn view(&self) -> DeclV {
        DeclV {
            scope: self.scope@,
            name: self.name@,
            doc: self.doc@,
            detail: match self.kind {
                DeclKind::Constant(c) => DetailV::Constant(c.value.0),
                DeclKind::Function(f, method) => fn_detail(f, method),
                _ => DetailV::Nothing,
            },
            kind: match self.kind {
                DeclKind::Type(id) => KindV::Type(id),
                DeclKind::RotoType => KindV::RotoType,
                DeclKind::Module => KindV::Module,
                DeclKind::Constant(_) => KindV::Constant,
                DeclKind::Function(_, _) => KindV::Function,
                DeclKind::Variant(_) => KindV::Variant,
            },
            refs: match self.kind {
                DeclKind::Constant(c) => seq![c.ty],
                DeclKind::Function(f, _) => fn_refs(f),
                DeclKind::Variant(fields) => fields@,
                _ => Seq::empty(),
            },
        }
    }
}

pub open spec fn decls_view(ds: Seq<Declaration>) -> Seq<DeclV> {
    Seq::new(ds.len(), |i: int| ds[i]@)
}

/// An import of `path`, relative to the module `scope`.
pub ghost struct ImportV {
    pub scope: Seq<Seq<char>>,
    pub path: Seq<Seq<char>>,
}

/// A registered import.
#[derive(Debug)]
pub struct Import {
    pub scope: Vec<String>,
    pub path: Vec<String>,
    pub location: Location,
}

pub open spec fn imports_view(imps: Seq<Import>) -> Seq<ImportV> {
    Seq::new(imps.len(), |i: int| ImportV { scope: path_view(imps[i].scope@), path: path_view(imps[i].path@) })
}

// ---------------------------------------------------------------------
// What a library declares

/// The declaration of a host type named `name` in the module `path`.
pub open spec fn type_decl(path: Seq<Seq<char>>, name: Seq<char>, doc: Seq<char>, id: HostTypeId) -> DeclV {
    DeclV { scope: ScopeV::Module(path), name, doc, kind: KindV::Type(id), refs: Seq::empty(), detail: DetailV::Nothing }
}

/// The declaration of a module named `name` in the module `path`.
pub open spec fn module_decl(path: Seq<Seq<char>>, name: Seq<char>, doc: Seq<char>) -> DeclV {
    DeclV { scope: ScopeV::Module(path), name, doc, kind: KindV::Module, refs: Seq::empty(), detail: DetailV::Nothing }
}

/// The types and modules that `items` declare, in the module `path` and the
/// modules within it, in order.
pub open spec fn type_decls(items: Seq<Item>, path: Seq<Seq<char>>) -> Seq<DeclV>
    decreases items, 0int,
{
    if items.len() == 0 {
        Seq::empty()
    } else {
        item_type_decls(items[0], path) + type_decls(items.drop_first(), path)
    }
}

/// The types and modules that `item` declares.
pub open spec fn item_type_decls(item: Item, path: Seq<Seq<char>>) -> Seq<DeclV>
    decreases item, 1int,
{
    match item {
        Item::Type(t) => seq![type_decl(path, t.ident@, t.doc@, t.type_id)],
        Item::Module(m) => {
            proof {
                assert(decreases_to!(item => m));
                assert(decreases_to!(m => m.children));
                assert(decreases_to!(m.children => m.children@));
            }
            seq![module_decl(path, m.ident@, m.doc@)] + type_decls(m.children@, path.push(m.ident@))
        },
        _ => Seq::empty(),
    }
}

/// What the items other than types and modules register: their
/// declarations, the types they register (in order), the types of the regex
/// literal providers, the imports, the host types that impl blocks are for,
/// and whether every impl block holds only functions.
#[verifier::ext_equal]
pub ghost struct Collected {
    pub decls: Seq<DeclV>,
    pub types: Seq<Type>,
    pub regexes: Seq<HostTypeId>,
    pub imports: Seq<ImportV>,
    pub targets: Seq<HostTypeId>,
    pub impls_ok: bool,
}

pub open spec fn nothing_collected() -> Collected {
    Collected {
        decls: Seq::empty(),
        types: Seq::empty(),
        regexes: Seq::empty(),
        imports: Seq::empty(),
        targets: Seq::empty(),
        impls_ok: true,
    }
}

/// What `a` and then `b` register.
pub open spec fn combine(a: Collected, b: Collected) -> Collected {
    Collected {
        decls: a.decls + b.decls,
        types: a.types + b.types,
        regexes: a.regexes + b.regexes,
        imports: a.imports + b.imports,
        targets: a.targets + b.targets,
        impls_ok: a.impls_ok && b.impls_ok,
    }
}

/// The host types of the fields of an enum variant.
pub open spec fn field_refs(fields: Seq<ResolvedType>) -> Seq<HostType> {
    Seq::new(fields.len(), |i: int| fields[i].host())
}

/// The declarations of the variants of the enum type `t`, in its scope.
pub open spec fn variant_decls(t: Type) -> Seq<DeclV> {
    match t.enum_variants {
        Some(vs) => Seq::new(
            vs@.len(),
            |k: int| DeclV {
                scope: ScopeV::Type(t.type_id),
                name: vs@[k].spec_name(),
                doc: vs@[k].spec_doc(),
                kind: KindV::Variant,
                refs: field_refs(vs@[k].spec_fields()),
                detail: DetailV::Nothing,
            },
        ),
        None => Seq::empty(),
    }
}

/// The declaration that a function makes in `scope`, as a method of the
/// scope's type or not.
pub open spec fn fn_decl(scope: ScopeV, f: Function, method: bool) -> DeclV {
    DeclV {
        scope,
        name: f.ident@,
        doc: f.doc@,
        kind: KindV::Function,
        refs: fn_refs(f),
        detail: fn_detail(f, method),
    }
}

/// The declarations that the functions among `children` make in the scope
/// of the host type `ty`.
pub open spec fn impl_decls(children: Seq<Item>, ty: HostTypeId) -> Seq<DeclV>
    decreases children.len(),
{
    if children.len() == 0 {
        Seq::empty()
    } else {
        (match children[0] {
            Item::Function(f) => seq![fn_decl(ScopeV::Type(ty), f, is_method_of(f, ty))],
            _ => Seq::<DeclV>::empty(),
        }) + impl_decls(children.drop_first(), ty)
    }
}

/// Whether all of `children` are functions.
pub open spec fn all_functions(children: Seq<Item>) -> bool {
    forall|i: int| 0 <= i < children.len() ==> children[i] is Function
}

/// What `items`, in the module `path`, register besides types and modules.
pub open spec fn collect(items: Seq<Item>, path: Seq<Seq<char>>) -> Collected
    decreases items, 0int,
{
    if items.len() == 0 {
        nothing_collected()
    } else {
        combine(item_collect(items[0], path), collect(items.drop_first(), path))
    }
}

/// What `item`, in the module `path`, registers besides types and modules.
pub open spec fn item_collect(item: Item, path: Seq<Seq<char>>) -> Collected
    decreases item, 1int,
{
    match item {
        Item::Type(t) => Collected {
            decls: variant_decls(t),
            types: seq![t],
            ..nothing_collected()
        },
        Item::Module(m) => {
            proof {
                assert(decreases_to!(item => m));
                assert(decreases_to!(m => m.children));
                assert(decreases_to!(m.children => m.children@));
            }
            collect(m.children@, path.push(m.ident@))
        },
        Item::Constant(c) => Collected {
            decls: seq![
                DeclV {
                    scope: ScopeV::Module(path),
                    name: c.ident@,
                    doc: c.doc@,
                    kind: KindV::Constant,
                    refs: seq![c.ty],
                    detail: DetailV::Constant(c.value.0),
                },
            ],
            ..nothing_collected()
        },
        Item::Function(f) => Collected { decls: seq![fn_decl(ScopeV::Module(path), f, false)], ..nothing_collected() },
        Item::Impl(i) => Collected {
            decls: impl_decls(i.children@, i.ty),
            targets: seq![i.ty],
            impls_ok: all_functions(i.children@),
            ..nothing_collected()
        },
        Item::Use(u) => Collected {
            imports: Seq::new(u.imports@.len(), |k: int| ImportV { scope: path, path: path_view(u.imports@[k]@) }),
            ..nothing_collected()
        },
        Item::RegexLiteral(r) => Collected { regexes: seq![r.type_id], ..nothing_collected() },
    }
}

// ---------------------------------------------------------------------
// When a set of declarations is consistent

/// No two declarations share a scope and a name.
pub open spec fn names_distinct(ds: Seq<DeclV>) -> bool {
    forall|i: int, j: int|
        0 <= i < j < ds.len() ==> !((#[trigger] ds[i]).scope == (#[trigger] ds[j]).scope && ds[i].name == ds[j].name)
}

/// No two declarations declare the same host type.
pub open spec fn type_ids_distinct(ds: Seq<DeclV>) -> bool {
    forall|i: int, j: int|
        0 <= i < j < ds.len() && (#[trigger] ds[i]).kind is Type ==> (#[trigger] ds[j]).kind != ds[i].kind
}

/// `id` is a declared host type.
pub open spec fn type_known(ds: Seq<DeclV>, id: HostTypeId) -> bool {
    exists|j: int| 0 <= j < ds.len() && (#[trigger] ds[j]).kind == KindV::Type(id)
}

/// A host type that an item refers to is known: an option or a list of a
/// declared host type, a result or a verdict of two, or a declared host
/// type itself.
pub open spec fn ref_known(ds: Seq<DeclV>, r: HostType) -> bool {
    match r.description {
        TypeDescription::Option(a) => type_known(ds, a),
        TypeDescription::List(a) => type_known(ds, a),
        TypeDescription::Verdict(a, b) => type_known(ds, a) && type_known(ds, b),
        TypeDescription::Result(a, b) => type_known(ds, a) && type_known(ds, b),
        _ => type_known(ds, r.id),
    }
}

/// Every host type that a declaration refers to is known.
pub open spec fn refs_known(ds: Seq<DeclV>) -> bool {
    forall|i: int, k: int|
        0 <= i < ds.len() && 0 <= k < ds[i].refs.len() ==> ref_known(ds, #[trigger] ds[i].refs[k])
}

/// Every one of `refs` is known.
pub open spec fn all_refs_known(ds: Seq<DeclV>, refs: Seq<HostType>) -> bool {
    forall|k: int| 0 <= k < refs.len() ==> ref_known(ds, #[trigger] refs[k])
}

/// Every one of `ids` is a declared host type.
pub open spec fn all_known(ds: Seq<DeclV>, ids: Seq<HostTypeId>) -> bool {
    forall|k: int| 0 <= k < ids.len() ==> type_known(ds, #[trigger] ids[k])
}

/// The scope that a declaration opens, if any: a module's or a type's.
pub open spec fn opens(d: DeclV) -> Option<ScopeV> {
    match d.kind {
        KindV::Module => match d.scope {
            ScopeV::Module(p) => Some(ScopeV::Module(p.push(d.name))),
            ScopeV::Type(_) => None,
        },
        KindV::Type(id) => Some(ScopeV::Type(id)),
        _ => None,
    }
}

/// `path` names a declaration, its first name in `scope` and each next name
/// in the scope that the one before opens.
pub open spec fn resolves(ds: Seq<DeclV>, scope: ScopeV, path: Seq<Seq<char>>) -> bool
    decreases path.len(),
{
    &&& path.len() > 0
    &&& exists|i: int|
        0 <= i < ds.len() && (#[trigger] ds[i]).scope == scope && ds[i].name == path[0] && (path.len() == 1
            || (opens(ds[i]) is Some && resolves(ds, opens(ds[i])->0, path.drop_first())))
}

/// Every import resolves.
pub open spec fn imports_resolve(ds: Seq<DeclV>, imps: Seq<ImportV>) -> bool {
    forall|k: int| 0 <= k < imps.len() ==> resolves(ds, ScopeV::Module((#[trigger] imps[k]).scope), imps[k].path)
}

/// A consistent registry: its declarations, the host types of its regex
/// literal providers, the host types that its impl blocks are for, and its
/// imports.
pub open spec fn registry_ok(
    ds: Seq<DeclV>,
    regexes: Seq<HostTypeId>,
    targets: Seq<HostTypeId>,
    imps: Seq<ImportV>,
) -> bool {
    &&& names_distinct(ds)
    &&& type_ids_distinct(ds)
    &&& refs_known(ds)
    &&& regexes.len() <= 1
    &&& all_known(ds, regexes)
    &&& all_known(ds, targets)
    &&& imports_resolve(ds, imps)
}

// ---------------------------------------------------------------------
// Facts about the specifications

pub proof fn lemma_type_decls_append(a: Seq<Item>, b: Seq<Item>, path: Seq<Seq<char>>)
    ensures
        type_decls(a + b, path) == type_decls(a, path) + type_decls(b, path),
    decreases a.len(),
{
    if a.len() == 0 {
        assert(a + b =~= b);
    } else {
        assert((a + b).drop_first() =~= a.drop_first() + b);
        lemma_type_decls_append(a.drop_first(), b, path);
        assert(type_decls(a, path) + type_decls(b, path) =~= item_type_decls(a[0], path) + (
        type_decls(a.drop_first(), path) + type_decls(b, path)));
    }
}

pub proof fn lemma_collect_append(a: Seq<Item>, b: Seq<Item>, path: Seq<Seq<char>>)
    ensures
        collect(a + b, path) == combine(collect(a, path), collect(b, path)),
    decreases a.len(),
{
    if a.len() == 0 {
        assert(a + b =~= b);
        let c = collect(b, path);
        assert(combine(nothing_collected(), c) =~= c);
    } else {
        assert((a + b).drop_first() =~= a.drop_first() + b);
        lemma_collect_append(a.drop_first(), b, path);
        let x = item_collect(a[0], path);
        let y = collect(a.drop_first(), path);
        let z = collect(b, path);
        assert(combine(x, combine(y, z)) =~= combine(combine(x, y), z));
    }
}

/// A prefix of consistent declarations is consistent.
pub proof fn lemma_distinct_prefix(a: Seq<DeclV>, b: Seq<DeclV>)
    ensures
        names_distinct(a + b) ==> names_distinct(a),
        type_ids_distinct(a + b) ==> type_ids_distinct(a),
{
    assert forall|i: int| 0 <= i < a.len() implies (a + b)[i] == a[i] by {}
    if names_distinct(a + b) {
        assert forall|i: int, j: int| 0 <= i < j < a.len() implies !((#[trigger] a[i]).scope == (#[trigger] a[j]).scope
            && a[i].name == a[j].name) by {
            assert((a + b)[i] == a[i] && (a + b)[j] == a[j]);
        }
    }
    if type_ids_distinct(a + b) {
        assert forall|i: int, j: int| 0 <= i < j < a.len() && (#[trigger] a[i]).kind is Type implies (#[trigger] a[j]).kind
            != a[i].kind by {
            assert((a + b)[i] == a[i] && (a + b)[j] == a[j]);
        }
    }
}

/// No declaration of `ds` declares a host type.
pub open spec fn no_types(ds: Seq<DeclV>) -> bool {
    forall|i: int| 0 <= i < ds.len() ==> !((#[trigger] ds[i]).kind is Type)
}

/// No declaration of `ds` refers to a host type.
pub open spec fn no_refs(ds: Seq<DeclV>) -> bool {
    forall|i: int| 0 <= i < ds.len() ==> (#[trigger] ds[i]).refs.len() == 0
}

/// The consistency of a registry before its imports are resolved.
pub open spec fn partial_ok(ds: Seq<DeclV>, rx: Seq<HostTypeId>, tg: Seq<HostTypeId>) -> bool {
    &&& names_distinct(ds)
    &&& type_ids_distinct(ds)
    &&& refs_known(ds)
    &&& rx.len() <= 1
    &&& all_known(ds, rx)
    &&& all_known(ds, tg)
}

/// `a` begins with `b`.
pub open spec fn extends<T>(a: Seq<T>, b: Seq<T>) -> bool {
    a.len() >= b.len() && a.subrange(0, b.len() as int) == b
}

pub proof fn lemma_extends_trans<T>(a: Seq<T>, b: Seq<T>, c: Seq<T>)
    requires
        extends(a, b),
        extends(b, c),
    ensures
        extends(a, c),
{
    assert(a.subrange(0, c.len() as int) =~= b.subrange(0, c.len() as int));
}

pub proof fn lemma_extends_push<T>(a: Seq<T>, x: T)
    ensures
        extends(a.push(x), a),
{
    assert(a.push(x).subrange(0, a.len() as int) =~= a);
}

pub proof fn lemma_extends_refl<T>(a: Seq<T>)
    ensures
        extends(a, a),
{
    assert(a.subrange(0, a.len() as int) =~= a);
}

pub proof fn lemma_impl_decls_append(a: Seq<Item>, b: Seq<Item>, ty: HostTypeId)
    ensures
        impl_decls(a + b, ty) == impl_decls(a, ty) + impl_decls(b, ty),
    decreases a.len(),
{
    if a.len() == 0 {
        assert(a + b =~= b);
    } else {
        assert((a + b).drop_first() =~= a.drop_first() + b);
        lemma_impl_decls_append(a.drop_first(), b, ty);
        let h = match a[0] {
            Item::Function(f) => seq![fn_decl(ScopeV::Type(ty), f, is_method_of(f, ty))],
            _ => Seq::<DeclV>::empty(),
        };
        assert(impl_decls(a, ty) + impl_decls(b, ty) =~= h + (impl_decls(a.drop_first(), ty) + impl_decls(b, ty)));
    }
}

pub proof fn lemma_impl_decls_no_types(children: Seq<Item>, ty: HostTypeId)
    ensures
        no_types(impl_decls(children, ty)),
    decreases children.len(),
{
    if children.len() > 0 {
        lemma_impl_decls_no_types(children.drop_first(), ty);
    }
}

/// What items register besides types and modules declares no host type.
pub proof fn lemma_collect_no_types(items: Seq<Item>, path: Seq<Seq<char>>)
    ensures
        no_types(collect(items, path).decls),
    decreases items, 0int,
{
    if items.len() > 0 {
        lemma_item_collect_no_types(items[0], path);
        lemma_collect_no_types(items.drop_first(), path);
    }
}

pub proof fn lemma_item_collect_no_types(item: Item, path: Seq<Seq<char>>)
    ensures
        no_types(item_collect(item, path).decls),
    decreases item, 1int,
{
    match item {
        Item::Module(m) => {
            assert(decreases_to!(item => m));
            assert(decreases_to!(m => m.children));
            assert(decreases_to!(m.children => m.children@));
            lemma_collect_no_types(m.children@, path.push(m.ident@));
        },
        Item::Impl(i) => {
            lemma_impl_decls_no_types(i.children@, i.ty);
        },
        _ => {},
    }
}

/// Types and modules refer to no host type.
pub proof fn lemma_type_decls_no_refs(items: Seq<Item>, path: Seq<Seq<char>>)
    ensures
        no_refs(type_decls(items, path)),
    decreases items, 0int,
{
    if items.len() > 0 {
        lemma_item_type_decls_no_refs(items[0], path);
        lemma_type_decls_no_refs(items.drop_first(), path);
    }
}

pub proof fn lemma_item_type_decls_no_refs(item: Item, path: Seq<Seq<char>>)
    ensures
        no_refs(item_type_decls(item, path)),
    decreases item, 1int,
{
    match item {
        Item::Module(m) => {
            assert(decreases_to!(item => m));
            assert(decreases_to!(m => m.children));
            assert(decreases_to!(m.children => m.children@));
            lemma_type_decls_no_refs(m.children@, path.push(m.ident@));
        },
        _ => {},
    }
}

/// Declarations that declare no host type leave the known host types as
/// they are.
pub proof fn lemma_known_extend(ds: Seq<DeclV>, more: Seq<DeclV>, id: HostTypeId)
    ensures
        type_known(ds, id) ==> type_known(ds + more, id),
        no_types(more) ==> (type_known(ds + more, id) ==> type_known(ds, id)),
{
    if type_known(ds, id) {
        let j = choose|j: int| 0 <= j < ds.len() && (#[trigger] ds[j]).kind == KindV::Type(id);
        assert((ds + more)[j] == ds[j]);
    }
    if no_types(more) && type_known(ds + more, id) {
        let j = choose|j: int| 0 <= j < (ds + more).len() && (#[trigger] (ds + more)[j]).kind == KindV::Type(id);
        if j >= ds.len() {
            assert((ds + more)[j] == more[j - ds.len()]);
        }
        assert((ds + more)[j] == ds[j]);
    }
}

/// The same for a host type that an item refers to.
pub proof fn lemma_ref_known_extend(ds: Seq<DeclV>, more: Seq<DeclV>, r: HostType)
    ensures
        ref_known(ds, r) ==> ref_known(ds + more, r),
        no_types(more) ==> (ref_known(ds + more, r) ==> ref_known(ds, r)),
{
    match r.description {
        TypeDescription::Option(a) => lemma_known_extend(ds, more, a),
        TypeDescription::List(a) => lemma_known_extend(ds, more, a),
        TypeDescription::Verdict(a, b) => {
            lemma_known_extend(ds, more, a);
            lemma_known_extend(ds, more, b);
        },
        TypeDescription::Result(a, b) => {
            lemma_known_extend(ds, more, a);
            lemma_known_extend(ds, more, b);
        },
        _ => lemma_known_extend(ds, more, r.id),
    }
}

pub proof fn lemma_all_known_extend(ds: Seq<DeclV>, more: Seq<DeclV>, ids: Seq<HostTypeId>)
    ensures
        all_known(ds, ids) ==> all_known(ds + more, ids),
        no_types(more) ==> (all_known(ds + more, ids) ==> all_known(ds, ids)),
{
    assert forall|k: int| 0 <= k < ids.len() implies (type_known(ds, #[trigger] ids[k]) ==> type_known(ds + more, ids[k]))
        && (no_types(more) ==> (type_known(ds + more, ids[k]) ==> type_known(ds, ids[k]))) by {
        lemma_known_extend(ds, more, ids[k]);
    }
}

/// Adding declarations that refer to no host type keeps a registry
/// consistent in what it refers to.
pub proof fn lemma_refs_known_extend(ds: Seq<DeclV>, more: Seq<DeclV>)
    requires
        refs_known(ds),
        no_refs(more),
    ensures
        refs_known(ds + more),
{
    let all = ds + more;
    assert forall|i: int, k: int| 0 <= i < all.len() && 0 <= k < all[i].refs.len() implies ref_known(
        all,
        #[trigger] all[i].refs[k],
    ) by {
        if i < ds.len() {
            assert(all[i] == ds[i]);
            lemma_ref_known_extend(ds, more, ds[i].refs[k]);
        } else {
            assert(all[i] == more[i - ds.len()]);
        }
    }
}

/// Adding one declaration whose host types are all known keeps the
/// references of a registry known.
pub proof fn lemma_refs_known_push(ds: Seq<DeclV>, d: DeclV)
    requires
        refs_known(ds),
        all_refs_known(ds, d.refs),
    ensures
        refs_known(ds.push(d)),
{
    let all = ds.push(d);
    assert(all == ds + seq![d]);
    assert forall|i: int, k: int| 0 <= i < all.len() && 0 <= k < all[i].refs.len() implies ref_known(
        all,
        #[trigger] all[i].refs[k],
    ) by {
        if i < ds.len() {
            assert(all[i] == ds[i]);
            lemma_ref_known_extend(ds, seq![d], ds[i].refs[k]);
        } else {
            assert(all[i] == d);
            assert(ref_known(ds, d.refs[k]));
            lemma_ref_known_extend(ds, seq![d], d.refs[k]);
        }
    }
}

/// If a registry is inconsistent before imports are resolved, adding what
/// declares no host type keeps it so.
pub proof fn lemma_partial_bad_grows(
    ds: Seq<DeclV>,
    rx: Seq<HostTypeId>,
    tg: Seq<HostTypeId>,
    ds2: Seq<DeclV>,
    rx2: Seq<HostTypeId>,
    tg2: Seq<HostTypeId>,
)
    requires
        no_types(ds2),
        partial_ok(ds + ds2, rx + rx2, tg + tg2),
    ensures
        partial_ok(ds, rx, tg),
{
    lemma_distinct_prefix(ds, ds2);
    let all = ds + ds2;
    assert(refs_known(all));
    assert forall|i: int, k: int| 0 <= i < ds.len() && 0 <= k < ds[i].refs.len() implies ref_known(
        ds,
        #[trigger] ds[i].refs[k],
    ) by {
        assert(all[i] == ds[i]);
        assert(all[i].refs[k] == ds[i].refs[k]);
        assert(0 <= i < all.len() && 0 <= k < all[i].refs.len());
        assert(ref_known(all, all[i].refs[k]));
        lemma_ref_known_extend(ds, ds2, ds[i].refs[k]);
    }
    assert forall|k: int| 0 <= k < rx.len() implies type_known(ds, #[trigger] rx[k]) by {
        assert((rx + rx2)[k] == rx[k]);
        lemma_known_extend(ds, ds2, rx[k]);
    }
    assert forall|k: int| 0 <= k < tg.len() implies type_known(ds, #[trigger] tg[k]) by {
        assert((tg + tg2)[k] == tg[k]);
        lemma_known_extend(ds, ds2, tg[k]);
    }
}

/// The names of the built-in types, in order.
pub open spec fn builtin_names() -> Seq<Seq<char>> {
    Seq::new(20, |i: int| default_types_v()[i].0)
}

pub proof fn lemma_builtin_names_distinct()
    ensures
        forall|i: int, j: int| 0 <= i < j < 20 ==> builtin_names()[i] != builtin_names()[j],
{
    reveal_strlit("u8");
    reveal_strlit("u16");
    reveal_strlit("u32");
    reveal_strlit("u64");
    reveal_strlit("i8");
    reveal_strlit("i16");
    reveal_strlit("i32");
    reveal_strlit("i64");
    reveal_strlit("f32");
    reveal_strlit("f64");
    reveal_strlit("bool");
    reveal_strlit("char");
    reveal_strlit("String");
    reveal_strlit("Asn");
    reveal_strlit("IpAddr");
    reveal_strlit("Prefix");
    reveal_strlit("Option");
    reveal_strlit("Verdict");
    reveal_strlit("Result");
    reveal_strlit("List");
    let n = builtin_names();
    assert forall|i: int, j: int| 0 <= i < j < 20 implies n[i] != n[j] by {
        if n[i] == n[j] {
            assert(n[i].len() == n[j].len());
            assert(n[i][0] == n[j][0]);
            assert(n[i][1] == n[j][1]);
        }
    }
}

/// The declaration of the built-in type at position `i`: the first sixteen
/// are host types, numbered from one; the others are Roto's own.
pub open spec fn builtin_decl(i: int) -> DeclV {
    DeclV {
        scope: ScopeV::Module(Seq::empty()),
        name: builtin_names()[i],
        doc: default_types_v()[i].1,
        detail: DetailV::Nothing,
        kind: if i < 16 {
            KindV::Type(HostTypeId((i + 1) as u64))
        } else {
            KindV::RotoType
        },
        refs: Seq::empty(),
    }
}

/// The declarations of the built-in types.
pub open spec fn builtin_decls() -> Seq<DeclV> {
    Seq::new(20, |i: int| builtin_decl(i))
}

/// Two declarations of one name in one scope make a registry
/// inconsistent, so registering them fails.
pub proof fn law_one_name_once_per_scope(
    ds: Seq<DeclV>,
    regexes: Seq<HostTypeId>,
    targets: Seq<HostTypeId>,
    imps: Seq<ImportV>,
    i: int,
    j: int,
)
    requires
        0 <= i < j < ds.len(),
        ds[i].scope == ds[j].scope,
        ds[i].name == ds[j].name,
    ensures
        !registry_ok(ds, regexes, targets, imps),
{
    assert(!(ds[i].scope == ds[j].scope && ds[i].name == ds[j].name) ==> false);
}

/// Declarations in different scopes never clash: a consistent registry
/// stays consistent in its names when a declaration is added in a scope
/// where its name is free.
pub proof fn law_names_clash_only_within_a_scope(ds: Seq<DeclV>, d: DeclV)
    requires
        names_distinct(ds),
        forall|i: int| 0 <= i < ds.len() ==> !((#[trigger] ds[i]).scope == d.scope && ds[i].name == d.name),
    ensures
        names_distinct(ds.push(d)),
{
    let all = ds.push(d);
    assert forall|i: int, j: int| 0 <= i < j < all.len() implies !((#[trigger] all[i]).scope == (#[trigger] all[j]).scope
        && all[i].name == all[j].name) by {
        assert(all[i] == ds[i]);
        if j < ds.len() {
            assert(all[j] == ds[j]);
        }
    }
}

/// A consistent registry has at most one regex literal provider, and its
/// type is registered; a second provider is refused.
pub proof fn law_at_most_one_regex_provider(
    ds: Seq<DeclV>,
    regexes: Seq<HostTypeId>,
    targets: Seq<HostTypeId>,
    imps: Seq<ImportV>,
    r: HostTypeId,
)
    requires
        registry_ok(ds, regexes, targets, imps),
        regexes.len() == 1,
    ensures
        type_known(ds, regexes[0]),
        !registry_ok(ds, regexes.push(r), targets, imps),
{
}

// ---------------------------------------------------------------------
// The runtime

/// The registry of a runtime: the declarations of the items registered into
/// it, the registered types, the regex literal provider and the imports.
#[derive(Debug)]
pub struct Runtime {
    decls: Vec<Declaration>,
    types: Vec<Type>,
    regexes: Vec<RegexLiteral>,
    imports: Vec<Import>,
    targets: Vec<HostTypeId>,
}

impl Runtime {
    /// The views of the declarations, in the order in which they were
    /// made.
    pub open spec fn dv(&self) -> Seq<DeclV> {
        decls_view(self.decl_seq())
    }

    /// The registered host types, in the order of registration.
    pub closed spec fn spec_types(&self) -> Seq<Type> {
        self.types@
    }

    /// The host types of the regex literal providers.
    pub closed spec fn regex_types(&self) -> Seq<HostTypeId> {
        Seq::new(self.regexes@.len(), |i: int| self.regexes@[i].type_id)
    }

    /// The imports.
    pub closed spec fn imports_v(&self) -> Seq<ImportV> {
        imports_view(self.imports@)
    }

    /// The host types that impl blocks were registered for.
    pub closed spec fn impl_targets(&self) -> Seq<HostTypeId> {
        self.targets@
    }

    /// The registry is consistent.
    pub open spec fn wf(&self) -> bool {
        registry_ok(self.dv(), self.regex_types(), self.impl_targets(), self.imports_v())
    }

    /// Whether `a` and `b` are the same scope.
    pub(crate) fn same_scope(a: &Scope, b: &Scope) -> (res: bool)
        ensures
            res == (a@ == b@),
    {
        match (a, b) {
            (Scope::Module(p), Scope::Module(q)) => {
                if p.len() != q.len() {
                    proof {
                        assert(path_view(p@).len() != path_view(q@).len());
                    }
                    return false;
                }
                let mut i: usize = 0;
                while i < p.len()
                    invariant
                        a@ == ScopeV::Module(path_view(p@)),
                        b@ == ScopeV::Module(path_view(q@)),
                        i <= p@.len(),
                        p@.len() == q@.len(),
                        forall|k: int| 0 <= k < i ==> p@[k]@ == q@[k]@,
                    decreases p@.len() - i,
                {
                    if !(p[i] == q[i]) {
                        proof {
                            assert(path_view(p@)[i as int] != path_view(q@)[i as int]);
                            assert(path_view(p@) != path_view(q@));
                        }
                        return false;
                    }
                    i = i + 1;
                }
                proof {
                    assert(path_view(p@) =~= path_view(q@));
                }
                true
            },
            (Scope::Type(x), Scope::Type(y)) => x.0 == y.0,
            _ => false,
        }
    }

    /// The position of the declaration of `name` in `scope`, if there is one.
    fn find_decl(&self, scope: &Scope, name: &str) -> (res: Option<usize>)
        ensures
            match res {
                Some(i) => i < self.dv().len() && self.dv()[i as int].scope == scope@
                    && self.dv()[i as int].name == name@,
                None => forall|i: int|
                    0 <= i < self.dv().len() ==> !((#[trigger] self.dv()[i]).scope == scope@
                        && self.dv()[i].name == name@),
            },
    {
        let key = String::from_str(name);
        let mut i: usize = 0;
        while i < self.decls.len()
            invariant
                i <= self.decls@.len(),
                key@ == name@,
                forall|k: int|
                    0 <= k < i ==> !((#[trigger] self.dv()[k]).scope == scope@ && self.dv()[k].name == name@),
            decreases self.decls@.len() - i,
        {
            let d = &self.decls[i];
            if Self::same_scope(&d.scope, scope) && d.name == key {
                return Some(i);
            }
            i = i + 1;
        }
        None
    }

    /// Whether the host type `id` is declared.
    fn knows_type(&self, id: HostTypeId) -> (res: bool)
        ensures
            res == type_known(self.dv(), id),
    {
        let mut i: usize = 0;
        while i < self.decls.len()
            invariant
                i <= self.decls@.len(),
                forall|k: int| 0 <= k < i ==> (#[trigger] self.dv()[k]).kind != KindV::Type(id),
            decreases self.decls@.len() - i,
        {
            match self.decls[i].kind {
                DeclKind::Type(other) => {
                    if other.0 == id.0 {
                        assert(self.dv()[i as int].kind == KindV::Type(id));
                        return true;
                    }
                },
                _ => {},
            }
            i = i + 1;
        }
        false
    }

    /// Add a declaration, unless its scope already has its name or, for a
    /// type, its host type is already declared.
    fn declare(&mut self, d: Declaration, location: &Location) -> (res: Result<(), RegistrationError>)
        requires
            names_distinct(old(self).dv()),
            type_ids_distinct(old(self).dv()),
        ensures
            final(self).types == old(self).types,
            final(self).regexes == old(self).regexes,
            final(self).imports == old(self).imports,
            final(self).targets == old(self).targets,
            match res {
                Ok(()) => {
                    &&& final(self).decls@ == old(self).decls@.push(d)
                    &&& final(self).dv() == old(self).dv().push(d@)
                    &&& names_distinct(final(self).dv())
                    &&& type_ids_distinct(final(self).dv())
                },
                Err(_) => {
                    &&& final(self).decls == old(self).decls
                    &&& !(names_distinct(old(self).dv().push(d@)) && type_ids_distinct(old(self).dv().push(d@)))
                },
            },
    {
        let ghost before = self.dv();
        let ghost n = before.len();
        match self.find_decl(&d.scope, d.name.as_str()) {
            Some(i) => {
                proof {
                    assert(before.push(d@)[i as int] == before[i as int]);
                    assert(before.push(d@)[n as int] == d@);
                }
                let mut message = String::from_str("`");
                message.append(d.name.as_str());
                message.append("` is declared twice in the same scope");
                return Err(RegistrationError { message, location: location.duplicate() });
            },
            None => {},
        }
        match d.kind {
            DeclKind::Type(id) => {
                if self.knows_type(id) {
                    proof {
                        let j = choose|j: int| 0 <= j < before.len() && (#[trigger] before[j]).kind == KindV::Type(id);
                        assert(before.push(d@)[j] == before[j]);
                        assert(before.push(d@)[n as int] == d@);
                    }
                    let mut message = String::from_str("The host type of `");
                    message.append(d.name.as_str());
                    message.append("` is registered twice");
                    return Err(RegistrationError { message, location: location.duplicate() });
                }
            },
            _ => {},
        }
        let ghost dd = d@;
        let ghost d0 = d;
        self.decls.push(d);
        proof {
            assert(self.decls@ == old(self).decls@.push(d0));
            assert(self.dv() =~= before.push(dd));
            let ds = self.dv();
            assert forall|i: int, j: int| 0 <= i < j < ds.len() implies !((#[trigger] ds[i]).scope == (#[trigger] ds[j]).scope
                && ds[i].name == ds[j].name) by {
                if j < n {
                    assert(ds[i] == before[i] && ds[j] == before[j]);
                } else {
                    assert(ds[i] == before[i]);
                }
            }
            assert forall|i: int, j: int| 0 <= i < j < ds.len() && (#[trigger] ds[i]).kind is Type implies (#[trigger] ds[j]).kind
                != ds[i].kind by {
                if j < n {
                    assert(ds[i] == before[i] && ds[j] == before[j]);
                } else {
                    assert(ds[i] == before[i]);
                }
            }
        }
        Ok(())
    }

    /// Declare the types and modules of `items`, in the module `path` and
    /// the modules within it.
    fn declare_types(&mut self, items: &Vec<Item>, path: &Vec<String>) -> (res: Result<(), RegistrationError>)
        requires
            names_distinct(old(self).dv()),
            type_ids_distinct(old(self).dv()),
        ensures
            final(self).types == old(self).types,
            final(self).regexes == old(self).regexes,
            final(self).imports == old(self).imports,
            final(self).targets == old(self).targets,
            final(self).decls@.len() >= old(self).decls@.len(),
            final(self).decls@.subrange(0, old(self).decls@.len() as int) == old(self).decls@,
            match res {
                Ok(()) => {
                    &&& final(self).dv() == old(self).dv() + type_decls(items@, path_view(path@))
                    &&& names_distinct(final(self).dv())
                    &&& type_ids_distinct(final(self).dv())
                },
                Err(_) => !(names_distinct(old(self).dv() + type_decls(items@, path_view(path@)))
                    && type_ids_distinct(old(self).dv() + type_decls(items@, path_view(path@)))),
            },
        decreases items@,
    {
        let ghost pv = path_view(path@);
        let ghost start = self.dv();
        let ghost start_decls = self.decls@;
        let ghost all = type_decls(items@, pv);
        let mut i: usize = 0;
        while i < items.len()
            invariant
                i <= items@.len(),
                pv == path_view(path@),
                start_decls == old(self).decls@,
                start == decls_view(start_decls),
                all == type_decls(items@, pv),
                self.dv() == start + type_decls(items@.take(i as int), pv),
                names_distinct(self.dv()),
                type_ids_distinct(self.dv()),
                self.decls@.len() >= start_decls.len(),
                self.decls@.subrange(0, start_decls.len() as int) == start_decls,
                self.types == old(self).types,
                self.regexes == old(self).regexes,
                self.imports == old(self).imports,
                self.targets == old(self).targets,
            decreases items@.len() - i,
        {
            let ghost cur = self.dv();
            let ghost cur_decls = self.decls@;
            let ghost item = items@[i as int];
            let ghost rest = type_decls(items@.skip(i as int + 1), pv);
            proof {
                lemma_type_decls_append(items@.take(i as int), seq![item], pv);
                lemma_type_decls_append(items@.take(i as int + 1), items@.skip(i as int + 1), pv);
                assert(items@.take(i as int + 1) =~= items@.take(i as int) + seq![item]);
                assert(items@.take(i as int + 1) + items@.skip(i as int + 1) =~= items@);
                assert(seq![item].drop_first() =~= Seq::<Item>::empty());
                assert(type_decls(Seq::<Item>::empty(), pv) == Seq::<DeclV>::empty());
                assert(seq![item][0] == item);
                assert(type_decls(seq![item], pv) =~= item_type_decls(item, pv));
                assert(all =~= type_decls(items@.take(i as int), pv) + item_type_decls(item, pv) + rest);
            }
            match &items[i] {
                Item::Type(t) => {
                    let d = Declaration {
                        scope: Scope::Module(clone_path(path)),
                        name: t.ident.clone(),
                        doc: t.doc.clone(),
                        kind: DeclKind::Type(t.type_id),
                    };
                    let r = self.declare(d, &t.location);
                    if r.is_err() {
                        proof {
                            assert(cur.push(d@) =~= cur + item_type_decls(item, pv));
                            assert(start + all =~= cur.push(d@) + rest);
                            lemma_distinct_prefix(cur.push(d@), rest);
                        }
                        return r;
                    }
                    proof {
                        assert(self.dv() =~= start + type_decls(items@.take(i as int + 1), pv));
                        assert(self.decls@.subrange(0, start_decls.len() as int) =~= start_decls) by {
                            assert(cur_decls.subrange(0, start_decls.len() as int) == start_decls);
                        }
                    }
                },
                Item::Module(m) => {
                    let d = Declaration {
                        scope: Scope::Module(clone_path(path)),
                        name: m.ident.clone(),
                        doc: m.doc.clone(),
                        kind: DeclKind::Module,
                    };
                    let ghost sub_decls = type_decls(m.children@, pv.push(m.ident@));
                    let r = self.declare(d, &m.location);
                    if r.is_err() {
                        proof {
                            assert(start + all =~= cur.push(d@) + (sub_decls + rest));
                            lemma_distinct_prefix(cur.push(d@), sub_decls + rest);
                        }
                        return r;
                    }
                    let ghost mid = self.dv();
                    let ghost mid_decls = self.decls@;
                    let sub = child_path(path, &m.ident);
                    proof {
                        assert(decreases_to!(items@ => items@[i as int]));
                        assert(decreases_to!(items@[i as int] => *m));
                        assert(decreases_to!(*m => m.children));
                        assert(decreases_to!(m.children => m.children@));
                    }
                    let r = self.declare_types(&m.children, &sub);
                    if r.is_err() {
                        proof {
                            assert(start + all =~= (mid + sub_decls) + rest);
                            lemma_distinct_prefix(mid + sub_decls, rest);
                        }
                        return r;
                    }
                    proof {
                        assert(self.dv() =~= start + type_decls(items@.take(i as int + 1), pv));
                        assert(self.decls@.subrange(0, start_decls.len() as int) =~= start_decls) by {
                            assert(self.decls@.subrange(0, mid_decls.len() as int) == mid_decls);
                            assert(mid_decls == cur_decls.push(d));
                            assert(cur_decls.subrange(0, start_decls.len() as int) == start_decls);
                        }
                    }
                },
                _ => {
                    proof {
                        assert(item_type_decls(item, pv) =~= Seq::<DeclV>::empty());
                        assert(self.dv() =~= start + type_decls(items@.take(i as int + 1), pv));
                    }
                },
            }
            i = i + 1;
        }
        proof {
            assert(items@.take(i as int) =~= items@);
        }
        Ok(())
    }

    /// Whether the host type `r`, as an item refers to it, is known.
    fn knows_ref(&self, r: HostType) -> (res: bool)
        ensures
            res == ref_known(self.dv(), r),
    {
        match r.description {
            TypeDescription::Option(a) => self.knows_type(a),
            TypeDescription::List(a) => self.knows_type(a),
            TypeDescription::Verdict(a, b) => self.knows_type(a) && self.knows_type(b),
            TypeDescription::Result(a, b) => self.knows_type(a) && self.knows_type(b),
            _ => self.knows_type(r.id),
        }
    }

    /// Whether every host type of `refs` is known.
    fn knows_all(&self, refs: &Vec<HostType>) -> (res: bool)
        ensures
            res == all_refs_known(self.dv(), refs@),
    {
        let mut i: usize = 0;
        while i < refs.len()
            invariant
                i <= refs@.len(),
                forall|k: int| 0 <= k < i ==> ref_known(self.dv(), #[trigger] refs@[k]),
            decreases refs@.len() - i,
        {
            if !self.knows_ref(refs[i]) {
                return false;
            }
            i = i + 1;
        }
        true
    }

    /// Add a declaration that declares no host type, provided the host
    /// types it refers to are declared.
    fn declare_with_refs(&mut self, d: Declaration, location: &Location) -> (res: Result<(), RegistrationError>)
        requires
            partial_ok(old(self).dv(), old(self).regex_types(), old(self).impl_targets()),
            !(d@.kind is Type),
        ensures
            final(self).types == old(self).types,
            final(self).regexes == old(self).regexes,
            final(self).imports == old(self).imports,
            final(self).targets == old(self).targets,
            match res {
                Ok(()) => {
                    &&& final(self).decls@ == old(self).decls@.push(d)
                    &&& final(self).dv() == old(self).dv().push(d@)
                    &&& partial_ok(final(self).dv(), final(self).regex_types(), final(self).impl_targets())
                },
                Err(_) => {
                    &&& final(self).decls == old(self).decls
                    &&& !partial_ok(old(self).dv().push(d@), old(self).regex_types(), old(self).impl_targets())
                },
            },
    {
        let ghost ds = self.dv();
        let ghost n = ds.len();
        let ghost dd = d@;
        let refs = decl_refs(&d);
        if !self.knows_all(&refs) {
            proof {
                let k = choose|k: int| 0 <= k < refs@.len() && !ref_known(ds, #[trigger] refs@[k]);
                assert(no_types(seq![dd]));
                lemma_ref_known_extend(ds, seq![dd], refs@[k]);
                assert(ds.push(dd) =~= ds + seq![dd]);
                assert(ds.push(dd)[n as int] == dd);
                assert(!ref_known(ds.push(dd), ds.push(dd)[n as int].refs[k]));
            }
            let mut message = String::from_str("`");
            message.append(d.name.as_str());
            message.append("` refers to a type that is not registered");
            return Err(RegistrationError { message, location: location.duplicate() });
        }
        let r = self.declare(d, location);
        proof {
            if r.is_ok() {
                lemma_refs_known_push(ds, dd);
                assert(ds.push(dd) =~= ds + seq![dd]);
                lemma_all_known_extend(ds, seq![dd], self.regex_types());
                lemma_all_known_extend(ds, seq![dd], self.impl_targets());
            }
        }
        r
    }

    /// Register what `item`, in the module `path`, registers besides its
    /// types and modules.
    fn register_item(&mut self, item: Item, path: &Vec<String>) -> (res: Result<(), RegistrationError>)
        requires
            partial_ok(old(self).dv(), old(self).regex_types(), old(self).impl_targets()),
        ensures
            extends(final(self).decls@, old(self).decls@),
            extends(final(self).types@, old(self).types@),
            extends(final(self).regexes@, old(self).regexes@),
            extends(final(self).imports@, old(self).imports@),
            extends(final(self).targets@, old(self).targets@),
            ({
                let c = item_collect(item, path_view(path@));
                match res {
                    Ok(()) => {
                        &&& final(self).dv() == old(self).dv() + c.decls
                        &&& final(self).spec_types() == old(self).spec_types() + c.types
                        &&& final(self).regex_types() == old(self).regex_types() + c.regexes
                        &&& final(self).imports_v() == old(self).imports_v() + c.imports
                        &&& final(self).impl_targets() == old(self).impl_targets() + c.targets
                        &&& partial_ok(final(self).dv(), final(self).regex_types(), final(self).impl_targets())
                        &&& c.impls_ok
                    },
                    Err(_) => !(partial_ok(
                        old(self).dv() + c.decls,
                        old(self).regex_types() + c.regexes,
                        old(self).impl_targets() + c.targets,
                    ) && c.impls_ok),
                }
            }),
        decreases item, 1int,
    {
        let ghost pv = path_view(path@);
        let ghost it = item;
        let ghost c = item_collect(item, pv);
        let ghost o_dv = self.dv();
        let ghost o_rx = self.regex_types();
        let ghost o_tg = self.impl_targets();
        let ghost o_types = self.spec_types();
        let ghost o_imps = self.imports_v();
        proof {
            lemma_extends_refl(self.decls@);
            lemma_extends_refl(self.types@);
            lemma_extends_refl(self.regexes@);
            lemma_extends_refl(self.imports@);
            lemma_extends_refl(self.targets@);
        }
        match item {
            Item::Type(t) => {
                let ghost vd = variant_decls(t);
                match &t.enum_variants {
                    Some(vs) => {
                        let mut k: usize = 0;
                        while k < vs.len()
                            invariant
                                k <= vs@.len(),
                                t.enum_variants == Some(*vs),
                                vd == variant_decls(t),
                                it == Item::Type(t),
                                it == item,
                                pv == path_view(path@),
                                c == item_collect(it, pv),
                                extends(old(self).types@, old(self).types@),
                                extends(old(self).regexes@, old(self).regexes@),
                                extends(old(self).imports@, old(self).imports@),
                                extends(old(self).targets@, old(self).targets@),
                                vd.len() == vs@.len(),
                                o_dv == old(self).dv(),
                                o_rx == old(self).regex_types(),
                                o_tg == old(self).impl_targets(),
                                self.dv() == o_dv + vd.take(k as int),
                                self.types == old(self).types,
                                self.regexes == old(self).regexes,
                                self.imports == old(self).imports,
                                self.targets == old(self).targets,
                                partial_ok(self.dv(), self.regex_types(), self.impl_targets()),
                                extends(self.decls@, old(self).decls@),
                            decreases vs@.len() - k,
                        {
                            let v = &vs[k];
                            let ids = field_host_types(v.fields());
                            let d = Declaration {
                                scope: Scope::Type(t.type_id),
                                name: String::from_str(v.name()),
                                doc: String::from_str(v.doc()),
                                kind: DeclKind::Variant(ids),
                            };
                            let ghost decls_before = self.decls@;
                            let ghost cur = self.dv();
                            proof {
                                assert(d@ == vd[k as int]);
                                assert(vd.take(k as int + 1) =~= vd.take(k as int).push(d@));
                            }
                            let r = self.declare_with_refs(d, &t.location);
                            if r.is_err() {
                                proof {
                                    let rest = vd.skip(k as int + 1);
                                    assert(o_dv + vd =~= cur.push(vd[k as int]) + rest);
                                    assert(no_types(rest));
                                    assert(o_rx =~= o_rx + Seq::<HostTypeId>::empty());
                                    assert(o_tg =~= o_tg + Seq::<HostTypeId>::empty());
                                    if partial_ok(o_dv + c.decls, o_rx + c.regexes, o_tg + c.targets) {
                                        lemma_partial_bad_grows(
                                            cur.push(vd[k as int]),
                                            o_rx,
                                            o_tg,
                                            rest,
                                            Seq::empty(),
                                            Seq::empty(),
                                        );
                                    }
                                }
                                return r;
                            }
                            proof {
                                lemma_extends_push(decls_before, d);
                                lemma_extends_trans(self.decls@, decls_before, old(self).decls@);
                            }
                            k = k + 1;
                        }
                        proof {
                            assert(vd.take(k as int) =~= vd);
                        }
                    },
                    None => {
                        proof {
                            assert(vd =~= Seq::<DeclV>::empty());
                            assert(self.dv() =~= o_dv + vd);
                        }
                    },
                }
                let ghost types_before = self.types@;
                self.types.push(t);
                proof {
                    lemma_extends_push(types_before, t);
                    assert(self.spec_types() =~= o_types + c.types);
                    assert(self.regex_types() =~= o_rx + c.regexes);
                    assert(self.impl_targets() =~= o_tg + c.targets);
                    assert(self.imports_v() =~= o_imps + c.imports);
                }
                Ok(())
            },
            Item::Module(m) => {
                let sub = child_path(path, &m.ident);
                proof {
                    assert(decreases_to!(item => m));
                    assert(decreases_to!(m => m.children));
                    assert(decreases_to!(m.children => m.children@));
                }
                self.register_items(m.children, &sub)
            },
            Item::Constant(cst) => {
                let loc = cst.location.duplicate();
                let d = Declaration {
                    scope: Scope::Module(clone_path(path)),
                    name: cst.ident.clone(),
                    doc: cst.doc.clone(),
                    kind: DeclKind::Constant(cst),
                };
                let ghost decls_before = self.decls@;
                let r = self.declare_with_refs(d, &loc);
                proof {
                    assert(o_dv.push(d@) =~= o_dv + c.decls);
                    assert(o_rx =~= o_rx + c.regexes);
                    assert(o_tg =~= o_tg + c.targets);
                    if r.is_ok() {
                        lemma_extends_push(decls_before, d);
                        assert(self.spec_types() =~= o_types + c.types);
                        assert(self.imports_v() =~= o_imps + c.imports);
                    }
                }
                r
            },
            Item::Function(f) => {
                let loc = f.location.duplicate();
                let d = Declaration {
                    scope: Scope::Module(clone_path(path)),
                    name: f.ident.clone(),
                    doc: f.doc.clone(),
                    kind: DeclKind::Function(f, false),
                };
                let ghost decls_before = self.decls@;
                let r = self.declare_with_refs(d, &loc);
                proof {
                    assert(o_dv.push(d@) =~= o_dv + c.decls);
                    assert(o_rx =~= o_rx + c.regexes);
                    assert(o_tg =~= o_tg + c.targets);
                    if r.is_ok() {
                        lemma_extends_push(decls_before, d);
                        assert(self.spec_types() =~= o_types + c.types);
                        assert(self.imports_v() =~= o_imps + c.imports);
                    }
                }
                r
            },
            Item::Impl(imp) => {
                let ty = imp.ty;
                let ghost all_children = imp.children@;
                if !self.knows_type(ty) {
                    proof {
                        lemma_impl_decls_no_types(all_children, ty);
                        assert(o_tg + c.targets =~= o_tg.push(ty) + Seq::<HostTypeId>::empty());
                        assert(o_rx + c.regexes =~= o_rx + Seq::<HostTypeId>::empty());
                        assert(o_tg.push(ty)[o_tg.len() as int] == ty);
                        if partial_ok(o_dv + c.decls, o_rx + c.regexes, o_tg + c.targets) {
                            lemma_partial_bad_grows(
                                o_dv,
                                o_rx,
                                o_tg.push(ty),
                                c.decls,
                                Seq::empty(),
                                Seq::empty(),
                            );
                        }
                    }
                    let message = String::from_str("An impl block is registered for a type that is not registered");
                    return Err(RegistrationError { message, location: imp.location });
                }
                let ghost targets_before = self.targets@;
                self.targets.push(ty);
                proof {
                    lemma_extends_push(targets_before, ty);
                }
                proof {
                    let tg = self.impl_targets();
                    assert forall|k: int| 0 <= k < tg.len() implies type_known(self.dv(), #[trigger] tg[k]) by {
                        if k < o_tg.len() {
                            assert(tg[k] == o_tg[k]);
                        }
                    }
                    assert(all_children.take(0) =~= Seq::<Item>::empty());
                    assert(all_children.skip(0) =~= all_children);
                    assert(self.dv() =~= o_dv + impl_decls(all_children.take(0), ty));
                }
                let location = imp.location;
                let mut children = imp.children;
                let ghost mut idx: int = 0;
                while children.len() > 0
                    invariant
                        0 <= idx <= all_children.len(),
                        children@ == all_children.skip(idx),
                        all_functions(all_children.take(idx)),
                        it is Impl,
                        it == item,
                        it->Impl_0.ty == ty,
                        it->Impl_0.children@ == all_children,
                        pv == path_view(path@),
                        c == item_collect(it, pv),
                        extends(old(self).types@, old(self).types@),
                        extends(old(self).regexes@, old(self).regexes@),
                        extends(old(self).imports@, old(self).imports@),
                        extends(self.targets@, old(self).targets@),
                        o_dv == old(self).dv(),
                        o_rx == old(self).regex_types(),
                        o_tg == old(self).impl_targets(),
                        self.dv() == o_dv + impl_decls(all_children.take(idx), ty),
                        self.impl_targets() == o_tg.push(ty),
                        self.types == old(self).types,
                        self.regexes == old(self).regexes,
                        self.imports == old(self).imports,
                        partial_ok(self.dv(), self.regex_types(), self.impl_targets()),
                        extends(self.decls@, old(self).decls@),
                    decreases children@.len(),
                {
                    let child = children.remove(0);
                    let ghost cur = self.dv();
                    let ghost rest = impl_decls(all_children.skip(idx + 1), ty);
                    proof {
                        assert(child == all_children[idx]);
                        assert(all_children.take(idx + 1) =~= all_children.take(idx) + seq![child]);
                        assert(all_children =~= all_children.take(idx + 1) + all_children.skip(idx + 1));
                        lemma_impl_decls_append(all_children.take(idx), seq![child], ty);
                        lemma_impl_decls_append(all_children.take(idx + 1), all_children.skip(idx + 1), ty);
                        assert(seq![child].drop_first() =~= Seq::<Item>::empty());
                        assert(seq![child][0] == child);
                        lemma_impl_decls_no_types(all_children.skip(idx + 1), ty);
                    }
                    match child {
                        Item::Function(f) => {
                            let ghost fg = f;
                            let is_method = f.func.parameter_types.len() > 0 && f.func.parameter_types[0].id.0 == ty.0;
                            let loc = f.location.duplicate();
                            let d = Declaration {
                                scope: Scope::Type(ty),
                                name: f.ident.clone(),
                                doc: f.doc.clone(),
                                kind: DeclKind::Function(f, is_method),
                            };
                            let ghost decls_before = self.decls@;
                            proof {
                                assert(d@ == fn_decl(ScopeV::Type(ty), fg, is_method_of(fg, ty)));
                                assert(impl_decls(Seq::<Item>::empty(), ty) == Seq::<DeclV>::empty());
                                assert(impl_decls(seq![child], ty) =~= seq![d@]);
                            }
                            let r = self.declare_with_refs(d, &loc);
                            if r.is_err() {
                                proof {
                                    assert(o_dv + c.decls =~= cur.push(d@) + rest);
                                    assert(o_tg + c.targets =~= o_tg.push(ty) + Seq::<HostTypeId>::empty());
                                    assert(o_rx + c.regexes =~= o_rx + Seq::<HostTypeId>::empty());
                                    if partial_ok(o_dv + c.decls, o_rx + c.regexes, o_tg + c.targets) {
                                        lemma_partial_bad_grows(
                                            cur.push(d@),
                                            o_rx,
                                            o_tg.push(ty),
                                            rest,
                                            Seq::empty(),
                                            Seq::empty(),
                                        );
                                    }
                                }
                                return r;
                            }
                            proof {
                                lemma_extends_push(decls_before, d);
                                lemma_extends_trans(self.decls@, decls_before, old(self).decls@);
                                assert(self.dv() =~= o_dv + impl_decls(all_children.take(idx + 1), ty));
                                assert(all_functions(all_children.take(idx + 1))) by {
                                    assert forall|k: int| 0 <= k < idx + 1 implies (#[trigger] all_children.take(idx + 1)[k]) is Function by {
                                        if k < idx {
                                            assert(all_children.take(idx + 1)[k] == all_children.take(idx)[k]);
                                        }
                                    }
                                }
                                idx = idx + 1;
                            }
                        },
                        _ => {
                            proof {
                                assert(!all_functions(all_children)) by {
                                    assert(!(all_children[idx] is Function));
                                }
                            }
                            let message = String::from_str("Only functions can be registered in an impl block");
                            return Err(RegistrationError { message, location });
                        },
                    }
                }
                proof {
                    assert(all_children.take(idx) =~= all_children);
                    assert(self.regex_types() =~= o_rx + c.regexes);
                    assert(self.impl_targets() =~= o_tg + c.targets);
                    assert(self.spec_types() =~= o_types + c.types);
                    assert(self.imports_v() =~= o_imps + c.imports);
                }
                Ok(())
            },
            Item::Use(u) => {
                let ghost paths = u.imports@;
                let ghost new_imps = Seq::new(paths.len(), |k: int| ImportV { scope: pv, path: path_view(paths[k]@) });
                let location = u.location;
                let mut rest = u.imports;
                let ghost mut idx: int = 0;
                proof {
                    assert(paths.skip(0) =~= paths);
                    assert(self.imports_v() =~= o_imps + new_imps.take(0));
                }
                while rest.len() > 0
                    invariant
                        0 <= idx <= paths.len(),
                        rest@ == paths.skip(idx),
                        new_imps.len() == paths.len(),
                        new_imps == Seq::new(paths.len(), |k: int| ImportV { scope: pv, path: path_view(paths[k]@) }),
                        pv == path_view(path@),
                        o_imps == old(self).imports_v(),
                        self.imports_v() == o_imps + new_imps.take(idx),
                        self.decls == old(self).decls,
                        self.types == old(self).types,
                        self.regexes == old(self).regexes,
                        self.targets == old(self).targets,
                        extends(self.imports@, old(self).imports@),
                        extends(old(self).targets@, old(self).targets@),
                    decreases rest@.len(),
                {
                    let p = rest.remove(0);
                    let ghost imports_before = self.imports@;
                    proof {
                        assert(p == paths[idx]);
                        assert(rest@ =~= paths.skip(idx + 1));
                    }
                    let imp = Import { scope: clone_path(path), path: p, location: location.duplicate() };
                    self.imports.push(imp);
                    proof {
                        assert(imports_view(imports_before.push(imp)) =~= imports_view(imports_before).push(
                            ImportV { scope: pv, path: path_view(p@) },
                        ));
                        lemma_extends_push(imports_before, imp);
                        lemma_extends_trans(self.imports@, imports_before, old(self).imports@);
                        assert(self.imports_v() =~= o_imps + new_imps.take(idx + 1));
                        idx = idx + 1;
                    }
                }
                proof {
                    assert(new_imps.take(idx) =~= new_imps);
                    assert(self.dv() =~= o_dv + c.decls);
                    assert(self.regex_types() =~= o_rx + c.regexes);
                    assert(self.impl_targets() =~= o_tg + c.targets);
                    assert(self.spec_types() =~= o_types + c.types);
                }
                Ok(())
            },
            Item::RegexLiteral(rl) => {
                let ty = rl.type_id;
                proof {
                    assert(o_dv + c.decls =~= o_dv + Seq::<DeclV>::empty());
                    assert(o_tg + c.targets =~= o_tg + Seq::<HostTypeId>::empty());
                    assert(o_rx + c.regexes =~= o_rx.push(ty) + Seq::<HostTypeId>::empty());
                    assert(no_types(Seq::<DeclV>::empty()));
                }
                if self.regexes.len() > 0 {
                    proof {
                        if partial_ok(o_dv + c.decls, o_rx + c.regexes, o_tg + c.targets) {
                            lemma_partial_bad_grows(o_dv, o_rx.push(ty), o_tg, Seq::empty(), Seq::empty(), Seq::empty());
                        }
                    }
                    let message = String::from_str("Only one regex literal provider can be registered");
                    return Err(RegistrationError { message, location: rl.location });
                }
                if !self.knows_type(ty) {
                    proof {
                        assert(o_rx.push(ty)[o_rx.len() as int] == ty);
                        if partial_ok(o_dv + c.decls, o_rx + c.regexes, o_tg + c.targets) {
                            lemma_partial_bad_grows(o_dv, o_rx.push(ty), o_tg, Seq::empty(), Seq::empty(), Seq::empty());
                        }
                    }
                    let message = String::from_str("A regex literal provider returns an unregistered type");
                    return Err(RegistrationError { message, location: rl.location });
                }
                let ghost regexes_before = self.regexes@;
                self.regexes.push(rl);
                proof {
                    lemma_extends_push(regexes_before, rl);
                    assert(self.regex_types() =~= o_rx + c.regexes);
                    let rx = self.regex_types();
                    assert forall|k: int| 0 <= k < rx.len() implies type_known(self.dv(), #[trigger] rx[k]) by {}
                    assert(self.dv() =~= o_dv + c.decls);
                    assert(self.impl_targets() =~= o_tg + c.targets);
                    assert(self.spec_types() =~= o_types + c.types);
                    assert(self.imports_v() =~= o_imps + c.imports);
                }
                Ok(())
            },
        }
    }

    /// Register what `items`, in the module `path`, register besides their
    /// types and modules, whose declarations come first.
    fn register_items(&mut self, items: Vec<Item>, path: &Vec<String>) -> (res: Result<(), RegistrationError>)
        requires
            partial_ok(old(self).dv(), old(self).regex_types(), old(self).impl_targets()),
        ensures
            extends(final(self).decls@, old(self).decls@),
            extends(final(self).types@, old(self).types@),
            extends(final(self).regexes@, old(self).regexes@),
            extends(final(self).imports@, old(self).imports@),
            extends(final(self).targets@, old(self).targets@),
            ({
                let c = collect(items@, path_view(path@));
                match res {
                    Ok(()) => {
                        &&& final(self).dv() == old(self).dv() + c.decls
                        &&& final(self).spec_types() == old(self).spec_types() + c.types
                        &&& final(self).regex_types() == old(self).regex_types() + c.regexes
                        &&& final(self).imports_v() == old(self).imports_v() + c.imports
                        &&& final(self).impl_targets() == old(self).impl_targets() + c.targets
                        &&& partial_ok(final(self).dv(), final(self).regex_types(), final(self).impl_targets())
                        &&& c.impls_ok
                    },
                    Err(_) => !(partial_ok(
                        old(self).dv() + c.decls,
                        old(self).regex_types() + c.regexes,
                        old(self).impl_targets() + c.targets,
                    ) && c.impls_ok),
                }
            }),
        decreases items@, 0int,
    {
        let ghost all = items@;
        let ghost pv = path_view(path@);
        let ghost c_all = collect(all, pv);
        let ghost o_dv = self.dv();
        let ghost o_rx = self.regex_types();
        let ghost o_tg = self.impl_targets();
        let ghost o_types = self.spec_types();
        let ghost o_imps = self.imports_v();
        proof {
            lemma_extends_refl(self.decls@);
            lemma_extends_refl(self.types@);
            lemma_extends_refl(self.regexes@);
            lemma_extends_refl(self.imports@);
            lemma_extends_refl(self.targets@);
            assert(all.take(0) =~= Seq::<Item>::empty());
            assert(all.skip(0) =~= all);
            let c0 = collect(all.take(0), pv);
            assert(o_dv + c0.decls =~= o_dv);
            assert(o_rx + c0.regexes =~= o_rx);
            assert(o_tg + c0.targets =~= o_tg);
            assert(o_types + c0.types =~= o_types);
            assert(o_imps + c0.imports =~= o_imps);
        }
        let mut rest = items;
        let ghost mut idx: int = 0;
        while rest.len() > 0
            invariant
                0 <= idx <= all.len(),
                all == items@,
                rest@ == all.skip(idx),
                pv == path_view(path@),
                c_all == collect(all, pv),
                o_dv == old(self).dv(),
                o_rx == old(self).regex_types(),
                o_tg == old(self).impl_targets(),
                o_types == old(self).spec_types(),
                o_imps == old(self).imports_v(),
                self.dv() == o_dv + collect(all.take(idx), pv).decls,
                self.regex_types() == o_rx + collect(all.take(idx), pv).regexes,
                self.impl_targets() == o_tg + collect(all.take(idx), pv).targets,
                self.spec_types() == o_types + collect(all.take(idx), pv).types,
                self.imports_v() == o_imps + collect(all.take(idx), pv).imports,
                collect(all.take(idx), pv).impls_ok,
                partial_ok(self.dv(), self.regex_types(), self.impl_targets()),
                extends(self.decls@, old(self).decls@),
                extends(self.types@, old(self).types@),
                extends(self.regexes@, old(self).regexes@),
                extends(self.imports@, old(self).imports@),
                extends(self.targets@, old(self).targets@),
            decreases rest@.len(),
        {
            let ghost decls_before = self.decls@;
            let ghost types_before = self.types@;
            let ghost regexes_before = self.regexes@;
            let ghost imports_before = self.imports@;
            let ghost targets_before = self.targets@;
            let item = rest.remove(0);
            let ghost x = collect(all.take(idx), pv);
            let ghost ic = item_collect(item, pv);
            let ghost r = collect(all.skip(idx + 1), pv);
            proof {
                assert(item == all[idx]);
                assert(all.take(idx + 1) =~= all.take(idx) + seq![item]);
                assert(all =~= all.take(idx + 1) + all.skip(idx + 1));
                assert(rest@ =~= all.skip(idx + 1));
                lemma_collect_append(all.take(idx), seq![item], pv);
                lemma_collect_append(all.take(idx + 1), all.skip(idx + 1), pv);
                assert(seq![item].drop_first() =~= Seq::<Item>::empty());
                assert(seq![item][0] == item);
                assert(combine(ic, nothing_collected()) =~= ic);
                assert(collect(Seq::<Item>::empty(), pv) == nothing_collected());
                assert(collect(seq![item], pv) == ic);
                assert(idx < all.len());
                assert(decreases_to!(items@ => items@[idx]));
            }
            let res_item = self.register_item(item, path);
            if res_item.is_err() {
                proof {
                    lemma_collect_no_types(all.skip(idx + 1), pv);
                    assert(c_all == combine(combine(x, ic), r));
                    if ic.impls_ok {
                        assert(o_dv + c_all.decls =~= (o_dv + x.decls + ic.decls) + r.decls);
                        assert(o_rx + c_all.regexes =~= (o_rx + x.regexes + ic.regexes) + r.regexes);
                        assert(o_tg + c_all.targets =~= (o_tg + x.targets + ic.targets) + r.targets);
                        if partial_ok(o_dv + c_all.decls, o_rx + c_all.regexes, o_tg + c_all.targets) {
                            lemma_partial_bad_grows(
                                o_dv + x.decls + ic.decls,
                                o_rx + x.regexes + ic.regexes,
                                o_tg + x.targets + ic.targets,
                                r.decls,
                                r.regexes,
                                r.targets,
                            );
                        }
                    }
                    lemma_extends_trans(self.decls@, decls_before, old(self).decls@);
                    lemma_extends_trans(self.types@, types_before, old(self).types@);
                    lemma_extends_trans(self.regexes@, regexes_before, old(self).regexes@);
                    lemma_extends_trans(self.imports@, imports_before, old(self).imports@);
                    lemma_extends_trans(self.targets@, targets_before, old(self).targets@);
                }
                return res_item;
            }
            proof {
                let x2 = collect(all.take(idx + 1), pv);
                assert(x2 == combine(x, ic));
                assert(self.dv() =~= o_dv + x2.decls);
                assert(self.regex_types() =~= o_rx + x2.regexes);
                assert(self.impl_targets() =~= o_tg + x2.targets);
                assert(self.spec_types() =~= o_types + x2.types);
                assert(self.imports_v() =~= o_imps + x2.imports);
                lemma_extends_trans(self.decls@, decls_before, old(self).decls@);
                lemma_extends_trans(self.types@, types_before, old(self).types@);
                lemma_extends_trans(self.regexes@, regexes_before, old(self).regexes@);
                lemma_extends_trans(self.imports@, imports_before, old(self).imports@);
                lemma_extends_trans(self.targets@, targets_before, old(self).targets@);
                idx = idx + 1;
            }
        }
        proof {
            assert(all.take(idx) =~= all);
        }
        Ok(())
    }

    /// Whether the rest of `path`, from position `from`, resolves in
    /// `scope`.
    fn resolve_from(&self, scope: Scope, path: &Vec<String>, from: usize) -> (res: bool)
        requires
            names_distinct(self.dv()),
            from <= path@.len(),
        ensures
            res == resolves(self.dv(), scope@, path_view(path@).skip(from as int)),
        decreases path@.len() - from,
    {
        let ghost ds = self.dv();
        let ghost rest = path_view(path@).skip(from as int);
        if from == path.len() {
            return false;
        }
        proof {
            assert(rest[0] == path@[from as int]@);
        }
        match self.find_decl(&scope, path[from].as_str()) {
            None => false,
            Some(i) => {
                proof {
                    assert forall|j: int|
                        0 <= j < ds.len() && (#[trigger] ds[j]).scope == scope@ && ds[j].name == rest[0] implies j
                        == i by {
                        if j < i {
                            assert(!(ds[j].scope == ds[i as int].scope && ds[j].name == ds[i as int].name));
                        } else if j > i {
                            assert(!(ds[i as int].scope == ds[j].scope && ds[i as int].name == ds[j].name));
                        }
                    }
                }
                if from + 1 == path.len() {
                    return true;
                }
                let d = &self.decls[i];
                let next: Option<Scope> = match &d.kind {
                    DeclKind::Module => match &d.scope {
                        Scope::Module(p) => Some(Scope::Module(child_path(p, &d.name))),
                        Scope::Type(_) => None,
                    },
                    DeclKind::Type(id) => Some(Scope::Type(*id)),
                    _ => None,
                };
                proof {
                    assert(ds[i as int] == d@);
                    assert(match next {
                        Some(sc) => opens(d@) == Some(sc@),
                        None => opens(d@) is None,
                    });
                    assert(rest.drop_first() =~= path_view(path@).skip(from as int + 1));
                }
                match next {
                    None => false,
                    Some(sc) => self.resolve_from(sc, path, from + 1),
                }
            },
        }
    }

    /// The position of the first import that does not resolve, if any.
    fn unresolved_import(&self) -> (res: Option<usize>)
        requires
            names_distinct(self.dv()),
        ensures
            match res {
                Some(k) => k < self.imports_v().len() && !resolves(
                    self.dv(),
                    ScopeV::Module(self.imports_v()[k as int].scope),
                    self.imports_v()[k as int].path,
                ),
                None => imports_resolve(self.dv(), self.imports_v()),
            },
    {
        let mut k: usize = 0;
        while k < self.imports.len()
            invariant
                k <= self.imports@.len(),
                names_distinct(self.dv()),
                forall|j: int|
                    0 <= j < k ==> resolves(
                        self.dv(),
                        ScopeV::Module((#[trigger] self.imports_v()[j]).scope),
                        self.imports_v()[j].path,
                    ),
            decreases self.imports@.len() - k,
        {
            let imp = &self.imports[k];
            let scope = Scope::Module(clone_path(&imp.scope));
            proof {
                assert(path_view(imp.path@).skip(0) =~= path_view(imp.path@));
            }
            if !self.resolve_from(scope, &imp.path, 0) {
                return Some(k);
            }
            k = k + 1;
        }
        None
    }

    /// A runtime with the built-in types declared and nothing registered.
    pub fn new() -> (res: Runtime)
        ensures
            res.wf(),
            res.dv() == builtin_decls(),
            res.spec_types() == Seq::<Type>::empty(),
            res.regex_types() == Seq::<HostTypeId>::empty(),
            res.impl_targets() == Seq::<HostTypeId>::empty(),
            res.imports_v() == Seq::<ImportV>::empty(),
    {
        let defs = default_types();
        let mut decls: Vec<Declaration> = Vec::new();
        proof {
            lemma_builtin_names_distinct();
            assert(default_types_v().len() == 20);
            assert(crate::typechecker::types::defs_view(defs@).len() == defs@.len());
            assert(defs@.len() == 20);
            assert(decls_view(decls@) =~= builtin_decls().take(0));
        }
        let mut i: usize = 0;
        while i < 20
            invariant
                i <= 20,
                defs@.len() == 20,
                crate::typechecker::types::defs_view(defs@) == default_types_v(),
                decls_view(decls@) == builtin_decls().take(i as int),
            decreases 20 - i,
        {
            let kind = if i < 16 {
                DeclKind::Type(HostTypeId((i + 1) as u64))
            } else {
                DeclKind::RotoType
            };
            let d = Declaration {
                scope: Scope::Module(Vec::new()),
                name: defs[i].0.clone(),
                doc: defs[i].1.clone(),
                kind,
            };
            proof {
                assert(defs[i as int].0@ == default_types_v()[i as int].0);
                assert(path_view(Seq::<String>::empty()) =~= Seq::<Seq<char>>::empty());
                assert(d@ == builtin_decl(i as int));
            }
            let ghost prev = decls@;
            let ghost dd = d@;
            decls.push(d);
            proof {
                assert(decls_view(decls@) =~= decls_view(prev).push(dd));
                assert(builtin_decls().take(i as int + 1) =~= builtin_decls().take(i as int).push(builtin_decl(i as int)));
            }
            i = i + 1;
        }
        let rt = Runtime {
            decls,
            types: Vec::new(),
            regexes: Vec::new(),
            imports: Vec::new(),
            targets: Vec::new(),
        };
        proof {
            assert(builtin_decls().take(20) =~= builtin_decls());
            let ds = rt.dv();
            assert(ds == builtin_decls());
            assert forall|i: int, j: int| 0 <= i < j < ds.len() implies !((#[trigger] ds[i]).scope == (#[trigger] ds[j]).scope
                && ds[i].name == ds[j].name) by {
                assert(builtin_names()[i] != builtin_names()[j]);
            }
            assert forall|i: int, j: int| 0 <= i < j < ds.len() && (#[trigger] ds[i]).kind is Type implies (#[trigger] ds[j]).kind
                != ds[i].kind by {}
            assert(rt.regex_types() =~= Seq::<HostTypeId>::empty());
            assert(rt.imports_v() =~= Seq::<ImportV>::empty());
        }
        rt
    }

    /// Register `items` into this runtime: first the types and modules
    /// that they declare, at any depth, then everything else, in order.
    /// When registration fails, the runtime is left as it was.
    pub fn add<R: Registerable>(&mut self, items: R) -> (res: Result<(), RegistrationError>)
        requires
            old(self).wf(),
        ensures
            final(self).wf(),
            ({
                let lib = items.registered();
                let root = Seq::<Seq<char>>::empty();
                let c = collect(lib, root);
                let ds = old(self).dv() + type_decls(lib, root) + c.decls;
                &&& (res is Ok <==> (registry_ok(
                    ds,
                    old(self).regex_types() + c.regexes,
                    old(self).impl_targets() + c.targets,
                    old(self).imports_v() + c.imports,
                ) && c.impls_ok))
                &&& res is Ok ==> {
                    &&& final(self).dv() == ds
                    &&& final(self).spec_types() == old(self).spec_types() + c.types
                    &&& final(self).regex_types() == old(self).regex_types() + c.regexes
                    &&& final(self).impl_targets() == old(self).impl_targets() + c.targets
                    &&& final(self).imports_v() == old(self).imports_v() + c.imports
                }
                &&& res is Err ==> {
                    &&& final(self).dv() == old(self).dv()
                    &&& final(self).spec_types() == old(self).spec_types()
                    &&& final(self).regex_types() == old(self).regex_types()
                    &&& final(self).impl_targets() == old(self).impl_targets()
                    &&& final(self).imports_v() == old(self).imports_v()
                }
            }),
    {
        let lib = items.into_lib();
        let ghost l = lib.items@;
        let ghost root = Seq::<Seq<char>>::empty();
        let ghost td = type_decls(l, root);
        let ghost c = collect(l, root);
        let ghost o_dv = self.dv();
        let ghost o_decls = self.decls@;
        let ghost o_types = self.types@;
        let ghost o_regexes = self.regexes@;
        let ghost o_imports = self.imports@;
        let ghost o_targets = self.targets@;
        let n_decls = self.decls.len();
        let n_types = self.types.len();
        let n_regexes = self.regexes.len();
        let n_imports = self.imports.len();
        let n_targets = self.targets.len();
        let root_path: Vec<String> = Vec::new();
        proof {
            assert(path_view(root_path@) =~= root);
        }
        let first = self.declare_types(&lib.items, &root_path);
        if first.is_err() {
            self.decls.truncate(n_decls);
            proof {
                assert(self.decls@ == o_decls);
                lemma_distinct_prefix(o_dv + td, c.decls);
            }
            return first;
        }
        proof {
            lemma_type_decls_no_refs(l, root);
            lemma_refs_known_extend(o_dv, td);
            lemma_all_known_extend(o_dv, td, self.regex_types());
            lemma_all_known_extend(o_dv, td, self.impl_targets());
        }
        let second = self.register_items(lib.items, &root_path);
        if second.is_err() {
            self.decls.truncate(n_decls);
            self.types.truncate(n_types);
            self.regexes.truncate(n_regexes);
            self.imports.truncate(n_imports);
            self.targets.truncate(n_targets);
            proof {
                assert(self.decls@ == o_decls);
                assert(self.types@ == o_types);
                assert(self.regexes@ == o_regexes);
                assert(self.imports@ == o_imports);
            }
            return second;
        }
        match self.unresolved_import() {
            Some(k) => {
                let location = self.imports[k].location.duplicate();
                self.decls.truncate(n_decls);
                self.types.truncate(n_types);
                self.regexes.truncate(n_regexes);
                self.imports.truncate(n_imports);
                self.targets.truncate(n_targets);
                proof {
                    assert(self.decls@ == o_decls);
                    assert(self.types@ == o_types);
                    assert(self.regexes@ == o_regexes);
                    assert(self.imports@ == o_imports);
                }
                let message = String::from_str("An import does not resolve to a registered item");
                Err(RegistrationError { message, location })
            },
            None => Ok(()),
        }
    }

    /// A runtime with the built-in types and the items of `items`.
    pub fn from_lib<R: Registerable>(items: R) -> (res: Result<Runtime, RegistrationError>)
        ensures
            ({
                let lib = items.registered();
                let root = Seq::<Seq<char>>::empty();
                let c = collect(lib, root);
                let ds = builtin_decls() + type_decls(lib, root) + c.decls;
                &&& (res is Ok <==> (registry_ok(ds, c.regexes, c.targets, c.imports) && c.impls_ok))
                &&& res matches Ok(rt) ==> {
                    &&& rt.wf()
                    &&& rt.dv() == ds
                    &&& rt.spec_types() == c.types
                    &&& rt.regex_types() == c.regexes
                    &&& rt.impl_targets() == c.targets
                    &&& rt.imports_v() == c.imports
                }
            }),
    {
        let mut rt = Runtime::new();
        let r = rt.add(items);
        proof {
            let lib = items.registered();
            let root = Seq::<Seq<char>>::empty();
            let c = collect(lib, root);
            assert(Seq::<HostTypeId>::empty() + c.regexes =~= c.regexes);
            assert(Seq::<HostTypeId>::empty() + c.targets =~= c.targets);
            assert(Seq::<ImportV>::empty() + c.imports =~= c.imports);
            assert(Seq::<Type>::empty() + c.types =~= c.types);
        }
        match r {
            Ok(()) => Ok(rt),
            Err(e) => Err(e),
        }
    }

    /// The registered host types, in the order of registration.
    pub fn types(&self) -> (res: &Vec<Type>)
        ensures
            res@ == self.spec_types(),
    {
        &self.types
    }

    /// The declarations, in the order they were made.
    pub closed spec fn decl_seq(&self) -> Seq<Declaration> {
        self.decls@
    }

    /// The declarations, in the order they were made.
    pub fn declarations(&self) -> (res: &Vec<Declaration>)
        ensures
            res@ == self.decl_seq(),
            decls_view(res@) == self.dv(),
    {
        &self.decls
    }
}

/// The host type of the built-in type `name`, with the layout that the host
/// gives it; `None` for a name that is not one of the built-in host types.
pub fn primitive_type(name: &str, layout: Layout) -> (res: Option<ResolvedType>)
    ensures
        match res {
            Some(t) => exists|i: int|
                0 <= i < 16 && builtin_names()[i] == name@ && t.type_id == HostTypeId((i + 1) as u64)
                    && #[trigger] builtin_decl(i).kind == KindV::Type(t.type_id) && t.rust_name@ == name@
                    && t.layout == layout && t.description == TypeDescription::Leaf,
            None => forall|i: int| 0 <= i < 16 ==> builtin_names()[i] != name@,
        },
{
    let defs = default_types();
    let key = String::from_str(name);
    proof {
        assert(default_types_v().len() == 20);
        assert(crate::typechecker::types::defs_view(defs@).len() == defs@.len());
    }
    let mut i: usize = 0;
    while i < 16
        invariant
            i <= 16,
            defs@.len() == 20,
            crate::typechecker::types::defs_view(defs@) == default_types_v(),
            key@ == name@,
            forall|j: int| 0 <= j < i ==> builtin_names()[j] != name@,
        decreases 16 - i,
    {
        proof {
            assert(defs[i as int].0@ == builtin_names()[i as int]);
        }
        if defs[i].0 == key {
            let t = ResolvedType {
                type_id: HostTypeId((i + 1) as u64),
                rust_name: key,
                layout,
                description: TypeDescription::Leaf,
            };
            proof {
                assert(builtin_decl(i as int).kind == KindV::Type(t.type_id));
            }
            return Some(t);
        }
        i = i + 1;
    }
    None
}

/// A copy of `ids`.
fn copy_ids(ids: &Vec<HostType>) -> (res: Vec<HostType>)
    ensures
        res@ == ids@,
{
    let mut out: Vec<HostType> = Vec::new();
    let mut i: usize = 0;
    while i < ids.len()
        invariant
            i <= ids@.len(),
            out@ == ids@.take(i as int),
        decreases ids@.len() - i,
    {
        out.push(ids[i]);
        i = i + 1;
        assert(out@ =~= ids@.take(i as int));
    }
    assert(ids@.take(i as int) =~= ids@);
    out
}

/// The host types of the fields `fields`.
fn field_host_types(fields: &Vec<ResolvedType>) -> (res: Vec<HostType>)
    ensures
        res@ == field_refs(fields@),
{
    let mut out: Vec<HostType> = Vec::new();
    let mut i: usize = 0;
    while i < fields.len()
        invariant
            i <= fields@.len(),
            out@ == field_refs(fields@).take(i as int),
        decreases fields@.len() - i,
    {
        out.push(fields[i].host_type());
        i = i + 1;
        assert(out@ =~= field_refs(fields@).take(i as int));
    }
    assert(field_refs(fields@).take(i as int) =~= field_refs(fields@));
    out
}

/// The host types that the declaration `d` refers to.
fn decl_refs(d: &Declaration) -> (res: Vec<HostType>)
    ensures
        res@ == d@.refs,
{
    match &d.kind {
        DeclKind::Constant(c) => {
            let mut v: Vec<HostType> = Vec::new();
            v.push(c.ty);
            assert(v@ =~= seq![c.ty]);
            v
        },
        DeclKind::Function(f, _) => {
            let mut v = copy_ids(&f.func.parameter_types);
            match f.func.return_type {
                Some(r) => v.push(r),
                None => {},
            }
            v
        },
        DeclKind::Variant(ids) => copy_ids(ids),
        _ => Vec::new(),
    }
}

/// A copy of `path`.
fn clone_path(path: &Vec<String>) -> (res: Vec<String>)
    ensures
        path_view(res@) == path_view(path@),
{
    let mut out: Vec<String> = Vec::new();
    let mut i: usize = 0;
    while i < path.len()
        invariant
            i <= path@.len(),
            out@.len() == i,
            forall|k: int| 0 <= k < i ==> (#[trigger] out@[k])@ == path@[k]@,
        decreases path@.len() - i,
    {
        out.push(path[i].clone());
        i = i + 1;
    }
    assert(path_view(out@) =~= path_view(path@));
    out
}

/// The path of the module `name` within the module `path`.
fn child_path(path: &Vec<String>, name: &String) -> (res: Vec<String>)
    ensures
        path_view(res@) == path_view(path@).push(name@),
{
    let mut out = clone_path(path);
    let ghost before = out@;
    out.push(name.clone());
    assert(path_view(out@) =~= path_view(before).push(name@));
    out
}

} // verus!
