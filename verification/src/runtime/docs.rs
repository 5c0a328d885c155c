//! Documentation of the items registered into a runtime, as Markdown files
//! for Sphinx.

use crate::runtime::items::{Function, HostType, TypeDescription};
use crate::runtime::registry::{Declaration, DeclKind, Runtime, Scope, ScopeV, decls_view, path_view};
use crate::typechecker::types::HostTypeId;
use vstd::prelude::*;
use vstd::string::*;
use vstd::utf8::*;

verus! {

broadcast use vstd::std_specs::vec::group_vec_axioms;

/// The documentation of a function or a method.
#[derive(Debug)]
pub struct DocFn {
    pub receiver: Option<String>,
    pub ident: String,
    pub params: Vec<(String, String)>,
    pub ret: Option<String>,
    pub doc: String,
}

/// The documentation of a constant.
#[derive(Debug)]
pub struct DocConst {
    pub ident: String,
    pub ty: String,
    pub doc: String,
}

/// The documentation of an enum variant.
#[derive(Debug)]
pub struct DocVariant {
    pub ident: String,
    pub fields: Vec<String>,
    pub doc: String,
}

/// The documentation of a type and of the items in its scope.
#[derive(Debug)]
pub struct DocTy {
    pub ident: String,
    pub doc: String,
    pub items: Vec<DocItem>,
}

/// The documentation of a module and of the items in it.
#[derive(Debug)]
pub struct DocMod {
    pub ident: String,
    pub doc: String,
    pub items: Vec<DocItem>,
}

/// A documented item.
#[derive(Debug)]
pub enum DocItem {
    Const(DocConst),
    Fn(DocFn),
    Ty(DocTy),
    Mod(DocMod),
    Variant(DocVariant),
}

/// The mathematical view of a documented item.
pub ghost enum DocItemV {
    Const { ident: Seq<char>, ty: Seq<char>, doc: Seq<char> },
    Fn {
        receiver: Option<Seq<char>>,
        ident: Seq<char>,
        params: Seq<(Seq<char>, Seq<char>)>,
        ret: Option<Seq<char>>,
        doc: Seq<char>,
    },
    Ty { ident: Seq<char>, doc: Seq<char>, items: Seq<DocItemV> },
    Mod { ident: Seq<char>, doc: Seq<char>, items: Seq<DocItemV> },
    Variant { ident: Seq<char>, fields: Seq<Seq<char>>, doc: Seq<char> },
}

pub open spec fn opt_view(o: Option<String>) -> Option<Seq<char>> {
    match o {
        Some(s) => Some(s@),
        None => None,
    }
}

pub open spec fn texts(s: Seq<String>) -> Seq<Seq<char>> {
    Seq::new(s.len(), |i: int| s[i]@)
}

pub open spec fn pairs_view(s: Seq<(String, String)>) -> Seq<(Seq<char>, Seq<char>)> {
    Seq::new(s.len(), |i: int| (s[i].0@, s[i].1@))
}

/// The view of a documented item.
pub open spec fn doc_item_v(it: DocItem) -> DocItemV
    decreases it, 1int,
{
    match it {
        DocItem::Const(c) => DocItemV::Const { ident: c.ident@, ty: c.ty@, doc: c.doc@ },
        DocItem::Fn(f) => DocItemV::Fn {
            receiver: opt_view(f.receiver),
            ident: f.ident@,
            params: pairs_view(f.params@),
            ret: opt_view(f.ret),
            doc: f.doc@,
        },
        DocItem::Ty(t) => {
            proof {
                assert(decreases_to!(it => t));
                assert(decreases_to!(t => t.items));
                assert(decreases_to!(t.items => t.items@));
            }
            DocItemV::Ty { ident: t.ident@, doc: t.doc@, items: doc_items_v(t.items@) }
        },
        DocItem::Mod(m) => {
            proof {
                assert(decreases_to!(it => m));
                assert(decreases_to!(m => m.items));
                assert(decreases_to!(m.items => m.items@));
            }
            DocItemV::Mod { ident: m.ident@, doc: m.doc@, items: doc_items_v(m.items@) }
        },
        DocItem::Variant(v) => DocItemV::Variant { ident: v.ident@, fields: texts(v.fields@), doc: v.doc@ },
    }
}

/// The views of documented items.
pub open spec fn doc_items_v(s: Seq<DocItem>) -> Seq<DocItemV>
    decreases s, 0int,
{
    if s.len() == 0 {
        Seq::empty()
    } else {
        seq![doc_item_v(s[0])] + doc_items_v(s.drop_first())
    }
}

// ---------------------------------------------------------------------
// The documentation that a registry gives

/// The name of the first declaration of the host type `id` from position
/// `i` on, or `?` if there is none.
pub open spec fn name_of_type_from(ds: Seq<Declaration>, id: HostTypeId, i: int) -> Seq<char>
    decreases ds.len() - i,
{
    if i < 0 || i >= ds.len() {
        "?"@
    } else if ds[i].kind matches DeclKind::Type(other) && other == id {
        ds[i].name@
    } else {
        name_of_type_from(ds, id, i + 1)
    }
}

/// How a type that an item refers to is displayed: by its name, within
/// `Option[..]`, `List[..]`, `Verdict[.., ..]` or `Result[.., ..]` where it
/// is one of those.
pub open spec fn type_display(ds: Seq<Declaration>, r: HostType) -> Seq<char> {
    match r.description {
        TypeDescription::Option(a) => "Option["@ + name_of_type_from(ds, a, 0) + "]"@,
        TypeDescription::List(a) => "List["@ + name_of_type_from(ds, a, 0) + "]"@,
        TypeDescription::Verdict(a, b) => "Verdict["@ + name_of_type_from(ds, a, 0) + ", "@ + name_of_type_from(ds, b, 0) + "]"@,
        TypeDescription::Result(a, b) => "Result["@ + name_of_type_from(ds, a, 0) + ", "@ + name_of_type_from(ds, b, 0) + "]"@,
        _ => name_of_type_from(ds, r.id, 0),
    }
}

/// The display of an option, list, verdict or result names its constructor
/// around the displays of the types it holds, each as it displays on its
/// own.
pub proof fn law_wrapped_types_show_their_constructor(ds: Seq<Declaration>, id: HostTypeId, a: HostTypeId, b: HostTypeId)
    ensures
        ({
            let leaf = |x: HostTypeId| type_display(ds, HostType { id: x, description: TypeDescription::Leaf });
            &&& type_display(ds, HostType { id, description: TypeDescription::Option(a) }) == "Option["@ + leaf(a)
                + "]"@
            &&& type_display(ds, HostType { id, description: TypeDescription::List(a) }) == "List["@ + leaf(a) + "]"@
            &&& type_display(ds, HostType { id, description: TypeDescription::Verdict(a, b) }) == "Verdict["@
                + leaf(a) + ", "@ + leaf(b) + "]"@
            &&& type_display(ds, HostType { id, description: TypeDescription::Result(a, b) }) == "Result["@
                + leaf(a) + ", "@ + leaf(b) + "]"@
            &&& type_display(ds, HostType { id, description: TypeDescription::Option(a) }) != leaf(a)
        }),
{
    let x = type_display(ds, HostType { id, description: TypeDescription::Option(a) });
    let y = type_display(ds, HostType { id: a, description: TypeDescription::Leaf });
    reveal_strlit("Option[");
    reveal_strlit("]");
    assert(x.len() == y.len() + 8);
}

/// The parameters of a function, each with the display of its type.
pub open spec fn params_doc(ds: Seq<Declaration>, f: Function) -> Seq<(Seq<char>, Seq<char>)> {
    let n = if f.params@.len() <= f.func.parameter_types@.len() {
        f.params@.len()
    } else {
        f.func.parameter_types@.len()
    };
    Seq::new(n, |i: int| (f.params@[i]@, type_display(ds, f.func.parameter_types@[i])))
}

/// The documentation of a declaration; `receiver` is the name of the type
/// in whose scope it is, if any, and `fuel` bounds how deep modules are
/// followed.
pub open spec fn decl_doc(ds: Seq<Declaration>, d: Declaration, receiver: Option<Seq<char>>, fuel: nat) -> DocItemV
    decreases fuel, 0int,
{
    match d.kind {
        DeclKind::Type(id) => DocItemV::Ty {
            ident: d.name@,
            doc: d.doc@,
            items: if fuel == 0 {
                Seq::empty()
            } else {
                items_from(ds, ScopeV::Type(id), Some(d.name@), (fuel - 1) as nat, 0)
            },
        },
        DeclKind::RotoType => DocItemV::Ty { ident: d.name@, doc: d.doc@, items: Seq::empty() },
        DeclKind::Module => DocItemV::Mod {
            ident: d.name@,
            doc: d.doc@,
            items: if fuel == 0 {
                Seq::empty()
            } else {
                match d.scope@ {
                    ScopeV::Module(p) => items_from(ds, ScopeV::Module(p.push(d.name@)), None, (fuel - 1) as nat, 0),
                    ScopeV::Type(_) => Seq::empty(),
                }
            },
        },
        DeclKind::Constant(c) => DocItemV::Const { ident: d.name@, ty: type_display(ds, c.ty), doc: d.doc@ },
        DeclKind::Function(f, _) => DocItemV::Fn {
            receiver,
            ident: d.name@,
            params: params_doc(ds, f),
            ret: match f.func.return_type {
                Some(r) => Some(type_display(ds, r)),
                None => None,
            },
            doc: d.doc@,
        },
        DeclKind::Variant(fields) => DocItemV::Variant {
            ident: d.name@,
            fields: Seq::new(fields@.len(), |k: int| type_display(ds, fields@[k])),
            doc: d.doc@,
        },
    }
}

/// The documentation of the declarations in `scope`, from position `i` on,
/// in order.
pub open spec fn items_from(ds: Seq<Declaration>, scope: ScopeV, receiver: Option<Seq<char>>, fuel: nat, i: int) -> Seq<DocItemV>
    decreases fuel, ds.len() - i,
{
    if i < 0 || i >= ds.len() {
        Seq::empty()
    } else if ds[i].scope@ == scope {
        seq![decl_doc(ds, ds[i], receiver, fuel)] + items_from(ds, scope, receiver, fuel, i + 1)
    } else {
        items_from(ds, scope, receiver, fuel, i + 1)
    }
}

/// The name of the first declaration of the host type `id`.
fn name_of_type(ds: &Vec<Declaration>, id: HostTypeId) -> (res: String)
    ensures
        res@ == name_of_type_from(ds@, id, 0),
{
    let mut i: usize = 0;
    while i < ds.len()
        invariant
            i <= ds@.len(),
            name_of_type_from(ds@, id, 0) == name_of_type_from(ds@, id, i as int),
        decreases ds@.len() - i,
    {
        match &ds[i].kind {
            DeclKind::Type(other) => {
                if other.0 == id.0 {
                    return ds[i].name.clone();
                }
            },
            _ => {},
        }
        i = i + 1;
    }
    String::from_str("?")
}

/// How the type `r` is displayed.
fn display(ds: &Vec<Declaration>, r: HostType) -> (res: String)
    ensures
        res@ == type_display(ds@, r),
{
    match r.description {
        TypeDescription::Option(a) => {
            let mut s = String::from_str("Option[");
            s.append(name_of_type(ds, a).as_str());
            s.append("]");
            s
        },
        TypeDescription::List(a) => {
            let mut s = String::from_str("List[");
            s.append(name_of_type(ds, a).as_str());
            s.append("]");
            s
        },
        TypeDescription::Verdict(a, b) => {
            let mut s = String::from_str("Verdict[");
            s.append(name_of_type(ds, a).as_str());
            s.append(", ");
            s.append(name_of_type(ds, b).as_str());
            s.append("]");
            s
        },
        TypeDescription::Result(a, b) => {
            let mut s = String::from_str("Result[");
            s.append(name_of_type(ds, a).as_str());
            s.append(", ");
            s.append(name_of_type(ds, b).as_str());
            s.append("]");
            s
        },
        _ => name_of_type(ds, r.id),
    }
}

/// The documentation of one declaration.
fn decl_item(ds: &Vec<Declaration>, i: usize, receiver: &Option<String>, fuel: usize) -> (res: DocItem)
    requires
        i < ds@.len(),
    ensures
        doc_item_v(res) == decl_doc(ds@, ds@[i as int], opt_view(*receiver), fuel as nat),
    decreases fuel, 0int,
{
    let d = &ds[i];
    match &d.kind {
        DeclKind::Type(id) => {
            let items = if fuel == 0 {
                Vec::new()
            } else {
                scope_items(ds, &Scope::Type(*id), &Some(d.name.clone()), fuel - 1)
            };
            let t = DocTy { ident: d.name.clone(), doc: d.doc.clone(), items };
            proof {
                assert(doc_items_v(Seq::<DocItem>::empty()) == Seq::<DocItemV>::empty());
            }
            DocItem::Ty(t)
        },
        DeclKind::RotoType => {
            let t = DocTy { ident: d.name.clone(), doc: d.doc.clone(), items: Vec::new() };
            proof {
                assert(doc_items_v(Seq::<DocItem>::empty()) == Seq::<DocItemV>::empty());
            }
            DocItem::Ty(t)
        },
        DeclKind::Module => {
            let items = if fuel == 0 {
                Vec::new()
            } else {
                match &d.scope {
                    Scope::Module(p) => {
                        let mut q = copy_path(p);
                        q.push(d.name.clone());
                        proof {
                            assert(path_view(q@) =~= path_view(p@).push(d.name@));
                        }
                        scope_items(ds, &Scope::Module(q), &None, fuel - 1)
                    },
                    Scope::Type(_) => Vec::new(),
                }
            };
            let m = DocMod { ident: d.name.clone(), doc: d.doc.clone(), items };
            proof {
                assert(doc_items_v(Seq::<DocItem>::empty()) == Seq::<DocItemV>::empty());
            }
            DocItem::Mod(m)
        },
        DeclKind::Constant(c) => {
            DocItem::Const(DocConst { ident: d.name.clone(), ty: display(ds, c.ty), doc: d.doc.clone() })
        },
        DeclKind::Function(f, _) => {
            let n = if f.params.len() <= f.func.parameter_types.len() {
                f.params.len()
            } else {
                f.func.parameter_types.len()
            };
            let mut params: Vec<(String, String)> = Vec::new();
            let mut k: usize = 0;
            while k < n
                invariant
                    k <= n,
                    n == params_doc(ds@, *f).len(),
                    n <= f.params@.len(),
                    n <= f.func.parameter_types@.len(),
                    params@.len() == k,
                    forall|j: int| 0 <= j < k ==> (#[trigger] params@[j]).0@ == f.params@[j]@ && params@[j].1@ == type_display(ds@, f.func.parameter_types@[j]),
                decreases n - k,
            {
                params.push((f.params[k].clone(), display(ds, f.func.parameter_types[k])));
                k = k + 1;
            }
            proof {
                assert(pairs_view(params@) =~= params_doc(ds@, *f));
            }
            let ret = match f.func.return_type {
                Some(r) => Some(display(ds, r)),
                None => None,
            };
            let receiver = match receiver {
                Some(r) => Some(r.clone()),
                None => None,
            };
            DocItem::Fn(DocFn { receiver, ident: d.name.clone(), params, ret, doc: d.doc.clone() })
        },
        DeclKind::Variant(fields) => {
            let mut shown: Vec<String> = Vec::new();
            let mut k: usize = 0;
            while k < fields.len()
                invariant
                    k <= fields@.len(),
                    shown@.len() == k,
                    forall|j: int| 0 <= j < k ==> (#[trigger] shown@[j])@ == type_display(ds@, fields@[j]),
                decreases fields@.len() - k,
            {
                shown.push(display(ds, fields[k]));
                k = k + 1;
            }
            proof {
                assert(texts(shown@) =~= Seq::new(fields@.len(), |j: int| type_display(ds@, fields@[j])));
            }
            DocItem::Variant(DocVariant { ident: d.name.clone(), fields: shown, doc: d.doc.clone() })
        },
    }
}

/// The documentation of the declarations in `scope`, in order.
fn scope_items(ds: &Vec<Declaration>, scope: &Scope, receiver: &Option<String>, fuel: usize) -> (res: Vec<DocItem>)
    ensures
        doc_items_v(res@) == items_from(ds@, scope@, opt_view(*receiver), fuel as nat, 0),
    decreases fuel, ds@.len() + 1,
{
    let mut out: Vec<DocItem> = Vec::new();
    let mut i: usize = 0;
    proof {
        assert(doc_items_v(out@) == Seq::<DocItemV>::empty());
    }
    while i < ds.len()
        invariant
            i <= ds@.len(),
            doc_items_v(out@) + items_from(ds@, scope@, opt_view(*receiver), fuel as nat, i as int)
                == items_from(ds@, scope@, opt_view(*receiver), fuel as nat, 0),
        decreases ds@.len() - i,
    {
        if same_scope(&ds[i].scope, scope) {
            let item = decl_item(ds, i, receiver, fuel);
            let ghost before = out@;
            out.push(item);
            proof {
                lemma_doc_items_push(before, item);
                assert(doc_items_v(out@) + items_from(ds@, scope@, opt_view(*receiver), fuel as nat, i as int + 1)
                    =~= doc_items_v(before) + items_from(ds@, scope@, opt_view(*receiver), fuel as nat, i as int));
            }
        }
        i = i + 1;
    }
    proof {
        assert(doc_items_v(out@) + Seq::<DocItemV>::empty() =~= doc_items_v(out@));
    }
    out
}

pub proof fn lemma_doc_items_push(s: Seq<DocItem>, x: DocItem)
    ensures
        doc_items_v(s.push(x)) == doc_items_v(s).push(doc_item_v(x)),
    decreases s.len(),
{
    if s.len() == 0 {
        assert(s.push(x).drop_first() =~= Seq::<DocItem>::empty());
        assert(doc_items_v(Seq::<DocItem>::empty()) == Seq::<DocItemV>::empty());
        assert(doc_items_v(s.push(x)) =~= seq![doc_item_v(x)]);
    } else {
        assert(s.push(x).drop_first() =~= s.drop_first().push(x));
        lemma_doc_items_push(s.drop_first(), x);
        assert(doc_items_v(s.push(x)) =~= doc_items_v(s).push(doc_item_v(x)));
    }
}

fn copy_path(p: &Vec<String>) -> (res: Vec<String>)
    ensures
        path_view(res@) == path_view(p@),
{
    let mut out: Vec<String> = Vec::new();
    let mut i: usize = 0;
    while i < p.len()
        invariant
            i <= p@.len(),
            out@.len() == i,
            forall|k: int| 0 <= k < i ==> (#[trigger] out@[k])@ == p@[k]@,
        decreases p@.len() - i,
    {
        out.push(p[i].clone());
        i = i + 1;
    }
    assert(path_view(out@) =~= path_view(p@));
    out
}

/// Whether two scopes are the same.
fn same_scope(a: &Scope, b: &Scope) -> (res: bool)
    ensures
        res == (a@ == b@),
{
    Runtime::same_scope(a, b)
}

// ---------------------------------------------------------------------
// Ordering documented items

// Documented items are ordered as their declarations order them: by kind,
// then field by field in the order in which the fields are declared;
// strings byte by byte, a `None` before any `Some`, and sequences element by
// element, a sequence before any longer one that it begins. An item is
// compared through its sort key: the fields' keys one after the other,
// where a string's key is its bytes each raised by one and then a zero, an
// option's is a zero, or a one and its value's key, and a sequence's is a
// one and the key of each element, then a zero. No key of a field is a
// proper prefix of another key of that field, so keys compare as the items
// do.

/// Whether `a` comes before `b` in lexicographic order.
pub open spec fn keys_lt(a: Seq<u32>, b: Seq<u32>) -> bool
    decreases a.len(),
{
    if a.len() == 0 {
        b.len() > 0
    } else if b.len() == 0 {
        false
    } else if a[0] < b[0] {
        true
    } else if a[0] > b[0] {
        false
    } else {
        keys_lt(a.drop_first(), b.drop_first())
    }
}

/// The sort key of a string.
pub open spec fn str_key(s: Seq<char>) -> Seq<u32> {
    let b = encode_utf8(s);
    Seq::new(b.len(), |i: int| (b[i] + 1) as u32).push(0u32)
}

/// The sort key of an optional string.
pub open spec fn opt_key(o: Option<Seq<char>>) -> Seq<u32> {
    match o {
        None => seq![0u32],
        Some(s) => seq![1u32] + str_key(s),
    }
}

/// The sort key of a sequence of strings.
pub open spec fn strs_key(s: Seq<Seq<char>>) -> Seq<u32>
    decreases s.len(),
{
    if s.len() == 0 {
        seq![0u32]
    } else {
        seq![1u32] + str_key(s[0]) + strs_key(s.drop_first())
    }
}

/// The sort key of a sequence of pairs of strings.
pub open spec fn pairs_key(s: Seq<(Seq<char>, Seq<char>)>) -> Seq<u32>
    decreases s.len(),
{
    if s.len() == 0 {
        seq![0u32]
    } else {
        seq![1u32] + str_key(s[0].0) + str_key(s[0].1) + pairs_key(s.drop_first())
    }
}

/// The sort key of a documented item: its kind, then its fields' keys in
/// the order in which they are declared.
#[verifier::opaque]
pub open spec fn item_key(v: DocItemV) -> Seq<u32>
    decreases v, 1int,
{
    match v {
        DocItemV::Const { ident, ty, doc } => seq![0u32] + str_key(ident) + str_key(ty) + str_key(doc),
        DocItemV::Fn { receiver, ident, params, ret, doc } => seq![1u32] + opt_key(receiver) + str_key(ident)
            + pairs_key(params) + opt_key(ret) + str_key(doc),
        DocItemV::Ty { ident, doc, items } => seq![2u32] + str_key(ident) + str_key(doc) + items_key(items),
        DocItemV::Mod { ident, doc, items } => seq![3u32] + str_key(ident) + str_key(doc) + items_key(items),
        DocItemV::Variant { ident, fields, doc } => seq![4u32] + str_key(ident) + strs_key(fields) + str_key(doc),
    }
}

/// The sort key of a sequence of documented items.
pub open spec fn items_key(s: Seq<DocItemV>) -> Seq<u32>
    decreases s, 0int,
{
    if s.len() == 0 {
        seq![0u32]
    } else {
        let rest = s.subrange(1, s.len() as int);
        proof {
            assert(decreases_to!(s => s[0]));
            assert(decreases_to!(s => rest));
        }
        seq![1u32] + item_key(s[0]) + items_key(rest)
    }
}

/// The name of a documented item.
pub open spec fn ident_v(v: DocItemV) -> Seq<char> {
    match v {
        DocItemV::Const { ident, .. } => ident,
        DocItemV::Fn { ident, .. } => ident,
        DocItemV::Ty { ident, .. } => ident,
        DocItemV::Mod { ident, .. } => ident,
        DocItemV::Variant { ident, .. } => ident,
    }
}

fn ident_of(it: &DocItem) -> (res: &String)
    ensures
        res@ == ident_v(doc_item_v(*it)),
{
    match it {
        DocItem::Const(c) => &c.ident,
        DocItem::Fn(f) => &f.ident,
        DocItem::Ty(t) => &t.ident,
        DocItem::Mod(m) => &m.ident,
        DocItem::Variant(v) => &v.ident,
    }
}

/// `x` comes before `y`.
pub open spec fn before(x: DocItemV, y: DocItemV) -> bool {
    keys_lt(item_key(x), item_key(y))
}

/// The position from `i` on at which `x` goes into the ordered `t`: before
/// the first item that it comes before.
pub open spec fn insert_pos(t: Seq<DocItemV>, x: DocItemV, i: int) -> int
    decreases t.len() - i,
{
    if i < 0 || i >= t.len() {
        t.len() as int
    } else if before(x, t[i]) {
        i
    } else {
        insert_pos(t, x, i + 1)
    }
}

/// `s` in order; items that compare equal keep their order.
pub open spec fn in_order(s: Seq<DocItemV>) -> Seq<DocItemV>
    decreases s.len(),
{
    if s.len() == 0 {
        Seq::empty()
    } else {
        let t = in_order(s.drop_last());
        t.insert(insert_pos(t, s.last(), 0), s.last())
    }
}

pub proof fn lemma_keys_lt_asym(a: Seq<u32>, b: Seq<u32>)
    ensures
        keys_lt(a, b) ==> !keys_lt(b, a),
    decreases a.len(),
{
    if a.len() > 0 && b.len() > 0 && a[0] == b[0] {
        lemma_keys_lt_asym(a.drop_first(), b.drop_first());
    }
}

pub proof fn lemma_keys_lt_trans(a: Seq<u32>, b: Seq<u32>, c: Seq<u32>)
    ensures
        keys_lt(a, b) && keys_lt(b, c) ==> keys_lt(a, c),
    decreases a.len(),
{
    if a.len() > 0 && b.len() > 0 && c.len() > 0 && a[0] == b[0] && b[0] == c[0] {
        lemma_keys_lt_trans(a.drop_first(), b.drop_first(), c.drop_first());
    }
}

/// The position at which an item goes lies at or after `i`; the items
/// before it do not come after the item, and the one at it does.
pub proof fn lemma_insert_pos(t: Seq<DocItemV>, x: DocItemV, i: int)
    requires
        0 <= i <= t.len(),
    ensures
        i <= insert_pos(t, x, i) <= t.len(),
        forall|k: int| i <= k < insert_pos(t, x, i) ==> !before(x, #[trigger] t[k]),
        insert_pos(t, x, i) < t.len() ==> before(x, t[insert_pos(t, x, i)]),
    decreases t.len() - i,
{
    if i < t.len() && !before(x, t[i]) {
        lemma_insert_pos(t, x, i + 1);
    }
}

/// Putting items in order orders them, keeps every one of them, and adds
/// none.
pub proof fn law_in_order_orders(s: Seq<DocItemV>)
    ensures
        in_order(s).len() == s.len(),
        in_order(s).to_multiset() == s.to_multiset(),
        forall|i: int, j: int| 0 <= i < j < s.len() ==> !before(#[trigger] in_order(s)[j], #[trigger] in_order(s)[i]),
    decreases s.len(),
{
    broadcast use vstd::seq_lib::to_multiset_build, vstd::seq_lib::to_multiset_insert;

    if s.len() == 0 {
        assert(in_order(s) =~= s);
    } else {
        let t = in_order(s.drop_last());
        let x = s.last();
        law_in_order_orders(s.drop_last());
        lemma_insert_pos(t, x, 0);
        let p = insert_pos(t, x, 0);
        let u = t.insert(p, x);
        assert(in_order(s) == u);
        assert(s =~= s.drop_last().push(x));
        assert(u.to_multiset() == t.to_multiset().insert(x));
        assert(s.drop_last().push(x).to_multiset() == s.drop_last().to_multiset().insert(x));
        assert forall|i: int, j: int| 0 <= i < j < u.len() implies !before(#[trigger] u[j], #[trigger] u[i]) by {
            if j < p {
                assert(u[i] == t[i] && u[j] == t[j]);
            } else if j == p {
                assert(u[j] == x && u[i] == t[i]);
            } else if i < p {
                assert(u[i] == t[i] && u[j] == t[j - 1]);
            } else if i == p {
                assert(u[i] == x && u[j] == t[j - 1]);
                if before(u[j], u[i]) {
                    assert(before(x, t[p]));
                    lemma_keys_lt_trans(item_key(t[j - 1]), item_key(x), item_key(t[p]));
                    if j - 1 == p {
                        lemma_keys_lt_asym(item_key(x), item_key(t[p]));
                    }
                }
            } else {
                assert(u[i] == t[i - 1] && u[j] == t[j - 1]);
            }
        }
    }
}

/// The kinds of documented items.
pub open spec fn kind_of(v: DocItemV) -> int {
    match v {
        DocItemV::Const { .. } => 0,
        DocItemV::Fn { .. } => 1,
        DocItemV::Ty { .. } => 2,
        DocItemV::Mod { .. } => 3,
        DocItemV::Variant { .. } => 4,
    }
}

/// The items of `s` of kind `k`, in order.
pub open spec fn of_kind(s: Seq<DocItemV>, k: int) -> Seq<DocItemV>
    decreases s.len(),
{
    if s.len() == 0 {
        Seq::empty()
    } else if kind_of(s.last()) == k {
        of_kind(s.drop_last(), k).push(s.last())
    } else {
        of_kind(s.drop_last(), k)
    }
}

/// The items of kind `k` of `s`, in order.
pub open spec fn sorted_kind(s: Seq<DocItemV>, k: int) -> Seq<DocItemV> {
    in_order(of_kind(s, k))
}

/// The items of a scope split by kind, each kind in order.
pub struct SplitDocItems<'a> {
    pub functions: Vec<&'a DocItem>,
    pub constants: Vec<&'a DocItem>,
    pub types: Vec<&'a DocItem>,
    pub modules: Vec<&'a DocItem>,
    pub variants: Vec<&'a DocItem>,
}

/// The views of referenced items.
pub open spec fn refs_v(v: Seq<&DocItem>) -> Seq<DocItemV> {
    Seq::new(v.len(), |i: int| doc_item_v(*v[i]))
}

/// The views of documented items, one by one.
pub proof fn lemma_doc_items_index(s: Seq<DocItem>)
    ensures
        doc_items_v(s).len() == s.len(),
        forall|i: int| 0 <= i < s.len() ==> #[trigger] doc_items_v(s)[i] == doc_item_v(s[i]),
    decreases s.len(),
{
    if s.len() > 0 {
        lemma_doc_items_index(s.drop_first());
        assert forall|i: int| 0 <= i < s.len() implies #[trigger] doc_items_v(s)[i] == doc_item_v(s[i]) by {
            if i > 0 {
                assert(s.drop_first()[i - 1] == s[i]);
            }
        }
    }
}

/// Append the sort key of a string.
fn push_str_key(k: &mut Vec<u32>, s: &str)
    ensures
        final(k)@ == old(k)@ + str_key(s@),
{
    let b = s.as_bytes();
    let mut i: usize = 0;
    while i < b.len()
        invariant
            i <= b@.len(),
            b@ == encode_utf8(s@),
            k@ == old(k)@ + Seq::new(i as nat, |j: int| (b@[j] + 1) as u32),
        decreases b@.len() - i,
    {
        k.push((b[i] as u32) + 1);
        proof {
            assert(k@ =~= old(k)@ + Seq::new(i as nat + 1, |j: int| (b@[j] + 1) as u32));
        }
        i = i + 1;
    }
    k.push(0);
    proof {
        assert(k@ =~= old(k)@ + str_key(s@));
    }
}

/// Append the sort key of an optional string.
fn push_opt_key(k: &mut Vec<u32>, o: &Option<String>)
    ensures
        final(k)@ == old(k)@ + opt_key(opt_view(*o)),
{
    match o {
        None => {
            k.push(0);
            proof {
                assert(k@ =~= old(k)@ + opt_key(opt_view(*o)));
            }
        },
        Some(s) => {
            k.push(1);
            let ghost mid = k@;
            push_str_key(k, s.as_str());
            proof {
                assert(k@ =~= old(k)@ + opt_key(opt_view(*o)));
            }
        },
    }
}

/// Append the sort key of the strings `v`.
fn push_strs_key(k: &mut Vec<u32>, v: &Vec<String>)
    ensures
        final(k)@ == old(k)@ + strs_key(texts(v@)),
{
    let ghost all = texts(v@);
    let mut i: usize = 0;
    proof {
        assert(all.skip(0) =~= all);
        assert(k@ + strs_key(all.skip(0)) =~= old(k)@ + strs_key(all));
    }
    while i < v.len()
        invariant
            i <= v@.len(),
            all == texts(v@),
            k@ + strs_key(all.skip(i as int)) == old(k)@ + strs_key(all),
        decreases v@.len() - i,
    {
        let ghost before = k@;
        k.push(1);
        push_str_key(k, v[i].as_str());
        proof {
            assert(all.skip(i as int).drop_first() =~= all.skip(i as int + 1));
            assert(all.skip(i as int)[0] == v@[i as int]@);
            assert(k@ + strs_key(all.skip(i as int + 1)) =~= before + strs_key(all.skip(i as int)));
        }
        i = i + 1;
    }
    k.push(0);
    proof {
        assert(all.skip(i as int) =~= Seq::<Seq<char>>::empty());
        assert(k@ =~= old(k)@ + strs_key(all));
    }
}

/// Append the sort key of the pairs of strings `v`.
fn push_pairs_key(k: &mut Vec<u32>, v: &Vec<(String, String)>)
    ensures
        final(k)@ == old(k)@ + pairs_key(pairs_view(v@)),
{
    let ghost all = pairs_view(v@);
    let mut i: usize = 0;
    proof {
        assert(all.skip(0) =~= all);
        assert(k@ + pairs_key(all.skip(0)) =~= old(k)@ + pairs_key(all));
    }
    while i < v.len()
        invariant
            i <= v@.len(),
            all == pairs_view(v@),
            k@ + pairs_key(all.skip(i as int)) == old(k)@ + pairs_key(all),
        decreases v@.len() - i,
    {
        let ghost before = k@;
        k.push(1);
        push_str_key(k, v[i].0.as_str());
        push_str_key(k, v[i].1.as_str());
        proof {
            assert(all.skip(i as int).drop_first() =~= all.skip(i as int + 1));
            assert(all.skip(i as int)[0] == (v@[i as int].0@, v@[i as int].1@));
            assert(k@ + pairs_key(all.skip(i as int + 1)) =~= before + pairs_key(all.skip(i as int)));
        }
        i = i + 1;
    }
    k.push(0);
    proof {
        assert(all.skip(i as int) =~= Seq::<(Seq<char>, Seq<char>)>::empty());
        assert(k@ =~= old(k)@ + pairs_key(all));
    }
}

/// Append the sort key of the documented items `items`.
fn push_items_key(k: &mut Vec<u32>, items: &Vec<DocItem>)
    ensures
        final(k)@ == old(k)@ + items_key(doc_items_v(items@)),
    decreases items@, 0int,
{
    let ghost all = doc_items_v(items@);
    proof {
        lemma_doc_items_index(items@);
    }
    let mut i: usize = 0;
    proof {
        assert(all.skip(0) =~= all);
        assert(k@ + items_key(all.skip(0)) =~= old(k)@ + items_key(all));
    }
    while i < items.len()
        invariant
            i <= items@.len(),
            all == doc_items_v(items@),
            all.len() == items@.len(),
            forall|j: int| 0 <= j < items@.len() ==> #[trigger] all[j] == doc_item_v(items@[j]),
            k@ + items_key(all.skip(i as int)) == old(k)@ + items_key(all),
        decreases items@.len() - i,
    {
        let ghost before = k@;
        k.push(1);
        proof {
            assert(decreases_to!(items@ => items@[i as int]));
        }
        push_item_key(k, &items[i]);
        proof {
            let rest = all.skip(i as int);
            assert(rest.subrange(1, rest.len() as int) =~= all.skip(i as int + 1));
            reveal(item_key);
            assert(rest[0] == doc_item_v(items@[i as int]));
            assert(k@ + items_key(all.skip(i as int + 1)) =~= before + items_key(rest));
        }
        i = i + 1;
    }
    k.push(0);
    proof {
        assert(all.skip(i as int) =~= Seq::<DocItemV>::empty());
        assert(k@ =~= old(k)@ + items_key(all));
    }
}

/// Append the sort key of the documented item `it`.
fn push_item_key(k: &mut Vec<u32>, it: &DocItem)
    ensures
        final(k)@ == old(k)@ + item_key(doc_item_v(*it)),
    decreases *it, 1int,
{
    let ghost base = k@;
    proof {
        reveal(item_key);
    }
    match it {
        DocItem::Const(c) => {
            k.push(0);
            push_str_key(k, c.ident.as_str());
            push_str_key(k, c.ty.as_str());
            push_str_key(k, c.doc.as_str());
        },
        DocItem::Fn(f) => {
            k.push(1);
            push_opt_key(k, &f.receiver);
            push_str_key(k, f.ident.as_str());
            push_pairs_key(k, &f.params);
            push_opt_key(k, &f.ret);
            push_str_key(k, f.doc.as_str());
        },
        DocItem::Ty(t) => {
            k.push(2);
            push_str_key(k, t.ident.as_str());
            push_str_key(k, t.doc.as_str());
            proof {
                assert(decreases_to!(*it => *t));
                assert(decreases_to!(*t => t.items));
                assert(decreases_to!(t.items => t.items@));
            }
            push_items_key(k, &t.items);
        },
        DocItem::Mod(m) => {
            k.push(3);
            push_str_key(k, m.ident.as_str());
            push_str_key(k, m.doc.as_str());
            proof {
                assert(decreases_to!(*it => *m));
                assert(decreases_to!(*m => m.items));
                assert(decreases_to!(m.items => m.items@));
            }
            push_items_key(k, &m.items);
        },
        DocItem::Variant(v) => {
            k.push(4);
            push_str_key(k, v.ident.as_str());
            push_strs_key(k, &v.fields);
            push_str_key(k, v.doc.as_str());
        },
    }
    proof {
        assert(k@ =~= base + item_key(doc_item_v(*it)));
    }
}

/// The sort key of the documented item `it`.
fn key_of(it: &DocItem) -> (res: Vec<u32>)
    ensures
        res@ == item_key(doc_item_v(*it)),
{
    let mut k: Vec<u32> = Vec::new();
    push_item_key(&mut k, it);
    proof {
        assert(k@ =~= item_key(doc_item_v(*it)));
    }
    k
}

/// Whether the key `a` comes before the key `b`.
fn key_lt(a: &Vec<u32>, b: &Vec<u32>) -> (res: bool)
    ensures
        res == keys_lt(a@, b@),
{
    let mut i: usize = 0;
    proof {
        assert(a@.skip(0) =~= a@);
        assert(b@.skip(0) =~= b@);
    }
    while i < a.len() && i < b.len() && a[i] == b[i]
        invariant
            i <= a@.len(),
            i <= b@.len(),
            keys_lt(a@, b@) == keys_lt(a@.skip(i as int), b@.skip(i as int)),
        decreases a@.len() - i,
    {
        proof {
            assert(a@.skip(i as int).drop_first() =~= a@.skip(i as int + 1));
            assert(b@.skip(i as int).drop_first() =~= b@.skip(i as int + 1));
        }
        i = i + 1;
    }
    if i == a.len() {
        i < b.len()
    } else if i == b.len() {
        false
    } else {
        a[i] < b[i]
    }
}

/// Put `x` into the ordered `v`.
fn insert_in_order<'a>(v: &mut Vec<&'a DocItem>, x: &'a DocItem)
    ensures
        refs_v(final(v)@) == refs_v(old(v)@).insert(
            insert_pos(refs_v(old(v)@), doc_item_v(*x), 0),
            doc_item_v(*x),
        ),
{
    let ghost t = refs_v(v@);
    let key = key_of(x);
    let mut p: usize = 0;
    while p < v.len() && !key_lt(&key, &key_of(v[p]))
        invariant
            p <= v@.len(),
            t == refs_v(v@),
            key@ == item_key(doc_item_v(*x)),
            insert_pos(t, doc_item_v(*x), 0) == insert_pos(t, doc_item_v(*x), p as int),
        decreases v@.len() - p,
    {
        p = p + 1;
    }
    let ghost before_insert = v@;
    v.insert(p, x);
    proof {
        assert(refs_v(v@) =~= refs_v(before_insert).insert(p as int, doc_item_v(*x)));
    }
}

/// Split `items` by kind, each kind in order.
pub fn split_items<'a>(items: &'a Vec<DocItem>) -> (res: SplitDocItems<'a>)
    ensures
        refs_v(res.constants@) == sorted_kind(doc_items_v(items@), 0),
        refs_v(res.functions@) == sorted_kind(doc_items_v(items@), 1),
        refs_v(res.types@) == sorted_kind(doc_items_v(items@), 2),
        refs_v(res.modules@) == sorted_kind(doc_items_v(items@), 3),
        refs_v(res.variants@) == sorted_kind(doc_items_v(items@), 4),
{
    let mut split = SplitDocItems {
        functions: Vec::new(),
        constants: Vec::new(),
        types: Vec::new(),
        modules: Vec::new(),
        variants: Vec::new(),
    };
    let mut i: usize = 0;
    proof {
        assert(items@.take(0) =~= Seq::<DocItem>::empty());
        assert(doc_items_v(Seq::<DocItem>::empty()) == Seq::<DocItemV>::empty());
        assert(refs_v(split.constants@) =~= Seq::<DocItemV>::empty());
        assert(refs_v(split.functions@) =~= Seq::<DocItemV>::empty());
        assert(refs_v(split.types@) =~= Seq::<DocItemV>::empty());
        assert(refs_v(split.modules@) =~= Seq::<DocItemV>::empty());
        assert(refs_v(split.variants@) =~= Seq::<DocItemV>::empty());
    }
    while i < items.len()
        invariant
            i <= items@.len(),
            refs_v(split.constants@) == sorted_kind(doc_items_v(items@.take(i as int)), 0),
            refs_v(split.functions@) == sorted_kind(doc_items_v(items@.take(i as int)), 1),
            refs_v(split.types@) == sorted_kind(doc_items_v(items@.take(i as int)), 2),
            refs_v(split.modules@) == sorted_kind(doc_items_v(items@.take(i as int)), 3),
            refs_v(split.variants@) == sorted_kind(doc_items_v(items@.take(i as int)), 4),
        decreases items@.len() - i,
    {
        let it = &items[i];
        let ghost pre = doc_items_v(items@.take(i as int));
        let ghost v = doc_item_v(*it);
        proof {
            assert(items@.take(i as int + 1) =~= items@.take(i as int).push(*it));
            lemma_doc_items_push(items@.take(i as int), *it);
            let now = doc_items_v(items@.take(i as int + 1));
            assert(now == pre.push(v));
            assert(now.drop_last() =~= pre);
            assert(now.last() == v);
            assert forall|k: int| 0 <= k < 5 implies of_kind(now, k) == if kind_of(v) == k {
                of_kind(pre, k).push(v)
            } else {
                of_kind(pre, k)
            } by {}
            assert forall|k: int| 0 <= k < 5 && kind_of(v) == k implies (#[trigger] sorted_kind(now, k)) == in_order(of_kind(pre, k)).insert(
                insert_pos(in_order(of_kind(pre, k)), v, 0),
                v,
            ) by {
                assert(of_kind(pre, k).push(v).drop_last() =~= of_kind(pre, k));
            }
        }
        match it {
            DocItem::Const(_) => insert_in_order(&mut split.constants, it),
            DocItem::Fn(_) => insert_in_order(&mut split.functions, it),
            DocItem::Ty(_) => insert_in_order(&mut split.types, it),
            DocItem::Mod(_) => insert_in_order(&mut split.modules, it),
            DocItem::Variant(_) => insert_in_order(&mut split.variants, it),
        }
        i = i + 1;
    }
    proof {
        assert(items@.take(i as int) =~= items@);
    }
    split
}

// ---------------------------------------------------------------------
// Markdown

/// A line without the carriage return that ended it.
pub open spec fn strip_cr(l: Seq<char>) -> Seq<char> {
    if l.len() > 0 && l.last() == '\r' {
        l.drop_last()
    } else {
        l
    }
}

/// The position of the first line feed in `s` from `i` on, or the length
/// of `s`.
pub open spec fn first_newline(s: Seq<char>, i: int) -> int
    decreases s.len() - i,
{
    if i < 0 || i >= s.len() {
        s.len() as int
    } else if s[i] == '\n' {
        i
    } else {
        first_newline(s, i + 1)
    }
}

pub proof fn lemma_first_newline_bounds(s: Seq<char>, i: int)
    requires
        0 <= i,
    ensures
        i <= first_newline(s, i) <= s.len() || (i > s.len() && first_newline(s, i) == s.len()),
        first_newline(s, i) < s.len() ==> s[first_newline(s, i)] == '\n',
        forall|k: int| i <= k < first_newline(s, i) ==> s[k] != '\n',
    decreases s.len() - i,
{
    if i < s.len() && s[i] != '\n' {
        lemma_first_newline_bounds(s, i + 1);
    }
}

/// The lines of `s`, as Rust's `str::lines` gives them, each followed by a
/// line feed.
pub open spec fn lines_block(s: Seq<char>) -> Seq<char>
    decreases s.len(),
{
    if s.len() == 0 {
        Seq::empty()
    } else {
        let i = first_newline(s, 0);
        proof {
            lemma_first_newline_bounds(s, 0);
        }
        if i >= s.len() {
            s + "\n"@
        } else {
            strip_cr(s.take(i)) + "\n"@ + lines_block(s.skip(i + 1))
        }
    }
}

pub proof fn lemma_first_newline_is(s: Seq<char>, m: int, j: int)
    requires
        0 <= m <= j <= s.len(),
        forall|k: int| m <= k < j ==> s[k] != '\n',
        j == s.len() || s[j] == '\n',
    ensures
        first_newline(s, m) == j,
    decreases j - m,
{
    if m < j {
        lemma_first_newline_is(s, m + 1, j);
    }
}

/// Append the lines of `doc` to `out`, each followed by a line feed.
fn push_lines(out: &mut String, doc: &str)
    ensures
        final(out)@ == old(out)@ + lines_block(doc@),
{
    let ghost d = doc@;
    let n = doc.unicode_len();
    let mut start: usize = 0;
    proof {
        assert(d.skip(0) =~= d);
    }
    while start < n
        invariant
            n == d.len(),
            d == doc@,
            start <= n,
            old(out)@ + lines_block(d) == out@ + lines_block(d.skip(start as int)),
        decreases n - start,
    {
        let mut j = start;
        while j < n && doc.get_char(j) != '\n'
            invariant
                start <= j <= n,
                n == d.len(),
                d == doc@,
                forall|k: int| start <= k < j ==> d[k] != '\n',
            decreases n - j,
        {
            j = j + 1;
        }
        let ghost t = d.skip(start as int);
        proof {
            lemma_first_newline_is(t, 0, (j - start) as int);
            assert(t.len() > 0);
        }
        if j == n {
            let line = doc.substring_char(start, n);
            out.append(line);
            out.append("\n");
            proof {
                assert(line@ =~= t);
                assert(d.skip(n as int) =~= Seq::<char>::empty());
            }
            start = n;
        } else {
            let end = if j > start && doc.get_char(j - 1) == '\r' {
                j - 1
            } else {
                j
            };
            let line = doc.substring_char(start, end);
            out.append(line);
            out.append("\n");
            proof {
                assert(line@ =~= strip_cr(t.take((j - start) as int)));
                assert(t.skip((j - start) as int + 1) =~= d.skip(j as int + 1));
            }
            start = j + 1;
        }
    }
    proof {
        assert(d.skip(start as int) =~= Seq::<char>::empty());
        assert(out@ + Seq::<char>::empty() =~= out@);
    }
}

/// The parameters of a function as its documentation lists them: each name
/// with its type, separated by commas.
pub open spec fn params_text(ps: Seq<(Seq<char>, Seq<char>)>) -> Seq<char>
    decreases ps.len(),
{
    if ps.len() == 0 {
        Seq::empty()
    } else {
        params_text(ps.drop_last()) + (if ps.len() > 1 {
            ", "@
        } else {
            Seq::empty()
        }) + ps.last().0 + ": "@ + ps.last().1
    }
}

/// `fs` joined with commas.
pub open spec fn joined(fs: Seq<Seq<char>>) -> Seq<char>
    decreases fs.len(),
{
    if fs.len() == 0 {
        Seq::empty()
    } else {
        joined(fs.drop_last()) + (if fs.len() > 1 {
            ", "@
        } else {
            Seq::empty()
        }) + fs.last()
    }
}

/// The Markdown of a documented function, constant or variant.
pub open spec fn item_md(v: DocItemV) -> Seq<char> {
    match v {
        DocItemV::Fn { receiver, ident, params, ret, doc } => {
            let kind = if receiver is Some {
                "method"@
            } else {
                "function"@
            };
            let name = match receiver {
                Some(r) => r + "."@ + ident,
                None => ident,
            };
            "````{roto:"@ + kind + "} "@ + name + "("@ + params_text(params) + ")"@ + (match ret {
                Some(r) => " -> "@ + r + "\n"@,
                None => "\n"@,
            }) + lines_block(doc) + "````\n"@ + "\n"@
        },
        DocItemV::Const { ident, ty, doc } => "`````{roto:constant} "@ + ident + ": "@ + ty + "\n"@ + lines_block(doc)
            + "`````\n"@ + "\n"@,
        DocItemV::Variant { ident, fields, doc } => {
            let f = joined(fields);
            let suffix = if f.len() == 0 {
                Seq::empty()
            } else {
                "("@ + f + ")"@
            };
            "`````{roto:variant} "@ + ident + suffix + "\n"@ + lines_block(doc) + "`````\n"@ + "\n"@
        },
        _ => Seq::empty(),
    }
}

/// The Markdown of each of `s`, one after the other.
pub open spec fn all_md(s: Seq<DocItemV>) -> Seq<char>
    decreases s.len(),
{
    if s.len() == 0 {
        Seq::empty()
    } else {
        all_md(s.drop_last()) + item_md(s.last())
    }
}

/// Append the parameters of a function.
fn push_params(out: &mut String, params: &Vec<(String, String)>)
    ensures
        final(out)@ == old(out)@ + params_text(pairs_view(params@)),
{
    let ghost ps = pairs_view(params@);
    let mut i: usize = 0;
    proof {
        assert(ps.take(0) =~= Seq::<(Seq<char>, Seq<char>)>::empty());
    }
    while i < params.len()
        invariant
            i <= params@.len(),
            ps == pairs_view(params@),
            out@ == old(out)@ + params_text(ps.take(i as int)),
        decreases params@.len() - i,
    {
        if i > 0 {
            out.append(", ");
        }
        out.append(params[i].0.as_str());
        out.append(": ");
        out.append(params[i].1.as_str());
        proof {
            let t = ps.take(i as int + 1);
            assert(t.drop_last() =~= ps.take(i as int));
            assert(t.last() == ps[i as int]);
        }
        i = i + 1;
    }
    proof {
        assert(ps.take(i as int) =~= ps);
    }
}

/// Append `fs` joined with commas.
fn push_joined(out: &mut String, fs: &Vec<String>)
    ensures
        final(out)@ == old(out)@ + joined(texts(fs@)),
{
    let ghost t = texts(fs@);
    let mut i: usize = 0;
    proof {
        assert(t.take(0) =~= Seq::<Seq<char>>::empty());
    }
    while i < fs.len()
        invariant
            i <= fs@.len(),
            t == texts(fs@),
            out@ == old(out)@ + joined(t.take(i as int)),
        decreases fs@.len() - i,
    {
        if i > 0 {
            out.append(", ");
        }
        out.append(fs[i].as_str());
        proof {
            let u = t.take(i as int + 1);
            assert(u.drop_last() =~= t.take(i as int));
            assert(u.last() == t[i as int]);
        }
        i = i + 1;
    }
    proof {
        assert(t.take(i as int) =~= t);
    }
}

/// Append the Markdown of a documented function, constant or variant.
fn push_item_md(out: &mut String, it: &DocItem)
    ensures
        final(out)@ == old(out)@ + item_md(doc_item_v(*it)),
{
    match it {
        DocItem::Fn(f) => {
            let mut s = String::from_str("````{roto:");
            if f.receiver.is_some() {
                s.append("method");
            } else {
                s.append("function");
            }
            s.append("} ");
            match &f.receiver {
                Some(r) => {
                    s.append(r.as_str());
                    s.append(".");
                    s.append(f.ident.as_str());
                },
                None => s.append(f.ident.as_str()),
            }
            s.append("(");
            push_params(&mut s, &f.params);
            s.append(")");
            match &f.ret {
                Some(r) => {
                    s.append(" -> ");
                    s.append(r.as_str());
                    s.append("\n");
                },
                None => s.append("\n"),
            }
            push_lines(&mut s, f.doc.as_str());
            s.append("````\n");
            s.append("\n");
            out.append(s.as_str());
            proof {
                assert(out@ =~= old(out)@ + item_md(doc_item_v(*it)));
            }
        },
        DocItem::Const(c) => {
            let mut s = String::from_str("`````{roto:constant} ");
            s.append(c.ident.as_str());
            s.append(": ");
            s.append(c.ty.as_str());
            s.append("\n");
            push_lines(&mut s, c.doc.as_str());
            s.append("`````\n");
            s.append("\n");
            out.append(s.as_str());
            proof {
                assert(out@ =~= old(out)@ + item_md(doc_item_v(*it)));
            }
        },
        DocItem::Variant(v) => {
            let mut f = String::new();
            push_joined(&mut f, &v.fields);
            let mut s = String::from_str("`````{roto:variant} ");
            s.append(v.ident.as_str());
            if f.unicode_len() > 0 {
                s.append("(");
                s.append(f.as_str());
                s.append(")");
            }
            s.append("\n");
            push_lines(&mut s, v.doc.as_str());
            s.append("`````\n");
            s.append("\n");
            out.append(s.as_str());
            proof {
                assert(f@ =~= joined(texts(v.fields@)));
                assert(out@ =~= old(out)@ + item_md(doc_item_v(*it)));
            }
        },
        _ => {
            proof {
                assert(out@ =~= old(out)@ + item_md(doc_item_v(*it)));
            }
        },
    }
}

/// Append the Markdown of each of `v`.
fn push_all_md(out: &mut String, v: &Vec<&DocItem>)
    ensures
        final(out)@ == old(out)@ + all_md(refs_v(v@)),
{
    let ghost s = refs_v(v@);
    let mut i: usize = 0;
    proof {
        assert(s.take(0) =~= Seq::<DocItemV>::empty());
    }
    while i < v.len()
        invariant
            i <= v@.len(),
            s == refs_v(v@),
            out@ == old(out)@ + all_md(s.take(i as int)),
        decreases v@.len() - i,
    {
        push_item_md(out, v[i]);
        proof {
            let u = s.take(i as int + 1);
            assert(u.drop_last() =~= s.take(i as int));
            assert(u.last() == s[i as int]);
        }
        i = i + 1;
    }
    proof {
        assert(s.take(i as int) =~= s);
    }
}

/// The table of contents of `s`: each name with the path of its page.
pub open spec fn toc(s: Seq<DocItemV>) -> Seq<char>
    decreases s.len(),
{
    if s.len() == 0 {
        Seq::empty()
    } else {
        toc(s.drop_last()) + ident_v(s.last()) + " <"@ + ident_v(s.last()) + "/index>\n"@
    }
}

/// The page of a module: its title and documentation, the tables of
/// contents of its modules and types, and its constants and functions,
/// each kind ordered by name.
pub open spec fn mod_page(ident: Seq<char>, doc: Seq<char>, items: Seq<DocItemV>) -> Seq<char> {
    let mods = sorted_kind(items, 3);
    let types = sorted_kind(items, 2);
    let consts = sorted_kind(items, 0);
    let fns = sorted_kind(items, 1);
    "# "@ + ident + "\n"@ + "\n"@ + doc + "\n"@ + (if mods.len() > 0 {
        "## Modules \n"@ + "```{toctree}\n"@ + ":maxdepth: 1\n"@ + toc(mods) + "```\n"@
    } else {
        Seq::empty()
    }) + (if types.len() > 0 {
        "## Types\n"@ + "```{toctree}\n"@ + ":maxdepth: 1\n"@ + toc(types) + "```\n"@
    } else {
        Seq::empty()
    }) + (if consts.len() > 0 {
        "## Constants\n"@ + all_md(consts)
    } else {
        Seq::empty()
    }) + (if fns.len() > 0 {
        "## Functions\n"@ + all_md(fns)
    } else {
        Seq::empty()
    })
}

/// The page of a type: its title and documentation, then its variants,
/// constants and functions, each kind ordered by name.
pub open spec fn ty_page(ident: Seq<char>, doc: Seq<char>, items: Seq<DocItemV>) -> Seq<char> {
    let variants = sorted_kind(items, 4);
    "# "@ + ident + "\n"@ + "`````{roto:type} "@ + ident + "\n"@ + lines_block(doc) + "`````\n"@ + "\n"@
        + "\n"@ + (if variants.len() > 0 {
        "## Variants\n"@ + all_md(variants)
    } else {
        Seq::empty()
    }) + all_md(sorted_kind(items, 0)) + all_md(sorted_kind(items, 1))
}

/// A page of documentation: the directories that lead to it and its
/// contents; it is the file `index.md` of its directory.
#[derive(Debug)]
pub struct DocFile {
    pub path: Vec<String>,
    pub contents: String,
    /// Whether this is the page of a type, rather than of a module.
    pub type_page: bool,
}

pub ghost struct DocFileV {
    pub path: Seq<Seq<char>>,
    pub contents: Seq<char>,
    pub type_page: bool,
}

pub open spec fn files_v(s: Seq<DocFile>) -> Seq<DocFileV> {
    Seq::new(s.len(), |i: int| DocFileV { path: path_view(s[i].path@), contents: s[i].contents@, type_page: s[i].type_page })
}

/// The pages of a documented item in the directory `path`: a module's page
/// and those of the items in it, or a type's page.
pub open spec fn item_files(v: DocItemV, path: Seq<Seq<char>>) -> Seq<DocFileV>
    decreases v, 1int,
{
    match v {
        DocItemV::Mod { ident, doc, items } => seq![DocFileV { path: path.push(ident), contents: mod_page(ident, doc, items), type_page: false }]
            + items_files(items, path.push(ident)),
        DocItemV::Ty { ident, doc, items } => seq![DocFileV { path: path.push(ident), contents: ty_page(ident, doc, items), type_page: true }],
        _ => Seq::empty(),
    }
}

/// The pages of the items `s` in the directory `path`.
pub open spec fn items_files(s: Seq<DocItemV>, path: Seq<Seq<char>>) -> Seq<DocFileV>
    decreases s, 0int,
{
    if s.len() == 0 {
        Seq::empty()
    } else {
        item_files(s[0], path) + items_files(s.drop_first(), path)
    }
}

pub proof fn lemma_items_files_push(s: Seq<DocItemV>, v: DocItemV, path: Seq<Seq<char>>)
    ensures
        items_files(s.push(v), path) == items_files(s, path) + item_files(v, path),
    decreases s.len(),
{
    if s.len() == 0 {
        assert(s.push(v).drop_first() =~= Seq::<DocItemV>::empty());
        assert(items_files(Seq::<DocItemV>::empty(), path) == Seq::<DocFileV>::empty());
        assert(items_files(s.push(v), path) =~= item_files(v, path));
        assert(items_files(s, path) + item_files(v, path) =~= item_files(v, path));
    } else {
        assert(s.push(v).drop_first() =~= s.drop_first().push(v));
        lemma_items_files_push(s.drop_first(), v, path);
        assert(items_files(s.push(v), path) =~= items_files(s, path) + item_files(v, path));
    }
}

/// Append the table of contents of `v`.
fn push_toc(out: &mut String, v: &Vec<&DocItem>)
    ensures
        final(out)@ == old(out)@ + toc(refs_v(v@)),
{
    let ghost s = refs_v(v@);
    let mut i: usize = 0;
    proof {
        assert(s.take(0) =~= Seq::<DocItemV>::empty());
    }
    while i < v.len()
        invariant
            i <= v@.len(),
            s == refs_v(v@),
            out@ == old(out)@ + toc(s.take(i as int)),
        decreases v@.len() - i,
    {
        let name = ident_of(v[i]);
        out.append(name.as_str());
        out.append(" <");
        out.append(name.as_str());
        out.append("/index>\n");
        proof {
            let u = s.take(i as int + 1);
            assert(u.drop_last() =~= s.take(i as int));
            assert(u.last() == s[i as int]);
        }
        i = i + 1;
    }
    proof {
        assert(s.take(i as int) =~= s);
    }
}

/// A table of contents under `title`, if `v` is not empty.
fn toc_section(title: &str, v: &Vec<&DocItem>) -> (res: String)
    ensures
        res@ == if refs_v(v@).len() > 0 {
            title@ + "```{toctree}\n"@ + ":maxdepth: 1\n"@ + toc(refs_v(v@)) + "```\n"@
        } else {
            Seq::empty()
        },
{
    let mut s = String::new();
    if v.len() > 0 {
        s.append(title);
        s.append("```{toctree}\n");
        s.append(":maxdepth: 1\n");
        push_toc(&mut s, v);
        s.append("```\n");
    }
    s
}

/// The Markdown of `v` under `title`, if `v` is not empty.
fn md_section(title: &str, v: &Vec<&DocItem>) -> (res: String)
    ensures
        res@ == if refs_v(v@).len() > 0 {
            title@ + all_md(refs_v(v@))
        } else {
            Seq::empty()
        },
{
    let mut s = String::new();
    if v.len() > 0 {
        s.append(title);
        push_all_md(&mut s, v);
    }
    s
}

/// The page of a module.
fn mod_page_text(ident: &str, doc: &str, items: &Vec<DocItem>) -> (res: String)
    ensures
        res@ == mod_page(ident@, doc@, doc_items_v(items@)),
{
    let split = split_items(items);
    let mut s = String::from_str("# ");
    s.append(ident);
    s.append("\n");
    s.append("\n");
    s.append(doc);
    s.append("\n");
    let a = toc_section("## Modules \n", &split.modules);
    let b = toc_section("## Types\n", &split.types);
    let c = md_section("## Constants\n", &split.constants);
    let d = md_section("## Functions\n", &split.functions);
    s.append(a.as_str());
    s.append(b.as_str());
    s.append(c.as_str());
    s.append(d.as_str());
    proof {
        assert(s@ =~= mod_page(ident@, doc@, doc_items_v(items@)));
    }
    s
}

/// The page of a type.
fn ty_page_text(ident: &str, doc: &str, items: &Vec<DocItem>) -> (res: String)
    ensures
        res@ == ty_page(ident@, doc@, doc_items_v(items@)),
{
    let split = split_items(items);
    let mut s = String::from_str("# ");
    s.append(ident);
    s.append("\n");
    s.append("`````{roto:type} ");
    s.append(ident);
    s.append("\n");
    push_lines(&mut s, doc);
    s.append("`````\n");
    s.append("\n");
    s.append("\n");
    let a = md_section("## Variants\n", &split.variants);
    s.append(a.as_str());
    push_all_md(&mut s, &split.constants);
    push_all_md(&mut s, &split.functions);
    proof {
        assert(s@ =~= ty_page(ident@, doc@, doc_items_v(items@)));
    }
    s
}

/// Append the pages of `items` in the directory `path`.
fn push_files(out: &mut Vec<DocFile>, items: &Vec<DocItem>, path: &Vec<String>)
    ensures
        files_v(final(out)@) == files_v(old(out)@) + items_files(doc_items_v(items@), path_view(path@)),
    decreases items@,
{
    let ghost pv = path_view(path@);
    let mut i: usize = 0;
    proof {
        assert(items@.take(0) =~= Seq::<DocItem>::empty());
        assert(doc_items_v(Seq::<DocItem>::empty()) == Seq::<DocItemV>::empty());
        assert(items_files(Seq::<DocItemV>::empty(), pv) == Seq::<DocFileV>::empty());
        assert(files_v(out@) =~= files_v(old(out)@) + items_files(doc_items_v(items@.take(0)), pv));
    }
    while i < items.len()
        invariant
            i <= items@.len(),
            pv == path_view(path@),
            files_v(out@) == files_v(old(out)@) + items_files(doc_items_v(items@.take(i as int)), pv),
        decreases items@.len() - i,
    {
        let ghost before = out@;
        let it = &items[i];
        proof {
            assert(items@.take(i as int + 1) =~= items@.take(i as int).push(*it));
            lemma_doc_items_push(items@.take(i as int), *it);
            lemma_items_files_push(doc_items_v(items@.take(i as int)), doc_item_v(*it), pv);
        }
        match it {
            DocItem::Mod(m) => {
                let mut sub = copy_path(path);
                sub.push(m.ident.clone());
                let contents = mod_page_text(m.ident.as_str(), m.doc.as_str(), &m.items);
                let ghost subv = path_view(sub@);
                proof {
                    assert(subv =~= pv.push(m.ident@));
                }
                let file = DocFile { path: copy_path(&sub), contents, type_page: false };
                out.push(file);
                proof {
                    assert(files_v(out@) =~= files_v(before).push(
                        DocFileV { path: pv.push(m.ident@), contents: mod_page(m.ident@, m.doc@, doc_items_v(m.items@)), type_page: false },
                    ));
                    assert(decreases_to!(items@ => items@[i as int]));
                    assert(decreases_to!(items@[i as int] => *m));
                    assert(decreases_to!(*m => m.items));
                    assert(decreases_to!(m.items => m.items@));
                }
                let ghost mid = out@;
                push_files(out, &m.items, &sub);
                proof {
                    assert(files_v(out@) =~= files_v(old(out)@) + items_files(doc_items_v(items@.take(i as int + 1)), pv));
                }
            },
            DocItem::Ty(t) => {
                let mut sub = copy_path(path);
                sub.push(t.ident.clone());
                let contents = ty_page_text(t.ident.as_str(), t.doc.as_str(), &t.items);
                let file = DocFile { path: sub, contents, type_page: true };
                let ghost fv = DocFileV { path: path_view(file.path@), contents: file.contents@, type_page: true };
                out.push(file);
                proof {
                    assert(fv.path =~= pv.push(t.ident@));
                    assert(files_v(out@) =~= files_v(before).push(fv));
                    assert(files_v(out@) =~= files_v(old(out)@) + items_files(doc_items_v(items@.take(i as int + 1)), pv));
                }
            },
            _ => {
                proof {
                    assert(item_files(doc_item_v(*it), pv) =~= Seq::<DocFileV>::empty());
                    assert(files_v(out@) =~= files_v(old(out)@) + items_files(doc_items_v(items@.take(i as int + 1)), pv));
                }
            },
        }
        i = i + 1;
    }
    proof {
        assert(items@.take(i as int) =~= items@);
    }
}

/// The documentation of a registry: the page of its root, then those of
/// its modules and types.
pub open spec fn documentation_files(ds: Seq<Declaration>) -> Seq<DocFileV> {
    let items = items_from(ds, ScopeV::Module(Seq::empty()), None, ds.len(), 0);
    seq![DocFileV { path: Seq::empty(), contents: mod_page("Standard Library"@, ""@, items), type_page: false }] + items_files(
        items,
        Seq::empty(),
    )
}

impl Runtime {
    /// The documentation of the items registered into this runtime, as
    /// Markdown pages for Sphinx.
    pub fn documentation(&self) -> (res: Vec<DocFile>)
        ensures
            files_v(res@) == documentation_files(self.decl_seq()),
    {
        let ds = self.declarations();
        let root: Vec<String> = Vec::new();
        let items = scope_items(ds, &Scope::Module(Vec::new()), &None, ds.len());
        let contents = mod_page_text("Standard Library", "", &items);
        let mut files: Vec<DocFile> = Vec::new();
        files.push(DocFile { path: Vec::new(), contents, type_page: false });
        proof {
            assert(path_view(root@) =~= Seq::<Seq<char>>::empty());
            assert(path_view(Seq::<String>::empty()) =~= Seq::<Seq<char>>::empty());
            assert(files_v(files@) =~= seq![
                DocFileV {
                    path: Seq::empty(),
                    contents: mod_page("Standard Library"@, ""@, doc_items_v(items@)),
                    type_page: false,
                },
            ]);
        }
        push_files(&mut files, &items, &root);
        files
    }
}

} // verus!
