//! Items that a host registers into the runtime: functions, types, modules,
//! constants, impl blocks, imports and the regex literal provider.

use crate::runtime::layout::Layout;
use crate::runtime::layout::{
    fields_align, fields_end, lemma_fields_align_grows, lemma_fields_end_grows, lemma_round_up_ge,
    max_int, round_up, tagged_struct_v, union_v, LayoutBuilder,
};
use crate::runtime::names::{decimal, decimal_chars, is_valid_name, is_valid_name_str};
use crate::typechecker::types::HostTypeId;
use vstd::prelude::*;
use vstd::string::*;
use vstd::utf8::*;

verus! {

/// Where an item was registered, for error reporting.
#[derive(Clone, Debug, PartialEq, Eq)]
pub struct Location {
    pub file: String,
    pub line: u32,
    pub column: u32,
}

impl Location {
    pub fn duplicate(&self) -> (res: Location)
        ensures
            res == *self,
    {
        Location { file: self.file.clone(), line: self.line, column: self.column }
    }
}

/// An error while registering an item.
#[derive(Debug)]
pub struct RegistrationError {
    pub message: String,
    pub location: Location,
}

impl RegistrationError {
    /// The message of this error.
    pub fn to_string(&self) -> (res: String)
        ensures
            res@ == self.message@,
    {
        self.message.clone()
    }
}

/// How values of a registered type are moved, cloned and dropped.
#[derive(Clone, Copy, Debug, PartialEq, Eq, Structural)]
pub enum Movability {
    /// A plain value, passed by value.
    Value,
    /// A type implementing `Copy`.
    Copy,
    /// A type that must be cloned and dropped through its own functions.
    CloneDrop,
}

/// How a host type is represented to Roto.
#[derive(Clone, Copy, Debug, PartialEq, Eq, Structural)]
pub enum TypeDescription {
    Leaf,
    Val(HostTypeId),
    Option(HostTypeId),
    Verdict(HostTypeId, HostTypeId),
    Result(HostTypeId, HostTypeId),
    List(HostTypeId),
    Enum,
}

/// A host type as the items that use it refer to it: its identity and its
/// representation.
#[derive(Clone, Copy, Debug, PartialEq, Eq, Structural)]
pub struct HostType {
    pub id: HostTypeId,
    pub description: TypeDescription,
}

/// What the host knows about one of its types: its identity, name, layout
/// and representation.
#[derive(Clone, Debug)]
pub struct ResolvedType {
    pub type_id: HostTypeId,
    pub rust_name: String,
    pub layout: Layout,
    pub description: TypeDescription,
}

impl ResolvedType {
    pub open spec fn host(&self) -> HostType {
        HostType { id: self.type_id, description: self.description }
    }

    /// How items refer to this type.
    pub fn host_type(&self) -> (res: HostType)
        ensures
            res == self.host(),
    {
        HostType { id: self.type_id, description: self.description }
    }
}

/// A variant of a host enum with a stable Roto representation.
#[derive(Clone, Debug)]
pub struct RotoEnumVariant {
    name: String,
    tag: u8,
    doc: String,
    fields: Vec<ResolvedType>,
}

impl RotoEnumVariant {
    pub closed spec fn spec_name(&self) -> Seq<char> {
        self.name@
    }

    pub closed spec fn spec_tag(&self) -> u8 {
        self.tag
    }

    pub closed spec fn spec_fields(&self) -> Seq<ResolvedType> {
        self.fields@
    }

    /// A variant with its name, tag, documentation and field types.
    pub fn new(name: &str, tag: u8, doc: &str, fields: Vec<ResolvedType>) -> (res: Self)
        ensures
            res.spec_name() == name@,
            res.spec_tag() == tag,
            res.spec_doc() == doc@,
            res.spec_fields() == fields@,
    {
        RotoEnumVariant { name: String::from_str(name), tag, doc: String::from_str(doc), fields }
    }

    pub fn name(&self) -> (res: &str)
        ensures
            res@ == self.spec_name(),
    {
        self.name.as_str()
    }

    pub fn tag(&self) -> (res: u8)
        ensures
            res == self.spec_tag(),
    {
        self.tag
    }

    pub closed spec fn spec_doc(&self) -> Seq<char> {
        self.doc@
    }

    pub fn doc(&self) -> (res: &str)
        ensures
            res@ == self.spec_doc(),
    {
        self.doc.as_str()
    }

    pub fn fields(&self) -> (res: &Vec<ResolvedType>)
        ensures
            res@ == self.spec_fields(),
    {
        &self.fields
    }
}

/// The signature of a host function: the host types of its parameters and
/// of its result (`None` for a function that returns nothing), and whether
/// its result is written through an out pointer that is passed as the first
/// parameter.
#[derive(Clone, Debug)]
pub struct FunctionDescription {
    pub parameter_types: Vec<HostType>,
    pub return_type: Option<HostType>,
    pub has_out_ptr: bool,
}

/// A handle to a host value registered as a constant.
#[derive(Clone, Copy, Debug, PartialEq, Eq, Structural)]
pub struct ConstantValue(pub u64);

/// A registerable item
#[derive(Debug)]
pub enum Item {
    /// A function
    Function(Function),
    /// A type
    Type(Type),
    /// A module
    Module(Module),
    /// A constant
    Constant(Constant),
    /// An impl block
    Impl(Impl),
    /// A use statement
    Use(Use),
    /// Compiler support for the host-provided `r"..."` literal.
    RegexLiteral(RegexLiteral),
}

/// A collection of registerable items.
#[derive(Debug)]
pub struct Library {
    pub items: Vec<Item>,
}

impl Library {
    /// Create a new [`Library`].
    pub fn new() -> (res: Self)
        ensures
            res.items@ == Seq::<Item>::empty(),
    {
        Self { items: Vec::new() }
    }

    /// Add an item to the [`Library`].
    pub fn add(&mut self, item: Item)
        ensures
            final(self).items@ == old(self).items@.push(item),
    {
        self.items.push(item);
    }
}

impl Default for Library {
    fn default() -> (res: Self)
        ensures
            res.items@ == Seq::<Item>::empty(),
    {
        Self::new()
    }
}

/// Items that can be registered into the runtime.
pub trait Registerable: Sized {
    /// The items that this value registers, in order.
    spec fn registered(&self) -> Seq<Item>;

    /// Create a library containing this item.
    fn into_lib(self) -> (res: Library)
        ensures
            res.items@ == self.registered(),
    ;

    /// Add this item to an existing library.
    fn add_to_lib(self, lib: &mut Library)
        ensures
            final(lib).items@ == old(lib).items@ + self.registered(),
    ;
}

impl Registerable for Library {
    open spec fn registered(&self) -> Seq<Item> {
        self.items@
    }

    fn into_lib(self) -> (res: Library) {
        self
    }

    fn add_to_lib(self, lib: &mut Library) {
        let mut items = self.items;
        lib.items.append(&mut items);
    }
}

impl Registerable for Item {
    open spec fn registered(&self) -> Seq<Item> {
        seq![*self]
    }

    fn into_lib(self) -> (res: Library) {
        let mut lib = Library::new();
        self.add_to_lib(&mut lib);
        assert(lib.items@ =~= seq![self]);
        lib
    }

    fn add_to_lib(self, lib: &mut Library) {
        lib.add(self);
        assert(lib.items@ =~= old(lib).items@ + seq![self]);
    }
}

/// The items that the values of `s` register, one after the other.
pub open spec fn flatten_registered<T: Registerable>(s: Seq<T>) -> Seq<Item>
    decreases s.len(),
{
    if s.len() == 0 {
        Seq::empty()
    } else {
        s[0].registered() + flatten_registered(s.drop_first())
    }
}

impl<T: Registerable> Registerable for Vec<T> {
    open spec fn registered(&self) -> Seq<Item> {
        flatten_registered(self@)
    }

    fn into_lib(self) -> (res: Library) {
        let mut lib = Library::new();
        self.add_to_lib(&mut lib);
        assert(lib.items@ =~= flatten_registered(self@));
        lib
    }

    fn add_to_lib(self, lib: &mut Library) {
        let ghost all = self@;
        let mut rest = self;
        while rest.len() > 0
            invariant
                old(lib).items@ + flatten_registered(all) == lib.items@ + flatten_registered(rest@),
            decreases rest@.len(),
        {
            let ghost before = rest@;
            let el = rest.remove(0);
            assert(before.drop_first() =~= rest@);
            let ghost lib_before = lib.items@;
            el.add_to_lib(lib);
            assert(lib_before + flatten_registered(before) =~= lib.items@ + flatten_registered(rest@));
        }
        assert(lib.items@ + flatten_registered(rest@) =~= lib.items@);
    }
}

/// A module containing other items
#[derive(Debug)]
pub struct Module {
    pub ident: String,
    pub doc: String,
    pub children: Vec<Item>,
    pub location: Location,
}

/// The message for a name that is not a valid Roto identifier.
pub open spec fn invalid_name_message(name: Seq<char>) -> Seq<char> {
    "`"@ + name + "` is not a valid Roto identifier"@
}

/// The error for a name that is not a valid Roto identifier.
fn invalid_name_error(name: &str, location: Location) -> (res: RegistrationError)
    ensures
        res.message@ == invalid_name_message(name@),
        res.location == location,
{
    let mut message = String::from_str("`");
    message.append(name);
    message.append("` is not a valid Roto identifier");
    RegistrationError { message, location }
}

/// Check that `name` is a valid Roto identifier.
pub fn check_name(location: &Location, name: &str) -> (res: Result<(), RegistrationError>)
    ensures
        res is Ok <==> is_valid_name(name.spec_bytes()),
        res matches Err(e) ==> e.message@ == invalid_name_message(name@) && e.location == *location,
{
    if is_valid_name_str(name) {
        Ok(())
    } else {
        Err(invalid_name_error(name, location.duplicate()))
    }
}

impl Module {
    /// Construct a new [`Module`]; `name` must be a valid Roto identifier.
    pub fn new(name: &str, doc: &str, location: Location) -> (res: Result<Self, RegistrationError>)
        ensures
            res is Ok <==> is_valid_name(name.spec_bytes()),
            res matches Ok(m) ==> m.ident@ == name@ && m.doc@ == doc@ && m.children@.len() == 0
                && m.location == location,
            res matches Err(e) ==> e.message@ == invalid_name_message(name@) && e.location == location,
    {
        check_name(&location, name)?;
        Ok(Self { ident: String::from_str(name), doc: String::from_str(doc), children: Vec::new(), location })
    }

    /// Add items to this module.
    pub fn add<R: Registerable>(&mut self, items: R)
        ensures
            final(self).children@ == old(self).children@ + items.registered(),
            final(self).ident == old(self).ident,
            final(self).doc == old(self).doc,
            final(self).location == old(self).location,
    {
        let mut lib = items.into_lib();
        self.children.append(&mut lib.items);
    }
}

impl Registerable for Module {
    open spec fn registered(&self) -> Seq<Item> {
        seq![Item::Module(*self)]
    }

    fn into_lib(self) -> (res: Library) {
        Item::Module(self).into_lib()
    }

    fn add_to_lib(self, lib: &mut Library) {
        Item::Module(self).add_to_lib(lib)
    }
}

/// A Roto type backed by a host type.
#[derive(Debug)]
pub struct Type {
    pub ident: String,
    pub rust_name: String,
    pub doc: String,
    pub type_id: HostTypeId,
    pub layout: Layout,
    pub movability: Movability,
    pub enum_variants: Option<Vec<RotoEnumVariant>>,
    pub location: Location,
}

/// Whether a host type with this description may be registered as an
/// opaque Roto type.
pub open spec fn opaque_allowed(d: TypeDescription) -> bool {
    d is Leaf || d is Val
}

/// The message for a host type that cannot be registered as an opaque type.
pub open spec fn not_opaque_message(rust_name: Seq<char>) -> Seq<char> {
    "Cannot register the type `"@ + rust_name
        + "` as an opaque type. Use `Val<T>` for ordinary custom types or `Type::enumeration` for a type implementing `RotoEnum`"@
}

/// What registering the host type `ty` as an opaque type under `name`
/// gives: the type, or the error for the first check that fails.
pub open spec fn opaque_registration(
    res: Result<Type, RegistrationError>,
    name: Seq<char>,
    doc: Seq<char>,
    ty: ResolvedType,
    movability: Movability,
    location: Location,
) -> bool {
    match res {
        Ok(t) => {
            &&& is_valid_name(encode_utf8(name))
            &&& opaque_allowed(ty.description)
            &&& t.ident@ == name
            &&& t.rust_name@ == ty.rust_name@
            &&& t.doc@ == doc
            &&& t.type_id == ty.type_id
            &&& t.layout == ty.layout
            &&& t.movability == movability
            &&& t.enum_variants is None
            &&& t.location == location
        },
        Err(e) => {
            &&& e.location == location
            &&& if !is_valid_name(encode_utf8(name)) {
                e.message@ == invalid_name_message(name)
            } else {
                !opaque_allowed(ty.description) && e.message@ == not_opaque_message(ty.rust_name@)
            }
        },
    }
}

/// The layouts of the fields of `v`.
pub open spec fn field_layouts(fields: Seq<ResolvedType>) -> Seq<Layout> {
    Seq::new(fields.len(), |i: int| fields[i].layout)
}

/// The layout of the first `n` variants of `vs` together, as (size,
/// alignment): the union of the layouts of their tagged structs.
pub open spec fn variants_layout(vs: Seq<RotoEnumVariant>, n: int) -> (int, int)
    decreases n,
{
    if n <= 1 {
        tagged_struct_v(field_layouts(vs[0].spec_fields()))
    } else {
        union_v(variants_layout(vs, n - 1), tagged_struct_v(field_layouts(vs[n - 1].spec_fields())))
    }
}

/// The problem with variant `i` of `vs`, given that the variants before it
/// have none: an invalid name, a name or a tag that an earlier variant has.
pub open spec fn variant_problem(vs: Seq<RotoEnumVariant>, i: int) -> Option<Seq<char>> {
    let v = vs[i];
    if !is_valid_name(encode_utf8(v.spec_name())) {
        Some(invalid_name_message(v.spec_name()))
    } else if exists|j: int| 0 <= j < i && (#[trigger] vs[j]).spec_name() == v.spec_name() {
        Some("Enum variant `"@ + v.spec_name() + "` is declared twice"@)
    } else if exists|j: int| 0 <= j < i && (#[trigger] vs[j]).spec_tag() == v.spec_tag() {
        Some("Enum tag "@ + decimal_chars(v.spec_tag() as nat) + " is used by more than one variant"@)
    } else {
        None
    }
}

/// The problem with the first variant among the first `n` of `vs` that has
/// one.
pub open spec fn first_variant_problem(vs: Seq<RotoEnumVariant>, n: int) -> Option<Seq<char>>
    decreases n,
{
    if n <= 0 {
        None
    } else {
        match first_variant_problem(vs, n - 1) {
            Some(m) => Some(m),
            None => variant_problem(vs, n - 1),
        }
    }
}

/// The message for an enum whose stable representation does not have the
/// layout that its variants require.
pub open spec fn layout_mismatch_message(rust_name: Seq<char>, repr: Layout, expected: (int, int)) -> Seq<char> {
    "The stable representation of `"@ + rust_name + "` has layout size "@
        + decimal_chars(repr.spec_size()) + " align "@ + decimal_chars(repr.spec_align())
        + ", but its variants require size "@ + decimal_chars(expected.0 as nat) + " align "@
        + decimal_chars(expected.1 as nat)
}

/// The error that registering a host enum gives, if any: the message of the
/// first check that fails.
pub open spec fn enumeration_error(
    name: Seq<char>,
    ty: ResolvedType,
    vs: Seq<RotoEnumVariant>,
    repr: Layout,
) -> Option<Seq<char>> {
    if !is_valid_name(encode_utf8(name)) {
        Some(invalid_name_message(name))
    } else if !(ty.description is Enum) {
        Some("`"@ + ty.rust_name@ + "` does not resolve to a Rust-backed Roto enum"@)
    } else if vs.len() == 0 {
        Some("A Rust-backed Roto enum needs at least one variant"@)
    } else if vs.len() > 256 {
        Some("A Rust-backed Roto enum can have at most 256 variants"@)
    } else if first_variant_problem(vs, vs.len() as int) is Some {
        first_variant_problem(vs, vs.len() as int)
    } else {
        let expected = variants_layout(vs, vs.len() as int);
        if repr.spec_size() != expected.0 || repr.spec_align() != expected.1 {
            Some(layout_mismatch_message(ty.rust_name@, repr, expected))
        } else {
            None
        }
    }
}

/// The union of the first `k` variants is no larger than that of the first
/// `n`, and contains the tagged struct of variant `k - 1`.
pub proof fn lemma_variants_layout_bounds(vs: Seq<RotoEnumVariant>, k: int, n: int)
    requires
        1 <= k <= n,
    ensures
        variants_layout(vs, k).0 <= variants_layout(vs, n).0,
        tagged_struct_v(field_layouts(vs[k - 1].spec_fields())).0 <= variants_layout(vs, k).0,
        variants_layout(vs, k).0 >= 1,
        variants_layout(vs, k).1 >= 1,
    decreases n - k, k,
{
    lemma_tagged_struct_positive(field_layouts(vs[k - 1].spec_fields()));
    if k > 1 {
        lemma_variants_layout_bounds(vs, k - 1, k - 1);
        let a = variants_layout(vs, k - 1);
        let b = tagged_struct_v(field_layouts(vs[k - 1].spec_fields()));
        lemma_round_up_ge(max_int(a.0, b.0), max_int(a.1, b.1));
    }
    if k < n {
        lemma_variants_layout_bounds(vs, k + 1, n);
        let a = variants_layout(vs, k);
        let b = tagged_struct_v(field_layouts(vs[k].spec_fields()));
        lemma_tagged_struct_positive(field_layouts(vs[k].spec_fields()));
        lemma_round_up_ge(max_int(a.0, b.0), max_int(a.1, b.1));
    }
}

/// Once a variant has a problem, it stays the first one.
pub proof fn lemma_first_variant_problem_stays(vs: Seq<RotoEnumVariant>, k: int, n: int)
    requires
        0 <= k <= n,
        first_variant_problem(vs, k) is Some,
    ensures
        first_variant_problem(vs, n) == first_variant_problem(vs, k),
    decreases n - k,
{
    if k < n {
        lemma_first_variant_problem_stays(vs, k + 1, n);
    }
}

/// A tagged struct has a positive size and alignment.
pub proof fn lemma_tagged_struct_positive(fields: Seq<Layout>)
    ensures
        tagged_struct_v(fields).0 >= 1,
        tagged_struct_v(fields).1 >= 1,
{
    lemma_fields_end_grows(1, fields);
    lemma_fields_align_grows(1, fields);
    lemma_round_up_ge(fields_end(1, fields), fields_align(1, fields));
}

/// The layout of a one-byte tag followed by `fields`.
fn variant_layout(fields: &Vec<ResolvedType>) -> (res: Layout)
    requires
        tagged_struct_v(field_layouts(fields@)).0 <= usize::MAX,
    ensures
        res.wf(),
        res.spec_size() == tagged_struct_v(field_layouts(fields@)).0,
        res.spec_align() == tagged_struct_v(field_layouts(fields@)).1,
{
    let ghost fl = field_layouts(fields@);
    let mut builder = LayoutBuilder::new();
    builder.add(&Layout::new(1, 1));
    proof {
        lemma_fields_align_grows(1, fl);
        lemma_fields_end_grows(1, fl);
        lemma_round_up_ge(fields_end(1, fl), fields_align(1, fl));
        assert(fl.skip(0) =~= fl);
    }
    let mut k: usize = 0;
    while k < fields.len()
        invariant
            k <= fields@.len(),
            fl == field_layouts(fields@),
            fields_end(builder.spec_size() as int, fl.skip(k as int)) == fields_end(1, fl),
            fields_align(builder.spec_alignment() as int, fl.skip(k as int)) == fields_align(1, fl),
            builder.spec_alignment() > 0,
            fields_end(1, fl) <= round_up(fields_end(1, fl), fields_align(1, fl)),
            round_up(fields_end(1, fl), fields_align(1, fl)) <= usize::MAX,
        decreases fields@.len() - k,
    {
        let layout = fields[k].layout;
        let _ = layout.align();
        proof {
            let rest = fl.skip(k as int);
            assert(rest[0] == layout);
            assert(rest.drop_first() =~= fl.skip(k as int + 1));
            lemma_fields_end_grows(builder.spec_size() as int, rest);
        }
        builder.add(&layout);
        k = k + 1;
    }
    proof {
        assert(fl.skip(k as int) =~= Seq::<Layout>::empty());
    }
    builder.finish()
}

impl Type {
    /// The Roto name of this type.
    pub fn name(&self) -> (res: &str)
        ensures
            res@ == self.ident@,
    {
        self.ident.as_str()
    }

    /// The variants of a host enum, or `None` for an opaque type.
    pub fn enum_variants(&self) -> (res: Option<&Vec<RotoEnumVariant>>)
        ensures
            match self.enum_variants {
                Some(v) => res == Some(&v),
                None => res is None,
            },
    {
        match &self.enum_variants {
            Some(v) => Some(v),
            None => None,
        }
    }

    /// Register `ty` as an opaque type; only a leaf type or a `Val` can be
    /// one.
    fn new(name: &str, doc: &str, ty: &ResolvedType, movability: Movability, location: Location) -> (res: Result<Self, RegistrationError>)
        ensures
            opaque_registration(res, name@, doc@, *ty, movability, location),
    {
        check_name(&location, name)?;
        let allowed = match ty.description {
            TypeDescription::Leaf => true,
            TypeDescription::Val(_) => true,
            _ => false,
        };
        if !allowed {
            let mut message = String::from_str("Cannot register the type `");
            message.append(ty.rust_name.as_str());
            message.append(
                "` as an opaque type. Use `Val<T>` for ordinary custom types or `Type::enumeration` for a type implementing `RotoEnum`",
            );
            return Err(RegistrationError { message, location });
        }
        Ok(Self {
            ident: String::from_str(name),
            rust_name: ty.rust_name.clone(),
            doc: String::from_str(doc),
            type_id: ty.type_id,
            layout: ty.layout,
            movability,
            enum_variants: None,
            location,
        })
    }

    /// A type implementing `Clone`: its values are cloned and dropped
    /// through the host.
    pub fn clone(name: &str, doc: &str, ty: &ResolvedType, location: Location) -> (res: Result<Self, RegistrationError>)
        ensures
            opaque_registration(res, name@, doc@, *ty, Movability::CloneDrop, location),
    {
        Self::new(name, doc, ty, Movability::CloneDrop, location)
    }

    /// A type implementing `Copy`.
    pub fn copy(name: &str, doc: &str, ty: &ResolvedType, location: Location) -> (res: Result<Self, RegistrationError>)
        ensures
            opaque_registration(res, name@, doc@, *ty, Movability::Copy, location),
    {
        Self::new(name, doc, ty, Movability::Copy, location)
    }

    /// A host enum with a stable Roto-owned representation `repr`, under
    /// `name`, with its variants. Each variant is laid out as a one-byte tag
    /// followed by its fields; `repr` must have the layout of the union of
    /// those.
    pub fn enumeration(
        name: &str,
        doc: &str,
        ty: &ResolvedType,
        variants: Vec<RotoEnumVariant>,
        repr: Layout,
        location: Location,
    ) -> (res: Result<Self, RegistrationError>)
        requires
            variants@.len() > 0 ==> variants_layout(variants@, variants@.len() as int).0 <= usize::MAX,
        ensures
            match res {
                Ok(t) => {
                    &&& enumeration_error(name@, *ty, variants@, repr) is None
                    &&& t.ident@ == name@
                    &&& t.rust_name@ == ty.rust_name@
                    &&& t.doc@ == doc@
                    &&& t.type_id == ty.type_id
                    &&& t.layout == repr
                    &&& t.movability == Movability::CloneDrop
                    &&& t.enum_variants == Some(variants)
                    &&& t.location == location
                },
                Err(e) => enumeration_error(name@, *ty, variants@, repr) == Some(e.message@)
                    && e.location == location,
            },
    {
        check_name(&location, name)?;
        let is_enum = match ty.description {
            TypeDescription::Enum => true,
            _ => false,
        };
        if !is_enum {
            let mut message = String::from_str("`");
            message.append(ty.rust_name.as_str());
            message.append("` does not resolve to a Rust-backed Roto enum");
            return Err(RegistrationError { message, location });
        }
        let n = variants.len();
        if n == 0 {
            let message = String::from_str("A Rust-backed Roto enum needs at least one variant");
            return Err(RegistrationError { message, location });
        }
        if n > 256 {
            let message = String::from_str("A Rust-backed Roto enum can have at most 256 variants");
            return Err(RegistrationError { message, location });
        }
        let ghost vs = variants@;
        let mut expected = Layout::new(1, 1);
        let mut i: usize = 0;
        while i < n
            invariant
                is_valid_name(name.spec_bytes()),
                ty.description is Enum,
                0 < n <= 256,
                n == vs.len(),
                vs == variants@,
                i <= n,
                first_variant_problem(vs, i as int) is None,
                i > 0 ==> expected.spec_size() == variants_layout(vs, i as int).0
                    && expected.spec_align() == variants_layout(vs, i as int).1,
                expected.wf(),
                variants_layout(vs, n as int).0 <= usize::MAX,
            decreases n - i,
        {
            let v = &variants[i];
            if !is_valid_name_str(v.name()) {
                proof {
                    lemma_first_variant_problem_stays(vs, i as int + 1, n as int);
                }
                return Err(invalid_name_error(v.name(), location));
            }
            let mut j: usize = 0;
            while j < i
                invariant
                    is_valid_name(name.spec_bytes()),
                    ty.description is Enum,
                    0 < n <= 256,
                    first_variant_problem(vs, i as int) is None,
                    is_valid_name(encode_utf8(v.spec_name())),
                    i < n,
                    n == vs.len(),
                    vs == variants@,
                    *v == vs[i as int],
                    j <= i,
                    forall|k: int| 0 <= k < j ==> (#[trigger] vs[k]).spec_name() != v.spec_name(),
                decreases i - j,
            {
                if variants[j].name == v.name {
                    proof {
                        assert(vs[j as int].spec_name() == v.spec_name());
                        lemma_first_variant_problem_stays(vs, i as int + 1, n as int);
                    }
                    let mut message = String::from_str("Enum variant `");
                    message.append(v.name());
                    message.append("` is declared twice");
                    return Err(RegistrationError { message, location });
                }
                j = j + 1;
            }
            let mut j: usize = 0;
            while j < i
                invariant
                    is_valid_name(name.spec_bytes()),
                    ty.description is Enum,
                    0 < n <= 256,
                    first_variant_problem(vs, i as int) is None,
                    is_valid_name(encode_utf8(v.spec_name())),
                    forall|k: int| 0 <= k < i ==> (#[trigger] vs[k]).spec_name() != v.spec_name(),
                    i < n,
                    n == vs.len(),
                    vs == variants@,
                    *v == vs[i as int],
                    j <= i,
                    forall|k: int| 0 <= k < j ==> (#[trigger] vs[k]).spec_tag() != v.spec_tag(),
                decreases i - j,
            {
                if variants[j].tag == v.tag {
                    proof {
                        assert(vs[j as int].spec_tag() == v.spec_tag());
                        lemma_first_variant_problem_stays(vs, i as int + 1, n as int);
                    }
                    let mut message = String::from_str("Enum tag ");
                    let digits = decimal(v.tag as u64);
                    message.append(digits.as_str());
                    message.append(" is used by more than one variant");
                    return Err(RegistrationError { message, location });
                }
                j = j + 1;
            }
            proof {
                lemma_variants_layout_bounds(vs, i as int + 1, n as int);
            }
            let layout = variant_layout(&v.fields);
            if i == 0 {
                expected = layout;
            } else {
                expected = expected.union(&layout);
            }
            i = i + 1;
        }
        let ghost exp = variants_layout(vs, n as int);
        if repr.size() != expected.size() || repr.align() != expected.align() {
            let mut message = String::from_str("The stable representation of `");
            message.append(ty.rust_name.as_str());
            message.append("` has layout size ");
            message.append(decimal(repr.size() as u64).as_str());
            message.append(" align ");
            message.append(decimal(repr.align() as u64).as_str());
            message.append(", but its variants require size ");
            message.append(decimal(expected.size() as u64).as_str());
            message.append(" align ");
            message.append(decimal(expected.align() as u64).as_str());
            return Err(RegistrationError { message, location });
        }
        Ok(Self {
            ident: String::from_str(name),
            rust_name: ty.rust_name.clone(),
            doc: String::from_str(doc),
            type_id: ty.type_id,
            layout: repr,
            movability: Movability::CloneDrop,
            enum_variants: Some(variants),
            location,
        })
    }

    /// A plain value type, passed by value.
    pub(crate) fn value(name: &str, doc: &str, ty: &ResolvedType, location: Location) -> (res: Result<Self, RegistrationError>)
        ensures
            opaque_registration(res, name@, doc@, *ty, Movability::Value, location),
    {
        Self::new(name, doc, ty, Movability::Value, location)
    }
}

impl Registerable for Type {
    open spec fn registered(&self) -> Seq<Item> {
        seq![Item::Type(*self)]
    }

    fn into_lib(self) -> (res: Library) {
        Item::Type(self).into_lib()
    }

    fn add_to_lib(self, lib: &mut Library) {
        Item::Type(self).add_to_lib(lib)
    }
}

/// A function that can be registered.
#[derive(Debug)]
pub struct Function {
    pub ident: String,
    pub doc: String,
    pub params: Vec<String>,
    pub func: FunctionDescription,
    pub sig: Option<String>,
    pub location: Location,
    pub vtables: Vec<String>,
}

/// The names of the parameters `params`, as strings.
pub open spec fn strs_view(params: Seq<&str>) -> Seq<Seq<char>> {
    Seq::new(params.len(), |i: int| params[i]@)
}

pub open spec fn strings_view(params: Seq<String>) -> Seq<Seq<char>> {
    Seq::new(params.len(), |i: int| params[i]@)
}

fn to_strings(params: &Vec<&str>, from: usize) -> (res: Vec<String>)
    requires
        from <= params@.len(),
    ensures
        strings_view(res@) == strs_view(params@).skip(from as int),
{
    let mut out: Vec<String> = Vec::new();
    let mut i = from;
    while i < params.len()
        invariant
            from <= i <= params@.len(),
            out@.len() == i - from,
            forall|j: int| 0 <= j < i - from ==> (#[trigger] out@[j])@ == params@[j + from]@,
        decreases params@.len() - i,
    {
        out.push(String::from_str(params[i]));
        i = i + 1;
    }
    assert(strings_view(out@) =~= strs_view(params@).skip(from as int));
    out
}

impl Function {
    /// Construct a new [`Function`] for the host function described by
    /// `func`, with the names of its parameters. The out pointer of a
    /// function that has one is not a parameter.
    pub fn new(name: &str, doc: &str, params: Vec<&str>, func: FunctionDescription, location: Location) -> (res: Result<Self, RegistrationError>)
        requires
            func.has_out_ptr ==> params@.len() > 0,
        ensures
            res is Ok <==> is_valid_name(name.spec_bytes()),
            res matches Err(e) ==> e.message@ == invalid_name_message(name@) && e.location == location,
            res matches Ok(f) ==> {
                &&& f.ident@ == name@
                &&& f.doc@ == doc@
                &&& strings_view(f.params@) == strs_view(params@).skip(if func.has_out_ptr { 1 } else { 0 })
                &&& f.func == func
                &&& f.sig is None
                &&& f.vtables@.len() == 0
                &&& f.location == location
            },
    {
        check_name(&location, name)?;
        let from: usize = if func.has_out_ptr { 1 } else { 0 };
        let params = to_strings(&params, from);
        Ok(Self {
            ident: String::from_str(name),
            doc: String::from_str(doc),
            params,
            sig: None,
            func,
            vtables: Vec::new(),
            location,
        })
    }

    /// Create a new generic Roto function with its signature and the type
    /// parameters for which it takes vtables.
    pub(crate) fn new_generic(
        name: &str,
        doc: &str,
        params: Vec<&str>,
        func: FunctionDescription,
        sig: &str,
        vtables: Vec<&str>,
        location: Location,
    ) -> (res: Result<Self, RegistrationError>)
        requires
            func.has_out_ptr ==> params@.len() > 0,
        ensures
            res is Ok <==> is_valid_name(name.spec_bytes()),
            res matches Err(e) ==> e.message@ == invalid_name_message(name@) && e.location == location,
            res matches Ok(f) ==> {
                &&& f.ident@ == name@
                &&& f.doc@ == doc@
                &&& strings_view(f.params@) == strs_view(params@).skip(if func.has_out_ptr { 1 } else { 0 })
                &&& f.func == func
                &&& f.sig matches Some(s) && s@ == sig@
                &&& strings_view(f.vtables@) == strs_view(vtables@)
                &&& f.location == location
            },
    {
        check_name(&location, name)?;
        let from: usize = if func.has_out_ptr { 1 } else { 0 };
        let params = to_strings(&params, from);
        let vtable_names = to_strings(&vtables, 0);
        proof {
            assert(strs_view(vtables@).skip(0) =~= strs_view(vtables@));
        }
        Ok(Self {
            ident: String::from_str(name),
            doc: String::from_str(doc),
            params,
            sig: Some(String::from_str(sig)),
            func,
            vtables: vtable_names,
            location,
        })
    }
}

impl Registerable for Function {
    open spec fn registered(&self) -> Seq<Item> {
        seq![Item::Function(*self)]
    }

    fn into_lib(self) -> (res: Library) {
        Item::Function(self).into_lib()
    }

    fn add_to_lib(self, lib: &mut Library) {
        Item::Function(self).add_to_lib(lib)
    }
}

/// Host implementation of Roto's raw, compiled regex literals: the host
/// type that regex literals compile to.
#[derive(Debug)]
pub struct RegexLiteral {
    pub type_id: HostTypeId,
    pub location: Location,
}

impl RegexLiteral {
    /// A regex literal provider whose literals compile to values of `ty`.
    pub fn new(ty: &ResolvedType, location: Location) -> (res: Self)
        ensures
            res.type_id == ty.type_id,
            res.location == location,
    {
        RegexLiteral { type_id: ty.type_id, location }
    }
}

impl Registerable for RegexLiteral {
    open spec fn registered(&self) -> Seq<Item> {
        seq![Item::RegexLiteral(*self)]
    }

    fn into_lib(self) -> (res: Library) {
        Item::RegexLiteral(self).into_lib()
    }

    fn add_to_lib(self, lib: &mut Library) {
        Item::RegexLiteral(self).add_to_lib(lib)
    }
}

/// A constant value
#[derive(Debug)]
pub struct Constant {
    pub ident: String,
    pub ty: HostType,
    pub doc: String,
    pub value: ConstantValue,
    pub location: Location,
}

impl Constant {
    /// Construct a new [`Constant`] of the host type `ty`.
    pub fn new(name: &str, doc: &str, ty: &ResolvedType, value: ConstantValue, location: Location) -> (res: Result<Self, RegistrationError>)
        ensures
            res is Ok <==> is_valid_name(name.spec_bytes()),
            res matches Ok(c) ==> c.ident@ == name@ && c.doc@ == doc@ && c.ty == ty.host()
                && c.value == value && c.location == location,
            res matches Err(e) ==> e.message@ == invalid_name_message(name@) && e.location == location,
    {
        check_name(&location, name)?;
        Ok(Self { ident: String::from_str(name), doc: String::from_str(doc), ty: ty.host_type(), value, location })
    }
}

impl Registerable for Constant {
    open spec fn registered(&self) -> Seq<Item> {
        seq![Item::Constant(*self)]
    }

    fn into_lib(self) -> (res: Library) {
        Item::Constant(self).into_lib()
    }

    fn add_to_lib(self, lib: &mut Library) {
        Item::Constant(self).add_to_lib(lib)
    }
}

/// An impl block, which adds methods to a type.
#[derive(Debug)]
pub struct Impl {
    pub ty: HostTypeId,
    pub children: Vec<Item>,
    pub location: Location,
}

impl Impl {
    /// Construct a new [`Impl`] block for the host type `ty`.
    pub fn new(ty: &ResolvedType, location: Location) -> (res: Self)
        ensures
            res.ty == ty.type_id,
            res.children@.len() == 0,
            res.location == location,
    {
        Self { ty: ty.type_id, children: Vec::new(), location }
    }

    /// Add more registerable items to this [`Impl`] block.
    pub fn add<R: Registerable>(&mut self, items: R)
        ensures
            final(self).children@ == old(self).children@ + items.registered(),
            final(self).ty == old(self).ty,
            final(self).location == old(self).location,
    {
        let mut lib = items.into_lib();
        self.children.append(&mut lib.items);
    }
}

impl Registerable for Impl {
    open spec fn registered(&self) -> Seq<Item> {
        seq![Item::Impl(*self)]
    }

    fn into_lib(self) -> (res: Library) {
        Item::Impl(self).into_lib()
    }

    fn add_to_lib(self, lib: &mut Library) {
        Item::Impl(self).add_to_lib(lib)
    }
}

/// A use item, representing an import of items.
#[derive(Debug)]
pub struct Use {
    pub imports: Vec<Vec<String>>,
    pub location: Location,
}

impl Use {
    /// Construct a new [`Use`]; each element of `imports` is a path to an
    /// item to import.
    pub fn new(imports: Vec<Vec<String>>, location: Location) -> (res: Self)
        ensures
            res.imports == imports,
            res.location == location,
    {
        Self { imports, location }
    }
}

impl Registerable for Use {
    open spec fn registered(&self) -> Seq<Item> {
        seq![Item::Use(*self)]
    }

    fn into_lib(self) -> (res: Library) {
        Item::Use(self).into_lib()
    }

    fn add_to_lib(self, lib: &mut Library) {
        Item::Use(self).add_to_lib(lib)
    }
}

impl From<Vec<Item>> for Library {
    fn from(v: Vec<Item>) -> (res: Self) {
        Self { items: v }
    }
}

impl vstd::std_specs::convert::FromSpecImpl<Vec<Item>> for Library {
    open spec fn obeys_from_spec() -> bool {
        true
    }

    open spec fn from_spec(v: Vec<Item>) -> Self {
        Library { items: v }
    }
}

impl From<Function> for Item {
    fn from(v: Function) -> (res: Self) {
        Item::Function(v)
    }
}

impl vstd::std_specs::convert::FromSpecImpl<Function> for Item {
    open spec fn obeys_from_spec() -> bool {
        true
    }

    open spec fn from_spec(v: Function) -> Self {
        Item::Function(v)
    }
}

impl From<Type> for Item {
    fn from(v: Type) -> (res: Self) {
        Item::Type(v)
    }
}

impl vstd::std_specs::convert::FromSpecImpl<Type> for Item {
    open spec fn obeys_from_spec() -> bool {
        true
    }

    open spec fn from_spec(v: Type) -> Self {
        Item::Type(v)
    }
}

impl From<Module> for Item {
    fn from(v: Module) -> (res: Self) {
        Item::Module(v)
    }
}

impl vstd::std_specs::convert::FromSpecImpl<Module> for Item {
    open spec fn obeys_from_spec() -> bool {
        true
    }

    open spec fn from_spec(v: Module) -> Self {
        Item::Module(v)
    }
}

impl From<Constant> for Item {
    fn from(v: Constant) -> (res: Self) {
        Item::Constant(v)
    }
}

impl vstd::std_specs::convert::FromSpecImpl<Constant> for Item {
    open spec fn obeys_from_spec() -> bool {
        true
    }

    open spec fn from_spec(v: Constant) -> Self {
        Item::Constant(v)
    }
}

impl From<Impl> for Item {
    fn from(v: Impl) -> (res: Self) {
        Item::Impl(v)
    }
}

impl vstd::std_specs::convert::FromSpecImpl<Impl> for Item {
    open spec fn obeys_from_spec() -> bool {
        true
    }

    open spec fn from_spec(v: Impl) -> Self {
        Item::Impl(v)
    }
}

impl From<Use> for Item {
    fn from(v: Use) -> (res: Self) {
        Item::Use(v)
    }
}

impl vstd::std_specs::convert::FromSpecImpl<Use> for Item {
    open spec fn obeys_from_spec() -> bool {
        true
    }

    open spec fn from_spec(v: Use) -> Self {
        Item::Use(v)
    }
}

impl From<RegexLiteral> for Item {
    fn from(v: RegexLiteral) -> (res: Self) {
        Item::RegexLiteral(v)
    }
}

impl vstd::std_specs::convert::FromSpecImpl<RegexLiteral> for Item {
    open spec fn obeys_from_spec() -> bool {
        true
    }

    open spec fn from_spec(v: RegexLiteral) -> Self {
        Item::RegexLiteral(v)
    }
}

} // verus!
