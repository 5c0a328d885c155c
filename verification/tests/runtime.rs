use roto::runtime::items::{
    Constant, ConstantValue, Function, FunctionDescription, HostType, Impl, Item, Library,
    Location, Module, RegexLiteral, Registerable, ResolvedType, RotoEnumVariant, Type,
    TypeDescription, Use,
};
use roto::runtime::docs::{split_items, DocConst, DocFn, DocItem};
use roto::runtime::layout::Layout;
use roto::runtime::registry::{primitive_type, Runtime};
use roto::typechecker::types::{FloatSize, HostLayouts, HostTypeId, IntKind, IntSize, Primitive};

fn loc() -> Location {
    Location { file: "tests/runtime.rs".to_string(), line: 1, column: 1 }
}

fn prim<T>(name: &str) -> ResolvedType {
    primitive_type(name, Layout::new(std::mem::size_of::<T>(), std::mem::align_of::<T>())).unwrap()
}

fn host(t: &ResolvedType) -> HostType {
    t.host_type()
}

fn function(name: &str, params: Vec<&ResolvedType>, ret: Option<&ResolvedType>) -> Function {
    let names: Vec<&str> = params.iter().map(|_| "x").collect();
    Function::new(
        name,
        "",
        names,
        FunctionDescription {
            parameter_types: params.iter().map(|t| host(t)).collect(),
            return_type: ret.map(host),
            has_out_ptr: false,
        },
        loc(),
    )
    .unwrap()
}

fn constant(name: &str, ty: &ResolvedType, value: u64) -> Constant {
    Constant::new(name, "", ty, ConstantValue(value), loc()).unwrap()
}

/// A host type `Val<Option<Arc<str>>>`.
fn val_option_str() -> ResolvedType {
    ResolvedType {
        type_id: HostTypeId(100),
        rust_name: "Val<Option<Arc<str>>>".to_string(),
        layout: Layout::new(16, 8),
        description: TypeDescription::Val(HostTypeId(101)),
    }
}

/// A host type `Option<Arc<str>>`.
fn option_str() -> ResolvedType {
    let string = prim::<std::sync::Arc<str>>("String");
    ResolvedType {
        type_id: HostTypeId(101),
        rust_name: "Option<Arc<str>>".to_string(),
        layout: Layout::new(16, 8),
        description: TypeDescription::Option(string.type_id),
    }
}

#[test]
fn constant_declared_twice() {
    let u32_ty = prim::<u32>("u32");
    let mut lib = Library::new();
    lib.add(Item::Constant(constant("FOO", &u32_ty, 10)));
    lib.add(Item::Constant(constant("FOO", &u32_ty, 12)));
    Runtime::from_lib(lib).unwrap_err();
}

#[test]
fn function_declared_twice() {
    let bool_ty = prim::<bool>("bool");
    let mut lib = Library::new();
    lib.add(Item::Function(function("foo", vec![], None)));
    lib.add(Item::Function(function("foo", vec![], Some(&bool_ty))));
    Runtime::from_lib(lib).unwrap_err();
}

#[test]
fn method_declared_twice() {
    let bool_ty = prim::<bool>("bool");
    let mut lib = Library::new();
    lib.add(Item::Function(function("foo", vec![&bool_ty], None)));
    lib.add(Item::Function(function("foo", vec![&bool_ty], Some(&bool_ty))));
    Runtime::from_lib(lib).unwrap_err();
}

#[test]
fn static_method_declared_twice() {
    let bool_ty = prim::<bool>("bool");
    let mut lib = Library::new();
    lib.add(Item::Function(function("foo", vec![], None)));
    lib.add(Item::Function(function("foo", vec![], Some(&bool_ty))));
    Runtime::from_lib(lib).unwrap_err();
}

#[test]
fn method_and_static_method_with_the_same_name() {
    let bool_ty = prim::<bool>("bool");
    let mut imp = Impl::new(&bool_ty, loc());
    imp.add(Item::Function(function("foo", vec![&bool_ty], None)));
    imp.add(Item::Function(function("foo", vec![], Some(&bool_ty))));
    let mut lib = Library::new();
    lib.add(Item::Impl(imp));
    Runtime::from_lib(lib).unwrap_err();
}

#[test]
fn function_and_method_with_the_same_name() {
    let bool_ty = prim::<bool>("bool");
    let mut imp = Impl::new(&bool_ty, loc());
    imp.add(Item::Function(function("foo", vec![&bool_ty], Some(&bool_ty))));
    let mut lib = Library::new();
    lib.add(Item::Function(function("foo", vec![&bool_ty], None)));
    lib.add(Item::Impl(imp));
    Runtime::from_lib(lib).unwrap();
}

#[test]
fn function_and_constant_with_the_same_name_1() {
    let bool_ty = prim::<bool>("bool");
    let mut lib = Library::new();
    lib.add(Item::Function(function("foo", vec![&bool_ty], None)));
    lib.add(Item::Constant(constant("foo", &bool_ty, 1)));
    Runtime::from_lib(lib).unwrap_err();
}

#[test]
fn function_and_constant_with_the_same_name_2() {
    let bool_ty = prim::<bool>("bool");
    let mut lib = Library::new();
    lib.add(Item::Constant(constant("foo", &bool_ty, 1)));
    lib.add(Item::Function(function("foo", vec![&bool_ty], None)));
    Runtime::from_lib(lib).unwrap_err();
}

#[test]
fn register_val_option_arc_str() {
    let ty = Type::clone("OptStr", "", &val_option_str(), loc()).unwrap();
    Runtime::from_lib(Item::Type(ty)).unwrap();
}

#[test]
fn register_option_arc_str_is_refused_as_an_opaque_type() {
    let err = Type::clone("OptStr", "", &option_str(), loc()).unwrap_err();
    assert!(err.to_string().starts_with("Cannot register the type `Option<Arc<str>>` as an opaque type."));
}

/// The host type of a payload registered with `Val`.
fn payload() -> ResolvedType {
    ResolvedType {
        type_id: HostTypeId(200),
        rust_name: "Val<Payload>".to_string(),
        layout: Layout::new(4, 4),
        description: TypeDescription::Val(HostTypeId(201)),
    }
}

fn external_enum() -> ResolvedType {
    ResolvedType {
        type_id: HostTypeId(300),
        rust_name: "External".to_string(),
        layout: Layout::new(12, 4),
        description: TypeDescription::Enum,
    }
}

#[test]
fn register_rust_backed_enum() {
    let u32_ty = prim::<u32>("u32");
    let variants = vec![
        RotoEnumVariant::new("Unit", 0, "", vec![]),
        RotoEnumVariant::new("Pair", 1, "", vec![u32_ty.clone(), payload()]),
    ];
    // A tag byte, then the `u32` at offset 4 and the payload at offset 8.
    let repr = Layout::new(12, 4);
    let mut lib = Library::new();
    lib.add(Item::Type(Type::enumeration("External", "", &external_enum(), variants, repr, loc()).unwrap()));
    lib.add(Item::Type(Type::clone("Payload", "", &payload(), loc()).unwrap()));

    let runtime = Runtime::from_lib(lib).unwrap();

    let ty = runtime.types().iter().find(|ty| ty.name() == "External").unwrap();
    let variants = ty.enum_variants().unwrap();
    assert_eq!(variants.len(), 2);
    assert_eq!(variants[0].name(), "Unit");
    assert!(variants[0].fields().is_empty());
    assert_eq!(variants[1].name(), "Pair");
    assert_eq!(variants[1].fields().len(), 2);
    assert_eq!(variants[0].tag(), 0);
    assert_eq!(variants[1].tag(), 1);
}

#[test]
fn rust_backed_enum_rejects_duplicate_tags() {
    let variants = vec![
        RotoEnumVariant::new("First", 1, "", vec![]),
        RotoEnumVariant::new("Second", 1, "", vec![]),
    ];
    let error = Type::enumeration("External", "", &external_enum(), variants, Layout::new(1, 1), loc())
        .unwrap_err();
    assert!(error.to_string().contains("tag 1"));
}

#[test]
fn unwrap_or_empty() {
    let string = prim::<std::sync::Arc<str>>("String");
    let mut imp = Impl::new(&val_option_str(), loc());
    imp.add(Item::Function(function("unwrap_or_empty", vec![&option_str()], Some(&string))));
    let mut lib = Library::new();
    lib.add(Item::Type(Type::clone("OptStr", "", &val_option_str(), loc()).unwrap()));
    lib.add(Item::Impl(imp));
    Runtime::from_lib(lib).unwrap();
}

#[test]
fn enumeration_checks_each_variant_and_the_layout() {
    let u8_ty = prim::<u8>("u8");
    let ok = || {
        vec![
            RotoEnumVariant::new("A", 0, "", vec![]),
            RotoEnumVariant::new("B", 7, "", vec![u8_ty.clone()]),
        ]
    };
    // Both variants fit in two bytes aligned to one.
    assert!(Type::enumeration("E", "", &external_enum(), ok(), Layout::new(2, 1), loc()).is_ok());
    let err = Type::enumeration("E", "", &external_enum(), ok(), Layout::new(4, 1), loc()).unwrap_err();
    assert_eq!(
        err.to_string(),
        "The stable representation of `External` has layout size 4 align 1, but its variants require size 2 align 1"
    );

    let err = Type::enumeration("E", "", &external_enum(), vec![], Layout::new(1, 1), loc()).unwrap_err();
    assert_eq!(err.to_string(), "A Rust-backed Roto enum needs at least one variant");

    let twice = vec![RotoEnumVariant::new("A", 0, "", vec![]), RotoEnumVariant::new("A", 1, "", vec![])];
    let err = Type::enumeration("E", "", &external_enum(), twice, Layout::new(1, 1), loc()).unwrap_err();
    assert_eq!(err.to_string(), "Enum variant `A` is declared twice");

    let bad = vec![RotoEnumVariant::new("accept", 0, "", vec![])];
    let err = Type::enumeration("E", "", &external_enum(), bad, Layout::new(1, 1), loc()).unwrap_err();
    assert_eq!(err.to_string(), "`accept` is not a valid Roto identifier");

    let err = Type::enumeration("E", "", &payload(), ok(), Layout::new(2, 1), loc()).unwrap_err();
    assert_eq!(err.to_string(), "`Val<Payload>` does not resolve to a Rust-backed Roto enum");

    let many: Vec<RotoEnumVariant> = (0..257).map(|i| RotoEnumVariant::new(&format!("V{i}"), 0, "", vec![])).collect();
    let err = Type::enumeration("E", "", &external_enum(), many, Layout::new(1, 1), loc()).unwrap_err();
    assert_eq!(err.to_string(), "A Rust-backed Roto enum can have at most 256 variants");
}

#[test]
fn invalid_names_are_refused() {
    let bool_ty = prim::<bool>("bool");
    for name in ["accept", "true", "AS10", "1x", "", "fn", "with space"] {
        assert!(Constant::new(name, "", &bool_ty, ConstantValue(0), loc()).is_err());
        assert!(Module::new(name, "", loc()).is_err());
        assert!(Type::copy(name, "", &bool_ty, loc()).is_err());
    }
    let err = Constant::new("accept", "", &bool_ty, ConstantValue(0), loc()).unwrap_err();
    assert_eq!(err.to_string(), "`accept` is not a valid Roto identifier");
    for name in ["x", "_private", "AS", "ASx1", "accepted", "CamelCase9"] {
        assert!(Constant::new(name, "", &bool_ty, ConstantValue(0), loc()).is_ok());
    }
}

#[test]
fn builtin_type_names_are_taken() {
    let bool_ty = prim::<bool>("bool");
    let mut lib = Library::new();
    lib.add(Item::Constant(constant("Option", &bool_ty, 0)));
    Runtime::from_lib(lib).unwrap_err();
    assert!(primitive_type("Option", Layout::new(1, 1)).is_none());
    assert_eq!(prim::<u8>("u8").type_id, HostTypeId(1));
    assert_eq!(prim::<bool>("bool").type_id, HostTypeId(11));
}

#[test]
fn types_may_be_used_before_they_are_registered() {
    let mut lib = Library::new();
    lib.add(Item::Constant(constant("P", &payload(), 0)));
    lib.add(Item::Type(Type::clone("Payload", "", &payload(), loc()).unwrap()));
    Runtime::from_lib(lib).unwrap();

    let mut lib = Library::new();
    lib.add(Item::Constant(constant("P", &payload(), 0)));
    Runtime::from_lib(lib).unwrap_err();
}

#[test]
fn modules_have_their_own_scope() {
    let bool_ty = prim::<bool>("bool");
    let mut m = Module::new("inner", "", loc()).unwrap();
    m.add(Item::Constant(constant("foo", &bool_ty, 1)));
    let mut lib = Library::new();
    lib.add(Item::Constant(constant("foo", &bool_ty, 0)));
    lib.add(Item::Module(m));
    let runtime = Runtime::from_lib(lib).unwrap();

    let mut m = Module::new("inner", "", loc()).unwrap();
    m.add(Item::Constant(constant("foo", &bool_ty, 1)));
    m.add(Item::Constant(constant("foo", &bool_ty, 2)));
    let mut rt = runtime;
    assert!(rt.add(Item::Module(m)).is_err());
}

#[test]
fn a_failed_registration_leaves_the_runtime_as_it_was() {
    let bool_ty = prim::<bool>("bool");
    let mut rt = Runtime::new();
    rt.add(Item::Type(Type::clone("Payload", "", &payload(), loc()).unwrap())).unwrap();
    let mut lib = Library::new();
    lib.add(Item::Type(Type::clone("Other", "", &val_option_str(), loc()).unwrap()));
    lib.add(Item::Constant(constant("x", &bool_ty, 0)));
    lib.add(Item::Constant(constant("x", &bool_ty, 1)));
    assert!(rt.add(lib).is_err());
    assert_eq!(rt.types().len(), 1);
    // The names of the failed library are free again.
    let mut lib = Library::new();
    lib.add(Item::Type(Type::clone("Other", "", &val_option_str(), loc()).unwrap()));
    lib.add(Item::Constant(constant("x", &bool_ty, 0)));
    rt.add(lib).unwrap();
    assert_eq!(rt.types().len(), 2);
}

#[test]
fn impl_blocks_hold_functions_of_registered_types() {
    let bool_ty = prim::<bool>("bool");
    let mut imp = Impl::new(&payload(), loc());
    imp.add(Item::Function(function("get", vec![&payload()], Some(&bool_ty))));
    Runtime::from_lib(imp).unwrap_err();

    let mut imp = Impl::new(&bool_ty, loc());
    imp.add(Item::Constant(constant("c", &bool_ty, 0)));
    Runtime::from_lib(imp).unwrap_err();
}

#[test]
fn one_regex_literal_provider_of_a_registered_type() {
    let pattern = ResolvedType {
        type_id: HostTypeId(400),
        rust_name: "Val<Pattern>".to_string(),
        layout: Layout::new(24, 8),
        description: TypeDescription::Val(HostTypeId(401)),
    };
    let mut lib = Library::new();
    lib.add(Item::Type(Type::clone("Pattern", "", &pattern, loc()).unwrap()));
    lib.add(Item::RegexLiteral(RegexLiteral::new(&pattern, loc())));
    let mut rt = Runtime::from_lib(lib).unwrap();
    assert!(rt.add(Item::RegexLiteral(RegexLiteral::new(&pattern, loc()))).is_err());

    Runtime::from_lib(Item::RegexLiteral(RegexLiteral::new(&pattern, loc()))).unwrap_err();
}

#[test]
fn imports_must_resolve() {
    let bool_ty = prim::<bool>("bool");
    let mut m = Module::new("inner", "", loc()).unwrap();
    m.add(Item::Constant(constant("foo", &bool_ty, 1)));
    let mut lib = Library::new();
    lib.add(Item::Use(Use::new(vec![vec!["inner".to_string(), "foo".to_string()]], loc())));
    lib.add(Item::Module(m));
    Runtime::from_lib(lib).unwrap();

    let u = Use::new(vec![vec!["inner".to_string(), "bar".to_string()]], loc());
    Runtime::from_lib(u).unwrap_err();
}

#[test]
fn libraries_flatten_vectors_of_items() {
    let bool_ty = prim::<bool>("bool");
    let items = vec![Item::Constant(constant("a", &bool_ty, 0)), Item::Constant(constant("b", &bool_ty, 1))];
    let lib = items.into_lib();
    assert_eq!(lib.items.len(), 2);
}

fn doc_file<'a>(files: &'a [roto::runtime::docs::DocFile], path: &[&str]) -> &'a str {
    files
        .iter()
        .find(|f| f.path.len() == path.len() && f.path.iter().zip(path).all(|(a, b)| a == b))
        .map(|f| f.contents.as_str())
        .unwrap()
}

#[test]
fn rust_backed_enum_appears_in_generated_documentation() {
    let u32_ty = prim::<u32>("u32");
    let bool_ty = prim::<bool>("bool");
    let variants = vec![
        RotoEnumVariant::new("Unit", 0, "No associated data.", vec![]),
        RotoEnumVariant::new("Pair", 1, "A number and a flag.", vec![u32_ty, bool_ty]),
    ];
    let ty = Type::enumeration(
        "External",
        "An enum supplied by the embedding application.",
        &external_enum(),
        variants,
        Layout::new(12, 4),
        loc(),
    )
    .unwrap();
    let runtime = Runtime::from_lib(Item::Type(ty)).unwrap();
    let files = runtime.documentation();
    let docs = doc_file(&files, &["External"]);
    assert!(docs.contains("An enum supplied by the embedding application."));
    assert!(docs.contains("{roto:variant} Unit"));
    assert!(docs.contains("No associated data."));
    assert!(docs.contains("{roto:variant} Pair(u32, bool)"));
    assert!(docs.contains("A number and a flag."));
}

#[test]
fn documentation_pages_list_items_by_name() {
    let bool_ty = prim::<bool>("bool");
    let u32_ty = prim::<u32>("u32");
    let mut m = Module::new("net", "Networking.", loc()).unwrap();
    m.add(Item::Constant(Constant::new("ZERO", "Nothing\r\nat all", &u32_ty, ConstantValue(0), loc()).unwrap()));
    let mut lib = Library::new();
    lib.add(Item::Function(
        Function::new(
            "zeta",
            "Last.",
            vec!["a", "b"],
            FunctionDescription {
                parameter_types: vec![host(&u32_ty), host(&bool_ty)],
                return_type: Some(host(&bool_ty)),
                has_out_ptr: false,
            },
            loc(),
        )
        .unwrap(),
    ));
    lib.add(Item::Function(function("alpha", vec![], None)));
    lib.add(Item::Module(m));
    let mut imp = Impl::new(&u32_ty, loc());
    imp.add(Item::Function(function("double", vec![&u32_ty], Some(&u32_ty))));
    lib.add(Item::Impl(imp));
    let runtime = Runtime::from_lib(lib).unwrap();
    let files = runtime.documentation();

    let root = doc_file(&files, &[]);
    assert!(root.starts_with("# Standard Library\n\n\n## Modules \n```{toctree}\n:maxdepth: 1\nnet <net/index>\n```\n## Types\n"));
    let alpha = root.find("````{roto:function} alpha()\n````\n\n").unwrap();
    let zeta = root.find("````{roto:function} zeta(a: u32, b: bool) -> bool\nLast.\n````\n\n").unwrap();
    assert!(alpha < zeta);
    assert!(root.contains("u32 <u32/index>\n"));

    let net = doc_file(&files, &["net"]);
    assert_eq!(
        net,
        "# net\n\nNetworking.\n## Constants\n`````{roto:constant} ZERO: u32\nNothing\nat all\n`````\n\n"
    );

    let u32_page = doc_file(&files, &["u32"]);
    assert_eq!(
        u32_page,
        "# u32\n`````{roto:type} u32\n`````\n\n\n````{roto:method} u32.double(x: u32) -> u32\n````\n\n"
    );
}

fn pattern_type() -> ResolvedType {
    ResolvedType {
        type_id: HostTypeId(500),
        rust_name: "Val<CompiledPattern>".to_string(),
        layout: Layout::new(24, 8),
        description: TypeDescription::Val(HostTypeId(501)),
    }
}

#[test]
fn regex_provider_registration_rejects_unregistered_types_and_duplicates() {
    let mut runtime = Runtime::new();
    let before = runtime.declarations().len();
    let error = runtime.add(RegexLiteral::new(&pattern_type(), loc())).unwrap_err();
    assert!(error.to_string().contains("unregistered type"));
    runtime.add(Type::clone("HostPattern", "", &pattern_type(), loc()).unwrap()).unwrap();
    runtime.add(RegexLiteral::new(&pattern_type(), loc())).unwrap();

    let error = runtime.add(RegexLiteral::new(&pattern_type(), loc())).unwrap_err();
    assert!(error.to_string().contains("Only one regex literal provider"));
    assert_eq!(runtime.declarations().len(), before + 1);
}

#[test]
fn regex_provider_uses_the_actual_namespaced_registered_type() {
    let mut host = Module::new("host", "", loc()).unwrap();
    host.add(Item::RegexLiteral(RegexLiteral::new(&pattern_type(), loc())));
    host.add(Item::Type(Type::clone("Matcher", "", &pattern_type(), loc()).unwrap()));
    let runtime = Runtime::from_lib(host).unwrap();
    assert!(runtime.types().iter().any(|t| t.name() == "Matcher"));
}

#[test]
fn primitive_layouts_follow_their_width_or_the_host() {
    let host = HostLayouts {
        character: Layout::new(4, 4),
        string: Layout::new(16, 8),
        ip_addr: Layout::new(17, 1),
        prefix: Layout::new(18, 1),
    };
    let of = |p: Primitive| {
        let l = p.layout(&host);
        (l.size(), l.align())
    };
    assert_eq!(of(Primitive::Int(IntKind::Signed, IntSize::I16)), (2, 2));
    assert_eq!(of(Primitive::Int(IntKind::Unsigned, IntSize::I64)), (8, 8));
    assert_eq!(of(Primitive::Float(FloatSize::F32)), (4, 4));
    assert_eq!(of(Primitive::Float(FloatSize::F64)), (8, 8));
    assert_eq!(of(Primitive::Bool), (1, 1));
    assert_eq!(of(Primitive::Asn), (4, 4));
    assert_eq!(of(Primitive::Char), (4, 4));
    assert_eq!(of(Primitive::String), (16, 8));
    assert_eq!(of(Primitive::IpAddr), (17, 1));
    assert_eq!(of(Primitive::Prefix), (18, 1));
}

fn doc_fn(receiver: Option<&str>, ident: &str, doc: &str) -> DocItem {
    DocItem::Fn(DocFn {
        receiver: receiver.map(|r| r.to_string()),
        ident: ident.to_string(),
        params: vec![],
        ret: None,
        doc: doc.to_string(),
    })
}

fn fn_fields(it: &DocItem) -> (Option<String>, String, String) {
    match it {
        DocItem::Fn(f) => (f.receiver.clone(), f.ident.clone(), f.doc.clone()),
        _ => panic!("not a function"),
    }
}

#[test]
fn split_items_orders_equal_names_by_their_remaining_fields() {
    let items = vec![doc_fn(None, "a", "z"), doc_fn(None, "a", "b")];
    let split = split_items(&items);
    let order: Vec<_> = split.functions.iter().map(|f| fn_fields(f).2).collect();
    assert_eq!(order, ["b", "z"]);
}

#[test]
fn split_items_orders_functions_by_receiver_first() {
    let items = vec![
        doc_fn(Some("T"), "a", ""),
        doc_fn(None, "b", ""),
        DocItem::Const(DocConst { ident: "c".to_string(), ty: "u8".to_string(), doc: String::new() }),
        doc_fn(Some("S"), "z", ""),
    ];
    let split = split_items(&items);
    let order: Vec<_> = split.functions.iter().map(|f| fn_fields(f)).map(|(r, i, _)| (r, i)).collect();
    assert_eq!(
        order,
        [(None, "b".to_string()), (Some("S".to_string()), "z".to_string()), (Some("T".to_string()), "a".to_string())]
    );
    assert_eq!(split.constants.len(), 1);
}
