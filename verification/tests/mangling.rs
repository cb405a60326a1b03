use geode_codegen::text::{str_eq, trim};
use geode_codegen::windows_symbol::{
    access_token, encode_arg_type, encode_class_path, encode_enum_type, encode_pointer_type,
    encode_return_type, encode_value_type, generate_windows_symbol, mangle_ident, primitive_code,
    split_qualified, strip_const, AccessModifier, Arg, FunctionBindField, FunctionType,
    MemberFunctionProto, Type,
};

fn proto(name: &str, ret: &str, args: &[&str]) -> MemberFunctionProto {
    MemberFunctionProto {
        name: name.into(),
        ret: Type::new(ret),
        args: args
            .iter()
            .map(|ty| Arg {
                name: String::new(),
                ty: Type::new(ty),
            })
            .collect(),
        ..Default::default()
    }
}

fn symbol(class: &str, prototype: MemberFunctionProto) -> Option<String> {
    generate_windows_symbol(class, &FunctionBindField { prototype })
}

#[test]
fn mangle_ident_unqualified() {
    assert_eq!(mangle_ident("CCNode"), "CCNode@");
    assert_eq!(mangle_ident(""), "@");
}

#[test]
fn mangle_ident_reverses_namespaces() {
    assert_eq!(mangle_ident("cocos2d::CCNode"), "CCNode@cocos2d@");
    assert_eq!(mangle_ident("a::b::C"), "C@b@a@");
    assert_eq!(mangle_ident("::x"), "x@@");
}

#[test]
fn mangle_ident_splits_from_the_left() {
    // The separator search resumes after each `::` it finds.
    assert_eq!(mangle_ident("a:::b"), ":b@a@");
}

#[test]
fn mangle_ident_outer_namespace_law() {
    let inner = mangle_ident("rest::X");
    assert_eq!(mangle_ident("outer::rest::X"), format!("{}outer@", inner));
}

#[test]
fn split_qualified_cases() {
    assert_eq!(split_qualified("cocos2d::CCNode"), ("CCNode", Some("cocos2d")));
    assert_eq!(split_qualified("a::b::C"), ("C", Some("a::b")));
    assert_eq!(split_qualified("CCNode"), ("CCNode", None));
    // The last `::` is the one that splits.
    assert_eq!(split_qualified("a:::b"), ("b", Some("a:")));
}

#[test]
fn split_qualified_reassembles_law() {
    for name in ["cocos2d::CCNode", "a::b::C", "a:::b", "::x", "x::"] {
        let (short, namespace) = split_qualified(name);
        let namespace = namespace.unwrap();
        assert_eq!(format!("{}::{}", namespace, short), name);
        assert!(!short.contains("::"));
    }
    let (short, namespace) = split_qualified("plain");
    assert_eq!((short, namespace), ("plain", None));
}

#[test]
fn strip_const_cases() {
    assert_eq!(strip_const("const char"), ("char", true));
    assert_eq!(strip_const("char const"), ("char", true));
    assert_eq!(strip_const("const  int const"), ("int", true));
    assert_eq!(strip_const("int"), ("int", false));
    assert_eq!(strip_const("  int "), ("  int ", false));
    assert_eq!(strip_const("constant"), ("constant", false));
}

#[test]
fn strip_const_idempotent_law() {
    for ty in ["const char", "char const", "const const int const", "  x ", "const "] {
        let (once, _) = strip_const(ty);
        assert_eq!(strip_const(once), (once, false));
    }
}

#[test]
fn primitive_codes() {
    assert_eq!(primitive_code("void"), Some("X"));
    assert_eq!(primitive_code("bool"), Some("_N"));
    assert_eq!(primitive_code("char"), Some("D"));
    assert_eq!(primitive_code("unsigned char"), Some("E"));
    assert_eq!(primitive_code("short"), Some("F"));
    assert_eq!(primitive_code("unsigned short"), Some("G"));
    assert_eq!(primitive_code("int"), Some("H"));
    assert_eq!(primitive_code("unsigned int"), Some("I"));
    assert_eq!(primitive_code("long"), Some("J"));
    assert_eq!(primitive_code("unsigned long"), Some("K"));
    assert_eq!(primitive_code("float"), Some("M"));
    assert_eq!(primitive_code("double"), Some("N"));
    assert_eq!(primitive_code("long long"), None);
    assert_eq!(primitive_code(" int"), None);
}

#[test]
fn class_paths() {
    assert_eq!(encode_class_path("cocos2d::CCDirector", "cocos2d::CCDirector"), "12@");
    assert_eq!(encode_class_path("cocos2d::CCDirector", "cocos2d::CCNode"), "CCNode@2@");
    assert_eq!(encode_class_path("cocos2d::CCDirector", "geode::Foo"), "Foo@geode@@");
    assert_eq!(encode_class_path("CCDirector", "Other"), "Other@2@");
}

#[test]
fn class_path_of_itself_law() {
    for class in ["cocos2d::CCDirector", "Plain", "a::b::C"] {
        assert_eq!(encode_class_path(class, class), "12@");
    }
}

#[test]
fn enum_types() {
    assert_eq!(encode_enum_type("cocos2d::A", "cocos2d::E"), "W4E@2@");
    assert_eq!(encode_enum_type("cocos2d::A", "gd::E"), "W4E@gd@@");
}

#[test]
fn pointer_types() {
    assert_eq!(encode_pointer_type("cocos2d::A", "int"), None);
    assert_eq!(encode_pointer_type("cocos2d::A", "int*").as_deref(), Some("PEAH"));
    assert_eq!(encode_pointer_type("cocos2d::A", "char const*").as_deref(), Some("PEBD"));
    assert_eq!(
        encode_pointer_type("cocos2d::A", "cocos2d::CCNode *").as_deref(),
        Some("PEAVCCNode@2@")
    );
    assert_eq!(encode_pointer_type("cocos2d::A", "const cocos2d::A*").as_deref(), Some("PEBV12@"));
}

#[test]
fn value_types() {
    assert_eq!(encode_value_type("c::A", "const int", true), None);
    assert_eq!(encode_value_type("c::A", "int", false).as_deref(), Some("H"));
    assert_eq!(encode_value_type("c::A", "c::E", false), None);
    assert_eq!(encode_value_type("c::A", "c::E", true).as_deref(), Some("W4E@2@"));
    assert_eq!(encode_return_type("c::A", "c::E"), None);
    assert_eq!(encode_return_type("c::A", "float").as_deref(), Some("M"));
}

#[test]
fn arg_encoding_exists_law() {
    for ty in ["int", "c::E", "c::B*", "bool", "char const*"] {
        assert!(encode_value_type("c::A", ty, true).is_some());
        let (_, is_const) = strip_const(ty);
        assert!(!is_const);
    }
    for ty in ["const int", "c::E const"] {
        assert!(encode_value_type("c::A", ty, true).is_none());
    }
}

#[test]
fn bool_arguments_refer_back() {
    let mut seen = Vec::new();
    assert_eq!(encode_arg_type("c::A", "bool", &mut seen).as_deref(), Some("_N"));
    assert_eq!(encode_arg_type("c::A", "bool", &mut seen).as_deref(), Some("0"));
    assert_eq!(seen, vec!["_N".to_string()]);
    assert_eq!(encode_arg_type("c::A", "int", &mut seen).as_deref(), Some("H"));
    assert_eq!(encode_arg_type("c::A", "int", &mut seen).as_deref(), Some("H"));
    assert_eq!(seen, vec!["_N".to_string(), "H".to_string(), "H".to_string()]);
    assert_eq!(encode_arg_type("c::A", "const int", &mut seen), None);
    assert_eq!(seen.len(), 3);
}

#[test]
fn bool_back_reference_limited_to_ten() {
    let mut seen: Vec<String> = (0..10).map(|_| "H".to_string()).collect();
    assert_eq!(encode_arg_type("c::A", "bool", &mut seen).as_deref(), Some("_N"));
    assert_eq!(encode_arg_type("c::A", "bool", &mut seen).as_deref(), Some("_N"));
    assert_eq!(seen.len(), 12);

    let mut seen: Vec<String> = (0..9).map(|_| "H".to_string()).collect();
    assert_eq!(encode_arg_type("c::A", "bool", &mut seen).as_deref(), Some("_N"));
    assert_eq!(encode_arg_type("c::A", "bool", &mut seen).as_deref(), Some("9"));
    assert_eq!(seen.len(), 10);
}

#[test]
fn access_tokens() {
    let mut p = MemberFunctionProto::default();
    let cases = [
        (true, AccessModifier::Private, 'E'),
        (true, AccessModifier::Protected, 'M'),
        (true, AccessModifier::Public, 'U'),
        (false, AccessModifier::Private, 'A'),
        (false, AccessModifier::Protected, 'I'),
        (false, AccessModifier::Public, 'Q'),
    ];
    for (is_virtual, access, token) in cases {
        p.is_virtual = is_virtual;
        p.access = access;
        assert_eq!(access_token(&p), token);
    }
}

#[test]
fn constructors_and_destructors() {
    let mut p = proto("CCNode", "", &[]);
    p.fn_type = FunctionType::Constructor;
    assert_eq!(symbol("cocos2d::CCNode", p.clone()).as_deref(), Some("??0CCNode@cocos2d@@QEAAXZ"));
    p.args = vec![Arg {
        name: "tag".into(),
        ty: Type::new("int"),
    }];
    assert_eq!(symbol("cocos2d::CCNode", p.clone()).as_deref(), Some("??0CCNode@cocos2d@@QEAAH@Z"));
    let mut d = proto("~CCNode", "", &[]);
    d.fn_type = FunctionType::Destructor;
    d.is_virtual = true;
    assert_eq!(symbol("cocos2d::CCNode", d).as_deref(), Some("??1CCNode@cocos2d@@UEAAXZ"));
}

#[test]
fn const_and_virtual_methods() {
    let mut p = proto("getTag", "int", &[]);
    p.is_const = true;
    assert_eq!(symbol("cocos2d::CCNode", p).as_deref(), Some("?getTag@CCNode@cocos2d@@QEBAHXZ"));
    let mut v = proto("onEnter", "void", &[]);
    v.is_virtual = true;
    v.access = AccessModifier::Protected;
    assert_eq!(symbol("cocos2d::CCNode", v).as_deref(), Some("?onEnter@CCNode@cocos2d@@MEAAXXZ"));
}

#[test]
fn unencodable_types_give_none() {
    assert_eq!(symbol("c::A", proto("f", "const int", &[])), None);
    assert_eq!(symbol("c::A", proto("f", "c::E", &[])), None);
    assert_eq!(symbol("c::A", proto("f", "void", &["int", "const int"])), None);
}

#[test]
fn symbol_shape_law() {
    let cases = [
        proto("f", "void", &[]),
        proto("g", "bool", &["bool", "bool", "c::E"]),
        proto("h", "c::A*", &["float"]),
    ];
    for p in cases {
        let has_args = !p.args.is_empty();
        let sym = symbol("c::A", p).unwrap();
        assert!(sym.starts_with('?'));
        if has_args {
            assert!(sym.ends_with("@Z"));
        } else {
            assert!(sym.ends_with("XZ"));
        }
    }
}

#[test]
fn trims_unicode_whitespace() {
    assert_eq!(trim("\u{3000} a b\t\n"), "a b");
    assert_eq!(trim("   "), "");
    assert_eq!(trim("x"), "x");
}

#[test]
fn compares_strings() {
    assert!(str_eq("abc", "abc"));
    assert!(!str_eq("abc", "abd"));
    assert!(!str_eq("abc", "ab"));
}

#[test]
fn symbol_exists_law() {
    // Constructors and destructors never encode a return type.
    let mut c = proto("A", "const int", &[]);
    c.fn_type = FunctionType::Constructor;
    assert_eq!(symbol("c::A", c).as_deref(), Some("??0A@c@@QEAAXZ"));
    // An enum parameter is fine, an enum return type is not.
    assert!(symbol("c::A", proto("f", "void", &["c::E"])).is_some());
    assert!(symbol("c::A", proto("f", "c::E", &["int"])).is_none());
    // One const-qualified parameter anywhere is enough to have no symbol.
    assert!(symbol("c::A", proto("f", "void", &["int", "bool", "double const"])).is_none());
}
