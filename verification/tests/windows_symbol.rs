use geode_codegen::windows_symbol::{
    generate_windows_symbol, Arg, FunctionBindField, MemberFunctionProto, Type,
};

fn arg(name: &str, ty: &str) -> Arg {
    Arg {
        name: name.into(),
        ty: Type::new(ty),
    }
}

#[test]
fn mangles_noarg_instance_method() {
    let func = FunctionBindField {
        prototype: MemberFunctionProto {
            name: "drawScene".into(),
            ret: Type::new("void"),
            ..Default::default()
        },
        ..Default::default()
    };

    assert_eq!(
        generate_windows_symbol("cocos2d::CCDirector", &func).as_deref(),
        Some("?drawScene@CCDirector@cocos2d@@QEAAXXZ")
    );
}

#[test]
fn mangles_dispatch_insert_text() {
    let func = FunctionBindField {
        prototype: MemberFunctionProto {
            name: "dispatchInsertText".into(),
            ret: Type::new("void"),
            args: vec![
                arg("", "char const*"),
                arg("", "int"),
                arg("", "cocos2d::enumKeyCodes"),
            ],
            ..Default::default()
        },
        ..Default::default()
    };

    assert_eq!(
        generate_windows_symbol("cocos2d::CCIMEDispatcher", &func).as_deref(),
        Some("?dispatchInsertText@CCIMEDispatcher@cocos2d@@QEAAXPEBDHW4enumKeyCodes@2@@Z")
    );
}

#[test]
fn mangles_dispatch_keyboard_msg() {
    let func = FunctionBindField {
        prototype: MemberFunctionProto {
            name: "dispatchKeyboardMSG".into(),
            ret: Type::new("bool"),
            args: vec![
                arg("", "cocos2d::enumKeyCodes"),
                arg("", "bool"),
                arg("", "bool"),
                arg("", "double"),
            ],
            ..Default::default()
        },
        ..Default::default()
    };

    assert_eq!(
        generate_windows_symbol("cocos2d::CCKeyboardDispatcher", &func).as_deref(),
        Some("?dispatchKeyboardMSG@CCKeyboardDispatcher@cocos2d@@QEAA_NW4enumKeyCodes@2@_N1N@Z")
    );
}

#[test]
fn mangles_dispatch_scroll_msg() {
    let func = FunctionBindField {
        prototype: MemberFunctionProto {
            name: "dispatchScrollMSG".into(),
            ret: Type::new("bool"),
            args: vec![arg("", "float"), arg("", "float")],
            ..Default::default()
        },
        ..Default::default()
    };

    assert_eq!(
        generate_windows_symbol("cocos2d::CCMouseDispatcher", &func).as_deref(),
        Some("?dispatchScrollMSG@CCMouseDispatcher@cocos2d@@QEAA_NMM@Z")
    );
}

#[test]
fn mangles_touches() {
    let func = FunctionBindField {
        prototype: MemberFunctionProto {
            name: "touches".into(),
            ret: Type::new("void"),
            args: vec![
                arg("", "cocos2d::CCSet*"),
                arg("", "cocos2d::CCEvent*"),
                arg("", "unsigned int"),
            ],
            ..Default::default()
        },
        ..Default::default()
    };

    assert_eq!(
        generate_windows_symbol("cocos2d::CCTouchDispatcher", &func).as_deref(),
        Some("?touches@CCTouchDispatcher@cocos2d@@QEAAXPEAVCCSet@2@PEAVCCEvent@2@I@Z")
    );
}

#[test]
fn mangles_same_class_pointer_return() {
    let func = FunctionBindField {
        prototype: MemberFunctionProto {
            name: "sharedDirector".into(),
            ret: Type::new("cocos2d::CCDirector*"),
            is_static: true,
            ..Default::default()
        },
        ..Default::default()
    };

    assert_eq!(
        generate_windows_symbol("cocos2d::CCDirector", &func).as_deref(),
        Some("?sharedDirector@CCDirector@cocos2d@@SAPEAV12@XZ")
    );
}
