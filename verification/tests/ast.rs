use swc_plugin_jsx_attrs::ast::Id;

#[test]
fn same_binding_needs_name_and_scope() {
    let a = Id { sym: "A".to_string(), ctxt: 1 };
    assert!(a.same(&Id { sym: "A".to_string(), ctxt: 1 }));
    assert!(!a.same(&Id { sym: "A".to_string(), ctxt: 2 }));
    assert!(!a.same(&Id { sym: "B".to_string(), ctxt: 1 }));
    assert_eq!(a.duplicate(), a);
}
