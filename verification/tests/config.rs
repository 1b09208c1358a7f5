use swc_plugin_jsx_attrs::config::InjectAttrRule;

#[test]
fn rule_defaults_to_prepend() {
    assert_eq!(InjectAttrRule::default(), InjectAttrRule::Prepend);
}
