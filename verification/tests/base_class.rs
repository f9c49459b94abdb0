use luban_gen::base_class::BaseClassResolver;
use luban_gen::config::ParentMapping;
use luban_gen::parser::ClassInfo;

fn make_class(name: &str) -> ClassInfo {
    ClassInfo {
        name: name.to_string(),
        comment: None,
        alias: None,
        fields: vec![],
        implements: vec![],
        extends: None,
        source_file: "test.ts".to_string(),
        file_hash: "abc123".to_string(),
        is_interface: false,
        output_path: None,
        module_name: None,
        type_params: vec![],
        luban_table: None,
        imports: vec![],
    }
}

#[test]
fn test_class_uses_default_parent() {
    let resolver = BaseClassResolver::new("TsClass", &[]);
    let class = make_class("MyClass");
    assert_eq!(resolver.resolve(&class), "TsClass");
}

#[test]
fn test_class_extends_ignored() {
    let resolver = BaseClassResolver::new("TsClass", &[]);
    let mut class = make_class("ChildClass");
    class.extends = Some("ParentClass".to_string());
    assert_eq!(resolver.resolve(&class), "TsClass");
}

#[test]
fn base_class_test_interface_no_extends_no_parent() {
    let resolver = BaseClassResolver::new("TsClass", &[]);
    let mut iface = make_class("MyInterface");
    iface.is_interface = true;
    assert_eq!(resolver.resolve(&iface), "");
}

#[test]
fn test_interface_with_extends_has_parent() {
    let resolver = BaseClassResolver::new("TsClass", &[]);
    let mut iface = make_class("ChildInterface");
    iface.is_interface = true;
    iface.extends = Some("ParentInterface".to_string());
    assert_eq!(resolver.resolve(&iface), "ParentInterface");
}

#[test]
fn test_parent_mapping_regex() {
    let mappings = vec![ParentMapping { pattern: ".*Trigger$".to_string(), parent: "TsTriggerClass".to_string() }];
    let resolver = BaseClassResolver::new("TsClass", &mappings);

    let trigger = make_class("DamageTrigger");
    assert_eq!(resolver.resolve(&trigger), "TsTriggerClass");

    let other = make_class("SomeComponent");
    assert_eq!(resolver.resolve(&other), "TsClass");
}

#[test]
fn test_config_takes_priority_over_extends() {
    let mappings = vec![ParentMapping { pattern: ".*Trigger.*".to_string(), parent: "TsTriggerClass".to_string() }];
    let resolver = BaseClassResolver::new("TsClass", &mappings);

    let mut trigger = make_class("HealTrigger2");
    trigger.extends = Some("HealTrigger".to_string());
    assert_eq!(resolver.resolve(&trigger), "TsTriggerClass");
}

#[test]
fn parent_mapping_invalid_pattern_skipped_first_match_wins() {
    let mappings = vec![
        ParentMapping { pattern: "[".to_string(), parent: "Broken".to_string() },
        ParentMapping { pattern: "Damage".to_string(), parent: "First".to_string() },
        ParentMapping { pattern: "Trigger".to_string(), parent: "Second".to_string() },
    ];
    let resolver = BaseClassResolver::new("TsClass", &mappings);
    assert_eq!(resolver.resolve(&make_class("DamageTrigger")), "First");
    assert_eq!(resolver.resolve(&make_class("HealTrigger")), "Second");
    assert_eq!(resolver.resolve(&make_class("Plain")), "TsClass");
}
