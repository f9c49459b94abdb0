use luban_gen::config::TableConfig;
use luban_gen::table_registry::TableRegistry;

fn simple(full: &str, input: &str) -> (String, TableConfig) {
    (full.to_string(), TableConfig::Simple(input.to_string()))
}

#[test]
fn test_from_config_simple() {
    let config = vec![simple("role.RoleConfig", "../datas/role")];
    let registry = TableRegistry::from_config(&config);

    let table = registry.get_table("role.RoleConfig").unwrap();
    assert_eq!(table.bean, "role.RoleConfig");
    assert_eq!(table.name, "RoleConfigTable");
    assert_eq!(table.input, "../datas/role");
    assert_eq!(table.mode, "map");
    assert_eq!(table.index, "id");
    assert_eq!(table.module, "role");
    assert_eq!(table.class_name, "RoleConfig");

    let ref_target = registry.resolve_ref("RoleConfig").unwrap();
    assert_eq!(ref_target, "role.RoleConfigTable");
}

#[test]
fn test_from_config_full() {
    let config = vec![(
        "battle.BattleData".to_string(),
        TableConfig::Full {
            input: "../datas/battle".to_string(),
            name: Some("TbBattle".to_string()),
            mode: Some("one".to_string()),
            index: Some("battleId".to_string()),
        },
    )];
    let registry = TableRegistry::from_config(&config);

    let table = registry.get_table("battle.BattleData").unwrap();
    assert_eq!(table.name, "TbBattle");
    assert_eq!(table.mode, "one");
    assert_eq!(table.index, "battleId");

    let ref_target = registry.resolve_ref("BattleData").unwrap();
    assert_eq!(ref_target, "battle.TbBattle");
}

#[test]
fn test_from_config_no_module() {
    let config = vec![simple("GlobalConfig", "../datas/global")];
    let registry = TableRegistry::from_config(&config);

    let table = registry.get_table("GlobalConfig").unwrap();
    assert_eq!(table.module, "");
    assert_eq!(table.class_name, "GlobalConfig");
    assert_eq!(table.name, "GlobalConfigTable");

    let ref_target = registry.resolve_ref("GlobalConfig").unwrap();
    assert_eq!(ref_target, "GlobalConfigTable");
}

#[test]
fn test_get_table_by_class() {
    let config = vec![simple("role.RoleConfig", "../datas/role")];
    let registry = TableRegistry::from_config(&config);

    let table = registry.get_table_by_class("RoleConfig").unwrap();
    assert_eq!(table.bean, "role.RoleConfig");
}

#[test]
fn test_is_table() {
    let config = vec![simple("role.RoleConfig", "../datas/role")];
    let registry = TableRegistry::from_config(&config);

    assert!(registry.is_table("RoleConfig"));
    assert!(!registry.is_table("NonExistent"));
}

#[test]
fn test_has_table() {
    let config = vec![simple("role.RoleConfig", "../datas/role")];
    let registry = TableRegistry::from_config(&config);

    assert!(registry.has_table("role.RoleConfig"));
    assert!(!registry.has_table("role.NonExistent"));
}

#[test]
fn test_legacy_register() {
    let mut registry = TableRegistry::new();
    registry.register("Item", "examples");

    let ref_target = registry.resolve_ref("Item").unwrap();
    assert_eq!(ref_target, "examples.ItemTable");
}

#[test]
fn test_validate_beans_exist_all_present() {
    let config = vec![
        simple("role.RoleConfig", "../datas/role"),
        simple("battle.BattleData", "../datas/battle"),
    ];
    let registry = TableRegistry::from_config(&config);

    let existing_beans = vec!["role.RoleConfig".to_string(), "battle.BattleData".to_string()];
    let missing = registry.validate_beans_exist(&existing_beans);
    assert!(missing.is_empty());
}

#[test]
fn test_validate_beans_exist_some_missing() {
    let config = vec![
        simple("role.RoleConfig", "../datas/role"),
        simple("battle.BattleData", "../datas/battle"),
        simple("UnitFlagsPreset", "../datas/unit-flags"),
    ];
    let registry = TableRegistry::from_config(&config);

    let existing_beans = vec!["role.RoleConfig".to_string()];
    let missing = registry.validate_beans_exist(&existing_beans);
    assert_eq!(missing.len(), 2);
    assert!(missing.iter().any(|m| m == "battle.BattleData"));
    assert!(missing.iter().any(|m| m == "UnitFlagsPreset"));
}

#[test]
fn test_validate_beans_exist_no_module() {
    let config = vec![simple("GlobalConfig", "../datas/global")];
    let registry = TableRegistry::from_config(&config);

    let existing_beans = vec!["GlobalConfig".to_string()];
    let missing = registry.validate_beans_exist(&existing_beans);
    assert!(missing.is_empty());

    let empty_beans: Vec<String> = Vec::new();
    let missing = registry.validate_beans_exist(&empty_beans);
    assert_eq!(missing.len(), 1);
    assert!(missing.iter().any(|m| m == "GlobalConfig"));
}

#[test]
fn registry_missing_beans_keep_registry_order() {
    let config = vec![
        simple("b.Second", "x"),
        simple("a.First", "y"),
        simple("c.Third", "z"),
    ];
    let registry = TableRegistry::from_config(&config);
    let missing = registry.validate_beans_exist(&vec!["a.First".to_string()]);
    assert_eq!(missing, vec!["b.Second".to_string(), "c.Third".to_string()]);
}

#[test]
fn registry_register_without_namespace() {
    let mut registry = TableRegistry::new();
    registry.register("Item", "");
    assert_eq!(registry.resolve_ref("Item").unwrap(), "ItemTable");
    assert!(registry.is_table("Item"));
    assert!(!registry.has_table("Item"));
    assert!(registry.resolve_ref("Other").is_none());
}

#[test]
fn registry_later_table_with_same_class_wins_for_ref() {
    let config = vec![simple("a.Item", "x"), simple("b.Item", "y")];
    let registry = TableRegistry::from_config(&config);
    assert_eq!(registry.resolve_ref("Item").unwrap(), "b.ItemTable");
    assert!(registry.has_table("a.Item"));
    assert!(registry.has_table("b.Item"));
    assert_eq!(registry.get_table_by_class("Item").unwrap().bean, "a.Item");
    assert_eq!(registry.all_tables().len(), 2);
}

#[test]
fn registry_nested_module_splits_at_last_dot() {
    let config = vec![simple("game.role.RoleConfig", "../datas/role")];
    let registry = TableRegistry::from_config(&config);
    let table = registry.get_table("game.role.RoleConfig").unwrap();
    assert_eq!(table.module, "game.role");
    assert_eq!(table.class_name, "RoleConfig");
    assert_eq!(registry.resolve_ref("RoleConfig").unwrap(), "game.role.RoleConfigTable");
}

fn table_class(name: &str, module: &str, key: &str, key_type: &str) -> luban_gen::parser::ClassInfo {
    luban_gen::parser::ClassInfo {
        name: name.to_string(),
        comment: None,
        alias: None,
        fields: vec![luban_gen::parser::FieldInfo::new(key.to_string(), key_type.to_string())],
        implements: vec![],
        extends: None,
        source_file: "t.ts".to_string(),
        file_hash: "h".to_string(),
        is_interface: false,
        output_path: None,
        module_name: Some(module.to_string()),
        type_params: vec![],
        luban_table: None,
        imports: vec![],
    }
}

#[test]
fn registry_index_type_after_config() {
    let config = vec![(
        "items.Item".to_string(),
        TableConfig::Full {
            input: "../datas/items".to_string(),
            name: Some("TbItem".to_string()),
            mode: None,
            index: Some("id".to_string()),
        },
    )];
    let mut registry = TableRegistry::from_config(&config);
    let mapper = luban_gen::type_mapper::TypeMapper::new(&Vec::new());
    registry.set_index_types(&vec![table_class("Item", "items", "id", "number")], &mapper);
    assert_eq!(registry.get_index_type("Item"), Some("double"));
    assert_eq!(registry.get_index_type("items.Item"), None);
    assert_eq!(registry.get_index_type("Other"), None);
    assert_eq!(registry.resolve_ref("Item").unwrap(), "items.TbItem");
}

#[test]
fn registry_lookup_by_bare_class_name() {
    let registry = TableRegistry::from_config(&vec![simple("role.RoleConfig", "../datas/role")]);
    assert_eq!(registry.get_table_by_class("RoleConfig").unwrap().bean, "role.RoleConfig");
    assert_eq!(registry.get_table_by_class("role.RoleConfig").unwrap().bean, "role.RoleConfig");
    assert!(registry.get_table_by_class("Nope").is_none());
}

#[test]
fn registry_register_adds_no_table() {
    let mut registry = TableRegistry::new();
    registry.register("Item", "examples");
    assert_eq!(registry.resolve_ref("Item").unwrap(), "examples.ItemTable");
    assert!(registry.is_table("Item"));
    assert_eq!(registry.all_tables().len(), 0);
}

#[test]
fn registry_repeated_key_reported_once() {
    let config = vec![simple("a.X", "1"), simple("b.Y", "2"), simple("a.X", "3")];
    let registry = TableRegistry::from_config(&config);
    assert_eq!(registry.all_tables().len(), 2);
    assert_eq!(registry.get_table("a.X").unwrap().input, "3");
    let missing = registry.validate_beans_exist(&vec!["b.Y".to_string()]);
    assert_eq!(missing, vec!["a.X".to_string()]);
}
