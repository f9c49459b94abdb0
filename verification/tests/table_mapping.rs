use luban_gen::config::TableMapping;
use luban_gen::table_mapping::TableMappingResolver;

#[test]
fn test_to_kebab_case() {
    assert_eq!(TableMappingResolver::to_kebab_case("TbItem"), "tb-item");
    assert_eq!(TableMappingResolver::to_kebab_case("MyConfig"), "my-config");
    assert_eq!(TableMappingResolver::to_kebab_case("HTMLParser"), "h-t-m-l-parser");
    assert_eq!(TableMappingResolver::to_kebab_case("simple"), "simple");
}

#[test]
fn test_resolve_with_kebab_case() {
    let mappings = vec![TableMapping {
        pattern: "Tb.*".to_string(),
        input: "datas/{name}.xlsx".to_string(),
        output: Some("tables/{name}".to_string()),
        table_name: None,
    }];
    let resolver = TableMappingResolver::new(&mappings);

    let (input, output, table_name) = resolver.resolve("TbItem").unwrap();
    assert_eq!(input, "datas/tb-item.xlsx");
    assert_eq!(output, Some("tables/tb-item".to_string()));
    assert_eq!(table_name, None);
}

#[test]
fn test_resolve_with_table_name_override() {
    let mappings = vec![TableMapping {
        pattern: "Tb.*".to_string(),
        input: "datas/{name}.xlsx".to_string(),
        output: None,
        table_name: Some("New{name}Table".to_string()),
    }];
    let resolver = TableMappingResolver::new(&mappings);

    let (input, _, table_name) = resolver.resolve("TbItem").unwrap();
    assert_eq!(input, "datas/tb-item.xlsx");
    assert_eq!(table_name, Some("NewTbItemTable".to_string()));
}

#[test]
fn table_mapping_first_match_and_invalid_patterns() {
    let mappings = vec![
        TableMapping { pattern: "(".to_string(), input: "bad/{name}".to_string(), output: None, table_name: None },
        TableMapping { pattern: "^Cfg".to_string(), input: "cfg/{name}".to_string(), output: None, table_name: None },
        TableMapping { pattern: "Item".to_string(), input: "items/{name}".to_string(), output: None, table_name: None },
    ];
    let resolver = TableMappingResolver::new(&mappings);
    assert_eq!(resolver.resolve("CfgItem").unwrap().0, "cfg/cfg-item");
    assert_eq!(resolver.resolve("MyItem").unwrap().0, "items/my-item");
    assert!(resolver.resolve("Other").is_none());
}

#[test]
fn kebab_edge_cases() {
    assert_eq!(TableMappingResolver::to_kebab_case(""), "");
    assert_eq!(TableMappingResolver::to_kebab_case("A"), "a");
    assert_eq!(TableMappingResolver::to_kebab_case("aB"), "a-b");
}
