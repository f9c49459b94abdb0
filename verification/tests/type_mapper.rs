use luban_gen::type_mapper::TypeMapper;

#[test]
fn test_builtin_type_mapping() {
    let mapper = TypeMapper::new(&Vec::new());
    assert_eq!(mapper.map("number"), "double");
    assert_eq!(mapper.map("string"), "string");
    assert_eq!(mapper.map("boolean"), "bool");
}

#[test]
fn test_custom_type_mapping() {
    let custom = vec![
        ("Vector3".to_string(), "Vector3".to_string()),
        ("Entity".to_string(), "long".to_string()),
    ];
    let mapper = TypeMapper::new(&custom);
    assert_eq!(mapper.map("Vector3"), "Vector3");
    assert_eq!(mapper.map("Entity"), "long");
}

#[test]
fn test_case_insensitive() {
    let mapper = TypeMapper::new(&Vec::new());
    assert_eq!(mapper.map("Number"), "double");
    assert_eq!(mapper.map("STRING"), "string");
    assert_eq!(mapper.map("AnyEntity"), "long");
}

#[test]
fn test_map_full_type() {
    let mapper = TypeMapper::new(&Vec::new());
    assert_eq!(mapper.map_full_type("list,number"), "list,double");
    assert_eq!(mapper.map_full_type("map,string,number"), "map,string,double");
}

#[test]
fn mapper_unknown_name_passes_through() {
    let mapper = TypeMapper::new(&Vec::new());
    assert_eq!(mapper.map("MyBean"), "MyBean");
    assert_eq!(mapper.map_full_type("set,Boolean"), "set,bool");
    assert_eq!(mapper.map_full_type("map,nocomma"), "map,nocomma");
    assert_eq!(mapper.map_full_type("Color3"), "Color3");
    assert_eq!(mapper.map_full_type("cframe"), "CFrame");
}

#[test]
fn mapper_custom_overrides_builtin_in_any_case() {
    let custom = vec![("NUMBER".to_string(), "float".to_string())];
    let mapper = TypeMapper::new(&custom);
    assert_eq!(mapper.map("number"), "float");
    assert_eq!(mapper.map("Number"), "float");
    assert_eq!(mapper.map("string"), "string");
}

#[test]
fn mapper_later_custom_pair_wins() {
    let custom = vec![
        ("Entity".to_string(), "int".to_string()),
        ("ENTITY".to_string(), "long".to_string()),
    ];
    let mapper = TypeMapper::new(&custom);
    assert_eq!(mapper.map("entity"), "long");
}
