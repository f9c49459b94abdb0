use luban_gen::config::TableConfig;
use luban_gen::parser::{ClassInfo, FieldInfo, LubanTableConfig};
use luban_gen::table_registry::TableRegistry;
use luban_gen::ts_generator::beans_gen::BeansGenerator;
use luban_gen::ts_generator::import_resolver::ImportResolver;
use luban_gen::ts_generator::tables_simple_gen::TablesSimpleGenerator;

fn make_class_with_source(name: &str, is_interface: bool, source_file: &str) -> ClassInfo {
    ClassInfo {
        name: name.to_string(),
        comment: None,
        alias: None,
        fields: vec![],
        implements: vec![],
        extends: None,
        source_file: source_file.to_string(),
        file_hash: "".to_string(),
        is_interface,
        output_path: None,
        module_name: Some("test".to_string()),
        type_params: vec![],
        luban_table: None,
        imports: vec![],
    }
}

fn make_class(name: &str, is_interface: bool) -> ClassInfo {
    make_class_with_source(name, is_interface, "src/types.ts")
}

#[test]
fn test_beans_generator_excludes_interfaces() {
    let import_resolver = ImportResolver::empty();
    let generator = BeansGenerator::new(&import_resolver);

    let class1 = make_class("MyClass", false);
    let interface1 = make_class("MyInterface", true);
    let class2 = make_class("AnotherClass", false);

    let all_classes: Vec<&ClassInfo> = vec![&class1, &interface1, &class2];
    let files = generator.generate(&all_classes, "out/beans.ts", "test");

    assert_eq!(files.len(), 1);
    assert_eq!(files[0].filename, "beans.ts");
    let output = &files[0].content;
    assert!(output.contains("MyClass"), "Should include MyClass");
    assert!(output.contains("AnotherClass"), "Should include AnotherClass");
    assert!(!output.contains("MyInterface"), "Should NOT include MyInterface");
}

#[test]
fn test_beans_generator_only_interfaces_produces_empty_beans() {
    let import_resolver = ImportResolver::empty();
    let generator = BeansGenerator::new(&import_resolver);

    let interface1 = make_class("Interface1", true);
    let interface2 = make_class("Interface2", true);

    let all_classes: Vec<&ClassInfo> = vec![&interface1, &interface2];
    let files = generator.generate(&all_classes, "out/beans.ts", "test");

    assert_eq!(files.len(), 1);
    let output = &files[0].content;
    assert!(output.contains("export const Beans = {"));
    assert!(output.contains("} as const;"));
    assert!(!output.contains("import"));
    assert!(!output.contains("Interface1"));
    assert!(!output.contains("Interface2"));
}

#[test]
fn test_beans_generator_splits_when_over_limit() {
    let import_resolver = ImportResolver::empty();
    let generator = BeansGenerator::new(&import_resolver);

    let classes: Vec<ClassInfo> = (0..200)
        .map(|i| make_class_with_source(&format!("Class{}", i), false, &format!("file{}.ts", i)))
        .collect();
    let all_classes: Vec<&ClassInfo> = classes.iter().collect();
    let files = generator.generate(&all_classes, "out/beans.ts", "test");

    assert!(files.len() > 1, "Should generate multiple files for 200 classes");
    let filenames: Vec<_> = files.iter().map(|f| f.filename.as_str()).collect();
    assert!(filenames.contains(&"beans.ts"), "Should have main beans.ts");
    assert!(filenames.contains(&"beans_1.ts"), "Should have beans_1.ts");

    let main_file = files.iter().find(|f| f.filename == "beans.ts").unwrap();
    assert!(main_file.content.contains("import { Beans_1 }"), "Should import Beans_1");
    assert!(main_file.content.contains("...Beans_1"), "Should spread Beans_1");

    let chunk1 = files.iter().find(|f| f.filename == "beans_1.ts").unwrap();
    assert!(chunk1.content.contains("export const Beans_1 = {"), "Should export Beans_1");
}

#[test]
fn test_beans_generator_no_split_under_limit() {
    let import_resolver = ImportResolver::empty();
    let generator = BeansGenerator::new(&import_resolver);

    let classes: Vec<ClassInfo> = (0..50)
        .map(|i| make_class_with_source(&format!("Class{}", i), false, &format!("file{}.ts", i)))
        .collect();
    let all_classes: Vec<&ClassInfo> = classes.iter().collect();
    let files = generator.generate(&all_classes, "out/beans.ts", "test");

    assert_eq!(files.len(), 1, "Should generate single file for 50 classes");
    assert_eq!(files[0].filename, "beans.ts");
    assert!(!files[0].content.contains("Beans_1"), "Should not have chunk references");
}

#[test]
fn beans_exact_small_file() {
    let import_resolver = ImportResolver::empty();
    let generator = BeansGenerator::new(&import_resolver);
    let b = make_class_with_source("Beta", false, "src/b.ts");
    let a = make_class_with_source("Alpha", false, "src/a.ts");
    let dup = make_class_with_source("Alpha", false, "src/other.ts");
    let files = generator.generate(&vec![&b, &a, &dup], "out/beans.ts", "test");
    assert_eq!(files.len(), 1);
    assert_eq!(
        files[0].content,
        "import { Alpha } from \"../src/a\";\n\
         import { Beta } from \"../src/b\";\n\
         \n\
         export const Beans = {\n    \"test.Alpha\": Alpha,\n    \"test.Beta\": Beta,\n} as const;"
    );
}

#[test]
fn beans_split_into_chunks_of_one_hundred() {
    let import_resolver = ImportResolver::empty();
    let generator = BeansGenerator::new(&import_resolver);
    let classes: Vec<ClassInfo> = (0..201)
        .map(|i| make_class_with_source(&format!("C{:03}", i), false, "src/all.ts"))
        .collect();
    let refs: Vec<&ClassInfo> = classes.iter().collect();
    let files = generator.generate(&refs, "out/beans.ts", "test");
    let names: Vec<&str> = files.iter().map(|f| f.filename.as_str()).collect();
    assert_eq!(names, vec!["beans_1.ts", "beans_2.ts", "beans_3.ts", "beans.ts"]);
    assert_eq!(files[0].content.matches(": C").count(), 100);
    assert_eq!(files[2].content.matches(": C").count(), 1);
    assert!(files[2].content.contains("\"test.C200\": C200,"));
    assert!(files[3].content.contains("import { Beans_3 } from \"./beans_3\";"));
    assert!(files[3].content.contains("    ...Beans_3,"));
}

fn table_class(name: &str, is_interface: bool, fields: Vec<FieldInfo>) -> ClassInfo {
    let mut c = make_class_with_source(name, is_interface, "test.ts");
    c.file_hash = "hash".to_string();
    c.module_name = None;
    c.fields = fields;
    c.luban_table = Some(LubanTableConfig { mode: "map".to_string(), index: "id".to_string(), group: None, tags: None });
    c
}

fn map_table(full: &str, name: Option<&str>) -> (String, TableConfig) {
    (
        full.to_string(),
        TableConfig::Full {
            input: "../datas/x".to_string(),
            name: name.map(|s| s.to_string()),
            mode: Some("map".to_string()),
            index: Some("id".to_string()),
        },
    )
}

fn id_field(field_type: &str, original_type: &str) -> FieldInfo {
    let mut f = FieldInfo::new("id".to_string(), field_type.to_string());
    f.original_type = original_type.to_string();
    f
}

#[test]
fn test_custom_table_name_override() {
    let resolver = ImportResolver::empty();
    let registry = TableRegistry::from_config(&vec![map_table("IBuffData", Some("CustomTableName"))]);
    let gen = TablesSimpleGenerator::new(&resolver, &registry, "");
    let class = table_class("IBuffData", true, vec![]);
    let content = gen.generate(&[&class], "out/tables.d.ts");
    assert!(content.contains("CustomTableName: Map<number, IBuffData>"));
    assert!(!content.contains("IBuffDataTable"));
}

#[test]
fn test_default_table_name_when_no_override() {
    let resolver = ImportResolver::empty();
    let registry = TableRegistry::from_config(&vec![map_table("MyConfig", None)]);
    let gen = TablesSimpleGenerator::new(&resolver, &registry, "");
    let class = table_class("MyConfig", false, vec![]);
    let content = gen.generate(&[&class], "out/tables.d.ts");
    assert!(content.contains("MyConfigTable: Map<number, MyConfig>"));
}

#[test]
fn test_map_key_type_from_index_field() {
    let resolver = ImportResolver::empty();
    let registry = TableRegistry::from_config(&vec![map_table("AnimationItem", None)]);
    let gen = TablesSimpleGenerator::new(&resolver, &registry, "");
    let class = table_class("AnimationItem", false, vec![id_field("string", "string")]);
    let content = gen.generate(&[&class], "out/tables.d.ts");
    assert!(
        content.contains("AnimationItemTable: Map<string, AnimationItem>"),
        "Expected Map<string, AnimationItem>, got: {}",
        content
    );
}

#[test]
fn test_map_key_type_number_for_numeric_index() {
    let resolver = ImportResolver::empty();
    let registry = TableRegistry::from_config(&vec![map_table("ItemConfig", None)]);
    let gen = TablesSimpleGenerator::new(&resolver, &registry, "");
    let class = table_class("ItemConfig", false, vec![id_field("double", "number")]);
    let content = gen.generate(&[&class], "out/tables.d.ts");
    assert!(
        content.contains("ItemConfigTable: Map<number, ItemConfig>"),
        "Expected Map<number, ItemConfig>, got: {}",
        content
    );
}

#[test]
fn table_types_by_mode() {
    let resolver = ImportResolver::empty();
    let registry = TableRegistry::new();
    let gen = TablesSimpleGenerator::new(&resolver, &registry, "m");
    let class = table_class("Cfg", false, vec![id_field("string", "string")]);
    assert_eq!(gen.generate_table_type(&class, "map", "id"), "Map<string, Cfg>");
    assert_eq!(gen.generate_table_type(&class, "list", "id"), "Cfg[]");
    assert_eq!(gen.generate_table_type(&class, "one", "id"), "Cfg");
    assert_eq!(gen.get_index_field_ts_type(&class, "missing"), "number");
}
