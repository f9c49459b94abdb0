use luban_gen::config::TableConfig;
use luban_gen::generator::{generate_table, XmlGenerator};
use luban_gen::parser::{ClassInfo, FieldInfo, LubanTableConfig, SizeConstraint};
use luban_gen::table_registry::TableRegistry;
use luban_gen::type_mapper::TypeMapper;

fn make_field(name: &str, field_type: &str, optional: bool) -> FieldInfo {
    let mut f = FieldInfo::new(name.to_string(), field_type.to_string());
    f.is_optional = optional;
    f
}

fn typed_field(name: &str, field_type: &str, original_type: &str) -> FieldInfo {
    let mut f = make_field(name, field_type, false);
    f.original_type = original_type.to_string();
    f
}

fn make_class(name: &str, fields: Vec<FieldInfo>) -> ClassInfo {
    ClassInfo {
        name: name.to_string(),
        comment: None,
        alias: None,
        fields,
        implements: vec![],
        extends: None,
        source_file: "test.ts".to_string(),
        file_hash: "abc123".to_string(),
        is_interface: false,
        output_path: None,
        module_name: None,
        type_params: vec![],
        luban_table: None,
        imports: vec![],
    }
}

fn generate_xml(classes: &[ClassInfo]) -> String {
    let type_mapper = TypeMapper::new(&Vec::new());
    let table_registry = TableRegistry::new();
    let generator = XmlGenerator::new(&type_mapper, &table_registry);
    generator.generate(classes, "")
}

fn full_table(full: &str, input: &str, name: Option<&str>, mode: Option<&str>, index: Option<&str>) -> (String, TableConfig) {
    (
        full.to_string(),
        TableConfig::Full {
            input: input.to_string(),
            name: name.map(|s| s.to_string()),
            mode: mode.map(|s| s.to_string()),
            index: index.map(|s| s.to_string()),
        },
    )
}

fn table_class(name: &str, module: &str, fields: Vec<FieldInfo>) -> ClassInfo {
    let mut c = make_class(name, fields);
    c.is_interface = true;
    c.module_name = Some(module.to_string());
    c
}

#[test]
fn test_generate_simple_bean() {
    let mut field = make_field("name", "string", false);
    field.comment = Some("Name field".to_string());
    let mut class = make_class("MyClass", vec![field]);
    class.comment = Some("Test class".to_string());
    class.extends = Some("BaseClass".to_string());

    let xml = generate_xml(&[class]);
    assert!(xml.contains(r#"<bean name="MyClass" parent="BaseClass" comment="Test class">"#));
    assert!(xml.contains(r#"<var name="name" type="string" comment="Name field"/>"#));
}

#[test]
fn test_optional_field() {
    let class = make_class("MyClass", vec![make_field("value", "string", true)]);
    let xml = generate_xml(&[class]);
    assert!(xml.contains(r#"type="string?""#));
}

#[test]
fn test_list_not_optional() {
    let class = make_class("MyClass", vec![make_field("items", "list,string", true)]);
    let xml = generate_xml(&[class]);
    assert!(xml.contains(r#"type="list,string""#));
    assert!(!xml.contains(r#"type="list,string?""#));
}

#[test]
fn test_class_no_extends_no_parent() {
    let class = make_class("MyClass", vec![make_field("value", "int", false)]);
    let xml = generate_xml(&[class]);
    assert!(xml.contains(r#"<bean name="MyClass">"#));
    assert!(!xml.contains("parent="));
}

#[test]
fn test_with_extends_has_parent() {
    let mut class = make_class("ChildClass", vec![make_field("value", "int", false)]);
    class.extends = Some("ParentClass".to_string());
    let xml = generate_xml(&[class]);
    assert!(xml.contains(r#"<bean name="ChildClass" parent="ParentClass">"#));
}

#[test]
fn generator_test_interface_no_extends_no_parent() {
    let mut interface = make_class("MyInterface", vec![make_field("value", "int", false)]);
    interface.is_interface = true;
    let xml = generate_xml(&[interface]);
    assert!(xml.contains(r#"<bean name="MyInterface">"#));
    assert!(!xml.contains("parent="));
}

#[test]
fn test_class_single_implements_no_extends_has_parent() {
    let mut class = make_class("DamageTrigger", vec![make_field("damage", "double", false)]);
    class.implements = vec!["EntityTrigger".to_string()];
    let xml = generate_xml(&[class]);
    assert!(xml.contains(r#"<bean name="DamageTrigger" parent="EntityTrigger">"#));
}

#[test]
fn test_class_multiple_implements_no_extends_no_parent() {
    let mut class = make_class("MultiImplClass", vec![make_field("value", "int", false)]);
    class.implements = vec!["Interface1".to_string(), "Interface2".to_string()];
    let xml = generate_xml(&[class]);
    assert!(xml.contains(r#"<bean name="MultiImplClass">"#));
    assert!(!xml.contains("parent="));
}

#[test]
fn test_class_extends_overrides_implements() {
    let mut class = make_class("ChildClass", vec![make_field("value", "int", false)]);
    class.implements = vec!["SomeInterface".to_string()];
    class.extends = Some("BaseClass".to_string());
    let xml = generate_xml(&[class]);
    assert!(xml.contains(r#"<bean name="ChildClass" parent="BaseClass">"#));
}

#[test]
fn test_class_implements_recursive_interface_chain() {
    let mut base_interface = make_class("EntityTrigger", vec![make_field("id", "double", false)]);
    base_interface.is_interface = true;
    let mut child_interface = make_class("BaseTrigger", vec![make_field("name", "string", false)]);
    child_interface.is_interface = true;
    child_interface.extends = Some("EntityTrigger".to_string());
    let mut class = make_class("DamageTrigger", vec![make_field("damage", "double", false)]);
    class.implements = vec!["BaseTrigger".to_string()];

    let xml = generate_xml(&[base_interface, child_interface, class]);
    assert!(xml.contains(r#"<bean name="DamageTrigger" parent="BaseTrigger">"#));
    assert!(xml.contains(r#"<bean name="BaseTrigger" parent="EntityTrigger">"#));
}

#[test]
fn test_class_no_implements_no_extends_no_parent() {
    let class = make_class("SimpleClass", vec![make_field("value", "int", false)]);
    let xml = generate_xml(&[class]);
    assert!(xml.contains(r#"<bean name="SimpleClass">"#));
    assert!(!xml.contains("parent="));
}

#[test]
fn test_object_factory_field_inject_data_tag() {
    let mut triggers = typed_field("triggers", "list,BaseTrigger", "ObjectFactory<BaseTrigger>[]");
    triggers.is_object_factory = true;
    triggers.factory_inner_type = Some("BaseTrigger".to_string());
    let normal = typed_field("normalField", "string", "string");
    let class = make_class("CharacterConfig", vec![triggers, normal]);

    let xml = generate_xml(&[class]);
    assert!(
        xml.contains(r#"tags="ObjectFactory=true""#),
        "XML should contain ObjectFactory=true tag for ObjectFactory fields"
    );
    assert!(!xml.contains(r#"<var name="normalField" type="string" tags="ObjectFactory=true""#));
}

#[test]
fn test_skip_dollar_type_field() {
    let class = make_class(
        "ShapeInfo",
        vec![typed_field("$type", "ShapeType", "ShapeType"), typed_field("width", "number", "number")],
    );
    let xml = generate_xml(&[class]);
    assert!(!xml.contains(r#"<var name="$type""#), "XML should not contain $type field");
    assert!(xml.contains(r#"<var name="width" type="double""#), "XML should contain normal fields");
}

#[test]
fn test_beans_keep_source_order() {
    let class_z = make_class("ZClass", vec![make_field("value", "int", false)]);
    let class_a = make_class("AClass", vec![make_field("value", "int", false)]);
    let class_m = make_class("MClass", vec![make_field("value", "int", false)]);

    let xml = generate_xml(&[class_z, class_a, class_m]);

    let pos_a = xml.find(r#"<bean name="AClass""#).expect("AClass not found");
    let pos_m = xml.find(r#"<bean name="MClass""#).expect("MClass not found");
    let pos_z = xml.find(r#"<bean name="ZClass""#).expect("ZClass not found");

    assert!(pos_z < pos_a, "ZClass should come before AClass (source order)");
    assert!(pos_a < pos_m, "AClass should come before MClass (source order)");
}

#[test]
fn test_optional_constructor_field() {
    let id = typed_field("id", "string", "string");
    let mut component = typed_field("component", "string", "Constructor<ComponentCls>");
    component.is_optional = true;
    component.is_constructor = true;
    component.constructor_inner_type = Some("ComponentCls".to_string());
    let class = make_class("StatData", vec![id, component]);

    let xml = generate_xml(&[class]);
    assert!(
        xml.contains(r#"type="string?#constructor=ComponentCls""#),
        "Optional Constructor field should generate string?#constructor=ComponentCls"
    );
}

#[test]
fn test_field_alias() {
    let mut id = typed_field("id", "int", "int");
    id.comment = Some("Item ID".to_string());
    id.alias = Some("物品ID".to_string());
    let mut name = typed_field("name", "string", "string");
    name.alias = Some("名称".to_string());
    let value = typed_field("value", "double", "number");
    let class = make_class("ItemConfig", vec![id, name, value]);

    let xml = generate_xml(&[class]);
    assert!(
        xml.contains(r#"<var name="id" type="int" alias="物品ID" comment="Item ID"/>"#),
        "Field with alias and comment should generate both attributes"
    );
    assert!(
        xml.contains(r#"<var name="name" type="string" alias="名称"/>"#),
        "Field with alias only should generate alias attribute"
    );
    assert!(
        xml.contains(r#"<var name="value" type="double"/>"#),
        "Field without alias should not have alias attribute"
    );
}

#[test]
fn test_cross_module_parent_reference() {
    let mut resource_config = make_class("ResourceConfig", vec![make_field("id", "string", false)]);
    resource_config.comment = Some("资源基础配置".to_string());
    resource_config.source_file = "resource/resource-config.ts".to_string();
    resource_config.is_interface = true;
    resource_config.module_name = Some("resource".to_string());

    let mut weapon_config = make_class("WeaponConfig", vec![make_field("damage", "double", false)]);
    weapon_config.comment = Some("武器配置".to_string());
    weapon_config.extends = Some("ResourceConfig".to_string());
    weapon_config.source_file = "weapon/weapon-config.ts".to_string();
    weapon_config.file_hash = "def456".to_string();
    weapon_config.is_interface = true;
    weapon_config.module_name = Some("weapon".to_string());

    let type_mapper = TypeMapper::new(&Vec::new());
    let table_registry = TableRegistry::new();
    let generator = XmlGenerator::new(&type_mapper, &table_registry);

    let all_classes = vec![resource_config, weapon_config.clone()];
    let xml = generator.generate_with_all_classes(&[weapon_config], "weapon", &all_classes);

    assert!(
        xml.contains(r#"parent="resource.ResourceConfig""#),
        "Parent should include module prefix. Got:\n{}",
        xml
    );
}

#[test]
fn test_cross_module_type_reference() {
    let mut resource_config = make_class(
        "ResourceConfig",
        vec![make_field("id", "string", false), make_field("quality", "QualityType", true)],
    );
    resource_config.source_file = "resource/resource-config.ts".to_string();
    resource_config.is_interface = true;
    resource_config.module_name = Some("resource".to_string());

    let mut quality_type = make_class("QualityType", vec![]);
    quality_type.source_file = "enums/quality-type.ts".to_string();
    quality_type.file_hash = "ghi789".to_string();
    quality_type.module_name = Some("enums".to_string());

    let type_mapper = TypeMapper::new(&Vec::new());
    let table_registry = TableRegistry::new();
    let generator = XmlGenerator::new(&type_mapper, &table_registry);

    let all_classes = vec![resource_config.clone(), quality_type];
    let xml = generator.generate_with_all_classes(&[resource_config], "resource", &all_classes);

    assert!(
        xml.contains(r#"type="enums.QualityType?""#),
        "Type should include module prefix. Got:\n{}",
        xml
    );
}

#[test]
fn test_same_module_no_prefix() {
    let mut weapon_level_config = make_class("WeaponLevelConfig", vec![make_field("level", "double", false)]);
    weapon_level_config.source_file = "weapon/weapon-level-config.ts".to_string();
    weapon_level_config.is_interface = true;
    weapon_level_config.module_name = Some("weapon".to_string());

    let mut weapon_config = make_class("WeaponConfig", vec![make_field("levels", "list,WeaponLevelConfig", false)]);
    weapon_config.source_file = "weapon/weapon-config.ts".to_string();
    weapon_config.file_hash = "def456".to_string();
    weapon_config.is_interface = true;
    weapon_config.module_name = Some("weapon".to_string());

    let type_mapper = TypeMapper::new(&Vec::new());
    let table_registry = TableRegistry::new();
    let generator = XmlGenerator::new(&type_mapper, &table_registry);

    let all_classes = vec![weapon_level_config, weapon_config.clone()];
    let xml = generator.generate_with_all_classes(&[weapon_config], "weapon", &all_classes);

    assert!(
        xml.contains(r#"type="list,WeaponLevelConfig""#),
        "Same module types should not have prefix. Got:\n{}",
        xml
    );
}

#[test]
fn test_type_override() {
    let mut count = typed_field("count", "number", "number");
    count.type_override = Some("int".to_string());
    let xml = generate_xml(&[make_class("ConfigWithTypeOverride", vec![count])]);
    assert!(xml.contains(r#"type="int""#), "@type override should change number to int. Got:\n{}", xml);
}

#[test]
fn test_default_value() {
    let mut value = typed_field("value", "number", "number");
    value.default_value = Some("0".to_string());
    let xml = generate_xml(&[make_class("ConfigWithDefault", vec![value])]);
    assert!(xml.contains(r#"type="double#default=0""#), "@default should add #default=0 to type. Got:\n{}", xml);
}

#[test]
fn test_type_override_with_default() {
    let mut level = typed_field("level", "number", "number");
    level.default_value = Some("1".to_string());
    level.type_override = Some("int".to_string());
    let xml = generate_xml(&[make_class("ConfigWithTypeAndDefault", vec![level])]);
    assert!(xml.contains(r#"type="int#default=1""#), "@type and @default should combine. Got:\n{}", xml);
}

#[test]
fn test_list_separator() {
    let mut tags = typed_field("tags", "list,string", "string[]");
    tags.separator = Some("|".to_string());
    let xml = generate_xml(&[make_class("ConfigWithListSep", vec![tags])]);
    assert!(xml.contains(r#"type="(list#sep=|),string""#), "@sep should add separator to list. Got:\n{}", xml);
}

#[test]
fn test_map_separator() {
    let mut data = typed_field("data", "map,string,int", "Map<string, int>");
    data.map_separator = Some(",|".to_string());
    let xml = generate_xml(&[make_class("ConfigWithMapSep", vec![data])]);
    assert!(xml.contains(r#"type="(map#sep=,|),string,int""#), "@mapsep should add separator to map. Got:\n{}", xml);
}

#[test]
fn test_list_with_separator_and_size() {
    let mut coords = typed_field("coords", "list,double", "number[]");
    coords.validators.size = Some(SizeConstraint::Exact(3));
    coords.separator = Some("|".to_string());
    let xml = generate_xml(&[make_class("ConfigWithListSepAndSize", vec![coords])]);
    assert!(xml.contains(r#"type="(list#sep=|#size=3),double""#), "@sep and @Size should combine. Got:\n{}", xml);
}

#[test]
fn test_container_with_default() {
    let mut items = typed_field("items", "list,string", "string[]");
    items.default_value = Some("[]".to_string());
    let xml = generate_xml(&[make_class("ConfigWithContainerDefault", vec![items])]);
    assert!(
        xml.contains(r#"type="list,string#default=[]""#),
        "@default should add default value to container type. Got:\n{}",
        xml
    );
}

#[test]
fn test_table_from_config_map_mode() {
    let mut class = table_class("SkillConfig", "skill", vec![make_field("id", "int", false), make_field("name", "string", false)]);
    class.comment = Some("技能配置".to_string());
    let tables_config = vec![("skill.SkillConfig".to_string(), TableConfig::Simple("../datas/skill".to_string()))];
    let table_registry = TableRegistry::from_config(&tables_config);
    let type_mapper = TypeMapper::new(&Vec::new());
    let generator = XmlGenerator::new(&type_mapper, &table_registry);
    let xml = generator.generate(&[class], "skill");
    assert!(
        xml.contains(r#"<table name="SkillConfigTable" value="SkillConfig" index="id" input="../datas/skill" />"#),
        "Should generate table element from [tables] config. Got:\n{}",
        xml
    );
}

#[test]
fn test_table_from_config_one_mode() {
    let mut class = table_class("RollSkillConfig", "rollSkill", vec![make_field("selectionCount", "int", false)]);
    class.comment = Some("抽技能配置".to_string());
    let tables_config = vec![full_table("rollSkill.RollSkillConfig", "../datas/roll-skill", None, Some("one"), None)];
    let table_registry = TableRegistry::from_config(&tables_config);
    let type_mapper = TypeMapper::new(&Vec::new());
    let generator = XmlGenerator::new(&type_mapper, &table_registry);
    let xml = generator.generate(&[class], "rollSkill");
    assert!(
        xml.contains(r#"<table name="RollSkillConfigTable" value="RollSkillConfig" mode="one" input="../datas/roll-skill" />"#),
        "Should generate table element with mode=one. Got:\n{}",
        xml
    );
}

#[test]
fn test_table_from_config_with_chinese_path() {
    let class = table_class("AllianceAttackInfo", "battle", vec![make_field("Id", "string", false)]);
    let tables_config = vec![full_table(
        "battle.AllianceAttackInfo",
        "../datas/battle/我方普通攻击配置表.xlsx",
        None,
        None,
        Some("Id"),
    )];
    let table_registry = TableRegistry::from_config(&tables_config);
    let type_mapper = TypeMapper::new(&Vec::new());
    let generator = XmlGenerator::new(&type_mapper, &table_registry);
    let xml = generator.generate(&[class], "battle");
    assert!(
        xml.contains(r#"input="../datas/battle/我方普通攻击配置表.xlsx""#),
        "Should handle Chinese characters in input path. Got:\n{}",
        xml
    );
}

#[test]
fn test_no_table_without_config() {
    let mut class = make_class("NoTableConfig", vec![make_field("value", "int", false)]);
    class.is_interface = true;
    let xml = generate_xml(&[class]);
    assert!(!xml.contains("<table"), "Should not generate table element without [tables] config. Got:\n{}", xml);
}

#[test]
fn test_table_with_custom_name() {
    let class = table_class("BattleData", "battle", vec![make_field("battleId", "int", false)]);
    let tables_config = vec![full_table("battle.BattleData", "../datas/battle", Some("TbBattle"), None, Some("battleId"))];
    let table_registry = TableRegistry::from_config(&tables_config);
    let type_mapper = TypeMapper::new(&Vec::new());
    let generator = XmlGenerator::new(&type_mapper, &table_registry);
    let xml = generator.generate(&[class], "battle");
    assert!(
        xml.contains(r#"<table name="TbBattle" value="BattleData" index="battleId" input="../datas/battle" />"#),
        "Should use custom table name from config. Got:\n{}",
        xml
    );
}

fn item_registry(item_index_type: &str) -> (TypeMapper, TableRegistry) {
    let tables_config = vec![full_table("items.Item", "../datas/items", Some("TbItem"), None, Some("id"))];
    let mut table_registry = TableRegistry::from_config(&tables_config);
    let item_class = table_class("Item", "items", vec![make_field("id", item_index_type, false)]);
    let type_mapper = TypeMapper::new(&Vec::new());
    table_registry.set_index_types(&vec![item_class], &type_mapper);
    (type_mapper, table_registry)
}

#[test]
fn test_ref_on_list_generates_ref_validator() {
    let mut items = typed_field("items", "list,Item", "Item[]");
    items.validators.has_ref = true;
    let mut class = make_class("DropConfig", vec![items]);
    class.module_name = Some("items".to_string());

    let (type_mapper, table_registry) = item_registry("string");
    let generator = XmlGenerator::new(&type_mapper, &table_registry);
    let xml = generator.generate(&[class], "items");
    assert!(
        xml.contains(r#"type="list,string#ref=items.TbItem""#),
        "Should generate ref validator for list element. Got:\n{}",
        xml
    );
}

#[test]
fn test_ref_on_map_generates_ref_validator() {
    let mut field = typed_field("itemToSkill", "map,Item,Skill", "Map<RefKey<Item>, Skill>");
    field.validators.has_ref = true;
    field.validators.has_ref_key = true;
    field.ref_key_inner_type = Some("Item".to_string());
    let mut class = make_class("SkillConfig", vec![field]);
    class.module_name = Some("skills".to_string());

    let tables_config = vec![
        full_table("items.Item", "../datas/items", Some("TbItem"), None, Some("id")),
        full_table("skills.Skill", "../datas/skills", Some("TbSkill"), None, Some("skillId")),
    ];
    let mut table_registry = TableRegistry::from_config(&tables_config);
    let item_class = table_class("Item", "items", vec![make_field("id", "int", false)]);
    let skill_class = table_class("Skill", "skills", vec![make_field("skillId", "string", false)]);
    let type_mapper = TypeMapper::new(&Vec::new());
    table_registry.set_index_types(&vec![item_class, skill_class], &type_mapper);

    let generator = XmlGenerator::new(&type_mapper, &table_registry);
    let xml = generator.generate(&[class], "skills");
    assert!(
        xml.contains(r#"type="map,int#ref=items.TbItem,string#ref=skills.TbSkill""#),
        "Should generate ref validators for both map key and value. Got:\n{}",
        xml
    );
}

#[test]
fn test_ref_on_set_generates_ref_validator() {
    let mut field = typed_field("uniqueItems", "set,Item", "Set<Item>");
    field.validators.has_ref = true;
    let mut class = make_class("CollectionConfig", vec![field]);
    class.module_name = Some("items".to_string());

    let (type_mapper, table_registry) = item_registry("int");
    let generator = XmlGenerator::new(&type_mapper, &table_registry);
    let xml = generator.generate(&[class], "items");
    assert!(
        xml.contains(r#"type="set,int#ref=items.TbItem""#),
        "Should generate ref validator for set element. Got:\n{}",
        xml
    );
}

#[test]
fn test_ref_key_scalar_generates_ref_validator() {
    let mut field = typed_field("item", "Item", "RefKey<Item>");
    field.validators.has_ref_key = true;
    field.ref_key_inner_type = Some("Item".to_string());
    let mut class = make_class("RefKeyScalarConfig", vec![field]);
    class.module_name = Some("items".to_string());

    let (type_mapper, table_registry) = item_registry("int");
    let generator = XmlGenerator::new(&type_mapper, &table_registry);
    let xml = generator.generate(&[class], "items");
    assert!(
        xml.contains(r#"type="int#ref=items.TbItem""#),
        "RefKey<T> scalar should generate ref validator. Got:\n{}",
        xml
    );
    assert!(!xml.contains(r#"tags="RefOverride=true""#), "RefKey<T> should NOT add RefOverride tag. Got:\n{}", xml);
}

#[test]
fn test_ref_key_array_generates_ref_validator() {
    let mut field = typed_field("items", "list,Item", "RefKey<Item>[]");
    field.validators.has_ref_key = true;
    field.ref_key_inner_type = Some("Item".to_string());
    let mut class = make_class("RefKeyArrayConfig", vec![field]);
    class.module_name = Some("items".to_string());

    let (type_mapper, table_registry) = item_registry("int");
    let generator = XmlGenerator::new(&type_mapper, &table_registry);
    let xml = generator.generate(&[class], "items");
    assert!(
        xml.contains(r#"type="list,int#ref=items.TbItem""#),
        "RefKey<T>[] should generate ref validator for list element. Got:\n{}",
        xml
    );
    assert!(!xml.contains(r#"tags="RefOverride=true""#), "RefKey<T>[] should NOT add RefOverride tag. Got:\n{}", xml);
}

#[test]
fn duplicate_class_names_give_one_bean() {
    let first = make_class("Dup", vec![make_field("a", "int", false)]);
    let second = make_class("Dup", vec![make_field("b", "int", false)]);
    let xml = generate_xml(&[first, second]);
    assert_eq!(xml.matches(r#"<bean name="Dup""#).count(), 1, "{}", xml);
    assert!(xml.contains(r#"<var name="a""#), "{}", xml);
    assert!(!xml.contains(r#"<var name="b""#), "{}", xml);
}

#[test]
fn inherited_fields_are_not_repeated() {
    let mut parent = make_class("Parent", vec![make_field("shared", "int", false)]);
    parent.is_interface = true;
    let mut child = make_class("Child", vec![make_field("shared", "int", false), make_field("own", "string", false)]);
    child.extends = Some("Parent".to_string());
    let xml = generate_xml(&[parent, child]);
    let child_part = &xml[xml.find(r#"<bean name="Child""#).unwrap()..];
    let child_bean = &child_part[..child_part.find("</bean>").unwrap()];
    assert!(!child_bean.contains(r#"<var name="shared""#), "{}", xml);
    assert!(child_bean.contains(r#"<var name="own" type="string"/>"#), "{}", xml);
}

#[test]
fn readme_monster_bean() {
    let mut class = make_class(
        "Monster",
        vec![
            make_field("id", "number", false),
            make_field("name", "string", false),
            make_field("skills", "list,number", false),
        ],
    );
    class.comment = Some("怪物配置".to_string());
    class.alias = Some("怪物".to_string());
    class.extends = Some("BaseEntity".to_string());
    let xml = generate_xml(&[class]);
    assert!(xml.contains(r#"<bean name="Monster" parent="BaseEntity" alias="怪物" comment="怪物配置">"#), "{}", xml);
    assert!(xml.contains(r#"<var name="id" type="double"/>"#), "{}", xml);
    assert!(xml.contains(r#"<var name="name" type="string"/>"#), "{}", xml);
    assert!(xml.contains(r#"<var name="skills" type="list,double"/>"#), "{}", xml);
    assert!(xml.contains("<!-- 怪物配置 -->"), "{}", xml);
}

#[test]
fn table_element_of_luban_table_class() {
    let mut class = make_class("TbItem", vec![]);
    class.luban_table = Some(LubanTableConfig {
        mode: "map".to_string(),
        index: "id".to_string(),
        group: Some("client".to_string()),
        tags: None,
    });
    assert_eq!(
        generate_table(&class, "configs/TbItem.xlsx", "TbItem"),
        r#"    <table name="TbItemTable" value="TbItem" mode="map" index="id" input="configs/TbItem.xlsx" output="TbItem" group="client" />"#
    );
}

#[test]
fn set_on_number_keeps_double() {
    let mut level = make_field("level", "number", false);
    level.validators.set_values = vec!["1".to_string(), "2".to_string(), "3".to_string()];
    let xml = generate_xml(&[make_class("SetConfig", vec![level])]);
    assert!(xml.contains(r#"<var name="level" type="double#set=1,2,3"/>"#), "{}", xml);
}

#[test]
fn imported_type_module_found_by_path() {
    let mut class = make_class("SkillConfig", vec![typed_field("item", "Item", "Item")]);
    class.module_name = Some("skills".to_string());
    class.imports = vec![("Item".to_string(), "src//items/./item.ts".to_string())];
    let type_mapper = TypeMapper::new(&Vec::new());
    let table_registry = TableRegistry::new();
    let generator = XmlGenerator::with_type_and_file_mapping(
        &type_mapper,
        &table_registry,
        vec![],
        vec![("src/items/item.ts".to_string(), "items".to_string())],
    );
    let xml = generator.generate(&[class], "skills");
    assert!(xml.contains(r#"type="items.Item""#), "Got:\n{}", xml);
}
