use luban_gen::parser::ast::{
    BinOp, ClassDeclNode, ClassMemberNode, ClassPropNode, EnumDeclNode, EnumMemberNode, ExprNode, InterfaceDeclNode,
    KeywordKind, ModuleItemNode, NumberLit, PropSigNode, TypeNode,
};
use luban_gen::parser::ts::{compute_hash, TsParser};

fn num(n: i64) -> ExprNode {
    ExprNode::Num(NumberLit { int_value: n, size_value: n as usize, text: n.to_string(), schema_text: n.to_string() })
}

fn shl(a: i64, b: i64) -> ExprNode {
    ExprNode::Bin(BinOp::LShift, Box::new(num(a)), Box::new(num(b)))
}

fn kw(k: KeywordKind) -> TypeNode {
    TypeNode::Keyword(k)
}

fn tref(name: &str, params: Option<Vec<TypeNode>>) -> TypeNode {
    TypeNode::Ref(Some(name.to_string()), params)
}

fn prop(name: &str, ty: TypeNode, optional: bool) -> ClassMemberNode {
    ClassMemberNode::Prop(ClassPropNode {
        hidden: false,
        name: Some(name.to_string()),
        type_ann: Some(ty),
        value: None,
        optional,
        comments: vec![],
        decorators: vec![],
    })
}

fn class(name: &str, members: Vec<ClassMemberNode>, export_comments: Vec<&str>) -> ModuleItemNode {
    ModuleItemNode::ExportClass(ClassDeclNode {
        name: name.to_string(),
        type_params: None,
        decorators: vec![],
        implements: vec![],
        super_class: None,
        members,
        export_comments: export_comments.into_iter().map(|s| s.to_string()).collect(),
        decorator_comments: vec![],
        ident_comments: vec![],
        class_comments: vec![],
    })
}

fn iface(name: &str, extends: Vec<&str>, props: Vec<(&str, TypeNode)>, export_comments: Vec<&str>) -> ModuleItemNode {
    ModuleItemNode::ExportInterface(InterfaceDeclNode {
        name: name.to_string(),
        type_params: None,
        extends: extends.into_iter().map(|e| ExprNode::Ident(e.to_string())).collect(),
        props: props
            .into_iter()
            .map(|(n, t)| PropSigNode { key: ExprNode::Ident(n.to_string()), type_ann: Some(t), optional: false, comments: vec![] })
            .collect(),
        export_comments: export_comments.into_iter().map(|s| s.to_string()).collect(),
        decl_comments: vec![],
    })
}

fn member(name: &str, init: Option<ExprNode>, comment: Option<&str>) -> EnumMemberNode {
    EnumMemberNode { name: name.to_string(), init, comments: comment.map(|c| vec![c.to_string()]).unwrap_or_default() }
}

fn enum_item(name: &str, members: Vec<EnumMemberNode>, export_comments: Vec<&str>) -> ModuleItemNode {
    ModuleItemNode::ExportEnum(EnumDeclNode {
        name: name.to_string(),
        members,
        export_comments: export_comments.into_iter().map(|s| s.to_string()).collect(),
        decl_comments: vec![],
    })
}

fn parse_classes(items: Vec<ModuleItemNode>) -> Vec<luban_gen::parser::ClassInfo> {
    TsParser::new().parse_file("test.ts", "content", &items)
}

fn parse_enums(items: Vec<ModuleItemNode>) -> Vec<luban_gen::parser::EnumInfo> {
    TsParser::new().parse_enums("test.ts", "content", &items)
}

#[test]
fn test_parse_simple_class() {
    let classes = parse_classes(vec![class(
        "MyClass",
        vec![
            prop("name", kw(KeywordKind::String), false),
            prop("count", kw(KeywordKind::Number), false),
            prop("active", kw(KeywordKind::Boolean), true),
        ],
        vec![],
    )]);
    assert_eq!(classes.len(), 1);
    assert_eq!(classes[0].name, "MyClass");
    assert_eq!(classes[0].fields.len(), 3);
    assert_eq!(classes[0].fields[0].name, "name");
    assert_eq!(classes[0].fields[0].field_type, "string");
    assert_eq!(classes[0].fields[1].field_type, "number");
    assert!(classes[0].fields[2].is_optional);
}

#[test]
fn test_parse_class_with_implements() {
    let mut item = class("MyTrigger", vec![prop("damage", kw(KeywordKind::Number), false)], vec![]);
    if let ModuleItemNode::ExportClass(c) = &mut item {
        c.implements = vec![ExprNode::Ident("EntityTrigger".to_string())];
    }
    let classes = parse_classes(vec![ModuleItemNode::Other, item]);
    assert_eq!(classes.len(), 1);
    assert_eq!(classes[0].implements, vec!["EntityTrigger"]);
}

#[test]
fn test_parse_array_types() {
    let classes = parse_classes(vec![class(
        "MyClass",
        vec![
            prop("items", TypeNode::Array(Box::new(kw(KeywordKind::String))), false),
            prop("numbers", tref("Array", Some(vec![kw(KeywordKind::Number)])), false),
        ],
        vec![],
    )]);
    assert_eq!(classes[0].fields[0].field_type, "list,string");
    assert_eq!(classes[0].fields[1].field_type, "list,number");
}

#[test]
fn test_parse_map_types() {
    let classes = parse_classes(vec![class(
        "MyClass",
        vec![
            prop("data", tref("Map", Some(vec![kw(KeywordKind::String), kw(KeywordKind::Number)])), false),
            prop("record", tref("Record", Some(vec![kw(KeywordKind::String), kw(KeywordKind::Boolean)])), false),
        ],
        vec![],
    )]);
    assert_eq!(classes[0].fields[0].field_type, "map,string,number");
    assert_eq!(classes[0].fields[1].field_type, "map,string,bool");
}

#[test]
fn test_parse_interface_extends() {
    let classes = parse_classes(vec![
        iface("BaseTrigger", vec![], vec![("id", kw(KeywordKind::Number))], vec![]),
        iface("EntityTrigger", vec!["BaseTrigger"], vec![("num", kw(KeywordKind::Number))], vec![]),
    ]);
    assert_eq!(classes.len(), 2);
    assert_eq!(classes[0].name, "BaseTrigger");
    assert_eq!(classes[0].extends, None);
    assert!(classes[0].is_interface);
    assert_eq!(classes[1].name, "EntityTrigger");
    assert_eq!(classes[1].extends, Some("BaseTrigger".to_string()));
    assert!(classes[1].is_interface);
}

#[test]
fn test_parse_string_enum() {
    let enums = parse_enums(vec![enum_item(
        "ItemType",
        vec![
            member("Role", Some(ExprNode::Str("role".to_string())), Some("* 角色 ")),
            member("Consumable", Some(ExprNode::Str("consumable".to_string())), Some("* 消耗品 ")),
            member("Currency", Some(ExprNode::Str("currency".to_string())), Some("* 货币 ")),
        ],
        vec!["*\n * 物品类型枚举\n "],
    )]);
    assert_eq!(enums.len(), 1);
    let e = &enums[0];
    assert_eq!(e.name, "ItemType");
    assert_eq!(e.comment, Some("物品类型枚举".to_string()));
    assert!(e.is_string_enum);
    assert_eq!(e.variants.len(), 3);
    assert_eq!(e.variants[0].name, "Role");
    assert_eq!(e.variants[0].alias, None);
    assert_eq!(e.variants[0].value, "role");
    assert_eq!(e.variants[0].comment, Some("角色".to_string()));
    assert_eq!(e.variants[1].name, "Consumable");
    assert_eq!(e.variants[1].alias, None);
    assert_eq!(e.variants[1].value, "consumable");
    assert_eq!(e.variants[2].name, "Currency");
    assert_eq!(e.variants[2].alias, None);
    assert_eq!(e.variants[2].value, "currency");
}

#[test]
fn test_parse_number_enum() {
    let enums = parse_enums(vec![enum_item(
        "SkillStyle",
        vec![
            member("Attack", Some(num(1)), Some("* 攻击技能 ")),
            member("Defense", Some(num(2)), Some("* 防御技能 ")),
            member("Support", Some(num(3)), Some("* 辅助技能 ")),
        ],
        vec!["*\n * 技能类型\n "],
    )]);
    assert_eq!(enums.len(), 1);
    let e = &enums[0];
    assert_eq!(e.name, "SkillStyle");
    assert_eq!(e.comment, Some("技能类型".to_string()));
    assert!(!e.is_string_enum);
    assert_eq!(e.variants.len(), 3);
    assert_eq!(e.variants[0].name, "Attack");
    assert_eq!(e.variants[0].alias, None);
    assert_eq!(e.variants[0].value, "1");
    assert_eq!(e.variants[0].comment, Some("攻击技能".to_string()));
    assert_eq!(e.variants[1].name, "Defense");
    assert_eq!(e.variants[1].value, "2");
    assert_eq!(e.variants[2].name, "Support");
    assert_eq!(e.variants[2].value, "3");
}

#[test]
fn test_parse_enum_flags_tag() {
    let enums = parse_enums(vec![enum_item(
        "UnitFlag",
        vec![member("CAN_MOVE", Some(shl(1, 0)), Some("* 可以移动 ")), member("CAN_ATTACK", Some(shl(1, 1)), Some("* 可以攻击 "))],
        vec!["*\n * 位标志枚举\n * @flags=\"true\"\n "],
    )]);
    assert_eq!(enums.len(), 1);
    let e = &enums[0];
    assert_eq!(e.name, "UnitFlag");
    assert!(e.is_flags, "Enum should have is_flags=true");
    assert_eq!(e.comment, Some("位标志枚举".to_string()));
}

#[test]
fn test_parse_enum_variant_alias_tag() {
    let enums = parse_enums(vec![enum_item(
        "UnitFlag",
        vec![
            member("CAN_MOVE", Some(shl(1, 0)), Some("*\n     * 可以移动\n     * @alias=\"移动\"\n     ")),
            member("CAN_ATTACK", Some(shl(1, 1)), Some("*\n     * 可以攻击\n     * @alias=\"攻击\"\n     ")),
            member("NO_ALIAS", Some(shl(1, 2)), Some("* 无别名 ")),
        ],
        vec!["*\n * 位标志枚举\n * @flags=\"true\"\n "],
    )]);
    assert_eq!(enums.len(), 1);
    let e = &enums[0];
    assert!(e.is_flags);
    assert_eq!(e.variants[0].name, "CAN_MOVE");
    assert_eq!(e.variants[0].alias, Some("移动".to_string()));
    assert_eq!(e.variants[0].comment, Some("可以移动".to_string()));
    assert_eq!(e.variants[1].name, "CAN_ATTACK");
    assert_eq!(e.variants[1].alias, Some("攻击".to_string()));
    assert_eq!(e.variants[1].comment, Some("可以攻击".to_string()));
    assert_eq!(e.variants[2].name, "NO_ALIAS");
    assert_eq!(e.variants[2].alias, None);
    assert_eq!(e.variants[2].comment, Some("无别名".to_string()));
}

#[test]
fn test_parse_bitshift_enum() {
    let enums = parse_enums(vec![enum_item(
        "Flags",
        vec![
            member("A", Some(shl(1, 0)), Some("* 标志A ")),
            member("B", Some(shl(1, 1)), Some("* 标志B ")),
            member("C", Some(shl(1, 2)), Some("* 标志C ")),
            member("D", Some(shl(1, 4)), Some("* 标志D ")),
        ],
        vec!["*\n * 位标志枚举\n "],
    )]);
    assert_eq!(enums.len(), 1);
    let e = &enums[0];
    assert_eq!(e.name, "Flags");
    assert!(!e.is_string_enum);
    assert_eq!(e.variants.len(), 4);
    assert_eq!(e.variants[0].name, "A");
    assert_eq!(e.variants[0].value, "1");
    assert_eq!(e.variants[1].name, "B");
    assert_eq!(e.variants[1].value, "2");
    assert_eq!(e.variants[2].name, "C");
    assert_eq!(e.variants[2].value, "4");
    assert_eq!(e.variants[3].name, "D");
    assert_eq!(e.variants[3].value, "16");
}

#[test]
fn test_ignore_class() {
    let classes = parse_classes(vec![
        class("IgnoredClass", vec![prop("name", kw(KeywordKind::String), false)], vec!["*\n * 这个类应该被忽略\n * @ignore\n "]),
        class("ExportedClass", vec![prop("value", kw(KeywordKind::Number), false)], vec!["*\n * 这个类应该被导出\n "]),
    ]);
    assert_eq!(classes.len(), 1);
    assert_eq!(classes[0].name, "ExportedClass");
}

#[test]
fn test_ignore_interface() {
    let classes = parse_classes(vec![
        iface("IgnoredInterface", vec![], vec![("name", kw(KeywordKind::String))], vec!["*\n * 这个接口应该被忽略\n * @ignore\n "]),
        iface("ExportedInterface", vec![], vec![("value", kw(KeywordKind::Number))], vec!["*\n * 这个接口应该被导出\n "]),
    ]);
    assert_eq!(classes.len(), 1);
    assert_eq!(classes[0].name, "ExportedInterface");
}

#[test]
fn test_ignore_enum() {
    let enums = parse_enums(vec![
        enum_item("IgnoredEnum", vec![member("A", Some(num(1)), None), member("B", Some(num(2)), None)], vec!["*\n * 这个枚举应该被忽略\n * @ignore\n "]),
        enum_item("ExportedEnum", vec![member("X", Some(num(1)), None), member("Y", Some(num(2)), None)], vec!["*\n * 这个枚举应该被导出\n "]),
    ]);
    assert_eq!(enums.len(), 1);
    assert_eq!(enums[0].name, "ExportedEnum");
}

#[test]
fn test_parse_object_factory_field() {
    let classes = parse_classes(vec![class(
        "TestClass",
        vec![
            prop("factory", tref("ObjectFactory", Some(vec![tref("SomeBean", None)])), false),
            prop("factories", TypeNode::Array(Box::new(tref("ObjectFactory", Some(vec![tref("BaseType", None)])))), false),
            prop("normalField", kw(KeywordKind::String), false),
        ],
        vec![],
    )]);
    assert_eq!(classes.len(), 1);
    let class = &classes[0];
    assert_eq!(class.fields.len(), 3);
    assert_eq!(class.fields[0].name, "factory");
    assert!(class.fields[0].is_object_factory);
    assert_eq!(class.fields[0].factory_inner_type, Some("SomeBean".to_string()));
    assert_eq!(class.fields[0].field_type, "SomeBean");
    assert_eq!(class.fields[1].name, "factories");
    assert!(class.fields[1].is_object_factory);
    assert_eq!(class.fields[1].factory_inner_type, Some("BaseType".to_string()));
    assert_eq!(class.fields[1].field_type, "list,BaseType");
    assert_eq!(class.fields[2].name, "normalField");
    assert!(!class.fields[2].is_object_factory);
}

#[test]
fn test_parse_constructor_field() {
    let classes = parse_classes(vec![class(
        "TestClass",
        vec![
            prop("triggerType", tref("Constructor", Some(vec![tref("BaseTrigger", None)])), false),
            prop("componentType", tref("Constructor", Some(vec![tref("UIComponent", None)])), false),
            prop("normalField", kw(KeywordKind::String), false),
        ],
        vec![],
    )]);
    assert_eq!(classes.len(), 1);
    let class = &classes[0];
    assert_eq!(class.fields.len(), 3);
    assert_eq!(class.fields[0].name, "triggerType");
    assert!(class.fields[0].is_constructor);
    assert_eq!(class.fields[0].constructor_inner_type, Some("BaseTrigger".to_string()));
    assert_eq!(class.fields[0].field_type, "string");
    assert_eq!(class.fields[1].name, "componentType");
    assert!(class.fields[1].is_constructor);
    assert_eq!(class.fields[1].constructor_inner_type, Some("UIComponent".to_string()));
    assert_eq!(class.fields[1].field_type, "string");
    assert_eq!(class.fields[2].name, "normalField");
    assert!(!class.fields[2].is_constructor);
}

#[test]
fn enum_auto_values_continue_after_explicit_ones() {
    let enums = parse_enums(vec![enum_item(
        "E",
        vec![
            member("A", None, None),
            member("B", Some(num(10)), None),
            member("C", None, None),
            member("D", Some(ExprNode::Bin(BinOp::BitOr, Box::new(ExprNode::Ident("A".to_string())), Box::new(ExprNode::Ident("B".to_string())))), None),
            member("F", Some(ExprNode::Ident("Unknown".to_string())), None),
        ],
        vec![],
    )]);
    let values: Vec<&str> = enums[0].variants.iter().map(|v| v.value.as_str()).collect();
    assert_eq!(values, vec!["1", "10", "11", "11", "12"]);
}

#[test]
fn file_hash_is_md5_hex() {
    assert_eq!(compute_hash(""), "d41d8cd98f00b204e9800998ecf8427e");
    assert_eq!(compute_hash("abc"), "900150983cd24fb0d6963f7d28e17f72");
    let classes = parse_classes(vec![class("A", vec![], vec![])]);
    assert_eq!(classes[0].file_hash, compute_hash("content"));
    assert_eq!(classes[0].source_file, "test.ts");
}

#[test]
fn class_comment_alias_and_hidden_fields() {
    let mut item = class(
        "Cfg",
        vec![
            ClassMemberNode::Prop(ClassPropNode {
                hidden: true,
                name: Some("secret".to_string()),
                type_ann: Some(kw(KeywordKind::String)),
                value: None,
                optional: false,
                comments: vec![],
                decorators: vec![],
            }),
            ClassMemberNode::Prop(ClassPropNode {
                hidden: false,
                name: Some("level".to_string()),
                type_ann: None,
                value: Some(ExprNode::As(kw(KeywordKind::Number))),
                optional: false,
                comments: vec!["* 等级 ".to_string()],
                decorators: vec![],
            }),
            prop("_nominal_tag", kw(KeywordKind::String), false),
        ],
        vec!["*\n * 配置\n * @alias=\"别名\"\n * @param other 其他\n "],
    );
    if let ModuleItemNode::ExportClass(c) = &mut item {
        c.super_class = Some(ExprNode::Ident("Base".to_string()));
    }
    let classes = parse_classes(vec![item]);
    let c = &classes[0];
    assert_eq!(c.comment, Some("配置".to_string()));
    assert_eq!(c.alias, Some("别名".to_string()));
    assert_eq!(c.extends, Some("Base".to_string()));
    assert_eq!(c.fields.len(), 1);
    assert_eq!(c.fields[0].name, "level");
    assert_eq!(c.fields[0].field_type, "number");
    assert_eq!(c.fields[0].comment, Some("等级".to_string()));
}

#[test]
fn readme_flags_enum_with_combined_member() {
    let combined = ExprNode::Bin(
        BinOp::BitOr,
        Box::new(ExprNode::Ident("CAN_MOVE".to_string())),
        Box::new(ExprNode::Ident("CAN_ATTACK".to_string())),
    );
    let enums = parse_enums(vec![enum_item(
        "UnitFlag",
        vec![
            member("CAN_MOVE", Some(shl(1, 0)), Some("* @alias=\"移动\" ")),
            member("CAN_ATTACK", Some(shl(1, 1)), Some("* @alias=\"攻击\" ")),
            member("BASICS", Some(combined), None),
        ],
        vec!["*\n * 单位权限标志\n * @flags=\"true\"\n * @alias:权限\n "],
    )]);
    let e = &enums[0];
    assert!(e.is_flags);
    assert_eq!(e.alias, Some("权限".to_string()));
    assert_eq!(e.comment, Some("单位权限标志".to_string()));
    let values: Vec<&str> = e.variants.iter().map(|v| v.value.as_str()).collect();
    assert_eq!(values, vec!["1", "2", "3"]);
    assert_eq!(e.variants[0].alias, Some("移动".to_string()));
    assert_eq!(e.variants[2].alias, None);
}
