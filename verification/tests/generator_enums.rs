use luban_gen::generator::generate_enum_xml;
use luban_gen::parser::{EnumInfo, EnumVariant};
use luban_gen::text::escape_xml;

fn variant(name: &str, alias: Option<&str>, value: &str, comment: Option<&str>) -> EnumVariant {
    EnumVariant {
        name: name.to_string(),
        alias: alias.map(|s| s.to_string()),
        value: value.to_string(),
        comment: comment.map(|s| s.to_string()),
    }
}

fn enum_info(
    name: &str,
    comment: Option<&str>,
    is_string_enum: bool,
    is_flags: bool,
    tags: Option<&str>,
    variants: Vec<EnumVariant>,
) -> EnumInfo {
    EnumInfo {
        name: name.to_string(),
        alias: None,
        comment: comment.map(|s| s.to_string()),
        is_string_enum,
        is_flags,
        tags: tags.map(|s| s.to_string()),
        variants,
        source_file: "test.ts".to_string(),
        file_hash: "abc".to_string(),
        output_path: None,
        module_name: None,
    }
}

#[test]
fn test_xml_escape() {
    assert_eq!(escape_xml("a < b & c > d"), "a &lt; b &amp; c &gt; d");
    assert_eq!(escape_xml(r#"say "hello""#), r#"say &quot;hello&quot;"#);
}

#[test]
fn escape_apostrophe_and_plain_text() {
    assert_eq!(escape_xml("it's"), "it&apos;s");
    assert_eq!(escape_xml("plain text 中文"), "plain text 中文");
    assert_eq!(escape_xml(""), "");
}

#[test]
fn test_generate_string_enum() {
    let e = enum_info(
        "ItemType",
        Some("物品类型"),
        true,
        false,
        None,
        vec![
            variant("Role", None, "role", Some("角色")),
            variant("Consumable", None, "consumable", Some("消耗品")),
        ],
    );
    let xml = generate_enum_xml(&[e], "test");
    assert!(xml.contains(r#"<enum name="ItemType" comment="物品类型">"#));
    assert!(xml.contains(r#"<var name="Role" value="role" comment="角色"/>"#));
    assert!(xml.contains(r#"<var name="Consumable" value="consumable" comment="消耗品"/>"#));
}

#[test]
fn test_generate_number_enum() {
    let e = enum_info(
        "SkillStyle",
        Some("技能类型"),
        false,
        false,
        None,
        vec![
            variant("Attack", None, "1", Some("攻击技能")),
            variant("Defense", None, "2", None),
        ],
    );
    let xml = generate_enum_xml(&[e], "test");
    assert!(xml.contains(r#"<enum name="SkillStyle" comment="技能类型">"#));
    assert!(!xml.contains(r#"tags="string""#));
    assert!(xml.contains(r#"<var name="Attack" value="1" comment="攻击技能"/>"#));
    assert!(xml.contains(r#"<var name="Defense" value="2"/>"#));
}

#[test]
fn test_generate_flags_enum() {
    let e = enum_info(
        "UnitFlag",
        Some("权限控制"),
        false,
        true,
        None,
        vec![
            variant("CAN_MOVE", Some("移动"), "1", Some("可以移动")),
            variant("CAN_ATTACK", Some("攻击"), "2", Some("可以攻击")),
        ],
    );
    let xml = generate_enum_xml(&[e], "test");
    assert!(xml.contains(r#"<enum name="UnitFlag" flags="true" comment="权限控制">"#));
    assert!(xml.contains(r#"<var name="CAN_MOVE" alias="移动" value="1" comment="可以移动"/>"#));
    assert!(xml.contains(r#"<var name="CAN_ATTACK" alias="攻击" value="2" comment="可以攻击"/>"#));
}

#[test]
fn test_enum_with_tags() {
    let e = enum_info(
        "PieceAttributeType",
        Some("属性类型"),
        true,
        false,
        Some("string"),
        vec![variant("Attack", None, "attack", None), variant("Defense", None, "defense", None)],
    );
    let xml = generate_enum_xml(&[e], "test");
    assert!(
        xml.contains(r#"<enum name="PieceAttributeType" tags="string" comment="属性类型">"#),
        "@tags should add tags attribute to enum. Got:\n{}",
        xml
    );
}

#[test]
fn enum_xml_whole_document() {
    let e = enum_info("Color", None, false, false, None, vec![variant("Red", None, "0", None)]);
    let xml = generate_enum_xml(&[e], "game");
    assert!(xml.starts_with(r#"<module name="game" comment="#), "{}", xml);
    assert!(xml.contains(r#"<enum name="Color">"#), "{}", xml);
    assert!(xml.contains(r#"<var name="Red" value="0"/>"#), "{}", xml);
    assert!(xml.contains("</enum>"), "{}", xml);
    assert!(xml.contains("</module>"), "{}", xml);
}

#[test]
fn enum_comment_is_escaped() {
    let e = enum_info("Op", Some("a < b"), false, false, None, vec![variant("Lt", None, "1", Some("x & y"))]);
    let xml = generate_enum_xml(&[e], "m");
    assert!(xml.contains(r#"<enum name="Op" comment="a &lt; b">"#), "{}", xml);
    assert!(xml.contains(r#"<var name="Lt" value="1" comment="x &amp; y"/>"#), "{}", xml);
}

#[test]
fn escape_every_special_character() {
    assert_eq!(escape_xml("&<>\"'x"), "&amp;&lt;&gt;&quot;&apos;x");
    assert_eq!(escape_xml("&amp;"), "&amp;amp;");
}
