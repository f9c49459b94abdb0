use luban_gen::parser::SizeConstraint;
use luban_gen::parser::virtual_fields::{convert_validators, ConfigValidators};
use luban_gen::parser::virtual_fields::{
    generate_relocate_tags, inject_virtual_fields, RelocateToConfig, VirtualField, VirtualFieldsConfig,
};
use luban_gen::parser::ClassInfo;

fn relocate(target: &str, prefix: &str, target_bean: Option<&str>) -> Option<RelocateToConfig> {
    Some(RelocateToConfig {
        target: target.to_string(),
        prefix: prefix.to_string(),
        target_bean: target_bean.map(|s| s.to_string()),
    })
}

fn weapon_config() -> ClassInfo {
    ClassInfo {
        name: "WeaponConfig".to_string(),
        comment: None,
        alias: None,
        fields: vec![],
        implements: vec![],
        extends: None,
        source_file: "test.ts".to_string(),
        file_hash: "abc123".to_string(),
        is_interface: false,
        output_path: None,
        module_name: None,
        type_params: vec![],
        luban_table: None,
        imports: vec![],
    }
}

#[test]
fn test_generate_relocate_tags() {
    let relocate_to = relocate("TScalingStat", "_main_stat", None);
    let tags = generate_relocate_tags(&relocate_to).unwrap();
    assert_eq!(tags, "relocateTo=TScalingStat,prefix=_main_stat");
}

#[test]
fn test_generate_relocate_tags_with_target_bean() {
    let relocate_to = relocate("TScalingStat", "_main_stat", Some("ScalingStat"));
    let tags = generate_relocate_tags(&relocate_to).unwrap();
    assert_eq!(tags, "relocateTo=TScalingStat,prefix=_main_stat,targetBean=ScalingStat");
}

#[test]
fn test_generate_relocate_tags_none() {
    let tags = generate_relocate_tags(&None);
    assert!(tags.is_none());
}

#[test]
fn test_inject_virtual_fields() {
    let mut class_infos = vec![weapon_config()];
    let virtual_fields = vec![VirtualFieldsConfig {
        class: "WeaponConfig".to_string(),
        fields: vec![VirtualField {
            name: "mainStat".to_string(),
            field_type: "ScalingStat".to_string(),
            comment: Some("Main stat".to_string()),
            optional: None,
            relocate_to: relocate("TScalingStat", "_main", None),
            validators: None,
        }],
    }];

    inject_virtual_fields(&mut class_infos, &virtual_fields);

    let weapon_config = class_infos.iter().find(|c| c.name == "WeaponConfig").unwrap();
    assert_eq!(weapon_config.fields.len(), 1);
    assert_eq!(weapon_config.fields[0].name, "mainStat");
    assert_eq!(weapon_config.fields[0].field_type, "ScalingStat");
    assert_eq!(weapon_config.fields[0].comment, Some("Main stat".to_string()));
    assert_eq!(
        weapon_config.fields[0].custom_tags,
        Some("relocateTo=TScalingStat,prefix=_main".to_string())
    );
}

#[test]
fn test_inject_virtual_fields_multiple_blocks() {
    let mut class_infos = vec![weapon_config()];
    let block = |name: &str, prefix: &str| VirtualFieldsConfig {
        class: "WeaponConfig".to_string(),
        fields: vec![VirtualField {
            name: name.to_string(),
            field_type: "ScalingStat".to_string(),
            comment: None,
            optional: None,
            relocate_to: relocate("TScalingStat", prefix, None),
            validators: None,
        }],
    };
    let virtual_fields = vec![block("mainStat", "_main"), block("subStat", "_sub")];

    inject_virtual_fields(&mut class_infos, &virtual_fields);

    let weapon_config = class_infos.iter().find(|c| c.name == "WeaponConfig").unwrap();
    assert_eq!(weapon_config.fields.len(), 2);
    assert_eq!(weapon_config.fields[0].name, "mainStat");
    assert_eq!(weapon_config.fields[1].name, "subStat");
}

#[test]
fn test_inject_virtual_fields_nonexistent_class() {
    let mut class_infos: Vec<ClassInfo> = Vec::new();
    let virtual_fields = vec![VirtualFieldsConfig {
        class: "NonExistentClass".to_string(),
        fields: vec![VirtualField {
            name: "someField".to_string(),
            field_type: "string".to_string(),
            comment: None,
            optional: None,
            relocate_to: None,
            validators: None,
        }],
    }];

    inject_virtual_fields(&mut class_infos, &virtual_fields);
    assert!(class_infos.is_empty());
}

#[test]
fn virtual_field_optional_and_original_type() {
    let mut class_infos = vec![weapon_config()];
    let virtual_fields = vec![VirtualFieldsConfig {
        class: "WeaponConfig".to_string(),
        fields: vec![VirtualField {
            name: "extra".to_string(),
            field_type: "int".to_string(),
            comment: None,
            optional: Some(true),
            relocate_to: None,
            validators: None,
        }],
    }];
    inject_virtual_fields(&mut class_infos, &virtual_fields);
    let f = &class_infos[0].fields[0];
    assert!(f.is_optional);
    assert_eq!(f.original_type, "int");
    assert_eq!(f.custom_tags, None);
}

#[test]
fn test_convert_validators() {

    let config_validators = Some(ConfigValidators {
        ref_target: Some("Item".to_string()),
        range: Some(("0".to_string(), "100".to_string())),
        required: true,
        size: Some(SizeConstraint::Exact(5)),
        set_values: vec!["a".to_string(), "b".to_string()],
        index_field: Some("id".to_string()),
        nominal: true,
    });

    let parser_validators = convert_validators(&config_validators);
    assert_eq!(parser_validators.ref_target, Some("Item".to_string()));
    assert_eq!(parser_validators.range, Some(("0".to_string(), "100".to_string())));
    assert!(parser_validators.required);
    assert!(matches!(parser_validators.size, Some(SizeConstraint::Exact(5))));
    assert_eq!(parser_validators.set_values, vec!["a".to_string(), "b".to_string()]);
    assert_eq!(parser_validators.index_field, Some("id".to_string()));
    assert!(parser_validators.nominal);
}

#[test]
fn convert_validators_none_gives_empty() {
    let v = convert_validators(&None);
    assert!(v.ref_target.is_none());
    assert!(v.range.is_none());
    assert!(!v.required);
    assert!(v.size.is_none());
    assert!(v.set_values.is_empty());
    assert!(!v.nominal);
}
