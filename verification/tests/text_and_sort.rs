use luban_gen::config::TableConfig;
use luban_gen::parser::{FieldInfo, SizeConstraint};
use luban_gen::sort::{sort_pairs, sort_strings, sorted_distinct, str_lt};
use luban_gen::table_registry::TableRegistry;
use luban_gen::text::{i64_to_decimal, join_strings, replace_text, u64_to_decimal, usize_to_decimal};
use luban_gen::validator::ValidatorGenerator;
use luban_gen::xml_types::{after_last_dot, qualify, split_first_comma};

#[test]
fn decimals() {
    assert_eq!(usize_to_decimal(0), "0");
    assert_eq!(usize_to_decimal(1234), "1234");
    assert_eq!(u64_to_decimal(u64::MAX), "18446744073709551615");
    assert_eq!(i64_to_decimal(-42), "-42");
    assert_eq!(i64_to_decimal(i64::MIN), "-9223372036854775808");
}

#[test]
fn text_helpers() {
    assert_eq!(replace_text("New{name}Table", "{name}", "TbItem"), "NewTbItemTable");
    assert_eq!(replace_text("{name}/{name}", "{name}", "x"), "x/x");
    assert_eq!(join_strings(&vec!["a".to_string(), "b".to_string()], ", "), "a, b");
    assert_eq!(join_strings(&vec![], ","), "");
}

#[test]
fn sorting() {
    let v = vec!["b".to_string(), "a".to_string(), "b".to_string(), "B".to_string()];
    assert_eq!(sort_strings(&v), vec!["B".to_string(), "a".to_string(), "b".to_string(), "b".to_string()]);
    assert_eq!(sorted_distinct(&v), vec!["B".to_string(), "a".to_string(), "b".to_string()]);
    assert!(str_lt("ab", "b"));
    assert!(str_lt("a", "ab"));
    assert!(!str_lt("b", "b"));
    let pairs = vec![("m.B".to_string(), "B".to_string()), ("m.A".to_string(), "A".to_string())];
    assert_eq!(sort_pairs(&pairs), vec![("m.A".to_string(), "A".to_string()), ("m.B".to_string(), "B".to_string())]);
}

#[test]
fn xml_type_helpers() {
    assert_eq!(split_first_comma("a,b,c"), Some(("a".to_string(), "b,c".to_string())));
    assert_eq!(split_first_comma("abc"), None);
    assert_eq!(after_last_dot("a.b.C"), "C");
    assert_eq!(after_last_dot("C"), "C");
    assert_eq!(qualify("m", "T"), "m.T");
    assert_eq!(qualify("", "T"), "T");
}

#[test]
fn validator_types() {
    let registry = TableRegistry::from_config(&vec![("items.Item".to_string(), TableConfig::Simple("x".to_string()))]);
    let gen = ValidatorGenerator::new(&registry);
    let mut f = FieldInfo::new("f".to_string(), "int".to_string());
    f.validators.required = true;
    f.validators.ref_target = Some("Item".to_string());
    f.validators.range = Some(("1".to_string(), "100".to_string()));
    f.validators.set_values = vec!["1".to_string(), "2".to_string()];
    assert_eq!(gen.generate_type("int", &f.validators), "int!#ref=items.ItemTable#range=[1,100]#set=1,2");
    f.validators.ref_target = Some("Unknown".to_string());
    f.validators.required = false;
    f.validators.range = None;
    f.validators.set_values = vec![];
    assert_eq!(gen.generate_type("int", &f.validators), "int");

    let mut c = FieldInfo::new("c".to_string(), "list,int".to_string());
    assert_eq!(gen.generate_container_type("list", "int", &c.validators), "list,int");
    c.validators.size = Some(SizeConstraint::Range(1, 5));
    c.validators.index_field = Some("id".to_string());
    assert_eq!(gen.generate_container_type("list", "int", &c.validators), "(list#size=[1,5],index=id),int");
    c.validators.size = Some(SizeConstraint::Exact(3));
    c.validators.index_field = None;
    assert_eq!(gen.generate_container_type("array", "int", &c.validators), "(array#size=3),int");
}
