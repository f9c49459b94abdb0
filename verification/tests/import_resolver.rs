use luban_gen::ts_generator::import_resolver::ImportResolver;

#[test]
fn test_relative_path() {
    let resolver = ImportResolver::empty();
    let result = resolver.calculate_relative_path("out/tables/item-table.ts", "src/types/item.ts");
    assert!(result.contains(".."));
}

#[test]
fn test_node_modules_package() {
    let resolver = ImportResolver::empty();
    let result = resolver.extract_package_name("node_modules/@white-dragon-bevy/ts-to-luban/src/index.ts");
    assert_eq!(result, "@white-dragon-bevy/ts-to-luban");
}

#[test]
fn test_node_modules_regular_package() {
    let resolver = ImportResolver::empty();
    let result = resolver.extract_package_name("node_modules/lodash/index.ts");
    assert_eq!(result, "lodash");
}

#[test]
fn import_of_sibling_and_parent_directories() {
    let resolver = ImportResolver::empty();
    assert_eq!(resolver.resolve("out/beans.ts", "src/types/item.ts"), "../src/types/item");
    assert_eq!(resolver.resolve("out/a.ts", "out/b.ts"), "./b");
    assert_eq!(resolver.resolve("out/tables/item-table.ts", "src/types/item.ts"), "../../src/types/item");
}

#[test]
fn import_from_node_modules_is_the_package() {
    let resolver = ImportResolver::empty();
    assert_eq!(resolver.resolve("out/beans.ts", "node_modules/@scope/pkg/src/a.ts"), "@scope/pkg");
    assert_eq!(resolver.extract_package_name("src/local.ts"), "src/local.ts");
}
