use std::path::Path;
use luban_gen::tsconfig::PathResolver;
use luban_gen::tsconfig::remove_json_comments;

#[test]
fn test_remove_json_comments() {
    let input = r#"{
            // This is a comment
            "key": "value", /* block comment */
            "key2": "value2"
        }"#;
    let cleaned = remove_json_comments(input);
    assert!(!cleaned.contains("//"));
    assert!(!cleaned.contains("/*"));
    assert!(cleaned.contains("\"key\""));
}

#[test]
fn json_comments_exact_output() {
    assert_eq!(remove_json_comments("a // c\nb"), "a \nb");
    assert_eq!(remove_json_comments("a /* c */b"), "a b");
    assert_eq!(remove_json_comments(r#"{"url": "http://x/*y*/"}"#), r#"{"url": "http://x/*y*/"}"#);
    assert_eq!(remove_json_comments(r#""a\"//b" // c"#), r#""a\"//b" "#);
    assert_eq!(remove_json_comments("no comments"), "no comments");
}

fn project_tsconfig(paths: Vec<(&str, Vec<&str>)>) -> luban_gen::tsconfig::TsConfig {
    luban_gen::tsconfig::TsConfig {
        compiler_options: luban_gen::tsconfig::CompilerOptions {
            base_url: Some("./src".to_string()),
            paths: paths
                .into_iter()
                .map(|(p, rs)| (p.to_string(), rs.into_iter().map(|r| r.to_string()).collect()))
                .collect(),
        },
    }
}

#[test]
fn test_parse_paths() {
    let tsconfig = project_tsconfig(vec![("shared/*", vec!["shared/*"]), ("@types/*", vec!["types/*"])]);
    let resolver = PathResolver::new(&tsconfig, "/project");
    let resolved = resolver.resolve("shared/utils");
    assert_eq!(Path::new(&resolved), Path::new("/project/src/shared/utils"));
}

#[test]
fn test_resolve_at_alias() {
    let tsconfig = project_tsconfig(vec![("@types/*", vec!["types/*"])]);
    let resolver = PathResolver::new(&tsconfig, "/project");
    let resolved = resolver.resolve("@types/models");
    assert_eq!(Path::new(&resolved), Path::new("/project/src/types/models"));
}

#[test]
fn path_resolver_patterns() {
    let tsconfig = project_tsconfig(vec![("*", vec!["any/*"]), ("exact", vec!["lib/exact"])]);
    let resolver = PathResolver::new(&tsconfig, "/p");
    assert_eq!(resolver.match_pattern("shared/*", "shared/a/b"), Some("a/b".to_string()));
    assert_eq!(resolver.match_pattern("shared/*", "other/a"), None);
    assert_eq!(resolver.match_pattern("exact", "exact"), Some(String::new()));
    assert_eq!(resolver.match_pattern("exact", "exactly"), None);
    assert_eq!(std::path::Path::new(&resolver.resolve("exact")), std::path::Path::new("/p/src/lib/exact"));
    assert_eq!(std::path::Path::new(&resolver.resolve("plain/x")), std::path::Path::new("/p/src/plain/x"));
}

#[test]
fn comment_removal_twice_removes_nothing_more() {
    let input = "{\n  // a\n  \"a\": \"//x\", /* b */ \"c\": 1 /* d\n */\n}";
    let once = luban_gen::tsconfig::remove_json_comments(input);
    assert_eq!(once, "{\n  \n  \"a\": \"//x\",  \"c\": 1 \n}");
    assert_eq!(luban_gen::tsconfig::remove_json_comments(&once), once);
}

#[test]
fn text_without_comment_markers_is_kept() {
    let input = "{\"url\": \"http://x/*y*/\", \"esc\": \"a\\\"//b\", \"n\": 1 / 2}";
    assert_eq!(remove_json_comments(input), input);
}
