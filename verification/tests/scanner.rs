use luban_gen::scanner::{scan_directory, WalkEntry};

/// What a walk of `/tmp/t` finds: the directory itself, then each entry.
fn walk(entries: &[(&str, bool)]) -> Vec<WalkEntry> {
    let mut out = vec![WalkEntry {
        path: "/tmp/t".to_string(),
        file_name: "t".to_string(),
        components: vec!["/".to_string(), "tmp".to_string(), "t".to_string()],
        is_file: false,
    }];
    for (rel, is_file) in entries {
        let path = format!("/tmp/t/{}", rel);
        let mut components = vec!["/".to_string(), "tmp".to_string(), "t".to_string()];
        components.extend(rel.split('/').map(|s| s.to_string()));
        out.push(WalkEntry {
            path,
            file_name: rel.rsplit('/').next().unwrap().to_string(),
            components,
            is_file: *is_file,
        });
    }
    out
}

#[test]
fn test_scan_directory() {
    let files = scan_directory(&walk(&[("a.ts", true), ("b.tsx", true), ("c.d.ts", true)]));
    assert_eq!(files.len(), 2);
}

#[test]
fn test_exclude_test_files() {
    let files = scan_directory(&walk(&[("main.ts", true), ("main.spec.ts", true), ("main.test.ts", true)]));
    assert_eq!(files.len(), 1);
}

#[test]
fn test_recursive_scan() {
    let files = scan_directory(&walk(&[("sub", false), ("a.ts", true), ("sub/b.ts", true)]));
    assert_eq!(files.len(), 2);
}

#[test]
fn test_exclude_node_modules() {
    let files = scan_directory(&walk(&[("node_modules", false), ("a.ts", true), ("node_modules/b.ts", true)]));
    assert_eq!(files.len(), 1);
}
