use luban_gen::cache::Cache;
use luban_gen::config::{ScanOptions, SourceConfig};
use luban_gen::parser::{ClassInfo, EnumInfo};
use luban_gen::pipeline::{
    bean_type_enums_for, enum_modules, existing_bean_names, file_modules, group_modules, locate_classes, locate_enums,
    on_fs_event, on_tick, plan_sources, refresh_cache, should_write, watch_candidates, SingleSource, WatchState,
};
use luban_gen::scanner::{scan_directories, scan_directory, scan_directory_with_options, ScanConfig, WalkEntry};

fn class(name: &str, module: Option<&str>, out: Option<&str>) -> ClassInfo {
    ClassInfo {
        name: name.to_string(),
        comment: None,
        alias: None,
        fields: vec![],
        implements: vec![],
        extends: None,
        source_file: format!("src/{}.ts", name),
        file_hash: format!("h-{}", name),
        is_interface: false,
        output_path: out.map(|s| s.to_string()),
        module_name: module.map(|s| s.to_string()),
        type_params: vec![],
        luban_table: None,
        imports: vec![],
    }
}

fn enum_info(name: &str, module: Option<&str>) -> EnumInfo {
    EnumInfo {
        name: name.to_string(),
        alias: None,
        comment: None,
        is_string_enum: false,
        is_flags: false,
        tags: None,
        variants: vec![],
        source_file: format!("src/{}.ts", name),
        file_hash: format!("h-{}", name),
        output_path: None,
        module_name: module.map(|s| s.to_string()),
    }
}

#[test]
fn plan_splits_and_resolves_sources() {
    let sources = vec![
        SourceConfig::Directory {
            path: "src".to_string(),
            scan_options: ScanOptions { include_dts: true, include_node_modules: false },
            output_path: Some("out/a.xml".to_string()),
            module_name: Some("a".to_string()),
        },
        SourceConfig::Files { paths: vec!["x.ts".to_string(), "/abs/y.ts".to_string()], output_path: None, module_name: None },
        SourceConfig::Glob { pattern: "g/*.ts".to_string(), output_path: None, module_name: Some("g".to_string()) },
        SourceConfig::Registration { path: "reg.ts".to_string() },
    ];
    let plan = plan_sources(&sources, "/root");
    assert_eq!(plan.dirs.len(), 1);
    assert_eq!(plan.dirs[0].path, "/root/src");
    assert!(plan.dirs[0].scan.include_dts);
    assert_eq!(plan.dirs[0].module_name.as_deref(), Some("a"));
    assert_eq!(plan.singles.len(), 3);
    match &plan.singles[0] {
        SingleSource::File { path, .. } => assert_eq!(path, "/root/x.ts"),
        other => panic!("{:?}", other),
    }
    match &plan.singles[1] {
        SingleSource::File { path, .. } => assert_eq!(path, "/abs/y.ts"),
        other => panic!("{:?}", other),
    }
    match &plan.singles[2] {
        SingleSource::Glob { pattern, module_name, .. } => {
            assert_eq!(pattern, "/root/g/*.ts");
            assert_eq!(module_name.as_deref(), Some("g"));
        }
        other => panic!("{:?}", other),
    }
    assert_eq!(plan.registrations, vec!["reg.ts".to_string()]);
}

#[test]
fn locate_sets_output_and_module() {
    let mut classes = vec![class("A", None, None), class("B", Some("old"), None)];
    locate_classes(&mut classes, &Some("out.xml".to_string()), &Some("m".to_string()));
    assert!(classes.iter().all(|c| c.output_path.as_deref() == Some("out.xml") && c.module_name.as_deref() == Some("m")));
    let mut enums = vec![enum_info("E", Some("x"))];
    locate_enums(&mut enums, &None, &None);
    assert_eq!(enums[0].module_name, None);
    assert_eq!(enums[0].output_path, None);
}

#[test]
fn existing_names_have_module_prefix() {
    let names = existing_bean_names(&[class("A", Some("m"), None), class("B", None, None)]);
    assert_eq!(names, vec!["m.A".to_string(), "B".to_string()]);
}

#[test]
fn refresh_counts_and_records() {
    let mut cache = Cache::new();
    cache.set_entry("A", "src/A.ts", "h-A");
    let classes = vec![class("A", None, None), class("B", None, None), class("B", None, None)];
    let enums = vec![enum_info("E", None)];
    let (unchanged, updated) = refresh_cache(&mut cache, &classes, &enums);
    assert_eq!((unchanged, updated), (2, 2));
    assert!(cache.is_valid("B", "h-B"));
    assert!(cache.is_valid("E", "h-E"));
    let (unchanged, updated) = refresh_cache(&mut cache, &classes, &enums);
    assert_eq!((unchanged, updated), (4, 0));
}

#[test]
fn modules_of_enums_and_files() {
    let enums = vec![enum_info("E", Some("en")), enum_info("F", None)];
    assert_eq!(enum_modules(&enums), vec![("E".to_string(), "en".to_string())]);
    let classes = vec![class("A", Some("ma"), None), class("B", None, None)];
    let fm = file_modules(
        &classes,
        &vec!["/p/A.ts".to_string(), "/p/B.ts".to_string()],
        &enums,
        &vec!["/p/E.ts".to_string(), "/p/F.ts".to_string()],
    );
    assert_eq!(fm, vec![("/p/A.ts".to_string(), "ma".to_string()), ("/p/E.ts".to_string(), "en".to_string())]);
}

#[test]
fn groups_in_first_appearance_order() {
    let classes = vec![class("A", Some("m2"), None), class("B", None, Some("other.xml")), class("C", Some("m2"), None)];
    let enums = vec![enum_info("E", None), enum_info("F", Some("m2"))];
    let groups = group_modules(&classes, &enums, "out.xml", "def");
    let keys: Vec<(String, String)> = groups.iter().map(|g| (g.out_path.clone(), g.module.clone())).collect();
    assert_eq!(
        keys,
        vec![
            ("out.xml".to_string(), "m2".to_string()),
            ("other.xml".to_string(), "def".to_string()),
            ("out.xml".to_string(), "def".to_string()),
        ]
    );
    assert_eq!(groups[0].classes, vec![0, 2]);
    assert_eq!(groups[0].enums, vec![1]);
    assert_eq!(groups[1].classes, vec![1]);
    assert!(groups[1].enums.is_empty());
    assert!(groups[2].classes.is_empty());
    assert_eq!(groups[2].enums, vec![0]);
}

#[test]
fn write_only_when_changed() {
    assert!(should_write(&None, "x"));
    assert!(should_write(&Some("y".to_string()), "x"));
    assert!(!should_write(&Some("x".to_string()), "x"));
}

#[test]
fn bean_type_enums_group_by_parent() {
    let mut a = class("DamageTrigger", None, None);
    a.extends = Some("BaseTrigger".to_string());
    a.alias = Some("伤害".to_string());
    let mut b = class("HealTrigger", None, None);
    b.extends = Some("BaseTrigger".to_string());
    let c = class("Plain", None, None);
    let xml = bean_type_enums_for(&[a, b, c], "m");
    assert!(xml.contains("<module name=\"m\""), "{}", xml);
    assert!(xml.contains("BaseTrigger"), "{}", xml);
    assert!(xml.contains("<var name=\"DamageTrigger\" alias=\"伤害\" value=\"DamageTrigger\""), "{}", xml);
    assert!(xml.contains("<var name=\"HealTrigger\" value=\"HealTrigger\""), "{}", xml);
    assert!(!xml.contains("Plain"), "{}", xml);
}

#[test]
fn watch_debounces_changes() {
    let st = WatchState { last_change_ms: 0, pending: false };
    let ts = vec![Some("ts".to_string())];
    let other = vec![Some("md".to_string()), None];
    let st = on_fs_event(st, 500, true, &ts);
    assert!(st.pending);
    assert_eq!(st.last_change_ms, 500);
    let (st, regen) = on_tick(st, 600);
    assert!(!regen);
    let st = on_fs_event(st, 700, true, &other);
    assert_eq!(st.last_change_ms, 500);
    let st = on_fs_event(st, 700, false, &ts);
    assert_eq!(st.last_change_ms, 500);
    let (st, regen) = on_tick(st, 800);
    assert!(regen);
    assert!(!st.pending);
    let (_, regen) = on_tick(st, 5000);
    assert!(!regen);
    let quick = on_fs_event(WatchState { last_change_ms: 1000, pending: false }, 1100, true, &vec![Some("mts".to_string())]);
    assert!(!quick.pending);
    assert_eq!(quick.last_change_ms, 1100);
}

#[test]
fn watch_candidates_dirs_and_parents() {
    let sources = vec![
        SourceConfig::Directory { path: "src".to_string(), scan_options: ScanOptions::default(), output_path: None, module_name: None },
        SourceConfig::File { path: "lib/a.ts".to_string(), output_path: None, module_name: None },
        SourceConfig::Files { paths: vec!["lib/b.ts".to_string(), "other/c.ts".to_string()], output_path: None, module_name: None },
    ];
    let w = watch_candidates(&sources, "/p");
    assert_eq!(w, vec!["/p/src".to_string(), "/p/lib".to_string(), "/p/other".to_string()]);
}

fn entry(path: &str, is_file: bool) -> WalkEntry {
    let components: Vec<String> = path.split('/').map(|s| s.to_string()).collect();
    WalkEntry {
        path: path.to_string(),
        file_name: components.last().cloned().unwrap_or_default(),
        components,
        is_file,
    }
}

#[test]
fn scanner_keeps_sources_only() {
    let entries = vec![
        entry("src", false),
        entry("src/a.ts", true),
        entry("src/b.tsx", true),
        entry("src/c.d.ts", true),
        entry("src/main.spec.ts", true),
        entry("src/main.test.tsx", true),
        entry("src/readme.md", true),
        entry("src/node_modules/x/index.ts", true),
        entry("src/dir.ts", false),
    ];
    assert_eq!(scan_directory(&entries), vec!["src/a.ts".to_string(), "src/b.tsx".to_string()]);
    let all = scan_directory_with_options(&entries, &ScanConfig { include_dts: true, include_node_modules: true });
    assert_eq!(
        all,
        vec![
            "src/a.ts".to_string(),
            "src/b.tsx".to_string(),
            "src/c.d.ts".to_string(),
            "src/node_modules/x/index.ts".to_string()
        ]
    );
    let both = scan_directories(&vec![vec![entry("a/x.ts", true)], vec![entry("b/y.ts", true), entry("b/z.js", true)]]);
    assert_eq!(both, vec!["a/x.ts".to_string(), "b/y.ts".to_string()]);
    let from_opts = ScanConfig::from(&ScanOptions { include_dts: true, include_node_modules: false });
    assert!(from_opts.include_dts && !from_opts.include_node_modules);
}

#[test]
fn groups_compare_outputs_as_paths() {
    let classes = vec![
        class("A", Some("m"), Some("out//x.xml")),
        class("B", Some("m"), Some("out/./x.xml")),
        class("C", Some("m"), Some("out/y.xml")),
    ];
    let enums = vec![enum_info("E", Some("m"))];
    let groups = group_modules(&classes, &enums, "out/x.xml/", "def");
    assert_eq!(groups.len(), 2);
    assert_eq!(groups[0].out_path, "out/x.xml");
    assert_eq!(groups[0].module, "m");
    assert_eq!(groups[0].classes, vec![0, 1]);
    assert_eq!(groups[0].enums, vec![0]);
    assert_eq!(groups[1].out_path, "out/y.xml");
    assert_eq!(groups[1].classes, vec![2]);
}
