use luban_gen::config::{
    TableConfig,
    Config, DefaultsConfig, OutputConfig, ProjectConfig, RefConfig, ScanOptions, SourceConfig,
};

fn config_with(sources: Vec<SourceConfig>, refs: Vec<&str>) -> Config {
    Config {
        project: ProjectConfig { tsconfig: "tsconfig.json".to_string() },
        output: OutputConfig {
            path: "output.xml".to_string(),
            cache_file: ".luban-cache.json".to_string(),
            module_name: String::new(),
            enum_path: None,
            bean_types_path: None,
            table_output_path: None,
        },
        sources,
        defaults: DefaultsConfig {},
        type_mappings: vec![],
        ref_configs: refs.into_iter().map(|p| RefConfig { path: p.to_string() }).collect(),
        table_mappings: vec![],
        tables: vec![],
    }
}

fn dir(path: &str) -> SourceConfig {
    SourceConfig::Directory {
        path: path.to_string(),
        scan_options: ScanOptions::default(),
        output_path: None,
        module_name: None,
    }
}

#[test]
fn test_load_with_refs_merges_sources() {
    let config_path = "tests/fixtures/ref_config_test/pkg-a/ts-luban.config.toml";
    let config_dir = std::path::Path::new(config_path).parent().unwrap().to_str().unwrap().to_string();
    let pkg_a = config_with(vec![dir("local-src")], vec!["../pkg-b/ts-luban.config.toml"]);
    let pkg_b = config_with(vec![dir("src")], vec![]);
    let ref_path = Config::ref_config_path(&config_dir, &pkg_a.ref_configs[0]);
    let config = Config::load_with_refs(pkg_a, vec![(ref_path, pkg_b)]);

    assert_eq!(config.sources.len(), 2);

    let has_pkg_b_source = config.sources.iter().any(|s| {
        if let SourceConfig::Directory { path, .. } = s {
            std::path::Path::new(path).ends_with("pkg-b/src") || path.contains("pkg-b")
        } else {
            false
        }
    });
    assert!(has_pkg_b_source, "Should have pkg-b source with resolved path");
}

#[test]
fn refs_resolve_each_kind_of_source_but_not_outputs() {
    let main = config_with(vec![], vec!["../b/cfg.toml"]);
    let referenced = config_with(
        vec![
            SourceConfig::File { path: "a.ts".to_string(), output_path: Some("out/a.xml".to_string()), module_name: Some("m".to_string()) },
            SourceConfig::Files { paths: vec!["x.ts".to_string(), "/abs/y.ts".to_string()], output_path: None, module_name: None },
            SourceConfig::Glob { pattern: "src/**/*.ts".to_string(), output_path: None, module_name: None },
            SourceConfig::Registration { path: "reg.ts".to_string() },
        ],
        vec![],
    );
    let merged = Config::load_with_refs(main, vec![("root/b/cfg.toml".to_string(), referenced)]);
    assert_eq!(merged.sources.len(), 4);
    match &merged.sources[0] {
        SourceConfig::File { path, output_path, module_name } => {
            assert_eq!(path, "root/b/a.ts");
            assert_eq!(output_path.as_deref(), Some("out/a.xml"));
            assert_eq!(module_name.as_deref(), Some("m"));
        }
        other => panic!("unexpected {:?}", other),
    }
    match &merged.sources[1] {
        SourceConfig::Files { paths, .. } => {
            assert_eq!(paths, &vec!["root/b/x.ts".to_string(), "/abs/y.ts".to_string()]);
        }
        other => panic!("unexpected {:?}", other),
    }
    match &merged.sources[2] {
        SourceConfig::Glob { pattern, .. } => assert_eq!(pattern, "root/b/src/**/*.ts"),
        other => panic!("unexpected {:?}", other),
    }
    match &merged.sources[3] {
        SourceConfig::Registration { path } => assert_eq!(path, "root/b/reg.ts"),
        other => panic!("unexpected {:?}", other),
    }
}

#[test]
fn table_config_defaults() {
    let s = TableConfig::Simple("../d".to_string());
    assert_eq!(s.input(), "../d");
    assert_eq!(s.name(), None);
    assert_eq!(s.mode(), "map");
    assert_eq!(s.index(), "id");
    let f = TableConfig::Full { input: "i".to_string(), name: None, mode: Some("list".to_string()), index: None };
    assert_eq!(f.mode(), "list");
    assert_eq!(f.index(), "id");
    assert_eq!(f.name(), None);
}
