//! Project configuration: sources, outputs, type mappings and tables.
use crate::paths::{join, is_absolute, parent, path_is_absolute, path_join, path_parent};
use vstd::prelude::*;

verus! {

/// How one table is configured: either just the input path, or all options.
#[derive(Debug, Clone)]
pub enum TableConfig {
    /// Only the input path.
    Simple(String),
    /// All options; a missing one takes its default.
    Full { input: String, name: Option<String>, mode: Option<String>, index: Option<String> },
}

/// The view of an optional string.
pub open spec fn opt_view(o: Option<String>) -> Option<Seq<char>> {
    match o {
        Some(s) => Some(s@),
        None => None,
    }
}

impl TableConfig {
    /// The input path.
    pub open spec fn input_view(&self) -> Seq<char> {
        match self {
            TableConfig::Simple(s) => s@,
            TableConfig::Full { input, .. } => input@,
        }
    }

    /// The table name, when one is given.
    pub open spec fn name_view(&self) -> Option<Seq<char>> {
        match self {
            TableConfig::Simple(_) => None,
            TableConfig::Full { name, .. } => opt_view(*name),
        }
    }

    /// The mode, `map` by default.
    pub open spec fn mode_view(&self) -> Seq<char> {
        match self {
            TableConfig::Full { mode: Some(m), .. } => m@,
            _ => "map"@,
        }
    }

    /// The index field, `id` by default.
    pub open spec fn index_view(&self) -> Seq<char> {
        match self {
            TableConfig::Full { index: Some(i), .. } => i@,
            _ => "id"@,
        }
    }

    /// The input path.
    pub fn input(&self) -> (r: &str)
        ensures
            r@ == self.input_view(),
    {
        match self {
            TableConfig::Simple(s) => s.as_str(),
            TableConfig::Full { input, .. } => input.as_str(),
        }
    }

    /// The table name, or `None` for the default.
    pub fn name(&self) -> (r: Option<&str>)
        ensures
            r.is_none() <==> self.name_view().is_none(),
            r matches Some(n) ==> self.name_view() == Some(n@),
    {
        match self {
            TableConfig::Simple(_) => None,
            TableConfig::Full { name, .. } => match name {
                Some(n) => Some(n.as_str()),
                None => None,
            },
        }
    }

    /// The mode (default `map`).
    pub fn mode(&self) -> (r: &str)
        ensures
            r@ == self.mode_view(),
    {
        match self {
            TableConfig::Full { mode: Some(m), .. } => m.as_str(),
            _ => "map",
        }
    }

    /// The index field (default `id`).
    pub fn index(&self) -> (r: &str)
        ensures
            r@ == self.index_view(),
    {
        match self {
            TableConfig::Full { index: Some(i), .. } => i.as_str(),
            _ => "id",
        }
    }
}

/// The whole configuration file.
#[derive(Debug)]
pub struct Config {
    pub project: ProjectConfig,
    pub output: OutputConfig,
    pub sources: Vec<SourceConfig>,
    pub defaults: DefaultsConfig,
    /// TypeScript type name to Luban type.
    pub type_mappings: Vec<(String, String)>,
    pub ref_configs: Vec<RefConfig>,
    pub table_mappings: Vec<TableMapping>,
    /// `module.ClassName` to its table configuration.
    pub tables: Vec<(String, TableConfig)>,
}

#[derive(Debug, Clone)]
pub struct ProjectConfig {
    pub tsconfig: String,
}

#[derive(Debug, Clone)]
pub struct OutputConfig {
    pub path: String,
    pub cache_file: String,
    pub module_name: String,
    /// Enum XML output (defaults next to `path`).
    pub enum_path: Option<String>,
    /// Output of the bean type enums, grouped by parent.
    pub bean_types_path: Option<String>,
    /// Output directory of the TypeScript table code.
    pub table_output_path: Option<String>,
}

/// The cache file used when none is configured.
pub fn default_cache_file() -> (r: String)
    ensures
        r@ == ".luban-cache.json"@,
{
    String::from_str(".luban-cache.json")
}

/// Where TypeScript sources come from.
#[derive(Debug, Clone)]
pub enum SourceConfig {
    Directory {
        path: String,
        scan_options: ScanOptions,
        output_path: Option<String>,
        module_name: Option<String>,
    },
    File { path: String, output_path: Option<String>, module_name: Option<String> },
    Files { paths: Vec<String>, output_path: Option<String>, module_name: Option<String> },
    Glob { pattern: String, output_path: Option<String>, module_name: Option<String> },
    Registration { path: String },
}

/// The view of a source: its paths and names as character sequences.
pub enum SourceView {
    Directory {
        path: Seq<char>,
        scan_options: ScanOptions,
        output_path: Option<Seq<char>>,
        module_name: Option<Seq<char>>,
    },
    File { path: Seq<char>, output_path: Option<Seq<char>>, module_name: Option<Seq<char>> },
    Files {
        paths: Seq<Seq<char>>,
        output_path: Option<Seq<char>>,
        module_name: Option<Seq<char>>,
    },
    Glob { pattern: Seq<char>, output_path: Option<Seq<char>>, module_name: Option<Seq<char>> },
    Registration { path: Seq<char> },
}

/// The views of a list of strings.
pub open spec fn strings_view(s: Seq<String>) -> Seq<Seq<char>> {
    s.map_values(|x: String| x@)
}

impl View for SourceConfig {
    type V = SourceView;

    open spec fn view(&self) -> SourceView {
        match self {
            SourceConfig::Directory { path, scan_options, output_path, module_name } => {
                SourceView::Directory {
                    path: path@,
                    scan_options: *scan_options,
                    output_path: opt_view(*output_path),
                    module_name: opt_view(*module_name),
                }
            },
            SourceConfig::File { path, output_path, module_name } => SourceView::File {
                path: path@,
                output_path: opt_view(*output_path),
                module_name: opt_view(*module_name),
            },
            SourceConfig::Files { paths, output_path, module_name } => SourceView::Files {
                paths: strings_view(paths@),
                output_path: opt_view(*output_path),
                module_name: opt_view(*module_name),
            },
            SourceConfig::Glob { pattern, output_path, module_name } => SourceView::Glob {
                pattern: pattern@,
                output_path: opt_view(*output_path),
                module_name: opt_view(*module_name),
            },
            SourceConfig::Registration { path } => SourceView::Registration { path: path@ },
        }
    }
}

/// A path resolved against a base directory: an absolute path stays as it is,
/// a relative one is joined to the base.
pub open spec fn resolve_against(p: Seq<char>, base: Seq<char>) -> Seq<char> {
    if path_is_absolute(p) {
        p
    } else {
        path_join(base, p)
    }
}

/// A source with each of its paths (or its glob pattern) resolved against
/// `base`; output paths and module names are left as they are.
pub open spec fn resolve_source_view(s: SourceView, base: Seq<char>) -> SourceView {
    match s {
        SourceView::Directory { path, scan_options, output_path, module_name } => {
            SourceView::Directory {
                path: resolve_against(path, base),
                scan_options,
                output_path,
                module_name,
            }
        },
        SourceView::File { path, output_path, module_name } => SourceView::File {
            path: resolve_against(path, base),
            output_path,
            module_name,
        },
        SourceView::Files { paths, output_path, module_name } => SourceView::Files {
            paths: paths.map_values(|p: Seq<char>| resolve_against(p, base)),
            output_path,
            module_name,
        },
        SourceView::Glob { pattern, output_path, module_name } => SourceView::Glob {
            pattern: resolve_against(pattern, base),
            output_path,
            module_name,
        },
        SourceView::Registration { path } => SourceView::Registration {
            path: resolve_against(path, base),
        },
    }
}

#[derive(Debug, Clone, Copy, Default)]
pub struct DefaultsConfig {}

/// Options of a directory scan.
#[derive(Debug, Clone, Copy, Default)]
pub struct ScanOptions {
    pub include_dts: bool,
    pub include_node_modules: bool,
}

/// A referenced configuration file whose sources are merged in.
#[derive(Debug, Clone)]
pub struct RefConfig {
    pub path: String,
}

/// A table naming rule (`pattern` is a regular expression on class names).
#[derive(Debug, Clone)]
pub struct TableMapping {
    pub pattern: String,
    pub input: String,
    pub output: Option<String>,
    pub table_name: Option<String>,
}

/// A mapping of class names (a regular expression) to a parent bean.
#[derive(Debug, Clone)]
pub struct ParentMapping {
    pub pattern: String,
    pub parent: String,
}

/// The directory of a configuration file: its parent, or `.` when it has none.
pub open spec fn config_dir_of(p: Seq<char>) -> Seq<char> {
    match path_parent(p) {
        Some(d) => d,
        None => "."@,
    }
}

/// The views of a list of sources.
pub open spec fn sources_view(s: Seq<SourceConfig>) -> Seq<SourceView> {
    s.map_values(|x: SourceConfig| x@)
}

/// The sources of the referenced configurations, each resolved against the
/// directory of the file it came from, in order.
pub open spec fn referenced_sources(refs: Seq<(String, Config)>) -> Seq<SourceView>
    decreases refs.len(),
{
    if refs.len() == 0 {
        Seq::empty()
    } else {
        referenced_sources(refs.drop_last()) + sources_view(refs.last().1.sources@).map_values(
            |s: SourceView| resolve_source_view(s, config_dir_of(refs.last().0@)),
        )
    }
}

fn resolve_path(p: &String, base: &str) -> (r: String)
    ensures
        r@ == resolve_against(p@, base@),
{
    if is_absolute(p.as_str()) {
        p.clone()
    } else {
        join(base, p.as_str())
    }
}

impl Config {
    /// The path of a referenced configuration, relative to the directory of
    /// the configuration that names it.
    pub fn ref_config_path(config_dir: &str, ref_config: &RefConfig) -> (r: String)
        ensures
            r@ == path_join(config_dir@, ref_config.path@),
    {
        join(config_dir, ref_config.path.as_str())
    }

    /// Merges referenced configurations into `config`.
    ///
    /// `referenced` holds, for each entry of `config.ref_configs` in order, the
    /// path of the referenced file and that file's configuration (itself
    /// already merged with its own references). Their sources are appended to
    /// `config.sources`, each path resolved against the directory of the file
    /// it came from; output paths stay as they were. Everything else is
    /// `config`'s own.
    pub fn load_with_refs(config: Config, referenced: Vec<(String, Config)>) -> (r: Config)
        ensures
            sources_view(r.sources@) == sources_view(config.sources@) + referenced_sources(
                referenced@,
            ),
            r.project == config.project,
            r.output == config.output,
            r.type_mappings == config.type_mappings,
            r.ref_configs == config.ref_configs,
            r.table_mappings == config.table_mappings,
            r.tables == config.tables,
    {
        let ghost input = config;
        let mut merged = config;
        let ghost own = sources_view(merged.sources@);
        let mut i: usize = 0;
        while i < referenced.len()
            invariant
                i <= referenced.len(),
                sources_view(merged.sources@) == own + referenced_sources(
                    referenced@.take(i as int),
                ),
                merged.project == input.project,
                merged.output == input.output,
                merged.type_mappings == input.type_mappings,
                merged.ref_configs == input.ref_configs,
                merged.table_mappings == input.table_mappings,
                merged.tables == input.tables,
            decreases referenced.len() - i,
        {
            let ref_path = &referenced[i].0;
            let ref_dir = match parent(ref_path.as_str()) {
                Some(d) => d,
                None => String::from_str("."),
            };
            let srcs = &referenced[i].1.sources;
            let ghost before = sources_view(merged.sources@);
            let mut j: usize = 0;
            while j < srcs.len()
                invariant
                    j <= srcs.len(),
                    ref_dir@ == config_dir_of(ref_path@),
                    sources_view(merged.sources@) == before + sources_view(srcs@.take(j as int)).map_values(
                        |s: SourceView| resolve_source_view(s, ref_dir@),
                    ),
                    merged.project == input.project,
                    merged.output == input.output,
                    merged.type_mappings == input.type_mappings,
                    merged.ref_configs == input.ref_configs,
                    merged.table_mappings == input.table_mappings,
                    merged.tables == input.tables,
                decreases srcs.len() - j,
            {
                let resolved = Self::resolve_source_path(&srcs[j], ref_dir.as_str());
                let ghost prev = merged.sources@;
                merged.sources.push(resolved);
                assert(sources_view(merged.sources@) =~= sources_view(prev).push(resolved@));
                assert(sources_view(srcs@.take(j + 1)) =~= sources_view(srcs@.take(j as int)).push(
                    srcs@[j as int]@,
                ));
                assert(sources_view(srcs@.take(j + 1)).map_values(
                    |s: SourceView| resolve_source_view(s, ref_dir@),
                ) =~= sources_view(srcs@.take(j as int)).map_values(
                    |s: SourceView| resolve_source_view(s, ref_dir@),
                ).push(resolve_source_view(srcs@[j as int]@, ref_dir@)));
                assert(sources_view(merged.sources@) =~= before + sources_view(
                    srcs@.take(j + 1),
                ).map_values(|s: SourceView| resolve_source_view(s, ref_dir@)));
                j += 1;
            }
            assert(srcs@.take(srcs@.len() as int) =~= srcs@);
            assert(referenced@.take(i + 1).drop_last() =~= referenced@.take(i as int));
            i += 1;
        }
        assert(referenced@.take(referenced@.len() as int) =~= referenced@);
        merged
    }

    /// Resolves a source's paths against `base_dir`; output paths are not
    /// resolved (they are relative to where the tool runs).
    pub fn resolve_source_path(source: &SourceConfig, base_dir: &str) -> (r: SourceConfig)
        ensures
            r@ == resolve_source_view(source@, base_dir@),
    {
        match source {
            SourceConfig::Directory { path, scan_options, output_path, module_name } => {
                SourceConfig::Directory {
                    path: resolve_path(path, base_dir),
                    scan_options: *scan_options,
                    output_path: output_path.clone(),
                    module_name: module_name.clone(),
                }
            },
            SourceConfig::File { path, output_path, module_name } => SourceConfig::File {
                path: resolve_path(path, base_dir),
                output_path: output_path.clone(),
                module_name: module_name.clone(),
            },
            SourceConfig::Files { paths, output_path, module_name } => {
                let mut resolved: Vec<String> = Vec::new();
                let mut k: usize = 0;
                while k < paths.len()
                    invariant
                        k <= paths.len(),
                        strings_view(resolved@) == strings_view(paths@.take(k as int)).map_values(
                            |p: Seq<char>| resolve_against(p, base_dir@),
                        ),
                    decreases paths.len() - k,
                {
                    let rp = resolve_path(&paths[k], base_dir);
                    let ghost prev = resolved@;
                    resolved.push(rp);
                    assert(strings_view(resolved@) =~= strings_view(prev).push(rp@));
                    assert(strings_view(paths@.take(k + 1)).map_values(
                        |p: Seq<char>| resolve_against(p, base_dir@),
                    ) =~= strings_view(paths@.take(k as int)).map_values(
                        |p: Seq<char>| resolve_against(p, base_dir@),
                    ).push(resolve_against(paths@[k as int]@, base_dir@)));
                    assert(strings_view(paths@.take(k + 1)) =~= strings_view(
                        paths@.take(k as int),
                    ).push(paths@[k as int]@));
                    assert(strings_view(resolved@) =~= strings_view(paths@.take(k + 1)).map_values(
                        |p: Seq<char>| resolve_against(p, base_dir@),
                    ));
                    k += 1;
                }
                assert(paths@.take(paths@.len() as int) =~= paths@);
                SourceConfig::Files {
                    paths: resolved,
                    output_path: output_path.clone(),
                    module_name: module_name.clone(),
                }
            },
            SourceConfig::Registration { path } => SourceConfig::Registration {
                path: resolve_path(path, base_dir),
            },
            SourceConfig::Glob { pattern, output_path, module_name } => SourceConfig::Glob {
                pattern: resolve_path(pattern, base_dir),
                output_path: output_path.clone(),
                module_name: module_name.clone(),
            },
        }
    }
}

} // verus!
