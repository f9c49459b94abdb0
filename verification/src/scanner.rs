//! Which files of a source tree are scanned for declarations.
use crate::config::ScanOptions;
use crate::text::{chars_of, ends_with, is_suffix};
use vstd::prelude::*;

verus! {

/// What a scan includes beyond ordinary sources.
#[derive(Debug, Clone, Copy)]
pub struct ScanConfig {
    /// Declaration files (`.d.ts`).
    pub include_dts: bool,
    /// Files under a `node_modules` directory.
    pub include_node_modules: bool,
}

impl ScanConfig {
    /// The scan settings of the configuration's scan options.
    pub fn from(opts: &ScanOptions) -> (c: Self)
        ensures
            c.include_dts == opts.include_dts,
            c.include_node_modules == opts.include_node_modules,
    {
        ScanConfig { include_dts: opts.include_dts, include_node_modules: opts.include_node_modules }
    }

    /// Ordinary sources only.
    pub fn default() -> (c: Self)
        ensures
            !c.include_dts,
            !c.include_node_modules,
    {
        ScanConfig { include_dts: false, include_node_modules: false }
    }
}

/// Whether a file is scanned: a `.ts` or `.tsx` file that is not a test
/// (`.spec` or `.test`), nor a declaration file unless they are included,
/// nor under `node_modules` unless that is included.
pub open spec fn scanned(file_name: Seq<char>, in_node_modules: bool, is_file: bool, c: ScanConfig) -> bool {
    &&& is_file
    &&& is_suffix(".ts"@, file_name) || is_suffix(".tsx"@, file_name)
    &&& !(is_suffix(".spec.ts"@, file_name) || is_suffix(".test.ts"@, file_name) || is_suffix(
        ".spec.tsx"@,
        file_name,
    ) || is_suffix(".test.tsx"@, file_name))
    &&& c.include_dts || !is_suffix(".d.ts"@, file_name)
    &&& c.include_node_modules || !in_node_modules
}

/// Whether one of a path's components is `node_modules`.
pub open spec fn under_node_modules(components: Seq<Seq<char>>) -> bool {
    components.contains("node_modules"@)
}

/// Whether a file found by a scan is kept; see `scanned`. The file is given
/// by its name, the components of its path and whether it is a file.
pub fn include_file(file_name: &str, components: &Vec<String>, is_file: bool, config: &ScanConfig) -> (r: bool)
    ensures
        r == scanned(file_name@, under_node_modules(crate::text::views(components@)), is_file, *config),
{
    if !is_file {
        return false;
    }
    let f = chars_of(file_name);
    let fs = f.as_slice();
    if !ends_with(fs, chars_of(".ts").as_slice()) && !ends_with(fs, chars_of(".tsx").as_slice()) {
        return false;
    }
    if ends_with(fs, chars_of(".spec.ts").as_slice()) || ends_with(fs, chars_of(".test.ts").as_slice())
        || ends_with(fs, chars_of(".spec.tsx").as_slice()) || ends_with(fs, chars_of(".test.tsx").as_slice()) {
        return false;
    }
    if !config.include_dts && ends_with(fs, chars_of(".d.ts").as_slice()) {
        return false;
    }
    if !config.include_node_modules && crate::text::contains_string(components, "node_modules") {
        return false;
    }
    true
}

/// What a directory walk found at one path: the path, its last component,
/// all its components, and whether it is a file.
#[derive(Debug, Clone)]
pub struct WalkEntry {
    pub path: String,
    pub file_name: String,
    pub components: Vec<String>,
    pub is_file: bool,
}

/// Whether a walked path is scanned; see `scanned`.
pub open spec fn entry_scanned(e: WalkEntry, c: ScanConfig) -> bool {
    scanned(e.file_name@, under_node_modules(crate::text::views(e.components@)), e.is_file, c)
}

/// The paths of a walk that a scan keeps, in walk order.
pub open spec fn scanned_paths(es: Seq<WalkEntry>, c: ScanConfig) -> Seq<Seq<char>>
    decreases es.len(),
{
    if es.len() == 0 {
        Seq::empty()
    } else {
        scanned_paths(es.drop_last(), c) + if entry_scanned(es.last(), c) {
            seq![es.last().path@]
        } else {
            Seq::empty()
        }
    }
}

/// The sources among the paths that a walk of a directory found, in walk
/// order; see `scanned`.
pub fn scan_directory_with_options(entries: &Vec<WalkEntry>, config: &ScanConfig) -> (r: Vec<String>)
    ensures
        crate::text::views(r@) == scanned_paths(entries@, *config),
{
    let mut out: Vec<String> = Vec::new();
    let mut i: usize = 0;
    while i < entries.len()
        invariant
            i <= entries@.len(),
            crate::text::views(out@) == scanned_paths(entries@.take(i as int), *config),
        decreases entries@.len() - i,
    {
        let e = &entries[i];
        assert(entries@.take(i + 1).drop_last() =~= entries@.take(i as int));
        assert(entries@.take(i + 1).last() == *e);
        if include_file(e.file_name.as_str(), &e.components, e.is_file, config) {
            let ghost before = out@;
            out.push(e.path.clone());
            assert(crate::text::views(out@) =~= crate::text::views(before).push(e.path@));
        } else {
            assert(scanned_paths(entries@.take(i + 1), *config) =~= scanned_paths(
                entries@.take(i as int),
                *config,
            ));
        }
        i += 1;
    }
    assert(entries@.take(entries@.len() as int) =~= entries@);
    out
}

/// The ordinary sources (see `ScanConfig::default`) among the paths a walk
/// of a directory found.
pub fn scan_directory(entries: &Vec<WalkEntry>) -> (r: Vec<String>)
    ensures
        crate::text::views(r@) == scanned_paths(entries@, ScanConfig { include_dts: false, include_node_modules: false }),
{
    scan_directory_with_options(entries, &ScanConfig::default())
}

/// The ordinary sources of several walks, directory after directory.
pub open spec fn scanned_all(walks: Seq<Vec<WalkEntry>>) -> Seq<Seq<char>>
    decreases walks.len(),
{
    if walks.len() == 0 {
        Seq::empty()
    } else {
        scanned_all(walks.drop_last()) + scanned_paths(
            walks.last()@,
            ScanConfig { include_dts: false, include_node_modules: false },
        )
    }
}

/// The ordinary sources found by the walks of several directories, in order.
pub fn scan_directories(walks: &Vec<Vec<WalkEntry>>) -> (r: Vec<String>)
    ensures
        crate::text::views(r@) == scanned_all(walks@),
{
    let mut all: Vec<String> = Vec::new();
    let mut i: usize = 0;
    while i < walks.len()
        invariant
            i <= walks@.len(),
            crate::text::views(all@) == scanned_all(walks@.take(i as int)),
        decreases walks@.len() - i,
    {
        let files = scan_directory(&walks[i]);
        let ghost before = crate::text::views(all@);
        let mut j: usize = 0;
        while j < files.len()
            invariant
                j <= files@.len(),
                crate::text::views(all@) == before + crate::text::views(files@).take(j as int),
            decreases files@.len() - j,
        {
            let ghost prev = all@;
            all.push(files[j].clone());
            assert(crate::text::views(all@) =~= crate::text::views(prev).push(files@[j as int]@));
            assert(crate::text::views(files@).take(j + 1) =~= crate::text::views(files@).take(
                j as int,
            ).push(files@[j as int]@));
            j += 1;
        }
        assert(crate::text::views(files@).take(files@.len() as int) =~= crate::text::views(files@));
        assert(walks@.take(i + 1).drop_last() =~= walks@.take(i as int));
        i += 1;
    }
    assert(walks@.take(walks@.len() as int) =~= walks@);
    all
}

} // verus!
