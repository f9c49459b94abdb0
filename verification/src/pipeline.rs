//! The decisions of a generation run: which sources to read, where parsed
//! declarations belong, what the cache keeps, how modules are grouped into
//! files, and when the watcher regenerates.
use crate::cache::Cache;
use crate::config::{ScanOptions, SourceConfig, resolve_against};
use crate::generator::{BeanWithParent, bean_type_enums_xml, generate_bean_type_enums_xml};
use crate::parser::{ClassInfo, EnumInfo};
use crate::paths::{is_absolute, join, normal_path, parent, path_is_absolute, path_join, path_normal, path_parent};
use crate::scanner::ScanConfig;
use crate::text::{contains_string, lemma_views_push, str_eq, views};
use vstd::prelude::*;

verus! {

// ---------------------------------------------------------------- sources

/// A directory to scan, with its scan settings and the output and module
/// of what it holds.
#[derive(Debug)]
pub struct DirSource {
    pub path: String,
    pub scan: ScanConfig,
    pub output_path: Option<String>,
    pub module_name: Option<String>,
}

/// A file to read, or a glob pattern to expand, with the output and module
/// of what it holds.
#[derive(Debug)]
pub enum SingleSource {
    File { path: String, output_path: Option<String>, module_name: Option<String> },
    Glob { pattern: String, output_path: Option<String>, module_name: Option<String> },
}

/// The sources of a run: directories to scan and single files or patterns,
/// each in configuration order, with paths resolved against the project
/// root; and the registration files, which are not read.
#[derive(Debug)]
pub struct SourcePlan {
    pub dirs: Vec<DirSource>,
    pub singles: Vec<SingleSource>,
    pub registrations: Vec<String>,
}

/// The view of an optional string.
pub open spec fn os(o: Option<String>) -> Option<Seq<char>> {
    match o {
        Some(s) => Some(s@),
        None => None,
    }
}

/// A directory source as plain values.
pub type DirView = (Seq<char>, ScanConfig, Option<Seq<char>>, Option<Seq<char>>);

/// A single source as plain values: whether it is a pattern, its path or
/// pattern, its output and its module.
pub type SingleView = (bool, Seq<char>, Option<Seq<char>>, Option<Seq<char>>);

/// The directories of some sources.
pub open spec fn planned_dirs(ss: Seq<SourceConfig>, root: Seq<char>) -> Seq<DirView>
    decreases ss.len(),
{
    if ss.len() == 0 {
        Seq::empty()
    } else {
        planned_dirs(ss.drop_last(), root) + match ss.last() {
            SourceConfig::Directory { path, scan_options, output_path, module_name } => seq![
                (
                    resolve_against(path@, root),
                    ScanConfig {
                        include_dts: scan_options.include_dts,
                        include_node_modules: scan_options.include_node_modules,
                    },
                    os(output_path),
                    os(module_name),
                ),
            ],
            _ => Seq::empty(),
        }
    }
}

/// The single files of a list of paths.
pub open spec fn files_of(paths: Seq<String>, root: Seq<char>, out: Option<Seq<char>>, module: Option<Seq<char>>) -> Seq<SingleView> {
    paths.map_values(|p: String| (false, resolve_against(p@, root), out, module))
}

/// The single files and patterns of some sources; a relative pattern is
/// joined to the root.
pub open spec fn planned_singles(ss: Seq<SourceConfig>, root: Seq<char>) -> Seq<SingleView>
    decreases ss.len(),
{
    if ss.len() == 0 {
        Seq::empty()
    } else {
        planned_singles(ss.drop_last(), root) + match ss.last() {
            SourceConfig::File { path, output_path, module_name } => seq![
                (false, resolve_against(path@, root), os(output_path), os(module_name)),
            ],
            SourceConfig::Files { paths, output_path, module_name } => files_of(
                paths@,
                root,
                os(output_path),
                os(module_name),
            ),
            SourceConfig::Glob { pattern, output_path, module_name } => seq![
                (true, resolve_against(pattern@, root), os(output_path), os(module_name)),
            ],
            _ => Seq::empty(),
        }
    }
}

/// The registration files of some sources.
pub open spec fn planned_registrations(ss: Seq<SourceConfig>) -> Seq<Seq<char>>
    decreases ss.len(),
{
    if ss.len() == 0 {
        Seq::empty()
    } else {
        planned_registrations(ss.drop_last()) + match ss.last() {
            SourceConfig::Registration { path } => seq![path@],
            _ => Seq::empty(),
        }
    }
}

/// The views of directory sources.
pub open spec fn dir_views(ds: Seq<DirSource>) -> Seq<DirView> {
    ds.map_values(|d: DirSource| (d.path@, d.scan, os(d.output_path), os(d.module_name)))
}

/// The view of a single source.
pub open spec fn single_view(s: SingleSource) -> SingleView {
    match s {
        SingleSource::File { path, output_path, module_name } => (false, path@, os(output_path), os(module_name)),
        SingleSource::Glob { pattern, output_path, module_name } => (true, pattern@, os(output_path), os(module_name)),
    }
}

/// The views of single sources.
pub open spec fn single_views(ss: Seq<SingleSource>) -> Seq<SingleView> {
    ss.map_values(|s: SingleSource| single_view(s))
}

/// A copy of an optional string.
fn copy_opt(o: &Option<String>) -> (r: Option<String>)
    ensures
        r == *o,
{
    match o {
        Some(s) => Some(s.clone()),
        None => None,
    }
}

/// A path resolved against the project root.
fn resolved(p: &str, root: &str) -> (r: String)
    ensures
        r@ == resolve_against(p@, root@),
{
    if is_absolute(p) {
        String::from_str(p)
    } else {
        join(root, p)
    }
}

/// The sources of a run; see `planned_dirs`, `planned_singles` and
/// `planned_registrations`.
pub fn plan_sources(sources: &Vec<SourceConfig>, project_root: &str) -> (r: SourcePlan)
    ensures
        dir_views(r.dirs@) == planned_dirs(sources@, project_root@),
        single_views(r.singles@) == planned_singles(sources@, project_root@),
        views(r.registrations@) == planned_registrations(sources@),
{
    let mut dirs: Vec<DirSource> = Vec::new();
    let mut singles: Vec<SingleSource> = Vec::new();
    let mut registrations: Vec<String> = Vec::new();
    let ghost root = project_root@;
    let mut i: usize = 0;
    while i < sources.len()
        invariant
            i <= sources@.len(),
            root == project_root@,
            dir_views(dirs@) == planned_dirs(sources@.take(i as int), root),
            single_views(singles@) == planned_singles(sources@.take(i as int), root),
            views(registrations@) == planned_registrations(sources@.take(i as int)),
        decreases sources@.len() - i,
    {
        assert(sources@.take(i + 1).drop_last() =~= sources@.take(i as int));
        assert(sources@.take(i + 1).last() == sources@[i as int]);
        let ghost d0 = dir_views(dirs@);
        let ghost s0 = single_views(singles@);
        let ghost r0 = views(registrations@);
        match &sources[i] {
            SourceConfig::Directory { path, scan_options, output_path, module_name } => {
                let d = DirSource {
                    path: resolved(path.as_str(), project_root),
                    scan: ScanConfig::from(scan_options),
                    output_path: copy_opt(output_path),
                    module_name: copy_opt(module_name),
                };
                dirs.push(d);
                assert(dir_views(dirs@) =~= d0.push((d.path@, d.scan, os(d.output_path), os(d.module_name))));
            },
            SourceConfig::File { path, output_path, module_name } => {
                let s = SingleSource::File {
                    path: resolved(path.as_str(), project_root),
                    output_path: copy_opt(output_path),
                    module_name: copy_opt(module_name),
                };
                singles.push(s);
                assert(single_views(singles@) =~= s0.push(single_view(s)));
            },
            SourceConfig::Files { paths, output_path, module_name } => {
                let mut j: usize = 0;
                while j < paths.len()
                    invariant
                        j <= paths@.len(),
                        root == project_root@,
                        single_views(singles@) == s0 + files_of(paths@.take(j as int), root, os(*output_path), os(*module_name)),
                    decreases paths@.len() - j,
                {
                    let ghost before = single_views(singles@);
                    let s = SingleSource::File {
                        path: resolved(paths[j].as_str(), project_root),
                        output_path: copy_opt(output_path),
                        module_name: copy_opt(module_name),
                    };
                    singles.push(s);
                    assert(single_views(singles@) =~= before.push(single_view(s)));
                    assert(files_of(paths@.take(j + 1), root, os(*output_path), os(*module_name)) =~= files_of(
                        paths@.take(j as int),
                        root,
                        os(*output_path),
                        os(*module_name),
                    ).push((false, resolve_against(paths@[j as int]@, root), os(*output_path), os(*module_name))));
                    j += 1;
                }
                assert(paths@.take(paths@.len() as int) =~= paths@);
            },
            SourceConfig::Glob { pattern, output_path, module_name } => {
                let s = SingleSource::Glob {
                    pattern: resolved(pattern.as_str(), project_root),
                    output_path: copy_opt(output_path),
                    module_name: copy_opt(module_name),
                };
                singles.push(s);
                assert(single_views(singles@) =~= s0.push(single_view(s)));
            },
            SourceConfig::Registration { path } => {
                proof {
                    lemma_views_push(registrations@, *path);
                }
                registrations.push(path.clone());
            },
        }
        assert(dir_views(dirs@) =~= planned_dirs(sources@.take(i + 1), root));
        assert(single_views(singles@) =~= planned_singles(sources@.take(i + 1), root));
        assert(views(registrations@) =~= planned_registrations(sources@.take(i + 1)));
        i += 1;
    }
    assert(sources@.take(sources@.len() as int) =~= sources@);
    SourcePlan { dirs, singles, registrations }
}

// ---------------------------------------------------------------- locations

/// A class placed in an output file and a module: the same class with only
/// its output path and module replaced.
pub open spec fn located_class(c: ClassInfo, out: Option<String>, module: Option<String>) -> ClassInfo {
    ClassInfo {
        name: c.name,
        comment: c.comment,
        alias: c.alias,
        fields: c.fields,
        implements: c.implements,
        extends: c.extends,
        source_file: c.source_file,
        file_hash: c.file_hash,
        is_interface: c.is_interface,
        output_path: out,
        module_name: module,
        type_params: c.type_params,
        luban_table: c.luban_table,
        imports: c.imports,
    }
}

/// An enum placed in an output file and a module: the same enum with only
/// its output path and module replaced.
pub open spec fn located_enum(e: EnumInfo, out: Option<String>, module: Option<String>) -> EnumInfo {
    EnumInfo {
        name: e.name,
        alias: e.alias,
        comment: e.comment,
        is_string_enum: e.is_string_enum,
        is_flags: e.is_flags,
        tags: e.tags,
        variants: e.variants,
        source_file: e.source_file,
        file_hash: e.file_hash,
        output_path: out,
        module_name: module,
    }
}

/// Sets the output and module of each class read from one source; see
/// `located_class`.
pub fn locate_classes(classes: &mut Vec<ClassInfo>, output_path: &Option<String>, module_name: &Option<String>)
    ensures
        final(classes)@.len() == old(classes)@.len(),
        forall|i: int|
            0 <= i < old(classes)@.len() ==> #[trigger] final(classes)@[i] == located_class(
                old(classes)@[i],
                *output_path,
                *module_name,
            ),
{
    let mut done: Vec<ClassInfo> = Vec::new();
    let mut rest: Vec<ClassInfo> = Vec::new();
    std::mem::swap(&mut rest, classes);
    let ghost orig = rest@;
    assert(rest@ =~= orig.skip(0));
    while rest.len() > 0
        invariant
            rest@ == orig.skip(done@.len() as int),
            done@.len() <= orig.len(),
            forall|i: int|
                0 <= i < done@.len() ==> #[trigger] done@[i] == located_class(orig[i], *output_path, *module_name),
        decreases rest@.len(),
    {
        let k = done.len();
        assert(orig.skip(k as int)[0] == orig[k as int]);
        let mut c = rest.remove(0);
        c.output_path = copy_opt(output_path);
        c.module_name = copy_opt(module_name);
        assert(c == located_class(orig[k as int], *output_path, *module_name));
        done.push(c);
        assert(orig.skip(k + 1) =~= rest@);
    }
    *classes = done;
}

/// Sets the output and module of each enum read from one source; see
/// `located_enum`.
pub fn locate_enums(enums: &mut Vec<EnumInfo>, output_path: &Option<String>, module_name: &Option<String>)
    ensures
        final(enums)@.len() == old(enums)@.len(),
        forall|i: int|
            0 <= i < old(enums)@.len() ==> #[trigger] final(enums)@[i] == located_enum(
                old(enums)@[i],
                *output_path,
                *module_name,
            ),
{
    let mut done: Vec<EnumInfo> = Vec::new();
    let mut rest: Vec<EnumInfo> = Vec::new();
    std::mem::swap(&mut rest, enums);
    let ghost orig = rest@;
    assert(rest@ =~= orig.skip(0));
    while rest.len() > 0
        invariant
            rest@ == orig.skip(done@.len() as int),
            done@.len() <= orig.len(),
            forall|i: int|
                0 <= i < done@.len() ==> #[trigger] done@[i] == located_enum(orig[i], *output_path, *module_name),
        decreases rest@.len(),
    {
        let k = done.len();
        assert(orig.skip(k as int)[0] == orig[k as int]);
        let mut e = rest.remove(0);
        e.output_path = copy_opt(output_path);
        e.module_name = copy_opt(module_name);
        assert(e == located_enum(orig[k as int], *output_path, *module_name));
        done.push(e);
        assert(orig.skip(k + 1) =~= rest@);
    }
    *enums = done;
}

// ---------------------------------------------------------------- beans and cache

/// The name a class is known by in the table configuration: `module.Name`
/// when it has a module, its name otherwise.
pub open spec fn existing_name(c: ClassInfo) -> Seq<char> {
    match c.module_name {
        Some(m) => m@ + "."@ + c.name@,
        None => c.name@,
    }
}

/// The names the classes are known by, in order.
pub fn existing_bean_names(classes: &[ClassInfo]) -> (r: Vec<String>)
    ensures
        views(r@) == classes@.map_values(|c: ClassInfo| existing_name(c)),
{
    let mut r: Vec<String> = Vec::new();
    let mut i: usize = 0;
    while i < classes.len()
        invariant
            i <= classes@.len(),
            views(r@) == classes@.take(i as int).map_values(|c: ClassInfo| existing_name(c)),
        decreases classes@.len() - i,
    {
        let c = &classes[i];
        let n = match &c.module_name {
            Some(m) => crate::text::concat3(m.as_str(), ".", c.name.as_str()),
            None => c.name.clone(),
        };
        proof {
            lemma_views_push(r@, n);
        }
        r.push(n);
        assert(classes@.take(i + 1).map_values(|c: ClassInfo| existing_name(c)) =~= classes@.take(i as int).map_values(
            |c: ClassInfo| existing_name(c),
        ).push(existing_name(classes@[i as int])));
        i += 1;
    }
    assert(classes@.take(classes@.len() as int) =~= classes@);
    r
}

/// The cache entries and counts after checking one declaration: unchanged
/// when its hash is recorded, else counted as updated and recorded.
pub open spec fn cache_step(
    st: (Map<Seq<char>, (Seq<char>, Seq<char>)>, nat, nat),
    name: Seq<char>,
    source: Seq<char>,
    hash: Seq<char>,
) -> (Map<Seq<char>, (Seq<char>, Seq<char>)>, nat, nat) {
    if st.0.contains_key(name) && st.0[name].1 == hash {
        (st.0, st.1 + 1, st.2)
    } else {
        (st.0.insert(name, (source, hash)), st.1, st.2 + 1)
    }
}

/// The cache after checking classes, in order.
pub open spec fn cache_after_classes(
    st: (Map<Seq<char>, (Seq<char>, Seq<char>)>, nat, nat),
    cs: Seq<ClassInfo>,
) -> (Map<Seq<char>, (Seq<char>, Seq<char>)>, nat, nat)
    decreases cs.len(),
{
    if cs.len() == 0 {
        st
    } else {
        let c = cs.last();
        cache_step(cache_after_classes(st, cs.drop_last()), c.name@, c.source_file@, c.file_hash@)
    }
}

/// The cache after checking enums, in order.
pub open spec fn cache_after_enums(
    st: (Map<Seq<char>, (Seq<char>, Seq<char>)>, nat, nat),
    es: Seq<EnumInfo>,
) -> (Map<Seq<char>, (Seq<char>, Seq<char>)>, nat, nat)
    decreases es.len(),
{
    if es.len() == 0 {
        st
    } else {
        let e = es.last();
        cache_step(cache_after_enums(st, es.drop_last()), e.name@, e.source_file@, e.file_hash@)
    }
}

/// Checking classes against the cache counts each class once, as unchanged or
/// as updated; afterwards the last class of each name is recorded with its
/// source and hash, so that it is valid for that hash; and a name that no
/// class has keeps its entry.
pub proof fn law_refresh_classes(
    st: (Map<Seq<char>, (Seq<char>, Seq<char>)>, nat, nat),
    cs: Seq<ClassInfo>,
)
    ensures
        cache_after_classes(st, cs).1 + cache_after_classes(st, cs).2 == st.1 + st.2 + cs.len(),
        forall|i: int|
            0 <= i < cs.len() && (forall|j: int| i < j < cs.len() ==> cs[j].name@ != cs[i].name@)
                ==> cache_after_classes(st, cs).0.contains_key(#[trigger] cs[i].name@)
                && cache_after_classes(st, cs).0[cs[i].name@].1 == cs[i].file_hash@,
        forall|n: Seq<char>|
            (forall|j: int| 0 <= j < cs.len() ==> cs[j].name@ != n) ==> #[trigger] cache_after_classes(
                st,
                cs,
            ).0.get(n) == st.0.get(n),
    decreases cs.len(),
{
    if cs.len() > 0 {
        let prev = cs.drop_last();
        law_refresh_classes(st, prev);
        let last = cs.len() - 1;
        assert(cs.last() == cs[last]);
        assert forall|i: int|
            0 <= i < cs.len() && (forall|j: int| i < j < cs.len() ==> cs[j].name@ != cs[i].name@)
                implies cache_after_classes(st, cs).0.contains_key(#[trigger] cs[i].name@)
            && cache_after_classes(st, cs).0[cs[i].name@].1 == cs[i].file_hash@ by {
            if i < last {
                assert(prev[i] == cs[i]);
                assert forall|j: int| i < j < prev.len() implies prev[j].name@ != prev[i].name@ by {
                    assert(prev[j] == cs[j]);
                }
                assert(cs[last].name@ != cs[i].name@);
            }
        }
        assert forall|n: Seq<char>|
            (forall|j: int| 0 <= j < cs.len() ==> cs[j].name@ != n) implies #[trigger] cache_after_classes(
            st,
            cs,
        ).0.get(n) == st.0.get(n) by {
            assert forall|j: int| 0 <= j < prev.len() implies prev[j].name@ != n by {
                assert(prev[j] == cs[j]);
            }
            assert(cs[last].name@ != n);
            let m1 = cache_after_classes(st, prev).0;
            assert(m1.get(n) == st.0.get(n));
            let m2 = cache_after_classes(st, cs).0;
            assert(m2.contains_key(n) == m1.contains_key(n));
            if m1.contains_key(n) {
                assert(m2[n] == m1[n]);
            }
        }
    }
}

/// Declarations that share a name share a hash.
pub open spec fn class_hashes_agree(cs: Seq<ClassInfo>) -> bool {
    forall|i: int, j: int|
        0 <= i < cs.len() && 0 <= j < cs.len() && #[trigger] cs[i].name@ == #[trigger] cs[j].name@
            ==> cs[i].file_hash@ == cs[j].file_hash@
}

/// Every class is recorded in the entries with its hash.
pub open spec fn classes_recorded(m: Map<Seq<char>, (Seq<char>, Seq<char>)>, cs: Seq<ClassInfo>) -> bool {
    forall|j: int|
        0 <= j < cs.len() ==> m.contains_key(#[trigger] cs[j].name@) && m[cs[j].name@].1
            == cs[j].file_hash@
}

proof fn lemma_classes_recorded_after(st: (Map<Seq<char>, (Seq<char>, Seq<char>)>, nat, nat), cs: Seq<ClassInfo>)
    requires
        class_hashes_agree(cs),
    ensures
        classes_recorded(cache_after_classes(st, cs).0, cs),
    decreases cs.len(),
{
    if cs.len() > 0 {
        let prev = cs.drop_last();
        let last = cs.len() - 1;
        assert(cs.last() == cs[last]);
        assert(class_hashes_agree(prev)) by {
            assert forall|i: int, j: int|
                0 <= i < prev.len() && 0 <= j < prev.len() && #[trigger] prev[i].name@ == #[trigger] prev[j].name@
                    implies prev[i].file_hash@ == prev[j].file_hash@ by {
                assert(prev[i] == cs[i] && prev[j] == cs[j]);
            }
        }
        lemma_classes_recorded_after(st, prev);
        let m1 = cache_after_classes(st, prev).0;
        let m2 = cache_after_classes(st, cs).0;
        assert forall|j: int| 0 <= j < cs.len() implies m2.contains_key(#[trigger] cs[j].name@)
            && m2[cs[j].name@].1 == cs[j].file_hash@ by {
            if j < last {
                assert(prev[j] == cs[j]);
                assert(m1.contains_key(prev[j].name@));
                if cs[j].name@ == cs[last].name@ {
                    assert(cs[j].file_hash@ == cs[last].file_hash@);
                }
            }
        }
    }
}

proof fn lemma_refresh_recorded_classes(st: (Map<Seq<char>, (Seq<char>, Seq<char>)>, nat, nat), cs: Seq<ClassInfo>)
    requires
        classes_recorded(st.0, cs),
    ensures
        cache_after_classes(st, cs) == (st.0, st.1 + cs.len(), st.2),
    decreases cs.len(),
{
    if cs.len() > 0 {
        let prev = cs.drop_last();
        assert(cs.last() == cs[cs.len() - 1]);
        assert(classes_recorded(st.0, prev)) by {
            assert forall|j: int| 0 <= j < prev.len() implies st.0.contains_key(#[trigger] prev[j].name@)
                && st.0[prev[j].name@].1 == prev[j].file_hash@ by {
                assert(prev[j] == cs[j]);
            }
        }
        lemma_refresh_recorded_classes(st, prev);
    }
}

/// Checking enums against the cache counts each enum once, as unchanged or as
/// updated; afterwards the last enum of each name is recorded with its source
/// and hash; and a name that no enum has keeps its entry.
pub proof fn law_refresh_enums(
    st: (Map<Seq<char>, (Seq<char>, Seq<char>)>, nat, nat),
    es: Seq<EnumInfo>,
)
    ensures
        cache_after_enums(st, es).1 + cache_after_enums(st, es).2 == st.1 + st.2 + es.len(),
        forall|i: int|
            0 <= i < es.len() && (forall|j: int| i < j < es.len() ==> es[j].name@ != es[i].name@)
                ==> cache_after_enums(st, es).0.contains_key(#[trigger] es[i].name@)
                && cache_after_enums(st, es).0[es[i].name@].1 == es[i].file_hash@,
        forall|n: Seq<char>|
            (forall|j: int| 0 <= j < es.len() ==> es[j].name@ != n) ==> #[trigger] cache_after_enums(
                st,
                es,
            ).0.get(n) == st.0.get(n),
    decreases es.len(),
{
    if es.len() > 0 {
        let prev = es.drop_last();
        law_refresh_enums(st, prev);
        let last = es.len() - 1;
        assert(es.last() == es[last]);
        assert forall|i: int|
            0 <= i < es.len() && (forall|j: int| i < j < es.len() ==> es[j].name@ != es[i].name@)
                implies cache_after_enums(st, es).0.contains_key(#[trigger] es[i].name@)
            && cache_after_enums(st, es).0[es[i].name@].1 == es[i].file_hash@ by {
            if i < last {
                assert(prev[i] == es[i]);
                assert forall|j: int| i < j < prev.len() implies prev[j].name@ != prev[i].name@ by {
                    assert(prev[j] == es[j]);
                }
                assert(es[last].name@ != es[i].name@);
            }
        }
        assert forall|n: Seq<char>|
            (forall|j: int| 0 <= j < es.len() ==> es[j].name@ != n) implies #[trigger] cache_after_enums(
            st,
            es,
        ).0.get(n) == st.0.get(n) by {
            assert forall|j: int| 0 <= j < prev.len() implies prev[j].name@ != n by {
                assert(prev[j] == es[j]);
            }
            assert(es[last].name@ != n);
            let m1 = cache_after_enums(st, prev).0;
            assert(m1.get(n) == st.0.get(n));
            let m2 = cache_after_enums(st, es).0;
            assert(m2.contains_key(n) == m1.contains_key(n));
            if m1.contains_key(n) {
                assert(m2[n] == m1[n]);
            }
        }
    }
}

/// Enums that share a name share a hash.
pub open spec fn enum_hashes_agree(es: Seq<EnumInfo>) -> bool {
    forall|i: int, j: int|
        0 <= i < es.len() && 0 <= j < es.len() && #[trigger] es[i].name@ == #[trigger] es[j].name@
            ==> es[i].file_hash@ == es[j].file_hash@
}

/// A class and an enum that share a name share a hash.
pub open spec fn cross_hashes_agree(cs: Seq<ClassInfo>, es: Seq<EnumInfo>) -> bool {
    forall|i: int, j: int|
        0 <= i < cs.len() && 0 <= j < es.len() && #[trigger] cs[i].name@ == #[trigger] es[j].name@
            ==> cs[i].file_hash@ == es[j].file_hash@
}

/// Every enum is recorded in the entries with its hash.
pub open spec fn enums_recorded(m: Map<Seq<char>, (Seq<char>, Seq<char>)>, es: Seq<EnumInfo>) -> bool {
    forall|j: int|
        0 <= j < es.len() ==> m.contains_key(#[trigger] es[j].name@) && m[es[j].name@].1
            == es[j].file_hash@
}

proof fn lemma_enums_keep_and_record(
    st: (Map<Seq<char>, (Seq<char>, Seq<char>)>, nat, nat),
    cs: Seq<ClassInfo>,
    es: Seq<EnumInfo>,
)
    requires
        classes_recorded(st.0, cs),
        enum_hashes_agree(es),
        cross_hashes_agree(cs, es),
    ensures
        classes_recorded(cache_after_enums(st, es).0, cs),
        enums_recorded(cache_after_enums(st, es).0, es),
    decreases es.len(),
{
    if es.len() > 0 {
        let prev = es.drop_last();
        let last = es.len() - 1;
        assert(es.last() == es[last]);
        assert(enum_hashes_agree(prev)) by {
            assert forall|i: int, j: int|
                0 <= i < prev.len() && 0 <= j < prev.len() && #[trigger] prev[i].name@ == #[trigger] prev[j].name@
                    implies prev[i].file_hash@ == prev[j].file_hash@ by {
                assert(prev[i] == es[i] && prev[j] == es[j]);
            }
        }
        assert(cross_hashes_agree(cs, prev)) by {
            assert forall|i: int, j: int|
                0 <= i < cs.len() && 0 <= j < prev.len() && #[trigger] cs[i].name@ == #[trigger] prev[j].name@
                    implies cs[i].file_hash@ == prev[j].file_hash@ by {
                assert(prev[j] == es[j]);
            }
        }
        lemma_enums_keep_and_record(st, cs, prev);
        let m1 = cache_after_enums(st, prev).0;
        let m2 = cache_after_enums(st, es).0;
        assert forall|j: int| 0 <= j < cs.len() implies m2.contains_key(#[trigger] cs[j].name@)
            && m2[cs[j].name@].1 == cs[j].file_hash@ by {
            assert(m1.contains_key(cs[j].name@));
            if cs[j].name@ == es[last].name@ {
                assert(cs[j].file_hash@ == es[last].file_hash@);
            }
        }
        assert forall|j: int| 0 <= j < es.len() implies m2.contains_key(#[trigger] es[j].name@)
            && m2[es[j].name@].1 == es[j].file_hash@ by {
            if j < last {
                assert(prev[j] == es[j]);
                assert(m1.contains_key(prev[j].name@));
                if es[j].name@ == es[last].name@ {
                    assert(es[j].file_hash@ == es[last].file_hash@);
                }
            }
        }
    }
}

proof fn lemma_refresh_recorded_enums(st: (Map<Seq<char>, (Seq<char>, Seq<char>)>, nat, nat), es: Seq<EnumInfo>)
    requires
        enums_recorded(st.0, es),
    ensures
        cache_after_enums(st, es) == (st.0, st.1 + es.len(), st.2),
    decreases es.len(),
{
    if es.len() > 0 {
        let prev = es.drop_last();
        assert(es.last() == es[es.len() - 1]);
        assert(enums_recorded(st.0, prev)) by {
            assert forall|j: int| 0 <= j < prev.len() implies st.0.contains_key(#[trigger] prev[j].name@)
                && st.0[prev[j].name@].1 == prev[j].file_hash@ by {
                assert(prev[j] == es[j]);
            }
        }
        lemma_refresh_recorded_enums(st, prev);
    }
}

/// A second check of the same classes and enums (what `refresh_cache` does)
/// finds every one unchanged and leaves the cache as it is, provided that
/// declarations sharing a name share a hash.
pub proof fn law_refresh_twice(m: Map<Seq<char>, (Seq<char>, Seq<char>)>, cs: Seq<ClassInfo>, es: Seq<EnumInfo>)
    requires
        class_hashes_agree(cs),
        enum_hashes_agree(es),
        cross_hashes_agree(cs, es),
    ensures
        ({
            let first = cache_after_enums(cache_after_classes((m, 0, 0), cs), es);
            let second = cache_after_enums(cache_after_classes((first.0, 0, 0), cs), es);
            second.0 == first.0 && second.1 == cs.len() + es.len() && second.2 == 0
        }),
{
    lemma_classes_recorded_after((m, 0, 0), cs);
    let mid = cache_after_classes((m, 0, 0), cs);
    lemma_enums_keep_and_record(mid, cs, es);
    let first = cache_after_enums(mid, es);
    lemma_refresh_recorded_classes((first.0, 0, 0), cs);
    lemma_refresh_recorded_enums((first.0, cs.len(), 0), es);
}

/// Checks classes and then enums against the cache, recording those whose
/// hash changed; returns how many were unchanged and how many updated.
/// See `cache_after_classes` and `cache_after_enums`.
pub fn refresh_cache(cache: &mut Cache, classes: &[ClassInfo], enums: &[EnumInfo]) -> (r: (usize, usize))
    requires
        classes@.len() + enums@.len() <= usize::MAX,
    ensures
        ({
            let st = cache_after_enums(cache_after_classes((old(cache).entry_map(), 0, 0), classes@), enums@);
            final(cache).entry_map() == st.0 && r.0 == st.1 && r.1 == st.2
        }),
{
    let mut unchanged: usize = 0;
    let mut updated: usize = 0;
    let ghost m0 = cache.entry_map();
    let mut i: usize = 0;
    while i < classes.len()
        invariant
            i <= classes@.len(),
            classes@.len() + enums@.len() <= usize::MAX,
            unchanged + updated == i,
            cache_after_classes((m0, 0, 0), classes@.take(i as int)) == (cache.entry_map(), unchanged as nat, updated as nat),
        decreases classes@.len() - i,
    {
        assert(classes@.take(i + 1).drop_last() =~= classes@.take(i as int));
        let c = &classes[i];
        if cache.is_valid(c.name.as_str(), c.file_hash.as_str()) {
            unchanged += 1;
        } else {
            updated += 1;
            cache.set_entry(c.name.as_str(), c.source_file.as_str(), c.file_hash.as_str());
        }
        i += 1;
    }
    assert(classes@.take(classes@.len() as int) =~= classes@);
    let ghost st1 = cache_after_classes((m0, 0, 0), classes@);
    let mut j: usize = 0;
    while j < enums.len()
        invariant
            j <= enums@.len(),
            classes@.len() + enums@.len() <= usize::MAX,
            unchanged + updated == classes@.len() + j,
            cache_after_enums(st1, enums@.take(j as int)) == (cache.entry_map(), unchanged as nat, updated as nat),
        decreases enums@.len() - j,
    {
        assert(enums@.take(j + 1).drop_last() =~= enums@.take(j as int));
        let e = &enums[j];
        if cache.is_valid(e.name.as_str(), e.file_hash.as_str()) {
            unchanged += 1;
        } else {
            updated += 1;
            cache.set_entry(e.name.as_str(), e.source_file.as_str(), e.file_hash.as_str());
        }
        j += 1;
    }
    assert(enums@.take(enums@.len() as int) =~= enums@);
    (unchanged, updated)
}

// ---------------------------------------------------------------- module maps

/// The module of each enum that names one, by enum name, in order.
pub open spec fn enum_module_pairs(es: Seq<EnumInfo>) -> Seq<(Seq<char>, Seq<char>)>
    decreases es.len(),
{
    if es.len() == 0 {
        Seq::empty()
    } else {
        enum_module_pairs(es.drop_last()) + match es.last().module_name {
            Some(m) => seq![(es.last().name@, m@)],
            None => Seq::empty(),
        }
    }
}

/// The views of string pairs.
pub open spec fn pair_views_of(s: Seq<(String, String)>) -> Seq<(Seq<char>, Seq<char>)> {
    s.map_values(|p: (String, String)| (p.0@, p.1@))
}

/// The module of each enum that names one; see `enum_module_pairs`.
pub fn enum_modules(enums: &[EnumInfo]) -> (r: Vec<(String, String)>)
    ensures
        pair_views_of(r@) == enum_module_pairs(enums@),
{
    let mut r: Vec<(String, String)> = Vec::new();
    let mut i: usize = 0;
    while i < enums.len()
        invariant
            i <= enums@.len(),
            pair_views_of(r@) == enum_module_pairs(enums@.take(i as int)),
        decreases enums@.len() - i,
    {
        assert(enums@.take(i + 1).drop_last() =~= enums@.take(i as int));
        let e = &enums[i];
        let ghost before = pair_views_of(r@);
        if let Some(m) = &e.module_name {
            r.push((e.name.clone(), m.clone()));
            assert(pair_views_of(r@) =~= before.push((e.name@, m@)));
        }
        assert(pair_views_of(r@) =~= enum_module_pairs(enums@.take(i + 1)));
        i += 1;
    }
    assert(enums@.take(enums@.len() as int) =~= enums@);
    r
}

/// The module of each source file, from the classes and then the enums that
/// name a module; `paths` gives each declaration's file as found on disk.
pub open spec fn file_module_pairs(
    cs: Seq<ClassInfo>,
    class_paths: Seq<String>,
    es: Seq<EnumInfo>,
    enum_paths: Seq<String>,
) -> Seq<(Seq<char>, Seq<char>)> {
    module_pairs_of(cs.map_values(|c: ClassInfo| c.module_name), class_paths) + module_pairs_of(
        es.map_values(|e: EnumInfo| e.module_name),
        enum_paths,
    )
}

/// The pairs of path and module for the declarations that name a module.
pub open spec fn module_pairs_of(ms: Seq<Option<String>>, paths: Seq<String>) -> Seq<(Seq<char>, Seq<char>)>
    decreases ms.len(),
{
    if ms.len() == 0 || paths.len() < ms.len() {
        Seq::empty()
    } else {
        module_pairs_of(ms.drop_last(), paths.take(ms.len() - 1)) + match ms.last() {
            Some(m) => seq![(paths[ms.len() - 1]@, m@)],
            None => Seq::empty(),
        }
    }
}

/// Appends the path and module of each declaration that names a module.
fn push_module_pairs(r: &mut Vec<(String, String)>, ms: &Vec<Option<String>>, paths: &Vec<String>)
    requires
        ms@.len() == paths@.len(),
    ensures
        pair_views_of(final(r)@) == pair_views_of(old(r)@) + module_pairs_of(ms@, paths@),
{
    let ghost start = pair_views_of(r@);
    let mut i: usize = 0;
    while i < ms.len()
        invariant
            i <= ms@.len(),
            ms@.len() == paths@.len(),
            start == pair_views_of(old(r)@),
            pair_views_of(r@) == start + module_pairs_of(ms@.take(i as int), paths@.take(i as int)),
        decreases ms@.len() - i,
    {
        assert(ms@.take(i + 1).drop_last() =~= ms@.take(i as int));
        assert(paths@.take(i + 1).take(i as int) =~= paths@.take(i as int));
        let ghost before = pair_views_of(r@);
        if let Some(m) = &ms[i] {
            r.push((paths[i].clone(), m.clone()));
            assert(pair_views_of(r@) =~= before.push((paths@[i as int]@, m@)));
        }
        assert(pair_views_of(r@) =~= start + module_pairs_of(ms@.take(i + 1), paths@.take(i + 1)));
        i += 1;
    }
    assert(ms@.take(ms@.len() as int) =~= ms@);
    assert(paths@.take(paths@.len() as int) =~= paths@);
}

/// The module of each source file; see `file_module_pairs`.
pub fn file_modules(classes: &[ClassInfo], class_paths: &Vec<String>, enums: &[EnumInfo], enum_paths: &Vec<String>) -> (r: Vec<(String, String)>)
    requires
        class_paths@.len() == classes@.len(),
        enum_paths@.len() == enums@.len(),
    ensures
        pair_views_of(r@) == file_module_pairs(classes@, class_paths@, enums@, enum_paths@),
{
    let mut cms: Vec<Option<String>> = Vec::new();
    let mut i: usize = 0;
    while i < classes.len()
        invariant
            i <= classes@.len(),
            cms@ == classes@.take(i as int).map_values(|c: ClassInfo| c.module_name),
        decreases classes@.len() - i,
    {
        let m = match &classes[i].module_name {
            Some(s) => Some(s.clone()),
            None => None,
        };
        cms.push(m);
        assert(cms@ =~= classes@.take(i + 1).map_values(|c: ClassInfo| c.module_name));
        i += 1;
    }
    assert(classes@.take(classes@.len() as int) =~= classes@);
    let mut ems: Vec<Option<String>> = Vec::new();
    let mut j: usize = 0;
    while j < enums.len()
        invariant
            j <= enums@.len(),
            ems@ == enums@.take(j as int).map_values(|e: EnumInfo| e.module_name),
        decreases enums@.len() - j,
    {
        let m = match &enums[j].module_name {
            Some(s) => Some(s.clone()),
            None => None,
        };
        ems.push(m);
        assert(ems@ =~= enums@.take(j + 1).map_values(|e: EnumInfo| e.module_name));
        j += 1;
    }
    assert(enums@.take(enums@.len() as int) =~= enums@);
    let mut r: Vec<(String, String)> = Vec::new();
    assert(pair_views_of(r@) =~= Seq::<(Seq<char>, Seq<char>)>::empty());
    push_module_pairs(&mut r, &cms, class_paths);
    push_module_pairs(&mut r, &ems, enum_paths);
    r
}

// ---------------------------------------------------------------- module files

/// Where a declaration goes: its output (else the default), taken as a path,
/// made again of its components, and its module (else the default).
pub open spec fn group_key(out: Option<String>, module: Option<String>, d_out: Seq<char>, d_module: Seq<char>) -> (Seq<char>, Seq<char>) {
    (
        match out {
            Some(o) => path_normal(o@),
            None => path_normal(d_out),
        },
        match module {
            Some(m) => m@,
            None => d_module,
        },
    )
}

/// The distinct keys, in order of first appearance.
pub open spec fn distinct_keys(ks: Seq<(Seq<char>, Seq<char>)>) -> Seq<(Seq<char>, Seq<char>)>
    decreases ks.len(),
{
    if ks.len() == 0 {
        Seq::empty()
    } else {
        let d = distinct_keys(ks.drop_last());
        if d.contains(ks.last()) {
            d
        } else {
            d.push(ks.last())
        }
    }
}

/// The positions of the entries equal to a key, in order.
pub open spec fn positions_of(ks: Seq<(Seq<char>, Seq<char>)>, k: (Seq<char>, Seq<char>)) -> Seq<usize>
    decreases ks.len(),
{
    if ks.len() == 0 {
        Seq::empty()
    } else {
        positions_of(ks.drop_last(), k) + if ks.last() == k {
            seq![(ks.len() - 1) as usize]
        } else {
            Seq::empty()
        }
    }
}

/// A module file: where it is written, its module, and the positions of
/// its classes and enums.
#[derive(Debug)]
pub struct ModuleGroup {
    pub out_path: String,
    pub module: String,
    pub classes: Vec<usize>,
    pub enums: Vec<usize>,
}

/// The module files of a run: one per distinct output and module, in order
/// of first appearance among the classes and then the enums, each with the
/// positions of its classes and enums in order.
pub open spec fn groups_of(cs: Seq<ClassInfo>, es: Seq<EnumInfo>, d_out: Seq<char>, d_module: Seq<char>) -> Seq<((Seq<char>, Seq<char>), Seq<usize>, Seq<usize>)> {
    let cks = cs.map_values(|c: ClassInfo| group_key(c.output_path, c.module_name, d_out, d_module));
    let eks = es.map_values(|e: EnumInfo| group_key(e.output_path, e.module_name, d_out, d_module));
    distinct_keys(cks + eks).map_values(
        |k: (Seq<char>, Seq<char>)| (k, positions_of(cks, k), positions_of(eks, k)),
    )
}

/// The view of a module file.
pub open spec fn group_view(g: ModuleGroup) -> ((Seq<char>, Seq<char>), Seq<usize>, Seq<usize>) {
    ((g.out_path@, g.module@), g.classes@, g.enums@)
}

/// The keys of declarations as string pairs.
fn key_pairs(outs: &Vec<Option<String>>, modules: &Vec<Option<String>>, d_out: &str, d_module: &str) -> (r: Vec<(String, String)>)
    requires
        outs@.len() == modules@.len(),
    ensures
        r@.len() == outs@.len(),
        forall|i: int| 0 <= i < r@.len() ==> (#[trigger] r@[i].0@, r@[i].1@) == group_key(outs@[i], modules@[i], d_out@, d_module@),
{
    let mut r: Vec<(String, String)> = Vec::new();
    let mut i: usize = 0;
    while i < outs.len()
        invariant
            i <= outs@.len(),
            outs@.len() == modules@.len(),
            r@.len() == i,
            forall|j: int| 0 <= j < i ==> (#[trigger] r@[j].0@, r@[j].1@) == group_key(outs@[j], modules@[j], d_out@, d_module@),
        decreases outs@.len() - i,
    {
        let o = match &outs[i] {
            Some(s) => normal_path(s.as_str()),
            None => normal_path(d_out),
        };
        let m = match &modules[i] {
            Some(s) => s.clone(),
            None => String::from_str(d_module),
        };
        r.push((o, m));
        i += 1;
    }
    r
}

/// The positions of the keys equal to one key; see `positions_of`.
fn key_positions(ks: &Vec<(String, String)>, k: &(String, String)) -> (r: Vec<usize>)
    ensures
        r@ == positions_of(pair_views_of(ks@), (k.0@, k.1@)),
{
    let ghost kv = pair_views_of(ks@);
    let mut r: Vec<usize> = Vec::new();
    let mut i: usize = 0;
    while i < ks.len()
        invariant
            i <= ks@.len(),
            kv == pair_views_of(ks@),
            r@ == positions_of(kv.take(i as int), (k.0@, k.1@)),
        decreases ks@.len() - i,
    {
        assert(kv.take(i + 1).drop_last() =~= kv.take(i as int));
        if str_eq(ks[i].0.as_str(), k.0.as_str()) && str_eq(ks[i].1.as_str(), k.1.as_str()) {
            r.push(i);
        }
        assert(r@ =~= positions_of(kv.take(i + 1), (k.0@, k.1@)));
        i += 1;
    }
    assert(kv.take(ks@.len() as int) =~= kv);
    r
}

/// Whether a key is among some keys.
fn has_key_pair(ks: &Vec<(String, String)>, k: &(String, String)) -> (r: bool)
    ensures
        r == pair_views_of(ks@).contains((k.0@, k.1@)),
{
    let mut i: usize = 0;
    while i < ks.len()
        invariant
            i <= ks@.len(),
            forall|j: int| 0 <= j < i ==> pair_views_of(ks@)[j] != (k.0@, k.1@),
        decreases ks@.len() - i,
    {
        if str_eq(ks[i].0.as_str(), k.0.as_str()) && str_eq(ks[i].1.as_str(), k.1.as_str()) {
            assert(pair_views_of(ks@)[i as int] == (k.0@, k.1@));
            return true;
        }
        i += 1;
    }
    false
}

/// The module files of a run; see `groups_of`.
pub fn group_modules(classes: &[ClassInfo], enums: &[EnumInfo], default_output: &str, default_module: &str) -> (r: Vec<ModuleGroup>)
    ensures
        r@.map_values(|g: ModuleGroup| group_view(g)) == groups_of(classes@, enums@, default_output@, default_module@),
{
    let ghost d_out = default_output@;
    let ghost d_mod = default_module@;
    let mut couts: Vec<Option<String>> = Vec::new();
    let mut cmods: Vec<Option<String>> = Vec::new();
    let mut i: usize = 0;
    while i < classes.len()
        invariant
            i <= classes@.len(),
            couts@.len() == i,
            cmods@.len() == i,
            forall|j: int| 0 <= j < i ==> os(#[trigger] couts@[j]) == os(classes@[j].output_path) && os(cmods@[j]) == os(classes@[j].module_name),
        decreases classes@.len() - i,
    {
        couts.push(copy_opt(&classes[i].output_path));
        cmods.push(copy_opt(&classes[i].module_name));
        i += 1;
    }
    let mut eouts: Vec<Option<String>> = Vec::new();
    let mut emods: Vec<Option<String>> = Vec::new();
    let mut j: usize = 0;
    while j < enums.len()
        invariant
            j <= enums@.len(),
            eouts@.len() == j,
            emods@.len() == j,
            forall|t: int| 0 <= t < j ==> os(#[trigger] eouts@[t]) == os(enums@[t].output_path) && os(emods@[t]) == os(enums@[t].module_name),
        decreases enums@.len() - j,
    {
        eouts.push(copy_opt(&enums[j].output_path));
        emods.push(copy_opt(&enums[j].module_name));
        j += 1;
    }
    let ckeys = key_pairs(&couts, &cmods, default_output, default_module);
    let ekeys = key_pairs(&eouts, &emods, default_output, default_module);
    let ghost cks = classes@.map_values(|c: ClassInfo| group_key(c.output_path, c.module_name, d_out, d_mod));
    let ghost eks = enums@.map_values(|e: EnumInfo| group_key(e.output_path, e.module_name, d_out, d_mod));
    assert(pair_views_of(ckeys@) =~= cks) by {
        assert forall|t: int| 0 <= t < cks.len() implies pair_views_of(ckeys@)[t] == cks[t] by {
            assert((ckeys@[t].0@, ckeys@[t].1@) == group_key(couts@[t], cmods@[t], d_out, d_mod));
        }
    }
    assert(pair_views_of(ekeys@) =~= eks) by {
        assert forall|t: int| 0 <= t < eks.len() implies pair_views_of(ekeys@)[t] == eks[t] by {
            assert((ekeys@[t].0@, ekeys@[t].1@) == group_key(eouts@[t], emods@[t], d_out, d_mod));
        }
    }
    let mut all: Vec<(String, String)> = Vec::new();
    let mut k: usize = 0;
    while k < ckeys.len()
        invariant
            k <= ckeys@.len(),
            pair_views_of(all@) == pair_views_of(ckeys@).take(k as int),
        decreases ckeys@.len() - k,
    {
        let ghost before = pair_views_of(all@);
        let a = ckeys[k].0.clone();
        let b = ckeys[k].1.clone();
        all.push((a, b));
        assert(pair_views_of(all@) =~= before.push(pair_views_of(ckeys@)[k as int]));
        assert(pair_views_of(all@) =~= pair_views_of(ckeys@).take(k + 1));
        k += 1;
    }
    let mut t: usize = 0;
    while t < ekeys.len()
        invariant
            t <= ekeys@.len(),
            pair_views_of(all@) == pair_views_of(ckeys@) + pair_views_of(ekeys@).take(t as int),
        decreases ekeys@.len() - t,
    {
        let ghost before = pair_views_of(all@);
        let a = ekeys[t].0.clone();
        let b = ekeys[t].1.clone();
        all.push((a, b));
        assert(pair_views_of(all@) =~= before.push(pair_views_of(ekeys@)[t as int]));
        assert(pair_views_of(all@) =~= pair_views_of(ckeys@) + pair_views_of(ekeys@).take(t + 1));
        t += 1;
    }
    assert(pair_views_of(ekeys@).take(ekeys@.len() as int) =~= pair_views_of(ekeys@));
    assert(pair_views_of(ckeys@).take(ckeys@.len() as int) =~= pair_views_of(ckeys@));
    let ghost av = pair_views_of(all@);
    assert(av == cks + eks);
    let mut distinct: Vec<(String, String)> = Vec::new();
    let mut u: usize = 0;
    while u < all.len()
        invariant
            u <= all@.len(),
            av == pair_views_of(all@),
            pair_views_of(distinct@) == distinct_keys(av.take(u as int)),
        decreases all@.len() - u,
    {
        assert(av.take(u + 1).drop_last() =~= av.take(u as int));
        if !has_key_pair(&distinct, &all[u]) {
            let ghost before = pair_views_of(distinct@);
            distinct.push((all[u].0.clone(), all[u].1.clone()));
            assert(pair_views_of(distinct@) =~= before.push(av[u as int]));
        }
        assert(pair_views_of(distinct@) =~= distinct_keys(av.take(u + 1)));
        u += 1;
    }
    assert(av.take(all@.len() as int) =~= av);
    let ghost dv = pair_views_of(distinct@);
    let mut groups: Vec<ModuleGroup> = Vec::new();
    let mut g: usize = 0;
    while g < distinct.len()
        invariant
            g <= distinct@.len(),
            dv == pair_views_of(distinct@),
            cks == pair_views_of(ckeys@),
            eks == pair_views_of(ekeys@),
            groups@.map_values(|x: ModuleGroup| group_view(x)) == dv.take(g as int).map_values(
                |k: (Seq<char>, Seq<char>)| (k, positions_of(cks, k), positions_of(eks, k)),
            ),
        decreases distinct@.len() - g,
    {
        let key = &distinct[g];
        let cp = key_positions(&ckeys, key);
        let ep = key_positions(&ekeys, key);
        let ghost before = groups@.map_values(|x: ModuleGroup| group_view(x));
        let grp = ModuleGroup { out_path: key.0.clone(), module: key.1.clone(), classes: cp, enums: ep };
        groups.push(grp);
        assert(groups@.map_values(|x: ModuleGroup| group_view(x)) =~= before.push(group_view(grp)));
        assert(dv.take(g + 1).map_values(|k: (Seq<char>, Seq<char>)| (k, positions_of(cks, k), positions_of(eks, k)))
            =~= dv.take(g as int).map_values(|k: (Seq<char>, Seq<char>)| (k, positions_of(cks, k), positions_of(eks, k))).push(
            (dv[g as int], positions_of(cks, dv[g as int]), positions_of(eks, dv[g as int])),
        ));
        g += 1;
    }
    assert(dv.take(distinct@.len() as int) =~= dv);
    groups
}

/// Whether a generated file must be written: it does not exist yet, or
/// its content differs.
pub fn should_write(existing: &Option<String>, content: &str) -> (r: bool)
    ensures
        r == match existing {
            Some(e) => e@ != content@,
            None => true,
        },
{
    match existing {
        Some(e) => !str_eq(e.as_str(), content),
        None => true,
    }
}

// ---------------------------------------------------------------- bean type enums

/// The bean type enums of the classes: each class with what it extends
/// (none as empty), its alias and comment.
pub open spec fn class_beans(cs: Seq<ClassInfo>) -> Seq<(Seq<char>, Seq<char>, Option<Seq<char>>, Option<Seq<char>>)> {
    cs.map_values(
        |c: ClassInfo|
            (
                c.name@,
                match c.extends {
                    Some(e) => e@,
                    None => Seq::empty(),
                },
                os(c.alias),
                os(c.comment),
            ),
    )
}

/// The views of beans with their parents.
pub open spec fn bean_views(bs: Seq<BeanWithParent>) -> Seq<(Seq<char>, Seq<char>, Option<Seq<char>>, Option<Seq<char>>)> {
    bs.map_values(
        |b: BeanWithParent|
            (
                b.0@,
                b.1@,
                match b.2 {
                    Some(a) => Some(a@),
                    None => None,
                },
                match b.3 {
                    Some(c) => Some(c@),
                    None => None,
                },
            ),
    )
}

/// The XML of the bean type enums of the classes.
pub fn bean_type_enums_for(classes: &[ClassInfo], module_name: &str) -> (r: String)
    ensures
        exists|bs: Seq<BeanWithParent>| bean_views(bs) == class_beans(classes@) && r@ == bean_type_enums_xml(bs, module_name@),
{
    let mut parents: Vec<String> = Vec::new();
    let mut i: usize = 0;
    while i < classes.len()
        invariant
            i <= classes@.len(),
            parents@.len() == i,
            forall|j: int| 0 <= j < i ==> #[trigger] parents@[j]@ == (match classes@[j].extends {
                Some(e) => e@,
                None => Seq::<char>::empty(),
            }),
        decreases classes@.len() - i,
    {
        let p = match &classes[i].extends {
            Some(e) => e.clone(),
            None => String::new(),
        };
        parents.push(p);
        i += 1;
    }
    let mut beans: Vec<BeanWithParent> = Vec::new();
    let mut j: usize = 0;
    while j < classes.len()
        invariant
            j <= classes@.len(),
            parents@.len() == classes@.len(),
            forall|t: int| 0 <= t < classes@.len() ==> #[trigger] parents@[t]@ == (match classes@[t].extends {
                Some(e) => e@,
                None => Seq::<char>::empty(),
            }),
            bean_views(beans@) == class_beans(classes@.take(j as int)),
        decreases classes@.len() - j,
    {
        let c = &classes[j];
        let alias: Option<&str> = match &c.alias {
            Some(a) => Some(a.as_str()),
            None => None,
        };
        let comment: Option<&str> = match &c.comment {
            Some(a) => Some(a.as_str()),
            None => None,
        };
        let b: BeanWithParent = (c.name.as_str(), parents[j].as_str(), alias, comment);
        let ghost before = bean_views(beans@);
        beans.push(b);
        assert(bean_views(beans@) =~= before.push((c.name@, parents@[j as int]@, os(c.alias), os(c.comment))));
        assert(class_beans(classes@.take(j + 1)) =~= class_beans(classes@.take(j as int)).push(
            (c.name@, parents@[j as int]@, os(c.alias), os(c.comment)),
        ));
        j += 1;
    }
    assert(classes@.take(classes@.len() as int) =~= classes@);
    let r = generate_bean_type_enums_xml(beans.as_slice(), module_name);
    assert(bean_views(beans@) == class_beans(classes@));
    r
}

// ---------------------------------------------------------------- watching

/// How long a change must be followed by quiet before regenerating, in
/// milliseconds.
pub const DEBOUNCE_MS: u64 = 300;

/// The watcher's state: when the last relevant change was seen, and
/// whether a generation is pending.
#[derive(Debug, Clone, Copy)]
pub struct WatchState {
    pub last_change_ms: u64,
    pub pending: bool,
}

/// Whether a file extension is TypeScript (`ts`, `mts`, `cts`).
pub open spec fn is_ts_ext(e: Option<Seq<char>>) -> bool {
    match e {
        Some(x) => x == "ts"@ || x == "mts"@ || x == "cts"@,
        None => false,
    }
}

/// The state after a file-system event at `now`: a creation, change or
/// removal of a TypeScript file makes a generation pending when the last
/// change is at least `DEBOUNCE_MS` old, and becomes the last change;
/// other events change nothing.
pub open spec fn after_event(st: WatchState, now: u64, relevant: bool, exts: Seq<Option<Seq<char>>>) -> WatchState {
    if relevant && exists|i: int| 0 <= i < exts.len() && is_ts_ext(#[trigger] exts[i]) {
        let elapsed = if now >= st.last_change_ms {
            now - st.last_change_ms
        } else {
            0
        };
        WatchState { last_change_ms: now, pending: st.pending || elapsed >= 300 }
    } else {
        st
    }
}

/// The views of optional extensions.
pub open spec fn ext_views(exts: Seq<Option<String>>) -> Seq<Option<Seq<char>>> {
    exts.map_values(|e: Option<String>| os(e))
}

/// The state after a file-system event; see `after_event`.
pub fn on_fs_event(st: WatchState, now_ms: u64, relevant: bool, extensions: &Vec<Option<String>>) -> (r: WatchState)
    ensures
        r == after_event(st, now_ms, relevant, ext_views(extensions@)),
{
    if !relevant {
        return st;
    }
    let ghost ev = ext_views(extensions@);
    let mut found = false;
    let mut i: usize = 0;
    while i < extensions.len()
        invariant
            i <= extensions@.len(),
            ev == ext_views(extensions@),
            found == exists|j: int| 0 <= j < i && is_ts_ext(#[trigger] ev[j]),
        decreases extensions@.len() - i,
    {
        let ts = match &extensions[i] {
            Some(x) => str_eq(x.as_str(), "ts") || str_eq(x.as_str(), "mts") || str_eq(x.as_str(), "cts"),
            None => false,
        };
        assert(ts == is_ts_ext(ev[i as int]));
        if ts {
            found = true;
        }
        i += 1;
    }
    if !found {
        return st;
    }
    let elapsed = now_ms.saturating_sub(st.last_change_ms);
    WatchState { last_change_ms: now_ms, pending: st.pending || elapsed >= DEBOUNCE_MS }
}

/// The state after a tick at `now`, and whether to regenerate: a pending
/// generation runs once the last change is at least `DEBOUNCE_MS` old.
pub open spec fn after_tick(st: WatchState, now: u64) -> (WatchState, bool) {
    let elapsed = if now >= st.last_change_ms {
        now - st.last_change_ms
    } else {
        0
    };
    if st.pending && elapsed >= 300 {
        (WatchState { last_change_ms: st.last_change_ms, pending: false }, true)
    } else {
        (st, false)
    }
}

/// Generation is debounced: a tick regenerates only when a generation is
/// pending and no TypeScript change came in the last `DEBOUNCE_MS`, and it
/// clears the pending mark; a tick soon after a TypeScript change never
/// regenerates.
pub proof fn law_debounce(st: WatchState, now: u64, t: u64, exts: Seq<Option<Seq<char>>>)
    ensures
        after_tick(st, t).1 ==> st.pending && t >= st.last_change_ms + 300 && !after_tick(
            st,
            t,
        ).0.pending,
        !after_tick(st, t).1 ==> after_tick(st, t).0 == st,
        (exists|i: int| 0 <= i < exts.len() && is_ts_ext(#[trigger] exts[i])) ==> after_event(
            st,
            now,
            true,
            exts,
        ).last_change_ms == now && (t < now + 300 ==> !after_tick(
            after_event(st, now, true, exts),
            t,
        ).1),
{
}

/// The state after a tick, and whether to regenerate; see `after_tick`.
pub fn on_tick(st: WatchState, now_ms: u64) -> (r: (WatchState, bool))
    ensures
        r == after_tick(st, now_ms),
{
    let elapsed = now_ms.saturating_sub(st.last_change_ms);
    if st.pending && elapsed >= DEBOUNCE_MS {
        (WatchState { last_change_ms: st.last_change_ms, pending: false }, true)
    } else {
        (st, false)
    }
}

/// The directories to watch for the sources (before those of glob
/// matches): each directory, and the parent of each file once.
pub open spec fn watch_dirs(ss: Seq<SourceConfig>, root: Seq<char>) -> Seq<Seq<char>>
    decreases ss.len(),
{
    if ss.len() == 0 {
        Seq::empty()
    } else {
        let w = watch_dirs(ss.drop_last(), root);
        match ss.last() {
            SourceConfig::Directory { path, .. } => w.push(resolve_against(path@, root)),
            SourceConfig::File { path, .. } => add_parents(w, seq![resolve_against(path@, root)]),
            SourceConfig::Files { paths, .. } => add_parents(
                w,
                paths@.map_values(|p: String| resolve_against(p@, root)),
            ),
            _ => w,
        }
    }
}

/// The parent of each path added, when it has one and is not there yet.
pub open spec fn add_parents(w: Seq<Seq<char>>, ps: Seq<Seq<char>>) -> Seq<Seq<char>>
    decreases ps.len(),
{
    if ps.len() == 0 {
        w
    } else {
        let w2 = add_parents(w, ps.drop_last());
        match path_parent(ps.last()) {
            Some(d) => if w2.contains(d) {
                w2
            } else {
                w2.push(d)
            },
            None => w2,
        }
    }
}

/// Adds the parent of a path, when it has one and is not there yet.
pub fn push_parent(watch: &mut Vec<String>, path: &str)
    ensures
        views(final(watch)@) == add_parents(views(old(watch)@), seq![path@]),
{
    assert(seq![path@].drop_last() =~= Seq::<Seq<char>>::empty());
    assert(seq![path@].last() == path@);
    proof {
        reveal_with_fuel(add_parents, 2);
    }
    if let Some(d) = parent(path) {
        if !contains_string(watch, d.as_str()) {
            proof {
                lemma_views_push(watch@, d);
            }
            watch.push(d);
        }
    }
}

/// The directories to watch for the sources; see `watch_dirs`.
pub fn watch_candidates(sources: &Vec<SourceConfig>, project_root: &str) -> (r: Vec<String>)
    ensures
        views(r@) == watch_dirs(sources@, project_root@),
{
    let mut w: Vec<String> = Vec::new();
    let mut i: usize = 0;
    while i < sources.len()
        invariant
            i <= sources@.len(),
            views(w@) == watch_dirs(sources@.take(i as int), project_root@),
        decreases sources@.len() - i,
    {
        assert(sources@.take(i + 1).drop_last() =~= sources@.take(i as int));
        assert(sources@.take(i + 1).last() == sources@[i as int]);
        let ghost w0 = views(w@);
        match &sources[i] {
            SourceConfig::Directory { path, .. } => {
                let d = resolved(path.as_str(), project_root);
                proof {
                    lemma_views_push(w@, d);
                }
                w.push(d);
            },
            SourceConfig::File { path, .. } => {
                let f = resolved(path.as_str(), project_root);
                push_parent(&mut w, f.as_str());
            },
            SourceConfig::Files { paths, .. } => {
                let ghost rp = paths@.map_values(|p: String| resolve_against(p@, project_root@));
                let mut j: usize = 0;
                while j < paths.len()
                    invariant
                        j <= paths@.len(),
                        rp == paths@.map_values(|p: String| resolve_against(p@, project_root@)),
                        views(w@) == add_parents(w0, rp.take(j as int)),
                    decreases paths@.len() - j,
                {
                    let f = resolved(paths[j].as_str(), project_root);
                    let ghost wb = views(w@);
                    push_parent(&mut w, f.as_str());
                    assert(rp.take(j + 1).drop_last() =~= rp.take(j as int));
                    assert(rp.take(j + 1).last() == f@);
                    assert(seq![f@].drop_last() =~= Seq::<Seq<char>>::empty());
                    assert(seq![f@].last() == f@);
                    proof {
                        reveal_with_fuel(add_parents, 2);
                    }
                    j += 1;
                }
                assert(rp.take(paths@.len() as int) =~= rp);
            },
            _ => {},
        }
        assert(views(w@) == watch_dirs(sources@.take(i + 1), project_root@));
        i += 1;
    }
    assert(sources@.take(sources@.len() as int) =~= sources@);
    w
}

} // verus!
