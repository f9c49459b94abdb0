//! `beans.ts`: a dictionary of all classes keyed by `module.Name`, split
//! into several files when it would import too many names.
use super::import_resolver::{ImportResolver, import_of};
use crate::parser::ClassInfo;
use crate::sort::{pair_order, pair_seq, sort_pairs, sort_strings, sorted_distinct, sorted_items, str_order};
use crate::table_registry::qualified;
use crate::text::{contains_string, decimal, joined, join_strings, lemma_views_push, str_eq, usize_to_decimal, views};
use crate::xml_types::qualify;
use vstd::prelude::*;

verus! {

/// The most names a generated file imports (Luau allows 200 registers).
pub const MAX_IMPORTS_PER_FILE: usize = 100;

/// A generated file: its name and content.
#[derive(Debug)]
pub struct BeansFile {
    pub filename: String,
    pub content: String,
}

/// A bean of the dictionary: its key, its class name and its import path.
pub type BeanEntry = (Seq<char>, Seq<char>, Seq<char>);

/// The module of a class: its own, else the default.
pub open spec fn bean_module(c: ClassInfo, dm: Seq<char>) -> Seq<char> {
    match c.module_name {
        Some(m) => m@,
        None => dm,
    }
}

/// The key of a class: `module.Name`, or the name without a module.
pub open spec fn bean_key(c: ClassInfo, dm: Seq<char>) -> Seq<char> {
    qualified(bean_module(c, dm), c.name@)
}

/// The beans of a list of classes: each class (not interface) whose name
/// was not taken by an earlier one, with its key and import path.
pub open spec fn pick_beans(
    cs: Seq<ClassInfo>,
    seen: Seq<Seq<char>>,
    out: Seq<char>,
    dm: Seq<char>,
) -> Seq<BeanEntry>
    decreases cs.len(),
{
    if cs.len() == 0 {
        Seq::empty()
    } else {
        let c = cs[0];
        if !c.is_interface && !seen.contains(c.name@) {
            seq![(bean_key(c, dm), c.name@, import_of(out, c.source_file@))] + pick_beans(
                cs.drop_first(),
                seen.push(c.name@),
                out,
                dm,
            )
        } else {
            pick_beans(cs.drop_first(), seen, out, dm)
        }
    }
}

/// The import paths of beans, sorted, each once.
pub open spec fn import_paths(es: Seq<BeanEntry>) -> Seq<Seq<char>> {
    sorted_items(es.map_values(|e: BeanEntry| e.2))
}

/// The names of the beans imported from a path, in order.
pub open spec fn names_from(es: Seq<BeanEntry>, p: Seq<char>) -> Seq<Seq<char>>
    decreases es.len(),
{
    if es.len() == 0 {
        Seq::empty()
    } else {
        names_from(es.drop_last(), p) + if es.last().2 == p {
            seq![es.last().1]
        } else {
            Seq::empty()
        }
    }
}

/// The import statement of a path and its names.
pub open spec fn import_line(p: Seq<char>, names: Seq<Seq<char>>) -> Seq<char> {
    "import { "@ + joined(names, ", "@) + " } from \""@ + p + "\";"@
}

/// The import statements of some paths, each with its names sorted.
pub open spec fn import_lines(ps: Seq<Seq<char>>, es: Seq<BeanEntry>) -> Seq<Seq<char>> {
    ps.map_values(|p: Seq<char>| import_line(p, names_from(es, p).sort_by(str_order())))
}

/// The line of a dictionary entry.
pub open spec fn entry_line(e: (Seq<char>, Seq<char>)) -> Seq<char> {
    "    \""@ + e.0 + "\": "@ + e.1 + ","@
}

/// The lines of dictionary entries.
pub open spec fn entry_lines(es: Seq<(Seq<char>, Seq<char>)>) -> Seq<Seq<char>> {
    es.map_values(|e: (Seq<char>, Seq<char>)| entry_line(e))
}

/// The keys and names of beans.
pub open spec fn key_names(es: Seq<BeanEntry>) -> Seq<(Seq<char>, Seq<char>)> {
    es.map_values(|e: BeanEntry| (e.0, e.1))
}

/// A dictionary file: the imports by path (sorted), an empty line when
/// there are any, then `export const NAME = {`, the entries sorted by key,
/// and `} as const;`, joined by new lines.
pub open spec fn beans_content(es: Seq<BeanEntry>, export_name: Seq<char>) -> Seq<char> {
    let il = import_lines(import_paths(es), es);
    joined(
        il + (if il.len() > 0 {
            seq![Seq::<char>::empty()]
        } else {
            Seq::empty()
        }) + seq!["export const "@ + export_name + " = {"@] + entry_lines(
            key_names(es).sort_by(pair_order()),
        ) + seq!["} as const;"@],
        "\n"@,
    )
}

/// The import path of the first bean of a name.
pub open spec fn path_of_name(es: Seq<BeanEntry>, n: Seq<char>) -> Seq<char>
    decreases es.len(),
{
    if es.len() == 0 {
        Seq::empty()
    } else if es[0].1 == n {
        es[0].2
    } else {
        path_of_name(es.drop_first(), n)
    }
}

/// Keys and names with the import path of each name.
pub open spec fn with_paths(ps: Seq<(Seq<char>, Seq<char>)>, es: Seq<BeanEntry>) -> Seq<BeanEntry> {
    ps.map_values(|p: (Seq<char>, Seq<char>)| (p.0, p.1, path_of_name(es, p.1)))
}

/// The `i`-th chunk (from 0) of at most `MAX_IMPORTS_PER_FILE` beans.
pub open spec fn chunk(s: Seq<BeanEntry>, i: int) -> Seq<BeanEntry> {
    let lo = i * 100;
    let hi = if (i + 1) * 100 < s.len() {
        (i + 1) * 100
    } else {
        s.len() as int
    };
    s.subrange(lo, hi)
}

/// The chunks split the beans without loss: each of the `chunk_count` chunks
/// holds between one and `MAX_IMPORTS_PER_FILE` beans, and bean `j` is entry
/// `j % 100` of chunk `j / 100`.
pub proof fn law_chunks_cover(s: Seq<BeanEntry>)
    ensures
        forall|t: int|
            0 <= t < chunk_count(s.len()) ==> 0 < (#[trigger] chunk(s, t)).len() <= 100,
        forall|j: int|
            0 <= j < s.len() ==> j / 100 < chunk_count(s.len()) && #[trigger] chunk(s, j / 100)[j % 100]
                == s[j],
{
    let n = s.len();
    assert forall|t: int| 0 <= t < chunk_count(n) implies 0 < (#[trigger] chunk(s, t)).len()
        <= 100 by {
        assert(t * 100 < n) by (nonlinear_arith)
            requires
                0 <= t < chunk_count(n),
                chunk_count(n) == (n + 99) / 100,
        ;
    }
    assert forall|j: int| 0 <= j < n implies j / 100 < chunk_count(n) && #[trigger] chunk(
        s,
        j / 100,
    )[j % 100] == s[j] by {
        let t = j / 100;
        assert(t * 100 + j % 100 == j && 0 <= j % 100 < 100 && t < chunk_count(n))
            by (nonlinear_arith)
            requires
                0 <= j < n,
                t == j / 100,
                chunk_count(n) == (n + 99) / 100,
        ;
        assert((t + 1) * 100 == t * 100 + 100);
    }
}

/// The number of chunks of `n` beans.
pub open spec fn chunk_count(n: nat) -> nat {
    ((n + 99) / 100) as nat
}

/// The file that merges the chunks: it imports `Beans_1` .. `Beans_k` and
/// spreads them into `Beans`.
pub open spec fn main_lines(k: nat) -> Seq<Seq<char>> {
    Seq::new(
        k,
        |i: int|
            "import { Beans_"@ + decimal((i + 1) as nat) + " } from \"./beans_"@ + decimal((i + 1) as nat)
                + "\";"@,
    ) + seq![Seq::<char>::empty(), "export const Beans = {"@] + Seq::new(
        k,
        |i: int| "    ...Beans_"@ + decimal((i + 1) as nat) + ","@,
    ) + seq!["} as const;"@]
}

/// The generated files: one `beans.ts` when there are at most
/// `MAX_IMPORTS_PER_FILE` beans; else the beans sorted by key, in chunks
/// of that many, as `beans_1.ts` (`Beans_1`), ..., and a `beans.ts` that
/// merges them.
pub open spec fn beans_files(es: Seq<BeanEntry>) -> Seq<(Seq<char>, Seq<char>)> {
    if es.len() <= 100 {
        seq![("beans.ts"@, beans_content(es, "Beans"@))]
    } else {
        let sorted = with_paths(key_names(es).sort_by(pair_order()), es);
        let k = chunk_count(es.len());
        Seq::new(k, |i: int| chunk_file(sorted, i)).push(("beans.ts"@, joined(main_lines(k), "\n"@)))
    }
}

/// The views of generated files.
pub open spec fn file_views(fs: Seq<BeansFile>) -> Seq<(Seq<char>, Seq<char>)> {
    fs.map_values(|f: BeansFile| (f.filename@, f.content@))
}

/// The classes behind references.
pub open spec fn deref_classes(cs: Seq<&ClassInfo>) -> Seq<ClassInfo> {
    cs.map_values(|c: &ClassInfo| *c)
}

/// Bean entries as plain values.
pub open spec fn entry_views(es: Seq<(String, String, String)>) -> Seq<BeanEntry> {
    es.map_values(|e: (String, String, String)| (e.0@, e.1@, e.2@))
}

/// Generates the dictionary of beans.
pub struct BeansGenerator<'a> {
    import_resolver: &'a ImportResolver,
}

/// The import statements of the beans; see `import_lines`.
fn import_statements(es: &Vec<(String, String, String)>) -> (r: Vec<String>)
    ensures
        views(r@) == import_lines(import_paths(entry_views(es@)), entry_views(es@)),
{
    let ghost ev = entry_views(es@);
    let mut all_paths: Vec<String> = Vec::new();
    let mut i: usize = 0;
    while i < es.len()
        invariant
            i <= es@.len(),
            ev == entry_views(es@),
            views(all_paths@) == ev.take(i as int).map_values(|e: BeanEntry| e.2),
        decreases es@.len() - i,
    {
        proof {
            lemma_views_push(all_paths@, es@[i as int].2);
        }
        all_paths.push(es[i].2.clone());
        assert(ev.take(i + 1).map_values(|e: BeanEntry| e.2) =~= ev.take(i as int).map_values(|e: BeanEntry| e.2).push(ev[i as int].2));
        i += 1;
    }
    assert(ev.take(es@.len() as int) =~= ev);
    let paths = sorted_distinct(&all_paths);
    let ghost ps = views(paths@);
    assert(ps == import_paths(ev));
    let mut lines: Vec<String> = Vec::new();
    let mut j: usize = 0;
    while j < paths.len()
        invariant
            j <= paths@.len(),
            ev == entry_views(es@),
            ps == views(paths@),
            views(lines@) == import_lines(ps.take(j as int), ev),
        decreases paths@.len() - j,
    {
        let p = &paths[j];
        let mut names: Vec<String> = Vec::new();
        let mut k: usize = 0;
        while k < es.len()
            invariant
                k <= es@.len(),
                ev == entry_views(es@),
                views(names@) == names_from(ev.take(k as int), p@),
            decreases es@.len() - k,
        {
            assert(ev.take(k + 1).drop_last() =~= ev.take(k as int));
            if str_eq(es[k].2.as_str(), p.as_str()) {
                proof {
                    lemma_views_push(names@, es@[k as int].1);
                }
                names.push(es[k].1.clone());
            }
            assert(views(names@) =~= names_from(ev.take(k + 1), p@));
            k += 1;
        }
        assert(ev.take(es@.len() as int) =~= ev);
        let sorted = sort_strings(&names);
        let mut l = String::from_str("import { ");
        l.append(join_strings(&sorted, ", ").as_str());
        l.append(" } from \"");
        l.append(p.as_str());
        l.append("\";");
        proof {
            lemma_views_push(lines@, l);
        }
        lines.push(l);
        assert(views(lines@) =~= import_lines(ps.take(j + 1), ev));
        j += 1;
    }
    assert(ps.take(paths@.len() as int) =~= ps);
    lines
}

/// The keys and names of beans.
fn key_name_pairs(es: &Vec<(String, String, String)>) -> (r: Vec<(String, String)>)
    ensures
        pair_seq(r@) == key_names(entry_views(es@)),
{
    let ghost ev = entry_views(es@);
    let mut pairs: Vec<(String, String)> = Vec::new();
    let mut i: usize = 0;
    while i < es.len()
        invariant
            i <= es@.len(),
            ev == entry_views(es@),
            pair_seq(pairs@) == key_names(ev.take(i as int)),
        decreases es@.len() - i,
    {
        let k = es[i].0.clone();
        let n = es[i].1.clone();
        let ghost before = pair_seq(pairs@);
        pairs.push((k, n));
        assert(pair_seq(pairs@) =~= before.push((ev[i as int].0, ev[i as int].1)));
        assert(ev.take(i + 1) =~= ev.take(i as int).push(ev[i as int]));
        assert(key_names(ev.take(i + 1)) =~= key_names(ev.take(i as int)).push((ev[i as int].0, ev[i as int].1)));
        i += 1;
    }
    assert(ev.take(es@.len() as int) =~= ev);
    pairs
}

/// The lines of dictionary entries; see `entry_lines`.
fn entry_line_texts(sorted: &Vec<(String, String)>) -> (r: Vec<String>)
    ensures
        views(r@) == entry_lines(pair_seq(sorted@)),
{
    let ghost sp = pair_seq(sorted@);
    let mut lines: Vec<String> = Vec::new();
    let mut j: usize = 0;
    while j < sorted.len()
        invariant
            j <= sorted@.len(),
            sp == pair_seq(sorted@),
            views(lines@) == entry_lines(sp.take(j as int)),
        decreases sorted@.len() - j,
    {
        let mut l = String::from_str("    \"");
        l.append(sorted[j].0.as_str());
        l.append("\": ");
        l.append(sorted[j].1.as_str());
        l.append(",");
        proof {
            lemma_views_push(lines@, l);
        }
        lines.push(l);
        assert(entry_lines(sp.take(j + 1)) =~= entry_lines(sp.take(j as int)).push(entry_line(sp[j as int])));
        j += 1;
    }
    assert(sp.take(sorted@.len() as int) =~= sp);
    lines
}

/// The content of a dictionary file; see `beans_content`.
fn beans_file_content(es: &Vec<(String, String, String)>, export_name: &str) -> (r: String)
    ensures
        r@ == beans_content(entry_views(es@), export_name@),
{
    let ghost ev = entry_views(es@);
    let mut lines = import_statements(es);
    let ghost il = views(lines@);
    if lines.len() > 0 {
        let extra = String::new();
        proof {
            lemma_views_push(lines@, extra);
        }
        lines.push(extra);
    }
    let mut head = String::from_str("export const ");
    head.append(export_name);
    head.append(" = {");
    proof {
        lemma_views_push(lines@, head);
    }
    lines.push(head);
    let pairs = key_name_pairs(es);
    let sorted = sort_pairs(&pairs);
    let entry_texts = entry_line_texts(&sorted);
    let ghost before = views(lines@);
    let mut j: usize = 0;
    while j < entry_texts.len()
        invariant
            j <= entry_texts@.len(),
            views(lines@) == before + views(entry_texts@).take(j as int),
        decreases entry_texts@.len() - j,
    {
        let l = entry_texts[j].clone();
        proof {
            lemma_views_push(lines@, l);
        }
        lines.push(l);
        assert(views(entry_texts@).take(j + 1) =~= views(entry_texts@).take(j as int).push(entry_texts@[j as int]@));
        j += 1;
    }
    assert(views(entry_texts@).take(entry_texts@.len() as int) =~= views(entry_texts@));
    let extra = String::from_str("} as const;");
    proof {
        lemma_views_push(lines@, extra);
    }
    lines.push(extra);
    assert(views(lines@) =~= il + (if il.len() > 0 {
        seq![Seq::<char>::empty()]
    } else {
        Seq::empty()
    }) + seq!["export const "@ + export_name@ + " = {"@] + entry_lines(key_names(ev).sort_by(pair_order()))
        + seq!["} as const;"@]);
    join_strings(&lines, "\n")
}

/// The content of the file that merges `k` chunks; see `main_lines`.
fn generate_main_file(k: usize) -> (r: String)
    ensures
        r@ == joined(main_lines(k as nat), "\n"@),
{
    let mut lines: Vec<String> = Vec::new();
    let mut i: usize = 0;
    while i < k
        invariant
            i <= k,
            views(lines@) == Seq::new(
                i as nat,
                |t: int|
                    "import { Beans_"@ + decimal((t + 1) as nat) + " } from \"./beans_"@ + decimal(
                        (t + 1) as nat,
                    ) + "\";"@,
            ),
        decreases k - i,
    {
        let n = usize_to_decimal(i + 1);
        let mut l = String::from_str("import { Beans_");
        l.append(n.as_str());
        l.append(" } from \"./beans_");
        l.append(n.as_str());
        l.append("\";");
        proof {
            lemma_views_push(lines@, l);
        }
        lines.push(l);
        assert(views(lines@) =~= Seq::new(
            (i + 1) as nat,
            |t: int|
                "import { Beans_"@ + decimal((t + 1) as nat) + " } from \"./beans_"@ + decimal((t + 1) as nat)
                    + "\";"@,
        ));
        i += 1;
    }
    let extra = String::new();
    proof {
        lemma_views_push(lines@, extra);
    }
    lines.push(extra);
    let extra = String::from_str("export const Beans = {");
    proof {
        lemma_views_push(lines@, extra);
    }
    lines.push(extra);
    let ghost before = views(lines@);
    let mut j: usize = 0;
    while j < k
        invariant
            j <= k,
            views(lines@) == before + Seq::new(j as nat, |t: int| "    ...Beans_"@ + decimal((t + 1) as nat) + ","@),
        decreases k - j,
    {
        let mut l = String::from_str("    ...Beans_");
        l.append(usize_to_decimal(j + 1).as_str());
        l.append(",");
        proof {
            lemma_views_push(lines@, l);
        }
        lines.push(l);
        assert(views(lines@) =~= before + Seq::new((j + 1) as nat, |t: int| "    ...Beans_"@ + decimal((t + 1) as nat) + ","@));
        j += 1;
    }
    let extra = String::from_str("} as const;");
    proof {
        lemma_views_push(lines@, extra);
    }
    lines.push(extra);
    assert(views(lines@) =~= main_lines(k as nat));
    join_strings(&lines, "\n")
}

impl<'a> BeansGenerator<'a> {
    /// The import resolver the generator was made with.
    pub closed spec fn resolver(&self) -> &'a ImportResolver {
        self.import_resolver
    }

    /// A generator that resolves imports with `import_resolver`.
    pub fn new(import_resolver: &'a ImportResolver) -> (g: Self)
        ensures
            g.resolver() == import_resolver,
    {
        BeansGenerator { import_resolver }
    }

    /// The module of a class: its own, else the default.
    pub fn get_module_name(&self, class: &ClassInfo, default_module: &str) -> (r: String)
        ensures
            r@ == bean_module(*class, default_module@),
    {
        match &class.module_name {
            Some(m) => m.clone(),
            None => String::from_str(default_module),
        }
    }

    /// The key of a class; see `bean_key`.
    pub fn get_bean_key(&self, class: &ClassInfo, default_module: &str) -> (r: String)
        ensures
            r@ == bean_key(*class, default_module@),
    {
        let module = self.get_module_name(class, default_module);
        qualify(module.as_str(), class.name.as_str())
    }

    /// The beans of a list of classes; see `pick_beans`.
    fn bean_entries(
        &self,
        all_classes: &[&ClassInfo],
        output_path: &str,
        default_module: &str,
    ) -> (r: Vec<(String, String, String)>)
        ensures
            entry_views(r@) == pick_beans(deref_classes(all_classes@), Seq::empty(), output_path@, default_module@),
    {
        let ghost cs = deref_classes(all_classes@);
        let mut entries: Vec<(String, String, String)> = Vec::new();
        let mut seen: Vec<String> = Vec::new();
        let mut i: usize = 0;
        assert(cs.skip(0) =~= cs);
        assert(views(seen@) =~= Seq::<Seq<char>>::empty());
        assert(entry_views(entries@) =~= Seq::<BeanEntry>::empty());
        while i < all_classes.len()
            invariant
                i <= all_classes@.len(),
                cs == deref_classes(all_classes@),
                pick_beans(cs, Seq::empty(), output_path@, default_module@) == entry_views(entries@)
                    + pick_beans(cs.skip(i as int), views(seen@), output_path@, default_module@),
            decreases all_classes@.len() - i,
        {
            let c: &ClassInfo = all_classes[i];
            assert(cs.skip(i as int)[0] == *c);
            assert(cs.skip(i as int).drop_first() =~= cs.skip(i + 1));
            if !c.is_interface && !contains_string(&seen, c.name.as_str()) {
                let ghost before = entry_views(entries@);
                let ghost old_seen = views(seen@);
                proof {
                    lemma_views_push(seen@, c.name);
                }
                seen.push(c.name.clone());
                assert(views(seen@) == old_seen.push(c.name@));
                let key = self.get_bean_key(c, default_module);
                let path = self.import_resolver.resolve(output_path, c.source_file.as_str());
                entries.push((key, c.name.clone(), path));
                assert(entry_views(entries@) =~= before.push(
                    (bean_key(*c, default_module@), c.name@, import_of(output_path@, c.source_file@)),
                ));
                assert(pick_beans(cs.skip(i as int), old_seen, output_path@, default_module@) == seq![
                    (bean_key(*c, default_module@), c.name@, import_of(output_path@, c.source_file@)),
                ] + pick_beans(cs.skip(i + 1), views(seen@), output_path@, default_module@));
                assert(entry_views(entries@) + pick_beans(cs.skip(i + 1), views(seen@), output_path@, default_module@)
                    =~= before + pick_beans(cs.skip(i as int), old_seen, output_path@, default_module@));
            }
            i += 1;
        }
        assert(cs.skip(all_classes@.len() as int) =~= Seq::<ClassInfo>::empty());
        assert(entry_views(entries@) =~= pick_beans(cs, Seq::empty(), output_path@, default_module@));
        entries
    }

    /// The files of the dictionary of beans; see `beans_files` and `pick_beans`.
    pub fn generate(&self, all_classes: &[&ClassInfo], output_path: &str, default_module: &str) -> (r: Vec<BeansFile>)
        ensures
            file_views(r@) == beans_files(
                pick_beans(deref_classes(all_classes@), Seq::empty(), output_path@, default_module@),
            ),
    {
        let entries = self.bean_entries(all_classes, output_path, default_module);
        let ghost ev = entry_views(entries@);
        if entries.len() <= MAX_IMPORTS_PER_FILE {
            let content = beans_file_content(&entries, "Beans");
            let r = vec![BeansFile { filename: String::from_str("beans.ts"), content }];
            assert(file_views(r@) =~= beans_files(ev));
            return r;
        }
        self.generate_split_files(&entries)
    }

    /// The chunk files and the merging file; see `beans_files`.
    fn generate_split_files(&self, entries: &Vec<(String, String, String)>) -> (r: Vec<BeansFile>)
        requires
            entries@.len() > 100,
        ensures
            file_views(r@) == beans_files(entry_views(entries@)),
    {
        let ghost ev = entry_views(entries@);
        let pairs = key_name_pairs(entries);
        let sorted_pairs = sort_pairs(&pairs);
        proof {
            crate::sort::lemma_pair_order_total();
            key_names(ev).lemma_sort_by_ensures(pair_order());
        }
        let sorted = entries_with_paths(&sorted_pairs, entries);
        let ghost sv = entry_views(sorted@);
        assert(sv == with_paths(key_names(ev).sort_by(pair_order()), ev));
        assert(sv.len() == ev.len()) by {
            vstd::seq_lib::to_multiset_len(key_names(ev).sort_by(pair_order()));
            vstd::seq_lib::to_multiset_len(key_names(ev));
        }
        let n = sorted.len();
        let k = chunks_of(n);
        let mut result: Vec<BeansFile> = Vec::new();
        let mut c: usize = 0;
        while c < k
            invariant
                c <= k,
                k as nat == chunk_count(n as nat),
                (k - 1) * 100 < n,
                n == sorted@.len(),
                sv == entry_views(sorted@),
                file_views(result@) == Seq::new(c as nat, |t: int| chunk_file(sv, t)),
            decreases k - c,
        {
            assert(c * 100 < n) by (nonlinear_arith)
                requires
                    c < k,
                    (k - 1) * 100 < n,
            ;
            let part = chunk_of(&sorted, c);
            let num = usize_to_decimal(c + 1);
            let mut filename = String::from_str("beans_");
            filename.append(num.as_str());
            filename.append(".ts");
            let mut export_name = String::from_str("Beans_");
            export_name.append(num.as_str());
            let content = beans_file_content(&part, export_name.as_str());
            let ghost before = file_views(result@);
            let f = BeansFile { filename, content };
            assert((f.filename@, f.content@) == chunk_file(sv, c as int));
            result.push(f);
            assert(file_views(result@) =~= before.push(chunk_file(sv, c as int)));
            assert(file_views(result@) =~= Seq::new((c + 1) as nat, |t: int| chunk_file(sv, t)));
            c += 1;
        }
        let main = generate_main_file(k);
        let ghost before = file_views(result@);
        result.push(BeansFile { filename: String::from_str("beans.ts"), content: main });
        assert(file_views(result@) =~= before.push(("beans.ts"@, joined(main_lines(k as nat), "\n"@))));
        assert(file_views(result@) =~= beans_files(ev));
        result
    }
}

/// The `i`-th chunk file (from 0).
pub open spec fn chunk_file(sv: Seq<BeanEntry>, t: int) -> (Seq<char>, Seq<char>) {
    (
        "beans_"@ + decimal((t + 1) as nat) + ".ts"@,
        beans_content(chunk(sv, t), "Beans_"@ + decimal((t + 1) as nat)),
    )
}

/// A copy of a bean entry.
fn copy_entry(e: &(String, String, String)) -> (r: (String, String, String))
    ensures
        r == *e,
{
    (e.0.clone(), e.1.clone(), e.2.clone())
}

/// The `c`-th chunk (from 0); see `chunk`.
fn chunk_of(sorted: &Vec<(String, String, String)>, c: usize) -> (r: Vec<(String, String, String)>)
    requires
        c * 100 < sorted@.len(),
    ensures
        entry_views(r@) == chunk(entry_views(sorted@), c as int),
{
    let n = sorted.len();
    let lo = c * 100;
    let hi = if n - lo > 100 {
        lo + 100
    } else {
        n
    };
    let mut part: Vec<(String, String, String)> = Vec::new();
    let mut t = lo;
    while t < hi
        invariant
            lo <= t <= hi <= n == sorted@.len(),
            entry_views(part@) == entry_views(sorted@).subrange(lo as int, t as int),
        decreases hi - t,
    {
        let ghost before = entry_views(part@);
        let e = copy_entry(&sorted[t]);
        part.push(e);
        assert(entry_views(part@) =~= before.push(entry_views(sorted@)[t as int]));
        assert(entry_views(part@) =~= entry_views(sorted@).subrange(lo as int, t + 1));
        t += 1;
    }
    part
}

/// Keys and names with the import path of each name; see `with_paths`.
fn entries_with_paths(sorted_pairs: &Vec<(String, String)>, entries: &Vec<(String, String, String)>) -> (r: Vec<(String, String, String)>)
    ensures
        entry_views(r@) == with_paths(pair_seq(sorted_pairs@), entry_views(entries@)),
{
    let ghost ev = entry_views(entries@);
    let mut sorted: Vec<(String, String, String)> = Vec::new();
    let mut j: usize = 0;
    while j < sorted_pairs.len()
        invariant
            j <= sorted_pairs@.len(),
            ev == entry_views(entries@),
            entry_views(sorted@) == with_paths(pair_seq(sorted_pairs@).take(j as int), ev),
        decreases sorted_pairs@.len() - j,
    {
        let key = sorted_pairs[j].0.clone();
        let name = sorted_pairs[j].1.clone();
        let path = path_for_name(entries, name.as_str());
        let ghost before = entry_views(sorted@);
        sorted.push((key, name, path));
        assert(entry_views(sorted@) =~= before.push((sorted_pairs@[j as int].0@, sorted_pairs@[j as int].1@, path_of_name(ev, sorted_pairs@[j as int].1@))));
        assert(entry_views(sorted@) =~= with_paths(pair_seq(sorted_pairs@).take(j + 1), ev));
        j += 1;
    }
    assert(pair_seq(sorted_pairs@).take(sorted_pairs@.len() as int) =~= pair_seq(sorted_pairs@));
    sorted
}

/// The import path of the first bean of a name; see `path_of_name`.
fn path_for_name(es: &Vec<(String, String, String)>, n: &str) -> (r: String)
    ensures
        r@ == path_of_name(entry_views(es@), n@),
{
    let ghost ev = entry_views(es@);
    let mut i: usize = 0;
    assert(ev.skip(0) =~= ev);
    while i < es.len()
        invariant
            i <= es@.len(),
            ev == entry_views(es@),
            path_of_name(ev, n@) == path_of_name(ev.skip(i as int), n@),
        decreases es@.len() - i,
    {
        assert(ev.skip(i as int)[0] == ev[i as int]);
        assert(ev.skip(i as int).drop_first() =~= ev.skip(i + 1));
        if str_eq(es[i].1.as_str(), n) {
            return es[i].2.clone();
        }
        i += 1;
    }
    String::new()
}

/// The number of chunks of `n` beans; see `chunk_count`.
fn chunks_of(n: usize) -> (k: usize)
    requires
        n > 100,
    ensures
        k as nat == chunk_count(n as nat),
        k >= 2,
        (k - 1) * 100 < n <= k * 100,
{
    let q: usize = n / 100;
    let m: usize = n % 100;
    let k: usize = if m == 0 {
        q
    } else {
        q + 1
    };
    assert(n == q * 100 + m && m < 100) by (nonlinear_arith)
        requires
            q == n / 100,
            m == n % 100,
    ;
    assert(k as nat == chunk_count(n as nat)) by (nonlinear_arith)
        requires
            n == q * 100 + m,
            m < 100,
            m == 0 ==> k == q,
            m != 0 ==> k == q + 1,
    ;
    k
}

} // verus!
