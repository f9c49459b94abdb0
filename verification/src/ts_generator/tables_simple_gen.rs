//! `tables.d.ts`: the type of each configured table, in an `AllTables`
//! interface.
use super::beans_gen::{BeanEntry, bean_key, deref_classes, entry_views, import_line, import_paths, names_from};
use super::import_resolver::{ImportResolver, import_of};
use crate::parser::{ClassInfo, FieldInfo};
use crate::sort::sorted_distinct;
use crate::table_registry::{ResolvedView, TableRegistry};
use crate::text::{contains_seq, joined, join_strings, lemma_joined_contains, lemma_views_push, str_eq, views};
use crate::xml_types::qualify;
use vstd::prelude::*;

verus! {

/// The original type of the first field of a name.
pub open spec fn first_original_type(fs: Seq<FieldInfo>, name: Seq<char>) -> Option<Seq<char>>
    decreases fs.len(),
{
    if fs.len() == 0 {
        None
    } else if fs[0].name@ == name {
        Some(fs[0].original_type@)
    } else {
        first_original_type(fs.drop_first(), name)
    }
}

/// The TypeScript type of a table's index: `string` when the index field's
/// original type is `string`, `number` otherwise or without such a field.
pub open spec fn index_ts_type(c: ClassInfo, index: Seq<char>) -> Seq<char> {
    match first_original_type(c.fields@, index) {
        Some(t) => if t == "string"@ {
            "string"@
        } else {
            "number"@
        },
        None => "number"@,
    }
}

/// The type of a table by its mode: `Map<K, T>` for `map`, `T[]` for
/// `list`, `T` for `one` and `singleton`, `Map<number, T>` otherwise.
pub open spec fn table_ts_type(c: ClassInfo, mode: Seq<char>, index: Seq<char>) -> Seq<char> {
    if mode == "map"@ {
        "Map<"@ + index_ts_type(c, index) + ", "@ + c.name@ + ">"@
    } else if mode == "list"@ {
        c.name@ + "[]"@
    } else if mode == "one"@ || mode == "singleton"@ {
        c.name@
    } else {
        "Map<number, "@ + c.name@ + ">"@
    }
}

/// The table classes with their name as imported: key, name, import path.
pub open spec fn table_entries(cs: Seq<ClassInfo>, out: Seq<char>, dm: Seq<char>) -> Seq<BeanEntry> {
    cs.map_values(|c: ClassInfo| (bean_key(c, dm), c.name@, import_of(out, c.source_file@)))
}

/// The import statements of the table classes, by path (sorted), the names
/// of each in class order.
pub open spec fn table_import_lines(es: Seq<BeanEntry>) -> Seq<Seq<char>> {
    import_paths(es).map_values(|p: Seq<char>| import_line(p, names_from(es, p)))
}

/// An import statement `import { N1, N2, .. } from "P";` from path `p`
/// whose names include `name`.
pub open spec fn imports_name_from(line: Seq<char>, name: Seq<char>, p: Seq<char>) -> bool {
    exists|names: Seq<Seq<char>>|
        #[trigger] names.contains(name) && line == "import { "@ + joined(names, ", "@) + " } from \""@ + p
            + "\";"@
}

/// The names gathered for a path include the name of each entry of that path.
proof fn lemma_names_from_contains(es: Seq<BeanEntry>, i: int)
    requires
        0 <= i < es.len(),
    ensures
        names_from(es, es[i].2).contains(es[i].1),
    decreases es.len(),
{
    let last = es.len() - 1;
    assert(es.last() == es[last]);
    if i < last {
        lemma_names_from_contains(es.drop_last(), i);
        assert(es.drop_last()[i] == es[i]);
        let p = es[i].2;
        let n = names_from(es.drop_last(), p);
        let k = choose|k: int| 0 <= k < n.len() && n[k] == es[i].1;
        assert(names_from(es, p)[k] == n[k]);
    } else {
        let n = names_from(es, es[i].2);
        assert(n[n.len() - 1] == es[i].1);
    }
}

/// Every table class is imported into `tables.d.ts`: among the import
/// statements there is one from the class's import path (relative to the
/// output file) that names the class.
pub proof fn law_table_classes_imported(cs: Seq<ClassInfo>, out: Seq<char>, dm: Seq<char>, i: int)
    requires
        0 <= i < cs.len(),
    ensures
        exists|j: int|
            0 <= j < table_import_lines(table_entries(cs, out, dm)).len() && imports_name_from(
                #[trigger] table_import_lines(table_entries(cs, out, dm))[j],
                cs[i].name@,
                import_of(out, cs[i].source_file@),
            ),
{
    let es = table_entries(cs, out, dm);
    let p = import_of(out, cs[i].source_file@);
    assert(es[i] == (bean_key(cs[i], dm), cs[i].name@, p));
    let paths = es.map_values(|e: BeanEntry| e.2);
    assert(paths[i] == p);
    crate::sort::lemma_sorted_items_exist(paths);
    let ps = import_paths(es);
    assert(paths.to_set().contains(p));
    assert(ps.to_set().contains(p));
    let j = choose|j: int| 0 <= j < ps.len() && ps[j] == p;
    lemma_names_from_contains(es, i);
    let names = names_from(es, p);
    let lines = table_import_lines(es);
    assert(lines[j] == import_line(p, names));
    assert(names.contains(cs[i].name@));
    assert(imports_name_from(lines[j], cs[i].name@, p));
}

/// Every table class is imported by `tables.d.ts`: its text holds an import
/// statement from the class's import path that names the class.
pub proof fn law_tables_file_imports(reg: &TableRegistry, cs: Seq<ClassInfo>, out: Seq<char>, dm: Seq<char>, i: int)
    requires
        0 <= i < cs.len(),
    ensures
        exists|l: Seq<char>|
            imports_name_from(l, cs[i].name@, import_of(out, cs[i].source_file@)) && #[trigger] contains_seq(
                tables_content(reg, cs, out, dm),
                l,
            ),
{
    law_table_classes_imported(cs, out, dm, i);
    let il = table_import_lines(table_entries(cs, out, dm));
    let j = choose|j: int|
        0 <= j < il.len() && imports_name_from(#[trigger] il[j], cs[i].name@, import_of(out, cs[i].source_file@));
    let all = il + (if il.len() > 0 {
        seq![Seq::<char>::empty()]
    } else {
        Seq::empty()
    }) + seq!["export interface AllTables {"@] + cs.map_values(|c: ClassInfo| table_member_line(reg, c, dm)) + seq![
        "}"@,
    ];
    assert(all[j] == il[j]);
    lemma_joined_contains(all, "\n"@, j);
    assert(tables_content(reg, cs, out, dm) == joined(all, "\n"@));
}

/// The member line of a table class.
pub open spec fn table_member_line(reg: &TableRegistry, c: ClassInfo, dm: Seq<char>) -> Seq<char> {
    let t = reg.tables_map()[bean_key(c, dm)];
    "    "@ + t.name + ": "@ + table_ts_type(c, t.mode, t.index) + ";"@
}

/// The content of `tables.d.ts`: the imports, an empty line when there are
/// any, and the `AllTables` interface with one member per table class.
pub open spec fn tables_content(reg: &TableRegistry, cs: Seq<ClassInfo>, out: Seq<char>, dm: Seq<char>) -> Seq<char> {
    let il = table_import_lines(table_entries(cs, out, dm));
    joined(
        il + (if il.len() > 0 {
            seq![Seq::<char>::empty()]
        } else {
            Seq::empty()
        }) + seq!["export interface AllTables {"@] + cs.map_values(
            |c: ClassInfo| table_member_line(reg, c, dm),
        ) + seq!["}"@],
        "\n"@,
    )
}

/// Generates `tables.d.ts`.
pub struct TablesSimpleGenerator<'a> {
    import_resolver: &'a ImportResolver,
    table_registry: &'a TableRegistry,
    default_module: String,
}

impl<'a> TablesSimpleGenerator<'a> {
    /// The registry of tables.
    pub closed spec fn registry(&self) -> &'a TableRegistry {
        self.table_registry
    }

    /// The default module.
    pub closed spec fn module(&self) -> Seq<char> {
        self.default_module@
    }

    /// A generator over a registry of tables.
    pub fn new(import_resolver: &'a ImportResolver, table_registry: &'a TableRegistry, default_module: &str) -> (g: Self)
        ensures
            g.registry() == table_registry,
            g.module() == default_module@,
    {
        TablesSimpleGenerator { import_resolver, table_registry, default_module: String::from_str(default_module) }
    }

    /// The TypeScript type of a table's index; see `index_ts_type`.
    pub fn get_index_field_ts_type(&self, class: &ClassInfo, index: &str) -> (r: &'static str)
        ensures
            r@ == index_ts_type(*class, index@),
    {
        let fs = &class.fields;
        let mut i: usize = 0;
        assert(fs@.skip(0) =~= fs@);
        while i < fs.len()
            invariant
                i <= fs@.len(),
                fs@ == class.fields@,
                first_original_type(fs@, index@) == first_original_type(fs@.skip(i as int), index@),
            decreases fs@.len() - i,
        {
            assert(fs@.skip(i as int)[0] == fs@[i as int]);
            assert(fs@.skip(i as int).drop_first() =~= fs@.skip(i + 1));
            if str_eq(fs[i].name.as_str(), index) {
                assert(first_original_type(fs@, index@) == Some(fs@[i as int].original_type@));
                if str_eq(fs[i].original_type.as_str(), "string") {
                    let r = "string";
                    assert(r@ == "string"@);
                    return r;
                }
                let r = "number";
                assert(r@ == "number"@);
                return r;
            }
            i += 1;
        }
        "number"
    }

    /// The type of a table by its mode; see `table_ts_type`.
    pub fn generate_table_type(&self, class: &ClassInfo, mode: &str, index: &str) -> (r: String)
        ensures
            r@ == table_ts_type(*class, mode@, index@),
    {
        let name = class.name.as_str();
        if str_eq(mode, "map") {
            let mut r = String::from_str("Map<");
            r.append(self.get_index_field_ts_type(class, index));
            r.append(", ");
            r.append(name);
            r.append(">");
            r
        } else if str_eq(mode, "list") {
            crate::text::concat2(name, "[]")
        } else if str_eq(mode, "one") || str_eq(mode, "singleton") {
            String::from_str(name)
        } else {
            crate::text::concat3("Map<number, ", name, ">")
        }
    }

    /// The content of `tables.d.ts` for table classes that all have a
    /// configured table; see `tables_content`.
    pub fn generate(&self, table_classes: &[&ClassInfo], output_path: &str) -> (r: String)
        requires
            forall|i: int|
                0 <= i < table_classes@.len() ==> self.registry().tables_map().contains_key(
                    #[trigger] bean_key(*table_classes@[i], self.module()),
                ),
        ensures
            r@ == tables_content(self.registry(), deref_classes(table_classes@), output_path@, self.module()),
    {
        let ghost cs = deref_classes(table_classes@);
        let ghost dm = self.module();
        let mut entries: Vec<(String, String, String)> = Vec::new();
        let mut i: usize = 0;
        while i < table_classes.len()
            invariant
                i <= table_classes@.len(),
                cs == deref_classes(table_classes@),
                dm == self.module(),
                entry_views(entries@) == table_entries(cs.take(i as int), output_path@, dm),
            decreases table_classes@.len() - i,
        {
            let c: &ClassInfo = table_classes[i];
            let key = qualify(
                match &c.module_name {
                    Some(m) => m.as_str(),
                    None => self.default_module.as_str(),
                },
                c.name.as_str(),
            );
            let path = self.import_resolver.resolve(output_path, c.source_file.as_str());
            let ghost before = entry_views(entries@);
            entries.push((key, c.name.clone(), path));
            assert(entry_views(entries@) =~= before.push((bean_key(*c, dm), c.name@, import_of(output_path@, c.source_file@))));
            assert(cs.take(i + 1) =~= cs.take(i as int).push(*c));
            assert(entry_views(entries@) =~= table_entries(cs.take(i + 1), output_path@, dm));
            i += 1;
        }
        assert(cs.take(table_classes@.len() as int) =~= cs);
        let ghost ev = entry_views(entries@);
        let mut lines = table_imports(&entries);
        let ghost il = views(lines@);
        if lines.len() > 0 {
            let e = String::new();
            proof {
                lemma_views_push(lines@, e);
            }
            lines.push(e);
        }
        let head = String::from_str("export interface AllTables {");
        proof {
            lemma_views_push(lines@, head);
        }
        lines.push(head);
        let ghost before = views(lines@);
        let mut j: usize = 0;
        while j < table_classes.len()
            invariant
                j <= table_classes@.len(),
                cs == deref_classes(table_classes@),
                dm == self.module(),
                forall|i: int|
                    0 <= i < table_classes@.len() ==> self.registry().tables_map().contains_key(
                        #[trigger] bean_key(*table_classes@[i], self.module()),
                    ),
                views(lines@) == before + cs.take(j as int).map_values(
                    |c: ClassInfo| table_member_line(self.registry(), c, dm),
                ),
            decreases table_classes@.len() - j,
        {
            let c: &ClassInfo = table_classes[j];
            let key = qualify(
                match &c.module_name {
                    Some(m) => m.as_str(),
                    None => self.default_module.as_str(),
                },
                c.name.as_str(),
            );
            assert(key@ == bean_key(*c, dm));
            let t = match self.table_registry.get_table(key.as_str()) {
                Some(t) => t,
                None => {
                    assert(false);
                    return String::new();
                },
            };
            let mut l = String::from_str("    ");
            l.append(t.name.as_str());
            l.append(": ");
            l.append(self.generate_table_type(c, t.mode.as_str(), t.index.as_str()).as_str());
            l.append(";");
            proof {
                lemma_views_push(lines@, l);
            }
            lines.push(l);
            assert(cs.take(j + 1) =~= cs.take(j as int).push(*c));
            assert(views(lines@) =~= before + cs.take(j + 1).map_values(
                |c: ClassInfo| table_member_line(self.registry(), c, dm),
            ));
            j += 1;
        }
        assert(cs.take(table_classes@.len() as int) =~= cs);
        let close = String::from_str("}");
        proof {
            lemma_views_push(lines@, close);
        }
        lines.push(close);
        assert(views(lines@) =~= il + (if il.len() > 0 {
            seq![Seq::<char>::empty()]
        } else {
            Seq::empty()
        }) + seq!["export interface AllTables {"@] + cs.map_values(
            |c: ClassInfo| table_member_line(self.registry(), c, dm),
        ) + seq!["}"@]);
        join_strings(&lines, "\n")
    }
}

/// The import statements of the table classes; see `table_import_lines`.
fn table_imports(es: &Vec<(String, String, String)>) -> (r: Vec<String>)
    ensures
        views(r@) == table_import_lines(entry_views(es@)),
{
    let ghost ev = entry_views(es@);
    let mut all_paths: Vec<String> = Vec::new();
    let mut i: usize = 0;
    while i < es.len()
        invariant
            i <= es@.len(),
            ev == entry_views(es@),
            views(all_paths@) == ev.take(i as int).map_values(|e: BeanEntry| e.2),
        decreases es@.len() - i,
    {
        proof {
            lemma_views_push(all_paths@, es@[i as int].2);
        }
        all_paths.push(es[i].2.clone());
        assert(ev.take(i + 1).map_values(|e: BeanEntry| e.2) =~= ev.take(i as int).map_values(|e: BeanEntry| e.2).push(ev[i as int].2));
        i += 1;
    }
    assert(ev.take(es@.len() as int) =~= ev);
    let paths = sorted_distinct(&all_paths);
    let ghost ps = views(paths@);
    let mut lines: Vec<String> = Vec::new();
    let mut j: usize = 0;
    while j < paths.len()
        invariant
            j <= paths@.len(),
            ev == entry_views(es@),
            ps == views(paths@),
            ps == import_paths(ev),
            views(lines@) == ps.take(j as int).map_values(|p: Seq<char>| import_line(p, names_from(ev, p))),
        decreases paths@.len() - j,
    {
        let p = &paths[j];
        let mut names: Vec<String> = Vec::new();
        let mut k: usize = 0;
        while k < es.len()
            invariant
                k <= es@.len(),
                ev == entry_views(es@),
                views(names@) == names_from(ev.take(k as int), p@),
            decreases es@.len() - k,
        {
            assert(ev.take(k + 1).drop_last() =~= ev.take(k as int));
            if str_eq(es[k].2.as_str(), p.as_str()) {
                proof {
                    lemma_views_push(names@, es@[k as int].1);
                }
                names.push(es[k].1.clone());
            }
            assert(views(names@) =~= names_from(ev.take(k + 1), p@));
            k += 1;
        }
        assert(ev.take(es@.len() as int) =~= ev);
        let mut l = String::from_str("import { ");
        l.append(join_strings(&names, ", ").as_str());
        l.append(" } from \"");
        l.append(p.as_str());
        l.append("\";");
        proof {
            lemma_views_push(lines@, l);
        }
        lines.push(l);
        assert(views(lines@) =~= ps.take(j + 1).map_values(|p: Seq<char>| import_line(p, names_from(ev, p))));
        j += 1;
    }
    assert(ps.take(paths@.len() as int) =~= ps);
    lines
}

} // verus!
