//! TypeScript generation: table type definitions and the dictionary of beans.

pub mod beans_gen;
pub mod import_resolver;
pub mod tables_simple_gen;

pub use beans_gen::{BeansFile, BeansGenerator};
pub use import_resolver::ImportResolver;
pub use tables_simple_gen::TablesSimpleGenerator;

use beans_gen::{bean_key, beans_files, deref_classes, file_views, pick_beans};
use tables_simple_gen::tables_content;
use crate::parser::ClassInfo;
use crate::paths::{join, path_join};
use crate::table_registry::TableRegistry;
use crate::tsconfig::TsConfig;
use vstd::prelude::*;

verus! {

/// The classes that have a configured table, by their key `module.Name`
/// (the default module for a class without one), in order.
pub open spec fn table_classes_of(cs: Seq<ClassInfo>, reg: &TableRegistry, dm: Seq<char>) -> Seq<ClassInfo>
    decreases cs.len(),
{
    if cs.len() == 0 {
        Seq::empty()
    } else {
        table_classes_of(cs.drop_last(), reg, dm) + if reg.tables_map().contains_key(bean_key(cs.last(), dm)) {
            seq![cs.last()]
        } else {
            Seq::empty()
        }
    }
}

/// The files generated into a directory: `tables.d.ts` for the table
/// classes, then the files of the dictionary of beans, each joined to the
/// directory.
pub open spec fn generated_files(out: Seq<char>, cs: Seq<ClassInfo>, reg: &TableRegistry, dm: Seq<char>) -> Seq<(Seq<char>, Seq<char>)> {
    let tables_path = path_join(out, "tables.d.ts"@);
    let beans = beans_files(pick_beans(cs, Seq::empty(), path_join(out, "beans.ts"@), dm));
    seq![(tables_path, tables_content(reg, table_classes_of(cs, reg, dm), tables_path, dm))]
        + beans.map_values(|f: (Seq<char>, Seq<char>)| (path_join(out, f.0), f.1))
}

/// Generates the TypeScript files of a project.
pub struct TsCodeGenerator<'a> {
    output_path: String,
    classes: Vec<ClassInfo>,
    import_resolver: ImportResolver,
    default_module_name: String,
    table_registry: &'a TableRegistry,
}

impl<'a> TsCodeGenerator<'a> {
    /// The output directory.
    pub closed spec fn out(&self) -> Seq<char> {
        self.output_path@
    }

    /// The classes.
    pub closed spec fn class_seq(&self) -> Seq<ClassInfo> {
        self.classes@
    }

    /// The default module.
    pub closed spec fn module(&self) -> Seq<char> {
        self.default_module_name@
    }

    /// The registry of tables.
    pub closed spec fn registry(&self) -> &'a TableRegistry {
        self.table_registry
    }

    /// A generator of the files of `classes` into `output_path`.
    pub fn new(
        output_path: String,
        _project_root: String,
        classes: Vec<ClassInfo>,
        tsconfig: &TsConfig,
        default_module_name: String,
        table_registry: &'a TableRegistry,
    ) -> (g: Self)
        ensures
            g.out() == output_path@,
            g.class_seq() == classes@,
            g.module() == default_module_name@,
            g.registry() == table_registry,
    {
        TsCodeGenerator {
            output_path,
            classes,
            import_resolver: ImportResolver::new(tsconfig),
            default_module_name,
            table_registry,
        }
    }

    /// The default module.
    pub fn get_default_module_name(&self) -> (r: &str)
        ensures
            r@ == self.module(),
    {
        self.default_module_name.as_str()
    }

    /// The files to write, each with its path and content; see
    /// `generated_files`.
    pub fn generate(&self) -> (r: Vec<(String, String)>)
        ensures
            r@.map_values(|f: (String, String)| (f.0@, f.1@)) == generated_files(
                self.out(),
                self.class_seq(),
                self.registry(),
                self.module(),
            ),
    {
        let ghost cs = self.classes@;
        let ghost dm = self.module();
        let mut table_classes: Vec<&ClassInfo> = Vec::new();
        let mut all_classes: Vec<&ClassInfo> = Vec::new();
        let mut i: usize = 0;
        while i < self.classes.len()
            invariant
                i <= cs.len(),
                cs == self.classes@,
                dm == self.module(),
                deref_classes(all_classes@) == cs.take(i as int),
                deref_classes(table_classes@) == table_classes_of(cs.take(i as int), self.registry(), dm),
                forall|j: int|
                    0 <= j < table_classes@.len() ==> self.registry().tables_map().contains_key(
                        #[trigger] bean_key(*table_classes@[j], dm),
                    ),
            decreases cs.len() - i,
        {
            let c = &self.classes[i];
            assert(cs.take(i + 1).drop_last() =~= cs.take(i as int));
            assert(cs.take(i + 1).last() == *c);
            let key = crate::xml_types::qualify(
                match &c.module_name {
                    Some(m) => m.as_str(),
                    None => self.default_module_name.as_str(),
                },
                c.name.as_str(),
            );
            assert(key@ == bean_key(*c, dm));
            let ghost before = deref_classes(table_classes@);
            if self.table_registry.has_table(key.as_str()) {
                table_classes.push(c);
                assert(deref_classes(table_classes@) =~= before.push(*c));
            }
            let ghost all_before = deref_classes(all_classes@);
            all_classes.push(c);
            assert(deref_classes(all_classes@) =~= all_before.push(*c));
            i += 1;
        }
        assert(cs.take(cs.len() as int) =~= cs);
        let tables_path = join(self.output_path.as_str(), "tables.d.ts");
        let tables_gen = TablesSimpleGenerator::new(&self.import_resolver, self.table_registry, self.default_module_name.as_str());
        let tables = tables_gen.generate(table_classes.as_slice(), tables_path.as_str());
        let beans_path = join(self.output_path.as_str(), "beans.ts");
        let beans_gen = BeansGenerator::new(&self.import_resolver);
        let files = beans_gen.generate(all_classes.as_slice(), beans_path.as_str(), self.default_module_name.as_str());
        let ghost fv = file_views(files@);
        let mut r: Vec<(String, String)> = Vec::new();
        r.push((tables_path, tables));
        let ghost first = r@.map_values(|f: (String, String)| (f.0@, f.1@));
        let mut k: usize = 0;
        while k < files.len()
            invariant
                k <= files@.len(),
                fv == file_views(files@),
                r@.map_values(|f: (String, String)| (f.0@, f.1@)) == first + fv.take(k as int).map_values(
                    |f: (Seq<char>, Seq<char>)| (path_join(self.out(), f.0), f.1),
                ),
            decreases files@.len() - k,
        {
            let p = join(self.output_path.as_str(), files[k].filename.as_str());
            let ghost before = r@.map_values(|f: (String, String)| (f.0@, f.1@));
            r.push((p, files[k].content.clone()));
            assert(r@.map_values(|f: (String, String)| (f.0@, f.1@)) =~= before.push((p@, files@[k as int].content@)));
            assert(fv.take(k + 1).map_values(|f: (Seq<char>, Seq<char>)| (path_join(self.out(), f.0), f.1))
                =~= fv.take(k as int).map_values(|f: (Seq<char>, Seq<char>)| (path_join(self.out(), f.0), f.1)).push(
                (path_join(self.out(), fv[k as int].0), fv[k as int].1),
            ));
            k += 1;
        }
        assert(fv.take(files@.len() as int) =~= fv);
        r
    }
}

} // verus!
