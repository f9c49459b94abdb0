//! The registry of tables configured in `[tables]`, used to resolve references.
use crate::assoc::{StrTable, has_key, key_index, keys_distinct, entry_keys};
use crate::config::{TableConfig, opt_view};
use crate::parser::ClassInfo;
use crate::text::{chars_of, concat2, concat3, has_char, last_index, rfind_char, slice_to_vec, string_of};
use crate::type_mapper::{TypeMapper, map_full};
use vstd::prelude::*;

verus! {

/// A table configuration with all defaults applied.
#[derive(Debug, Clone)]
pub struct ResolvedTableConfig {
    /// Full bean name with module prefix, e.g. `role.RoleConfig`.
    pub bean: String,
    /// Table name, e.g. `RoleConfigTable`.
    pub name: String,
    pub input: String,
    /// `map`, `list`, `one` or `singleton`.
    pub mode: String,
    pub index: String,
    /// Luban type of the index field, once known.
    pub index_type: Option<String>,
    pub module: String,
    /// Class name without the module.
    pub class_name: String,
}

/// The view of a resolved table configuration.
pub struct ResolvedView {
    pub bean: Seq<char>,
    pub name: Seq<char>,
    pub input: Seq<char>,
    pub mode: Seq<char>,
    pub index: Seq<char>,
    pub index_type: Option<Seq<char>>,
    pub module: Seq<char>,
    pub class_name: Seq<char>,
}

impl View for ResolvedTableConfig {
    type V = ResolvedView;

    open spec fn view(&self) -> ResolvedView {
        ResolvedView {
            bean: self.bean@,
            name: self.name@,
            input: self.input@,
            mode: self.mode@,
            index: self.index@,
            index_type: opt_view(self.index_type),
            module: self.module@,
            class_name: self.class_name@,
        }
    }
}

/// A table as `@Ref` sees it, keyed by class name.
#[derive(Debug, Clone)]
pub struct TableEntry {
    pub namespace: String,
    pub bean_name: String,
    pub table_name: String,
    /// `namespace.TableName`, or the table name alone without a namespace.
    pub full_table_ref: String,
    pub index_type: Option<String>,
}

/// The view of a table entry.
pub struct TableEntryView {
    pub namespace: Seq<char>,
    pub bean_name: Seq<char>,
    pub table_name: Seq<char>,
    pub full_table_ref: Seq<char>,
    pub index_type: Option<Seq<char>>,
}

impl View for TableEntry {
    type V = TableEntryView;

    open spec fn view(&self) -> TableEntryView {
        TableEntryView {
            namespace: self.namespace@,
            bean_name: self.bean_name@,
            table_name: self.table_name@,
            full_table_ref: self.full_table_ref@,
            index_type: opt_view(self.index_type),
        }
    }
}

/// The module of `module.ClassName`: what precedes the last dot (empty without one).
pub open spec fn module_of(full: Seq<char>) -> Seq<char> {
    if has_char(full, '.') {
        full.take(last_index(full, '.'))
    } else {
        Seq::empty()
    }
}

/// The class of `module.ClassName`: what follows the last dot (all of it without one).
pub open spec fn class_of(full: Seq<char>) -> Seq<char> {
    if has_char(full, '.') {
        full.skip(last_index(full, '.') + 1)
    } else {
        full
    }
}

/// The table name: the configured one, else the class name followed by `Table`.
pub open spec fn table_name_for(cfg: TableConfig, class: Seq<char>) -> Seq<char> {
    match cfg.name_view() {
        Some(n) => n,
        None => class + "Table"@,
    }
}

/// `module.name`, or `name` alone when the module is empty.
pub open spec fn qualified(module: Seq<char>, name: Seq<char>) -> Seq<char> {
    if module.len() == 0 {
        name
    } else {
        module + "."@ + name
    }
}

/// The resolved configuration of table `full` configured by `cfg`.
pub open spec fn resolved_of(full: Seq<char>, cfg: TableConfig) -> ResolvedView {
    ResolvedView {
        bean: full,
        name: table_name_for(cfg, class_of(full)),
        input: cfg.input_view(),
        mode: cfg.mode_view(),
        index: cfg.index_view(),
        index_type: None,
        module: module_of(full),
        class_name: class_of(full),
    }
}

/// The `@Ref` entry of table `full` configured by `cfg`.
pub open spec fn entry_of(full: Seq<char>, cfg: TableConfig) -> TableEntryView {
    TableEntryView {
        namespace: module_of(full),
        bean_name: class_of(full),
        table_name: table_name_for(cfg, class_of(full)),
        full_table_ref: qualified(module_of(full), table_name_for(cfg, class_of(full))),
        index_type: None,
    }
}

/// The tables of a `[tables]` list, by full name; a later entry with the same
/// name replaces an earlier one.
pub open spec fn tables_from(s: Seq<(String, TableConfig)>) -> Map<Seq<char>, ResolvedView>
    decreases s.len(),
{
    if s.len() == 0 {
        Map::empty()
    } else {
        tables_from(s.drop_last()).insert(s.last().0@, resolved_of(s.last().0@, s.last().1))
    }
}

/// The `@Ref` entries of a `[tables]` list, by class name; a later table with
/// the same class name replaces an earlier one.
pub open spec fn entries_from(s: Seq<(String, TableConfig)>) -> Map<Seq<char>, TableEntryView>
    decreases s.len(),
{
    if s.len() == 0 {
        Map::empty()
    } else {
        entries_from(s.drop_last()).insert(class_of(s.last().0@), entry_of(s.last().0@, s.last().1))
    }
}

/// The `@Ref` entry that `register` makes for a class in a namespace.
pub open spec fn registered_entry(class_name: Seq<char>, namespace: Seq<char>) -> TableEntryView {
    TableEntryView {
        namespace: namespace,
        bean_name: class_name,
        table_name: class_name + "Table"@,
        full_table_ref: qualified(namespace, class_name + "Table"@),
        index_type: None,
    }
}

/// The full names of a `[tables]` list, each once, in order of first
/// appearance.
pub open spec fn configured_keys(s: Seq<(String, TableConfig)>) -> Seq<Seq<char>>
    decreases s.len(),
{
    if s.len() == 0 {
        Seq::empty()
    } else {
        let p = configured_keys(s.drop_last());
        if p.contains(s.last().0@) {
            p
        } else {
            p.push(s.last().0@)
        }
    }
}

/// The configured full names hold each name once, and exactly the names of
/// the list.
pub proof fn lemma_configured_keys(s: Seq<(String, TableConfig)>)
    ensures
        configured_keys(s).no_duplicates(),
        forall|k: Seq<char>|
            #[trigger] configured_keys(s).contains(k) <==> exists|i: int| 0 <= i < s.len() && s[i].0@ == k,
    decreases s.len(),
{
    if s.len() > 0 {
        let t = s.drop_last();
        lemma_configured_keys(t);
        let p = configured_keys(t);
        let last = s.len() - 1;
        assert(s.last() == s[last]);
        assert forall|k: Seq<char>|
            #[trigger] configured_keys(s).contains(k) <==> exists|i: int| 0 <= i < s.len() && s[i].0@ == k by {
            if configured_keys(s).contains(k) {
                if p.contains(k) {
                    let i = choose|i: int| 0 <= i < t.len() && t[i].0@ == k;
                    assert(s[i] == t[i]);
                } else {
                    assert(k == s[last].0@);
                }
            }
            if exists|i: int| 0 <= i < s.len() && s[i].0@ == k {
                let i = choose|i: int| 0 <= i < s.len() && s[i].0@ == k;
                if i < last {
                    assert(t[i] == s[i]);
                    assert(p.contains(k));
                    if !p.contains(s.last().0@) {
                        assert(p.push(s.last().0@)[p.index_of(k)] == k);
                    }
                } else if !p.contains(s.last().0@) {
                    assert(p.push(s.last().0@)[p.len() as int] == k);
                }
            }
        }
    }
}

/// The keys that are not among `existing`, in order.
pub open spec fn missing_keys(keys: Seq<Seq<char>>, existing: Seq<Seq<char>>) -> Seq<Seq<char>> {
    keys.filter(|k: Seq<char>| !existing.contains(k))
}

/// The keys missing from `existing`, taken from distinct keys, are distinct,
/// and are exactly the keys that are not among `existing`.
pub proof fn lemma_missing_keys(keys: Seq<Seq<char>>, existing: Seq<Seq<char>>)
    requires
        keys.no_duplicates(),
    ensures
        missing_keys(keys, existing).no_duplicates(),
        forall|k: Seq<char>|
            #[trigger] missing_keys(keys, existing).contains(k) <==> keys.contains(k) && !existing.contains(k),
{
    let pred = |k: Seq<char>| !existing.contains(k);
    lemma_filter_no_dup(keys, pred);
    keys.filter_lemma(pred);
    assert forall|k: Seq<char>|
        #[trigger] keys.filter(pred).contains(k) <==> keys.contains(k) && !existing.contains(k) by {
        if keys.filter(pred).contains(k) {
            let j = choose|j: int| 0 <= j < keys.filter(pred).len() && keys.filter(pred)[j] == k;
            assert(pred(keys.filter(pred)[j]));
            lemma_filter_subset(keys, pred, j);
        }
        if keys.contains(k) && !existing.contains(k) {
            let j = choose|j: int| 0 <= j < keys.len() && keys[j] == k;
            assert(pred(keys[j]));
        }
    }
}

/// The tables that a generation run reports as missing: those of the
/// `[tables]` list whose full name is not among the existing beans, each once,
/// and no others.
pub proof fn law_missing_beans(s: Seq<(String, TableConfig)>, existing: Seq<Seq<char>>)
    ensures
        missing_keys(configured_keys(s), existing).no_duplicates(),
        forall|k: Seq<char>|
            #[trigger] missing_keys(configured_keys(s), existing).contains(k) <==> (exists|i: int|
                0 <= i < s.len() && s[i].0@ == k) && !existing.contains(k),
{
    lemma_configured_keys(s);
    lemma_missing_keys(configured_keys(s), existing);
}

proof fn lemma_filter_subset(s: Seq<Seq<char>>, pred: spec_fn(Seq<char>) -> bool, j: int)
    requires
        0 <= j < s.filter(pred).len(),
    ensures
        s.contains(s.filter(pred)[j]),
    decreases s.len(),
{
    reveal_with_fuel(Seq::<Seq<char>>::filter, 1);
    if s.len() > 0 {
        let t = s.drop_last();
        assert(s =~= t.push(s.last()));
        if pred(s.last()) && j == s.filter(pred).len() - 1 {
            assert(s[s.len() - 1] == s.last());
        } else {
            lemma_filter_subset(t, pred, j);
            let e = t.filter(pred)[j];
            let i = choose|i: int| 0 <= i < t.len() && t[i] == e;
            assert(s[i] == t[i]);
        }
    }
}

proof fn lemma_filter_no_dup(s: Seq<Seq<char>>, pred: spec_fn(Seq<char>) -> bool)
    requires
        s.no_duplicates(),
    ensures
        s.filter(pred).no_duplicates(),
    decreases s.len(),
{
    reveal_with_fuel(Seq::<Seq<char>>::filter, 1);
    if s.len() > 0 {
        let t = s.drop_last();
        assert(s =~= t.push(s.last()));
        assert(t.no_duplicates()) by {
            assert forall|a: int, b: int| 0 <= a < t.len() && 0 <= b < t.len() && a != b implies t[a] != t[b] by {
                assert(t[a] == s[a] && t[b] == s[b]);
            }
        }
        lemma_filter_no_dup(t, pred);
        if pred(s.last()) {
            let f = t.filter(pred);
            assert forall|a: int, b: int|
                0 <= a < f.push(s.last()).len() && 0 <= b < f.push(s.last()).len() && a != b implies f.push(
                s.last(),
            )[a] != f.push(s.last())[b] by {
                if a == f.len() || b == f.len() {
                    let o = if a == f.len() { b } else { a };
                    lemma_filter_subset(t, pred, o);
                    let i = choose|i: int| 0 <= i < t.len() && t[i] == f[o];
                    assert(s[i] == t[i]);
                    assert(s[s.len() - 1] == s.last());
                }
            }
        }
    }
}

/// After `register(class_name, namespace)` the class is a table, and its
/// `@Ref` resolves to `namespace.ClassNameTable` (or `ClassNameTable` alone in
/// the empty namespace).
pub proof fn law_register_then_resolve(
    before: Map<Seq<char>, TableEntryView>,
    after: Map<Seq<char>, TableEntryView>,
    class_name: Seq<char>,
    namespace: Seq<char>,
)
    requires
        after == before.insert(class_name, registered_entry(class_name, namespace)),
    ensures
        after.contains_key(class_name),
        after[class_name].full_table_ref == qualified(namespace, class_name + "Table"@),
        namespace.len() > 0 ==> after[class_name].full_table_ref == namespace + "."@ + class_name
            + "Table"@,
        forall|k: Seq<char>| k != class_name ==> after.get(k) == before.get(k),
{
}

/// A configured table is found under its full name, and, unless a later
/// table has the same class name, its class resolves to the reference
/// `module.TableName` made of the full name's module and the table's name.
pub proof fn law_configured_table_resolves(s: Seq<(String, TableConfig)>, i: int)
    requires
        0 <= i < s.len(),
        forall|j: int| i < j < s.len() ==> class_of(#[trigger] s[j].0@) != class_of(s[i].0@),
    ensures
        entries_from(s).contains_key(class_of(s[i].0@)),
        entries_from(s)[class_of(s[i].0@)].full_table_ref == qualified(
            module_of(s[i].0@),
            table_name_for(s[i].1, class_of(s[i].0@)),
        ),
        tables_from(s).contains_key(s[i].0@),
    decreases s.len(),
{
    if i < s.len() - 1 {
        law_configured_table_resolves(s.drop_last(), i);
        assert(s.drop_last()[i] == s[i]);
        assert(s.last() == s[s.len() - 1]);
    }
}

/// What `from_config` makes of a `[tables]` list, for a full name `k`: `k` is
/// a table exactly when it is in the list; then its class has a `@Ref` entry,
/// and its table, as the last list entry under `k` configures it, is
/// `resolved_of(k, ..)`: bean `k`, the module before the last dot of `k` and
/// the class after it, the configured table name (else the class followed by
/// `Table`), the configured input, mode and index, and no index type yet.
pub proof fn law_from_config(s: Seq<(String, TableConfig)>, k: Seq<char>)
    ensures
        tables_from(s).contains_key(k) <==> exists|i: int| 0 <= i < s.len() && #[trigger] s[i].0@ == k,
        tables_from(s).contains_key(k) ==> entries_from(s).contains_key(class_of(k)),
        forall|i: int|
            0 <= i < s.len() && #[trigger] s[i].0@ == k && (forall|j: int| i < j < s.len() ==> s[j].0@ != k)
                ==> tables_from(s)[k] == resolved_of(k, s[i].1),
    decreases s.len(),
{
    if s.len() > 0 {
        let t = s.drop_last();
        let last = s.len() - 1;
        law_from_config(t, k);
        assert(s.last() == s[last]);
        assert forall|i: int| 0 <= i < t.len() implies t[i] == s[i] by {}
        if exists|i: int| 0 <= i < s.len() && #[trigger] s[i].0@ == k {
            let i = choose|i: int| 0 <= i < s.len() && #[trigger] s[i].0@ == k;
            if i < last {
                assert(t[i].0@ == k);
            }
        }
        if tables_from(t).contains_key(k) {
            let i = choose|i: int| 0 <= i < t.len() && #[trigger] t[i].0@ == k;
            assert(s[i].0@ == k);
        }
        assert forall|i: int|
            0 <= i < s.len() && #[trigger] s[i].0@ == k && (forall|j: int| i < j < s.len() ==> s[j].0@ != k)
                implies tables_from(s)[k] == resolved_of(k, s[i].1) by {
            if i < last {
                assert(s[last].0@ != k);
                assert(t[i].0@ == k);
                assert forall|j: int| i < j < t.len() implies t[j].0@ != k by {
                    assert(t[j] == s[j]);
                }
            }
        }
    }
}

/// The table found for a class: when `k` is a full name, its table; else,
/// when some table has class `k`, the first such table in registry order;
/// else none.
pub proof fn law_table_by_class(reg: &TableRegistry, k: Seq<char>)
    ensures
        reg.tables_map().contains_key(k) ==> table_by_class(reg, k) == Some(reg.tables_map()[k]),
        !reg.tables_map().contains_key(k) && (exists|i: int|
            0 <= i < reg.table_seq().len() && #[trigger] reg.table_seq()[i].class_name == k) ==> exists|i: int|
            is_first_of_class(reg.table_seq(), k, i) && table_by_class(reg, k) == Some(
                #[trigger] reg.table_seq()[i],
            ),
        !reg.tables_map().contains_key(k) && !(exists|i: int|
            0 <= i < reg.table_seq().len() && #[trigger] reg.table_seq()[i].class_name == k) ==> table_by_class(
            reg,
            k,
        ) is None,
{
    let ts = reg.table_seq();
    if !reg.tables_map().contains_key(k) && exists|i: int| 0 <= i < ts.len() && #[trigger] ts[i].class_name == k {
        let i = choose|i: int| 0 <= i < ts.len() && #[trigger] ts[i].class_name == k;
        lemma_first_of_class_exists(ts, k, i);
        let f = choose|f: int| is_first_of_class(ts, k, f);
        assert(is_first_of_class(ts, k, f));
    }
}

/// Some table of class `k` comes first.
proof fn lemma_first_of_class_exists(ts: Seq<ResolvedView>, k: Seq<char>, i: int)
    requires
        0 <= i < ts.len(),
        ts[i].class_name == k,
    ensures
        exists|f: int| is_first_of_class(ts, k, f),
    decreases i,
{
    if exists|j: int| 0 <= j < i && #[trigger] ts[j].class_name == k {
        let j = choose|j: int| 0 <= j < i && #[trigger] ts[j].class_name == k;
        lemma_first_of_class_exists(ts, k, j);
    } else {
        assert(is_first_of_class(ts, k, i));
    }
}

/// Every `@Ref` entry of a `[tables]` list belongs to a configured table: its
/// class is the class of some full name in the list, and it reads
/// `module.TableName`, made of that full name's module and that table's name.
pub proof fn law_every_entry_configured(s: Seq<(String, TableConfig)>, k: Seq<char>)
    requires
        entries_from(s).contains_key(k),
    ensures
        exists|i: int|
            0 <= i < s.len() && class_of(#[trigger] s[i].0@) == k && entries_from(s)[k].full_table_ref
                == qualified(module_of(s[i].0@), table_name_for(s[i].1, k)),
    decreases s.len(),
{
    let last = s.len() - 1;
    assert(s.last() == s[last]);
    if class_of(s[last].0@) != k {
        law_every_entry_configured(s.drop_last(), k);
        let i = choose|i: int|
            0 <= i < s.drop_last().len() && class_of(#[trigger] s.drop_last()[i].0@) == k
                && entries_from(s.drop_last())[k].full_table_ref == qualified(
                module_of(s.drop_last()[i].0@),
                table_name_for(s.drop_last()[i].1, k),
            );
        assert(s.drop_last()[i] == s[i]);
    }
}

/// Some class has this name.
pub open spec fn has_class(classes: Seq<ClassInfo>, name: Seq<char>) -> bool {
    exists|i: int| 0 <= i < classes.len() && classes[i].name@ == name
}

/// `i` is the last class with this name.
pub open spec fn is_last_class(classes: Seq<ClassInfo>, name: Seq<char>, i: int) -> bool {
    0 <= i < classes.len() && classes[i].name@ == name && forall|j: int|
        i < j < classes.len() ==> classes[j].name@ != name
}

/// The last class with this name (when there is one).
pub open spec fn last_class(classes: Seq<ClassInfo>, name: Seq<char>) -> ClassInfo {
    classes[choose|i: int| is_last_class(classes, name, i)]
}

/// Some field of `c` has this name.
pub open spec fn has_field(c: ClassInfo, name: Seq<char>) -> bool {
    exists|j: int| 0 <= j < c.fields@.len() && c.fields@[j].name@ == name
}

/// `j` is the first field of `c` with this name.
pub open spec fn is_first_field(c: ClassInfo, name: Seq<char>, j: int) -> bool {
    0 <= j < c.fields@.len() && c.fields@[j].name@ == name && forall|k: int|
        0 <= k < j ==> c.fields@[k].name@ != name
}

/// The type of the first field of `c` with this name (when there is one).
pub open spec fn first_field_type(c: ClassInfo, name: Seq<char>) -> Seq<char> {
    c.fields@[choose|j: int| is_first_field(c, name, j)].field_type@
}

/// The Luban type of a table's index field: the type of the first field named
/// like the index in the last class named like the table's class, mapped; none
/// when there is no such class or field.
pub open spec fn index_type_of(
    classes: Seq<ClassInfo>,
    mapper: Map<Seq<char>, Seq<char>>,
    class_name: Seq<char>,
    index: Seq<char>,
) -> Option<Seq<char>> {
    if has_class(classes, class_name) && has_field(last_class(classes, class_name), index) {
        Some(map_full(mapper, first_field_type(last_class(classes, class_name), index)))
    } else {
        None
    }
}

/// The entries after the index types of the tables `ts` (in order) have been
/// recorded: a table whose index type is known sets it on the entry of its
/// class, when that entry exists.
pub open spec fn entries_with_index_types(
    entries: Map<Seq<char>, TableEntryView>,
    ts: Seq<ResolvedView>,
    classes: Seq<ClassInfo>,
    mapper: Map<Seq<char>, Seq<char>>,
) -> Map<Seq<char>, TableEntryView>
    decreases ts.len(),
{
    if ts.len() == 0 {
        entries
    } else {
        let prev = entries_with_index_types(entries, ts.drop_last(), classes, mapper);
        let t = ts.last();
        match index_type_of(classes, mapper, t.class_name, t.index) {
            Some(it) => if prev.contains_key(t.class_name) {
                prev.insert(t.class_name, TableEntryView { index_type: Some(it), ..prev[t.class_name] })
            } else {
                prev
            },
            None => prev,
        }
    }
}

/// The table configurations in registry order.
pub open spec fn table_views(s: Seq<(String, ResolvedTableConfig)>) -> Seq<ResolvedView> {
    s.map_values(|e: (String, ResolvedTableConfig)| e.1@)
}

/// A table with its index type set, when one is known.
pub open spec fn with_index_type(t: ResolvedView, it: Option<Seq<char>>) -> ResolvedView {
    match it {
        Some(x) => ResolvedView { index_type: Some(x), ..t },
        None => t,
    }
}

/// The index type that `set_index_types` finds for a table.
pub open spec fn table_index_type(
    classes: Seq<ClassInfo>,
    mapper: Map<Seq<char>, Seq<char>>,
    t: ResolvedView,
) -> Option<Seq<char>> {
    index_type_of(classes, mapper, t.class_name, t.index)
}

/// The Luban type of the index field of `class_name`'s table, if the class and
/// the field are there.
fn find_index_type(classes: &Vec<ClassInfo>, type_mapper: &TypeMapper, class_name: &str, index: &str) -> (r: Option<String>)
    ensures
        opt_view(r) == index_type_of(classes@, type_mapper@, class_name@, index@),
{
    let mut found: Option<usize> = None;
    let mut i: usize = 0;
    while i < classes.len()
        invariant
            i <= classes.len(),
            found.is_none() ==> forall|j: int| 0 <= j < i ==> classes@[j].name@ != class_name@,
            found matches Some(f) ==> f < i && classes@[f as int].name@ == class_name@ && forall|j: int|
                f < j < i ==> classes@[j].name@ != class_name@,
        decreases classes.len() - i,
    {
        if crate::text::str_eq(classes[i].name.as_str(), class_name) {
            found = Some(i);
        }
        i += 1;
    }
    match found {
        None => None,
        Some(f) => {
            let c = &classes[f];
            proof {
                assert(is_last_class(classes@, class_name@, f as int));
                let k = choose|k: int| is_last_class(classes@, class_name@, k);
                assert(is_last_class(classes@, class_name@, k));
                if k < f {
                    assert(classes@[f as int].name@ != class_name@);
                }
                if f < k {
                    assert(classes@[k].name@ != class_name@);
                }
                assert(last_class(classes@, class_name@) == *c);
                assert(has_class(classes@, class_name@));
            }
            let mut j: usize = 0;
            while j < c.fields.len()
                invariant
                    j <= c.fields.len(),
                    forall|q: int| 0 <= q < j ==> c.fields@[q].name@ != index@,
                    has_class(classes@, class_name@),
                    last_class(classes@, class_name@) == *c,
                decreases c.fields.len() - j,
            {
                if crate::text::str_eq(c.fields[j].name.as_str(), index) {
                    proof {
                        assert(is_first_field(*c, index@, j as int));
                        assert(has_field(*c, index@));
                        let k = choose|k: int| is_first_field(*c, index@, k);
                        assert(is_first_field(*c, index@, k));
                        assert(k == j) by {
                            if k < j {
                                assert(c.fields@[k].name@ != index@);
                            }
                            if j < k {
                                assert(c.fields@[j as int].name@ != index@);
                            }
                        }
                        assert(first_field_type(*c, index@) == c.fields@[j as int].field_type@);
                    }
                    return Some(type_mapper.map_full_type(c.fields[j].field_type.as_str()));
                }
                j += 1;
            }
            None
        },
    }
}

pub fn clone_opt(o: &Option<String>) -> (r: Option<String>)
    ensures
        opt_view(r) == opt_view(*o),
{
    match o {
        Some(s) => Some(s.clone()),
        None => None,
    }
}

/// `i` is the first table whose class is `k`.
pub open spec fn is_first_of_class(ts: Seq<ResolvedView>, k: Seq<char>, i: int) -> bool {
    0 <= i < ts.len() && ts[i].class_name == k && forall|j: int| 0 <= j < i ==> ts[j].class_name != k
}

/// The view of an optional table configuration.
pub open spec fn resolved_opt_view(o: Option<&ResolvedTableConfig>) -> Option<ResolvedView> {
    match o {
        Some(t) => Some(t@),
        None => None,
    }
}

/// The table found for a class: the table whose full bean name is the name
/// itself, else the first table of that class in registry order.
pub open spec fn table_by_class(reg: &TableRegistry, k: Seq<char>) -> Option<ResolvedView> {
    if reg.tables_map().contains_key(k) {
        Some(reg.tables_map()[k])
    } else if exists|i: int| 0 <= i < reg.table_seq().len() && reg.table_seq()[i].class_name == k {
        Some(reg.table_seq()[choose|i: int| is_first_of_class(reg.table_seq(), k, i)])
    } else {
        None
    }
}

/// Each `@Ref` entry reads its table name, qualified by its namespace.
pub open spec fn refs_consistent(m: Map<Seq<char>, TableEntryView>) -> bool {
    forall|k: Seq<char>|
        #[trigger] m.contains_key(k) ==> m[k].full_table_ref == qualified(m[k].namespace, m[k].table_name)
}

/// Tables configured in `[tables]`, by full bean name, and their `@Ref`
/// entries, by class name.
#[derive(Debug)]
pub struct TableRegistry {
    entries: StrTable<TableEntry>,
    tables: StrTable<ResolvedTableConfig>,
}

impl TableRegistry {
    /// Every `@Ref` entry, however the registry was built, reads
    /// `namespace.TableName` (the table name alone without a namespace).
    #[verifier::type_invariant]
    spec fn refs_ok(self) -> bool {
        refs_consistent(self.entries.view_map())
    }

    /// Stores a table under its full name; the `@Ref` entries stay as they are.
    fn put_table(&mut self, k: String, v: ResolvedTableConfig)
        ensures
            final(self).entries == old(self).entries,
            old(self).tables.contains(k@) ==> final(self).tables.entries() == old(self).tables.entries().update(
                key_index(old(self).tables.entries(), k@),
                (k, v),
            ),
            !old(self).tables.contains(k@) ==> final(self).tables.entries() == old(self).tables.entries().push((k, v)),
            final(self).tables.view_map() == old(self).tables.view_map().insert(k@, v@),
            final(self).tables.key_seq() == if old(self).tables.contains(k@) {
                old(self).tables.key_seq()
            } else {
                old(self).tables.key_seq().push(k@)
            },
    {
        proof {
            use_type_invariant(&*self);
        }
        let mut t: StrTable<ResolvedTableConfig> = StrTable::new();
        std::mem::swap(&mut t, &mut self.tables);
        t.insert(k, v);
        self.tables = t;
    }

    /// Stores the `@Ref` entry of a class, which reads its table name
    /// qualified by its namespace; the tables stay as they are.
    fn put_entry(&mut self, k: String, e: TableEntry)
        requires
            e.full_table_ref@ == qualified(e.namespace@, e.table_name@),
        ensures
            final(self).tables == old(self).tables,
            final(self).entries.view_map() == old(self).entries.view_map().insert(k@, e@),
    {
        proof {
            use_type_invariant(&*self);
        }
        let mut t: StrTable<TableEntry> = StrTable::new();
        std::mem::swap(&mut t, &mut self.entries);
        t.insert(k, e);
        assert(t.view_map().dom() =~= old(self).entries.view_map().dom().insert(k@));
        self.entries = t;
    }

    /// The `@Ref` entries, by class name.
    pub closed spec fn entries_map(&self) -> Map<Seq<char>, TableEntryView> {
        self.entries.view_map()
    }

    /// The tables, by full bean name.
    pub closed spec fn tables_map(&self) -> Map<Seq<char>, ResolvedView> {
        self.tables.view_map()
    }

    /// The tables' full bean names, in registry order.
    pub closed spec fn table_keys(&self) -> Seq<Seq<char>> {
        self.tables.key_seq()
    }

    /// The tables in registry order.
    pub closed spec fn table_seq(&self) -> Seq<ResolvedView> {
        table_views(self.tables.entries())
    }

    /// An empty registry.
    pub fn new() -> (r: Self)
        ensures
            r.entries_map() == Map::<Seq<char>, TableEntryView>::empty(),
            r.tables_map() == Map::<Seq<char>, ResolvedView>::empty(),
            r.table_keys().len() == 0,
            r.table_seq().len() == 0,
    {
        let r = TableRegistry { entries: StrTable::new(), tables: StrTable::new() };
        assert(r.entries.view_map() =~= Map::<Seq<char>, TableEntryView>::empty());
        assert(r.tables.view_map() =~= Map::<Seq<char>, ResolvedView>::empty());
        r
    }

    /// Builds the registry from the `[tables]` list of `module.ClassName`
    /// names and their configurations.
    pub fn from_config(tables_config: &Vec<(String, TableConfig)>) -> (r: Self)
        ensures
            r.tables_map() == tables_from(tables_config@),
            r.entries_map() == entries_from(tables_config@),
            r.table_keys() == configured_keys(tables_config@),
            r.table_seq().len() == r.table_keys().len(),
            forall|i: int|
                0 <= i < r.table_keys().len() ==> r.tables_map().contains_key(r.table_keys()[i])
                    && #[trigger] r.table_seq()[i] == r.tables_map()[r.table_keys()[i]],
    {
        let mut registry = Self::new();
        let mut i: usize = 0;
        while i < tables_config.len()
            invariant
                i <= tables_config.len(),
                registry.tables_map() == tables_from(tables_config@.take(i as int)),
                registry.entries_map() == entries_from(tables_config@.take(i as int)),
                registry.table_keys() == configured_keys(tables_config@.take(i as int)),
            decreases tables_config.len() - i,
        {
            proof {
                crate::assoc::lemma_key_seq_contains(registry.tables.entries(), tables_config@[i as int].0@);
            }
            let full_name = &tables_config[i].0;
            let config = &tables_config[i].1;
            let chars = chars_of(full_name.as_str());
            let nchars = chars.len();
            let (module, class_name) = match rfind_char(&chars, '.') {
                Some(dot) => {
                    assert(dot < nchars);
                    let m = string_of(&slice_to_vec(&chars, 0, dot));
                    let c = string_of(&slice_to_vec(&chars, dot + 1, nchars));
                    assert(m@ =~= full_name@.take(dot as int));
                    assert(c@ =~= full_name@.skip(dot + 1));
                    (m, c)
                },
                None => (String::new(), full_name.clone()),
            };
            let table_name = match config.name() {
                Some(n) => String::from_str(n),
                None => concat2(class_name.as_str(), "Table"),
            };
            let full_table_ref = if module.as_str().is_empty() {
                table_name.clone()
            } else {
                concat3(module.as_str(), ".", table_name.as_str())
            };
            let resolved = ResolvedTableConfig {
                bean: full_name.clone(),
                name: table_name.clone(),
                input: String::from_str(config.input()),
                mode: String::from_str(config.mode()),
                index: String::from_str(config.index()),
                index_type: None,
                module: module.clone(),
                class_name: class_name.clone(),
            };
            registry.put_table(full_name.clone(), resolved);
            registry.put_entry(
                class_name.clone(),
                TableEntry {
                    namespace: module,
                    bean_name: class_name,
                    table_name,
                    full_table_ref,
                    index_type: None,
                },
            );
            assert(tables_config@.take(i + 1).drop_last() =~= tables_config@.take(i as int));
            assert(registry.tables_map() =~= tables_from(tables_config@.take(i + 1)));
            assert(registry.entries_map() =~= entries_from(tables_config@.take(i + 1)));
            assert(tables_config@.take(i + 1).last() == tables_config@[i as int]);
            i += 1;
        }
        assert(tables_config@.take(tables_config@.len() as int) =~= tables_config@);
        let _count = registry.tables.len();
        proof {
            let es = registry.tables.entries();
            assert forall|j: int| 0 <= j < registry.table_keys().len() implies registry.tables_map().contains_key(
                registry.table_keys()[j],
            ) && #[trigger] registry.table_seq()[j] == registry.tables_map()[registry.table_keys()[j]] by {
                let k = es[j].0@;
                assert(registry.table_keys()[j] == k);
                assert(crate::assoc::has_key(es, k));
                let ki = crate::assoc::key_index(es, k);
                assert(es[ki].0@ == k);
                assert(ki == j);
            }
        }
        registry
    }

    /// Registers a class as a table in a namespace (the older, decorator-based
    /// way): its table is `ClassNameTable`.
    pub fn register(&mut self, class_name: &str, namespace: &str)
        ensures
            final(self).entries_map() == old(self).entries_map().insert(
                class_name@,
                registered_entry(class_name@, namespace@),
            ),
            final(self).tables_map() == old(self).tables_map(),
            final(self).table_keys() == old(self).table_keys(),
            final(self).table_seq() == old(self).table_seq(),
    {
        let table_name = concat2(class_name, "Table");
        let full_table_ref = if namespace.is_empty() {
            table_name.clone()
        } else {
            concat3(namespace, ".", table_name.as_str())
        };
        self.put_entry(
            String::from_str(class_name),
            TableEntry {
                namespace: String::from_str(namespace),
                bean_name: String::from_str(class_name),
                table_name,
                full_table_ref,
                index_type: None,
            },
        );
    }

    /// The Luban index type of the table of a class (for `@Ref`), once known.
    pub fn get_index_type(&self, class_name: &str) -> (r: Option<&str>)
        ensures
            r.is_some() <==> self.entries_map().contains_key(class_name@)
                && self.entries_map()[class_name@].index_type.is_some(),
            r matches Some(t) ==> self.entries_map()[class_name@].index_type == Some(t@),
    {
        match self.entries.get(class_name) {
            Some(e) => match &e.index_type {
                Some(t) => Some(t.as_str()),
                None => None,
            },
            None => None,
        }
    }

    /// Records the Luban type of each table's index field, found among the
    /// parsed classes: for each table (in order), the first field named like
    /// its index in the last class named like its class, with its type mapped.
    /// Tables whose class or field is missing keep what they had. The `@Ref`
    /// entry of the class receives the same type, when there is one.
    pub fn set_index_types(&mut self, classes: &Vec<ClassInfo>, type_mapper: &TypeMapper)
        ensures
            final(self).table_keys() == old(self).table_keys(),
            final(self).table_seq() == old(self).table_seq().map_values(
                |t: ResolvedView| with_index_type(t, table_index_type(classes@, type_mapper@, t)),
            ),
            forall|k: Seq<char>|
                #![trigger final(self).tables_map().contains_key(k)]
                final(self).tables_map().contains_key(k) == old(self).tables_map().contains_key(k),
            forall|k: Seq<char>|
                #![trigger final(self).tables_map()[k]]
                old(self).tables_map().contains_key(k) ==> final(self).tables_map()[k]
                    == with_index_type(
                    old(self).tables_map()[k],
                    table_index_type(classes@, type_mapper@, old(self).tables_map()[k]),
                ),
            final(self).entries_map() == entries_with_index_types(
                old(self).entries_map(),
                old(self).table_seq(),
                classes@,
                type_mapper@,
            ),
    {
        let n = self.tables.len();
        let ghost old_entries = self.tables.entries();
        let ghost old_seq = self.table_seq();
        let ghost f = |t: ResolvedView| with_index_type(t, table_index_type(classes@, type_mapper@, t));
        let mut i: usize = 0;
        while i < n
            invariant
                i <= n,
                n == old_entries.len(),
                old_seq == table_views(old_entries),
                keys_distinct(old_entries),
                f == (|t: ResolvedView| with_index_type(t, table_index_type(classes@, type_mapper@, t))),
                self.tables.entries().len() == n,
                forall|j: int| 0 <= j < n ==> (#[trigger] self.tables.entries()[j]).0@ == old_entries[j].0@,
                forall|j: int| 0 <= j < i ==> (#[trigger] self.tables.entries()[j]).1@ == f(old_entries[j].1@),
                forall|j: int| i <= j < n ==> (#[trigger] self.tables.entries()[j]).1@ == old_entries[j].1@,
                self.entries.view_map() == entries_with_index_types(
                    old(self).entries.view_map(),
                    old_seq.take(i as int),
                    classes@,
                    type_mapper@,
                ),
            decreases n - i,
        {
            let _ = self.tables.len();
            let e = self.tables.entry(i);
            let key = e.0.clone();
            let cfg_class = e.1.class_name.clone();
            let it = find_index_type(classes, type_mapper, e.1.class_name.as_str(), e.1.index.as_str());
            proof {
                assert(old_seq[i as int] == e.1@);
                assert(old_seq.take(i + 1).drop_last() =~= old_seq.take(i as int));
            }
            match it {
                Some(t) => {
                    let updated = ResolvedTableConfig {
                        bean: e.1.bean.clone(),
                        name: e.1.name.clone(),
                        input: e.1.input.clone(),
                        mode: e.1.mode.clone(),
                        index: e.1.index.clone(),
                        index_type: Some(t.clone()),
                        module: e.1.module.clone(),
                        class_name: e.1.class_name.clone(),
                    };
                    proof {
                        assert(has_key(self.tables.entries(), key@));
                        let ki = key_index(self.tables.entries(), key@);
                        assert(self.tables.entries()[ki].0@ == key@);
                        assert(ki == i as int);
                    }
                    self.put_table(key, updated);
                    match self.get(cfg_class.as_str()) {
                        Some(old_e) => {
                            let new_e = TableEntry {
                                namespace: old_e.namespace.clone(),
                                bean_name: old_e.bean_name.clone(),
                                table_name: old_e.table_name.clone(),
                                full_table_ref: old_e.full_table_ref.clone(),
                                index_type: Some(t),
                            };
                            self.put_entry(cfg_class, new_e);
                        },
                        None => {},
                    }
                },
                None => {},
            }
            i += 1;
        }
        proof {
            assert(old_seq.take(n as int) =~= old_seq);
            assert(self.table_seq() =~= old_seq.map_values(f));
            assert(entry_keys(self.tables.entries()) =~= entry_keys(old_entries));
            let ne = self.tables.entries();
            assert forall|k: Seq<char>| #![trigger self.tables_map().contains_key(k)]
                self.tables_map().contains_key(k) == old(self).tables_map().contains_key(k) by {
                if has_key(ne, k) {
                    let j = key_index(ne, k);
                    assert(old_entries[j].0@ == k);
                }
                if has_key(old_entries, k) {
                    let j = key_index(old_entries, k);
                    assert(ne[j].0@ == k);
                }
            }
            assert forall|k: Seq<char>| #![trigger self.tables_map()[k]]
                old(self).tables_map().contains_key(k) implies self.tables_map()[k] == f(
                    old(self).tables_map()[k],
                ) by {
                let j = key_index(old_entries, k);
                assert(ne[j].0@ == k);
                let j2 = key_index(ne, k);
                assert(ne[j2].0@ == k);
                assert(old_entries[j2].0@ == k);
            }
        }
    }

    /// The `@Ref` entry of a class.
    pub fn get(&self, class_name: &str) -> (r: Option<&TableEntry>)
        ensures
            r.is_some() <==> self.entries_map().contains_key(class_name@),
            r matches Some(e) ==> e@ == self.entries_map()[class_name@],
            r matches Some(e) ==> e.full_table_ref@ == qualified(e.namespace@, e.table_name@),
    {
        proof {
            use_type_invariant(self);
        }
        self.entries.get(class_name)
    }

    /// The table configured under a full bean name (`module.ClassName`).
    pub fn get_table(&self, full_name: &str) -> (r: Option<&ResolvedTableConfig>)
        ensures
            r.is_some() <==> self.tables_map().contains_key(full_name@),
            r matches Some(t) ==> t@ == self.tables_map()[full_name@],
    {
        self.tables.get(full_name)
    }

    /// The table of a class: the one whose full bean name is `class_name`
    /// itself, else the first (in registry order) whose class is `class_name`.
    pub fn get_table_by_class(&self, class_name: &str) -> (r: Option<&ResolvedTableConfig>)
        ensures
            resolved_opt_view(r) == table_by_class(self, class_name@),
    {
        if let Some(t) = self.tables.get(class_name) {
            return Some(t);
        }
        let n = self.tables.len();
        let mut i: usize = 0;
        while i < n
            invariant
                n == self.tables.entries().len(),
                i <= n,
                !self.tables_map().contains_key(class_name@),
                forall|j: int| 0 <= j < i ==> self.table_seq()[j].class_name != class_name@,
            decreases n - i,
        {
            let e = self.tables.entry(i);
            if crate::text::str_eq(e.1.class_name.as_str(), class_name) {
                proof {
                    assert(self.table_seq()[i as int] == e.1@);
                    assert(is_first_of_class(self.table_seq(), class_name@, i as int));
                    let k = choose|k: int| is_first_of_class(self.table_seq(), class_name@, k);
                    assert(is_first_of_class(self.table_seq(), class_name@, k));
                    assert(k == i) by {
                        if k < i {
                            assert(self.table_seq()[k].class_name != class_name@);
                        }
                        if i < k {
                            assert(self.table_seq()[i as int].class_name != class_name@);
                        }
                    }
                }
                return Some(&e.1);
            }
            i += 1;
        }
        None
    }

    /// All tables, in registry order.
    pub fn all_tables(&self) -> (r: Vec<&ResolvedTableConfig>)
        ensures
            r@.len() == self.table_seq().len(),
            forall|i: int| 0 <= i < r@.len() ==> r@[i]@ == self.table_seq()[i],
    {
        let n = self.tables.len();
        let mut out: Vec<&ResolvedTableConfig> = Vec::new();
        let mut i: usize = 0;
        while i < n
            invariant
                n == self.tables.entries().len(),
                i <= n,
                out@.len() == i,
                forall|j: int| 0 <= j < i ==> out@[j]@ == self.table_seq()[j],
            decreases n - i,
        {
            out.push(&self.tables.entry(i).1);
            i += 1;
        }
        out
    }

    /// Whether a class has a `@Ref` entry.
    pub fn is_table(&self, class_name: &str) -> (r: bool)
        ensures
            r == self.entries_map().contains_key(class_name@),
    {
        self.entries.contains_key(class_name)
    }

    /// Whether a full bean name is configured as a table.
    pub fn has_table(&self, full_name: &str) -> (r: bool)
        ensures
            r == self.tables_map().contains_key(full_name@),
    {
        self.tables.contains_key(full_name)
    }

    /// The table reference that `@Ref(ClassName)` stands for, e.g.
    /// `examples.ItemTable`.
    pub fn resolve_ref(&self, class_name: &str) -> (r: Option<String>)
        ensures
            r.is_some() <==> self.entries_map().contains_key(class_name@),
            r matches Some(s) ==> s@ == self.entries_map()[class_name@].full_table_ref,
            r matches Some(s) ==> s@ == qualified(
                self.entries_map()[class_name@].namespace,
                self.entries_map()[class_name@].table_name,
            ),
    {
        match self.get(class_name) {
            Some(e) => Some(e.full_table_ref.clone()),
            None => None,
        }
    }

    /// The configured tables whose beans are missing from `existing_beans`,
    /// in registry order.
    pub fn validate_beans_exist(&self, existing_beans: &Vec<String>) -> (r: Vec<String>)
        ensures
            crate::config::strings_view(r@) == missing_keys(
                self.table_keys(),
                crate::config::strings_view(existing_beans@),
            ),
            crate::config::strings_view(r@).no_duplicates(),
            forall|k: Seq<char>|
                #[trigger] crate::config::strings_view(r@).contains(k) <==> self.tables_map().contains_key(k)
                    && !crate::config::strings_view(existing_beans@).contains(k),
    {
        let ghost existing = crate::config::strings_view(existing_beans@);
        let ghost pred = |k: Seq<char>| !existing.contains(k);
        let n = self.tables.len();
        let mut out: Vec<String> = Vec::new();
        let mut i: usize = 0;
        while i < n
            invariant
                n == self.tables.entries().len(),
                i <= n,
                existing == crate::config::strings_view(existing_beans@),
                pred == (|k: Seq<char>| !existing.contains(k)),
                crate::config::strings_view(out@) == self.table_keys().take(i as int).filter(pred),
            decreases n - i,
        {
            let key = &self.tables.entry(i).0;
            let mut found = false;
            let mut j: usize = 0;
            while j < existing_beans.len()
                invariant
                    j <= existing_beans.len(),
                    existing == crate::config::strings_view(existing_beans@),
                    found <==> exists|q: int| 0 <= q < j && existing[q] == key@,
                decreases existing_beans.len() - j,
            {
                assert(existing[j as int] == existing_beans@[j as int]@);
                if crate::text::str_eq(existing_beans[j].as_str(), key.as_str()) {
                    found = true;
                }
                j += 1;
            }
            proof {
                assert(found <==> existing.contains(key@));
                assert(self.table_keys()[i as int] == key@);
                reveal_with_fuel(Seq::<Seq<char>>::filter, 1);
                assert(self.table_keys().take(i + 1).drop_last() =~= self.table_keys().take(i as int));
            }
            if !found {
                let ghost prev = out@;
                out.push(key.clone());
                assert(crate::config::strings_view(out@) =~= crate::config::strings_view(prev).push(key@));
            }
            i += 1;
        }
        assert(self.table_keys().take(n as int) =~= self.table_keys());
        proof {
            let es = self.tables.entries();
            assert(self.table_keys().no_duplicates()) by {
                assert forall|a: int, b: int|
                    0 <= a < self.table_keys().len() && 0 <= b < self.table_keys().len() && a != b implies self.table_keys()[a]
                    != self.table_keys()[b] by {
                    assert(self.table_keys()[a] == es[a].0@ && self.table_keys()[b] == es[b].0@);
                }
            }
            lemma_missing_keys(self.table_keys(), existing);
            assert forall|k: Seq<char>| self.table_keys().contains(k) == self.tables_map().contains_key(k) by {
                crate::assoc::lemma_key_seq_contains(es, k);
            }
        }
        out
    }
}

} // verus!
