//! Luban XML generation: modules of beans, enums and tables.
use crate::assoc::{StrTable, pair_views, pairs_map};
use crate::config::opt_view;
use crate::paths::{normal_path, path_normal};
use crate::parser::{ClassInfo, EnumInfo, EnumVariant, FieldInfo, FieldValidators, SizeConstraint};
use crate::table_registry::{ResolvedTableConfig, ResolvedView, TableRegistry, class_of, clone_opt, qualified, table_by_class};
use crate::type_mapper::{TypeMapper, map_full};
use crate::xml_types::{
    after_last_dot, container_head, container_mods, container_type, default_suffix, has_prefix,
    qualify, range_view, ref_parts, resolve_full, resolve_type, scalar_type, size_parts,
    skip_chars, split_first_comma, value_parts, with_parts,
};
use crate::sort::{sorted_distinct, sorted_items};
use crate::text::{contains_seq, is_suffix, lemma_contains_seq_within, concat2, escape_xml, escape_xml_spec, first_index, has_char, is_prefix, join_strings, joined, lemma_views_push, lines_text, lines_to_text, usize_to_decimal, views};
use vstd::prelude::*;

verus! {

/// ` name="value"` with the value escaped, or nothing when there is no value.
pub open spec fn opt_attr(name: Seq<char>, o: Option<Seq<char>>) -> Seq<char> {
    match o {
        Some(v) => " "@ + name + "=\""@ + escape_xml_spec(v) + "\""@,
        None => Seq::empty(),
    }
}

/// The line of one enum member.
pub open spec fn variant_line(v: EnumVariant) -> Seq<char> {
    let alias_part = match v.alias {
        Some(a) => opt_attr("alias"@, Some(a@)) + " "@,
        None => " "@,
    };
    "        <var name=\""@ + v.name@ + "\""@ + alias_part + "value=\""@ + escape_xml_spec(v.value@)
        + "\""@ + opt_attr("comment"@, opt_view(v.comment)) + "/>"@
}

/// The lines of the members of an enum.
pub open spec fn variant_lines(vs: Seq<EnumVariant>) -> Seq<Seq<char>> {
    vs.map_values(|v: EnumVariant| variant_line(v))
}

/// The comment line put before an element, when it has a non-empty comment.
pub open spec fn comment_line(c: Option<String>) -> Seq<Seq<char>> {
    match c {
        Some(t) => if t@.len() > 0 {
            seq!["    <!-- "@ + escape_xml_spec(t@) + " -->"@]
        } else {
            Seq::empty()
        },
        None => Seq::empty(),
    }
}

/// The opening line of an enum element.
pub open spec fn enum_open_line(e: EnumInfo) -> Seq<char> {
    "    <enum name=\""@ + e.name@ + "\""@ + opt_attr("alias"@, opt_view(e.alias)) + (if e.is_flags {
        " flags=\"true\""@
    } else {
        Seq::empty()
    }) + opt_attr("tags"@, opt_view(e.tags)) + opt_attr("comment"@, opt_view(e.comment)) + ">"@
}

/// An enum with an alias carries it on its opening element, escaped: some
/// line of the enum starts `<enum name="E" alias="A"`.
pub proof fn law_enum_alias(e: EnumInfo)
    requires
        e.alias is Some,
    ensures
        exists|j: int|
            0 <= j < enum_lines(e).len() && is_prefix(
                "    <enum name=\""@ + e.name@ + "\""@ + " alias=\""@ + escape_xml_spec(e.alias->0@) + "\""@,
                #[trigger] enum_lines(e)[j],
            ),
{
    let head = "    <enum name=\""@ + e.name@ + "\""@ + " alias=\""@ + escape_xml_spec(e.alias->0@) + "\""@;
    let line = enum_open_line(e);
    let j = comment_line(e.comment).len() as int;
    assert(enum_lines(e)[j] == line);
    reveal_strlit(" ");
    reveal_strlit("alias");
    reveal_strlit("=\"");
    reveal_strlit(" alias=\"");
    assert(" "@ + "alias"@ + "=\""@ =~= " alias=\""@);
    let rest = (if e.is_flags {
        " flags=\"true\""@
    } else {
        Seq::empty()
    }) + opt_attr("tags"@, opt_view(e.tags)) + opt_attr("comment"@, opt_view(e.comment)) + ">"@;
    assert(line =~= head + rest);
    assert(line.subrange(0, head.len() as int) =~= head);
}

/// The opening element of an enum carries each of its attributes: it starts
/// with `<enum name="E"`, has ` flags="true"` for a flags enum, the tags and
/// the comment (escaped) when there are some, and ends with `>`.
pub proof fn law_enum_attributes(e: EnumInfo)
    ensures
        is_prefix("    <enum name=\""@ + e.name@ + "\""@, enum_open_line(e)),
        e.is_flags ==> contains_seq(enum_open_line(e), " flags=\"true\""@),
        e.tags is Some ==> contains_seq(enum_open_line(e), " tags=\""@ + escape_xml_spec(e.tags->0@) + "\""@),
        e.comment is Some ==> contains_seq(
            enum_open_line(e),
            " comment=\""@ + escape_xml_spec(e.comment->0@) + "\""@,
        ),
        is_suffix(">"@, enum_open_line(e)),
        enum_lines(e).contains(enum_open_line(e)),
{
    let head = "    <enum name=\""@ + e.name@ + "\""@;
    let al = opt_attr("alias"@, opt_view(e.alias));
    let fl = if e.is_flags {
        " flags=\"true\""@
    } else {
        Seq::empty()
    };
    let tg = opt_attr("tags"@, opt_view(e.tags));
    let cm = opt_attr("comment"@, opt_view(e.comment));
    let line = enum_open_line(e);
    assert(line =~= head + al + fl + tg + cm + ">"@);
    assert(line.subrange(0, head.len() as int) =~= head);
    let j = comment_line(e.comment).len() as int;
    assert(enum_lines(e)[j] == line);
    reveal_strlit(" ");
    reveal_strlit("tags");
    reveal_strlit("comment");
    reveal_strlit("=\"");
    reveal_strlit(" tags=\"");
    reveal_strlit(" comment=\"");
    reveal_strlit(">");
    assert(line.subrange(line.len() - 1, line.len() as int) =~= ">"@);
    if e.is_flags {
        assert(fl.subrange(0, 0 + fl.len() as int) =~= fl);
        lemma_contains_seq_within(head + al, fl, tg + cm + ">"@, fl);
        assert((head + al) + fl + (tg + cm + ">"@) =~= line);
    }
    if e.tags is Some {
        let want = " tags=\""@ + escape_xml_spec(e.tags->0@) + "\""@;
        assert(tg =~= want);
        assert(tg.subrange(0, 0 + tg.len() as int) =~= tg);
        lemma_contains_seq_within(head + al + fl, tg, cm + ">"@, tg);
        assert((head + al + fl) + tg + (cm + ">"@) =~= line);
    }
    if e.comment is Some {
        let want = " comment=\""@ + escape_xml_spec(e.comment->0@) + "\""@;
        assert(cm =~= want);
        assert(cm.subrange(0, 0 + cm.len() as int) =~= cm);
        lemma_contains_seq_within(head + al + fl + tg, cm, ">"@, cm);
        assert((head + al + fl + tg) + cm + ">"@ =~= line);
    }
}

/// The lines of an enum element.
pub open spec fn enum_lines(e: EnumInfo) -> Seq<Seq<char>> {
    comment_line(e.comment) + seq![enum_open_line(e)] + variant_lines(e.variants@) + seq![
        "    </enum>"@,
    ]
}

/// The lines of several enums, each followed by an empty line.
pub open spec fn enums_lines(es: Seq<EnumInfo>) -> Seq<Seq<char>>
    decreases es.len(),
{
    if es.len() == 0 {
        Seq::empty()
    } else {
        enums_lines(es.drop_last()) + enum_lines(es.last()) + seq![Seq::<char>::empty()]
    }
}

/// The opening line of a module element.
pub open spec fn module_open_line(module_name: Seq<char>, comment: Seq<char>) -> Seq<char> {
    "<module name=\""@ + escape_xml_spec(module_name) + "\" comment=\""@ + comment + "\">"@
}

/// The XML of a module holding only enums.
pub open spec fn enum_xml(es: Seq<EnumInfo>, module_name: Seq<char>) -> Seq<char> {
    lines_text(
        seq![module_open_line(module_name, "自动生成的 ts enum 定义"@), Seq::<char>::empty()]
            + enums_lines(es) + seq!["</module>"@],
    )
}

/// ` name="value"` with the value escaped, or nothing.
fn attr_escaped(name: &str, value: &Option<String>) -> (r: String)
    ensures
        r@ == opt_attr(name@, opt_view(*value)),
{
    match value {
        Some(v) => {
            let mut r = String::from_str(" ");
            r.append(name);
            r.append("=\"");
            r.append(escape_xml(v.as_str()).as_str());
            r.append("\"");
            r
        },
        None => String::new(),
    }
}

/// Appends a line.
fn push_line(lines: &mut Vec<String>, line: String)
    ensures
        views(final(lines)@) == views(old(lines)@).push(line@),
{
    proof {
        lemma_views_push(lines@, line);
    }
    lines.push(line);
}

/// Appends the comment line of an element, when it has a non-empty comment.
fn push_comment_line(lines: &mut Vec<String>, comment: &Option<String>)
    ensures
        views(final(lines)@) == views(old(lines)@) + comment_line(*comment),
{
    match comment {
        Some(c) => {
            if !c.as_str().is_empty() {
                let mut l = String::from_str("    <!-- ");
                l.append(escape_xml(c.as_str()).as_str());
                l.append(" -->");
                push_line(lines, l);
                assert(views(lines@) =~= views(old(lines)@) + comment_line(*comment));
            } else {
                assert(views(lines@) =~= views(old(lines)@) + comment_line(*comment));
            }
        },
        None => {
            assert(views(lines@) =~= views(old(lines)@) + comment_line(*comment));
        },
    }
}

/// Appends the lines of an enum element.
pub fn generate_enum(lines: &mut Vec<String>, enum_info: &EnumInfo)
    ensures
        views(final(lines)@) == views(old(lines)@) + enum_lines(*enum_info),
{
    let alias_attr = attr_escaped("alias", &enum_info.alias);
    let tags_attr = attr_escaped("tags", &enum_info.tags);
    let comment_attr = attr_escaped("comment", &enum_info.comment);
    push_comment_line(lines, &enum_info.comment);
    let mut open = String::from_str("    <enum name=\"");
    open.append(enum_info.name.as_str());
    open.append("\"");
    open.append(alias_attr.as_str());
    if enum_info.is_flags {
        open.append(" flags=\"true\"");
    }
    open.append(tags_attr.as_str());
    open.append(comment_attr.as_str());
    open.append(">");
    assert(open@ =~= enum_open_line(*enum_info));
    push_line(lines, open);
    let ghost start = views(lines@);
    let mut i: usize = 0;
    while i < enum_info.variants.len()
        invariant
            i <= enum_info.variants.len(),
            views(lines@) == start + variant_lines(enum_info.variants@.take(i as int)),
        decreases enum_info.variants.len() - i,
    {
        let v = &enum_info.variants[i];
        let mut l = String::from_str("        <var name=\"");
        l.append(v.name.as_str());
        l.append("\"");
        match &v.alias {
            Some(_) => {
                l.append(attr_escaped("alias", &v.alias).as_str());
                l.append(" ");
            },
            None => {
                l.append(" ");
            },
        }
        l.append("value=\"");
        l.append(escape_xml(v.value.as_str()).as_str());
        l.append("\"");
        l.append(attr_escaped("comment", &v.comment).as_str());
        l.append("/>");
        assert(l@ =~= variant_line(*v));
        push_line(lines, l);
        assert(variant_lines(enum_info.variants@.take(i + 1)) =~= variant_lines(
            enum_info.variants@.take(i as int),
        ).push(variant_line(enum_info.variants@[i as int])));
        i += 1;
    }
    assert(enum_info.variants@.take(enum_info.variants@.len() as int) =~= enum_info.variants@);
    push_line(lines, String::from_str("    </enum>"));
    assert(views(lines@) =~= views(old(lines)@) + enum_lines(*enum_info));
}

/// Appends the lines of several enums, each followed by an empty line.
fn push_enums(lines: &mut Vec<String>, enums: &[EnumInfo])
    ensures
        views(final(lines)@) == views(old(lines)@) + enums_lines(enums@),
{
    let mut i: usize = 0;
    while i < enums.len()
        invariant
            i <= enums.len(),
            views(lines@) == views(old(lines)@) + enums_lines(enums@.take(i as int)),
        decreases enums.len() - i,
    {
        generate_enum(lines, &enums[i]);
        push_line(lines, String::new());
        assert(enums@.take(i + 1).drop_last() =~= enums@.take(i as int));
        assert(views(lines@) =~= views(old(lines)@) + enums_lines(enums@.take(i + 1)));
        i += 1;
    }
    assert(enums@.take(enums@.len() as int) =~= enums@);
}

/// The XML of a module holding only the given enums.
pub fn generate_enum_xml(enums: &[EnumInfo], module_name: &str) -> (r: String)
    ensures
        r@ == enum_xml(enums@, module_name@),
{
    let mut lines: Vec<String> = Vec::new();
    let mut open = String::from_str("<module name=\"");
    open.append(escape_xml(module_name).as_str());
    open.append("\" comment=\"");
    open.append("自动生成的 ts enum 定义");
    open.append("\">");
    push_line(&mut lines, open);
    push_line(&mut lines, String::new());
    push_enums(&mut lines, enums);
    push_line(&mut lines, String::from_str("</module>"));
    assert(views(lines@) =~= seq![module_open_line(module_name@, "自动生成的 ts enum 定义"@), Seq::<char>::empty()]
        + enums_lines(enums@) + seq!["</module>"@]);
    lines_to_text(&lines)
}

/// The `tags` attribute of a list of tags, or nothing without tags.
fn tags_attribute(tags: &Vec<String>) -> (r: String)
    ensures
        r@ == tags_attr(views(tags@)),
{
    if tags.len() == 0 {
        String::new()
    } else {
        let mut r = String::from_str(" tags=\"");
        r.append(escape_xml(join_strings(tags, ",").as_str()).as_str());
        r.append("\"");
        r
    }
}

/// The line of a bean field.
fn var_text(name: &str, ty: &str, alias: &Option<String>, comment: &Option<String>, tags: &str) -> (r: String)
    ensures
        r@ == var_line(name@, ty@, opt_view(*alias), opt_view(*comment), tags@),
{
    let mut r = String::from_str("        <var name=\"");
    r.append(name);
    r.append("\" type=\"");
    r.append(ty);
    r.append("\"");
    r.append(attr_escaped("alias", alias).as_str());
    r.append(attr_escaped("comment", comment).as_str());
    r.append(tags);
    r.append("/>");
    r
}

/// The string slice of an optional string.
fn opt_str(o: &Option<String>) -> (r: Option<&str>)
    ensures
        opt_str_view(r) == opt_view(*o),
{
    match o {
        Some(s) => Some(s.as_str()),
        None => None,
    }
}

/// Generates Luban XML modules from parsed classes and enums.
pub struct XmlGenerator<'a> {
    type_mapper: &'a TypeMapper,
    table_registry: &'a TableRegistry,
    /// Type name to module name, for types of other modules.
    type_to_module: StrTable<String>,
    /// Source file to module name, for imported types.
    file_to_module: StrTable<String>,
}

/// Source files keyed as paths: each key replaced by its components.
pub open spec fn normal_keys(s: Seq<(Seq<char>, Seq<char>)>) -> Seq<(Seq<char>, Seq<char>)> {
    s.map_values(|p: (Seq<char>, Seq<char>)| (path_normal(p.0), p.1))
}

/// The view of an optional string slice.
pub open spec fn opt_str_view(o: Option<&str>) -> Option<Seq<char>> {
    match o {
        Some(s) => Some(s@),
        None => None,
    }
}

impl<'a> XmlGenerator<'a> {
    /// The type mapper.
    pub closed spec fn mapper(&self) -> Map<Seq<char>, Seq<char>> {
        self.type_mapper@
    }

    /// The table registry.
    pub closed spec fn registry(&self) -> &'a TableRegistry {
        self.table_registry
    }

    /// Type name to module name.
    pub closed spec fn type_map(&self) -> Map<Seq<char>, Seq<char>> {
        self.type_to_module.view_map()
    }

    /// Source file to module name.
    pub closed spec fn file_map(&self) -> Map<Seq<char>, Seq<char>> {
        self.file_to_module.view_map()
    }

    /// A generator with no module mappings.
    pub fn new(type_mapper: &'a TypeMapper, table_registry: &'a TableRegistry) -> (g: Self)
        ensures
            g.mapper() == type_mapper@,
            g.registry() == table_registry,
            g.type_map() == Map::<Seq<char>, Seq<char>>::empty(),
            g.file_map() == Map::<Seq<char>, Seq<char>>::empty(),
    {
        let g = XmlGenerator {
            type_mapper,
            table_registry,
            type_to_module: StrTable::new(),
            file_to_module: StrTable::new(),
        };
        assert(g.type_to_module.view_map() =~= Map::<Seq<char>, Seq<char>>::empty());
        assert(g.file_to_module.view_map() =~= Map::<Seq<char>, Seq<char>>::empty());
        g
    }

    /// A generator with a type-to-module mapping (a later pair overrides an
    /// earlier one).
    pub fn with_type_mapping(
        type_mapper: &'a TypeMapper,
        table_registry: &'a TableRegistry,
        type_to_module: Vec<(String, String)>,
    ) -> (g: Self)
        ensures
            g.mapper() == type_mapper@,
            g.registry() == table_registry,
            g.type_map() == pairs_map(pair_views(type_to_module@)),
            g.file_map() == Map::<Seq<char>, Seq<char>>::empty(),
    {
        let g = XmlGenerator {
            type_mapper,
            table_registry,
            type_to_module: StrTable::<String>::from_pairs(&type_to_module),
            file_to_module: StrTable::new(),
        };
        assert(g.file_to_module.view_map() =~= Map::<Seq<char>, Seq<char>>::empty());
        g
    }

    /// A generator with type-to-module and file-to-module mappings.
    pub fn with_type_and_file_mapping(
        type_mapper: &'a TypeMapper,
        table_registry: &'a TableRegistry,
        type_to_module: Vec<(String, String)>,
        file_to_module: Vec<(String, String)>,
    ) -> (g: Self)
        ensures
            g.mapper() == type_mapper@,
            g.registry() == table_registry,
            g.type_map() == pairs_map(pair_views(type_to_module@)),
            g.file_map() == pairs_map(normal_keys(pair_views(file_to_module@))),
    {
        let mut files: Vec<(String, String)> = Vec::new();
        let mut i: usize = 0;
        while i < file_to_module.len()
            invariant
                i <= file_to_module@.len(),
                pair_views(files@) == normal_keys(pair_views(file_to_module@).take(i as int)),
            decreases file_to_module@.len() - i,
        {
            let key = normal_path(file_to_module[i].0.as_str());
            let module = file_to_module[i].1.clone();
            let ghost before = files@;
            files.push((key, module));
            assert(files@ == before.push((key, module)));
            assert(pair_views(files@) =~= pair_views(before).push((key@, module@)));
            assert(pair_views(file_to_module@).take(i + 1) =~= pair_views(file_to_module@).take(i as int).push(
                pair_views(file_to_module@)[i as int],
            ));
            assert(pair_views(files@) =~= normal_keys(pair_views(file_to_module@).take(i + 1)));
            i += 1;
        }
        assert(pair_views(file_to_module@).take(file_to_module@.len() as int) =~= pair_views(file_to_module@));
        XmlGenerator {
            type_mapper,
            table_registry,
            type_to_module: StrTable::<String>::from_pairs(&type_to_module),
            file_to_module: StrTable::<String>::from_pairs(&files),
        }
    }

    /// A type name with its module prefix when it belongs to another module,
    /// found through the imports first and the type-to-module map second.
    fn resolve_type_with_imports(
        &self,
        tyname: &str,
        current_module: &str,
        class_to_module: &StrTable<String>,
        imports: &StrTable<String>,
    ) -> (r: String)
        ensures
            r@ == resolve_type(
                self.file_map(),
                tyname@,
                current_module@,
                class_to_module.view_map(),
                imports.view_map(),
            ),
    {
        if tyname.is_empty() {
            return String::new();
        }
        if let Some(source) = imports.get(tyname) {
            let file = normal_path(source.as_str());
            if let Some(target) = self.file_to_module.get(file.as_str()) {
                if !crate::text::str_eq(target.as_str(), current_module) && !target.as_str().is_empty() {
                    return crate::text::concat3(target.as_str(), ".", tyname);
                }
                return String::from_str(tyname);
            }
        }
        if let Some(target) = class_to_module.get(tyname) {
            if !crate::text::str_eq(target.as_str(), current_module) && !target.as_str().is_empty() {
                return crate::text::concat3(target.as_str(), ".", tyname);
            }
        }
        String::from_str(tyname)
    }

    /// A type name resolved with an empty import list.
    fn resolve_type_with_module(
        &self,
        tyname: &str,
        current_module: &str,
        class_to_module: &StrTable<String>,
    ) -> (r: String)
        ensures
            r@ == resolve_type(
                self.file_map(),
                tyname@,
                current_module@,
                class_to_module.view_map(),
                Map::empty(),
            ),
    {
        let imports: StrTable<String> = StrTable::new();
        assert(imports.view_map() =~= Map::<Seq<char>, Seq<char>>::empty());
        self.resolve_type_with_imports(tyname, current_module, class_to_module, &imports)
    }

    /// A full type with module prefixes on its element, key and value types.
    fn resolve_full_type_with_imports(
        &self,
        type_str: &str,
        current_module: &str,
        class_to_module: &StrTable<String>,
        imports: &StrTable<String>,
    ) -> (r: String)
        ensures
            r@ == resolve_full(
                self.file_map(),
                type_str@,
                current_module@,
                class_to_module.view_map(),
                imports.view_map(),
            ),
    {
        proof {
            reveal_strlit("list,");
            reveal_strlit("map,");
            reveal_strlit("array,");
            reveal_strlit("set,");
        }
        if has_prefix(type_str, "list,") {
            let element = skip_chars(type_str, 5);
            let mut r = String::from_str("list,");
            r.append(self.resolve_type_with_imports(element.as_str(), current_module, class_to_module, imports).as_str());
            return r;
        }
        if has_prefix(type_str, "map,") {
            let rest = skip_chars(type_str, 4);
            if let Some((k, v)) = split_first_comma(rest.as_str()) {
                let mut r = String::from_str("map,");
                r.append(self.resolve_type_with_imports(k.as_str(), current_module, class_to_module, imports).as_str());
                r.append(",");
                r.append(self.resolve_type_with_imports(v.as_str(), current_module, class_to_module, imports).as_str());
                return r;
            }
        }
        if has_prefix(type_str, "array,") {
            let element = skip_chars(type_str, 6);
            let mut r = String::from_str("array,");
            r.append(self.resolve_type_with_imports(element.as_str(), current_module, class_to_module, imports).as_str());
            return r;
        }
        if has_prefix(type_str, "set,") {
            let element = skip_chars(type_str, 4);
            let mut r = String::from_str("set,");
            r.append(self.resolve_type_with_imports(element.as_str(), current_module, class_to_module, imports).as_str());
            return r;
        }
        self.resolve_type_with_imports(type_str, current_module, class_to_module, imports)
    }

    /// A full type resolved with an empty import list.
    fn resolve_full_type_with_module(
        &self,
        type_str: &str,
        current_module: &str,
        class_to_module: &StrTable<String>,
    ) -> (r: String)
        ensures
            r@ == resolve_full(
                self.file_map(),
                type_str@,
                current_module@,
                class_to_module.view_map(),
                Map::empty(),
            ),
    {
        let imports: StrTable<String> = StrTable::new();
        assert(imports.view_map() =~= Map::<Seq<char>, Seq<char>>::empty());
        self.resolve_full_type_with_imports(type_str, current_module, class_to_module, &imports)
    }

    /// A scalar type with its validators and default value, e.g.
    /// `int!#ref=examples.TbItem#range=[1,100]#default=0`. A reference (`@ref`
    /// or `RefKey<T>`) replaces the type by the referenced table's index type.
    fn apply_scalar_validators_with_default(
        &self,
        base_type: &str,
        validators: &FieldValidators,
        is_optional: bool,
        default_value: Option<&str>,
    ) -> (r: String)
        ensures
            r@ == scalar_type(
                self.registry(),
                base_type@,
                validators.has_ref || validators.has_ref_key,
                range_view(validators.range),
                validators.required,
                views(validators.set_values@),
                is_optional,
                opt_str_view(default_value),
            ),
    {
        let any_ref = validators.has_ref || validators.has_ref_key;
        let tyname = after_last_dot(base_type);
        let tc = self.table_registry.get_table_by_class(tyname.as_str());
        let mut result = if any_ref {
            match tc {
                Some(t) => match &t.index_type {
                    Some(it) => it.clone(),
                    None => String::from_str(base_type),
                },
                None => String::from_str(base_type),
            }
        } else {
            String::from_str(base_type)
        };
        if is_optional {
            result.append("?");
        }
        if validators.required {
            result.append("!");
        }
        let mut parts: Vec<String> = Vec::new();
        if any_ref {
            if let Some(t) = tc {
                push_line(&mut parts, concat2("ref=", qualify(t.module.as_str(), t.name.as_str()).as_str()));
            }
        }
        if let Some((min, max)) = &validators.range {
            let mut p = String::from_str("range=[");
            p.append(min.as_str());
            p.append(",");
            p.append(max.as_str());
            p.append("]");
            push_line(&mut parts, p);
        }
        if validators.set_values.len() > 0 {
            push_line(&mut parts, concat2("set=", join_strings(&validators.set_values, ",").as_str()));
        }
        if let Some(d) = default_value {
            push_line(&mut parts, concat2("default=", d));
        }
        assert(views(parts@) =~= ref_parts(any_ref, table_by_class(self.registry(), class_of(base_type@)))
            + value_parts(range_view(validators.range), views(validators.set_values@), opt_str_view(default_value)));
        if parts.len() > 0 {
            result.append("#");
            result.append(join_strings(&parts, "#").as_str());
        }
        result
    }

    /// The modifiers of a container: separator, size and index.
    fn container_modifiers(
        container: &str,
        validators: &FieldValidators,
        separator: Option<&str>,
        map_separator: Option<&str>,
    ) -> (r: Vec<String>)
        ensures
            views(r@) == container_mods(
                container@,
                opt_str_view(separator),
                opt_str_view(map_separator),
                validators.size,
                opt_view(validators.index_field),
            ),
    {
        let mut mods: Vec<String> = Vec::new();
        if crate::text::str_eq(container, "list") || crate::text::str_eq(container, "array")
            || crate::text::str_eq(container, "set") {
            if let Some(sep) = separator {
                push_line(&mut mods, concat2("sep=", sep));
            }
        }
        if crate::text::str_eq(container, "map") {
            if let Some(sep) = map_separator {
                push_line(&mut mods, concat2("sep=", sep));
            }
        }
        match &validators.size {
            Some(SizeConstraint::Exact(n)) => {
                push_line(&mut mods, concat2("size=", usize_to_decimal(*n).as_str()));
            },
            Some(SizeConstraint::Range(a, b)) => {
                let mut p = String::from_str("size=[");
                p.append(usize_to_decimal(*a).as_str());
                p.append(",");
                p.append(usize_to_decimal(*b).as_str());
                p.append("]");
                push_line(&mut mods, p);
            },
            None => {},
        }
        if let Some(index) = &validators.index_field {
            push_line(&mut mods, concat2("index=", index.as_str()));
        }
        assert(views(mods@) =~= container_mods(
            container@,
            opt_str_view(separator),
            opt_str_view(map_separator),
            validators.size,
            opt_view(validators.index_field),
        ));
        mods
    }

    /// `container,` or `(container#mods),`.
    fn container_prefix(container: &str, mods: &Vec<String>) -> (r: String)
        ensures
            r@ == container_head(container@, views(mods@)),
    {
        if mods.len() == 0 {
            concat2(container, ",")
        } else {
            let mut r = String::from_str("(");
            r.append(container);
            r.append("#");
            r.append(join_strings(mods, "#").as_str());
            r.append("),");
            r
        }
    }

    /// A container type with its validators, separators and default, e.g.
    /// `(list#sep=|),string` or `(map#sep=,|),string,int`. The element (or a
    /// map's value) takes the scalar validators; a map's key takes only the
    /// `RefKey` reference.
    #[verifier::rlimit(40)]
    fn apply_container_validators_with_module_and_separators(
        &self,
        ctype: &str,
        validators: &FieldValidators,
        separator: Option<&str>,
        map_separator: Option<&str>,
        default_value: Option<&str>,
    ) -> (r: String)
        ensures
            r@ == container_type(
                self.registry(),
                ctype@,
                *validators,
                opt_str_view(separator),
                opt_str_view(map_separator),
                opt_str_view(default_value),
            ),
    {
        let (container, rest) = match split_first_comma(ctype) {
            Some(parts) => parts,
            None => return String::from_str(ctype),
        };
        let mods = Self::container_modifiers(container.as_str(), validators, separator, map_separator);
        if crate::text::str_eq(container.as_str(), "map") {
            if let Some((key_type, value_type)) = split_first_comma(rest.as_str()) {
                let key_validators = FieldValidators {
                    has_ref: validators.has_ref_key,
                    has_ref_key: false,
                    range: None,
                    required: false,
                    size: None,
                    set_values: Vec::new(),
                    index_field: None,
                    nominal: false,
                    ref_target: None,
                };
                let key = self.apply_scalar_validators_with_default(key_type.as_str(), &key_validators, false, None);
                let value_validators = FieldValidators {
                    has_ref: validators.has_ref,
                    has_ref_key: false,
                    range: crate::parser::field_info::copy_range(&validators.range),
                    required: validators.required,
                    size: None,
                    set_values: crate::text::copy_strings(&validators.set_values),
                    index_field: None,
                    nominal: validators.nominal,
                    ref_target: None,
                };
                let value = self.apply_scalar_validators_with_default(value_type.as_str(), &value_validators, false, None);
                let mut r = Self::container_prefix("map", &mods);
                r.append(key.as_str());
                r.append(",");
                r.append(value.as_str());
                if let Some(d) = default_value {
                    r.append("#default=");
                    r.append(d);
                }
                return r;
            }
        }
        let element_validators = FieldValidators {
            has_ref: validators.has_ref || validators.has_ref_key,
            has_ref_key: false,
            range: crate::parser::field_info::copy_range(&validators.range),
            required: validators.required,
            size: None,
            set_values: crate::text::copy_strings(&validators.set_values),
            index_field: None,
            nominal: validators.nominal,
            ref_target: None,
        };
        let element = self.apply_scalar_validators_with_default(rest.as_str(), &element_validators, false, None);
        let mut r = Self::container_prefix(container.as_str(), &mods);
        r.append(element.as_str());
        if let Some(d) = default_value {
            r.append("#default=");
            r.append(d);
        }
        r
    }
}

/// The `tags` attribute of a list of tags joined by commas, or nothing without tags.
pub open spec fn tags_attr(tags: Seq<Seq<char>>) -> Seq<char> {
    if tags.len() == 0 {
        Seq::empty()
    } else {
        " tags=\""@ + escape_xml_spec(joined(tags, ","@)) + "\""@
    }
}

/// The string of an option, as a list of zero or one item.
pub open spec fn opt_seq(o: Option<String>) -> Seq<Seq<char>> {
    match o {
        Some(s) => seq![s@],
        None => Seq::empty(),
    }
}

/// The line of a bean field.
pub open spec fn var_line(
    name: Seq<char>,
    ty: Seq<char>,
    alias: Option<Seq<char>>,
    comment: Option<Seq<char>>,
    tags: Seq<char>,
) -> Seq<char> {
    "        <var name=\""@ + name + "\" type=\""@ + ty + "\""@ + opt_attr("alias"@, alias) + opt_attr(
        "comment"@,
        comment,
    ) + tags + "/>"@
}

/// Whether a Luban type is a container (`list,`, `map,`, `array,` or `set,`).
pub open spec fn is_container(t: Seq<char>) -> bool {
    is_prefix("list,"@, t) || is_prefix("map,"@, t) || is_prefix("array,"@, t) || is_prefix(
        "set,"@,
        t,
    )
}

/// The `?` of an optional field.
pub open spec fn optional_mark(optional: bool) -> Seq<char> {
    if optional {
        "?"@
    } else {
        Seq::empty()
    }
}

/// The tags of an ordinary field: `RefOverride=true` for `@ref`,
/// `ObjectFactory=true` for an object factory, then the custom tags.
pub open spec fn plain_tags(f: FieldInfo) -> Seq<Seq<char>> {
    (if f.validators.has_ref {
        seq!["RefOverride=true"@]
    } else {
        Seq::empty()
    }) + (if f.is_object_factory {
        seq!["ObjectFactory=true"@]
    } else {
        Seq::empty()
    }) + opt_seq(f.custom_tags)
}

/// The mapped type of an ordinary field before its validators: the `@type`
/// override or the mapped TypeScript type, with module prefixes.
pub open spec fn field_base_type(
    g: &XmlGenerator,
    f: FieldInfo,
    cur: Seq<char>,
    c2m: Map<Seq<char>, Seq<char>>,
    imports: Map<Seq<char>, Seq<char>>,
) -> Seq<char> {
    let m0 = match f.type_override {
        Some(t) => t@,
        None => map_full(g.mapper(), f.field_type@),
    };
    resolve_full(g.file_map(), m0, cur, c2m, imports)
}

/// The full type of an ordinary field, with its validators.
pub open spec fn field_full_type(
    g: &XmlGenerator,
    f: FieldInfo,
    cur: Seq<char>,
    c2m: Map<Seq<char>, Seq<char>>,
    imports: Map<Seq<char>, Seq<char>>,
) -> Seq<char> {
    let t = field_base_type(g, f, cur, c2m, imports);
    if is_container(t) {
        container_type(
            g.registry(),
            t,
            f.validators,
            opt_view(f.separator),
            opt_view(f.map_separator),
            opt_view(f.default_value),
        )
    } else {
        scalar_type(
            g.registry(),
            t,
            f.validators.has_ref || f.validators.has_ref_key,
            range_view(f.validators.range),
            f.validators.required,
            views(f.validators.set_values@),
            f.is_optional,
            opt_view(f.default_value),
        )
    }
}

/// The field named by `@RefReplace` (meaningful when there is one).
pub open spec fn ref_field_of(f: FieldInfo) -> Seq<char> {
    match f.ref_replace {
        Some(rr) => rr.1@,
        None => Seq::empty(),
    }
}

/// The table that `@RefReplace` refers to, when it is configured.
pub open spec fn ref_replace_table(g: &XmlGenerator, f: FieldInfo) -> Option<ResolvedView> {
    match f.ref_replace {
        Some(rr) => table_by_class(g.registry(), rr.0@),
        None => None,
    }
}

/// The line of a field:
/// - `@RefReplace<T, "field">` of a configured table: the index type of
///   `T`'s table (`int` when unknown) with `#ref=` to that table, and the tag
///   `RefOverride=field`;
/// - `Constructor<T>`: `string#constructor=T`;
/// - otherwise the mapped type with its validators.
pub open spec fn field_line(
    g: &XmlGenerator,
    f: FieldInfo,
    cur: Seq<char>,
    c2m: Map<Seq<char>, Seq<char>>,
    imports: Map<Seq<char>, Seq<char>>,
) -> Seq<char> {
    let alias = opt_view(f.alias);
    let comment = opt_view(f.comment);
    if ref_replace_table(g, f) is Some {
        let tc = ref_replace_table(g, f)->0;
        let ty = (match tc.index_type {
            Some(it) => it,
            None => "int"@,
        }) + optional_mark(f.is_optional) + "#ref="@ + qualified(tc.module, tc.name);
        var_line(
            f.name@,
            ty,
            alias,
            comment,
            tags_attr(seq!["RefOverride="@ + ref_field_of(f)] + opt_seq(f.custom_tags)),
        )
    } else if f.is_constructor && f.constructor_inner_type is Some {
        let ty = "string"@ + optional_mark(f.is_optional) + "#constructor="@ + resolve_type(
            g.file_map(),
            f.constructor_inner_type->0@,
            cur,
            c2m,
            imports,
        );
        var_line(f.name@, ty, alias, comment, opt_attr("tags"@, opt_view(f.custom_tags)))
    } else {
        var_line(
            f.name@,
            field_full_type(g, f, cur, c2m, imports),
            alias,
            comment,
            tags_attr(plain_tags(f)),
        )
    }
}

/// A `@RefReplace<T, "f">` field whose class `T` has a configured table
/// refers to that table: its line starts with the field's name and the type
/// made of the table's index type (`int` while none is known), a `?` for an
/// optional field, and `#ref=` with the table's name qualified by its module.
#[verifier::spinoff_prover]
#[verifier::rlimit(40)]
pub proof fn law_ref_replace_field(
    g: &XmlGenerator,
    f: FieldInfo,
    cur: Seq<char>,
    c2m: Map<Seq<char>, Seq<char>>,
    imports: Map<Seq<char>, Seq<char>>,
    tc: ResolvedView,
)
    requires
        f.ref_replace is Some,
        table_by_class(g.registry(), (f.ref_replace->0).0@) == Some(tc),
    ensures
        is_prefix(
            "        <var name=\""@ + f.name@ + "\" type=\""@ + (match tc.index_type {
                Some(it) => it,
                None => "int"@,
            }) + (if f.is_optional {
                "?"@
            } else {
                Seq::empty()
            }) + "#ref="@ + (if tc.module.len() == 0 {
                tc.name
            } else {
                tc.module + "."@ + tc.name
            }) + "\""@,
            field_line(g, f, cur, c2m, imports),
        ),
{
    let it = match tc.index_type {
        Some(x) => x,
        None => "int"@,
    };
    let mark = if f.is_optional {
        "?"@
    } else {
        Seq::<char>::empty()
    };
    let q = if tc.module.len() == 0 {
        tc.name
    } else {
        tc.module + "."@ + tc.name
    };
    let ty = it + mark + "#ref="@ + q;
    assert(optional_mark(f.is_optional) == mark);
    assert(qualified(tc.module, tc.name) == q);
    assert(ref_replace_table(g, f) == Some(tc));
    let tags = tags_attr(seq!["RefOverride="@ + ref_field_of(f)] + opt_seq(f.custom_tags));
    let line = field_line(g, f, cur, c2m, imports);
    assert(line == var_line(f.name@, ty, opt_view(f.alias), opt_view(f.comment), tags));
    let head = "        <var name=\""@ + f.name@ + "\" type=\""@ + it + mark + "#ref="@ + q + "\""@;
    let rest = opt_attr("alias"@, opt_view(f.alias)) + opt_attr("comment"@, opt_view(f.comment)) + tags + "/>"@;
    assert(line =~= head + rest);
    assert(line.subrange(0, head.len() as int) =~= head);
}

impl<'a> XmlGenerator<'a> {
    /// The full type of an ordinary field, with its validators.
    fn field_type_text(
        &self,
        field: &FieldInfo,
        current_module: &str,
        class_to_module: &StrTable<String>,
        imports: &StrTable<String>,
    ) -> (r: String)
        ensures
            r@ == field_full_type(self, *field, current_module@, class_to_module.view_map(), imports.view_map()),
    {
        let mapped = match &field.type_override {
            Some(t) => t.clone(),
            None => self.type_mapper.map_full_type(field.field_type.as_str()),
        };
        let resolved = self.resolve_full_type_with_imports(mapped.as_str(), current_module, class_to_module, imports);
        let is_container = has_prefix(resolved.as_str(), "list,") || has_prefix(resolved.as_str(), "map,")
            || has_prefix(resolved.as_str(), "array,") || has_prefix(resolved.as_str(), "set,");
        if is_container {
            self.apply_container_validators_with_module_and_separators(
                resolved.as_str(),
                &field.validators,
                opt_str(&field.separator),
                opt_str(&field.map_separator),
                opt_str(&field.default_value),
            )
        } else {
            self.apply_scalar_validators_with_default(
                resolved.as_str(),
                &field.validators,
                field.is_optional,
                opt_str(&field.default_value),
            )
        }
    }

    /// Appends the line of a field; see `field_line`.
    fn generate_field_with_imports(
        &self,
        lines: &mut Vec<String>,
        field: &FieldInfo,
        current_module: &str,
        class_to_module: &StrTable<String>,
        imports: &StrTable<String>,
    )
        ensures
            views(final(lines)@) == views(old(lines)@).push(
                field_line(self, *field, current_module@, class_to_module.view_map(), imports.view_map()),
            ),
    {
        if let Some((ref_type, ref_field)) = &field.ref_replace {
            if let Some(tc) = self.table_registry.get_table_by_class(ref_type.as_str()) {
                let mut ty = match &tc.index_type {
                    Some(it) => it.clone(),
                    None => String::from_str("int"),
                };
                if field.is_optional {
                    ty.append("?");
                }
                ty.append("#ref=");
                ty.append(qualify(tc.module.as_str(), tc.name.as_str()).as_str());
                let mut tags: Vec<String> = Vec::new();
                push_line(&mut tags, concat2("RefOverride=", ref_field.as_str()));
                if let Some(custom) = &field.custom_tags {
                    push_line(&mut tags, custom.clone());
                }
                let tags_text = tags_attribute(&tags);
                assert(views(tags@) =~= seq!["RefOverride="@ + ref_field@] + opt_seq(field.custom_tags));
                push_line(lines, var_text(field.name.as_str(), ty.as_str(), &field.alias, &field.comment, tags_text.as_str()));
                return;
            }
        }
        if field.is_constructor {
            if let Some(ct) = &field.constructor_inner_type {
                let mut ty = String::from_str("string");
                if field.is_optional {
                    ty.append("?");
                }
                ty.append("#constructor=");
                ty.append(self.resolve_type_with_imports(ct.as_str(), current_module, class_to_module, imports).as_str());
                let tags_text = attr_escaped("tags", &field.custom_tags);
                push_line(lines, var_text(field.name.as_str(), ty.as_str(), &field.alias, &field.comment, tags_text.as_str()));
                return;
            }
        }
        let ty = self.field_type_text(field, current_module, class_to_module, imports);
        let mut tags: Vec<String> = Vec::new();
        if field.validators.has_ref {
            push_line(&mut tags, String::from_str("RefOverride=true"));
        }
        if field.is_object_factory {
            push_line(&mut tags, String::from_str("ObjectFactory=true"));
        }
        if let Some(custom) = &field.custom_tags {
            push_line(&mut tags, custom.clone());
        }
        assert(views(tags@) =~= plain_tags(*field));
        let tags_text = tags_attribute(&tags);
        push_line(lines, var_text(field.name.as_str(), ty.as_str(), &field.alias, &field.comment, tags_text.as_str()));
    }
}

/// The parent of a class: what it extends, else its single implemented
/// interface, else none.
pub open spec fn class_parent(c: ClassInfo) -> Seq<char> {
    match c.extends {
        Some(e) => e@,
        None => if c.implements@.len() == 1 {
            c.implements@[0]@
        } else {
            Seq::empty()
        },
    }
}

/// The parent of a bean: for an interface what it extends (or none), for a
/// class `class_parent`.
pub open spec fn bean_parent(c: ClassInfo) -> Seq<char> {
    if c.is_interface {
        match c.extends {
            Some(e) => e@,
            None => Seq::empty(),
        }
    } else {
        class_parent(c)
    }
}

/// The first class named `n`.
pub open spec fn first_class(all: Seq<ClassInfo>, n: Seq<char>) -> Option<ClassInfo>
    decreases all.len(),
{
    if all.len() == 0 {
        None
    } else if all[0].name@ == n {
        Some(all[0])
    } else {
        first_class(all.drop_first(), n)
    }
}

/// The names of a list of fields.
pub open spec fn field_names(fs: Seq<FieldInfo>) -> Seq<Seq<char>> {
    fs.map_values(|f: FieldInfo| f.name@)
}

/// The field names along the chain of parents starting at `name`: each parent
/// is the first class of that name, and the chain goes on with what it
/// extends; at most `fuel` parents are visited.
pub open spec fn chain_field_names(all: Seq<ClassInfo>, name: Option<Seq<char>>, fuel: nat) -> Seq<
    Seq<char>,
>
    decreases fuel,
{
    if fuel == 0 {
        Seq::empty()
    } else {
        match name {
            None => Seq::empty(),
            Some(n) => match first_class(all, n) {
                None => Seq::empty(),
                Some(c) => field_names(c.fields@) + chain_field_names(all, opt_view(c.extends), (fuel - 1) as nat),
            },
        }
    }
}

/// A name, or none when it is empty.
pub open spec fn nonempty(s: Seq<char>) -> Option<Seq<char>> {
    if s.len() == 0 {
        None
    } else {
        Some(s)
    }
}

/// The field names that a bean inherits: those along its parent chain (a
/// chain never visits more parents than there are classes).
pub open spec fn inherited_names(c: ClassInfo, all: Seq<ClassInfo>) -> Seq<Seq<char>> {
    chain_field_names(all, nonempty(bean_parent(c)), all.len() as nat)
}

/// The lines of the fields that are not in `skip` and are not `$type`.
pub open spec fn kept_field_lines(
    g: &XmlGenerator,
    fs: Seq<FieldInfo>,
    skip: Seq<Seq<char>>,
    cur: Seq<char>,
    c2m: Map<Seq<char>, Seq<char>>,
    imports: Map<Seq<char>, Seq<char>>,
) -> Seq<Seq<char>>
    decreases fs.len(),
{
    if fs.len() == 0 {
        Seq::empty()
    } else {
        let f = fs.last();
        kept_field_lines(g, fs.drop_last(), skip, cur, c2m, imports) + (if !skip.contains(f.name@)
            && f.name@ != "$type"@ {
            seq![field_line(g, f, cur, c2m, imports)]
        } else {
            Seq::empty()
        })
    }
}

/// The opening line of a bean element, with its resolved parent: name,
/// parent, alias, comment.
pub open spec fn bean_open_line(c: ClassInfo, parent: Seq<char>) -> Seq<char> {
    let comment_attr = match c.comment {
        Some(t) => if t@.len() > 0 {
            opt_attr("comment"@, Some(t@))
        } else {
            Seq::empty()
        },
        None => Seq::empty(),
    };
    let parent_attr = if parent.len() == 0 {
        Seq::empty()
    } else {
        " parent=\""@ + parent + "\""@
    };
    "    <bean name=\""@ + c.name@ + "\""@ + parent_attr + opt_attr("alias"@, opt_view(c.alias))
        + comment_attr + ">"@
}

/// The lines of a bean element: its comment, its opening line with the parent
/// resolved through the class's imports, the lines of the fields it does not
/// inherit, and the closing line.
pub open spec fn bean_lines(
    g: &XmlGenerator,
    c: ClassInfo,
    all: Seq<ClassInfo>,
    cur: Seq<char>,
    c2m: Map<Seq<char>, Seq<char>>,
) -> Seq<Seq<char>> {
    let imports = pairs_map(pair_views(c.imports@));
    let parent = resolve_type(g.file_map(), bean_parent(c), cur, c2m, imports);
    comment_line(c.comment) + seq![bean_open_line(c, parent)] + kept_field_lines(
        g,
        c.fields@,
        inherited_names(c, all),
        cur,
        c2m,
        imports,
    ) + seq!["    </bean>"@]
}

/// The position of the first class named `n`.
fn find_class(all: &[ClassInfo], n: &str) -> (r: Option<usize>)
    ensures
        r.is_none() <==> first_class(all@, n@) is None,
        r matches Some(i) ==> i < all@.len() && first_class(all@, n@) == Some(all@[i as int]),
{
    let mut i: usize = 0;
    assert(all@.skip(0) =~= all@);
    while i < all.len()
        invariant
            i <= all@.len(),
            first_class(all@, n@) == first_class(all@.skip(i as int), n@),
        decreases all@.len() - i,
    {
        assert(all@.skip(i as int)[0] == all@[i as int]);
        if crate::text::str_eq(all[i].name.as_str(), n) {
            return Some(i);
        }
        assert(all@.skip(i as int).drop_first() =~= all@.skip(i + 1));
        i += 1;
    }
    None
}

/// Appends the names of a class's fields.
fn push_field_names(names: &mut Vec<String>, c: &ClassInfo)
    ensures
        views(final(names)@) == views(old(names)@) + field_names(c.fields@),
{
    let mut j: usize = 0;
    while j < c.fields.len()
        invariant
            j <= c.fields@.len(),
            views(names@) == views(old(names)@) + field_names(c.fields@.take(j as int)),
        decreases c.fields@.len() - j,
    {
        push_line(names, c.fields[j].name.clone());
        assert(field_names(c.fields@.take(j + 1)) =~= field_names(c.fields@.take(j as int)).push(c.fields@[j as int].name@));
        j += 1;
    }
    assert(c.fields@.take(c.fields@.len() as int) =~= c.fields@);
}

/// The field names inherited from the chain of parents starting at `parent`.
fn inherited_field_names(all: &[ClassInfo], parent: &str) -> (r: Vec<String>)
    ensures
        views(r@) == chain_field_names(all@, nonempty(parent@), all@.len() as nat),
{
    let mut names: Vec<String> = Vec::new();
    let mut cur: Option<String> = if parent.is_empty() {
        None
    } else {
        Some(String::from_str(parent))
    };
    let mut fuel: usize = all.len();
    let ghost target = chain_field_names(all@, nonempty(parent@), all@.len() as nat);
    assert(views(names@) =~= Seq::<Seq<char>>::empty());
    assert(views(names@) + chain_field_names(all@, opt_view(cur), fuel as nat) =~= target);
    while fuel > 0 && cur.is_some()
        invariant
            views(names@) + chain_field_names(all@, opt_view(cur), fuel as nat) == target,
        decreases fuel,
    {
        let n = match cur {
            Some(n) => n,
            None => String::new(),
        };
        match find_class(all, n.as_str()) {
            Some(i) => {
                let ghost before = views(names@);
                push_field_names(&mut names, &all[i]);
                cur = clone_opt(&all[i].extends);
                assert(views(names@) + chain_field_names(all@, opt_view(cur), (fuel - 1) as nat)
                    =~= before + chain_field_names(all@, Some(n@), fuel as nat));
                fuel -= 1;
            },
            None => {
                assert(views(names@) + chain_field_names(all@, opt_view(cur), fuel as nat) =~= views(names@));
                cur = None;
                fuel = 0;
                assert(views(names@) + chain_field_names(all@, opt_view(cur), fuel as nat) =~= views(names@));
            },
        }
    }
    assert(views(names@) + chain_field_names(all@, opt_view(cur), fuel as nat) =~= views(names@));
    names
}

/// The parent of a class: what it extends, else its single implemented
/// interface, else none; see `class_parent`.
fn resolve_class_parent(class: &ClassInfo) -> (r: String)
    ensures
        r@ == class_parent(*class),
{
    match &class.extends {
        Some(e) => e.clone(),
        None => if class.implements.len() == 1 {
            class.implements[0].clone()
        } else {
            String::new()
        },
    }
}

impl<'a> XmlGenerator<'a> {
    /// Appends the lines of a bean element; see `bean_lines`.
    fn generate_bean_with_module_map(
        &self,
        lines: &mut Vec<String>,
        class: &ClassInfo,
        all_classes: &[ClassInfo],
        current_module: &str,
        class_to_module: &StrTable<String>,
    )
        ensures
            views(final(lines)@) == views(old(lines)@) + bean_lines(
                self,
                *class,
                all_classes@,
                current_module@,
                class_to_module.view_map(),
            ),
    {
        let parent = if class.is_interface {
            match &class.extends {
                Some(e) => e.clone(),
                None => String::new(),
            }
        } else {
            resolve_class_parent(class)
        };
        assert(parent@ == bean_parent(*class));
        let imports = StrTable::<String>::from_pairs(&class.imports);
        let resolved_parent = self.resolve_type_with_imports(parent.as_str(), current_module, class_to_module, &imports);
        let ghost start = views(lines@);
        push_comment_line(lines, &class.comment);
        let mut open = String::from_str("    <bean name=\"");
        open.append(class.name.as_str());
        open.append("\"");
        if !resolved_parent.as_str().is_empty() {
            open.append(" parent=\"");
            open.append(resolved_parent.as_str());
            open.append("\"");
        }
        open.append(attr_escaped("alias", &class.alias).as_str());
        match &class.comment {
            Some(c) => {
                if !c.as_str().is_empty() {
                    open.append(attr_escaped("comment", &class.comment).as_str());
                }
            },
            None => {},
        }
        open.append(">");
        assert(open@ == bean_open_line(*class, resolved_parent@));
        push_line(lines, open);
        let names = inherited_field_names(all_classes, parent.as_str());
        assert(views(names@) == inherited_names(*class, all_classes@));
        let ghost skip = views(names@);
        let ghost mid = views(lines@);
        let mut k: usize = 0;
        while k < class.fields.len()
            invariant
                k <= class.fields@.len(),
                skip == views(names@),
                views(lines@) == mid + kept_field_lines(
                    self,
                    class.fields@.take(k as int),
                    skip,
                    current_module@,
                    class_to_module.view_map(),
                    imports.view_map(),
                ),
            decreases class.fields@.len() - k,
        {
            let f = &class.fields[k];
            assert(class.fields@.take(k + 1).drop_last() =~= class.fields@.take(k as int));
            assert(class.fields@.take(k + 1).last() == class.fields@[k as int]);
            if !crate::text::contains_string(&names, f.name.as_str()) && !crate::text::str_eq(f.name.as_str(), "$type") {
                self.generate_field_with_imports(lines, f, current_module, class_to_module, &imports);
            }
            k += 1;
        }
        assert(class.fields@.take(class.fields@.len() as int) =~= class.fields@);
        push_line(lines, String::from_str("    </bean>"));
        assert(views(lines@) =~= start + bean_lines(self, *class, all_classes@, current_module@, class_to_module.view_map()));
    }
}

/// The comment of a module: about beans when there are classes, about enums
/// when there are only enums, generic otherwise.
pub open spec fn module_comment(has_beans: bool, has_enums: bool) -> Seq<char> {
    if has_beans {
        "自动生成的 ts class Bean 定义"@
    } else if has_enums {
        "自动生成的 ts enum 定义"@
    } else {
        "自动生成的定义"@
    }
}

/// The type-to-module map with each class that names its module added (a
/// later class overrides an earlier one).
pub open spec fn class_modules(base: Map<Seq<char>, Seq<char>>, all: Seq<ClassInfo>) -> Map<
    Seq<char>,
    Seq<char>,
>
    decreases all.len(),
{
    if all.len() == 0 {
        base
    } else {
        let m = class_modules(base, all.drop_last());
        match all.last().module_name {
            Some(x) => m.insert(all.last().name@, x@),
            None => m,
        }
    }
}

/// The names of a list of classes.
pub open spec fn class_names(cs: Seq<ClassInfo>) -> Seq<Seq<char>> {
    cs.map_values(|c: ClassInfo| c.name@)
}

/// Appends to `acc`, in order, each class of `cs` whose name `acc` does not
/// hold yet (only those with `@LubanTable` when `tables_only`).
pub open spec fn pick_classes(cs: Seq<ClassInfo>, tables_only: bool, acc: Seq<ClassInfo>) -> Seq<
    ClassInfo,
>
    decreases cs.len(),
{
    if cs.len() == 0 {
        acc
    } else {
        let c = cs[0];
        let next = if (!tables_only || c.luban_table is Some) && !class_names(acc).contains(c.name@) {
            acc.push(c)
        } else {
            acc
        };
        pick_classes(cs.drop_first(), tables_only, next)
    }
}

/// The classes of a module with duplicate names removed: first the
/// `@LubanTable` classes, then the others, each name at its first occurrence.
pub open spec fn unique_classes(cs: Seq<ClassInfo>) -> Seq<ClassInfo> {
    pick_classes(cs, false, pick_classes(cs, true, Seq::empty()))
}

proof fn lemma_pick_classes(cs: Seq<ClassInfo>, tables_only: bool, acc: Seq<ClassInfo>)
    requires
        class_names(acc).no_duplicates(),
    ensures
        class_names(pick_classes(cs, tables_only, acc)).no_duplicates(),
        forall|n: Seq<char>|
            #[trigger] class_names(acc).contains(n) ==> class_names(
                pick_classes(cs, tables_only, acc),
            ).contains(n),
        forall|i: int|
            0 <= i < cs.len() && (!tables_only || cs[i].luban_table is Some) ==> class_names(
                pick_classes(cs, tables_only, acc),
            ).contains(#[trigger] cs[i].name@),
        forall|n: Seq<char>|
            #[trigger] class_names(pick_classes(cs, tables_only, acc)).contains(n) ==> class_names(
                acc,
            ).contains(n) || class_names(cs).contains(n),
    decreases cs.len(),
{
    if cs.len() > 0 {
        let c = cs[0];
        let next = if (!tables_only || c.luban_table is Some) && !class_names(acc).contains(c.name@) {
            acc.push(c)
        } else {
            acc
        };
        assert(class_names(acc.push(c)) =~= class_names(acc).push(c.name@));
        assert(class_names(next).no_duplicates()) by {
            if next != acc {
                let ns = class_names(acc).push(c.name@);
                assert forall|a: int, b: int| 0 <= a < b < ns.len() implies ns[a] != ns[b] by {
                    if b == ns.len() - 1 {
                        assert(class_names(acc)[a] == ns[a]);
                    }
                }
            }
        }
        lemma_pick_classes(cs.drop_first(), tables_only, next);
        let r = pick_classes(cs, tables_only, acc);
        assert(class_names(next).contains(c.name@) || !(!tables_only || c.luban_table is Some))
            by {
            if (!tables_only || c.luban_table is Some) && class_names(acc).contains(c.name@) {
            } else if next != acc {
                assert(class_names(next)[class_names(next).len() - 1] == c.name@);
            }
        }
        assert forall|i: int|
            0 <= i < cs.len() && (!tables_only || cs[i].luban_table is Some) implies class_names(
            r,
        ).contains(#[trigger] cs[i].name@) by {
            if i > 0 {
                assert(cs.drop_first()[i - 1] == cs[i]);
            }
        }
        assert forall|n: Seq<char>| #[trigger] class_names(acc).contains(n) implies class_names(
            r,
        ).contains(n) by {
            let k = choose|k: int| 0 <= k < class_names(acc).len() && class_names(acc)[k] == n;
            assert(class_names(next)[k] == n);
            assert(class_names(next).contains(n));
        }
        assert forall|n: Seq<char>| #[trigger] class_names(r).contains(n) implies class_names(
            acc,
        ).contains(n) || class_names(cs).contains(n) by {
            if class_names(next).contains(n) && !class_names(acc).contains(n) {
                assert(class_names(cs)[0] == n);
            }
            if class_names(cs.drop_first()).contains(n) {
                let k = choose|k: int|
                    0 <= k < class_names(cs.drop_first()).len() && class_names(cs.drop_first())[k]
                        == n;
                assert(class_names(cs)[k + 1] == n);
            }
        }
    }
}

/// A module holds each class name once: the classes that `unique_classes`
/// keeps have distinct names, and every name of the module is among them.
pub proof fn law_unique_classes(cs: Seq<ClassInfo>)
    ensures
        class_names(unique_classes(cs)).no_duplicates(),
        forall|i: int|
            0 <= i < cs.len() ==> class_names(unique_classes(cs)).contains(#[trigger] cs[i].name@),
        forall|n: Seq<char>|
            #[trigger] class_names(unique_classes(cs)).contains(n) ==> class_names(cs).contains(n),
{
    assert(class_names(Seq::<ClassInfo>::empty()) =~= Seq::<Seq<char>>::empty());
    lemma_pick_classes(cs, true, Seq::empty());
    lemma_pick_classes(cs, false, pick_classes(cs, true, Seq::empty()));
}

/// The lines of several beans, each followed by an empty line.
pub open spec fn beans_lines(
    g: &XmlGenerator,
    cs: Seq<ClassInfo>,
    all: Seq<ClassInfo>,
    cur: Seq<char>,
    c2m: Map<Seq<char>, Seq<char>>,
) -> Seq<Seq<char>>
    decreases cs.len(),
{
    if cs.len() == 0 {
        Seq::empty()
    } else {
        beans_lines(g, cs.drop_last(), all, cur, c2m) + bean_lines(g, cs.last(), all, cur, c2m) + seq![
            Seq::<char>::empty(),
        ]
    }
}

/// The tables configured for the classes of a module, in class order, each
/// looked up by its full name `module.ClassName`.
pub open spec fn class_tables(reg: &TableRegistry, cs: Seq<ClassInfo>, module: Seq<char>) -> Seq<
    ResolvedView,
>
    decreases cs.len(),
{
    if cs.len() == 0 {
        Seq::empty()
    } else {
        let full = qualified(module, cs.last().name@);
        class_tables(reg, cs.drop_last(), module) + (if reg.tables_map().contains_key(full) {
            seq![reg.tables_map()[full]]
        } else {
            Seq::empty()
        })
    }
}

/// The table element of a configured table; `index` is given for the `map`
/// mode, `mode` for the others.
pub open spec fn table_line(t: ResolvedView) -> Seq<char> {
    "    <table name=\""@ + t.name + "\" value=\""@ + t.class_name + "\""@ + (if t.mode == "map"@ {
        " index=\""@ + t.index + "\""@
    } else {
        " mode=\""@ + t.mode + "\""@
    }) + " input=\""@ + t.input + "\" />"@
}

/// The table elements followed by an empty line, or nothing without tables.
pub open spec fn tables_section(ts: Seq<ResolvedView>) -> Seq<Seq<char>> {
    if ts.len() == 0 {
        Seq::empty()
    } else {
        ts.map_values(|t: ResolvedView| table_line(t)) + seq![Seq::<char>::empty()]
    }
}

/// The XML of a module: its opening line, its enums, its beans (see
/// `unique_classes`), the tables configured for its classes, and the closing
/// line. Types of other modules are prefixed through the generator's
/// type-to-module map, extended by the modules that `all` classes name.
pub open spec fn module_xml(
    g: &XmlGenerator,
    classes: Seq<ClassInfo>,
    enums: Seq<EnumInfo>,
    module_name: Seq<char>,
    all: Seq<ClassInfo>,
) -> Seq<char> {
    lines_text(
        seq![
            module_open_line(module_name, module_comment(classes.len() > 0, enums.len() > 0)),
            Seq::<char>::empty(),
        ] + enums_lines(enums) + beans_lines(
            g,
            unique_classes(classes),
            all,
            module_name,
            class_modules(g.type_map(), all),
        ) + tables_section(class_tables(g.registry(), classes, module_name)) + seq!["</module>"@],
    )
}

/// The classes at the given positions.
pub open spec fn classes_at(cs: Seq<ClassInfo>, idx: Seq<usize>) -> Seq<ClassInfo> {
    idx.map_values(|i: usize| cs[i as int])
}

/// Appends to `picked` the positions of the classes that `pick_classes` takes.
fn pick_class_positions(
    classes: &[ClassInfo],
    tables_only: bool,
    picked: &mut Vec<usize>,
    seen: &mut Vec<String>,
)
    requires
        forall|j: int| 0 <= j < old(picked)@.len() ==> old(picked)@[j] < classes@.len(),
        views(old(seen)@) == class_names(classes_at(classes@, old(picked)@)),
    ensures
        forall|j: int| 0 <= j < final(picked)@.len() ==> final(picked)@[j] < classes@.len(),
        views(final(seen)@) == class_names(classes_at(classes@, final(picked)@)),
        classes_at(classes@, final(picked)@) == pick_classes(
            classes@,
            tables_only,
            classes_at(classes@, old(picked)@),
        ),
{
    let ghost target = pick_classes(classes@, tables_only, classes_at(classes@, picked@));
    let mut i: usize = 0;
    assert(classes@.skip(0) =~= classes@);
    while i < classes.len()
        invariant
            i <= classes@.len(),
            forall|j: int| 0 <= j < picked@.len() ==> picked@[j] < classes@.len(),
            views(seen@) == class_names(classes_at(classes@, picked@)),
            target == pick_classes(classes@.skip(i as int), tables_only, classes_at(classes@, picked@)),
        decreases classes@.len() - i,
    {
        let c = &classes[i];
        assert(classes@.skip(i as int)[0] == classes@[i as int]);
        assert(classes@.skip(i as int).drop_first() =~= classes@.skip(i + 1));
        if (!tables_only || c.luban_table.is_some()) && !crate::text::contains_string(seen, c.name.as_str()) {
            let ghost before = picked@;
            picked.push(i);
            push_line(seen, c.name.clone());
            assert(classes_at(classes@, picked@) =~= classes_at(classes@, before).push(classes@[i as int]));
            assert(views(seen@) =~= class_names(classes_at(classes@, picked@)));
        }
        i += 1;
    }
}

/// Appends the table element of a configured table.
fn generate_table_from_config(lines: &mut Vec<String>, config: &ResolvedTableConfig)
    ensures
        views(final(lines)@) == views(old(lines)@).push(table_line(config@)),
{
    let mut l = String::from_str("    <table name=\"");
    l.append(config.name.as_str());
    l.append("\" value=\"");
    l.append(config.class_name.as_str());
    l.append("\"");
    if crate::text::str_eq(config.mode.as_str(), "map") {
        l.append(" index=\"");
        l.append(config.index.as_str());
        l.append("\"");
    } else {
        l.append(" mode=\"");
        l.append(config.mode.as_str());
        l.append("\"");
    }
    l.append(" input=\"");
    l.append(config.input.as_str());
    l.append("\" />");
    assert(l@ =~= table_line(config@));
    push_line(lines, l);
}

impl<'a> XmlGenerator<'a> {
    /// The type-to-module map extended by the modules that classes name.
    fn class_module_table(&self, all_classes: &[ClassInfo]) -> (r: StrTable<String>)
        ensures
            r.view_map() == class_modules(self.type_map(), all_classes@),
    {
        let mut t = self.type_to_module.duplicate();
        let mut i: usize = 0;
        while i < all_classes.len()
            invariant
                i <= all_classes@.len(),
                t.view_map() == class_modules(self.type_map(), all_classes@.take(i as int)),
            decreases all_classes@.len() - i,
        {
            assert(all_classes@.take(i + 1).drop_last() =~= all_classes@.take(i as int));
            let c = &all_classes[i];
            if let Some(m) = &c.module_name {
                t.insert(c.name.clone(), m.clone());
            }
            i += 1;
        }
        assert(all_classes@.take(all_classes@.len() as int) =~= all_classes@);
        t
    }

    /// The XML of a module of classes and enums; see `module_xml`.
    pub fn generate_with_all_classes_and_enums(
        &self,
        classes: &[ClassInfo],
        enums: &[EnumInfo],
        module_name: &str,
        all_classes: &[ClassInfo],
    ) -> (r: String)
        ensures
            r@ == module_xml(self, classes@, enums@, module_name@, all_classes@),
    {
        let mut lines: Vec<String> = Vec::new();
        let mut open = String::from_str("<module name=\"");
        open.append(escape_xml(module_name).as_str());
        open.append("\" comment=\"");
        if classes.len() > 0 {
            open.append("自动生成的 ts class Bean 定义");
        } else if enums.len() > 0 {
            open.append("自动生成的 ts enum 定义");
        } else {
            open.append("自动生成的定义");
        }
        open.append("\">");
        push_line(&mut lines, open);
        push_line(&mut lines, String::new());
        let class_to_module = self.class_module_table(all_classes);
        push_enums(&mut lines, enums);
        let mut picked: Vec<usize> = Vec::new();
        let mut seen: Vec<String> = Vec::new();
        assert(classes_at(classes@, picked@) =~= Seq::<ClassInfo>::empty());
        assert(views(seen@) =~= class_names(classes_at(classes@, picked@)));
        pick_class_positions(classes, true, &mut picked, &mut seen);
        pick_class_positions(classes, false, &mut picked, &mut seen);
        let ghost uniq = classes_at(classes@, picked@);
        let ghost c2m = class_to_module.view_map();
        let ghost before_beans = views(lines@);
        let mut k: usize = 0;
        while k < picked.len()
            invariant
                k <= picked@.len(),
                forall|j: int| 0 <= j < picked@.len() ==> picked@[j] < classes@.len(),
                uniq == classes_at(classes@, picked@),
                c2m == class_to_module.view_map(),
                views(lines@) == before_beans + beans_lines(self, uniq.take(k as int), all_classes@, module_name@, c2m),
            decreases picked@.len() - k,
        {
            assert(uniq.take(k + 1).drop_last() =~= uniq.take(k as int));
            assert(uniq.take(k + 1).last() == classes@[picked@[k as int] as int]);
            self.generate_bean_with_module_map(&mut lines, &classes[picked[k]], all_classes, module_name, &class_to_module);
            push_line(&mut lines, String::new());
            k += 1;
        }
        assert(uniq.take(picked@.len() as int) =~= uniq);
        let ghost before_tables = views(lines@);
        let mut tables: Vec<&ResolvedTableConfig> = Vec::new();
        let mut i: usize = 0;
        while i < classes.len()
            invariant
                i <= classes@.len(),
                tables@.map_values(|t: &ResolvedTableConfig| t@) == class_tables(self.registry(), classes@.take(i as int), module_name@),
            decreases classes@.len() - i,
        {
            assert(classes@.take(i + 1).drop_last() =~= classes@.take(i as int));
            let full = qualify(module_name, classes[i].name.as_str());
            let ghost prev = tables@;
            match self.table_registry.get_table(full.as_str()) {
                Some(t) => {
                    tables.push(t);
                    assert(tables@.map_values(|t: &ResolvedTableConfig| t@) =~= prev.map_values(|t: &ResolvedTableConfig| t@).push(t@));
                },
                None => {},
            }
            i += 1;
        }
        assert(classes@.take(classes@.len() as int) =~= classes@);
        let ghost ts = tables@.map_values(|t: &ResolvedTableConfig| t@);
        if tables.len() > 0 {
            let mut j: usize = 0;
            while j < tables.len()
                invariant
                    j <= tables@.len(),
                    ts == tables@.map_values(|t: &ResolvedTableConfig| t@),
                    views(lines@) == before_tables + ts.take(j as int).map_values(|t: ResolvedView| table_line(t)),
                decreases tables@.len() - j,
            {
                generate_table_from_config(&mut lines, tables[j]);
                assert(ts.take(j + 1).map_values(|t: ResolvedView| table_line(t)) =~= ts.take(j as int).map_values(|t: ResolvedView| table_line(t)).push(table_line(ts[j as int])));
                j += 1;
            }
            assert(ts.take(tables@.len() as int) =~= ts);
            push_line(&mut lines, String::new());
        }
        assert(views(lines@) =~= before_tables + tables_section(ts));
        push_line(&mut lines, String::from_str("</module>"));
        assert(views(lines@) =~= seq![
            module_open_line(module_name@, module_comment(classes@.len() > 0, enums@.len() > 0)),
            Seq::<char>::empty(),
        ] + enums_lines(enums@) + beans_lines(
            self,
            unique_classes(classes@),
            all_classes@,
            module_name@,
            class_modules(self.type_map(), all_classes@),
        ) + tables_section(class_tables(self.registry(), classes@, module_name@)) + seq!["</module>"@]);
        lines_to_text(&lines)
    }

    /// The XML of a module whose classes' references are resolved among `all_classes`.
    pub fn generate_with_all_classes(&self, classes: &[ClassInfo], module_name: &str, all_classes: &[ClassInfo]) -> (r: String)
        ensures
            r@ == module_xml(self, classes@, Seq::empty(), module_name@, all_classes@),
    {
        let no_enums: Vec<EnumInfo> = Vec::new();
        assert(no_enums@ =~= Seq::<EnumInfo>::empty());
        self.generate_with_all_classes_and_enums(classes, no_enums.as_slice(), module_name, all_classes)
    }

    /// The XML of a module of classes, resolved among themselves.
    pub fn generate(&self, classes: &[ClassInfo], module_name: &str) -> (r: String)
        ensures
            r@ == module_xml(self, classes@, Seq::empty(), module_name@, classes@),
    {
        self.generate_with_all_classes(classes, module_name, classes)
    }
}

/// The `size=` and `index=` modifiers of a container.
pub open spec fn size_index_mods(v: FieldValidators) -> Seq<Seq<char>> {
    size_parts(v.size) + (match v.index_field {
        Some(i) => seq!["index="@ + i@],
        None => Seq::empty(),
    })
}

/// A container type with its size and index modifiers and its element's
/// `@ref`, range, required and set validators; the rest after the first
/// comma is taken as the element. A type without a comma is left as it is.
pub open spec fn simple_container_type(reg: &TableRegistry, ct: Seq<char>, v: FieldValidators) -> Seq<char> {
    if !has_char(ct, ',') {
        ct
    } else {
        let c = ct.take(first_index(ct, ','));
        let rest = ct.skip(first_index(ct, ',') + 1);
        container_head(c, size_index_mods(v)) + scalar_type(
            reg,
            rest,
            v.has_ref,
            range_view(v.range),
            v.required,
            views(v.set_values@),
            false,
            None,
        )
    }
}

/// The table element of a class with `@LubanTable`: the table is named after
/// the class followed by `Table`, and its value is the class.
pub open spec fn class_table_line(c: ClassInfo, input: Seq<char>, output: Seq<char>) -> Seq<char> {
    let t = c.luban_table->0;
    "    <table name=\""@ + c.name@ + "Table\" value=\""@ + c.name@ + "\" mode=\""@ + t.mode@ + "\" index=\""@
        + t.index@ + "\" input=\""@ + input + "\" output=\""@ + output + "\""@ + (match t.group {
        Some(g) => " group=\""@ + g@ + "\""@,
        None => Seq::empty(),
    }) + (match t.tags {
        Some(x) => " tags=\""@ + x@ + "\""@,
        None => Seq::empty(),
    }) + " />"@
}

/// The table element of a class with `@LubanTable`, with its input and output.
pub fn generate_table(class: &ClassInfo, input: &str, output: &str) -> (r: String)
    requires
        class.luban_table is Some,
    ensures
        r@ == class_table_line(*class, input@, output@),
{
    let config = match &class.luban_table {
        Some(t) => t,
        None => return String::new(),
    };
    let mut l = String::from_str("    <table name=\"");
    l.append(class.name.as_str());
    l.append("Table\" value=\"");
    l.append(class.name.as_str());
    l.append("\" mode=\"");
    l.append(config.mode.as_str());
    l.append("\" index=\"");
    l.append(config.index.as_str());
    l.append("\" input=\"");
    l.append(input);
    l.append("\" output=\"");
    l.append(output);
    l.append("\"");
    if let Some(g) = &config.group {
        l.append(" group=\"");
        l.append(g.as_str());
        l.append("\"");
    }
    if let Some(t) = &config.tags {
        l.append(" tags=\"");
        l.append(t.as_str());
        l.append("\"");
    }
    l.append(" />");
    assert(l@ =~= class_table_line(*class, input@, output@));
    l
}

impl<'a> XmlGenerator<'a> {
    /// A scalar type with its `@ref` (not `RefKey`), range, required and set
    /// validators, e.g. `int!#ref=examples.TbItem#range=[1,100]`.
    fn apply_scalar_validators(&self, base_type: &str, validators: &FieldValidators, is_optional: bool) -> (r: String)
        ensures
            r@ == scalar_type(
                self.registry(),
                base_type@,
                validators.has_ref,
                range_view(validators.range),
                validators.required,
                views(validators.set_values@),
                is_optional,
                None,
            ),
    {
        let plain = FieldValidators {
            has_ref: validators.has_ref,
            has_ref_key: false,
            range: crate::parser::field_info::copy_range(&validators.range),
            required: validators.required,
            size: None,
            set_values: crate::text::copy_strings(&validators.set_values),
            index_field: None,
            nominal: validators.nominal,
            ref_target: None,
        };
        self.apply_scalar_validators_with_default(base_type, &plain, is_optional, None)
    }

    /// A container type with its size and index modifiers, e.g.
    /// `(list#size=4#index=id),int#ref=TbItem`; see `simple_container_type`.
    fn apply_container_validators(&self, ctype: &str, validators: &FieldValidators) -> (r: String)
        ensures
            r@ == simple_container_type(self.registry(), ctype@, *validators),
    {
        let (container, rest) = match split_first_comma(ctype) {
            Some(parts) => parts,
            None => return String::from_str(ctype),
        };
        let mut mods: Vec<String> = Vec::new();
        match &validators.size {
            Some(SizeConstraint::Exact(n)) => {
                push_line(&mut mods, concat2("size=", usize_to_decimal(*n).as_str()));
            },
            Some(SizeConstraint::Range(a, b)) => {
                let mut p = String::from_str("size=[");
                p.append(usize_to_decimal(*a).as_str());
                p.append(",");
                p.append(usize_to_decimal(*b).as_str());
                p.append("]");
                push_line(&mut mods, p);
            },
            None => {},
        }
        if let Some(index) = &validators.index_field {
            push_line(&mut mods, concat2("index=", index.as_str()));
        }
        assert(views(mods@) =~= size_index_mods(*validators));
        let element = self.apply_scalar_validators(rest.as_str(), validators, false);
        let mut r = Self::container_prefix(container.as_str(), &mods);
        r.append(element.as_str());
        r
    }

    /// `apply_container_validators` for a type whose names already carry
    /// their module prefixes.
    fn apply_container_validators_with_module(
        &self,
        ctype: &str,
        validators: &FieldValidators,
        _current_module: &str,
        _class_to_module: &StrTable<String>,
    ) -> (r: String)
        ensures
            r@ == simple_container_type(self.registry(), ctype@, *validators),
    {
        self.apply_container_validators(ctype, validators)
    }
}

/// A bean with its parent, alias and comment, as `generate_bean_type_enums_xml` takes it.
pub type BeanWithParent<'a> = (&'a str, &'a str, Option<&'a str>, Option<&'a str>);

/// The member line of a bean in its parent's type enum.
pub open spec fn bean_type_var_line(b: BeanWithParent) -> Seq<char> {
    let alias_part = match b.2 {
        Some(a) => opt_attr("alias"@, Some(a@)) + " "@,
        None => " "@,
    };
    "        <var name=\""@ + b.0@ + "\""@ + alias_part + "value=\""@ + b.0@ + "\""@ + opt_attr(
        "comment"@,
        opt_str_view(b.3),
    ) + "/>"@
}

/// The non-empty parents, in input order (with repetitions).
pub open spec fn parents_of(bs: Seq<BeanWithParent>) -> Seq<Seq<char>> {
    bs.map_values(|b: BeanWithParent| b.1@).filter(|p: Seq<char>| p.len() > 0)
}

/// The beans with parent `p`, in input order.
pub open spec fn beans_of_parent(bs: Seq<BeanWithParent>, p: Seq<char>) -> Seq<BeanWithParent> {
    bs.filter(|b: BeanWithParent| b.1@ == p)
}

/// The type enum of parent `p`, followed by an empty line.
pub open spec fn parent_enum_lines(p: Seq<char>, bs: Seq<BeanWithParent>) -> Seq<Seq<char>> {
    seq!["    <enum name=\""@ + p + "Enum\" comment=\""@ + p + " 的子类型\">"@] + beans_of_parent(
        bs,
        p,
    ).map_values(|b: BeanWithParent| bean_type_var_line(b)) + seq!["    </enum>"@, Seq::<char>::empty()]
}

/// The type enums of the parents `ps`, in that order.
pub open spec fn parents_enum_lines(ps: Seq<Seq<char>>, bs: Seq<BeanWithParent>) -> Seq<Seq<char>>
    decreases ps.len(),
{
    if ps.len() == 0 {
        Seq::empty()
    } else {
        parents_enum_lines(ps.drop_last(), bs) + parent_enum_lines(ps.last(), bs)
    }
}

/// The XML of the bean type enums: one enum per non-empty parent, parents in
/// sorted order, each listing the beans with that parent in input order.
pub open spec fn bean_type_enums_xml(bs: Seq<BeanWithParent>, module_name: Seq<char>) -> Seq<char> {
    joined(
        seq![
            "<?xml version=\"1.0\" encoding=\"utf-8\"?>"@,
            module_open_line(module_name, "自动生成的 bean 类型枚举"@),
            Seq::<char>::empty(),
        ] + parents_enum_lines(sorted_items(parents_of(bs)), bs) + seq!["</module>"@],
        "\n"@,
    )
}

/// The bean type enums XML: for each parent (sorted), an enum `ParentEnum`
/// whose members are the beans with that parent; beans without a parent are
/// left out. The lines are joined without a final newline.
pub fn generate_bean_type_enums_xml(beans_with_parents: &[BeanWithParent], module_name: &str) -> (r: String)
    ensures
        r@ == bean_type_enums_xml(beans_with_parents@, module_name@),
{
    let ghost bs = beans_with_parents@;
    let mut parents: Vec<String> = Vec::new();
    let mut i: usize = 0;
    while i < beans_with_parents.len()
        invariant
            i <= beans_with_parents.len(),
            bs == beans_with_parents@,
            views(parents@) == bs.take(i as int).map_values(|b: BeanWithParent| b.1@).filter(
                |p: Seq<char>| p.len() > 0,
            ),
        decreases beans_with_parents.len() - i,
    {
        let b = beans_with_parents[i];
        let ghost prev = views(parents@);
        proof {
            reveal_with_fuel(Seq::<Seq<char>>::filter, 1);
            assert(bs.take(i + 1).map_values(|b: BeanWithParent| b.1@).drop_last() =~= bs.take(i as int).map_values(
                |b: BeanWithParent| b.1@,
            ));
            assert(bs.take(i + 1).map_values(|b: BeanWithParent| b.1@).last() == b.1@);
        }
        if !b.1.is_empty() {
            let p = String::from_str(b.1);
            proof {
                lemma_views_push(parents@, p);
            }
            parents.push(p);
        }
        i += 1;
    }
    assert(bs.take(bs.len() as int) =~= bs);
    let sorted = sorted_distinct(&parents);
    let mut lines: Vec<String> = Vec::new();
    push_line(&mut lines, String::from_str("<?xml version=\"1.0\" encoding=\"utf-8\"?>"));
    let mut open = String::from_str("<module name=\"");
    open.append(escape_xml(module_name).as_str());
    open.append("\" comment=\"");
    open.append("自动生成的 bean 类型枚举");
    open.append("\">");
    push_line(&mut lines, open);
    push_line(&mut lines, String::new());
    let ghost head = views(lines@);
    let mut k: usize = 0;
    while k < sorted.len()
        invariant
            k <= sorted.len(),
            bs == beans_with_parents@,
            views(lines@) == head + parents_enum_lines(views(sorted@).take(k as int), bs),
        decreases sorted.len() - k,
    {
        let p = &sorted[k];
        let mut l = String::from_str("    <enum name=\"");
        l.append(p.as_str());
        l.append("Enum\" comment=\"");
        l.append(p.as_str());
        l.append(" 的子类型\">");
        push_line(&mut lines, l);
        let ghost start = views(lines@);
        let mut j: usize = 0;
        while j < beans_with_parents.len()
            invariant
                j <= beans_with_parents.len(),
                bs == beans_with_parents@,
                views(lines@) == start + bs.take(j as int).filter(|b: BeanWithParent| b.1@ == p@).map_values(
                    |b: BeanWithParent| bean_type_var_line(b),
                ),
            decreases beans_with_parents.len() - j,
        {
            let b = beans_with_parents[j];
            proof {
                reveal_with_fuel(Seq::<BeanWithParent>::filter, 1);
                assert(bs.take(j + 1).drop_last() =~= bs.take(j as int));
            }
            if crate::text::str_eq(b.1, p.as_str()) {
                let mut v = String::from_str("        <var name=\"");
                v.append(b.0);
                v.append("\"");
                match b.2 {
                    Some(a) => {
                        v.append(" ");
                        v.append("alias");
                        v.append("=\"");
                        v.append(escape_xml(a).as_str());
                        v.append("\"");
                        v.append(" ");
                    },
                    None => {
                        v.append(" ");
                    },
                }
                v.append("value=\"");
                v.append(b.0);
                v.append("\"");
                match b.3 {
                    Some(c) => {
                        v.append(" ");
                        v.append("comment");
                        v.append("=\"");
                        v.append(escape_xml(c).as_str());
                        v.append("\"");
                    },
                    None => {},
                }
                v.append("/>");
                assert(v@ =~= bean_type_var_line(b));
                push_line(&mut lines, v);
                assert(views(lines@) =~= start + bs.take(j + 1).filter(|b: BeanWithParent| b.1@ == p@).map_values(
                    |b: BeanWithParent| bean_type_var_line(b),
                ));
            } else {
                assert(views(lines@) =~= start + bs.take(j + 1).filter(|b: BeanWithParent| b.1@ == p@).map_values(
                    |b: BeanWithParent| bean_type_var_line(b),
                ));
            }
            j += 1;
        }
        assert(bs.take(bs.len() as int) =~= bs);
        push_line(&mut lines, String::from_str("    </enum>"));
        push_line(&mut lines, String::new());
        proof {
            assert(views(sorted@).take(k + 1).drop_last() =~= views(sorted@).take(k as int));
            assert(views(lines@) =~= head + parents_enum_lines(views(sorted@).take(k + 1), bs));
        }
        k += 1;
    }
    assert(views(sorted@).take(sorted@.len() as int) =~= views(sorted@));
    push_line(&mut lines, String::from_str("</module>"));
    assert(views(lines@) =~= seq![
        "<?xml version=\"1.0\" encoding=\"utf-8\"?>"@,
        module_open_line(module_name@, "自动生成的 bean 类型枚举"@),
        Seq::<char>::empty(),
    ] + parents_enum_lines(sorted_items(parents_of(bs)), bs) + seq!["</module>"@]);
    join_strings(&lines, "\n")
}

} // verus!
