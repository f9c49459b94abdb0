//! Luban type strings of fields: module prefixes, validators and containers.
use crate::assoc::{StrTable, pairs_map, pair_views};
use crate::config::opt_view;
use crate::parser::{FieldValidators, SizeConstraint};
use crate::paths::path_normal;
use crate::table_registry::{ResolvedTableConfig, ResolvedView, TableRegistry, class_of, qualified, table_by_class};
use crate::text::{
    chars_of, concat2, decimal, find_char, first_index, has_char, is_prefix, join_strings, joined,
    lemma_views_push, rfind_char, slice_to_vec, starts_with, string_of, usize_to_decimal, views,
};
use vstd::prelude::*;

verus! {

/// A type name with the module it belongs to, when that is another module:
/// the module of the file the name was imported from, if the import and the
/// file are known (files compared as paths), else the module recorded for
/// the name.
pub open spec fn resolve_type(
    file_map: Map<Seq<char>, Seq<char>>,
    tyname: Seq<char>,
    current_module: Seq<char>,
    class_to_module: Map<Seq<char>, Seq<char>>,
    imports: Map<Seq<char>, Seq<char>>,
) -> Seq<char> {
    if tyname.len() == 0 {
        Seq::empty()
    } else if imports.contains_key(tyname) && file_map.contains_key(path_normal(imports[tyname])) {
        let m = file_map[path_normal(imports[tyname])];
        if m != current_module && m.len() > 0 {
            m + "."@ + tyname
        } else {
            tyname
        }
    } else if class_to_module.contains_key(tyname) && class_to_module[tyname] != current_module
        && class_to_module[tyname].len() > 0 {
        class_to_module[tyname] + "."@ + tyname
    } else {
        tyname
    }
}

/// A full type with module prefixes: the element of `list,T`, `array,T` and
/// `set,T`, key and value of `map,K,V`, or the whole type.
pub open spec fn resolve_full(
    file_map: Map<Seq<char>, Seq<char>>,
    t: Seq<char>,
    cur: Seq<char>,
    c2m: Map<Seq<char>, Seq<char>>,
    imports: Map<Seq<char>, Seq<char>>,
) -> Seq<char> {
    if is_prefix("list,"@, t) {
        "list,"@ + resolve_type(file_map, t.skip(5), cur, c2m, imports)
    } else if is_prefix("map,"@, t) && has_char(t.skip(4), ',') {
        let rest = t.skip(4);
        let k = first_index(rest, ',');
        "map,"@ + resolve_type(file_map, rest.take(k), cur, c2m, imports) + ","@ + resolve_type(
            file_map,
            rest.skip(k + 1),
            cur,
            c2m,
            imports,
        )
    } else if is_prefix("array,"@, t) {
        "array,"@ + resolve_type(file_map, t.skip(6), cur, c2m, imports)
    } else if is_prefix("set,"@, t) {
        "set,"@ + resolve_type(file_map, t.skip(4), cur, c2m, imports)
    } else {
        resolve_type(file_map, t, cur, c2m, imports)
    }
}

/// The view of a range.
pub open spec fn range_view(r: Option<(String, String)>) -> Option<(Seq<char>, Seq<char>)> {
    match r {
        Some((a, b)) => Some((a@, b@)),
        None => None,
    }
}

/// `#`-separated validator suffixes, or nothing.
pub open spec fn with_parts(head: Seq<char>, parts: Seq<Seq<char>>) -> Seq<char> {
    if parts.len() > 0 {
        head + "#"@ + joined(parts, "#"@)
    } else {
        head
    }
}

/// The `ref=` suffix of a scalar that refers to a table.
pub open spec fn ref_parts(any_ref: bool, tc: Option<ResolvedView>) -> Seq<Seq<char>> {
    if any_ref && tc is Some {
        seq!["ref="@ + qualified(tc->0.module, tc->0.name)]
    } else {
        Seq::empty()
    }
}

/// The `range=`, `set=` and `default=` suffixes.
pub open spec fn value_parts(
    range: Option<(Seq<char>, Seq<char>)>,
    set_values: Seq<Seq<char>>,
    default: Option<Seq<char>>,
) -> Seq<Seq<char>> {
    (match range {
        Some((a, b)) => seq!["range=["@ + a + ","@ + b + "]"@],
        None => Seq::empty(),
    }) + (if set_values.len() > 0 {
        seq!["set="@ + joined(set_values, ","@)]
    } else {
        Seq::empty()
    }) + (match default {
        Some(d) => seq!["default="@ + d],
        None => Seq::empty(),
    })
}

/// A scalar type with its validators: a reference replaces the type by the
/// index type of the referenced table (the table of the part after the last
/// dot), then come `?` when optional, `!` when required, and the `#`
/// suffixes `ref=`, `range=`, `set=`, `default=`.
pub open spec fn scalar_type(
    reg: &TableRegistry,
    base: Seq<char>,
    any_ref: bool,
    range: Option<(Seq<char>, Seq<char>)>,
    required: bool,
    set_values: Seq<Seq<char>>,
    optional: bool,
    default: Option<Seq<char>>,
) -> Seq<char> {
    let tc = table_by_class(reg, class_of(base));
    let eff = if any_ref && tc is Some {
        match tc->0.index_type {
            Some(it) => it,
            None => base,
        }
    } else {
        base
    };
    let head = eff + (if optional {
        "?"@
    } else {
        Seq::empty()
    }) + (if required {
        "!"@
    } else {
        Seq::empty()
    });
    with_parts(head, ref_parts(any_ref, tc) + value_parts(range, set_values, default))
}

/// The `size=` modifier of a container.
pub open spec fn size_parts(size: Option<SizeConstraint>) -> Seq<Seq<char>> {
    match size {
        Some(SizeConstraint::Exact(n)) => seq!["size="@ + decimal(n as nat)],
        Some(SizeConstraint::Range(a, b)) => seq![
            "size=["@ + decimal(a as nat) + ","@ + decimal(b as nat) + "]"@,
        ],
        None => Seq::empty(),
    }
}

/// The modifiers of a container: its separator, size and index.
pub open spec fn container_mods(
    container: Seq<char>,
    separator: Option<Seq<char>>,
    map_separator: Option<Seq<char>>,
    size: Option<SizeConstraint>,
    index_field: Option<Seq<char>>,
) -> Seq<Seq<char>> {
    (if (container == "list"@ || container == "array"@ || container == "set"@) && separator is Some {
        seq!["sep="@ + separator->0]
    } else {
        Seq::empty()
    }) + (if container == "map"@ && map_separator is Some {
        seq!["sep="@ + map_separator->0]
    } else {
        Seq::empty()
    }) + size_parts(size) + (match index_field {
        Some(i) => seq!["index="@ + i],
        None => Seq::empty(),
    })
}

/// `container,` or `(container#mods),`.
pub open spec fn container_head(container: Seq<char>, mods: Seq<Seq<char>>) -> Seq<char> {
    if mods.len() == 0 {
        container + ","@
    } else {
        "("@ + container + "#"@ + joined(mods, "#"@) + "),"@
    }
}

/// `#default=...`, or nothing.
pub open spec fn default_suffix(d: Option<Seq<char>>) -> Seq<char> {
    match d {
        Some(x) => "#default="@ + x,
        None => Seq::empty(),
    }
}

/// A container type with its validators: the container (split at the first
/// comma) gets its modifiers; a map's key takes `RefKey`'s reference and its
/// value the other validators; another container's element takes them all.
/// A type without a comma is left as it is.
pub open spec fn container_type(
    reg: &TableRegistry,
    ct: Seq<char>,
    v: FieldValidators,
    separator: Option<Seq<char>>,
    map_separator: Option<Seq<char>>,
    default: Option<Seq<char>>,
) -> Seq<char> {
    if !has_char(ct, ',') {
        ct
    } else {
        let c = ct.take(first_index(ct, ','));
        let rest = ct.skip(first_index(ct, ',') + 1);
        let mods = container_mods(c, separator, map_separator, v.size, opt_view(v.index_field));
        if c == "map"@ && has_char(rest, ',') {
            let k = rest.take(first_index(rest, ','));
            let val = rest.skip(first_index(rest, ',') + 1);
            container_head("map"@, mods) + scalar_type(
                reg,
                k,
                v.has_ref_key,
                None,
                false,
                Seq::empty(),
                false,
                None,
            ) + ","@ + scalar_type(
                reg,
                val,
                v.has_ref,
                range_view(v.range),
                v.required,
                views(v.set_values@),
                false,
                None,
            ) + default_suffix(default)
        } else {
            container_head(c, mods) + scalar_type(
                reg,
                rest,
                v.has_ref || v.has_ref_key,
                range_view(v.range),
                v.required,
                views(v.set_values@),
                false,
                None,
            ) + default_suffix(default)
        }
    }
}

/// Splits `s` at its first comma, if it has one.
pub fn split_first_comma(s: &str) -> (r: Option<(String, String)>)
    ensures
        r.is_none() <==> !has_char(s@, ','),
        r matches Some((a, b)) ==> a@ == s@.take(first_index(s@, ',')) && b@ == s@.skip(
            first_index(s@, ',') + 1,
        ),
{
    let cs = chars_of(s);
    match find_char(&cs, ',') {
        Some(k) => {
            let a = string_of(&slice_to_vec(&cs, 0, k));
            let b = string_of(&slice_to_vec(&cs, k + 1, cs.len()));
            assert(a@ =~= s@.take(k as int));
            assert(b@ =~= s@.skip(k + 1));
            Some((a, b))
        },
        None => None,
    }
}

/// The part of `s` after its first `n` characters.
pub fn skip_chars(s: &str, n: usize) -> (r: String)
    requires
        n <= s@.len(),
    ensures
        r@ == s@.skip(n as int),
{
    let cs = chars_of(s);
    let r = string_of(&slice_to_vec(&cs, n, cs.len()));
    assert(r@ =~= s@.skip(n as int));
    r
}

/// Whether `s` starts with `p`.
pub fn has_prefix(s: &str, p: &str) -> (r: bool)
    ensures
        r == is_prefix(p@, s@),
{
    starts_with(&chars_of(s), &chars_of(p))
}

/// The part after the last dot (all of it without one).
pub fn after_last_dot(s: &str) -> (r: String)
    ensures
        r@ == class_of(s@),
{
    let cs = chars_of(s);
    let n = cs.len();
    match rfind_char(&cs, '.') {
        Some(d) => {
            assert(d < n);
            let r = string_of(&slice_to_vec(&cs, d + 1, n));
            assert(r@ =~= s@.skip(d + 1));
            r
        },
        None => String::from_str(s),
    }
}

/// `module.name`, or `name` alone without a module.
pub fn qualify(module: &str, name: &str) -> (r: String)
    ensures
        r@ == qualified(module@, name@),
{
    if module.is_empty() {
        String::from_str(name)
    } else {
        let mut r = String::from_str(module);
        r.append(".");
        r.append(name);
        r
    }
}

} // verus!
