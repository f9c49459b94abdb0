//! Classes, interfaces and enums extracted from the declarations of a
//! TypeScript module.
use super::ast::{
    ClassDeclNode, ClassMemberNode, ClassPropNode, EnumDeclNode, EnumMemberNode, ExprNode,
    InterfaceDeclNode, ModuleItemNode, ParamPropNode, PropSigNode, TypeParamNode,
};
use super::class_info::{ClassInfo, ClassView, LubanTableConfig, LubanTableView};
use super::decorator::{
    DecoratorArg, decorator_args, decorator_head, head_name, named_args_of, parse_decorator,
    positional_args,
};
use super::enum_info::{EnumInfo, EnumVariant, EnumView, VariantView};
use super::field_info::{FieldInfo, FieldValidators, FieldView, SizeConstraint, ValidatorsView};
use super::jsdoc::{
    has_ignore_tag, has_jsdoc_ignore_tag, jsdoc_description_excluding, jsdoc_tag, opt_string_view,
    parse_jsdoc_description_excluding_tags, parse_jsdoc_tag, str_views,
};
use super::types::{
    TypeInfo, TypeInfoView, add_param_comments, const_value, convert_type,
    convert_type_extended, convert_type_with_params, eval_const_expr, get_leading_comment,
    get_param_comments, get_raw_jsdoc_comment, infer_type_from_initializer, initializer_info,
    leading_comment, opt_text, param_comments_added, plain_info, plain_type_info, raw_jsdoc,
    type_info,
};
use crate::assoc::{StrTable, pair_views, pairs_map};
use crate::text::{chars_of, contains_seq, i64_to_decimal, int_decimal, string_of, views};
use md5::{Digest, Md5};
use vstd::prelude::*;

verus! {

// ---------------------------------------------------------------- validators

/// Validators with nothing set.
pub open spec fn no_validators() -> ValidatorsView {
    ValidatorsView {
        has_ref: false,
        has_ref_key: false,
        range: None,
        required: false,
        size: None,
        set_values: Seq::empty(),
        index_field: None,
        nominal: false,
        ref_target: None,
    }
}

/// The values of `@Set`: numbers as displayed and strings, in order.
pub open spec fn set_texts(args: Seq<DecoratorArg>) -> Seq<Seq<char>>
    decreases args.len(),
{
    if args.len() == 0 {
        Seq::empty()
    } else {
        set_texts(args.drop_last()) + match args.last() {
            DecoratorArg::Number(n) => seq![n.text@],
            DecoratorArg::String(s) => seq![s@],
            _ => Seq::empty(),
        }
    }
}

/// The validators after one field decorator: `@Ref(Class)`, `@Range(min,
/// max)`, `@Required`, `@Size(n)` or `@Size(min, max)`, `@Set(...)`,
/// `@Index("field")`, `@Nominal`; other decorators, and arguments of the
/// wrong kind, change nothing.
pub open spec fn with_decorator(v: ValidatorsView, d: ExprNode) -> ValidatorsView {
    if decorator_head(d) is None {
        v
    } else {
        let n = head_name(d);
        let a = positional_args(decorator_args(d));
        if n == "Ref"@ {
            if a.len() > 0 && a[0] is Identifier {
                ValidatorsView { ref_target: Some(a[0]->Identifier_0@), ..v }
            } else {
                v
            }
        } else if n == "Range"@ {
            if a.len() >= 2 && a[0] is Number && a[1] is Number {
                ValidatorsView {
                    range: Some((a[0]->Number_0.schema_text@, a[1]->Number_0.schema_text@)),
                    ..v
                }
            } else {
                v
            }
        } else if n == "Required"@ {
            ValidatorsView { required: true, ..v }
        } else if n == "Size"@ {
            if a.len() == 1 && a[0] is Number {
                ValidatorsView { size: Some(SizeConstraint::Exact(a[0]->Number_0.size_value)), ..v }
            } else if a.len() == 2 && a[0] is Number && a[1] is Number {
                ValidatorsView {
                    size: Some(
                        SizeConstraint::Range(a[0]->Number_0.size_value, a[1]->Number_0.size_value),
                    ),
                    ..v
                }
            } else {
                v
            }
        } else if n == "Set"@ {
            ValidatorsView { set_values: v.set_values + set_texts(a), ..v }
        } else if n == "Index"@ {
            if a.len() > 0 && a[0] is String {
                ValidatorsView { index_field: Some(a[0]->String_0@), ..v }
            } else {
                v
            }
        } else if n == "Nominal"@ {
            ValidatorsView { nominal: true, ..v }
        } else {
            v
        }
    }
}

/// The validators of a field's decorators, applied in order.
pub open spec fn decorators_validators(ds: Seq<ExprNode>) -> ValidatorsView
    decreases ds.len(),
{
    if ds.len() == 0 {
        no_validators()
    } else {
        with_decorator(decorators_validators(ds.drop_last()), ds.last())
    }
}

/// Appends the `@Set` values of some arguments.
fn push_set_values(values: &mut Vec<String>, args: &Vec<DecoratorArg>)
    ensures
        views(final(values)@) == views(old(values)@) + set_texts(args@),
{
    let mut i: usize = 0;
    while i < args.len()
        invariant
            i <= args@.len(),
            views(values@) == views(old(values)@) + set_texts(args@.take(i as int)),
        decreases args@.len() - i,
    {
        assert(args@.take(i + 1).drop_last() =~= args@.take(i as int));
        assert(args@.take(i + 1).last() == args@[i as int]);
        let ghost before = views(values@);
        match &args[i] {
            DecoratorArg::Number(n) => {
                proof {
                    crate::text::lemma_views_push(values@, n.text);
                }
                values.push(n.text.clone());
            },
            DecoratorArg::String(s) => {
                proof {
                    crate::text::lemma_views_push(values@, *s);
                }
                values.push(s.clone());
            },
            _ => {},
        }
        assert(views(values@) =~= views(old(values)@) + set_texts(args@.take(i + 1)));
        i += 1;
    }
    assert(args@.take(args@.len() as int) =~= args@);
}

/// The validators of a field's decorators; see `decorators_validators`.
pub fn parse_field_decorators(decorators: &Vec<ExprNode>) -> (r: FieldValidators)
    ensures
        r@ == decorators_validators(decorators@),
{
    let mut v = FieldValidators::none();
    assert(v@.set_values =~= Seq::<Seq<char>>::empty());
    assert(v@ == no_validators());
    let mut i: usize = 0;
    while i < decorators.len()
        invariant
            i <= decorators@.len(),
            v@ == decorators_validators(decorators@.take(i as int)),
        decreases decorators@.len() - i,
    {
        assert(decorators@.take(i + 1).drop_last() =~= decorators@.take(i as int));
        assert(decorators@.take(i + 1).last() == decorators@[i as int]);
        let ghost before = v@;
        let ghost d = decorators@[i as int];
        if let Some(p) = parse_decorator(&decorators[i]) {
            let n = p.name.as_str();
            let a = &p.args;
            if crate::text::str_eq(n, "Ref") {
                if a.len() > 0 {
                    if let DecoratorArg::Identifier(c) = &a[0] {
                        v.ref_target = Some(c.clone());
                    }
                }
            } else if crate::text::str_eq(n, "Range") {
                if a.len() >= 2 {
                    if let DecoratorArg::Number(x) = &a[0] {
                        if let DecoratorArg::Number(y) = &a[1] {
                            v.range = Some((x.schema_text.clone(), y.schema_text.clone()));
                        }
                    }
                }
            } else if crate::text::str_eq(n, "Required") {
                v.required = true;
            } else if crate::text::str_eq(n, "Size") {
                if a.len() == 1 {
                    if let DecoratorArg::Number(x) = &a[0] {
                        v.size = Some(SizeConstraint::Exact(x.size_value));
                    }
                } else if a.len() == 2 {
                    if let DecoratorArg::Number(x) = &a[0] {
                        if let DecoratorArg::Number(y) = &a[1] {
                            v.size = Some(SizeConstraint::Range(x.size_value, y.size_value));
                        }
                    }
                }
            } else if crate::text::str_eq(n, "Set") {
                push_set_values(&mut v.set_values, a);
            } else if crate::text::str_eq(n, "Index") {
                if a.len() > 0 {
                    if let DecoratorArg::String(f) = &a[0] {
                        v.index_field = Some(f.clone());
                    }
                }
            } else if crate::text::str_eq(n, "Nominal") {
                v.nominal = true;
            }
        }
        assert(v@ =~= with_decorator(before, d));
        i += 1;
    }
    assert(decorators@.take(decorators@.len() as int) =~= decorators@);
    v
}

// ---------------------------------------------------------------- fields

/// `_nominal_` in the name, or one of the marker names: fields that only
/// mark a type.
pub open spec fn is_marker_name(n: Seq<char>) -> bool {
    contains_seq(n, "_nominal_"@) || n == "_is_trigger_combinator"@ || n == "_trigger_type"@
}

/// Whether a name is a marker name; see `is_marker_name`.
fn marker_name(n: &str) -> (r: bool)
    ensures
        r == is_marker_name(n@),
{
    crate::text::contains_chars(chars_of(n).as_slice(), chars_of("_nominal_").as_slice())
        || crate::text::str_eq(n, "_is_trigger_combinator") || crate::text::str_eq(n, "_trigger_type")
}

/// A field read from the source: its name, type, comment, optionality and
/// validators, nothing else.
pub open spec fn field_view(
    name: Seq<char>,
    ti: TypeInfoView,
    comment: Option<Seq<char>>,
    optional: bool,
    v: ValidatorsView,
) -> FieldView {
    FieldView {
        name,
        field_type: ti.field_type,
        comment,
        alias: None,
        is_optional: optional,
        validators: v,
        is_object_factory: ti.is_object_factory,
        factory_inner_type: ti.factory_inner_type,
        is_constructor: ti.is_constructor,
        constructor_inner_type: ti.constructor_inner_type,
        original_type: ti.original_type,
        default_value: None,
        type_override: None,
        separator: None,
        map_separator: None,
        custom_tags: None,
        ref_key_inner_type: None,
        ref_replace: None,
    }
}

/// A field read from the source; see `field_view`.
fn make_field(name: String, ti: TypeInfo, comment: Option<String>, optional: bool, v: FieldValidators) -> (r: FieldInfo)
    ensures
        r@ == field_view(name@, ti@, opt_text(comment), optional, v@),
{
    FieldInfo {
        name,
        field_type: ti.field_type,
        comment,
        alias: None,
        is_optional: optional,
        validators: v,
        is_object_factory: ti.is_object_factory,
        factory_inner_type: ti.factory_inner_type,
        is_constructor: ti.is_constructor,
        constructor_inner_type: ti.constructor_inner_type,
        original_type: ti.original_type,
        default_value: None,
        type_override: None,
        separator: None,
        map_separator: None,
        custom_tags: None,
        ref_key_inner_type: None,
        ref_replace: None,
    }
}

/// The field of a constructor parameter property: none for a parameter
/// with a default value or a marker name; `string` without a type.
pub open spec fn param_field(p: ParamPropNode, tp: Map<Seq<char>, Seq<char>>) -> Option<FieldView> {
    match p.name {
        None => None,
        Some(n) => if is_marker_name(n@) {
            None
        } else {
            let ti = match p.type_ann {
                Some(t) => type_info(t, tp),
                None => plain_info("string"@, "string"@),
            };
            Some(field_view(n@, ti, None, p.optional, decorators_validators(p.decorators@)))
        },
    }
}

/// The field of a constructor parameter property; see `param_field`.
pub fn extract_param_prop_with_type_params(prop: &ParamPropNode, type_params: &StrTable<String>) -> (r: Option<FieldInfo>)
    ensures
        match r {
            Some(f) => param_field(*prop, type_params.view_map()) == Some(f@),
            None => param_field(*prop, type_params.view_map()) is None,
        },
{
    let name = match &prop.name {
        Some(n) => n,
        None => return None,
    };
    if marker_name(name.as_str()) {
        return None;
    }
    let ti = match &prop.type_ann {
        Some(t) => convert_type_extended(t, type_params),
        None => plain_type_info("string", "string"),
    };
    let v = parse_field_decorators(&prop.decorators);
    Some(make_field(name.clone(), ti, None, prop.optional, v))
}

/// The field of a class property: none for a `private` or `protected`
/// property, a computed key or a marker name; the type from the annotation,
/// else from the initializer, else `string`; the comment before it.
pub open spec fn class_prop_field(p: ClassPropNode, tp: Map<Seq<char>, Seq<char>>) -> Option<FieldView> {
    if p.hidden {
        None
    } else {
        match p.name {
            None => None,
            Some(n) => if is_marker_name(n@) {
                None
            } else {
                let ti = match p.type_ann {
                    Some(t) => type_info(t, tp),
                    None => match p.value {
                        Some(e) => initializer_info(e, tp),
                        None => plain_info("string"@, "string"@),
                    },
                };
                Some(
                    field_view(
                        n@,
                        ti,
                        leading_comment(p.comments@),
                        p.optional,
                        decorators_validators(p.decorators@),
                    ),
                )
            },
        }
    }
}

/// The field of a class property; see `class_prop_field`.
pub fn extract_class_prop_with_type_params(prop: &ClassPropNode, type_params: &StrTable<String>) -> (r: Option<FieldInfo>)
    ensures
        match r {
            Some(f) => class_prop_field(*prop, type_params.view_map()) == Some(f@),
            None => class_prop_field(*prop, type_params.view_map()) is None,
        },
{
    if prop.hidden {
        return None;
    }
    let name = match &prop.name {
        Some(n) => n,
        None => return None,
    };
    if marker_name(name.as_str()) {
        return None;
    }
    let ti = match &prop.type_ann {
        Some(t) => convert_type_extended(t, type_params),
        None => match &prop.value {
            Some(e) => infer_type_from_initializer(e, type_params),
            None => plain_type_info("string", "string"),
        },
    };
    let comment = get_leading_comment(&prop.comments);
    let v = parse_field_decorators(&prop.decorators);
    Some(make_field(name.clone(), ti, comment, prop.optional, v))
}

/// The field of an interface property signature: none when the key is not a
/// name; no validators.
pub open spec fn interface_prop_field(p: PropSigNode, tp: Map<Seq<char>, Seq<char>>) -> Option<FieldView> {
    match p.key {
        ExprNode::Ident(n) => {
            let ti = match p.type_ann {
                Some(t) => type_info(t, tp),
                None => plain_info("string"@, "string"@),
            };
            Some(field_view(n@, ti, leading_comment(p.comments@), p.optional, no_validators()))
        },
        _ => None,
    }
}

/// The field of an interface property signature; see `interface_prop_field`.
pub fn extract_interface_prop_with_type_params(prop: &PropSigNode, type_params: &StrTable<String>) -> (r: Option<FieldInfo>)
    ensures
        match r {
            Some(f) => interface_prop_field(*prop, type_params.view_map()) == Some(f@),
            None => interface_prop_field(*prop, type_params.view_map()) is None,
        },
{
    let name = match &prop.key {
        ExprNode::Ident(n) => n,
        _ => return None,
    };
    let ti = match &prop.type_ann {
        Some(t) => convert_type_extended(t, type_params),
        None => plain_type_info("string", "string"),
    };
    let comment = get_leading_comment(&prop.comments);
    let v = FieldValidators::none();
    assert(v@.set_values =~= Seq::<Seq<char>>::empty());
    assert(v@ == no_validators());
    Some(make_field(name.clone(), ti, comment, prop.optional, v))
}

// ---------------------------------------------------------------- type parameters

/// The type parameters (the first three) with a constraint, each mapped to
/// the schema name of its constraint; a later one overrides.
pub open spec fn type_params_added(m: Map<Seq<char>, Seq<char>>, ps: Seq<TypeParamNode>) -> Map<Seq<char>, Seq<char>>
    decreases ps.len(),
{
    if ps.len() == 0 {
        m
    } else {
        let m2 = type_params_added(m, ps.drop_last());
        match ps.last().constraint {
            Some(c) => m2.insert(ps.last().name@, convert_type(c, Map::empty())),
            None => m2,
        }
    }
}

/// The type parameters of a declaration; see `type_params_added`.
pub open spec fn decl_type_params(tps: Option<Vec<TypeParamNode>>) -> Map<Seq<char>, Seq<char>> {
    match tps {
        None => Map::empty(),
        Some(v) => type_params_added(
            Map::empty(),
            v@.take(if v@.len() < 3 {
                v@.len() as int
            } else {
                3
            }),
        ),
    }
}

/// The type parameters of a declaration; see `decl_type_params`.
pub fn extract_type_params(type_params: &Option<Vec<TypeParamNode>>) -> (r: StrTable<String>)
    ensures
        r.view_map() == decl_type_params(*type_params),
{
    let mut result: StrTable<String> = StrTable::new();
    assert(result.view_map() =~= Map::<Seq<char>, Seq<char>>::empty());
    let empty: StrTable<String> = StrTable::new();
    assert(empty.view_map() =~= Map::<Seq<char>, Seq<char>>::empty());
    if let Some(params) = type_params {
        let n: usize = if params.len() < 3 {
            params.len()
        } else {
            3
        };
        let mut i: usize = 0;
        while i < n
            invariant
                i <= n <= params@.len(),
                empty.view_map() == Map::<Seq<char>, Seq<char>>::empty(),
                result.view_map() == type_params_added(Map::empty(), params@.take(i as int)),
            decreases n - i,
        {
            assert(params@.take(i + 1).drop_last() =~= params@.take(i as int));
            assert(params@.take(i + 1).last() == params@[i as int]);
            let p = &params[i];
            if let Some(c) = &p.constraint {
                result.insert(p.name.clone(), convert_type_with_params(c, &empty));
            }
            i += 1;
        }
    }
    result
}

// ---------------------------------------------------------------- enums

/// What extracting an enum keeps track of, member by member: the next
/// automatic value, the values of the numeric members so far, whether a
/// member had a string value, and the members read.
pub struct EnumState {
    pub auto: i64,
    pub vals: Map<Seq<char>, i64>,
    pub is_string: bool,
    pub variants: Seq<VariantView>,
}

/// The alias of a member or declaration: its JSDoc `@alias` tag.
pub open spec fn alias_of(raw: Option<Seq<char>>) -> Option<Seq<char>> {
    match raw {
        Some(c) => jsdoc_tag(c, "alias"@),
        None => None,
    }
}

/// The state after one enum member: a string initializer gives its string;
/// another initializer its constant value (see `const_value`), else the
/// automatic value; no initializer the automatic value. A numeric member's
/// value is remembered, and the automatic value becomes the value plus one
/// (wrapping).
pub open spec fn member_step(st: EnumState, m: EnumMemberNode) -> EnumState {
    let raw = raw_jsdoc(m.comments@);
    let alias = alias_of(raw);
    let comment = match raw {
        Some(c) => Some(jsdoc_description_excluding(c, seq!["alias"@])),
        None => None,
    };
    match m.init {
        Some(ExprNode::Str(s)) => EnumState {
            is_string: true,
            variants: st.variants.push(VariantView { name: m.name@, alias, value: s@, comment }),
            ..st
        },
        _ => {
            let v = match m.init {
                Some(e) => match const_value(e, st.vals) {
                    Some(x) => x,
                    None => st.auto,
                },
                None => st.auto,
            };
            EnumState {
                auto: vstd::wrapping::i64_specs::wrapping_add(v, 1),
                vals: st.vals.insert(m.name@, v),
                is_string: st.is_string,
                variants: st.variants.push(
                    VariantView { name: m.name@, alias, value: int_decimal(v as int), comment },
                ),
            }
        },
    }
}

/// The state after a list of members, starting with automatic value 1.
pub open spec fn members_state(ms: Seq<EnumMemberNode>) -> EnumState
    decreases ms.len(),
{
    if ms.len() == 0 {
        EnumState { auto: 1, vals: Map::empty(), is_string: false, variants: Seq::empty() }
    } else {
        member_step(members_state(ms.drop_last()), ms.last())
    }
}

/// The JSDoc comment of an enum: before its `export`, else before the enum.
pub open spec fn enum_raw_comment(d: EnumDeclNode) -> Option<Seq<char>> {
    if raw_jsdoc(d.export_comments@) is Some {
        raw_jsdoc(d.export_comments@)
    } else {
        raw_jsdoc(d.decl_comments@)
    }
}

/// Whether a declaration is skipped for its `@ignore` tag.
pub open spec fn ignored(raw: Option<Seq<char>>) -> bool {
    raw matches Some(c) && has_ignore_tag(c)
}

/// The enum read from a declaration: `@alias`, `@flags` and the comment
/// without those lines from its JSDoc, its members (see `member_step`).
pub open spec fn enum_view(d: EnumDeclNode, path: Seq<char>, hash: Seq<char>) -> EnumView {
    let raw = enum_raw_comment(d);
    let st = members_state(d.members@);
    EnumView {
        name: d.name@,
        alias: alias_of(raw),
        comment: match raw {
            Some(c) => Some(jsdoc_description_excluding(c, seq!["flags"@, "alias"@])),
            None => None,
        },
        is_string_enum: st.is_string,
        is_flags: match raw {
            Some(c) => jsdoc_tag(c, "flags"@) is Some,
            None => false,
        },
        tags: None,
        variants: st.variants,
        source_file: path,
        file_hash: hash,
        output_path: None,
        module_name: None,
    }
}

/// The views of enum members.
pub open spec fn variant_views(vs: Seq<EnumVariant>) -> Seq<VariantView> {
    vs.map_values(|v: EnumVariant| v@)
}

/// The JSDoc comment of a declaration, before its `export` or else before itself.
fn raw_comment_of(first: &Vec<String>, second: &Vec<String>) -> (r: Option<String>)
    ensures
        opt_text(r) == (if raw_jsdoc(first@) is Some {
            raw_jsdoc(first@)
        } else {
            raw_jsdoc(second@)
        }),
{
    match get_raw_jsdoc_comment(first) {
        Some(c) => Some(c),
        None => get_raw_jsdoc_comment(second),
    }
}

/// The `@alias` tag of a JSDoc comment.
fn alias_from(raw: &Option<String>) -> (r: Option<String>)
    ensures
        opt_text(r) == alias_of(opt_text(*raw)),
{
    match raw {
        Some(c) => parse_jsdoc_tag(c.as_str(), "alias"),
        None => None,
    }
}

/// The enum read from a declaration; none when its JSDoc has `@ignore`.
/// See `enum_view`.
pub fn extract_enum(enum_decl: &EnumDeclNode, path: &str, file_hash: &str) -> (r: Option<EnumInfo>)
    ensures
        r is None <==> ignored(enum_raw_comment(*enum_decl)),
        r matches Some(e) ==> e@ == enum_view(*enum_decl, path@, file_hash@),
{
    let raw = raw_comment_of(&enum_decl.export_comments, &enum_decl.decl_comments);
    if let Some(c) = &raw {
        if has_jsdoc_ignore_tag(c.as_str()) {
            return None;
        }
    }
    let is_flags = match &raw {
        Some(c) => parse_jsdoc_tag(c.as_str(), "flags").is_some(),
        None => false,
    };
    let alias = alias_from(&raw);
    let comment = match &raw {
        Some(c) => {
            let tags = vec!["flags", "alias"];
            proof {
                reveal_strlit("flags");
                reveal_strlit("alias");
                assert(str_views(tags@) =~= seq!["flags"@, "alias"@]);
            }
            Some(parse_jsdoc_description_excluding_tags(c.as_str(), tags.as_slice()))
        },
        None => None,
    };
    let mut variants: Vec<EnumVariant> = Vec::new();
    let mut is_string_enum = false;
    let mut auto_value: i64 = 1;
    let mut member_values: StrTable<i64> = StrTable::new();
    assert(member_values.view_map() =~= Map::<Seq<char>, i64>::empty());
    let ms = &enum_decl.members;
    let mut i: usize = 0;
    while i < ms.len()
        invariant
            i <= ms@.len(),
            members_state(ms@.take(i as int)).auto == auto_value,
            members_state(ms@.take(i as int)).vals == member_values.view_map(),
            members_state(ms@.take(i as int)).is_string == is_string_enum,
            members_state(ms@.take(i as int)).variants == variant_views(variants@),
        decreases ms@.len() - i,
    {
        assert(ms@.take(i + 1).drop_last() =~= ms@.take(i as int));
        assert(ms@.take(i + 1).last() == ms@[i as int]);
        let m = &ms[i];
        let raw_member = get_raw_jsdoc_comment(&m.comments);
        let member_alias = alias_from(&raw_member);
        let member_comment = match &raw_member {
            Some(c) => {
                let tags = vec!["alias"];
                proof {
                    reveal_strlit("alias");
                    assert(str_views(tags@) =~= seq!["alias"@]);
                }
                Some(parse_jsdoc_description_excluding_tags(c.as_str(), tags.as_slice()))
            },
            None => None,
        };
        let ghost before = variant_views(variants@);
        let value = match &m.init {
            Some(ExprNode::Str(s)) => {
                is_string_enum = true;
                s.clone()
            },
            _ => {
                let v = match &m.init {
                    Some(e) => match eval_const_expr(e, &member_values) {
                        Some(x) => x,
                        None => auto_value,
                    },
                    None => auto_value,
                };
                auto_value = v.wrapping_add(1);
                member_values.insert(m.name.clone(), v);
                i64_to_decimal(v)
            },
        };
        let variant = EnumVariant { name: m.name.clone(), alias: member_alias, value, comment: member_comment };
        variants.push(variant);
        assert(variant_views(variants@) =~= before.push(variant@));
        i += 1;
    }
    assert(ms@.take(ms@.len() as int) =~= ms@);
    let e = EnumInfo {
        name: enum_decl.name.clone(),
        alias,
        comment,
        is_string_enum,
        is_flags,
        tags: None,
        variants,
        source_file: String::from_str(path),
        file_hash: String::from_str(file_hash),
        output_path: None,
        module_name: None,
    };
    assert(e@.variants =~= variant_views(e.variants@));
    Some(e)
}

// ---------------------------------------------------------------- classes

/// The JSDoc comment of a class: before its `export`, else before its first
/// decorator, else before its name, else before the class.
pub open spec fn class_raw_comment(d: ClassDeclNode) -> Option<Seq<char>> {
    if raw_jsdoc(d.export_comments@) is Some {
        raw_jsdoc(d.export_comments@)
    } else if d.decorators@.len() > 0 && raw_jsdoc(d.decorator_comments@) is Some {
        raw_jsdoc(d.decorator_comments@)
    } else if raw_jsdoc(d.ident_comments@) is Some {
        raw_jsdoc(d.ident_comments@)
    } else {
        raw_jsdoc(d.class_comments@)
    }
}

/// The comment of a class or interface: its JSDoc description without the
/// `@alias` line when not empty, else the comment before its `export`.
pub open spec fn decl_comment(raw: Option<Seq<char>>, export_comments: Seq<String>) -> Option<Seq<char>> {
    match raw {
        Some(c) => if jsdoc_description_excluding(c, seq!["alias"@]).len() > 0 {
            Some(jsdoc_description_excluding(c, seq!["alias"@]))
        } else {
            leading_comment(export_comments)
        },
        None => leading_comment(export_comments),
    }
}

/// The `@param` comments of a class: those before its `export`, then those
/// before its first decorator.
pub open spec fn class_param_comments(d: ClassDeclNode) -> Map<Seq<char>, Seq<char>> {
    let m = param_comments_added(Map::empty(), d.export_comments@);
    if d.decorators@.len() > 0 {
        param_comments_added(m, d.decorator_comments@)
    } else {
        m
    }
}

/// The names among a list of expressions, in order.
pub open spec fn ident_names(es: Seq<ExprNode>) -> Seq<Seq<char>>
    decreases es.len(),
{
    if es.len() == 0 {
        Seq::empty()
    } else {
        ident_names(es.drop_last()) + match es.last() {
            ExprNode::Ident(n) => seq![n@],
            _ => Seq::empty(),
        }
    }
}

/// The name of an expression that is a name.
pub open spec fn ident_of(e: Option<ExprNode>) -> Option<Seq<char>> {
    match e {
        Some(ExprNode::Ident(n)) => Some(n@),
        _ => None,
    }
}

/// A field with its comment taken from `@param` comments when it has none.
pub open spec fn with_param_comment(f: FieldView, pc: Map<Seq<char>, Seq<char>>) -> FieldView {
    if f.comment is None && pc.contains_key(f.name) {
        FieldView { comment: Some(pc[f.name]), ..f }
    } else {
        f
    }
}

/// The fields of constructor parameter properties, each with its comment
/// from the constructor's `@param` comments, else the class's.
pub open spec fn ctor_fields(
    ps: Seq<Option<ParamPropNode>>,
    tp: Map<Seq<char>, Seq<char>>,
    cpc: Map<Seq<char>, Seq<char>>,
    pc: Map<Seq<char>, Seq<char>>,
) -> Seq<FieldView>
    decreases ps.len(),
{
    if ps.len() == 0 {
        Seq::empty()
    } else {
        ctor_fields(ps.drop_last(), tp, cpc, pc) + match ps.last() {
            Some(p) => match param_field(p, tp) {
                Some(f) => seq![
                    if cpc.contains_key(f.name) {
                        FieldView { comment: Some(cpc[f.name]), ..f }
                    } else {
                        with_param_comment(f, pc)
                    },
                ],
                None => Seq::empty(),
            },
            None => Seq::empty(),
        }
    }
}

/// The fields of a class body: constructor parameter properties and
/// properties, in order.
pub open spec fn class_fields(
    ms: Seq<ClassMemberNode>,
    tp: Map<Seq<char>, Seq<char>>,
    pc: Map<Seq<char>, Seq<char>>,
) -> Seq<FieldView>
    decreases ms.len(),
{
    if ms.len() == 0 {
        Seq::empty()
    } else {
        class_fields(ms.drop_last(), tp, pc) + match ms.last() {
            ClassMemberNode::Constructor(cc, params) => ctor_fields(
                params@,
                tp,
                param_comments_added(Map::empty(), cc@),
                pc,
            ),
            ClassMemberNode::Prop(p) => match class_prop_field(p, tp) {
                Some(f) => seq![with_param_comment(f, pc)],
                None => Seq::empty(),
            },
            ClassMemberNode::Other => Seq::empty(),
        }
    }
}

/// A string named argument.
pub open spec fn named_string(m: Map<Seq<char>, DecoratorArg>, k: Seq<char>) -> Option<Seq<char>> {
    if m.contains_key(k) && m[k] is String {
        Some(m[k]->String_0@)
    } else {
        None
    }
}

/// The table settings of a `@LubanTable` decorator: `mode` (`map` by
/// default), `index` (empty by default), `group` and `tags`.
pub open spec fn luban_config(d: ExprNode) -> LubanTableView {
    let m = named_args_of(decorator_args(d));
    LubanTableView {
        mode: match named_string(m, "mode"@) {
            Some(x) => x,
            None => "map"@,
        },
        index: match named_string(m, "index"@) {
            Some(x) => x,
            None => Seq::empty(),
        },
        group: named_string(m, "group"@),
        tags: named_string(m, "tags"@),
    }
}

/// The settings of the last `@LubanTable` decorator.
pub open spec fn luban_table_of(ds: Seq<ExprNode>) -> Option<LubanTableView>
    decreases ds.len(),
{
    if ds.len() == 0 {
        None
    } else if decorator_head(ds.last()) is Some && head_name(ds.last()) == "LubanTable"@ {
        Some(luban_config(ds.last()))
    } else {
        luban_table_of(ds.drop_last())
    }
}

/// The class read from a declaration.
pub open spec fn class_read(d: ClassDeclNode, path: Seq<char>, hash: Seq<char>, c: ClassView) -> bool {
    let tp = decl_type_params(d.type_params);
    let raw = class_raw_comment(d);
    &&& c.name == d.name@
    &&& c.comment == decl_comment(raw, d.export_comments@)
    &&& c.alias == alias_of(raw)
    &&& c.fields == class_fields(d.members@, tp, class_param_comments(d))
    &&& c.implements == ident_names(d.implements@)
    &&& c.extends == ident_of(d.super_class)
    &&& c.source_file == path
    &&& c.file_hash == hash
    &&& !c.is_interface
    &&& c.output_path is None
    &&& c.module_name is None
    &&& pairs_map(c.type_params) == tp
    &&& c.luban_table == luban_table_of(d.decorators@)
    &&& c.imports.len() == 0
}

/// The views of fields.
pub open spec fn field_views(fs: Seq<FieldInfo>) -> Seq<FieldView> {
    fs.map_values(|f: FieldInfo| f@)
}

/// Sets a field's comment from `@param` comments when it has none.
fn fill_param_comment(f: &mut FieldInfo, pc: &StrTable<String>)
    ensures
        final(f)@ == with_param_comment(old(f)@, pc.view_map()),
{
    if f.comment.is_none() {
        if let Some(c) = pc.get(f.name.as_str()) {
            f.comment = Some(c.clone());
        }
    }
}

/// Appends the names among a list of expressions.
fn ident_name_list(es: &Vec<ExprNode>) -> (r: Vec<String>)
    ensures
        views(r@) == ident_names(es@),
{
    let mut r: Vec<String> = Vec::new();
    let mut i: usize = 0;
    while i < es.len()
        invariant
            i <= es@.len(),
            views(r@) == ident_names(es@.take(i as int)),
        decreases es@.len() - i,
    {
        assert(es@.take(i + 1).drop_last() =~= es@.take(i as int));
        assert(es@.take(i + 1).last() == es@[i as int]);
        if let ExprNode::Ident(n) = &es[i] {
            proof {
                crate::text::lemma_views_push(r@, *n);
            }
            r.push(n.clone());
        }
        assert(views(r@) =~= ident_names(es@.take(i + 1)));
        i += 1;
    }
    assert(es@.take(es@.len() as int) =~= es@);
    r
}

/// The string value of a named argument.
fn named_string_arg(m: &StrTable<DecoratorArg>, k: &str) -> (r: Option<String>)
    ensures
        opt_text(r) == named_string(m.view_map(), k@),
{
    match m.get(k) {
        Some(DecoratorArg::String(s)) => Some(s.clone()),
        _ => None,
    }
}

/// The settings of the last `@LubanTable` decorator; see `luban_table_of`.
fn luban_table_config(decorators: &Vec<ExprNode>) -> (r: Option<LubanTableConfig>)
    ensures
        match r {
            Some(t) => luban_table_of(decorators@) == Some(t@),
            None => luban_table_of(decorators@) is None,
        },
{
    let mut result: Option<LubanTableConfig> = None;
    let mut i: usize = 0;
    while i < decorators.len()
        invariant
            i <= decorators@.len(),
            match result {
                Some(t) => luban_table_of(decorators@.take(i as int)) == Some(t@),
                None => luban_table_of(decorators@.take(i as int)) is None,
            },
        decreases decorators@.len() - i,
    {
        assert(decorators@.take(i + 1).drop_last() =~= decorators@.take(i as int));
        assert(decorators@.take(i + 1).last() == decorators@[i as int]);
        if let Some(p) = parse_decorator(&decorators[i]) {
            if crate::text::str_eq(p.name.as_str(), "LubanTable") {
                let mode = match named_string_arg(&p.named_args, "mode") {
                    Some(x) => x,
                    None => String::from_str("map"),
                };
                let index = match named_string_arg(&p.named_args, "index") {
                    Some(x) => x,
                    None => String::new(),
                };
                let group = named_string_arg(&p.named_args, "group");
                let tags = named_string_arg(&p.named_args, "tags");
                result = Some(LubanTableConfig { mode, index, group, tags });
            }
        }
        i += 1;
    }
    assert(decorators@.take(decorators@.len() as int) =~= decorators@);
    result
}

/// The class read from a declaration; none when its JSDoc has `@ignore`.
/// See `class_read`.
pub fn extract_class(class_decl: &ClassDeclNode, path: &str, file_hash: &str) -> (r: Option<ClassInfo>)
    ensures
        r is None <==> ignored(class_raw_comment(*class_decl)),
        r matches Some(c) ==> class_read(*class_decl, path@, file_hash@, c@),
{
    let type_params = extract_type_params(&class_decl.type_params);
    let has_decorators = class_decl.decorators.len() > 0;
    let mut raw = get_raw_jsdoc_comment(&class_decl.export_comments);
    if raw.is_none() && has_decorators {
        raw = get_raw_jsdoc_comment(&class_decl.decorator_comments);
    }
    if raw.is_none() {
        raw = get_raw_jsdoc_comment(&class_decl.ident_comments);
    }
    if raw.is_none() {
        raw = get_raw_jsdoc_comment(&class_decl.class_comments);
    }
    assert(opt_text(raw) == class_raw_comment(*class_decl));
    if let Some(c) = &raw {
        if has_jsdoc_ignore_tag(c.as_str()) {
            return None;
        }
    }
    let alias = alias_from(&raw);
    let comment = decl_comment_text(&raw, &class_decl.export_comments);
    let mut param_comments = get_param_comments(&class_decl.export_comments);
    if has_decorators {
        add_param_comments(&mut param_comments, &class_decl.decorator_comments);
    }
    let implements = ident_name_list(&class_decl.implements);
    let extends = match &class_decl.super_class {
        Some(ExprNode::Ident(n)) => Some(n.clone()),
        _ => None,
    };
    let ghost tp = type_params.view_map();
    let ghost pc = param_comments.view_map();
    let mut fields: Vec<FieldInfo> = Vec::new();
    let ms = &class_decl.members;
    let mut i: usize = 0;
    while i < ms.len()
        invariant
            i <= ms@.len(),
            tp == type_params.view_map(),
            pc == param_comments.view_map(),
            field_views(fields@) == class_fields(ms@.take(i as int), tp, pc),
        decreases ms@.len() - i,
    {
        assert(ms@.take(i + 1).drop_last() =~= ms@.take(i as int));
        assert(ms@.take(i + 1).last() == ms@[i as int]);
        let ghost before = field_views(fields@);
        match &ms[i] {
            ClassMemberNode::Constructor(cc, params) => {
                let ctor_comments = get_param_comments(cc);
                let mut j: usize = 0;
                while j < params.len()
                    invariant
                        j <= params@.len(),
                        field_views(fields@) == before + ctor_fields(
                            params@.take(j as int),
                            tp,
                            ctor_comments.view_map(),
                            pc,
                        ),
                        tp == type_params.view_map(),
                        pc == param_comments.view_map(),
                    decreases params@.len() - j,
                {
                    assert(params@.take(j + 1).drop_last() =~= params@.take(j as int));
                    assert(params@.take(j + 1).last() == params@[j as int]);
                    let ghost mid = field_views(fields@);
                    if let Some(p) = &params[j] {
                        if let Some(mut f) = extract_param_prop_with_type_params(p, &type_params) {
                            match ctor_comments.get(f.name.as_str()) {
                                Some(c) => {
                                    f.comment = Some(c.clone());
                                },
                                None => {
                                    fill_param_comment(&mut f, &param_comments);
                                },
                            }
                            fields.push(f);
                            assert(field_views(fields@) =~= mid.push(f@));
                        }
                    }
                    assert(field_views(fields@) =~= before + ctor_fields(
                        params@.take(j + 1),
                        tp,
                        ctor_comments.view_map(),
                        pc,
                    ));
                    j += 1;
                }
                assert(params@.take(params@.len() as int) =~= params@);
            },
            ClassMemberNode::Prop(p) => {
                if let Some(mut f) = extract_class_prop_with_type_params(p, &type_params) {
                    fill_param_comment(&mut f, &param_comments);
                    fields.push(f);
                    assert(field_views(fields@) =~= before.push(f@));
                }
            },
            ClassMemberNode::Other => {},
        }
        assert(field_views(fields@) =~= class_fields(ms@.take(i + 1), tp, pc));
        i += 1;
    }
    assert(ms@.take(ms@.len() as int) =~= ms@);
    let luban_table = luban_table_config(&class_decl.decorators);
    let c = ClassInfo {
        name: class_decl.name.clone(),
        comment,
        alias,
        fields,
        implements,
        extends,
        source_file: String::from_str(path),
        file_hash: String::from_str(file_hash),
        is_interface: false,
        output_path: None,
        module_name: None,
        type_params: type_params.to_pairs(),
        luban_table,
        imports: Vec::new(),
    };
    assert(c@.fields =~= field_views(c.fields@));
    assert(c@.implements =~= views(c.implements@));
    assert(c@.imports =~= Seq::<(Seq<char>, Seq<char>)>::empty());
    assert(crate::parser::class_info::pairs_view(c.type_params@) =~= pair_views(c.type_params@));
    Some(c)
}

/// The comment of a class or interface; see `decl_comment`.
fn decl_comment_text(raw: &Option<String>, export_comments: &Vec<String>) -> (r: Option<String>)
    ensures
        opt_text(r) == decl_comment(opt_text(*raw), export_comments@),
{
    match raw {
        Some(c) => {
            let tags = vec!["alias"];
            proof {
                reveal_strlit("alias");
                assert(str_views(tags@) =~= seq!["alias"@]);
            }
            let d = parse_jsdoc_description_excluding_tags(c.as_str(), tags.as_slice());
            if d.as_str().is_empty() {
                get_leading_comment(export_comments)
            } else {
                Some(d)
            }
        },
        None => get_leading_comment(export_comments),
    }
}

// ---------------------------------------------------------------- interfaces

/// The JSDoc comment of an interface: before its `export`, else before it.
pub open spec fn interface_raw_comment(d: InterfaceDeclNode) -> Option<Seq<char>> {
    if raw_jsdoc(d.export_comments@) is Some {
        raw_jsdoc(d.export_comments@)
    } else {
        raw_jsdoc(d.decl_comments@)
    }
}

/// The fields of interface property signatures, each with its comment from
/// the `@param` comments when it has none.
pub open spec fn interface_fields(
    ps: Seq<PropSigNode>,
    tp: Map<Seq<char>, Seq<char>>,
    pc: Map<Seq<char>, Seq<char>>,
) -> Seq<FieldView>
    decreases ps.len(),
{
    if ps.len() == 0 {
        Seq::empty()
    } else {
        interface_fields(ps.drop_last(), tp, pc) + match interface_prop_field(ps.last(), tp) {
            Some(f) => seq![with_param_comment(f, pc)],
            None => Seq::empty(),
        }
    }
}

/// The interface read from a declaration: it extends the first interface it
/// names, when that is a name.
pub open spec fn interface_read(d: InterfaceDeclNode, path: Seq<char>, hash: Seq<char>, c: ClassView) -> bool {
    let tp = decl_type_params(d.type_params);
    let raw = interface_raw_comment(d);
    &&& c.name == d.name@
    &&& c.comment == decl_comment(raw, d.export_comments@)
    &&& c.alias == alias_of(raw)
    &&& c.fields == interface_fields(
        d.props@,
        tp,
        param_comments_added(Map::empty(), d.export_comments@),
    )
    &&& c.implements.len() == 0
    &&& c.extends == (if d.extends@.len() > 0 {
        ident_of(Some(d.extends@[0]))
    } else {
        None
    })
    &&& c.source_file == path
    &&& c.file_hash == hash
    &&& c.is_interface
    &&& c.output_path is None
    &&& c.module_name is None
    &&& pairs_map(c.type_params) == tp
    &&& c.luban_table is None
    &&& c.imports.len() == 0
}

/// The interface read from a declaration; none when its JSDoc has
/// `@ignore`. See `interface_read`.
pub fn extract_interface(iface_decl: &InterfaceDeclNode, path: &str, file_hash: &str) -> (r: Option<ClassInfo>)
    ensures
        r is None <==> ignored(interface_raw_comment(*iface_decl)),
        r matches Some(c) ==> interface_read(*iface_decl, path@, file_hash@, c@),
{
    let type_params = extract_type_params(&iface_decl.type_params);
    let raw = raw_comment_of(&iface_decl.export_comments, &iface_decl.decl_comments);
    if let Some(c) = &raw {
        if has_jsdoc_ignore_tag(c.as_str()) {
            return None;
        }
    }
    let alias = alias_from(&raw);
    let comment = decl_comment_text(&raw, &iface_decl.export_comments);
    let param_comments = get_param_comments(&iface_decl.export_comments);
    let extends = if iface_decl.extends.len() > 0 {
        match &iface_decl.extends[0] {
            ExprNode::Ident(n) => Some(n.clone()),
            _ => None,
        }
    } else {
        None
    };
    let ghost tp = type_params.view_map();
    let ghost pc = param_comments.view_map();
    let mut fields: Vec<FieldInfo> = Vec::new();
    let ps = &iface_decl.props;
    let mut i: usize = 0;
    while i < ps.len()
        invariant
            i <= ps@.len(),
            tp == type_params.view_map(),
            pc == param_comments.view_map(),
            field_views(fields@) == interface_fields(ps@.take(i as int), tp, pc),
        decreases ps@.len() - i,
    {
        assert(ps@.take(i + 1).drop_last() =~= ps@.take(i as int));
        assert(ps@.take(i + 1).last() == ps@[i as int]);
        let ghost before = field_views(fields@);
        if let Some(mut f) = extract_interface_prop_with_type_params(&ps[i], &type_params) {
            fill_param_comment(&mut f, &param_comments);
            fields.push(f);
            assert(field_views(fields@) =~= before.push(f@));
        }
        assert(field_views(fields@) =~= interface_fields(ps@.take(i + 1), tp, pc));
        i += 1;
    }
    assert(ps@.take(ps@.len() as int) =~= ps@);
    let c = ClassInfo {
        name: iface_decl.name.clone(),
        comment,
        alias,
        fields,
        implements: Vec::new(),
        extends,
        source_file: String::from_str(path),
        file_hash: String::from_str(file_hash),
        is_interface: true,
        output_path: None,
        module_name: None,
        type_params: type_params.to_pairs(),
        luban_table: None,
        imports: Vec::new(),
    };
    assert(c@.fields =~= field_views(c.fields@));
    assert(crate::parser::class_info::pairs_view(c.type_params@) =~= pair_views(c.type_params@));
    Some(c)
}

// ---------------------------------------------------------------- modules

/// The classes and interfaces read from a module's exported declarations,
/// in order, those with `@ignore` left out.
pub open spec fn module_classes(
    items: Seq<ModuleItemNode>,
    path: Seq<char>,
    hash: Seq<char>,
    cs: Seq<ClassView>,
) -> bool
    decreases items.len(),
{
    if items.len() == 0 {
        cs.len() == 0
    } else {
        match items.last() {
            ModuleItemNode::ExportClass(d) => if ignored(class_raw_comment(d)) {
                module_classes(items.drop_last(), path, hash, cs)
            } else {
                cs.len() > 0 && class_read(d, path, hash, cs.last()) && module_classes(
                    items.drop_last(),
                    path,
                    hash,
                    cs.drop_last(),
                )
            },
            ModuleItemNode::ExportInterface(d) => if ignored(interface_raw_comment(d)) {
                module_classes(items.drop_last(), path, hash, cs)
            } else {
                cs.len() > 0 && interface_read(d, path, hash, cs.last()) && module_classes(
                    items.drop_last(),
                    path,
                    hash,
                    cs.drop_last(),
                )
            },
            _ => module_classes(items.drop_last(), path, hash, cs),
        }
    }
}

/// The enums read from a module's exported declarations, in order, those
/// with `@ignore` left out.
pub open spec fn module_enums(items: Seq<ModuleItemNode>, path: Seq<char>, hash: Seq<char>) -> Seq<EnumView>
    decreases items.len(),
{
    if items.len() == 0 {
        Seq::empty()
    } else {
        module_enums(items.drop_last(), path, hash) + match items.last() {
            ModuleItemNode::ExportEnum(d) => if ignored(enum_raw_comment(d)) {
                Seq::empty()
            } else {
                seq![enum_view(d, path, hash)]
            },
            _ => Seq::empty(),
        }
    }
}

/// The views of classes.
pub open spec fn class_views(cs: Seq<ClassInfo>) -> Seq<ClassView> {
    cs.map_values(|c: ClassInfo| c@)
}

/// The views of enums.
pub open spec fn enum_views(es: Seq<EnumInfo>) -> Seq<EnumView> {
    es.map_values(|e: EnumInfo| e@)
}

/// What the MD5 digest of a text's UTF-8 bytes is.
pub uninterp spec fn md5_of_text(text: Seq<char>) -> Seq<u8>;

/// The MD5 digest (`md5::Md5`, through `Digest::update` and `finalize`) of
/// a text's UTF-8 bytes; the contract names the digest `md5_of_text` of the
/// text and gives its length, 16 bytes.
#[verifier::external_body]
fn md5_digest(content: &str) -> (r: Vec<u8>)
    ensures
        r@ == md5_of_text(content@),
        r@.len() == 16,
{
    let mut hasher = Md5::new();
    hasher.update(content.as_bytes());
    hasher.finalize().to_vec()
}

/// The lower-case hexadecimal digit of a number below 16.
pub open spec fn hex_digit(d: nat) -> char {
    if d < 10 {
        crate::text::digit_char(d)
    } else if d == 10 {
        'a'
    } else if d == 11 {
        'b'
    } else if d == 12 {
        'c'
    } else if d == 13 {
        'd'
    } else if d == 14 {
        'e'
    } else {
        'f'
    }
}

/// Bytes in lower-case hexadecimal, two digits each.
pub open spec fn hex_of(bytes: Seq<u8>) -> Seq<char>
    decreases bytes.len(),
{
    if bytes.len() == 0 {
        Seq::empty()
    } else {
        hex_of(bytes.drop_last()) + seq![
            hex_digit((bytes.last() / 16) as nat),
            hex_digit((bytes.last() % 16) as nat),
        ]
    }
}

/// The lower-case hexadecimal digit of a number below 16.
fn hex_char(d: u8) -> (c: char)
    requires
        d < 16,
    ensures
        c == hex_digit(d as nat),
{
    match d {
        0 => '0',
        1 => '1',
        2 => '2',
        3 => '3',
        4 => '4',
        5 => '5',
        6 => '6',
        7 => '7',
        8 => '8',
        9 => '9',
        10 => 'a',
        11 => 'b',
        12 => 'c',
        13 => 'd',
        14 => 'e',
        _ => 'f',
    }
}

/// The hash of a file's content: its MD5 digest in lower-case hexadecimal.
pub open spec fn content_hash(content: Seq<char>) -> Seq<char> {
    hex_of(md5_of_text(content))
}

/// The hash of a file's content; see `content_hash`.
pub fn compute_hash(content: &str) -> (r: String)
    ensures
        r@ == content_hash(content@),
        r@.len() == 32,
{
    let bytes = md5_digest(content);
    let mut out: Vec<char> = Vec::new();
    let mut i: usize = 0;
    while i < bytes.len()
        invariant
            i <= bytes@.len(),
            out@ == hex_of(bytes@.take(i as int)),
            out@.len() == 2 * i,
        decreases bytes@.len() - i,
    {
        assert(bytes@.take(i + 1).drop_last() =~= bytes@.take(i as int));
        let b = bytes[i];
        out.push(hex_char(b / 16));
        out.push(hex_char(b % 16));
        assert(out@ =~= hex_of(bytes@.take(i + 1)));
        i += 1;
    }
    assert(bytes@.take(bytes@.len() as int) =~= bytes@);
    string_of(out.as_slice())
}

/// Reads classes, interfaces and enums from the declarations of TypeScript
/// modules.
pub struct TsParser {}

impl TsParser {
    /// A parser.
    pub fn new() -> Self {
        TsParser {}
    }

    /// The classes and interfaces of a module, given its path, its content and
    /// its top-level items; each carries the hash of the content. See
    /// `module_classes`.
    pub fn parse_file(&self, path: &str, content: &str, items: &Vec<ModuleItemNode>) -> (r: Vec<ClassInfo>)
        ensures
            module_classes(items@, path@, content_hash(content@), class_views(r@)),
    {
        let file_hash = compute_hash(content);
        let mut classes: Vec<ClassInfo> = Vec::new();
        let mut i: usize = 0;
        while i < items.len()
            invariant
                i <= items@.len(),
                module_classes(items@.take(i as int), path@, file_hash@, class_views(classes@)),
            decreases items@.len() - i,
        {
            assert(items@.take(i + 1).drop_last() =~= items@.take(i as int));
            assert(items@.take(i + 1).last() == items@[i as int]);
            let ghost before = classes@;
            match &items[i] {
                ModuleItemNode::ExportClass(d) => {
                    if let Some(c) = extract_class(d, path, file_hash.as_str()) {
                        classes.push(c);
                        assert(class_views(classes@).drop_last() =~= class_views(before));
                    }
                },
                ModuleItemNode::ExportInterface(d) => {
                    if let Some(c) = extract_interface(d, path, file_hash.as_str()) {
                        classes.push(c);
                        assert(class_views(classes@).drop_last() =~= class_views(before));
                    }
                },
                _ => {},
            }
            i += 1;
        }
        assert(items@.take(items@.len() as int) =~= items@);
        classes
    }

    /// The enums of a module, given its path, its content and its top-level
    /// items; each carries the hash of the content. See `module_enums`.
    pub fn parse_enums(&self, path: &str, content: &str, items: &Vec<ModuleItemNode>) -> (r: Vec<EnumInfo>)
        ensures
            enum_views(r@) == module_enums(items@, path@, content_hash(content@)),
    {
        let file_hash = compute_hash(content);
        let mut enums: Vec<EnumInfo> = Vec::new();
        let mut i: usize = 0;
        while i < items.len()
            invariant
                i <= items@.len(),
                enum_views(enums@) == module_enums(items@.take(i as int), path@, file_hash@),
            decreases items@.len() - i,
        {
            assert(items@.take(i + 1).drop_last() =~= items@.take(i as int));
            assert(items@.take(i + 1).last() == items@[i as int]);
            let ghost before = enum_views(enums@);
            if let ModuleItemNode::ExportEnum(d) = &items[i] {
                if let Some(e) = extract_enum(d, path, file_hash.as_str()) {
                    enums.push(e);
                    assert(enum_views(enums@) =~= before.push(e@));
                }
            }
            assert(enum_views(enums@) =~= module_enums(items@.take(i + 1), path@, file_hash@));
            i += 1;
        }
        assert(items@.take(items@.len() as int) =~= items@);
        enums
    }
}

} // verus!
