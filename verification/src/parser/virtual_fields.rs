//! Fields declared in the configuration rather than in the sources, added to
//! their classes.
use super::class_info::ClassInfo;
use super::field_info::{FieldInfo, FieldValidators, FieldView, SizeConstraint, ValidatorsView, copy_range};
use crate::text::{concat2, copy_strings, views};
use vstd::prelude::*;

verus! {

/// Where a virtual field's value is moved to: a target, a prefix, and an
/// optional target bean.
#[derive(Debug, Clone)]
pub struct RelocateToConfig {
    pub target: String,
    pub prefix: String,
    pub target_bean: Option<String>,
}

/// The validators of a virtual field as the configuration writes them.
#[derive(Debug, Clone)]
pub struct ConfigValidators {
    pub ref_target: Option<String>,
    /// The bounds, each written as the schema writes it.
    pub range: Option<(String, String)>,
    pub required: bool,
    pub size: Option<SizeConstraint>,
    pub set_values: Vec<String>,
    pub index_field: Option<String>,
    pub nominal: bool,
}

/// A field declared in the configuration.
#[derive(Debug, Clone)]
pub struct VirtualField {
    pub name: String,
    pub field_type: String,
    pub comment: Option<String>,
    pub optional: Option<bool>,
    pub validators: Option<ConfigValidators>,
    pub relocate_to: Option<RelocateToConfig>,
}

/// The virtual fields of a class.
#[derive(Debug, Clone)]
pub struct VirtualFieldsConfig {
    pub class: String,
    pub fields: Vec<VirtualField>,
}

/// The view of an optional string.
pub open spec fn ostr(o: Option<String>) -> Option<Seq<char>> {
    match o {
        Some(s) => Some(s@),
        None => None,
    }
}

/// The tags of a relocation: `relocateTo=T,prefix=P`, then
/// `,targetBean=B` when a target bean is given.
pub open spec fn relocate_tags(r: Option<RelocateToConfig>) -> Option<Seq<char>> {
    match r {
        Some(c) => {
            let tags = "relocateTo="@ + c.target@ + ",prefix="@ + c.prefix@;
            match c.target_bean {
                Some(b) => Some(tags + ",targetBean="@ + b@),
                None => Some(tags),
            }
        },
        None => None,
    }
}

/// The tags of a relocation; see `relocate_tags`.
pub fn generate_relocate_tags(relocate_to: &Option<RelocateToConfig>) -> (r: Option<String>)
    ensures
        ostr(r) == relocate_tags(*relocate_to),
{
    match relocate_to {
        Some(c) => {
            let mut tags = String::from_str("relocateTo=");
            tags.append(c.target.as_str());
            tags.append(",prefix=");
            tags.append(c.prefix.as_str());
            match &c.target_bean {
                Some(b) => {
                    tags.append(",targetBean=");
                    tags.append(b.as_str());
                    Some(tags)
                },
                None => Some(tags),
            }
        },
        None => None,
    }
}

/// The validators of a virtual field: those of the configuration, without
/// references by type; none configured gives no validators.
pub open spec fn converted_validators(v: Option<ConfigValidators>) -> ValidatorsView {
    match v {
        Some(c) => ValidatorsView {
            has_ref: false,
            has_ref_key: false,
            range: match c.range {
                Some((a, b)) => Some((a@, b@)),
                None => None,
            },
            required: c.required,
            size: c.size,
            set_values: views(c.set_values@),
            index_field: ostr(c.index_field),
            nominal: c.nominal,
            ref_target: ostr(c.ref_target),
        },
        None => ValidatorsView {
            has_ref: false,
            has_ref_key: false,
            range: None,
            required: false,
            size: None,
            set_values: Seq::empty(),
            index_field: None,
            nominal: false,
            ref_target: None,
        },
    }
}

/// A copy of an optional string.
fn copy_opt(o: &Option<String>) -> (r: Option<String>)
    ensures
        r == *o,
{
    match o {
        Some(s) => Some(s.clone()),
        None => None,
    }
}

/// The validators of a virtual field; see `converted_validators`.
pub fn convert_validators(validators: &Option<ConfigValidators>) -> (r: FieldValidators)
    ensures
        r@ == converted_validators(*validators),
{
    match validators {
        Some(v) => {
            let r = FieldValidators {
                has_ref: false,
                has_ref_key: false,
                range: copy_range(&v.range),
                required: v.required,
                size: v.size,
                set_values: copy_strings(&v.set_values),
                index_field: copy_opt(&v.index_field),
                nominal: v.nominal,
                ref_target: copy_opt(&v.ref_target),
            };
            assert(r@.set_values =~= views(v.set_values@));
            r
        },
        None => {
            let r = FieldValidators::none();
            assert(r@.set_values =~= Seq::<Seq<char>>::empty());
            r
        },
    }
}

/// The field of a virtual field: its name, type (also as original type),
/// comment, optionality (not optional unless said), validators, and its
/// relocation as custom tags.
pub open spec fn virtual_field_view(f: VirtualField) -> FieldView {
    FieldView {
        name: f.name@,
        field_type: f.field_type@,
        comment: ostr(f.comment),
        alias: None,
        is_optional: match f.optional {
            Some(b) => b,
            None => false,
        },
        validators: converted_validators(f.validators),
        is_object_factory: false,
        factory_inner_type: None,
        is_constructor: false,
        constructor_inner_type: None,
        original_type: f.field_type@,
        default_value: None,
        type_override: None,
        separator: None,
        map_separator: None,
        custom_tags: relocate_tags(f.relocate_to),
        ref_key_inner_type: None,
        ref_replace: None,
    }
}

/// The field of a virtual field; see `virtual_field_view`.
pub fn convert_virtual_field(field_config: &VirtualField) -> (r: FieldInfo)
    ensures
        r@ == virtual_field_view(*field_config),
{
    FieldInfo {
        name: field_config.name.clone(),
        field_type: field_config.field_type.clone(),
        comment: copy_opt(&field_config.comment),
        alias: None,
        is_optional: match field_config.optional {
            Some(b) => b,
            None => false,
        },
        validators: convert_validators(&field_config.validators),
        is_object_factory: false,
        factory_inner_type: None,
        is_constructor: false,
        constructor_inner_type: None,
        original_type: field_config.field_type.clone(),
        default_value: None,
        type_override: None,
        separator: None,
        map_separator: None,
        custom_tags: generate_relocate_tags(&field_config.relocate_to),
        ref_key_inner_type: None,
        ref_replace: None,
    }
}

/// The virtual fields configured for a class name, in configuration order.
pub open spec fn fields_for(cfgs: Seq<VirtualFieldsConfig>, name: Seq<char>) -> Seq<FieldView>
    decreases cfgs.len(),
{
    if cfgs.len() == 0 {
        Seq::empty()
    } else {
        fields_for(cfgs.drop_last(), name) + if cfgs.last().class@ == name {
            cfgs.last().fields@.map_values(|f: VirtualField| virtual_field_view(f))
        } else {
            Seq::empty()
        }
    }
}

/// The views of fields.
pub open spec fn fields_view(fs: Seq<FieldInfo>) -> Seq<FieldView> {
    fs.map_values(|f: FieldInfo| f@)
}

/// Appends the virtual fields configured for a class to its fields.
fn inject_into(class: &mut ClassInfo, virtual_fields: &Vec<VirtualFieldsConfig>)
    ensures
        fields_view(final(class).fields@) == fields_view(old(class).fields@) + fields_for(
            virtual_fields@,
            old(class).name@,
        ),
        final(class).name == old(class).name,
{
    let ghost start = fields_view(class.fields@);
    let mut i: usize = 0;
    while i < virtual_fields.len()
        invariant
            i <= virtual_fields@.len(),
            class.name == old(class).name,
            start == fields_view(old(class).fields@),
            fields_view(class.fields@) == start + fields_for(virtual_fields@.take(i as int), class.name@),
        decreases virtual_fields@.len() - i,
    {
        assert(virtual_fields@.take(i + 1).drop_last() =~= virtual_fields@.take(i as int));
        let cfg = &virtual_fields[i];
        let ghost mid = fields_view(class.fields@);
        if crate::text::str_eq(cfg.class.as_str(), class.name.as_str()) {
            let mut j: usize = 0;
            while j < cfg.fields.len()
                invariant
                    j <= cfg.fields@.len(),
                    class.name == old(class).name,
                    i < virtual_fields@.len(),
                    *cfg == virtual_fields@[i as int],
                    fields_view(class.fields@) == mid + cfg.fields@.take(j as int).map_values(
                        |f: VirtualField| virtual_field_view(f),
                    ),
                decreases cfg.fields@.len() - j,
            {
                let f = convert_virtual_field(&cfg.fields[j]);
                let ghost before = fields_view(class.fields@);
                class.fields.push(f);
                assert(fields_view(class.fields@) =~= before.push(f@));
                assert(cfg.fields@.take(j + 1).map_values(|f: VirtualField| virtual_field_view(f))
                    =~= cfg.fields@.take(j as int).map_values(|f: VirtualField| virtual_field_view(f)).push(
                    virtual_field_view(cfg.fields@[j as int]),
                ));
                j += 1;
            }
            assert(cfg.fields@.take(cfg.fields@.len() as int) =~= cfg.fields@);
        }
        assert(fields_view(class.fields@) =~= start + fields_for(virtual_fields@.take(i + 1), class.name@));
        i += 1;
    }
    assert(virtual_fields@.take(virtual_fields@.len() as int) =~= virtual_fields@);
}

/// Adds to each class the virtual fields configured for its name, in
/// configuration order; a name that no class has is left for the schema
/// tool to report.
pub fn inject_virtual_fields(class_infos: &mut Vec<ClassInfo>, virtual_fields: &Vec<VirtualFieldsConfig>)
    ensures
        final(class_infos)@.len() == old(class_infos)@.len(),
        forall|i: int|
            0 <= i < old(class_infos)@.len() ==> {
                &&& (#[trigger] final(class_infos)@[i]).name == old(class_infos)@[i].name
                &&& fields_view(final(class_infos)@[i].fields@) == fields_view(old(class_infos)@[i].fields@)
                    + fields_for(virtual_fields@, old(class_infos)@[i].name@)
            },
{
    let mut done: Vec<ClassInfo> = Vec::new();
    let mut rest: Vec<ClassInfo> = Vec::new();
    std::mem::swap(&mut rest, class_infos);
    let ghost orig = rest@;
    assert(rest@ =~= orig.skip(0));
    while rest.len() > 0
        invariant
            rest@ == orig.skip(done@.len() as int),
            done@.len() <= orig.len(),
            forall|i: int|
                0 <= i < done@.len() ==> {
                    &&& (#[trigger] done@[i]).name == orig[i].name
                    &&& fields_view(done@[i].fields@) == fields_view(orig[i].fields@) + fields_for(
                        virtual_fields@,
                        orig[i].name@,
                    )
                },
        decreases rest@.len(),
    {
        let k = done.len();
        assert(orig.skip(k as int)[0] == orig[k as int]);
        let mut c = rest.remove(0);
        assert(c == orig[k as int]);
        inject_into(&mut c, virtual_fields);
        done.push(c);
        assert(orig.skip(k + 1) =~= rest@);
    }
    *class_infos = done;
}

} // verus!
