//! Fields of classes and interfaces, and the validators attached to them.
use vstd::prelude::*;

verus! {

/// A `@Size` constraint on a container.
#[derive(Debug, Clone, Copy, PartialEq, Eq)]
pub enum SizeConstraint {
    Exact(usize),
    Range(usize, usize),
}

/// Validators of a field, from decorators and JSDoc tags.
#[derive(Debug, Clone)]
pub struct FieldValidators {
    /// `@ref`: applies to a scalar, a list element or a map value; the target
    /// table is found from the field type.
    pub has_ref: bool,
    /// `RefKey<T>`: applies to a map key (or a list element).
    pub has_ref_key: bool,
    /// `@Range(min, max)`, each bound already written as it appears in the
    /// schema (a whole number without a decimal point).
    pub range: Option<(String, String)>,
    pub required: bool,
    pub size: Option<SizeConstraint>,
    pub set_values: Vec<String>,
    pub index_field: Option<String>,
    pub nominal: bool,
    /// `@Ref(ClassName)`: the class named by the decorator.
    pub ref_target: Option<String>,
}

/// The view of a field's validators.
pub struct ValidatorsView {
    pub has_ref: bool,
    pub has_ref_key: bool,
    pub range: Option<(Seq<char>, Seq<char>)>,
    pub required: bool,
    pub size: Option<SizeConstraint>,
    pub set_values: Seq<Seq<char>>,
    pub index_field: Option<Seq<char>>,
    pub nominal: bool,
    pub ref_target: Option<Seq<char>>,
}

impl View for FieldValidators {
    type V = ValidatorsView;

    open spec fn view(&self) -> ValidatorsView {
        ValidatorsView {
            has_ref: self.has_ref,
            has_ref_key: self.has_ref_key,
            range: match self.range {
                Some((a, b)) => Some((a@, b@)),
                None => None,
            },
            required: self.required,
            size: self.size,
            set_values: self.set_values@.map_values(|s: String| s@),
            index_field: match self.index_field {
                Some(i) => Some(i@),
                None => None,
            },
            nominal: self.nominal,
            ref_target: match self.ref_target {
                Some(t) => Some(t@),
                None => None,
            },
        }
    }
}

impl FieldValidators {
    /// No validators.
    pub fn none() -> (v: Self)
        ensures
            !v.has_ref && !v.has_ref_key && v.range.is_none() && !v.required && v.size.is_none()
                && v.set_values@.len() == 0 && v.index_field.is_none() && !v.nominal
                && v.ref_target.is_none(),
    {
        FieldValidators {
            has_ref: false,
            has_ref_key: false,
            range: None,
            required: false,
            size: None,
            set_values: Vec::new(),
            index_field: None,
            nominal: false,
            ref_target: None,
        }
    }
}

/// A copy of a range.
pub fn copy_range(r: &Option<(String, String)>) -> (c: Option<(String, String)>)
    ensures
        c == *r,
{
    match r {
        Some((a, b)) => Some((a.clone(), b.clone())),
        None => None,
    }
}

/// A field of a class or interface.
#[derive(Debug, Clone)]
pub struct FieldInfo {
    pub name: String,
    pub field_type: String,
    pub comment: Option<String>,
    /// From the `@alias` JSDoc tag.
    pub alias: Option<String>,
    pub is_optional: bool,
    pub validators: FieldValidators,
    /// The field is `ObjectFactory<T>`.
    pub is_object_factory: bool,
    pub factory_inner_type: Option<String>,
    /// The field is `Constructor<T>`.
    pub is_constructor: bool,
    pub constructor_inner_type: Option<String>,
    /// The TypeScript type before mapping.
    pub original_type: String,
    /// From `@default`.
    pub default_value: Option<String>,
    /// From `@type`: overrides the mapped type.
    pub type_override: Option<String>,
    /// From `@sep`: list separator.
    pub separator: Option<String>,
    /// From `@mapsep`: map separator.
    pub map_separator: Option<String>,
    /// From `@tags`.
    pub custom_tags: Option<String>,
    /// `T` of `RefKey<T>` in `Map<RefKey<T>, V>`.
    pub ref_key_inner_type: Option<String>,
    /// `@RefReplace<T, "field">()`: the referenced class and field.
    pub ref_replace: Option<(String, String)>,
}

/// The view of an optional string.
pub open spec fn opt_chars(o: Option<String>) -> Option<Seq<char>> {
    match o {
        Some(s) => Some(s@),
        None => None,
    }
}

/// The view of a field.
pub struct FieldView {
    pub name: Seq<char>,
    pub field_type: Seq<char>,
    pub comment: Option<Seq<char>>,
    pub alias: Option<Seq<char>>,
    pub is_optional: bool,
    pub validators: ValidatorsView,
    pub is_object_factory: bool,
    pub factory_inner_type: Option<Seq<char>>,
    pub is_constructor: bool,
    pub constructor_inner_type: Option<Seq<char>>,
    pub original_type: Seq<char>,
    pub default_value: Option<Seq<char>>,
    pub type_override: Option<Seq<char>>,
    pub separator: Option<Seq<char>>,
    pub map_separator: Option<Seq<char>>,
    pub custom_tags: Option<Seq<char>>,
    pub ref_key_inner_type: Option<Seq<char>>,
    pub ref_replace: Option<(Seq<char>, Seq<char>)>,
}

impl View for FieldInfo {
    type V = FieldView;

    open spec fn view(&self) -> FieldView {
        FieldView {
            name: self.name@,
            field_type: self.field_type@,
            comment: opt_chars(self.comment),
            alias: opt_chars(self.alias),
            is_optional: self.is_optional,
            validators: self.validators@,
            is_object_factory: self.is_object_factory,
            factory_inner_type: opt_chars(self.factory_inner_type),
            is_constructor: self.is_constructor,
            constructor_inner_type: opt_chars(self.constructor_inner_type),
            original_type: self.original_type@,
            default_value: opt_chars(self.default_value),
            type_override: opt_chars(self.type_override),
            separator: opt_chars(self.separator),
            map_separator: opt_chars(self.map_separator),
            custom_tags: opt_chars(self.custom_tags),
            ref_key_inner_type: opt_chars(self.ref_key_inner_type),
            ref_replace: match self.ref_replace {
                Some((a, b)) => Some((a@, b@)),
                None => None,
            },
        }
    }
}

impl FieldInfo {
    /// A field with the given name and type and nothing else set.
    pub fn new(name: String, field_type: String) -> (f: Self)
        ensures
            f.name == name,
            f.field_type == field_type,
            f.original_type == field_type,
            f.comment.is_none() && f.alias.is_none() && !f.is_optional,
            !f.validators.has_ref && !f.validators.has_ref_key && f.validators.range.is_none()
                && !f.validators.required && f.validators.size.is_none()
                && f.validators.set_values@.len() == 0 && f.validators.index_field.is_none()
                && !f.validators.nominal && f.validators.ref_target.is_none(),
            !f.is_object_factory && f.factory_inner_type.is_none(),
            !f.is_constructor && f.constructor_inner_type.is_none(),
            f.default_value.is_none() && f.type_override.is_none() && f.separator.is_none()
                && f.map_separator.is_none() && f.custom_tags.is_none()
                && f.ref_key_inner_type.is_none() && f.ref_replace.is_none(),
    {
        let original_type = field_type.clone();
        FieldInfo {
            name,
            field_type,
            comment: None,
            alias: None,
            is_optional: false,
            validators: FieldValidators::none(),
            is_object_factory: false,
            factory_inner_type: None,
            is_constructor: false,
            constructor_inner_type: None,
            original_type,
            default_value: None,
            type_override: None,
            separator: None,
            map_separator: None,
            custom_tags: None,
            ref_key_inner_type: None,
            ref_replace: None,
        }
    }
}

} // verus!
