//! Mapping of TypeScript type names to Luban type names.
use crate::assoc::{StrTable, pair_views};
use crate::text::{chars_of, find_char, first_index, has_char, is_prefix, lowercase_of, slice_to_vec, starts_with, string_of, to_lowercase};
use vstd::prelude::*;

verus! {

/// The built-in table: TypeScript name (lower case) to Luban type.
pub open spec fn builtin_map() -> Map<Seq<char>, Seq<char>> {
    Map::empty()
        .insert("number"@, "double"@)
        .insert("string"@, "string"@)
        .insert("boolean"@, "bool"@)
        .insert("float"@, "float"@)
        .insert("double"@, "double"@)
        .insert("int"@, "int"@)
        .insert("long"@, "long"@)
        .insert("vector3"@, "Vector3"@)
        .insert("vector2"@, "Vector2"@)
        .insert("cframe"@, "CFrame"@)
        .insert("color3"@, "Color3"@)
        .insert("anyentity"@, "long"@)
        .insert("entity"@, "long"@)
        .insert("entityid"@, "long"@)
        .insert("assetpath"@, "string"@)
        .insert("castactiontarget"@, "CastActionTarget"@)
        .insert("castcontext"@, "CastContext"@)
}

/// `m` with each custom pair added in order, its key lower-cased; a later pair
/// overrides an earlier one.
pub open spec fn with_custom(m: Map<Seq<char>, Seq<char>>, custom: Seq<(Seq<char>, Seq<char>)>) -> Map<
    Seq<char>,
    Seq<char>,
>
    decreases custom.len(),
{
    if custom.len() == 0 {
        m
    } else {
        with_custom(m, custom.drop_last()).insert(lowercase_of(custom.last().0), custom.last().1)
    }
}

/// What a mapping table gives for a single type name: the mapped name when the
/// lower-cased name is a key, else the name itself.
pub open spec fn map_name(m: Map<Seq<char>, Seq<char>>, t: Seq<char>) -> Seq<char> {
    if m.contains_key(lowercase_of(t)) {
        m[lowercase_of(t)]
    } else {
        t
    }
}

/// What a mapping table gives for a full type: `list,T` and `set,T` map their
/// element, `map,K,V` maps key and value (split at the first comma after
/// `map,`), anything else is mapped as a single name.
pub open spec fn map_full(m: Map<Seq<char>, Seq<char>>, t: Seq<char>) -> Seq<char> {
    if is_prefix("list,"@, t) {
        "list,"@ + map_name(m, t.skip(5))
    } else if is_prefix("set,"@, t) {
        "set,"@ + map_name(m, t.skip(4))
    } else if is_prefix("map,"@, t) && has_char(t.skip(4), ',') {
        let rest = t.skip(4);
        let k = first_index(rest, ',');
        "map,"@ + map_name(m, rest.take(k)) + ","@ + map_name(m, rest.skip(k + 1))
    } else {
        map_name(m, t)
    }
}

/// Two spellings of a name that differ only in letter case map alike, as soon
/// as the table knows the name; a name the table does not know passes through.
pub proof fn law_map_case_insensitive(m: Map<Seq<char>, Seq<char>>, a: Seq<char>, b: Seq<char>)
    ensures
        lowercase_of(a) == lowercase_of(b) && m.contains_key(lowercase_of(a)) ==> map_name(m, a)
            == map_name(m, b),
        !m.contains_key(lowercase_of(a)) ==> map_name(m, a) == a,
{
}

/// A custom pair decides what its key maps to, in any letter case, unless a
/// later custom pair has the same lower-cased key; every other name keeps what
/// the base table gives it.
pub proof fn law_custom_mapping_wins(
    m: Map<Seq<char>, Seq<char>>,
    custom: Seq<(Seq<char>, Seq<char>)>,
    i: int,
    name: Seq<char>,
)
    requires
        0 <= i < custom.len(),
        lowercase_of(name) == lowercase_of(custom[i].0),
        forall|j: int|
            i < j < custom.len() ==> lowercase_of(#[trigger] custom[j].0) != lowercase_of(
                custom[i].0,
            ),
    ensures
        map_name(with_custom(m, custom), name) == custom[i].1,
    decreases custom.len(),
{
    if i < custom.len() - 1 {
        law_custom_mapping_wins(m, custom.drop_last(), i, name);
        assert(custom.drop_last()[i] == custom[i]);
        assert(custom.last() == custom[custom.len() - 1]);
    }
}

/// A name whose lower-cased form is the key of no custom pair maps as the base
/// table maps it.
pub proof fn law_other_names_keep_base(
    m: Map<Seq<char>, Seq<char>>,
    custom: Seq<(Seq<char>, Seq<char>)>,
    name: Seq<char>,
)
    requires
        forall|j: int|
            0 <= j < custom.len() ==> lowercase_of(#[trigger] custom[j].0) != lowercase_of(name),
    ensures
        map_name(with_custom(m, custom), name) == map_name(m, name),
    decreases custom.len(),
{
    if custom.len() > 0 {
        assert forall|j: int| 0 <= j < custom.drop_last().len() implies lowercase_of(
            #[trigger] custom.drop_last()[j].0,
        ) != lowercase_of(name) by {
            assert(custom.drop_last()[j] == custom[j]);
        }
        law_other_names_keep_base(m, custom.drop_last(), name);
        assert(custom.last() == custom[custom.len() - 1]);
    }
}

/// Luban's own scalar type names.
pub open spec fn is_luban_scalar(t: Seq<char>) -> bool {
    t == "int"@ || t == "long"@ || t == "float"@ || t == "double"@ || t == "string"@
}

/// Unless a custom mapping names it, a name that already is one of Luban's
/// scalar types (`int`, `long`, `float`, `double`, `string`, in any letter
/// case) maps to that type as it is, TypeScript's `number` maps to `double`
/// and `boolean` to `bool`.
pub proof fn law_builtin_scalars(custom: Seq<(Seq<char>, Seq<char>)>, name: Seq<char>)
    requires
        forall|j: int|
            0 <= j < custom.len() ==> lowercase_of(#[trigger] custom[j].0) != lowercase_of(name),
    ensures
        is_luban_scalar(lowercase_of(name)) ==> map_name(with_custom(builtin_map(), custom), name)
            == lowercase_of(name),
        lowercase_of(name) == "number"@ ==> map_name(with_custom(builtin_map(), custom), name) == "double"@,
        lowercase_of(name) == "boolean"@ ==> map_name(with_custom(builtin_map(), custom), name) == "bool"@,
{
    law_other_names_keep_base(builtin_map(), custom, name);
    assert(builtin_map().contains_key("int"@) && builtin_map()["int"@] == "int"@) by {
        reveal_strlit("int");
        reveal_strlit("int");
        reveal_strlit("long");
        assert("int"@.len() != "long"@.len());
        assert("int"@ != "long"@);
        reveal_strlit("vector3");
        assert("int"@.len() != "vector3"@.len());
        assert("int"@ != "vector3"@);
        reveal_strlit("vector2");
        assert("int"@.len() != "vector2"@.len());
        assert("int"@ != "vector2"@);
        reveal_strlit("cframe");
        assert("int"@.len() != "cframe"@.len());
        assert("int"@ != "cframe"@);
        reveal_strlit("color3");
        assert("int"@.len() != "color3"@.len());
        assert("int"@ != "color3"@);
        reveal_strlit("anyentity");
        assert("int"@.len() != "anyentity"@.len());
        assert("int"@ != "anyentity"@);
        reveal_strlit("entity");
        assert("int"@.len() != "entity"@.len());
        assert("int"@ != "entity"@);
        reveal_strlit("entityid");
        assert("int"@.len() != "entityid"@.len());
        assert("int"@ != "entityid"@);
        reveal_strlit("assetpath");
        assert("int"@.len() != "assetpath"@.len());
        assert("int"@ != "assetpath"@);
        reveal_strlit("castactiontarget");
        assert("int"@.len() != "castactiontarget"@.len());
        assert("int"@ != "castactiontarget"@);
        reveal_strlit("castcontext");
        assert("int"@.len() != "castcontext"@.len());
        assert("int"@ != "castcontext"@);
    }
    assert(builtin_map().contains_key("long"@) && builtin_map()["long"@] == "long"@) by {
        reveal_strlit("long");
        reveal_strlit("long");
        reveal_strlit("vector3");
        assert("long"@.len() != "vector3"@.len());
        assert("long"@ != "vector3"@);
        reveal_strlit("vector2");
        assert("long"@.len() != "vector2"@.len());
        assert("long"@ != "vector2"@);
        reveal_strlit("cframe");
        assert("long"@.len() != "cframe"@.len());
        assert("long"@ != "cframe"@);
        reveal_strlit("color3");
        assert("long"@.len() != "color3"@.len());
        assert("long"@ != "color3"@);
        reveal_strlit("anyentity");
        assert("long"@.len() != "anyentity"@.len());
        assert("long"@ != "anyentity"@);
        reveal_strlit("entity");
        assert("long"@.len() != "entity"@.len());
        assert("long"@ != "entity"@);
        reveal_strlit("entityid");
        assert("long"@.len() != "entityid"@.len());
        assert("long"@ != "entityid"@);
        reveal_strlit("assetpath");
        assert("long"@.len() != "assetpath"@.len());
        assert("long"@ != "assetpath"@);
        reveal_strlit("castactiontarget");
        assert("long"@.len() != "castactiontarget"@.len());
        assert("long"@ != "castactiontarget"@);
        reveal_strlit("castcontext");
        assert("long"@.len() != "castcontext"@.len());
        assert("long"@ != "castcontext"@);
    }
    assert(builtin_map().contains_key("float"@) && builtin_map()["float"@] == "float"@) by {
        reveal_strlit("float");
        reveal_strlit("float");
        reveal_strlit("double");
        assert("float"@.len() != "double"@.len());
        assert("float"@ != "double"@);
        reveal_strlit("int");
        assert("float"@.len() != "int"@.len());
        assert("float"@ != "int"@);
        reveal_strlit("long");
        assert("float"@.len() != "long"@.len());
        assert("float"@ != "long"@);
        reveal_strlit("vector3");
        assert("float"@.len() != "vector3"@.len());
        assert("float"@ != "vector3"@);
        reveal_strlit("vector2");
        assert("float"@.len() != "vector2"@.len());
        assert("float"@ != "vector2"@);
        reveal_strlit("cframe");
        assert("float"@.len() != "cframe"@.len());
        assert("float"@ != "cframe"@);
        reveal_strlit("color3");
        assert("float"@.len() != "color3"@.len());
        assert("float"@ != "color3"@);
        reveal_strlit("anyentity");
        assert("float"@.len() != "anyentity"@.len());
        assert("float"@ != "anyentity"@);
        reveal_strlit("entity");
        assert("float"@.len() != "entity"@.len());
        assert("float"@ != "entity"@);
        reveal_strlit("entityid");
        assert("float"@.len() != "entityid"@.len());
        assert("float"@ != "entityid"@);
        reveal_strlit("assetpath");
        assert("float"@.len() != "assetpath"@.len());
        assert("float"@ != "assetpath"@);
        reveal_strlit("castactiontarget");
        assert("float"@.len() != "castactiontarget"@.len());
        assert("float"@ != "castactiontarget"@);
        reveal_strlit("castcontext");
        assert("float"@.len() != "castcontext"@.len());
        assert("float"@ != "castcontext"@);
    }
    assert(builtin_map().contains_key("double"@) && builtin_map()["double"@] == "double"@) by {
        reveal_strlit("double");
        reveal_strlit("double");
        reveal_strlit("int");
        assert("double"@.len() != "int"@.len());
        assert("double"@ != "int"@);
        reveal_strlit("long");
        assert("double"@.len() != "long"@.len());
        assert("double"@ != "long"@);
        reveal_strlit("vector3");
        assert("double"@.len() != "vector3"@.len());
        assert("double"@ != "vector3"@);
        reveal_strlit("vector2");
        assert("double"@.len() != "vector2"@.len());
        assert("double"@ != "vector2"@);
        reveal_strlit("cframe");
        assert("double"@[0] != "cframe"@[0]);
        assert("double"@ != "cframe"@);
        reveal_strlit("color3");
        assert("double"@[0] != "color3"@[0]);
        assert("double"@ != "color3"@);
        reveal_strlit("anyentity");
        assert("double"@.len() != "anyentity"@.len());
        assert("double"@ != "anyentity"@);
        reveal_strlit("entity");
        assert("double"@[0] != "entity"@[0]);
        assert("double"@ != "entity"@);
        reveal_strlit("entityid");
        assert("double"@.len() != "entityid"@.len());
        assert("double"@ != "entityid"@);
        reveal_strlit("assetpath");
        assert("double"@.len() != "assetpath"@.len());
        assert("double"@ != "assetpath"@);
        reveal_strlit("castactiontarget");
        assert("double"@.len() != "castactiontarget"@.len());
        assert("double"@ != "castactiontarget"@);
        reveal_strlit("castcontext");
        assert("double"@.len() != "castcontext"@.len());
        assert("double"@ != "castcontext"@);
    }
    assert(builtin_map().contains_key("string"@) && builtin_map()["string"@] == "string"@) by {
        reveal_strlit("string");
        reveal_strlit("string");
        reveal_strlit("boolean");
        assert("string"@.len() != "boolean"@.len());
        assert("string"@ != "boolean"@);
        reveal_strlit("float");
        assert("string"@.len() != "float"@.len());
        assert("string"@ != "float"@);
        reveal_strlit("double");
        assert("string"@[0] != "double"@[0]);
        assert("string"@ != "double"@);
        reveal_strlit("int");
        assert("string"@.len() != "int"@.len());
        assert("string"@ != "int"@);
        reveal_strlit("long");
        assert("string"@.len() != "long"@.len());
        assert("string"@ != "long"@);
        reveal_strlit("vector3");
        assert("string"@.len() != "vector3"@.len());
        assert("string"@ != "vector3"@);
        reveal_strlit("vector2");
        assert("string"@.len() != "vector2"@.len());
        assert("string"@ != "vector2"@);
        reveal_strlit("cframe");
        assert("string"@[0] != "cframe"@[0]);
        assert("string"@ != "cframe"@);
        reveal_strlit("color3");
        assert("string"@[0] != "color3"@[0]);
        assert("string"@ != "color3"@);
        reveal_strlit("anyentity");
        assert("string"@.len() != "anyentity"@.len());
        assert("string"@ != "anyentity"@);
        reveal_strlit("entity");
        assert("string"@[0] != "entity"@[0]);
        assert("string"@ != "entity"@);
        reveal_strlit("entityid");
        assert("string"@.len() != "entityid"@.len());
        assert("string"@ != "entityid"@);
        reveal_strlit("assetpath");
        assert("string"@.len() != "assetpath"@.len());
        assert("string"@ != "assetpath"@);
        reveal_strlit("castactiontarget");
        assert("string"@.len() != "castactiontarget"@.len());
        assert("string"@ != "castactiontarget"@);
        reveal_strlit("castcontext");
        assert("string"@.len() != "castcontext"@.len());
        assert("string"@ != "castcontext"@);
    }
    assert(builtin_map().contains_key("number"@) && builtin_map()["number"@] == "double"@) by {
        reveal_strlit("number");
        reveal_strlit("double");
        reveal_strlit("string");
        assert("number"@[0] != "string"@[0]);
        assert("number"@ != "string"@);
        reveal_strlit("boolean");
        assert("number"@.len() != "boolean"@.len());
        assert("number"@ != "boolean"@);
        reveal_strlit("float");
        assert("number"@.len() != "float"@.len());
        assert("number"@ != "float"@);
        reveal_strlit("double");
        assert("number"@[0] != "double"@[0]);
        assert("number"@ != "double"@);
        reveal_strlit("int");
        assert("number"@.len() != "int"@.len());
        assert("number"@ != "int"@);
        reveal_strlit("long");
        assert("number"@.len() != "long"@.len());
        assert("number"@ != "long"@);
        reveal_strlit("vector3");
        assert("number"@.len() != "vector3"@.len());
        assert("number"@ != "vector3"@);
        reveal_strlit("vector2");
        assert("number"@.len() != "vector2"@.len());
        assert("number"@ != "vector2"@);
        reveal_strlit("cframe");
        assert("number"@[0] != "cframe"@[0]);
        assert("number"@ != "cframe"@);
        reveal_strlit("color3");
        assert("number"@[0] != "color3"@[0]);
        assert("number"@ != "color3"@);
        reveal_strlit("anyentity");
        assert("number"@.len() != "anyentity"@.len());
        assert("number"@ != "anyentity"@);
        reveal_strlit("entity");
        assert("number"@[0] != "entity"@[0]);
        assert("number"@ != "entity"@);
        reveal_strlit("entityid");
        assert("number"@.len() != "entityid"@.len());
        assert("number"@ != "entityid"@);
        reveal_strlit("assetpath");
        assert("number"@.len() != "assetpath"@.len());
        assert("number"@ != "assetpath"@);
        reveal_strlit("castactiontarget");
        assert("number"@.len() != "castactiontarget"@.len());
        assert("number"@ != "castactiontarget"@);
        reveal_strlit("castcontext");
        assert("number"@.len() != "castcontext"@.len());
        assert("number"@ != "castcontext"@);
    }
    assert(builtin_map().contains_key("boolean"@) && builtin_map()["boolean"@] == "bool"@) by {
        reveal_strlit("boolean");
        reveal_strlit("bool");
        reveal_strlit("float");
        assert("boolean"@.len() != "float"@.len());
        assert("boolean"@ != "float"@);
        reveal_strlit("double");
        assert("boolean"@.len() != "double"@.len());
        assert("boolean"@ != "double"@);
        reveal_strlit("int");
        assert("boolean"@.len() != "int"@.len());
        assert("boolean"@ != "int"@);
        reveal_strlit("long");
        assert("boolean"@.len() != "long"@.len());
        assert("boolean"@ != "long"@);
        reveal_strlit("vector3");
        assert("boolean"@[0] != "vector3"@[0]);
        assert("boolean"@ != "vector3"@);
        reveal_strlit("vector2");
        assert("boolean"@[0] != "vector2"@[0]);
        assert("boolean"@ != "vector2"@);
        reveal_strlit("cframe");
        assert("boolean"@.len() != "cframe"@.len());
        assert("boolean"@ != "cframe"@);
        reveal_strlit("color3");
        assert("boolean"@.len() != "color3"@.len());
        assert("boolean"@ != "color3"@);
        reveal_strlit("anyentity");
        assert("boolean"@.len() != "anyentity"@.len());
        assert("boolean"@ != "anyentity"@);
        reveal_strlit("entity");
        assert("boolean"@.len() != "entity"@.len());
        assert("boolean"@ != "entity"@);
        reveal_strlit("entityid");
        assert("boolean"@.len() != "entityid"@.len());
        assert("boolean"@ != "entityid"@);
        reveal_strlit("assetpath");
        assert("boolean"@.len() != "assetpath"@.len());
        assert("boolean"@ != "assetpath"@);
        reveal_strlit("castactiontarget");
        assert("boolean"@.len() != "castactiontarget"@.len());
        assert("boolean"@ != "castactiontarget"@);
        reveal_strlit("castcontext");
        assert("boolean"@.len() != "castcontext"@.len());
        assert("boolean"@ != "castcontext"@);
    }
}

/// Maps TypeScript types to Luban types, case-insensitively.
pub struct TypeMapper {
    mappings: StrTable<String>,
}

impl View for TypeMapper {
    type V = Map<Seq<char>, Seq<char>>;

    closed spec fn view(&self) -> Map<Seq<char>, Seq<char>> {
        self.mappings.view_map()
    }
}

fn put(t: &mut StrTable<String>, k: &str, v: &str)
    ensures
        final(t).view_map() == old(t).view_map().insert(k@, v@),
{
    t.insert(String::from_str(k), String::from_str(v));
}

impl TypeMapper {
    /// A mapper holding the built-in table with `custom_mappings` merged in:
    /// each custom key is lower-cased, and a custom entry overrides a built-in
    /// one (and an earlier custom one) with the same lower-cased key.
    pub fn new(custom_mappings: &Vec<(String, String)>) -> (m: Self)
        ensures
            m@ == with_custom(builtin_map(), pair_views(custom_mappings@)),
    {
        let mut mappings = Self::builtin_mappings();
        let ghost cv = pair_views(custom_mappings@);
        let mut i: usize = 0;
        while i < custom_mappings.len()
            invariant
                i <= custom_mappings.len(),
                cv == pair_views(custom_mappings@),
                mappings.view_map() == with_custom(builtin_map(), cv.take(i as int)),
            decreases custom_mappings.len() - i,
        {
            let key = to_lowercase(custom_mappings[i].0.as_str());
            let value = custom_mappings[i].1.clone();
            mappings.insert(key, value);
            assert(cv.take(i + 1).drop_last() =~= cv.take(i as int));
            i += 1;
        }
        assert(cv.take(custom_mappings@.len() as int) =~= cv);
        TypeMapper { mappings }
    }

    /// The built-in table.
    fn builtin_mappings() -> (t: StrTable<String>)
        ensures
            t.view_map() == builtin_map(),
    {
        let mut m: StrTable<String> = StrTable::new();
        assert(m.view_map() =~= Map::<Seq<char>, Seq<char>>::empty());
        put(&mut m, "number", "double");
        put(&mut m, "string", "string");
        put(&mut m, "boolean", "bool");
        put(&mut m, "float", "float");
        put(&mut m, "double", "double");
        put(&mut m, "int", "int");
        put(&mut m, "long", "long");
        put(&mut m, "vector3", "Vector3");
        put(&mut m, "vector2", "Vector2");
        put(&mut m, "cframe", "CFrame");
        put(&mut m, "color3", "Color3");
        put(&mut m, "anyentity", "long");
        put(&mut m, "entity", "long");
        put(&mut m, "entityid", "long");
        put(&mut m, "assetpath", "string");
        put(&mut m, "castactiontarget", "CastActionTarget");
        put(&mut m, "castcontext", "CastContext");
        m
    }

    /// Maps one type name: the table's entry for its lower-cased form, or the
    /// name unchanged when there is none.
    pub fn map(&self, ts_type: &str) -> (r: String)
        ensures
            r@ == map_name(self@, ts_type@),
    {
        let key = to_lowercase(ts_type);
        match self.mappings.get(key.as_str()) {
            Some(mapped) => mapped.clone(),
            None => String::from_str(ts_type),
        }
    }

    /// Maps a full type string, including the element types of `list,T`,
    /// `set,T` and `map,K,V`.
    pub fn map_full_type(&self, field_type: &str) -> (r: String)
        ensures
            r@ == map_full(self@, field_type@),
    {
        let t = chars_of(field_type);
        let list_p = chars_of("list,");
        let set_p = chars_of("set,");
        let map_p = chars_of("map,");
        proof {
            reveal_strlit("list,");
            reveal_strlit("set,");
            reveal_strlit("map,");
        }
        if starts_with(&t, &list_p) {
            let elem = string_of(&slice_to_vec(&t, 5, t.len()));
            assert(elem@ =~= field_type@.skip(5));
            let mut out = String::from_str("list,");
            out.append(self.map(elem.as_str()).as_str());
            return out;
        }
        if starts_with(&t, &set_p) {
            let elem = string_of(&slice_to_vec(&t, 4, t.len()));
            assert(elem@ =~= field_type@.skip(4));
            let mut out = String::from_str("set,");
            out.append(self.map(elem.as_str()).as_str());
            return out;
        }
        if starts_with(&t, &map_p) {
            let rest = slice_to_vec(&t, 4, t.len());
            assert(rest@ =~= field_type@.skip(4));
            if let Some(k) = find_char(&rest, ',') {
                let key = string_of(&slice_to_vec(&rest, 0, k));
                let value = string_of(&slice_to_vec(&rest, k + 1, rest.len()));
                assert(key@ =~= rest@.take(k as int));
                assert(value@ =~= rest@.skip(k + 1));
                let mut out = String::from_str("map,");
                out.append(self.map(key.as_str()).as_str());
                out.append(",");
                out.append(self.map(value.as_str()).as_str());
                return out;
            }
        }
        self.map(field_type)
    }
}

} // verus!
