//! Type strings with validators, for fields whose references are named
//! by `@Ref(ClassName)`.
use crate::parser::{FieldValidators, SizeConstraint};
use crate::table_registry::{TableEntryView, TableRegistry};
use crate::text::{concat2, joined, join_strings, lemma_views_push, usize_to_decimal, views};
use crate::xml_types::size_parts;
use vstd::prelude::*;

verus! {

/// A type with its validators: `!` when required, `#ref=` with the table
/// that `@Ref` names (when the registry knows it), `#range=[min,max]`, and
/// `#set=` with the values.
pub open spec fn validated_type(entries: Map<Seq<char>, TableEntryView>, base: Seq<char>, v: FieldValidators) -> Seq<char> {
    base + (if v.required {
        "!"@
    } else {
        Seq::empty()
    }) + (match v.ref_target {
        Some(t) => if entries.contains_key(t@) {
            "#ref="@ + entries[t@].full_table_ref
        } else {
            Seq::empty()
        },
        None => Seq::empty(),
    }) + (match v.range {
        Some((a, b)) => "#range=["@ + a@ + ","@ + b@ + "]"@,
        None => Seq::empty(),
    }) + (if v.set_values@.len() > 0 {
        "#set="@ + joined(views(v.set_values@), ","@)
    } else {
        Seq::empty()
    })
}

/// A container with its size and index modifiers (joined by commas) and
/// its element type.
pub open spec fn validated_container(container: Seq<char>, element: Seq<char>, v: FieldValidators) -> Seq<char> {
    let mods = size_parts(v.size) + match v.index_field {
        Some(i) => seq!["index="@ + i@],
        None => Seq::empty(),
    };
    if mods.len() == 0 {
        container + ","@ + element
    } else {
        "("@ + container + "#"@ + joined(mods, ","@) + "),"@ + element
    }
}

/// Writes types with validators.
pub struct ValidatorGenerator<'a> {
    registry: &'a TableRegistry,
}

impl<'a> ValidatorGenerator<'a> {
    /// The registry of tables.
    pub closed spec fn registry(&self) -> &'a TableRegistry {
        self.registry
    }

    /// A generator over a registry.
    pub fn new(registry: &'a TableRegistry) -> (g: Self)
        ensures
            g.registry() == registry,
    {
        ValidatorGenerator { registry }
    }

    /// A type with its validators; see `validated_type`.
    pub fn generate_type(&self, base_type: &str, validators: &FieldValidators) -> (r: String)
        ensures
            r@ == validated_type(self.registry().entries_map(), base_type@, *validators),
    {
        let mut result = String::from_str(base_type);
        if validators.required {
            result.append("!");
        }
        if let Some(target) = &validators.ref_target {
            if let Some(full) = self.registry.resolve_ref(target.as_str()) {
                result.append("#ref=");
                result.append(full.as_str());
            }
        }
        if let Some((min, max)) = &validators.range {
            result.append("#range=[");
            result.append(min.as_str());
            result.append(",");
            result.append(max.as_str());
            result.append("]");
        }
        if validators.set_values.len() > 0 {
            result.append("#set=");
            result.append(join_strings(&validators.set_values, ",").as_str());
        }
        result
    }

    /// A container type with its modifiers; see `validated_container`.
    pub fn generate_container_type(&self, container: &str, element_type: &str, validators: &FieldValidators) -> (r: String)
        ensures
            r@ == validated_container(container@, element_type@, *validators),
    {
        let mut mods: Vec<String> = Vec::new();
        match &validators.size {
            Some(SizeConstraint::Exact(n)) => {
                let m = concat2("size=", usize_to_decimal(*n).as_str());
                proof {
                    lemma_views_push(mods@, m);
                }
                mods.push(m);
            },
            Some(SizeConstraint::Range(a, b)) => {
                let mut p = String::from_str("size=[");
                p.append(usize_to_decimal(*a).as_str());
                p.append(",");
                p.append(usize_to_decimal(*b).as_str());
                p.append("]");
                proof {
                    lemma_views_push(mods@, p);
                }
                mods.push(p);
            },
            None => {},
        }
        if let Some(index) = &validators.index_field {
            let m = concat2("index=", index.as_str());
            proof {
                lemma_views_push(mods@, m);
            }
            mods.push(m);
        }
        assert(views(mods@) =~= size_parts(validators.size) + match validators.index_field {
            Some(i) => seq!["index="@ + i@],
            None => Seq::<Seq<char>>::empty(),
        });
        if mods.len() == 0 {
            let mut r = String::from_str(container);
            r.append(",");
            r.append(element_type);
            r
        } else {
            let mut r = String::from_str("(");
            r.append(container);
            r.append("#");
            r.append(join_strings(&mods, ",").as_str());
            r.append("),");
            r.append(element_type);
            r
        }
    }
}

} // verus!
