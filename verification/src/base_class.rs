//! The parent bean of a class, by its name.
use crate::config::ParentMapping;
use crate::parser::ClassInfo;
use crate::table_mapping::{regex_compiles, regex_is_match, regex_matches, regex_valid};
use vstd::prelude::*;

verus! {

/// The mappings whose pattern compiles, as pattern and parent, in order.
pub open spec fn valid_parent_mappings(ms: Seq<ParentMapping>) -> Seq<(Seq<char>, Seq<char>)>
    decreases ms.len(),
{
    if ms.len() == 0 {
        Seq::empty()
    } else {
        valid_parent_mappings(ms.drop_last()) + if regex_valid(ms.last().pattern@) {
            seq![(ms.last().pattern@, ms.last().parent@)]
        } else {
            Seq::empty()
        }
    }
}

/// The parent of the first mapping whose pattern matches the name, else
/// the default.
pub open spec fn mapped_parent(ms: Seq<(Seq<char>, Seq<char>)>, name: Seq<char>, default: Seq<char>) -> Seq<char>
    decreases ms.len(),
{
    if ms.len() == 0 {
        default
    } else if regex_matches(ms[0].0, name) {
        ms[0].1
    } else {
        mapped_parent(ms.drop_first(), name, default)
    }
}

/// The parent of a bean: what an interface extends (none without it); for
/// a class, the parent its name maps to, else the default.
pub open spec fn base_of(ms: Seq<(Seq<char>, Seq<char>)>, c: ClassInfo, default: Seq<char>) -> Seq<char> {
    if c.is_interface {
        match c.extends {
            Some(e) => e@,
            None => Seq::empty(),
        }
    } else {
        mapped_parent(ms, c.name@, default)
    }
}

/// Resolves the parent bean of classes.
pub struct BaseClassResolver<'a> {
    default_base: &'a str,
    parent_mappings: Vec<(String, String)>,
}

impl<'a> BaseClassResolver<'a> {
    #[verifier::type_invariant]
    spec fn patterns_compile(self) -> bool {
        forall|j: int| 0 <= j < self.parent_mappings@.len() ==> regex_valid(#[trigger] self.parent_mappings@[j].0@)
    }

    /// The mappings used, as pattern and parent, in order.
    pub closed spec fn mappings(&self) -> Seq<(Seq<char>, Seq<char>)> {
        self.parent_mappings@.map_values(|m: (String, String)| (m.0@, m.1@))
    }

    /// The default parent.
    pub closed spec fn default_parent(&self) -> Seq<char> {
        self.default_base@
    }

    /// A resolver with a default parent and the mappings whose pattern compiles.
    pub fn new(default_base: &'a str, mappings: &[ParentMapping]) -> (r: Self)
        ensures
            r.mappings() == valid_parent_mappings(mappings@),
            r.default_parent() == default_base@,
    {
        let mut kept: Vec<(String, String)> = Vec::new();
        let mut i: usize = 0;
        while i < mappings.len()
            invariant
                i <= mappings@.len(),
                kept@.map_values(|m: (String, String)| (m.0@, m.1@)) == valid_parent_mappings(mappings@.take(i as int)),
                forall|j: int| 0 <= j < kept@.len() ==> regex_valid(#[trigger] kept@[j].0@),
            decreases mappings@.len() - i,
        {
            assert(mappings@.take(i + 1).drop_last() =~= mappings@.take(i as int));
            let ghost before = kept@.map_values(|m: (String, String)| (m.0@, m.1@));
            if regex_compiles(mappings[i].pattern.as_str()) {
                kept.push((mappings[i].pattern.clone(), mappings[i].parent.clone()));
                assert(kept@.map_values(|m: (String, String)| (m.0@, m.1@)) =~= before.push(
                    (mappings@[i as int].pattern@, mappings@[i as int].parent@),
                ));
            }
            assert(kept@.map_values(|m: (String, String)| (m.0@, m.1@)) =~= valid_parent_mappings(mappings@.take(i + 1)));
            i += 1;
        }
        assert(mappings@.take(mappings@.len() as int) =~= mappings@);
        BaseClassResolver { default_base, parent_mappings: kept }
    }

    /// The parent bean of a class; see `base_of`.
    pub fn resolve(&self, class_info: &ClassInfo) -> (r: String)
        ensures
            r@ == base_of(self.mappings(), *class_info, self.default_parent()),
    {
        proof {
            use_type_invariant(self);
        }
        if class_info.is_interface {
            return match &class_info.extends {
                Some(e) => e.clone(),
                None => String::new(),
            };
        }
        let ghost ms = self.mappings();
        let mut i: usize = 0;
        assert(ms.skip(0) =~= ms);
        while i < self.parent_mappings.len()
            invariant
                i <= self.parent_mappings@.len(),
                !class_info.is_interface,
                ms == self.mappings(),
                forall|j: int| 0 <= j < self.parent_mappings@.len() ==> regex_valid(#[trigger] self.parent_mappings@[j].0@),
                mapped_parent(ms, class_info.name@, self.default_parent()) == mapped_parent(
                    ms.skip(i as int),
                    class_info.name@,
                    self.default_parent(),
                ),
            decreases self.parent_mappings@.len() - i,
        {
            assert(ms.skip(i as int)[0] == ms[i as int]);
            assert(ms.skip(i as int).drop_first() =~= ms.skip(i + 1));
            let (pattern, parent) = &self.parent_mappings[i];
            assert(ms[i as int] == (pattern@, parent@));
            match regex_is_match(pattern.as_str(), class_info.name.as_str()) {
                Some(true) => {
                    return parent.clone();
                },
                Some(false) => {},
                None => {
                    assert(regex_valid(self.parent_mappings@[i as int].0@));
                },
            }
            i += 1;
        }
        assert(ms.skip(i as int) =~= Seq::<(Seq<char>, Seq<char>)>::empty());
        String::from_str(self.default_base)
    }
}

} // verus!
