//! Table settings from regular-expression mappings of class names.
use crate::config::TableMapping;
use crate::text::{chars_of, replace_all, replace_text, string_of};
use vstd::prelude::*;

verus! {

/// Whether `regex::Regex::new` accepts a pattern.
pub uninterp spec fn regex_valid(pattern: Seq<char>) -> bool;

/// What `regex::Regex::is_match` returns for a pattern and a text.
pub uninterp spec fn regex_matches(pattern: Seq<char>, text: Seq<char>) -> bool;

/// `regex::Regex::new`: whether the pattern compiles; the result is named
/// `regex_valid` of the pattern.
#[verifier::external_body]
pub(crate) fn regex_compiles(pattern: &str) -> (r: bool)
    ensures
        r == regex_valid(pattern@),
{
    regex::Regex::new(pattern).is_ok()
}

/// `regex::Regex::is_match` of the compiled pattern on a text: none when
/// the pattern does not compile, else whether it matches somewhere in the
/// text, named `regex_matches` of the pattern and the text.
#[verifier::external_body]
pub(crate) fn regex_is_match(pattern: &str, text: &str) -> (r: Option<bool>)
    ensures
        r is None <==> !regex_valid(pattern@),
        r matches Some(b) ==> b == regex_matches(pattern@, text@),
{
    match regex::Regex::new(pattern) {
        Ok(re) => Some(re.is_match(text)),
        Err(_) => None,
    }
}

/// What `char::is_uppercase` returns (the Unicode `Uppercase` property).
pub uninterp spec fn is_upper(c: char) -> bool;

/// What `char::to_lowercase` yields (the Unicode lower-case mapping).
pub uninterp spec fn char_lower(c: char) -> Seq<char>;

/// `char::is_uppercase`; the result is named `is_upper`.
#[verifier::external_body]
fn char_is_uppercase(c: char) -> (r: bool)
    ensures
        r == is_upper(c),
{
    c.is_uppercase()
}

/// `char::to_lowercase`, collected; the result is named `char_lower`.
#[verifier::external_body]
fn char_to_lowercase(c: char) -> (r: Vec<char>)
    ensures
        r@ == char_lower(c),
{
    c.to_lowercase().collect()
}

/// Kebab case: each upper-case letter lower-cased, with a `-` before it
/// except at the start.
pub open spec fn kebab(s: Seq<char>) -> Seq<char>
    decreases s.len(),
{
    if s.len() == 0 {
        Seq::empty()
    } else {
        let c = s.last();
        kebab(s.drop_last()) + if is_upper(c) {
            (if s.len() > 1 {
                seq!['-']
            } else {
                Seq::empty()
            }) + char_lower(c)
        } else {
            seq![c]
        }
    }
}

/// What a class's mapping gives: the input and output with `{name}` as the
/// kebab-case class name, and the table name with `{name}` as the class
/// name.
pub open spec fn mapping_result(m: TableMapping, class_name: Seq<char>) -> (Seq<char>, Option<Seq<char>>, Option<Seq<char>>) {
    let k = kebab(class_name);
    (
        replace_all(m.input@, "{name}"@, k),
        match m.output {
            Some(o) => Some(replace_all(o@, "{name}"@, k)),
            None => None,
        },
        match m.table_name {
            Some(t) => Some(replace_all(t@, "{name}"@, class_name)),
            None => None,
        },
    )
}

/// The mappings whose pattern compiles, in order.
pub open spec fn valid_mappings(ms: Seq<TableMapping>) -> Seq<TableMapping>
    decreases ms.len(),
{
    if ms.len() == 0 {
        Seq::empty()
    } else {
        valid_mappings(ms.drop_last()) + if regex_valid(ms.last().pattern@) {
            seq![ms.last()]
        } else {
            Seq::empty()
        }
    }
}

/// The result of the first mapping whose pattern matches the class name.
pub open spec fn resolve_mapping(ms: Seq<TableMapping>, class_name: Seq<char>) -> Option<(Seq<char>, Option<Seq<char>>, Option<Seq<char>>)>
    decreases ms.len(),
{
    if ms.len() == 0 {
        None
    } else if regex_matches(ms[0].pattern@, class_name) {
        Some(mapping_result(ms[0], class_name))
    } else {
        resolve_mapping(ms.drop_first(), class_name)
    }
}

/// The view of a mapping result.
pub open spec fn result_view(r: (String, Option<String>, Option<String>)) -> (Seq<char>, Option<Seq<char>>, Option<Seq<char>>) {
    (
        r.0@,
        match r.1 {
            Some(o) => Some(o@),
            None => None,
        },
        match r.2 {
            Some(t) => Some(t@),
            None => None,
        },
    )
}

/// Resolves table settings by the first mapping whose pattern matches a
/// class name.
pub struct TableMappingResolver {
    mappings: Vec<TableMapping>,
}

/// A copy of a table mapping.
fn copy_mapping(m: &TableMapping) -> (r: TableMapping)
    ensures
        r == *m,
{
    TableMapping {
        pattern: m.pattern.clone(),
        input: m.input.clone(),
        output: match &m.output {
            Some(o) => Some(o.clone()),
            None => None,
        },
        table_name: match &m.table_name {
            Some(t) => Some(t.clone()),
            None => None,
        },
    }
}

impl TableMappingResolver {
    #[verifier::type_invariant]
    spec fn patterns_compile(self) -> bool {
        forall|j: int| 0 <= j < self.mappings@.len() ==> regex_valid(#[trigger] self.mappings@[j].pattern@)
    }

    /// The mappings used, in order.
    pub closed spec fn used(&self) -> Seq<TableMapping> {
        self.mappings@
    }

    /// A resolver of the mappings whose pattern compiles.
    pub fn new(mappings: &[TableMapping]) -> (r: Self)
        ensures
            r.used() == valid_mappings(mappings@),
    {
        let mut kept: Vec<TableMapping> = Vec::new();
        let mut i: usize = 0;
        while i < mappings.len()
            invariant
                i <= mappings@.len(),
                kept@ == valid_mappings(mappings@.take(i as int)),
                forall|j: int| 0 <= j < kept@.len() ==> regex_valid(#[trigger] kept@[j].pattern@),
            decreases mappings@.len() - i,
        {
            assert(mappings@.take(i + 1).drop_last() =~= mappings@.take(i as int));
            if regex_compiles(mappings[i].pattern.as_str()) {
                kept.push(copy_mapping(&mappings[i]));
            }
            assert(kept@ =~= valid_mappings(mappings@.take(i + 1)));
            i += 1;
        }
        assert(mappings@.take(mappings@.len() as int) =~= mappings@);
        TableMappingResolver { mappings: kept }
    }

    /// Kebab case; see `kebab`.
    pub fn to_kebab_case(s: &str) -> (r: String)
        ensures
            r@ == kebab(s@),
    {
        let cs = chars_of(s);
        let mut out: Vec<char> = Vec::new();
        let mut i: usize = 0;
        while i < cs.len()
            invariant
                i <= cs@.len(),
                cs@ == s@,
                out@ == kebab(cs@.take(i as int)),
            decreases cs@.len() - i,
        {
            assert(cs@.take(i + 1).drop_last() =~= cs@.take(i as int));
            let c = cs[i];
            if char_is_uppercase(c) {
                if i > 0 {
                    out.push('-');
                }
                let lower = char_to_lowercase(c);
                crate::text::push_chars(&mut out, lower.as_slice());
            } else {
                out.push(c);
            }
            assert(out@ =~= kebab(cs@.take(i + 1)));
            i += 1;
        }
        assert(cs@.take(cs@.len() as int) =~= cs@);
        string_of(out.as_slice())
    }

    /// The input, output and table name of the first mapping whose pattern
    /// matches the class name; see `resolve_mapping`.
    pub fn resolve(&self, class_name: &str) -> (r: Option<(String, Option<String>, Option<String>)>)
        ensures
            match r {
                Some(x) => resolve_mapping(self.used(), class_name@) == Some(result_view(x)),
                None => resolve_mapping(self.used(), class_name@) is None,
            },
    {
        proof {
            use_type_invariant(self);
        }
        let ghost ms = self.mappings@;
        let mut i: usize = 0;
        assert(ms.skip(0) =~= ms);
        while i < self.mappings.len()
            invariant
                i <= ms.len(),
                ms == self.mappings@,
                forall|j: int| 0 <= j < ms.len() ==> regex_valid(#[trigger] ms[j].pattern@),
                resolve_mapping(ms, class_name@) == resolve_mapping(ms.skip(i as int), class_name@),
            decreases ms.len() - i,
        {
            assert(ms.skip(i as int)[0] == ms[i as int]);
            assert(ms.skip(i as int).drop_first() =~= ms.skip(i + 1));
            let m = &self.mappings[i];
            match regex_is_match(m.pattern.as_str(), class_name) {
                Some(true) => {
                    proof {
                        reveal_strlit("{name}");
                    }
                    let k = Self::to_kebab_case(class_name);
                    let input = replace_text(m.input.as_str(), "{name}", k.as_str());
                    let output = match &m.output {
                        Some(o) => Some(replace_text(o.as_str(), "{name}", k.as_str())),
                        None => None,
                    };
                    let table_name = match &m.table_name {
                        Some(t) => Some(replace_text(t.as_str(), "{name}", class_name)),
                        None => None,
                    };
                    return Some((input, output, table_name));
                },
                Some(false) => {},
                None => {
                    assert(regex_valid(ms[i as int].pattern@));
                },
            }
            i += 1;
        }
        None
    }
}

} // verus!
