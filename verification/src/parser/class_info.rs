//! Classes and interfaces found in TypeScript sources.
use super::field_info::{FieldInfo, FieldView, opt_chars};
use vstd::prelude::*;

verus! {

/// Table settings from a `@LubanTable` decorator.
#[derive(Debug, Clone)]
pub struct LubanTableConfig {
    pub mode: String,
    pub index: String,
    pub group: Option<String>,
    pub tags: Option<String>,
}

/// A class or interface.
#[derive(Debug, Clone)]
pub struct ClassInfo {
    pub name: String,
    pub comment: Option<String>,
    /// From the `@alias` JSDoc tag.
    pub alias: Option<String>,
    pub fields: Vec<FieldInfo>,
    pub implements: Vec<String>,
    pub extends: Option<String>,
    pub source_file: String,
    pub file_hash: String,
    pub is_interface: bool,
    /// Output file for this class, overriding the default.
    pub output_path: Option<String>,
    /// Module for this class, overriding the default.
    pub module_name: Option<String>,
    /// Generic parameters and their constraint types, e.g. `T` to `SkillMetadata`.
    pub type_params: Vec<(String, String)>,
    pub luban_table: Option<LubanTableConfig>,
    /// Imported names and the source files they come from.
    pub imports: Vec<(String, String)>,
}

/// The view of a `@LubanTable` configuration.
pub struct LubanTableView {
    pub mode: Seq<char>,
    pub index: Seq<char>,
    pub group: Option<Seq<char>>,
    pub tags: Option<Seq<char>>,
}

impl View for LubanTableConfig {
    type V = LubanTableView;

    open spec fn view(&self) -> LubanTableView {
        LubanTableView {
            mode: self.mode@,
            index: self.index@,
            group: opt_chars(self.group),
            tags: opt_chars(self.tags),
        }
    }
}

/// The views of a list of string pairs.
pub open spec fn pairs_view(s: Seq<(String, String)>) -> Seq<(Seq<char>, Seq<char>)> {
    s.map_values(|p: (String, String)| (p.0@, p.1@))
}

/// The view of a class or interface.
pub struct ClassView {
    pub name: Seq<char>,
    pub comment: Option<Seq<char>>,
    pub alias: Option<Seq<char>>,
    pub fields: Seq<FieldView>,
    pub implements: Seq<Seq<char>>,
    pub extends: Option<Seq<char>>,
    pub source_file: Seq<char>,
    pub file_hash: Seq<char>,
    pub is_interface: bool,
    pub output_path: Option<Seq<char>>,
    pub module_name: Option<Seq<char>>,
    pub type_params: Seq<(Seq<char>, Seq<char>)>,
    pub luban_table: Option<LubanTableView>,
    pub imports: Seq<(Seq<char>, Seq<char>)>,
}

impl View for ClassInfo {
    type V = ClassView;

    open spec fn view(&self) -> ClassView {
        ClassView {
            name: self.name@,
            comment: opt_chars(self.comment),
            alias: opt_chars(self.alias),
            fields: self.fields@.map_values(|f: FieldInfo| f@),
            implements: self.implements@.map_values(|s: String| s@),
            extends: opt_chars(self.extends),
            source_file: self.source_file@,
            file_hash: self.file_hash@,
            is_interface: self.is_interface,
            output_path: opt_chars(self.output_path),
            module_name: opt_chars(self.module_name),
            type_params: pairs_view(self.type_params@),
            luban_table: match self.luban_table {
                Some(t) => Some(t@),
                None => None,
            },
            imports: pairs_view(self.imports@),
        }
    }
}

} // verus!
