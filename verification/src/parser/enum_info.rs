//! Enums found in TypeScript sources.
use super::field_info::opt_chars;
use vstd::prelude::*;

verus! {

/// A member of an enum.
#[derive(Debug, Clone)]
pub struct EnumVariant {
    pub name: String,
    /// From the `@alias` tag only.
    pub alias: Option<String>,
    /// The number, or the original string of a string enum.
    pub value: String,
    /// From JSDoc, without the `@alias` line.
    pub comment: Option<String>,
}

/// A TypeScript enum.
#[derive(Debug, Clone)]
pub struct EnumInfo {
    pub name: String,
    /// From the `@alias` tag.
    pub alias: Option<String>,
    /// From JSDoc, without the `@flags` and `@alias` lines.
    pub comment: Option<String>,
    pub is_string_enum: bool,
    /// From `@flags`.
    pub is_flags: bool,
    /// From `@tags`.
    pub tags: Option<String>,
    pub variants: Vec<EnumVariant>,
    pub source_file: String,
    pub file_hash: String,
    pub output_path: Option<String>,
    pub module_name: Option<String>,
}

/// The view of an enum member.
pub struct VariantView {
    pub name: Seq<char>,
    pub alias: Option<Seq<char>>,
    pub value: Seq<char>,
    pub comment: Option<Seq<char>>,
}

impl View for EnumVariant {
    type V = VariantView;

    open spec fn view(&self) -> VariantView {
        VariantView {
            name: self.name@,
            alias: opt_chars(self.alias),
            value: self.value@,
            comment: opt_chars(self.comment),
        }
    }
}

/// The view of an enum.
pub struct EnumView {
    pub name: Seq<char>,
    pub alias: Option<Seq<char>>,
    pub comment: Option<Seq<char>>,
    pub is_string_enum: bool,
    pub is_flags: bool,
    pub tags: Option<Seq<char>>,
    pub variants: Seq<VariantView>,
    pub source_file: Seq<char>,
    pub file_hash: Seq<char>,
    pub output_path: Option<Seq<char>>,
    pub module_name: Option<Seq<char>>,
}

impl View for EnumInfo {
    type V = EnumView;

    open spec fn view(&self) -> EnumView {
        EnumView {
            name: self.name@,
            alias: opt_chars(self.alias),
            comment: opt_chars(self.comment),
            is_string_enum: self.is_string_enum,
            is_flags: self.is_flags,
            tags: opt_chars(self.tags),
            variants: self.variants@.map_values(|v: EnumVariant| v@),
            source_file: self.source_file@,
            file_hash: self.file_hash@,
            output_path: opt_chars(self.output_path),
            module_name: opt_chars(self.module_name),
        }
    }
}

} // verus!
