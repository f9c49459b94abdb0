//! The data extracted from TypeScript sources, and the logic that extracts it.

pub mod ast;
pub mod class_info;
pub mod decorator;
pub mod enum_info;
pub mod field_info;
pub mod jsdoc;
pub mod ts;
pub mod types;
pub mod virtual_fields;

pub use class_info::{ClassInfo, LubanTableConfig};
pub use decorator::{DecoratorArg, ParsedDecorator, parse_decorator};
pub use enum_info::{EnumInfo, EnumVariant};
pub use field_info::{FieldInfo, FieldValidators, SizeConstraint};
