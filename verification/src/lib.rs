//! TypeScript to Luban XML schema generation: the verified core.

pub mod assoc;
pub mod base_class;
pub mod cache;
pub mod config;
pub mod generator;
pub mod parser;
pub mod paths;
pub mod pipeline;
pub mod scanner;
pub mod sort;
pub mod table_mapping;
pub mod table_registry;
pub mod text;
pub mod ts_generator;
pub mod tsconfig;
pub mod type_mapper;
pub mod validator;
pub mod xml_types;
