//! The parts of a TypeScript syntax tree that the parser reads, as plain
//! values: types, expressions, decorators, declarations and their comments.
use vstd::prelude::*;

verus! {

/// A number literal, read in each of the forms the parser needs.
#[derive(Debug, Clone)]
pub struct NumberLit {
    /// The value converted to `i64` (saturating, NaN as 0).
    pub int_value: i64,
    /// The value converted to `usize` (saturating, negatives and NaN as 0).
    pub size_value: usize,
    /// The value as a number displays, e.g. `1.5` or `2`.
    pub text: String,
    /// The value as the schema writes it: a whole number without a decimal
    /// point, else as displayed.
    pub schema_text: String,
}

/// A copy of a number literal.
pub fn copy_number(n: &NumberLit) -> (r: NumberLit)
    ensures
        r == *n,
{
    NumberLit {
        int_value: n.int_value,
        size_value: n.size_value,
        text: n.text.clone(),
        schema_text: n.schema_text.clone(),
    }
}

/// A keyword type.
#[derive(Debug, Clone, Copy, PartialEq, Eq)]
pub enum KeywordKind {
    Number,
    String,
    Boolean,
    Undefined,
    Null,
    Other,
}

/// A type annotation.
#[derive(Debug)]
pub enum TypeNode {
    Keyword(KeywordKind),
    /// `T[]`.
    Array(Box<TypeNode>),
    /// A type reference: its name (none for a qualified name like `a.B`) and
    /// its type arguments, if written.
    Ref(Option<String>, Option<Vec<TypeNode>>),
    /// A union of types.
    Union(Vec<TypeNode>),
    /// A string literal type.
    StrLit(String),
    Other,
}

/// A binary operator.
#[derive(Debug, Clone, Copy, PartialEq, Eq)]
pub enum BinOp {
    LShift,
    RShift,
    BitOr,
    BitAnd,
    BitXor,
    Add,
    Sub,
    Mul,
    Div,
    Other,
}

/// The key of an object literal property.
#[derive(Debug, Clone)]
pub enum PropKey {
    Ident(String),
    Str(String),
    Other,
}

/// What is called in a call expression.
#[derive(Debug)]
pub enum CalleeNode {
    Ident(String),
    /// `f<T, "x">`: the name when it is an identifier, and the type arguments.
    Instantiation(Option<String>, Vec<TypeNode>),
    Other,
}

/// An expression.
#[derive(Debug)]
pub enum ExprNode {
    Num(NumberLit),
    Str(String),
    Bool,
    Null,
    Ident(String),
    Bin(BinOp, Box<ExprNode>, Box<ExprNode>),
    Paren(Box<ExprNode>),
    /// `e as T`.
    As(TypeNode),
    /// `e satisfies T`.
    Satisfies(TypeNode),
    /// `e!`.
    NonNull(Box<ExprNode>),
    /// `void e`.
    Void,
    /// An array literal.
    Array,
    /// An object literal, with its key-value properties.
    Object(Vec<(PropKey, ExprNode)>),
    /// A call: callee, type arguments, arguments.
    Call(CalleeNode, Option<Vec<TypeNode>>, Vec<ExprNode>),
    Other,
}

/// A type parameter and its constraint.
#[derive(Debug)]
pub struct TypeParamNode {
    pub name: String,
    pub constraint: Option<TypeNode>,
}

/// A constructor parameter property (`constructor(public x: T)`).
#[derive(Debug)]
pub struct ParamPropNode {
    /// The name; none for a parameter with a default value.
    pub name: Option<String>,
    pub type_ann: Option<TypeNode>,
    pub optional: bool,
    pub decorators: Vec<ExprNode>,
}

/// A class property.
#[derive(Debug)]
pub struct ClassPropNode {
    /// `private` or `protected`.
    pub hidden: bool,
    /// The name; none when the key is not an identifier.
    pub name: Option<String>,
    pub type_ann: Option<TypeNode>,
    pub value: Option<ExprNode>,
    pub optional: bool,
    /// The comments before the property.
    pub comments: Vec<String>,
    pub decorators: Vec<ExprNode>,
}

/// A member of a class body.
#[derive(Debug)]
pub enum ClassMemberNode {
    /// A constructor: the comments before it and its parameter properties
    /// (none for a plain parameter).
    Constructor(Vec<String>, Vec<Option<ParamPropNode>>),
    Prop(ClassPropNode),
    Other,
}

/// A class declaration, with the comments found before the `export`
/// keyword, the first decorator, the name and the class itself.
#[derive(Debug)]
pub struct ClassDeclNode {
    pub name: String,
    pub type_params: Option<Vec<TypeParamNode>>,
    pub decorators: Vec<ExprNode>,
    pub implements: Vec<ExprNode>,
    pub super_class: Option<ExprNode>,
    pub members: Vec<ClassMemberNode>,
    pub export_comments: Vec<String>,
    pub decorator_comments: Vec<String>,
    pub ident_comments: Vec<String>,
    pub class_comments: Vec<String>,
}

/// A property signature of an interface.
#[derive(Debug)]
pub struct PropSigNode {
    pub key: ExprNode,
    pub type_ann: Option<TypeNode>,
    pub optional: bool,
    pub comments: Vec<String>,
}

/// An interface declaration, with the comments found before the `export`
/// keyword and before the interface.
#[derive(Debug)]
pub struct InterfaceDeclNode {
    pub name: String,
    pub type_params: Option<Vec<TypeParamNode>>,
    /// The interfaces it extends.
    pub extends: Vec<ExprNode>,
    pub props: Vec<PropSigNode>,
    pub export_comments: Vec<String>,
    pub decl_comments: Vec<String>,
}

/// A member of an enum.
#[derive(Debug)]
pub struct EnumMemberNode {
    pub name: String,
    pub init: Option<ExprNode>,
    pub comments: Vec<String>,
}

/// An enum declaration, with the comments found before the `export` keyword
/// and before the enum.
#[derive(Debug)]
pub struct EnumDeclNode {
    pub name: String,
    pub members: Vec<EnumMemberNode>,
    pub export_comments: Vec<String>,
    pub decl_comments: Vec<String>,
}

/// A top-level item of a module.
#[derive(Debug)]
pub enum ModuleItemNode {
    ExportClass(ClassDeclNode),
    ExportInterface(InterfaceDeclNode),
    ExportEnum(EnumDeclNode),
    Other,
}

} // verus!
