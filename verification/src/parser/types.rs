//! TypeScript types as the schema names them, constant expressions, and the
//! comments attached to declarations.
use super::ast::{BinOp, ExprNode, KeywordKind, TypeNode};
use super::jsdoc::{is_ws, jsdoc_description, params_added, parse_jsdoc_description, parse_jsdoc_params, trim, trim_chars, clean_lines};
use crate::assoc::StrTable;
use crate::text::{chars_of, concat2, is_prefix, string_of};
use vstd::arithmetic::power2::pow2;
use vstd::prelude::*;

verus! {

/// The type of a field as the parser reads it, with the `ObjectFactory<T>`
/// and `Constructor<T>` forms recognised.
#[derive(Debug)]
pub struct TypeInfo {
    pub field_type: String,
    pub original_type: String,
    pub is_object_factory: bool,
    pub factory_inner_type: Option<String>,
    pub is_constructor: bool,
    pub constructor_inner_type: Option<String>,
}

/// The view of a `TypeInfo`.
pub struct TypeInfoView {
    pub field_type: Seq<char>,
    pub original_type: Seq<char>,
    pub is_object_factory: bool,
    pub factory_inner_type: Option<Seq<char>>,
    pub is_constructor: bool,
    pub constructor_inner_type: Option<Seq<char>>,
}

impl View for TypeInfo {
    type V = TypeInfoView;

    open spec fn view(&self) -> TypeInfoView {
        TypeInfoView {
            field_type: self.field_type@,
            original_type: self.original_type@,
            is_object_factory: self.is_object_factory,
            factory_inner_type: match self.factory_inner_type {
                Some(s) => Some(s@),
                None => None,
            },
            is_constructor: self.is_constructor,
            constructor_inner_type: match self.constructor_inner_type {
                Some(s) => Some(s@),
                None => None,
            },
        }
    }
}

/// A plain type: the field type and the original type, nothing else.
pub open spec fn plain_info(field_type: Seq<char>, original: Seq<char>) -> TypeInfoView {
    TypeInfoView {
        field_type,
        original_type: original,
        is_object_factory: false,
        factory_inner_type: None,
        is_constructor: false,
        constructor_inner_type: None,
    }
}

/// A plain type; see `plain_info`.
pub fn plain_type_info(field_type: &str, original: &str) -> (r: TypeInfo)
    ensures
        r@ == plain_info(field_type@, original@),
{
    TypeInfo {
        field_type: String::from_str(field_type),
        original_type: String::from_str(original),
        is_object_factory: false,
        factory_inner_type: None,
        is_constructor: false,
        constructor_inner_type: None,
    }
}

/// `undefined` or `null`.
pub open spec fn is_nullish(t: TypeNode) -> bool {
    t matches TypeNode::Keyword(k) && (k == KeywordKind::Undefined || k == KeywordKind::Null)
}

/// The position of the first member that is neither `undefined` nor `null`
/// (the length when there is none).
pub open spec fn first_concrete(s: Seq<TypeNode>) -> nat
    decreases s.len(),
{
    if s.len() > 0 && is_nullish(s[0]) {
        1 + first_concrete(s.drop_first())
    } else {
        0
    }
}

proof fn lemma_first_concrete(s: Seq<TypeNode>)
    ensures
        first_concrete(s) <= s.len(),
        first_concrete(s) < s.len() ==> !is_nullish(s[first_concrete(s) as int]),
        forall|j: int| 0 <= j < first_concrete(s) ==> is_nullish(#[trigger] s[j]),
    decreases s.len(),
{
    if s.len() > 0 && is_nullish(s[0]) {
        lemma_first_concrete(s.drop_first());
        assert forall|j: int| 0 <= j < first_concrete(s) implies is_nullish(#[trigger] s[j]) by {
            if j > 0 {
                assert(s[j] == s.drop_first()[j - 1]);
            }
        }
    }
}

/// The schema name of a TypeScript type: `number`, `string` and `bool` for
/// keywords (`string` for other keywords), `list,T` for arrays, `map,K,V`
/// for `Map` and `Record`, a type parameter's constraint in place of the
/// parameter, the first member of a union that is neither `undefined` nor
/// `null`, the referenced name otherwise; `string` for what it cannot name.
pub open spec fn convert_type(t: TypeNode, tp: Map<Seq<char>, Seq<char>>) -> Seq<char>
    decreases t,
{
    match t {
        TypeNode::Keyword(k) => if k == KeywordKind::Number {
            "number"@
        } else if k == KeywordKind::String {
            "string"@
        } else if k == KeywordKind::Boolean {
            "bool"@
        } else {
            "string"@
        },
        TypeNode::Array(e) => "list,"@ + convert_type(*e, tp),
        TypeNode::Ref(name, params) => match name {
            None => "string"@,
            Some(n) => if tp.contains_key(n@) {
                tp[n@]
            } else if n@ == "Array"@ || n@ == "ReadonlyArray"@ {
                match params {
                    Some(ps) => if ps@.len() >= 1 {
                        "list,"@ + convert_type(ps@[0], tp)
                    } else {
                        "list,string"@
                    },
                    None => "list,string"@,
                }
            } else if n@ == "Map"@ || n@ == "Record"@ {
                match params {
                    Some(ps) => if ps@.len() >= 2 {
                        "map,"@ + convert_type(ps@[0], tp) + ","@ + convert_type(ps@[1], tp)
                    } else {
                        "map,string,string"@
                    },
                    None => "map,string,string"@,
                }
            } else {
                n@
            },
        },
        TypeNode::Union(ms) => {
            let k = first_concrete(ms@);
            if k < ms@.len() {
                convert_type(ms@[k as int], tp)
            } else {
                "string"@
            }
        },
        _ => "string"@,
    }
}

/// An optional type converts as the type it makes optional: a union whose
/// members before `i` are all `undefined` or `null`, and whose member `i` is
/// neither, converts as member `i`; so `T | undefined` and `null | T` both
/// convert as `T`.
pub proof fn law_union_skips_nullish(ms: Vec<TypeNode>, i: int, tp: Map<Seq<char>, Seq<char>>)
    requires
        0 <= i < ms@.len(),
        !is_nullish(ms@[i]),
        forall|j: int| 0 <= j < i ==> is_nullish(#[trigger] ms@[j]),
    ensures
        convert_type(TypeNode::Union(ms), tp) == convert_type(ms@[i], tp),
{
    lemma_first_concrete(ms@);
    let k = first_concrete(ms@) as int;
    if k < i {
        assert(is_nullish(ms@[k]));
    }
    if k > i {
        assert(is_nullish(ms@[i]));
    }
    assert(k == i);
}

/// The position of the first member that is neither `undefined` nor `null`.
fn first_concrete_index(ms: &Vec<TypeNode>) -> (k: usize)
    ensures
        k == first_concrete(ms@),
{
    proof {
        lemma_first_concrete(ms@);
    }
    let mut i: usize = 0;
    while i < ms.len()
        invariant
            i <= ms@.len(),
            i <= first_concrete(ms@),
            first_concrete(ms@) <= ms@.len(),
            first_concrete(ms@) < ms@.len() ==> !is_nullish(ms@[first_concrete(ms@) as int]),
            forall|j: int| 0 <= j < first_concrete(ms@) ==> is_nullish(#[trigger] ms@[j]),
        decreases ms@.len() - i,
    {
        let nullish = match &ms[i] {
            TypeNode::Keyword(k) => match k {
                KeywordKind::Undefined => true,
                KeywordKind::Null => true,
                _ => false,
            },
            _ => false,
        };
        if !nullish {
            return i;
        }
        i += 1;
    }
    i
}

/// The schema name of a TypeScript type; see `convert_type`.
pub fn convert_type_with_params(ts_type: &TypeNode, type_params: &StrTable<String>) -> (r: String)
    ensures
        r@ == convert_type(*ts_type, type_params.view_map()),
    decreases ts_type,
{
    match ts_type {
        TypeNode::Keyword(k) => match k {
            KeywordKind::Number => String::from_str("number"),
            KeywordKind::String => String::from_str("string"),
            KeywordKind::Boolean => String::from_str("bool"),
            _ => String::from_str("string"),
        },
        TypeNode::Array(e) => concat2("list,", convert_type_with_params(e, type_params).as_str()),
        TypeNode::Ref(name, params) => {
            let n = match name {
                None => return String::from_str("string"),
                Some(n) => n,
            };
            if let Some(c) = type_params.get(n.as_str()) {
                return c.clone();
            }
            if crate::text::str_eq(n.as_str(), "Array") || crate::text::str_eq(n.as_str(), "ReadonlyArray") {
                if let Some(ps) = params {
                    if ps.len() >= 1 {
                        return concat2("list,", convert_type_with_params(&ps[0], type_params).as_str());
                    }
                }
                return String::from_str("list,string");
            }
            if crate::text::str_eq(n.as_str(), "Map") || crate::text::str_eq(n.as_str(), "Record") {
                if let Some(ps) = params {
                    if ps.len() >= 2 {
                        let mut r = String::from_str("map,");
                        r.append(convert_type_with_params(&ps[0], type_params).as_str());
                        r.append(",");
                        r.append(convert_type_with_params(&ps[1], type_params).as_str());
                        return r;
                    }
                }
                return String::from_str("map,string,string");
            }
            n.clone()
        },
        TypeNode::Union(ms) => {
            let k = first_concrete_index(ms);
            if k < ms.len() {
                return convert_type_with_params(&ms[k], type_params);
            }
            String::from_str("string")
        },
        _ => String::from_str("string"),
    }
}

/// The type information of an annotation: `ObjectFactory<T>` is `T` made by
/// a factory, `ObjectFactory<T>[]` a list of them, `Constructor<T>` a
/// `string` naming a constructor of `T`; any other type is itself.
pub open spec fn type_info(t: TypeNode, tp: Map<Seq<char>, Seq<char>>) -> TypeInfoView {
    let original = convert_type(t, tp);
    match t {
        TypeNode::Ref(Some(n), Some(ps)) => if n@ == "ObjectFactory"@ && ps@.len() > 0 {
            TypeInfoView {
                field_type: convert_type(ps@[0], tp),
                original_type: original,
                is_object_factory: true,
                factory_inner_type: Some(convert_type(ps@[0], tp)),
                is_constructor: false,
                constructor_inner_type: None,
            }
        } else if n@ == "Constructor"@ && ps@.len() > 0 {
            TypeInfoView {
                field_type: "string"@,
                original_type: original,
                is_object_factory: false,
                factory_inner_type: None,
                is_constructor: true,
                constructor_inner_type: Some(convert_type(ps@[0], tp)),
            }
        } else {
            plain_info(original, original)
        },
        TypeNode::Array(e) => match *e {
            TypeNode::Ref(Some(n), Some(ps)) => if n@ == "ObjectFactory"@ && ps@.len() > 0 {
                TypeInfoView {
                    field_type: "list,"@ + convert_type(ps@[0], tp),
                    original_type: original,
                    is_object_factory: true,
                    factory_inner_type: Some(convert_type(ps@[0], tp)),
                    is_constructor: false,
                    constructor_inner_type: None,
                }
            } else {
                plain_info(original, original)
            },
            _ => plain_info(original, original),
        },
        _ => plain_info(original, original),
    }
}

/// A factory of `inner`; see `type_info`.
fn factory_info(field_type: String, original: String, inner: String) -> (r: TypeInfo)
    ensures
        r@ == (TypeInfoView {
            field_type: field_type@,
            original_type: original@,
            is_object_factory: true,
            factory_inner_type: Some(inner@),
            is_constructor: false,
            constructor_inner_type: None,
        }),
{
    TypeInfo {
        field_type,
        original_type: original,
        is_object_factory: true,
        factory_inner_type: Some(inner),
        is_constructor: false,
        constructor_inner_type: None,
    }
}

/// The type information of an annotation; see `type_info`.
pub fn convert_type_extended(ts_type: &TypeNode, type_params: &StrTable<String>) -> (r: TypeInfo)
    ensures
        r@ == type_info(*ts_type, type_params.view_map()),
{
    let original = convert_type_with_params(ts_type, type_params);
    match ts_type {
        TypeNode::Ref(Some(n), Some(ps)) => {
            if crate::text::str_eq(n.as_str(), "ObjectFactory") && ps.len() > 0 {
                let inner = convert_type_with_params(&ps[0], type_params);
                return factory_info(inner.clone(), original, inner);
            }
            if crate::text::str_eq(n.as_str(), "Constructor") && ps.len() > 0 {
                let inner = convert_type_with_params(&ps[0], type_params);
                return TypeInfo {
                    field_type: String::from_str("string"),
                    original_type: original,
                    is_object_factory: false,
                    factory_inner_type: None,
                    is_constructor: true,
                    constructor_inner_type: Some(inner),
                };
            }
        },
        TypeNode::Array(e) => {
            if let TypeNode::Ref(Some(n), Some(ps)) = &**e {
                if crate::text::str_eq(n.as_str(), "ObjectFactory") && ps.len() > 0 {
                    let inner = convert_type_with_params(&ps[0], type_params);
                    return factory_info(concat2("list,", inner.as_str()), original, inner);
                }
            }
        },
        _ => {},
    }
    TypeInfo {
        field_type: original.clone(),
        original_type: original,
        is_object_factory: false,
        factory_inner_type: None,
        is_constructor: false,
        constructor_inner_type: None,
    }
}

/// The type of a property from its initializer: the type of `as` and
/// `satisfies`, through `!`, else that of the literal (`unknown` for `null`,
/// `void` and objects, `list,unknown` for arrays), `string` otherwise.
pub open spec fn initializer_info(e: ExprNode, tp: Map<Seq<char>, Seq<char>>) -> TypeInfoView
    decreases e,
{
    match e {
        ExprNode::As(t) => type_info(t, tp),
        ExprNode::Satisfies(t) => type_info(t, tp),
        ExprNode::NonNull(x) => initializer_info(*x, tp),
        ExprNode::Num(_) => plain_info("number"@, "number"@),
        ExprNode::Str(_) => plain_info("string"@, "string"@),
        ExprNode::Bool => plain_info("bool"@, "boolean"@),
        ExprNode::Null => plain_info("unknown"@, "unknown"@),
        ExprNode::Void => plain_info("unknown"@, "unknown"@),
        ExprNode::Array => plain_info("list,unknown"@, "unknown[]"@),
        ExprNode::Object(_) => plain_info("unknown"@, "unknown"@),
        _ => plain_info("string"@, "string"@),
    }
}

/// The type of a property from its initializer; see `initializer_info`.
pub fn infer_type_from_initializer(expr: &ExprNode, type_params: &StrTable<String>) -> (r: TypeInfo)
    ensures
        r@ == initializer_info(*expr, type_params.view_map()),
    decreases expr,
{
    match expr {
        ExprNode::As(t) => convert_type_extended(t, type_params),
        ExprNode::Satisfies(t) => convert_type_extended(t, type_params),
        ExprNode::NonNull(x) => infer_type_from_initializer(x, type_params),
        ExprNode::Num(_) => plain_type_info("number", "number"),
        ExprNode::Str(_) => plain_type_info("string", "string"),
        ExprNode::Bool => plain_type_info("bool", "boolean"),
        ExprNode::Null => plain_type_info("unknown", "unknown"),
        ExprNode::Void => plain_type_info("unknown", "unknown"),
        ExprNode::Array => plain_type_info("list,unknown", "unknown[]"),
        ExprNode::Object(_) => plain_type_info("unknown", "unknown"),
        _ => plain_type_info("string", "string"),
    }
}

/// Truncating division as `i64` computes it without overflow checks: the
/// quotient rounded toward zero, `i64::MIN` for `i64::MIN / -1`.
pub open spec fn div_wrapping(a: i64, b: i64) -> i64 {
    let na: int = if a < 0 { -a } else { a as int };
    let nb: int = if b < 0 { -b } else { b as int };
    let q: int = na / nb;
    let r: int = if (a < 0) != (b < 0) { -q } else { q };
    if r > i64::MAX { i64::MIN } else { r as i64 }
}

/// A binary operation on constants, with `i64` arithmetic that wraps and
/// shifts by the amount modulo 64; division by zero and other operators have
/// no value.
pub open spec fn apply_op(op: BinOp, a: i64, b: i64) -> Option<i64> {
    match op {
        BinOp::LShift => Some(vstd::wrapping::i64_specs::wrapping_shl(a, b as u32)),
        BinOp::RShift => Some(vstd::wrapping::i64_specs::wrapping_shr(a, b as u32)),
        BinOp::BitOr => Some(a | b),
        BinOp::BitAnd => Some(a & b),
        BinOp::BitXor => Some(a ^ b),
        BinOp::Add => Some(vstd::wrapping::i64_specs::wrapping_add(a, b)),
        BinOp::Sub => Some(vstd::wrapping::i64_specs::wrapping_sub(a, b)),
        BinOp::Mul => Some(vstd::wrapping::i64_specs::wrapping_mul(a, b)),
        BinOp::Div => if b != 0 { Some(div_wrapping(a, b)) } else { None },
        BinOp::Other => None,
    }
}

/// The value of a constant expression: number literals, earlier members by
/// name, binary operations (see `apply_op`) and parentheses.
pub open spec fn const_value(e: ExprNode, vals: Map<Seq<char>, i64>) -> Option<i64>
    decreases e,
{
    match e {
        ExprNode::Num(n) => Some(n.int_value),
        ExprNode::Ident(x) => if vals.contains_key(x@) { Some(vals[x@]) } else { None },
        ExprNode::Bin(op, l, r) => match (const_value(*l, vals), const_value(*r, vals)) {
            (Some(a), Some(b)) => apply_op(op, a, b),
            _ => None,
        },
        ExprNode::Paren(x) => const_value(*x, vals),
        _ => None,
    }
}

/// Binary operations on constants compute what the operator means, as far
/// as `i64` holds the result: for operands whose values are `a` and `b`, `+`,
/// `-` and `*` give the exact sum, difference and product when it fits (and
/// `+` and `-` always agree with it modulo 2^64), `/`
/// of a non-negative `a` by a positive `b` gives the quotient rounded down,
/// `|`, `&` and `^` combine the bits, and division by zero gives no value.
pub proof fn law_const_arithmetic(l: ExprNode, r: ExprNode, vals: Map<Seq<char>, i64>, a: i64, b: i64)
    requires
        const_value(l, vals) == Some(a),
        const_value(r, vals) == Some(b),
    ensures
        i64::MIN <= a + b <= i64::MAX ==> const_value(ExprNode::Bin(BinOp::Add, Box::new(l), Box::new(r)), vals)
            == Some((a + b) as i64),
        i64::MIN <= a - b <= i64::MAX ==> const_value(ExprNode::Bin(BinOp::Sub, Box::new(l), Box::new(r)), vals)
            == Some((a - b) as i64),
        i64::MIN <= a * b <= i64::MAX ==> const_value(ExprNode::Bin(BinOp::Mul, Box::new(l), Box::new(r)), vals)
            == Some((a * b) as i64),
        const_value(ExprNode::Bin(BinOp::Add, Box::new(l), Box::new(r)), vals) matches Some(x) && (x - (a + b))
            % 0x1_0000_0000_0000_0000int == 0,
        const_value(ExprNode::Bin(BinOp::Sub, Box::new(l), Box::new(r)), vals) matches Some(x) && (x - (a - b))
            % 0x1_0000_0000_0000_0000int == 0,
        a >= 0 && b > 0 ==> const_value(ExprNode::Bin(BinOp::Div, Box::new(l), Box::new(r)), vals) == Some(
            (a / b) as i64,
        ),
        b == 0 ==> const_value(ExprNode::Bin(BinOp::Div, Box::new(l), Box::new(r)), vals) is None,
        const_value(ExprNode::Bin(BinOp::BitOr, Box::new(l), Box::new(r)), vals) == Some(a | b),
        const_value(ExprNode::Bin(BinOp::BitAnd, Box::new(l), Box::new(r)), vals) == Some(a & b),
        const_value(ExprNode::Bin(BinOp::BitXor, Box::new(l), Box::new(r)), vals) == Some(a ^ b),
{
    if i64::MIN <= a * b <= i64::MAX {
        let p: int = a * b;
        let m: int = p % 0x1_0000_0000_0000_0000int;
        if p >= 0 {
            assert(m == p);
        } else {
            assert(m == p + 0x1_0000_0000_0000_0000int);
        }
    }
    if a >= 0 && b > 0 {
        assert(a / b <= a) by (nonlinear_arith)
            requires
                a >= 0,
                b > 0,
        ;
    }
}

/// Shifts of a non-negative constant by 0 to 63 places scale it by a power
/// of two: `<<` multiplies by 2^b when the product fits (so `1 << 4` is 16),
/// and `>>` divides by 2^b, rounding down.
pub proof fn law_const_shifts(l: ExprNode, r: ExprNode, vals: Map<Seq<char>, i64>, a: i64, b: i64)
    requires
        const_value(l, vals) == Some(a),
        const_value(r, vals) == Some(b),
        0 <= a,
        0 <= b < 64,
    ensures
        a * pow2(b as nat) <= i64::MAX ==> const_value(ExprNode::Bin(BinOp::LShift, Box::new(l), Box::new(r)), vals)
            == Some((a * pow2(b as nat)) as i64),
        const_value(ExprNode::Bin(BinOp::RShift, Box::new(l), Box::new(r)), vals) == Some(
            ((a as int) / (pow2(b as nat) as int)) as i64,
        ),
{
    let s: u32 = b as u32;
    assert(s as int == b);
    assert(s % 64 == s);
    let ua: u64 = a as u64;
    let us: u64 = s as u64;
    assert(ua as int == a);
    if a * pow2(b as nat) <= i64::MAX {
        vstd::bits::lemma_u64_shl_is_mul(ua, us);
        assert(((a << s) as u64) == ((a as u64) << (s as u64))) by (bit_vector)
            requires
                s < 64,
        ;
        let x: i64 = a << s;
        assert((x as u64) <= 0x7fff_ffff_ffff_ffffu64 ==> x >= 0 && (x as u64) as int == x as int) by (bit_vector);
    }
    vstd::bits::lemma_u64_shr_is_div(ua, us);
    assert(a >= 0 ==> ((a >> s) as u64) == ((a as u64) >> (s as u64)) && (a >> s) >= 0) by (bit_vector)
        requires
            s < 64,
    ;
    let y: i64 = a >> s;
    assert(y >= 0 ==> (y as u64) as int == y as int) by (bit_vector);
}

/// Truncating division without overflow checks; see `div_wrapping`.
fn wrapping_div(a: i64, b: i64) -> (r: i64)
    requires
        b != 0,
    ensures
        r == div_wrapping(a, b),
{
    let na: i128 = if a < 0 { -(a as i128) } else { a as i128 };
    let nb: i128 = if b < 0 { -(b as i128) } else { b as i128 };
    let q: i128 = na / nb;
    assert(0 <= q <= na) by (nonlinear_arith)
        requires
            0 <= na,
            1 <= nb,
            q == na / nb;
    let r: i128 = if (a < 0) != (b < 0) { -q } else { q };
    if r > i64::MAX as i128 {
        i64::MIN
    } else {
        r as i64
    }
}

/// A binary operation on constants; see `apply_op`.
fn apply_bin_op(op: BinOp, a: i64, b: i64) -> (r: Option<i64>)
    ensures
        r == apply_op(op, a, b),
{
    match op {
        BinOp::LShift => Some(a.wrapping_shl(#[verifier::truncate] (b as u32))),
        BinOp::RShift => Some(a.wrapping_shr(#[verifier::truncate] (b as u32))),
        BinOp::BitOr => Some(a | b),
        BinOp::BitAnd => Some(a & b),
        BinOp::BitXor => Some(a ^ b),
        BinOp::Add => Some(a.wrapping_add(b)),
        BinOp::Sub => Some(a.wrapping_sub(b)),
        BinOp::Mul => Some(a.wrapping_mul(b)),
        BinOp::Div => if b != 0 { Some(wrapping_div(a, b)) } else { None },
        BinOp::Other => None,
    }
}

/// The value of a constant expression; see `const_value`.
pub fn eval_const_expr(expr: &ExprNode, member_values: &StrTable<i64>) -> (r: Option<i64>)
    ensures
        r == const_value(*expr, member_values.view_map()),
    decreases expr,
{
    match expr {
        ExprNode::Num(n) => Some(n.int_value),
        ExprNode::Ident(x) => match member_values.get(x.as_str()) {
            Some(v) => Some(*v),
            None => None,
        },
        ExprNode::Bin(op, l, r) => {
            let a = match eval_const_expr(l, member_values) {
                Some(a) => a,
                None => return None,
            };
            let b = match eval_const_expr(r, member_values) {
                Some(b) => b,
                None => return None,
            };
            apply_bin_op(*op, a, b)
        },
        ExprNode::Paren(x) => eval_const_expr(x, member_values),
        _ => None,
    }
}

/// The last JSDoc comment (one whose text starts with `*`), as written.
pub open spec fn raw_jsdoc(cs: Seq<String>) -> Option<Seq<char>>
    decreases cs.len(),
{
    if cs.len() == 0 {
        None
    } else if is_prefix("*"@, cs.last()@) {
        Some(cs.last()@)
    } else {
        raw_jsdoc(cs.drop_last())
    }
}

/// The last JSDoc comment among the comments before a position; see `raw_jsdoc`.
pub fn get_raw_jsdoc_comment(comments: &Vec<String>) -> (r: Option<String>)
    ensures
        opt_text(r) == raw_jsdoc(comments@),
{
    let star = chars_of("*");
    let mut i = comments.len();
    assert(comments@.take(i as int) =~= comments@);
    while i > 0
        invariant
            i <= comments@.len(),
            star@ == "*"@,
            raw_jsdoc(comments@) == raw_jsdoc(comments@.take(i as int)),
        decreases i,
    {
        let c = &comments[i - 1];
        assert(comments@.take(i as int).last() == comments@[i - 1]);
        assert(comments@.take(i as int).drop_last() =~= comments@.take(i - 1));
        if crate::text::starts_with(chars_of(c.as_str()).as_slice(), star.as_slice()) {
            return Some(c.clone());
        }
        i -= 1;
    }
    None
}

/// The view of an optional string.
pub open spec fn opt_text(o: Option<String>) -> Option<Seq<char>> {
    match o {
        Some(s) => Some(s@),
        None => None,
    }
}

/// The comment of a declaration: the description of its last JSDoc comment,
/// else its last comment trimmed, when that is not empty.
pub open spec fn leading_comment(cs: Seq<String>) -> Option<Seq<char>> {
    match raw_jsdoc(cs) {
        Some(j) => Some(jsdoc_description(j)),
        None => if cs.len() > 0 && trim(cs.last()@).len() > 0 {
            Some(trim(cs.last()@))
        } else {
            None
        },
    }
}

/// The comment of a declaration; see `leading_comment`.
pub fn get_leading_comment(comments: &Vec<String>) -> (r: Option<String>)
    ensures
        opt_text(r) == leading_comment(comments@),
{
    match get_raw_jsdoc_comment(comments) {
        Some(j) => Some(parse_jsdoc_description(j.as_str())),
        None => {
            if comments.len() == 0 {
                return None;
            }
            let t = trim_chars(chars_of(comments[comments.len() - 1].as_str()).as_slice());
            if t.len() > 0 {
                Some(string_of(t.as_slice()))
            } else {
                None
            }
        },
    }
}

/// The `@param` entries of the JSDoc comments among `cs` added to `m`, in order.
pub open spec fn param_comments_added(m: Map<Seq<char>, Seq<char>>, cs: Seq<String>) -> Map<Seq<char>, Seq<char>>
    decreases cs.len(),
{
    if cs.len() == 0 {
        m
    } else {
        let m2 = param_comments_added(m, cs.drop_last());
        if is_prefix("*"@, cs.last()@) {
            params_added(m2, clean_lines(cs.last()@))
        } else {
            m2
        }
    }
}

/// Adds the `@param` entries of the JSDoc comments before a position; see
/// `param_comments_added`.
pub fn add_param_comments(params: &mut StrTable<String>, comments: &Vec<String>)
    ensures
        final(params).view_map() == param_comments_added(old(params).view_map(), comments@),
{
    let star = chars_of("*");
    let mut i: usize = 0;
    while i < comments.len()
        invariant
            i <= comments@.len(),
            star@ == "*"@,
            params.view_map() == param_comments_added(old(params).view_map(), comments@.take(i as int)),
        decreases comments@.len() - i,
    {
        assert(comments@.take(i + 1).drop_last() =~= comments@.take(i as int));
        assert(comments@.take(i + 1).last() == comments@[i as int]);
        if crate::text::starts_with(chars_of(comments[i].as_str()).as_slice(), star.as_slice()) {
            parse_jsdoc_params(comments[i].as_str(), params);
        }
        i += 1;
    }
    assert(comments@.take(comments@.len() as int) =~= comments@);
}

/// The `@param` entries of the JSDoc comments before a position.
pub fn get_param_comments(comments: &Vec<String>) -> (r: StrTable<String>)
    ensures
        r.view_map() == param_comments_added(Map::empty(), comments@),
{
    let mut params: StrTable<String> = StrTable::new();
    assert(params.view_map() =~= Map::<Seq<char>, Seq<char>>::empty());
    add_param_comments(&mut params, comments);
    params
}

} // verus!
