//! Decorators: their name, type arguments, positional and named arguments.
use super::ast::{CalleeNode, ExprNode, NumberLit, PropKey, TypeNode, copy_number};
use crate::assoc::StrTable;
use crate::text::{lemma_views_push, views};
use vstd::prelude::*;

verus! {

/// An argument of a decorator.
#[derive(Debug)]
pub enum DecoratorArg {
    Number(NumberLit),
    String(String),
    Identifier(String),
    Array(Vec<DecoratorArg>),
}

impl View for DecoratorArg {
    type V = DecoratorArg;

    open spec fn view(&self) -> DecoratorArg {
        *self
    }
}

/// A decorator as written: `@Name`, `@Name(args)` or `@Name<T, "x">(args)`.
#[derive(Debug)]
pub struct ParsedDecorator {
    pub name: String,
    pub args: Vec<DecoratorArg>,
    /// The properties of object-literal arguments.
    pub named_args: StrTable<DecoratorArg>,
    /// Type arguments, e.g. of `@RefReplace<Item, "id">()`.
    pub type_params: Vec<String>,
}

/// The argument a literal or identifier stands for.
pub open spec fn expr_arg(e: ExprNode) -> Option<DecoratorArg> {
    match e {
        ExprNode::Num(n) => Some(DecoratorArg::Number(n)),
        ExprNode::Str(s) => Some(DecoratorArg::String(s)),
        ExprNode::Ident(i) => Some(DecoratorArg::Identifier(i)),
        _ => None,
    }
}

/// A copy of a string.
fn copy_string(s: &String) -> (r: String)
    ensures
        r == *s,
{
    s.clone()
}

/// The argument a literal or identifier stands for; see `expr_arg`.
pub fn parse_expr_to_arg(expr: &ExprNode) -> (r: Option<DecoratorArg>)
    ensures
        r == expr_arg(*expr),
{
    match expr {
        ExprNode::Num(n) => Some(DecoratorArg::Number(copy_number(n))),
        ExprNode::Str(s) => Some(DecoratorArg::String(copy_string(s))),
        ExprNode::Ident(i) => Some(DecoratorArg::Identifier(copy_string(i))),
        _ => None,
    }
}

/// The names of type arguments that are references or string literals.
pub open spec fn type_arg_names(ts: Seq<TypeNode>) -> Seq<Seq<char>>
    decreases ts.len(),
{
    if ts.len() == 0 {
        Seq::empty()
    } else {
        type_arg_names(ts.drop_last()) + match ts.last() {
            TypeNode::Ref(Some(n), _) => seq![n@],
            TypeNode::StrLit(s) => seq![s@],
            _ => Seq::empty(),
        }
    }
}

/// The names of type arguments; see `type_arg_names`.
pub fn extract_type_params(type_args: &Vec<TypeNode>) -> (r: Vec<String>)
    ensures
        views(r@) == type_arg_names(type_args@),
{
    let mut r: Vec<String> = Vec::new();
    let mut i: usize = 0;
    while i < type_args.len()
        invariant
            i <= type_args@.len(),
            views(r@) == type_arg_names(type_args@.take(i as int)),
        decreases type_args@.len() - i,
    {
        assert(type_args@.take(i + 1).drop_last() =~= type_args@.take(i as int));
        match &type_args[i] {
            TypeNode::Ref(Some(n), _) => {
                proof {
                    lemma_views_push(r@, *n);
                }
                r.push(n.clone());
            },
            TypeNode::StrLit(s) => {
                proof {
                    lemma_views_push(r@, *s);
                }
                r.push(s.clone());
            },
            _ => {},
        }
        assert(views(r@) =~= type_arg_names(type_args@.take(i + 1)));
        i += 1;
    }
    assert(type_args@.take(type_args@.len() as int) =~= type_args@);
    r
}

/// The name and type arguments of a decorator, when it is an identifier or
/// a call of one.
pub open spec fn decorator_head(e: ExprNode) -> Option<(Seq<char>, Seq<Seq<char>>)> {
    match e {
        ExprNode::Call(callee, targs, _) => match callee {
            CalleeNode::Ident(n) => Some(
                (
                    n@,
                    match targs {
                        Some(ts) => type_arg_names(ts@),
                        None => Seq::empty(),
                    },
                ),
            ),
            CalleeNode::Instantiation(Some(n), ts) => Some((n@, type_arg_names(ts@))),
            _ => None,
        },
        ExprNode::Ident(n) => Some((n@, Seq::empty())),
        _ => None,
    }
}

/// The name of a decorator (meaningful when it has a head).
pub open spec fn head_name(e: ExprNode) -> Seq<char> {
    match decorator_head(e) {
        Some(h) => h.0,
        None => Seq::empty(),
    }
}

/// The type arguments of a decorator (meaningful when it has a head).
pub open spec fn head_type_args(e: ExprNode) -> Seq<Seq<char>> {
    match decorator_head(e) {
        Some(h) => h.1,
        None => Seq::empty(),
    }
}

/// The positional arguments: literals and identifiers, in order.
pub open spec fn positional_args(args: Seq<ExprNode>) -> Seq<DecoratorArg>
    decreases args.len(),
{
    if args.len() == 0 {
        Seq::empty()
    } else {
        positional_args(args.drop_last()) + match expr_arg(args.last()) {
            Some(a) => seq![a],
            None => Seq::empty(),
        }
    }
}

/// The key of an object property, when it is a name or a string.
pub open spec fn prop_key(k: PropKey) -> Option<Seq<char>> {
    match k {
        PropKey::Ident(s) => Some(s@),
        PropKey::Str(s) => Some(s@),
        PropKey::Other => None,
    }
}

/// The properties of an object literal added to `m`: those with a name or
/// string key and a literal or identifier value; a later one overrides.
pub open spec fn props_added(
    m: Map<Seq<char>, DecoratorArg>,
    props: Seq<(PropKey, ExprNode)>,
) -> Map<Seq<char>, DecoratorArg>
    decreases props.len(),
{
    if props.len() == 0 {
        m
    } else {
        let m2 = props_added(m, props.drop_last());
        let p = props.last();
        if prop_key(p.0) is Some && expr_arg(p.1) is Some {
            m2.insert(prop_key(p.0)->0, expr_arg(p.1)->0)
        } else {
            m2
        }
    }
}

/// The named arguments: the properties of the object-literal arguments, in order.
pub open spec fn named_args_of(args: Seq<ExprNode>) -> Map<Seq<char>, DecoratorArg>
    decreases args.len(),
{
    if args.len() == 0 {
        Map::empty()
    } else {
        let m = named_args_of(args.drop_last());
        match args.last() {
            ExprNode::Object(props) => props_added(m, props@),
            _ => m,
        }
    }
}

/// The arguments of a decorator call (none for a bare name).
pub open spec fn decorator_args(e: ExprNode) -> Seq<ExprNode> {
    match e {
        ExprNode::Call(_, _, args) => args@,
        _ => Seq::empty(),
    }
}

/// Adds the properties of an object literal to a table; see `props_added`.
fn add_props(named: &mut StrTable<DecoratorArg>, props: &Vec<(PropKey, ExprNode)>)
    ensures
        final(named).view_map() == props_added(old(named).view_map(), props@),
{
    let mut j: usize = 0;
    while j < props.len()
        invariant
            j <= props@.len(),
            named.view_map() == props_added(old(named).view_map(), props@.take(j as int)),
        decreases props@.len() - j,
    {
        assert(props@.take(j + 1).drop_last() =~= props@.take(j as int));
        assert(props@.take(j + 1).last() == props@[j as int]);
        let key = match &props[j].0 {
            PropKey::Ident(s) => Some(copy_string(s)),
            PropKey::Str(s) => Some(copy_string(s)),
            PropKey::Other => None,
        };
        if let Some(k) = key {
            if let Some(v) = parse_expr_to_arg(&props[j].1) {
                named.insert(k, v);
            }
        }
        j += 1;
    }
    assert(props@.take(props@.len() as int) =~= props@);
}

/// A decorator's name, type arguments and arguments; none when it is
/// neither a name nor a call of a name.
pub fn parse_decorator(decorator: &ExprNode) -> (r: Option<ParsedDecorator>)
    ensures
        r is Some <==> decorator_head(*decorator) is Some,
        r matches Some(p) ==> {
            &&& p.name@ == head_name(*decorator)
            &&& views(p.type_params@) == head_type_args(*decorator)
            &&& p.args@ == positional_args(decorator_args(*decorator))
            &&& p.named_args.view_map() == named_args_of(decorator_args(*decorator))
        },
{
    match decorator {
        ExprNode::Call(callee, targs, args) => {
            let (name, type_params) = match callee {
                CalleeNode::Ident(n) => {
                    let tps = match targs {
                        Some(ts) => extract_type_params(ts),
                        None => {
                            let v: Vec<String> = Vec::new();
                            assert(views(v@) =~= Seq::<Seq<char>>::empty());
                            v
                        },
                    };
                    (copy_string(n), tps)
                },
                CalleeNode::Instantiation(Some(n), ts) => (copy_string(n), extract_type_params(ts)),
                _ => return None,
            };
            let mut positional: Vec<DecoratorArg> = Vec::new();
            let mut named: StrTable<DecoratorArg> = StrTable::new();
            assert(named.view_map() =~= Map::<Seq<char>, DecoratorArg>::empty());
            let mut i: usize = 0;
            while i < args.len()
                invariant
                    i <= args@.len(),
                    positional@ == positional_args(args@.take(i as int)),
                    named.view_map() == named_args_of(args@.take(i as int)),
                decreases args@.len() - i,
            {
                assert(args@.take(i + 1).drop_last() =~= args@.take(i as int));
                assert(args@.take(i + 1).last() == args@[i as int]);
                match &args[i] {
                    ExprNode::Object(props) => {
                        add_props(&mut named, props);
                    },
                    other => {
                        if let Some(a) = parse_expr_to_arg(other) {
                            positional.push(a);
                        }
                    },
                }
                assert(positional@ =~= positional_args(args@.take(i + 1)));
                i += 1;
            }
            assert(args@.take(args@.len() as int) =~= args@);
            Some(ParsedDecorator { name, args: positional, named_args: named, type_params })
        },
        ExprNode::Ident(n) => {
            let v: Vec<String> = Vec::new();
            assert(views(v@) =~= Seq::<Seq<char>>::empty());
            let named: StrTable<DecoratorArg> = StrTable::new();
            assert(named.view_map() =~= Map::<Seq<char>, DecoratorArg>::empty());
            let positional: Vec<DecoratorArg> = Vec::new();
            assert(positional@ =~= positional_args(Seq::empty()));
            Some(ParsedDecorator { name: copy_string(n), args: positional, named_args: named, type_params: v })
        },
        _ => None,
    }
}

} // verus!
