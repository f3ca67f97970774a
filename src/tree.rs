use vstd::prelude::*;

use crate::span::RangedPosition;

verus! {

/// The tag of a node of the parse tree: which grammar rule produced it.
#[derive(Debug, Clone, Copy, PartialEq, Eq, Structural)]
pub enum Rule {
    Module,
    Eoi,
    FnItem,
    ModItem,
    TraitItem,
    ImplTraitItem,
    ImplItem,
    ImplType,
    ImplFn,
    TraitType,
    TraitFn,
    TypeDef,
    PubKw,
    FnKw,
    ModKw,
    TraitKw,
    TypeKw,
    ImplKw,
    ForKw,
    Ident,
    Type,
    EmptyType,
    Trait,
    DefGenerics,
    Generics,
    WhereClause,
    TypeBound,
    FnArgs,
    FnArg,
    ReturnType,
    Block,
    Expr,
    Term,
    Unary,
    Not,
    FnCall,
    Value,
    Int,
    Float,
    StringContent,
    IfStatement,
    ElseifClause,
    ElseClause,
    Statement,
    NonReturningStatement,
    Add,
    Subtract,
    Multiply,
    Divide,
    Power,
}

/// A node of the tree that the grammar makes of a source text: the rule
/// that matched, where it matched, the text it matched and its sub-nodes in
/// source order.
#[derive(Debug)]
pub struct ParseTree {
    pub rule: Rule,
    pub range: RangedPosition,
    pub text: String,
    pub children: Vec<ParseTree>,
}

impl ParseTree {
    pub fn new(rule: Rule, range: RangedPosition, text: String, children: Vec<ParseTree>) -> (r: ParseTree)
        ensures
            r.rule == rule,
            r.range == range,
            r.text == text,
            r.children == children,
    {
        ParseTree { rule, range, text, children }
    }
}

} // verus!
