use vstd::prelude::*;

use crate::fs::File;
use crate::span::{BoxedSpan, RangedPosition, Span};

verus! {

/// Everything declared at the top level of one source file.
#[derive(Debug)]
pub struct AstModule {
    pub mods: Vec<Mod>,
    pub fns: Vec<FnDef>,
    pub trait_defs: Vec<TraitDef>,
    pub trait_impls: Vec<TraitImpl>,
    pub impls: Vec<Impl>,
}

/// `pub? mod name;`
#[derive(Debug)]
pub struct Mod {
    pub pub_kw: Option<Span<()>>,
    pub name: Span<String>,
}

#[derive(Debug)]
pub struct FnDef {
    pub pub_kw: Option<Span<()>>,
    pub name: Span<String>,
    pub generics: Option<Generics>,
    pub where_clause: Option<WhereClause>,
    pub args: Vec<FnArg>,
    pub return_type: Span<Type>,
    pub body: Span<Block>,
}

/// A method of a trait declared without a body.
#[derive(Debug)]
pub struct FnSignatureDef {
    pub pub_kw: Option<Span<()>>,
    pub name: Span<String>,
    pub generics: Option<Generics>,
    pub where_clause: Option<WhereClause>,
    pub args: Vec<FnArg>,
    pub return_type: Span<Type>,
}

#[derive(Debug)]
pub struct TraitDef {
    pub pub_kw: Option<Span<()>>,
    pub name: Span<String>,
    pub generics: Option<Generics>,
    pub where_clause: Option<WhereClause>,
    pub fn_defs: Vec<FnDef>,
    pub fn_signatures: Vec<FnSignatureDef>,
    pub types: Vec<(Span<TypeInTrait>, Vec<Span<Trait>>)>,
}

/// `impl Trait<..> for Type { .. }`
#[derive(Debug)]
pub struct TraitImpl {
    pub generics: Option<Generics>,
    pub trait_: Span<Trait>,
    pub type_: Span<Type>,
    pub where_clause: Option<WhereClause>,
    pub fn_defs: Vec<FnDef>,
    pub types: Vec<(Span<TypeInTrait>, Span<Type>)>,
}

/// `impl Type { .. }`
#[derive(Debug)]
pub struct Impl {
    pub generics: Option<Generics>,
    pub type_: Span<Type>,
    pub where_clause: Option<WhereClause>,
    pub fn_defs: Vec<FnDef>,
    pub types: Vec<(Span<TypeInTrait>, Span<Type>)>,
}

impl Impl {
    /// The same implementation, now of `trait_`.
    pub fn to_trait_impl(self, trait_: Span<Trait>) -> (r: TraitImpl)
        ensures
            r.generics == self.generics,
            r.trait_ == trait_,
            r.type_ == self.type_,
            r.where_clause == self.where_clause,
            r.fn_defs == self.fn_defs,
            r.types == self.types,
    {
        TraitImpl {
            generics: self.generics,
            trait_,
            type_: self.type_,
            where_clause: self.where_clause,
            fn_defs: self.fn_defs,
            types: self.types,
        }
    }
}

#[derive(Debug)]
pub enum Type {
    Empty,
    Other { name: Span<String>, generics: Vec<Span<Type>> },
}

impl Default for Type {
    fn default() -> (r: Type)
        ensures
            r is Empty,
    {
        Type::Empty
    }
}

/// A trait with its generic arguments, as written in a bound or an impl.
#[derive(Debug)]
pub struct Trait {
    pub name: Span<String>,
    pub generics: Vec<Span<Type>>,
}

/// An associated type as declared: its name and generic parameters.
#[derive(Debug)]
pub struct TypeInTrait {
    pub name: Span<String>,
    pub generics: Vec<Span<String>>,
}

pub type Generics = Vec<Span<String>>;

pub type WhereClause = Vec<TypeBound>;

pub type TypeBound = (Span<Type>, Vec<Span<Trait>>);

pub type FnArg = (Span<String>, Span<Type>);

/// A statement of a block: `Returning` when its value is the block's value.
#[derive(Debug)]
pub enum Statement {
    Returning(Expr),
    NonReturning(Expr),
}

pub type Block = Vec<BoxedSpan<Statement>>;

#[derive(Debug)]
pub enum Expr {
    Literal(Literal),
    Add(BoxedSpan<Expr>, Span<()>, BoxedSpan<Expr>),
    Sub(BoxedSpan<Expr>, Span<()>, BoxedSpan<Expr>),
    Mul(BoxedSpan<Expr>, Span<()>, BoxedSpan<Expr>),
    Div(BoxedSpan<Expr>, Span<()>, BoxedSpan<Expr>),
    Pow(BoxedSpan<Expr>, Span<()>, BoxedSpan<Expr>),
    Not(BoxedSpan<Expr>),
    FnCall(BoxedSpan<Expr>, Vec<BoxedSpan<Expr>>),
    If(BoxedSpan<Expr>, Block, Vec<(BoxedSpan<Expr>, Block)>, Option<Block>),
    Ident(Vec<Span<String>>),
}

/// A literal. A float keeps the text it was written with.
#[derive(Debug)]
pub enum Literal {
    Float(String),
    Int(i64),
    String(String),
}

// The model of the AST: what a node says, with Seq in place of Vec.

/// Where a node was read from.
pub struct Loc {
    pub range: RangedPosition,
    pub file: File,
}

#[derive(PartialEq, Eq, Structural)]
pub enum BinOp {
    Add,
    Sub,
    Mul,
    Div,
    Pow,
}

pub ghost enum ExprV {
    Int(i64),
    Float(Seq<char>),
    Str(Seq<char>),
    Binary(BinOp, Box<NodeV>, Loc, Box<NodeV>),
    Not(Box<NodeV>),
    Call(Box<NodeV>, Seq<NodeV>),
    If(Box<NodeV>, Seq<StmtV>, Seq<(NodeV, Seq<StmtV>)>, Option<Seq<StmtV>>),
    Ident(Seq<NameV>),
}

/// An expression and where it stands.
pub ghost struct NodeV {
    pub loc: Loc,
    pub expr: ExprV,
}

/// A statement: its expression, where it stands, and whether it is the
/// block's value.
pub ghost struct StmtV {
    pub loc: Loc,
    pub returning: bool,
    pub expr: ExprV,
}

/// A name and where it stands.
pub ghost struct NameV {
    pub loc: Loc,
    pub name: Seq<char>,
}

pub open spec fn loc_of<T>(s: Span<T>) -> Loc {
    Loc { range: s.range, file: s.file }
}

pub open spec fn name_view(s: Span<String>) -> NameV {
    NameV { loc: loc_of(s), name: s.content@ }
}

pub open spec fn names_view(s: Seq<Span<String>>) -> Seq<NameV> {
    s.map_values(|n: Span<String>| name_view(n))
}

pub open spec fn expr_view(e: Expr) -> ExprV
    decreases e,
{
    match e {
        Expr::Literal(Literal::Int(i)) => ExprV::Int(i),
        Expr::Literal(Literal::Float(s)) => ExprV::Float(s@),
        Expr::Literal(Literal::String(s)) => ExprV::Str(s@),
        Expr::Add(l, o, r) => ExprV::Binary(BinOp::Add, Box::new(node_view(l)), loc_of(o), Box::new(node_view(r))),
        Expr::Sub(l, o, r) => ExprV::Binary(BinOp::Sub, Box::new(node_view(l)), loc_of(o), Box::new(node_view(r))),
        Expr::Mul(l, o, r) => ExprV::Binary(BinOp::Mul, Box::new(node_view(l)), loc_of(o), Box::new(node_view(r))),
        Expr::Div(l, o, r) => ExprV::Binary(BinOp::Div, Box::new(node_view(l)), loc_of(o), Box::new(node_view(r))),
        Expr::Pow(l, o, r) => ExprV::Binary(BinOp::Pow, Box::new(node_view(l)), loc_of(o), Box::new(node_view(r))),
        Expr::Not(x) => ExprV::Not(Box::new(node_view(x))),
        Expr::FnCall(c, args) => ExprV::Call(Box::new(node_view(c)), nodes_view(args@)),
        Expr::If(c, b, elifs, els) => ExprV::If(
            Box::new(node_view(c)),
            block_view(b@),
            elifs_view(elifs@),
            match els {
                Some(x) => Some(block_view(x@)),
                None => None,
            },
        ),
        Expr::Ident(p) => ExprV::Ident(names_view(p@)),
    }
}

pub open spec fn node_view(n: BoxedSpan<Expr>) -> NodeV
    decreases n,
{
    NodeV { loc: loc_of(n), expr: expr_view(*n.content) }
}

pub open spec fn nodes_view(s: Seq<BoxedSpan<Expr>>) -> Seq<NodeV>
    decreases s,
{
    if s.len() == 0 {
        Seq::empty()
    } else {
        nodes_view(s.drop_last()).push(node_view(s.last()))
    }
}

pub open spec fn stmt_view(s: BoxedSpan<Statement>) -> StmtV
    decreases s,
{
    match *s.content {
        Statement::Returning(e) => StmtV { loc: loc_of(s), returning: true, expr: expr_view(e) },
        Statement::NonReturning(e) => StmtV { loc: loc_of(s), returning: false, expr: expr_view(e) },
    }
}

pub open spec fn block_view(s: Seq<BoxedSpan<Statement>>) -> Seq<StmtV>
    decreases s,
{
    if s.len() == 0 {
        Seq::empty()
    } else {
        block_view(s.drop_last()).push(stmt_view(s.last()))
    }
}

pub open spec fn elifs_view(s: Seq<(BoxedSpan<Expr>, Block)>) -> Seq<(NodeV, Seq<StmtV>)>
    decreases s,
{
    if s.len() == 0 {
        Seq::empty()
    } else {
        elifs_view(s.drop_last()).push((node_view(s.last().0), block_view(s.last().1@)))
    }
}

} // verus!
