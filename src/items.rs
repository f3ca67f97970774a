use vstd::prelude::*;

use crate::ast::{
    block_view, loc_of, name_view, StmtV, AstModule, Block, FnArg, FnDef, FnSignatureDef, Generics,
    Impl, Loc, Mod, NameV, Trait, TraitDef, TraitImpl, Type, TypeBound, TypeInTrait,
    WhereClause,
};
use crate::expr::{parse_block, spec_block};
use crate::fs::File;
use crate::span::Span;
use crate::tree::{ParseTree, Rule};

verus! {

/// The model of a type: empty, or a name with generic arguments.
pub ghost enum TypeV {
    Empty,
    Other(NameV, Seq<(Loc, TypeV)>),
}

pub open spec fn type_view(t: Span<Type>) -> (Loc, TypeV)
    decreases t,
{
    match t.content {
        Type::Empty => (loc_of(t), TypeV::Empty),
        Type::Other { name, generics } => (loc_of(t), TypeV::Other(name_view(name), types_view(generics@))),
    }
}

pub open spec fn types_view(s: Seq<Span<Type>>) -> Seq<(Loc, TypeV)>
    decreases s,
{
    if s.len() == 0 {
        Seq::empty()
    } else {
        types_view(s.drop_last()).push(type_view(s.last()))
    }
}

/// The name held by a node.
pub open spec fn spec_name(t: ParseTree, f: File) -> NameV {
    NameV { loc: Loc { range: t.range, file: f }, name: t.text@ }
}

/// The type a `type` node stands for.
pub open spec fn spec_type(t: ParseTree, f: File) -> Option<(Loc, TypeV)>
    decreases t, 1int,
{
    let loc = Loc { range: t.range, file: f };
    if t.children@.len() == 0 {
        None
    } else if t.children@[0].rule == Rule::EmptyType {
        Some((loc, TypeV::Empty))
    } else if t.children@[0].rule == Rule::Ident {
        if t.children@.len() == 1 {
            Some((loc, TypeV::Other(spec_name(t.children@[0], f), Seq::empty())))
        } else {
            match spec_types(t.children@[1].children@, t.children@[1].children@.len() as int, f) {
                Some(g) => Some((loc, TypeV::Other(spec_name(t.children@[0], f), g))),
                None => None,
            }
        }
    } else {
        None
    }
}

/// The types `ch[0..end]`, as in a list of generic arguments.
pub open spec fn spec_types(ch: Seq<ParseTree>, end: int, f: File) -> Option<Seq<(Loc, TypeV)>>
    decreases ch, end,
{
    if end <= 0 || end > ch.len() {
        if end == 0 { Some(Seq::empty()) } else { None }
    } else {
        match (spec_types(ch, end - 1, f), spec_type(ch[end - 1], f)) {
            (Some(a), Some(x)) => Some(a.push(x)),
            _ => None,
        }
    }
}

/// The model of a `mod` declaration: whether it is public, and its name.
pub ghost struct ModV {
    pub is_pub: bool,
    pub name: NameV,
}

pub open spec fn mod_view(m: Mod) -> ModV {
    ModV { is_pub: m.pub_kw is Some, name: name_view(m.name) }
}

pub open spec fn mods_view(s: Seq<Mod>) -> Seq<ModV> {
    s.map_values(|m: Mod| mod_view(m))
}

/// The declaration a `mod` item stands for: `pub? mod name`.
pub open spec fn spec_mod(t: ParseTree, f: File) -> Option<ModV> {
    let ch = t.children@;
    if ch.len() >= 3 && ch[0].rule == Rule::PubKw && ch[1].rule == Rule::ModKw {
        Some(ModV { is_pub: true, name: spec_name(ch[2], f) })
    } else if ch.len() >= 2 && ch[0].rule == Rule::ModKw {
        Some(ModV { is_pub: false, name: spec_name(ch[1], f) })
    } else {
        None
    }
}

/// The `mod` declarations among the items `ch`, in order.
pub open spec fn spec_mods(ch: Seq<ParseTree>, f: File) -> Seq<ModV>
    decreases ch.len(),
{
    if ch.len() == 0 {
        Seq::empty()
    } else {
        let prev = spec_mods(ch.drop_last(), f);
        if ch.last().rule == Rule::ModItem {
            match spec_mod(ch.last(), f) {
                Some(m) => prev.push(m),
                None => prev,
            }
        } else {
            prev
        }
    }
}

/// How many of `ch` carry `rule`.
pub open spec fn count_rule(ch: Seq<ParseTree>, rule: Rule) -> nat
    decreases ch.len(),
{
    if ch.len() == 0 {
        0
    } else {
        count_rule(ch.drop_last(), rule) + if ch.last().rule == rule { 1nat } else { 0nat }
    }
}

// Models of the declarations, and what the item builder makes of a tree.

/// A trait reference: where it stands, its name and generic arguments.
pub ghost struct TraitV {
    pub loc: Loc,
    pub name: NameV,
    pub generics: Seq<(Loc, TypeV)>,
}

/// A bound of a where-clause: a type and the traits it must have.
pub type BoundV = ((Loc, TypeV), Seq<TraitV>);

/// An associated type as declared: where, its name and generic names.
pub ghost struct TypeDefV {
    pub loc: Loc,
    pub name: NameV,
    pub generics: Seq<NameV>,
}

/// A function: `pub` marker, name, generic parameters, where-clause,
/// arguments, return type and body (none for a trait's signature).
pub ghost struct FnV {
    pub is_pub: bool,
    pub name: NameV,
    pub generics: Option<Seq<NameV>>,
    pub where_clause: Option<Seq<BoundV>>,
    pub args: Seq<(NameV, (Loc, TypeV))>,
    pub return_type: (Loc, TypeV),
    pub body: Option<(Loc, Seq<StmtV>)>,
}

/// An implementation, of a trait when `trait_` is there.
pub ghost struct ImplV {
    pub generics: Option<Seq<NameV>>,
    pub trait_: Option<TraitV>,
    pub type_: (Loc, TypeV),
    pub where_clause: Option<Seq<BoundV>>,
    pub fns: Seq<FnV>,
    pub types: Seq<(TypeDefV, (Loc, TypeV))>,
}

/// A trait definition.
pub ghost struct TraitDefV {
    pub is_pub: bool,
    pub name: NameV,
    pub generics: Option<Seq<NameV>>,
    pub where_clause: Option<Seq<BoundV>>,
    pub fns: Seq<FnV>,
    pub signatures: Seq<FnV>,
    pub types: Seq<(TypeDefV, Seq<TraitV>)>,
}

/// The declarations of a file other than `mod`s, each list in source order.
pub ghost struct ItemsV {
    pub fns: Seq<FnV>,
    pub trait_defs: Seq<TraitDefV>,
    pub trait_impls: Seq<ImplV>,
    pub impls: Seq<ImplV>,
}

pub open spec fn trait_view(t: Span<Trait>) -> TraitV {
    TraitV { loc: loc_of(t), name: name_view(t.content.name), generics: types_view(t.content.generics@) }
}

pub open spec fn bound_view(b: TypeBound) -> BoundV {
    (type_view(b.0), b.1@.map_values(|x: Span<Trait>| trait_view(x)))
}

pub open spec fn where_view(w: Option<WhereClause>) -> Option<Seq<BoundV>> {
    match w {
        Some(v) => Some(v@.map_values(|b: TypeBound| bound_view(b))),
        None => None,
    }
}

pub open spec fn generics_view(g: Option<Generics>) -> Option<Seq<NameV>> {
    match g {
        Some(v) => Some(v@.map_values(|n: Span<String>| name_view(n))),
        None => None,
    }
}

pub open spec fn type_def_view(t: Span<TypeInTrait>) -> TypeDefV {
    TypeDefV {
        loc: loc_of(t),
        name: name_view(t.content.name),
        generics: t.content.generics@.map_values(|n: Span<String>| name_view(n)),
    }
}

pub open spec fn arg_view(a: FnArg) -> (NameV, (Loc, TypeV)) {
    (name_view(a.0), type_view(a.1))
}

pub open spec fn parts_view(p: FnParts) -> FnV {
    FnV {
        is_pub: p.pub_kw is Some,
        name: name_view(p.name),
        generics: generics_view(p.generics),
        where_clause: where_view(p.where_clause),
        args: p.args@.map_values(|a: FnArg| arg_view(a)),
        return_type: type_view(p.return_type),
        body: match p.body {
            Some(b) => Some((loc_of(b), block_view(b.content@))),
            None => None,
        },
    }
}

pub open spec fn def_view(d: FnDef) -> FnV {
    FnV {
        is_pub: d.pub_kw is Some,
        name: name_view(d.name),
        generics: generics_view(d.generics),
        where_clause: where_view(d.where_clause),
        args: d.args@.map_values(|a: FnArg| arg_view(a)),
        return_type: type_view(d.return_type),
        body: Some((loc_of(d.body), block_view(d.body.content@))),
    }
}

pub open spec fn sig_view(d: FnSignatureDef) -> FnV {
    FnV {
        is_pub: d.pub_kw is Some,
        name: name_view(d.name),
        generics: generics_view(d.generics),
        where_clause: where_view(d.where_clause),
        args: d.args@.map_values(|a: FnArg| arg_view(a)),
        return_type: type_view(d.return_type),
        body: None,
    }
}

pub open spec fn impl_type_view(x: (Span<TypeInTrait>, Span<Type>)) -> (TypeDefV, (Loc, TypeV)) {
    (type_def_view(x.0), type_view(x.1))
}

pub open spec fn impl_view(i: Impl) -> ImplV {
    ImplV {
        generics: generics_view(i.generics),
        trait_: None,
        type_: type_view(i.type_),
        where_clause: where_view(i.where_clause),
        fns: i.fn_defs@.map_values(|d: FnDef| def_view(d)),
        types: i.types@.map_values(|x: (Span<TypeInTrait>, Span<Type>)| impl_type_view(x)),
    }
}

pub open spec fn trait_impl_view(i: TraitImpl) -> ImplV {
    ImplV {
        generics: generics_view(i.generics),
        trait_: Some(trait_view(i.trait_)),
        type_: type_view(i.type_),
        where_clause: where_view(i.where_clause),
        fns: i.fn_defs@.map_values(|d: FnDef| def_view(d)),
        types: i.types@.map_values(|x: (Span<TypeInTrait>, Span<Type>)| impl_type_view(x)),
    }
}

pub open spec fn trait_type_view(x: (Span<TypeInTrait>, Vec<Span<Trait>>)) -> (TypeDefV, Seq<TraitV>) {
    (type_def_view(x.0), x.1@.map_values(|t: Span<Trait>| trait_view(t)))
}

pub open spec fn trait_def_view(d: TraitDef) -> TraitDefV {
    TraitDefV {
        is_pub: d.pub_kw is Some,
        name: name_view(d.name),
        generics: generics_view(d.generics),
        where_clause: where_view(d.where_clause),
        fns: d.fn_defs@.map_values(|x: FnDef| def_view(x)),
        signatures: d.fn_signatures@.map_values(|x: FnSignatureDef| sig_view(x)),
        types: d.types@.map_values(|x: (Span<TypeInTrait>, Vec<Span<Trait>>)| trait_type_view(x)),
    }
}

pub open spec fn items_view(m: AstModule) -> ItemsV {
    ItemsV {
        fns: m.fns@.map_values(|x: FnDef| def_view(x)),
        trait_defs: m.trait_defs@.map_values(|x: TraitDef| trait_def_view(x)),
        trait_impls: m.trait_impls@.map_values(|x: TraitImpl| trait_impl_view(x)),
        impls: m.impls@.map_values(|x: Impl| impl_view(x)),
    }
}

/// The trait reference a `trait` node stands for (when well formed).
pub open spec fn spec_trait(t: ParseTree, f: File) -> TraitV {
    TraitV {
        loc: Loc { range: t.range, file: f },
        name: spec_name(t.children@[0], f),
        generics: if t.children@.len() > 1 {
            spec_types(t.children@[1].children@, t.children@[1].children@.len() as int, f)->Some_0
        } else {
            Seq::empty()
        },
    }
}

/// The traits `ch[1..]` of a bound.
pub open spec fn spec_traits_from(ch: Seq<ParseTree>, lo: int, f: File) -> Seq<TraitV> {
    ch.subrange(lo, ch.len() as int).map_values(|x: ParseTree| spec_trait(x, f))
}

/// A bound: its type, then its traits.
pub open spec fn spec_bound(b: ParseTree, f: File) -> BoundV {
    (spec_type(b.children@[0], f)->Some_0, spec_traits_from(b.children@, 1, f))
}

/// The bounds of a where-clause node.
pub open spec fn spec_where(t: ParseTree, f: File) -> Seq<BoundV> {
    t.children@.map_values(|b: ParseTree| spec_bound(b, f))
}

/// A where-clause at `ch[i]`, if there is one.
pub open spec fn spec_where_at(ch: Seq<ParseTree>, i: int, f: File) -> Option<Seq<BoundV>> {
    if 0 <= i < ch.len() && ch[i].rule == Rule::WhereClause { Some(spec_where(ch[i], f)) } else { None }
}

/// Generic parameters at `ch[i]`, if they are there.
pub open spec fn spec_generics_at(ch: Seq<ParseTree>, i: int, f: File) -> Option<Seq<NameV>> {
    if 0 <= i < ch.len() && ch[i].rule == Rule::DefGenerics {
        Some(ch[i].children@.map_values(|n: ParseTree| spec_name(n, f)))
    } else {
        None
    }
}

/// An associated type as declared by a `type_def` node.
pub open spec fn spec_type_def(t: ParseTree, f: File) -> TypeDefV {
    TypeDefV {
        loc: Loc { range: t.range, file: f },
        name: spec_name(t.children@[0], f),
        generics: t.children@.subrange(1, t.children@.len() as int).map_values(|n: ParseTree| spec_name(n, f)),
    }
}

/// An argument: its name and type.
pub open spec fn spec_arg(a: ParseTree, f: File) -> (NameV, (Loc, TypeV)) {
    (spec_name(a.children@[0], f), spec_type(a.children@[1], f)->Some_0)
}

/// The function the children `ch` of a function item stand for (when well
/// formed). Without `->` the return type is empty, placed where the
/// return-type node stands.
pub open spec fn spec_fn(ch: Seq<ParseTree>, f: File) -> FnV {
    let n = name_index(ch);
    let g = args_index(ch);
    let w = body_index(ch);
    FnV {
        is_pub: ch.len() > 0 && ch[0].rule == Rule::PubKw,
        name: spec_name(ch[n], f),
        generics: spec_generics_at(ch, n + 1, f),
        where_clause: spec_where_at(ch, g + 2, f),
        args: ch[g].children@.map_values(|a: ParseTree| spec_arg(a, f)),
        return_type: if ch[g + 1].children@.len() > 0 {
            spec_type(ch[g + 1].children@[0], f)->Some_0
        } else {
            (Loc { range: ch[g + 1].range, file: f }, TypeV::Empty)
        },
        body: if w < ch.len() { Some((Loc { range: ch[w].range, file: f }, spec_block(ch[w], f)->Some_0)) } else { None },
    }
}

/// A name held by a node.
pub fn parse_name(t: &ParseTree, file: &File) -> (r: Span<String>)
    ensures
        name_view(r) == spec_name(*t, *file),
{
    Span::new(t.range, file.clone(), t.text.clone())
}

/// Builds the type a `type` node stands for.
#[verifier::spinoff_prover]
pub fn parse_type(t: &ParseTree, file: &File) -> (r: Option<Span<Type>>)
    ensures
        match r {
            Some(x) => spec_type(*t, *file) == Some(type_view(x)),
            None => spec_type(*t, *file) is None,
        },
    decreases *t, 1int,
{
    if t.children.len() == 0 {
        return None;
    }
    let first = &t.children[0];
    if first.rule == Rule::EmptyType {
        return Some(Span::new(t.range, file.clone(), Type::Empty));
    }
    if first.rule != Rule::Ident {
        return None;
    }
    let name = parse_name(first, file);
    let generics = if t.children.len() == 1 {
        Vec::new()
    } else {
        proof {
            assert(decreases_to!(*t => t.children@));
            assert(decreases_to!(t.children@ => t.children@[1]));
        }
        match parse_generics(&t.children[1], file) {
            Some(g) => g,
            None => return None,
        }
    };
    let r = Span::new(t.range, file.clone(), Type::Other { name, generics });
    assert(types_view(Seq::<Span<Type>>::empty()) =~= Seq::empty());
    Some(r)
}

/// Builds the generic arguments held by the children of `t`.
#[verifier::spinoff_prover]
pub fn parse_generics(t: &ParseTree, file: &File) -> (r: Option<Vec<Span<Type>>>)
    ensures
        match r {
            Some(v) => spec_types(t.children@, t.children@.len() as int, *file) == Some(types_view(v@)),
            None => spec_types(t.children@, t.children@.len() as int, *file) is None,
        },
    decreases *t, 0int,
{
    let ch = &t.children;
    let mut v: Vec<Span<Type>> = Vec::new();
    let mut i: usize = 0;
    while i < ch.len()
        invariant
            ch@ == t.children@,
            i <= ch@.len(),
            spec_types(ch@, i as int, *file) == Some(types_view(v@)),
        decreases ch@.len() - i,
    {
        proof {
            assert(decreases_to!(*t => t.children@));
            assert(decreases_to!(t.children@ => t.children@[i as int]));
        }
        match parse_type(&ch[i], file) {
            Some(x) => {
                let ghost old_v = v@;
                v.push(x);
                proof {
                    assert(v@.drop_last() =~= old_v);
                }
            },
            None => {
                proof {
                    lemma_types_prefix(ch@, i as int + 1, *file);
                }
                return None;
            },
        }
        i = i + 1;
    }
    Some(v)
}

proof fn lemma_types_prefix(ch: Seq<ParseTree>, i: int, f: File)
    requires
        0 <= i <= ch.len(),
        spec_types(ch, i, f) is None,
    ensures
        spec_types(ch, ch.len() as int, f) is None,
    decreases ch.len() - i,
{
    if i < ch.len() {
        lemma_types_prefix(ch, i + 1, f);
    }
}

/// The index of the name in an item that may start with `pub` and then
/// a keyword.
pub open spec fn name_index(ch: Seq<ParseTree>) -> int {
    if ch.len() > 0 && ch[0].rule == Rule::PubKw { 2 } else { 1 }
}

/// A `pub` marker, when `ch[i]` is one.
fn parse_pub(ch: &Vec<ParseTree>, i: usize, file: &File) -> (r: Option<Span<()>>)
    requires
        i <= ch@.len(),
    ensures
        r is Some <==> (i < ch@.len() && ch@[i as int].rule == Rule::PubKw),
        r matches Some(p) ==> p.range == ch@[i as int].range && p.file == *file,
{
    if i < ch.len() && ch[i].rule == Rule::PubKw {
        Some(Span::new(ch[i].range, file.clone(), ()))
    } else {
        None
    }
}

/// The generic parameters declared by the children of `t`.
pub fn parse_def_generics(t: &ParseTree, file: &File) -> (r: Generics)
    ensures
        r@.len() == t.children@.len(),
        forall|j: int| 0 <= j < r@.len() ==> name_view(#[trigger] r@[j]) == spec_name(t.children@[j], *file),
        r@.map_values(|n: Span<String>| name_view(n)) == t.children@.map_values(|n: ParseTree| spec_name(n, *file)),
{
    let mut v: Generics = Vec::new();
    let mut i: usize = 0;
    while i < t.children.len()
        invariant
            i <= t.children@.len(),
            v@.len() == i,
            forall|j: int| 0 <= j < i ==> name_view(#[trigger] v@[j]) == spec_name(t.children@[j], *file),
        decreases t.children@.len() - i,
    {
        v.push(parse_name(&t.children[i], file));
        i = i + 1;
    }
    assert(v@.map_values(|n: Span<String>| name_view(n)) =~= t.children@.map_values(|n: ParseTree| spec_name(n, *file)));
    v
}

/// A trait reference is a name, then optionally a list of well-formed
/// generic arguments.
pub open spec fn spec_trait_ok(t: ParseTree, f: File) -> bool {
    &&& t.children@.len() > 0
    &&& t.children@[0].rule == Rule::Ident
    &&& t.children@.len() > 1 ==> spec_types(t.children@[1].children@, t.children@[1].children@.len() as int, f) is Some
}

/// A trait as written in a bound or an impl: a name with generic arguments.
pub fn parse_trait(t: &ParseTree, file: &File) -> (r: Option<Span<Trait>>)
    ensures
        r is Some <==> spec_trait_ok(*t, *file),
        r matches Some(x) ==> x.range == t.range && name_view(x.content.name) == spec_name(t.children@[0], *file),
        r matches Some(x) ==> trait_view(x) == spec_trait(*t, *file),
        (t.children@.len() == 1 && t.children@[0].rule == Rule::Ident) ==> r is Some,
{
    if t.children.len() == 0 || t.children[0].rule != Rule::Ident {
        return None;
    }
    let name = parse_name(&t.children[0], file);
    let generics = if t.children.len() == 1 {
        Vec::new()
    } else {
        match parse_generics(&t.children[1], file) {
            Some(g) => g,
            None => return None,
        }
    };
    assert(types_view(Seq::<Span<Type>>::empty()) =~= Seq::empty());
    Some(Span::new(t.range, file.clone(), Trait { name, generics }))
}

/// A bound is a well-formed type followed by well-formed traits.
pub open spec fn spec_bound_ok(b: ParseTree, f: File) -> bool {
    &&& b.children@.len() >= 1
    &&& spec_type(b.children@[0], f) is Some
    &&& forall|k: int| 1 <= k < b.children@.len() ==> spec_trait_ok(#[trigger] b.children@[k], f)
}

/// The bounds of a where-clause: each a type and the traits it must have.
pub fn parse_where_clause(t: &ParseTree, file: &File) -> (r: Option<WhereClause>)
    ensures
        r is Some <==> forall|j: int| 0 <= j < t.children@.len() ==> spec_bound_ok(#[trigger] t.children@[j], *file),
        r matches Some(v) ==> v@.len() == t.children@.len(),
        r matches Some(v) ==> where_view(Some(v)) == Some(spec_where(*t, *file)),
{
    let mut v: WhereClause = Vec::new();
    let mut i: usize = 0;
    while i < t.children.len()
        invariant
            i <= t.children@.len(),
            v@.len() == i,
            forall|j: int| 0 <= j < i ==> spec_bound_ok(#[trigger] t.children@[j], *file),
            forall|j: int| 0 <= j < i ==> bound_view(#[trigger] v@[j]) == spec_bound(t.children@[j], *file),
        decreases t.children@.len() - i,
    {
        let bound = &t.children[i];
        if bound.children.len() == 0 {
            assert(!spec_bound_ok(t.children@[i as int], *file));
            return None;
        }
        let ty = match parse_type(&bound.children[0], file) {
            Some(x) => x,
            None => {
                assert(!spec_bound_ok(t.children@[i as int], *file));
                return None;
            },
        };
        let mut traits: Vec<Span<Trait>> = Vec::new();
        let mut j: usize = 1;
        while j < bound.children.len()
            invariant
                1 <= j <= bound.children@.len(),
                i < t.children@.len(),
                *bound == t.children@[i as int],
                forall|k: int| 1 <= k < j ==> spec_trait_ok(#[trigger] bound.children@[k], *file),
                traits@.len() == j - 1,
                forall|k: int| 0 <= k < j - 1 ==> trait_view(#[trigger] traits@[k]) == spec_trait(bound.children@[k + 1], *file),
            decreases bound.children@.len() - j,
        {
            match parse_trait(&bound.children[j], file) {
                Some(x) => traits.push(x),
                None => {
                    assert(!spec_trait_ok(bound.children@[j as int], *file));
                    assert(!spec_bound_ok(t.children@[i as int], *file));
                    return None;
                },
            }
            j = j + 1;
        }
        assert(traits@.map_values(|x: Span<Trait>| trait_view(x)) =~= spec_traits_from(bound.children@, 1, *file));
        let b: TypeBound = (ty, traits);
        v.push(b);
        i = i + 1;
    }
    assert(v@.map_values(|b: TypeBound| bound_view(b)) =~= spec_where(*t, *file));
    Some(v)
}

/// An argument is a name and a well-formed type.
pub open spec fn spec_arg_ok(a: ParseTree, f: File) -> bool {
    a.children@.len() >= 2 && spec_type(a.children@[1], f) is Some
}

/// The typed arguments of a function, in order.
pub fn parse_fn_def_args(t: &ParseTree, file: &File) -> (r: Option<Vec<FnArg>>)
    ensures
        r is Some <==> forall|j: int| 0 <= j < t.children@.len() ==> spec_arg_ok(#[trigger] t.children@[j], *file),
        r matches Some(v) ==> v@.len() == t.children@.len() && forall|j: int| 0 <= j < v@.len()
            ==> t.children@[j].children@.len() >= 2
                && name_view((#[trigger] v@[j]).0) == spec_name(t.children@[j].children@[0], *file)
                && spec_type(t.children@[j].children@[1], *file) == Some(type_view(v@[j].1)),
        r matches Some(v) ==> v@.map_values(|a: FnArg| arg_view(a)) == t.children@.map_values(|a: ParseTree| spec_arg(a, *file)),
{
    let mut v: Vec<FnArg> = Vec::new();
    let mut i: usize = 0;
    while i < t.children.len()
        invariant
            i <= t.children@.len(),
            v@.len() == i,
            forall|j: int| 0 <= j < i ==> spec_arg_ok(#[trigger] t.children@[j], *file),
            forall|j: int| 0 <= j < i ==> t.children@[j].children@.len() >= 2
                && name_view((#[trigger] v@[j]).0) == spec_name(t.children@[j].children@[0], *file)
                && spec_type(t.children@[j].children@[1], *file) == Some(type_view(v@[j].1)),
        decreases t.children@.len() - i,
    {
        let arg = &t.children[i];
        if arg.children.len() < 2 {
            assert(!spec_arg_ok(t.children@[i as int], *file));
            return None;
        }
        let name = parse_name(&arg.children[0], file);
        let ty = match parse_type(&arg.children[1], file) {
            Some(x) => x,
            None => {
                assert(!spec_arg_ok(t.children@[i as int], *file));
                return None;
            },
        };
        v.push((name, ty));
        i = i + 1;
    }
    assert(v@.map_values(|a: FnArg| arg_view(a)) =~= t.children@.map_values(|a: ParseTree| spec_arg(a, *file)));
    Some(v)
}

/// The parts of a function item, whose body may be missing (a method
/// signature of a trait).
#[derive(Debug)]
pub struct FnParts {
    pub pub_kw: Option<Span<()>>,
    pub name: Span<String>,
    pub generics: Option<Generics>,
    pub where_clause: Option<WhereClause>,
    pub args: Vec<FnArg>,
    pub return_type: Span<Type>,
    pub body: Option<Span<Block>>,
}

/// Index of the parameter list: after `pub? fn name` and the generics.
pub open spec fn args_index(ch: Seq<ParseTree>) -> int {
    let i1 = name_index(ch) + 1;
    if i1 < ch.len() && ch[i1].rule == Rule::DefGenerics { i1 + 1 } else { i1 }
}

/// Index of the body: after the parameters, the return type and the
/// where-clause.
pub open spec fn body_index(ch: Seq<ParseTree>) -> int {
    let g = args_index(ch);
    if g + 2 < ch.len() && ch[g + 2].rule == Rule::WhereClause { g + 3 } else { g + 2 }
}

/// `pub? fn name <generics>? (args) -> type where? block?`, each part well formed.
pub open spec fn spec_fn_ok(ch: Seq<ParseTree>, f: File) -> bool {
    let g = args_index(ch);
    let w = body_index(ch);
    &&& name_index(ch) < ch.len()
    &&& ch[name_index(ch) - 1].rule == Rule::FnKw
    &&& g + 1 < ch.len()
    &&& ch[g].rule == Rule::FnArgs
    &&& forall|j: int| 0 <= j < ch[g].children@.len() ==> spec_arg_ok(#[trigger] ch[g].children@[j], f)
    &&& ch[g + 1].rule == Rule::ReturnType
    &&& (ch[g + 1].children@.len() > 0 ==> spec_type(ch[g + 1].children@[0], f) is Some)
    &&& (g + 2 < ch.len() && ch[g + 2].rule == Rule::WhereClause ==> forall|j: int|
        0 <= j < ch[g + 2].children@.len() ==> spec_bound_ok(#[trigger] ch[g + 2].children@[j], f))
    &&& (w < ch.len() ==> w + 1 == ch.len() && ch[w].rule == Rule::Block && spec_block(ch[w], f) is Some)
}

/// Builds a function from `pub? fn name <generics>? (args) -> type where? block?`.
/// The return type is empty, spanning the arrow's place, when none is written.
pub fn parse_fn(t: &ParseTree, file: &File) -> (r: Option<FnParts>)
    ensures
        r is Some <==> spec_fn_ok(t.children@, *file),
        r matches Some(p) ==> (p.body is Some <==> body_index(t.children@) < t.children@.len()),
        r matches Some(p) ==> {
            &&& name_index(t.children@) < t.children@.len()
            &&& (p.pub_kw is Some <==> t.children@[0].rule == Rule::PubKw)
            &&& name_view(p.name) == spec_name(t.children@[name_index(t.children@)], *file)
            &&& p.body matches Some(b) ==> spec_block(t.children@.last(), *file) == Some(block_view(b.content@))
        },
        r matches Some(p) ==> parts_view(p) == spec_fn(t.children@, *file),
{
    let ch = &t.children;
    let pub_kw = parse_pub(ch, 0, file);
    let mut i: usize = if pub_kw.is_some() { 1 } else { 0 };
    if i >= ch.len() || ch[i].rule != Rule::FnKw {
        return None;
    }
    i = i + 1;
    if i >= ch.len() {
        return None;
    }
    let name = parse_name(&ch[i], file);
    i = i + 1;
    let generics = if i < ch.len() && ch[i].rule == Rule::DefGenerics {
        let g = parse_def_generics(&ch[i], file);
        i = i + 1;
        Some(g)
    } else {
        None
    };
    if i >= ch.len() || ch[i].rule != Rule::FnArgs {
        return None;
    }
    let args = match parse_fn_def_args(&ch[i], file) {
        Some(a) => a,
        None => return None,
    };
    i = i + 1;
    if i >= ch.len() || ch[i].rule != Rule::ReturnType {
        return None;
    }
    let ret = &ch[i];
    let return_type = if ret.children.len() == 0 {
        Span::new(ret.range, file.clone(), Type::Empty)
    } else {
        match parse_type(&ret.children[0], file) {
            Some(x) => x,
            None => return None,
        }
    };
    i = i + 1;
    let where_clause = if i < ch.len() && ch[i].rule == Rule::WhereClause {
        let w = match parse_where_clause(&ch[i], file) {
            Some(w) => w,
            None => return None,
        };
        i = i + 1;
        Some(w)
    } else {
        None
    };
    let body = if i < ch.len() {
        if i + 1 != ch.len() || ch[i].rule != Rule::Block {
            return None;
        }
        match parse_block(&ch[i], file) {
            Some(b) => Some(Span::new(ch[i].range, file.clone(), b)),
            None => return None,
        }
    } else {
        None
    };
    let r = FnParts { pub_kw, name, generics, where_clause, args, return_type, body };
    proof {
        let c = t.children@;
        assert(generics_view(r.generics) == spec_generics_at(c, name_index(c) + 1, *file));
        assert(where_view(r.where_clause) == spec_where_at(c, args_index(c) + 2, *file));
    }
    Some(r)
}

impl FnParts {
    /// A function definition, when the body is there.
    pub fn into_def(self) -> (r: Option<FnDef>)
        ensures
            r is Some <==> self.body is Some,
            r matches Some(d) ==> d.name == self.name && d.pub_kw == self.pub_kw && Some(d.body) == self.body,
            r matches Some(d) ==> def_view(d) == parts_view(self),
    {
        match self.body {
            Some(body) => Some(FnDef {
                pub_kw: self.pub_kw,
                name: self.name,
                generics: self.generics,
                where_clause: self.where_clause,
                args: self.args,
                return_type: self.return_type,
                body,
            }),
            None => None,
        }
    }

    /// A method signature, dropping nothing but the (missing) body.
    pub fn into_signature(self) -> (r: FnSignatureDef)
        ensures
            r.name == self.name,
            r.pub_kw == self.pub_kw,
            self.body is None ==> sig_view(r) == parts_view(self),
    {
        FnSignatureDef {
            pub_kw: self.pub_kw,
            name: self.name,
            generics: self.generics,
            where_clause: self.where_clause,
            args: self.args,
            return_type: self.return_type,
        }
    }
}

/// An associated type as declared: a name, then generic parameters.
pub fn parse_type_def(t: &ParseTree, file: &File) -> (r: Option<Span<TypeInTrait>>)
    ensures
        r is Some <==> t.children@.len() > 0,
        r matches Some(x) ==> x.range == t.range && name_view(x.content.name) == spec_name(t.children@[0], *file)
            && x.content.generics@.len() == t.children@.len() - 1,
        r matches Some(x) ==> type_def_view(x) == spec_type_def(*t, *file),
{
    if t.children.len() == 0 {
        return None;
    }
    let name = parse_name(&t.children[0], file);
    let mut generics: Vec<Span<String>> = Vec::new();
    let mut i: usize = 1;
    while i < t.children.len()
        invariant
            1 <= i <= t.children@.len(),
            generics@.len() == i - 1,
            forall|j: int| 0 <= j < i - 1 ==> name_view(#[trigger] generics@[j]) == spec_name(t.children@[j + 1], *file),
        decreases t.children@.len() - i,
    {
        generics.push(parse_name(&t.children[i], file));
        i = i + 1;
    }
    assert(generics@.map_values(|n: Span<String>| name_view(n)) =~= t.children@.subrange(1, t.children@.len() as int).map_values(|n: ParseTree| spec_name(n, *file)));
    Some(Span::new(t.range, file.clone(), TypeInTrait { name, generics }))
}

/// Where the optional generic parameters at `ch[i]` end.
pub open spec fn generics_end(ch: Seq<ParseTree>, i: int) -> int {
    if 0 <= i < ch.len() && ch[i].rule == Rule::DefGenerics { i + 1 } else { i }
}

/// Where the optional where-clause at `ch[i]` ends.
pub open spec fn where_end(ch: Seq<ParseTree>, i: int) -> int {
    if 0 <= i < ch.len() && ch[i].rule == Rule::WhereClause { i + 1 } else { i }
}

/// A where-clause at `ch[i]`, if there is one, is well formed.
pub open spec fn where_ok_at(ch: Seq<ParseTree>, i: int, f: File) -> bool {
    (0 <= i < ch.len() && ch[i].rule == Rule::WhereClause) ==> forall|j: int|
        0 <= j < ch[i].children@.len() ==> spec_bound_ok(#[trigger] ch[i].children@[j], f)
}

/// A member of an implementation: `type Name<..> = Type;` or a method
/// with a body.
pub open spec fn spec_impl_member_ok(m: ParseTree, f: File) -> bool {
    ||| (m.rule == Rule::ImplType && m.children@.len() >= 3 && m.children@[0].rule == Rule::TypeKw
        && m.children@[1].children@.len() > 0 && spec_type(m.children@[2], f) is Some)
    ||| (m.rule == Rule::ImplFn && spec_fn_ok(m.children@, f) && body_index(m.children@) < m.children@.len())
}

/// A member of a trait: `type Name<..>: Bounds;`, or a method with or
/// without a body.
pub open spec fn spec_trait_member_ok(m: ParseTree, f: File) -> bool {
    ||| (m.rule == Rule::TraitType && m.children@.len() >= 2 && m.children@[0].rule == Rule::TypeKw
        && m.children@[1].children@.len() > 0
        && forall|k: int| 2 <= k < m.children@.len() ==> spec_trait_ok(#[trigger] m.children@[k], f))
    ||| (m.rule == Rule::TraitFn && spec_fn_ok(m.children@, f))
}

/// `impl <generics>? Type where? { members }`, each part well formed.
pub open spec fn spec_impl_ok(ch: Seq<ParseTree>, f: File) -> bool {
    let g = generics_end(ch, 1);
    &&& ch.len() > 0 && ch[0].rule == Rule::ImplKw
    &&& g < ch.len() && spec_type(ch[g], f) is Some
    &&& where_ok_at(ch, g + 1, f)
    &&& forall|k: int| where_end(ch, g + 1) <= k < ch.len() ==> spec_impl_member_ok(#[trigger] ch[k], f)
}

/// `impl <generics>? Trait for Type where? { members }`, each part well formed.
pub open spec fn spec_trait_impl_ok(ch: Seq<ParseTree>, f: File) -> bool {
    let g = generics_end(ch, 1);
    &&& ch.len() > 0 && ch[0].rule == Rule::ImplKw
    &&& g + 2 < ch.len() && ch[g + 1].rule == Rule::ForKw
    &&& spec_trait_ok(ch[g], f) && spec_type(ch[g + 2], f) is Some
    &&& where_ok_at(ch, g + 3, f)
    &&& forall|k: int| where_end(ch, g + 3) <= k < ch.len() ==> spec_impl_member_ok(#[trigger] ch[k], f)
}

/// `pub? trait Name <generics>? where? { members }`, each part well formed.
pub open spec fn spec_trait_item_ok(ch: Seq<ParseTree>, f: File) -> bool {
    let n = name_index(ch);
    let g = generics_end(ch, n + 1);
    &&& n < ch.len() && ch[n - 1].rule == Rule::TraitKw
    &&& where_ok_at(ch, g, f)
    &&& forall|k: int| where_end(ch, g) <= k < ch.len() ==> spec_trait_member_ok(#[trigger] ch[k], f)
}

/// The members `ch[lo..end]` of an implementation: its methods and its
/// associated type bindings, each list in source order.
pub open spec fn spec_impl_members(ch: Seq<ParseTree>, lo: int, end: int, f: File)
    -> (Seq<FnV>, Seq<(TypeDefV, (Loc, TypeV))>)
    decreases end - lo,
{
    if end <= lo {
        (Seq::empty(), Seq::empty())
    } else {
        let prev = spec_impl_members(ch, lo, end - 1, f);
        let m = ch[end - 1];
        if m.rule == Rule::ImplFn {
            (prev.0.push(spec_fn(m.children@, f)), prev.1)
        } else {
            (prev.0, prev.1.push((spec_type_def(m.children@[1], f), spec_type(m.children@[2], f)->Some_0)))
        }
    }
}

/// The members `ch[lo..end]` of a trait: methods with a body, methods
/// without one, and associated types with their bounds, each in source order.
pub open spec fn spec_trait_members(ch: Seq<ParseTree>, lo: int, end: int, f: File)
    -> (Seq<FnV>, Seq<FnV>, Seq<(TypeDefV, Seq<TraitV>)>)
    decreases end - lo,
{
    if end <= lo {
        (Seq::empty(), Seq::empty(), Seq::empty())
    } else {
        let prev = spec_trait_members(ch, lo, end - 1, f);
        let m = ch[end - 1];
        if m.rule == Rule::TraitFn {
            if body_index(m.children@) < m.children@.len() {
                (prev.0.push(spec_fn(m.children@, f)), prev.1, prev.2)
            } else {
                (prev.0, prev.1.push(spec_fn(m.children@, f)), prev.2)
            }
        } else {
            (prev.0, prev.1, prev.2.push((spec_type_def(m.children@[1], f), spec_traits_from(m.children@, 2, f))))
        }
    }
}

/// The inherent implementation the children `ch` stand for (when well formed).
pub open spec fn spec_impl(ch: Seq<ParseTree>, f: File) -> ImplV {
    let g = generics_end(ch, 1);
    let members = spec_impl_members(ch, where_end(ch, g + 1), ch.len() as int, f);
    ImplV {
        generics: spec_generics_at(ch, 1, f),
        trait_: None,
        type_: spec_type(ch[g], f)->Some_0,
        where_clause: spec_where_at(ch, g + 1, f),
        fns: members.0,
        types: members.1,
    }
}

/// The trait implementation the children `ch` stand for (when well formed).
pub open spec fn spec_trait_impl(ch: Seq<ParseTree>, f: File) -> ImplV {
    let g = generics_end(ch, 1);
    let members = spec_impl_members(ch, where_end(ch, g + 3), ch.len() as int, f);
    ImplV {
        generics: spec_generics_at(ch, 1, f),
        trait_: Some(spec_trait(ch[g], f)),
        type_: spec_type(ch[g + 2], f)->Some_0,
        where_clause: spec_where_at(ch, g + 3, f),
        fns: members.0,
        types: members.1,
    }
}

/// The trait definition the children `ch` stand for (when well formed).
pub open spec fn spec_trait_def(ch: Seq<ParseTree>, f: File) -> TraitDefV {
    let n = name_index(ch);
    let g = generics_end(ch, n + 1);
    let members = spec_trait_members(ch, where_end(ch, g), ch.len() as int, f);
    TraitDefV {
        is_pub: ch.len() > 0 && ch[0].rule == Rule::PubKw,
        name: spec_name(ch[n], f),
        generics: spec_generics_at(ch, n + 1, f),
        where_clause: spec_where_at(ch, g, f),
        fns: members.0,
        signatures: members.1,
        types: members.2,
    }
}

/// The members of an implementation, from `ch[i]` on: bindings of
/// associated types and method definitions.
pub fn parse_impl_inner(
    ch: &Vec<ParseTree>,
    i: usize,
    file: &File,
    type_: Span<Type>,
    generics: Option<Generics>,
    where_clause: Option<WhereClause>,
) -> (r: Option<Impl>)
    requires
        i <= ch@.len(),
    ensures
        r is Some <==> forall|k: int| i <= k < ch@.len() ==> spec_impl_member_ok(#[trigger] ch@[k], *file),
        r matches Some(x) ==> x.type_ == type_ && x.generics == generics && x.where_clause == where_clause
            && x.fn_defs@.len() == count_rule(ch@.subrange(i as int, ch@.len() as int), Rule::ImplFn)
            && x.types@.len() == count_rule(ch@.subrange(i as int, ch@.len() as int), Rule::ImplType),
        r matches Some(x) ==> (x.fn_defs@.map_values(|d: FnDef| def_view(d)),
            x.types@.map_values(|y: (Span<TypeInTrait>, Span<Type>)| impl_type_view(y)))
            == spec_impl_members(ch@, i as int, ch@.len() as int, *file),
{
    let mut fn_defs: Vec<FnDef> = Vec::new();
    let mut types: Vec<(Span<TypeInTrait>, Span<Type>)> = Vec::new();
    let mut j: usize = i;
    assert(ch@.subrange(i as int, i as int) =~= Seq::<ParseTree>::empty());
    assert(fn_defs@.map_values(|d: FnDef| def_view(d)) =~= Seq::empty());
    assert(types@.map_values(|y: (Span<TypeInTrait>, Span<Type>)| impl_type_view(y)) =~= Seq::empty());
    while j < ch.len()
        invariant
            i <= j <= ch@.len(),
            forall|k: int| i <= k < j ==> spec_impl_member_ok(#[trigger] ch@[k], *file),
            fn_defs@.len() == count_rule(ch@.subrange(i as int, j as int), Rule::ImplFn),
            types@.len() == count_rule(ch@.subrange(i as int, j as int), Rule::ImplType),
            (fn_defs@.map_values(|d: FnDef| def_view(d)),
                types@.map_values(|y: (Span<TypeInTrait>, Span<Type>)| impl_type_view(y)))
                == spec_impl_members(ch@, i as int, j as int, *file),
        decreases ch@.len() - j,
    {
        proof {
            assert(ch@.subrange(i as int, j + 1).drop_last() =~= ch@.subrange(i as int, j as int));
        }
        let item = &ch[j];
        if item.rule == Rule::ImplType {
            if item.children.len() < 3 || item.children[0].rule != Rule::TypeKw {
                assert(!spec_impl_member_ok(ch@[j as int], *file));
                return None;
            }
            let def = match parse_type_def(&item.children[1], file) {
                Some(d) => d,
                None => {
                    assert(!spec_impl_member_ok(ch@[j as int], *file));
                    return None;
                },
            };
            let ty = match parse_type(&item.children[2], file) {
                Some(x) => x,
                None => {
                    assert(!spec_impl_member_ok(ch@[j as int], *file));
                    return None;
                },
            };
            let ghost old_t = types@;
            types.push((def, ty));
            assert(types@.map_values(|y: (Span<TypeInTrait>, Span<Type>)| impl_type_view(y))
                =~= old_t.map_values(|y: (Span<TypeInTrait>, Span<Type>)| impl_type_view(y)).push(impl_type_view((def, ty))));
        } else if item.rule == Rule::ImplFn {
            let def = match parse_fn(item, file) {
                Some(p) => match p.into_def() {
                    Some(d) => d,
                    None => {
                        assert(!spec_impl_member_ok(ch@[j as int], *file));
                        return None;
                    },
                },
                None => {
                    assert(!spec_impl_member_ok(ch@[j as int], *file));
                    return None;
                },
            };
            let ghost old_f = fn_defs@;
            fn_defs.push(def);
            assert(fn_defs@.map_values(|d: FnDef| def_view(d)) =~= old_f.map_values(|d: FnDef| def_view(d)).push(def_view(def)));
        } else {
            assert(!spec_impl_member_ok(ch@[j as int], *file));
            return None;
        }
        j = j + 1;
    }
    Some(Impl { generics, type_, where_clause, fn_defs, types })
}

/// Generic parameters at `ch[i]`, if that is where they stand.
fn maybe_def_generics(ch: &Vec<ParseTree>, i: usize, file: &File) -> (r: (Option<Generics>, usize))
    requires
        i <= ch@.len(),
    ensures
        r.1 <= ch@.len(),
        r.0 is Some <==> (i < ch@.len() && ch@[i as int].rule == Rule::DefGenerics),
        r.1 == generics_end(ch@, i as int),
        generics_view(r.0) == spec_generics_at(ch@, i as int, *file),
{
    if i < ch.len() && ch[i].rule == Rule::DefGenerics {
        (Some(parse_def_generics(&ch[i], file)), i + 1)
    } else {
        (None, i)
    }
}

/// A where-clause at `ch[i]`, if that is where it stands.
fn maybe_where_clause(ch: &Vec<ParseTree>, i: usize, file: &File) -> (r: Option<(Option<WhereClause>, usize)>)
    requires
        i <= ch@.len(),
    ensures
        r is Some <==> where_ok_at(ch@, i as int, *file),
        r matches Some((w, j)) ==> j <= ch@.len() && (w is Some <==> (i < ch@.len() && ch@[i as int].rule == Rule::WhereClause))
            && j == where_end(ch@, i as int),
        r matches Some((w, j)) ==> where_view(w) == spec_where_at(ch@, i as int, *file),
{
    if i < ch.len() && ch[i].rule == Rule::WhereClause {
        match parse_where_clause(&ch[i], file) {
            Some(w) => Some((Some(w), i + 1)),
            None => None,
        }
    } else {
        Some((None, i))
    }
}

/// `impl <generics>? Type where? { members }`
pub fn parse_impl(t: &ParseTree, file: &File) -> (r: Option<Impl>)
    ensures
        r is Some <==> spec_impl_ok(t.children@, *file),
        r matches Some(x) ==> impl_view(x) == spec_impl(t.children@, *file),
{
    let ch = &t.children;
    if ch.len() == 0 || ch[0].rule != Rule::ImplKw {
        return None;
    }
    let (generics, i) = maybe_def_generics(ch, 1, file);
    if i >= ch.len() {
        return None;
    }
    let type_ = match parse_type(&ch[i], file) {
        Some(x) => x,
        None => return None,
    };
    let (where_clause, i) = match maybe_where_clause(ch, i + 1, file) {
        Some(w) => w,
        None => return None,
    };
    parse_impl_inner(ch, i, file, type_, generics, where_clause)
}

/// `impl <generics>? Trait<..> for Type where? { members }`: an inherent
/// implementation turned into one of the trait.
pub fn parse_trait_impl(t: &ParseTree, file: &File) -> (r: Option<TraitImpl>)
    ensures
        r is Some <==> spec_trait_impl_ok(t.children@, *file),
        r matches Some(x) ==> trait_impl_view(x) == spec_trait_impl(t.children@, *file),
{
    let ch = &t.children;
    if ch.len() == 0 || ch[0].rule != Rule::ImplKw {
        return None;
    }
    let (generics, i) = maybe_def_generics(ch, 1, file);
    if i + 2 >= ch.len() || ch[i + 1].rule != Rule::ForKw {
        return None;
    }
    let trait_ = match parse_trait(&ch[i], file) {
        Some(x) => x,
        None => return None,
    };
    let type_ = match parse_type(&ch[i + 2], file) {
        Some(x) => x,
        None => return None,
    };
    let (where_clause, j) = match maybe_where_clause(ch, i + 3, file) {
        Some(w) => w,
        None => return None,
    };
    match parse_impl_inner(ch, j, file, type_, generics, where_clause) {
        Some(x) => Some(x.to_trait_impl(trait_)),
        None => None,
    }
}

/// `pub? trait Name <generics>? where? { members }`, whose members are
/// associated types with their bounds, methods with a body (defaults) and
/// methods without one (signatures), in any order.
pub fn parse_trait_item(t: &ParseTree, file: &File) -> (r: Option<TraitDef>)
    ensures
        r is Some <==> spec_trait_item_ok(t.children@, *file),
        r matches Some(d) ==> trait_def_view(d) == spec_trait_def(t.children@, *file),
        r matches Some(d) ==> name_index(t.children@) < t.children@.len()
            && (d.pub_kw is Some <==> t.children@[0].rule == Rule::PubKw)
            && name_view(d.name) == spec_name(t.children@[name_index(t.children@)], *file),
{
    let ch = &t.children;
    let pub_kw = parse_pub(ch, 0, file);
    let i: usize = if pub_kw.is_some() { 1 } else { 0 };
    if i + 1 >= ch.len() || ch[i].rule != Rule::TraitKw {
        return None;
    }
    let name = parse_name(&ch[i + 1], file);
    let (generics, i) = maybe_def_generics(ch, i + 2, file);
    let (where_clause, mut j) = match maybe_where_clause(ch, i, file) {
        Some(w) => w,
        None => return None,
    };
    let mut fn_defs: Vec<FnDef> = Vec::new();
    let mut fn_signatures: Vec<FnSignatureDef> = Vec::new();
    let mut types: Vec<(Span<TypeInTrait>, Vec<Span<Trait>>)> = Vec::new();
    let ghost start = j as int;
    assert(fn_defs@.map_values(|x: FnDef| def_view(x)) =~= Seq::empty());
    assert(fn_signatures@.map_values(|x: FnSignatureDef| sig_view(x)) =~= Seq::empty());
    assert(types@.map_values(|x: (Span<TypeInTrait>, Vec<Span<Trait>>)| trait_type_view(x)) =~= Seq::empty());
    assert(start == where_end(ch@, generics_end(ch@, name_index(ch@) + 1)));
    while j < ch.len()
        invariant
            ch@ == t.children@,
            start <= j <= ch@.len(),
            start == where_end(ch@, generics_end(ch@, name_index(ch@) + 1)),
            forall|k: int| start <= k < j ==> spec_trait_member_ok(#[trigger] ch@[k], *file),
            (fn_defs@.map_values(|x: FnDef| def_view(x)), fn_signatures@.map_values(|x: FnSignatureDef| sig_view(x)),
                types@.map_values(|x: (Span<TypeInTrait>, Vec<Span<Trait>>)| trait_type_view(x)))
                == spec_trait_members(ch@, start, j as int, *file),
        decreases ch@.len() - j,
    {
        let item = &ch[j];
        if item.rule == Rule::TraitType {
            if item.children.len() < 2 || item.children[0].rule != Rule::TypeKw {
                assert(!spec_trait_member_ok(ch@[j as int], *file));
                return None;
            }
            let def = match parse_type_def(&item.children[1], file) {
                Some(d) => d,
                None => {
                    assert(!spec_trait_member_ok(ch@[j as int], *file));
                    return None;
                },
            };
            let mut traits: Vec<Span<Trait>> = Vec::new();
            let mut k: usize = 2;
            while k < item.children.len()
                invariant
                    2 <= k <= item.children@.len(),
                    j < ch@.len(),
                    *item == ch@[j as int],
                    item.rule == Rule::TraitType,
                    ch@ == t.children@,
                    start <= j,
                    start == where_end(ch@, generics_end(ch@, name_index(ch@) + 1)),
                    forall|q: int| 2 <= q < k ==> spec_trait_ok(#[trigger] item.children@[q], *file),
                    traits@.len() == k - 2,
                    forall|q: int| 0 <= q < k - 2 ==> trait_view(#[trigger] traits@[q]) == spec_trait(item.children@[q + 2], *file),
                decreases item.children@.len() - k,
            {
                match parse_trait(&item.children[k], file) {
                    Some(x) => traits.push(x),
                    None => {
                        assert(!spec_trait_ok(item.children@[k as int], *file));
                        assert(!spec_trait_member_ok(ch@[j as int], *file));
                        return None;
                    },
                }
                k = k + 1;
            }
            assert(traits@.map_values(|x: Span<Trait>| trait_view(x)) =~= spec_traits_from(item.children@, 2, *file));
            let ghost old_t = types@;
            types.push((def, traits));
            assert(types@.map_values(|x: (Span<TypeInTrait>, Vec<Span<Trait>>)| trait_type_view(x))
                =~= old_t.map_values(|x: (Span<TypeInTrait>, Vec<Span<Trait>>)| trait_type_view(x)).push(trait_type_view((def, traits))));
        } else if item.rule == Rule::TraitFn {
            let parts = match parse_fn(item, file) {
                Some(p) => p,
                None => {
                    assert(!spec_trait_member_ok(ch@[j as int], *file));
                    return None;
                },
            };
            if parts.body.is_some() {
                match parts.into_def() {
                    Some(d) => {
                        let ghost old_f = fn_defs@;
                        fn_defs.push(d);
                        assert(fn_defs@.map_values(|x: FnDef| def_view(x)) =~= old_f.map_values(|x: FnDef| def_view(x)).push(def_view(d)));
                    },
                    None => return None,
                }
            } else {
                let sig = parts.into_signature();
                let ghost old_s = fn_signatures@;
                fn_signatures.push(sig);
                assert(fn_signatures@.map_values(|x: FnSignatureDef| sig_view(x)) =~= old_s.map_values(|x: FnSignatureDef| sig_view(x)).push(sig_view(sig)));
            }
        } else {
            assert(!spec_trait_member_ok(ch@[j as int], *file));
            return None;
        }
        j = j + 1;
    }
    Some(TraitDef { pub_kw, name, generics, where_clause, fn_defs, fn_signatures, types })
}

/// `pub? mod name`
pub fn parse_mod_item(t: &ParseTree, file: &File) -> (r: Option<Mod>)
    ensures
        match r {
            Some(m) => spec_mod(*t, *file) == Some(mod_view(m)),
            None => spec_mod(*t, *file) is None,
        },
{
    let ch = &t.children;
    if ch.len() >= 3 && ch[0].rule == Rule::PubKw && ch[1].rule == Rule::ModKw {
        let pub_kw = Some(Span::new(ch[0].range, file.clone(), ()));
        Some(Mod { pub_kw, name: parse_name(&ch[2], file) })
    } else if ch.len() >= 2 && ch[0].rule == Rule::ModKw {
        Some(Mod { pub_kw: None, name: parse_name(&ch[1], file) })
    } else {
        None
    }
}

/// Whether every item of `ch` is well formed, so that the module builds.
pub open spec fn mods_well_formed(ch: Seq<ParseTree>, f: File) -> bool {
    forall|i: int| 0 <= i < ch.len() && (#[trigger] ch[i]).rule == Rule::ModItem ==> spec_mod(ch[i], f) is Some
}

/// The declarations other than `mod`s among the items `ch[0..end]`, each
/// kind in source order.
pub open spec fn spec_items(ch: Seq<ParseTree>, end: int, f: File) -> ItemsV
    decreases end,
{
    if end <= 0 || end > ch.len() {
        ItemsV { fns: Seq::empty(), trait_defs: Seq::empty(), trait_impls: Seq::empty(), impls: Seq::empty() }
    } else {
        let p = spec_items(ch, end - 1, f);
        let t = ch[end - 1];
        match t.rule {
            Rule::FnItem => ItemsV { fns: p.fns.push(spec_fn(t.children@, f)), ..p },
            Rule::TraitItem => ItemsV { trait_defs: p.trait_defs.push(spec_trait_def(t.children@, f)), ..p },
            Rule::ImplTraitItem => ItemsV { trait_impls: p.trait_impls.push(spec_trait_impl(t.children@, f)), ..p },
            Rule::ImplItem => ItemsV { impls: p.impls.push(spec_impl(t.children@, f)), ..p },
            _ => p,
        }
    }
}

/// A top-level item is well formed: the end of input, or a declaration
/// of one of the five kinds whose parts are all well formed.
pub open spec fn spec_item_ok(t: ParseTree, f: File) -> bool {
    match t.rule {
        Rule::Eoi => true,
        Rule::ModItem => spec_mod(t, f) is Some,
        Rule::FnItem => spec_fn_ok(t.children@, f) && body_index(t.children@) < t.children@.len(),
        Rule::TraitItem => spec_trait_item_ok(t.children@, f),
        Rule::ImplTraitItem => spec_trait_impl_ok(t.children@, f),
        Rule::ImplItem => spec_impl_ok(t.children@, f),
        _ => false,
    }
}

/// The model of a built file: its `mod` declarations and its other items.
pub open spec fn module_view(m: AstModule) -> (Seq<ModV>, ItemsV) {
    (mods_view(m.mods@), items_view(m))
}

/// What building the items `ch` gives: `None` unless every item is well
/// formed.
pub open spec fn spec_module(ch: Seq<ParseTree>, f: File) -> Option<(Seq<ModV>, ItemsV)> {
    if forall|i: int| 0 <= i < ch.len() ==> spec_item_ok(#[trigger] ch[i], f) {
        Some((spec_mods(ch, f), spec_items(ch, ch.len() as int, f)))
    } else {
        None
    }
}

/// Builds the declarations of a source file from the children of its
/// `module` node: `mod` declarations, functions, traits, and inherent and
/// trait implementations, each list in source order.
#[verifier::spinoff_prover]
pub fn parse_module(t: &ParseTree, file: &File) -> (r: Option<AstModule>)
    ensures
        r matches Some(m) ==> {
            &&& mods_view(m.mods@) == spec_mods(t.children@, *file)
            &&& m.fns@.len() == count_rule(t.children@, Rule::FnItem)
            &&& m.trait_defs@.len() == count_rule(t.children@, Rule::TraitItem)
            &&& m.trait_impls@.len() == count_rule(t.children@, Rule::ImplTraitItem)
            &&& m.impls@.len() == count_rule(t.children@, Rule::ImplItem)
        },
        r is Some ==> mods_well_formed(t.children@, *file),
        r matches Some(m) ==> items_view(m) == spec_items(t.children@, t.children@.len() as int, *file),
        match r {
            Some(m) => spec_module(t.children@, *file) == Some(module_view(m)),
            None => spec_module(t.children@, *file) is None,
        },
        r is Some <==> forall|i: int| 0 <= i < t.children@.len() ==> spec_item_ok(#[trigger] t.children@[i], *file),
{
    let ch = &t.children;
    let mut mods: Vec<Mod> = Vec::new();
    let mut fns: Vec<FnDef> = Vec::new();
    let mut trait_defs: Vec<TraitDef> = Vec::new();
    let mut trait_impls: Vec<TraitImpl> = Vec::new();
    let mut impls: Vec<Impl> = Vec::new();
    let mut i: usize = 0;
    assert(ch@.subrange(0, 0) =~= Seq::<ParseTree>::empty());
    assert(mods_view(mods@) =~= Seq::empty());
    assert(fns@.map_values(|x: FnDef| def_view(x)) =~= Seq::empty());
    assert(trait_defs@.map_values(|x: TraitDef| trait_def_view(x)) =~= Seq::empty());
    assert(trait_impls@.map_values(|x: TraitImpl| trait_impl_view(x)) =~= Seq::empty());
    assert(impls@.map_values(|x: Impl| impl_view(x)) =~= Seq::empty());
    while i < ch.len()
        invariant
            ch@ == t.children@,
            i <= ch@.len(),
            mods_view(mods@) == spec_mods(ch@.subrange(0, i as int), *file),
            fns@.len() == count_rule(ch@.subrange(0, i as int), Rule::FnItem),
            trait_defs@.len() == count_rule(ch@.subrange(0, i as int), Rule::TraitItem),
            trait_impls@.len() == count_rule(ch@.subrange(0, i as int), Rule::ImplTraitItem),
            impls@.len() == count_rule(ch@.subrange(0, i as int), Rule::ImplItem),
            mods_well_formed(ch@.subrange(0, i as int), *file),
            forall|q: int| 0 <= q < i ==> spec_item_ok(#[trigger] ch@[q], *file),
            (ItemsV {
                fns: fns@.map_values(|x: FnDef| def_view(x)),
                trait_defs: trait_defs@.map_values(|x: TraitDef| trait_def_view(x)),
                trait_impls: trait_impls@.map_values(|x: TraitImpl| trait_impl_view(x)),
                impls: impls@.map_values(|x: Impl| impl_view(x)),
            }) == spec_items(ch@, i as int, *file),
        decreases ch@.len() - i,
    {
        proof {
            assert(ch@.subrange(0, i + 1).drop_last() =~= ch@.subrange(0, i as int));
        }
        let item = &ch[i];
        match item.rule {
            Rule::Eoi => {},
            Rule::ModItem => match parse_mod_item(item, file) {
                Some(m) => {
                    let ghost old_m = mods@;
                    mods.push(m);
                    assert(mods_view(mods@) =~= mods_view(old_m).push(mod_view(m)));
                },
                None => {
                    assert(!spec_item_ok(ch@[i as int], *file));
                    return None;
                },
            },
            Rule::FnItem => match parse_fn(item, file) {
                Some(p) => match p.into_def() {
                    Some(d) => {
                        let ghost o = fns@;
                        fns.push(d);
                        assert(fns@.map_values(|x: FnDef| def_view(x)) =~= o.map_values(|x: FnDef| def_view(x)).push(def_view(d)));
                    },
                    None => {
                        assert(!spec_item_ok(ch@[i as int], *file));
                        return None;
                    },
                },
                None => {
                    assert(!spec_item_ok(ch@[i as int], *file));
                    return None;
                },
            },
            Rule::TraitItem => match parse_trait_item(item, file) {
                Some(d) => {
                    let ghost o = trait_defs@;
                    trait_defs.push(d);
                    assert(trait_defs@.map_values(|x: TraitDef| trait_def_view(x)) =~= o.map_values(|x: TraitDef| trait_def_view(x)).push(trait_def_view(d)));
                },
                None => {
                    assert(!spec_item_ok(ch@[i as int], *file));
                    return None;
                },
            },
            Rule::ImplTraitItem => match parse_trait_impl(item, file) {
                Some(d) => {
                    let ghost o = trait_impls@;
                    trait_impls.push(d);
                    assert(trait_impls@.map_values(|x: TraitImpl| trait_impl_view(x)) =~= o.map_values(|x: TraitImpl| trait_impl_view(x)).push(trait_impl_view(d)));
                },
                None => {
                    assert(!spec_item_ok(ch@[i as int], *file));
                    return None;
                },
            },
            Rule::ImplItem => match parse_impl(item, file) {
                Some(d) => {
                    let ghost o = impls@;
                    impls.push(d);
                    assert(impls@.map_values(|x: Impl| impl_view(x)) =~= o.map_values(|x: Impl| impl_view(x)).push(impl_view(d)));
                },
                None => {
                    assert(!spec_item_ok(ch@[i as int], *file));
                    return None;
                },
            },
            _ => {
                assert(!spec_item_ok(ch@[i as int], *file));
                return None;
            },
        }
        proof {
            let p = ch@.subrange(0, i + 1);
            assert forall|q: int| 0 <= q < p.len() && (#[trigger] p[q]).rule == Rule::ModItem implies spec_mod(p[q], *file) is Some by {
                if q < i {
                    assert(p[q] == ch@.subrange(0, i as int)[q]);
                }
            }
        }
        i = i + 1;
    }
    assert(ch@.subrange(0, ch@.len() as int) =~= ch@);
    Some(AstModule { mods, fns, trait_defs, trait_impls, impls })
}

} // verus!
