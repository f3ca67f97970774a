use vstd::prelude::*;

use crate::ast::{Impl, TraitDef, TraitImpl};
use crate::span::Span;

verus! {

/// A path of module names from the root of a tree.
pub type ModulePath = Vec<String>;

/// The names bound in one scope of the type database, each to its node,
/// held in a `hashbrown` map.
#[derive(Debug)]
#[verifier::external_body]
pub struct NodeMap {
    map: hashbrown::HashMap<String, TypeDBNode>,
}

/// The names a node map binds.
pub uninterp spec fn node_map_keys(m: NodeMap) -> Set<Seq<char>>;

/// Relies on `hashbrown::HashMap::new`: a new map binds nothing.
#[verifier::external_body]
fn node_map_new() -> (r: NodeMap)
    ensures
        node_map_keys(r) == Set::<Seq<char>>::empty(),
{
    NodeMap { map: hashbrown::HashMap::new() }
}

/// Storage for what type checking learns of the program: a scope of named
/// nodes.
#[derive(Debug)]
pub struct TypeDB {
    pub children_dbs: NodeMap,
}

impl TypeDB {
    /// The database of a program before anything is known of it.
    pub fn new_root() -> (r: TypeDB)
        ensures
            node_map_keys(r.children_dbs) == Set::<Seq<char>>::empty(),
    {
        TypeDB { children_dbs: node_map_new() }
    }
}

/// What a name of the database stands for.
#[derive(Debug)]
pub enum TypeDBNode {
    DB(TypeDB),
    Reference(ModulePath),
    Type(Type),
    Trait(TraitDef),
}

/// A type with its generic parameters and the implementations known of it.
#[derive(Debug)]
pub struct Type {
    pub generics: Vec<Span<String>>,
    pub impls: Vec<Impl>,
    pub trait_impls: Vec<(ModulePath, TraitImpl)>,
}

impl Type {
    pub fn add_impl(&mut self, i: Impl)
        ensures
            final(self).impls@ == old(self).impls@.push(i),
            final(self).generics == old(self).generics,
            final(self).trait_impls == old(self).trait_impls,
    {
        self.impls.push(i)
    }

    /// Records an implementation of the trait found at `path`.
    pub fn add_trait_impl(&mut self, path: ModulePath, i: TraitImpl)
        ensures
            final(self).trait_impls@ == old(self).trait_impls@.push((path, i)),
            final(self).generics == old(self).generics,
            final(self).impls == old(self).impls,
    {
        self.trait_impls.push((path, i))
    }
}

} // verus!
