use vstd::prelude::*;

use crate::ast::{loc_of, AstModule, Loc, Mod};
use crate::error::{Error, ErrorCode};
use crate::fs::{dir_prefix, root_dir, File, Fs};
use crate::items::{mod_view, module_view, mods_view, parse_module, spec_module, ModV};
use crate::tree::ParseTree;

verus! {

/// A module: the declarations of its file, its child modules by name with
/// their `pub` marker, and whether it may use the compiler's builtins.
#[derive(Debug)]
pub struct Module {
    pub ast: AstModule,
    pub children: Vec<ModuleChild>,
    pub allow_builtins: bool,
}

/// A child module under its declared name.
#[derive(Debug)]
pub struct ModuleChild {
    pub name: String,
    pub is_pub: bool,
    pub module: Module,
}

/// A program: its root module and the libraries bound under their names.
#[derive(Debug)]
pub struct ModuleTree {
    pub externlibs: Vec<(String, ModuleTree)>,
    pub root: Module,
}


/// The file a module found at path `p` is read as: the first one stored
/// under that path.
pub open spec fn found_file(fs: Fs, p: Seq<char>) -> File {
    File::Path(fs.files@[fs.index_of(p)].path)
}

/// The first error that resolving the declarations `mods` meets, in a file
/// `f` whose module is `current`, with `depth` files above it; `None` when
/// the whole tree below resolves. Declarations are resolved in order, each
/// one all the way down before the next.
pub open spec fn tree_error(fs: Fs, f: File, current: Seq<char>, mods: Seq<ModV>, depth: nat) -> Option<(ErrorCode, Loc)>
    decreases fs.files@.len() - depth, mods.len(),
{
    if mods.len() == 0 {
        None
    } else {
        match tree_error(fs, f, current, mods.drop_last(), depth) {
            Some(e) => Some(e),
            None => decl_error(fs, f, current, mods.last(), depth),
        }
    }
}

/// The first error that resolving the one declaration `m` meets: no file
/// for it, a file the grammar rejected, a nesting deeper than the project
/// has files (a cycle), a tree that is no well-formed module, or the first
/// error of its own declarations, looked up from its own file.
pub open spec fn decl_error(fs: Fs, f: File, current: Seq<char>, m: ModV, depth: nat) -> Option<(ErrorCode, Loc)>
    decreases fs.files@.len() - depth, 0nat,
{
    let loc = m.name.loc;
    match fs.child_in(root_dir(f), current, m.name.name) {
        None => Some((ErrorCode::ModuleNotFoundError, loc)),
        Some(p) => match fs.files@[fs.index_of(p)].parsed {
            Err(_) => Some((ErrorCode::SyntaxError, loc)),
            Ok(t) => if depth >= fs.files@.len() {
                Some((ErrorCode::ModuleCycleError, loc))
            } else {
                match spec_module(t.children@, found_file(fs, p)) {
                    None => Some((ErrorCode::MalformedTreeError, loc)),
                    Some(mv) => tree_error(fs, found_file(fs, p), m.name.name, mv.0, depth + 1),
                }
            },
        },
    }
}

/// Some child of `cs` is named `name`.
pub open spec fn has_child(cs: Seq<ModuleChild>, name: Seq<char>) -> bool {
    exists|k: int| 0 <= k < cs.len() && (#[trigger] cs[k]).name@ == name
}

/// `c` stands for one of `mods`: same name, same `pub` marker.
pub open spec fn declared(mods: Seq<ModV>, c: ModuleChild) -> bool {
    exists|j: int| 0 <= j < mods.len() && (#[trigger] mods[j]).name.name == c.name@ && mods[j].is_pub == c.is_pub
}

/// Child `c` of a module in file `f` (module `current`) was built from the
/// file found for its name, and its own tree is built likewise.
pub open spec fn child_built(fs: Fs, f: File, current: Seq<char>, b: bool, c: ModuleChild, depth: nat) -> bool
    decreases fs.files@.len() - depth, 0nat,
{
    match fs.child_in(root_dir(f), current, c.name@) {
        Some(p) => depth < fs.files@.len() && match fs.files@[fs.index_of(p)].parsed {
            Ok(t) => spec_module(t.children@, found_file(fs, p)) == Some(module_view(c.module.ast))
                && built(fs, found_file(fs, p), c.name@, b, c.module, depth + 1),
            Err(_) => false,
        },
        None => false,
    }
}

/// Module `m` of file `f` (module `current`) is the tree its declarations
/// call for: one child per declared name, with the declaration's `pub`
/// marker, each built from the file found for it; `b` as its builtins flag,
/// and so on all the way down.
pub open spec fn built(fs: Fs, f: File, current: Seq<char>, b: bool, m: Module, depth: nat) -> bool
    decreases fs.files@.len() - depth, 1nat,
{
    &&& m.allow_builtins == b
    &&& forall|j: int| 0 <= j < m.ast.mods@.len() ==> has_child(m.children@, #[trigger] mods_view(m.ast.mods@)[j].name.name)
    &&& forall|k: int| 0 <= k < m.children@.len() ==> declared(mods_view(m.ast.mods@), #[trigger] m.children@[k])
    &&& forall|k: int| 0 <= k < m.children@.len() ==> child_built(fs, f, current, b, #[trigger] m.children@[k], depth)
}

/// The error met first decides: when the declarations before `mods[j]`
/// resolve and `mods[j]` meets an error, however deep below, that error is
/// the tree's.
pub proof fn lemma_first_error_decides(fs: Fs, f: File, current: Seq<char>, mods: Seq<ModV>, depth: nat, j: int)
    requires
        0 <= j < mods.len(),
        tree_error(fs, f, current, mods.take(j), depth) is None,
        decl_error(fs, f, current, mods[j], depth) is Some,
    ensures
        tree_error(fs, f, current, mods, depth) == decl_error(fs, f, current, mods[j], depth),
    decreases mods.len() - j,
{
    assert(mods.take(j + 1).drop_last() =~= mods.take(j));
    lemma_error_prefix(fs, f, current, mods, depth, j + 1);
}

/// An error met in a prefix of the declarations is the error of them all.
pub proof fn lemma_error_prefix(fs: Fs, f: File, current: Seq<char>, mods: Seq<ModV>, depth: nat, i: int)
    requires
        0 < i <= mods.len(),
        tree_error(fs, f, current, mods.take(i), depth) is Some,
    ensures
        tree_error(fs, f, current, mods, depth) == tree_error(fs, f, current, mods.take(i), depth),
    decreases mods.len() - i,
{
    if i < mods.len() {
        assert(mods.take(i + 1).drop_last() =~= mods.take(i));
        lemma_error_prefix(fs, f, current, mods, depth, i + 1);
    } else {
        assert(mods.take(i) =~= mods);
    }
}

/// Whether `path`, a sequence of module names, leads from `m` to a module
/// through public children only.
pub open spec fn reachable(m: Module, path: Seq<Seq<char>>) -> bool
    decreases path.len(),
{
    if path.len() == 0 {
        true
    } else {
        exists|i: int| 0 <= i < m.children@.len() && (#[trigger] m.children@[i]).name@ == path[0]
            && m.children@[i].is_pub && reachable(m.children@[i].module, path.drop_first())
    }
}

/// Children are keyed by name: no two share one.
pub open spec fn names_unique(m: Module) -> bool {
    forall|i: int, j: int| 0 <= i < j < m.children@.len()
        ==> (#[trigger] m.children@[i]).name@ != (#[trigger] m.children@[j]).name@
}

/// Every module of the tree keys its children by distinct names.
pub open spec fn well_formed(m: Module) -> bool
    decreases m,
{
    names_unique(m) && forall|i: int| 0 <= i < m.children@.len() ==> well_formed(#[trigger] m.children@[i].module)
}

/// A module that is not public hides its children, public ones included,
/// from everything outside it.
pub proof fn lemma_private_hides_children(m: Module, i: int, rest: Seq<Seq<char>>)
    requires
        names_unique(m),
        0 <= i < m.children@.len(),
        !m.children@[i].is_pub,
    ensures
        !reachable(m, seq![m.children@[i].name@] + rest),
{
    let path = seq![m.children@[i].name@] + rest;
    assert(path[0] == m.children@[i].name@);
    if reachable(m, path) {
        let k = choose|k: int| 0 <= k < m.children@.len() && (#[trigger] m.children@[k]).name@ == path[0]
            && m.children@[k].is_pub && reachable(m.children@[k].module, path.drop_first());
        if k < i {
            assert(m.children@[k].name@ != m.children@[i].name@);
        } else if i < k {
            assert(m.children@[i].name@ != m.children@[k].name@);
        }
    }
}

impl Module {
    /// The index of the child named `name`.
    pub fn child_index(&self, name: &String) -> (r: Option<usize>)
        ensures
            match r {
                Some(i) => i < self.children@.len() && self.children@[i as int].name@ == name@,
                None => forall|i: int| 0 <= i < self.children@.len() ==> (#[trigger] self.children@[i]).name@ != name@,
            },
    {
        let mut i: usize = 0;
        while i < self.children.len()
            invariant
                i <= self.children@.len(),
                forall|j: int| 0 <= j < i ==> (#[trigger] self.children@[j]).name@ != name@,
            decreases self.children@.len() - i,
        {
            if self.children[i].name == *name {
                return Some(i);
            }
            i = i + 1;
        }
        None
    }

    /// Whether `path` leads from this module to another through public
    /// children only: what code outside this module may name.
    pub fn is_reachable(&self, path: &Vec<String>) -> (r: bool)
        requires
            well_formed(*self),
        ensures
            r == reachable(*self, path@.map_values(|s: String| s@)),
    {
        assert(path@.map_values(|s: String| s@).subrange(0, path@.len() as int) =~= path@.map_values(|s: String| s@));
        self.reachable_from(path, 0)
    }

    fn reachable_from(&self, path: &Vec<String>, i: usize) -> (r: bool)
        requires
            well_formed(*self),
            i <= path@.len(),
        ensures
            r == reachable(*self, path@.map_values(|s: String| s@).subrange(i as int, path@.len() as int)),
        decreases path@.len() - i,
    {
        let ghost all = path@.map_values(|s: String| s@);
        let ghost names = all.subrange(i as int, path@.len() as int);
        if i == path.len() {
            return true;
        }
        proof {
            assert(names.drop_first() =~= all.subrange(i + 1, path@.len() as int));
            assert(names[0] == path@[i as int]@);
        }
        match self.child_index(&path[i]) {
            Some(k) => {
                let c = &self.children[k];
                proof {
                    assert(well_formed(c.module));
                }
                if !c.is_pub {
                    proof {
                        if reachable(*self, names) {
                            let q = choose|q: int| 0 <= q < self.children@.len()
                                && (#[trigger] self.children@[q]).name@ == names[0] && self.children@[q].is_pub
                                && reachable(self.children@[q].module, names.drop_first());
                            assert(q != k);
                        }
                    }
                    return false;
                }
                let r = c.module.reachable_from(path, i + 1);
                proof {
                    if !r && reachable(*self, names) {
                        let q = choose|q: int| 0 <= q < self.children@.len()
                            && (#[trigger] self.children@[q]).name@ == names[0] && self.children@[q].is_pub
                            && reachable(self.children@[q].module, names.drop_first());
                        if q != k {
                            if q < k {
                                assert(self.children@[q].name@ != self.children@[k as int].name@);
                            } else {
                                assert(self.children@[k as int].name@ != self.children@[q].name@);
                            }
                        }
                    }
                }
                r
            },
            None => false,
        }
    }
}

/// No two children share a name, and each child's own tree is well formed.
pub open spec fn children_ok(s: Seq<ModuleChild>) -> bool {
    &&& forall|i: int, j: int| 0 <= i < j < s.len() ==> (#[trigger] s[i]).name@ != (#[trigger] s[j]).name@
    &&& forall|i: int| 0 <= i < s.len() ==> well_formed(#[trigger] s[i].module)
}

/// How a module is summed up: ` builtin` when it may use builtins, then
/// its children in braces, each as `pub `-marked name followed by its own
/// summary, separated by `, `.
pub open spec fn summary_of(m: Module) -> Seq<char>
    decreases m, 1nat,
{
    (if m.allow_builtins { seq![' ', 'b', 'u', 'i', 'l', 't', 'i', 'n'] } else { Seq::empty() })
        + seq![' ', '{'] + children_summary(m.children@, m.children@.len() as int) + seq!['}']
}

/// The summaries of the children `cs[0..n]`, separated by `, `.
pub open spec fn children_summary(cs: Seq<ModuleChild>, n: int) -> Seq<char>
    decreases cs, n,
{
    if n <= 0 || n > cs.len() {
        Seq::empty()
    } else {
        let c = cs[n - 1];
        children_summary(cs, n - 1) + (if n > 1 { seq![',', ' '] } else { Seq::empty() })
            + (if c.is_pub { seq!['p', 'u', 'b', ' '] } else { Seq::empty() }) + c.name@ + summary_of(c.module)
    }
}

impl Module {
    /// A one-line summary of the module tree, as `summary_of` states it.
    pub fn summary(&self) -> (r: String)
        ensures
            r@ == summary_of(*self),
        decreases *self,
    {
        proof {
            reveal_strlit(" builtin");
            reveal_strlit(" {");
            reveal_strlit("}");
            reveal_strlit(", ");
            reveal_strlit("pub ");
        }
        let mut r = if self.allow_builtins { String::from_str(" builtin") } else { String::new() };
        r.append(" {");
        let ghost head = r@;
        let mut i: usize = 0;
        while i < self.children.len()
            invariant
                i <= self.children@.len(),
                head == (if self.allow_builtins { seq![' ', 'b', 'u', 'i', 'l', 't', 'i', 'n'] } else { Seq::<char>::empty() }) + seq![' ', '{'],
                r@ == head + children_summary(self.children@, i as int),
            decreases self.children@.len() - i,
        {
            let c = &self.children[i];
            proof {
                reveal_strlit(", ");
                reveal_strlit("pub ");
            }
            let ghost before = r@;
            if i > 0 {
                r.append(", ");
            }
            if c.is_pub {
                r.append("pub ");
            }
            r.append(c.name.as_str());
            proof {
                assert(decreases_to!(*self => self.children@[i as int].module));
            }
            let sub = c.module.summary();
            r.append(sub.as_str());
            proof {
                let sep = if i > 0 { seq![',', ' '] } else { Seq::<char>::empty() };
                let pp = if c.is_pub { seq!['p', 'u', 'b', ' '] } else { Seq::<char>::empty() };
                assert(children_summary(self.children@, i + 1)
                    == children_summary(self.children@, i as int) + sep + pp + c.name@ + summary_of(c.module));
                assert(r@ =~= head + children_summary(self.children@, i + 1));
            }
            i = i + 1;
        }
        proof {
            reveal_strlit("}");
        }
        r.append("}");
        assert(r@ =~= summary_of(*self));
        r
    }
}

/// Puts `module` under `name`, in place of a child of that name if there is
/// one.
fn insert_child(children: &mut Vec<ModuleChild>, name: String, is_pub: bool, module: Module)
    requires
        children_ok(old(children)@),
        well_formed(module),
    ensures
        children_ok(final(children)@),
        exists|i: int| 0 <= i < final(children)@.len() && final(children)@[i] == (ModuleChild { name, is_pub, module }),
        forall|i: int| 0 <= i < old(children)@.len() && (#[trigger] old(children)@[i]).name@ != name@
            ==> final(children)@.contains(old(children)@[i]),
        forall|i: int| 0 <= i < final(children)@.len() ==> (#[trigger] final(children)@[i]).name@ == name@
            || old(children)@.contains(final(children)@[i]),
{
    let ghost child = ModuleChild { name, is_pub, module };
    let mut i: usize = 0;
    while i < children.len()
        invariant
            i <= children@.len(),
            children@ == old(children)@,
            children_ok(old(children)@),
            well_formed(module),
            child == (ModuleChild { name, is_pub, module }),
            forall|j: int| 0 <= j < i ==> (#[trigger] children@[j]).name@ != name@,
        decreases children@.len() - i,
    {
        if children[i].name == name {
            let ghost before = children@;
            children.set(i, ModuleChild { name, is_pub, module });
            proof {
                assert(children@[i as int] == child);
                assert forall|j: int| 0 <= j < before.len() && (#[trigger] before[j]).name@ != name@
                    implies children@.contains(before[j]) by {
                    assert(j != i);
                    assert(children@[j] == before[j]);
                }
                assert forall|j: int| 0 <= j < children@.len() && j != i implies before.contains(#[trigger] children@[j]) by {
                    assert(children@[j] == before[j]);
                }
                assert forall|j: int| 0 <= j < children@.len() implies (#[trigger] children@[j]).name@ == before[j].name@
                    && well_formed(children@[j].module) by {
                    if j != i {
                        assert(children@[j] == before[j]);
                    }
                }
                assert forall|a: int, b: int| 0 <= a < b < children@.len() implies (#[trigger] children@[a]).name@ != (#[trigger] children@[b]).name@ by {
                    assert(children@[a].name@ == before[a].name@);
                    assert(children@[b].name@ == before[b].name@);
                }
            }
            return;
        }
        i = i + 1;
    }
    let ghost before = children@;
    children.push(ModuleChild { name, is_pub, module });
    proof {
        assert(children@[before.len() as int] == child);
        assert forall|j: int| 0 <= j < before.len() && (#[trigger] before[j]).name@ != name@
            implies children@.contains(before[j]) by {
            assert(children@[j] == before[j]);
        }
        assert forall|j: int| 0 <= j < before.len() implies before.contains(#[trigger] children@[j]) by {
            assert(children@[j] == before[j]);
        }
        assert forall|a: int, b: int| 0 <= a < b < children@.len() implies (#[trigger] children@[a]).name@ != (#[trigger] children@[b]).name@ by {
            assert(children@[a] == before[a]);
            if b < before.len() {
                assert(children@[b] == before[b]);
            }
        }
        assert forall|j: int| 0 <= j < children@.len() implies well_formed(#[trigger] children@[j].module) by {
            if j < before.len() {
                assert(children@[j] == before[j]);
            }
        }
    }
}

/// Builds the module of `file`, whose module is `module_name` and whose
/// declarations are `ast`: each declared child module is found, its file's
/// tree built and its own children resolved in turn, from its own file, in
/// declaration order. The first error aborts the whole build and is the
/// one returned.
pub fn build_tree(fs: &Fs, file: &File, module_name: &str, ast: AstModule, allow_builtins: bool) -> (r: Result<Module, Error>)
    ensures
        match r {
            Ok(m) => tree_error(*fs, *file, module_name@, mods_view(ast.mods@), 0) is None
                && m.ast == ast && well_formed(m)
                && built(*fs, *file, module_name@, allow_builtins, m, 0),
            Err(e) => tree_error(*fs, *file, module_name@, mods_view(ast.mods@), 0) == Some((e.code, loc_of(e.span))),
        },
{
    build_at(fs, file, module_name, ast, allow_builtins, 0)
}

#[verifier::spinoff_prover]
fn build_at(fs: &Fs, file: &File, module_name: &str, ast: AstModule, allow_builtins: bool, depth: usize) -> (r: Result<Module, Error>)
    requires
        depth <= fs.files@.len(),
    ensures
        match r {
            Ok(m) => tree_error(*fs, *file, module_name@, mods_view(ast.mods@), depth as nat) is None
                && m.ast == ast && well_formed(m)
                && built(*fs, *file, module_name@, allow_builtins, m, depth as nat),
            Err(e) => tree_error(*fs, *file, module_name@, mods_view(ast.mods@), depth as nat) == Some((e.code, loc_of(e.span))),
        },
    decreases fs.files@.len() - depth,
{
    let ghost mods = mods_view(ast.mods@);
    let ghost cur = module_name@;
    let mut children: Vec<ModuleChild> = Vec::new();
    let mut i: usize = 0;
    assert(mods.take(0) =~= Seq::<ModV>::empty());
    while i < ast.mods.len()
        invariant
            i <= ast.mods@.len(),
            mods == mods_view(ast.mods@),
            cur == module_name@,
            depth <= fs.files@.len(),
            children_ok(children@),
            tree_error(*fs, *file, cur, mods.take(i as int), depth as nat) is None,
            forall|j: int| 0 <= j < i ==> has_child(children@, #[trigger] mods[j].name.name),
            forall|k: int| 0 <= k < children@.len() ==> declared(mods, #[trigger] children@[k]),
            forall|k: int| 0 <= k < children@.len() ==> child_built(*fs, *file, cur, allow_builtins, #[trigger] children@[k], depth as nat),
        decreases ast.mods@.len() - i,
    {
        let decl = &ast.mods[i];
        let ghost md = mods[i as int];
        proof {
            assert(md == mod_view(*decl));
            assert(mods.take(i + 1).drop_last() =~= mods.take(i as int));
            assert(mods.take(i + 1).last() == md);
        }
        let found = match fs.find_child(file, module_name, &decl.name) {
            Ok(f) => f,
            Err(e) => {
                proof {
                    lemma_first_error_decides(*fs, *file, cur, mods, depth as nat, i as int);
                }
                return Err(e);
            },
        };
        let ghost p = found->Path_0@;
        proof {
            fs.lemma_first_existing(crate::fs::child_candidates(*file, module_name@, decl.name.content@));
        }
        let idx = match &found {
            File::Path(path) => match fs.position(path) {
                Some(k) => k,
                None => {
                    assert(false);
                    return Err(decl.name.as_error(ErrorCode::ModuleNotFoundError, decl.name.content.clone()));
                },
            },
            File::Repl(_) => {
                assert(false);
                return Err(decl.name.as_error(ErrorCode::ModuleNotFoundError, decl.name.content.clone()));
            },
        };
        let child_file = File::Path(fs.files[idx].path.clone());
        assert(child_file == found_file(*fs, p));
        let tree: &ParseTree = match &fs.files[idx].parsed {
            Ok(t) => t,
            Err(msg) => {
                proof {
                    lemma_first_error_decides(*fs, *file, cur, mods, depth as nat, i as int);
                }
                return Err(decl.name.as_error(ErrorCode::SyntaxError, msg.clone()));
            },
        };
        if depth >= fs.files.len() {
            proof {
                lemma_first_error_decides(*fs, *file, cur, mods, depth as nat, i as int);
            }
            return Err(decl.name.as_error(
                ErrorCode::ModuleCycleError,
                String::from_str("module declarations nest deeper than the project has files: they form a cycle"),
            ));
        }
        let child_ast = match parse_module(tree, &child_file) {
            Some(a) => a,
            None => {
                proof {
                    lemma_first_error_decides(*fs, *file, cur, mods, depth as nat, i as int);
                }
                return Err(decl.name.as_error(ErrorCode::MalformedTreeError, decl.name.content.clone()));
            },
        };
        let module = match build_at(fs, &child_file, decl.name.content.as_str(), child_ast, allow_builtins, depth + 1) {
            Ok(m) => m,
            Err(e) => {
                proof {
                    lemma_first_error_decides(*fs, *file, cur, mods, depth as nat, i as int);
                }
                return Err(e);
            },
        };
        let ghost before = children@;
        let ghost child = ModuleChild { name: decl.name.content, is_pub: decl.pub_kw is Some, module };
        proof {
            assert(declared(mods, child));
            assert(child_built(*fs, *file, cur, allow_builtins, child, depth as nat));
        }
        insert_child(&mut children, decl.name.content.clone(), decl.pub_kw.is_some(), module);
        proof {
            assert forall|k: int| 0 <= k < children@.len() implies declared(mods, #[trigger] children@[k])
                && child_built(*fs, *file, cur, allow_builtins, children@[k], depth as nat) by {
                if children@[k].name@ != md.name.name {
                    assert(before.contains(children@[k]));
                    let q = choose|q: int| 0 <= q < before.len() && before[q] == children@[k];
                    assert(declared(mods, before[q]));
                    assert(child_built(*fs, *file, cur, allow_builtins, before[q], depth as nat));
                } else {
                    let w = choose|w: int| 0 <= w < children@.len() && children@[w] == child;
                    if w != k {
                        if w < k {
                            assert(children@[w].name@ != children@[k].name@);
                        } else {
                            assert(children@[k].name@ != children@[w].name@);
                        }
                    }
                }
            }
            assert forall|j: int| 0 <= j < i + 1 implies has_child(children@, #[trigger] mods[j].name.name) by {
                if mods[j].name.name == md.name.name {
                    let w = choose|w: int| 0 <= w < children@.len() && children@[w] == child;
                    assert(children@[w].name@ == mods[j].name.name);
                } else {
                    assert(has_child(before, mods[j].name.name));
                    let q = choose|q: int| 0 <= q < before.len() && (#[trigger] before[q]).name@ == mods[j].name.name;
                    assert(children@.contains(before[q]));
                    let w = choose|w: int| 0 <= w < children@.len() && children@[w] == before[q];
                    assert(children@[w].name@ == mods[j].name.name);
                }
            }
        }
        i = i + 1;
    }
    let m = Module { ast, children, allow_builtins };
    proof {
        assert(mods.take(mods.len() as int) =~= mods);
        assert(names_unique(m));
        assert(forall|k: int| 0 <= k < m.children@.len() ==> well_formed(#[trigger] m.children@[k].module));
        assert(well_formed(m));
        assert(built(*fs, *file, cur, allow_builtins, m, depth as nat));
    }
    Ok(m)
}


/// Every tree of the forest keys its children by distinct names.
pub open spec fn tree_well_formed(t: ModuleTree) -> bool
    decreases t,
{
    &&& well_formed(t.root)
    &&& libs_unique(t.externlibs@)
    &&& forall|i: int| 0 <= i < t.externlibs@.len() ==> tree_well_formed(#[trigger] t.externlibs@[i].1)
}

/// The first library bound under `name`.
pub open spec fn lib_index(t: ModuleTree, name: Seq<char>) -> Option<int> {
    if exists|i: int| 0 <= i < t.externlibs@.len() && (#[trigger] t.externlibs@[i]).0@ == name {
        Some(choose|i: int| 0 <= i < t.externlibs@.len() && (#[trigger] t.externlibs@[i]).0@ == name
            && forall|j: int| 0 <= j < i ==> (#[trigger] t.externlibs@[j]).0@ != name)
    } else {
        None
    }
}

/// Whether a qualified path names a module of the program: a path whose
/// first segment is a library's name goes into that library, any other
/// into the root; either way through public modules only.
pub open spec fn tree_reachable(t: ModuleTree, path: Seq<Seq<char>>) -> bool {
    if path.len() > 0 && lib_index(t, path[0]) is Some {
        reachable(t.externlibs@[lib_index(t, path[0])->Some_0].1.root, path.drop_first())
    } else {
        reachable(t.root, path)
    }
}

/// A library to load for a program: the name it is bound under, the path
/// of its entry file, and whether it may use the compiler's builtins.
#[derive(Debug)]
pub struct LibraryToLoad {
    pub name: String,
    pub entry: String,
    pub allow_builtins: bool,
}

/// The libraries a program is built with, in loading order: `core` from
/// the system root, then `std` unless it is left out, both with builtins,
/// then each `name=path` binding of the command line, without.
#[verifier::spinoff_prover]
pub fn libraries_to_load(sysroot: &str, no_std: bool, externs: &Vec<(String, String)>) -> (r: Vec<LibraryToLoad>)
    ensures
        r@.len() == (if no_std { 1int } else { 2int }) + externs@.len(),
        r@[0].name@ == seq!['c', 'o', 'r', 'e'],
        r@[0].entry@ == sysroot@ + seq!['/', 'c', 'o', 'r', 'e', '/', 'l', 'i', 'b', '.', 'l', 'a', 'm', 'a'],
        r@[0].allow_builtins,
        !no_std ==> r@[1].name@ == seq!['s', 't', 'd'],
        !no_std ==> r@[1].entry@ == sysroot@ + seq!['/', 's', 't', 'd', '/', 'l', 'i', 'b', '.', 'l', 'a', 'm', 'a'],
        !no_std ==> r@[1].allow_builtins,
        r@.subrange(if no_std { 1int } else { 2int }, r@.len() as int).map_values(
            |l: LibraryToLoad| (l.name@, l.entry@, l.allow_builtins),
        ) == externs@.map_values(|e: (String, String)| (e.0@, e.1@, false)),
{
    proof {
        reveal_strlit("core");
        reveal_strlit("/core/lib.lama");
        reveal_strlit("std");
        reveal_strlit("/std/lib.lama");
    }
    let mut r: Vec<LibraryToLoad> = Vec::new();
    let core_entry = String::from_str(sysroot).concat("/core/lib.lama");
    r.push(LibraryToLoad { name: String::from_str("core"), entry: core_entry, allow_builtins: true });
    if !no_std {
        let std_entry = String::from_str(sysroot).concat("/std/lib.lama");
        r.push(LibraryToLoad { name: String::from_str("std"), entry: std_entry, allow_builtins: true });
    }
    let base: usize = if no_std { 1 } else { 2 };
    assert(r@[0].entry@ =~= sysroot@ + seq!['/', 'c', 'o', 'r', 'e', '/', 'l', 'i', 'b', '.', 'l', 'a', 'm', 'a']);
    assert(!no_std ==> r@[1].entry@ =~= sysroot@ + seq!['/', 's', 't', 'd', '/', 'l', 'i', 'b', '.', 'l', 'a', 'm', 'a']);
    assert(r@[0].name@ =~= seq!['c', 'o', 'r', 'e']);
    assert(!no_std ==> r@[1].name@ =~= seq!['s', 't', 'd']);
    let mut i: usize = 0;
    while i < externs.len()
        invariant
            base == if no_std { 1usize } else { 2usize },
            i <= externs@.len(),
            r@.len() == base + i,
            r@[0].name@ == seq!['c', 'o', 'r', 'e'],
            r@[0].entry@ == sysroot@ + seq!['/', 'c', 'o', 'r', 'e', '/', 'l', 'i', 'b', '.', 'l', 'a', 'm', 'a'],
            r@[0].allow_builtins,
            !no_std ==> r@[1].name@ == seq!['s', 't', 'd'],
            !no_std ==> r@[1].entry@ == sysroot@ + seq!['/', 's', 't', 'd', '/', 'l', 'i', 'b', '.', 'l', 'a', 'm', 'a'],
            !no_std ==> r@[1].allow_builtins,
            forall|k: int| 0 <= k < i ==> {
                let l = r@[k + base];
                l.name@ == (#[trigger] externs@[k]).0@ && l.entry@ == externs@[k].1@ && !l.allow_builtins
            },
        decreases externs@.len() - i,
    {
        let name = externs[i].0.clone();
        let entry = externs[i].1.clone();
        let ghost old_r = r@;
        r.push(LibraryToLoad { name, entry, allow_builtins: false });
        proof {
            assert(r@[i + base].name@ == externs@[i as int].0@);
            assert forall|k: int| 0 <= k < i + 1 implies {
                let l = r@[k + base];
                l.name@ == (#[trigger] externs@[k]).0@ && l.entry@ == externs@[k].1@ && !l.allow_builtins
            } by {
                if k < i {
                    assert(r@[k + base] == old_r[k + base]);
                }
            }
        }
        i = i + 1;
    }
    proof {
        let got = r@.subrange(base as int, r@.len() as int).map_values(
            |l: LibraryToLoad| (l.name@, l.entry@, l.allow_builtins),
        );
        let want = externs@.map_values(|e: (String, String)| (e.0@, e.1@, false));
        assert forall|k: int| 0 <= k < want.len() implies got[k] == want[k] by {
            assert(externs@[k].0@ == r@[k + base].name@);
        }
        assert(got =~= want);
    }
    r
}

/// No two libraries share a name.
pub open spec fn libs_unique(s: Seq<(String, ModuleTree)>) -> bool {
    forall|a: int, b: int| 0 <= a < b < s.len() ==> (#[trigger] s[a]).0@ != (#[trigger] s[b]).0@
}

/// Binds `tree` under `name`, in place of any library bound under that name
/// before: the others keep their order, and the new one comes last.
pub fn bind_library(libs: Vec<(String, ModuleTree)>, name: String, tree: ModuleTree) -> (r: Vec<(String, ModuleTree)>)
    requires
        libs_unique(libs@),
    ensures
        libs_unique(r@),
        r@.len() > 0,
        r@.last().0 == name && r@.last().1 == tree,
        forall|k: int| 0 <= k < r@.len() - 1 ==> (#[trigger] r@[k]).0@ != name@ && libs@.contains(r@[k]),
        forall|k: int| 0 <= k < libs@.len() && (#[trigger] libs@[k]).0@ != name@ ==> r@.contains(libs@[k]),
{
    let mut old = libs;
    let mut r: Vec<(String, ModuleTree)> = Vec::new();
    let ghost all = old@;
    let n = old.len();
    let mut i: usize = 0;
    while old.len() > 0
        invariant
            all.len() == n,
            libs_unique(all),
            libs@ == all,
            old@ == all.subrange(i as int, all.len() as int),
            i <= all.len(),
            forall|k: int| 0 <= k < r@.len() ==> (#[trigger] r@[k]).0@ != name@ && all.subrange(0, i as int).contains(r@[k]),
            forall|k: int| 0 <= k < i && (#[trigger] all[k]).0@ != name@ ==> r@.contains(all[k]),
            libs_unique(r@),
        decreases old@.len(),
    {
        assert(i < all.len());
        let x = old.remove(0);
        assert(x == all[i as int]);
        if x.0 != name {
            let ghost before = r@;
            proof {
                assert forall|k: int| 0 <= k < before.len() implies (#[trigger] before[k]).0@ != x.0@ by {
                    let q = choose|q: int| 0 <= q < i && all.subrange(0, i as int)[q] == before[k];
                    assert(all[q] == before[k]);
                }
            }
            r.push(x);
            proof {
                assert(r@[before.len() as int] == all[i as int]);
                assert forall|k: int| 0 <= k < r@.len() implies (#[trigger] r@[k]).0@ != name@ && all.subrange(0, i + 1).contains(r@[k]) by {
                    if k < before.len() {
                        assert(r@[k] == before[k]);
                        let q = choose|q: int| 0 <= q < i && all.subrange(0, i as int)[q] == before[k];
                        assert(all.subrange(0, i + 1)[q] == before[k]);
                    } else {
                        assert(all.subrange(0, i + 1)[i as int] == r@[k]);
                    }
                }
                assert forall|k: int| 0 <= k < i + 1 && (#[trigger] all[k]).0@ != name@ implies r@.contains(all[k]) by {
                    if k < i {
                        let q = choose|q: int| 0 <= q < before.len() && before[q] == all[k];
                        assert(r@[q] == all[k]);
                    } else {
                        assert(r@[before.len() as int] == all[k]);
                    }
                }
            }
        } else {
            proof {
                assert forall|k: int| 0 <= k < r@.len() implies all.subrange(0, i + 1).contains(#[trigger] r@[k]) by {
                    let q = choose|q: int| 0 <= q < i && all.subrange(0, i as int)[q] == r@[k];
                    assert(all.subrange(0, i + 1)[q] == r@[k]);
                }
            }
        }
        i = i + 1;
        assert(old@ =~= all.subrange(i as int, all.len() as int));
    }
    assert(all.subrange(0, i as int) =~= all);
    let ghost before = r@;
    r.push((name, tree));
    proof {
        assert forall|k: int| 0 <= k < r@.len() - 1 implies (#[trigger] r@[k]).0@ != name@ && libs@.contains(r@[k]) by {
            assert(r@[k] == before[k]);
        }
        assert forall|k: int| 0 <= k < libs@.len() && (#[trigger] libs@[k]).0@ != name@ implies r@.contains(libs@[k]) by {
            let q = choose|q: int| 0 <= q < before.len() && before[q] == libs@[k];
            assert(r@[q] == libs@[k]);
        }
        assert forall|a: int, b: int| 0 <= a < b < r@.len() implies (#[trigger] r@[a]).0@ != (#[trigger] r@[b]).0@ by {
            assert(r@[a] == before[a]);
            if b < before.len() {
                assert(r@[b] == before[b]);
            }
        }
    }
    r
}

impl ModuleTree {
    /// Whether `path` names a module that code of the program may use.
    pub fn is_reachable(&self, path: &Vec<String>) -> (r: bool)
        requires
            tree_well_formed(*self),
        ensures
            r == tree_reachable(*self, path@.map_values(|s: String| s@)),
    {
        let ghost names = path@.map_values(|s: String| s@);
        assert(names.subrange(0, path@.len() as int) =~= names);
        if path.len() > 0 {
            let mut i: usize = 0;
            while i < self.externlibs.len()
                invariant
                    path@.len() > 0,
                    tree_well_formed(*self),
                    names == path@.map_values(|s: String| s@),
                    i <= self.externlibs@.len(),
                    forall|j: int| 0 <= j < i ==> (#[trigger] self.externlibs@[j]).0@ != names[0],
                decreases self.externlibs@.len() - i,
            {
                if self.externlibs[i].0 == path[0] {
                    proof {
                        let k = choose|k: int| 0 <= k < self.externlibs@.len() && (#[trigger] self.externlibs@[k]).0@ == names[0]
                            && forall|j: int| 0 <= j < k ==> (#[trigger] self.externlibs@[j]).0@ != names[0];
                        if k < i {
                            assert(self.externlibs@[k].0@ != names[0]);
                        }
                        if i < k {
                            assert(self.externlibs@[i as int].0@ != names[0]);
                        }
                        assert(tree_well_formed(self.externlibs@[i as int].1));
                        assert(names.subrange(1, path@.len() as int) =~= names.drop_first());
                    }
                    return self.externlibs[i].1.root.reachable_from(path, 1);
                }
                i = i + 1;
            }
        }
        self.root.reachable_from(path, 0)
    }

    pub fn new(externlibs: Vec<(String, ModuleTree)>, root: Module) -> (r: ModuleTree)
        ensures
            r.externlibs == externlibs,
            r.root == root,
    {
        ModuleTree { externlibs, root }
    }
}

} // verus!
