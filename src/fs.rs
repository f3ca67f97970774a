use vstd::prelude::*;

use crate::error::{Error, ErrorCode};
use crate::span::Span;
use crate::tree::ParseTree;

verus! {

/// Where a source text comes from: an entry typed at the prompt, or a path.
#[derive(Debug)]
pub enum File {
    Repl(usize),
    Path(String),
}

impl Clone for File {
    fn clone(&self) -> (r: File)
        ensures
            r == *self,
    {
        match self {
            File::Repl(i) => File::Repl(*i),
            File::Path(p) => File::Path(p.clone()),
        }
    }
}

/// A source file of the project, with what the grammar made of its text:
/// a tree, or the message of a syntax error.
#[derive(Debug)]
pub struct SourceFile {
    pub path: String,
    pub parsed: Result<ParseTree, String>,
}

/// The sources a build reads: the entries typed at the prompt and the files
/// of the project, each under its path.
#[derive(Debug)]
pub struct Fs {
    pub repl: Vec<String>,
    pub files: Vec<SourceFile>,
}

/// The directory part of a path: everything up to its last `/`, which is
/// kept, or nothing when there is none.
pub open spec fn dir_prefix(p: Seq<char>) -> Seq<char>
    decreases p.len(),
{
    if p.len() == 0 {
        p
    } else if p.last() == '/' {
        p
    } else {
        dir_prefix(p.drop_last())
    }
}

/// The directory that the children of a file are looked up in.
pub open spec fn root_dir(f: File) -> Seq<char> {
    match f {
        File::Repl(_) => Seq::empty(),
        File::Path(p) => dir_prefix(p@),
    }
}

pub open spec fn extension() -> Seq<char> {
    seq!['.', 'l', 'a', 'm', 'a']
}

pub open spec fn mod_file() -> Seq<char> {
    seq!['/', 'm', 'o', 'd', '.', 'l', 'a', 'm', 'a']
}

/// The paths where module `name`, declared in `f` whose own module is
/// `current`, may stand, in the order they are tried: `name.lama`,
/// `name/mod.lama`, then the same two under a directory `current`.
pub open spec fn child_candidates(f: File, current: Seq<char>, name: Seq<char>) -> Seq<Seq<char>> {
    candidates_in(root_dir(f), current, name)
}

/// The candidate paths of module `name` for a file in directory `d`.
pub open spec fn candidates_in(d: Seq<char>, current: Seq<char>, name: Seq<char>) -> Seq<Seq<char>> {
    seq![
        d + name + extension(),
        d + name + mod_file(),
        d + current + seq!['/'] + name + extension(),
        d + current + seq!['/'] + name + mod_file(),
    ]
}

impl Fs {
    pub open spec fn has_path(self, p: Seq<char>) -> bool {
        exists|i: int| 0 <= i < self.files.len() && (#[trigger] self.files@[i]).path@ == p
    }

    /// The first of `cands` that is a file of the project.
    pub open spec fn first_existing(self, cands: Seq<Seq<char>>) -> Option<Seq<char>>
        decreases cands.len(),
    {
        if cands.len() == 0 {
            None
        } else if self.has_path(cands[0]) {
            Some(cands[0])
        } else {
            self.first_existing(cands.drop_first())
        }
    }

    /// The index of the first file stored under `p` (when there is one).
    pub open spec fn index_of(self, p: Seq<char>) -> int {
        choose|i: int| 0 <= i < self.files.len() && (#[trigger] self.files@[i]).path@ == p
            && forall|j: int| 0 <= j < i ==> (#[trigger] self.files@[j]).path@ != p
    }

    /// The first file stored under a path is the one `index_of` names.
    pub proof fn lemma_index_of(self, i: int, p: Seq<char>)
        requires
            0 <= i < self.files.len(),
            self.files@[i].path@ == p,
            forall|j: int| 0 <= j < i ==> (#[trigger] self.files@[j]).path@ != p,
        ensures
            self.index_of(p) == i,
            self.has_path(p),
    {
        let k = self.index_of(p);
        if k < i {
            assert(self.files@[k].path@ != p);
        }
        if i < k {
            assert(self.files@[i].path@ != p);
        }
    }

    /// What the grammar made of the first file stored under `p`.
    pub open spec fn parsed_of(self, p: Seq<char>) -> Option<Result<ParseTree, String>> {
        if self.has_path(p) {
            let i = choose|i: int| 0 <= i < self.files.len() && (#[trigger] self.files@[i]).path@ == p
                && forall|j: int| 0 <= j < i ==> (#[trigger] self.files@[j]).path@ != p;
            Some(self.files@[i].parsed)
        } else {
            None
        }
    }

    /// Where module `name`, declared in a file of directory `d` whose module
    /// is `current`, stands, if anywhere.
    pub open spec fn child_in(self, d: Seq<char>, current: Seq<char>, name: Seq<char>) -> Option<Seq<char>> {
        self.first_existing(candidates_in(d, current, name))
    }

    /// Where module `name` declared in `f` (of module `current`) stands, if
    /// anywhere.
    pub open spec fn child_of(self, f: File, current: Seq<char>, name: Seq<char>) -> Option<Seq<char>> {
        self.first_existing(child_candidates(f, current, name))
    }

    /// What the first search finds is a file of the project.
    pub proof fn lemma_first_existing(self, cands: Seq<Seq<char>>)
        ensures
            self.first_existing(cands) matches Some(p) ==> self.has_path(p),
        decreases cands.len(),
    {
        if cands.len() > 0 && !self.has_path(cands[0]) {
            self.lemma_first_existing(cands.drop_first());
        }
    }

    /// The grammar's result for the file stored under `path`, if any.
    pub fn parsed(&self, path: &String) -> (r: Option<&Result<ParseTree, String>>)
        ensures
            match r {
                Some(x) => self.parsed_of(path@) == Some(*x),
                None => self.parsed_of(path@) is None,
            },
    {
        match self.position(path) {
            Some(i) => {
                proof {
                    let p = path@;
                    assert(self.has_path(p));
                    let k = choose|k: int| 0 <= k < self.files.len() && (#[trigger] self.files@[k]).path@ == p
                        && forall|j: int| 0 <= j < k ==> (#[trigger] self.files@[j]).path@ != p;
                    if k < i {
                        assert(self.files@[k].path@ != p);
                    }
                    if i < k {
                        assert(self.files@[i as int].path@ != p);
                    }
                }
                Some(&self.files[i].parsed)
            },
            None => None,
        }
    }

    pub fn new() -> (r: Fs)
        ensures
            r.repl@.len() == 0,
            r.files@.len() == 0,
    {
        Fs { repl: Vec::new(), files: Vec::new() }
    }

    /// Stores a statement typed at the prompt and names it.
    pub fn insert_repl_statement(&mut self, statement: String) -> (r: File)
        ensures
            r == File::Repl(old(self).repl@.len() as usize),
            final(self).repl@ == old(self).repl@.push(statement),
            final(self).files == old(self).files,
    {
        let res = File::Repl(self.repl.len());
        self.repl.push(statement);
        res
    }

    /// The text of a statement typed at the prompt, if `file` names one.
    pub fn repl_source(&self, file: &File) -> (r: Option<&String>)
        ensures
            match r {
                Some(t) => file matches File::Repl(i) && i < self.repl@.len() && *t == self.repl@[i as int],
                None => !(file matches File::Repl(i) && i < self.repl@.len()),
            },
    {
        match file {
            File::Repl(i) => if *i < self.repl.len() {
                Some(&self.repl[*i])
            } else {
                None
            },
            File::Path(_) => None,
        }
    }

    /// Adds a file of the project with what the grammar made of it.
    pub fn insert_file(&mut self, path: String, parsed: Result<ParseTree, String>)
        ensures
            final(self).files@ == old(self).files@.push(SourceFile { path, parsed }),
            final(self).repl == old(self).repl,
    {
        self.files.push(SourceFile { path, parsed });
    }

    /// The index of the first file stored under `path`.
    pub fn position(&self, path: &String) -> (r: Option<usize>)
        ensures
            match r {
                Some(i) => i < self.files@.len() && self.files@[i as int].path@ == path@
                    && (forall|j: int| 0 <= j < i ==> (#[trigger] self.files@[j]).path@ != path@)
                    && i == self.index_of(path@) && self.has_path(path@),
                None => !self.has_path(path@),
            },
    {
        let mut i: usize = 0;
        while i < self.files.len()
            invariant
                i <= self.files@.len(),
                forall|j: int| 0 <= j < i ==> (#[trigger] self.files@[j]).path@ != path@,
            decreases self.files@.len() - i,
        {
            if self.files[i].path == *path {
                proof {
                    self.lemma_index_of(i as int, path@);
                }
                return Some(i);
            }
            i = i + 1;
        }
        None
    }

    /// Finds the file of module `name`, declared in `file` whose own module
    /// is `current`: the first of `child_candidates` that exists, else a
    /// `ModuleNotFoundError` at the declared name.
    pub fn find_child(&self, file: &File, current: &str, name: &Span<String>) -> (r: Result<File, Error>)
        ensures
            match r {
                Ok(f) => f is Path && self.child_of(*file, current@, name.content@) == Some(f->Path_0@),
                Err(e) => self.child_of(*file, current@, name.content@) is None
                    && e.code == ErrorCode::ModuleNotFoundError
                    && e.span.range == name.range
                    && e.span.file == name.file,
            },
    {
        let root = dir_of(file);
        let cands = candidates(&root, current, &name.content);
        let ghost spec_cands = child_candidates(*file, current@, name.content@);
        proof {
            assert(spec_cands.len() == 4);
            assert(spec_cands.subrange(0, 4) =~= spec_cands);
        }
        let mut k: usize = 0;
        while k < cands.len()
            invariant
                cands@.len() == 4,
                spec_cands.len() == 4,
                spec_cands == child_candidates(*file, current@, name.content@),
                k <= 4,
                forall|j: int| 0 <= j < 4 ==> (#[trigger] cands@[j])@ == spec_cands[j],
                self.first_existing(spec_cands) == self.first_existing(spec_cands.subrange(k as int, 4)),
            decreases 4 - k,
        {
            proof {
                assert(spec_cands.subrange(k as int, 4).drop_first() =~= spec_cands.subrange(k + 1, 4));
            }
            match self.position(&cands[k]) {
                Some(i) => {
                    proof {
                        assert(self.files@[i as int].path@ == spec_cands[k as int]);
                        assert(self.has_path(spec_cands[k as int]));
                        assert(spec_cands.subrange(k as int, 4)[0] == spec_cands[k as int]);
                    }
                    let found = cands[k].clone();
                    assert(found@ == spec_cands[k as int]);
                    return Ok(File::Path(found));
                },
                None => {},
            }
            k = k + 1;
        }
        proof {
            reveal_strlit("Module `");
            reveal_strlit("` not found relative to ");
        }
        let message = String::from_str("Module `").concat(name.content.as_str()).concat(
            "` not found relative to ",
        ).concat(current);
        Err(name.as_error(ErrorCode::ModuleNotFoundError, message))
    }
}

/// The directory that the children of `file` are looked up in.
fn dir_of(file: &File) -> (r: String)
    ensures
        r@ == root_dir(*file),
{
    match file {
        File::Repl(_) => String::new(),
        File::Path(p) => {
            let s = p.as_str();
            let mut i: usize = s.unicode_len();
            assert(s@.subrange(0, i as int) =~= s@);
            while i > 0 && s.get_char(i - 1) != '/'
                invariant
                    i <= s@.len(),
                    dir_prefix(s@) == dir_prefix(s@.subrange(0, i as int)),
                decreases i,
            {
                proof {
                    assert(s@.subrange(0, i as int).drop_last() =~= s@.subrange(0, i - 1));
                }
                i = i - 1;
            }
            proof {
                let t = s@.subrange(0, i as int);
                if i > 0 {
                    assert(t.last() == '/');
                } else {
                    assert(t.len() == 0);
                }
            }
            String::from_str(s.substring_char(0, i))
        }
    }
}

/// The four paths of `child_candidates`, under directory `root`.
fn candidates(root: &String, current: &str, name: &String) -> (r: Vec<String>)
    ensures
        r@.len() == 4,
        r@[0]@ == root@ + name@ + extension(),
        r@[1]@ == root@ + name@ + mod_file(),
        r@[2]@ == root@ + current@ + seq!['/'] + name@ + extension(),
        r@[3]@ == root@ + current@ + seq!['/'] + name@ + mod_file(),
{
    proof {
        reveal_strlit(".lama");
        reveal_strlit("/mod.lama");
        reveal_strlit("/");
    }
    let single = root.clone().concat(name.as_str()).concat(".lama");
    let dir = root.clone().concat(name.as_str()).concat("/mod.lama");
    let nested = root.clone().concat(current).concat("/");
    let nested_single = nested.clone().concat(name.as_str()).concat(".lama");
    let nested_dir = nested.concat(name.as_str()).concat("/mod.lama");
    assert(single@ =~= root@ + name@ + extension());
    assert(dir@ =~= root@ + name@ + mod_file());
    assert(nested_single@ =~= root@ + current@ + seq!['/'] + name@ + extension());
    assert(nested_dir@ =~= root@ + current@ + seq!['/'] + name@ + mod_file());
    let mut r: Vec<String> = Vec::new();
    r.push(single);
    r.push(dir);
    r.push(nested_single);
    r.push(nested_dir);
    r
}

} // verus!
