use vstd::prelude::*;

verus! {

/// What a back end needs to know of the invocation.
#[derive(Debug)]
pub struct CodegenOptions {
    pub lib: bool,
    pub out: Option<String>,
}

/// The back ends a program can be handed to.
#[derive(Debug, Clone, Copy, PartialEq, Eq, Structural)]
pub enum Backend {
    Interpret,
}

impl Backend {
    /// Whether the back end writes an output file, so that one must be named.
    pub fn out_required(&self) -> (r: bool)
        ensures
            r == (*self != Backend::Interpret),
    {
        match self {
            Backend::Interpret => false,
        }
    }
}

/// The index of the first `=` of `s`.
pub open spec fn first_eq(s: Seq<char>) -> Option<int>
    decreases s.len(),
{
    if s.len() == 0 {
        None
    } else {
        match first_eq(s.drop_last()) {
            Some(i) => Some(i),
            None => if s.last() == '=' { Some(s.len() - 1) } else { None },
        }
    }
}

/// `name=path` split at its first `=`; with no `=` the whole text is the
/// name and the path is empty.
pub open spec fn split_externlib(s: Seq<char>) -> (Seq<char>, Seq<char>) {
    match first_eq(s) {
        Some(i) => (s.subrange(0, i), s.subrange(i + 1, s.len() as int)),
        None => (s, Seq::empty()),
    }
}

fn find_eq(s: &str) -> (r: Option<usize>)
    ensures
        match r {
            Some(i) => first_eq(s@) == Some(i as int) && i < s@.len(),
            None => first_eq(s@) is None,
        },
{
    let n = s.unicode_len();
    let mut i: usize = 0;
    assert(s@.subrange(0, 0) =~= Seq::<char>::empty());
    while i < n
        invariant
            n == s@.len(),
            i <= n,
            first_eq(s@.subrange(0, i as int)) is None,
        decreases n - i,
    {
        proof {
            assert(s@.subrange(0, i + 1).drop_last() =~= s@.subrange(0, i as int));
        }
        if s.get_char(i) == '=' {
            proof {
                lemma_first_eq_prefix(s@, i + 1, i as int);
            }
            return Some(i);
        }
        i = i + 1;
    }
    assert(s@.subrange(0, n as int) =~= s@);
    None
}

proof fn lemma_first_eq_prefix(s: Seq<char>, k: int, i: int)
    requires
        0 < k <= s.len(),
        first_eq(s.subrange(0, k)) == Some(i),
    ensures
        first_eq(s) == Some(i),
    decreases s.len() - k,
{
    if k < s.len() {
        assert(s.subrange(0, k + 1).drop_last() =~= s.subrange(0, k));
        lemma_first_eq_prefix(s, k + 1, i);
    } else {
        assert(s.subrange(0, k) =~= s);
    }
}

/// Reads `--extern name=path`: the library's name and its entry point.
pub fn externlib_from_str(s: &str) -> (r: (String, String))
    ensures
        (r.0@, r.1@) == split_externlib(s@),
{
    let n = s.unicode_len();
    match find_eq(s) {
        Some(i) => (String::from_str(s.substring_char(0, i)), String::from_str(s.substring_char(i + 1, n))),
        None => (String::from_str(s), String::new()),
    }
}

/// Accepts a `--extern` value only when it holds a `=`.
pub fn validate_externlib(s: String) -> (r: Result<(), String>)
    ensures
        r is Ok <==> first_eq(s@) is Some,
{
    match find_eq(s.as_str()) {
        Some(_) => Ok(()),
        None => Err(String::from_str(
            "--extern option should contain a `=` to separate the library name and its entry point",
        )),
    }
}

} // verus!
