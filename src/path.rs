//! Paths as `/`-separated strings, and the two places a module's file may be.
use vstd::prelude::*;
use vstd::string::*;

verus! {

/// `name` inside directory `dir`; an empty `dir` is the current directory.
pub open spec fn join_spec(dir: Seq<char>, name: Seq<char>) -> Seq<char> {
    if dir.len() == 0 {
        name
    } else if dir.last() == '/' {
        dir + name
    } else {
        dir + "/"@ + name
    }
}

/// Index of the last `/` in `p`, or -1 when there is none.
pub open spec fn last_slash(p: Seq<char>) -> int
    decreases p.len(),
{
    if p.len() == 0 {
        -1
    } else if p.last() == '/' {
        p.len() - 1
    } else {
        last_slash(p.drop_last())
    }
}

/// The directory that holds `p`: empty for a bare name, `/` for a name at the root.
pub open spec fn parent_spec(p: Seq<char>) -> Seq<char> {
    let k = last_slash(p);
    if k < 0 {
        seq![]
    } else if k == 0 {
        p.take(1)
    } else {
        p.take(k)
    }
}

/// Whether the last component of `p` is a source file name (`x.rs`).
pub open spec fn names_source_file(p: Seq<char>) -> bool {
    let n = p.len();
    n >= 4 && p[n - 4] != '/' && p[n - 3] == '.' && p[n - 2] == 'r' && p[n - 1] == 's'
}

/// Whether the last component of `p` is `lib.rs`, the name an entry file must have.
pub open spec fn names_entry_file(p: Seq<char>) -> bool {
    p == "lib.rs"@ || (p.len() >= 7 && p.skip(p.len() - 7) == "/lib.rs"@)
}

/// The index-file candidate for module `name` in `dir`: `dir/name/mod.rs`.
pub open spec fn index_candidate(dir: Seq<char>, name: Seq<char>) -> Seq<char> {
    join_spec(join_spec(dir, name), "mod.rs"@)
}

/// The sibling-file candidate for module `name` in `dir`: `dir/name.rs`.
pub open spec fn sibling_candidate(dir: Seq<char>, name: Seq<char>) -> Seq<char> {
    join_spec(dir, name + ".rs"@)
}

pub proof fn lemma_last_slash_bounds(p: Seq<char>)
    ensures
        -1 <= last_slash(p) < p.len(),
        last_slash(p) >= 0 ==> p[last_slash(p)] == '/',
    decreases p.len(),
{
    if p.len() > 0 && p.last() != '/' {
        lemma_last_slash_bounds(p.drop_last());
    }
}

/// `name` inside directory `dir`.
pub fn join(dir: &str, name: &str) -> (r: String)
    ensures
        r@ == join_spec(dir@, name@),
{
    let n = dir.unicode_len();
    if n == 0 {
        String::from_str(name)
    } else if dir.get_char(n - 1) == '/' {
        let mut r = String::from_str(dir);
        r.append(name);
        r
    } else {
        let mut r = String::from_str(dir);
        r.append("/");
        r.append(name);
        r
    }
}

/// The directory that holds `p`.
pub fn parent(p: &str) -> (r: String)
    ensures
        r@ == parent_spec(p@),
{
    let n = p.unicode_len();
    let mut i: usize = n;
    assert(p@.take(n as int) =~= p@);
    while i > 0
        invariant
            i <= n,
            n == p@.len(),
            last_slash(p@) == last_slash(p@.take(i as int)),
        ensures
            i == 0 ==> last_slash(p@) == -1,
            i > 0 ==> last_slash(p@) == i - 1,
        decreases i,
    {
        assert(p@.take(i as int).drop_last() =~= p@.take(i - 1));
        if p.get_char(i - 1) == '/' {
            break;
        }
        i = i - 1;
    }
    if i == 0 {
        String::new()
    } else if i == 1 {
        String::from_str(p.substring_char(0, 1))
    } else {
        String::from_str(p.substring_char(0, i - 1))
    }
}

/// Whether the last component of `p` is a source file name (`x.rs`).
pub fn is_source_file_name(p: &str) -> (r: bool)
    ensures
        r == names_source_file(p@),
{
    let n = p.unicode_len();
    n >= 4 && p.get_char(n - 4) != '/' && p.get_char(n - 3) == '.' && p.get_char(n - 2) == 'r'
        && p.get_char(n - 1) == 's'
}

/// Whether the last component of `p` is `lib.rs`.
pub fn is_entry_file_name(p: &str) -> (r: bool)
    ensures
        r == names_entry_file(p@),
{
    let whole = String::from_str(p);
    if whole == String::from_str("lib.rs") {
        return true;
    }
    let n = p.unicode_len();
    if n < 7 {
        return false;
    }
    let tail = String::from_str(p.substring_char(n - 7, n));
    assert(p@.subrange(n - 7, n as int) =~= p@.skip(n - 7));
    tail == String::from_str("/lib.rs")
}

/// The two files that may hold module `name` declared for directory `dir`: the
/// index file `dir/name/mod.rs` and the sibling file `dir/name.rs`. Both are
/// candidates; neither takes precedence over the other.
pub fn candidates(dir: &str, name: &str) -> (r: (String, String))
    ensures
        r.0@ == index_candidate(dir@, name@),
        r.1@ == sibling_candidate(dir@, name@),
{
    let sub = join(dir, name);
    let index = join(sub.as_str(), "mod.rs");
    let mut file = String::from_str(name);
    file.append(".rs");
    let sibling = join(dir, file.as_str());
    (index, sibling)
}

} // verus!
