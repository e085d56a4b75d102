//! The module tree of a library, built from a snapshot of the disk.
use vstd::prelude::*;
use vstd::string::*;
use crate::declaration::{
    classify, items_view, law_declaration_order_kept, lemma_items_view_append, DeclKind, Declaration, ItemView, PublicItem,
};
use crate::path::{
    candidates, index_candidate, is_entry_file_name, is_source_file_name, join, join_spec,
    last_slash, lemma_last_slash_bounds, names_entry_file, names_source_file, parent, parent_spec,
    sibling_candidate,
};
use crate::source_tree::{Entry, SourceTree};

verus! {

/// The ways an analysis can stop short of a tree.
#[derive(Clone, Copy, Debug, PartialEq, Eq, Structural)]
pub enum ErrorKind {
    /// Nothing is known yet of the path: probe it, record it, and build again.
    Unprobed,
    /// An input is absent, unreadable, misnamed, or not a directory where one is needed.
    MissingInput,
    /// A source file is not valid syntax.
    ParseFailure,
}

/// Why an analysis stopped, and at which path.
#[derive(Debug)]
pub struct AnalysisError {
    pub kind: ErrorKind,
    pub path: String,
}

pub struct ErrorView {
    pub kind: ErrorKind,
    pub path: Seq<char>,
}

impl View for AnalysisError {
    type V = ErrorView;

    open spec fn view(&self) -> ErrorView {
        ErrorView { kind: self.kind, path: self.path@ }
    }
}

pub open spec fn failure(kind: ErrorKind, path: Seq<char>) -> ErrorView {
    ErrorView { kind, path }
}

fn fail<T>(kind: ErrorKind, path: String) -> (r: Result<T, AnalysisError>)
    ensures
        r is Err,
        r->Err_0@ == failure(kind, path@),
{
    Err(AnalysisError { kind, path })
}

/// One module of the tree.
#[derive(Debug)]
pub struct Module {
    /// The last segment of its logical path.
    pub name: String,
    /// Its logical path from the crate root, `root::a::b`.
    pub usepath: String,
    /// The first file that defines it; `None` for a module with no file of its own.
    pub backing_file: Option<String>,
    /// Its public interface, in declaration order.
    pub interface: Vec<PublicItem>,
    /// Its submodules, in declaration order.
    pub children: Vec<Module>,
    /// Edges to other modules; always empty.
    pub dependencies: Vec<Module>,
}

pub struct ModuleView {
    pub name: Seq<char>,
    pub path: Seq<char>,
    pub file: Option<Seq<char>>,
    pub interface: Seq<ItemView>,
    pub children: Seq<ModuleView>,
    pub dependency_count: nat,
}

pub open spec fn module_view(m: Module) -> ModuleView
    decreases m,
{
    ModuleView {
        name: m.name@,
        path: m.usepath@,
        file: match m.backing_file {
            Some(f) => Some(f@),
            None => None,
        },
        interface: items_view(m.interface@),
        children: modules_view(m.children@),
        dependency_count: m.dependencies@.len(),
    }
}

/// A module with no file of its own: no backing file, no interface, no
/// submodules, no dependencies.
pub open spec fn empty_leaf(path: Seq<char>, name: Seq<char>) -> ModuleView {
    ModuleView {
        name,
        path,
        file: None,
        interface: seq![],
        children: seq![],
        dependency_count: 0,
    }
}

/// Whether `n` can name a module: it is not empty and holds no `:`, so that it
/// is the last `::` segment of any path that ends with `::` and `n`.
pub open spec fn plain_name(n: Seq<char>) -> bool {
    n.len() > 0 && forall|i: int| 0 <= i < n.len() ==> n[i] != ':'
}

pub open spec fn modules_view(ms: Seq<Module>) -> Seq<ModuleView>
    decreases ms,
{
    if ms.len() == 0 {
        seq![]
    } else {
        modules_view(ms.drop_last()).push(module_view(ms.last()))
    }
}

/// The logical path of submodule `name` of the module at `parent`.
pub open spec fn child_path(parent: Seq<char>, name: Seq<char>) -> Seq<char> {
    parent + "::"@ + name
}

/// Each module below `m` has a plain name, its parent's path joined with that
/// name as its path, and no dependencies.
pub open spec fn paths_consistent(m: ModuleView) -> bool
    decreases m,
{
    children_consistent(m.path, m.children)
}

/// Each of `cs`, and each module below them, has a plain name, its parent's path
/// joined with that name as its path, and no dependencies; `parent` is the path
/// of the parent of `cs`.
pub open spec fn children_consistent(parent: Seq<char>, cs: Seq<ModuleView>) -> bool
    decreases cs,
{
    cs.len() == 0 || (children_consistent(parent, cs.drop_last()) && cs.last().path
        == child_path(parent, cs.last().name) && plain_name(cs.last().name)
        && cs.last().dependency_count == 0 && paths_consistent(cs.last()))
}

/// What a probed candidate file contributes: nothing when absent, its
/// declarations when it is a source file, an error otherwise.
pub open spec fn probed_candidate(e: Entry, p: Seq<char>) -> Result<
    Option<Seq<Declaration>>,
    ErrorView,
> {
    match e {
        Entry::Absent => Ok(None),
        Entry::Source(ds) => Ok(Some(ds@)),
        Entry::Malformed => Err(failure(ErrorKind::ParseFailure, p)),
        _ => Err(failure(ErrorKind::MissingInput, p)),
    }
}

pub open spec fn decls_or_none(r: Option<Seq<Declaration>>) -> Seq<Declaration> {
    match r {
        Some(ds) => ds,
        None => seq![],
    }
}

/// The name of the submodule a declaration declares, whatever its visibility.
pub open spec fn declared_module(d: Declaration) -> Option<Seq<char>> {
    match d {
        Declaration::Named { kind, name, .. } => if kind == DeclKind::Mod && plain_name(name@) {
            Some(name@)
        } else {
            None
        },
        _ => None,
    }
}

pub proof fn lemma_join_longer(dir: Seq<char>, name: Seq<char>)
    requires
        name.len() > 0,
    ensures
        join_spec(dir, name).len() > dir.len(),
{
}

/// The module at logical path `usepath`, named `name`, declared for directory
/// `dir`: its files are the candidates of `dir` and `name` that exist, their
/// interfaces and submodules concatenated in candidate order; with no such file
/// it is a leaf with no interface.
pub open spec fn build_spec(
    t: SourceTree,
    usepath: Seq<char>,
    name: Seq<char>,
    dir: Seq<char>,
) -> Result<ModuleView, ErrorView>
    decreases t.longest() + 1 - dir.len(), 1nat, 0nat,
{
    let c0 = index_candidate(dir, name);
    let c1 = sibling_candidate(dir, name);
    if t.entry(dir) is None {
        Err(failure(ErrorKind::Unprobed, dir))
    } else if !(t.entry(dir)->0 is Directory) || names_source_file(dir) {
        Err(failure(ErrorKind::MissingInput, dir))
    } else if t.entry(c0) is None {
        Err(failure(ErrorKind::Unprobed, c0))
    } else if t.entry(c1) is None {
        Err(failure(ErrorKind::Unprobed, c1))
    } else {
        let r0 = probed_candidate(t.entry(c0)->0, c0);
        let r1 = probed_candidate(t.entry(c1)->0, c1);
        if r0 is Err {
            Err(r0->Err_0)
        } else if r1 is Err {
            Err(r1->Err_0)
        } else if r0->Ok_0 is None && r1->Ok_0 is None {
            Ok(empty_leaf(usepath, name))
        } else {
            let ds0 = decls_or_none(r0->Ok_0);
            let ds1 = decls_or_none(r1->Ok_0);
            let k0 = children_spec(t, usepath, name, dir, ds0);
            let k1 = children_spec(t, usepath, name, dir, ds1);
            if k0 is Err {
                Err(k0->Err_0)
            } else if k1 is Err {
                Err(k1->Err_0)
            } else {
                Ok(
                    ModuleView {
                        name,
                        path: usepath,
                        file: Some(
                            if r0->Ok_0 is Some {
                                c0
                            } else {
                                c1
                            },
                        ),
                        interface: classify(ds0) + classify(ds1),
                        children: k0->Ok_0 + k1->Ok_0,
                        dependency_count: 0,
                    },
                )
            }
        }
    }
}

/// The submodules that declarations `ds` of a file of module `name` (at `usepath`,
/// declared for `dir`) declare. Each is looked for in the directory `dir/name`;
/// when that directory is absent it is an empty leaf.
pub open spec fn children_spec(
    t: SourceTree,
    usepath: Seq<char>,
    name: Seq<char>,
    dir: Seq<char>,
    ds: Seq<Declaration>,
) -> Result<Seq<ModuleView>, ErrorView>
    decreases t.longest() + 1 - dir.len(), 0nat, ds.len(),
{
    if ds.len() == 0 {
        Ok(seq![])
    } else {
        let prev = children_spec(t, usepath, name, dir, ds.drop_last());
        let sub = join_spec(dir, name);
        if prev is Err || declared_module(ds.last()) is None || name.len() == 0 {
            prev
        } else if t.entry(sub) is None {
            Err(failure(ErrorKind::Unprobed, sub))
        } else if t.entry(sub)->0 is Absent {
            let n = declared_module(ds.last())->0;
            Ok(prev->Ok_0.push(empty_leaf(child_path(usepath, n), n)))
        } else {
            let n = declared_module(ds.last())->0;
            proof {
                t.lemma_known_path_bounded(sub);
                lemma_join_longer(dir, name);
            }
            let c = build_spec(t, child_path(usepath, n), n, sub);
            if c is Err {
                Err(c->Err_0)
            } else {
                Ok(prev->Ok_0.push(c->Ok_0))
            }
        }
    }
}

/// The views of a list of modules are the views of its elements, one for one.
pub proof fn lemma_modules_view_index(ms: Seq<Module>)
    ensures
        modules_view(ms).len() == ms.len(),
        forall|i: int| 0 <= i < ms.len() ==> #[trigger] modules_view(ms)[i] == module_view(ms[i]),
    decreases ms.len(),
{
    if ms.len() > 0 {
        lemma_modules_view_index(ms.drop_last());
    }
}

proof fn lemma_modules_view_push(ms: Seq<Module>, m: Module)
    ensures
        modules_view(ms.push(m)) == modules_view(ms).push(module_view(m)),
{
    assert(ms.push(m).drop_last() =~= ms);
}

proof fn lemma_modules_view_append(a: Seq<Module>, b: Seq<Module>)
    ensures
        modules_view(a + b) == modules_view(a) + modules_view(b),
    decreases b.len(),
{
    if b.len() == 0 {
        assert(a + b =~= a);
        assert(modules_view(a) + modules_view(b) =~= modules_view(a));
    } else {
        assert((a + b).drop_last() =~= a + b.drop_last());
        lemma_modules_view_append(a, b.drop_last());
        assert(modules_view(a + b) =~= modules_view(a) + modules_view(b));
    }
}

proof fn lemma_children_consistent_append(p: Seq<char>, a: Seq<ModuleView>, b: Seq<ModuleView>)
    requires
        children_consistent(p, a),
        children_consistent(p, b),
    ensures
        children_consistent(p, a + b),
    decreases b.len(),
{
    if b.len() == 0 {
        assert(a + b =~= a);
    } else {
        assert((a + b).drop_last() =~= a + b.drop_last());
        lemma_children_consistent_append(p, a, b.drop_last());
    }
}

proof fn lemma_children_consistent_push(p: Seq<char>, a: Seq<ModuleView>, m: ModuleView)
    requires
        children_consistent(p, a),
        m.path == child_path(p, m.name),
        plain_name(m.name),
        m.dependency_count == 0,
        paths_consistent(m),
    ensures
        children_consistent(p, a.push(m)),
{
    assert(a.push(m).drop_last() =~= a);
}

proof fn lemma_children_error_persists(
    t: SourceTree,
    usepath: Seq<char>,
    name: Seq<char>,
    dir: Seq<char>,
    ds: Seq<Declaration>,
    k: int,
)
    requires
        0 <= k <= ds.len(),
        children_spec(t, usepath, name, dir, ds.take(k)) is Err,
    ensures
        children_spec(t, usepath, name, dir, ds) == children_spec(t, usepath, name, dir, ds.take(k)),
    decreases ds.len() - k,
{
    if k == ds.len() {
        assert(ds.take(k) =~= ds);
    } else {
        assert(ds.take(k + 1).drop_last() =~= ds.take(k));
        lemma_children_error_persists(t, usepath, name, dir, ds, k + 1);
    }
}

/// Whether `n` can name a module.
pub fn is_plain_name(n: &str) -> (r: bool)
    ensures
        r == plain_name(n@),
{
    let len = n.unicode_len();
    if len == 0 {
        return false;
    }
    let mut i: usize = 0;
    while i < len
        invariant
            i <= len,
            len == n@.len(),
            forall|k: int| 0 <= k < i ==> n@[k] != ':',
        decreases len - i,
    {
        if n.get_char(i) == ':' {
            return false;
        }
        i = i + 1;
    }
    true
}

/// The name of the submodule `d` declares, if it declares one.
fn module_declared(d: &Declaration) -> (r: Option<&String>)
    ensures
        match r {
            Some(n) => declared_module(*d) == Some(n@),
            None => declared_module(*d) is None,
        },
{
    match d {
        Declaration::Named { kind, name, .. } => if matches!(kind, DeclKind::Mod)
            && is_plain_name(name.as_str()) {
            Some(name)
        } else {
            None
        },
        _ => None,
    }
}

fn join_path(parent: &String, name: &String) -> (r: String)
    ensures
        r@ == child_path(parent@, name@),
{
    let mut r = parent.clone();
    r.append("::");
    r.append(name.as_str());
    r
}

impl Module {
    /// A module with no file of its own.
    fn leaf(usepath: String, name: String) -> (r: Module)
        ensures
            module_view(r) == empty_leaf(usepath@, name@),
    {
        let m = Module {
            name,
            usepath,
            backing_file: None,
            interface: Vec::new(),
            children: Vec::new(),
            dependencies: Vec::new(),
        };
        assert(items_view(m.interface@) =~= seq![]);
        assert(modules_view(m.children@) =~= seq![]);
        m
    }

    /// Builds the module at logical path `usepath`, named `name`, declared for
    /// directory `dir`, from what `tree` knows of the disk.
    pub fn from_path(tree: &SourceTree, usepath: String, name: String, dir: &str) -> (r: Result<
        Module,
        AnalysisError,
    >)
        ensures
            match r {
                Ok(m) => build_spec(*tree, usepath@, name@, dir@) == Ok::<ModuleView, ErrorView>(module_view(m))
                    && module_view(m).name == name@ && module_view(m).path == usepath@
                    && paths_consistent(module_view(m)),
                Err(e) => build_spec(*tree, usepath@, name@, dir@) == Err::<ModuleView, ErrorView>(e@),
            },
        decreases tree.longest() + 1 - dir@.len(), 1nat, 0nat,
    {
        match tree.lookup(dir) {
            None => {
                return fail(ErrorKind::Unprobed, String::from_str(dir));
            },
            Some(Entry::Directory) => {},
            Some(_) => {
                return fail(ErrorKind::MissingInput, String::from_str(dir));
            },
        }
        if is_source_file_name(dir) {
            return fail(ErrorKind::MissingInput, String::from_str(dir));
        }
        let (c0, c1) = candidates(dir, name.as_str());
        let e0 = match tree.lookup(c0.as_str()) {
            None => {
                return fail(ErrorKind::Unprobed, c0);
            },
            Some(e) => e,
        };
        let e1 = match tree.lookup(c1.as_str()) {
            None => {
                return fail(ErrorKind::Unprobed, c1);
            },
            Some(e) => e,
        };
        let ds0: Option<&Vec<Declaration>> = match e0 {
            Entry::Absent => None,
            Entry::Source(ds) => Some(ds),
            Entry::Malformed => {
                return fail(ErrorKind::ParseFailure, c0);
            },
            _ => {
                return fail(ErrorKind::MissingInput, c0);
            },
        };
        let ds1: Option<&Vec<Declaration>> = match e1 {
            Entry::Absent => None,
            Entry::Source(ds) => Some(ds),
            Entry::Malformed => {
                return fail(ErrorKind::ParseFailure, c1);
            },
            _ => {
                return fail(ErrorKind::MissingInput, c1);
            },
        };
        if ds0.is_none() && ds1.is_none() {
            return Ok(Module::leaf(usepath, name));
        }
        let empty: Vec<Declaration> = Vec::new();
        let file0: &Vec<Declaration> = match ds0 {
            Some(ds) => ds,
            None => &empty,
        };
        let file1: &Vec<Declaration> = match ds1 {
            Some(ds) => ds,
            None => &empty,
        };
        assert(file0@ == decls_or_none(probed_candidate(tree.entry(c0@)->0, c0@)->Ok_0));
        assert(file1@ == decls_or_none(probed_candidate(tree.entry(c1@)->0, c1@)->Ok_0));
        let mut children = match Module::children_from(tree, &usepath, &name, dir, file0) {
            Err(e) => {
                return Err(e);
            },
            Ok(k) => k,
        };
        let mut more = match Module::children_from(tree, &usepath, &name, dir, file1) {
            Err(e) => {
                return Err(e);
            },
            Ok(k) => k,
        };
        proof {
            lemma_modules_view_append(children@, more@);
            lemma_children_consistent_append(usepath@, modules_view(children@), modules_view(more@));
        }
        children.append(&mut more);
        let mut interface = PublicItem::find_in_items(file0);
        let mut tail = PublicItem::find_in_items(file1);
        proof {
            lemma_items_view_append(interface@, tail@);
        }
        interface.append(&mut tail);
        let backing_file = if ds0.is_some() {
            c0
        } else {
            c1
        };
        Ok(Module { name, usepath, backing_file: Some(backing_file), interface, children, dependencies: Vec::new() })
    }

    /// The submodules that declarations `ds` of a file of module `name` declare.
    fn children_from(
        tree: &SourceTree,
        usepath: &String,
        name: &String,
        dir: &str,
        ds: &Vec<Declaration>,
    ) -> (r: Result<Vec<Module>, AnalysisError>)
        ensures
            match r {
                Ok(ms) => children_spec(*tree, usepath@, name@, dir@, ds@) == Ok::<Seq<ModuleView>, ErrorView>(
                    modules_view(ms@),
                )
                    && children_consistent(usepath@, modules_view(ms@)),
                Err(e) => children_spec(*tree, usepath@, name@, dir@, ds@) == Err::<
                    Seq<ModuleView>,
                    ErrorView,
                >(e@),
            },
        decreases tree.longest() + 1 - dir@.len(), 0nat, 0nat,
    {
        let sub = join(dir, name.as_str());
        let named = name.as_str().unicode_len() > 0;
        let mut out: Vec<Module> = Vec::new();
        let mut j: usize = 0;
        assert(ds@.take(0) =~= seq![]);
        while j < ds.len()
            invariant
                j <= ds@.len(),
                sub@ == join_spec(dir@, name@),
                named == (name@.len() > 0),
                children_spec(*tree, usepath@, name@, dir@, ds@.take(j as int)) == Ok::<
                    Seq<ModuleView>,
                    ErrorView,
                >(modules_view(out@)),
                children_consistent(usepath@, modules_view(out@)),
            decreases ds@.len() - j,
        {
            assert(ds@.take(j + 1).drop_last() =~= ds@.take(j as int));
            assert(ds@.take(j + 1).last() == ds@[j as int]);
            match module_declared(&ds[j]) {
                None => {},
                Some(n) => {
                    if named {
                        match tree.lookup(sub.as_str()) {
                            None => {
                                proof {
                                    lemma_children_error_persists(
                                        *tree,
                                        usepath@,
                                        name@,
                                        dir@,
                                        ds@,
                                        j + 1,
                                    );
                                }
                                return fail(ErrorKind::Unprobed, sub);
                            },
                            Some(Entry::Absent) => {
                                let leaf = Module::leaf(join_path(usepath, n), n.clone());
                                proof {
                                    lemma_modules_view_push(out@, leaf);
                                    lemma_children_consistent_push(
                                        usepath@,
                                        modules_view(out@),
                                        module_view(leaf),
                                    );
                                }
                                out.push(leaf);
                            },
                            Some(_) => {
                                proof {
                                    tree.lemma_known_path_bounded(sub@);
                                    lemma_join_longer(dir@, name@);
                                }
                                let cp = join_path(usepath, n);
                                match Module::from_path(tree, cp, n.clone(), sub.as_str()) {
                                    Err(e) => {
                                        proof {
                                            lemma_children_error_persists(
                                                *tree,
                                                usepath@,
                                                name@,
                                                dir@,
                                                ds@,
                                                j + 1,
                                            );
                                        }
                                        return Err(e);
                                    },
                                    Ok(m) => {
                                        proof {
                                            lemma_modules_view_push(out@, m);
                                            lemma_children_consistent_push(
                                                usepath@,
                                                modules_view(out@),
                                                module_view(m),
                                            );
                                        }
                                        out.push(m);
                                    },
                                }
                            },
                        }
                    }
                },
            }
            j = j + 1;
        }
        assert(ds@.take(j as int) =~= ds@);
        Ok(out)
    }
}

/// A library: the root of the tree.
#[derive(Debug)]
pub struct Lib {
    /// The library's name, which is also the logical path of the root.
    pub name: String,
    /// Its entry file.
    pub path: String,
    /// The entry file's public interface, in declaration order.
    pub interface: Vec<PublicItem>,
    /// The modules the entry file declares, in declaration order.
    pub modules: Vec<Module>,
}

pub struct LibView {
    pub name: Seq<char>,
    pub path: Seq<char>,
    pub interface: Seq<ItemView>,
    pub modules: Seq<ModuleView>,
}

impl View for Lib {
    type V = LibView;

    open spec fn view(&self) -> LibView {
        LibView {
            name: self.name@,
            path: self.path@,
            interface: items_view(self.interface@),
            modules: modules_view(self.modules@),
        }
    }
}

/// The top-level modules that entry-file declarations `ds` declare; each is
/// looked for in `dir`, the directory of the entry file.
pub open spec fn root_children_spec(
    t: SourceTree,
    name: Seq<char>,
    dir: Seq<char>,
    ds: Seq<Declaration>,
) -> Result<Seq<ModuleView>, ErrorView>
    decreases ds.len(),
{
    if ds.len() == 0 {
        Ok(seq![])
    } else {
        let prev = root_children_spec(t, name, dir, ds.drop_last());
        if prev is Err || declared_module(ds.last()) is None {
            prev
        } else {
            let n = declared_module(ds.last())->0;
            let c = build_spec(t, child_path(name, n), n, dir);
            if c is Err {
                Err(c->Err_0)
            } else {
                Ok(prev->Ok_0.push(c->Ok_0))
            }
        }
    }
}

/// The library `name` whose entry file is `entry`: the entry file must be named
/// `lib.rs` and be a source file; its public interface is the root's, and each
/// module it declares is a top-level module.
pub open spec fn lib_spec(t: SourceTree, name: Seq<char>, entry: Seq<char>) -> Result<
    LibView,
    ErrorView,
> {
    if !names_entry_file(entry) {
        Err(failure(ErrorKind::MissingInput, entry))
    } else if t.entry(entry) is None {
        Err(failure(ErrorKind::Unprobed, entry))
    } else {
        match t.entry(entry)->0 {
            Entry::Source(ds) => {
                let k = root_children_spec(t, name, parent_spec(entry), ds@);
                if k is Err {
                    Err(k->Err_0)
                } else {
                    Ok(
                        LibView {
                            name,
                            path: entry,
                            interface: classify(ds@),
                            modules: k->Ok_0,
                        },
                    )
                }
            },
            Entry::Malformed => Err(failure(ErrorKind::ParseFailure, entry)),
            _ => Err(failure(ErrorKind::MissingInput, entry)),
        }
    }
}

proof fn lemma_root_error_persists(
    t: SourceTree,
    name: Seq<char>,
    dir: Seq<char>,
    ds: Seq<Declaration>,
    k: int,
)
    requires
        0 <= k <= ds.len(),
        root_children_spec(t, name, dir, ds.take(k)) is Err,
    ensures
        root_children_spec(t, name, dir, ds) == root_children_spec(t, name, dir, ds.take(k)),
    decreases ds.len() - k,
{
    if k == ds.len() {
        assert(ds.take(k) =~= ds);
    } else {
        assert(ds.take(k + 1).drop_last() =~= ds.take(k));
        lemma_root_error_persists(t, name, dir, ds, k + 1);
    }
}

impl Lib {
    /// Every module's logical path is its parent's joined with its own name; the
    /// root's path is the library's name alone.
    pub open spec fn paths_consistent(&self) -> bool {
        children_consistent(self.name@, modules_view(self.modules@))
    }

    /// Builds the library `name` whose entry file is `path` from what `tree`
    /// knows of the disk. `Unprobed` names a path to probe and record before
    /// building again; the other errors end the analysis.
    pub fn from_path(tree: &SourceTree, name: &str, path: &str) -> (r: Result<Lib, AnalysisError>)
        ensures
            match r {
                Ok(lib) => lib_spec(*tree, name@, path@) == Ok::<LibView, ErrorView>(lib@)
                    && lib.paths_consistent(),
                Err(e) => lib_spec(*tree, name@, path@) == Err::<LibView, ErrorView>(e@),
            },
    {
        if !is_entry_file_name(path) {
            return fail(ErrorKind::MissingInput, String::from_str(path));
        }
        let ds = match tree.lookup(path) {
            None => {
                return fail(ErrorKind::Unprobed, String::from_str(path));
            },
            Some(Entry::Source(ds)) => ds,
            Some(Entry::Malformed) => {
                return fail(ErrorKind::ParseFailure, String::from_str(path));
            },
            Some(_) => {
                return fail(ErrorKind::MissingInput, String::from_str(path));
            },
        };
        let lib_name = String::from_str(name);
        let dir = parent(path);
        let mut modules: Vec<Module> = Vec::new();
        let mut j: usize = 0;
        assert(ds@.take(0) =~= seq![]);
        while j < ds.len()
            invariant
                j <= ds@.len(),
                lib_name@ == name@,
                dir@ == parent_spec(path@),
                names_entry_file(path@),
                tree.entry(path@) == Some(Entry::Source(*ds)),
                root_children_spec(*tree, name@, dir@, ds@.take(j as int)) == Ok::<
                    Seq<ModuleView>,
                    ErrorView,
                >(modules_view(modules@)),
                children_consistent(name@, modules_view(modules@)),
            decreases ds@.len() - j,
        {
            assert(ds@.take(j + 1).drop_last() =~= ds@.take(j as int));
            assert(ds@.take(j + 1).last() == ds@[j as int]);
            match module_declared(&ds[j]) {
                None => {},
                Some(n) => {
                    let cp = join_path(&lib_name, n);
                    match Module::from_path(tree, cp, n.clone(), dir.as_str()) {
                        Err(e) => {
                            proof {
                                lemma_root_error_persists(*tree, name@, dir@, ds@, j + 1);
                            }
                            return Err(e);
                        },
                        Ok(m) => {
                            proof {
                                lemma_modules_view_push(modules@, m);
                                lemma_children_consistent_push(
                                    name@,
                                    modules_view(modules@),
                                    module_view(m),
                                );
                            }
                            modules.push(m);
                        },
                    }
                },
            }
            j = j + 1;
        }
        assert(ds@.take(j as int) =~= ds@);
        let interface = PublicItem::find_in_items(ds);
        Ok(Lib { name: lib_name, path: String::from_str(path), interface, modules })
    }
}

/// Whether an entry is a file of any sort.
pub open spec fn is_file(e: Entry) -> bool {
    !(e is Absent) && !(e is Directory)
}

/// Whether `d` has a directory above it: all but the empty path and the root do.
pub open spec fn has_parent(d: Seq<char>) -> bool {
    d.len() > 0 && d != "/"@
}

pub proof fn lemma_parent_shorter(d: Seq<char>)
    requires
        has_parent(d),
    ensures
        parent_spec(d).len() < d.len(),
{
    reveal_strlit("/");
    lemma_last_slash_bounds(d);
    if last_slash(d) == 0 && d.len() == 1 {
        assert(d =~= "/"@);
    }
}

/// The manifest nearest to directory `d`: `d/Cargo.toml` if it is a file, else
/// the one nearest to the directory above `d`; none once there is no directory above.
pub open spec fn manifest_spec(t: SourceTree, d: Seq<char>) -> Result<Option<Seq<char>>, ErrorView>
    decreases d.len(),
{
    let c = join_spec(d, "Cargo.toml"@);
    if t.entry(c) is None {
        Err(failure(ErrorKind::Unprobed, c))
    } else if is_file(t.entry(c)->0) {
        Ok(Some(c))
    } else if !has_parent(d) {
        Ok(None)
    } else {
        proof {
            lemma_parent_shorter(d);
        }
        manifest_spec(t, parent_spec(d))
    }
}

/// The manifest search from `dir`, which must be a directory.
pub open spec fn find_manifest_spec(t: SourceTree, dir: Seq<char>) -> Result<
    Option<Seq<char>>,
    ErrorView,
> {
    if t.entry(dir) is None {
        Err(failure(ErrorKind::Unprobed, dir))
    } else if !(t.entry(dir)->0 is Directory) {
        Err(failure(ErrorKind::MissingInput, dir))
    } else {
        manifest_spec(t, dir)
    }
}

/// Looks for `Cargo.toml` in directory `dir` and then in each directory above it,
/// nearest first, in what `tree` knows of the disk. A `dir` that is not a
/// directory is a missing input.
pub fn find_cargo_toml(tree: &SourceTree, dir: &str) -> (r: Result<Option<String>, AnalysisError>)
    ensures
        match r {
            Ok(Some(p)) => find_manifest_spec(*tree, dir@) == Ok::<Option<Seq<char>>, ErrorView>(
                Some(p@),
            ),
            Ok(None) => find_manifest_spec(*tree, dir@) == Ok::<Option<Seq<char>>, ErrorView>(
                None,
            ),
            Err(e) => find_manifest_spec(*tree, dir@) == Err::<Option<Seq<char>>, ErrorView>(e@),
        },
{
    match tree.lookup(dir) {
        None => {
            return fail(ErrorKind::Unprobed, String::from_str(dir));
        },
        Some(Entry::Directory) => {},
        Some(_) => {
            return fail(ErrorKind::MissingInput, String::from_str(dir));
        },
    }
    let mut d = String::from_str(dir);
    let root = String::from_str("/");
    loop
        invariant
            manifest_spec(*tree, d@) == manifest_spec(*tree, dir@),
            find_manifest_spec(*tree, dir@) == manifest_spec(*tree, dir@),
            root@ == "/"@,
        decreases d@.len(),
    {
        let c = join(d.as_str(), "Cargo.toml");
        match tree.lookup(c.as_str()) {
            None => {
                return fail(ErrorKind::Unprobed, c);
            },
            Some(Entry::Absent) => {},
            Some(Entry::Directory) => {},
            Some(_) => {
                return Ok(Some(c));
            },
        }
        if d.as_str().unicode_len() == 0 || d == root {
            return Ok(None);
        }
        proof {
            lemma_parent_shorter(d@);
        }
        d = parent(d.as_str());
    }
}

/// A module whose directory holds neither of its candidate files is an empty
/// leaf, not an error.
pub proof fn law_module_without_file_is_empty_leaf(
    t: SourceTree,
    usepath: Seq<char>,
    name: Seq<char>,
    dir: Seq<char>,
)
    requires
        t.entry(dir) == Some(Entry::Directory),
        !names_source_file(dir),
        t.entry(index_candidate(dir, name)) == Some(Entry::Absent),
        t.entry(sibling_candidate(dir, name)) == Some(Entry::Absent),
    ensures
        build_spec(t, usepath, name, dir) == Ok::<ModuleView, ErrorView>(empty_leaf(usepath, name)),
{
}

/// Both file conventions are merged: a module with an index file and a sibling
/// file has the index file's interface followed by the sibling file's, each in
/// declaration order, which is the interface of the two files' declarations read
/// one after the other; neither shadows the other.
pub proof fn law_both_candidates_merge(
    t: SourceTree,
    usepath: Seq<char>,
    name: Seq<char>,
    dir: Seq<char>,
    index_decls: Vec<Declaration>,
    sibling_decls: Vec<Declaration>,
)
    requires
        t.entry(index_candidate(dir, name)) == Some(Entry::Source(index_decls)),
        t.entry(sibling_candidate(dir, name)) == Some(Entry::Source(sibling_decls)),
        build_spec(t, usepath, name, dir) is Ok,
    ensures
        build_spec(t, usepath, name, dir)->Ok_0.interface == classify(index_decls@) + classify(
            sibling_decls@,
        ),
        build_spec(t, usepath, name, dir)->Ok_0.interface == classify(index_decls@ + sibling_decls@),
        build_spec(t, usepath, name, dir)->Ok_0.file == Some(index_candidate(dir, name)),
{
    law_declaration_order_kept(index_decls@, sibling_decls@);
}

} // verus!
