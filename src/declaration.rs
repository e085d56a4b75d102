//! Top-level declarations of a source file, and the public interface they make up.
use vstd::prelude::*;
use vstd::string::*;

verus! {

/// The category of a top-level public declaration.
#[derive(Clone, Copy, Debug, PartialEq, Eq, Structural)]
pub enum DeclKind {
    Use,
    Const,
    Enum,
    ExternCrate,
    Fn,
    Mod,
    Static,
    Struct,
    Trait,
    TraitAlias,
    Type,
    Union,
}

/// The word under which a kind is shown in a diagram.
pub open spec fn kind_label(k: DeclKind) -> Seq<char> {
    match k {
        DeclKind::Use => "use"@,
        DeclKind::Const => "const"@,
        DeclKind::Enum => "enum"@,
        DeclKind::ExternCrate => "extern crate"@,
        DeclKind::Fn => "fn"@,
        DeclKind::Mod => "mod"@,
        DeclKind::Static => "static"@,
        DeclKind::Struct => "struct"@,
        DeclKind::Trait => "trait"@,
        DeclKind::TraitAlias => "trait alias"@,
        DeclKind::Type => "type"@,
        DeclKind::Union => "union"@,
    }
}

impl DeclKind {
    pub fn label(&self) -> (r: &'static str)
        ensures
            r@ == kind_label(*self),
    {
        match self {
            DeclKind::Use => "use",
            DeclKind::Const => "const",
            DeclKind::Enum => "enum",
            DeclKind::ExternCrate => "extern crate",
            DeclKind::Fn => "fn",
            DeclKind::Mod => "mod",
            DeclKind::Static => "static",
            DeclKind::Struct => "struct",
            DeclKind::Trait => "trait",
            DeclKind::TraitAlias => "trait alias",
            DeclKind::Type => "type",
            DeclKind::Union => "union",
        }
    }
}

/// One entry of a module's public interface: a kind and the name it surfaces.
#[derive(Clone, Debug)]
pub struct PublicItem {
    pub kind: DeclKind,
    pub name: String,
}

/// What an interface entry means.
pub struct ItemView {
    pub kind: DeclKind,
    pub name: Seq<char>,
}

impl View for PublicItem {
    type V = ItemView;

    open spec fn view(&self) -> ItemView {
        ItemView { kind: self.kind, name: self.name@ }
    }
}

/// The meaning of a list of interface entries.
pub open spec fn items_view(s: Seq<PublicItem>) -> Seq<ItemView> {
    s.map_values(|i: PublicItem| i@)
}

/// The import tree of a `use` declaration.
#[derive(Debug)]
pub enum ImportTree {
    /// `prefix::tree`
    Path(String, Box<ImportTree>),
    /// `name`
    Name(String),
    /// `name as alias`
    Rename(String, String),
    /// `*`
    Glob,
    /// `{a, b, ...}`
    Group(Vec<ImportTree>),
}

/// A re-export entry under the given name.
pub open spec fn reexport(name: Seq<char>) -> ItemView {
    ItemView { kind: DeclKind::Use, name }
}

/// The entries a public re-export of `t` surfaces, depth first, in written order.
pub open spec fn flatten(t: ImportTree) -> Seq<ItemView>
    decreases t,
{
    match t {
        ImportTree::Path(_, inner) => flatten(*inner),
        ImportTree::Name(n) => seq![reexport(n@)],
        ImportTree::Rename(_, n) => seq![reexport(n@)],
        ImportTree::Glob => seq![reexport("*"@)],
        ImportTree::Group(ts) => flatten_all(ts@),
    }
}

/// The entries of a sequence of sibling import trees, concatenated in order.
pub open spec fn flatten_all(ts: Seq<ImportTree>) -> Seq<ItemView>
    decreases ts,
{
    if ts.len() == 0 {
        seq![]
    } else {
        flatten_all(ts.drop_last()) + flatten(ts.last())
    }
}

/// A top-level declaration of a source file, as far as the interface needs it.
#[derive(Debug)]
pub enum Declaration {
    /// A declaration that introduces one name of its own.
    Named { kind: DeclKind, public: bool, name: String },
    /// A `use` declaration.
    Reexport { public: bool, tree: ImportTree },
    /// A block that surfaces no name: an impl, a foreign block, a macro call, raw tokens.
    Opaque,
}

/// The interface entries one declaration contributes.
pub open spec fn surfaced(d: Declaration) -> Seq<ItemView> {
    match d {
        Declaration::Named { kind, public, name } => if public {
            seq![ItemView { kind, name: name@ }]
        } else {
            seq![]
        },
        Declaration::Reexport { public, tree } => if public {
            flatten(tree)
        } else {
            seq![]
        },
        Declaration::Opaque => seq![],
    }
}

/// The public interface of a file's declarations, in declaration order.
pub open spec fn classify(ds: Seq<Declaration>) -> Seq<ItemView>
    decreases ds.len(),
{
    if ds.len() == 0 {
        seq![]
    } else {
        classify(ds.drop_last()) + surfaced(ds.last())
    }
}

pub proof fn lemma_items_view_append(a: Seq<PublicItem>, b: Seq<PublicItem>)
    ensures
        items_view(a + b) == items_view(a) + items_view(b),
{
    assert(items_view(a + b) =~= items_view(a) + items_view(b));
}

fn reexport_item(name: String) -> (r: Vec<PublicItem>)
    ensures
        items_view(r@) == seq![reexport(name@)],
{
    let r = vec![PublicItem { kind: DeclKind::Use, name }];
    assert(items_view(r@) =~= seq![reexport(name@)]);
    r
}

impl PublicItem {
    /// Expands a re-export's import tree into one entry per name it surfaces.
    pub fn from_use(t: &ImportTree) -> (r: Vec<PublicItem>)
        ensures
            items_view(r@) == flatten(*t),
        decreases t,
    {
        match t {
            ImportTree::Path(_, inner) => PublicItem::from_use(inner),
            ImportTree::Name(n) => reexport_item(n.clone()),
            ImportTree::Rename(_, n) => reexport_item(n.clone()),
            ImportTree::Glob => reexport_item(String::from_str("*")),
            ImportTree::Group(ts) => {
                let mut out: Vec<PublicItem> = Vec::new();
                let mut i: usize = 0;
                while i < ts.len()
                    invariant
                        i <= ts@.len(),
                        *t == ImportTree::Group(*ts),
                        items_view(out@) == flatten_all(ts@.take(i as int)),
                    decreases ts@.len() - i,
                {
                    proof {
                        assert(decreases_to!(*t => (*t)->Group_0));
                        assert((*t)->Group_0 == *ts);
                        assert(decreases_to!(*ts => ts@));
                        assert(decreases_to!(ts@ => ts@[i as int]));
                    }
                    let mut part = PublicItem::from_use(&ts[i]);
                    proof {
                        lemma_items_view_append(out@, part@);
                        assert(ts@.take(i + 1).drop_last() =~= ts@.take(i as int));
                    }
                    out.append(&mut part);
                    i = i + 1;
                }
                assert(ts@.take(i as int) =~= ts@);
                out
            },
        }
    }

    /// The public interface of a file's declarations: public named declarations
    /// and the flattened entries of public re-exports, in declaration order.
    pub fn find_in_items(items: &Vec<Declaration>) -> (r: Vec<PublicItem>)
        ensures
            items_view(r@) == classify(items@),
    {
        let mut out: Vec<PublicItem> = Vec::new();
        let mut i: usize = 0;
        while i < items.len()
            invariant
                i <= items@.len(),
                items_view(out@) == classify(items@.take(i as int)),
            decreases items@.len() - i,
        {
            let mut part: Vec<PublicItem> = match &items[i] {
                Declaration::Named { kind, public, name } => if *public {
                    let v = vec![PublicItem { kind: *kind, name: name.clone() }];
                    assert(items_view(v@) =~= seq![ItemView { kind: *kind, name: name@ }]);
                    v
                } else {
                    Vec::new()
                },
                Declaration::Reexport { public, tree } => if *public {
                    PublicItem::from_use(tree)
                } else {
                    Vec::new()
                },
                Declaration::Opaque => Vec::new(),
            };
            proof {
                assert(items_view(part@) =~= surfaced(items@[i as int]));
                lemma_items_view_append(out@, part@);
                assert(items@.take(i + 1).drop_last() =~= items@.take(i as int));
            }
            out.append(&mut part);
            i = i + 1;
        }
        assert(items@.take(i as int) =~= items@);
        out
    }
}

proof fn lemma_flatten_all_append(a: Seq<ImportTree>, b: Seq<ImportTree>)
    ensures
        flatten_all(a + b) == flatten_all(a) + flatten_all(b),
    decreases b.len(),
{
    if b.len() == 0 {
        assert(a + b =~= a);
        assert(flatten_all(a) + flatten_all(b) =~= flatten_all(a));
    } else {
        assert((a + b).drop_last() =~= a + b.drop_last());
        assert((a + b).last() == b.last());
        lemma_flatten_all_append(a, b.drop_last());
        assert(flatten_all(a + b) =~= flatten_all(a) + flatten_all(b));
    }
}

/// Flattening is associative over nested groups: a group nested inside a group
/// surfaces the same entries, in the same order, as its members listed in place.
pub proof fn law_nested_group_flattens_in_place(
    before: Seq<ImportTree>,
    inner: Vec<ImportTree>,
    after: Seq<ImportTree>,
    nested: Vec<ImportTree>,
    flat: Vec<ImportTree>,
)
    requires
        nested@ == before.push(ImportTree::Group(inner)) + after,
        flat@ == before + inner@ + after,
    ensures
        flatten(ImportTree::Group(nested)) == flatten(ImportTree::Group(flat)),
{
    let g = ImportTree::Group(inner);
    lemma_flatten_all_append(before.push(g), after);
    assert(before.push(g).drop_last() =~= before);
    lemma_flatten_all_append(before, inner@);
    lemma_flatten_all_append(before + inner@, after);
    assert(flatten_all(before.push(g)) == flatten_all(before) + flatten(g));
    assert(flatten(g) == flatten_all(inner@));
    assert(flatten_all(nested@) =~= flatten_all(flat@));
}

/// A renamed re-export surfaces under its new name, and under that name only.
pub proof fn law_rename_surfaces_new_name(imported: String, renamed: String)
    ensures
        flatten(ImportTree::Rename(imported, renamed)) == seq![reexport(renamed@)],
{
}

/// A wildcard re-export surfaces as the literal name `*`, whatever path it follows.
pub proof fn law_wildcard_surfaces_star(prefix: String)
    ensures
        flatten(ImportTree::Glob) == seq![reexport("*"@)],
        flatten(ImportTree::Path(prefix, Box::new(ImportTree::Glob))) == seq![reexport("*"@)],
{
    assert(flatten(ImportTree::Glob) == seq![reexport("*"@)]);
}

/// Declaration order is kept: the interface of declarations written one after
/// another is the interface of the first part followed by that of the second.
pub proof fn law_declaration_order_kept(first: Seq<Declaration>, second: Seq<Declaration>)
    ensures
        classify(first + second) == classify(first) + classify(second),
    decreases second.len(),
{
    if second.len() == 0 {
        assert(first + second =~= first);
        assert(classify(first) + classify(second) =~= classify(first));
    } else {
        assert((first + second).drop_last() =~= first + second.drop_last());
        assert((first + second).last() == second.last());
        law_declaration_order_kept(first, second.drop_last());
        assert(classify(first + second) =~= classify(first) + classify(second));
    }
}

} // verus!
