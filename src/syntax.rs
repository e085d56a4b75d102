//! Reading declarations out of source text, with syn as the parser.
use vstd::prelude::*;
use syn::Item;
use crate::declaration::{DeclKind, Declaration, ImportTree};

verus! {

#[verifier::external_type_specification]
#[verifier::external_body]
pub struct ExSynItem(syn::Item);

#[verifier::external_type_specification]
#[verifier::external_body]
pub struct ExSynUseTree(syn::UseTree);

#[verifier::external_type_specification]
#[verifier::external_body]
pub struct ExSynVisibility(syn::Visibility);

#[verifier::external_type_specification]
#[verifier::external_body]
pub struct ExSynError(syn::Error);

/// How many top-level items a source file holds; `None` when the text is not
/// valid syntax.
pub uninterp spec fn top_level_item_count(text: Seq<char>) -> Option<nat>;

/// Relies on syn::parse_file: it parses a whole file, fails exactly when the text
/// is not valid syntax, and otherwise hands back the file's top-level items.
#[verifier::external_body]
fn parse_items(text: &str) -> (r: Result<Vec<syn::Item>, syn::Error>)
    ensures
        r is Ok <==> top_level_item_count(text@) is Some,
        r is Ok ==> r->Ok_0@.len() == top_level_item_count(text@)->0,
{
    syn::parse_file(text).map(|f| f.items)
}

/// Relies on the variants of syn::Item: the kind of an item that surfaces a name.
#[verifier::external_body]
fn item_kind(item: &syn::Item) -> Option<DeclKind> {
    match item {
        Item::Const(_) => Some(DeclKind::Const),
        Item::Enum(_) => Some(DeclKind::Enum),
        Item::ExternCrate(_) => Some(DeclKind::ExternCrate),
        Item::Fn(_) => Some(DeclKind::Fn),
        Item::Mod(_) => Some(DeclKind::Mod),
        Item::Static(_) => Some(DeclKind::Static),
        Item::Struct(_) => Some(DeclKind::Struct),
        Item::Trait(_) => Some(DeclKind::Trait),
        Item::TraitAlias(_) => Some(DeclKind::TraitAlias),
        Item::Type(_) => Some(DeclKind::Type),
        Item::Union(_) => Some(DeclKind::Union),
        Item::Use(_) => Some(DeclKind::Use),
        _ => None,
    }
}

/// Relies on the `vis` field of syn's item structs: an item's visibility.
#[verifier::external_body]
fn item_visibility(item: &syn::Item) -> Option<&syn::Visibility> {
    match item {
        Item::Const(i) => Some(&i.vis),
        Item::Enum(i) => Some(&i.vis),
        Item::ExternCrate(i) => Some(&i.vis),
        Item::Fn(i) => Some(&i.vis),
        Item::Mod(i) => Some(&i.vis),
        Item::Static(i) => Some(&i.vis),
        Item::Struct(i) => Some(&i.vis),
        Item::Trait(i) => Some(&i.vis),
        Item::TraitAlias(i) => Some(&i.vis),
        Item::Type(i) => Some(&i.vis),
        Item::Union(i) => Some(&i.vis),
        Item::Use(i) => Some(&i.vis),
        _ => None,
    }
}

/// The three visibilities a declaration can have.
#[derive(Clone, Copy, Debug, PartialEq, Eq, Structural)]
pub enum VisibilityKind {
    /// `pub`
    Public,
    /// `pub(crate)`, `pub(super)`, `pub(self)`, `pub(in path)`
    Restricted,
    /// no visibility written: private
    Inherited,
}

/// Relies on the variants of syn::Visibility, one for one.
#[verifier::external_body]
fn visibility_kind(vis: &syn::Visibility) -> VisibilityKind {
    match vis {
        syn::Visibility::Public(_) => VisibilityKind::Public,
        syn::Visibility::Restricted(_) => VisibilityKind::Restricted,
        syn::Visibility::Inherited => VisibilityKind::Inherited,
    }
}

/// Only plain `pub` makes a declaration public; a restricted visibility does not.
pub fn is_public(vis: VisibilityKind) -> (r: bool)
    ensures
        r <==> vis == VisibilityKind::Public,
{
    match vis {
        VisibilityKind::Public => true,
        VisibilityKind::Restricted => false,
        VisibilityKind::Inherited => false,
    }
}

/// Relies on the `ident` fields of syn's item structs: the name an item declares.
#[verifier::external_body]
fn item_ident(item: &syn::Item) -> Option<String> {
    let ident = match item {
        Item::Const(i) => &i.ident,
        Item::Enum(i) => &i.ident,
        Item::ExternCrate(i) => &i.ident,
        Item::Fn(i) => &i.sig.ident,
        Item::Mod(i) => &i.ident,
        Item::Static(i) => &i.ident,
        Item::Struct(i) => &i.ident,
        Item::Trait(i) => &i.ident,
        Item::TraitAlias(i) => &i.ident,
        Item::Type(i) => &i.ident,
        Item::Union(i) => &i.ident,
        _ => return None,
    };
    Some(ident.to_string())
}

/// Relies on syn::ItemUse: the import tree of a `use` item.
#[verifier::external_body]
fn item_use_tree(item: &syn::Item) -> Option<&syn::UseTree> {
    match item {
        Item::Use(i) => Some(&i.tree),
        _ => None,
    }
}

/// Relies on the variants of syn::UseTree: the same tree, with identifiers as strings.
#[verifier::external_body]
fn lower_use_tree(t: &syn::UseTree) -> ImportTree {
    match t {
        syn::UseTree::Path(p) => ImportTree::Path(p.ident.to_string(), Box::new(lower_use_tree(&p.tree))),
        syn::UseTree::Name(n) => ImportTree::Name(n.ident.to_string()),
        syn::UseTree::Rename(r) => ImportTree::Rename(r.ident.to_string(), r.rename.to_string()),
        syn::UseTree::Glob(_) => ImportTree::Glob,
        syn::UseTree::Group(g) => ImportTree::Group(g.items.iter().map(lower_use_tree).collect()),
    }
}

fn declaration_of(item: &syn::Item) -> Declaration {
    match item_kind(item) {
        None => Declaration::Opaque,
        Some(kind) => {
            let public = match item_visibility(item) {
                Some(vis) => is_public(visibility_kind(vis)),
                None => false,
            };
            if matches!(kind, DeclKind::Use) {
                match item_use_tree(item) {
                    Some(tree) => Declaration::Reexport { public, tree: lower_use_tree(tree) },
                    None => Declaration::Opaque,
                }
            } else {
                match item_ident(item) {
                    Some(name) => Declaration::Named { kind, public, name },
                    None => Declaration::Opaque,
                }
            }
        },
    }
}

/// The top-level declarations of a source file, one for each top-level item, in
/// order; `None` when the text is not valid syntax.
pub fn parse_declarations(text: &str) -> (r: Option<Vec<Declaration>>)
    ensures
        r is Some <==> top_level_item_count(text@) is Some,
        r is Some ==> r->Some_0@.len() == top_level_item_count(text@)->0,
{
    match parse_items(text) {
        Err(_) => None,
        Ok(items) => {
            let mut out: Vec<Declaration> = Vec::new();
            let mut i: usize = 0;
            while i < items.len()
                invariant
                    i <= items@.len(),
                    out@.len() == i,
                decreases items@.len() - i,
            {
                out.push(declaration_of(&items[i]));
                i = i + 1;
            }
            Some(out)
        },
    }
}

} // verus!
