use thigpen::path::{candidates, is_entry_file_name, join, parent};
use thigpen::{parse_declarations, DeclKind, Declaration, ImportTree, PublicItem};
use thigpen::syntax::{is_public, VisibilityKind};

fn interface_of(text: &str) -> Vec<(DeclKind, String)> {
    let ds = parse_declarations(text).unwrap();
    PublicItem::find_in_items(&ds).iter().map(|i| (i.kind, i.name.clone())).collect()
}

fn uses(names: &[&str]) -> Vec<(DeclKind, String)> {
    names.iter().map(|n| (DeclKind::Use, n.to_string())).collect()
}

#[test]
fn grouped_renamed_and_wildcard_reexports_flatten() {
    assert_eq!(interface_of("pub use foo::{bar, baz as qux, *};"), uses(&["bar", "qux", "*"]));
}

#[test]
fn nested_group_flattens_like_a_flat_group() {
    assert_eq!(interface_of("pub use m::{a, {b, c}};"), interface_of("pub use m::{a, b, c};"));
    assert_eq!(interface_of("pub use m::{a, {b, c}};"), uses(&["a", "b", "c"]));
}

#[test]
fn rename_surfaces_only_the_new_name() {
    assert_eq!(interface_of("pub use a::b::Inner as Renamed;"), uses(&["Renamed"]));
}

#[test]
fn wildcard_surfaces_as_star() {
    assert_eq!(interface_of("pub use some::deep::path::*;"), uses(&["*"]));
}

#[test]
fn declaration_order_is_kept() {
    let text = "pub struct Z;\npub fn a() {}\npub use x::m;\npub enum B {}\n";
    assert_eq!(
        interface_of(text),
        vec![
            (DeclKind::Struct, "Z".to_string()),
            (DeclKind::Fn, "a".to_string()),
            (DeclKind::Use, "m".to_string()),
            (DeclKind::Enum, "B".to_string()),
        ]
    );
}

#[test]
fn every_kind_is_classified() {
    let text = "pub use a::b;\npub const C: u8 = 0;\npub enum E {}\npub extern crate core;\n\
                pub fn f() {}\npub mod m {}\npub static S: u8 = 0;\npub struct T;\npub trait Tr {}\n\
                pub trait Al = Tr;\npub type Ty = u8;\npub union U { x: u8 }\n";
    let labels: Vec<&str> = {
        let ds = parse_declarations(text).unwrap();
        PublicItem::find_in_items(&ds).iter().map(|i| i.kind.label()).collect()
    };
    assert_eq!(
        labels,
        vec![
            "use", "const", "enum", "extern crate", "fn", "mod", "static", "struct", "trait",
            "trait alias", "type", "union"
        ]
    );
}

#[test]
fn restricted_and_private_items_are_excluded() {
    let text = "pub(crate) fn a() {}\npub(super) struct B;\nfn c() {}\nuse x::y;\npub(in crate::m) enum D {}\n";
    assert!(interface_of(text).is_empty());
}

#[test]
fn blocks_without_names_are_excluded() {
    let text = "impl A {}\nextern \"C\" {}\nmacro_rules! m { () => {} }\npub fn kept() {}\n";
    assert_eq!(interface_of(text), vec![(DeclKind::Fn, "kept".to_string())]);
}

#[test]
fn one_declaration_per_top_level_item() {
    let ds = parse_declarations("impl A {}\nfn f() {}\nmod m;\n").unwrap();
    assert_eq!(ds.len(), 3);
}

#[test]
fn only_plain_pub_is_public() {
    assert!(is_public(VisibilityKind::Public));
    assert!(!is_public(VisibilityKind::Restricted));
    assert!(!is_public(VisibilityKind::Inherited));
}

#[test]
fn invalid_text_does_not_parse() {
    assert!(parse_declarations("pub fn (").is_none());
    assert!(parse_declarations("").unwrap().is_empty());
}

#[test]
fn parsed_declarations_carry_visibility_and_names() {
    let ds = parse_declarations("fn hidden() {}\npub struct Shown;\nimpl Shown {}\n").unwrap();
    assert_eq!(ds.len(), 3);
    assert!(matches!(&ds[0], Declaration::Named { kind: DeclKind::Fn, public: false, name } if name == "hidden"));
    assert!(matches!(&ds[1], Declaration::Named { kind: DeclKind::Struct, public: true, name } if name == "Shown"));
    assert!(matches!(&ds[2], Declaration::Opaque));
}

#[test]
fn from_use_on_a_hand_built_tree() {
    let t = ImportTree::Path(
        "foo".to_string(),
        Box::new(ImportTree::Group(vec![
            ImportTree::Name("bar".to_string()),
            ImportTree::Group(vec![ImportTree::Rename("baz".to_string(), "qux".to_string()), ImportTree::Glob]),
        ])),
    );
    let names: Vec<String> = PublicItem::from_use(&t).into_iter().map(|i| i.name).collect();
    assert_eq!(names, vec!["bar", "qux", "*"]);
}

#[test]
fn candidates_cover_both_conventions() {
    assert_eq!(
        candidates("/p/src", "c"),
        ("/p/src/c/mod.rs".to_string(), "/p/src/c.rs".to_string())
    );
    assert_eq!(candidates("", "c"), ("c/mod.rs".to_string(), "c.rs".to_string()));
}

#[test]
fn path_helpers() {
    assert_eq!(join("/", "a"), "/a");
    assert_eq!(join("x/", "a"), "x/a");
    assert_eq!(parent("/p/src/lib.rs"), "/p/src");
    assert_eq!(parent("/lib.rs"), "/");
    assert_eq!(parent("lib.rs"), "");
    assert!(is_entry_file_name("lib.rs"));
    assert!(is_entry_file_name("/p/src/lib.rs"));
    assert!(!is_entry_file_name("/p/src/xlib.rs"));
}
