use thigpen::{find_cargo_toml, AnalysisError, DeclKind, Entry, ErrorKind, Lib, Module, SourceTree};

/// Files given with their text, directories with `None`; every other path is absent.
fn probe(tree: &mut SourceTree, disk: &[(&str, Option<&str>)], path: &str) {
    for (p, text) in disk {
        if *p == path {
            match text {
                Some(t) => tree.record_source(path.to_string(), t),
                None => tree.record(path.to_string(), Entry::Directory),
            }
            return;
        }
    }
    tree.record(path.to_string(), Entry::Absent);
}

fn analyze(disk: &[(&str, Option<&str>)], entry: &str) -> Result<Lib, AnalysisError> {
    let mut tree = SourceTree::new();
    loop {
        match Lib::from_path(&tree, "crate", entry) {
            Err(e) if e.kind == ErrorKind::Unprobed => probe(&mut tree, disk, &e.path),
            other => return other,
        }
    }
}

fn entries(items: &[thigpen::PublicItem]) -> Vec<(DeclKind, String)> {
    items.iter().map(|i| (i.kind, i.name.clone())).collect()
}

#[test]
fn root_interface_keeps_only_public_items() {
    let disk = [("/p/src", None), ("/p/src/lib.rs", Some("pub fn run() {}\nstruct Hidden;\n"))];
    let lib = analyze(&disk, "/p/src/lib.rs").unwrap();
    assert_eq!(entries(&lib.interface), vec![(DeclKind::Fn, "run".to_string())]);
    assert!(lib.modules.is_empty());
}

#[test]
fn module_without_file_is_an_empty_leaf() {
    let disk = [("/p/src", None), ("/p/src/lib.rs", Some("mod a;\n"))];
    let lib = analyze(&disk, "/p/src/lib.rs").unwrap();
    assert_eq!(lib.modules.len(), 1);
    let a = &lib.modules[0];
    assert_eq!(a.name, "a");
    assert_eq!(a.usepath, "crate::a");
    assert!(a.backing_file.is_none());
    assert!(a.interface.is_empty());
    assert!(a.children.is_empty());
    assert!(a.dependencies.is_empty());
}

#[test]
fn inline_module_with_body_is_an_empty_leaf_and_an_interface_entry() {
    let disk = [("/p/src", None), ("/p/src/lib.rs", Some("pub mod a { pub fn f() {} }\n"))];
    let lib = analyze(&disk, "/p/src/lib.rs").unwrap();
    assert_eq!(entries(&lib.interface), vec![(DeclKind::Mod, "a".to_string())]);
    assert_eq!(lib.modules.len(), 1);
    assert!(lib.modules[0].interface.is_empty());
}

#[test]
fn sibling_file_module_renders_its_block() {
    let disk = [
        ("/p/src", None),
        ("/p/src/lib.rs", Some("mod b;\n")),
        ("/p/src/b.rs", Some("pub struct S;\n")),
    ];
    let lib = analyze(&disk, "/p/src/lib.rs").unwrap();
    assert_eq!(lib.modules[0].backing_file.as_deref(), Some("/p/src/b.rs"));
    let text = lib.create_mermaid();
    assert!(text.contains("  \"crate::b\" {\n    struct S\n  }\n"));
}

#[test]
fn both_conventions_are_merged_index_file_first() {
    let disk = [
        ("/p/src", None),
        ("/p/src/lib.rs", Some("pub mod c;\n")),
        ("/p/src/c", None),
        ("/p/src/c/mod.rs", Some("pub fn one() {}\n")),
        ("/p/src/c.rs", Some("pub fn two() {}\n")),
    ];
    let lib = analyze(&disk, "/p/src/lib.rs").unwrap();
    let c = &lib.modules[0];
    assert_eq!(
        entries(&c.interface),
        vec![(DeclKind::Fn, "one".to_string()), (DeclKind::Fn, "two".to_string())]
    );
    assert_eq!(c.backing_file.as_deref(), Some("/p/src/c/mod.rs"));
}

#[test]
fn nested_modules_get_joined_paths() {
    let disk = [
        ("/p/src", None),
        ("/p/src/lib.rs", Some("pub mod a;\n")),
        ("/p/src/a.rs", Some("pub mod b;\npub const K: u8 = 1;\n")),
        ("/p/src/a", None),
        ("/p/src/a/b.rs", Some("mod c;\npub enum E {}\n")),
        ("/p/src/a/b", None),
        ("/p/src/a/b/c", None),
        ("/p/src/a/b/c/mod.rs", Some("pub type T = u8;\n")),
    ];
    let lib = analyze(&disk, "/p/src/lib.rs").unwrap();
    let a = &lib.modules[0];
    assert_eq!(a.usepath, "crate::a");
    assert_eq!(entries(&a.interface), vec![(DeclKind::Mod, "b".to_string()), (DeclKind::Const, "K".to_string())]);
    let b = &a.children[0];
    assert_eq!(b.usepath, "crate::a::b");
    assert_eq!(b.name, "b");
    assert_eq!(entries(&b.interface), vec![(DeclKind::Enum, "E".to_string())]);
    let c = &b.children[0];
    assert_eq!(c.usepath, "crate::a::b::c");
    assert_eq!(entries(&c.interface), vec![(DeclKind::Type, "T".to_string())]);
}

#[test]
fn child_whose_directory_is_absent_is_an_empty_leaf() {
    let disk = [
        ("/p/src", None),
        ("/p/src/lib.rs", Some("mod a;\n")),
        ("/p/src/a.rs", Some("mod b;\npub fn f() {}\n")),
    ];
    let lib = analyze(&disk, "/p/src/lib.rs").unwrap();
    let a = &lib.modules[0];
    assert_eq!(entries(&a.interface), vec![(DeclKind::Fn, "f".to_string())]);
    assert_eq!(a.children.len(), 1);
    let b = &a.children[0];
    assert_eq!(b.name, "b");
    assert_eq!(b.usepath, "crate::a::b");
    assert!(b.backing_file.is_none());
    assert!(b.interface.is_empty());
    assert!(b.children.is_empty());
    assert!(b.dependencies.is_empty());
}

#[test]
fn module_built_directly_merges_both_files() {
    let mut tree = SourceTree::new();
    tree.record("/p/src".to_string(), Entry::Directory);
    tree.record_source("/p/src/c/mod.rs".to_string(), "pub fn one() {}\npub fn same() {}\n");
    tree.record_source("/p/src/c.rs".to_string(), "pub fn same() {}\npub fn two() {}\n");
    tree.record("/p/src/c".to_string(), Entry::Absent);
    let c = Module::from_path(&tree, "k::c".to_string(), "c".to_string(), "/p/src").unwrap();
    assert_eq!(
        entries(&c.interface),
        vec![
            (DeclKind::Fn, "one".to_string()),
            (DeclKind::Fn, "same".to_string()),
            (DeclKind::Fn, "same".to_string()),
            (DeclKind::Fn, "two".to_string()),
        ]
    );
    assert!(c.dependencies.is_empty());
}

#[test]
fn module_built_directly_without_files_is_an_empty_leaf() {
    let mut tree = SourceTree::new();
    tree.record("/p/src".to_string(), Entry::Directory);
    tree.record("/p/src/z/mod.rs".to_string(), Entry::Absent);
    tree.record("/p/src/z.rs".to_string(), Entry::Absent);
    let z = Module::from_path(&tree, "k::z".to_string(), "z".to_string(), "/p/src").unwrap();
    assert_eq!(z.usepath, "k::z");
    assert!(z.backing_file.is_none() && z.interface.is_empty() && z.children.is_empty());
}

#[test]
fn full_mermaid_document() {
    let disk = [
        ("/p/src", None),
        ("/p/src/lib.rs", Some("pub mod a;\nmod z;\npub fn run() {}\n")),
        ("/p/src/a.rs", Some("pub mod b;\npub struct S;\n")),
        ("/p/src/a", None),
        ("/p/src/a/b.rs", Some("pub trait T {}\n")),
    ];
    let lib = analyze(&disk, "/p/src/lib.rs").unwrap();
    let expected = [
        "---\n",
        "title: crate entity diagram\n",
        "---\n",
        "erDiagram\n",
        "  \"crate\" ||--|{ \"crate::a\" : \"\"\n",
        "  \"crate::a\" ||--|{ \"crate::a::b\" : \"\"\n",
        "  \"crate::a::b\" {\n",
        "    trait T\n",
        "  }\n",
        "  \"crate::a\" {\n",
        "    mod b\n",
        "    struct S\n",
        "  }\n",
        "  \"crate\" ||--|{ \"crate::z\" : \"\"\n",
        "  \"crate::z\" {\n",
        "  }\n",
        "  \"crate\" {\n",
        "    mod a\n",
        "    fn run\n",
        "  }\n",
    ]
    .concat();
    assert_eq!(lib.create_mermaid(), expected);
}

#[test]
fn rendering_twice_is_identical() {
    let disk = [
        ("/p/src", None),
        ("/p/src/lib.rs", Some("pub mod a;\npub fn run() {}\n")),
        ("/p/src/a.rs", Some("pub struct S;\n")),
    ];
    let lib = analyze(&disk, "/p/src/lib.rs").unwrap();
    assert_eq!(lib.create_mermaid(), lib.create_mermaid());
    assert_eq!(lib.create_dot(), lib.create_dot());
}

#[test]
fn dot_document() {
    let disk = [
        ("/p/src", None),
        ("/p/src/lib.rs", Some("pub mod a;\n")),
        ("/p/src/a.rs", Some("pub mod b;\n")),
        ("/p/src/a", None),
        ("/p/src/a/b.rs", Some("")),
    ];
    let lib = analyze(&disk, "/p/src/lib.rs").unwrap();
    assert_eq!(
        lib.create_dot(),
        "graph graphname {\n\"crate\" -- \"crate::a\"\n\"crate::a\" -- \"crate::a::b\"\n}\n"
    );
}

#[test]
fn entry_file_must_be_named_lib_rs() {
    let disk = [("/p/src", None), ("/p/src/main.rs", Some("pub fn run() {}\n"))];
    let e = analyze(&disk, "/p/src/main.rs").unwrap_err();
    assert_eq!(e.kind, ErrorKind::MissingInput);
    assert_eq!(e.path, "/p/src/main.rs");
}

#[test]
fn absent_entry_file_is_missing_input() {
    let e = analyze(&[], "/p/src/lib.rs").unwrap_err();
    assert_eq!(e.kind, ErrorKind::MissingInput);
}

#[test]
fn malformed_module_file_is_a_parse_failure() {
    let disk = [
        ("/p/src", None),
        ("/p/src/lib.rs", Some("mod a;\n")),
        ("/p/src/a.rs", Some("pub fn (\n")),
    ];
    let e = analyze(&disk, "/p/src/lib.rs").unwrap_err();
    assert_eq!(e.kind, ErrorKind::ParseFailure);
    assert_eq!(e.path, "/p/src/a.rs");
}

#[test]
fn malformed_entry_file_is_a_parse_failure() {
    let disk = [("/p/src", None), ("/p/src/lib.rs", Some("fn {"))];
    let e = analyze(&disk, "/p/src/lib.rs").unwrap_err();
    assert_eq!(e.kind, ErrorKind::ParseFailure);
}

#[test]
fn unprobed_path_is_named() {
    let tree = SourceTree::new();
    let e = Lib::from_path(&tree, "crate", "/p/src/lib.rs").unwrap_err();
    assert_eq!(e.kind, ErrorKind::Unprobed);
    assert_eq!(e.path, "/p/src/lib.rs");
}

#[test]
fn candidate_that_is_a_directory_is_missing_input() {
    let disk = [
        ("/p/src", None),
        ("/p/src/lib.rs", Some("mod a;\n")),
        ("/p/src/a.rs", None),
    ];
    let e = analyze(&disk, "/p/src/lib.rs").unwrap_err();
    assert_eq!(e.kind, ErrorKind::MissingInput);
    assert_eq!(e.path, "/p/src/a.rs");
}

#[test]
fn declaring_directory_that_looks_like_a_source_file_is_refused() {
    let disk = [("/p/x.rs", None), ("/p/x.rs/lib.rs", Some("mod a;\n"))];
    let e = analyze(&disk, "/p/x.rs/lib.rs").unwrap_err();
    assert_eq!(e.kind, ErrorKind::MissingInput);
    assert_eq!(e.path, "/p/x.rs");
}

#[test]
fn manifest_is_found_in_the_nearest_directory_above() {
    let mut tree = SourceTree::new();
    tree.record("/p/sub".to_string(), Entry::Directory);
    tree.record("/p/sub/Cargo.toml".to_string(), Entry::Absent);
    tree.record("/p/Cargo.toml".to_string(), Entry::File);
    assert_eq!(find_cargo_toml(&tree, "/p/sub").unwrap(), Some("/p/Cargo.toml".to_string()));
}

#[test]
fn manifest_search_stops_at_the_root() {
    let mut tree = SourceTree::new();
    tree.record("/p".to_string(), Entry::Directory);
    tree.record("/p/Cargo.toml".to_string(), Entry::Absent);
    tree.record("/Cargo.toml".to_string(), Entry::Directory);
    assert_eq!(find_cargo_toml(&tree, "/p").unwrap(), None);
}

#[test]
fn manifest_search_names_the_next_path_to_probe() {
    let mut tree = SourceTree::new();
    tree.record("/p/q".to_string(), Entry::Directory);
    tree.record("/p/q/Cargo.toml".to_string(), Entry::Absent);
    let e = find_cargo_toml(&tree, "/p/q").unwrap_err();
    assert_eq!(e.kind, ErrorKind::Unprobed);
    assert_eq!(e.path, "/p/Cargo.toml");
}

#[test]
fn manifest_search_from_a_file_is_refused() {
    let mut tree = SourceTree::new();
    tree.record("/p/notes.txt".to_string(), Entry::File);
    let e = find_cargo_toml(&tree, "/p/notes.txt").unwrap_err();
    assert_eq!(e.kind, ErrorKind::MissingInput);
    assert_eq!(e.path, "/p/notes.txt");
}

#[test]
fn module_names_holding_colons_are_not_modules() {
    assert!(thigpen::tree::is_plain_name("a"));
    assert!(!thigpen::tree::is_plain_name("a::b"));
    assert!(!thigpen::tree::is_plain_name(""));
}
