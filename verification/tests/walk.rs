use algosul::emit::assemble;
use algosul::filter::{ClassifiedFilterSet, ContentKind, FileFilterItem};
use algosul::namespace::{Namespace, Node};
use algosul::order::name_less;
use algosul::listing::{file_stem, sort_listing, DirEntry};
use algosul::walk::{passed_over, walk, PassedOver, Reason};

fn file(name: &str) -> DirEntry {
    DirEntry::File { name: name.to_string() }
}

fn dir(name: &str, entries: Vec<DirEntry>) -> DirEntry {
    DirEntry::Directory { name: name.to_string(), entries }
}

fn assets_filter() -> ClassifiedFilterSet {
    let mut set = ClassifiedFilterSet::new();
    set.push(ContentKind::Text, FileFilterItem::new(&["lang/*.toml"], &[]).unwrap());
    set.push(ContentKind::Binary, FileFilterItem::new(&["images/*.png"], &[]).unwrap());
    set
}

fn namespace_at(ns: &Namespace, i: usize) -> &Namespace {
    match &ns.children[i] {
        Node::Namespace(n) => n,
        Node::Constant(_) => panic!("child {i} is a constant"),
    }
}

fn constant_at(ns: &Namespace, i: usize) -> (String, ContentKind, String) {
    match &ns.children[i] {
        Node::Constant(c) => (c.identifier.clone(), c.kind, c.source_path.clone()),
        Node::Namespace(_) => panic!("child {i} is a namespace"),
    }
}

fn names(entries: &[DirEntry]) -> Vec<String> {
    entries.iter().map(|e| e.name().to_string()).collect()
}

#[test]
fn walk_end_to_end() {
    let listing = vec![
        dir("lang", vec![file("zh-CN.toml"), file("en-US.toml")]),
        dir("images", vec![file("logo.png")]),
    ];
    let tree = walk("assets", listing, &assets_filter());
    assert_eq!(tree.identifier, "assets");
    assert_eq!(tree.children.len(), 2);
    let images = namespace_at(&tree, 0);
    assert_eq!(images.identifier, "images");
    assert_eq!(images.children.len(), 1);
    assert_eq!(
        constant_at(images, 0),
        ("logo".to_string(), ContentKind::Binary, "images/logo.png".to_string())
    );
    let lang = namespace_at(&tree, 1);
    assert_eq!(lang.identifier, "lang");
    assert_eq!(lang.children.len(), 2);
    assert_eq!(
        constant_at(lang, 0),
        ("en_US".to_string(), ContentKind::Text, "lang/en-US.toml".to_string())
    );
    assert_eq!(
        constant_at(lang, 1),
        ("zh_CN".to_string(), ContentKind::Text, "lang/zh-CN.toml".to_string())
    );
}

#[test]
fn unmatched_file_yields_no_constant() {
    let listing = vec![dir("lang", vec![file("readme.md"), file("en-US.toml")])];
    let tree = walk("assets", listing, &assets_filter());
    let lang = namespace_at(&tree, 0);
    assert_eq!(lang.children.len(), 1);
    assert_eq!(constant_at(lang, 0).0, "en_US");

    let only_unmatched = vec![dir("lang", vec![file("readme.md")])];
    let tree = walk("assets", only_unmatched, &assets_filter());
    assert_eq!(tree.children.len(), 1);
    assert_eq!(namespace_at(&tree, 0).children.len(), 0);
}

#[test]
fn other_entries_are_passed_over() {
    let listing = vec![
        DirEntry::Other { name: "socket".to_string() },
        dir("lang", vec![DirEntry::Other { name: "a.toml".to_string() }, file("b.toml")]),
    ];
    let tree = walk("assets", listing, &assets_filter());
    assert_eq!(tree.children.len(), 1);
    let lang = namespace_at(&tree, 0);
    assert_eq!(lang.children.len(), 1);
    assert_eq!(constant_at(lang, 0).2, "lang/b.toml");
}

#[test]
fn empty_directory_becomes_an_empty_namespace() {
    let tree = walk("assets", vec![dir("empty", vec![])], &assets_filter());
    assert_eq!(tree.children.len(), 1);
    assert_eq!(namespace_at(&tree, 0).identifier, "empty");
    assert_eq!(namespace_at(&tree, 0).children.len(), 0);
    let tree = walk("assets", vec![], &assets_filter());
    assert_eq!(tree.children.len(), 0);
}

#[test]
fn names_are_sanitised() {
    let mut set = ClassifiedFilterSet::new();
    set.push(ContentKind::Text, FileFilterItem::new(&["**"], &[]).unwrap());
    let listing = vec![dir("my dir", vec![file("0.png"), file("a-b c.txt"), file(".hidden")])];
    let tree = walk("my-assets", listing, &set);
    assert_eq!(tree.identifier, "my_assets");
    let d = namespace_at(&tree, 0);
    assert_eq!(d.identifier, "my_dir");
    assert_eq!(constant_at(d, 0), ("_hidden".to_string(), ContentKind::Text, "my dir/.hidden".to_string()));
    assert_eq!(constant_at(d, 1).0, "_0");
    assert_eq!(constant_at(d, 2).0, "a_b_c");
}

#[test]
fn nested_directories_extend_the_path() {
    let mut set = ClassifiedFilterSet::new();
    set.push(ContentKind::Binary, FileFilterItem::new(&["a/b/*.bin"], &[]).unwrap());
    let listing = vec![dir("a", vec![dir("b", vec![file("x.bin")]), file("x.bin")])];
    let tree = walk("root", listing, &set);
    let a = namespace_at(&tree, 0);
    assert_eq!(a.children.len(), 1);
    let b = namespace_at(a, 0);
    assert_eq!(
        constant_at(b, 0),
        ("x".to_string(), ContentKind::Binary, "a/b/x.bin".to_string())
    );
}

#[test]
fn walk_does_not_depend_on_the_order_of_the_listing() {
    let one = vec![
        dir("lang", vec![file("zh-CN.toml"), file("en-US.toml"), file("readme.md")]),
        dir("images", vec![file("logo.png"), file("icon.png")]),
        file("top.txt"),
    ];
    let two = vec![
        file("top.txt"),
        dir("images", vec![file("icon.png"), file("logo.png")]),
        dir("lang", vec![file("readme.md"), file("en-US.toml"), file("zh-CN.toml")]),
    ];
    let a = assemble(&walk("assets", one, &assets_filter()));
    let b = assemble(&walk("assets", two, &assets_filter()));
    assert_eq!(a, b);
}

#[test]
fn two_runs_give_the_same_text() {
    let make = || {
        vec![
            dir("lang", vec![file("en-US.toml"), file("zh-CN.toml")]),
            dir("images", vec![file("logo.png")]),
        ]
    };
    let a = assemble(&walk("assets", make(), &assets_filter()));
    let b = assemble(&walk("assets", make(), &assets_filter()));
    assert_eq!(a, b);
}

#[test]
fn sort_listing_orders_every_level_by_name() {
    let sorted = sort_listing(vec![
        file("b"),
        dir("a", vec![file("z"), file("y"), dir("x", vec![file("2"), file("1")])]),
        file("B"),
        file("ab"),
    ]);
    assert_eq!(names(&sorted), ["B", "a", "ab", "b"]);
    match &sorted[1] {
        DirEntry::Directory { entries, .. } => {
            assert_eq!(names(entries), ["x", "y", "z"]);
            match &entries[0] {
                DirEntry::Directory { entries, .. } => assert_eq!(names(entries), ["1", "2"]),
                _ => panic!("x is a directory"),
            }
        }
        _ => panic!("a is a directory"),
    }
}

#[test]
fn sort_listing_keeps_entries_of_one_name_in_their_order() {
    let sorted = sort_listing(vec![dir("a", vec![]), file("a"), file("0")]);
    assert_eq!(names(&sorted), ["0", "a", "a"]);
    assert!(matches!(sorted[1], DirEntry::Directory { .. }));
    assert!(matches!(sorted[2], DirEntry::File { .. }));
}

#[test]
fn name_less_is_the_order_of_strings() {
    let samples = ["", "a", "ab", "b", "B", "é", "a/b", "日本", "z", "aa"];
    for a in samples {
        for b in samples {
            assert_eq!(name_less(a, b), a < b, "{a:?} < {b:?}");
        }
    }
}

#[test]
fn file_stem_drops_the_last_extension() {
    assert_eq!(file_stem("en-US.toml"), "en-US");
    assert_eq!(file_stem("archive.tar.gz"), "archive.tar");
    assert_eq!(file_stem("README"), "README");
    assert_eq!(file_stem(".gitignore"), ".gitignore");
    assert_eq!(file_stem(".hidden.txt"), ".hidden");
    assert_eq!(file_stem("a."), "a");
    assert_eq!(file_stem(""), "");
    assert_eq!(file_stem("é.ü"), "é");
}

#[test]
fn what_a_walk_passes_over() {
    let listing = vec![
        dir("lang", vec![file("readme.md"), file("en-US.toml"), DirEntry::Other { name: "pipe".to_string() }]),
        file("top.txt"),
        dir("images", vec![file("logo.png"), dir("raw", vec![file("logo.xcf")])]),
    ];
    let passed = passed_over(&listing, &assets_filter());
    let expected = [
        ("lang/readme.md", Reason::Unclassified),
        ("lang/pipe", Reason::UnknownType),
        ("top.txt", Reason::Unclassified),
        ("images/raw/logo.xcf", Reason::Unclassified),
    ];
    assert_eq!(
        passed,
        expected
            .iter()
            .map(|(path, reason)| PassedOver { path: path.to_string(), reason: *reason })
            .collect::<Vec<_>>()
    );
    assert!(passed_over(&vec![], &assets_filter()).is_empty());
}
