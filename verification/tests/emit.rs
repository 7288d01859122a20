use algosul::emit::assemble;
use algosul::filter::ContentKind;
use algosul::namespace::{Constant, Namespace, Node};

fn constant(identifier: &str, kind: ContentKind, source_path: &str) -> Node {
    Node::Constant(Constant {
        identifier: identifier.to_string(),
        kind,
        source_path: source_path.to_string(),
    })
}

#[test]
fn assemble_of_an_empty_namespace() {
    let tree = Namespace { identifier: "assets".to_string(), children: vec![] };
    assert_eq!(assemble(&tree), "pub mod assets {\n}\n");
}

#[test]
fn assemble_of_a_tree() {
    let tree = Namespace {
        identifier: "assets".to_string(),
        children: vec![
            Node::Namespace(Namespace {
                identifier: "images".to_string(),
                children: vec![constant("logo", ContentKind::Binary, "images/logo.png")],
            }),
            Node::Namespace(Namespace {
                identifier: "lang".to_string(),
                children: vec![
                    constant("en_US", ContentKind::Text, "lang/en-US.toml"),
                    constant("zh_CN", ContentKind::Text, "lang/zh-CN.toml"),
                ],
            }),
            constant("top", ContentKind::Text, "top.txt"),
        ],
    };
    let expected = "pub mod assets {\n\
                    \x20   pub mod images {\n\
                    \x20       pub const logo: &[u8] = include_bytes!(\"images/logo.png\");\n\
                    \x20   }\n\
                    \x20   pub mod lang {\n\
                    \x20       pub const en_US: &str = include_str!(\"lang/en-US.toml\");\n\
                    \x20       pub const zh_CN: &str = include_str!(\"lang/zh-CN.toml\");\n\
                    \x20   }\n\
                    \x20   pub const top: &str = include_str!(\"top.txt\");\n\
                    }\n";
    assert_eq!(assemble(&tree), expected);
}

#[test]
fn assemble_escapes_the_path() {
    let tree = Namespace {
        identifier: "a".to_string(),
        children: vec![constant("q", ContentKind::Text, "a \"b\"\\c\n\r\td")],
    };
    assert_eq!(
        assemble(&tree),
        "pub mod a {\n    pub const q: &str = include_str!(\"a \\\"b\\\"\\\\c\\n\\r\\td\");\n}\n"
    );
}

#[test]
fn collisions_are_found_at_every_level() {
    let free = Namespace {
        identifier: "a".to_string(),
        children: vec![
            constant("x", ContentKind::Text, "x.txt"),
            Node::Namespace(Namespace {
                identifier: "y".to_string(),
                children: vec![constant("x", ContentKind::Text, "y/x.txt")],
            }),
        ],
    };
    assert!(free.is_collision_free());
    assert!(Namespace { identifier: "a".to_string(), children: vec![] }.is_collision_free());
    let top = Namespace {
        identifier: "a".to_string(),
        children: vec![
            constant("x", ContentKind::Text, "x.txt"),
            constant("y", ContentKind::Text, "y.txt"),
            Node::Namespace(Namespace { identifier: "x".to_string(), children: vec![] }),
        ],
    };
    assert!(!top.is_collision_free());
    let deep = Namespace {
        identifier: "a".to_string(),
        children: vec![Node::Namespace(Namespace {
            identifier: "b".to_string(),
            children: vec![
                constant("a_b", ContentKind::Text, "b/a-b.txt"),
                constant("a_b", ContentKind::Binary, "b/a b.png"),
            ],
        })],
    };
    assert!(!deep.is_collision_free());
    assert_eq!(top.children[2].identifier(), "x");
}

#[test]
fn paths_are_moved_to_another_directory() {
    let tree = Namespace {
        identifier: "a".to_string(),
        children: vec![
            constant("x", ContentKind::Text, "x.txt"),
            Node::Namespace(Namespace {
                identifier: "y".to_string(),
                children: vec![
                    constant("p", ContentKind::Binary, "y/p.png"),
                    constant("q", ContentKind::Text, "y/q.txt"),
                ],
            }),
            constant("z", ContentKind::Text, "z.txt"),
        ],
    };
    let moved = tree.rebased("../rc/");
    let expected = Namespace {
        identifier: "a".to_string(),
        children: vec![
            constant("x", ContentKind::Text, "../rc/x.txt"),
            Node::Namespace(Namespace {
                identifier: "y".to_string(),
                children: vec![
                    constant("p", ContentKind::Binary, "../rc/y/p.png"),
                    constant("q", ContentKind::Text, "../rc/y/q.txt"),
                ],
            }),
            constant("z", ContentKind::Text, "../rc/z.txt"),
        ],
    };
    assert_eq!(moved, expected);
    let same = Namespace { identifier: "e".to_string(), children: vec![] }.rebased("x/");
    assert_eq!(same, Namespace { identifier: "e".to_string(), children: vec![] });
}
