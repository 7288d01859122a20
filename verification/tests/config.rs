use algosul::config::{BlockSpec, Config, FilterSpec, GroupSpec};
use algosul::filter::{ContentKind, FilterError};
use algosul::listing::DirEntry;

fn group(includes: &[&str], excludes: &[&str]) -> GroupSpec {
    GroupSpec {
        includes: includes.iter().map(|s| s.to_string()).collect(),
        excludes: excludes.iter().map(|s| s.to_string()).collect(),
    }
}

fn file(name: &str) -> DirEntry {
    DirEntry::File { name: name.to_string() }
}

fn dir(name: &str, entries: Vec<DirEntry>) -> DirEntry {
    DirEntry::Directory { name: name.to_string(), entries }
}

fn assets() -> Config {
    Config {
        module_identifier: "assets".to_string(),
        filter_spec: FilterSpec::Tagged(vec![
            BlockSpec { kind: ContentKind::Text, groups: vec![group(&["lang/*.toml"], &[])] },
            BlockSpec { kind: ContentKind::Binary, groups: vec![group(&["images/*.png"], &[])] },
        ]),
    }
}

#[test]
fn group_compiles_its_patterns_in_order() {
    let g = group(&["*.a", "*.b"], &["x*"]).compile().unwrap();
    assert_eq!(g.includes.iter().map(|p| p.as_str()).collect::<Vec<_>>(), ["*.a", "*.b"]);
    assert_eq!(g.excludes.iter().map(|p| p.as_str()).collect::<Vec<_>>(), ["x*"]);
    assert!(group(&[], &[]).compile().is_ok());
}

#[test]
fn first_malformed_pattern_is_reported() {
    let r = group(&["ok", "a**", "[b"], &["***"]).compile();
    assert!(matches!(r, Err(FilterError::InvalidPattern { pattern, .. }) if pattern == "a**"));
    let r = group(&["ok"], &["fine", "[b"]).compile();
    assert!(matches!(r, Err(FilterError::InvalidPattern { pattern, .. }) if pattern == "[b"));
}

#[test]
fn flat_filter_compiles_to_text_groups() {
    let set = FilterSpec::Flat(vec![group(&["*.txt"], &[]), group(&["*.md"], &["x*"])])
        .compile()
        .unwrap();
    assert_eq!(set.groups.len(), 2);
    assert!(set.groups.iter().all(|g| g.kind == ContentKind::Text));
    assert!(set.ignored.includes.is_empty() && set.ignored.excludes.is_empty());
    assert_eq!(set.classify("a.md"), Some(ContentKind::Text));
    assert_eq!(set.classify("x.md"), None);
}

#[test]
fn tagged_filter_compiles_its_blocks_in_order() {
    let spec = FilterSpec::Tagged(vec![
        BlockSpec { kind: ContentKind::Binary, groups: vec![group(&["a*"], &[]), group(&["b*"], &[])] },
        BlockSpec { kind: ContentKind::Text, groups: vec![] },
        BlockSpec { kind: ContentKind::Text, groups: vec![group(&["**"], &[])] },
    ]);
    let set = spec.compile().unwrap();
    let seen: Vec<(ContentKind, &str)> =
        set.groups.iter().map(|g| (g.kind, g.group.includes[0].as_str())).collect();
    assert_eq!(
        seen,
        [(ContentKind::Binary, "a*"), (ContentKind::Binary, "b*"), (ContentKind::Text, "**")]
    );
    assert_eq!(set.classify("b.txt"), Some(ContentKind::Binary));
    assert_eq!(set.classify("c.txt"), Some(ContentKind::Text));
    assert!(FilterSpec::Tagged(vec![]).compile().unwrap().groups.is_empty());
}

#[test]
fn tagged_filter_with_a_malformed_pattern_is_refused() {
    let spec = FilterSpec::Tagged(vec![
        BlockSpec { kind: ContentKind::Text, groups: vec![group(&["fine"], &[])] },
        BlockSpec { kind: ContentKind::Binary, groups: vec![group(&["ok"], &["[x"])] },
    ]);
    assert!(matches!(
        spec.compile(),
        Err(FilterError::InvalidPattern { pattern, .. }) if pattern == "[x"
    ));
}

#[test]
fn generation_end_to_end() {
    let listing = vec![
        dir("lang", vec![file("zh-CN.toml"), file("readme.md"), file("en-US.toml")]),
        dir("images", vec![file("logo.png")]),
    ];
    let text = assets().generate(listing).unwrap();
    let expected = "pub mod assets {\n\
                    \x20   pub mod images {\n\
                    \x20       pub const logo: &[u8] = include_bytes!(\"images/logo.png\");\n\
                    \x20   }\n\
                    \x20   pub mod lang {\n\
                    \x20       pub const en_US: &str = include_str!(\"lang/en-US.toml\");\n\
                    \x20       pub const zh_CN: &str = include_str!(\"lang/zh-CN.toml\");\n\
                    \x20   }\n\
                    }\n";
    assert_eq!(text, expected);
}

#[test]
fn generation_stops_at_a_malformed_pattern() {
    let config = Config {
        module_identifier: "assets".to_string(),
        filter_spec: FilterSpec::Flat(vec![group(&["a/**b"], &[])]),
    };
    assert!(matches!(
        config.generate(vec![file("a")]),
        Err(FilterError::InvalidPattern { pattern, .. }) if pattern == "a/**b"
    ));
}
