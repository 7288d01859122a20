use algosul::filter::{
    ClassifiedFilterSet, ContentKind, FileFilter, FileFilterItem, FilterError, FilterPattern,
};

fn group(includes: &[&str], excludes: &[&str]) -> FileFilterItem {
    FileFilterItem::new(includes, excludes).unwrap()
}

#[test]
fn pattern_keeps_its_source_text() {
    let p = FilterPattern::new("lang/*.toml").unwrap();
    assert_eq!(p.as_str(), "lang/*.toml");
    assert!(p.matches("lang/en-US.toml"));
    assert!(!p.matches("images/logo.png"));
}

#[test]
fn pattern_star_crosses_directories() {
    let p = FilterPattern::new("*.png").unwrap();
    assert!(p.matches("x.png"));
    assert!(p.matches("private/x.png"));
}

#[test]
fn malformed_pattern_is_reported_when_it_is_compiled() {
    match FilterPattern::new("a**b") {
        Err(FilterError::InvalidPattern { pattern, message }) => {
            assert_eq!(pattern, "a**b");
            assert!(!message.is_empty());
        }
        Ok(_) => panic!("a**b should not compile"),
    }
    assert!(FilterPattern::new("[unclosed").is_err());
    assert!(FilterPattern::new("***").is_err());
}

#[test]
fn group_with_a_malformed_pattern_is_refused() {
    assert!(FileFilterItem::new(&["*.txt", "[x"], &[]).is_err());
    assert!(FileFilterItem::new(&["*.txt"], &["a**"]).is_err());
    let g = group(&["*.txt", "*.md"], &["secret*"]);
    assert_eq!(g.includes.len(), 2);
    assert_eq!(g.excludes.len(), 1);
    assert_eq!(g.includes[1].as_str(), "*.md");
    assert_eq!(g.excludes[0].as_str(), "secret*");
}

#[test]
fn group_without_includes_holds_nothing() {
    let g = group(&[], &[]);
    assert!(!g.path_is_in("a.txt"));
    assert!(!g.path_is_in(""));
    let g = group(&[], &["*.txt"]);
    assert!(!g.path_is_in("a.md"));
}

#[test]
fn exclude_takes_precedence() {
    let g = group(&["*.png"], &["private/*.png"]);
    assert!(g.dir_is_in_includes("private/x.png"));
    assert!(g.dir_is_in_excludes("private/x.png"));
    assert!(!g.path_is_in("private/x.png"));
    assert!(g.path_is_in("public/x.png"));
    assert!(!g.dir_is_in_excludes("public/x.png"));
}

#[test]
fn filter_holds_a_path_of_any_of_its_groups() {
    let f = FileFilter { items: vec![group(&["*.txt"], &["b.txt"]), group(&["*.md"], &[])] };
    assert!(f.path_is_in("a.txt"));
    assert!(!f.path_is_in("b.txt"));
    assert!(f.path_is_in("b.md"));
    assert!(!f.path_is_in("c.png"));
    assert!(f.dir_is_in_includes("b.txt"));
    assert!(f.dir_is_in_excludes("b.txt"));
    assert!(!f.dir_is_in_excludes("a.txt"));
    let empty = FileFilter { items: vec![] };
    assert!(!empty.path_is_in("a.txt"));
}

#[test]
fn first_matching_group_decides_the_kind() {
    let mut set = ClassifiedFilterSet::new();
    set.push(ContentKind::Text, group(&["*.txt"], &[]));
    set.push(ContentKind::Binary, group(&["**"], &[]));
    assert_eq!(set.classify("a.txt"), Some(ContentKind::Text));
    assert_eq!(set.classify("a.bin"), Some(ContentKind::Binary));

    let mut turned = ClassifiedFilterSet::new();
    turned.push(ContentKind::Binary, group(&["**"], &[]));
    turned.push(ContentKind::Text, group(&["*.txt"], &[]));
    assert_eq!(turned.classify("a.txt"), Some(ContentKind::Binary));
}

#[test]
fn unmatched_path_has_no_kind() {
    let mut set = ClassifiedFilterSet::new();
    assert_eq!(set.classify("lang/readme.md"), None);
    set.push(ContentKind::Text, group(&["lang/*.toml"], &[]));
    set.push(ContentKind::Binary, group(&["images/*.png"], &[]));
    assert_eq!(set.classify("lang/readme.md"), None);
    assert_eq!(set.classify("lang/en-US.toml"), Some(ContentKind::Text));
    assert_eq!(set.classify("images/logo.png"), Some(ContentKind::Binary));
}

#[test]
fn flat_filter_stands_for_text() {
    let f = FileFilter { items: vec![group(&["*.txt"], &[]), group(&["*.md"], &["x*"])] };
    let set = ClassifiedFilterSet::flat(f);
    assert_eq!(set.groups.len(), 2);
    assert_eq!(set.classify("a.txt"), Some(ContentKind::Text));
    assert_eq!(set.classify("a.md"), Some(ContentKind::Text));
    assert_eq!(set.classify("x.md"), None);
    assert_eq!(set.classify("a.png"), None);
}

#[test]
fn block_appends_its_groups_in_order() {
    let mut set = ClassifiedFilterSet::new();
    set.push(ContentKind::Binary, group(&["*.png"], &[]));
    set.add_block(
        ContentKind::Text,
        FileFilter { items: vec![group(&["a*"], &[]), group(&["b*"], &[]), group(&["c*"], &[])] },
    );
    assert_eq!(set.groups.len(), 4);
    assert_eq!(set.groups[0].kind, ContentKind::Binary);
    assert_eq!(set.groups[1].group.includes[0].as_str(), "a*");
    assert_eq!(set.groups[2].group.includes[0].as_str(), "b*");
    assert_eq!(set.groups[3].group.includes[0].as_str(), "c*");
    assert_eq!(set.groups[3].kind, ContentKind::Text);
    assert_eq!(set.classify("a.png"), Some(ContentKind::Binary));
    assert_eq!(set.classify("c.txt"), Some(ContentKind::Text));
}

#[test]
fn ignored_group_comes_before_all_others() {
    let mut set = ClassifiedFilterSet::new();
    set.push(ContentKind::Text, group(&["**"], &[]));
    assert_eq!(set.classify(".gitignore"), Some(ContentKind::Text));
    set.set_ignored(group(&[".gitignore", "**/.gitignore"], &[]));
    assert_eq!(set.classify(".gitignore"), None);
    assert_eq!(set.classify("lang/.gitignore"), None);
    assert_eq!(set.classify("lang/a.toml"), Some(ContentKind::Text));
}

#[test]
fn backslashes_become_forward_slashes() {
    use_forward("..\\rc\\lang", "../rc/lang");
    use_forward("a/b", "a/b");
    use_forward("", "");
    use_forward("\\\\", "//");
}

fn use_forward(given: &str, expected: &str) {
    assert_eq!(algosul::filter::to_forward_slashes(given), expected);
}
