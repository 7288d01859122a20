use algosul::config::{BlockSpec, Config, FilterSpec, GroupSpec};
use algosul::declaration::Declaration;
use algosul::filter::ContentKind;
use algosul::syntax::{tokenize, SyntaxError, Token};

fn group(includes: &[&str], excludes: &[&str]) -> GroupSpec {
    GroupSpec {
        includes: includes.iter().map(|s| s.to_string()).collect(),
        excludes: excludes.iter().map(|s| s.to_string()).collect(),
    }
}

fn word(w: &str) -> Token {
    Token::Word(w.to_string())
}

fn text(t: &str) -> Token {
    Token::Text(t.to_string())
}

#[test]
fn tokens_of_a_declaration() {
    let tokens = tokenize("pub mod a_1 from \"../rc\" {\n\ttext [include [\"*.toml\",] exclude []];\r\n}")
        .unwrap();
    assert_eq!(
        tokens,
        [
            word("pub"), word("mod"), word("a_1"), word("from"), text("../rc"),
            Token::Punct('{'), word("text"), Token::Punct('['), word("include"),
            Token::Punct('['), text("*.toml"), Token::Punct(','), Token::Punct(']'),
            word("exclude"), Token::Punct('['), Token::Punct(']'), Token::Punct(']'),
            Token::Punct(';'), Token::Punct('}'),
        ]
    );
    assert!(tokenize("").unwrap().is_empty());
    assert!(tokenize(" \n\t ").unwrap().is_empty());
    assert_eq!(tokenize("ab]cd").unwrap(), [word("ab"), Token::Punct(']'), word("cd")]);
}

#[test]
fn strings_with_escapes() {
    assert_eq!(tokenize(r#""a\"b\\c\n\r\t""#).unwrap(), [text("a\"b\\c\n\r\t")]);
    assert_eq!(tokenize("\"\"").unwrap(), [text("")]);
    assert_eq!(tokenize("\"é [*] ,;\"").unwrap(), [text("é [*] ,;")]);
    assert_eq!(tokenize("\"a\nb\"").unwrap(), [text("a\nb")]);
}

#[test]
fn characters_that_start_no_token() {
    assert_eq!(tokenize("mod a-b"), Err(SyntaxError::BadCharacter { at: 5 }));
    assert_eq!(tokenize("é"), Err(SyntaxError::BadCharacter { at: 0 }));
    assert_eq!(tokenize("x \"open"), Err(SyntaxError::BadCharacter { at: 2 }));
    assert_eq!(tokenize(r#""bad \q escape""#), Err(SyntaxError::BadCharacter { at: 0 }));
    assert_eq!(tokenize("\"ends with \\"), Err(SyntaxError::BadCharacter { at: 0 }));
}

#[test]
fn declaration_in_the_tagged_shape() {
    let d = Declaration::parse(
        "pub mod assets from \"../rc\" {
            text [include [\"lang/*.toml\"] exclude []];
            binary [include [\"images/*.png\", \"icons/**\"] exclude [\"**/private/*\"]];
        }",
    )
    .unwrap();
    assert_eq!(
        d,
        Declaration {
            public: true,
            path: "../rc".to_string(),
            config: Config {
                module_identifier: "assets".to_string(),
                filter_spec: FilterSpec::Tagged(vec![
                    BlockSpec {
                        kind: ContentKind::Text,
                        groups: vec![group(&["lang/*.toml"], &[])],
                    },
                    BlockSpec {
                        kind: ContentKind::Binary,
                        groups: vec![group(&["images/*.png", "icons/**"], &["**/private/*"])],
                    },
                ]),
            },
        }
    );
}

#[test]
fn declaration_in_the_flat_shape() {
    let d = Declaration::parse(
        "mod lang from \"rc/lang\" [include [\"*.toml\"] exclude [], include [] exclude [\"x\"],]",
    )
    .unwrap();
    assert!(!d.public);
    assert_eq!(d.path, "rc/lang");
    assert_eq!(d.config.module_identifier, "lang");
    assert_eq!(
        d.config.filter_spec,
        FilterSpec::Flat(vec![group(&["*.toml"], &[]), group(&[], &["x"])])
    );
}

#[test]
fn lists_may_be_empty_and_end_with_a_separator() {
    let empty = Declaration::parse("mod a from \"d\" {}").unwrap();
    assert_eq!(empty.config.filter_spec, FilterSpec::Tagged(vec![]));
    let empty = Declaration::parse("mod a from \"d\" []").unwrap();
    assert_eq!(empty.config.filter_spec, FilterSpec::Flat(vec![]));
    let one = Declaration::parse("mod a from \"d\" { text [] }").unwrap();
    assert_eq!(
        one.config.filter_spec,
        FilterSpec::Tagged(vec![BlockSpec { kind: ContentKind::Text, groups: vec![] }])
    );
    let two = Declaration::parse("mod a from \"d\" { text []; binary []; }").unwrap();
    assert_eq!(
        two.config.filter_spec,
        FilterSpec::Tagged(vec![
            BlockSpec { kind: ContentKind::Text, groups: vec![] },
            BlockSpec { kind: ContentKind::Binary, groups: vec![] },
        ])
    );
}

#[test]
fn tokens_that_do_not_fit() {
    let at = |text: &str| match Declaration::parse(text) {
        Err(SyntaxError::UnexpectedToken { at }) => at,
        other => panic!("{text:?} gave {other:?}"),
    };
    assert_eq!(at(""), 0);
    assert_eq!(at("pub"), 1);
    assert_eq!(at("mod a"), 2);
    assert_eq!(at("mod \"a\" from \"d\" []"), 1);
    assert_eq!(at("mod a of \"d\" []"), 2);
    assert_eq!(at("mod a from d []"), 3);
    assert_eq!(at("mod a from \"d\""), 4);
    assert_eq!(at("mod a from \"d\" [] []"), 6);
    assert_eq!(at("mod a from \"d\" [include [] exclude []"), 11);
    assert_eq!(at("mod a from \"d\" [include [\"x\" \"y\"] exclude []]"), 8);
    assert_eq!(at("mod a from \"d\" [exclude [] include []]"), 5);
    assert_eq!(at("mod a from \"d\" { image [] }"), 5);
    assert_eq!(at("mod a from \"d\" { text [], binary [] }"), 8);
    assert_eq!(at("mod a from \"d\" [,]"), 5);
    assert_eq!(at("pub pub mod a from \"d\" []"), 1);
}

#[test]
fn bad_characters_come_before_bad_tokens() {
    assert_eq!(Declaration::parse("nonsense $"), Err(SyntaxError::BadCharacter { at: 9 }));
}

#[test]
fn declared_filter_compiles_and_classifies() {
    let d = Declaration::parse(
        "mod assets from \"rc\" { text [include [\"*.txt\"] exclude [\"secret*\"]]; binary [include [\"**\"] exclude []] }",
    )
    .unwrap();
    let set = d.config.filter_spec.compile().unwrap();
    assert_eq!(set.classify("a.txt"), Some(ContentKind::Text));
    assert_eq!(set.classify("secret.txt"), Some(ContentKind::Binary));
    assert_eq!(set.classify("a.png"), Some(ContentKind::Binary));
}
