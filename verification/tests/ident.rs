use algosul::ident::StrExt;

#[test]
fn test_is_valid_ident() {
    let valids = ["_", "_abc", "_123", "abc_", "hello_world"];
    for s in valids {
        assert!(s.is_valid_ident(), "{s:?} should be valid");
    }
    assert!("_".is_valid_ident());
    assert!("_abc".is_valid_ident());
    assert!("_123".is_valid_ident());
    assert!("abc".is_valid_ident());
    let invalids = ["", "0", " ", "_0123-", "-", "!hello", "hello-world"];
    for s in invalids {
        assert!(!s.is_valid_ident(), "{s:?} should not be valid");
    }
}

#[test]
fn is_valid_ident_of_the_listed_strings() {
    assert!(!"".is_valid_ident());
    assert!("_".is_valid_ident());
    assert!(!"0abc".is_valid_ident());
    assert!("hello_world".is_valid_ident());
}

#[test]
fn to_valid_ident_of_the_listed_strings() {
    assert_eq!("0abc".to_valid_ident(), "_0abc");
    assert_eq!("".to_valid_ident(), "_");
    assert_eq!("a-b c".to_valid_ident(), "a_b_c");
}

#[test]
fn to_valid_ident_is_idempotent_on_samples() {
    for s in ["", "0abc", "a-b c", "_", "hello_world", "en-US", "zh-CN", "π r²", "9", "-x-", "été!"] {
        let once = s.to_valid_ident();
        let twice = once.as_str().to_valid_ident();
        assert_eq!(once, twice);
        assert!(once.as_str().is_valid_ident());
    }
}

#[test]
fn to_valid_ident_keeps_non_ascii_identifier_characters() {
    assert_eq!("été".to_valid_ident(), "été");
    assert_eq!("名前.txt".to_valid_ident(), "名前_txt");
    assert!("名前".is_valid_ident());
    assert!(!"€uro".is_valid_ident());
    assert_eq!("€uro".to_valid_ident(), "_uro");
}

#[test]
fn to_valid_ident_keeps_a_leading_digit_behind_an_underscore() {
    assert_eq!("0".to_valid_ident(), "_0");
    assert_eq!("42.png".to_valid_ident(), "_42_png");
}
