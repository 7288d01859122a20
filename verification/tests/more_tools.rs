use std::borrow::Cow;

use algosul::args::hex16;
use algosul::attrs::{accept, collect_fields, AttrError, AttrKind, I18nField};
use algosul::i18n::{check_format, check_format_keys, check_keys, I18nError};
use algosul::index::get;
use algosul::rust::{HostTriple, ToolError};
use algosul::rustc::{CrateType, FeatureSet, RustcCommandBuilder, RustcCompileFlagForHash};
use algosul::rustup::{
    check_script, install_step, remove_step, script_is_stale, Action, Exit, InstallEvent,
    InstallInfo, Output, RustupInstallStatus, RustupRemoveStatus,
};
use algosul::utils::{CowExt, OrdExt, PartialOrdExt};

fn strings(items: &[&str]) -> Vec<String> {
    items.iter().map(|s| s.to_string()).collect()
}

fn flags() -> RustcCompileFlagForHash {
    let mut features = FeatureSet::new();
    assert!(features.insert("std".to_string()));
    assert!(features.insert("alloc".to_string()));
    assert!(!features.insert("std".to_string()));
    RustcCompileFlagForHash {
        source_path: "src/main.rs".to_string(),
        rustc_path: "rustc".to_string(),
        crate_type: CrateType::Library,
        crate_name: Some("demo".to_string()),
        edition: Some("2021".to_string()),
        target: HostTriple::Target("wasm32-wasi".to_string()),
        features,
        check_cfg: Some("cfg(x)".to_string()),
        codegen: strings(&["opt-level=3", "debuginfo=0"]),
        link: strings(&["native=/lib"]),
    }
}

#[test]
fn hex16_pads_with_zeros() {
    assert_eq!(hex16(0), "0000000000000000");
    assert_eq!(hex16(0xdead_beef), "00000000deadbeef");
    assert_eq!(hex16(u64::MAX), "ffffffffffffffff");
    assert_eq!(hex16(0x0123_4567_89ab_cdef), "0123456789abcdef");
    for n in [1u64, 15, 16, 255, 4096, 1 << 63] {
        assert_eq!(hex16(n), format!("{n:016x}"));
    }
}

#[test]
fn feature_set_is_kept_in_order() {
    let mut set = FeatureSet::new();
    assert!(set.names().is_empty());
    for name in ["serde", "std", "alloc", "serde", "a", "z", "std"] {
        set.insert(name.to_string());
    }
    assert_eq!(*set.names(), ["a", "alloc", "serde", "std", "z"]);
}

#[test]
fn compile_flags_in_order() {
    assert_eq!(flags().rustc_path(), "rustc");
    let (args, source) = flags().into_args();
    assert_eq!(
        args,
        [
            "--crate-name", "demo", "--edition", "2021", "--crate-type", "lib", "--target",
            "wasm32-wasi", "--check-cfg", "cfg(x)", "--cfg", "feature=\"alloc\"", "--cfg",
            "feature=\"std\"", "-C", "opt-level=3", "-C", "debuginfo=0", "-L", "native=/lib",
        ]
    );
    assert_eq!(source, "src/main.rs");
}

#[test]
fn compile_flags_with_nothing_given() {
    let bare = RustcCompileFlagForHash {
        source_path: "a.rs".to_string(),
        rustc_path: "rustc".to_string(),
        crate_type: CrateType::Binary,
        crate_name: None,
        edition: None,
        target: HostTriple::Host,
        features: FeatureSet::new(),
        check_cfg: None,
        codegen: vec![],
        link: vec![],
    };
    let (args, source) = bare.into_args();
    assert_eq!(args, ["--crate-type", "bin"]);
    assert_eq!(source, "a.rs");
}

#[test]
fn compilation_arguments() {
    let builder = RustcCommandBuilder {
        compile_flag: flags(),
        output: Some("out/demo".to_string()),
        output_dir: Some("out".to_string()),
    };
    let args = builder.into_args(0xabc);
    let (head, _) = flags().into_args();
    assert_eq!(args[..head.len()], head[..]);
    assert_eq!(
        args[head.len()..],
        [
            "-C", "metadata=0000000000000abc", "-C", "extra-filename=0000000000000abc", "-o",
            "out/demo", "--out-dir", "out", "src/main.rs",
        ]
    );
    let plain = RustcCommandBuilder { compile_flag: flags(), output: None, output_dir: None };
    let args = plain.into_args(1);
    assert_eq!(
        args[head.len()..],
        ["-C", "metadata=0000000000000001", "-C", "extra-filename=0000000000000001", "src/main.rs"]
    );
}

#[test]
fn installation_takes_its_course() {
    let info = InstallInfo::Default;
    let (stages, action) = install_step(InstallEvent::Started, &info);
    assert!(matches!(
        stages[..],
        [RustupInstallStatus::Initial, RustupInstallStatus::Downloading]
    ));
    assert!(matches!(action, Action::FetchScript));

    let (stages, action) = install_step(InstallEvent::ScriptReady, &info);
    assert!(matches!(
        stages[..],
        [RustupInstallStatus::Downloaded, RustupInstallStatus::Running]
    ));
    assert!(matches!(action, Action::Run(args) if args == ["-y"]));

    let ok = Output { exit: Exit { code: Some(0) }, stdout: "fine".to_string(), stderr: String::new() };
    let (stages, action) = install_step(InstallEvent::Exited(ok), &info);
    assert!(matches!(
        stages[..],
        [RustupInstallStatus::OnExitStatus(Exit { code: Some(0) }), RustupInstallStatus::Success]
    ));
    assert!(matches!(action, Action::Finish(Ok(()))));
}

#[test]
fn installation_fails_with_the_script() {
    for code in [Some(1), Some(-1), None] {
        let bad = Output { exit: Exit { code }, stdout: "out".to_string(), stderr: "err".to_string() };
        let (stages, action) = install_step(InstallEvent::Exited(bad), &InstallInfo::Default);
        assert_eq!(stages.len(), 2);
        assert!(matches!(&stages[0], RustupInstallStatus::OnExitStatus(e) if e.code == code));
        match &stages[1] {
            RustupInstallStatus::Failed { exit_status, stdout, stderr } => {
                assert_eq!(exit_status.code, code);
                assert_eq!(stdout, "out");
                assert_eq!(stderr, "err");
            }
            _ => panic!("the installation should have failed"),
        }
        match action {
            Action::Finish(Err(ToolError::Failed(text))) => assert_eq!(
                text,
                "Rustup installation failed. For more, please use on_status_changed."
            ),
            _ => panic!("the installation should end with a failure"),
        }
    }
}

#[test]
fn removal_takes_its_course() {
    let (stages, action) = remove_step(None);
    assert!(matches!(stages[..], [RustupRemoveStatus::Initial, RustupRemoveStatus::Running]));
    assert!(matches!(action, Action::Run(args) if args == ["self", "uninstall"]));
    let ok = Output { exit: Exit { code: Some(0) }, stdout: String::new(), stderr: String::new() };
    let (stages, action) = remove_step(Some(ok));
    assert!(matches!(
        stages[..],
        [RustupRemoveStatus::OnExitStatus(_), RustupRemoveStatus::Success]
    ));
    assert!(matches!(action, Action::Finish(Ok(()))));
    let bad = Output { exit: Exit { code: Some(2) }, stdout: "o".to_string(), stderr: "e".to_string() };
    let (stages, action) = remove_step(Some(bad));
    assert!(matches!(&stages[1], RustupRemoveStatus::Failed { stdout, stderr, .. } if stdout == "o" && stderr == "e"));
    assert!(matches!(action, Action::Finish(Err(ToolError::Failed(_)))));
}

#[test]
fn exit_with_code_zero_is_success() {
    assert!(Exit { code: Some(0) }.success());
    assert!(!Exit { code: Some(1) }.success());
    assert!(!Exit { code: None }.success());
}

#[test]
fn script_is_kept_for_a_while() {
    assert!(script_is_stale(false, false, 0));
    assert!(script_is_stale(true, false, 0));
    assert!(!script_is_stale(true, true, 0));
    assert!(!script_is_stale(true, true, 1439));
    assert!(script_is_stale(true, true, 1440));
    assert!(script_is_stale(true, true, u64::MAX));
}

#[test]
fn script_starts_with_a_shebang() {
    assert!(check_script("#!/bin/sh\necho").is_ok());
    assert!(check_script("#!").is_ok());
    assert!(matches!(check_script("#"), Err(ToolError::InvalidRsinitShContent)));
    assert!(matches!(check_script(""), Err(ToolError::InvalidRsinitShContent)));
    assert!(matches!(check_script("<html>"), Err(ToolError::InvalidRsinitShContent)));
    assert!(matches!(check_script(" #!"), Err(ToolError::InvalidRsinitShContent)));
}

#[test]
fn attribute_by_name() {
    assert!(matches!(AttrKind::parse("ignore"), Ok(AttrKind::Ignore)));
    assert!(matches!(AttrKind::parse("rename"), Ok(AttrKind::Rename)));
    assert!(matches!(AttrKind::parse("format"), Ok(AttrKind::Format)));
    assert!(matches!(AttrKind::parse("skip"), Err(AttrError::UnknownAttr(n)) if n == "skip"));
    assert_eq!(AttrKind::Rename.to_text(), "rename");
}

#[test]
fn attribute_where_it_may_stand() {
    assert!(accept(AttrKind::Ignore, false, true).is_ok());
    assert!(accept(AttrKind::Rename, false, false).is_ok());
    assert!(accept(AttrKind::Format, false, false).is_ok());
    assert!(matches!(
        accept(AttrKind::Ignore, true, true),
        Err(AttrError::AlreadySet(AttrKind::Ignore))
    ));
    assert!(matches!(
        accept(AttrKind::Format, true, true),
        Err(AttrError::AlreadySet(AttrKind::Format))
    ));
    assert!(matches!(
        accept(AttrKind::Ignore, false, false),
        Err(AttrError::TakesNoArguments(AttrKind::Ignore))
    ));
    assert!(matches!(
        accept(AttrKind::Rename, false, true),
        Err(AttrError::RequiresArgument(AttrKind::Rename))
    ));
}

#[test]
fn attribute_errors_in_words() {
    assert_eq!(AttrError::AlreadySet(AttrKind::Ignore).to_text(), "ignore attribute is already set");
    assert_eq!(
        AttrError::RequiresArgument(AttrKind::Rename).to_text(),
        "rename attribute requires an argument"
    );
    assert_eq!(
        AttrError::TakesNoArguments(AttrKind::Ignore).to_text(),
        "ignore attribute does not take any arguments"
    );
    assert_eq!(AttrError::UnknownAttr("x".to_string()).to_text(), "~~~ unknown attr: x");
    assert_eq!(AttrError::EmptyAttr.to_text(), "~~~ empty attr");
    assert_eq!(AttrError::FormatKeyWithValue.to_text(), "format(a, b, ...) can't has value");
}

#[test]
fn format_keys_as_a_set() {
    assert!(check_format_keys(&strings(&[]), &strings(&[])));
    assert!(check_format_keys(&strings(&["a", "b"]), &strings(&["b", "a"])));
    assert!(check_format_keys(&strings(&["a", "a", "b"]), &strings(&["b", "a"])));
    assert!(!check_format_keys(&strings(&["a"]), &strings(&["a", "b"])));
    assert!(!check_format_keys(&strings(&["a", "c"]), &strings(&["a"])));
    assert!(!check_format_keys(&strings(&[]), &strings(&["a"])));
}

#[test]
fn fields_or_all_the_errors() {
    let field = |n: &str| I18nField { name: n.to_string(), original_name: None, format: None };
    let fields = collect_fields(vec![Ok(Some(field("a"))), Ok(None), Ok(Some(field("b")))]).unwrap();
    assert_eq!(fields.iter().map(|f| f.name.as_str()).collect::<Vec<_>>(), ["a", "b"]);
    assert!(collect_fields(vec![]).unwrap().is_empty());
    let errors = collect_fields(vec![
        Ok(Some(field("a"))),
        Err(AttrError::EmptyAttr),
        Ok(None),
        Err(AttrError::IgnoreWithOthers),
    ])
    .unwrap_err();
    assert!(matches!(errors[..], [AttrError::EmptyAttr, AttrError::IgnoreWithOthers]));
}

#[test]
fn components_by_their_letters() {
    assert_eq!(get("hsva", "hsv"), "[hsva.h(), hsva.s(), hsva.v()]");
    assert_eq!(get("self", "rgb"), "[self.r(), self.g(), self.b()]");
    assert_eq!(get("c", "a"), "[c.a()]");
    assert_eq!(get("c", ""), "[]");
}

#[test]
fn smaller_and_larger() {
    assert_eq!(1.min_max(&2), (&1, &2));
    assert_eq!(2.min_max(&1), (&1, &2));
    assert_eq!("b".min_max(&"a"), (&"a", &"b"));
    assert_eq!(1.5f64.partial_min_max(&0.5), Some((&0.5, &1.5)));
    assert_eq!(0.5f64.partial_min_max(&1.5), Some((&0.5, &1.5)));
    assert_eq!(f64::NAN.partial_min_max(&1.0), None);
    let (a, b) = (String::from("x"), String::from("x"));
    let (first, second) = a.min_max(&b);
    assert!(std::ptr::eq(first, &b) && std::ptr::eq(second, &a));
}

#[test]
fn cow_is_mapped_as_it_is_held() {
    let borrowed: Cow<'_, str> = Cow::Borrowed("abc");
    let r: Cow<'_, [u8]> = borrowed.map_ref_or_owned(|s| s.as_bytes(), |s| s.into_bytes());
    assert!(matches!(r, Cow::Borrowed(b) if b == b"abc"));
    let owned: Cow<'_, str> = Cow::Owned("abc".to_string());
    let r: Cow<'_, [u8]> = owned.map_ref_or_owned(|s| s.as_bytes(), |s| s.into_bytes());
    assert!(matches!(r, Cow::Owned(b) if b == b"abc"));
    let borrowed: Cow<'_, str> = Cow::Borrowed("abc");
    let r: Cow<'_, str> = borrowed.map_to_cow(|s| Cow::Owned(s.to_uppercase()), Cow::Owned);
    assert!(matches!(r, Cow::Owned(s) if s == "ABC"));
    let owned: Cow<'_, str> = Cow::Owned("abc".to_string());
    let r: Cow<'_, str> = owned.map_to_cow(Cow::Borrowed, |s| Cow::Owned(s + "!"));
    assert_eq!(r, "abc!");
}

#[test]
fn format_string_with_the_right_keys() {
    assert!(check_format("greeting", "Hello {name}, it is {day}", &strings(&["day", "name"])).is_ok());
    assert!(check_format("plain", "no keys {{at}} all", &strings(&[])).is_ok());
    assert!(check_format("twice", "{a} and {a:>8} and {b}", &strings(&["a", "b"])).is_ok());
}

#[test]
fn format_string_with_the_wrong_keys() {
    assert_eq!(
        check_format("greeting", "Hello {name}, {name} and {who}", &strings(&["name", "day"])),
        Err(I18nError::FormatParameterMismatch(
            "'self.greeting' must use [name, day], but use {\"name\", \"who\"}".to_string()
        ))
    );
    assert_eq!(
        check_format("f", "nothing", &strings(&["a"])),
        Err(I18nError::FormatParameterMismatch("'self.f' must use [a], but use {}".to_string()))
    );
    assert_eq!(
        check_keys("f", &strings(&["a\"b"]), &strings(&[])),
        Err(I18nError::FormatParameterMismatch(
            "'self.f' must use [], but use {\"a\\\"b\"}".to_string()
        ))
    );
}

#[test]
fn format_string_that_is_none() {
    assert!(matches!(check_format("f", "open {brace", &strings(&[])), Err(I18nError::FormatError(_))));
    assert!(matches!(check_format("f", "close } brace", &strings(&[])), Err(I18nError::FormatError(_))));
    assert_eq!(I18nError::FormatError("x".to_string()).to_text(), "format error: x");
    assert_eq!(
        I18nError::FormatParameterMismatch("x".to_string()).to_text(),
        "Format parameter mismatch: x"
    );
}

#[test]
fn package_entries_of_a_manifest() {
    let entries = flags().package_entries();
    let pairs: Vec<(&str, &str)> = entries.iter().map(|(k, v)| (k.as_str(), v.as_str())).collect();
    assert_eq!(
        pairs,
        [("name", "demo"), ("edition", "2021"), ("version", "0.1.0"), ("build", "build.rs")]
    );
    let mut bare = flags();
    bare.crate_name = None;
    bare.edition = None;
    let entries = bare.package_entries();
    let pairs: Vec<(&str, &str)> = entries.iter().map(|(k, v)| (k.as_str(), v.as_str())).collect();
    assert_eq!(pairs, [("version", "0.1.0"), ("build", "build.rs")]);
}
