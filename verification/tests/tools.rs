use std::cell::RefCell;
use std::path::PathBuf;
use std::rc::Rc;
use std::sync::Arc;

use algosul::app::{rust_license, AppLicense};
use algosul::attrs::{resolve_field, AttrError, Ignore};
use algosul::cargo::{Cargo, CargoCommandArgs};
use algosul::color::{
    Color, ColorAlphaIndex, ColorBgra, ColorCastError, ColorG, ColorGa, ColorGrayIndex, ColorHsv,
    ColorHsvIndex, ColorHsva, ColorRgb, ColorRgbIndex, ColorRgba,
};
use algosul::command::{AutoCompleteSubCommand, ScopeOptions, ShellOptions, ShellSubCommand};
use algosul::langs::LanguageType;
use algosul::process::StatusObserver;
use algosul::rust::{HostTriple, Profile, ToolError, Toolchain};
use algosul::rustc::{CrateType, Rustc};
use algosul::rustup::{InstallCustomInfo, InstallInfo};
use algosul::version::{version_from_captures, RustVersion, ToRustVersion};

#[test]
fn test_to_rust_version() {
    let version = "rustup 1.28.2 (e4f3ad6f8 2025-04-28)".to_string();
    let version = version.to_rust_version().unwrap();
    assert_eq!(version, RustVersion {
        tool_name: "rustup".to_string(),
        version:   "1.28.2".to_string(),
        hash:      Some("e4f3ad6f8".to_string()),
        date:      "2025-04-28".to_string(),
    });

    let version = "rustup 1.28.2 (2025-04-28)".to_string();
    let version = version.to_rust_version().unwrap();
    assert_eq!(version, RustVersion {
        tool_name: "rustup".to_string(),
        version:   "1.28.2".to_string(),
        hash:      None,
        date:      "2025-04-28".to_string(),
    });
}

#[test]
fn test_color_enum_variants() {
    let g = Color::G(ColorG([0.5f32]));
    let ga = Color::Ga(ColorGa([0.5f32, 1.0]));
    let rgb = Color::Rgb(ColorRgb([0.1f32, 0.2, 0.3]));
    let rgba = Color::Rgba(ColorRgba([0.1f32, 0.2, 0.3, 1.0]));
    let hsv = Color::Hsv(ColorHsv([0.7f32, 0.8, 0.9]));
    let hsva = Color::Hsva(ColorHsva([0.7f32, 0.8, 0.9, 1.0]));
    assert_eq!(g, g.clone());
    assert_eq!(ga, ga.clone());
    assert_eq!(rgb, rgb.clone());
    assert_eq!(rgba, rgba.clone());
    assert_eq!(hsv, hsv.clone());
    assert_eq!(hsva, hsva.clone());
}

#[test]
fn version_line_without_a_match() {
    let r = "no version here".to_string().to_rust_version();
    assert!(matches!(r, Err(ToolError::VersionStringNoMatch)));
    let r = "rustup 1.28.2 (28-04-2025)".to_string().to_rust_version();
    assert!(matches!(r, Err(ToolError::VersionStringNoMatch)));
}

#[test]
fn version_from_captures_wants_the_groups_of_a_version_line() {
    assert!(matches!(version_from_captures(None), Err(ToolError::VersionStringNoMatch)));
    let s = |t: &str| Some(t.to_string());
    let v = version_from_captures(Some(vec![s("x"), s("cargo"), s("1.0"), None, s("2025-01-02")]))
        .unwrap();
    assert_eq!(v.tool_name, "cargo");
    assert_eq!(v.version, "1.0");
    assert_eq!(v.hash, None);
    assert_eq!(v.date, "2025-01-02");
    assert!(version_from_captures(Some(vec![s("x"), s("cargo"), s("1.0"), None])).is_err());
    assert!(version_from_captures(Some(vec![s("x"), None, s("1.0"), None, s("d")])).is_err());
    assert!(version_from_captures(Some(vec![s("x"), s("c"), s("1.0"), s("ab"), None])).is_err());
}

#[test]
fn version_line_is_printed_as_it_was_read() {
    for line in ["rustup 1.28.2 (e4f3ad6f8 2025-04-28)", "rustup 1.28.2 (2025-04-28)"] {
        assert_eq!(line.to_string().to_rust_version().unwrap().to_text(), line);
    }
}

#[test]
fn toolchain_names() {
    assert_eq!(Toolchain::Stable.to_text(), "stable");
    assert_eq!(Toolchain::Beta.to_text(), "beta");
    assert_eq!(Toolchain::Nightly.to_text(), "nightly");
    assert_eq!(Toolchain::NoToolchain.to_text(), "none");
    for t in [Toolchain::Stable, Toolchain::Beta, Toolchain::Nightly, Toolchain::NoToolchain] {
        assert_eq!(Toolchain::parse(&t.to_text()), Some(t));
    }
    assert_eq!(Toolchain::parse("Stable"), None);
    assert_eq!(Toolchain::parse(""), None);
    assert_eq!(Toolchain::default(), Toolchain::Stable);
}

#[test]
fn profile_names() {
    assert_eq!(Profile::Minimal.to_text(), "minimal");
    assert_eq!(Profile::Default.to_text(), "default");
    assert_eq!(Profile::Complete.to_text(), "complete");
    for p in [Profile::Minimal, Profile::Default, Profile::Complete] {
        assert_eq!(Profile::parse(&p.to_text()), Some(p));
    }
    assert_eq!(Profile::parse("full"), None);
    assert_eq!(Profile::default(), Profile::Default);
}

#[test]
fn host_triple_names() {
    assert_eq!(HostTriple::Host.to_string(), None);
    assert_eq!(
        HostTriple::Target("x86_64-unknown-linux-gnu".to_string()).to_string(),
        Some("x86_64-unknown-linux-gnu".to_string())
    );
    assert_eq!(HostTriple::Host.to_text(), "host");
    assert_eq!(HostTriple::Target("wasm32-wasi".to_string()).to_text(), "wasm32-wasi");
    assert!(matches!(HostTriple::parse("host"), HostTriple::Host));
    assert!(matches!(HostTriple::parse("wasm32-wasi"), HostTriple::Target(t) if t == "wasm32-wasi"));
    assert!(matches!(HostTriple::default(), HostTriple::Host));
}

#[test]
fn install_arguments() {
    assert_eq!(InstallInfo::Default.to_args(), ["-y"]);
    assert_eq!(
        InstallInfo::Custom(InstallCustomInfo::default()).to_args(),
        [
            "-y",
            "--default-host-triple='host'",
            "--default-toolchain='stable'",
            "--profile='default'",
            " --modify-path",
        ]
    );
    let custom = InstallCustomInfo {
        default_host_triple: HostTriple::Target("aarch64-apple-darwin".to_string()),
        default_toolchain: Toolchain::Nightly,
        profile: Profile::Minimal,
        modify_path_variable: false,
    };
    assert_eq!(
        InstallInfo::Custom(custom).to_args(),
        [
            "-y",
            "--default-host-triple='aarch64-apple-darwin'",
            "--default-toolchain='nightly'",
            "--profile='minimal'",
        ]
    );
    assert!(matches!(InstallInfo::default(), InstallInfo::Default));
}

#[test]
fn cargo_arguments() {
    assert_eq!(CargoCommandArgs::Version.into_args(), ["version"]);
    assert_eq!(CargoCommandArgs::default().into_args(), ["version"]);
    let plain = CargoCommandArgs::Metadata { format_version: None, no_deps: false, features: vec![] };
    assert_eq!(plain.into_args(), ["metadata"]);
    let full = CargoCommandArgs::Metadata {
        format_version: Some("1".to_string()),
        no_deps: true,
        features: vec!["serde".to_string(), "std".to_string()],
    };
    assert_eq!(
        full.into_args(),
        ["metadata", "--no-deps", "-F", "serde", "-F", "std", "--format-version", "1"]
    );
}

#[test]
fn tools_keep_their_home() {
    let home = Arc::new(PathBuf::from("/home/me/.cargo/"));
    assert_eq!(Cargo::new(home.clone()).as_home_path(), home);
    assert_eq!(Rustc::new(home.clone()).as_home_path(), home);
    assert!(Arc::ptr_eq(&Cargo::new(home.clone()).as_home_path(), &home));
}

#[test]
fn crate_type_names() {
    let all = [
        (CrateType::Binary, "bin"),
        (CrateType::Library, "lib"),
        (CrateType::RustLibrary, "rlib"),
        (CrateType::DynamicLibrary, "dylib"),
        (CrateType::CDynamicLibrary, "cdylib"),
        (CrateType::StaticLibrary, "staticlib"),
        (CrateType::ProcMacroLibrary, "proc-macro"),
    ];
    for (kind, name) in all {
        assert_eq!(kind.to_text(), name);
    }
    assert_eq!(CrateType::default(), CrateType::Binary);
}

#[test]
fn licence_in_words() {
    assert_eq!(AppLicense::Unknown.to_text(), "Unknown");
    assert_eq!(AppLicense::default().to_text(), "Unknown");
    assert_eq!(AppLicense::Text("GPL-3.0-only".to_string()).to_text(), "GPL-3.0-only");
    assert_eq!(rust_license().to_text(), "Apache or MIT");
    assert_eq!(AppLicense::File(PathBuf::from("LICENSE")).to_text(), "\"LICENSE\"");
    let nested = AppLicense::Or(
        Box::new(rust_license()),
        Box::new(AppLicense::File(PathBuf::from("a b"))),
    );
    assert_eq!(nested.to_text(), "Apache or MIT or \"a b\"");
}

#[test]
fn tool_errors_in_words() {
    assert_eq!(ToolError::Unsupported("x".to_string()).to_text(), "Unsupported: x");
    assert_eq!(ToolError::InnerError("x".to_string()).to_text(), "Inner error: x");
    assert_eq!(ToolError::Failed("x".to_string()).to_text(), "Failed: x");
    assert_eq!(ToolError::FailedToGetHomeDir.to_text(), "Failed to get HOME dir");
    assert_eq!(ToolError::RegexError("x".to_string()).to_text(), "Regex error: x");
    assert_eq!(ToolError::VersionStringNoMatch.to_text(), "Version string no match");
    assert_eq!(ToolError::InvalidRsinitShContent.to_text(), "Invalid rustup-init.sh content");
}

#[test]
fn status_observer_tells_of_each_change() {
    let seen = Rc::new(RefCell::new(Vec::new()));
    let log = seen.clone();
    let mut status = StatusObserver::new(0u32);
    assert_eq!(*status.get(), 0);
    status.on_changed(move |s: &u32| {
        log.borrow_mut().push(*s);
        if *s == 3 { Err("three") } else { Ok(()) }
    });
    assert_eq!(status.change(1), Ok(()));
    assert_eq!(status.change(2), Ok(()));
    assert_eq!(status.change(3), Err("three"));
    assert_eq!(*status.get(), 3);
    assert_eq!(*seen.borrow(), [1, 2, 3]);
}

#[test]
fn status_without_an_observer_changes_in_silence() {
    let mut status: StatusObserver<&str, fn(&&str) -> Result<(), ()>> = StatusObserver::new("a");
    assert_eq!(status.change("b"), Ok(()));
    assert_eq!(*status.get(), "b");
}

#[test]
fn colour_components_by_name() {
    let g = ColorG([7u8]);
    assert_eq!((g.gray(), g.r(), g.g(), g.b()), (7, 7, 7, 7));
    let ga = ColorGa([7u8, 9]);
    assert_eq!((ga.gray(), ga.r(), ga.a()), (7, 7, 9));
    let bgra = ColorBgra([1u8, 2, 3, 4]);
    assert_eq!((bgra.r(), bgra.g(), bgra.b(), bgra.a()), (3, 2, 1, 4));
    let rgba = ColorRgba([1u8, 2, 3, 4]);
    assert_eq!((rgba.r(), rgba.g(), rgba.b(), rgba.a()), (1, 2, 3, 4));
    let hsva = ColorHsva([10u16, 20, 30, 40]);
    assert_eq!((hsva.h(), hsva.s(), hsva.v(), hsva.a()), (10, 20, 30, 40));
    assert_eq!(ColorHsv::from_hsva(hsva), ColorHsv([10, 20, 30]));
    assert_eq!(ColorRgb::<u8>::default(), ColorRgb([0, 0, 0]));
    assert_eq!(ColorCastError::NotAInteger("h").to_text(), "h is not a integer");
}

#[test]
fn language_names() {
    assert_eq!(LanguageType::C.to_text(), "C");
    assert_eq!(LanguageType::CPP.to_text(), "C++");
    assert_eq!(LanguageType::CSharp.to_text(), "C#");
    assert_eq!(LanguageType::Rust.to_text(), "Rust");
}

#[test]
fn shell_names() {
    assert_eq!(ShellSubCommand::Bash.to_text(), "bash");
    assert_eq!(ShellSubCommand::Elvish.to_text(), "elvish");
    assert_eq!(ShellSubCommand::Fish.to_text(), "fish");
    assert_eq!(ShellSubCommand::PowerShell.to_text(), "powershell");
    assert_eq!(ShellSubCommand::Zsh.to_text(), "zsh");
    let shell = ShellOptions { shell_sub_command: ShellSubCommand::Fish };
    assert_eq!(AutoCompleteSubCommand::Install { shell }.shell(), ShellSubCommand::Fish);
    assert_eq!(AutoCompleteSubCommand::Uninstall { shell }.shell(), ShellSubCommand::Fish);
    assert_eq!(
        ScopeOptions::default(),
        ScopeOptions { workspace: None, project: None, profile: None }
    );
}

#[test]
fn attributes_of_a_field() {
    let s = |t: &str| Some(t.to_string());
    assert!(matches!(resolve_field(Some(Ignore(true)), s("a"), None, None), Ok(None)));
    assert!(matches!(resolve_field(Some(Ignore(true)), None, None, None), Ok(None)));
    assert!(matches!(
        resolve_field(Some(Ignore(true)), s("a"), s("b"), None),
        Err(AttrError::IgnoreWithOthers)
    ));
    assert!(matches!(
        resolve_field(Some(Ignore(true)), s("a"), None, Some(vec![])),
        Err(AttrError::IgnoreWithOthers)
    ));
    assert!(matches!(resolve_field(None, None, None, None), Err(AttrError::UnnamedWithoutRename)));
    assert!(matches!(
        resolve_field(None, None, None, Some(vec!["k".to_string()])),
        Err(AttrError::UnnamedWithoutRename)
    ));
    let f = resolve_field(None, s("a"), s("b"), Some(vec!["k".to_string()])).unwrap().unwrap();
    assert_eq!((f.name.as_str(), f.original_name, f.format), ("b", s("a"), Some(vec!["k".to_string()])));
    let f = resolve_field(Some(Ignore(false)), s("a"), None, None).unwrap().unwrap();
    assert_eq!((f.name.as_str(), f.original_name, f.format), ("a", s("a"), None));
    let f = resolve_field(None, None, s("b"), None).unwrap().unwrap();
    assert_eq!((f.name.as_str(), f.original_name), ("b", None));
    assert!(Ignore(true).value());
    assert!(!Ignore(false).value());
    assert_eq!(
        AttrError::IgnoreWithOthers.to_text(),
        "'ignore' cannot be used with other attributes"
    );
    assert_eq!(
        AttrError::UnnamedWithoutRename.to_text(),
        "unnamed field must provide 'rename' attribute"
    );
}
