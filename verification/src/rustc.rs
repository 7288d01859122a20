//! The `rustc` compiler: where it is installed, the kinds of crate it
//! builds, and the command line of a compilation.

use vstd::prelude::*;
use std::path::PathBuf;
use std::sync::Arc;
use crate::app::share_path;
use crate::args::{
    flag_for_each, flag_if_given, hex, hex16, option_text, push_flag_for_each, push_flag_if_given,
};
use crate::order::{
    lemma_name_order_asymmetric, lemma_name_order_total, lemma_name_order_transitive, name_less,
    name_lt,
};
use crate::rust::HostTriple;
use crate::text::texts;

verus! {

/// An installed `rustc`.
#[derive(Debug, Clone, PartialEq, Eq, Hash)]
pub struct Rustc {
    home_path: Arc<PathBuf>,
}

impl Rustc {
    /// The directory that holds the compiler.
    pub closed spec fn home(&self) -> Arc<PathBuf> {
        self.home_path
    }

    /// The `rustc` that is installed in `home_path`.
    pub fn new(home_path: Arc<PathBuf>) -> (rustc: Rustc)
        ensures
            rustc.home() == home_path,
    {
        Rustc { home_path }
    }

    /// The directory that holds the compiler.
    pub fn as_home_path(&self) -> (path: Arc<PathBuf>)
        ensures
            path == self.home(),
    {
        share_path(&self.home_path)
    }
}

/// The kind of crate that a compilation yields.
#[derive(Debug, Clone, Copy, PartialEq, Eq, Structural, Hash)]
pub enum CrateType {
    Binary,
    Library,
    RustLibrary,
    DynamicLibrary,
    CDynamicLibrary,
    StaticLibrary,
    ProcMacroLibrary,
}

impl CrateType {
    /// The name of the kind, as `--crate-type` takes it.
    pub open spec fn name(self) -> Seq<char> {
        match self {
            CrateType::Binary => "bin"@,
            CrateType::Library => "lib"@,
            CrateType::RustLibrary => "rlib"@,
            CrateType::DynamicLibrary => "dylib"@,
            CrateType::CDynamicLibrary => "cdylib"@,
            CrateType::StaticLibrary => "staticlib"@,
            CrateType::ProcMacroLibrary => "proc-macro"@,
        }
    }

    /// The name of the kind, as `--crate-type` takes it.
    pub fn to_text(&self) -> (s: String)
        ensures
            s@ == self.name(),
    {
        match self {
            CrateType::Binary => String::from_str("bin"),
            CrateType::Library => String::from_str("lib"),
            CrateType::RustLibrary => String::from_str("rlib"),
            CrateType::DynamicLibrary => String::from_str("dylib"),
            CrateType::CDynamicLibrary => String::from_str("cdylib"),
            CrateType::StaticLibrary => String::from_str("staticlib"),
            CrateType::ProcMacroLibrary => String::from_str("proc-macro"),
        }
    }
}

impl Default for CrateType {
    fn default() -> (c: CrateType)
        ensures
            c == CrateType::Binary,
    {
        CrateType::Binary
    }
}

/// A set of feature names, held in order by name.
#[derive(Debug, Clone, PartialEq, Eq, Hash)]
pub struct FeatureSet {
    names: Vec<String>,
}

impl View for FeatureSet {
    type V = Seq<Seq<char>>;

    closed spec fn view(&self) -> Seq<Seq<char>> {
        texts(self.names@)
    }
}

/// Whether each name comes before the next.
pub open spec fn is_increasing(names: Seq<Seq<char>>) -> bool {
    forall|i: int, j: int| 0 <= i < j < names.len() ==> name_lt(#[trigger] names[i], #[trigger] names[j])
}

impl FeatureSet {
    /// Whether the names are in order, each before the next. A set is
    /// made so and stays so.
    pub open spec fn wf(&self) -> bool {
        is_increasing(self@)
    }

    /// The empty set.
    pub fn new() -> (set: FeatureSet)
        ensures
            set@.len() == 0,
            set.wf(),
    {
        let set = FeatureSet { names: Vec::new() };
        assert(texts(set.names@) =~= Seq::empty());
        set
    }

    /// Puts `name` into the set, and says whether it was new.
    pub fn insert(&mut self, name: String) -> (fresh: bool)
        requires
            old(self).wf(),
        ensures
            final(self).wf(),
            fresh == !old(self)@.contains(name@),
            forall|x: Seq<char>| final(self)@.contains(x) <==> old(self)@.contains(x) || x == name@,
            final(self)@.len() == old(self)@.len() + if fresh { 1int } else { 0 },
    {
        let ghost before = texts(self.names@);
        let mut i: usize = 0;
        while i < self.names.len() && name_less(self.names[i].as_str(), name.as_str())
            invariant
                i <= self.names.len(),
                self.names@ == old(self).names@,
                before == texts(self.names@),
                is_increasing(before),
                forall|k: int| 0 <= k < i ==> name_lt(#[trigger] before[k], name@),
            decreases self.names.len() - i,
        {
            i += 1;
        }
        assert(i < before.len() ==> !name_lt(before[i as int], name@));
        if i < self.names.len() && !name_less(name.as_str(), self.names[i].as_str()) {
            proof {
                lemma_name_order_total(before[i as int], name@);
                assert(before.contains(name@));
                assert forall|x: Seq<char>| before.contains(x) || x == name@ implies before.contains(
                    x,
                ) by {}
            }
            false
        } else {
            proof {
                assert forall|k: int| 0 <= k < before.len() implies #[trigger] before[k] != name@ by {
                    lemma_name_order_asymmetric(name@, name@);
                    if k > i {
                        assert(name_lt(before[i as int], before[k]));
                        lemma_name_order_transitive(name@, before[i as int], before[k]);
                    }
                }
                assert(!before.contains(name@));
            }
            self.names.insert(i, name);
            proof {
                let after = texts(self.names@);
                assert(after =~= before.insert(i as int, name@));
                assert forall|a: int, b: int| 0 <= a < b < after.len() implies name_lt(
                    #[trigger] after[a],
                    #[trigger] after[b],
                ) by {
                    let pa = if a < i { a } else { a - 1 };
                    let pb = if b < i { b } else { b - 1 };
                    if a == i {
                        assert(after[b] == before[pb]);
                        if pb > i {
                            assert(name_lt(before[i as int], before[pb]));
                            lemma_name_order_transitive(name@, before[i as int], before[pb]);
                        }
                    } else if b == i {
                        assert(after[a] == before[pa]);
                    } else {
                        assert(after[a] == before[pa] && after[b] == before[pb]);
                    }
                }
                assert forall|x: Seq<char>| after.contains(x) <==> before.contains(x) || x
                    == name@ by {
                    if after.contains(x) {
                        let k = choose|k: int| 0 <= k < after.len() && after[k] == x;
                        if k != i {
                            let pk = if k < i { k } else { k - 1 };
                            assert(before[pk] == x);
                        }
                    }
                    if before.contains(x) {
                        let k = choose|k: int| 0 <= k < before.len() && before[k] == x;
                        let pk = if k < i { k } else { k + 1 };
                        assert(after[pk] == x);
                    }
                    if x == name@ {
                        assert(after[i as int] == x);
                    }
                }
            }
            true
        }
    }

    /// The names, in the order of the set.
    pub fn names(&self) -> (names: &Vec<String>)
        ensures
            texts(names@) == self@,
    {
        &self.names
    }
}

/// What decides the outcome of a compilation.
#[derive(Debug, Clone, PartialEq, Eq, Hash)]
pub struct RustcCompileFlagForHash {
    pub source_path: String,
    pub rustc_path: String,
    pub crate_type: CrateType,
    pub crate_name: Option<String>,
    pub edition: Option<String>,
    pub target: HostTriple,
    pub features: FeatureSet,
    pub check_cfg: Option<String>,
    pub codegen: Vec<String>,
    pub link: Vec<String>,
}

/// A compilation, with the place for what it yields.
#[derive(Debug, Clone, PartialEq, Eq)]
pub struct RustcCommandBuilder {
    pub compile_flag: RustcCompileFlagForHash,
    pub output: Option<String>,
    pub output_dir: Option<String>,
}

/// The `--cfg` value that switches a feature on.
pub open spec fn feature_cfg(name: Seq<char>) -> Seq<char> {
    "feature=\""@ + name + "\""@
}

/// The `--cfg` value of each feature, in order.
pub open spec fn feature_cfgs(names: Seq<Seq<char>>) -> Seq<Seq<char>> {
    Seq::new(names.len(), |i: int| feature_cfg(names[i]))
}

/// The target of a compilation, if it is not the machine's own.
pub open spec fn target_text(target: HostTriple) -> Option<Seq<char>> {
    match target {
        HostTriple::Host => None,
        HostTriple::Target(t) => Some(t@),
    }
}

impl RustcCompileFlagForHash {
    /// The path of the compiler.
    pub fn rustc_path(&self) -> (path: &str)
        ensures
            path@ == self.rustc_path@,
    {
        self.rustc_path.as_str()
    }

    /// The flags of the compilation: the name, the edition, the kind of
    /// crate, the target and the `check-cfg`, as far as they are given,
    /// then a `--cfg` for each feature, a `-C` for each code generation
    /// option and a `-L` for each library path.
    pub open spec fn flags(self) -> Seq<Seq<char>> {
        flag_if_given("--crate-name"@, option_text(self.crate_name)) + flag_if_given(
            "--edition"@,
            option_text(self.edition),
        ) + seq!["--crate-type"@, self.crate_type.name()] + flag_if_given(
            "--target"@,
            target_text(self.target),
        ) + flag_if_given("--check-cfg"@, option_text(self.check_cfg)) + flag_for_each(
            "--cfg"@,
            feature_cfgs(self.features@),
        ) + flag_for_each("-C"@, texts(self.codegen@)) + flag_for_each("-L"@, texts(self.link@))
    }

    /// The entries of the `package` table of a manifest that builds the
    /// crate: the name and the edition, as far as they are given, then
    /// the version and the build script.
    pub open spec fn package(&self) -> Seq<(Seq<char>, Seq<char>)> {
        (match self.crate_name {
            Some(name) => seq![("name"@, name@)],
            None => Seq::empty(),
        }) + (match self.edition {
            Some(edition) => seq![("edition"@, edition@)],
            None => Seq::empty(),
        }) + seq![("version"@, "0.1.0"@), ("build"@, "build.rs"@)]
    }

    /// The entries of the `package` table of a manifest that builds the
    /// crate, each a key and its value.
    pub fn package_entries(&self) -> (entries: Vec<(String, String)>)
        ensures
            entries@.len() == self.package().len(),
            forall|i: int|
                0 <= i < entries@.len() ==> ((#[trigger] entries@[i]).0@, entries@[i].1@)
                    == self.package()[i],
    {
        let mut entries: Vec<(String, String)> = Vec::new();
        match &self.crate_name {
            Some(name) => entries.push((String::from_str("name"), name.clone())),
            None => {},
        }
        match &self.edition {
            Some(edition) => entries.push((String::from_str("edition"), edition.clone())),
            None => {},
        }
        entries.push((String::from_str("version"), String::from_str("0.1.0")));
        entries.push((String::from_str("build"), String::from_str("build.rs")));
        entries
    }

    /// The flags of the compilation, and the path of the source.
    pub fn into_args(self) -> (r: (Vec<String>, String))
        ensures
            texts(r.0@) == self.flags(),
            r.1 == self.source_path,
    {
        let mut args: Vec<String> = Vec::new();
        assert(texts(args@) =~= Seq::empty());
        push_flag_if_given(&mut args, "--crate-name", self.crate_name);
        push_flag_if_given(&mut args, "--edition", self.edition);
        let ghost before = texts(args@);
        args.push(String::from_str("--crate-type"));
        args.push(self.crate_type.to_text());
        assert(texts(args@) =~= before + seq!["--crate-type"@, self.crate_type.name()]);
        let target = self.target.to_string();
        assert(option_text(target) == target_text(self.target));
        push_flag_if_given(&mut args, "--target", target);
        push_flag_if_given(&mut args, "--check-cfg", self.check_cfg);
        let names = self.features.names();
        let mut cfgs: Vec<String> = Vec::new();
        let mut i: usize = 0;
        while i < names.len()
            invariant
                i <= names.len(),
                cfgs@.len() == i,
                forall|k: int| 0 <= k < i ==> (#[trigger] cfgs@[k])@ == feature_cfg(names@[k]@),
            decreases names.len() - i,
        {
            let mut cfg = String::from_str("feature=\"");
            cfg.append(names[i].as_str());
            cfg.append("\"");
            cfgs.push(cfg);
            i += 1;
        }
        assert(texts(cfgs@) =~= feature_cfgs(self.features@));
        push_flag_for_each(&mut args, "--cfg", &cfgs);
        push_flag_for_each(&mut args, "-C", &self.codegen);
        push_flag_for_each(&mut args, "-L", &self.link);
        (args, self.source_path)
    }
}

impl RustcCommandBuilder {
    /// The arguments of the compilation: the flags, the metadata hash as
    /// sixteen hexadecimal digits, once as `metadata` and once as
    /// `extra-filename`, the places for the output as far as they are
    /// given, and the path of the source.
    pub open spec fn args(self, metadata_hash: u64) -> Seq<Seq<char>> {
        self.compile_flag.flags() + seq![
            "-C"@,
            "metadata="@ + hex(metadata_hash as int, 16),
            "-C"@,
            "extra-filename="@ + hex(metadata_hash as int, 16),
        ] + flag_if_given("-o"@, option_text(self.output)) + flag_if_given(
            "--out-dir"@,
            option_text(self.output_dir),
        ) + seq![self.compile_flag.source_path@]
    }

    /// The arguments of the compilation, for the given metadata hash.
    pub fn into_args(self, metadata_hash: u64) -> (args: Vec<String>)
        ensures
            texts(args@) == self.args(metadata_hash),
    {
        let digits = hex16(metadata_hash);
        let (flags, source_path) = self.compile_flag.into_args();
        let mut args = flags;
        let ghost before = texts(args@);
        args.push(String::from_str("-C"));
        args.push(String::from_str("metadata=").concat(digits.as_str()));
        args.push(String::from_str("-C"));
        args.push(String::from_str("extra-filename=").concat(digits.as_str()));
        assert(texts(args@) =~= before + seq![
            "-C"@,
            "metadata="@ + hex(metadata_hash as int, 16),
            "-C"@,
            "extra-filename="@ + hex(metadata_hash as int, 16),
        ]);
        push_flag_if_given(&mut args, "-o", self.output);
        push_flag_if_given(&mut args, "--out-dir", self.output_dir);
        let ghost before = texts(args@);
        args.push(source_path);
        assert(texts(args@) =~= before + seq![self.compile_flag.source_path@]);
        args
    }
}

} // verus!
