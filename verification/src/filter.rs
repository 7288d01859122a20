//! Glob patterns, filter groups made of them, and the ordered set of groups
//! that classifies a path as text or binary content.

use vstd::prelude::*;
use crate::text::{push_char, reversed};

verus! {

#[verifier::external_type_specification]
#[verifier::external_body]
pub struct ExPattern(glob::Pattern);

#[verifier::external_type_specification]
#[verifier::external_body]
pub struct ExPatternError(glob::PatternError);

/// The source text that a compiled pattern holds.
pub uninterp spec fn pattern_text(p: glob::Pattern) -> Seq<char>;

/// Whether `glob` accepts `text` as a pattern.
pub uninterp spec fn glob_accepts(text: Seq<char>) -> bool;

/// Whether the pattern compiled from `pattern` matches `path` under the
/// default match options of `glob`.
pub uninterp spec fn glob_matches(pattern: Seq<char>, path: Seq<char>) -> bool;

/// Text without a backslash. `glob` treats `\` as a path separator on some
/// platforms only, so its verdicts are the same everywhere just for such
/// text: patterns and paths are meant to be written with `/`.
pub open spec fn is_portable(s: Seq<char>) -> bool {
    forall|i: int| 0 <= i < s.len() ==> #[trigger] s[i] != '\\'
}

/// The text with `/` in place of every backslash.
pub open spec fn with_forward_slashes(s: Seq<char>) -> Seq<char> {
    Seq::new(
        s.len(),
        |i: int|
            if s[i] == '\\' {
                '/'
            } else {
                s[i]
            },
    )
}

/// Writes a path with `/` in place of every backslash, which makes it portable.
pub fn to_forward_slashes(path: &str) -> (r: String)
    ensures
        r@ == with_forward_slashes(path@),
        is_portable(r@),
{
    let mut r = String::new();
    for c in it: path.chars()
        invariant
            it.seq() == path@,
            r@ == with_forward_slashes(path@.take(it.index())),
    {
        if c == '\\' {
            push_char(&mut r, '/');
        } else {
            push_char(&mut r, c);
        }
        assert(r@ =~= with_forward_slashes(path@.take(it.index() + 1)));
    }
    assert(path@.take(path@.len() as int) =~= path@);
    r
}

/// `glob::Pattern::new`: compiles `text`, or reports its syntax error. A
/// compiled pattern keeps the text it was made from. Whether the text is
/// accepted depends on the text alone, as long as it is portable.
#[verifier::external_body]
fn compile(text: &str) -> (r: Result<glob::Pattern, glob::PatternError>)
    ensures
        r matches Ok(p) ==> pattern_text(p) == text@,
        is_portable(text@) ==> (r is Ok <==> glob_accepts(text@)),
{
    glob::Pattern::new(text)
}

/// `glob::Pattern::matches`: the verdict depends on the pattern's source
/// text and the path alone, as long as both are portable.
#[verifier::external_body]
fn compiled_matches(p: &glob::Pattern, path: &str) -> (b: bool)
    ensures
        is_portable(pattern_text(*p)) && is_portable(path@) ==> b == glob_matches(
            pattern_text(*p),
            path@,
        ),
{
    p.matches(path)
}

/// `Clone` of `glob::Pattern`: the copy holds the same source text.
pub assume_specification[ <glob::Pattern as Clone>::clone ](p: &glob::Pattern) -> (r:
    glob::Pattern)
    ensures
        pattern_text(r) == pattern_text(*p),
;

/// `glob::Pattern::as_str`: the source text of the pattern.
#[verifier::external_body]
fn compiled_source(p: &glob::Pattern) -> (s: &str)
    ensures
        s@ == pattern_text(*p),
{
    p.as_str()
}

/// `Display` of `glob::PatternError`: a message with the position of the
/// fault. Nothing is claimed of its wording.
#[verifier::external_body]
fn describe_syntax_error(e: &glob::PatternError) -> String {
    e.to_string()
}

/// Why a filter could not be built.
#[derive(Debug)]
pub enum FilterError {
    /// `pattern` is not a well-formed glob; `message` says where and why.
    InvalidPattern { pattern: String, message: String },
}

/// A compiled glob pattern. Its view is the source text it was compiled from.
#[derive(Debug, Clone)]
pub struct FilterPattern {
    compiled: glob::Pattern,
}

impl View for FilterPattern {
    type V = Seq<char>;

    closed spec fn view(&self) -> Seq<char> {
        pattern_text(self.compiled)
    }
}

impl FilterPattern {
    /// Compiles `text`. A malformed pattern is reported here, never when a
    /// path is tested.
    pub fn new(text: &str) -> (r: Result<FilterPattern, FilterError>)
        ensures
            r matches Ok(p) ==> p@ == text@,
            r matches Err(FilterError::InvalidPattern { pattern, .. }) ==> pattern@ == text@,
            is_portable(text@) ==> (r is Ok <==> glob_accepts(text@)),
    {
        match compile(text) {
            Ok(compiled) => Ok(FilterPattern { compiled }),
            Err(e) => Err(
                FilterError::InvalidPattern {
                    pattern: text.to_owned(),
                    message: describe_syntax_error(&e),
                },
            ),
        }
    }

    /// Whether the pattern matches `path`, taken as it is given.
    pub fn matches(&self, path: &str) -> (b: bool)
        ensures
            is_portable(self@) && is_portable(path@) ==> b == glob_matches(self@, path@),
    {
        compiled_matches(&self.compiled, path)
    }

    /// The source text of the pattern.
    pub fn as_str(&self) -> (s: &str)
        ensures
            s@ == self@,
    {
        compiled_source(&self.compiled)
    }
}

/// Whether one of `patterns` matches `path`.
pub open spec fn any_matches(patterns: Seq<FilterPattern>, path: Seq<char>) -> bool {
    exists|i: int| 0 <= i < patterns.len() && glob_matches(#[trigger] patterns[i]@, path)
}

/// Whether every one of `patterns` is portable.
pub open spec fn all_portable(patterns: Seq<FilterPattern>) -> bool {
    forall|i: int| 0 <= i < patterns.len() ==> is_portable(#[trigger] patterns[i]@)
}

/// The source texts of the patterns, in order.
pub open spec fn pattern_texts(patterns: Seq<FilterPattern>) -> Seq<Seq<char>> {
    Seq::new(patterns.len(), |i: int| patterns[i]@)
}

/// The characters of each string, in order.
pub open spec fn str_texts(list: Seq<&str>) -> Seq<Seq<char>> {
    Seq::new(list.len(), |i: int| list[i]@)
}

/// Whether `glob` accepts every one of the texts as a pattern.
pub open spec fn all_accepted(texts: Seq<Seq<char>>) -> bool {
    forall|i: int| 0 <= i < texts.len() ==> glob_accepts(#[trigger] texts[i])
}

/// Whether every one of the texts is portable.
pub open spec fn texts_portable(texts: Seq<Seq<char>>) -> bool {
    forall|i: int| 0 <= i < texts.len() ==> is_portable(#[trigger] texts[i])
}

fn any_pattern_matches(patterns: &Vec<FilterPattern>, path: &str) -> (b: bool)
    ensures
        all_portable(patterns@) && is_portable(path@) ==> b == any_matches(patterns@, path@),
{
    let mut i: usize = 0;
    while i < patterns.len()
        invariant
            i <= patterns.len(),
            all_portable(patterns@) && is_portable(path@) ==> forall|j: int|
                0 <= j < i ==> !glob_matches(#[trigger] patterns[j]@, path@),
        decreases patterns.len() - i,
    {
        if patterns[i].matches(path) {
            return true;
        }
        i += 1;
    }
    false
}

fn compile_all(texts: &[&str]) -> (r: Result<Vec<FilterPattern>, FilterError>)
    ensures
        match r {
            Ok(v) => pattern_texts(v@) == str_texts(texts@),
            Err(FilterError::InvalidPattern { pattern, .. }) => str_texts(texts@).contains(pattern@)
                && (is_portable(pattern@) ==> !glob_accepts(pattern@)),
        },
        texts_portable(str_texts(texts@)) ==> (r is Ok <==> all_accepted(str_texts(texts@))),
{
    let ghost given = str_texts(texts@);
    let mut out: Vec<FilterPattern> = Vec::new();
    let mut i: usize = 0;
    while i < texts.len()
        invariant
            i <= texts.len(),
            given == str_texts(texts@),
            pattern_texts(out@) == given.take(i as int),
            texts_portable(given) ==> all_accepted(given.take(i as int)),
        decreases texts.len() - i,
    {
        let ghost before = pattern_texts(out@);
        match FilterPattern::new(texts[i]) {
            Ok(p) => {
                out.push(p);
                assert(given[i as int] == p@);
                assert(pattern_texts(out@) =~= before.push(p@));
                assert(given.take(i + 1) =~= given.take(i as int).push(given[i as int]));
            },
            Err(e) => {
                assert(given[i as int] == texts@[i as int]@);
                return Err(e);
            },
        }
        i += 1;
    }
    assert(given.take(texts@.len() as int) =~= given);
    Ok(out)
}

/// A filter group: a path is in it when an `includes` pattern matches it
/// and no `excludes` pattern does.
#[derive(Debug, Clone)]
pub struct FileFilterItem {
    pub includes: Vec<FilterPattern>,
    pub excludes: Vec<FilterPattern>,
}

impl FileFilterItem {
    /// Whether all the patterns of the group are portable.
    pub open spec fn is_portable(&self) -> bool {
        all_portable(self.includes@) && all_portable(self.excludes@)
    }

    /// Whether `path` is in the group. A group without `includes` holds no path.
    pub open spec fn admits(&self, path: Seq<char>) -> bool {
        any_matches(self.includes@, path) && !any_matches(self.excludes@, path)
    }

    /// Compiles the patterns of a group, in the order given. The first
    /// malformed pattern, `includes` before `excludes`, is reported.
    pub fn new(includes: &[&str], excludes: &[&str]) -> (r: Result<FileFilterItem, FilterError>)
        ensures
            match r {
                Ok(g) => pattern_texts(g.includes@) == str_texts(includes@) && pattern_texts(
                    g.excludes@,
                ) == str_texts(excludes@),
                Err(FilterError::InvalidPattern { pattern, .. }) => (str_texts(includes@).contains(
                    pattern@,
                ) || str_texts(excludes@).contains(pattern@)) && (is_portable(pattern@)
                    ==> !glob_accepts(pattern@)),
            },
            texts_portable(str_texts(includes@)) && texts_portable(str_texts(excludes@)) ==> (r is Ok
                <==> all_accepted(str_texts(includes@)) && all_accepted(str_texts(excludes@))),
    {
        let includes = match compile_all(includes) {
            Ok(v) => v,
            Err(e) => {
                return Err(e);
            },
        };
        let excludes = match compile_all(excludes) {
            Ok(v) => v,
            Err(e) => {
                return Err(e);
            },
        };
        Ok(FileFilterItem { includes, excludes })
    }

    /// Whether an `includes` pattern matches `dir`.
    pub fn dir_is_in_includes(&self, dir: &str) -> (b: bool)
        ensures
            self.is_portable() && is_portable(dir@) ==> b == any_matches(self.includes@, dir@),
    {
        any_pattern_matches(&self.includes, dir)
    }

    /// Whether an `excludes` pattern matches `dir`.
    pub fn dir_is_in_excludes(&self, dir: &str) -> (b: bool)
        ensures
            self.is_portable() && is_portable(dir@) ==> b == any_matches(self.excludes@, dir@),
    {
        any_pattern_matches(&self.excludes, dir)
    }

    /// Whether `file` is in the group: an `includes` pattern matches it
    /// and no `excludes` pattern does.
    pub fn path_is_in(&self, file: &str) -> (b: bool)
        ensures
            self.is_portable() && is_portable(file@) ==> b == self.admits(file@),
    {
        any_pattern_matches(&self.includes, file) && !any_pattern_matches(&self.excludes, file)
    }
}

/// An ordered list of filter groups: a path is in it when it is in one of
/// the groups.
#[derive(Debug, Clone)]
pub struct FileFilter {
    pub items: Vec<FileFilterItem>,
}

impl FileFilter {
    /// Whether all the patterns of all the groups are portable.
    pub open spec fn is_portable(&self) -> bool {
        forall|i: int| 0 <= i < self.items@.len() ==> (#[trigger] self.items@[i]).is_portable()
    }

    /// Whether `path` is in one of the groups.
    pub open spec fn admits(&self, path: Seq<char>) -> bool {
        exists|i: int| 0 <= i < self.items@.len() && (#[trigger] self.items@[i]).admits(path)
    }

    /// Whether an `includes` pattern of one of the groups matches `dir`.
    pub open spec fn in_includes(&self, dir: Seq<char>) -> bool {
        exists|i: int|
            0 <= i < self.items@.len() && any_matches((#[trigger] self.items@[i]).includes@, dir)
    }

    /// Whether an `excludes` pattern of one of the groups matches `dir`.
    pub open spec fn in_excludes(&self, dir: Seq<char>) -> bool {
        exists|i: int|
            0 <= i < self.items@.len() && any_matches((#[trigger] self.items@[i]).excludes@, dir)
    }

    /// Whether an `includes` pattern of one of the groups matches `dir`.
    pub fn dir_is_in_includes(&self, dir: &str) -> (b: bool)
        ensures
            self.is_portable() && is_portable(dir@) ==> b == self.in_includes(dir@),
    {
        let mut i: usize = 0;
        while i < self.items.len()
            invariant
                i <= self.items.len(),
                self.is_portable() && is_portable(dir@) ==> forall|j: int|
                    0 <= j < i ==> !any_matches((#[trigger] self.items@[j]).includes@, dir@),
            decreases self.items.len() - i,
        {
            if self.items[i].dir_is_in_includes(dir) {
                return true;
            }
            i += 1;
        }
        false
    }

    /// Whether an `excludes` pattern of one of the groups matches `dir`.
    pub fn dir_is_in_excludes(&self, dir: &str) -> (b: bool)
        ensures
            self.is_portable() && is_portable(dir@) ==> b == self.in_excludes(dir@),
    {
        let mut i: usize = 0;
        while i < self.items.len()
            invariant
                i <= self.items.len(),
                self.is_portable() && is_portable(dir@) ==> forall|j: int|
                    0 <= j < i ==> !any_matches((#[trigger] self.items@[j]).excludes@, dir@),
            decreases self.items.len() - i,
        {
            if self.items[i].dir_is_in_excludes(dir) {
                return true;
            }
            i += 1;
        }
        false
    }

    /// Whether `file` is in one of the groups.
    pub fn path_is_in(&self, file: &str) -> (b: bool)
        ensures
            self.is_portable() && is_portable(file@) ==> b == self.admits(file@),
    {
        let mut i: usize = 0;
        while i < self.items.len()
            invariant
                i <= self.items.len(),
                self.is_portable() && is_portable(file@) ==> forall|j: int|
                    0 <= j < i ==> !(#[trigger] self.items@[j]).admits(file@),
            decreases self.items.len() - i,
        {
            if self.items[i].path_is_in(file) {
                return true;
            }
            i += 1;
        }
        false
    }
}

/// How the content of a matched file is embedded.
#[derive(Clone, Copy, Debug, PartialEq, Eq, Structural)]
pub enum ContentKind {
    /// As text, decoded as UTF-8.
    Text,
    /// As raw bytes.
    Binary,
}

/// A filter group with the kind of content that its files hold.
#[derive(Debug, Clone)]
pub struct ClassifiedGroup {
    pub kind: ContentKind,
    pub group: FileFilterItem,
}

/// The rules of one generation pass: a group of paths that are always
/// passed over, then an ordered list of groups, each with a content kind.
/// The first group that holds a path decides its kind.
#[derive(Debug, Clone)]
pub struct ClassifiedFilterSet {
    pub ignored: FileFilterItem,
    pub groups: Vec<ClassifiedGroup>,
}

impl ClassifiedFilterSet {
    /// Whether all the patterns of the set are portable.
    pub open spec fn is_portable(&self) -> bool {
        &&& self.ignored.is_portable()
        &&& forall|i: int|
            0 <= i < self.groups@.len() ==> (#[trigger] self.groups@[i]).group.is_portable()
    }

    /// Whether group `i` holds `path` and no group before it does.
    pub open spec fn is_first_match(&self, i: int, path: Seq<char>) -> bool {
        &&& 0 <= i < self.groups@.len()
        &&& self.groups@[i].group.admits(path)
        &&& forall|j: int| 0 <= j < i ==> !(#[trigger] self.groups@[j]).group.admits(path)
    }

    /// The kind of `path`: none if it is ignored or no group holds it, else
    /// the kind of the first group that holds it.
    pub open spec fn classification(&self, path: Seq<char>) -> Option<ContentKind> {
        if self.ignored.admits(path) {
            None
        } else if exists|i: int| self.is_first_match(i, path) {
            Some(self.groups@[choose|i: int| self.is_first_match(i, path)].kind)
        } else {
            None
        }
    }

    /// A set without groups, which ignores nothing and classifies nothing.
    pub fn new() -> (r: ClassifiedFilterSet)
        ensures
            r.groups@.len() == 0,
            r.ignored.includes@.len() == 0,
            r.ignored.excludes@.len() == 0,
    {
        ClassifiedFilterSet {
            ignored: FileFilterItem { includes: Vec::new(), excludes: Vec::new() },
            groups: Vec::new(),
        }
    }

    /// The flat shape of a filter: every group stands for text.
    pub fn flat(filter: FileFilter) -> (r: ClassifiedFilterSet)
        ensures
            r.ignored.includes@.len() == 0,
            r.ignored.excludes@.len() == 0,
            r.groups@.len() == filter.items@.len(),
            forall|i: int|
                0 <= i < filter.items@.len() ==> (#[trigger] r.groups@[i]) == (ClassifiedGroup {
                    kind: ContentKind::Text,
                    group: filter.items@[i],
                }),
    {
        let mut set = ClassifiedFilterSet::new();
        set.add_block(ContentKind::Text, filter);
        assert forall|i: int| 0 <= i < filter.items@.len() implies (#[trigger] set.groups@[i])
            == (ClassifiedGroup { kind: ContentKind::Text, group: filter.items@[i] }) by {
            assert(set.groups@[0 + i] == set.groups@[i]);
        }
        set
    }

    /// Replaces the group of paths that are always passed over.
    pub fn set_ignored(&mut self, group: FileFilterItem)
        ensures
            final(self).ignored == group,
            final(self).groups == old(self).groups,
    {
        self.ignored = group;
    }

    /// Appends one group of the given kind.
    pub fn push(&mut self, kind: ContentKind, group: FileFilterItem)
        ensures
            final(self).ignored == old(self).ignored,
            final(self).groups@ == old(self).groups@.push(ClassifiedGroup { kind, group }),
    {
        self.groups.push(ClassifiedGroup { kind, group });
    }

    /// Appends a block of the tagged shape: the groups of `filter`, in their
    /// order, each of the given kind.
    pub fn add_block(&mut self, kind: ContentKind, filter: FileFilter)
        ensures
            final(self).ignored == old(self).ignored,
            final(self).groups@.len() == old(self).groups@.len() + filter.items@.len(),
            forall|i: int|
                0 <= i < old(self).groups@.len() ==> (#[trigger] final(self).groups@[i]) == old(
                    self,
                ).groups@[i],
            forall|i: int|
                0 <= i < filter.items@.len() ==> (#[trigger] final(self).groups@[old(
                    self,
                ).groups@.len() + i]) == (ClassifiedGroup { kind, group: filter.items@[i] }),
    {
        let ghost before = self.groups@;
        let ghost added = filter.items@;
        let mut rest = reversed(filter.items);
        while rest.len() > 0
            invariant
                rest@.len() <= added.len(),
                self.ignored == old(self).ignored,
                self.groups@.len() == before.len() + added.len() - rest@.len(),
                forall|j: int| 0 <= j < before.len() ==> #[trigger] self.groups@[j] == before[j],
                forall|j: int|
                    0 <= j < added.len() - rest@.len() ==> #[trigger] self.groups@[before.len()
                        + j] == (ClassifiedGroup { kind, group: added[j] }),
                forall|j: int|
                    0 <= j < rest@.len() ==> #[trigger] rest@[j] == added[added.len() - 1 - j],
            decreases rest@.len(),
        {
            let g = rest.pop().unwrap();
            self.groups.push(ClassifiedGroup { kind, group: g });
        }
    }

    /// Classifies `path`: the kind of the first group that holds it, unless
    /// it is ignored.
    pub fn classify(&self, path: &str) -> (r: Option<ContentKind>)
        ensures
            self.is_portable() && is_portable(path@) ==> r == self.classification(path@),
    {
        if self.ignored.path_is_in(path) {
            return None;
        }
        let mut i: usize = 0;
        while i < self.groups.len()
            invariant
                i <= self.groups.len(),
                self.is_portable() && is_portable(path@) ==> !self.ignored.admits(path@),
                self.is_portable() && is_portable(path@) ==> forall|j: int|
                    0 <= j < i ==> !(#[trigger] self.groups@[j]).group.admits(path@),
            decreases self.groups.len() - i,
        {
            let hit = self.groups[i].group.path_is_in(path);
            proof {
                if self.is_portable() && is_portable(path@) {
                    assert(self.groups@[i as int].group.is_portable());
                    if hit {
                        lemma_first_match_decides(*self, i as int, path@);
                    }
                }
            }
            if hit {
                return Some(self.groups[i].kind);
            }
            i += 1;
        }
        None
    }
}

/// Exclusion takes precedence: a path that an `excludes` pattern matches
/// is not in the group, whatever its `includes` say.
pub proof fn lemma_exclude_wins(group: FileFilterItem, path: Seq<char>)
    requires
        any_matches(group.excludes@, path),
    ensures
        !group.admits(path),
{
}

/// A group without `includes` holds no path.
pub proof fn lemma_empty_group_holds_nothing(group: FileFilterItem, path: Seq<char>)
    requires
        group.includes@.len() == 0,
    ensures
        !group.admits(path),
{
}

/// The order of the groups counts: the first group that holds a path
/// decides its kind, whatever the groups behind it are.
pub proof fn lemma_first_match_decides(set: ClassifiedFilterSet, i: int, path: Seq<char>)
    requires
        !set.ignored.admits(path),
        set.is_first_match(i, path),
    ensures
        set.classification(path) == Some(set.groups@[i].kind),
{
    let k = choose|k: int| set.is_first_match(k, path);
    if k < i {
        assert(!set.groups@[k].group.admits(path));
    }
    if i < k {
        assert(!set.groups@[i].group.admits(path));
    }
}

/// A path that is ignored, or that no group holds, has no kind.
pub proof fn lemma_unmatched_has_no_kind(set: ClassifiedFilterSet, path: Seq<char>)
    requires
        set.ignored.admits(path) || forall|i: int|
            0 <= i < set.groups@.len() ==> !(#[trigger] set.groups@[i]).group.admits(path),
    ensures
        set.classification(path) is None,
{
}

} // verus!
