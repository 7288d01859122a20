//! The configuration of a generation pass as plain values: the name of
//! the root namespace and the filter, in either of its two shapes.

use vstd::prelude::*;
use crate::filter::{
    all_accepted, any_matches, glob_accepts, glob_matches, is_portable, pattern_texts, str_texts,
    texts_portable, ClassifiedFilterSet, ClassifiedGroup, ContentKind, FileFilterItem,
    FilterError, FilterPattern,
};
use crate::emit::{assemble, render_namespace};
use crate::listing::{entry_views, normalize_all, DirEntry, EntryModel};
use crate::text::texts;
use crate::walk::{entries_portable, walk, walk_entries, walk_entry, walked};

verus! {

/// A filter group as it is declared: glob patterns to include and to exclude.
#[derive(Debug, Clone, PartialEq, Eq)]
pub struct GroupSpec {
    pub includes: Vec<String>,
    pub excludes: Vec<String>,
}

/// A block of the tagged shape: groups of one content kind.
#[derive(Debug, Clone, PartialEq, Eq)]
pub struct BlockSpec {
    pub kind: ContentKind,
    pub groups: Vec<GroupSpec>,
}

/// A filter as it is declared.
#[derive(Debug, Clone, PartialEq, Eq)]
pub enum FilterSpec {
    /// A list of groups, which all stand for text.
    Flat(Vec<GroupSpec>),
    /// A list of blocks, each with its content kind.
    Tagged(Vec<BlockSpec>),
}

/// What a generation pass is given, but for the directory itself.
#[derive(Debug, Clone, PartialEq, Eq)]
pub struct Config {
    pub module_identifier: String,
    pub filter_spec: FilterSpec,
}

/// The strings as string slices.
fn as_strs(list: &Vec<String>) -> (refs: Vec<&str>)
    ensures
        str_texts(refs@) == texts(list@),
{
    let mut refs: Vec<&str> = Vec::new();
    let mut i: usize = 0;
    while i < list.len()
        invariant
            i <= list.len(),
            refs@.len() == i,
            forall|k: int| 0 <= k < i ==> (#[trigger] refs@[k])@ == list@[k]@,
        decreases list.len() - i,
    {
        refs.push(list[i].as_str());
        i += 1;
    }
    assert(str_texts(refs@) =~= texts(list@));
    refs
}

impl GroupSpec {
    /// Whether all the patterns are portable.
    pub open spec fn is_portable(&self) -> bool {
        texts_portable(texts(self.includes@)) && texts_portable(texts(self.excludes@))
    }

    /// Whether `glob` accepts all the patterns.
    pub open spec fn is_accepted(&self) -> bool {
        all_accepted(texts(self.includes@)) && all_accepted(texts(self.excludes@))
    }

    /// Whether `text` is one of the patterns.
    pub open spec fn declares(&self, text: Seq<char>) -> bool {
        texts(self.includes@).contains(text) || texts(self.excludes@).contains(text)
    }

    /// Whether `group` holds the patterns of the declaration, in order.
    pub open spec fn yields(&self, group: FileFilterItem) -> bool {
        pattern_texts(group.includes@) == texts(self.includes@) && pattern_texts(group.excludes@)
            == texts(self.excludes@)
    }

    /// Compiles the patterns of the group. The first malformed pattern,
    /// `includes` before `excludes`, is reported.
    pub fn compile(&self) -> (r: Result<FileFilterItem, FilterError>)
        ensures
            match r {
                Ok(group) => self.yields(group),
                Err(FilterError::InvalidPattern { pattern, .. }) => self.declares(pattern@) && (
                is_portable(pattern@) ==> !glob_accepts(pattern@)),
            },
            self.is_portable() ==> (r is Ok <==> self.is_accepted()),
    {
        let includes = as_strs(&self.includes);
        let excludes = as_strs(&self.excludes);
        FileFilterItem::new(includes.as_slice(), excludes.as_slice())
    }
}

/// The groups, each with the given kind.
pub open spec fn of_kind(kind: ContentKind, groups: Seq<GroupSpec>) -> Seq<(ContentKind, GroupSpec)> {
    Seq::new(groups.len(), |i: int| (kind, groups[i]))
}

/// The groups of the blocks, each with the kind of its block, in order.
pub open spec fn of_blocks(blocks: Seq<BlockSpec>) -> Seq<(ContentKind, GroupSpec)>
    decreases blocks.len(),
{
    if blocks.len() == 0 {
        Seq::empty()
    } else {
        of_blocks(blocks.drop_last()) + of_kind(blocks.last().kind, blocks.last().groups@)
    }
}

/// Whether the compiled groups are those declared, in order, each with its kind.
pub open spec fn yields_all(declared: Seq<(ContentKind, GroupSpec)>, groups: Seq<ClassifiedGroup>)
    -> bool {
    &&& groups.len() == declared.len()
    &&& forall|i: int|
        0 <= i < declared.len() ==> (#[trigger] groups[i]).kind == declared[i].0
            && declared[i].1.yields(groups[i].group)
}

/// Whether all the patterns of all the groups are portable.
pub open spec fn all_groups_portable(declared: Seq<(ContentKind, GroupSpec)>) -> bool {
    forall|i: int| 0 <= i < declared.len() ==> (#[trigger] declared[i]).1.is_portable()
}

/// Whether `glob` accepts all the patterns of all the groups.
pub open spec fn all_groups_accepted(declared: Seq<(ContentKind, GroupSpec)>) -> bool {
    forall|i: int| 0 <= i < declared.len() ==> (#[trigger] declared[i]).1.is_accepted()
}

/// Whether `text` is a pattern of one of the groups.
pub open spec fn some_group_declares(declared: Seq<(ContentKind, GroupSpec)>, text: Seq<char>)
    -> bool {
    exists|i: int| 0 <= i < declared.len() && (#[trigger] declared[i]).1.declares(text)
}

/// Compiles the groups and appends them to the set, each with the kind.
fn compile_into(set: &mut ClassifiedFilterSet, kind: ContentKind, groups: &Vec<GroupSpec>) -> (r:
    Result<(), FilterError>)
    ensures
        final(set).ignored == old(set).ignored,
        match r {
            Ok(_) => final(set).groups@.len() == old(set).groups@.len() + groups@.len()
                && final(set).groups@.take(old(set).groups@.len() as int) == old(set).groups@
                && yields_all(
                of_kind(kind, groups@),
                final(set).groups@.skip(old(set).groups@.len() as int),
            ),
            Err(FilterError::InvalidPattern { pattern, .. }) => some_group_declares(
                of_kind(kind, groups@),
                pattern@,
            ) && (is_portable(pattern@) ==> !glob_accepts(pattern@)),
        },
        all_groups_portable(of_kind(kind, groups@)) ==> (r is Ok <==> all_groups_accepted(
            of_kind(kind, groups@),
        )),
{
    let ghost declared = of_kind(kind, groups@);
    let ghost before = set.groups@;
    let mut i: usize = 0;
    assert(set.groups@.take(before.len() as int) =~= before);
    while i < groups.len()
        invariant
            i <= groups.len(),
            declared == of_kind(kind, groups@),
            set.ignored == old(set).ignored,
            before == old(set).groups@,
            set.groups@.len() == before.len() + i,
            set.groups@.take(before.len() as int) == before,
            forall|k: int|
                0 <= k < i ==> (#[trigger] set.groups@[before.len() + k]).kind == kind
                    && groups@[k].yields(set.groups@[before.len() + k].group),
            all_groups_portable(declared) ==> forall|k: int|
                0 <= k < i ==> (#[trigger] declared[k]).1.is_accepted(),
        decreases groups.len() - i,
    {
        proof {
            assert(declared[i as int].1 == groups@[i as int]);
        }
        match groups[i].compile() {
            Ok(group) => {
                let ghost so_far = set.groups@;
                set.push(kind, group);
                assert(set.groups@.take(before.len() as int) =~= so_far.take(before.len() as int));
                assert forall|k: int| 0 <= k < i + 1 implies (#[trigger] set.groups@[before.len()
                    + k]).kind == kind && groups@[k].yields(set.groups@[before.len() + k].group) by {
                    if k < i {
                        assert(set.groups@[before.len() + k] == so_far[before.len() + k]);
                    }
                }
            },
            Err(e) => {
                assert(declared[i as int].1.declares(e->pattern@));
                return Err(e);
            },
        }
        i += 1;
    }
    proof {
        let tail = set.groups@.skip(before.len() as int);
        assert forall|k: int| 0 <= k < declared.len() implies (#[trigger] tail[k]).kind
            == declared[k].0 && declared[k].1.yields(tail[k].group) by {
            assert(tail[k] == set.groups@[before.len() + k]);
        }
    }
    Ok(())
}

impl FilterSpec {
    /// The groups of the filter, each with its kind, in order. The groups
    /// of the flat shape stand for text.
    pub open spec fn groups(&self) -> Seq<(ContentKind, GroupSpec)> {
        match self {
            FilterSpec::Flat(groups) => of_kind(ContentKind::Text, groups@),
            FilterSpec::Tagged(blocks) => of_blocks(blocks@),
        }
    }

    /// Compiles the filter: a set that ignores nothing and holds the
    /// groups of the declaration, in order. A malformed pattern is an
    /// error, and the first one is reported.
    pub fn compile(&self) -> (r: Result<ClassifiedFilterSet, FilterError>)
        ensures
            match r {
                Ok(set) => set.ignored.includes@.len() == 0 && set.ignored.excludes@.len() == 0
                    && yields_all(self.groups(), set.groups@),
                Err(FilterError::InvalidPattern { pattern, .. }) => some_group_declares(
                    self.groups(),
                    pattern@,
                ) && (is_portable(pattern@) ==> !glob_accepts(pattern@)),
            },
            all_groups_portable(self.groups()) ==> (r is Ok <==> all_groups_accepted(
                self.groups(),
            )),
    {
        let mut set = ClassifiedFilterSet::new();
        match self {
            FilterSpec::Flat(groups) => {
                match compile_into(&mut set, ContentKind::Text, groups) {
                    Ok(_) => {
                        assert(set.groups@.skip(0) =~= set.groups@);
                        Ok(set)
                    },
                    Err(e) => Err(e),
                }
            },
            FilterSpec::Tagged(blocks) => {
                let mut i: usize = 0;
                assert(blocks@.take(0) =~= Seq::empty());
                while i < blocks.len()
                    invariant
                        i <= blocks.len(),
                        self.groups() == of_blocks(blocks@),
                        set.ignored.includes@.len() == 0,
                        set.ignored.excludes@.len() == 0,
                        yields_all(of_blocks(blocks@.take(i as int)), set.groups@),
                        all_groups_portable(of_blocks(blocks@)) ==> all_groups_accepted(
                            of_blocks(blocks@.take(i as int)),
                        ),
                    decreases blocks.len() - i,
                {
                    let ghost done = of_blocks(blocks@.take(i as int));
                    let ghost block = of_kind(blocks@[i as int].kind, blocks@[i as int].groups@);
                    let ghost so_far = set.groups@;
                    proof {
                        assert(blocks@.take(i + 1).drop_last() =~= blocks@.take(i as int));
                        assert(blocks@.take(i + 1).last() == blocks@[i as int]);
                        assert(of_blocks(blocks@.take(i + 1)) == done + block);
                        lemma_of_blocks_prefix(blocks@, i + 1);
                    }
                    match compile_into(&mut set, blocks[i].kind, &blocks[i].groups) {
                        Ok(_) => {
                            proof {
                                let tail = set.groups@.skip(so_far.len() as int);
                                assert forall|k: int| 0 <= k < (done + block).len() implies (
                                #[trigger] set.groups@[k]).kind == (done + block)[k].0 && (done
                                    + block)[k].1.yields(set.groups@[k].group) by {
                                    if k < done.len() {
                                        assert(set.groups@[k] == set.groups@.take(
                                            so_far.len() as int,
                                        )[k]);
                                    } else {
                                        assert(set.groups@[k] == tail[k - done.len()]);
                                    }
                                }
                                if all_groups_portable(of_blocks(blocks@)) {
                                    assert(all_groups_portable(block)) by {
                                        assert forall|k: int| 0 <= k < block.len() implies (
                                        #[trigger] block[k]).1.is_portable() by {
                                            assert((done + block)[done.len() + k] == block[k]);
                                        }
                                    }
                                    assert forall|k: int| 0 <= k < (done + block).len() implies (
                                    #[trigger] (done + block)[k]).1.is_accepted() by {
                                        if k < done.len() {
                                            assert((done + block)[k] == done[k]);
                                        } else {
                                            assert((done + block)[k] == block[k - done.len()]);
                                        }
                                    }
                                }
                            }
                        },
                        Err(e) => {
                            proof {
                                let whole = of_blocks(blocks@);
                                let next = of_blocks(blocks@.take(i + 1));
                                assert forall|k: int| 0 <= k < block.len() implies whole[done.len()
                                    + k] == #[trigger] block[k] by {
                                    assert(next[done.len() + k] == block[k]);
                                }
                                assert(next.len() <= whole.len());
                                assert(next.len() == done.len() + block.len());
                                let at = choose|k: int|
                                    0 <= k < block.len() && (#[trigger] block[k]).1.declares(
                                        e->pattern@,
                                    );
                                assert(whole[done.len() + at] == block[at]);
                                assert(some_group_declares(whole, e->pattern@));
                                if all_groups_portable(whole) {
                                    assert(all_groups_portable(block)) by {
                                        assert forall|k: int| 0 <= k < block.len() implies (
                                        #[trigger] block[k]).1.is_portable() by {
                                            assert(whole[done.len() + k] == block[k]);
                                        }
                                    }
                                    assert(!all_groups_accepted(block));
                                    let bad = choose|k: int|
                                        0 <= k < block.len() && !(#[trigger] block[k]).1.is_accepted();
                                    assert(whole[done.len() + bad] == block[bad]);
                                    assert(!all_groups_accepted(whole));
                                }
                            }
                            return Err(e);
                        },
                    }
                    i += 1;
                }
                assert(blocks@.take(blocks@.len() as int) =~= blocks@);
                Ok(set)
            },
        }
    }
}

/// The groups of the first blocks are the first groups of all the blocks.
proof fn lemma_of_blocks_prefix(blocks: Seq<BlockSpec>, n: int)
    requires
        0 <= n <= blocks.len(),
    ensures
        of_blocks(blocks.take(n)).len() <= of_blocks(blocks).len(),
        forall|k: int|
            0 <= k < of_blocks(blocks.take(n)).len() ==> of_blocks(blocks)[k] == #[trigger] of_blocks(
                blocks.take(n),
            )[k],
    decreases blocks.len() - n,
{
    if n == blocks.len() {
        assert(blocks.take(n) =~= blocks);
    } else {
        lemma_of_blocks_prefix(blocks, n + 1);
        assert(blocks.take(n + 1).drop_last() =~= blocks.take(n));
        let short = of_blocks(blocks.take(n));
        let long = of_blocks(blocks.take(n + 1));
        assert(long == short + of_kind(blocks[n].kind, blocks[n].groups@));
        assert forall|k: int| 0 <= k < short.len() implies of_blocks(blocks)[k] == #[trigger] short[k] by {
            assert(long[k] == short[k]);
        }
    }
}

impl Config {
    /// Whether `set` is what the filter of the configuration compiles to:
    /// it ignores nothing and holds the declared groups, in order.
    pub open spec fn compiles_to(&self, set: ClassifiedFilterSet) -> bool {
        &&& set.ignored.includes@.len() == 0
        &&& set.ignored.excludes@.len() == 0
        &&& yields_all(self.filter_spec.groups(), set.groups@)
    }

    /// One generation pass over a listed directory: the filter is
    /// compiled, the listing is walked, and the tree is written out. A
    /// malformed pattern ends the pass before anything is walked.
    pub fn generate(&self, listing: Vec<DirEntry>) -> (r: Result<String, FilterError>)
        ensures
            match r {
                Ok(text) => exists|set: ClassifiedFilterSet| #[trigger]
                    self.compiles_to(set) && (set.is_portable() && entries_portable(
                        entry_views(listing@),
                    ) ==> text@ == render_namespace(
                        walked(self.module_identifier@, entry_views(listing@), set),
                        Seq::empty(),
                    )),
                Err(FilterError::InvalidPattern { pattern, .. }) => some_group_declares(
                    self.filter_spec.groups(),
                    pattern@,
                ) && (is_portable(pattern@) ==> !glob_accepts(pattern@)),
            },
            all_groups_portable(self.filter_spec.groups()) ==> (r is Ok <==> all_groups_accepted(
                self.filter_spec.groups(),
            )),
    {
        let set = match self.filter_spec.compile() {
            Ok(set) => set,
            Err(e) => {
                return Err(e);
            },
        };
        let tree = walk(self.module_identifier.as_str(), listing, &set);
        let text = assemble(&tree);
        assert(self.compiles_to(set));
        Ok(text)
    }
}

proof fn lemma_same_texts_match_alike(
    a: Seq<FilterPattern>,
    b: Seq<FilterPattern>,
    path: Seq<char>,
)
    requires
        pattern_texts(a) == pattern_texts(b),
    ensures
        any_matches(a, path) == any_matches(b, path),
{
    assert(a.len() == pattern_texts(a).len());
    assert(b.len() == pattern_texts(b).len());
    if any_matches(a, path) {
        let i = choose|i: int| 0 <= i < a.len() && glob_matches(#[trigger] a[i]@, path);
        assert(pattern_texts(a)[i] == pattern_texts(b)[i]);
        assert(glob_matches(b[i]@, path));
    }
    if any_matches(b, path) {
        let i = choose|i: int| 0 <= i < b.len() && glob_matches(#[trigger] b[i]@, path);
        assert(pattern_texts(a)[i] == pattern_texts(b)[i]);
        assert(glob_matches(a[i]@, path));
    }
}

/// Two sets compiled from one configuration classify every path alike:
/// only the texts of the patterns and the kinds of the groups count.
pub proof fn lemma_compiled_classify_alike(
    config: Config,
    a: ClassifiedFilterSet,
    b: ClassifiedFilterSet,
    path: Seq<char>,
)
    requires
        config.compiles_to(a),
        config.compiles_to(b),
    ensures
        a.classification(path) == b.classification(path),
{
    let declared = config.filter_spec.groups();
    assert(!a.ignored.admits(path));
    assert(!b.ignored.admits(path));
    assert forall|i: int| 0 <= i < declared.len() implies (#[trigger] a.groups@[i]).group.admits(
        path,
    ) == b.groups@[i].group.admits(path) && a.groups@[i].kind == b.groups@[i].kind by {
        assert(declared[i].1.yields(a.groups@[i].group));
        assert(declared[i].1.yields(b.groups@[i].group));
        lemma_same_texts_match_alike(a.groups@[i].group.includes@, b.groups@[i].group.includes@, path);
        lemma_same_texts_match_alike(a.groups@[i].group.excludes@, b.groups@[i].group.excludes@, path);
    }
    assert forall|i: int| a.is_first_match(i, path) == b.is_first_match(i, path) by {
        if a.is_first_match(i, path) {
            assert forall|j: int| 0 <= j < i implies !(#[trigger] b.groups@[j]).group.admits(
                path,
            ) by {
                assert(!a.groups@[j].group.admits(path));
            }
        }
        if b.is_first_match(i, path) {
            assert forall|j: int| 0 <= j < i implies !(#[trigger] a.groups@[j]).group.admits(
                path,
            ) by {
                assert(!b.groups@[j].group.admits(path));
            }
        }
    }
    if exists|i: int| a.is_first_match(i, path) {
        let i = choose|i: int| a.is_first_match(i, path);
        let j = choose|j: int| b.is_first_match(j, path);
        assert(b.is_first_match(i, path));
        assert(a.is_first_match(j, path));
        if i < j {
            assert(!a.groups@[i].group.admits(path));
        }
        if j < i {
            assert(!a.groups@[j].group.admits(path));
        }
    }
}

proof fn lemma_compiled_walk_entry_alike(
    config: Config,
    a: ClassifiedFilterSet,
    b: ClassifiedFilterSet,
    e: EntryModel,
    prefix: Seq<char>,
)
    requires
        config.compiles_to(a),
        config.compiles_to(b),
    ensures
        walk_entry(e, prefix, a) == walk_entry(e, prefix, b),
    decreases e, 0nat,
{
    match e {
        EntryModel::Directory { name, entries } => {
            lemma_compiled_walk_entries_alike(config, a, b, entries, (prefix + name).push('/'));
        },
        EntryModel::File { name } => {
            lemma_compiled_classify_alike(config, a, b, prefix + name);
        },
        EntryModel::Other { .. } => {},
    }
}

proof fn lemma_compiled_walk_entries_alike(
    config: Config,
    a: ClassifiedFilterSet,
    b: ClassifiedFilterSet,
    entries: Seq<EntryModel>,
    prefix: Seq<char>,
)
    requires
        config.compiles_to(a),
        config.compiles_to(b),
    ensures
        walk_entries(entries, prefix, a) == walk_entries(entries, prefix, b),
    decreases entries, 1nat,
{
    if entries.len() > 0 {
        lemma_compiled_walk_entries_alike(config, a, b, entries.drop_last(), prefix);
        lemma_compiled_walk_entry_alike(config, a, b, entries.last(), prefix);
    }
}

/// What a pass yields depends on the configuration and the listing
/// alone: every set that the configuration compiles to walks a listing to
/// the same tree.
pub proof fn lemma_generation_is_determined(
    config: Config,
    a: ClassifiedFilterSet,
    b: ClassifiedFilterSet,
    entries: Seq<EntryModel>,
)
    requires
        config.compiles_to(a),
        config.compiles_to(b),
    ensures
        walked(config.module_identifier@, entries, a) == walked(
            config.module_identifier@,
            entries,
            b,
        ),
{
    lemma_compiled_walk_entries_alike(
        config,
        a,
        b,
        normalize_all(entries),
        Seq::empty(),
    );
}

} // verus!
