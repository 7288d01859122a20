//! A directory listing as plain values, the names of its files without
//! their extensions, and its order by name.

use vstd::prelude::*;
use crate::text::reversed;
use crate::order::{
    lemma_name_order_asymmetric, lemma_name_order_chain, lemma_name_order_total, name_less, name_lt,
};

verus! {

/// One entry of a directory, as the file system lists it. A directory
/// holds its own entries.
#[derive(Debug, PartialEq, Eq)]
pub enum DirEntry {
    Directory { name: String, entries: Vec<DirEntry> },
    File { name: String },
    /// Neither a directory nor a regular file.
    Other { name: String },
}

/// What a `DirEntry` stands for.
pub enum EntryModel {
    Directory { name: Seq<char>, entries: Seq<EntryModel> },
    File { name: Seq<char> },
    Other { name: Seq<char> },
}

impl EntryModel {
    /// The name of the entry.
    pub open spec fn name(self) -> Seq<char> {
        match self {
            EntryModel::Directory { name, .. } => name,
            EntryModel::File { name } => name,
            EntryModel::Other { name } => name,
        }
    }
}

/// What an entry stands for: its name, and for a directory what its
/// entries stand for, in their order.
pub open spec fn entry_model(e: DirEntry) -> EntryModel
    decreases e,
{
    match e {
        DirEntry::Directory { name, entries } => EntryModel::Directory {
            name: name@,
            entries: Seq::new(
                entries@.len(),
                |i: int|
                    if 0 <= i < entries@.len() {
                        entry_model(entries@[i])
                    } else {
                        arbitrary()
                    },
            ),
        },
        DirEntry::File { name } => EntryModel::File { name: name@ },
        DirEntry::Other { name } => EntryModel::Other { name: name@ },
    }
}

impl View for DirEntry {
    type V = EntryModel;

    open spec fn view(&self) -> EntryModel {
        entry_model(*self)
    }
}

/// The views of a list of entries, in order.
pub open spec fn entry_views(entries: Seq<DirEntry>) -> Seq<EntryModel> {
    Seq::new(entries.len(), |i: int| entries[i].view())
}

impl DirEntry {
    /// The name of the entry.
    pub fn name(&self) -> (s: &str)
        ensures
            s@ == self@.name(),
    {
        match self {
            DirEntry::Directory { name, .. } => name.as_str(),
            DirEntry::File { name } => name.as_str(),
            DirEntry::Other { name } => name.as_str(),
        }
    }
}

/// The place of the last `.` in `name`, or -1 if there is none.
pub open spec fn last_dot(name: Seq<char>) -> int
    decreases name.len(),
{
    if name.len() == 0 {
        -1
    } else if name.last() == '.' {
        name.len() - 1
    } else {
        last_dot(name.drop_last())
    }
}

/// The name without its extension: what stands before the last `.`, or
/// the whole name if it has no `.` or only one that it starts with.
pub open spec fn stem_of(name: Seq<char>) -> Seq<char> {
    if last_dot(name) <= 0 {
        name
    } else {
        name.take(last_dot(name))
    }
}

/// The name of a file without its extension.
pub fn file_stem(name: &str) -> (stem: String)
    ensures
        stem@ == stem_of(name@),
{
    let len = name.unicode_len();
    let mut dot: usize = 0;
    let mut found = false;
    let mut i: usize = 0;
    for c in it: name.chars()
        invariant
            it.seq() == name@,
            len == name@.len(),
            i == it.index(),
            found ==> dot < i && dot == last_dot(name@.take(i as int)),
            !found ==> last_dot(name@.take(i as int)) == -1,
    {
        proof {
            assert(name@.take(i + 1).drop_last() =~= name@.take(i as int));
            assert(name@.take(i + 1).last() == c);
        }
        if c == '.' {
            dot = i;
            found = true;
        }
        i += 1;
    }
    assert(name@.take(len as int) =~= name@);
    if found && dot > 0 {
        String::from_str(name.substring_char(0, dot))
    } else {
        String::from_str(name)
    }
}

/// Where an entry called `name` goes into the ordered list `s`: behind the
/// last entry whose name does not come after it.
pub open spec fn insert_index(s: Seq<EntryModel>, name: Seq<char>) -> int
    decreases s.len(),
{
    if s.len() == 0 {
        0
    } else if name_lt(name, s.last().name()) {
        insert_index(s.drop_last(), name)
    } else {
        s.len() as int
    }
}

/// The entries put in order by name, one after the other into an ordered
/// list; entries of one name keep their order.
pub open spec fn sort_by_name(s: Seq<EntryModel>) -> Seq<EntryModel>
    decreases s.len(),
{
    if s.len() == 0 {
        s
    } else {
        let sorted = sort_by_name(s.drop_last());
        sorted.insert(insert_index(sorted, s.last().name()), s.last())
    }
}

proof fn lemma_insert_index_bounds(s: Seq<EntryModel>, name: Seq<char>)
    ensures
        0 <= insert_index(s, name) <= s.len(),
    decreases s.len(),
{
    if s.len() > 0 {
        lemma_insert_index_bounds(s.drop_last(), name);
    }
}

/// Sorting keeps the number of entries.
pub proof fn lemma_sort_len(s: Seq<EntryModel>)
    ensures
        sort_by_name(s).len() == s.len(),
    decreases s.len(),
{
    if s.len() > 0 {
        lemma_sort_len(s.drop_last());
        lemma_insert_index_bounds(sort_by_name(s.drop_last()), s.last().name());
    }
}

/// Puts `entry` into the ordered list `list`, at its place by name.
fn insert_by_name(list: &mut Vec<DirEntry>, entry: DirEntry)
    ensures
        entry_views(final(list)@) == entry_views(old(list)@).insert(
            insert_index(entry_views(old(list)@), entry@.name()),
            entry@,
        ),
{
    let ghost views = entry_views(list@);
    let mut j: usize = list.len();
    assert(views.take(j as int) =~= views);
    while j > 0 && name_less(entry.name(), list[j - 1].name())
        invariant
            j <= list.len(),
            list@ == old(list)@,
            views == entry_views(list@),
            insert_index(views, entry@.name()) == insert_index(views.take(j as int), entry@.name()),
        decreases j,
    {
        proof {
            assert(views.take(j as int).drop_last() =~= views.take(j - 1));
            assert(views.take(j as int).last() == list@[j - 1]@);
        }
        j -= 1;
    }
    proof {
        assert(views.take(list@.len() as int) =~= views);
        if j > 0 {
            assert(views.take(j as int).last() == list@[j - 1]@);
        }
        assert(insert_index(views, entry@.name()) == j);
    }
    list.insert(j, entry);
    assert(entry_views(list@) =~= views.insert(j as int, entry@));
}

/// The view of a directory holds the views of its entries.
pub(crate) proof fn lemma_directory_view(e: DirEntry)
    requires
        e is Directory,
    ensures
        e@ == (EntryModel::Directory {
            name: e->Directory_name@,
            entries: entry_views(e->Directory_entries@),
        }),
{
    let entries = e->Directory_entries;
    assert(e@ is Directory);
    assert(e@->Directory_name == e->Directory_name@);
    assert(e@->Directory_entries.len() == entries@.len());
    assert forall|i: int| 0 <= i < entries@.len() implies e@->Directory_entries[i] == entries@[i]@ by {}
    assert(e@->Directory_entries =~= entry_views(entries@));
}

/// The entry with the entries of every directory in it put in order.
pub open spec fn normalize(e: EntryModel) -> EntryModel
    decreases e,
{
    match e {
        EntryModel::Directory { name, entries } => EntryModel::Directory {
            name,
            entries: sort_by_name(normalize_each(entries)),
        },
        other => other,
    }
}

/// Every entry of the list with the directories in it put in order; the
/// list itself is left in its order.
pub open spec fn normalize_each(entries: Seq<EntryModel>) -> Seq<EntryModel>
    decreases entries,
{
    if entries.len() == 0 {
        Seq::empty()
    } else {
        normalize_each(entries.drop_last()).push(normalize(entries.last()))
    }
}

/// The listing in order by name, at every level.
pub open spec fn normalize_all(entries: Seq<EntryModel>) -> Seq<EntryModel> {
    sort_by_name(normalize_each(entries))
}

/// Puts a listing in order by name, at every level.
pub fn sort_listing(entries: Vec<DirEntry>) -> (sorted: Vec<DirEntry>)
    ensures
        entry_views(sorted@) == normalize_all(entry_views(entries@)),
    decreases entries,
{
    let ghost views = entry_views(entries@);
    let mut out: Vec<DirEntry> = Vec::new();
    let mut back = reversed(entries);
    let ghost mut done: int = 0;
    assert(views.take(0) =~= Seq::empty());
    while back.len() > 0
        invariant
            0 <= done <= entries@.len(),
            back@.len() == entries@.len() - done,
            forall|j: int|
                0 <= j < back@.len() ==> #[trigger] back@[j] == entries@[entries@.len() - 1 - j],
            views == entry_views(entries@),
            entry_views(out@) == sort_by_name(normalize_each(views.take(done))),
        decreases back@.len(),
    {
        let e = back.pop().unwrap();
        assert(e == entries@[done]);
        assert(views[done] == e@);
        proof {
            if e is Directory {
                lemma_directory_view(e);
            }
        }
        let e = match e {
            DirEntry::Directory { name, entries: inner } => {
                let inner = sort_listing(inner);
                let sorted_entry = DirEntry::Directory { name, entries: inner };
                proof {
                    lemma_directory_view(sorted_entry);
                }
                sorted_entry
            },
            other => other,
        };
        assert(e@ == normalize(views[done]));
        insert_by_name(&mut out, e);
        proof {
            let step = normalize_each(views.take(done + 1));
            assert(views.take(done + 1).drop_last() =~= views.take(done));
            assert(views.take(done + 1).last() == views[done]);
            assert(step == normalize_each(views.take(done)).push(normalize(views[done])));
            assert(step.drop_last() =~= normalize_each(views.take(done)));
            assert(step.last() == normalize(views[done]));
            done = done + 1;
        }
    }
    assert(views.take(entries@.len() as int) =~= views);
    out
}

/// Sorting invents nothing: every entry of the sorted list is one of the
/// list it was made from.
pub proof fn lemma_sort_members(s: Seq<EntryModel>)
    ensures
        forall|i: int| 0 <= i < sort_by_name(s).len() ==> s.contains(#[trigger] sort_by_name(s)[i]),
    decreases s.len(),
{
    if s.len() > 0 {
        let rest = s.drop_last();
        let sorted = sort_by_name(rest);
        let at = insert_index(sorted, s.last().name());
        lemma_sort_members(rest);
        lemma_sort_len(rest);
        lemma_insert_index_bounds(sorted, s.last().name());
        assert forall|i: int| 0 <= i < sort_by_name(s).len() implies s.contains(
            #[trigger] sort_by_name(s)[i],
        ) by {
            if i == at {
                assert(s[s.len() - 1] == sort_by_name(s)[i]);
            } else {
                let k = if i < at {
                    i
                } else {
                    i - 1
                };
                assert(sort_by_name(s)[i] == sorted[k]);
                assert(rest.contains(sorted[k]));
                let j = choose|j: int| 0 <= j < rest.len() && rest[j] == sorted[k];
                assert(s[j] == sort_by_name(s)[i]);
            }
        }
    }
}

/// Whether no entry of the list comes after a later one.
pub open spec fn is_sorted(s: Seq<EntryModel>) -> bool {
    forall|i: int, j: int|
        0 <= i < j < s.len() ==> !name_lt(#[trigger] s[j].name(), #[trigger] s[i].name())
}

/// Whether no two entries of the list have one name.
pub open spec fn names_distinct(s: Seq<EntryModel>) -> bool {
    forall|i: int, j: int|
        0 <= i < s.len() && 0 <= j < s.len() && i != j ==> #[trigger] s[i].name()
            != #[trigger] s[j].name()
}

/// Whether every entry of `a` is one of `b`.
pub open spec fn all_in(a: Seq<EntryModel>, b: Seq<EntryModel>) -> bool {
    forall|i: int| 0 <= i < a.len() ==> b.contains(#[trigger] a[i])
}

proof fn lemma_insert_index_place(s: Seq<EntryModel>, name: Seq<char>)
    requires
        is_sorted(s),
    ensures
        forall|i: int| 0 <= i < insert_index(s, name) ==> !name_lt(name, #[trigger] s[i].name()),
        forall|i: int|
            insert_index(s, name) <= i < s.len() ==> name_lt(name, #[trigger] s[i].name()),
    decreases s.len(),
{
    lemma_insert_index_bounds(s, name);
    if s.len() > 0 {
        let rest = s.drop_last();
        assert(is_sorted(rest)) by {
            assert forall|i: int, j: int| 0 <= i < j < rest.len() implies !name_lt(
                #[trigger] rest[j].name(),
                #[trigger] rest[i].name(),
            ) by {
                assert(rest[i] == s[i] && rest[j] == s[j]);
            }
        }
        if name_lt(name, s.last().name()) {
            lemma_insert_index_place(rest, name);
            lemma_insert_index_bounds(rest, name);
            assert forall|i: int| 0 <= i < insert_index(s, name) implies !name_lt(
                name,
                #[trigger] s[i].name(),
            ) by {
                assert(s[i] == rest[i]);
            }
            assert forall|i: int| insert_index(s, name) <= i < s.len() implies name_lt(
                name,
                #[trigger] s[i].name(),
            ) by {
                if i < rest.len() {
                    assert(s[i] == rest[i]);
                }
            }
        } else {
            assert forall|i: int| 0 <= i < s.len() implies !name_lt(name, #[trigger] s[i].name()) by {
                if i < s.len() - 1 {
                    assert(!name_lt(s[s.len() - 1].name(), s[i].name()));
                    lemma_name_order_chain(s[i].name(), s.last().name(), name);
                }
            }
        }
    }
}

/// The sorted list is in order.
pub proof fn lemma_sort_sorted(s: Seq<EntryModel>)
    ensures
        is_sorted(sort_by_name(s)),
    decreases s.len(),
{
    if s.len() > 0 {
        let t = sort_by_name(s.drop_last());
        let x = s.last();
        let p = insert_index(t, x.name());
        let r = sort_by_name(s);
        lemma_sort_sorted(s.drop_last());
        lemma_insert_index_place(t, x.name());
        lemma_insert_index_bounds(t, x.name());
        assert forall|i: int, j: int| 0 <= i < j < r.len() implies !name_lt(
            #[trigger] r[j].name(),
            #[trigger] r[i].name(),
        ) by {
            if j == p {
                assert(r[i] == t[i]);
            } else if i == p {
                assert(r[j] == t[j - 1]);
                lemma_name_order_asymmetric(x.name(), t[j - 1].name());
            } else {
                let ti = if i < p {
                    i
                } else {
                    i - 1
                };
                let tj = if j < p {
                    j
                } else {
                    j - 1
                };
                assert(r[i] == t[ti] && r[j] == t[tj]);
            }
        }
    }
}

/// Sorting loses nothing: every entry of the list is one of the sorted list.
pub proof fn lemma_sort_keeps_members(s: Seq<EntryModel>)
    ensures
        all_in(s, sort_by_name(s)),
    decreases s.len(),
{
    if s.len() > 0 {
        let rest = s.drop_last();
        let t = sort_by_name(rest);
        let p = insert_index(t, s.last().name());
        let r = sort_by_name(s);
        lemma_sort_keeps_members(rest);
        lemma_insert_index_bounds(t, s.last().name());
        assert forall|i: int| 0 <= i < s.len() implies r.contains(#[trigger] s[i]) by {
            if i == s.len() - 1 {
                assert(r[p] == s[i]);
            } else {
                assert(rest[i] == s[i]);
                assert(t.contains(rest[i]));
                let k = choose|k: int| 0 <= k < t.len() && t[k] == rest[i];
                let j = if k < p {
                    k
                } else {
                    k + 1
                };
                assert(r[j] == s[i]);
            }
        }
    }
}

/// Sorting a list of distinct names yields a list of distinct names.
pub proof fn lemma_sort_distinct(s: Seq<EntryModel>)
    requires
        names_distinct(s),
    ensures
        names_distinct(sort_by_name(s)),
    decreases s.len(),
{
    if s.len() > 0 {
        let rest = s.drop_last();
        let t = sort_by_name(rest);
        let x = s.last();
        let p = insert_index(t, x.name());
        let r = sort_by_name(s);
        assert(names_distinct(rest)) by {
            assert forall|i: int, j: int|
                0 <= i < rest.len() && 0 <= j < rest.len() && i != j implies #[trigger] rest[i].name()
                != #[trigger] rest[j].name() by {
                assert(rest[i] == s[i] && rest[j] == s[j]);
            }
        }
        lemma_sort_distinct(rest);
        lemma_sort_members(rest);
        lemma_insert_index_bounds(t, x.name());
        assert forall|k: int| 0 <= k < t.len() implies (#[trigger] t[k]).name() != x.name() by {
            assert(rest.contains(t[k]));
            let j = choose|j: int| 0 <= j < rest.len() && rest[j] == t[k];
            assert(s[j] == t[k]);
            assert(s[j].name() != s[s.len() - 1].name());
        }
        assert forall|i: int, j: int|
            0 <= i < r.len() && 0 <= j < r.len() && i != j implies #[trigger] r[i].name()
            != #[trigger] r[j].name() by {
            let ti = if i < p {
                i
            } else {
                i - 1
            };
            let tj = if j < p {
                j
            } else {
                j - 1
            };
            if i == p {
                assert(r[j] == t[tj]);
            } else if j == p {
                assert(r[i] == t[ti]);
            } else {
                assert(r[i] == t[ti] && r[j] == t[tj]);
            }
        }
    }
}

proof fn lemma_prefix_sorted(s: Seq<EntryModel>)
    requires
        is_sorted(s),
        s.len() > 0,
    ensures
        is_sorted(s.drop_last()),
{
    let t = s.drop_last();
    assert forall|i: int, j: int| 0 <= i < j < t.len() implies !name_lt(
        #[trigger] t[j].name(),
        #[trigger] t[i].name(),
    ) by {
        assert(t[i] == s[i] && t[j] == s[j]);
    }
}

proof fn lemma_prefix_distinct(s: Seq<EntryModel>)
    requires
        names_distinct(s),
        s.len() > 0,
    ensures
        names_distinct(s.drop_last()),
{
    let t = s.drop_last();
    assert forall|i: int, j: int|
        0 <= i < t.len() && 0 <= j < t.len() && i != j implies #[trigger] t[i].name()
        != #[trigger] t[j].name() by {
        assert(t[i] == s[i] && t[j] == s[j]);
    }
}

/// In a list in order, of distinct names, an earlier entry comes before a
/// later one.
proof fn lemma_sorted_strict(s: Seq<EntryModel>, i: int, j: int)
    requires
        is_sorted(s),
        names_distinct(s),
        0 <= i < j < s.len(),
    ensures
        name_lt(s[i].name(), s[j].name()),
{
    assert(!name_lt(s[j].name(), s[i].name()));
    assert(s[i].name() != s[j].name());
    lemma_name_order_total(s[i].name(), s[j].name());
}

proof fn lemma_sorted_same_last(a: Seq<EntryModel>, b: Seq<EntryModel>)
    requires
        a.len() == b.len(),
        a.len() > 0,
        is_sorted(a),
        is_sorted(b),
        names_distinct(a),
        names_distinct(b),
        all_in(a, b),
        all_in(b, a),
    ensures
        a.last() == b.last(),
{
    let n = a.len() - 1;
    assert(a[n] == a[n]);
    assert(b[n] == b[n]);
    assert(b.contains(a[n]));
    assert(a.contains(b[n]));
    let ja = choose|j: int| 0 <= j < b.len() && b[j] == a[n];
    let ib = choose|i: int| 0 <= i < a.len() && a[i] == b[n];
    if ja != n && ib != n {
        lemma_sorted_strict(b, ja, n);
        lemma_sorted_strict(a, ib, n);
        lemma_name_order_asymmetric(a[n].name(), b[n].name());
    }
}

proof fn lemma_prefix_all_in(a: Seq<EntryModel>, b: Seq<EntryModel>)
    requires
        a.len() == b.len(),
        a.len() > 0,
        names_distinct(a),
        all_in(a, b),
        a.last() == b.last(),
    ensures
        all_in(a.drop_last(), b.drop_last()),
{
    let n = a.len() - 1;
    let a1 = a.drop_last();
    let b1 = b.drop_last();
    assert forall|i: int| 0 <= i < a1.len() implies b1.contains(#[trigger] a1[i]) by {
        assert(a1[i] == a[i]);
        assert(b.contains(a[i]));
        let j = choose|j: int| 0 <= j < b.len() && b[j] == a[i];
        assert(a[i].name() != a[n].name());
        assert(j != n);
        assert(b1[j] == a1[i]);
    }
}

/// Two lists in order, of distinct names and with the same entries, are
/// the same list.
pub proof fn lemma_sorted_unique(a: Seq<EntryModel>, b: Seq<EntryModel>)
    requires
        a.len() == b.len(),
        is_sorted(a),
        is_sorted(b),
        names_distinct(a),
        names_distinct(b),
        all_in(a, b),
        all_in(b, a),
    ensures
        a == b,
    decreases a.len(),
{
    if a.len() == 0 {
        assert(a =~= b);
    } else {
        lemma_sorted_same_last(a, b);
        lemma_prefix_all_in(a, b);
        lemma_prefix_all_in(b, a);
        lemma_prefix_sorted(a);
        lemma_prefix_sorted(b);
        lemma_prefix_distinct(a);
        lemma_prefix_distinct(b);
        lemma_sorted_unique(a.drop_last(), b.drop_last());
        assert(a =~= a.drop_last().push(a.last()));
        assert(b =~= b.drop_last().push(b.last()));
    }
}

/// The order of a listing does not count: two lists of distinct names
/// with the same entries are sorted into the same list.
pub proof fn lemma_sort_order_independent(a: Seq<EntryModel>, b: Seq<EntryModel>)
    requires
        a.len() == b.len(),
        names_distinct(a),
        names_distinct(b),
        all_in(a, b),
        all_in(b, a),
    ensures
        sort_by_name(a) == sort_by_name(b),
{
    let sa = sort_by_name(a);
    let sb = sort_by_name(b);
    lemma_sort_len(a);
    lemma_sort_len(b);
    lemma_sort_sorted(a);
    lemma_sort_sorted(b);
    lemma_sort_distinct(a);
    lemma_sort_distinct(b);
    lemma_sort_members(a);
    lemma_sort_members(b);
    lemma_sort_keeps_members(a);
    lemma_sort_keeps_members(b);
    assert forall|i: int| 0 <= i < sa.len() implies sb.contains(#[trigger] sa[i]) by {
        assert(a.contains(sa[i]));
        let k = choose|k: int| 0 <= k < a.len() && a[k] == sa[i];
        assert(b.contains(a[k]));
        let m = choose|m: int| 0 <= m < b.len() && b[m] == a[k];
        assert(sb.contains(b[m]));
    }
    assert forall|i: int| 0 <= i < sb.len() implies sa.contains(#[trigger] sb[i]) by {
        assert(b.contains(sb[i]));
        let k = choose|k: int| 0 <= k < b.len() && b[k] == sb[i];
        assert(a.contains(b[k]));
        let m = choose|m: int| 0 <= m < a.len() && a[m] == b[k];
        assert(sa.contains(a[m]));
    }
    lemma_sorted_unique(sa, sb);
}

/// Whether two entries are the same but for the order in which the
/// directories in them list their entries.
pub open spec fn same_entry(x: EntryModel, y: EntryModel) -> bool
    decreases x,
{
    match x {
        EntryModel::Directory { name, entries } => y is Directory && y->Directory_name == name
            && same_listing(entries, y->Directory_entries),
        EntryModel::File { name } => y is File && y->File_name == name,
        EntryModel::Other { name } => y is Other && y->Other_name == name,
    }
}

/// Whether two listings hold the same entries, but for their order at
/// every level.
pub open spec fn same_listing(a: Seq<EntryModel>, b: Seq<EntryModel>) -> bool
    decreases a,
{
    &&& a.len() == b.len()
    &&& forall|i: int|
        #![trigger a[i]]
        0 <= i < a.len() ==> exists|j: int|
            #![trigger b[j]]
            0 <= j < b.len() && same_entry(a[i], b[j])
    &&& forall|j: int|
        #![trigger b[j]]
        0 <= j < b.len() ==> exists|i: int|
            #![trigger a[i]]
            0 <= i < a.len() && same_entry(a[i], b[j])
}

/// Whether no directory of the listing, at any level, holds two entries
/// of one name.
pub open spec fn is_tidy(entries: Seq<EntryModel>) -> bool
    decreases entries,
{
    &&& names_distinct(entries)
    &&& forall|i: int|
        0 <= i < entries.len() && (#[trigger] entries[i]) is Directory ==> is_tidy(
            entries[i]->Directory_entries,
        )
}

proof fn lemma_normalize_each_index(entries: Seq<EntryModel>)
    ensures
        normalize_each(entries).len() == entries.len(),
        forall|i: int|
            0 <= i < entries.len() ==> #[trigger] normalize_each(entries)[i] == normalize(
                entries[i],
            ),
    decreases entries.len(),
{
    if entries.len() > 0 {
        lemma_normalize_each_index(entries.drop_last());
        assert forall|i: int| 0 <= i < entries.len() implies #[trigger] normalize_each(entries)[i]
            == normalize(entries[i]) by {
            if i < entries.len() - 1 {
                assert(entries.drop_last()[i] == entries[i]);
            }
        }
    }
}

proof fn lemma_normalize_same(x: EntryModel, y: EntryModel)
    requires
        same_entry(x, y),
        x is Directory ==> is_tidy(x->Directory_entries),
        y is Directory ==> is_tidy(y->Directory_entries),
    ensures
        normalize(x) == normalize(y),
    decreases x, 0nat,
{
    match x {
        EntryModel::Directory { name, entries } => {
            lemma_normalize_order_independent(entries, y->Directory_entries);
        },
        _ => {},
    }
}

/// The order of a listing does not count at any level: two tidy listings
/// that hold the same entries are put in the same order.
pub proof fn lemma_normalize_order_independent(a: Seq<EntryModel>, b: Seq<EntryModel>)
    requires
        same_listing(a, b),
        is_tidy(a),
        is_tidy(b),
    ensures
        normalize_all(a) == normalize_all(b),
    decreases a, 1nat,
{
    let na = normalize_each(a);
    let nb = normalize_each(b);
    lemma_normalize_each_index(a);
    lemma_normalize_each_index(b);
    assert forall|i: int| 0 <= i < a.len() implies nb.contains(#[trigger] na[i]) by {
        let j = choose|j: int| #![trigger b[j]] 0 <= j < b.len() && same_entry(a[i], b[j]);
        lemma_normalize_same(a[i], b[j]);
        assert(nb[j] == na[i]);
    }
    assert forall|j: int| 0 <= j < b.len() implies na.contains(#[trigger] nb[j]) by {
        let i = choose|i: int| #![trigger a[i]] 0 <= i < a.len() && same_entry(a[i], b[j]);
        lemma_normalize_same(a[i], b[j]);
        assert(na[i] == nb[j]);
    }
    assert(names_distinct(na)) by {
        assert forall|i: int, j: int|
            0 <= i < na.len() && 0 <= j < na.len() && i != j implies #[trigger] na[i].name()
            != #[trigger] na[j].name() by {
            assert(na[i].name() == a[i].name());
            assert(na[j].name() == a[j].name());
        }
    }
    assert(names_distinct(nb)) by {
        assert forall|i: int, j: int|
            0 <= i < nb.len() && 0 <= j < nb.len() && i != j implies #[trigger] nb[i].name()
            != #[trigger] nb[j].name() by {
            assert(nb[i].name() == b[i].name());
            assert(nb[j].name() == b[j].name());
        }
    }
    lemma_sort_order_independent(na, nb);
}

} // verus!
