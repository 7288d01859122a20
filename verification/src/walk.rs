//! The walk over a directory listing: entries are put in order by name,
//! files are classified and named, and a namespace tree comes out.

use vstd::prelude::*;
use crate::emit::render_namespace;
use crate::filter::{is_portable, ClassifiedFilterSet};
use crate::ident::{lemma_sanitized_is_valid, to_valid_identifier, StrExt};
use crate::listing::{
    entry_views, file_stem, is_tidy, lemma_directory_view, lemma_normalize_order_independent,
    lemma_sort_members, normalize, normalize_all, normalize_each, same_listing, sort_listing,
    stem_of, DirEntry, EntryModel,
};
use crate::namespace::{
    lemma_namespace_view, node_views, Constant, ConstantModel, Namespace, NamespaceModel, Node,
    NodeModel,
};
use crate::text::push_char;

verus! {

/// Whether no name in the entry holds a backslash.
pub open spec fn entry_portable(e: EntryModel) -> bool
    decreases e,
{
    &&& is_portable(e.name())
    &&& e matches EntryModel::Directory { entries, .. } ==> forall|i: int|
        0 <= i < entries.len() ==> entry_portable(#[trigger] entries[i])
}

/// Whether no name in the listing holds a backslash.
pub open spec fn entries_portable(entries: Seq<EntryModel>) -> bool {
    forall|i: int| 0 <= i < entries.len() ==> entry_portable(#[trigger] entries[i])
}

/// What one entry adds to its namespace. A directory called `name` adds a
/// namespace for its entries, which are found under `prefix + name + "/"`.
/// A file adds a constant if the filter gives `prefix + name` a kind, and
/// nothing if not. Any other entry adds nothing.
pub open spec fn walk_entry(
    e: EntryModel,
    prefix: Seq<char>,
    filter: ClassifiedFilterSet,
) -> Seq<NodeModel>
    decreases e,
{
    match e {
        EntryModel::Directory { name, entries } => seq![
            NodeModel::Namespace(
                NamespaceModel {
                    identifier: to_valid_identifier(name),
                    children: walk_entries(entries, (prefix + name).push('/'), filter),
                },
            ),
        ],
        EntryModel::File { name } => match filter.classification(prefix + name) {
            Some(kind) => seq![
                NodeModel::Constant(
                    ConstantModel {
                        identifier: to_valid_identifier(stem_of(name)),
                        kind,
                        source_path: prefix + name,
                    },
                ),
            ],
            None => Seq::empty(),
        },
        EntryModel::Other { .. } => Seq::empty(),
    }
}

/// What the entries add to their namespace, in the order of the list.
pub open spec fn walk_entries(
    entries: Seq<EntryModel>,
    prefix: Seq<char>,
    filter: ClassifiedFilterSet,
) -> Seq<NodeModel>
    decreases entries,
{
    if entries.len() == 0 {
        Seq::empty()
    } else {
        walk_entries(entries.drop_last(), prefix, filter) + walk_entry(
            entries.last(),
            prefix,
            filter,
        )
    }
}

/// Whether every identifier in the nodes is one.
pub open spec fn nodes_wf(nodes: Seq<NodeModel>) -> bool {
    forall|i: int| 0 <= i < nodes.len() ==> (#[trigger] nodes[i]).wf()
}

proof fn lemma_joined_portable(prefix: Seq<char>, name: Seq<char>)
    requires
        is_portable(prefix),
        is_portable(name),
    ensures
        is_portable(prefix + name),
        is_portable((prefix + name).push('/')),
{
    assert forall|i: int| 0 <= i < (prefix + name).len() implies #[trigger] (prefix + name)[i]
        != '\\' by {
        if i >= prefix.len() {
            assert((prefix + name)[i] == name[i - prefix.len()]);
        }
    }
}

/// Walks the entries in the order of the list.
fn walk_in_order(entries: &Vec<DirEntry>, prefix: &str, filter: &ClassifiedFilterSet) -> (nodes:
    Vec<Node>)
    ensures
        nodes_wf(node_views(nodes@)),
        filter.is_portable() && is_portable(prefix@) && entries_portable(entry_views(entries@))
            ==> node_views(nodes@) == walk_entries(entry_views(entries@), prefix@, *filter),
    decreases entries,
{
    let ghost views = entry_views(entries@);
    let ghost exact = filter.is_portable() && is_portable(prefix@) && entries_portable(views);
    let mut nodes: Vec<Node> = Vec::new();
    let mut i: usize = 0;
    assert(views.take(0) =~= Seq::empty());
    assert(node_views(nodes@) =~= Seq::empty());
    while i < entries.len()
        invariant
            i <= entries.len(),
            views == entry_views(entries@),
            exact == (filter.is_portable() && is_portable(prefix@) && entries_portable(views)),
            nodes_wf(node_views(nodes@)),
            exact ==> node_views(nodes@) == walk_entries(views.take(i as int), prefix@, *filter),
        decreases entries.len() - i,
    {
        let ghost before = node_views(nodes@);
        let ghost e = views[i as int];
        proof {
            assert(e == entries@[i as int]@);
            assert(views.take(i + 1).drop_last() =~= views.take(i as int));
            assert(views.take(i + 1).last() == e);
            if entries@[i as int] is Directory {
                lemma_directory_view(entries@[i as int]);
            }
            if exact {
                assert(entry_portable(e));
                lemma_joined_portable(prefix@, e.name());
            }
        }
        let mut path = String::from_str(prefix);
        path.append(entries[i].name());
        match &entries[i] {
            DirEntry::Directory { name, entries: inner } => {
                push_char(&mut path, '/');
                proof {
                    if exact {
                        assert(entries_portable(entry_views(inner@)));
                    }
                }
                let children = walk_in_order(inner, path.as_str(), filter);
                let ns = Namespace { identifier: name.as_str().to_valid_ident(), children };
                proof {
                    lemma_namespace_view(ns);
                    lemma_sanitized_is_valid(name@);
                    assert(ns@.wf());
                }
                nodes.push(Node::Namespace(ns));
                proof {
                    assert(node_views(nodes@) =~= before.push(NodeModel::Namespace(ns@)));
                    if exact {
                        assert(walk_entry(e, prefix@, *filter) =~= seq![NodeModel::Namespace(ns@)]);
                        assert(node_views(nodes@) =~= before + walk_entry(e, prefix@, *filter));
                    }
                }
            },
            DirEntry::File { name } => {
                match filter.classify(path.as_str()) {
                    Some(kind) => {
                        let stem = file_stem(name.as_str());
                        let constant = Constant {
                            identifier: stem.as_str().to_valid_ident(),
                            kind,
                            source_path: path,
                        };
                        proof {
                            lemma_sanitized_is_valid(stem@);
                        }
                        nodes.push(Node::Constant(constant));
                        proof {
                            assert(node_views(nodes@) =~= before.push(
                                NodeModel::Constant(constant@),
                            ));
                            if exact {
                                assert(walk_entry(e, prefix@, *filter) =~= seq![
                                    NodeModel::Constant(constant@),
                                ]);
                                assert(node_views(nodes@) =~= before + walk_entry(
                                    e,
                                    prefix@,
                                    *filter,
                                ));
                            }
                        }
                    },
                    None => {
                        proof {
                            if exact {
                                assert(before + walk_entry(e, prefix@, *filter) =~= before);
                            }
                        }
                    },
                }
            },
            DirEntry::Other { .. } => {
                proof {
                    if exact {
                        assert(before + walk_entry(e, prefix@, *filter) =~= before);
                    }
                }
            },
        }
        i += 1;
    }
    assert(views.take(entries@.len() as int) =~= views);
    nodes
}

proof fn lemma_normalize_portable(e: EntryModel)
    requires
        entry_portable(e),
    ensures
        entry_portable(normalize(e)),
        normalize(e).name() == e.name(),
    decreases e,
{
    match e {
        EntryModel::Directory { name, entries } => {
            lemma_normalize_all_portable(entries);
        },
        _ => {},
    }
}

proof fn lemma_normalize_each_portable(entries: Seq<EntryModel>)
    requires
        entries_portable(entries),
    ensures
        entries_portable(normalize_each(entries)),
        normalize_each(entries).len() == entries.len(),
    decreases entries, 0nat,
{
    if entries.len() > 0 {
        assert(entries_portable(entries.drop_last())) by {
            assert forall|i: int| 0 <= i < entries.drop_last().len() implies entry_portable(
                #[trigger] entries.drop_last()[i],
            ) by {
                assert(entries.drop_last()[i] == entries[i]);
            }
        }
        lemma_normalize_each_portable(entries.drop_last());
        assert(entry_portable(entries[entries.len() - 1]));
        lemma_normalize_portable(entries.last());
    }
}

proof fn lemma_normalize_all_portable(entries: Seq<EntryModel>)
    requires
        entries_portable(entries),
    ensures
        entries_portable(normalize_all(entries)),
    decreases entries, 1nat,
{
    lemma_normalize_each_portable(entries);
    lemma_sort_members(normalize_each(entries));
}

/// The tree that a walk over `entries` yields: a namespace called after
/// `name`, for the entries in order by name at every level.
pub open spec fn walked(name: Seq<char>, entries: Seq<EntryModel>, filter: ClassifiedFilterSet)
    -> NamespaceModel {
    NamespaceModel {
        identifier: to_valid_identifier(name),
        children: walk_entries(normalize_all(entries), Seq::empty(), filter),
    }
}

/// Walks a directory listing and builds its namespace tree. The entries
/// of every directory are taken in order by name. A directory becomes a
/// namespace, a file that the filter classifies becomes a constant, and
/// everything else is passed over. Paths are relative to the directory
/// that was listed, with `/` between their parts.
pub fn walk(name: &str, listing: Vec<DirEntry>, filter: &ClassifiedFilterSet) -> (tree: Namespace)
    ensures
        tree@.wf(),
        tree@.identifier == to_valid_identifier(name@),
        filter.is_portable() && entries_portable(entry_views(listing@)) ==> tree@ == walked(
            name@,
            entry_views(listing@),
            *filter,
        ),
{
    let ghost views = entry_views(listing@);
    let sorted = sort_listing(listing);
    proof {
        if entries_portable(views) {
            lemma_normalize_all_portable(views);
        }
        reveal_strlit("");
        assert(""@ =~= Seq::<char>::empty());
    }
    let children = walk_in_order(&sorted, "", filter);
    let tree = Namespace { identifier: name.to_valid_ident(), children };
    proof {
        lemma_namespace_view(tree);
        lemma_sanitized_is_valid(name@);
    }
    tree
}

/// A walk does not depend on the order in which the directories were
/// listed: two tidy listings that hold the same entries yield the same tree.
pub proof fn lemma_walk_order_independent(
    name: Seq<char>,
    a: Seq<EntryModel>,
    b: Seq<EntryModel>,
    filter: ClassifiedFilterSet,
)
    requires
        same_listing(a, b),
        is_tidy(a),
        is_tidy(b),
    ensures
        walked(name, a, filter) == walked(name, b, filter),
{
    lemma_normalize_order_independent(a, b);
}

/// The text that is written for a listing is the same whatever the order
/// in which the directories were listed.
pub proof fn lemma_text_order_independent(
    name: Seq<char>,
    a: Seq<EntryModel>,
    b: Seq<EntryModel>,
    filter: ClassifiedFilterSet,
)
    requires
        same_listing(a, b),
        is_tidy(a),
        is_tidy(b),
    ensures
        render_namespace(walked(name, a, filter), Seq::empty()) == render_namespace(
            walked(name, b, filter),
            Seq::empty(),
        ),
{
    lemma_walk_order_independent(name, a, b, filter);
}

/// Why an entry adds nothing to the tree.
#[derive(Debug, Clone, Copy, PartialEq, Eq, Structural)]
pub enum Reason {
    /// No group of the filter holds the file, or the filter ignores it.
    Unclassified,
    /// The entry is neither a directory nor a regular file.
    UnknownType,
}

/// An entry that a walk passes over, by its path.
#[derive(Debug, Clone, PartialEq, Eq)]
pub struct PassedOver {
    pub path: String,
    pub reason: Reason,
}

impl View for PassedOver {
    type V = (Seq<char>, Reason);

    open spec fn view(&self) -> (Seq<char>, Reason) {
        (self.path@, self.reason)
    }
}

/// The views of a list of entries passed over, in order.
pub open spec fn passed_views(list: Seq<PassedOver>) -> Seq<(Seq<char>, Reason)> {
    Seq::new(list.len(), |i: int| list[i]@)
}

/// What a walk passes over in one entry: the files in it that the filter
/// gives no kind, and the entries in it that are neither directories nor
/// regular files, each by its path.
pub open spec fn passed_in_entry(
    e: EntryModel,
    prefix: Seq<char>,
    filter: ClassifiedFilterSet,
) -> Seq<(Seq<char>, Reason)>
    decreases e,
{
    match e {
        EntryModel::Directory { name, entries } => passed_in_entries(
            entries,
            (prefix + name).push('/'),
            filter,
        ),
        EntryModel::File { name } => match filter.classification(prefix + name) {
            Some(_) => Seq::empty(),
            None => seq![(prefix + name, Reason::Unclassified)],
        },
        EntryModel::Other { name } => seq![(prefix + name, Reason::UnknownType)],
    }
}

/// What a walk passes over in the entries, in the order of the list.
pub open spec fn passed_in_entries(
    entries: Seq<EntryModel>,
    prefix: Seq<char>,
    filter: ClassifiedFilterSet,
) -> Seq<(Seq<char>, Reason)>
    decreases entries,
{
    if entries.len() == 0 {
        Seq::empty()
    } else {
        passed_in_entries(entries.drop_last(), prefix, filter) + passed_in_entry(
            entries.last(),
            prefix,
            filter,
        )
    }
}

fn collect_passed_over(
    entries: &Vec<DirEntry>,
    prefix: &str,
    filter: &ClassifiedFilterSet,
    out: &mut Vec<PassedOver>,
)
    ensures
        filter.is_portable() && is_portable(prefix@) && entries_portable(entry_views(entries@))
            ==> passed_views(final(out)@) == passed_views(old(out)@) + passed_in_entries(
            entry_views(entries@),
            prefix@,
            *filter,
        ),
    decreases entries,
{
    let ghost views = entry_views(entries@);
    let ghost exact = filter.is_portable() && is_portable(prefix@) && entries_portable(views);
    let ghost start = passed_views(out@);
    let mut i: usize = 0;
    assert(views.take(0) =~= Seq::empty());
    assert(start + Seq::<(Seq<char>, Reason)>::empty() =~= start);
    while i < entries.len()
        invariant
            i <= entries.len(),
            views == entry_views(entries@),
            exact == (filter.is_portable() && is_portable(prefix@) && entries_portable(views)),
            exact ==> passed_views(out@) == start + passed_in_entries(
                views.take(i as int),
                prefix@,
                *filter,
            ),
        decreases entries.len() - i,
    {
        let ghost before = passed_views(out@);
        let ghost e = views[i as int];
        let ghost so_far = passed_in_entries(views.take(i as int), prefix@, *filter);
        proof {
            assert(e == entries@[i as int]@);
            assert(views.take(i + 1).drop_last() =~= views.take(i as int));
            assert(views.take(i + 1).last() == e);
            if entries@[i as int] is Directory {
                lemma_directory_view(entries@[i as int]);
            }
            if exact {
                assert(entry_portable(e));
                lemma_joined_portable(prefix@, e.name());
            }
        }
        let mut path = String::from_str(prefix);
        path.append(entries[i].name());
        match &entries[i] {
            DirEntry::Directory { name, entries: inner } => {
                push_char(&mut path, '/');
                proof {
                    if exact {
                        assert(entries_portable(entry_views(inner@)));
                    }
                }
                collect_passed_over(inner, path.as_str(), filter, out);
                proof {
                    if exact {
                        let added = passed_in_entry(e, prefix@, *filter);
                        assert(passed_views(out@) =~= start + (so_far + added));
                    }
                }
            },
            DirEntry::File { name } => {
                match filter.classify(path.as_str()) {
                    Some(_) => {
                        proof {
                            if exact {
                                assert(start + (so_far + passed_in_entry(e, prefix@, *filter))
                                    =~= before);
                            }
                        }
                    },
                    None => {
                        out.push(PassedOver { path, reason: Reason::Unclassified });
                        proof {
                            if exact {
                                let item = (prefix@ + name@, Reason::Unclassified);
                                assert(passed_views(out@) =~= before.push(item));
                                assert(start + (so_far + seq![item]) =~= before.push(item));
                            }
                        }
                    },
                }
            },
            DirEntry::Other { name } => {
                out.push(PassedOver { path, reason: Reason::UnknownType });
                proof {
                    if exact {
                        let item = (prefix@ + name@, Reason::UnknownType);
                        assert(passed_views(out@) =~= before.push(item));
                        assert(start + (so_far + seq![item]) =~= before.push(item));
                    }
                }
            },
        }
        i += 1;
    }
    assert(views.take(entries@.len() as int) =~= views);
}

/// Lists what a walk over the listing passes over, in the order of the
/// listing: the files that the filter gives no kind, and the entries
/// that are neither directories nor regular files. None of them is an
/// error, and none of them adds to the tree.
pub fn passed_over(listing: &Vec<DirEntry>, filter: &ClassifiedFilterSet) -> (list: Vec<PassedOver>)
    ensures
        filter.is_portable() && entries_portable(entry_views(listing@)) ==> passed_views(list@)
            == passed_in_entries(entry_views(listing@), Seq::empty(), *filter),
{
    let mut list: Vec<PassedOver> = Vec::new();
    proof {
        reveal_strlit("");
        assert(""@ =~= Seq::<char>::empty());
        assert(passed_views(list@) =~= Seq::empty());
    }
    collect_passed_over(listing, "", filter, &mut list);
    proof {
        let added = passed_in_entries(entry_views(listing@), Seq::empty(), *filter);
        assert(Seq::<(Seq<char>, Reason)>::empty() + added =~= added);
    }
    list
}

} // verus!
