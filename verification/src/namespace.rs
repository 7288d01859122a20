//! The namespace tree that a generation pass builds: a namespace for each
//! directory, a constant for each classified file.

use vstd::prelude::*;
use crate::filter::ContentKind;
use crate::ident::is_valid_identifier;
use crate::text::{reversed, str_eq};

verus! {

/// A file of the tree. Its content is not held here: `source_path` says
/// where it is, relative to the base directory of the pass.
#[derive(Debug, Clone, PartialEq, Eq)]
pub struct Constant {
    pub identifier: String,
    pub kind: ContentKind,
    pub source_path: String,
}

/// A child of a namespace.
#[derive(Debug, PartialEq, Eq)]
pub enum Node {
    Namespace(Namespace),
    Constant(Constant),
}

/// A directory of the tree, with its children in the order of the walk.
#[derive(Debug, PartialEq, Eq)]
pub struct Namespace {
    pub identifier: String,
    pub children: Vec<Node>,
}

/// What a `Constant` stands for.
pub struct ConstantModel {
    pub identifier: Seq<char>,
    pub kind: ContentKind,
    pub source_path: Seq<char>,
}

/// What a `Node` stands for.
pub enum NodeModel {
    Namespace(NamespaceModel),
    Constant(ConstantModel),
}

/// What a `Namespace` stands for.
pub struct NamespaceModel {
    pub identifier: Seq<char>,
    pub children: Seq<NodeModel>,
}

impl View for Constant {
    type V = ConstantModel;

    open spec fn view(&self) -> ConstantModel {
        ConstantModel {
            identifier: self.identifier@,
            kind: self.kind,
            source_path: self.source_path@,
        }
    }
}

impl View for Node {
    type V = NodeModel;

    open spec fn view(&self) -> NodeModel
        decreases self,
    {
        match self {
            Node::Namespace(n) => NodeModel::Namespace(n.view()),
            Node::Constant(c) => NodeModel::Constant(c.view()),
        }
    }
}

impl View for Namespace {
    type V = NamespaceModel;

    open spec fn view(&self) -> NamespaceModel
        decreases self,
    {
        NamespaceModel {
            identifier: self.identifier@,
            children: Seq::new(
                self.children@.len(),
                |i: int|
                    if 0 <= i < self.children@.len() {
                        self.children@[i].view()
                    } else {
                        arbitrary()
                    },
            ),
        }
    }
}

/// The views of a list of nodes, in order.
pub open spec fn node_views(nodes: Seq<Node>) -> Seq<NodeModel> {
    Seq::new(nodes.len(), |i: int| nodes[i].view())
}

/// The view of a namespace holds the views of its children.
pub(crate) proof fn lemma_namespace_view(ns: Namespace)
    ensures
        ns@ == (NamespaceModel {
            identifier: ns.identifier@,
            children: node_views(ns.children@),
        }),
{
    assert(ns@.children =~= node_views(ns.children@));
}

impl NodeModel {
    /// Whether every identifier in the node is one.
    pub open spec fn wf(self) -> bool
        decreases self,
    {
        match self {
            NodeModel::Namespace(n) => n.wf(),
            NodeModel::Constant(c) => is_valid_identifier(c.identifier),
        }
    }
}

impl NamespaceModel {
    /// Whether every identifier in the tree is one.
    pub open spec fn wf(self) -> bool
        decreases self,
    {
        &&& is_valid_identifier(self.identifier)
        &&& forall|i: int| 0 <= i < self.children.len() ==> (#[trigger] self.children[i]).wf()
    }
}

impl NodeModel {
    /// The identifier that the node is known by in its namespace.
    pub open spec fn identifier(self) -> Seq<char> {
        match self {
            NodeModel::Namespace(n) => n.identifier,
            NodeModel::Constant(c) => c.identifier,
        }
    }

    /// Whether no namespace in the node holds two children of one identifier.
    pub open spec fn is_collision_free(self) -> bool
        decreases self,
    {
        match self {
            NodeModel::Namespace(n) => n.is_collision_free(),
            NodeModel::Constant(_) => true,
        }
    }
}

/// Whether no two of the nodes have one identifier.
pub open spec fn identifiers_distinct(nodes: Seq<NodeModel>) -> bool {
    forall|i: int, j: int|
        0 <= i < j < nodes.len() ==> (#[trigger] nodes[i]).identifier() != (
        #[trigger] nodes[j]).identifier()
}

impl NamespaceModel {
    /// Whether no namespace of the tree holds two children of one
    /// identifier. Two files whose names differ only in what sanitising
    /// replaces collide, as do a file and a directory of one stem.
    pub open spec fn is_collision_free(self) -> bool
        decreases self,
    {
        &&& identifiers_distinct(self.children)
        &&& forall|i: int|
            0 <= i < self.children.len() ==> (#[trigger] self.children[i]).is_collision_free()
    }
}

impl Node {
    /// The identifier that the node is known by in its namespace.
    pub fn identifier(&self) -> (s: &str)
        ensures
            s@ == self@.identifier(),
    {
        match self {
            Node::Namespace(n) => n.identifier.as_str(),
            Node::Constant(c) => c.identifier.as_str(),
        }
    }
}

impl Namespace {
    /// Whether no namespace of the tree holds two children of one identifier.
    pub fn is_collision_free(&self) -> (b: bool)
        ensures
            b == self@.is_collision_free(),
        decreases self,
    {
        let ghost children = self@.children;
        let mut j: usize = 0;
        while j < self.children.len()
            invariant
                j <= self.children.len(),
                children == self@.children,
                children.len() == self.children@.len(),
                forall|k: int| 0 <= k < children.len() ==> children[k] == self.children@[k]@,
                forall|a: int, b: int|
                    0 <= a < b < j ==> (#[trigger] children[a]).identifier() != (
                    #[trigger] children[b]).identifier(),
                forall|k: int| 0 <= k < j ==> (#[trigger] children[k]).is_collision_free(),
            decreases self.children.len() - j,
        {
            let mut i: usize = 0;
            while i < j
                invariant
                    i <= j < self.children.len(),
                    children == self@.children,
                    children.len() == self.children@.len(),
                    forall|k: int| 0 <= k < children.len() ==> children[k] == self.children@[k]@,
                    forall|a: int|
                        0 <= a < i ==> (#[trigger] children[a]).identifier()
                            != children[j as int].identifier(),
                decreases j - i,
            {
                if str_eq(self.children[i].identifier(), self.children[j].identifier()) {
                    assert(children[i as int].identifier() == children[j as int].identifier());
                    return false;
                }
                i += 1;
            }
            let free = match &self.children[j] {
                Node::Namespace(inner) => inner.is_collision_free(),
                Node::Constant(_) => true,
            };
            assert(free == children[j as int].is_collision_free());
            if !free {
                return false;
            }
            j += 1;
        }
        true
    }
}

impl NodeModel {
    /// The node with `prefix` before the path of every constant in it.
    pub open spec fn rebased(self, prefix: Seq<char>) -> NodeModel
        decreases self,
    {
        match self {
            NodeModel::Namespace(n) => NodeModel::Namespace(n.rebased(prefix)),
            NodeModel::Constant(c) => NodeModel::Constant(
                ConstantModel { source_path: prefix + c.source_path, ..c },
            ),
        }
    }
}

/// The nodes with `prefix` before the path of every constant in them.
pub open spec fn rebased_nodes(nodes: Seq<NodeModel>, prefix: Seq<char>) -> Seq<NodeModel>
    decreases nodes,
{
    if nodes.len() == 0 {
        Seq::empty()
    } else {
        rebased_nodes(nodes.drop_last(), prefix).push(nodes.last().rebased(prefix))
    }
}

impl NamespaceModel {
    /// The tree with `prefix` before the path of every constant in it.
    pub open spec fn rebased(self, prefix: Seq<char>) -> NamespaceModel
        decreases self,
    {
        NamespaceModel {
            identifier: self.identifier,
            children: rebased_nodes(self.children, prefix),
        }
    }
}

impl Namespace {
    /// Puts `prefix` before the path of every constant in the tree, so
    /// that the paths start from another directory than the one that
    /// was walked. Nothing is put between the prefix and the path.
    pub fn rebased(self, prefix: &str) -> (tree: Namespace)
        ensures
            tree@ == self@.rebased(prefix@),
        decreases self,
    {
        let ghost models = self@.children;
        proof {
            assert(models =~= node_views(self.children@));
        }
        let Namespace { identifier, children } = self;
        let mut back = reversed(children);
        let mut out: Vec<Node> = Vec::new();
        let ghost mut done: int = 0;
        assert(models.take(0) =~= Seq::empty());
        assert(node_views(out@) =~= Seq::empty());
        while back.len() > 0
            invariant
                0 <= done <= children@.len(),
                models == node_views(children@),
                back@.len() == children@.len() - done,
                forall|j: int|
                    0 <= j < back@.len() ==> #[trigger] back@[j] == children@[children@.len() - 1
                        - j],
                node_views(out@) == rebased_nodes(models.take(done), prefix@),
                forall|j: int| 0 <= j < children@.len() ==> decreases_to!(self => children@[j]),
            decreases back@.len(),
        {
            let node = back.pop().unwrap();
            let ghost before = node_views(out@);
            assert(node == children@[done]);
            assert(models[done] == node@);
            let moved = match node {
                Node::Namespace(inner) => Node::Namespace(inner.rebased(prefix)),
                Node::Constant(c) => {
                    let mut path = String::from_str(prefix);
                    path.append(c.source_path.as_str());
                    Node::Constant(
                        Constant { identifier: c.identifier, kind: c.kind, source_path: path },
                    )
                },
            };
            assert(moved@ == models[done].rebased(prefix@));
            out.push(moved);
            proof {
                assert(node_views(out@) =~= before.push(moved@));
                assert(models.take(done + 1).drop_last() =~= models.take(done));
                assert(models.take(done + 1).last() == models[done]);
                done = done + 1;
            }
        }
        assert(models.take(children@.len() as int) =~= models);
        let tree = Namespace { identifier, children: out };
        assert(tree@.children =~= node_views(out@));
        tree
    }
}

proof fn lemma_rebased_nodes_index(nodes: Seq<NodeModel>, prefix: Seq<char>)
    ensures
        rebased_nodes(nodes, prefix).len() == nodes.len(),
        forall|i: int|
            0 <= i < nodes.len() ==> #[trigger] rebased_nodes(nodes, prefix)[i] == nodes[i].rebased(
                prefix,
            ),
    decreases nodes.len(),
{
    if nodes.len() > 0 {
        lemma_rebased_nodes_index(nodes.drop_last(), prefix);
        assert forall|i: int| 0 <= i < nodes.len() implies #[trigger] rebased_nodes(nodes, prefix)[i]
            == nodes[i].rebased(prefix) by {
            if i < nodes.len() - 1 {
                assert(nodes.drop_last()[i] == nodes[i]);
            }
        }
    }
}

/// Moving the paths of a tree changes no identifier: the tree keeps its
/// names, stays well formed if it was, and stays free of collisions if
/// it was.
pub proof fn lemma_rebased_keeps_names(tree: NamespaceModel, prefix: Seq<char>)
    ensures
        tree.rebased(prefix).identifier == tree.identifier,
        tree.wf() ==> tree.rebased(prefix).wf(),
        tree.is_collision_free() ==> tree.rebased(prefix).is_collision_free(),
    decreases tree,
{
    let moved = tree.rebased(prefix);
    lemma_rebased_nodes_index(tree.children, prefix);
    assert forall|i: int| 0 <= i < tree.children.len() implies {
        &&& (#[trigger] moved.children[i]).identifier() == tree.children[i].identifier()
        &&& tree.children[i].wf() ==> moved.children[i].wf()
        &&& tree.children[i].is_collision_free() ==> moved.children[i].is_collision_free()
    } by {
        match tree.children[i] {
            NodeModel::Namespace(inner) => {
                lemma_rebased_keeps_names(inner, prefix);
            },
            NodeModel::Constant(_) => {},
        }
    }
    if tree.wf() {
        assert forall|i: int| 0 <= i < moved.children.len() implies (#[trigger] moved.children[i]).wf() by {
            assert(tree.children[i].wf());
        }
    }
    if tree.is_collision_free() {
        assert forall|i: int, j: int| 0 <= i < j < moved.children.len() implies (
        #[trigger] moved.children[i]).identifier() != (#[trigger] moved.children[j]).identifier() by {
            assert(tree.children[i].identifier() != tree.children[j].identifier());
        }
        assert forall|i: int| 0 <= i < moved.children.len() implies (
        #[trigger] moved.children[i]).is_collision_free() by {
            assert(tree.children[i].is_collision_free());
        }
    }
}

} // verus!
