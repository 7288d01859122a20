//! Rendering of a namespace tree as source text: a module for each
//! namespace, a constant for each file, which names the file and leaves the
//! reading of it to whoever compiles the text.

use vstd::prelude::*;
use crate::filter::ContentKind;
use crate::namespace::{Constant, ConstantModel, Namespace, NamespaceModel, Node, NodeModel};
use crate::text::push_char;

verus! {

/// One character of a path, as it stands inside a string literal.
pub open spec fn escape_char(c: char) -> Seq<char> {
    if c == '\\' {
        seq!['\\', '\\']
    } else if c == '"' {
        seq!['\\', '"']
    } else if c == '\n' {
        seq!['\\', 'n']
    } else if c == '\r' {
        seq!['\\', 'r']
    } else if c == '\t' {
        seq!['\\', 't']
    } else {
        seq![c]
    }
}

/// The characters of `s`, each as it stands inside a string literal.
pub open spec fn escaped(s: Seq<char>) -> Seq<char>
    decreases s.len(),
{
    if s.len() == 0 {
        Seq::empty()
    } else {
        escaped(s.drop_last()) + escape_char(s.last())
    }
}

/// `s` as a string literal.
pub open spec fn quoted(s: Seq<char>) -> Seq<char> {
    seq!['"'] + escaped(s) + seq!['"']
}

/// What stands between the name of a constant and the literal of its path.
pub open spec fn constant_binding(kind: ContentKind) -> Seq<char> {
    match kind {
        ContentKind::Text => ": &str = include_str!("@,
        ContentKind::Binary => ": &[u8] = include_bytes!("@,
    }
}

/// The line of a constant, behind the margin.
pub open spec fn render_constant(c: ConstantModel, margin: Seq<char>) -> Seq<char> {
    margin + "pub const "@ + c.identifier + constant_binding(c.kind) + quoted(c.source_path)
        + ");\n"@
}

/// The text of a node, behind the margin.
pub open spec fn render_node(node: NodeModel, margin: Seq<char>) -> Seq<char>
    decreases node,
{
    match node {
        NodeModel::Namespace(n) => render_namespace(n, margin),
        NodeModel::Constant(c) => render_constant(c, margin),
    }
}

/// The texts of the nodes, one after the other.
pub open spec fn render_nodes(nodes: Seq<NodeModel>, margin: Seq<char>) -> Seq<char>
    decreases nodes,
{
    if nodes.len() == 0 {
        Seq::empty()
    } else {
        render_nodes(nodes.drop_last(), margin) + render_node(nodes.last(), margin)
    }
}

/// The module of a namespace: its children stand in its braces, in their
/// order, four spaces further in.
pub open spec fn render_namespace(ns: NamespaceModel, margin: Seq<char>) -> Seq<char>
    decreases ns,
{
    margin + "pub mod "@ + ns.identifier + " {\n"@ + render_nodes(
        ns.children,
        margin + "    "@,
    ) + margin + "}\n"@
}

/// Appends the characters of `text` to `out`, each as it stands inside a
/// string literal.
pub(crate) fn push_escaped(out: &mut String, text: &str)
    ensures
        final(out)@ == old(out)@ + escaped(text@),
{
    let ghost start = out@;
    assert(text@.take(0) =~= Seq::empty());
    assert(out@ =~= start + escaped(text@.take(0)));
    for c in it: text.chars()
        invariant
            it.seq() == text@,
            out@ == start + escaped(text@.take(it.index())),
    {
        proof {
            let i = it.index();
            assert(text@.take(i + 1).drop_last() =~= text@.take(i));
            assert(text@.take(i + 1).last() == c);
        }
        if c == '\\' {
            push_char(out, '\\');
            push_char(out, '\\');
        } else if c == '"' {
            push_char(out, '\\');
            push_char(out, '"');
        } else if c == '\n' {
            push_char(out, '\\');
            push_char(out, 'n');
        } else if c == '\r' {
            push_char(out, '\\');
            push_char(out, 'r');
        } else if c == '\t' {
            push_char(out, '\\');
            push_char(out, 't');
        } else {
            push_char(out, c);
        }
        assert(out@ =~= start + escaped(text@.take(it.index() + 1)));
    }
    assert(text@.take(text@.len() as int) =~= text@);
}

/// Appends `text` to `out` as a string literal.
fn emit_quoted(text: &str, out: &mut String)
    ensures
        final(out)@ == old(out)@ + quoted(text@),
{
    push_char(out, '"');
    push_escaped(out, text);
    push_char(out, '"');
    assert(out@ =~= old(out)@ + quoted(text@));
}

/// Appends the line of a constant to `out`.
fn emit_constant(c: &Constant, margin: &str, out: &mut String)
    ensures
        final(out)@ == old(out)@ + render_constant(c@, margin@),
{
    out.append(margin);
    out.append("pub const ");
    out.append(c.identifier.as_str());
    match c.kind {
        ContentKind::Text => out.append(": &str = include_str!("),
        ContentKind::Binary => out.append(": &[u8] = include_bytes!("),
    }
    emit_quoted(c.source_path.as_str(), out);
    out.append(");\n");
    assert(out@ =~= old(out)@ + render_constant(c@, margin@));
}

/// Appends the module of a namespace to `out`.
fn emit_namespace(ns: &Namespace, margin: &str, out: &mut String)
    ensures
        final(out)@ == old(out)@ + render_namespace(ns@, margin@),
    decreases ns,
{
    out.append(margin);
    out.append("pub mod ");
    out.append(ns.identifier.as_str());
    out.append(" {\n");
    let mut inner = String::from_str(margin);
    inner.append("    ");
    let ghost head = out@;
    let mut i: usize = 0;
    while i < ns.children.len()
        invariant
            i <= ns.children.len(),
            inner@ == margin@ + "    "@,
            out@ == head + render_nodes(ns@.children.take(i as int), inner@),
        decreases ns.children.len() - i,
    {
        proof {
            assert(ns@.children.take(i + 1).drop_last() =~= ns@.children.take(i as int));
            assert(ns@.children.take(i + 1).last() == ns.children@[i as int]@);
        }
        let ghost before = out@;
        let ghost node = ns.children@[i as int]@;
        match &ns.children[i] {
            Node::Namespace(child) => {
                assert(node == NodeModel::Namespace(child@));
                emit_namespace(child, inner.as_str(), out);
            },
            Node::Constant(c) => {
                assert(node == NodeModel::Constant(c@));
                emit_constant(c, inner.as_str(), out);
            },
        }
        assert(out@ == before + render_node(node, inner@));
        assert(render_nodes(ns@.children.take(i + 1), inner@) == render_nodes(
            ns@.children.take(i as int),
            inner@,
        ) + render_node(node, inner@));
        i += 1;
        assert(out@ =~= head + render_nodes(ns@.children.take(i as int), inner@));
    }
    assert(ns@.children.take(ns@.children.len() as int) =~= ns@.children);
    out.append(margin);
    out.append("}\n");
    assert(out@ =~= old(out)@ + render_namespace(ns@, margin@));
}

/// Renders the tree as source text. Nothing is read from disk: the text
/// names each file by its path.
pub fn assemble(tree: &Namespace) -> (text: String)
    ensures
        text@ == render_namespace(tree@, Seq::empty()),
{
    let mut out = String::new();
    emit_namespace(tree, "", &mut out);
    proof {
        reveal_strlit("");
        assert(""@ =~= Seq::<char>::empty());
        assert(out@ =~= render_namespace(tree@, ""@));
    }
    out
}

} // verus!
