//! Marked-up documents as a stream of edges, and the rendering of such a
//! stream as visible text.
//!
//! A document is a tree of nodes. Walking the tree depth first, every node
//! is opened, then its children are walked, then it is closed: the tree is
//! handled as that sequence of edges.

use vstd::prelude::*;
use crate::normalize::{normalize, normalized};
use crate::text::{append_chars, chars_of, same_text, string_of, views};

verus! {

/// What a node of a document is, as far as rendering goes.
#[derive(Debug, Clone)]
pub enum MarkupNode {
    /// A run of text.
    Text(String),
    /// An element, by its local name.
    Element(String),
    /// The document root, a comment, a doctype or a processing instruction.
    Other,
}

/// One step of the depth-first walk of a document.
#[derive(Debug, Clone)]
pub enum MarkupEdge {
    /// The walk enters a node.
    Open(MarkupNode),
    /// The walk leaves a node, all its children done.
    Close(MarkupNode),
}

/// The mathematical form of a `MarkupNode`.
pub enum NodeLabel {
    Text(Seq<char>),
    Element(Seq<char>),
    Other,
}

/// The mathematical form of a `MarkupEdge`.
pub enum EdgeLabel {
    Open(NodeLabel),
    Close(NodeLabel),
}

impl View for MarkupNode {
    type V = NodeLabel;

    open spec fn view(&self) -> NodeLabel {
        match self {
            MarkupNode::Text(t) => NodeLabel::Text(t@),
            MarkupNode::Element(name) => NodeLabel::Element(name@),
            MarkupNode::Other => NodeLabel::Other,
        }
    }
}

impl View for MarkupEdge {
    type V = EdgeLabel;

    open spec fn view(&self) -> EdgeLabel {
        match self {
            MarkupEdge::Open(n) => EdgeLabel::Open(n@),
            MarkupEdge::Close(n) => EdgeLabel::Close(n@),
        }
    }
}

/// Elements whose whole content is invisible.
pub open spec fn is_hidden_container(name: Seq<char>) -> bool {
    ||| name == "style"@
    ||| name == "script"@
    ||| name == "noscript"@
    ||| name == "template"@
    ||| name == "head"@
}

/// Elements that start on a new line.
pub open spec fn breaks_before(name: Seq<char>) -> bool {
    ||| name == "br"@
    ||| name == "p"@
    ||| name == "div"@
    ||| name == "li"@
    ||| name == "tr"@
    ||| name == "section"@
    ||| name == "article"@
    ||| name == "header"@
    ||| name == "footer"@
    ||| name == "h1"@
    ||| name == "h2"@
    ||| name == "h3"@
    ||| name == "h4"@
    ||| name == "h5"@
    ||| name == "h6"@
}

/// Elements after which a new line starts.
pub open spec fn breaks_after(name: Seq<char>) -> bool {
    ||| name == "p"@
    ||| name == "div"@
    ||| name == "li"@
    ||| name == "tr"@
    ||| name == "section"@
    ||| name == "article"@
}

/// `text`, ended by a line feed unless it ends with one already.
pub open spec fn with_line_break(text: Seq<char>) -> Seq<char> {
    if text.len() > 0 && text.last() == '\n' {
        text
    } else {
        text.push('\n')
    }
}

/// The state of a rendering: the text so far, and how many nodes deep the
/// walk is inside an invisible element (zero when it is outside all of them).
pub struct Rendering {
    pub text: Seq<char>,
    pub hidden: nat,
}

/// The state after one more edge.
pub open spec fn render_step(r: Rendering, e: EdgeLabel) -> Rendering {
    if r.hidden > 0 {
        match e {
            EdgeLabel::Open(_) => Rendering { text: r.text, hidden: r.hidden + 1 },
            EdgeLabel::Close(_) => Rendering { text: r.text, hidden: (r.hidden - 1) as nat },
        }
    } else {
        match e {
            EdgeLabel::Open(NodeLabel::Text(t)) => Rendering { text: r.text + t, hidden: 0 },
            EdgeLabel::Open(NodeLabel::Element(name)) => if is_hidden_container(name) {
                Rendering { text: r.text, hidden: 1 }
            } else if breaks_before(name) {
                Rendering { text: with_line_break(r.text), hidden: 0 }
            } else {
                r
            },
            EdgeLabel::Close(NodeLabel::Element(name)) => if breaks_after(name) {
                Rendering { text: with_line_break(r.text), hidden: 0 }
            } else {
                r
            },
            _ => r,
        }
    }
}

/// The state after the edges `edges`, starting from `r`.
pub open spec fn render_from(r: Rendering, edges: Seq<EdgeLabel>) -> Rendering {
    edges.fold_left(r, |r: Rendering, e: EdgeLabel| render_step(r, e))
}

/// The visible text of a document given by its edges, before tidying.
pub open spec fn rendered(edges: Seq<EdgeLabel>) -> Seq<char> {
    render_from(Rendering { text: Seq::empty(), hidden: 0 }, edges).text
}

/// A document as a tree: a node and, in order, the trees of its children.
pub struct MarkupTree {
    pub label: NodeLabel,
    pub children: Seq<MarkupTree>,
}

/// The edges of the depth-first walk of `tree`: the node is opened, its
/// children are walked in order, the node is closed.
pub open spec fn tree_edges(tree: MarkupTree) -> Seq<EdgeLabel>
    decreases tree,
{
    seq![EdgeLabel::Open(tree.label)] + forest_edges(tree.children) + seq![
        EdgeLabel::Close(tree.label),
    ]
}

/// The edges of the walks of `trees`, one walk after another.
pub open spec fn forest_edges(trees: Seq<MarkupTree>) -> Seq<EdgeLabel>
    decreases trees,
{
    if trees.len() == 0 {
        Seq::empty()
    } else {
        forest_edges(trees.drop_last()) + tree_edges(trees.last())
    }
}

/// The text `out`, followed by the visible text of `tree`: the text of a
/// text node; nothing of an invisible element; of any other node the text of
/// its children, with a line break before it and after it where the node is
/// an element that asks for one.
pub open spec fn walk(tree: MarkupTree, out: Seq<char>) -> Seq<char>
    decreases tree,
{
    match tree.label {
        NodeLabel::Text(t) => walk_all(tree.children, out + t),
        NodeLabel::Element(name) => if is_hidden_container(name) {
            out
        } else {
            let opened = if breaks_before(name) {
                with_line_break(out)
            } else {
                out
            };
            let inner = walk_all(tree.children, opened);
            if breaks_after(name) {
                with_line_break(inner)
            } else {
                inner
            }
        },
        NodeLabel::Other => walk_all(tree.children, out),
    }
}

/// The text `out`, followed by the visible text of each of `trees`, in order.
pub open spec fn walk_all(trees: Seq<MarkupTree>, out: Seq<char>) -> Seq<char>
    decreases trees,
{
    if trees.len() == 0 {
        out
    } else {
        walk(trees.last(), walk_all(trees.drop_last(), out))
    }
}

/// Rendering edges one list after another is rendering their concatenation.
pub proof fn lemma_render_concat(r: Rendering, first: Seq<EdgeLabel>, second: Seq<EdgeLabel>)
    ensures
        render_from(r, first + second) == render_from(render_from(r, first), second),
    decreases second.len(),
{
    if second.len() == 0 {
        assert(first + second == first);
    } else {
        lemma_render_concat(r, first, second.drop_last());
        assert((first + second).drop_last() == first + second.drop_last());
        assert((first + second).last() == second.last());
    }
}

/// Rendering a single edge is one step.
pub proof fn lemma_render_one(r: Rendering, e: EdgeLabel)
    ensures
        render_from(r, seq![e]) == render_step(r, e),
{
    assert(seq![e].drop_last() == Seq::<EdgeLabel>::empty());
    assert(render_from(r, Seq::<EdgeLabel>::empty()) == r);
}

/// Inside an invisible element the walk of a tree changes nothing: no text
/// is added, and the walk is as deep as before when it leaves the tree.
pub proof fn lemma_hidden_tree(tree: MarkupTree, text: Seq<char>, depth: nat)
    requires
        depth > 0,
    ensures
        render_from(Rendering { text, hidden: depth }, tree_edges(tree)) == (Rendering {
            text,
            hidden: depth,
        }),
    decreases tree, 1nat,
{
    let start = Rendering { text, hidden: depth };
    let inside = Rendering { text, hidden: depth + 1 };
    let open = seq![EdgeLabel::Open(tree.label)];
    let close = seq![EdgeLabel::Close(tree.label)];
    let middle = forest_edges(tree.children);
    lemma_render_concat(start, open + middle, close);
    lemma_render_concat(start, open, middle);
    lemma_render_one(start, EdgeLabel::Open(tree.label));
    lemma_hidden_forest(tree.children, text, depth + 1);
    lemma_render_one(inside, EdgeLabel::Close(tree.label));
}

/// Inside an invisible element the walks of trees change nothing.
pub proof fn lemma_hidden_forest(trees: Seq<MarkupTree>, text: Seq<char>, depth: nat)
    requires
        depth > 0,
    ensures
        render_from(Rendering { text, hidden: depth }, forest_edges(trees)) == (Rendering {
            text,
            hidden: depth,
        }),
    decreases trees, 0nat,
{
    let start = Rendering { text, hidden: depth };
    if trees.len() > 0 {
        lemma_hidden_forest(trees.drop_last(), text, depth);
        lemma_hidden_tree(trees.last(), text, depth);
        lemma_render_concat(start, forest_edges(trees.drop_last()), tree_edges(trees.last()));
    }
}

/// Rendering the edges of a tree gives the visible text of the tree: the
/// rendering of the stream of edges and the depth-first walk of the tree
/// agree on every document.
pub proof fn lemma_render_is_walk(tree: MarkupTree, out: Seq<char>)
    ensures
        render_from(Rendering { text: out, hidden: 0 }, tree_edges(tree)) == (Rendering {
            text: walk(tree, out),
            hidden: 0,
        }),
    decreases tree, 1nat,
{
    let start = Rendering { text: out, hidden: 0 };
    let open = seq![EdgeLabel::Open(tree.label)];
    let close = seq![EdgeLabel::Close(tree.label)];
    let middle = forest_edges(tree.children);
    lemma_render_concat(start, open + middle, close);
    lemma_render_concat(start, open, middle);
    lemma_render_one(start, EdgeLabel::Open(tree.label));
    let opened = render_step(start, EdgeLabel::Open(tree.label));
    if opened.hidden > 0 {
        lemma_hidden_forest(tree.children, opened.text, opened.hidden);
        lemma_render_one(opened, EdgeLabel::Close(tree.label));
    } else {
        lemma_render_is_walk_all(tree.children, opened.text);
        let inner = Rendering { text: walk_all(tree.children, opened.text), hidden: 0 };
        lemma_render_one(inner, EdgeLabel::Close(tree.label));
    }
}

/// Rendering the edges of trees, one after another, gives their visible
/// text.
pub proof fn lemma_render_is_walk_all(trees: Seq<MarkupTree>, out: Seq<char>)
    ensures
        render_from(Rendering { text: out, hidden: 0 }, forest_edges(trees)) == (Rendering {
            text: walk_all(trees, out),
            hidden: 0,
        }),
    decreases trees, 0nat,
{
    let start = Rendering { text: out, hidden: 0 };
    if trees.len() > 0 {
        lemma_render_is_walk_all(trees.drop_last(), out);
        lemma_render_is_walk(trees.last(), walk_all(trees.drop_last(), out));
        lemma_render_concat(start, forest_edges(trees.drop_last()), tree_edges(trees.last()));
    }
}

/// The text rendered from the edges of a document is the visible text of its
/// tree.
pub proof fn lemma_rendered_tree(tree: MarkupTree)
    ensures
        rendered(tree_edges(tree)) == walk(tree, Seq::empty()),
{
    lemma_render_is_walk(tree, Seq::empty());
}

/// Whether the content of element `name` is invisible.
pub fn hides_content(name: &str) -> (b: bool)
    ensures
        b == is_hidden_container(name@),
{
    same_text(name, "style") || same_text(name, "script") || same_text(name, "noscript")
        || same_text(name, "template") || same_text(name, "head")
}

/// Whether element `name` starts on a new line.
pub fn starts_line(name: &str) -> (b: bool)
    ensures
        b == breaks_before(name@),
{
    same_text(name, "br") || same_text(name, "p") || same_text(name, "div") || same_text(
        name,
        "li",
    ) || same_text(name, "tr") || same_text(name, "section") || same_text(name, "article")
        || same_text(name, "header") || same_text(name, "footer") || same_text(name, "h1")
        || same_text(name, "h2") || same_text(name, "h3") || same_text(name, "h4") || same_text(
        name,
        "h5",
    ) || same_text(name, "h6")
}

/// Whether a new line starts after element `name`.
pub fn ends_line(name: &str) -> (b: bool)
    ensures
        b == breaks_after(name@),
{
    same_text(name, "p") || same_text(name, "div") || same_text(name, "li") || same_text(
        name,
        "tr",
    ) || same_text(name, "section") || same_text(name, "article")
}

/// Ends `out` with a line feed unless it ends with one already.
pub fn break_line(out: &mut Vec<char>)
    ensures
        final(out)@ == with_line_break(old(out)@),
{
    let n: usize = out.len();
    if n == 0 || out[n - 1] != '\n' {
        out.push('\n');
    }
}

/// Renders the edges of a document as text, before tidying.
pub fn render(edges: &Vec<MarkupEdge>) -> (out: Vec<char>)
    ensures
        out@ == rendered(views(edges@)),
{
    let mut out: Vec<char> = Vec::new();
    let mut hidden: usize = 0;
    let mut i: usize = 0;
    while i < edges.len()
        invariant
            i <= edges.len(),
            hidden <= i,
            render_from(
                Rendering { text: Seq::empty(), hidden: 0 },
                views(edges@).take(i as int),
            ) == (Rendering { text: out@, hidden: hidden as nat }),
        decreases edges.len() - i,
    {
        proof {
            let seen = views(edges@).take(i + 1);
            assert(seen.drop_last() == views(edges@).take(i as int));
            assert(seen.last() == edges@[i as int]@);
        }
        if hidden > 0 {
            match &edges[i] {
                MarkupEdge::Open(_) => {
                    hidden += 1;
                },
                MarkupEdge::Close(_) => {
                    hidden -= 1;
                },
            }
        } else {
            match &edges[i] {
                MarkupEdge::Open(MarkupNode::Text(t)) => {
                    let more: Vec<char> = chars_of(t.as_str());
                    append_chars(&mut out, &more);
                },
                MarkupEdge::Open(MarkupNode::Element(name)) => {
                    if hides_content(name.as_str()) {
                        hidden = 1;
                    } else if starts_line(name.as_str()) {
                        break_line(&mut out);
                    }
                },
                MarkupEdge::Close(MarkupNode::Element(name)) => {
                    if ends_line(name.as_str()) {
                        break_line(&mut out);
                    }
                },
                _ => {},
            }
        }
        i += 1;
    }
    proof {
        assert(views(edges@).take(edges.len() as int) == views(edges@));
    }
    out
}

/// The visible text of a document given by its edges, tidied.
pub fn render_text(edges: &Vec<MarkupEdge>) -> (text: String)
    ensures
        text@ == normalized(rendered(views(edges@))),
{
    let raw: Vec<char> = render(edges);
    let tidy: Vec<char> = normalize(&raw);
    string_of(&tidy)
}

/// The tree that the HTML parser builds from `html`, from the document root
/// down. Of each node it holds the kind, the text of a text node and the
/// local name of an element.
pub uninterp spec fn document_tree(html: Seq<char>) -> MarkupTree;

/// The visible text of `tree`, tidied.
pub open spec fn visible_text(tree: MarkupTree) -> Seq<char> {
    normalized(walk(tree, Seq::empty()))
}

/// Parses `html` with `scraper::Html::parse_document`, which accepts every
/// input, and walks the tree from its root with
/// `ego_tree::NodeRef::traverse`, which opens a node, walks its children in
/// order and closes the node. What is handed out are the edges of that walk,
/// each with the kind of its node, the text of a text node and the local
/// name of an element: the edges of the tree that the parser built.
#[verifier::external_body]
fn parse_document(html: &str) -> (edges: Vec<MarkupEdge>)
    ensures
        views(edges@) == tree_edges(document_tree(html@)),
{
    let doc = scraper::Html::parse_document(html);
    let label = |n: &scraper::Node| match n {
        scraper::Node::Text(t) => MarkupNode::Text(t.to_string()),
        scraper::Node::Element(e) => MarkupNode::Element(e.name().to_string()),
        _ => MarkupNode::Other,
    };
    doc.tree.root().traverse().map(|edge| match edge {
        ego_tree::iter::Edge::Open(n) => MarkupEdge::Open(label(n.value())),
        ego_tree::iter::Edge::Close(n) => MarkupEdge::Close(label(n.value())),
    }).collect()
}

/// The visible text of the HTML document `html`: the text of its nodes in
/// document order, without the content of invisible elements, with line
/// breaks around block elements, tidied.
pub fn html_to_text(html: &str) -> (text: String)
    ensures
        text@ == visible_text(document_tree(html@)),
{
    let edges: Vec<MarkupEdge> = parse_document(html);
    proof {
        lemma_rendered_tree(document_tree(html@));
    }
    render_text(&edges)
}

} // verus!
