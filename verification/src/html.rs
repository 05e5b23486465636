//! The HTML parser that the scraper stands on: the `select` crate.
//!
//! A parsed document and its nodes are opaque here. What the parser finds
//! in them depends on the page alone, so each query has a name by which
//! contracts speak of its result; nothing is claimed of what a query finds
//! in a given page.

use select::document::Document;
use select::node::Node;
use select::predicate::{Attr, Class, Name};
use vstd::prelude::*;

verus! {

/// `select::document::Document`: a parsed page.
#[verifier::external_type_specification]
#[verifier::external_body]
pub struct ExDocument(Document);

/// `select::node::Node`: one node of a parsed page.
#[verifier::external_type_specification]
#[verifier::external_body]
pub struct ExNode<'a>(Node<'a>);

/// The document that `Document::from` makes of a page's text.
pub uninterp spec fn html_document(text: Seq<char>) -> Document;

/// The nodes of a document that `Document::find` yields for the predicate
/// `Class(class)`, in the order in which it yields them.
pub uninterp spec fn class_nodes(doc: &Document, class: Seq<char>) -> Seq<Node>;

/// The nodes of a document that `Document::find` yields for the predicate
/// `Attr(name, value)`, in the order in which it yields them.
pub uninterp spec fn attr_nodes(doc: &Document, name: Seq<char>, value: Seq<char>) -> Seq<Node>;

/// The nodes below a node that `Node::find` yields for the predicate
/// `Name(name)`, in the order in which it yields them.
pub uninterp spec fn name_nodes(node: Node, name: Seq<char>) -> Seq<Node>;

/// What `Node::text` returns: the text of a node and of all below it.
pub uninterp spec fn node_text(node: Node) -> Seq<char>;

/// How many nodes `Node::children` yields: the number of a node's children.
pub uninterp spec fn node_child_count(node: Node) -> nat;

/// What `Node::attr` returns: the value of the node's attribute `name`, if it
/// has one.
pub uninterp spec fn node_attr(node: Node, name: Seq<char>) -> Option<Seq<char>>;

/// Calls `Document::from` on the text of a page. The result is the document
/// named `html_document` of that text.
#[verifier::external_body]
pub(crate) fn parse_document(text: &str) -> (doc: Document)
    ensures
        doc == html_document(text@),
{
    Document::from(text)
}

/// Calls `Document::find` with the predicate `Class(class)` and collects
/// what it yields. The result is the run of nodes named `class_nodes`.
#[verifier::external_body]
pub(crate) fn find_by_class<'a>(doc: &'a Document, class: &str) -> (found: Vec<Node<'a>>)
    ensures
        found@ == class_nodes(doc, class@),
{
    doc.find(Class(class)).collect()
}

/// Calls `Document::find` with the predicate `Attr(name, value)` and collects
/// what it yields. The result is the run of nodes named `attr_nodes`.
#[verifier::external_body]
pub(crate) fn find_by_attr<'a>(doc: &'a Document, name: &str, value: &str) -> (found: Vec<
    Node<'a>,
>)
    ensures
        found@ == attr_nodes(doc, name@, value@),
{
    doc.find(Attr(name, value)).collect()
}

/// Calls `Node::find` with the predicate `Name(name)` and collects what it
/// yields. The result is the run of nodes named `name_nodes`.
#[verifier::external_body]
pub(crate) fn find_by_name<'a>(node: &Node<'a>, name: &str) -> (found: Vec<Node<'a>>)
    ensures
        found@ == name_nodes(*node, name@),
{
    node.find(Name(name)).collect()
}

/// Calls `Node::text`. The result is the text named `node_text`.
#[verifier::external_body]
pub(crate) fn text_of(node: &Node) -> (text: String)
    ensures
        text@ == node_text(*node),
{
    node.text()
}

/// Counts what `Node::children` yields. The result is the number named
/// `node_child_count`.
#[verifier::external_body]
pub(crate) fn count_children(node: &Node) -> (count: usize)
    ensures
        count == node_child_count(*node),
{
    node.children().count()
}

/// Calls `Node::attr` and copies the value that it lends. The result is the
/// value named `node_attr`.
#[verifier::external_body]
pub(crate) fn attr_of(node: &Node, name: &str) -> (value: Option<String>)
    ensures
        match value {
            Some(v) => node_attr(*node, name@) == Some(v@),
            None => node_attr(*node, name@) is None,
        },
{
    node.attr(name).map(str::to_string)
}

} // verus!
