//! Link extraction: the `href` attributes of an HTML document, in document
//! order.
//!
//! The document is parsed by `html5ever` into a reference-counted DOM. The
//! library reads of that DOM only the attributes of each node and the order
//! of its children, so it keeps exactly that in a tree of its own and walks
//! the tree.

use vstd::prelude::*;
use vstd::string::StringSliceAdditionalSpecFns;
use html5ever::driver::{parse_document, ParseOpts};
use html5ever::tendril::TendrilSink;
use markup5ever_rcdom::{Node, NodeData, RcDom};
use std::rc::Rc;
use crate::text::{copy_text, same_text, texts};

verus! {

/// One attribute of an element: its local name and its value.
#[derive(Debug, PartialEq, Eq)]
pub struct HtmlAttr {
    pub name: String,
    pub value: String,
}

/// One node of a parsed document. A node that is no element has no
/// attributes.
#[derive(Debug, PartialEq, Eq)]
pub struct HtmlNode {
    pub attrs: Vec<HtmlAttr>,
    pub children: Vec<HtmlNode>,
}

/// The longest document, in bytes, that is handed to the parser. The
/// parser keeps each run of text in one buffer, which cannot grow beyond
/// `2^31` bytes, and it may write three bytes for one byte of the document;
/// a document of a third of that length fits in every case.
pub const MAX_DOCUMENT_BYTES: usize = 715_827_882;

/// The values of the `href` attributes among the first `n` of `attrs`.
pub open spec fn attr_hrefs(attrs: Seq<HtmlAttr>, n: int) -> Seq<Seq<char>>
    decreases n,
{
    if n <= 0 {
        Seq::empty()
    } else if attrs[n - 1].name@ == "href"@ {
        attr_hrefs(attrs, n - 1).push(attrs[n - 1].value@)
    } else {
        attr_hrefs(attrs, n - 1)
    }
}

/// The links of `node` itself, followed by those of its first `n` children
/// with all that is below them.
pub open spec fn hrefs_upto(node: HtmlNode, n: int) -> Seq<Seq<char>>
    decreases node, n,
{
    if n <= 0 || n > node.children@.len() {
        attr_hrefs(node.attrs@, node.attrs@.len() as int)
    } else {
        hrefs_upto(node, n - 1) + hrefs_upto(
            node.children@[n - 1],
            node.children@[n - 1].children@.len() as int,
        )
    }
}

/// The links of `node` and of all that is below it, in document order.
pub open spec fn hrefs_of(node: HtmlNode) -> Seq<Seq<char>> {
    hrefs_upto(node, node.children@.len() as int)
}

/// The tree that `html5ever` builds for the document `doc`.
pub uninterp spec fn html_tree(doc: Seq<char>) -> HtmlNode;

/// `markup5ever_rcdom::Node`, of which the library sees nothing: a node is
/// only handed from the parser to `node_of`.
#[verifier::external_type_specification]
#[verifier::external_body]
pub struct ExNode(Node);

/// Copies a `markup5ever_rcdom::Node` and all below it into the library's
/// tree: of `NodeData::Element` the attributes, each with the local part of
/// its name and its value, of any other node none; and `Node::children` in
/// their order. Nothing is claimed of the copy here; `parse_html` names
/// what it gives for a whole document.
#[verifier::external_body]
fn node_of(handle: &Rc<Node>) -> HtmlNode {
    let attrs = match &handle.data {
        NodeData::Element { attrs, .. } => attrs.borrow().iter().map(
            |a| HtmlAttr { name: a.name.local.to_string(), value: a.value.to_string() },
        ).collect(),
        _ => Vec::new(),
    };
    let children = handle.children.borrow().iter().map(node_of).collect();
    HtmlNode { attrs, children }
}

/// `html5ever::driver::parse_document` into a `markup5ever_rcdom::RcDom`
/// with the default options, fed with `doc` at once by `TendrilSink::one`:
/// the document node of the DOM that the parser builds, as a tree of the
/// library. Believed, not proved: the parser takes every text of up to
/// `MAX_DOCUMENT_BYTES` bytes and builds the same DOM for the same text.
/// Longer texts are left out because a buffer of `tendril` fails when it is
/// to grow beyond `2^31` bytes, and the parser replaces a NUL byte in raw
/// text by the three bytes of U+FFFD.
#[verifier::external_body]
fn parse_html(doc: &str) -> (root: HtmlNode)
    requires
        doc.spec_bytes().len() <= MAX_DOCUMENT_BYTES,
    ensures
        root == html_tree(doc@),
{
    let dom: RcDom = parse_document(RcDom::default(), ParseOpts::default()).one(doc);
    node_of(&dom.document)
}

/// Appends to `out` the value of every `href` attribute of `node` and of
/// the nodes below it, in document order.
pub fn collect_all_hrefs(node: &HtmlNode, out: &mut Vec<String>)
    ensures
        texts(final(out)@) == texts(old(out)@) + hrefs_of(*node),
    decreases node,
{
    let ghost start = texts(out@);
    let mut i: usize = 0;
    assert(texts(out@) =~= start + attr_hrefs(node.attrs@, 0));
    while i < node.attrs.len()
        invariant
            i <= node.attrs.len(),
            texts(out@) == start + attr_hrefs(node.attrs@, i as int),
        decreases node.attrs.len() - i,
    {
        let attr = &node.attrs[i];
        if same_text(attr.name.as_str(), "href") {
            let ghost before = texts(out@);
            out.push(copy_text(attr.value.as_str()));
            assert(texts(out@) =~= before.push(attr.value@));
            assert(texts(out@) =~= start + attr_hrefs(node.attrs@, i + 1));
        }
        i += 1;
    }
    let mut k: usize = 0;
    while k < node.children.len()
        invariant
            k <= node.children.len(),
            texts(out@) == start + hrefs_upto(*node, k as int),
        decreases node.children.len() - k,
    {
        let ghost before = texts(out@);
        collect_all_hrefs(&node.children[k], out);
        assert(texts(out@) =~= start + hrefs_upto(*node, k + 1)) by {
            assert(texts(out@) == before + hrefs_of(node.children@[k as int]));
        }
        k += 1;
    }
}

/// The links of the tree `root`, in document order.
pub fn links_in(root: &HtmlNode) -> (links: Vec<String>)
    ensures
        texts(links@) == hrefs_of(*root),
{
    let mut links: Vec<String> = Vec::new();
    assert(texts(links@) =~= Seq::<Seq<char>>::empty());
    collect_all_hrefs(root, &mut links);
    links
}

/// The links of the HTML document `doc`, as they are written in it: the
/// value of every `href` attribute, in document order. `None` for a
/// document of more than `MAX_DOCUMENT_BYTES` bytes; every other text is
/// taken, however malformed.
pub fn extract_links(doc: &str) -> (r: Option<Vec<String>>)
    ensures
        match r {
            Some(links) => doc.spec_bytes().len() <= MAX_DOCUMENT_BYTES && texts(links@)
                == hrefs_of(html_tree(doc@)),
            None => doc.spec_bytes().len() > MAX_DOCUMENT_BYTES,
        },
{
    if doc.as_bytes().len() > MAX_DOCUMENT_BYTES {
        return None;
    }
    let root = parse_html(doc);
    Some(links_in(&root))
}

} // verus!
