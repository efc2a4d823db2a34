//! The Markdown syntax tree that comrak builds, read node by node.
//!
//! A node is addressed by a path from the document root: the index of the child taken at
//! each step. A path that leads nowhere addresses no node.
use comrak::nodes::{ListType, NodeList, NodeValue};
use vstd::prelude::*;

verus! {

/// The name comrak gives the kind of the node at `path` (`NodeValue::xml_node_name`) in the
/// document parsed from `content` with `delimiter` as front matter delimiter; empty where
/// the path leads nowhere.
pub uninterp spec fn md_node_name(content: Seq<char>, delimiter: Seq<char>, path: Seq<usize>) -> Seq<char>;

/// Whether the node at `path` is a list or a list item of a bullet list.
pub uninterp spec fn md_bullet(content: Seq<char>, delimiter: Seq<char>, path: Seq<usize>) -> bool;

/// The number of children of the node at `path`; 0 where the path leads nowhere.
pub uninterp spec fn md_child_count(content: Seq<char>, delimiter: Seq<char>, path: Seq<usize>) -> nat;

/// The line the node at `path` starts on; 0 where the path leads nowhere.
pub uninterp spec fn md_line(content: Seq<char>, delimiter: Seq<char>, path: Seq<usize>) -> nat;

/// The text of the node at `path` where it is front matter, text or inline code; empty otherwise.
pub uninterp spec fn md_literal(content: Seq<char>, delimiter: Seq<char>, path: Seq<usize>) -> Seq<char>;

/// The node at `path` formatted back to CommonMark with default options; empty where the
/// path leads nowhere.
pub uninterp spec fn md_render(content: Seq<char>, delimiter: Seq<char>, path: Seq<usize>) -> Seq<char>;

/// `NodeValue::xml_node_name` of the node at `path` of the document that
/// `comrak::parse_document` builds from `content`.
#[verifier::external_body]
pub(crate) fn node_name(content: &str, delimiter: &str, path: &Vec<usize>) -> (name: String)
    ensures
        name@ == md_node_name(content@, delimiter@, path@),
{
    let arena = comrak::Arena::new();
    let mut options = comrak::Options::default();
    options.extension.front_matter_delimiter = Some(delimiter.to_string());
    let mut node = Some(comrak::parse_document(&arena, content, &options));
    for i in path.iter() {
        node = node.and_then(|n| n.children().nth(*i));
    }
    node.map_or(String::new(), |n| n.data().value.xml_node_name().to_string())
}

/// Whether the node at `path` of the document that `comrak::parse_document` builds from
/// `content` is a list (`NodeValue::List`) or an item (`NodeValue::Item`) of type
/// `ListType::Bullet`.
#[verifier::external_body]
pub(crate) fn node_is_bullet(content: &str, delimiter: &str, path: &Vec<usize>) -> (bullet: bool)
    ensures
        bullet == md_bullet(content@, delimiter@, path@),
{
    let arena = comrak::Arena::new();
    let mut options = comrak::Options::default();
    options.extension.front_matter_delimiter = Some(delimiter.to_string());
    let mut node = Some(comrak::parse_document(&arena, content, &options));
    for i in path.iter() {
        node = node.and_then(|n| n.children().nth(*i));
    }
    node.map_or(false, |n| matches!(n.data().value,
        NodeValue::List(NodeList { list_type: ListType::Bullet, .. }) | NodeValue::Item(NodeList { list_type: ListType::Bullet, .. })))
}

/// The number of children of the node at `path` of the document that
/// `comrak::parse_document` builds from `content`.
#[verifier::external_body]
pub(crate) fn node_child_count(content: &str, delimiter: &str, path: &Vec<usize>) -> (count: usize)
    ensures
        count == md_child_count(content@, delimiter@, path@),
{
    let arena = comrak::Arena::new();
    let mut options = comrak::Options::default();
    options.extension.front_matter_delimiter = Some(delimiter.to_string());
    let mut node = Some(comrak::parse_document(&arena, content, &options));
    for i in path.iter() {
        node = node.and_then(|n| n.children().nth(*i));
    }
    node.map_or(0, |n| n.children().count())
}

/// The start line (`sourcepos.start.line`) of the node at `path` of the document that
/// `comrak::parse_document` builds from `content`.
#[verifier::external_body]
pub(crate) fn node_line(content: &str, delimiter: &str, path: &Vec<usize>) -> (line: usize)
    ensures
        line == md_line(content@, delimiter@, path@),
{
    let arena = comrak::Arena::new();
    let mut options = comrak::Options::default();
    options.extension.front_matter_delimiter = Some(delimiter.to_string());
    let mut node = Some(comrak::parse_document(&arena, content, &options));
    for i in path.iter() {
        node = node.and_then(|n| n.children().nth(*i));
    }
    node.map_or(0, |n| n.data().sourcepos.start.line)
}

/// The text held by the node at `path` of the document that `comrak::parse_document`
/// builds from `content`: of `NodeValue::FrontMatter`, `NodeValue::Text` and the literal of
/// `NodeValue::Code`.
#[verifier::external_body]
pub(crate) fn node_literal(content: &str, delimiter: &str, path: &Vec<usize>) -> (literal: String)
    ensures
        literal@ == md_literal(content@, delimiter@, path@),
{
    let arena = comrak::Arena::new();
    let mut options = comrak::Options::default();
    options.extension.front_matter_delimiter = Some(delimiter.to_string());
    let mut node = Some(comrak::parse_document(&arena, content, &options));
    for i in path.iter() {
        node = node.and_then(|n| n.children().nth(*i));
    }
    node.map_or(String::new(), |n| match &n.data().value {
        NodeValue::FrontMatter(s) => s.clone(),
        NodeValue::Text(t) => t.to_string(),
        NodeValue::Code(c) => c.literal.clone(),
        _ => String::new(),
    })
}

/// `comrak::format_commonmark` with default options on the node at `path` of the document
/// that `comrak::parse_document` builds from `content`. The output is a `String`, to which
/// writing never fails.
#[verifier::external_body]
pub(crate) fn node_render(content: &str, delimiter: &str, path: &Vec<usize>) -> (text: String)
    ensures
        text@ == md_render(content@, delimiter@, path@),
{
    let arena = comrak::Arena::new();
    let mut options = comrak::Options::default();
    options.extension.front_matter_delimiter = Some(delimiter.to_string());
    let mut node = Some(comrak::parse_document(&arena, content, &options));
    for i in path.iter() {
        node = node.and_then(|n| n.children().nth(*i));
    }
    let mut text = String::new();
    node.map(|n| comrak::format_commonmark(n, &comrak::Options::default(), &mut text));
    text
}

/// The kinds of nodes that requirement collection tells apart.
#[derive(Debug, Clone, Copy, PartialEq, Eq, Structural)]
pub enum NodeTag {
    Document,
    FrontMatter,
    Heading,
    BulletList,
    BulletItem,
    Paragraph,
    Strong,
    Text,
    Code,
    Other,
}

/// The kind of a node by its comrak name and list type.
pub open spec fn tag_of(name: Seq<char>, bullet: bool) -> NodeTag {
    if name == "document"@ {
        NodeTag::Document
    } else if name == "frontmatter"@ {
        NodeTag::FrontMatter
    } else if name == "heading"@ {
        NodeTag::Heading
    } else if name == "list"@ && bullet {
        NodeTag::BulletList
    } else if name == "item"@ && bullet {
        NodeTag::BulletItem
    } else if name == "paragraph"@ {
        NodeTag::Paragraph
    } else if name == "strong"@ {
        NodeTag::Strong
    } else if name == "text"@ {
        NodeTag::Text
    } else if name == "code"@ {
        NodeTag::Code
    } else {
        NodeTag::Other
    }
}

/// The kind of the node at `path`.
pub open spec fn md_tag(content: Seq<char>, delimiter: Seq<char>, path: Seq<usize>) -> NodeTag {
    tag_of(md_node_name(content, delimiter, path), md_bullet(content, delimiter, path))
}

/// The kind of the node at `path` of the document parsed from `content`.
pub fn node_tag(content: &str, delimiter: &str, path: &Vec<usize>) -> (tag: NodeTag)
    ensures
        tag == md_tag(content@, delimiter@, path@),
{
    let name = node_name(content, delimiter, path);
    let bullet = node_is_bullet(content, delimiter, path);
    let n = crate::text::to_chars(name.as_str());
    if crate::text::chars_are(n.as_slice(), "document") {
        NodeTag::Document
    } else if crate::text::chars_are(n.as_slice(), "frontmatter") {
        NodeTag::FrontMatter
    } else if crate::text::chars_are(n.as_slice(), "heading") {
        NodeTag::Heading
    } else if crate::text::chars_are(n.as_slice(), "list") && bullet {
        NodeTag::BulletList
    } else if crate::text::chars_are(n.as_slice(), "item") && bullet {
        NodeTag::BulletItem
    } else if crate::text::chars_are(n.as_slice(), "paragraph") {
        NodeTag::Paragraph
    } else if crate::text::chars_are(n.as_slice(), "strong") {
        NodeTag::Strong
    } else if crate::text::chars_are(n.as_slice(), "text") {
        NodeTag::Text
    } else if crate::text::chars_are(n.as_slice(), "code") {
        NodeTag::Code
    } else {
        NodeTag::Other
    }
}

} // verus!
