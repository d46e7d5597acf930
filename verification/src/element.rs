//! The document tree: a closed set of node variants, each owning its
//! children.

use vstd::prelude::*;

verus! {

/// A position in the source text of a document.
#[derive(Clone, Copy, Debug, PartialEq, Eq)]
pub struct Position {
    pub offset: usize,
    pub line: usize,
    pub col: usize,
}

/// Start and end of an element in the source text.
#[derive(Clone, Copy, Debug, PartialEq, Eq)]
pub struct Span {
    pub start: Position,
    pub end: Position,
}

/// Kinds of markup a run of content may carry.
#[derive(Clone, Copy, Debug, PartialEq, Eq, Structural)]
pub enum MarkupType {
    NoWiki,
    Bold,
    Italic,
    Math,
    StrikeThrough,
    Underline,
    Code,
    Blockquote,
    Preformatted,
}

/// Kinds of list items.
#[derive(Clone, Copy, Debug, PartialEq, Eq, Structural)]
pub enum ListItemKind {
    Unordered,
    Definition,
    DefinitionTerm,
    Ordered,
}

/// A key / value pair attached to a tag.
#[derive(Clone, Debug, PartialEq)]
pub struct TagAttribute {
    pub position: Span,
    pub key: String,
    pub value: String,
}

/// The root of a document.
#[derive(Debug, PartialEq)]
pub struct Document {
    pub position: Span,
    pub content: Vec<Element>,
}

/// A heading with the content it governs.
#[derive(Debug, PartialEq)]
pub struct Heading {
    pub position: Span,
    pub depth: usize,
    pub caption: Vec<Element>,
    pub content: Vec<Element>,
}

/// Plain text.
#[derive(Clone, Debug, PartialEq)]
pub struct Text {
    pub position: Span,
    pub text: String,
}

/// Content wrapped in some markup.
#[derive(Debug, PartialEq)]
pub struct Formatted {
    pub position: Span,
    pub markup: MarkupType,
    pub content: Vec<Element>,
}

/// A paragraph.
#[derive(Debug, PartialEq)]
pub struct Paragraph {
    pub position: Span,
    pub content: Vec<Element>,
}

/// A template invocation. `content` holds its arguments.
#[derive(Debug, PartialEq)]
pub struct Template {
    pub position: Span,
    pub name: Vec<Element>,
    pub content: Vec<Element>,
}

/// One argument of a template invocation.
#[derive(Debug, PartialEq)]
pub struct TemplateArgument {
    pub position: Span,
    pub name: String,
    pub value: Vec<Element>,
}

/// A reference to another page or an embedded file.
#[derive(Debug, PartialEq)]
pub struct InternalReference {
    pub position: Span,
    pub target: Vec<Element>,
    pub options: Vec<Vec<Element>>,
    pub caption: Vec<Element>,
}

/// A reference to an outside resource.
#[derive(Debug, PartialEq)]
pub struct ExternalReference {
    pub position: Span,
    pub target: String,
    pub caption: Vec<Element>,
}

/// One item of a list.
#[derive(Debug, PartialEq)]
pub struct ListItem {
    pub position: Span,
    pub depth: usize,
    pub kind: ListItemKind,
    pub content: Vec<Element>,
}

/// A list of items.
#[derive(Debug, PartialEq)]
pub struct List {
    pub position: Span,
    pub content: Vec<Element>,
}

/// A table.
#[derive(Debug, PartialEq)]
pub struct Table {
    pub position: Span,
    pub attributes: Vec<TagAttribute>,
    pub caption: Vec<Element>,
    pub caption_attributes: Vec<TagAttribute>,
    pub rows: Vec<Element>,
}

/// A row of a table.
#[derive(Debug, PartialEq)]
pub struct TableRow {
    pub position: Span,
    pub attributes: Vec<TagAttribute>,
    pub cells: Vec<Element>,
}

/// A cell of a table row.
#[derive(Debug, PartialEq)]
pub struct TableCell {
    pub position: Span,
    pub header: bool,
    pub attributes: Vec<TagAttribute>,
    pub content: Vec<Element>,
}

/// A comment.
#[derive(Clone, Debug, PartialEq)]
pub struct Comment {
    pub position: Span,
    pub text: String,
}

/// A tag that carries no formatting.
#[derive(Debug, PartialEq)]
pub struct HtmlTag {
    pub position: Span,
    pub name: String,
    pub attributes: Vec<TagAttribute>,
    pub content: Vec<Element>,
}

/// A gallery of references.
#[derive(Debug, PartialEq)]
pub struct Gallery {
    pub position: Span,
    pub attributes: Vec<TagAttribute>,
    pub content: Vec<Element>,
}

/// A part of the document that could not be parsed.
#[derive(Clone, Debug, PartialEq)]
pub struct Error {
    pub position: Span,
    pub message: String,
}

/// One node of a document tree.
#[derive(Debug, PartialEq)]
pub enum Element {
    Document(Document),
    Heading(Heading),
    Text(Text),
    Formatted(Formatted),
    Paragraph(Paragraph),
    Template(Template),
    TemplateArgument(TemplateArgument),
    InternalReference(InternalReference),
    ExternalReference(ExternalReference),
    ListItem(ListItem),
    List(List),
    Table(Table),
    TableRow(TableRow),
    TableCell(TableCell),
    Comment(Comment),
    HtmlTag(HtmlTag),
    Gallery(Gallery),
    Error(Error),
}

impl Element {
    /// The name of the variant of an element.
    pub open spec fn variant_name(self) -> Seq<char> {
        match self {
            Element::Document(_) => "Document"@,
            Element::Heading(_) => "Heading"@,
            Element::Text(_) => "Text"@,
            Element::Formatted(_) => "Formatted"@,
            Element::Paragraph(_) => "Paragraph"@,
            Element::Template(_) => "Template"@,
            Element::TemplateArgument(_) => "TemplateArgument"@,
            Element::InternalReference(_) => "InternalReference"@,
            Element::ExternalReference(_) => "ExternalReference"@,
            Element::ListItem(_) => "ListItem"@,
            Element::List(_) => "List"@,
            Element::Table(_) => "Table"@,
            Element::TableRow(_) => "TableRow"@,
            Element::TableCell(_) => "TableCell"@,
            Element::Comment(_) => "Comment"@,
            Element::HtmlTag(_) => "HtmlTag"@,
            Element::Gallery(_) => "Gallery"@,
            Element::Error(_) => "Error"@,
        }
    }

    /// Returns the name of the variant of this element.
    pub fn get_variant_name(&self) -> (name: &'static str)
        ensures
            name@ == self.variant_name(),
    {
        match self {
            Element::Document(_) => "Document",
            Element::Heading(_) => "Heading",
            Element::Text(_) => "Text",
            Element::Formatted(_) => "Formatted",
            Element::Paragraph(_) => "Paragraph",
            Element::Template(_) => "Template",
            Element::TemplateArgument(_) => "TemplateArgument",
            Element::InternalReference(_) => "InternalReference",
            Element::ExternalReference(_) => "ExternalReference",
            Element::ListItem(_) => "ListItem",
            Element::List(_) => "List",
            Element::Table(_) => "Table",
            Element::TableRow(_) => "TableRow",
            Element::TableCell(_) => "TableCell",
            Element::Comment(_) => "Comment",
            Element::HtmlTag(_) => "HtmlTag",
            Element::Gallery(_) => "Gallery",
            Element::Error(_) => "Error",
        }
    }
}

} // verus!
