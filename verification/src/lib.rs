//! Validation of wiki template invocations against declarative template
//! specifications.
//!
//! A document is a tree of [`Element`]s. A [`Registry`] maps template names
//! to [`TemplateSpec`]s; each attribute of a specification is bound to a
//! [`Predicate`] which judges the content handed to that attribute.
//! [`validate`] holds one template invocation to its specification, and
//! [`always`] lifts a check of one list of siblings to a whole tree.

pub mod element;
pub mod first;
pub mod html;
pub mod markdown;
pub mod outcome;
pub mod predicates;
pub mod quantifier;
pub mod registry;
pub mod strings;
pub mod text;
pub mod validate;

pub use crate::element::{
    Comment, Document, Element, Error, ExternalReference, Formatted, Gallery, Heading, HtmlTag,
    InternalReference, List, ListItem, ListItemKind, MarkupType, Paragraph, Position, Span, Table,
    TableCell, TableRow, TagAttribute, Template, TemplateArgument, Text,
};
pub use crate::outcome::{PredError, PredResult, ValidationError};
pub use crate::predicates::{
    block_or_inline, everything_is_allowed, get_template_spec, is_inline_only, is_math_tag,
    is_navigation_spec, is_negative_switch, is_plain_text,
};
pub use crate::quantifier::always;
pub use crate::registry::{
    AttributeSpec, Format, Predicate, Priority, Registry, RegistryError, TemplateSpec,
};
pub use crate::text::extract_plain_text;
pub use crate::validate::{find_arg, validate, validate_tree};
