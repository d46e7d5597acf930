//! A specification written out as HTML.

use crate::registry::{AttributeSpec, TemplateSpec};
use crate::strings::{join, joined};
use vstd::prelude::*;
use vstd::string::StringExecFns;

verus! {

/// The HTML that the CommonMark text `text` is rendered to.
pub uninterp spec fn rendered(text: Seq<char>) -> Seq<char>;

/// `pulldown_cmark::html::push_html` on `pulldown_cmark::Parser::new`: the
/// HTML for `text`, read as CommonMark without extensions, written to an
/// empty string. What is written depends on `text` alone.
#[verifier::external_body]
fn render(text: &str) -> (html: String)
    ensures
        html@ == rendered(text@),
{
    let mut html = String::new();
    pulldown_cmark::html::push_html(&mut html, pulldown_cmark::Parser::new(text));
    html
}

/// The list item for one attribute, where `description` is the HTML of
/// its description.
pub open spec fn attribute_item(attribute: AttributeSpec, description: Seq<char>) -> Seq<char> {
    "<li><div class=\"attribute-doc\">"@ + "<div class=\"attribute-title\">"@
        + attribute.default_name@ + "<span class=\"attribute-priority\">"@
        + attribute.priority.name() + "</span></div>"@
        + "<span class=\"attribute-aka\">Also known as "@ + joined(attribute.names@, ", "@)
        + "</span><br>"@ + "<span class=\"attribute-predicate\">"@ + attribute.predicate.name()
        + "</span> must be fulfilled!<br>"@ + "<div class=\"attribute-description\">"@
        + description + "</div></li>"@
}

/// The list items for `attributes`, one after the other, each with its
/// description rendered.
pub open spec fn attribute_items(attributes: Seq<AttributeSpec>) -> Seq<char>
    decreases attributes.len(),
{
    if attributes.len() == 0 {
        Seq::empty()
    } else {
        attribute_items(attributes.drop_last()) + attribute_item(
            attributes.last(),
            rendered(attributes.last().description@),
        )
    }
}

/// The document for `template`, where `description` is the HTML of its
/// description and `items` are the list items for its attributes.
pub open spec fn document(template: TemplateSpec, description: Seq<char>, items: Seq<char>) -> Seq<
    char,
> {
    "<div class=\"template-doc\">"@ + "<div class=\"template-title\">"@ + "Documentation for "@
        + template.default_name@ + "<span class=\"template-format\">"@ + template.format.name()
        + "</span></div>"@ + "<span class=\"template-aka\">Also known as "@ + joined(
        template.names@,
        ", "@,
    ) + "</span><br>"@ + "<div class=\"template-description\">"@ + description + "</div>"@
        + "<div class=\"template-attributes\">Attributes:<ul>"@ + items + "</ul></div>"@
        + "</div>"@
}

/// The description of `template` as HTML.
pub open spec fn description(template: TemplateSpec) -> Seq<char> {
    document(template, rendered(template.description@), attribute_items(template.attributes@))
}

/// Writes the list item for one attribute around `description`, the HTML
/// of its description.
pub fn attribute_description(attribute: &AttributeSpec, description: &str) -> (out: String)
    ensures
        out@ == attribute_item(*attribute, description@),
{
    let mut out = "<li><div class=\"attribute-doc\">".to_owned();
    out.append("<div class=\"attribute-title\">");
    out.append(attribute.default_name());
    out.append("<span class=\"attribute-priority\">");
    out.append(attribute.priority.get_name());
    out.append("</span></div>");
    out.append("<span class=\"attribute-aka\">Also known as ");
    out.append(join(&attribute.names, ", ").as_str());
    out.append("</span><br>");
    out.append("<span class=\"attribute-predicate\">");
    out.append(attribute.predicate_name());
    out.append("</span> must be fulfilled!<br>");
    out.append("<div class=\"attribute-description\">");
    out.append(description);
    out.append("</div></li>");
    out
}

/// Writes the document for `template` around `description`, the HTML of
/// its description, and `items`, the list items for its attributes.
pub fn template_document(template: &TemplateSpec, description: &str, items: &str) -> (out: String)
    ensures
        out@ == document(*template, description@, items@),
{
    let mut out = "<div class=\"template-doc\">".to_owned();
    out.append("<div class=\"template-title\">");
    out.append("Documentation for ");
    out.append(template.default_name());
    out.append("<span class=\"template-format\">");
    out.append(template.format.get_name());
    out.append("</span></div>");
    out.append("<span class=\"template-aka\">Also known as ");
    out.append(join(&template.names, ", ").as_str());
    out.append("</span><br>");
    out.append("<div class=\"template-description\">");
    out.append(description);
    out.append("</div>");
    out.append("<div class=\"template-attributes\">Attributes:<ul>");
    out.append(items);
    out.append("</ul></div>");
    out.append("</div>");
    out
}

/// Renders the specification of a template as HTML. The descriptions of
/// the template and of its attributes are read as CommonMark.
pub fn template_description(template: &TemplateSpec) -> (out: String)
    ensures
        out@ == description(*template),
{
    let mut items = String::new();
    let mut i: usize = 0;
    while i < template.attributes.len()
        invariant
            0 <= i <= template.attributes@.len(),
            items@ == attribute_items(template.attributes@.take(i as int)),
        decreases template.attributes@.len() - i,
    {
        let attribute = &template.attributes[i];
        let item = attribute_description(
            attribute,
            render(attribute.description.as_str()).as_str(),
        );
        proof {
            let done = template.attributes@.take(i as int);
            assert(template.attributes@.take(i + 1).drop_last() =~= done);
            assert(template.attributes@.take(i + 1).last() == template.attributes@[i as int]);
        }
        items.append(item.as_str());
        i += 1;
    }
    proof {
        assert(template.attributes@.take(i as int) =~= template.attributes@);
    }
    template_document(template, render(template.description.as_str()).as_str(), items.as_str())
}

} // verus!
