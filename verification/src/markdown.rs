//! A specification written out as CommonMark.

use crate::registry::{AttributeSpec, TemplateSpec};
use crate::strings::{indent, indented, join, joined, others, repeat, repeated, without};
use vstd::prelude::*;
use vstd::string::StringExecFns;

verus! {

/// The note on the other names of an attribute: empty where the other
/// names, joined, make no text.
pub open spec fn other_names_note(names: Seq<String>, default_name: Seq<char>) -> Seq<char> {
    let other = joined(without(names, default_name), ", "@);
    if other.len() == 0 {
        Seq::empty()
    } else {
        "*("@ + other + ")* "@
    }
}

/// The entry for one attribute.
pub open spec fn attribute_entry(attribute: AttributeSpec) -> Seq<char> {
    "  - `"@ + attribute.default_name@ + "` "@ + other_names_note(
        attribute.names@,
        attribute.default_name@,
    ) + "[**"@ + attribute.priority.small_name() + "**][**"@ + attribute.predicate.name()
        + "**]: \n\n"@ + indented(attribute.description@) + "\n\n"@
}

/// The entries for `attributes`, one after the other.
pub open spec fn attribute_entries(attributes: Seq<AttributeSpec>) -> Seq<char>
    decreases attributes.len(),
{
    if attributes.len() == 0 {
        Seq::empty()
    } else {
        attribute_entries(attributes.drop_last()) + attribute_entry(attributes.last())
    }
}

/// The part of the description that comes before the attributes.
pub open spec fn description_head(template: TemplateSpec, heading_depth: nat) -> Seq<char> {
    repeated("#"@, heading_depth) + "#"@ + " Documentation for `"@ + template.default_name@
        + "` ["@ + template.format.small_name() + "]\n\n"@ + "Other names: *"@ + joined(
        template.names@,
        ", "@,
    ) + "*\n\n"@ + template.description@ + "\n\n"@ + repeated("#"@, heading_depth) + "##"@
        + " Template Attributes:\n\n"@
}

/// The description of `template` as CommonMark, with headings
/// `heading_depth` levels down.
pub open spec fn description(template: TemplateSpec, heading_depth: nat) -> Seq<char> {
    description_head(template, heading_depth) + attribute_entries(template.attributes@)
}

/// Writes the entry for one attribute.
fn attribute_description(attribute: &AttributeSpec) -> (out: String)
    ensures
        out@ == attribute_entry(*attribute),
{
    let mut out = "  - `".to_owned();
    out.append(attribute.default_name());
    out.append("` ");
    let mut note = String::new();
    let other = join(&others(&attribute.names, attribute.default_name()), ", ");
    if !other.as_str().is_empty() {
        note.append("*(");
        note.append(other.as_str());
        note.append(")* ");
        assert(note@ =~= "*("@ + other@ + ")* "@);
    }
    out.append(note.as_str());
    out.append("[**");
    out.append(attribute.priority.get_small_name());
    out.append("**][**");
    out.append(attribute.predicate_name());
    out.append("**]: \n\n");
    out.append(indent(attribute.description.as_str()).as_str());
    out.append("\n\n");
    out
}

/// Renders the specification of a template as CommonMark. `heading_depth`
/// is added to the depth of the headings produced.
pub fn template_description(template: &TemplateSpec, heading_depth: usize) -> (out: String)
    ensures
        out@ == description(*template, heading_depth as nat),
{
    let mut out = repeat("#", heading_depth);
    out.append("#");
    out.append(" Documentation for `");
    out.append(template.default_name());
    out.append("` [");
    out.append(template.format.get_small_name());
    out.append("]\n\n");
    out.append("Other names: *");
    out.append(join(&template.names, ", ").as_str());
    out.append("*\n\n");
    out.append(template.description.as_str());
    out.append("\n\n");
    out.append(repeat("#", heading_depth).as_str());
    out.append("##");
    out.append(" Template Attributes:\n\n");
    let mut i: usize = 0;
    while i < template.attributes.len()
        invariant
            0 <= i <= template.attributes@.len(),
            out@ == description_head(*template, heading_depth as nat) + attribute_entries(
                template.attributes@.take(i as int),
            ),
        decreases template.attributes@.len() - i,
    {
        let entry = attribute_description(&template.attributes[i]);
        proof {
            let done = template.attributes@.take(i as int);
            assert(template.attributes@.take(i + 1).drop_last() =~= done);
            assert(template.attributes@.take(i + 1).last() == template.attributes@[i as int]);
            assert(description_head(*template, heading_depth as nat) + (attribute_entries(done)
                + entry@) =~= description_head(*template, heading_depth as nat)
                + attribute_entries(done) + entry@);
        }
        out.append(entry.as_str());
        i += 1;
    }
    proof {
        assert(template.attributes@.take(i as int) =~= template.attributes@);
    }
    out
}

} // verus!
