//! Holding a template invocation to its specification.

use crate::element::{Element, Template, TemplateArgument};
use crate::first::{first_some, lemma_first_some_at, lemma_first_some_none};
use crate::outcome::{outcome, Blame, PredError, PredResult};
use crate::predicates::{get_template_spec, no_specification, predicate_blame, resolved};
use crate::quantifier::{always, each_judged, everywhere, lemma_visited_outcome, sibling_lists};
use crate::registry::{
    contains_name, lists_name, AttributeSpec, Priority, Registry, TemplateSpec,
};
use crate::text::{extract_plain_text, plain_text};
use vstd::prelude::*;
use vstd::string::StringExecFns;

verus! {

/// The choice of the arguments that go by one of `names`.
pub open spec fn argument_named(names: Seq<String>) -> spec_fn(Element) -> Option<
    TemplateArgument,
> {
    |e: Element|
        match e {
            Element::TemplateArgument(a) => if lists_name(names, a.name@) {
                Some(a)
            } else {
                None
            },
            _ => None,
        }
}

/// The first argument in `content` that goes by one of `names`.
pub open spec fn find_argument(content: Seq<Element>, names: Seq<String>) -> Option<
    TemplateArgument,
> {
    first_some(content, argument_named(names))
}

/// Finds the first argument in `content` that goes by one of `names`. Names
/// are matched exactly.
pub fn find_arg<'e>(content: &'e [Element], names: &Vec<String>) -> (found: Option<
    &'e TemplateArgument,
>)
    ensures
        match found {
            Some(a) => find_argument(content@, names@) == Some(*a),
            None => find_argument(content@, names@) is None,
        },
{
    let mut i: usize = 0;
    while i < content.len()
        invariant
            0 <= i <= content@.len(),
            forall|j: int| 0 <= j < i ==> argument_named(names@)(#[trigger] content@[j]) is None,
        decreases content@.len() - i,
    {
        match &content[i] {
            Element::TemplateArgument(a) => {
                if contains_name(names, a.name.as_str()) {
                    proof {
                        lemma_first_some_at(content@, argument_named(names@), i as int);
                    }
                    return Some(a);
                }
            },
            _ => {},
        }
        i += 1;
    }
    proof {
        lemma_first_some_none(content@, argument_named(names@));
    }
    None
}

/// The blame for the template named `template` when it lacks the required
/// attribute `attribute`.
pub open spec fn missing_attribute(template: Seq<char>, attribute: Seq<char>) -> Blame {
    Blame {
        tree: None,
        cause: "\""@ + template + "\" is missing the required attribute \""@ + attribute + "\"!"@,
    }
}

/// What the attribute `attribute` says of the arguments `content` of the
/// template named `template`: what its check says of the argument that goes
/// by one of its names, or, without such an argument, that it is missing if
/// it is required.
pub open spec fn attribute_blame(
    specs: Seq<TemplateSpec>,
    template: Seq<char>,
    content: Seq<Element>,
    attribute: AttributeSpec,
) -> Option<Blame> {
    match find_argument(content, attribute.names@) {
        Some(argument) => predicate_blame(specs, attribute.predicate, argument.value@),
        None => if attribute.priority == Priority::Required {
            Some(missing_attribute(template, attribute.default_name@))
        } else {
            None
        },
    }
}

/// [`attribute_blame`] as a value.
pub open spec fn attribute_judgment(
    specs: Seq<TemplateSpec>,
    template: Seq<char>,
    content: Seq<Element>,
) -> spec_fn(AttributeSpec) -> Option<Blame> {
    |attribute: AttributeSpec| attribute_blame(specs, template, content, attribute)
}

/// What [`validate`] says of `template`: that it has no specification,
/// where it resolves to none, or the first blame that an attribute of its
/// specification gives, in the order in which the attributes are declared.
pub open spec fn validation_blame(specs: Seq<TemplateSpec>, template: Template) -> Option<Blame> {
    let name = plain_text(template.name@);
    match resolved(specs, template) {
        None => Some(no_specification(name)),
        Some(spec) => first_some(
            spec.attributes@,
            attribute_judgment(specs, name, template.content@),
        ),
    }
}

/// Holds `template` to the specification that it resolves to in `registry`.
/// A template whose name is not plain text resolves to none, like one
/// whose name no specification has.
pub fn validate<'e>(registry: &Registry, template: &'e Template) -> (r: PredResult<'e>)
    ensures
        outcome(r) == validation_blame(registry@, *template),
{
    let spec = match get_template_spec(registry, template) {
        Ok(spec) => spec,
        Err(e) => {
            return Err(e);
        },
    };
    let ghost name = plain_text(template.name@);
    let ghost judgment = attribute_judgment(registry@, name, template.content@);
    let mut i: usize = 0;
    while i < spec.attributes.len()
        invariant
            0 <= i <= spec.attributes@.len(),
            name == plain_text(template.name@),
            resolved(registry@, *template) == Some(*spec),
            judgment == attribute_judgment(registry@, name, template.content@),
            forall|j: int| 0 <= j < i ==> judgment(#[trigger] spec.attributes@[j]) is None,
        decreases spec.attributes@.len() - i,
    {
        let attribute = &spec.attributes[i];
        match find_arg(template.content.as_slice(), &attribute.names) {
            Some(argument) => {
                let r = attribute.predicate.check(registry, argument.value.as_slice());
                if r.is_err() {
                    proof {
                        lemma_first_some_at(spec.attributes@, judgment, i as int);
                    }
                    return r;
                }
            },
            None => {
                match attribute.priority {
                    Priority::Required => {
                        let text = extract_plain_text(template.name.as_slice());
                        let mut cause = "\"".to_owned();
                        cause.append(text.as_str());
                        cause.append("\" is missing the required attribute \"");
                        cause.append(attribute.default_name.as_str());
                        cause.append("\"!");
                        proof {
                            lemma_first_some_at(spec.attributes@, judgment, i as int);
                        }
                        return Err(PredError { tree: None, cause });
                    },
                    _ => {},
                }
            },
        }
        i += 1;
    }
    proof {
        lemma_first_some_none(spec.attributes@, judgment);
    }
    Ok(())
}

/// What validation says of one element: of a template what [`validate`]
/// says of it, of any other element nothing.
pub open spec fn template_judge(specs: Seq<TemplateSpec>, e: Element) -> Option<Blame> {
    match e {
        Element::Template(t) => validation_blame(specs, t),
        _ => None,
    }
}

/// [`template_judge`] as a value.
pub open spec fn template_judgment(specs: Seq<TemplateSpec>) -> spec_fn(Element) -> Option<Blame> {
    |e: Element| template_judge(specs, e)
}

/// Validates the templates among `elems`, in their order.
fn validate_each<'e>(registry: &Registry, elems: &'e [Element]) -> (r: PredResult<'e>)
    ensures
        outcome(r) == first_some(elems@, template_judgment(registry@)),
{
    let mut i: usize = 0;
    while i < elems.len()
        invariant
            0 <= i <= elems@.len(),
            forall|j: int|
                0 <= j < i ==> template_judgment(registry@)(#[trigger] elems@[j]) is None,
        decreases elems@.len() - i,
    {
        match &elems[i] {
            Element::Template(template) => {
                let r = validate(registry, template);
                if r.is_err() {
                    proof {
                        lemma_first_some_at(elems@, template_judgment(registry@), i as int);
                    }
                    return r;
                }
            },
            _ => {},
        }
        i += 1;
    }
    proof {
        lemma_first_some_none(elems@, template_judgment(registry@));
    }
    Ok(())
}

/// Validates every template of the tree rooted at `elems` and returns the
/// first failure, in the order in which [`always`] visits the tree.
pub fn validate_tree<'e>(registry: &Registry, elems: &'e [Element]) -> (r: PredResult<'e>)
    ensures
        outcome(r) == everywhere(elems@, template_judgment(registry@)),
{
    let shallow = |list: &'e [Element]| -> (r: PredResult<'e>)
        ensures
            outcome(r) == first_some(list@, template_judgment(registry@)),
        { validate_each(registry, list) };
    let r = always(elems, &shallow);
    proof {
        lemma_visited_outcome(
            &shallow,
            sibling_lists(elems@),
            r,
            each_judged(template_judgment(registry@)),
        );
    }
    r
}

/// A template whose specification requires an attribute for which it has no
/// argument is told that the attribute is missing, where the attributes
/// declared before that one give no blame.
pub proof fn lemma_required_attribute_missing(
    specs: Seq<TemplateSpec>,
    template: Template,
    spec: TemplateSpec,
    i: int,
)
    requires
        resolved(specs, template) == Some(spec),
        0 <= i < spec.attributes@.len(),
        forall|j: int|
            0 <= j < i ==> attribute_blame(
                specs,
                plain_text(template.name@),
                template.content@,
                #[trigger] spec.attributes@[j],
            ) is None,
        spec.attributes@[i].priority == Priority::Required,
        find_argument(template.content@, spec.attributes@[i].names@) is None,
    ensures
        validation_blame(specs, template) == Some(
            missing_attribute(plain_text(template.name@), spec.attributes@[i].default_name@),
        ),
{
    let judgment = attribute_judgment(specs, plain_text(template.name@), template.content@);
    assert forall|j: int| 0 <= j < i implies judgment(#[trigger] spec.attributes@[j]) is None by {}
    lemma_first_some_at(spec.attributes@, judgment, i);
}

/// Where the check of an attribute fails on the argument given for it, the
/// template fails with the very blame of that check, where the attributes
/// declared before that one give no blame.
pub proof fn lemma_predicate_failure_unchanged(
    specs: Seq<TemplateSpec>,
    template: Template,
    spec: TemplateSpec,
    i: int,
    argument: TemplateArgument,
)
    requires
        resolved(specs, template) == Some(spec),
        0 <= i < spec.attributes@.len(),
        forall|j: int|
            0 <= j < i ==> attribute_blame(
                specs,
                plain_text(template.name@),
                template.content@,
                #[trigger] spec.attributes@[j],
            ) is None,
        find_argument(template.content@, spec.attributes@[i].names@) == Some(argument),
        predicate_blame(specs, spec.attributes@[i].predicate, argument.value@) is Some,
    ensures
        validation_blame(specs, template) == predicate_blame(
            specs,
            spec.attributes@[i].predicate,
            argument.value@,
        ),
{
    let judgment = attribute_judgment(specs, plain_text(template.name@), template.content@);
    assert forall|j: int| 0 <= j < i implies judgment(#[trigger] spec.attributes@[j]) is None by {}
    lemma_first_some_at(spec.attributes@, judgment, i);
}

/// Validating one template twice against one registry says the same both
/// times.
pub proof fn lemma_validate_twice<'e>(
    registry: &Registry,
    template: &'e Template,
    first: PredResult<'e>,
    second: PredResult<'e>,
)
    requires
        call_ensures(validate, (registry, template), first),
        call_ensures(validate, (registry, template), second),
    ensures
        outcome(first) == outcome(second),
{
}

} // verus!
