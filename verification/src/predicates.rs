//! The checks that the content of an attribute can be held to.

use crate::element::{Element, MarkupType, Template};
use crate::first::{first_some, lemma_first_some_at, lemma_first_some_none};
use crate::outcome::{outcome, Blame, PredError, PredResult};
use crate::quantifier::{always, each_judged, everywhere, lemma_visited_outcome, sibling_lists};
use crate::registry::{find_spec, well_formed, Format, Predicate, Registry, TemplateSpec};
use crate::text::{extract_plain_text, plain_text, str_eq, trim, trimmed};
use vstd::prelude::*;
use vstd::string::StringExecFns;

verus! {

/// What [`is_math_tag`] says of `elems`.
pub open spec fn math_tag_blame(elems: Seq<Element>) -> Option<Blame> {
    if elems.len() != 1 {
        Some(
            Blame {
                tree: None,
                cause: "There is none or more than one element in this math tag!"@,
            },
        )
    } else {
        match elems[0] {
            Element::Formatted(f) => if f.markup == MarkupType::Math {
                None
            } else {
                Some(Blame { tree: Some(elems[0]), cause: "This is not math-formatted!"@ })
            },
            _ => Some(Blame { tree: Some(elems[0]), cause: "This is not math-formatted text!"@ }),
        }
    }
}

/// The list holds one element, and that is content in math markup.
pub fn is_math_tag<'e>(elems: &'e [Element]) -> (r: PredResult<'e>)
    ensures
        outcome(r) == math_tag_blame(elems@),
        r is Ok <==> elems@.len() == 1 && (elems@[0] matches Element::Formatted(f) && f.markup
            == MarkupType::Math),
{
    if elems.len() != 1 {
        return Err(
            PredError {
                tree: None,
                cause: "There is none or more than one element in this math tag!".to_owned(),
            },
        );
    }
    match &elems[0] {
        Element::Formatted(f) => {
            match f.markup {
                MarkupType::Math => Ok(()),
                _ => Err(
                    PredError {
                        tree: Some(&elems[0]),
                        cause: "This is not math-formatted!".to_owned(),
                    },
                ),
            }
        },
        _ => Err(
            PredError {
                tree: Some(&elems[0]),
                cause: "This is not math-formatted text!".to_owned(),
            },
        ),
    }
}

/// What plain text says of one element: a `Paragraph` and a `Text` pass,
/// anything else is blamed by the name of its variant.
pub open spec fn plain_text_judge(e: Element) -> Option<Blame> {
    match e {
        Element::Paragraph(_) | Element::Text(_) => None,
        _ => Some(
            Blame {
                tree: Some(e),
                cause: e.variant_name() + " markup is not allowed in plain text!"@,
            },
        ),
    }
}

/// [`plain_text_judge`] as a value.
pub open spec fn plain_text_judgment() -> spec_fn(Element) -> Option<Blame> {
    |e: Element| plain_text_judge(e)
}

/// What [`is_plain_text`] says of `elems`.
pub open spec fn plain_text_blame(elems: Seq<Element>) -> Option<Blame> {
    everywhere(elems, plain_text_judgment())
}

/// Blames the first element of `elements` that is neither a `Paragraph` nor
/// a `Text`.
fn plain_text_shallow<'e>(elements: &'e [Element]) -> (r: PredResult<'e>)
    ensures
        outcome(r) == first_some(elements@, plain_text_judgment()),
{
    let mut i: usize = 0;
    while i < elements.len()
        invariant
            0 <= i <= elements@.len(),
            forall|j: int| 0 <= j < i ==> plain_text_judgment()(#[trigger] elements@[j]) is None,
        decreases elements@.len() - i,
    {
        let elem = &elements[i];
        let allowed = match elem {
            Element::Paragraph(_) | Element::Text(_) => true,
            _ => false,
        };
        if !allowed {
            let mut cause = elem.get_variant_name().to_owned();
            cause.append(" markup is not allowed in plain text!");
            proof {
                lemma_first_some_at(elements@, plain_text_judgment(), i as int);
            }
            return Err(PredError { tree: Some(elem), cause });
        }
        i += 1;
    }
    proof {
        lemma_first_some_none(elements@, plain_text_judgment());
    }
    Ok(())
}

/// Paragraphs and text, without any markup or other content, at every depth.
pub fn is_plain_text<'e>(elems: &'e [Element]) -> (r: PredResult<'e>)
    ensures
        outcome(r) == plain_text_blame(elems@),
{
    let shallow = |list: &'e [Element]| -> (r: PredResult<'e>)
        ensures
            outcome(r) == first_some(list@, plain_text_judgment()),
        { plain_text_shallow(list) };
    let r = always(elems, &shallow);
    proof {
        lemma_visited_outcome(
            &shallow,
            sibling_lists(elems@),
            r,
            each_judged(plain_text_judgment()),
        );
    }
    r
}

/// The one cause that [`is_negative_switch`] gives.
pub open spec fn negative_switch_cause() -> Seq<char> {
    "The content of this argument is only allowed to be \"nein\"."@
}

/// What [`is_negative_switch`] says of `elems`.
pub open spec fn negative_switch_blame(elems: Seq<Element>) -> Option<Blame> {
    if plain_text_blame(elems) is None && trimmed(plain_text(elems)) == "nein"@ {
        None
    } else {
        Some(
            Blame {
                tree: if elems.len() > 0 {
                    Some(elems[0])
                } else {
                    None
                },
                cause: negative_switch_cause(),
            },
        )
    }
}

/// The content is plain text and reads "nein" once the white space around
/// it is cut off.
pub fn is_negative_switch<'e>(elems: &'e [Element]) -> (r: PredResult<'e>)
    ensures
        outcome(r) == negative_switch_blame(elems@),
{
    let plain = is_plain_text(elems);
    if plain.is_ok() {
        let text = extract_plain_text(elems);
        if str_eq(trim(text.as_str()), "nein") {
            return Ok(());
        }
    }
    let tree = if elems.len() > 0 {
        Some(&elems[0])
    } else {
        None
    };
    Err(
        PredError {
            tree,
            cause: "The content of this argument is only allowed to be \"nein\".".to_owned(),
        },
    )
}

/// The one cause that [`is_navigation_spec`] gives.
pub open spec fn navigation_cause() -> Seq<char> {
    "Wrong formatting for the navigation. For the header only the variant \"{{#invoke:Mathe für Nicht-Freaks/Seite|oben}}\" is allowed. The footer only admits the code \"{{#invoke:Mathe für Nicht-Freaks/Seite|unten}}\"."@
}

/// `elems` is one `Text` that reads "oben" or "unten".
pub open spec fn is_navigation(elems: Seq<Element>) -> bool {
    elems.len() == 1 && (elems[0] matches Element::Text(t) && (t.text@ == "oben"@ || t.text@
        == "unten"@))
}

/// What [`is_navigation_spec`] says of `elems`.
pub open spec fn navigation_blame(elems: Seq<Element>) -> Option<Blame> {
    if is_navigation(elems) {
        None
    } else {
        Some(Blame { tree: None, cause: navigation_cause() })
    }
}

/// The content is the one word "oben" or the one word "unten".
pub fn is_navigation_spec<'e>(elems: &'e [Element]) -> (r: PredResult<'e>)
    ensures
        outcome(r) == navigation_blame(elems@),
{
    if elems.len() == 1 {
        match &elems[0] {
            Element::Text(t) => {
                if str_eq(t.text.as_str(), "oben") || str_eq(t.text.as_str(), "unten") {
                    return Ok(());
                }
            },
            _ => {},
        }
    }
    Err(
        PredError {
            tree: None,
            cause: "Wrong formatting for the navigation. For the header only the variant \"{{#invoke:Mathe für Nicht-Freaks/Seite|oben}}\" is allowed. The footer only admits the code \"{{#invoke:Mathe für Nicht-Freaks/Seite|unten}}\".".to_owned(),
        },
    )
}

/// The blame for a template whose name, `name`, no specification has.
pub open spec fn no_specification(name: Seq<char>) -> Blame {
    Blame { tree: None, cause: "\""@ + name + "\" has no specification!"@ }
}

/// The specification that `template` resolves to: the one that has the
/// text of its name, where the name is plain text. A name that holds
/// anything but paragraphs and text resolves to none, whatever its text.
pub open spec fn resolved(specs: Seq<TemplateSpec>, template: Template) -> Option<TemplateSpec> {
    if plain_text_blame(template.name@) is None {
        find_spec(specs, plain_text(template.name@))
    } else {
        None
    }
}

/// Finds the specification of `template` by the text of its name.
///
/// A name that is not plain text and a name that no specification has are
/// one and the same failure: both are told that the template has no
/// specification, with the text of the name in the message and no subtree
/// blamed.
pub fn get_template_spec<'r, 'e>(registry: &'r Registry, template: &'e Template) -> (r: Result<
    &'r TemplateSpec,
    PredError<'e>,
>)
    ensures
        well_formed(registry@),
        match r {
            Ok(spec) => resolved(registry@, *template) == Some(*spec),
            Err(e) => resolved(registry@, *template) is None && e@ == no_specification(
                plain_text(template.name@),
            ),
        },
{
    let name = extract_plain_text(template.name.as_slice());
    let found = registry.spec_of(name.as_str());
    if is_plain_text(template.name.as_slice()).is_ok() {
        if let Some(spec) = found {
            return Ok(spec);
        }
    }
    let mut cause = "\"".to_owned();
    cause.append(name.as_str());
    cause.append("\" has no specification!");
    Err(PredError { tree: None, cause })
}

/// What inline content says of one element. A template passes when it
/// resolves to a specification and that is inline; of the other elements,
/// those pass that may stand in a line.
pub open spec fn inline_judge(specs: Seq<TemplateSpec>, e: Element) -> Option<Blame> {
    match e {
        Element::Template(t) => match resolved(specs, t) {
            None => Some(no_specification(plain_text(t.name@))),
            Some(spec) => if spec.format == Format::Inline {
                None
            } else {
                Some(
                    Blame {
                        tree: Some(e),
                        cause: "\""@ + plain_text(t.name@) + "\" is not an inline template!"@,
                    },
                )
            },
        },
        Element::Text(_)
        | Element::ExternalReference(_)
        | Element::InternalReference(_)
        | Element::Formatted(_)
        | Element::Paragraph(_)
        | Element::Comment(_)
        | Element::HtmlTag(_)
        | Element::TemplateArgument(_)
        | Element::ListItem(_) => None,
        _ => Some(Blame { tree: Some(e), cause: e.variant_name() + " is not inline only!"@ }),
    }
}

/// [`inline_judge`] as a value.
pub open spec fn inline_judgment(specs: Seq<TemplateSpec>) -> spec_fn(Element) -> Option<Blame> {
    |e: Element| inline_judge(specs, e)
}

/// What [`is_inline_only`] says of `elems`.
pub open spec fn inline_only_blame(specs: Seq<TemplateSpec>, elems: Seq<Element>) -> Option<Blame> {
    everywhere(elems, inline_judgment(specs))
}

/// Blames the first element of `elems` that may not stand in a line.
fn inline_shallow<'e>(registry: &Registry, elems: &'e [Element]) -> (r: PredResult<'e>)
    ensures
        outcome(r) == first_some(elems@, inline_judgment(registry@)),
{
    let mut i: usize = 0;
    while i < elems.len()
        invariant
            0 <= i <= elems@.len(),
            forall|j: int|
                0 <= j < i ==> inline_judgment(registry@)(#[trigger] elems@[j]) is None,
        decreases elems@.len() - i,
    {
        let elem = &elems[i];
        proof {
            lemma_first_some_at_if(elems@, inline_judgment(registry@), i as int);
        }
        match elem {
            Element::Template(template) => {
                match get_template_spec(registry, template) {
                    Err(e) => {
                        return Err(e);
                    },
                    Ok(spec) => {
                        match spec.format {
                            Format::Inline => {},
                            _ => {
                                let mut cause = "\"".to_owned();
                                let name = extract_plain_text(template.name.as_slice());
                                cause.append(name.as_str());
                                cause.append("\" is not an inline template!");
                                return Err(PredError { tree: Some(elem), cause });
                            },
                        }
                    },
                }
            },
            Element::Text(_)
            | Element::ExternalReference(_)
            | Element::InternalReference(_)
            | Element::Formatted(_)
            | Element::Paragraph(_)
            | Element::Comment(_)
            | Element::HtmlTag(_)
            | Element::TemplateArgument(_)
            | Element::ListItem(_) => {},
            _ => {
                let mut cause = elem.get_variant_name().to_owned();
                cause.append(" is not inline only!");
                return Err(PredError { tree: Some(elem), cause });
            },
        }
        i += 1;
    }
    proof {
        lemma_first_some_none(elems@, inline_judgment(registry@));
    }
    Ok(())
}

/// Where `f` gives nothing before position `i`, `first_some` gives what `f`
/// gives at `i` if it gives anything there.
proof fn lemma_first_some_at_if<A, B>(s: Seq<A>, f: spec_fn(A) -> Option<B>, i: int)
    requires
        0 <= i < s.len(),
        forall|j: int| 0 <= j < i ==> f(#[trigger] s[j]) is None,
    ensures
        f(s[i]) is Some ==> first_some(s, f) == f(s[i]),
{
    if f(s[i]) is Some {
        lemma_first_some_at(s, f, i);
    }
}

/// The content may stand in a line, at every depth: no block element, and
/// no template but an inline one.
pub fn is_inline_only<'e>(registry: &Registry, elems: &'e [Element]) -> (r: PredResult<'e>)
    ensures
        outcome(r) == inline_only_blame(registry@, elems@),
{
    let shallow = |list: &'e [Element]| -> (r: PredResult<'e>)
        ensures
            outcome(r) == first_some(list@, inline_judgment(registry@)),
        { inline_shallow(registry, list) };
    let r = always(elems, &shallow);
    proof {
        lemma_visited_outcome(
            &shallow,
            sibling_lists(elems@),
            r,
            each_judged(inline_judgment(registry@)),
        );
    }
    r
}

/// What block or inline content says of one element. A template passes when
/// it resolves to a specification and that is inline or block; of the
/// other elements, a `Document` and a `Heading` do not pass.
pub open spec fn block_judge(specs: Seq<TemplateSpec>, e: Element) -> Option<Blame> {
    match e {
        Element::Template(t) => match resolved(specs, t) {
            None => Some(no_specification(plain_text(t.name@))),
            Some(spec) => if spec.format == Format::Inline || spec.format == Format::Block {
                None
            } else {
                Some(
                    Blame {
                        tree: Some(e),
                        cause: "\""@ + plain_text(t.name@)
                            + "\" is not a block or inline template!"@,
                    },
                )
            },
        },
        Element::Text(_)
        | Element::TemplateArgument(_)
        | Element::ExternalReference(_)
        | Element::InternalReference(_)
        | Element::Formatted(_)
        | Element::Comment(_)
        | Element::HtmlTag(_)
        | Element::Table(_)
        | Element::TableRow(_)
        | Element::TableCell(_)
        | Element::Paragraph(_)
        | Element::List(_)
        | Element::ListItem(_)
        | Element::Gallery(_)
        | Element::Error(_) => None,
        _ => Some(Blame { tree: Some(e), cause: e.variant_name() + " is not block/ inline!"@ }),
    }
}

/// [`block_judge`] as a value.
pub open spec fn block_judgment(specs: Seq<TemplateSpec>) -> spec_fn(Element) -> Option<Blame> {
    |e: Element| block_judge(specs, e)
}

/// What [`block_or_inline`] says of `elems`.
pub open spec fn block_or_inline_blame(specs: Seq<TemplateSpec>, elems: Seq<Element>) -> Option<
    Blame,
> {
    everywhere(elems, block_judgment(specs))
}

/// Blames the first element of `elems` that is neither block nor inline
/// content.
fn block_shallow<'e>(registry: &Registry, elems: &'e [Element]) -> (r: PredResult<'e>)
    ensures
        outcome(r) == first_some(elems@, block_judgment(registry@)),
{
    let mut i: usize = 0;
    while i < elems.len()
        invariant
            0 <= i <= elems@.len(),
            forall|j: int| 0 <= j < i ==> block_judgment(registry@)(#[trigger] elems@[j]) is None,
        decreases elems@.len() - i,
    {
        let elem = &elems[i];
        proof {
            lemma_first_some_at_if(elems@, block_judgment(registry@), i as int);
        }
        match elem {
            Element::Template(template) => {
                match get_template_spec(registry, template) {
                    Err(e) => {
                        return Err(e);
                    },
                    Ok(spec) => {
                        match spec.format {
                            Format::Inline | Format::Block => {},
                            _ => {
                                let mut cause = "\"".to_owned();
                                let name = extract_plain_text(template.name.as_slice());
                                cause.append(name.as_str());
                                cause.append("\" is not a block or inline template!");
                                return Err(PredError { tree: Some(elem), cause });
                            },
                        }
                    },
                }
            },
            Element::Text(_)
            | Element::TemplateArgument(_)
            | Element::ExternalReference(_)
            | Element::InternalReference(_)
            | Element::Formatted(_)
            | Element::Comment(_)
            | Element::HtmlTag(_)
            | Element::Table(_)
            | Element::TableRow(_)
            | Element::TableCell(_)
            | Element::Paragraph(_)
            | Element::List(_)
            | Element::ListItem(_)
            | Element::Gallery(_)
            | Element::Error(_) => {},
            _ => {
                let mut cause = elem.get_variant_name().to_owned();
                cause.append(" is not block/ inline!");
                return Err(PredError { tree: Some(elem), cause });
            },
        }
        i += 1;
    }
    proof {
        lemma_first_some_none(elems@, block_judgment(registry@));
    }
    Ok(())
}

/// The content is block or inline content, at every depth: no template but
/// an inline or a block one.
pub fn block_or_inline<'e>(registry: &Registry, elems: &'e [Element]) -> (r: PredResult<'e>)
    ensures
        outcome(r) == block_or_inline_blame(registry@, elems@),
{
    let shallow = |list: &'e [Element]| -> (r: PredResult<'e>)
        ensures
            outcome(r) == first_some(list@, block_judgment(registry@)),
        { block_shallow(registry, list) };
    let r = always(elems, &shallow);
    proof {
        lemma_visited_outcome(
            &shallow,
            sibling_lists(elems@),
            r,
            each_judged(block_judgment(registry@)),
        );
    }
    r
}

/// Any content passes.
pub fn everything_is_allowed<'e>(_elems: &'e [Element]) -> (r: PredResult<'e>)
    ensures
        r is Ok,
{
    Ok(())
}

/// What the check `predicate` says of `elems`.
pub open spec fn predicate_blame(
    specs: Seq<TemplateSpec>,
    predicate: Predicate,
    elems: Seq<Element>,
) -> Option<Blame> {
    match predicate {
        Predicate::IsMathTag => math_tag_blame(elems),
        Predicate::IsPlainText => plain_text_blame(elems),
        Predicate::IsNegativeSwitch => negative_switch_blame(elems),
        Predicate::IsNavigationSpec => navigation_blame(elems),
        Predicate::IsInlineOnly => inline_only_blame(specs, elems),
        Predicate::BlockOrInline => block_or_inline_blame(specs, elems),
        Predicate::EverythingIsAllowed => None,
    }
}

impl Predicate {
    /// Holds `elems` to this check.
    pub fn check<'e>(&self, registry: &Registry, elems: &'e [Element]) -> (r: PredResult<'e>)
        ensures
            outcome(r) == predicate_blame(registry@, *self, elems@),
    {
        match self {
            Predicate::IsMathTag => is_math_tag(elems),
            Predicate::IsPlainText => is_plain_text(elems),
            Predicate::IsNegativeSwitch => is_negative_switch(elems),
            Predicate::IsNavigationSpec => is_navigation_spec(elems),
            Predicate::IsInlineOnly => is_inline_only(registry, elems),
            Predicate::BlockOrInline => block_or_inline(registry, elems),
            Predicate::EverythingIsAllowed => everything_is_allowed(elems),
        }
    }
}

} // verus!
